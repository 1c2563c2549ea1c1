//! The card game environment: the two players' decks and the outcome of
//! a match.

use vstd::prelude::*;
use crate::deck::{CardId, Deck, DECK_SIZE};
use crate::errors::EvalError;
use crate::eval::{evolves_to, lemma_evolves_to_refl, lemma_evolves_to_trans, lemma_sg_evolves_wf,
    EvaluatorState};
use crate::mocking::{DEFAULT_FORT_DEFENSE, ENDGAME_VARIABLE, PLAYING_FIELD_RES_PATH,
    SECOND_PLAYER_FORT_ADVANTAGE, TURN_TRANSITIONS_RES_PATH};
use crate::heap::{field_index_of, Heap};
use crate::rng::SeededRng;
use crate::value::Value;

verus! {

/// The hard ceiling on full turns before a match is abandoned.
pub const TURN_LIMIT: usize = 200;

/// The resource path of the scripted player agent a match installs.
pub const LOOKAHEAD_AI_AGENT_PATH: &'static str =
    "res://card_game/playing_field/player_agent/lookahead_ai_agent/lookahead_ai_agent.gd";

/// The error on driving one match.
#[derive(Debug)]
pub enum GameEngineError {
    EvalError(EvalError),
    BadDeckSize,
    UnknownResult(String),
}

/// The text the scripts record for a winner.
pub open spec fn winner_text_spec(w: GameWinner) -> Seq<char> {
    match w {
        GameWinner::Top => "TOP"@,
        GameWinner::Bottom => "BOTTOM"@,
    }
}

/// The endgame attribute of the object `oid`, if the object exists and
/// carries one.
pub open spec fn endgame_record_spec(heap: &Heap, oid: int) -> Option<Value> {
    if 0 <= oid < heap.objects@.len() {
        match field_index_of(heap.objects@[oid].fields@, ENDGAME_VARIABLE@) {
            Some(fi) => Some(heap.objects@[oid].fields@[fi].1),
            None => None,
        }
    } else {
        None
    }
}

/// The contents of the players' decks at the start of a card game.
#[derive(Debug, Clone, PartialEq, Eq)]
pub struct CardGameEnv {
    pub bottom_deck: Deck,
    pub top_deck: Deck,
}

/// The winner of one match.
#[derive(Debug, Clone, Copy, PartialEq, Eq, Structural)]
pub enum GameWinner {
    Bottom,
    Top,
}

impl GameWinner {
    /// The engine-side name of the winning player.
    pub fn as_text(&self) -> (r: &'static str)
        ensures
            *self == GameWinner::Bottom ==> r@ == "BOTTOM"@,
            *self == GameWinner::Top ==> r@ == "TOP"@,
    {
        match self {
            GameWinner::Bottom => "BOTTOM",
            GameWinner::Top => "TOP",
        }
    }
}

impl EvaluatorState {
    /// Plays one match from a seed: the random stream is reseeded, so
    /// the same seed, decks and loaded scripts replay the same match.
    pub fn play_game_seeded(&mut self, env: &CardGameEnv, seed: u64, fuel: u64) -> (r: Result<
        GameWinner,
        GameEngineError,
    >)
        requires
            old(self).sg.wf(),
        ensures
            final(self).sg.wf(),
            evolves_to(&*old(self), &*final(self)),
            // Exactly a wrong-sized deck is the deck-size error,
            // checked before any game state is touched.
            r matches Err(GameEngineError::BadDeckSize) <==> (env.bottom_deck@.len() != DECK_SIZE
                || env.top_deck@.len() != DECK_SIZE),
            // A winner is read off the endgame attribute some field
            // object holds at the end, and an unrecognized outcome is
            // exactly an endgame attribute naming neither player.
            r matches Ok(w) ==> exists|oid: int|
                (match #[trigger] endgame_record_spec(&final(self).heap, oid) {
                    Some(Value::Str(s)) => s@ == winner_text_spec(w),
                    _ => false,
                }),
            r matches Err(GameEngineError::UnknownResult(_)) ==> exists|oid: int|
                (match #[trigger] endgame_record_spec(&final(self).heap, oid) {
                    Some(Value::Str(s)) => s@ != "TOP"@ && s@ != "BOTTOM"@,
                    Some(_) => true,
                    None => false,
                }),
        decreases fuel,
    {
        broadcast use lemma_evolves_to_trans, lemma_sg_evolves_wf, lemma_evolves_to_refl;

        if env.bottom_deck.len() != DECK_SIZE || env.top_deck.len() != DECK_SIZE {
            return Err(GameEngineError::BadDeckSize);
        }
        self.rng = SeededRng::from_seed(seed);
        self.play_game(env, fuel)
    }

    /// Plays one match with the current random stream: installs both
    /// decks and agents into a fresh playing field, drives it to an end
    /// state under the turn ceiling, and reads off the winner.
    pub fn play_game(&mut self, env: &CardGameEnv, fuel: u64) -> (r: Result<
        GameWinner,
        GameEngineError,
    >)
        requires
            old(self).sg.wf(),
        ensures
            final(self).sg.wf(),
            evolves_to(&*old(self), &*final(self)),
            // Exactly a wrong-sized deck is the deck-size error,
            // checked before any game state is touched.
            r matches Err(GameEngineError::BadDeckSize) <==> (env.bottom_deck@.len() != DECK_SIZE
                || env.top_deck@.len() != DECK_SIZE),
            // A winner is read off the endgame attribute some field
            // object holds at the end, and an unrecognized outcome is
            // exactly an endgame attribute naming neither player.
            r matches Ok(w) ==> exists|oid: int|
                (match #[trigger] endgame_record_spec(&final(self).heap, oid) {
                    Some(Value::Str(s)) => s@ == winner_text_spec(w),
                    _ => false,
                }),
            r matches Err(GameEngineError::UnknownResult(_)) ==> exists|oid: int|
                (match #[trigger] endgame_record_spec(&final(self).heap, oid) {
                    Some(Value::Str(s)) => s@ != "TOP"@ && s@ != "BOTTOM"@,
                    Some(_) => true,
                    None => false,
                }),
        decreases fuel,
    {
        broadcast use lemma_evolves_to_trans, lemma_sg_evolves_wf, lemma_evolves_to_refl;

        if env.bottom_deck.len() != DECK_SIZE || env.top_deck.len() != DECK_SIZE {
            return Err(GameEngineError::BadDeckSize);
        }
        if fuel == 0 {
            return Err(GameEngineError::EvalError(EvalError::BudgetExhausted));
        }
        let playing_field = match self.initialize_game(env, fuel - 1) {
            Ok(v) => v,
            Err(e) => {
                return Err(GameEngineError::EvalError(e));
            }
        };
        let tt = match self.sg.get_file(TURN_TRANSITIONS_RES_PATH) {
            Some(c) => c,
            None => {
                return Err(
                    GameEngineError::EvalError(
                        EvalError::UndefinedClass(TURN_TRANSITIONS_RES_PATH.to_owned()),
                    ),
                );
            }
        };
        if tt >= self.sg.classes.len() {
            return Err(
                GameEngineError::EvalError(
                    EvalError::DomainError("dangling class reference".to_owned()),
                ),
            );
        }
        let mut call_args: Vec<Value> = Vec::new();
        call_args.push(playing_field.dup());
        call_args.push(Value::Int(TURN_LIMIT as i64));
        match self.call_function_on_class(tt, "play_full_game", call_args, fuel - 1) {
            Ok(_) => {}
            Err(e) => {
                return Err(GameEngineError::EvalError(e));
            }
        }
        // The winner is the endgame attribute the scripts set on the
        // field object itself.
        let oid = match &playing_field {
            Value::ObjectRef(o) => *o,
            other => {
                return Err(
                    GameEngineError::EvalError(
                        EvalError::type_error(
                            "object".to_owned(),
                            crate::eval::kind_name(other).to_owned(),
                        ),
                    ),
                );
            }
        };
        let outcome = match self.heap.object_get_field(oid, ENDGAME_VARIABLE) {
            Ok(Some(v)) => v,
            Ok(None) => {
                return Err(
                    GameEngineError::EvalError(
                        EvalError::UndefinedVariable(ENDGAME_VARIABLE.to_owned()),
                    ),
                );
            }
            Err(e) => {
                return Err(GameEngineError::EvalError(e));
            }
        };
        match outcome {
            Value::Str(winner) => {
                if crate::text::str_eq(winner.as_str(), "TOP") {
                    proof {
                        assert(endgame_record_spec(&self.heap, oid as int) matches Some(v2)
                            && v2 == outcome);
                    }
                    Ok(GameWinner::Top)
                } else if crate::text::str_eq(winner.as_str(), "BOTTOM") {
                    proof {
                        assert(endgame_record_spec(&self.heap, oid as int) matches Some(v2)
                            && v2 == outcome);
                    }
                    Ok(GameWinner::Bottom)
                } else {
                    proof {
                        assert(endgame_record_spec(&self.heap, oid as int) matches Some(v2)
                            && v2 == outcome);
                    }
                    Err(GameEngineError::UnknownResult(winner))
                }
            }
            other => {
                proof {
                    assert(endgame_record_spec(&self.heap, oid as int) matches Some(v2)
                        && v2 == other);
                }
                Err(GameEngineError::UnknownResult(crate::eval::kind_name(&other).to_owned()))
            }
        }
    }

    /// Builds a fresh playing field: both decks dealt and shuffled, both
    /// player agents installed, and the second player's fort advantage
    /// applied.
    fn initialize_game(&mut self, env: &CardGameEnv, fuel: u64) -> (r: Result<Value, EvalError>)
        requires
            old(self).sg.wf(),
        ensures
            final(self).sg.wf(),
            evolves_to(&*old(self), &*final(self)),
            // A successfully initialized match hands back a field
            // object that lives in the final arena.
            r matches Ok(v) ==> v matches Value::ObjectRef(o) && o < final(self).heap.objects@.len(),
        decreases fuel,
    {
        broadcast use lemma_evolves_to_trans, lemma_sg_evolves_wf, lemma_evolves_to_refl;

        if fuel == 0 {
            return Err(EvalError::BudgetExhausted);
        }
        let field_class = match self.sg.get_file(PLAYING_FIELD_RES_PATH) {
            Some(c) => c,
            None => {
                return Err(EvalError::UndefinedClass(PLAYING_FIELD_RES_PATH.to_owned()));
            }
        };
        if field_class >= self.sg.classes.len() {
            return Err(EvalError::DomainError("dangling class reference".to_owned()));
        }
        let playing_field = match self.call_function_on_class(field_class, "new", Vec::new(),
            fuel - 1) {
            Ok(v) => v,
            Err(e) => {
                return Err(e);
            }
        };
        // The synthesized constructor yields an object; anything else
        // cannot carry a match.
        match &playing_field {
            Value::ObjectRef(o) => {
                if *o >= self.heap.objects.len() {
                    return Err(EvalError::DomainError("dangling object reference".to_owned()));
                }
            }
            other => {
                return Err(
                    EvalError::type_error(
                        "object".to_owned(),
                        crate::eval::kind_name(other).to_owned(),
                    ),
                );
            }
        }
        let bottom = match self.create_deck_of_cards(&env.bottom_deck, fuel - 1) {
            Ok(v) => v,
            Err(e) => {
                return Err(e);
            }
        };
        match self.install_deck(&playing_field, "BOTTOM", bottom, fuel - 1) {
            Ok(()) => {}
            Err(e) => {
                return Err(e);
            }
        }
        let top = match self.create_deck_of_cards(&env.top_deck, fuel - 1) {
            Ok(v) => v,
            Err(e) => {
                return Err(e);
            }
        };
        match self.install_deck(&playing_field, "TOP", top, fuel - 1) {
            Ok(()) => {}
            Err(e) => {
                return Err(e);
            }
        }
        match self.install_player_agent(&playing_field, "BOTTOM", fuel - 1) {
            Ok(()) => {}
            Err(e) => {
                return Err(e);
            }
        }
        match self.install_player_agent(&playing_field, "TOP", fuel - 1) {
            Ok(()) => {}
            Err(e) => {
                return Err(e);
            }
        }
        // The second player starts with a fort advantage.
        let boosted = DEFAULT_FORT_DEFENSE + SECOND_PLAYER_FORT_ADVANTAGE;
        let top_stats = match self.get_value(&playing_field, "__evilconsim_statspanel_top",
            fuel - 1) {
            Ok(v) => v,
            Err(e) => {
                return Err(e);
            }
        };
        match self.set_value(&top_stats, "max_fort_defense", Value::Int(boosted), fuel - 1) {
            Ok(()) => {}
            Err(e) => {
                return Err(e);
            }
        }
        match self.set_value(&top_stats, "fort_defense", Value::Int(boosted), fuel - 1) {
            Ok(()) => {}
            Err(e) => {
                return Err(e);
            }
        }
        Ok(playing_field)
    }

    /// Deals one deck: every card instantiated through the codex, then
    /// shuffled with the seeded stream.
    fn create_deck_of_cards(&mut self, deck: &Deck, fuel: u64) -> (r: Result<Value, EvalError>)
        requires
            old(self).sg.wf(),
        ensures
            final(self).sg.wf(),
            evolves_to(&*old(self), &*final(self)),
        decreases fuel,
    {
        broadcast use lemma_evolves_to_trans, lemma_sg_evolves_wf, lemma_evolves_to_refl;

        if fuel == 0 {
            return Err(EvalError::BudgetExhausted);
        }
        let codex = match self.sg.get_class_var("PlayingCardCodex") {
            Some(c) => c,
            None => {
                return Err(EvalError::UnknownClass("PlayingCardCodex".to_owned()));
            }
        };
        if codex >= self.sg.classes.len() {
            return Err(EvalError::DomainError("dangling class reference".to_owned()));
        }
        let mut cards: Vec<Value> = Vec::new();
        let mut i: usize = 0;
        while i < deck.0.len()
            invariant
                old(self).sg.wf(),
                self.sg.wf(),
                evolves_to(&*old(self), &*self),
                fuel >= 1,
                codex < self.sg.classes@.len(),
            decreases deck.0@.len() - i,
        {
            broadcast use lemma_evolves_to_trans, lemma_sg_evolves_wf, lemma_evolves_to_refl;

            let mut one: Vec<Value> = Vec::new();
            one.push(Value::Int(deck.0[i].0));
            match self.call_function_on_class(codex, "get_entity", one, fuel - 1) {
                Ok(card) => {
                    cards.push(card);
                }
                Err(e) => {
                    return Err(e);
                }
            }
            i = i + 1;
        }
        // A seeded shuffle of the dealt cards.
        if (cards.len() as u64) > 0x7fff_ffff_ffff_ffffu64 {
            return Err(EvalError::DomainError("container too large".to_owned()));
        }
        let mut k = cards.len();
        while k > 1
            invariant
                k <= cards@.len(),
                cards@.len() <= 0x7fff_ffff_ffff_ffff,
                old(self).sg.wf(),
                self.sg.wf(),
                evolves_to(&*old(self), &*self),
            decreases k,
        {
            broadcast use lemma_evolves_to_trans, lemma_sg_evolves_wf, lemma_evolves_to_refl;

            k = k - 1;
            let j = self.rng.randi_range(0, k as i64);
            crate::util::swap_elems(&mut cards, j as usize, k);
        }
        let id = self.heap.alloc_array(cards);
        Ok(Value::ArrayRef(id))
    }

    /// Replaces a player's deck contents on the playing field.
    fn install_deck(&mut self, playing_field: &Value, player: &str, deck: Value, fuel: u64) -> (r:
        Result<(), EvalError>)
        requires
            old(self).sg.wf(),
        ensures
            final(self).sg.wf(),
            evolves_to(&*old(self), &*final(self)),
        decreases fuel,
    {
        broadcast use lemma_evolves_to_trans, lemma_sg_evolves_wf, lemma_evolves_to_refl;

        if fuel == 0 {
            return Err(EvalError::BudgetExhausted);
        }
        let mut one: Vec<Value> = Vec::new();
        one.push(Value::Str(player.to_owned()));
        let strip = match self.call_function_on(playing_field, "get_deck", one, fuel - 1) {
            Ok(v) => v,
            Err(e) => {
                return Err(e);
            }
        };
        let container = match self.call_function_on(&strip, "cards", Vec::new(), fuel - 1) {
            Ok(v) => v,
            Err(e) => {
                return Err(e);
            }
        };
        let mut one: Vec<Value> = Vec::new();
        one.push(deck);
        match self.call_function_on(&container, "replace_cards", one, fuel - 1) {
            Ok(_) => Ok(()),
            Err(e) => Err(e),
        }
    }

    /// Builds a scripted player agent and wires it to the playing field.
    fn install_player_agent(&mut self, playing_field: &Value, player: &str, fuel: u64) -> (r:
        Result<(), EvalError>)
        requires
            old(self).sg.wf(),
        ensures
            final(self).sg.wf(),
            evolves_to(&*old(self), &*final(self)),
        decreases fuel,
    {
        broadcast use lemma_evolves_to_trans, lemma_sg_evolves_wf, lemma_evolves_to_refl;

        if fuel == 0 {
            return Err(EvalError::BudgetExhausted);
        }
        let agent_class = match self.sg.get_file(LOOKAHEAD_AI_AGENT_PATH) {
            Some(c) => c,
            None => {
                return Err(EvalError::UndefinedClass(LOOKAHEAD_AI_AGENT_PATH.to_owned()));
            }
        };
        if agent_class >= self.sg.classes.len() {
            return Err(EvalError::DomainError("dangling class reference".to_owned()));
        }
        let agent = match self.call_function_on_class(agent_class, "new", Vec::new(), fuel - 1) {
            Ok(v) => v,
            Err(e) => {
                return Err(e);
            }
        };
        let field_var: &str = if crate::text::str_eq(player, "BOTTOM") {
            "_bottom_agent"
        } else if crate::text::str_eq(player, "TOP") {
            "_top_agent"
        } else {
            return Err(EvalError::DomainError("expected TOP or BOTTOM".to_owned()));
        };
        match self.set_value(&agent, "controlled_player", Value::Str(player.to_owned()), fuel - 1) {
            Ok(()) => {}
            Err(e) => {
                return Err(e);
            }
        }
        match self.set_value(playing_field, field_var, agent, fuel - 1) {
            Ok(()) => Ok(()),
            Err(e) => Err(e),
        }
    }
}

} // verus!
