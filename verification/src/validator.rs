//! The deck-legality checker: counts copies of each card against the
//! codex limits and reports every violation found.

use vstd::prelude::*;
use crate::deck::CardId;
use crate::codex::{CodexDataFile, CodexEntry, Rarity, codex_lookup, lookup_entry};
use crate::text::{dec_rep_signed, i64_to_string, chars_of, append_chars, push_char};

verus! {

/// Checks decks against the codex manifest.
#[derive(Debug, Clone)]
pub struct DeckValidator {
    pub codex: Vec<CodexEntry>,
}

/// A card ID tagged with its name.
#[derive(Debug, Clone)]
pub struct CardType {
    pub id: CardId,
    pub name: String,
}

/// One problem found in a deck.
#[derive(Debug, Clone)]
pub enum DeckValidityError {
    MoreThanThreeCopies(CardType),
    DuplicateLimited(CardType),
    DuplicateUltraRare(CardType),
}

impl CardType {
    /// The card type named by a codex entry.
    pub open spec fn spec_of_entry(entry: CodexEntry) -> CardType {
        CardType { id: CardId(entry.id), name: entry.name }
    }

    /// Builds the card type named by a codex entry.
    pub fn of_entry(entry: &CodexEntry) -> (r: CardType)
        ensures
            r == Self::spec_of_entry(*entry),
    {
        CardType { id: CardId(entry.id), name: entry.name.clone() }
    }
}

impl DeckValidityError {
    /// Having a duplicate ultra rare card is not strictly against the
    /// rules of the game, only against the design principles the stock
    /// decks follow, so it alone is a non-critical error.
    pub fn is_critical(&self) -> (r: bool)
        ensures
            r == !(self matches DeckValidityError::DuplicateUltraRare(_)),
    {
        !matches!(self, DeckValidityError::DuplicateUltraRare(_))
    }
}

/// How many times `id` occurs in `deck`.
pub open spec fn count_id(deck: Seq<i64>, id: i64) -> int
    decreases deck.len(),
{
    if deck.len() == 0 {
        0
    } else {
        count_id(deck.drop_last(), id) + if deck.last() == id { 1int } else { 0int }
    }
}

/// The problems that one card with `count` copies contributes: more
/// copies than the hard limit (one for a limited card, three otherwise)
/// is a violation, and more than one copy of an ultra rare card is a
/// separate, softer finding.
pub open spec fn errors_for_entry(entry: CodexEntry, count: int) -> Seq<DeckValidityError> {
    let hard_limit = if entry.limited { 1int } else { 3int };
    let over = if count > hard_limit {
        if entry.limited {
            seq![DeckValidityError::DuplicateLimited(CardType::spec_of_entry(entry))]
        } else {
            seq![DeckValidityError::MoreThanThreeCopies(CardType::spec_of_entry(entry))]
        }
    } else {
        Seq::<DeckValidityError>::empty()
    };
    let ultra = if count > 1 && entry.rarity == Rarity::UltraRare {
        seq![DeckValidityError::DuplicateUltraRare(CardType::spec_of_entry(entry))]
    } else {
        Seq::<DeckValidityError>::empty()
    };
    over + ultra
}

/// Whether position `i` is the first occurrence of its card in `deck`.
pub open spec fn first_occurrence(deck: Seq<i64>, i: int) -> bool {
    forall|j: int| 0 <= j < i ==> deck[j] != deck[i]
}

/// All problems of `deck` from position `i` on: each distinct card is
/// judged once, at its first occurrence, against the codex; cards the
/// codex does not know are passed over.
pub open spec fn validate_spec(entries: Seq<CodexEntry>, deck: Seq<i64>, i: int) -> Seq<DeckValidityError>
    decreases deck.len() - i,
{
    if i < 0 || i >= deck.len() {
        Seq::<DeckValidityError>::empty()
    } else {
        let here = if first_occurrence(deck, i) {
            match codex_lookup(entries, deck[i]) {
                Some(entry) => errors_for_entry(entry, count_id(deck, deck[i])),
                None => Seq::<DeckValidityError>::empty(),
            }
        } else {
            Seq::<DeckValidityError>::empty()
        };
        here + validate_spec(entries, deck, i + 1)
    }
}

/// Counts the copies of `id` in `deck`.
fn count_copies(deck: &[CardId], id: i64) -> (r: usize)
    ensures
        r == count_id(deck@.map_values(|c: CardId| c.0), id),
{
    let ghost ids = deck@.map_values(|c: CardId| c.0);
    let mut count: usize = 0;
    let mut k: usize = 0;
    while k < deck.len()
        invariant
            k <= deck@.len(),
            ids == deck@.map_values(|c: CardId| c.0),
            count <= k,
            count == count_id(ids.subrange(0, k as int), id),
        decreases deck@.len() - k,
    {
        let ghost upto = ids.subrange(0, k + 1 as int);
        proof {
            assert(upto.drop_last() =~= ids.subrange(0, k as int));
            assert(upto.last() == ids[k as int]);
        }
        if deck[k].0 == id {
            count = count + 1;
        }
        k = k + 1;
    }
    proof {
        assert(ids.subrange(0, ids.len() as int) =~= ids);
    }
    count
}

/// Whether `deck[i]` also occurs before position `i`.
fn seen_before(deck: &[CardId], i: usize) -> (r: bool)
    requires
        i < deck@.len(),
    ensures
        r == !first_occurrence(deck@.map_values(|c: CardId| c.0), i as int),
{
    let ghost ids = deck@.map_values(|c: CardId| c.0);
    let mut j: usize = 0;
    while j < i
        invariant
            j <= i < deck@.len(),
            ids == deck@.map_values(|c: CardId| c.0),
            forall|k: int| 0 <= k < j ==> ids[k] != ids[i as int],
        decreases i - j,
    {
        if deck[j].0 == deck[i].0 {
            proof {
                assert(ids[j as int] == ids[i as int]);
            }
            return true;
        }
        j = j + 1;
    }
    false
}

impl DeckValidator {
    /// Builds a validator over the codex manifest.
    pub fn new(codex: CodexDataFile) -> (r: DeckValidator)
        ensures
            r.codex@ == codex.cards@,
    {
        DeckValidator { codex: codex.cards }
    }

    /// Validates the deck and returns a list of the problems found. If
    /// the vector is empty, then no problems were found.
    pub fn validate_deck(&self, deck: &[CardId]) -> (r: Vec<DeckValidityError>)
        ensures
            r@ == validate_spec(self.codex@, deck@.map_values(|c: CardId| c.0), 0),
    {
        let ghost ids = deck@.map_values(|c: CardId| c.0);
        let mut errors: Vec<DeckValidityError> = Vec::new();
        let mut i: usize = 0;
        while i < deck.len()
            invariant
                i <= deck@.len(),
                ids == deck@.map_values(|c: CardId| c.0),
                validate_spec(self.codex@, ids, 0) == errors@ + validate_spec(self.codex@, ids, i as int),
            decreases deck@.len() - i,
        {
            let ghost before = errors@;
            let ghost here = if first_occurrence(ids, i as int) {
                match codex_lookup(self.codex@, ids[i as int]) {
                    Some(entry) => errors_for_entry(entry, count_id(ids, ids[i as int])),
                    None => Seq::<DeckValidityError>::empty(),
                }
            } else {
                Seq::<DeckValidityError>::empty()
            };
            if !seen_before(deck, i) {
                match lookup_entry(&self.codex, deck[i].0) {
                    Some(entry) => {
                        let count = count_copies(deck, deck[i].0);
                        let hard_limit: usize = if entry.limited { 1 } else { 3 };
                        if count > hard_limit {
                            if entry.limited {
                                errors.push(DeckValidityError::DuplicateLimited(CardType::of_entry(entry)));
                            } else {
                                errors.push(DeckValidityError::MoreThanThreeCopies(CardType::of_entry(entry)));
                            }
                        }
                        // Separately, a duplicated ultra rare is reported even
                        // when it is within the hard limit.
                        let is_ultra = matches!(entry.rarity, Rarity::UltraRare);
                        if count > 1 && is_ultra {
                            errors.push(DeckValidityError::DuplicateUltraRare(CardType::of_entry(entry)));
                        }
                    }
                    None => {
                        // A card the codex does not know is passed over.
                    }
                }
            }
            proof {
                assert(errors@ =~= before + here);
                assert(validate_spec(self.codex@, ids, i as int)
                    == here + validate_spec(self.codex@, ids, i + 1));
                assert(before + (here + validate_spec(self.codex@, ids, i + 1))
                    =~= (before + here) + validate_spec(self.codex@, ids, i + 1));
            }
            i = i + 1;
        }
        proof {
            assert(errors@ + validate_spec(self.codex@, ids, ids.len() as int) =~= errors@);
        }
        errors
    }
}


/// The display text of one card in a deck listing: the ID, then the
/// codex name in parentheses, with question marks for a card the codex
/// does not know.
pub open spec fn pretty_entry_spec(entries: Seq<CodexEntry>, id: i64) -> Seq<char> {
    dec_rep_signed(id as int) + seq![' ', '('] + (match codex_lookup(entries, id) {
        Some(e) => e.name@,
        None => seq!['?', '?', '?'],
    }) + seq![')']
}

/// The display text of a whole deck: the entries joined by a comma and
/// a space.
pub open spec fn pretty_list_spec(entries: Seq<CodexEntry>, ids: Seq<i64>) -> Seq<char>
    decreases ids.len(),
{
    if ids.len() == 0 {
        Seq::<char>::empty()
    } else if ids.len() == 1 {
        pretty_entry_spec(entries, ids[0])
    } else {
        pretty_list_spec(entries, ids.drop_last()) + seq![',', ' '] + pretty_entry_spec(
            entries,
            ids.last(),
        )
    }
}

impl DeckValidator {
    /// Renders a deck with each card's codex name next to its ID.
    pub fn pretty_to_string(&self, deck: &[CardId]) -> (r: String)
        ensures
            r@ == pretty_list_spec(self.codex@, deck@.map_values(|c: CardId| c.0)),
    {
        let ghost ids = deck@.map_values(|c: CardId| c.0);
        let mut out = String::new();
        let mut i: usize = 0;
        while i < deck.len()
            invariant
                i <= deck@.len(),
                ids == deck@.map_values(|c: CardId| c.0),
                out@ == pretty_list_spec(self.codex@, ids.subrange(0, i as int)),
            decreases deck@.len() - i,
        {
            let ghost prefix = ids.subrange(0, i as int);
            if i > 0 {
                push_char(&mut out, ',');
                push_char(&mut out, ' ');
            }
            let id = deck[i].0;
            let num = i64_to_string(id);
            let num_chars = chars_of(num.as_str());
            append_chars(&mut out, &num_chars);
            push_char(&mut out, ' ');
            push_char(&mut out, '(');
            match lookup_entry(&self.codex, id) {
                Some(entry) => {
                    let name_chars = chars_of(entry.name.as_str());
                    append_chars(&mut out, &name_chars);
                }
                None => {
                    push_char(&mut out, '?');
                    push_char(&mut out, '?');
                    push_char(&mut out, '?');
                }
            }
            push_char(&mut out, ')');
            proof {
                let extended = ids.subrange(0, i + 1 as int);
                assert(extended.drop_last() =~= prefix);
                assert(extended.last() == ids[i as int] == deck@[i as int].0);
                if i == 0 {
                    assert(out@ =~= pretty_entry_spec(self.codex@, ids[0]));
                } else {
                    assert(out@ =~= pretty_list_spec(self.codex@, prefix) + seq![',', ' ']
                        + pretty_entry_spec(self.codex@, ids[i as int]));
                }
            }
            i = i + 1;
        }
        proof {
            assert(ids.subrange(0, ids.len() as int) =~= ids);
        }
        out
    }
}

} // verus!
