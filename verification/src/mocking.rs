//! Stand-in engine classes, so unmodified game scripts run headlessly:
//! the playing field, card strips, stats panels, the turn-transition
//! driver, the card codex, and assorted no-op stubs, all registered
//! through the same dispatch path as scripted methods.

use vstd::prelude::*;
use std::rc::Rc;
use crate::ast::{Expr, Literal};
use crate::class::{table_index_of, Adjustment, Class, InstanceVar, LazyConst, ProxyVar};
use crate::codex::CodexDataFile;
use crate::eval::SuperglobalState;
use crate::gdstring::{GdString, StringPrefix, StringType};
use crate::ident::Identifier;
use crate::method::{Method, NativeFn};
use crate::value::SimpleValue;

verus! {

/// The hidden playing-field variable that records the winner.
pub const ENDGAME_VARIABLE: &'static str = "__evilconsim_endgame";

/// The second player starts with this much extra fort defense.
pub const SECOND_PLAYER_FORT_ADVANTAGE: i64 = 2;

/// A player's starting fort defense.
pub const DEFAULT_FORT_DEFENSE: i64 = 60;

/// The resource path the playing field is registered under.
pub const PLAYING_FIELD_RES_PATH: &'static str =
    "res://card_game/playing_field/playing_field.gd";

/// The resource path the turn-transition driver is registered under.
pub const TURN_TRANSITIONS_RES_PATH: &'static str =
    "res://card_game/playing_field/util/card_game_turn_transitions.gd";

/// The resource path the card strip is registered under.
pub const CARD_STRIP_RES_PATH: &'static str =
    "res://card_game/playing_field/card_strip/card_strip.gd";

/// The resource path the stats panel is registered under.
pub const STATS_PANEL_RES_PATH: &'static str =
    "res://card_game/playing_field/game_stats_panel/game_stats_panel.gd";

/// The resource path the codex class is registered under.
pub const CODEX_GD_FILE_PATH: &'static str =
    "res://card_game/playing_card/playing_card_codex.gd";

/// An empty class: a placeholder that is meant to go unused.
fn dummy_class() -> (r: Class)
    ensures
        r.parent is None,
{
    Class {
        name: None,
        parent: None,
        constants: Vec::new(),
        instance_vars: Rc::new(Vec::new()),
        proxy_vars: Rc::new(Vec::new()),
        methods: Rc::new(Vec::new()),
    }
}

/// A `load` call for a resource path, as an initializer expression.
fn load_call(path: &str) -> (r: Expr) {
    let lit = GdString {
        string_type: StringType { prefix: StringPrefix::Plain, triple_quoted: false, quote_type: '"' },
        contents: path.to_owned(),
    };
    Expr::Call {
        func: Box::new(Expr::Name(Identifier("load".to_owned()))),
        args: vec![Expr::Literal(Literal::String(lit))],
    }
}

/// A `load(path).new()` initializer expression.
fn load_new_call(path: &str) -> (r: Expr) {
    Expr::AttrCall(Box::new(load_call(path)), Identifier("new".to_owned()), Vec::new())
}

/// An instance variable with the given initializer.
fn ivar(name: &str, init: Expr) -> (r: InstanceVar) {
    InstanceVar { name: Identifier(name.to_owned()), initial_value: Rc::new(init) }
}

/// Pushes a class onto the table and hands back its index.
fn push_class(sg: &mut SuperglobalState, class: Class) -> (r: usize)
    requires
        old(sg).wf(),
        match class.parent {
            Some(p) => p < old(sg).classes@.len(),
            None => true,
        },
    ensures
        final(sg).wf(),
        final(sg).builtins == old(sg).builtins,
        final(sg).classes@ == old(sg).classes@.push(class),
        final(sg).vars@ == old(sg).vars@,
        final(sg).functions@ == old(sg).functions@,
        final(sg).loaded_files@ == old(sg).loaded_files@,
        r == old(sg).classes@.len(),
        r < final(sg).classes@.len(),
{
    let cid = sg.classes.len();
    sg.classes.push(class);
    proof {
        assert forall|j: int|
            0 <= j < sg.classes@.len() implies match (#[trigger] sg.classes@[j]).parent {
            Some(p) => p < j,
            None => true,
        } by {
            if j < cid {
            }
        }
    }
    cid
}

/// A fresh superglobal binding of `nm` to a live class was added
/// between the two registry states.
pub open spec fn class_var_bound(a: &SuperglobalState, b: &SuperglobalState, nm: Seq<char>) -> bool {
    exists|j: int|
        a.vars@.len() <= j < b.vars@.len() && (#[trigger] b.vars@[j]).0@ == nm && (
        match b.vars@[j].1 {
            SimpleValue::ClassRef(c) => c < b.classes@.len(),
            _ => false,
        })
}

/// A fresh registration of the resource path `path` to a live class was
/// added between the two registry states.
pub open spec fn file_bound(a: &SuperglobalState, b: &SuperglobalState, path: Seq<char>) -> bool {
    exists|j: int|
        a.loaded_files@.len() <= j < b.loaded_files@.len() && (#[trigger] b.loaded_files@[j]).0@
            == path && b.loaded_files@[j].1 < b.classes@.len()
}

/// Registers the stand-in engine classes: the node base, popup text,
/// the playing field, card strips, stats panels, the turn-transition
/// driver, and the placeholders the scripted game expects to find.
pub fn bind_mocked_classes(sg: &mut SuperglobalState)
    requires
        old(sg).wf(),
    ensures
        final(sg).wf(),
        final(sg).builtins == old(sg).builtins,
        final(sg).functions@ == old(sg).functions@,
        // Everything already registered stays, and the engine names and
        // resource paths the scripts reach for are all freshly bound.
        forall|j: int| 0 <= j < old(sg).vars@.len() ==> final(sg).vars@[j] == old(sg).vars@[j],
        forall|j: int|
            0 <= j < old(sg).loaded_files@.len() ==> final(sg).loaded_files@[j] == old(
                sg,
            ).loaded_files@[j],
        forall|j: int|
            0 <= j < old(sg).classes@.len() ==> final(sg).classes@[j] == old(sg).classes@[j],
        class_var_bound(old(sg), final(sg), "Node"@),
        class_var_bound(old(sg), final(sg), "PopupText"@),
        class_var_bound(old(sg), final(sg), "Stats"@),
        class_var_bound(old(sg), final(sg), "CardGameTurnTransitions"@),
        file_bound(old(sg), final(sg), PLAYING_FIELD_RES_PATH@),
        file_bound(old(sg), final(sg), STATS_PANEL_RES_PATH@),
        file_bound(old(sg), final(sg), TURN_TRANSITIONS_RES_PATH@),
        file_bound(old(sg), final(sg), CARD_STRIP_RES_PATH@),
{
    let object = sg.builtins.object;

    // Node
    let node = push_class(
        sg,
        Class {
            name: Some("Node".to_owned()),
            parent: Some(object),
            constants: Vec::new(),
            instance_vars: Rc::new(Vec::new()),
            proxy_vars: Rc::new(Vec::new()),
            methods: Rc::new(Vec::new()),
        },
    );
    let ghost vi_node = sg.vars@.len();
    sg.bind_class("Node".to_owned(), node);

    // PopupText: six constants the scripts read but never show.
    let mut popup_constants: Vec<(String, LazyConst)> = Vec::new();
    popup_constants.push(
        ("NO_TARGET".to_owned(), LazyConst::Resolved(SimpleValue::Str("UNUSED CONSTANT".to_owned()))),
    );
    popup_constants.push(
        ("BLOCKED".to_owned(), LazyConst::Resolved(SimpleValue::Str("UNUSED CONSTANT".to_owned()))),
    );
    popup_constants.push(
        ("CLOWNED".to_owned(), LazyConst::Resolved(SimpleValue::Str("UNUSED CONSTANT".to_owned()))),
    );
    popup_constants.push(
        ("DEMONED".to_owned(), LazyConst::Resolved(SimpleValue::Str("UNUSED CONSTANT".to_owned()))),
    );
    popup_constants.push(
        ("ROBOTED".to_owned(), LazyConst::Resolved(SimpleValue::Str("UNUSED CONSTANT".to_owned()))),
    );
    popup_constants.push(
        ("WILDED".to_owned(), LazyConst::Resolved(SimpleValue::Str("UNUSED CONSTANT".to_owned()))),
    );
    let popup = push_class(
        sg,
        Class {
            name: Some("PopupText".to_owned()),
            parent: Some(node),
            constants: popup_constants,
            instance_vars: Rc::new(Vec::new()),
            proxy_vars: Rc::new(Vec::new()),
            methods: Rc::new(Vec::new()),
        },
    );
    let ghost vi_popup = sg.vars@.len();
    sg.bind_class("PopupText".to_owned(), popup);
    sg.add_file("res://card_game/playing_field/util/popup_text.gd".to_owned(), popup);

    // Placeholders that should go unused.
    let anim = push_class(sg, dummy_class());
    sg.add_file(
        "res://card_game/playing_field/animation/card_moving/card_moving_animation.gd".to_owned(),
        anim,
    );
    let promise = push_class(sg, dummy_class());
    sg.bind_class("Promise".to_owned(), promise);

    // CardStrip, with its scene placeholder.
    let mut strip_vars: Vec<InstanceVar> = Vec::new();
    strip_vars.push(
        ivar(
            "__evilconsim_cards",
            load_new_call("res://card_game/playing_field/card_container/card_container.gd"),
        ),
    );
    strip_vars.push(ivar("card_added", Expr::NewSignal));
    strip_vars.push(ivar("cards_modified", Expr::NewSignal));
    let mut strip_methods: Vec<(String, Method)> = Vec::new();
    strip_methods.push(("_init".to_owned(), Method::Native(NativeFn::CardStripInit)));
    strip_methods.push(("get_card_node".to_owned(), Method::Native(NativeFn::Noop)));
    strip_methods.push(("card_nodes".to_owned(), Method::Native(NativeFn::UnimplementedStub)));
    strip_methods.push(("cards".to_owned(), Method::Native(NativeFn::CardStripCards)));
    let card_strip = push_class(
        sg,
        Class {
            name: None,
            parent: Some(node),
            constants: Vec::new(),
            instance_vars: Rc::new(strip_vars),
            proxy_vars: Rc::new(Vec::new()),
            methods: Rc::new(strip_methods),
        },
    );
    let ghost fi_strip = sg.loaded_files@.len();
    sg.add_file(CARD_STRIP_RES_PATH.to_owned(), card_strip);
    let strip_tscn = push_class(sg, dummy_class());
    sg.add_file("res://card_game/playing_field/card_strip/card_strip.tscn".to_owned(), strip_tscn);

    // More placeholders the scripted game API expects.
    let icon = push_class(sg, dummy_class());
    sg.add_file(
        "res://card_game/playing_card/playing_card_display/card_icon/card_icon.gd".to_owned(),
        icon,
    );
    let container_tscn = push_class(sg, dummy_class());
    sg.add_file(
        "res://card_game/playing_field/card_container/card_container.tscn".to_owned(),
        container_tscn,
    );

    // Randomness is already bootstrapped; register its resource path.
    match sg.get_class_var("Randomness") {
        Some(c) => {
            sg.add_file("res://card_game/playing_field/randomness.gd".to_owned(), c);
        }
        None => {}
    }

    // GameStatsPanel: clamped computed properties over raw counters.
    let mut panel_vars: Vec<InstanceVar> = Vec::new();
    panel_vars.push(ivar("__evilconsim_evil_points", Expr::Literal(Literal::Int(0))));
    panel_vars.push(
        ivar("__evilconsim_fort_defense", Expr::Literal(Literal::Int(DEFAULT_FORT_DEFENSE))),
    );
    panel_vars.push(
        ivar("__evilconsim_max_fort_defense", Expr::Literal(Literal::Int(DEFAULT_FORT_DEFENSE))),
    );
    panel_vars.push(ivar("__evilconsim_destiny_song", Expr::Literal(Literal::Int(0))));
    let mut panel_proxies: Vec<(String, ProxyVar)> = Vec::new();
    panel_proxies.push(
        (
            "evil_points".to_owned(),
            ProxyVar::Backed {
                backing_field: "__evilconsim_evil_points".to_owned(),
                adjustment: Adjustment::ClampedAbove(0),
            },
        ),
    );
    panel_proxies.push(
        (
            "fort_defense".to_owned(),
            ProxyVar::FortDefense {
                curr_field: "__evilconsim_fort_defense".to_owned(),
                max_field: "__evilconsim_max_fort_defense".to_owned(),
            },
        ),
    );
    panel_proxies.push(
        (
            "max_fort_defense".to_owned(),
            ProxyVar::MaxFortDefense {
                curr_proxy: "fort_defense".to_owned(),
                max_field: "__evilconsim_max_fort_defense".to_owned(),
            },
        ),
    );
    panel_proxies.push(
        (
            "destiny_song".to_owned(),
            ProxyVar::Backed {
                backing_field: "__evilconsim_destiny_song".to_owned(),
                adjustment: Adjustment::Clamped(0, 3),
            },
        ),
    );
    let mut panel_methods: Vec<(String, Method)> = Vec::new();
    panel_methods.push(("update_stats_from".to_owned(), Method::Native(NativeFn::Noop)));
    let panel = push_class(
        sg,
        Class {
            name: None,
            parent: Some(node),
            constants: Vec::new(),
            instance_vars: Rc::new(panel_vars),
            proxy_vars: Rc::new(panel_proxies),
            methods: Rc::new(panel_methods),
        },
    );
    let ghost fi_panel = sg.loaded_files@.len();
    sg.add_file(STATS_PANEL_RES_PATH.to_owned(), panel);
    let panel_tscn = push_class(sg, dummy_class());
    sg.add_file(
        "res://card_game/playing_field/game_stats_panel/game_stats_panel.tscn".to_owned(),
        panel_tscn,
    );

    // Stats: the static stat-manipulation helpers, with the popup
    // constants the scripts read.
    let mut stats_constants: Vec<(String, LazyConst)> = Vec::new();
    stats_constants.push(("NumberAnimation".to_owned(), LazyConst::Resolved(SimpleValue::Null)));
    stats_constants.push(("GameStatsDict".to_owned(), LazyConst::Resolved(SimpleValue::Null)));
    stats_constants.push(
        ("CARD_MULTI_UI_OFFSET".to_owned(), LazyConst::Resolved(SimpleValue::Null)),
    );
    stats_constants.push(
        ("NO_TARGET_TEXT".to_owned(), LazyConst::Resolved(SimpleValue::Str("No Target!".to_owned()))),
    );
    stats_constants.push(("NO_TARGET_COLOR".to_owned(), LazyConst::Resolved(SimpleValue::Null)));
    stats_constants.push(
        ("BLOCKED_TEXT".to_owned(), LazyConst::Resolved(SimpleValue::Str("Blocked!".to_owned()))),
    );
    stats_constants.push(("BLOCKED_COLOR".to_owned(), LazyConst::Resolved(SimpleValue::Null)));
    stats_constants.push(
        ("CLOWNED_TEXT".to_owned(), LazyConst::Resolved(SimpleValue::Str("Clowned!".to_owned()))),
    );
    stats_constants.push(("CLOWNED_COLOR".to_owned(), LazyConst::Resolved(SimpleValue::Null)));
    stats_constants.push(
        ("DEMONED_TEXT".to_owned(), LazyConst::Resolved(SimpleValue::Str("Bedeviled!".to_owned()))),
    );
    stats_constants.push(("DEMONED_COLOR".to_owned(), LazyConst::Resolved(SimpleValue::Null)));
    stats_constants.push(
        ("ROBOTED_TEXT".to_owned(), LazyConst::Resolved(SimpleValue::Str("Upgraded!".to_owned()))),
    );
    stats_constants.push(("ROBOTED_COLOR".to_owned(), LazyConst::Resolved(SimpleValue::Null)));
    let mut stats_methods: Vec<(String, Method)> = Vec::new();
    stats_methods.push(
        ("play_animation_for_stat_change".to_owned(), Method::Native(NativeFn::StaticNoop)),
    );
    stats_methods.push(("show_text".to_owned(), Method::Native(NativeFn::StaticNoop)));
    stats_methods.push(("set_evil_points".to_owned(), Method::Native(NativeFn::SetEvilPoints)));
    stats_methods.push(("add_evil_points".to_owned(), Method::Native(NativeFn::AddEvilPoints)));
    stats_methods.push(("set_fort_defense".to_owned(), Method::Native(NativeFn::SetFortDefense)));
    stats_methods.push(("add_fort_defense".to_owned(), Method::Native(NativeFn::AddFortDefense)));
    stats_methods.push(("set_destiny_song".to_owned(), Method::Native(NativeFn::SetDestinySong)));
    stats_methods.push(("add_destiny_song".to_owned(), Method::Native(NativeFn::AddDestinySong)));
    stats_methods.push(("set_level".to_owned(), Method::Native(NativeFn::SetLevel)));
    stats_methods.push(("add_level".to_owned(), Method::Native(NativeFn::AddLevel)));
    stats_methods.push(("set_morale".to_owned(), Method::Native(NativeFn::SetMorale)));
    stats_methods.push(("add_morale".to_owned(), Method::Native(NativeFn::AddMorale)));
    let stats = push_class(
        sg,
        Class {
            name: Some("Stats".to_owned()),
            parent: Some(node),
            constants: stats_constants,
            instance_vars: Rc::new(Vec::new()),
            proxy_vars: Rc::new(Vec::new()),
            methods: Rc::new(stats_methods),
        },
    );
    sg.add_file("res://card_game/playing_field/util/stats.gd".to_owned(), stats);
    let ghost vi_stats = sg.vars@.len();
    sg.bind_class("Stats".to_owned(), stats);

    // PlayingField: the per-player zones, the stat panels, and the
    // endgame marker.
    let mut field_constants: Vec<(String, LazyConst)> = Vec::new();
    field_constants.push(
        (
            "SECOND_PLAYER_FORT_ADVANTAGE".to_owned(),
            LazyConst::Resolved(SimpleValue::Int(SECOND_PLAYER_FORT_ADVANTAGE)),
        ),
    );
    field_constants.push(
        (
            "Randomness".to_owned(),
            LazyConst::Unevaluated(
                Rc::new(load_call("res://card_game/playing_field/randomness.gd")),
            ),
        ),
    );
    field_constants.push(
        (
            "EventLogger".to_owned(),
            LazyConst::Unevaluated(
                Rc::new(load_call("res://card_game/playing_field/event_logger.gd")),
            ),
        ),
    );
    let mut field_vars: Vec<InstanceVar> = Vec::new();
    field_vars.push(ivar("turn_number", Expr::Literal(Literal::Int(-1))));
    field_vars.push(
        ivar(
            "randomness",
            Expr::AttrCall(
                Box::new(Expr::Name(Identifier("Randomness".to_owned()))),
                Identifier("new".to_owned()),
                Vec::new(),
            ),
        ),
    );
    field_vars.push(
        ivar(
            "event_logger",
            Expr::AttrCall(
                Box::new(Expr::Name(Identifier("EventLogger".to_owned()))),
                Identifier("new".to_owned()),
                Vec::new(),
            ),
        ),
    );
    // The engine declares this twice; the second initializer wins.
    field_vars.push(ivar("top_cards_are_hidden", Expr::Literal(Literal::Bool(true))));
    field_vars.push(ivar("top_cards_are_hidden", Expr::Literal(Literal::Bool(false))));
    field_vars.push(ivar("plays_animations", Expr::Literal(Literal::Bool(false))));
    field_vars.push(ivar("__evilconsim_deck_bottom", load_new_call(CARD_STRIP_RES_PATH)));
    field_vars.push(ivar("__evilconsim_deck_top", load_new_call(CARD_STRIP_RES_PATH)));
    field_vars.push(ivar("__evilconsim_discardpile_bottom", load_new_call(CARD_STRIP_RES_PATH)));
    field_vars.push(ivar("__evilconsim_discardpile_top", load_new_call(CARD_STRIP_RES_PATH)));
    field_vars.push(ivar("__evilconsim_hand_bottom", load_new_call(CARD_STRIP_RES_PATH)));
    field_vars.push(ivar("__evilconsim_hand_top", load_new_call(CARD_STRIP_RES_PATH)));
    field_vars.push(ivar("__evilconsim_minionstrip_bottom", load_new_call(CARD_STRIP_RES_PATH)));
    field_vars.push(ivar("__evilconsim_minionstrip_top", load_new_call(CARD_STRIP_RES_PATH)));
    field_vars.push(ivar("__evilconsim_effectstrip_bottom", load_new_call(CARD_STRIP_RES_PATH)));
    field_vars.push(ivar("__evilconsim_effectstrip_top", load_new_call(CARD_STRIP_RES_PATH)));
    field_vars.push(ivar("__evilconsim_statspanel_top", load_new_call(STATS_PANEL_RES_PATH)));
    field_vars.push(ivar("__evilconsim_statspanel_bottom", load_new_call(STATS_PANEL_RES_PATH)));
    field_vars.push(ivar(ENDGAME_VARIABLE, Expr::Literal(Literal::Null)));
    let mut field_methods: Vec<(String, Method)> = Vec::new();
    field_methods.push(("with_animation".to_owned(), Method::Native(NativeFn::Noop)));
    field_methods.push(("emit_cards_moved".to_owned(), Method::Native(NativeFn::Noop)));
    field_methods.push(("get_deck".to_owned(), Method::Native(NativeFn::SelectDeck)));
    field_methods.push(("get_discard_pile".to_owned(), Method::Native(NativeFn::SelectDiscard)));
    field_methods.push(("get_hand".to_owned(), Method::Native(NativeFn::SelectHand)));
    field_methods.push(("get_minion_strip".to_owned(), Method::Native(NativeFn::SelectMinions)));
    field_methods.push(("get_effect_strip".to_owned(), Method::Native(NativeFn::SelectEffects)));
    field_methods.push(("get_stats".to_owned(), Method::Native(NativeFn::SelectStats)));
    field_methods.push(("end_game".to_owned(), Method::Native(NativeFn::EndGame)));
    field_methods.push(("get_viewport_rect".to_owned(), Method::Native(NativeFn::GetViewportRect)));
    field_methods.push(("animate_card_moving".to_owned(), Method::Native(NativeFn::Noop)));
    field_methods.push(
        ("hand_cards_are_hidden".to_owned(), Method::Native(NativeFn::HandCardsHidden)),
    );
    let field = push_class(
        sg,
        Class {
            name: None,
            parent: Some(node),
            constants: field_constants,
            instance_vars: Rc::new(field_vars),
            proxy_vars: Rc::new(Vec::new()),
            methods: Rc::new(field_methods),
        },
    );
    let ghost fi_field = sg.loaded_files@.len();
    sg.add_file(PLAYING_FIELD_RES_PATH.to_owned(), field);

    // CardGameTurnTransitions: the match driver.
    let mut tt_methods: Vec<(String, Method)> = Vec::new();
    tt_methods.push(("play_full_game".to_owned(), Method::Native(NativeFn::PlayFullGame)));
    let tt = push_class(
        sg,
        Class {
            name: Some("CardGameTurnTransitions".to_owned()),
            parent: Some(node),
            constants: Vec::new(),
            instance_vars: Rc::new(Vec::new()),
            proxy_vars: Rc::new(Vec::new()),
            methods: Rc::new(tt_methods),
        },
    );
    let ghost fi_tt = sg.loaded_files@.len();
    sg.add_file(TURN_TRANSITIONS_RES_PATH.to_owned(), tt);
    let ghost vi_tt = sg.vars@.len();
    sg.bind_class("CardGameTurnTransitions".to_owned(), tt);

    // InputBlockAnimation inherits from the object base so it can be
    // freed.
    let iba = push_class(
        sg,
        Class {
            name: None,
            parent: Some(object),
            constants: Vec::new(),
            instance_vars: Rc::new(Vec::new()),
            proxy_vars: Rc::new(Vec::new()),
            methods: Rc::new(Vec::new()),
        },
    );
    sg.add_file("res://card_game/playing_field/animation/input_block_animation.gd".to_owned(), iba);

    // Remaining placeholders the scripted game API needs.
    let d1 = push_class(sg, dummy_class());
    sg.add_file(
        "res://card_game/playing_card/hidden_card_display/hidden_card_display.tscn".to_owned(),
        d1,
    );
    let d2 = push_class(sg, dummy_class());
    sg.add_file(
        "res://card_game/playing_card/deck_card_display/deck_card_display.tscn".to_owned(),
        d2,
    );
    let d3 = push_class(sg, dummy_class());
    sg.add_file(
        "res://card_game/playing_field/animation/puff_of_smoke/puff_of_smoke_animation.gd"
            .to_owned(),
        d3,
    );
    let d4 = push_class(sg, dummy_class());
    sg.add_file(
        "res://card_game/playing_field/animation/musical_note/musical_note_animation.gd"
            .to_owned(),
        d4,
    );
    proof {
        assert((sg.vars@[vi_node as int]).0@ == "Node"@);
        assert((sg.vars@[vi_popup as int]).0@ == "PopupText"@);
        assert((sg.vars@[vi_stats as int]).0@ == "Stats"@);
        assert((sg.vars@[vi_tt as int]).0@ == "CardGameTurnTransitions"@);
        assert((sg.loaded_files@[fi_strip as int]).0@ == CARD_STRIP_RES_PATH@);
        assert((sg.loaded_files@[fi_panel as int]).0@ == STATS_PANEL_RES_PATH@);
        assert((sg.loaded_files@[fi_field as int]).0@ == PLAYING_FIELD_RES_PATH@);
        assert((sg.loaded_files@[fi_tt as int]).0@ == TURN_TRANSITIONS_RES_PATH@);
    }
}

/// Registers the superglobal helper functions the scripts call: loading,
/// lengths, ranges, headless printing, and integer math helpers. The
/// floating-point helpers the real engine also offers have no place in
/// this core.
pub fn bind_mocked_methods(sg: &mut SuperglobalState)
    requires
        old(sg).wf(),
    ensures
        final(sg).wf(),
        final(sg).builtins == old(sg).builtins,
        final(sg).classes@ == old(sg).classes@,
        final(sg).vars@ == old(sg).vars@,
        final(sg).loaded_files@ == old(sg).loaded_files@,
        // The ten superglobal helpers extend the function table, which
        // keeps everything it already had.
        final(sg).functions@.len() == old(sg).functions@.len() + 10,
        forall|j: int|
            0 <= j < old(sg).functions@.len() ==> final(sg).functions@[j] == old(sg).functions@[j],
        table_index_of(final(sg).functions@, "load"@) is Some,
        table_index_of(final(sg).functions@, "preload"@) is Some,
        table_index_of(final(sg).functions@, "len"@) is Some,
        table_index_of(final(sg).functions@, "range"@) is Some,
        table_index_of(final(sg).functions@, "print"@) is Some,
        table_index_of(final(sg).functions@, "push_error"@) is Some,
        table_index_of(final(sg).functions@, "push_warning"@) is Some,
        table_index_of(final(sg).functions@, "mini"@) is Some,
        table_index_of(final(sg).functions@, "maxi"@) is Some,
        table_index_of(final(sg).functions@, "clampi"@) is Some,
{
    let ghost base = old(sg).functions@.len();
    sg.define_func("load".to_owned(), Method::Native(NativeFn::Preload));
    sg.define_func("preload".to_owned(), Method::Native(NativeFn::Preload));
    sg.define_func("len".to_owned(), Method::Native(NativeFn::LenFn));
    sg.define_func("range".to_owned(), Method::Native(NativeFn::RangeFn));
    sg.define_func("print".to_owned(), Method::Native(NativeFn::PrintFn));
    sg.define_func("push_error".to_owned(), Method::Native(NativeFn::PrintFn));
    sg.define_func("push_warning".to_owned(), Method::Native(NativeFn::PrintFn));
    sg.define_func("mini".to_owned(), Method::Native(NativeFn::MiniFn));
    sg.define_func("maxi".to_owned(), Method::Native(NativeFn::MaxiFn));
    sg.define_func("clampi".to_owned(), Method::Native(NativeFn::ClampiFn));
    proof {
        crate::class::lemma_table_present_index(sg.functions@, "load"@, base as int + 0);
        crate::class::lemma_table_present_index(sg.functions@, "preload"@, base as int + 1);
        crate::class::lemma_table_present_index(sg.functions@, "len"@, base as int + 2);
        crate::class::lemma_table_present_index(sg.functions@, "range"@, base as int + 3);
        crate::class::lemma_table_present_index(sg.functions@, "print"@, base as int + 4);
        crate::class::lemma_table_present_index(sg.functions@, "push_error"@, base as int + 5);
        crate::class::lemma_table_present_index(sg.functions@, "push_warning"@, base as int + 6);
        crate::class::lemma_table_present_index(sg.functions@, "mini"@, base as int + 7);
        crate::class::lemma_table_present_index(sg.functions@, "maxi"@, base as int + 8);
        crate::class::lemma_table_present_index(sg.functions@, "clampi"@, base as int + 9);
    }
}

/// Registers the card codex as a class: an `ID` enum of every card name
/// and the entity lookups, fed by the codex manifest.
pub fn bind_codex_class(sg: &mut SuperglobalState, codex: CodexDataFile)
    requires
        old(sg).wf(),
    ensures
        final(sg).wf(),
        final(sg).builtins == old(sg).builtins,
        final(sg).functions@ == old(sg).functions@,
        forall|j: int| 0 <= j < old(sg).vars@.len() ==> final(sg).vars@[j] == old(sg).vars@[j],
        forall|j: int|
            0 <= j < old(sg).loaded_files@.len() ==> final(sg).loaded_files@[j] == old(
                sg,
            ).loaded_files@[j],
        forall|j: int|
            0 <= j < old(sg).classes@.len() ==> final(sg).classes@[j] == old(sg).classes@[j],
        // The codex data itself is installed for the native lookups.
        final(sg).codex_cards == codex.cards,
        final(sg).codex_max_id == codex.max_id,
        // One fresh class is bound under the codex's name and resource
        // path, and its `ID` enum maps every card name to its id.
        final(sg).vars@.len() == old(sg).vars@.len() + 1,
        final(sg).loaded_files@.len() == old(sg).loaded_files@.len() + 1,
        final(sg).vars@.last().0@ == "PlayingCardCodex"@,
        final(sg).loaded_files@.last().0@ == CODEX_GD_FILE_PATH@,
        (match final(sg).vars@.last().1 {
            SimpleValue::ClassRef(c) => ({
                &&& c < final(sg).classes@.len()
                &&& final(sg).loaded_files@.last().1 == c
                &&& final(sg).classes@[c as int].constants@.len() == 1
                &&& final(sg).classes@[c as int].constants@[0].0@ == "ID"@
                &&& (match final(sg).classes@[c as int].constants@[0].1 {
                    LazyConst::Resolved(SimpleValue::EnumType(t)) => t@.len()
                        == codex.cards@.len() && forall|k: int|
                        0 <= k < t@.len() ==> (#[trigger] t@[k]).0@ == codex.cards@[k].name@
                            && t@[k].1 == codex.cards@[k].id,
                    _ => false,
                })
            }),
            _ => false,
        }),
{
    let mut id_table: Vec<(String, i64)> = Vec::new();
    let mut i: usize = 0;
    while i < codex.cards.len()
        invariant
            i <= codex.cards@.len(),
            id_table@.len() == i,
            forall|k: int|
                0 <= k < i ==> (#[trigger] id_table@[k]).0@ == codex.cards@[k].name@
                    && id_table@[k].1 == codex.cards@[k].id,
        decreases codex.cards@.len() - i,
    {
        id_table.push((codex.cards[i].name.clone(), codex.cards[i].id));
        i = i + 1;
    }
    let mut constants: Vec<(String, LazyConst)> = Vec::new();
    constants.push(
        ("ID".to_owned(), LazyConst::Resolved(SimpleValue::EnumType(Rc::new(id_table)))),
    );
    let mut methods: Vec<(String, Method)> = Vec::new();
    methods.push(
        ("get_entity_script".to_owned(), Method::Native(NativeFn::CodexGetEntityScript)),
    );
    methods.push(("get_entity".to_owned(), Method::Native(NativeFn::CodexGetEntity)));
    methods.push(("get_all_ids".to_owned(), Method::Native(NativeFn::CodexGetAllIds)));
    let cls = push_class(
        sg,
        Class {
            name: Some("PlayingCardCodex".to_owned()),
            parent: None,
            constants,
            instance_vars: Rc::new(Vec::new()),
            proxy_vars: Rc::new(Vec::new()),
            methods: Rc::new(methods),
        },
    );
    sg.add_file(CODEX_GD_FILE_PATH.to_owned(), cls);
    sg.bind_class("PlayingCardCodex".to_owned(), cls);
    sg.codex_max_id = codex.max_id;
    sg.codex_cards = codex.cards;
}

} // verus!
