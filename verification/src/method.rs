//! Method representation: scripted methods carry their declaration;
//! native methods name one of the built-in operations. Both are invoked
//! through the same dispatch path.

use vstd::prelude::*;
use std::rc::Rc;
use crate::ast::{FunctionDecl, rc_clone};
use crate::value::Value;
use crate::errors::{EvalError, ExpectedArity};

verus! {

/// One of the natively implemented built-in operations.
#[derive(Debug, Clone, Copy, PartialEq, Eq, Structural)]
pub enum NativeFn {
    /// The synthesized constructor: allocate, run initializers, call the
    /// initializer method if present.
    Constructor,
    /// Subscript read on arrays and dictionaries.
    GetItem,
    /// The element count of an array or dictionary.
    Size,
    /// Appends an element to an array.
    PushBack,
    /// The keys of a dictionary, as a fresh array.
    DictKeys,
    /// The values of a dictionary, as a fresh array.
    DictValues,
    /// Shallow or deep copy of a container.
    Duplicate,
    /// Maps a callable over an array into a fresh array.
    MapFn,
    /// Keeps the array elements a callable approves, in a fresh array.
    FilterFn,
    /// Folds an array with a callable, optionally from a start value.
    ReduceFn,
    /// Sorts an array in place with a callable comparator.
    SortCustom,
    /// Permutes an array in place with the seeded random source.
    Shuffle,
    /// Draws a 32-bit integer from the seeded random source.
    Randi,
    /// Draws an integer in an inclusive range from the seeded source.
    RandiRange,
    /// Picks one element of an array with the seeded random source.
    Choose,
    /// Invokes a callable value with the given arguments.
    CallableCall,
    /// Partially applies further arguments to a callable value.
    CallableBind,
    /// Does nothing and returns null.
    Noop,
    /// Does nothing and returns null, without a receiver.
    StaticNoop,
    /// Always fails: a stand-in for a method this engine never needs.
    UnimplementedStub,
    /// Looks a loaded class up by resource path.
    Preload,
    /// The length of an array, dictionary or string.
    LenFn,
    /// Builds an integer range array.
    RangeFn,
    /// Swallows its arguments: headless output.
    PrintFn,
    /// Clamps an integer between two bounds.
    ClampiFn,
    /// The smaller of two integers.
    MiniFn,
    /// The larger of two integers.
    MaxiFn,
    /// The playing field's per-player deck.
    SelectDeck,
    /// The playing field's per-player discard pile.
    SelectDiscard,
    /// The playing field's per-player hand.
    SelectHand,
    /// The playing field's per-player minion strip.
    SelectMinions,
    /// The playing field's per-player effect strip.
    SelectEffects,
    /// The playing field's per-player stats panel.
    SelectStats,
    /// Records the winner once; later calls change nothing.
    EndGame,
    /// A duck-typed stand-in for the engine's viewport rectangle.
    GetViewportRect,
    /// Headless hands are never hidden.
    HandCardsHidden,
    /// Sets a card strip's contained type.
    CardStripInit,
    /// The card container a strip holds.
    CardStripCards,
    /// Drives one full match to its end state under a turn ceiling.
    PlayFullGame,
    /// Stats: writes a player's evil points.
    SetEvilPoints,
    /// Stats: adjusts a player's evil points.
    AddEvilPoints,
    /// Stats: writes a player's fort defense, ending the game at zero.
    SetFortDefense,
    /// Stats: adjusts a player's fort defense, ending the game at zero.
    AddFortDefense,
    /// Stats: writes a player's destiny song, ending the game at the limit.
    SetDestinySong,
    /// Stats: adjusts a player's destiny song, ending the game at the limit.
    AddDestinySong,
    /// Stats: writes a card's level into its metadata.
    SetLevel,
    /// Stats: adjusts a card's level in its metadata.
    AddLevel,
    /// Stats: writes a card's morale, expiring it at zero.
    SetMorale,
    /// Stats: adjusts a card's morale, expiring it at zero.
    AddMorale,
    /// Codex: the script class behind a card ID.
    CodexGetEntityScript,
    /// Codex: a fresh instance of the card behind an ID.
    CodexGetEntity,
    /// Codex: every card ID as an array.
    CodexGetAllIds,
}

/// A method: either scripted or native.
#[derive(Debug)]
pub enum Method {
    Gd(Rc<FunctionDecl>),
    Native(NativeFn),
}

/// Whether a method is static: a scripted method by its declaration, a
/// native one only for the constructor and the static no-op.
pub open spec fn method_is_static_spec(m: Method) -> bool {
    match m {
        Method::Gd(decl) => decl.is_static,
        Method::Native(f) => native_is_static_spec(f),
    }
}

/// The native operations that run without a bound receiver: the
/// constructor, the static no-op, the match driver, the stat helpers
/// and the codex lookups.
pub open spec fn native_is_static_spec(f: NativeFn) -> bool {
    ||| f == NativeFn::Constructor
    ||| f == NativeFn::StaticNoop
    ||| f == NativeFn::PlayFullGame
    ||| f == NativeFn::SetEvilPoints
    ||| f == NativeFn::AddEvilPoints
    ||| f == NativeFn::SetFortDefense
    ||| f == NativeFn::AddFortDefense
    ||| f == NativeFn::SetDestinySong
    ||| f == NativeFn::AddDestinySong
    ||| f == NativeFn::SetLevel
    ||| f == NativeFn::AddLevel
    ||| f == NativeFn::SetMorale
    ||| f == NativeFn::AddMorale
    ||| f == NativeFn::CodexGetEntityScript
    ||| f == NativeFn::CodexGetEntity
    ||| f == NativeFn::CodexGetAllIds
}

/// A method bundled with the class that owns it, so that calls through a
/// parent resolve constants against the parent's scope.
#[derive(Debug)]
pub struct ScopedMethod {
    pub method: Method,
    pub owning_class: Option<usize>,
}

/// The positional arguments of one call.
#[derive(Debug)]
pub struct MethodArgs(pub Vec<Value>);

/// The error on argument lists that cannot be converted.
#[derive(Debug, Clone)]
pub struct TryFromMethodArgsError;

impl Method {
    /// An exact copy of this method (scripted bodies are shared).
    pub fn dup(&self) -> (r: Method)
        ensures
            r == *self,
    {
        match self {
            Method::Gd(decl) => Method::Gd(rc_clone(decl)),
            Method::Native(f) => Method::Native(*f),
        }
    }

    /// Whether this method is static (no bound receiver). Native methods
    /// other than the constructor and the static no-op take a receiver.
    pub fn is_static(&self) -> (r: bool)
        ensures
            r == method_is_static_spec(*self),
    {
        match self {
            Method::Gd(decl) => decl.is_static,
            Method::Native(f) => matches!(
                f,
                NativeFn::Constructor | NativeFn::StaticNoop | NativeFn::PlayFullGame
                    | NativeFn::SetEvilPoints | NativeFn::AddEvilPoints
                    | NativeFn::SetFortDefense | NativeFn::AddFortDefense
                    | NativeFn::SetDestinySong | NativeFn::AddDestinySong | NativeFn::SetLevel
                    | NativeFn::AddLevel | NativeFn::SetMorale | NativeFn::AddMorale
                    | NativeFn::CodexGetEntityScript | NativeFn::CodexGetEntity
                    | NativeFn::CodexGetAllIds,
            ),
        }
    }
}

impl MethodArgs {
    /// The number of arguments.
    pub fn len(&self) -> (r: usize)
        ensures
            r == self.0@.len(),
    {
        self.0.len()
    }

    /// Whether there are no arguments.
    pub fn is_empty(&self) -> (r: bool)
        ensures
            r == (self.0@.len() == 0),
    {
        self.0.is_empty()
    }

    /// Demands exactly `arity` arguments.
    pub fn expect_arity(&self, arity: usize, function_name: &str) -> (r: Result<(), EvalError>)
        ensures
            r is Ok <==> self.0@.len() == arity,
            r matches Err(e) ==> e matches EvalError::WrongArity { function, expected, actual }
                && function@ == function_name@ && expected == ExpectedArity::Exactly(arity)
                && actual == self.0@.len(),
    {
        if self.0.len() != arity {
            Err(EvalError::WrongArity {
                function: function_name.to_owned(),
                expected: ExpectedArity::Exactly(arity),
                actual: self.0.len(),
            })
        } else {
            Ok(())
        }
    }

    /// Demands between `min_arity` and `max_arity` arguments inclusive.
    pub fn expect_arity_within(&self, min_arity: usize, max_arity: usize, function_name: &str) -> (r:
        Result<(), EvalError>)
        ensures
            r is Ok <==> min_arity <= self.0@.len() <= max_arity,
            r matches Err(e) ==> e matches EvalError::WrongArity { function, expected, actual }
                && function@ == function_name@ && expected == (if min_arity == max_arity {
                ExpectedArity::Exactly(min_arity)
            } else {
                ExpectedArity::Between(min_arity, max_arity)
            }) && actual == self.0@.len(),
    {
        if min_arity <= self.0.len() && self.0.len() <= max_arity {
            Ok(())
        } else {
            Err(EvalError::WrongArity {
                function: function_name.to_owned(),
                expected: ExpectedArity::between(min_arity, max_arity),
                actual: self.0.len(),
            })
        }
    }

    /// Demands exactly one argument and hands it out.
    pub fn expect_one_arg(self, function_name: &str) -> (r: Result<Value, EvalError>)
        ensures
            r matches Ok(v) ==> self.0@.len() == 1 && v == self.0@[0],
            r is Err ==> self.0@.len() != 1,
            r matches Err(e) ==> e matches EvalError::WrongArity { function, expected, actual }
                && function@ == function_name@ && expected == ExpectedArity::Exactly(1) && actual
                == self.0@.len(),
    {
        if self.0.len() == 1 {
            let mut args = self;
            match args.0.pop() {
                Some(v) => Ok(v),
                None => Err(EvalError::WrongArity {
                    function: function_name.to_owned(),
                    expected: ExpectedArity::Exactly(1),
                    actual: 0,
                }),
            }
        } else {
            Err(EvalError::WrongArity {
                function: function_name.to_owned(),
                expected: ExpectedArity::Exactly(1),
                actual: self.0.len(),
            })
        }
    }
}

} // verus!
