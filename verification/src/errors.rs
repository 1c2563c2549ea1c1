//! The error taxonomy and the control-flow signal channel. Break,
//! continue and return travel on a channel distinct from ordinary
//! errors; loops and function-call boundaries convert them back.

use vstd::prelude::*;
use crate::value::{Value, InvalidHashKey};
use crate::strfmt::FormatterError;

verus! {

/// An evaluation error. The taxonomy is flat and non-exhaustive.
#[derive(Debug)]
pub enum EvalError {
    ErrorInFunction { function: String, inner: Box<EvalError> },
    InvalidHashKey(InvalidHashKey),
    UnknownClass(String),
    PoisonedConstant,
    UndefinedVariable(String),
    UndefinedFunc(String),
    UndefinedClass(String),
    UnexpectedGetNode(String),
    WrongArity { function: String, expected: ExpectedArity, actual: usize },
    UnexpectedControlFlow(String),
    CannotCall(String),
    CannotCallValue(String),
    CannotIterate(String),
    CannotAssignTo(String),
    TypeError { expected_type: String, value: String },
    IndexOutOfBounds(i64),
    InvalidEnumConstant(String),
    BadSuper,
    DomainError(String),
    FormatterError(FormatterError),
    NumberParseError(String),
    UnimplementedMethod(String),
    /// The evaluation budget ran out before the program finished.
    BudgetExhausted,
    /// The turn ceiling was reached before the match found an end state.
    LoopLimitExceeded { limit: usize },
}

/// How many arguments a function expected.
#[derive(Debug, Clone)]
pub enum ExpectedArity {
    Exactly(usize),
    /// Callers should prefer [`ExpectedArity::between`], which degrades
    /// to `Exactly` in the degenerate case.
    Between(usize, usize),
    AtLeast(usize),
}

/// A non-local control-flow signal.
#[derive(Debug)]
pub enum ControlFlow {
    Break,
    Continue,
    Return(Value),
}

/// What a loop does with a signal it consumed.
#[derive(Debug, Clone, Copy, PartialEq, Eq, Structural, Hash)]
pub enum LoopControlFlow {
    Break,
    Continue,
}

/// The outcome channel of statement evaluation: either an ordinary
/// error or a control-flow signal.
#[derive(Debug)]
pub enum EvalErrorOrControlFlow {
    EvalError(EvalError),
    ControlFlow(ControlFlow),
}

impl EvalError {
    /// A type error against the given description of the offending
    /// value.
    pub fn type_error(expected: String, value: String) -> (r: EvalError)
        ensures
            r == (EvalError::TypeError { expected_type: expected, value: value }),
    {
        EvalError::TypeError { expected_type: expected, value }
    }

    /// A domain error with the given message.
    pub fn domain_error(error: String) -> (r: EvalError)
        ensures
            r == EvalError::DomainError(error),
    {
        EvalError::DomainError(error)
    }

    /// Wraps this error with the name of the function it escaped from,
    /// keeping the cause.
    pub fn with_function_context(self, function: String) -> (r: EvalError)
        ensures
            r == (EvalError::ErrorInFunction { function: function, inner: Box::new(self) }),
    {
        EvalError::ErrorInFunction { function, inner: Box::new(self) }
    }

    /// The error on a control-flow signal observed where none belongs.
    pub fn unexpected_control_flow(cf: &ControlFlow) -> (r: EvalError)
        ensures
            r matches EvalError::UnexpectedControlFlow(_),
    {
        let label: &str = match cf {
            ControlFlow::Break => "break",
            ControlFlow::Continue => "continue",
            ControlFlow::Return(_) => "return",
        };
        EvalError::UnexpectedControlFlow(label.to_owned())
    }
}

impl ExpectedArity {
    /// An arity between `min` and `max`, degrading to `Exactly` when the
    /// two agree.
    pub fn between(min: usize, max: usize) -> (r: ExpectedArity)
        ensures
            r == if min == max {
                ExpectedArity::Exactly(min)
            } else {
                ExpectedArity::Between(min, max)
            },
    {
        if min == max {
            ExpectedArity::Exactly(min)
        } else {
            ExpectedArity::Between(min, max)
        }
    }
}

impl ControlFlow {
    /// Accepts only ordinary completion: any signal becomes an error; an
    /// ordinary error passes through unchanged.
    pub fn expect_normal<T>(value: Result<T, EvalErrorOrControlFlow>) -> (r: Result<T, EvalError>)
        ensures
            match value {
                Ok(v) => r matches Ok(rv) && rv == v,
                Err(EvalErrorOrControlFlow::EvalError(e)) => r matches Err(re) && re == e,
                Err(EvalErrorOrControlFlow::ControlFlow(_)) => r matches Err(
                    EvalError::UnexpectedControlFlow(_),
                ),
            },
    {
        match value {
            Ok(v) => Ok(v),
            Err(EvalErrorOrControlFlow::EvalError(e)) => Err(e),
            Err(EvalErrorOrControlFlow::ControlFlow(cf)) => Err(
                EvalError::unexpected_control_flow(&cf),
            ),
        }
    }

    /// Consumes a `return` signal at a function-call boundary, turning
    /// it into the call's value; break and continue stay errors and an
    /// ordinary error passes through unchanged.
    pub fn expect_return(value: Result<Value, EvalErrorOrControlFlow>) -> (r: Result<
        Value,
        EvalError,
    >)
        ensures
            match value {
                Ok(v) => r matches Ok(rv) && rv == v,
                Err(EvalErrorOrControlFlow::EvalError(e)) => r matches Err(re) && re == e,
                Err(EvalErrorOrControlFlow::ControlFlow(cf)) => match cf {
                    ControlFlow::Return(v) => r matches Ok(rv) && rv == v,
                    _ => r matches Err(EvalError::UnexpectedControlFlow(_)),
                },
            },
    {
        match value {
            Ok(v) => Ok(v),
            Err(EvalErrorOrControlFlow::EvalError(e)) => Err(e),
            Err(EvalErrorOrControlFlow::ControlFlow(ControlFlow::Return(v))) => Ok(v),
            Err(EvalErrorOrControlFlow::ControlFlow(cf)) => Err(
                EvalError::unexpected_control_flow(&cf),
            ),
        }
    }

    /// Consumes a `return` signal at a function-call boundary; a body
    /// that falls through yields null; an ordinary error passes through
    /// unchanged.
    pub fn expect_return_or_null(value: Result<(), EvalErrorOrControlFlow>) -> (r: Result<
        Value,
        EvalError,
    >)
        ensures
            match value {
                Ok(_) => r matches Ok(rv) && rv == Value::Null,
                Err(EvalErrorOrControlFlow::EvalError(e)) => r matches Err(re) && re == e,
                Err(EvalErrorOrControlFlow::ControlFlow(cf)) => match cf {
                    ControlFlow::Return(v) => r matches Ok(rv) && rv == v,
                    _ => r matches Err(EvalError::UnexpectedControlFlow(_)),
                },
            },
    {
        match value {
            Ok(_) => Ok(Value::Null),
            Err(e) => Self::expect_return(Err(e)),
        }
    }

    /// Consumes break and continue at a loop boundary; ordinary errors
    /// and `return` signals pass through untouched, so they escape only
    /// the nearest enclosing loop.
    pub fn extract_loop_control(value: Result<(), EvalErrorOrControlFlow>) -> (r: Result<
        Option<LoopControlFlow>,
        EvalErrorOrControlFlow,
    >)
        ensures
            match value {
                Ok(_) => r matches Ok(lc) && lc is None,
                Err(EvalErrorOrControlFlow::ControlFlow(ControlFlow::Break)) => r matches Ok(lc)
                    && lc == Some(LoopControlFlow::Break),
                Err(EvalErrorOrControlFlow::ControlFlow(ControlFlow::Continue)) => r matches Ok(lc)
                    && lc == Some(LoopControlFlow::Continue),
                Err(e) => r matches Err(re) && re == e,
            },
    {
        match value {
            Err(EvalErrorOrControlFlow::ControlFlow(ControlFlow::Break)) => Ok(
                Some(LoopControlFlow::Break),
            ),
            Err(EvalErrorOrControlFlow::ControlFlow(ControlFlow::Continue)) => Ok(
                Some(LoopControlFlow::Continue),
            ),
            Ok(()) => Ok(None),
            Err(err) => Err(err),
        }
    }
}

} // verus!
