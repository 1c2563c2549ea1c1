//! Operator names and types.

use vstd::prelude::*;
use crate::text::str_eq;

verus! {

/// A unary operator of the scripting language.
#[derive(Debug, Copy, Clone, PartialEq, Eq, Structural, Hash)]
pub enum UnaryOp {
    Not,
    Pos,
    Neg,
    Compl,
}

/// A binary operator of the scripting language.
#[derive(Debug, Copy, Clone, PartialEq, Eq, Structural, Hash)]
pub enum BinaryOp {
    Add,
    Sub,
    Mul,
    Div,
    Mod,
    Pow,
    LShift,
    RShift,
    BitAnd,
    BitOr,
    BitXor,
    Eq,
    Ne,
    Lt,
    Le,
    Gt,
    Ge,
    And,
    Or,
    Is,
    IsNot,
    In,
    NotIn,
}

/// A (possibly compound) assignment operator.
#[derive(Debug, Copy, Clone, PartialEq, Eq, Structural, Hash)]
pub enum AssignOp {
    Eq,
    AddEq,
    SubEq,
    MulEq,
    DivEq,
    ModEq,
    PowEq,
    BitAndEq,
    BitOrEq,
    BitXorEq,
    LShiftEq,
    RShiftEq,
}

/// The error on an unrecognised operator symbol.
#[derive(Debug, Clone)]
pub struct OpFromStrError(pub String);

/// The unary operator written as the symbol `s`. Some operators have two
/// names; both are accepted.
pub open spec fn unary_op_of_symbol(s: Seq<char>) -> Option<UnaryOp> {
    if s == "!"@ || s == "not"@ {
        Some(UnaryOp::Not)
    } else if s == "+"@ {
        Some(UnaryOp::Pos)
    } else if s == "-"@ {
        Some(UnaryOp::Neg)
    } else if s == "~"@ {
        Some(UnaryOp::Compl)
    } else {
        None
    }
}

/// The binary operator written as the symbol `s`. Some operators have two
/// names; both are accepted.
pub open spec fn binary_op_of_symbol(s: Seq<char>) -> Option<BinaryOp> {
    if s == "+"@ {
        Some(BinaryOp::Add)
    } else if s == "-"@ {
        Some(BinaryOp::Sub)
    } else if s == "*"@ {
        Some(BinaryOp::Mul)
    } else if s == "/"@ {
        Some(BinaryOp::Div)
    } else if s == "%"@ {
        Some(BinaryOp::Mod)
    } else if s == "**"@ {
        Some(BinaryOp::Pow)
    } else if s == "<<"@ {
        Some(BinaryOp::LShift)
    } else if s == ">>"@ {
        Some(BinaryOp::RShift)
    } else if s == "&"@ {
        Some(BinaryOp::BitAnd)
    } else if s == "|"@ {
        Some(BinaryOp::BitOr)
    } else if s == "^"@ {
        Some(BinaryOp::BitXor)
    } else if s == "=="@ {
        Some(BinaryOp::Eq)
    } else if s == "!="@ {
        Some(BinaryOp::Ne)
    } else if s == "<"@ {
        Some(BinaryOp::Lt)
    } else if s == "<="@ {
        Some(BinaryOp::Le)
    } else if s == ">"@ {
        Some(BinaryOp::Gt)
    } else if s == ">="@ {
        Some(BinaryOp::Ge)
    } else if s == "&&"@ || s == "and"@ {
        Some(BinaryOp::And)
    } else if s == "||"@ || s == "or"@ {
        Some(BinaryOp::Or)
    } else if s == "is"@ {
        Some(BinaryOp::Is)
    } else if s == "is not"@ {
        Some(BinaryOp::IsNot)
    } else if s == "in"@ {
        Some(BinaryOp::In)
    } else if s == "not in"@ {
        Some(BinaryOp::NotIn)
    } else {
        None
    }
}

/// The assignment operator written as the symbol `s`.
pub open spec fn assign_op_of_symbol(s: Seq<char>) -> Option<AssignOp> {
    if s == "="@ {
        Some(AssignOp::Eq)
    } else if s == "+="@ {
        Some(AssignOp::AddEq)
    } else if s == "-="@ {
        Some(AssignOp::SubEq)
    } else if s == "*="@ {
        Some(AssignOp::MulEq)
    } else if s == "/="@ {
        Some(AssignOp::DivEq)
    } else if s == "%="@ {
        Some(AssignOp::ModEq)
    } else if s == "**="@ {
        Some(AssignOp::PowEq)
    } else if s == "&="@ {
        Some(AssignOp::BitAndEq)
    } else if s == "|="@ {
        Some(AssignOp::BitOrEq)
    } else if s == "^="@ {
        Some(AssignOp::BitXorEq)
    } else if s == "<<="@ {
        Some(AssignOp::LShiftEq)
    } else if s == ">>="@ {
        Some(AssignOp::RShiftEq)
    } else {
        None
    }
}

/// The canonical symbol of a unary operator.
pub open spec fn unary_symbol_spec(op: UnaryOp) -> Seq<char> {
    match op {
        UnaryOp::Not => "!"@,
        UnaryOp::Pos => "+"@,
        UnaryOp::Neg => "-"@,
        UnaryOp::Compl => "~"@,
    }
}

impl UnaryOp {
    /// Parses an operator symbol. This is not an exact round-trip for
    /// [`UnaryOp::symbol`]: operators with two names are normalised to
    /// one representation.
    pub fn parse(s: &str) -> (r: Result<UnaryOp, OpFromStrError>)
        ensures
            r matches Ok(op) ==> unary_op_of_symbol(s@) == Some(op),
            r is Err ==> unary_op_of_symbol(s@) is None,
    {
        if str_eq(s, "!") || str_eq(s, "not") {
            Ok(UnaryOp::Not)
        } else if str_eq(s, "+") {
            Ok(UnaryOp::Pos)
        } else if str_eq(s, "-") {
            Ok(UnaryOp::Neg)
        } else if str_eq(s, "~") {
            Ok(UnaryOp::Compl)
        } else {
            Err(OpFromStrError(s.to_owned()))
        }
    }

    /// The symbol this operator is written as.
    pub fn symbol(&self) -> (r: &'static str)
        ensures
            r@ == unary_symbol_spec(*self),
    {
        match self {
            UnaryOp::Not => "!",
            UnaryOp::Pos => "+",
            UnaryOp::Neg => "-",
            UnaryOp::Compl => "~",
        }
    }
}

/// The canonical symbol of a binary operator.
pub open spec fn binary_symbol_spec(op: BinaryOp) -> Seq<char> {
    match op {
        BinaryOp::Add => "+"@,
        BinaryOp::Sub => "-"@,
        BinaryOp::Mul => "*"@,
        BinaryOp::Div => "/"@,
        BinaryOp::Mod => "%"@,
        BinaryOp::Pow => "**"@,
        BinaryOp::LShift => "<<"@,
        BinaryOp::RShift => ">>"@,
        BinaryOp::BitAnd => "&"@,
        BinaryOp::BitOr => "|"@,
        BinaryOp::BitXor => "^"@,
        BinaryOp::Eq => "=="@,
        BinaryOp::Ne => "!="@,
        BinaryOp::Lt => "<"@,
        BinaryOp::Le => "<="@,
        BinaryOp::Gt => ">"@,
        BinaryOp::Ge => ">="@,
        BinaryOp::And => "&&"@,
        BinaryOp::Or => "||"@,
        BinaryOp::Is => "is"@,
        BinaryOp::IsNot => "is not"@,
        BinaryOp::In => "in"@,
        BinaryOp::NotIn => "not in"@,
    }
}

impl BinaryOp {
    /// Parses an operator symbol. This is not an exact round-trip for
    /// [`BinaryOp::symbol`]: operators with two names are normalised to
    /// one representation.
    pub fn parse(s: &str) -> (r: Result<BinaryOp, OpFromStrError>)
        ensures
            r matches Ok(op) ==> binary_op_of_symbol(s@) == Some(op),
            r is Err ==> binary_op_of_symbol(s@) is None,
    {
        if str_eq(s, "+") {
            Ok(BinaryOp::Add)
        } else if str_eq(s, "-") {
            Ok(BinaryOp::Sub)
        } else if str_eq(s, "*") {
            Ok(BinaryOp::Mul)
        } else if str_eq(s, "/") {
            Ok(BinaryOp::Div)
        } else if str_eq(s, "%") {
            Ok(BinaryOp::Mod)
        } else if str_eq(s, "**") {
            Ok(BinaryOp::Pow)
        } else if str_eq(s, "<<") {
            Ok(BinaryOp::LShift)
        } else if str_eq(s, ">>") {
            Ok(BinaryOp::RShift)
        } else if str_eq(s, "&") {
            Ok(BinaryOp::BitAnd)
        } else if str_eq(s, "|") {
            Ok(BinaryOp::BitOr)
        } else if str_eq(s, "^") {
            Ok(BinaryOp::BitXor)
        } else if str_eq(s, "==") {
            Ok(BinaryOp::Eq)
        } else if str_eq(s, "!=") {
            Ok(BinaryOp::Ne)
        } else if str_eq(s, "<") {
            Ok(BinaryOp::Lt)
        } else if str_eq(s, "<=") {
            Ok(BinaryOp::Le)
        } else if str_eq(s, ">") {
            Ok(BinaryOp::Gt)
        } else if str_eq(s, ">=") {
            Ok(BinaryOp::Ge)
        } else if str_eq(s, "&&") || str_eq(s, "and") {
            Ok(BinaryOp::And)
        } else if str_eq(s, "||") || str_eq(s, "or") {
            Ok(BinaryOp::Or)
        } else if str_eq(s, "is") {
            Ok(BinaryOp::Is)
        } else if str_eq(s, "is not") {
            Ok(BinaryOp::IsNot)
        } else if str_eq(s, "in") {
            Ok(BinaryOp::In)
        } else if str_eq(s, "not in") {
            Ok(BinaryOp::NotIn)
        } else {
            Err(OpFromStrError(s.to_owned()))
        }
    }

    /// The symbol this operator is written as.
    pub fn symbol(&self) -> (r: &'static str)
        ensures
            r@ == binary_symbol_spec(*self),
    {
        match self {
            BinaryOp::Add => "+",
            BinaryOp::Sub => "-",
            BinaryOp::Mul => "*",
            BinaryOp::Div => "/",
            BinaryOp::Mod => "%",
            BinaryOp::Pow => "**",
            BinaryOp::LShift => "<<",
            BinaryOp::RShift => ">>",
            BinaryOp::BitAnd => "&",
            BinaryOp::BitOr => "|",
            BinaryOp::BitXor => "^",
            BinaryOp::Eq => "==",
            BinaryOp::Ne => "!=",
            BinaryOp::Lt => "<",
            BinaryOp::Le => "<=",
            BinaryOp::Gt => ">",
            BinaryOp::Ge => ">=",
            BinaryOp::And => "&&",
            BinaryOp::Or => "||",
            BinaryOp::Is => "is",
            BinaryOp::IsNot => "is not",
            BinaryOp::In => "in",
            BinaryOp::NotIn => "not in",
        }
    }
}

impl AssignOp {
    /// Parses an operator symbol.
    pub fn parse(s: &str) -> (r: Result<AssignOp, OpFromStrError>)
        ensures
            r matches Ok(op) ==> assign_op_of_symbol(s@) == Some(op),
            r is Err ==> assign_op_of_symbol(s@) is None,
    {
        if str_eq(s, "=") {
            Ok(AssignOp::Eq)
        } else if str_eq(s, "+=") {
            Ok(AssignOp::AddEq)
        } else if str_eq(s, "-=") {
            Ok(AssignOp::SubEq)
        } else if str_eq(s, "*=") {
            Ok(AssignOp::MulEq)
        } else if str_eq(s, "/=") {
            Ok(AssignOp::DivEq)
        } else if str_eq(s, "%=") {
            Ok(AssignOp::ModEq)
        } else if str_eq(s, "**=") {
            Ok(AssignOp::PowEq)
        } else if str_eq(s, "&=") {
            Ok(AssignOp::BitAndEq)
        } else if str_eq(s, "|=") {
            Ok(AssignOp::BitOrEq)
        } else if str_eq(s, "^=") {
            Ok(AssignOp::BitXorEq)
        } else if str_eq(s, "<<=") {
            Ok(AssignOp::LShiftEq)
        } else if str_eq(s, ">>=") {
            Ok(AssignOp::RShiftEq)
        } else {
            Err(OpFromStrError(s.to_owned()))
        }
    }

    /// The plain binary operator under a compound assignment, or `None`
    /// for plain `=`.
    pub fn as_binary(self) -> (r: Option<BinaryOp>)
        ensures
            r == match self {
                AssignOp::Eq => None::<BinaryOp>,
                AssignOp::AddEq => Some(BinaryOp::Add),
                AssignOp::SubEq => Some(BinaryOp::Sub),
                AssignOp::MulEq => Some(BinaryOp::Mul),
                AssignOp::DivEq => Some(BinaryOp::Div),
                AssignOp::ModEq => Some(BinaryOp::Mod),
                AssignOp::PowEq => Some(BinaryOp::Pow),
                AssignOp::BitAndEq => Some(BinaryOp::BitAnd),
                AssignOp::BitOrEq => Some(BinaryOp::BitOr),
                AssignOp::BitXorEq => Some(BinaryOp::BitXor),
                AssignOp::LShiftEq => Some(BinaryOp::LShift),
                AssignOp::RShiftEq => Some(BinaryOp::RShift),
            },
    {
        match self {
            AssignOp::Eq => None,
            AssignOp::AddEq => Some(BinaryOp::Add),
            AssignOp::SubEq => Some(BinaryOp::Sub),
            AssignOp::MulEq => Some(BinaryOp::Mul),
            AssignOp::DivEq => Some(BinaryOp::Div),
            AssignOp::ModEq => Some(BinaryOp::Mod),
            AssignOp::PowEq => Some(BinaryOp::Pow),
            AssignOp::BitAndEq => Some(BinaryOp::BitAnd),
            AssignOp::BitOrEq => Some(BinaryOp::BitOr),
            AssignOp::BitXorEq => Some(BinaryOp::BitXor),
            AssignOp::LShiftEq => Some(BinaryOp::LShift),
            AssignOp::RShiftEq => Some(BinaryOp::RShift),
        }
    }
}

} // verus!
