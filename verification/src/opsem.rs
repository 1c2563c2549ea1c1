//! Operator semantics: the exact coercion rules for unary and binary
//! operators, implemented literally rather than by analogy.

use vstd::prelude::*;
use crate::errors::EvalError;
use crate::eval::{EvaluatorState, kind_name};
use crate::class::{Class, is_ancestor_spec};
use crate::class::is_ancestor as is_ancestor_exec;
use crate::eval::{SuperglobalState, class_of_spec};
use crate::heap::Heap;
use crate::heap::heap_extends;
use crate::ops::{UnaryOp, BinaryOp};
use crate::strfmt::{count_directives, format_percent, render, FormatterError};
use crate::text::{push_char, append_chars, chars_of, i64_to_string, dec_rep_signed, str_eq};
use crate::value::{Value, HashKey};

verus! {

/// The wrapped result of an integer binary operation, `None` where the
/// operator is not an arithmetic one or the divisor is zero. Addition,
/// subtraction and multiplication wrap on overflow; division truncates.
pub open spec fn int_binop_spec(op: BinaryOp, a: i64, b: i64) -> Option<i64> {
    match op {
        BinaryOp::Add => Some(vstd::wrapping::i64_specs::wrapping_add(a, b)),
        BinaryOp::Sub => Some(vstd::wrapping::i64_specs::wrapping_sub(a, b)),
        BinaryOp::Mul => Some(vstd::wrapping::i64_specs::wrapping_mul(a, b)),
        BinaryOp::Div => if b == 0 || (a == i64::MIN && b == -1) {
            None
        } else {
            Some(trunc_div_spec(a as int, b as int) as i64)
        },
        BinaryOp::Mod => if b == 0 {
            None
        } else if a == i64::MIN && b == -1 {
            Some(0)
        } else {
            Some(trunc_rem_spec(a as int, b as int) as i64)
        },
        _ => None,
    }
}

/// The absolute value.
pub open spec fn abs_spec(x: int) -> int {
    if x < 0 {
        -x
    } else {
        x
    }
}

/// Truncated (round-toward-zero) division, the scripting language's
/// integer division.
pub open spec fn trunc_div_spec(a: int, b: int) -> int {
    let q = abs_spec(a) / abs_spec(b);
    if (a < 0) != (b < 0) {
        -q
    } else {
        q
    }
}

/// The remainder that pairs with truncated division: it carries the
/// dividend's sign.
pub open spec fn trunc_rem_spec(a: int, b: int) -> int {
    let m = abs_spec(a) % abs_spec(b);
    if a < 0 {
        -m
    } else {
        m
    }
}

/// The unsigned magnitude of a 64-bit integer.
fn abs_u64(x: i64) -> (r: u64)
    ensures
        r == abs_spec(x as int),
{
    if x < 0 {
        if x == i64::MIN {
            9223372036854775808u64
        } else {
            (-x) as u64
        }
    } else {
        x as u64
    }
}

/// Integer arithmetic stays integer arithmetic: adding two integer
/// values gives exactly their mathematical sum whenever that sum fits
/// the 64-bit range, and likewise for subtraction and multiplication.
pub proof fn lemma_arithmetic_promotion(a: i64, b: i64)
    ensures
        i64::MIN <= a + b <= i64::MAX ==> int_binop_spec(BinaryOp::Add, a, b) == Some((a + b) as i64),
        i64::MIN <= a - b <= i64::MAX ==> int_binop_spec(BinaryOp::Sub, a, b) == Some((a - b) as i64),
        i64::MIN <= a * b <= i64::MAX ==> int_binop_spec(BinaryOp::Mul, a, b) == Some((a * b) as i64),
{
    if i64::MIN <= a * b <= i64::MAX {
        assert((a * b) % 0x1_0000_0000_0000_0000 == a * b || (a * b) % 0x1_0000_0000_0000_0000
            == a * b + 0x1_0000_0000_0000_0000) by (nonlinear_arith)
            requires
                -0x8000_0000_0000_0000 <= a * b <= 0x7fff_ffff_ffff_ffff,
        ;
        assert(vstd::wrapping::i64_specs::signed_crop(a * b) == a * b);
    }
}

/// Evaluates a unary operator. The complement operator is outside this
/// engine's subset.
pub fn eval_unary_op(op: UnaryOp, value: Value) -> (r: Result<Value, EvalError>)
    ensures
        op == UnaryOp::Not ==> r == Ok::<Value, EvalError>(Value::Bool(!value.spec_as_bool())),
        op == UnaryOp::Pos ==> r == Ok::<Value, EvalError>(value),
        op == UnaryOp::Neg ==> match value {
            Value::Int(n) => r == Ok::<Value, EvalError>(
                Value::Int(vstd::wrapping::i64_specs::wrapping_sub(0, n)),
            ),
            _ => r is Err,
        },
        op == UnaryOp::Compl ==> r is Err,
{
    match op {
        UnaryOp::Not => {
            let b = value.as_bool();
            Ok(Value::Bool(!b))
        }
        UnaryOp::Pos => Ok(value),
        UnaryOp::Neg => match value {
            Value::Int(n) => Ok(Value::Int(0i64.wrapping_sub(n))),
            other => Err(EvalError::type_error("number".to_owned(), kind_name(&other).to_owned())),
        },
        UnaryOp::Compl => Err(
            EvalError::DomainError("complement operator is not supported".to_owned()),
        ),
    }
}

/// Whether `needle` occurs as a contiguous run inside `hay`.
pub open spec fn contains_spec(hay: Seq<char>, needle: Seq<char>) -> bool {
    exists|i: int|
        0 <= i <= hay.len() - needle.len() && (#[trigger] hay.subrange(i, i + needle.len()))
            == needle
}

/// Decides substring containment.
pub fn chars_contain(hay: &Vec<char>, needle: &Vec<char>) -> (r: bool)
    ensures
        r == contains_spec(hay@, needle@),
{
    let hn = hay.len();
    let nl = needle.len();
    if nl > hn {
        proof {
            assert(!contains_spec(hay@, needle@));
        }
        return false;
    }
    let mut i: usize = 0;
    while i <= hn - nl
        invariant
            nl == needle@.len() <= hay@.len() == hn,
            i <= hn - nl + 1,
            forall|p: int|
                0 <= p < i ==> (#[trigger] hay@.subrange(p, p + needle@.len())) != needle@,
        decreases hn - nl + 1 - i,
    {
        let mut j: usize = 0;
        let mut matched = true;
        while j < nl
            invariant
                nl == needle@.len() <= hay@.len() == hn,
                i + nl <= hn,
                j <= nl,
                matched ==> forall|q: int| 0 <= q < j ==> hay@[i + q] == needle@[q],
                !matched ==> exists|q: int| 0 <= q < needle@.len() && hay@[i + q] != needle@[q],
            decreases nl - j,
        {
            if hay[i + j] != needle[j] {
                proof {
                    assert(hay@[i + j] != needle@[j as int]);
                }
                matched = false;
                j = nl;
            } else {
                j = j + 1;
            }
        }
        if matched {
            proof {
                assert(hay@.subrange(i as int, i + needle@.len()) =~= needle@);
            }
            return true;
        }
        proof {
            if hay@.subrange(i as int, i + needle@.len()) == needle@ {
                let q = choose|q: int| 0 <= q < needle@.len() && hay@[i + q] != needle@[q];
                assert(hay@.subrange(i as int, i + needle@.len())[q] == hay@[i + q]);
                assert(false);
            }
        }
        i = i + 1;
    }
    proof {
        assert(!contains_spec(hay@, needle@));
    }
    false
}

/// The three-way comparison outcomes the ordering operators share.
#[derive(Debug, Clone, Copy, PartialEq, Eq, Structural)]
pub enum Comparison {
    Below,
    Same,
    Above,
}

/// Lexicographic three-way comparison of character sequences.
pub open spec fn str_cmp_spec(a: Seq<char>, b: Seq<char>) -> Comparison
    decreases a.len(),
{
    if a.len() == 0 && b.len() == 0 {
        Comparison::Same
    } else if a.len() == 0 {
        Comparison::Below
    } else if b.len() == 0 {
        Comparison::Above
    } else if a[0] == b[0] {
        str_cmp_spec(a.drop_first(), b.drop_first())
    } else if a[0] < b[0] {
        Comparison::Below
    } else {
        Comparison::Above
    }
}

/// Compares two character vectors lexicographically.
pub fn chars_cmp(a: &Vec<char>, b: &Vec<char>) -> (r: Comparison)
    ensures
        r == str_cmp_spec(a@, b@),
{
    proof {
        assert(a@.skip(0) =~= a@);
        assert(b@.skip(0) =~= b@);
    }
    let mut i: usize = 0;
    loop
        invariant
            i <= a@.len(),
            i <= b@.len(),
            str_cmp_spec(a@, b@) == str_cmp_spec(a@.skip(i as int), b@.skip(i as int)),
        decreases a@.len() - i,
    {
        proof {
            if i < a@.len() && i < b@.len() {
                assert(a@.skip(i as int).drop_first() =~= a@.skip(i + 1));
                assert(b@.skip(i as int).drop_first() =~= b@.skip(i + 1));
            }
        }
        if i >= a.len() && i >= b.len() {
            proof {
                assert(a@.skip(i as int).len() == 0 && b@.skip(i as int).len() == 0);
            }
            return Comparison::Same;
        }
        if i >= a.len() {
            proof {
                assert(a@.skip(i as int).len() == 0 && b@.skip(i as int).len() > 0);
            }
            return Comparison::Below;
        }
        if i >= b.len() {
            proof {
                assert(b@.skip(i as int).len() == 0 && a@.skip(i as int).len() > 0);
            }
            return Comparison::Above;
        }
        proof {
            assert(a@.skip(i as int)[0] == a@[i as int]);
            assert(b@.skip(i as int)[0] == b@[i as int]);
        }
        if a[i] < b[i] {
            return Comparison::Below;
        }
        if b[i] < a[i] {
            return Comparison::Above;
        }
        i = i + 1;
    }
}


/// Whether two class references denote equal classes: identity, or both
/// valid and equal by name alone (anonymous classes are all equal).
pub open spec fn class_name_eq_spec(classes: Seq<Class>, x: usize, y: usize) -> bool {
    if x == y {
        true
    } else if x < classes.len() && y < classes.len() {
        match (classes[x as int].name, classes[y as int].name) {
            (Some(n1), Some(n2)) => n1@ == n2@,
            (None, None) => true,
            _ => false,
        }
    } else {
        false
    }
}

/// Whether two enum tables hold the same members in the same order.
pub open spec fn enum_tables_eq_spec(x: Seq<(String, i64)>, y: Seq<(String, i64)>) -> bool {
    x.len() == y.len() && forall|i: int|
        0 <= i < x.len() ==> (#[trigger] x[i]).0@ == y[i].0@ && x[i].1 == y[i].1
}

/// The fuel-free part of value equality: every pair of values except two
/// distinct array or dictionary references (whose contents need
/// recursion) has a decided answer.
pub open spec fn value_eq_shallow_spec(classes: Seq<Class>, a: Value, b: Value) -> Option<bool> {
    match (a, b) {
        (Value::Null, Value::Null) => Some(true),
        (Value::Bool(x), Value::Bool(y)) => Some(x == y),
        (Value::Int(x), Value::Int(y)) => Some(x == y),
        (Value::Str(x), Value::Str(y)) => Some(x@ == y@),
        (Value::ObjectRef(x), Value::ObjectRef(y)) => Some(x == y),
        (Value::BoundMethod(x), Value::BoundMethod(y)) => Some(x == y),
        (Value::Lambda(x), Value::Lambda(y)) => Some(x == y),
        (Value::CallableWithBindings(x), Value::CallableWithBindings(y)) => Some(x == y),
        (Value::SignalStub, Value::SignalStub) => Some(true),
        (Value::ClassRef(x), Value::ClassRef(y)) => Some(class_name_eq_spec(classes, x, y)),
        (Value::EnumType(x), Value::EnumType(y)) => Some(enum_tables_eq_spec(x@, y@)),
        (Value::ArrayRef(x), Value::ArrayRef(y)) => if x == y {
            Some(true)
        } else {
            None
        },
        (Value::DictRef(x), Value::DictRef(y)) => if x == y {
            Some(true)
        } else {
            None
        },
        _ => Some(false),
    }
}

/// The three-way comparison of two values, `None` where the kinds are
/// not comparable.
pub open spec fn compare_spec(a: Value, b: Value) -> Option<Comparison> {
    match (a, b) {
        (Value::Int(x), Value::Int(y)) => Some(
            if x < y {
                Comparison::Below
            } else if x == y {
                Comparison::Same
            } else {
                Comparison::Above
            },
        ),
        (Value::Str(x), Value::Str(y)) => Some(str_cmp_spec(x@, y@)),
        (Value::Bool(x), Value::Bool(y)) => Some(
            if x == y {
                Comparison::Same
            } else if y {
                Comparison::Below
            } else {
                Comparison::Above
            },
        ),
        (Value::Null, Value::Null) => Some(Comparison::Same),
        _ => None,
    }
}

/// The `is` check: the right operand must be a class (`None` otherwise),
/// and the left operand's class chain is searched for it.
pub open spec fn type_check_spec(sg: &SuperglobalState, heap: &Heap, lhs: Value, rhs: Value)
    -> Option<bool> {
    match rhs {
        Value::ClassRef(t) => Some(
            match class_of_spec(sg, heap, lhs) {
                Some(c) => if 0 <= c < sg.classes@.len() {
                    is_ancestor_spec(sg.classes@, c, t as int)
                } else {
                    false
                },
                None => false,
            },
        ),
        _ => None,
    }
}

impl EvaluatorState {
    /// Structural equality of runtime values: primitives compare by
    /// content, strings character for character, arrays and
    /// dictionaries by their contents, objects and callables by
    /// identity, classes by name.
    pub fn value_eq(&self, a: &Value, b: &Value, fuel: u64) -> (r: Result<bool, EvalError>)
        ensures
            match value_eq_shallow_spec(self.sg.classes@, *a, *b) {
                Some(bv) => r == Ok::<bool, EvalError>(bv),
                None => true,
            },
        decreases fuel,
    {
        match (a, b) {
            (Value::Null, Value::Null) => Ok(true),
            (Value::Bool(x), Value::Bool(y)) => Ok(x == y),
            (Value::Int(x), Value::Int(y)) => Ok(x == y),
            (Value::Str(x), Value::Str(y)) => Ok(str_eq(x.as_str(), y.as_str())),
            (Value::ObjectRef(x), Value::ObjectRef(y)) => Ok(x == y),
            (Value::BoundMethod(x), Value::BoundMethod(y)) => Ok(x == y),
            (Value::Lambda(x), Value::Lambda(y)) => Ok(x == y),
            (Value::CallableWithBindings(x), Value::CallableWithBindings(y)) => Ok(x == y),
            (Value::SignalStub, Value::SignalStub) => Ok(true),
            (Value::ClassRef(x), Value::ClassRef(y)) => {
                if x == y {
                    return Ok(true);
                }
                if *x < self.sg.classes.len() && *y < self.sg.classes.len() {
                    let xn = &self.sg.classes[*x].name;
                    let yn = &self.sg.classes[*y].name;
                    match (xn, yn) {
                        (Some(n1), Some(n2)) => Ok(str_eq(n1.as_str(), n2.as_str())),
                        (None, None) => Ok(true),
                        _ => Ok(false),
                    }
                } else {
                    Ok(false)
                }
            }
            (Value::EnumType(x), Value::EnumType(y)) => {
                if x.len() != y.len() {
                    return Ok(false);
                }
                let mut i: usize = 0;
                while i < x.len()
                    invariant
                        x@.len() == y@.len(),
                        i <= x@.len(),
                        value_eq_shallow_spec(self.sg.classes@, *a, *b) == Some(
                            enum_tables_eq_spec(x@, y@),
                        ),
                        forall|k: int|
                            0 <= k < i ==> (#[trigger] x@[k]).0@ == y@[k].0@ && x@[k].1 == y@[k].1,
                    decreases x@.len() - i,
                {
                    if !str_eq(x[i].0.as_str(), y[i].0.as_str()) || x[i].1 != y[i].1 {
                        proof {
                            assert(!enum_tables_eq_spec(x@, y@));
                        }
                        return Ok(false);
                    }
                    i = i + 1;
                }
                Ok(true)
            }
            (Value::ArrayRef(x), Value::ArrayRef(y)) => {
                if x == y {
                    return Ok(true);
                }
                if fuel == 0 {
                    return Err(EvalError::BudgetExhausted);
                }
                let xs = match self.heap.array_snapshot(*x) {
                    Ok(s) => s,
                    Err(e) => {
                        return Err(e);
                    }
                };
                let ys = match self.heap.array_snapshot(*y) {
                    Ok(s) => s,
                    Err(e) => {
                        return Err(e);
                    }
                };
                if xs.len() != ys.len() {
                    return Ok(false);
                }
                let mut i: usize = 0;
                while i < xs.len()
                    invariant
                        xs@.len() == ys@.len(),
                        i <= xs@.len(),
                        fuel >= 1,
                        value_eq_shallow_spec(self.sg.classes@, *a, *b) is None,
                    decreases xs@.len() - i,
                {
                    match self.value_eq(&xs[i], &ys[i], fuel - 1) {
                        Ok(true) => {}
                        Ok(false) => {
                            return Ok(false);
                        }
                        Err(e) => {
                            return Err(e);
                        }
                    }
                    i = i + 1;
                }
                Ok(true)
            }
            (Value::DictRef(x), Value::DictRef(y)) => {
                if x == y {
                    return Ok(true);
                }
                if fuel == 0 {
                    return Err(EvalError::BudgetExhausted);
                }
                let xs = match self.heap.dict_snapshot(*x) {
                    Ok(s) => s,
                    Err(e) => {
                        return Err(e);
                    }
                };
                let ys = match self.heap.dict_snapshot(*y) {
                    Ok(s) => s,
                    Err(e) => {
                        return Err(e);
                    }
                };
                if xs.len() != ys.len() {
                    return Ok(false);
                }
                let mut i: usize = 0;
                while i < xs.len()
                    invariant
                        xs@.len() == ys@.len(),
                        i <= xs@.len(),
                        fuel >= 1,
                        value_eq_shallow_spec(self.sg.classes@, *a, *b) is None,
                    decreases xs@.len() - i,
                {
                    if !(xs[i].0 == ys[i].0) {
                        return Ok(false);
                    }
                    match self.value_eq(&xs[i].1, &ys[i].1, fuel - 1) {
                        Ok(true) => {}
                        Ok(false) => {
                            return Ok(false);
                        }
                        Err(e) => {
                            return Err(e);
                        }
                    }
                    i = i + 1;
                }
                Ok(true)
            }
            _ => Ok(false),
        }
    }

    /// A debugging rendition of a value, used in messages and string
    /// formatting: strings are quoted, containers spell out their
    /// contents.
    pub fn value_display(&self, v: &Value, fuel: u64) -> (r: String)
        ensures
            *v matches Value::Null ==> r@ == "null"@,
            *v matches Value::Bool(b) ==> r@ == (if b {
                "true"@
            } else {
                "false"@
            }),
            *v matches Value::Int(i) ==> r@ == dec_rep_signed(i as int),
            *v matches Value::Str(s) ==> r@ == seq!['"'] + s@ + seq!['"'],
        decreases fuel,
    {
        match v {
            Value::Null => {
                return "null".to_owned();
            }
            Value::Bool(b) => {
                return if *b {
                    "true".to_owned()
                } else {
                    "false".to_owned()
                };
            }
            Value::Int(i) => {
                return i64_to_string(*i);
            }
            Value::Str(s) => {
                let mut out = String::new();
                push_char(&mut out, '"');
                let cs = chars_of(s.as_str());
                append_chars(&mut out, &cs);
                push_char(&mut out, '"');
                proof {
                    assert(out@ =~= seq!['"'] + s@ + seq!['"']);
                }
                return out;
            }
            _ => {}
        }
        if fuel == 0 {
            return "...".to_owned();
        }
        match v {
            Value::Null => "null".to_owned(),
            Value::Bool(b) => if *b {
                "true".to_owned()
            } else {
                "false".to_owned()
            },
            Value::Int(i) => i64_to_string(*i),
            Value::Str(s) => {
                let mut out = String::new();
                push_char(&mut out, '"');
                let cs = chars_of(s.as_str());
                append_chars(&mut out, &cs);
                push_char(&mut out, '"');
                out
            }
            Value::ArrayRef(a) => {
                let elems = match self.heap.array_snapshot(*a) {
                    Ok(s) => s,
                    Err(_) => {
                        return "<array>".to_owned();
                    }
                };
                let mut out = String::new();
                push_char(&mut out, '[');
                let mut i: usize = 0;
                while i < elems.len()
                    invariant
                        fuel >= 1,
                    decreases elems@.len() - i,
                {
                    if i > 0 {
                        push_char(&mut out, ',');
                        push_char(&mut out, ' ');
                    }
                    let piece = self.value_display(&elems[i], fuel - 1);
                    let cs = chars_of(piece.as_str());
                    append_chars(&mut out, &cs);
                    i = i + 1;
                }
                push_char(&mut out, ']');
                out
            }
            Value::DictRef(d) => {
                let entries = match self.heap.dict_snapshot(*d) {
                    Ok(s) => s,
                    Err(_) => {
                        return "<dictionary>".to_owned();
                    }
                };
                let mut out = String::new();
                push_char(&mut out, '{');
                let mut i: usize = 0;
                while i < entries.len()
                    invariant
                        fuel >= 1,
                    decreases entries@.len() - i,
                {
                    if i > 0 {
                        push_char(&mut out, ',');
                        push_char(&mut out, ' ');
                    }
                    let kv = entries[i].0.to_value();
                    let piece = self.value_display(&kv, fuel - 1);
                    let cs = chars_of(piece.as_str());
                    append_chars(&mut out, &cs);
                    push_char(&mut out, ':');
                    push_char(&mut out, ' ');
                    let piece2 = self.value_display(&entries[i].1, fuel - 1);
                    let cs2 = chars_of(piece2.as_str());
                    append_chars(&mut out, &cs2);
                    i = i + 1;
                }
                push_char(&mut out, '}');
                out
            }
            Value::ClassRef(c) => {
                let mut out = String::new();
                let cs = chars_of("<class ");
                append_chars(&mut out, &cs);
                if *c < self.sg.classes.len() {
                    match &self.sg.classes[*c].name {
                        Some(n) => {
                            let ns = chars_of(n.as_str());
                            append_chars(&mut out, &ns);
                        }
                        None => {
                            let ns = chars_of("<anon>");
                            append_chars(&mut out, &ns);
                        }
                    }
                } else {
                    let ns = chars_of("<anon>");
                    append_chars(&mut out, &ns);
                }
                push_char(&mut out, '>');
                out
            }
            Value::ObjectRef(o) => {
                let mut out = String::new();
                let cs = chars_of("<object ");
                append_chars(&mut out, &cs);
                match self.heap.object_class(*o) {
                    Ok(c) => {
                        if c < self.sg.classes.len() {
                            match &self.sg.classes[c].name {
                                Some(n) => {
                                    let ns = chars_of(n.as_str());
                                    append_chars(&mut out, &ns);
                                }
                                None => {
                                    let ns = chars_of("<anon>");
                                    append_chars(&mut out, &ns);
                                }
                            }
                        }
                    }
                    Err(_) => {}
                }
                push_char(&mut out, '>');
                out
            }
            Value::BoundMethod(_) => "<method>".to_owned(),
            Value::Lambda(_) => "<lambda>".to_owned(),
            Value::CallableWithBindings(_) => "<callable>".to_owned(),
            Value::EnumType(_) => "<enum>".to_owned(),
            Value::SignalStub => "<signal>".to_owned(),
        }
    }

    /// Three-way comparison: integers, strings, booleans and nulls are
    /// comparable with their own kind; everything else is an error.
    pub fn do_comparison_op(&self, a: &Value, b: &Value) -> (r: Result<Comparison, EvalError>)
        ensures
            match compare_spec(*a, *b) {
                Some(c) => r == Ok::<Comparison, EvalError>(c),
                None => r is Err,
            },
    {
        match (a, b) {
            (Value::Int(x), Value::Int(y)) => Ok(
                if x < y {
                    Comparison::Below
                } else if x == y {
                    Comparison::Same
                } else {
                    Comparison::Above
                },
            ),
            (Value::Str(x), Value::Str(y)) => {
                let xc = chars_of(x.as_str());
                let yc = chars_of(y.as_str());
                Ok(chars_cmp(&xc, &yc))
            }
            (Value::Bool(x), Value::Bool(y)) => Ok(
                if x == y {
                    Comparison::Same
                } else if *y {
                    Comparison::Below
                } else {
                    Comparison::Above
                },
            ),
            (Value::Null, Value::Null) => Ok(Comparison::Same),
            _ => Err(
                EvalError::type_error("comparable values".to_owned(), kind_name(a).to_owned()),
            ),
        }
    }

    /// Evaluates a non-short-circuiting binary operator with the exact
    /// coercion rules: integer arithmetic stays integer (division
    /// truncates), `+` on arrays concatenates, `%` on strings formats,
    /// equality is structural, the four orderings share one comparison,
    /// `is` walks the ancestor chain, and `in` uses string containment
    /// or the iteration protocol.
    pub fn eval_binary_op(&mut self, lhs: Value, op: BinaryOp, rhs: Value, fuel: u64) -> (r: Result<
        Value,
        EvalError,
    >)
        requires
            old(self).sg.wf(),
        ensures
            final(self).sg == old(self).sg,
            heap_extends(&final(self).heap, &old(self).heap),
            match (lhs, rhs) {
                (Value::Int(a), Value::Int(b)) => (op matches BinaryOp::Add || op
                    matches BinaryOp::Sub || op matches BinaryOp::Mul || op matches BinaryOp::Div
                    || op matches BinaryOp::Mod) ==> (match int_binop_spec(op, a, b) {
                    Some(v) => r == Ok::<Value, EvalError>(Value::Int(v)),
                    None => r matches Err(EvalError::DomainError(_)),
                }),
                _ => true,
            },
            // `%` with a string left operand is `%s`-formatting: one
            // non-array right operand is one argument, accepted exactly
            // when the string holds one directive, and an integer
            // argument renders as its decimal text.
            fuel >= 1 ==> (match (lhs, rhs) {
                (Value::Str(f), rr) => (op matches BinaryOp::Mod && !(rr matches Value::ArrayRef(
                    _,
                ))) ==> ({
                    &&& (r is Ok <==> count_directives(f@, 0) == 1)
                    &&& (r matches Err(e) ==> (e matches EvalError::FormatterError(
                        FormatterError::TooManyFormatArgs,
                    ) && count_directives(f@, 0) < 1) || (e matches EvalError::FormatterError(
                        FormatterError::NotEnoughFormatArgs,
                    ) && count_directives(f@, 0) > 1))
                    &&& (match rr {
                        Value::Int(n) => r matches Ok(v) ==> v matches Value::Str(out) && out@
                            == render(f@, 0, seq![dec_rep_signed(n as int)], 0),
                        _ => true,
                    })
                }),
                _ => true,
            }),
            fuel >= 1 && op == BinaryOp::Add ==> (lhs matches Value::ArrayRef(x) ==> (match rhs {
                Value::ArrayRef(y) => (x < old(self).heap.arrays@.len() && y < old(self).heap.arrays@.len()) ==> (r matches Ok(v) && v == Value::ArrayRef(
                    old(self).heap.arrays@.len() as usize,
                ) && final(self).heap.arrays@.len() == old(self).heap.arrays@.len() + 1 && final(self).heap.arrays@.last()@ == old(self).heap.arrays@[x as int]@ + old(self).heap.arrays@[y as int]@),
                _ => r is Err,
            })),
            fuel >= 1 && op == BinaryOp::Eq ==> (match value_eq_shallow_spec(
                old(self).sg.classes@,
                lhs,
                rhs,
            ) {
                Some(bv) => r == Ok::<Value, EvalError>(Value::Bool(bv)),
                None => true,
            }),
            fuel >= 1 && op == BinaryOp::Ne ==> (match value_eq_shallow_spec(
                old(self).sg.classes@,
                lhs,
                rhs,
            ) {
                Some(bv) => r == Ok::<Value, EvalError>(Value::Bool(!bv)),
                None => true,
            }),
            fuel >= 1 && (op == BinaryOp::Lt || op == BinaryOp::Le || op == BinaryOp::Gt || op
                == BinaryOp::Ge) ==> (match compare_spec(lhs, rhs) {
                Some(c) => r == Ok::<Value, EvalError>(
                    Value::Bool(
                        match op {
                            BinaryOp::Lt => c == Comparison::Below,
                            BinaryOp::Le => c != Comparison::Above,
                            BinaryOp::Gt => c == Comparison::Above,
                            _ => c != Comparison::Below,
                        },
                    ),
                ),
                None => r is Err,
            }),
            fuel >= 1 && op == BinaryOp::And ==> r == Ok::<Value, EvalError>(
                Value::Bool(lhs.spec_as_bool() && rhs.spec_as_bool()),
            ),
            fuel >= 1 && op == BinaryOp::Or ==> r == Ok::<Value, EvalError>(
                Value::Bool(lhs.spec_as_bool() || rhs.spec_as_bool()),
            ),
            fuel >= 1 && (op == BinaryOp::Is || op == BinaryOp::IsNot) ==> (match type_check_spec(
                &old(self).sg,
                &old(self).heap,
                lhs,
                rhs,
            ) {
                Some(b) => r == Ok::<Value, EvalError>(
                    Value::Bool(if op == BinaryOp::Is {
                        b
                    } else {
                        !b
                    }),
                ),
                None => r is Err,
            }),
            fuel >= 1 && (op == BinaryOp::In || op == BinaryOp::NotIn) ==> (match rhs {
                Value::Str(hay) => match lhs {
                    Value::Str(needle) => r == Ok::<Value, EvalError>(
                        Value::Bool(contains_spec(hay@, needle@) == (op == BinaryOp::In)),
                    ),
                    _ => r is Err,
                },
                _ => true,
            }),
            fuel >= 1 && (op == BinaryOp::Pow || op == BinaryOp::LShift || op == BinaryOp::RShift
                || op == BinaryOp::BitAnd || op == BinaryOp::BitOr || op == BinaryOp::BitXor) ==> r
                matches Err(EvalError::DomainError(_)),
        decreases fuel,
    {
        let arith = matches!(op, BinaryOp::Add | BinaryOp::Sub | BinaryOp::Mul | BinaryOp::Div
            | BinaryOp::Mod);
        if arith {
            if let (Value::Int(a), Value::Int(b)) = (&lhs, &rhs) {
                return self.eval_int_arith(op, *a, *b);
            }
        }
        if fuel == 0 {
            return Err(EvalError::BudgetExhausted);
        }
        match op {
            BinaryOp::Add => {
                if let Value::ArrayRef(a) = lhs {
                    let bs = match rhs {
                        Value::ArrayRef(b) => match self.heap.array_snapshot(b) {
                            Ok(s) => s,
                            Err(e) => {
                                return Err(e);
                            }
                        },
                        other => {
                            return Err(
                                EvalError::type_error(
                                    "array".to_owned(),
                                    kind_name(&other).to_owned(),
                                ),
                            );
                        }
                    };
                    let mut combined = match self.heap.array_snapshot(a) {
                        Ok(s) => s,
                        Err(e) => {
                            return Err(e);
                        }
                    };
                    let ghost left = combined@;
                    let mut i: usize = 0;
                    let ghost pre = *self;
                    while i < bs.len()
                        invariant
                            *self == pre,
                            i <= bs@.len(),
                            combined@ == left + bs@.subrange(0, i as int),
                        decreases bs@.len() - i,
                    {
                        combined.push(bs[i].dup());
                        proof {
                            assert(combined@ =~= left + bs@.subrange(0, i + 1 as int));
                        }
                        i = i + 1;
                    }
                    proof {
                        assert(left + bs@.subrange(0, bs@.len() as int) =~= left + bs@);
                    }
                    let id = self.heap.alloc_array(combined);
                    return Ok(Value::ArrayRef(id));
                }
                match (lhs, rhs) {
                    (Value::Int(a), Value::Int(b)) => Ok(Value::Int(a.wrapping_add(b))),
                    (a, b) => Err(
                        EvalError::type_error("numbers".to_owned(), kind_name(&a).to_owned()),
                    ),
                }
            }
            BinaryOp::Sub => match (lhs, rhs) {
                (Value::Int(a), Value::Int(b)) => Ok(Value::Int(a.wrapping_sub(b))),
                (a, b) => Err(
                    EvalError::type_error("numbers".to_owned(), kind_name(&a).to_owned()),
                ),
            },
            BinaryOp::Mul => match (lhs, rhs) {
                (Value::Int(a), Value::Int(b)) => Ok(Value::Int(a.wrapping_mul(b))),
                (a, b) => Err(
                    EvalError::type_error("numbers".to_owned(), kind_name(&a).to_owned()),
                ),
            },
            BinaryOp::Div => match (lhs, rhs) {
                (Value::Int(a), Value::Int(b)) => {
                    if b == 0 || (a == i64::MIN && b == -1) {
                        Err(
                            EvalError::DomainError(
                                "integer division by zero or overflow".to_owned(),
                            ),
                        )
                    } else {
                        let ua = abs_u64(a);
                        let ub = abs_u64(b);
                        let q = ua / ub;
                        let negative = (a < 0) != (b < 0);
                        let out: i64 = if negative {
                            if q == 9223372036854775808u64 {
                                i64::MIN
                            } else {
                                -(q as i64)
                            }
                        } else {
                            q as i64
                        };
                        proof {
                            assert(q == abs_spec(a as int) / abs_spec(b as int));
                            if !negative {
                                assert(abs_spec(a as int) / abs_spec(b as int) <= abs_spec(
                                    a as int,
                                )) by (nonlinear_arith)
                                    requires
                                        abs_spec(a as int) >= 0 && abs_spec(b as int) >= 1,
                                ;
                            }
                        }
                        Ok(Value::Int(out))
                    }
                }
                (a, b) => Err(
                    EvalError::type_error("numbers".to_owned(), kind_name(&a).to_owned()),
                ),
            },
            BinaryOp::Mod => match (lhs, rhs) {
                (Value::Int(a), Value::Int(b)) => {
                    if b == 0 {
                        Err(
                            EvalError::DomainError(
                                "integer division by zero or overflow".to_owned(),
                            ),
                        )
                    } else if a == i64::MIN && b == -1 {
                        Ok(Value::Int(0))
                    } else {
                        let ua = abs_u64(a);
                        let ub = abs_u64(b);
                        let m = ua % ub;
                        proof {
                            assert(m < ub);
                        }
                        let out: i64 = if a < 0 {
                            -(m as i64)
                        } else {
                            m as i64
                        };
                        Ok(Value::Int(out))
                    }
                }
                (Value::Str(f), rhs) => {
                    let args: Vec<Value> = match rhs {
                        Value::ArrayRef(arr) => match self.heap.array_snapshot(arr) {
                            Ok(s) => s,
                            Err(e) => {
                                return Err(e);
                            }
                        },
                        single => {
                            let mut v: Vec<Value> = Vec::new();
                            v.push(single);
                            v
                        }
                    };
                    let mut rendered: Vec<String> = Vec::new();
                    let mut i: usize = 0;
                    let ghost pre = *self;
                    while i < args.len()
                        invariant
                            *self == pre,
                            i <= args@.len(),
                            rendered@.len() == i,
                            forall|k: int|
                                0 <= k < i ==> (args@[k] matches Value::Int(n) ==> (
                                #[trigger] rendered@[k])@ == dec_rep_signed(n as int)),
                        decreases args@.len() - i,
                    {
                        rendered.push(self.value_display(&args[i], 32));
                        i = i + 1;
                    }
                    proof {
                        if args@.len() == 1 {
                            match args@[0] {
                                Value::Int(n) => {
                                    assert(rendered@.map_values(|a: String| a@) =~= seq![
                                        dec_rep_signed(n as int),
                                    ]);
                                }
                                _ => {}
                            }
                        }
                    }
                    match format_percent(f.as_str(), &rendered) {
                        Ok(out) => Ok(Value::Str(out)),
                        Err(e) => Err(EvalError::FormatterError(e)),
                    }
                }
                (a, b) => Err(
                    EvalError::type_error(
                        "string or number".to_owned(),
                        kind_name(&a).to_owned(),
                    ),
                ),
            },
            BinaryOp::Eq => {
                let eq = match self.value_eq(&lhs, &rhs, fuel - 1) {
                    Ok(b) => b,
                    Err(e) => {
                        return Err(e);
                    }
                };
                Ok(Value::Bool(eq))
            }
            BinaryOp::Ne => {
                let eq = match self.value_eq(&lhs, &rhs, fuel - 1) {
                    Ok(b) => b,
                    Err(e) => {
                        return Err(e);
                    }
                };
                Ok(Value::Bool(!eq))
            }
            BinaryOp::Lt => {
                let c = match self.do_comparison_op(&lhs, &rhs) {
                    Ok(c) => c,
                    Err(e) => {
                        return Err(e);
                    }
                };
                Ok(Value::Bool(matches!(c, Comparison::Below)))
            }
            BinaryOp::Le => {
                let c = match self.do_comparison_op(&lhs, &rhs) {
                    Ok(c) => c,
                    Err(e) => {
                        return Err(e);
                    }
                };
                Ok(Value::Bool(!matches!(c, Comparison::Above)))
            }
            BinaryOp::Gt => {
                let c = match self.do_comparison_op(&lhs, &rhs) {
                    Ok(c) => c,
                    Err(e) => {
                        return Err(e);
                    }
                };
                Ok(Value::Bool(matches!(c, Comparison::Above)))
            }
            BinaryOp::Ge => {
                let c = match self.do_comparison_op(&lhs, &rhs) {
                    Ok(c) => c,
                    Err(e) => {
                        return Err(e);
                    }
                };
                Ok(Value::Bool(!matches!(c, Comparison::Below)))
            }
            BinaryOp::And => Ok(Value::Bool(lhs.as_bool() && rhs.as_bool())),
            BinaryOp::Or => Ok(Value::Bool(lhs.as_bool() || rhs.as_bool())),
            BinaryOp::Is => {
                let c = match self.do_type_check(&lhs, &rhs) {
                    Ok(c) => c,
                    Err(e) => {
                        return Err(e);
                    }
                };
                Ok(Value::Bool(c))
            }
            BinaryOp::IsNot => {
                let c = match self.do_type_check(&lhs, &rhs) {
                    Ok(c) => c,
                    Err(e) => {
                        return Err(e);
                    }
                };
                Ok(Value::Bool(!c))
            }
            BinaryOp::In => {
                let c = match self.do_elem_check(&lhs, &rhs, fuel - 1) {
                    Ok(c) => c,
                    Err(e) => {
                        return Err(e);
                    }
                };
                Ok(Value::Bool(c))
            }
            BinaryOp::NotIn => {
                let c = match self.do_elem_check(&lhs, &rhs, fuel - 1) {
                    Ok(c) => c,
                    Err(e) => {
                        return Err(e);
                    }
                };
                Ok(Value::Bool(!c))
            }
            _ => Err(EvalError::DomainError("operator is not supported".to_owned())),
        }
    }

    /// Integer arithmetic with the exact wrapping and truncation rules.
    pub fn eval_int_arith(&self, op: BinaryOp, a: i64, b: i64) -> (r: Result<Value, EvalError>)
        ensures
            (op matches BinaryOp::Add || op matches BinaryOp::Sub || op matches BinaryOp::Mul || op
                matches BinaryOp::Div || op matches BinaryOp::Mod) ==> (match int_binop_spec(
                op,
                a,
                b,
            ) {
                Some(v) => r == Ok::<Value, EvalError>(Value::Int(v)),
                None => r matches Err(EvalError::DomainError(_)),
            }),
    {
        match op {
            BinaryOp::Add => Ok(Value::Int(a.wrapping_add(b))),
            BinaryOp::Sub => Ok(Value::Int(a.wrapping_sub(b))),
            BinaryOp::Mul => Ok(Value::Int(a.wrapping_mul(b))),
            BinaryOp::Div => {
                if b == 0 || (a == i64::MIN && b == -1) {
                    return Err(
                        EvalError::DomainError("integer division by zero or overflow".to_owned()),
                    );
                }
                let ua = abs_u64(a);
                let ub = abs_u64(b);
                let q = ua / ub;
                let negative = (a < 0) != (b < 0);
                proof {
                    assert(abs_spec(a as int) / abs_spec(b as int) <= abs_spec(a as int))
                        by (nonlinear_arith)
                        requires
                            abs_spec(a as int) >= 0 && abs_spec(b as int) >= 1,
                    ;
                    if !negative && a == i64::MIN {
                        assert(abs_spec(b as int) >= 2);
                        assert(abs_spec(a as int) / abs_spec(b as int)
                            <= abs_spec(a as int) / 2) by (nonlinear_arith)
                            requires
                                abs_spec(a as int) >= 0 && abs_spec(b as int) >= 2,
                        ;
                    }
                }
                let out: i64 = if negative {
                    if q == 9223372036854775808u64 {
                        i64::MIN
                    } else {
                        -(q as i64)
                    }
                } else {
                    q as i64
                };
                Ok(Value::Int(out))
            }
            BinaryOp::Mod => {
                if b == 0 {
                    return Err(
                        EvalError::DomainError("integer division by zero or overflow".to_owned()),
                    );
                }
                if a == i64::MIN && b == -1 {
                    return Ok(Value::Int(0));
                }
                let ua = abs_u64(a);
                let ub = abs_u64(b);
                let m = ua % ub;
                let out: i64 = if a < 0 {
                    -(m as i64)
                } else {
                    m as i64
                };
                Ok(Value::Int(out))
            }
            _ => Err(EvalError::DomainError("operator is not supported".to_owned())),
        }
    }

    /// Decides `lhs is rhs`: the right operand must be a class, and the
    /// left operand's class chain is walked for it.
    pub fn do_type_check(&self, lhs: &Value, rhs: &Value) -> (r: Result<bool, EvalError>)
        requires
            self.sg.wf(),
        ensures
            match type_check_spec(&self.sg, &self.heap, *lhs, *rhs) {
                Some(b) => r == Ok::<bool, EvalError>(b),
                None => r is Err,
            },
    {
        let target = match rhs {
            Value::ClassRef(c) => *c,
            other => {
                return Err(EvalError::type_error("class".to_owned(), kind_name(other).to_owned()));
            }
        };
        match self.get_class(lhs) {
            Some(c) => {
                if c < self.sg.classes.len() {
                    Ok(is_ancestor_exec(&self.sg.classes, c, target))
                } else {
                    Ok(false)
                }
            }
            None => Ok(false),
        }
    }

    /// Decides `lhs in rhs`: substring containment for strings, the
    /// iteration protocol for containers.
    pub fn do_elem_check(&self, lhs: &Value, rhs: &Value, fuel: u64) -> (r: Result<
        bool,
        EvalError,
    >)
        ensures
            match *rhs {
                Value::Str(hay) => match *lhs {
                    Value::Str(needle) => r == Ok::<bool, EvalError>(contains_spec(hay@, needle@)),
                    _ => r is Err,
                },
                _ => true,
            },
        decreases fuel,
    {
        if let Value::Str(hay) = rhs {
            let needle = match lhs {
                Value::Str(n) => n,
                other => {
                    return Err(
                        EvalError::type_error("string".to_owned(), kind_name(other).to_owned()),
                    );
                }
            };
            let hc = chars_of(hay.as_str());
            let nc = chars_of(needle.as_str());
            return Ok(chars_contain(&hc, &nc));
        }
        if fuel == 0 {
            return Err(EvalError::BudgetExhausted);
        }
        let elems = match self.try_iter(rhs) {
            Ok(s) => s,
            Err(e) => {
                return Err(e);
            }
        };
        let mut i: usize = 0;
        while i < elems.len()
            invariant
                fuel >= 1,
                !(*rhs matches Value::Str(_)),
            decreases elems@.len() - i,
        {
            match self.value_eq(&elems[i], lhs, fuel - 1) {
                Ok(true) => {
                    return Ok(true);
                }
                Ok(false) => {}
                Err(e) => {
                    return Err(e);
                }
            }
            i = i + 1;
        }
        Ok(false)
    }
}

} // verus!
