//! The runtime value model: a closed tagged union. Arrays, dictionaries,
//! objects and callables are reference values — a `Value` holds only an
//! index into the evaluator's heap, so assignment aliases instead of
//! copying.

use vstd::prelude::*;
use std::rc::Rc;
use crate::ast::rc_clone;

verus! {

/// A runtime datum. Reference variants hold heap indices; two reference
/// values alias exactly when they hold the same index.
#[derive(Debug)]
#[verifier::ext_equal]
pub enum Value {
    Null,
    Bool(bool),
    Int(i64),
    Str(String),
    ArrayRef(usize),
    DictRef(usize),
    ClassRef(usize),
    ObjectRef(usize),
    BoundMethod(usize),
    Lambda(usize),
    CallableWithBindings(usize),
    EnumType(Rc<Vec<(String, i64)>>),
    /// Stub for signal values: the minimum needed for signals to exist.
    SignalStub,
}

/// The restricted subset of values that can key a dictionary.
#[derive(Debug, Eq, Hash)]
pub enum HashKey {
    Null,
    Bool(bool),
    Int(i64),
    Str(String),
}

/// A value with no reference to the heap, safe to share across matches.
#[derive(Debug)]
pub enum SimpleValue {
    Null,
    Bool(bool),
    Int(i64),
    Str(String),
    ClassRef(usize),
    EnumType(Rc<Vec<(String, i64)>>),
    /// Constant arrays behave copy-on-write: each access materialises a
    /// distinct heap array.
    SimpleArray(Rc<Vec<SimpleValue>>),
    /// Constant dictionaries behave copy-on-write as well.
    SimpleDict(Rc<Vec<(HashKey, SimpleValue)>>),
}

/// The error on using a non-key value as a dictionary key.
#[derive(Debug, Clone)]
pub struct InvalidHashKey(pub String);

/// The error on converting a reference value into a simple value.
#[derive(Debug, Clone)]
pub struct InvalidSimpleValue(pub String);

/// The error on a variable lookup that found nothing.
#[derive(Debug, Clone)]
pub struct NoSuchVar(pub String);

/// The error on a function lookup that found nothing.
#[derive(Debug, Clone)]
pub struct NoSuchFunc(pub String);

impl Value {
    /// An exact copy of this value. Copying a reference value copies the
    /// reference, not the referent: the copy aliases the original.
    pub fn dup(&self) -> (r: Value)
        ensures
            r == *self,
    {
        match self {
            Value::Null => Value::Null,
            Value::Bool(b) => Value::Bool(*b),
            Value::Int(i) => Value::Int(*i),
            Value::Str(s) => Value::Str(s.clone()),
            Value::ArrayRef(a) => Value::ArrayRef(*a),
            Value::DictRef(d) => Value::DictRef(*d),
            Value::ClassRef(c) => Value::ClassRef(*c),
            Value::ObjectRef(o) => Value::ObjectRef(*o),
            Value::BoundMethod(m) => Value::BoundMethod(*m),
            Value::Lambda(l) => Value::Lambda(*l),
            Value::CallableWithBindings(c) => Value::CallableWithBindings(*c),
            Value::EnumType(t) => Value::EnumType(rc_clone(t)),
            Value::SignalStub => Value::SignalStub,
        }
    }

    /// Whether this value is null.
    pub fn is_null(&self) -> (r: bool)
        ensures
            r == (*self matches Value::Null),
    {
        matches!(self, Value::Null)
    }

    /// The truthiness used by conditions: `false`, zero and null are
    /// false; every other value is true.
    pub open spec fn spec_as_bool(&self) -> bool {
        match self {
            Value::Bool(b) => *b,
            Value::Int(i) => *i != 0,
            Value::Null => false,
            _ => true,
        }
    }

    /// Decides the truthiness of this value.
    pub fn as_bool(&self) -> (r: bool)
        ensures
            r == self.spec_as_bool(),
    {
        match self {
            Value::Bool(b) => *b,
            Value::Int(i) => *i != 0,
            Value::Null => false,
            _ => true,
        }
    }

    /// The dictionary key this value stands for, if it is hashable.
    pub open spec fn spec_as_key(&self) -> Option<HashKey> {
        match self {
            Value::Null => Some(HashKey::Null),
            Value::Bool(b) => Some(HashKey::Bool(*b)),
            Value::Int(i) => Some(HashKey::Int(*i)),
            Value::Str(s) => Some(HashKey::Str(*s)),
            _ => None,
        }
    }

    /// Converts this value into a dictionary key; only null, booleans,
    /// integers and strings are hashable.
    pub fn as_key(&self) -> (r: Result<HashKey, InvalidHashKey>)
        ensures
            match r {
                Ok(k) => self.spec_as_key() == Some(k),
                Err(_) => self.spec_as_key() is None,
            },
    {
        match self {
            Value::Null => Ok(HashKey::Null),
            Value::Bool(b) => Ok(HashKey::Bool(*b)),
            Value::Int(i) => Ok(HashKey::Int(*i)),
            Value::Str(s) => Ok(HashKey::Str(s.clone())),
            _ => Err(InvalidHashKey(String::new())),
        }
    }
}

impl SimpleValue {
    /// An exact copy of this simple value (nested structure is shared).
    pub fn dup(&self) -> (r: SimpleValue)
        ensures
            r == *self,
    {
        match self {
            SimpleValue::Null => SimpleValue::Null,
            SimpleValue::Bool(b) => SimpleValue::Bool(*b),
            SimpleValue::Int(i) => SimpleValue::Int(*i),
            SimpleValue::Str(s) => SimpleValue::Str(s.clone()),
            SimpleValue::ClassRef(c) => SimpleValue::ClassRef(*c),
            SimpleValue::EnumType(t) => SimpleValue::EnumType(rc_clone(t)),
            SimpleValue::SimpleArray(a) => SimpleValue::SimpleArray(rc_clone(a)),
            SimpleValue::SimpleDict(d) => SimpleValue::SimpleDict(rc_clone(d)),
        }
    }
}

impl HashKey {
    /// An exact copy of this key.
    pub fn dup(&self) -> (r: HashKey)
        ensures
            r == *self,
    {
        match self {
            HashKey::Null => HashKey::Null,
            HashKey::Bool(b) => HashKey::Bool(*b),
            HashKey::Int(i) => HashKey::Int(*i),
            HashKey::Str(s) => HashKey::Str(s.clone()),
        }
    }

    /// The value this key stands for.
    pub fn to_value(&self) -> (r: Value)
        ensures
            r == match self {
                HashKey::Null => Value::Null,
                HashKey::Bool(b) => Value::Bool(*b),
                HashKey::Int(i) => Value::Int(*i),
                HashKey::Str(s) => Value::Str(*s),
            },
    {
        match self {
            HashKey::Null => Value::Null,
            HashKey::Bool(b) => Value::Bool(*b),
            HashKey::Int(i) => Value::Int(*i),
            HashKey::Str(s) => Value::Str(s.clone()),
        }
    }
}

impl PartialEq for HashKey {
    fn eq(&self, other: &HashKey) -> (r: bool) {
        match (self, other) {
            (HashKey::Null, HashKey::Null) => true,
            (HashKey::Bool(a), HashKey::Bool(b)) => a == b,
            (HashKey::Int(a), HashKey::Int(b)) => a == b,
            (HashKey::Str(a), HashKey::Str(b)) => *a == *b,
            _ => false,
        }
    }
}

impl vstd::std_specs::cmp::PartialEqSpecImpl for HashKey {
    open spec fn obeys_eq_spec() -> bool {
        true
    }

    open spec fn eq_spec(&self, other: &HashKey) -> bool {
        match (self, other) {
            (HashKey::Null, HashKey::Null) => true,
            (HashKey::Bool(a), HashKey::Bool(b)) => a == b,
            (HashKey::Int(a), HashKey::Int(b)) => a == b,
            (HashKey::Str(a), HashKey::Str(b)) => a@ == b@,
            _ => false,
        }
    }
}

} // verus!
