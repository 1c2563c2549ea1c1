//! The class model: an immutable chain of class records, looked up by
//! walking the parent chain, plus lazily-memoized class constants and
//! proxy fields.

use vstd::prelude::*;
use std::rc::Rc;
use crate::ast::Expr;
use crate::ident::Identifier;
use crate::value::SimpleValue;
use crate::method::Method;
use crate::value::Value;

verus! {

/// One instance-variable initializer of a class.
#[derive(Debug)]
pub struct InstanceVar {
    pub name: Identifier,
    pub initial_value: Rc<Expr>,
}

/// A class constant: an unevaluated initializer, a memoized value, or a
/// permanent failure. Once poisoned, every future read fails the same
/// way.
#[derive(Debug)]
pub enum LazyConst {
    Unevaluated(Rc<Expr>),
    Resolved(SimpleValue),
    Poisoned,
}

/// How a proxy field adjusts the value written through it.
#[derive(Debug, Clone, Copy, PartialEq, Eq, Structural)]
pub enum Adjustment {
    Identity,
    Clamped(i64, i64),
    ClampedBelow(i64),
    ClampedAbove(i64),
}

/// A computed property intercepting attribute get and set with
/// host-defined logic. Reads pass through to a raw field; writes run an
/// adjustment first. The fort-defense shapes keep the defense stat
/// clamped against its own stored maximum.
#[derive(Debug)]
pub enum ProxyVar {
    Backed { backing_field: String, adjustment: Adjustment },
    FortDefense { curr_field: String, max_field: String },
    MaxFortDefense { curr_proxy: String, max_field: String },
}

impl ProxyVar {
    /// The raw field a read through this proxy passes to.
    pub open spec fn spec_read_field(&self) -> Seq<char> {
        match self {
            ProxyVar::Backed { backing_field, .. } => backing_field@,
            ProxyVar::FortDefense { curr_field, .. } => curr_field@,
            ProxyVar::MaxFortDefense { max_field, .. } => max_field@,
        }
    }

    /// Hands out the raw field a read through this proxy passes to.
    pub fn read_field(&self) -> (r: String)
        ensures
            r@ == self.spec_read_field(),
    {
        match self {
            ProxyVar::Backed { backing_field, .. } => backing_field.clone(),
            ProxyVar::FortDefense { curr_field, .. } => curr_field.clone(),
            ProxyVar::MaxFortDefense { max_field, .. } => max_field.clone(),
        }
    }
}

/// A class record. Classes form a chain through `parent` and are never
/// mutated after construction, except for constant memoization.
#[derive(Debug)]
pub struct Class {
    pub name: Option<String>,
    pub parent: Option<usize>,
    pub constants: Vec<(String, LazyConst)>,
    pub instance_vars: Rc<Vec<InstanceVar>>,
    pub proxy_vars: Rc<Vec<(String, ProxyVar)>>,
    pub methods: Rc<Vec<(String, Method)>>,
}

/// Every parent index points strictly backwards, so the parent chain is
/// finite and method dispatch always terminates.
pub open spec fn classes_wf(classes: Seq<Class>) -> bool {
    forall|i: int|
        0 <= i < classes.len() ==> match (#[trigger] classes[i]).parent {
            Some(p) => p < i,
            None => true,
        }
}

/// The first position of `name` in a name-keyed table.
pub open spec fn table_index_of<T>(entries: Seq<(String, T)>, name: Seq<char>) -> Option<int>
    decreases entries.len(),
{
    if entries.len() == 0 {
        None
    } else if entries[0].0@ == name {
        Some(0)
    } else {
        match table_index_of(entries.drop_first(), name) {
            Some(i) => Some(i + 1),
            None => None,
        }
    }
}

/// The method called `name` on the class `cid` or the nearest ancestor
/// that has one, together with the class that owns it.
pub open spec fn lookup_method_spec(classes: Seq<Class>, cid: int, name: Seq<char>) -> Option<
    (Method, int),
>
    decreases cid + 1,
{
    if cid < 0 || cid >= classes.len() {
        None
    } else {
        match table_index_of(classes[cid].methods@, name) {
            Some(i) => Some((classes[cid].methods@[i].1, cid)),
            None => match classes[cid].parent {
                Some(p) => if p < cid {
                    lookup_method_spec(classes, p as int, name)
                } else {
                    None
                },
                None => None,
            },
        }
    }
}

/// The position `(class, slot)` of the constant `name` on the class
/// `cid` or the nearest ancestor that declares it.
pub open spec fn lookup_constant_spec(classes: Seq<Class>, cid: int, name: Seq<char>) -> Option<
    (int, int),
>
    decreases cid + 1,
{
    if cid < 0 || cid >= classes.len() {
        None
    } else {
        match table_index_of(classes[cid].constants@, name) {
            Some(i) => Some((cid, i)),
            None => match classes[cid].parent {
                Some(p) => if p < cid {
                    lookup_constant_spec(classes, p as int, name)
                } else {
                    None
                },
                None => None,
            },
        }
    }
}

/// The proxy variable called `name` on the class `cid` or the nearest
/// ancestor that declares it.
pub open spec fn lookup_proxy_spec(classes: Seq<Class>, cid: int, name: Seq<char>) -> Option<
    (int, int),
>
    decreases cid + 1,
{
    if cid < 0 || cid >= classes.len() {
        None
    } else {
        match table_index_of(classes[cid].proxy_vars@, name) {
            Some(i) => Some((cid, i)),
            None => match classes[cid].parent {
                Some(p) => if p < cid {
                    lookup_proxy_spec(classes, p as int, name)
                } else {
                    None
                },
                None => None,
            },
        }
    }
}

/// Whether `anc` is `cid` itself or one of its ancestors.
pub open spec fn is_ancestor_spec(classes: Seq<Class>, cid: int, anc: int) -> bool
    decreases cid + 1,
{
    if cid < 0 || cid >= classes.len() {
        false
    } else if cid == anc {
        true
    } else {
        match classes[cid].parent {
            Some(p) => if p < cid {
                is_ancestor_spec(classes, p as int, anc)
            } else {
                false
            },
            None => false,
        }
    }
}

/// Finds the first entry named `name` in a name-keyed table.
/// An entry anywhere in a table makes its name indexed.
pub proof fn lemma_table_present_index<T>(entries: Seq<(String, T)>, nm: Seq<char>, j: int)
    requires
        0 <= j < entries.len(),
        entries[j].0@ == nm,
    ensures
        table_index_of(entries, nm) is Some,
    decreases entries.len(),
{
    if entries[0].0@ != nm {
        lemma_table_present_index(entries.drop_first(), nm, j - 1);
    }
}

pub fn table_find<T>(entries: &Vec<(String, T)>, name: &str) -> (r: Option<usize>)
    ensures
        match r {
            Some(i) => i < entries@.len() && table_index_of(entries@, name@) == Some(i as int)
                && entries@[i as int].0@ == name@,
            None => table_index_of(entries@, name@) is None,
        },
{
    proof {
        assert(entries@.skip(0) =~= entries@);
    }
    let mut i: usize = 0;
    while i < entries.len()
        invariant
            i <= entries@.len(),
            table_index_of(entries@, name@) == match table_index_of(
                entries@.skip(i as int),
                name@,
            ) {
                Some(j) => Some(j + i),
                None => None::<int>,
            },
        decreases entries@.len() - i,
    {
        proof {
            assert(entries@.skip(i as int).drop_first() =~= entries@.skip(i + 1));
            assert(entries@.skip(i as int)[0] == entries@[i as int]);
        }
        if crate::text::str_eq(entries[i].0.as_str(), name) {
            proof {
                assert(table_index_of(entries@.skip(i as int), name@) == Some(0int));
            }
            return Some(i);
        }
        i = i + 1;
    }
    proof {
        assert(entries@.skip(entries@.len() as int) =~= Seq::<(String, T)>::empty());
    }
    None
}

/// Walks the parent chain from `cid` looking for the method `name`,
/// returning it with the class that owns it.
pub fn find_method(classes: &Vec<Class>, cid: usize, name: &str) -> (r: Option<(Method, usize)>)
    requires
        classes_wf(classes@),
        cid < classes@.len(),
    ensures
        match r {
            Some(p) => lookup_method_spec(classes@, cid as int, name@) == Some(
                (p.0, p.1 as int),
            ) && p.1 < classes@.len(),
            None => lookup_method_spec(classes@, cid as int, name@) is None,
        },
{
    let mut cur = cid;
    loop
        invariant
            cur < classes@.len(),
            classes_wf(classes@),
            lookup_method_spec(classes@, cid as int, name@) == lookup_method_spec(
                classes@,
                cur as int,
                name@,
            ),
        decreases cur,
    {
        match table_find(&classes[cur].methods, name) {
            Some(i) => {
                let m = classes[cur].methods[i].1.dup();
                return Some((m, cur));
            }
            None => {
                match classes[cur].parent {
                    Some(p) => {
                        cur = p;
                    }
                    None => {
                        return None;
                    }
                }
            }
        }
    }
}

/// Walks the parent chain from `cid` looking for the constant `name`,
/// returning the class and slot that declare it.
pub fn find_constant_pos(classes: &Vec<Class>, cid: usize, name: &str) -> (r: Option<
    (usize, usize),
>)
    requires
        classes_wf(classes@),
        cid < classes@.len(),
    ensures
        match r {
            Some(p) => lookup_constant_spec(classes@, cid as int, name@) == Some(
                (p.0 as int, p.1 as int),
            ) && p.0 < classes@.len() && p.1 < classes@[p.0 as int].constants@.len(),
            None => lookup_constant_spec(classes@, cid as int, name@) is None,
        },
{
    let mut cur = cid;
    loop
        invariant
            cur < classes@.len(),
            classes_wf(classes@),
            lookup_constant_spec(classes@, cid as int, name@) == lookup_constant_spec(
                classes@,
                cur as int,
                name@,
            ),
        decreases cur,
    {
        match table_find(&classes[cur].constants, name) {
            Some(i) => {
                return Some((cur, i));
            }
            None => {
                match classes[cur].parent {
                    Some(p) => {
                        cur = p;
                    }
                    None => {
                        return None;
                    }
                }
            }
        }
    }
}

/// Walks the parent chain from `cid` looking for the proxy variable
/// `name`, returning the class and slot that declare it.
pub fn find_proxy_pos(classes: &Vec<Class>, cid: usize, name: &str) -> (r: Option<(usize, usize)>)
    requires
        classes_wf(classes@),
        cid < classes@.len(),
    ensures
        match r {
            Some(p) => lookup_proxy_spec(classes@, cid as int, name@) == Some(
                (p.0 as int, p.1 as int),
            ) && p.0 < classes@.len() && p.1 < classes@[p.0 as int].proxy_vars@.len(),
            None => lookup_proxy_spec(classes@, cid as int, name@) is None,
        },
{
    let mut cur = cid;
    loop
        invariant
            cur < classes@.len(),
            classes_wf(classes@),
            lookup_proxy_spec(classes@, cid as int, name@) == lookup_proxy_spec(
                classes@,
                cur as int,
                name@,
            ),
        decreases cur,
    {
        match table_find(&classes[cur].proxy_vars, name) {
            Some(i) => {
                return Some((cur, i));
            }
            None => {
                match classes[cur].parent {
                    Some(p) => {
                        cur = p;
                    }
                    None => {
                        return None;
                    }
                }
            }
        }
    }
}

/// Decides whether `anc` is `cid` itself or one of its ancestors.
pub fn is_ancestor(classes: &Vec<Class>, cid: usize, anc: usize) -> (r: bool)
    requires
        classes_wf(classes@),
        cid < classes@.len(),
    ensures
        r == is_ancestor_spec(classes@, cid as int, anc as int),
{
    let mut cur = cid;
    loop
        invariant
            cur < classes@.len(),
            classes_wf(classes@),
            is_ancestor_spec(classes@, cid as int, anc as int) == is_ancestor_spec(
                classes@,
                cur as int,
                anc as int,
            ),
        decreases cur,
    {
        if cur == anc {
            return true;
        }
        match classes[cur].parent {
            Some(p) => {
                cur = p;
            }
            None => {
                return false;
            }
        }
    }
}

/// The integer an adjustment turns a written integer into.
pub open spec fn adjust_int_spec(adj: Adjustment, value: i64) -> i64 {
    match adj {
        Adjustment::Identity => value,
        Adjustment::Clamped(lo, hi) => if value < lo {
            lo
        } else if value > hi {
            hi
        } else {
            value
        },
        Adjustment::ClampedBelow(hi) => if value > hi {
            hi
        } else {
            value
        },
        Adjustment::ClampedAbove(lo) => if value < lo {
            lo
        } else {
            value
        },
    }
}

/// What a proxy write stores in the backing field: the value itself for
/// the identity adjustment, the clamped integer for the clamping ones,
/// and nothing (an error) for a non-integer under a clamp.
pub open spec fn adjust_value_spec(adj: Adjustment, v: Value) -> Option<Value> {
    match adj {
        Adjustment::Identity => Some(v),
        _ => match v {
            Value::Int(n) => Some(Value::Int(adjust_int_spec(adj, n))),
            _ => None,
        },
    }
}

impl Adjustment {
    /// Applies this adjustment to an integer being written through a
    /// proxy field.
    pub fn apply(&self, value: i64) -> (r: i64)
        ensures
            r == adjust_int_spec(*self, value),
    {
        match self {
            Adjustment::Identity => value,
            Adjustment::Clamped(lo, hi) => crate::util::clamp(value, *lo, *hi),
            Adjustment::ClampedBelow(hi) => if value > *hi {
                *hi
            } else {
                value
            },
            Adjustment::ClampedAbove(lo) => if value < *lo {
                *lo
            } else {
                value
            },
        }
    }
}

} // verus!
