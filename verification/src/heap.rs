//! The evaluator's heap: the arenas behind every reference value.
//! A reference value holds an index into one of these arenas, so two
//! values alias exactly when they hold the same index, and a write
//! through one alias is seen through every other.

use vstd::prelude::*;
use std::rc::Rc;
use crate::ast::Lambda;
use crate::value::{Value, HashKey};
use crate::method::Method;
use crate::errors::EvalError;

verus! {

/// A live object: its class and its dynamically-growable field map.
#[derive(Debug)]
pub struct ObjectInst {
    pub class: usize,
    pub fields: Vec<(String, Value)>,
}

/// A lambda value: the code together with the captured defining scope.
#[derive(Debug)]
pub struct LambdaClosure {
    pub lambda: Rc<Lambda>,
    pub captured_self: Box<Value>,
    pub captured_locals: Vec<(String, Value)>,
    pub enclosing_class: Option<usize>,
}

/// A method bound to its receiver.
#[derive(Debug)]
pub struct BoundMethodVal {
    pub receiver: Value,
    pub method: Method,
    pub owning_class: Option<usize>,
}

/// A callable with some arguments already bound.
#[derive(Debug)]
pub struct CallableBindings {
    pub inner: Value,
    pub bound: Vec<Value>,
}

/// The arenas behind reference values.
#[derive(Debug)]
pub struct Heap {
    pub arrays: Vec<Vec<Value>>,
    pub dicts: Vec<Vec<(HashKey, Value)>>,
    pub objects: Vec<ObjectInst>,
    pub lambdas: Vec<LambdaClosure>,
    pub bound_methods: Vec<BoundMethodVal>,
    pub callables: Vec<CallableBindings>,
}

/// Spec-level key equality: what the executable key comparison decides.
pub open spec fn key_eq_spec(a: HashKey, b: HashKey) -> bool {
    match (a, b) {
        (HashKey::Null, HashKey::Null) => true,
        (HashKey::Bool(x), HashKey::Bool(y)) => x == y,
        (HashKey::Int(x), HashKey::Int(y)) => x == y,
        (HashKey::Str(x), HashKey::Str(y)) => x@ == y@,
        _ => false,
    }
}

/// The first position of `k` among the entries, if any.
pub open spec fn dict_index_of(entries: Seq<(HashKey, Value)>, k: HashKey) -> Option<int>
    decreases entries.len(),
{
    if entries.len() == 0 {
        None
    } else if key_eq_spec(entries[0].0, k) {
        Some(0)
    } else {
        match dict_index_of(entries.drop_first(), k) {
            Some(i) => Some(i + 1),
            None => None,
        }
    }
}

/// The first position of the field `name` among the fields, if any.
pub open spec fn field_index_of(fields: Seq<(String, Value)>, name: Seq<char>) -> Option<int>
    decreases fields.len(),
{
    if fields.len() == 0 {
        None
    } else if fields[0].0@ == name {
        Some(0)
    } else {
        match field_index_of(fields.drop_first(), name) {
            Some(i) => Some(i + 1),
            None => None,
        }
    }
}

/// Every arena of `b` extends the matching arena of `a`: nothing is ever
/// freed, so references only stay valid.
pub open spec fn heap_extends(b: &Heap, a: &Heap) -> bool {
    &&& b.arrays@.len() >= a.arrays@.len()
    &&& b.dicts@.len() >= a.dicts@.len()
    &&& b.objects@.len() >= a.objects@.len()
    &&& b.lambdas@.len() >= a.lambdas@.len()
    &&& b.bound_methods@.len() >= a.bound_methods@.len()
    &&& b.callables@.len() >= a.callables@.len()
}

/// `b` extends `a` and keeps every array and dictionary that `a` already
/// held unchanged: `b` arose from `a` by allocation alone.
pub open spec fn heap_preserves(b: &Heap, a: &Heap) -> bool {
    &&& heap_extends(b, a)
    &&& forall|j: int| 0 <= j < a.arrays@.len() ==> b.arrays@[j] == a.arrays@[j]
    &&& forall|j: int| 0 <= j < a.dicts@.len() ==> b.dicts@[j] == a.dicts@[j]
}

/// `b`, read in the heap `dst`, is a structural copy of `a`, read in the
/// heap `src`, down to `depth` container levels: array lengths and
/// elements agree position by position, dictionaries agree entry by
/// entry with equal keys, and everything that is not an array or a
/// dictionary (including object references, which copies share) is
/// equal outright.
pub open spec fn deep_congruent(src: &Heap, a: Value, dst: &Heap, b: Value, depth: nat) -> bool
    decreases depth,
{
    match a {
        Value::ArrayRef(i) => match b {
            Value::ArrayRef(j) => i < src.arrays@.len() ==> ({
                &&& j < dst.arrays@.len()
                &&& dst.arrays@[j as int]@.len() == src.arrays@[i as int]@.len()
                &&& depth > 0 ==> forall|k: int|
                    0 <= k < src.arrays@[i as int]@.len() ==> deep_congruent(
                        src,
                        #[trigger] src.arrays@[i as int]@[k],
                        dst,
                        dst.arrays@[j as int]@[k],
                        (depth - 1) as nat,
                    )
            }),
            _ => false,
        },
        Value::DictRef(i) => match b {
            Value::DictRef(j) => i < src.dicts@.len() ==> ({
                &&& j < dst.dicts@.len()
                &&& dst.dicts@[j as int]@.len() == src.dicts@[i as int]@.len()
                &&& depth > 0 ==> forall|k: int|
                    0 <= k < src.dicts@[i as int]@.len() ==> (#[trigger] dst.dicts@[
                        j as int
                    ]@[k]).0 == src.dicts@[i as int]@[k].0 && deep_congruent(
                        src,
                        src.dicts@[i as int]@[k].1,
                        dst,
                        dst.dicts@[j as int]@[k].1,
                        (depth - 1) as nat,
                    )
            }),
            _ => false,
        },
        _ => b == a,
    }
}

/// `v`, read in `h`, shares nothing with the heap prefix of `arrays0`
/// arrays and `dicts0` dictionaries, down to `depth` container levels:
/// every array or dictionary reference in it, at any depth, is a live
/// later allocation.
pub open spec fn deep_fresh(h: &Heap, v: Value, arrays0: int, dicts0: int, depth: nat) -> bool
    decreases depth,
{
    match v {
        Value::ArrayRef(i) => {
            &&& arrays0 <= i < h.arrays@.len()
            &&& depth > 0 ==> forall|k: int|
                0 <= k < h.arrays@[i as int]@.len() ==> deep_fresh(
                    h,
                    #[trigger] h.arrays@[i as int]@[k],
                    arrays0,
                    dicts0,
                    (depth - 1) as nat,
                )
        },
        Value::DictRef(i) => {
            &&& dicts0 <= i < h.dicts@.len()
            &&& depth > 0 ==> forall|k: int|
                0 <= k < h.dicts@[i as int]@.len() ==> deep_fresh(
                    h,
                    (#[trigger] h.dicts@[i as int]@[k]).1,
                    arrays0,
                    dicts0,
                    (depth - 1) as nat,
                )
        },
        _ => true,
    }
}

/// Deep freshness survives allocation: a heap that only grew still
/// holds every reference of a fresh value unchanged.
pub proof fn lemma_deep_fresh_frame(
    h: &Heap,
    h_big: &Heap,
    v: Value,
    arrays0: int,
    dicts0: int,
    depth: nat,
)
    requires
        heap_preserves(h_big, h),
        deep_fresh(h, v, arrays0, dicts0, depth),
    ensures
        deep_fresh(h_big, v, arrays0, dicts0, depth),
    decreases depth,
{
    match v {
        Value::ArrayRef(i) => {
            if depth > 0 {
                assert forall|k: int|
                    0 <= k < h_big.arrays@[i as int]@.len() implies deep_fresh(
                    h_big,
                    #[trigger] h_big.arrays@[i as int]@[k],
                    arrays0,
                    dicts0,
                    (depth - 1) as nat,
                ) by {
                    lemma_deep_fresh_frame(
                        h,
                        h_big,
                        h.arrays@[i as int]@[k],
                        arrays0,
                        dicts0,
                        (depth - 1) as nat,
                    );
                }
            }
        }
        Value::DictRef(i) => {
            if depth > 0 {
                assert forall|k: int|
                    0 <= k < h_big.dicts@[i as int]@.len() implies deep_fresh(
                    h_big,
                    (#[trigger] h_big.dicts@[i as int]@[k]).1,
                    arrays0,
                    dicts0,
                    (depth - 1) as nat,
                ) by {
                    lemma_deep_fresh_frame(
                        h,
                        h_big,
                        h.dicts@[i as int]@[k].1,
                        arrays0,
                        dicts0,
                        (depth - 1) as nat,
                    );
                }
            }
        }
        _ => {}
    }
}

/// Deep freshness against a later prefix implies it against any earlier
/// one.
pub proof fn lemma_deep_fresh_weaken(
    h: &Heap,
    v: Value,
    arrays0: int,
    dicts0: int,
    arrays1: int,
    dicts1: int,
    depth: nat,
)
    requires
        arrays0 <= arrays1,
        dicts0 <= dicts1,
        deep_fresh(h, v, arrays1, dicts1, depth),
    ensures
        deep_fresh(h, v, arrays0, dicts0, depth),
    decreases depth,
{
    match v {
        Value::ArrayRef(i) => {
            if depth > 0 {
                assert forall|k: int|
                    0 <= k < h.arrays@[i as int]@.len() implies deep_fresh(
                    h,
                    #[trigger] h.arrays@[i as int]@[k],
                    arrays0,
                    dicts0,
                    (depth - 1) as nat,
                ) by {
                    lemma_deep_fresh_weaken(
                        h,
                        h.arrays@[i as int]@[k],
                        arrays0,
                        dicts0,
                        arrays1,
                        dicts1,
                        (depth - 1) as nat,
                    );
                }
            }
        }
        Value::DictRef(i) => {
            if depth > 0 {
                assert forall|k: int|
                    0 <= k < h.dicts@[i as int]@.len() implies deep_fresh(
                    h,
                    (#[trigger] h.dicts@[i as int]@[k]).1,
                    arrays0,
                    dicts0,
                    (depth - 1) as nat,
                ) by {
                    lemma_deep_fresh_weaken(
                        h,
                        h.dicts@[i as int]@[k].1,
                        arrays0,
                        dicts0,
                        arrays1,
                        dicts1,
                        (depth - 1) as nat,
                    );
                }
            }
        }
        _ => {}
    }
}

/// Congruence survives framing: shrinking the source heap back to a
/// preserved prefix and growing the destination heap by allocation both
/// leave a congruent pair congruent.
pub proof fn lemma_deep_congruent_frame(
    src_big: &Heap,
    src: &Heap,
    dst: &Heap,
    dst_big: &Heap,
    a: Value,
    b: Value,
    depth: nat,
)
    requires
        heap_preserves(src_big, src),
        heap_preserves(dst_big, dst),
        deep_congruent(src_big, a, dst, b, depth),
    ensures
        deep_congruent(src, a, dst_big, b, depth),
    decreases depth,
{
    match a {
        Value::ArrayRef(i) => {
            if let Value::ArrayRef(j) = b {
                if i < src.arrays@.len() && depth > 0 {
                    assert forall|k: int|
                        0 <= k < src.arrays@[i as int]@.len() implies deep_congruent(
                        src,
                        #[trigger] src.arrays@[i as int]@[k],
                        dst_big,
                        dst_big.arrays@[j as int]@[k],
                        (depth - 1) as nat,
                    ) by {
                        lemma_deep_congruent_frame(
                            src_big,
                            src,
                            dst,
                            dst_big,
                            src_big.arrays@[i as int]@[k],
                            dst.arrays@[j as int]@[k],
                            (depth - 1) as nat,
                        );
                    }
                }
            }
        }
        Value::DictRef(i) => {
            if let Value::DictRef(j) = b {
                if i < src.dicts@.len() && depth > 0 {
                    assert forall|k: int|
                        0 <= k < src.dicts@[i as int]@.len() implies (#[trigger] dst_big.dicts@[
                        j as int
                    ]@[k]).0 == src.dicts@[i as int]@[k].0 && deep_congruent(
                        src,
                        src.dicts@[i as int]@[k].1,
                        dst_big,
                        dst_big.dicts@[j as int]@[k].1,
                        (depth - 1) as nat,
                    ) by {
                        lemma_deep_congruent_frame(
                            src_big,
                            src,
                            dst,
                            dst_big,
                            src_big.dicts@[i as int]@[k].1,
                            dst.dicts@[j as int]@[k].1,
                            (depth - 1) as nat,
                        );
                    }
                }
            }
        }
        _ => {}
    }
}


/// Finds the first entry with key `k`.
fn dict_find(entries: &Vec<(HashKey, Value)>, k: &HashKey) -> (r: Option<usize>)
    ensures
        match r {
            Some(i) => i < entries@.len() && dict_index_of(entries@, *k) == Some(i as int)
                && key_eq_spec(entries@[i as int].0, *k),
            None => dict_index_of(entries@, *k) is None,
        },
{
    proof {
        assert(entries@.skip(0) =~= entries@);
    }
    let mut i: usize = 0;
    while i < entries.len()
        invariant
            i <= entries@.len(),
            dict_index_of(entries@, *k) == match dict_index_of(entries@.skip(i as int), *k) {
                Some(j) => Some(j + i),
                None => None::<int>,
            },
        decreases entries@.len() - i,
    {
        proof {
            assert(entries@.skip(i as int).drop_first() =~= entries@.skip(i + 1));
            assert(entries@.skip(i as int)[0] == entries@[i as int]);
        }
        if entries[i].0 == *k {
            proof {
                assert(key_eq_spec(entries@[i as int].0, *k));
                assert(dict_index_of(entries@.skip(i as int), *k) == Some(0int));
            }
            return Some(i);
        }
        i = i + 1;
    }
    proof {
        assert(entries@.skip(entries@.len() as int) =~= Seq::<(HashKey, Value)>::empty());
    }
    None
}

/// Finds the first field named `name`.
fn field_find(fields: &Vec<(String, Value)>, name: &str) -> (r: Option<usize>)
    ensures
        match r {
            Some(i) => i < fields@.len() && field_index_of(fields@, name@) == Some(i as int)
                && fields@[i as int].0@ == name@,
            None => field_index_of(fields@, name@) is None,
        },
{
    proof {
        assert(fields@.skip(0) =~= fields@);
    }
    let mut i: usize = 0;
    while i < fields.len()
        invariant
            i <= fields@.len(),
            field_index_of(fields@, name@) == match field_index_of(fields@.skip(i as int), name@) {
                Some(j) => Some(j + i),
                None => None::<int>,
            },
        decreases fields@.len() - i,
    {
        proof {
            assert(fields@.skip(i as int).drop_first() =~= fields@.skip(i + 1));
            assert(fields@.skip(i as int)[0] == fields@[i as int]);
        }
        if crate::text::str_eq(fields[i].0.as_str(), name) {
            proof {
                assert(field_index_of(fields@.skip(i as int), name@) == Some(0int));
            }
            return Some(i);
        }
        i = i + 1;
    }
    proof {
        assert(fields@.skip(fields@.len() as int) =~= Seq::<(String, Value)>::empty());
    }
    None
}

impl Heap {
    /// An empty heap.
    pub fn new() -> (r: Heap)
        ensures
            r.arrays@.len() == 0,
            r.dicts@.len() == 0,
            r.objects@.len() == 0,
            r.lambdas@.len() == 0,
            r.bound_methods@.len() == 0,
            r.callables@.len() == 0,
    {
        Heap {
            arrays: Vec::new(),
            dicts: Vec::new(),
            objects: Vec::new(),
            lambdas: Vec::new(),
            bound_methods: Vec::new(),
            callables: Vec::new(),
        }
    }

    /// Allocates a fresh array holding `elems`.
    pub fn alloc_array(&mut self, elems: Vec<Value>) -> (id: usize)
        ensures
            id == old(self).arrays@.len(),
            final(self).arrays@ == old(self).arrays@.push(elems),
            final(self).dicts@ == old(self).dicts@,
            final(self).objects@ == old(self).objects@,
            final(self).lambdas@ == old(self).lambdas@,
            final(self).bound_methods@ == old(self).bound_methods@,
            final(self).callables@ == old(self).callables@,
    {
        let id = self.arrays.len();
        self.arrays.push(elems);
        id
    }

    /// Allocates a fresh dictionary holding `entries`.
    pub fn alloc_dict(&mut self, entries: Vec<(HashKey, Value)>) -> (id: usize)
        ensures
            id == old(self).dicts@.len(),
            final(self).dicts@ == old(self).dicts@.push(entries),
            final(self).arrays@ == old(self).arrays@,
            final(self).objects@ == old(self).objects@,
            final(self).lambdas@ == old(self).lambdas@,
            final(self).bound_methods@ == old(self).bound_methods@,
            final(self).callables@ == old(self).callables@,
    {
        let id = self.dicts.len();
        self.dicts.push(entries);
        id
    }

    /// Allocates a fresh object of the given class with no fields yet.
    pub fn alloc_object(&mut self, class: usize) -> (id: usize)
        ensures
            id == old(self).objects@.len(),
            final(self).objects@.len() == old(self).objects@.len() + 1,
            final(self).objects@[id as int].class == class,
            final(self).objects@[id as int].fields@.len() == 0,
            forall|j: int|
                0 <= j < old(self).objects@.len() ==> final(self).objects@[j] == old(
                    self,
                ).objects@[j],
            final(self).arrays@ == old(self).arrays@,
            final(self).dicts@ == old(self).dicts@,
            final(self).lambdas@ == old(self).lambdas@,
            final(self).bound_methods@ == old(self).bound_methods@,
            final(self).callables@ == old(self).callables@,
    {
        let id = self.objects.len();
        self.objects.push(ObjectInst { class, fields: Vec::new() });
        id
    }

    /// Allocates a fresh lambda closure.
    pub fn alloc_lambda(&mut self, closure: LambdaClosure) -> (id: usize)
        ensures
            id == old(self).lambdas@.len(),
            final(self).lambdas@ == old(self).lambdas@.push(closure),
            final(self).arrays@ == old(self).arrays@,
            final(self).dicts@ == old(self).dicts@,
            final(self).objects@ == old(self).objects@,
            final(self).bound_methods@ == old(self).bound_methods@,
            final(self).callables@ == old(self).callables@,
    {
        let id = self.lambdas.len();
        self.lambdas.push(closure);
        id
    }

    /// Allocates a fresh bound method.
    pub fn alloc_bound_method(&mut self, bm: BoundMethodVal) -> (id: usize)
        ensures
            id == old(self).bound_methods@.len(),
            final(self).bound_methods@ == old(self).bound_methods@.push(bm),
            final(self).arrays@ == old(self).arrays@,
            final(self).dicts@ == old(self).dicts@,
            final(self).objects@ == old(self).objects@,
            final(self).lambdas@ == old(self).lambdas@,
            final(self).callables@ == old(self).callables@,
    {
        let id = self.bound_methods.len();
        self.bound_methods.push(bm);
        id
    }

    /// Allocates a fresh partial application.
    pub fn alloc_callable(&mut self, c: CallableBindings) -> (id: usize)
        ensures
            id == old(self).callables@.len(),
            final(self).callables@ == old(self).callables@.push(c),
            final(self).arrays@ == old(self).arrays@,
            final(self).dicts@ == old(self).dicts@,
            final(self).objects@ == old(self).objects@,
            final(self).lambdas@ == old(self).lambdas@,
            final(self).bound_methods@ == old(self).bound_methods@,
    {
        let id = self.callables.len();
        self.callables.push(c);
        id
    }

    /// The element count of the array `id`.
    pub fn array_len(&self, id: usize) -> (r: Result<usize, EvalError>)
        ensures
            match r {
                Ok(n) => id < self.arrays@.len() && n == self.arrays@[id as int]@.len(),
                Err(_) => id >= self.arrays@.len(),
            },
    {
        if id < self.arrays.len() {
            Ok(self.arrays[id].len())
        } else {
            Err(EvalError::DomainError("dangling array reference".to_owned()))
        }
    }

    /// Reads the element at `idx` of the array `id`.
    pub fn array_get(&self, id: usize, idx: usize) -> (r: Result<Value, EvalError>)
        ensures
            match r {
                Ok(v) => id < self.arrays@.len() && idx < self.arrays@[id as int]@.len() && v
                    == self.arrays@[id as int]@[idx as int],
                Err(_) => id >= self.arrays@.len() || idx >= self.arrays@[id as int]@.len(),
            },
    {
        if id < self.arrays.len() && idx < self.arrays[id].len() {
            Ok(self.arrays[id][idx].dup())
        } else if id < self.arrays.len() {
            Err(EvalError::IndexOutOfBounds(idx as i64))
        } else {
            Err(EvalError::DomainError("dangling array reference".to_owned()))
        }
    }

    /// Writes the element at `idx` of the array `id`. The write is seen
    /// through every alias of the array.
    pub fn array_set(&mut self, id: usize, idx: usize, v: Value) -> (r: Result<(), EvalError>)
        ensures
            match r {
                Ok(_) => {
                    &&& id < old(self).arrays@.len()
                    &&& idx < old(self).arrays@[id as int]@.len()
                    &&& final(self).arrays@.len() == old(self).arrays@.len()
                    &&& final(self).arrays@[id as int]@ == old(self).arrays@[id as int]@.update(
                        idx as int,
                        v,
                    )
                    &&& forall|j: int|
                        0 <= j < old(self).arrays@.len() && j != id ==> final(self).arrays@[j]
                            == old(self).arrays@[j]
                },
                Err(_) => final(self).arrays@ == old(self).arrays@ && (id >= old(
                    self,
                ).arrays@.len() || idx >= old(self).arrays@[id as int]@.len()),
            },
            final(self).dicts@ == old(self).dicts@,
            final(self).objects@ == old(self).objects@,
            final(self).lambdas@ == old(self).lambdas@,
            final(self).bound_methods@ == old(self).bound_methods@,
            final(self).callables@ == old(self).callables@,
    {
        if id < self.arrays.len() && idx < self.arrays[id].len() {
            let inner = &mut self.arrays[id];
            let _removed = inner.remove(idx);
            inner.insert(idx, v);
            proof {
                assert(final(inner)@ =~= old(self).arrays@[id as int]@.update(idx as int, v));
            }
            Ok(())
        } else if id < self.arrays.len() {
            Err(EvalError::IndexOutOfBounds(idx as i64))
        } else {
            Err(EvalError::DomainError("dangling array reference".to_owned()))
        }
    }

    /// Appends an element to the array `id`; every alias of the array
    /// sees the longer contents.
    pub fn array_push(&mut self, id: usize, v: Value) -> (r: Result<(), EvalError>)
        ensures
            match r {
                Ok(_) => {
                    &&& id < old(self).arrays@.len()
                    &&& final(self).arrays@.len() == old(self).arrays@.len()
                    &&& final(self).arrays@[id as int]@ == old(self).arrays@[id as int]@.push(v)
                    &&& forall|j: int|
                        0 <= j < old(self).arrays@.len() && j != id ==> final(self).arrays@[j]
                            == old(self).arrays@[j]
                },
                Err(_) => final(self).arrays@ == old(self).arrays@ && id >= old(
                    self,
                ).arrays@.len(),
            },
            final(self).dicts@ == old(self).dicts@,
            final(self).objects@ == old(self).objects@,
            final(self).lambdas@ == old(self).lambdas@,
            final(self).bound_methods@ == old(self).bound_methods@,
            final(self).callables@ == old(self).callables@,
    {
        if id < self.arrays.len() {
            let inner = &mut self.arrays[id];
            inner.push(v);
            Ok(())
        } else {
            Err(EvalError::DomainError("dangling array reference".to_owned()))
        }
    }

    /// Replaces the whole contents of the array `id` in place; every
    /// alias of the array sees the new contents.
    pub fn array_replace(&mut self, id: usize, elems: Vec<Value>) -> (r: Result<(), EvalError>)
        ensures
            match r {
                Ok(_) => {
                    &&& id < old(self).arrays@.len()
                    &&& final(self).arrays@.len() == old(self).arrays@.len()
                    &&& final(self).arrays@[id as int]@ == elems@
                    &&& forall|j: int|
                        0 <= j < old(self).arrays@.len() && j != id ==> final(self).arrays@[j]
                            == old(self).arrays@[j]
                },
                Err(_) => final(self).arrays@ == old(self).arrays@ && id >= old(
                    self,
                ).arrays@.len(),
            },
            final(self).dicts@ == old(self).dicts@,
            final(self).objects@ == old(self).objects@,
            final(self).lambdas@ == old(self).lambdas@,
            final(self).bound_methods@ == old(self).bound_methods@,
            final(self).callables@ == old(self).callables@,
    {
        if id >= self.arrays.len() {
            return Err(EvalError::DomainError("dangling array reference".to_owned()));
        }
        let slot = &mut self.arrays[id];
        let mut replacement = elems;
        core::mem::swap(slot, &mut replacement);
        Ok(())
    }

    /// A copy of the whole contents of the array `id`, detached from the
    /// heap: mutating the array afterwards does not change the copy.
    pub fn array_snapshot(&self, id: usize) -> (r: Result<Vec<Value>, EvalError>)
        ensures
            match r {
                Ok(s) => id < self.arrays@.len() && s@ == self.arrays@[id as int]@,
                Err(_) => id >= self.arrays@.len(),
            },
    {
        if id >= self.arrays.len() {
            return Err(EvalError::DomainError("dangling array reference".to_owned()));
        }
        let inner = &self.arrays[id];
        let mut out: Vec<Value> = Vec::new();
        let mut i: usize = 0;
        while i < inner.len()
            invariant
                i <= inner@.len(),
                inner@ == self.arrays@[id as int]@,
                out@ == inner@.subrange(0, i as int),
            decreases inner@.len() - i,
        {
            out.push(inner[i].dup());
            proof {
                assert(out@ =~= inner@.subrange(0, i + 1 as int));
            }
            i = i + 1;
        }
        proof {
            assert(inner@.subrange(0, inner@.len() as int) =~= inner@);
        }
        Ok(out)
    }

    /// A copy of the whole contents of the dictionary `id`, detached
    /// from the heap: mutating the dictionary afterwards does not change
    /// the copy.
    pub fn dict_snapshot(&self, id: usize) -> (r: Result<Vec<(HashKey, Value)>, EvalError>)
        ensures
            match r {
                Ok(s) => id < self.dicts@.len() && s@ == self.dicts@[id as int]@,
                Err(_) => id >= self.dicts@.len(),
            },
    {
        if id >= self.dicts.len() {
            return Err(EvalError::DomainError("dangling dictionary reference".to_owned()));
        }
        let inner = &self.dicts[id];
        let mut out: Vec<(HashKey, Value)> = Vec::new();
        let mut i: usize = 0;
        while i < inner.len()
            invariant
                i <= inner@.len(),
                inner@ == self.dicts@[id as int]@,
                out@ == inner@.subrange(0, i as int),
            decreases inner@.len() - i,
        {
            out.push((inner[i].0.dup(), inner[i].1.dup()));
            proof {
                assert(inner@[i as int] == (inner@[i as int].0, inner@[i as int].1));
                assert(out@ =~= inner@.subrange(0, i + 1 as int));
            }
            i = i + 1;
        }
        proof {
            assert(inner@.subrange(0, inner@.len() as int) =~= inner@);
        }
        Ok(out)
    }

    /// The entry count of the dictionary `id`.
    pub fn dict_len(&self, id: usize) -> (r: Result<usize, EvalError>)
        ensures
            match r {
                Ok(n) => id < self.dicts@.len() && n == self.dicts@[id as int]@.len(),
                Err(_) => id >= self.dicts@.len(),
            },
    {
        if id < self.dicts.len() {
            Ok(self.dicts[id].len())
        } else {
            Err(EvalError::DomainError("dangling dictionary reference".to_owned()))
        }
    }

    /// Looks `k` up in the dictionary `id`.
    pub fn dict_get(&self, id: usize, k: &HashKey) -> (r: Result<Option<Value>, EvalError>)
        ensures
            match r {
                Ok(found) => id < self.dicts@.len() && match dict_index_of(
                    self.dicts@[id as int]@,
                    *k,
                ) {
                    Some(i) => found == Some(self.dicts@[id as int]@[i].1),
                    None => found is None,
                },
                Err(_) => id >= self.dicts@.len(),
            },
    {
        if id >= self.dicts.len() {
            return Err(EvalError::DomainError("dangling dictionary reference".to_owned()));
        }
        match dict_find(&self.dicts[id], k) {
            Some(i) => Ok(Some(self.dicts[id][i].1.dup())),
            None => Ok(None),
        }
    }

    /// Binds `k` to `v` in the dictionary `id`: an existing entry is
    /// overwritten in place (keeping its position), a new key is appended
    /// at the end. Every alias of the dictionary sees the change.
    pub fn dict_set(&mut self, id: usize, k: HashKey, v: Value) -> (r: Result<(), EvalError>)
        ensures
            match r {
                Ok(_) => {
                    &&& id < old(self).dicts@.len()
                    &&& final(self).dicts@.len() == old(self).dicts@.len()
                    &&& (match dict_index_of(old(self).dicts@[id as int]@, k) {
                        Some(i) => final(self).dicts@[id as int]@ == old(
                            self,
                        ).dicts@[id as int]@.update(i, (k, v)),
                        None => final(self).dicts@[id as int]@ == old(
                            self,
                        ).dicts@[id as int]@.push((k, v)),
                    })
                    &&& forall|j: int|
                        0 <= j < old(self).dicts@.len() && j != id ==> final(self).dicts@[j] == old(
                            self,
                        ).dicts@[j]
                },
                Err(_) => final(self).dicts@ == old(self).dicts@ && id >= old(self).dicts@.len(),
            },
            final(self).arrays@ == old(self).arrays@,
            final(self).objects@ == old(self).objects@,
            final(self).lambdas@ == old(self).lambdas@,
            final(self).bound_methods@ == old(self).bound_methods@,
            final(self).callables@ == old(self).callables@,
    {
        if id >= self.dicts.len() {
            return Err(EvalError::DomainError("dangling dictionary reference".to_owned()));
        }
        let ghost entries = self.dicts@[id as int]@;
        match dict_find(&self.dicts[id], &k) {
            Some(i) => {
                let inner = &mut self.dicts[id];
                let _removed = inner.remove(i);
                inner.insert(i, (k, v));
                proof {
                    assert(final(inner)@ =~= entries.update(i as int, (k, v)));
                }
                Ok(())
            }
            None => {
                let inner = &mut self.dicts[id];
                inner.push((k, v));
                Ok(())
            }
        }
    }

    /// The keys of the dictionary `id` in insertion order, detached from
    /// the heap.
    pub fn dict_keys(&self, id: usize) -> (r: Result<Vec<Value>, EvalError>)
        ensures
            match r {
                Ok(s) => id < self.dicts@.len() && s@.len() == self.dicts@[id as int]@.len()
                    && forall|j: int|
                    0 <= j < s@.len() ==> #[trigger] s@[j] == key_to_value_spec(
                        self.dicts@[id as int]@[j].0,
                    ),
                Err(_) => id >= self.dicts@.len(),
            },
    {
        if id >= self.dicts.len() {
            return Err(EvalError::DomainError("dangling dictionary reference".to_owned()));
        }
        let inner = &self.dicts[id];
        let mut out: Vec<Value> = Vec::new();
        let mut i: usize = 0;
        while i < inner.len()
            invariant
                i <= inner@.len(),
                inner@ == self.dicts@[id as int]@,
                out@.len() == i,
                forall|j: int|
                    0 <= j < i ==> #[trigger] out@[j] == key_to_value_spec(inner@[j].0),
            decreases inner@.len() - i,
        {
            out.push(inner[i].0.to_value());
            i = i + 1;
        }
        Ok(out)
    }

    /// The values of the dictionary `id` in insertion order, detached
    /// from the heap.
    pub fn dict_values(&self, id: usize) -> (r: Result<Vec<Value>, EvalError>)
        ensures
            match r {
                Ok(s) => id < self.dicts@.len() && s@.len() == self.dicts@[id as int]@.len()
                    && forall|j: int|
                    0 <= j < s@.len() ==> #[trigger] s@[j] == self.dicts@[id as int]@[j].1,
                Err(_) => id >= self.dicts@.len(),
            },
    {
        if id >= self.dicts.len() {
            return Err(EvalError::DomainError("dangling dictionary reference".to_owned()));
        }
        let inner = &self.dicts[id];
        let mut out: Vec<Value> = Vec::new();
        let mut i: usize = 0;
        while i < inner.len()
            invariant
                i <= inner@.len(),
                inner@ == self.dicts@[id as int]@,
                out@.len() == i,
                forall|j: int| 0 <= j < i ==> #[trigger] out@[j] == inner@[j].1,
            decreases inner@.len() - i,
        {
            out.push(inner[i].1.dup());
            i = i + 1;
        }
        Ok(out)
    }

    /// The class of the object `id`.
    pub fn object_class(&self, id: usize) -> (r: Result<usize, EvalError>)
        ensures
            match r {
                Ok(c) => id < self.objects@.len() && c == self.objects@[id as int].class,
                Err(_) => id >= self.objects@.len(),
            },
    {
        if id < self.objects.len() {
            Ok(self.objects[id].class)
        } else {
            Err(EvalError::DomainError("dangling object reference".to_owned()))
        }
    }

    /// Reads the raw field `name` of the object `id`, if present.
    pub fn object_get_field(&self, id: usize, name: &str) -> (r: Result<Option<Value>, EvalError>)
        ensures
            match r {
                Ok(found) => id < self.objects@.len() && match field_index_of(
                    self.objects@[id as int].fields@,
                    name@,
                ) {
                    Some(i) => found == Some(self.objects@[id as int].fields@[i].1),
                    None => found is None,
                },
                Err(_) => id >= self.objects@.len(),
            },
    {
        if id >= self.objects.len() {
            return Err(EvalError::DomainError("dangling object reference".to_owned()));
        }
        match field_find(&self.objects[id].fields, name) {
            Some(i) => Ok(Some(self.objects[id].fields[i].1.dup())),
            None => Ok(None),
        }
    }

    /// Writes the raw field `name` of the object `id`, creating it if it
    /// does not exist yet. Every alias of the object sees the change.
    pub fn object_set_field(&mut self, id: usize, name: &str, v: Value) -> (r: Result<
        (),
        EvalError,
    >)
        ensures
            match r {
                Ok(_) => {
                    &&& id < old(self).objects@.len()
                    &&& final(self).objects@.len() == old(self).objects@.len()
                    &&& final(self).objects@[id as int].class == old(self).objects@[id as int].class
                    &&& fields_after_set(
                        old(self).objects@[id as int].fields@,
                        name@,
                        v,
                        final(self).objects@[id as int].fields@,
                    )
                    &&& forall|j: int|
                        0 <= j < old(self).objects@.len() && j != id ==> final(self).objects@[j]
                            == old(self).objects@[j]
                },
                Err(_) => final(self).objects@ == old(self).objects@ && id >= old(self).objects@.len(),
            },
            final(self).arrays@ == old(self).arrays@,
            final(self).dicts@ == old(self).dicts@,
            final(self).lambdas@ == old(self).lambdas@,
            final(self).bound_methods@ == old(self).bound_methods@,
            final(self).callables@ == old(self).callables@,
            final(self).objects@.len() == old(self).objects@.len(),
    {
        if id >= self.objects.len() {
            return Err(EvalError::DomainError("dangling object reference".to_owned()));
        }
        let ghost entries = self.objects@[id as int].fields@;
        match field_find(&self.objects[id].fields, name) {
            Some(i) => {
                let obj = &mut self.objects[id];
                let _removed = obj.fields.remove(i);
                obj.fields.insert(i, (name.to_owned(), v));
                Ok(())
            }
            None => {
                let obj = &mut self.objects[id];
                obj.fields.push((name.to_owned(), v));
                Ok(())
            }
        }
    }
}

/// How an object's field map changes on a write: an existing field is
/// overwritten in place, a new field is appended at the end, and all
/// other fields stay.
pub open spec fn fields_after_set(
    fields: Seq<(String, Value)>,
    name: Seq<char>,
    v: Value,
    result: Seq<(String, Value)>,
) -> bool {
    match field_index_of(fields, name) {
        Some(i) => {
            &&& result.len() == fields.len()
            &&& result[i].0@ == name
            &&& result[i].1 == v
            &&& forall|j: int| 0 <= j < fields.len() && j != i ==> result[j] == fields[j]
        },
        None => {
            &&& result.len() == fields.len() + 1
            &&& result.last().0@ == name
            &&& result.last().1 == v
            &&& forall|j: int| 0 <= j < fields.len() ==> result[j] == fields[j]
        },
    }
}

/// Reference semantics: two array values alias exactly when they hold
/// the same index, so a write made through one alias is read back
/// through every other alias of the same array.
pub proof fn lemma_alias_write_visible(
    pre: &Heap,
    post: &Heap,
    x: usize,
    y: usize,
    i: int,
    v: Value,
)
    requires
        x == y,
        x < pre.arrays@.len(),
        post.arrays@.len() == pre.arrays@.len(),
        0 <= i < pre.arrays@[x as int]@.len(),
        post.arrays@[x as int]@ == pre.arrays@[x as int]@.update(i, v),
    ensures
        post.arrays@[y as int]@[i] == v,
{
}

/// A name that indexes the field map still indexes it after any write:
/// a write overwrites in place or appends, it never removes.
pub proof fn lemma_fields_after_set_preserves(
    fields: Seq<(String, Value)>,
    name: Seq<char>,
    v: Value,
    result: Seq<(String, Value)>,
    nm: Seq<char>,
)
    requires
        fields_after_set(fields, name, v, result),
        field_index_of(fields, nm) is Some,
    ensures
        field_index_of(result, nm) is Some,
{
    lemma_field_index_present(fields, nm);
    let j = choose|j: int| 0 <= j < fields.len() && (#[trigger] fields[j]).0@ == nm;
    match field_index_of(fields, name) {
        Some(i) => {
            if i == j {
                lemma_field_index_names(fields, name, i);
                lemma_field_present_index(result, nm, i);
            } else {
                lemma_field_present_index(result, nm, j);
            }
        }
        None => {
            lemma_field_present_index(result, nm, j);
        }
    }
}

/// The indexed position carries the looked-up name.
pub proof fn lemma_field_index_names(fields: Seq<(String, Value)>, name: Seq<char>, i: int)
    requires
        field_index_of(fields, name) == Some(i),
    ensures
        0 <= i < fields.len() && fields[i].0@ == name,
    decreases fields.len(),
{
    if fields.len() > 0 && fields[0].0@ != name {
        lemma_field_index_names(fields.drop_first(), name, i - 1);
    }
}

/// An indexed name occurs in the map.
pub proof fn lemma_field_index_present(fields: Seq<(String, Value)>, nm: Seq<char>)
    requires
        field_index_of(fields, nm) is Some,
    ensures
        exists|j: int| 0 <= j < fields.len() && (#[trigger] fields[j]).0@ == nm,
    decreases fields.len(),
{
    if fields.len() > 0 {
        if fields[0].0@ == nm {
            assert((fields[0]).0@ == nm);
        } else {
            lemma_field_index_present(fields.drop_first(), nm);
            let j = choose|j: int|
                0 <= j < fields.drop_first().len() && (#[trigger] fields.drop_first()[j]).0@ == nm;
            assert(fields[j + 1].0@ == nm);
        }
    }
}

/// A name that occurs in the map is indexed by it.
pub proof fn lemma_field_present_index(fields: Seq<(String, Value)>, nm: Seq<char>, j: int)
    requires
        0 <= j < fields.len(),
        fields[j].0@ == nm,
    ensures
        field_index_of(fields, nm) is Some,
    decreases fields.len(),
{
    if fields[0].0@ != nm {
        lemma_field_present_index(fields.drop_first(), nm, j - 1);
    }
}

/// The written name indexes the map after the write.
pub proof fn lemma_field_present_index_entry(
    fields: Seq<(String, Value)>,
    name: Seq<char>,
    v: Value,
    result: Seq<(String, Value)>,
)
    requires
        fields_after_set(fields, name, v, result),
    ensures
        field_index_of(result, name) is Some,
{
    match field_index_of(fields, name) {
        Some(i) => {
            lemma_field_index_names(fields, name, i);
            lemma_field_present_index(result, name, i);
        }
        None => {
            lemma_field_present_index(result, name, result.len() - 1);
        }
    }
}

/// First-occurrence lookup sees only the names: a map whose names agree
/// position by position, padded with entries of other names, indexes a
/// name at the same place.
pub proof fn lemma_field_index_same_names(
    a: Seq<(String, Value)>,
    b: Seq<(String, Value)>,
    nm: Seq<char>,
)
    requires
        a.len() <= b.len(),
        forall|j: int| 0 <= j < a.len() ==> (#[trigger] b[j]).0@ == a[j].0@,
        forall|j: int| a.len() <= j < b.len() ==> (#[trigger] b[j]).0@ != nm,
    ensures
        field_index_of(b, nm) == field_index_of(a, nm),
    decreases b.len(),
{
    if a.len() == 0 {
        if b.len() > 0 {
            lemma_field_index_same_names(a, b.drop_first(), nm);
        }
    } else {
        if a[0].0@ != nm {
            lemma_field_index_same_names(a.drop_first(), b.drop_first(), nm);
        }
    }
}

/// Appending an entry under a fresh name indexes that name at the end.
pub proof fn lemma_field_index_push_new(
    fields: Seq<(String, Value)>,
    e: (String, Value),
    nm: Seq<char>,
)
    requires
        field_index_of(fields, nm) is None,
        e.0@ == nm,
    ensures
        field_index_of(fields.push(e), nm) == Some(fields.len() as int),
    decreases fields.len(),
{
    if fields.len() == 0 {
        assert(fields.push(e)[0] == e);
    } else {
        lemma_field_index_push_new(fields.drop_first(), e, nm);
        assert(fields.push(e).drop_first() =~= fields.drop_first().push(e));
    }
}

/// After a write, the written name indexes the written value.
pub proof fn lemma_fields_after_set_written(
    fields: Seq<(String, Value)>,
    name: Seq<char>,
    v: Value,
    result: Seq<(String, Value)>,
)
    requires
        fields_after_set(fields, name, v, result),
    ensures
        match field_index_of(result, name) {
            Some(i) => result[i].1 == v,
            None => false,
        },
{
    match field_index_of(fields, name) {
        Some(i) => {
            lemma_field_index_names(fields, name, i);
            lemma_field_index_same_names(fields, result, name);
        }
        None => {
            assert(result =~= fields.push(result.last()));
            lemma_field_index_push_new(fields, result.last(), name);
        }
    }
}

/// Writing one name leaves the first occurrence of every other name in
/// place, entry and all.
pub proof fn lemma_fields_after_set_other(
    fields: Seq<(String, Value)>,
    name: Seq<char>,
    v: Value,
    result: Seq<(String, Value)>,
    nm: Seq<char>,
)
    requires
        fields_after_set(fields, name, v, result),
        nm != name,
    ensures
        field_index_of(result, nm) == field_index_of(fields, nm),
        match field_index_of(fields, nm) {
            Some(i) => result[i] == fields[i],
            None => true,
        },
{
    match field_index_of(fields, name) {
        Some(i0) => {
            lemma_field_index_names(fields, name, i0);
            lemma_field_index_same_names(fields, result, nm);
            if let Some(i) = field_index_of(fields, nm) {
                lemma_field_index_names(fields, nm, i);
            }
        }
        None => {
            assert(result =~= fields.push(result.last()));
            lemma_field_index_same_names(fields, result, nm);
            if let Some(i) = field_index_of(fields, nm) {
                lemma_field_index_names(fields, nm, i);
            }
        }
    }
}

/// What a dictionary key looks like as a value.
pub open spec fn key_to_value_spec(k: HashKey) -> Value {
    match k {
        HashKey::Null => Value::Null,
        HashKey::Bool(b) => Value::Bool(b),
        HashKey::Int(i) => Value::Int(i),
        HashKey::Str(s) => Value::Str(s),
    }
}

} // verus!
