//! The evaluator: the superglobal registry, the live call context, and
//! the tree-walking execution of expressions and statements.

use vstd::prelude::*;
use std::rc::Rc;
use crate::ast::{Expr, Literal, Stmt, Lambda, Parameter, rc_clone};
use crate::class::{Class, LazyConst, InstanceVar, classes_wf, table_find, table_index_of,
    find_method, find_constant_pos, find_proxy_pos, lookup_method_spec, lookup_constant_spec,
    lookup_proxy_spec};
use crate::errors::{EvalError, EvalErrorOrControlFlow, ControlFlow, LoopControlFlow, ExpectedArity};
use crate::heap::{Heap, heap_extends, heap_preserves, deep_congruent, lemma_deep_congruent_frame,
    deep_fresh, lemma_deep_fresh_frame, lemma_deep_fresh_weaken,
    LambdaClosure, BoundMethodVal, CallableBindings,
    fields_after_set, field_index_of};
use crate::method::{Method, NativeFn, ScopedMethod, MethodArgs, method_is_static_spec};
use crate::rng::SeededRng;
use crate::value::{Value, HashKey, SimpleValue};

verus! {

/// The indices of the bootstrapped built-in classes in the class table.
#[derive(Debug, Clone, Copy, PartialEq, Eq, Structural)]
pub struct BuiltinClasses {
    pub object: usize,
    pub refcounted: usize,
    pub array: usize,
    pub dictionary: usize,
    pub int_class: usize,
    pub string_class: usize,
    pub callable: usize,
    pub signal: usize,
}

/// The process-wide registry built once per simulation run: classes,
/// superglobal variables and functions, and loaded files. After build it
/// changes only by loading files and by constant memoization.
#[derive(Debug)]
pub struct SuperglobalState {
    pub classes: Vec<Class>,
    pub vars: Vec<(String, SimpleValue)>,
    pub functions: Vec<(String, Method)>,
    pub loaded_files: Vec<(String, usize)>,
    pub builtins: BuiltinClasses,
    /// The card codex manifest, consulted by the codex class's native
    /// methods.
    pub codex_cards: Vec<crate::codex::CodexEntry>,
    pub codex_max_id: i64,
}

impl SuperglobalState {
    /// Well-formedness: parent indices point backwards and the built-in
    /// class indices are valid.
    pub open spec fn wf(&self) -> bool {
        &&& classes_wf(self.classes@)
        &&& self.builtins.object < self.classes@.len()
        &&& self.builtins.refcounted < self.classes@.len()
        &&& self.builtins.array < self.classes@.len()
        &&& self.builtins.dictionary < self.classes@.len()
        &&& self.builtins.int_class < self.classes@.len()
        &&& self.builtins.string_class < self.classes@.len()
        &&& self.builtins.callable < self.classes@.len()
        &&& self.builtins.signal < self.classes@.len()
    }
}

/// How one constant slot may change over evaluation: a memoized value
/// and a poisoning are permanent; only an unevaluated initializer may
/// move.
pub open spec fn const_evolves(x: (String, LazyConst), y: (String, LazyConst)) -> bool {
    &&& y.0@ == x.0@
    &&& match x.1 {
        LazyConst::Resolved(v) => y.1 == LazyConst::Resolved(v),
        LazyConst::Poisoned => y.1 is Poisoned,
        LazyConst::Unevaluated(_) => true,
    }
}

/// How one class record may change over evaluation: everything but the
/// constant states is frozen.
pub open spec fn class_evolves(x: Class, y: Class) -> bool {
    &&& y.name == x.name
    &&& y.parent == x.parent
    &&& y.instance_vars == x.instance_vars
    &&& y.proxy_vars == x.proxy_vars
    &&& y.methods == x.methods
    &&& y.constants@.len() == x.constants@.len()
    &&& forall|k: int|
        0 <= k < x.constants@.len() ==> const_evolves(
            #[trigger] x.constants@[k],
            y.constants@[k],
        )
}

/// How the superglobal registry may change during evaluation: only
/// constant memoization; nothing is added, dropped or rebound.
pub open spec fn sg_evolves(a: &SuperglobalState, b: &SuperglobalState) -> bool {
    &&& b.classes@.len() == a.classes@.len()
    &&& forall|i: int|
        0 <= i < a.classes@.len() ==> class_evolves(#[trigger] a.classes@[i], b.classes@[i])
    &&& b.vars@ == a.vars@
    &&& b.functions@ == a.functions@
    &&& b.loaded_files@ == a.loaded_files@
    &&& b.builtins == a.builtins
    &&& b.codex_cards@ == a.codex_cards@
    &&& b.codex_max_id == a.codex_max_id
}

/// How the whole machine may change during evaluation: the registry
/// evolves and the heap only grows.
pub open spec fn evolves_to(a: &EvaluatorState, b: &EvaluatorState) -> bool {
    &&& sg_evolves(&a.sg, &b.sg)
    &&& heap_extends(&b.heap, &a.heap)
}

/// Registry evolution composes.
pub broadcast proof fn lemma_sg_evolves_trans(
    a: &SuperglobalState,
    b: &SuperglobalState,
    c: &SuperglobalState,
)
    requires
        #[trigger] sg_evolves(a, b),
        #[trigger] sg_evolves(b, c),
    ensures
        sg_evolves(a, c),
{
    assert forall|i: int|
        0 <= i < a.classes@.len() implies class_evolves(#[trigger] a.classes@[i], c.classes@[i]) by {
        assert(class_evolves(a.classes@[i], b.classes@[i]));
        assert(class_evolves(b.classes@[i], c.classes@[i]));
    }
}

/// Machine evolution composes.
pub broadcast proof fn lemma_evolves_to_trans(
    a: &EvaluatorState,
    b: &EvaluatorState,
    c: &EvaluatorState,
)
    requires
        #[trigger] evolves_to(a, b),
        #[trigger] evolves_to(b, c),
    ensures
        evolves_to(a, c),
{
    lemma_sg_evolves_trans(&a.sg, &b.sg, &c.sg);
}

/// Evolution keeps the registry well-formed.
pub broadcast proof fn lemma_sg_evolves_wf(a: &SuperglobalState, b: &SuperglobalState)
    requires
        a.wf(),
        #[trigger] sg_evolves(a, b),
    ensures
        b.wf(),
{
    assert forall|i: int|
        0 <= i < b.classes@.len() implies match (#[trigger] b.classes@[i]).parent {
        Some(p) => p < i,
        None => true,
    } by {
        assert(class_evolves(a.classes@[i], b.classes@[i]));
    }
}

/// A class constant's initializer runs at most once: a memoized value
/// survives any amount of further evaluation, so every later read sees
/// the same value without anything being run again.
pub proof fn lemma_resolved_constant_permanent(
    a: &SuperglobalState,
    b: &SuperglobalState,
    ci: int,
    ki: int,
    v: SimpleValue,
)
    requires
        sg_evolves(a, b),
        0 <= ci < a.classes@.len(),
        0 <= ki < a.classes@[ci].constants@.len(),
        a.classes@[ci].constants@[ki].1 == LazyConst::Resolved(v),
    ensures
        b.classes@[ci].constants@[ki].1 == LazyConst::Resolved(v),
{
    assert(class_evolves(a.classes@[ci], b.classes@[ci]));
    assert(const_evolves(a.classes@[ci].constants@[ki], b.classes@[ci].constants@[ki]));
}

/// The live call context: the value of `self`, the local variables, and
/// the class whose constants are in scope.
#[derive(Debug)]
pub struct Scope {
    pub self_value: Value,
    pub locals: Vec<(String, Value)>,
    pub enclosing_class: Option<usize>,
}

impl Scope {
    /// A fresh scope with no receiver and no locals.
    pub fn new() -> (r: Scope)
        ensures
            r.self_value == Value::Null,
            r.locals@.len() == 0,
            r.enclosing_class is None,
    {
        Scope { self_value: Value::Null, locals: Vec::new(), enclosing_class: None }
    }

    /// Whether the scope holds a local of this name.
    pub fn has_local_var(&self, name: &str) -> (r: bool)
        ensures
            r == (table_index_of(self.locals@, name@) is Some),
    {
        matches!(table_find(&self.locals, name), Some(_))
    }

    /// Binds a local variable: an existing binding is overwritten in
    /// place, a new one is appended.
    pub fn set_local_var(&mut self, name: &str, value: Value)
        ensures
            final(self).self_value == old(self).self_value,
            final(self).enclosing_class == old(self).enclosing_class,
            fields_after_set(old(self).locals@, name@, value, final(self).locals@),
    {
        proof {
            lemma_table_field_index(self.locals@, name@);
        }
        match table_find(&self.locals, name) {
            Some(i) => {
                let _removed = self.locals.remove(i);
                self.locals.insert(i, (name.to_owned(), value));
            }
            None => {
                self.locals.push((name.to_owned(), value));
            }
        }
    }

    /// Reads a local variable.
    pub fn get_local_var(&self, name: &str) -> (r: Option<Value>)
        ensures
            match table_index_of(self.locals@, name@) {
                Some(i) => r == Some(self.locals@[i].1),
                None => r is None,
            },
    {
        match table_find(&self.locals, name) {
            Some(i) => Some(self.locals[i].1.dup()),
            None => None,
        }
    }
}

/// The two name-indexing spec functions agree on every table.
pub proof fn lemma_table_field_index(entries: Seq<(String, Value)>, name: Seq<char>)
    ensures
        table_index_of(entries, name) == field_index_of(entries, name),
    decreases entries.len(),
{
    if entries.len() > 0 {
        lemma_table_field_index(entries.drop_first(), name);
    }
}

/// The whole evaluation machine: the shared registry, the heap of
/// reference values, and the seeded random source.
#[derive(Debug)]
pub struct EvaluatorState {
    pub sg: SuperglobalState,
    pub heap: Heap,
    pub rng: SeededRng,
}


/// What class a value belongs to, if any: built-in classes for the
/// built-in kinds, the object's own class for objects.
pub open spec fn class_of_spec(sg: &SuperglobalState, heap: &Heap, v: Value) -> Option<int> {
    match v {
        Value::Int(_) => Some(sg.builtins.int_class as int),
        Value::Str(_) => Some(sg.builtins.string_class as int),
        Value::ArrayRef(_) => Some(sg.builtins.array as int),
        Value::DictRef(_) => Some(sg.builtins.dictionary as int),
        Value::ObjectRef(o) => if o < heap.objects@.len() {
            Some(heap.objects@[o as int].class as int)
        } else {
            None
        },
        Value::BoundMethod(_) => Some(sg.builtins.callable as int),
        Value::Lambda(_) => Some(sg.builtins.callable as int),
        Value::CallableWithBindings(_) => Some(sg.builtins.callable as int),
        Value::SignalStub => Some(sg.builtins.signal as int),
        _ => None,
    }
}

/// The class a call through a receiver resolves against: the class
/// itself for a class reference, the value's class otherwise.
pub open spec fn call_target_spec(sg: &SuperglobalState, heap: &Heap, v: Value) -> Option<int> {
    match v {
        Value::ClassRef(c) => Some(c as int),
        _ => class_of_spec(sg, heap, v),
    }
}

/// The method a call of `name` on the receiver dispatches to, if the
/// lookup succeeds: the literal target `new` always routes to the
/// synthesized constructor, a class reference otherwise reaches only
/// its static methods, and every other receiver goes through its class.
pub open spec fn found_method_spec(sg: &SuperglobalState, heap: &Heap, v: Value, name: Seq<char>)
    -> Option<Method> {
    match v {
        Value::ClassRef(c) => if c < sg.classes@.len() {
            match lookup_method_spec(sg.classes@, c as int, name) {
                Some(p) => if method_is_static_spec(p.0) {
                    Some(p.0)
                } else if name == "new"@ {
                    Some(Method::Native(NativeFn::Constructor))
                } else {
                    None
                },
                None => if name == "new"@ {
                    Some(Method::Native(NativeFn::Constructor))
                } else {
                    None
                },
            }
        } else {
            None
        },
        _ => match class_of_spec(sg, heap, v) {
            Some(c) => if 0 <= c < sg.classes@.len() {
                match lookup_method_spec(sg.classes@, c, name) {
                    Some(p) => Some(p.0),
                    None => None,
                }
            } else {
                None
            },
            None => None,
        },
    }
}

/// The raw field that a read of the attribute `name` through the
/// receiver's proxy layer passes to, if a proxy intercepts it.
pub open spec fn proxy_for_spec(sg: &SuperglobalState, heap: &Heap, v: Value, name: Seq<char>)
    -> Option<Seq<char>> {
    match proxy_record_spec(sg, heap, v, name) {
        Some(p) => Some(p.spec_read_field()),
        None => None,
    }
}

/// The proxy variable that intercepts the attribute `name` on the
/// receiver's class, if any.
pub open spec fn proxy_record_spec(sg: &SuperglobalState, heap: &Heap, v: Value, name: Seq<char>)
    -> Option<crate::class::ProxyVar> {
    match class_of_spec(sg, heap, v) {
        Some(c) => if 0 <= c < sg.classes@.len() {
            match lookup_proxy_spec(sg.classes@, c, name) {
                Some(pos) => Some(sg.classes@[pos.0].proxy_vars@[pos.1].1),
                None => None,
            }
        } else {
            None
        },
        None => None,
    }
}

/// Whether a value carries no reference into the array or dictionary
/// arenas below the given bounds. Freshly deep-copied values satisfy
/// this with the old arena sizes: their container references are all new.
pub open spec fn fresh_container_refs(v: Value, arrays0: int, dicts0: int) -> bool {
    match v {
        Value::ArrayRef(a) => a >= arrays0,
        Value::DictRef(d) => d >= dicts0,
        _ => true,
    }
}

impl EvaluatorState {
    /// The class of a value: built-in kinds map to the bootstrapped
    /// classes, objects carry their own class.
    pub fn get_class(&self, v: &Value) -> (r: Option<usize>)
        ensures
            match r {
                Some(c) => class_of_spec(&self.sg, &self.heap, *v) == Some(c as int),
                None => class_of_spec(&self.sg, &self.heap, *v) is None,
            },
    {
        match v {
            Value::Int(_) => Some(self.sg.builtins.int_class),
            Value::Str(_) => Some(self.sg.builtins.string_class),
            Value::ArrayRef(_) => Some(self.sg.builtins.array),
            Value::DictRef(_) => Some(self.sg.builtins.dictionary),
            Value::ObjectRef(o) => {
                if *o < self.heap.objects.len() {
                    Some(self.heap.objects[*o].class)
                } else {
                    None
                }
            }
            Value::BoundMethod(_) => Some(self.sg.builtins.callable),
            Value::Lambda(_) => Some(self.sg.builtins.callable),
            Value::CallableWithBindings(_) => Some(self.sg.builtins.callable),
            Value::SignalStub => Some(self.sg.builtins.signal),
            _ => None,
        }
    }

    /// A snapshot of the values an iterable stands for, taken before any
    /// iteration: arrays yield their elements, dictionaries their keys.
    /// Mutating the source afterwards never changes the snapshot.
    pub fn try_iter(&self, v: &Value) -> (r: Result<Vec<Value>, EvalError>)
        ensures
            match r {
                Ok(s) => match *v {
                    Value::ArrayRef(a) => a < self.heap.arrays@.len() && s@
                        == self.heap.arrays@[a as int]@,
                    Value::DictRef(d) => d < self.heap.dicts@.len() && s@.len()
                        == self.heap.dicts@[d as int]@.len() && forall|j: int|
                        0 <= j < s@.len() ==> #[trigger] s@[j] == crate::heap::key_to_value_spec(
                            self.heap.dicts@[d as int]@[j].0,
                        ),
                    _ => false,
                },
                Err(_) => !(v matches Value::ArrayRef(a) && a < self.heap.arrays@.len()) && !(
                v matches Value::DictRef(d) && d < self.heap.dicts@.len()),
            },
    {
        match v {
            Value::ArrayRef(a) => self.heap.array_snapshot(*a),
            Value::DictRef(d) => self.heap.dict_keys(*d),
            _ => Err(EvalError::CannotIterate("value is not iterable".to_owned())),
        }
    }

    /// Clones container structure only: a copied array or dictionary is
    /// a fresh reference holding the same elements, so nested containers
    /// stay shared. Objects are never copied.
    pub fn shallow_copy(&mut self, v: &Value) -> (r: Value)
        requires
            old(self).sg.wf(),
        ensures
            final(self).sg == old(self).sg,
            heap_extends(&final(self).heap, &old(self).heap),
            final(self).heap.objects@ == old(self).heap.objects@,
            match *v {
                Value::ArrayRef(a) => if a < old(self).heap.arrays@.len() {
                    &&& r == Value::ArrayRef(old(self).heap.arrays@.len() as usize)
                    &&& final(self).heap.arrays@.len() == old(self).heap.arrays@.len() + 1
                    &&& final(self).heap.arrays@.last()@ == old(self).heap.arrays@[a as int]@
                    &&& forall|j: int|
                        0 <= j < old(self).heap.arrays@.len() ==> final(self).heap.arrays@[j]
                            == old(self).heap.arrays@[j]
                    &&& final(self).heap.dicts@ == old(self).heap.dicts@
                } else {
                    r == *v && *final(self) == *old(self)
                },
                Value::DictRef(d) => if d < old(self).heap.dicts@.len() {
                    &&& r == Value::DictRef(old(self).heap.dicts@.len() as usize)
                    &&& final(self).heap.dicts@.len() == old(self).heap.dicts@.len() + 1
                    &&& final(self).heap.dicts@.last()@ == old(self).heap.dicts@[d as int]@
                    &&& forall|j: int|
                        0 <= j < old(self).heap.dicts@.len() ==> final(self).heap.dicts@[j]
                            == old(self).heap.dicts@[j]
                    &&& final(self).heap.arrays@ == old(self).heap.arrays@
                } else {
                    r == *v && *final(self) == *old(self)
                },
                _ => r == *v && *final(self) == *old(self),
            },
    {
        match v {
            Value::ArrayRef(a) => {
                match self.heap.array_snapshot(*a) {
                    Ok(elems) => {
                        let id = self.heap.alloc_array(elems);
                        Value::ArrayRef(id)
                    }
                    Err(_) => v.dup(),
                }
            }
            Value::DictRef(d) => {
                match self.heap.dict_snapshot(*d) {
                    Ok(entries) => {
                        let id = self.heap.alloc_dict(entries);
                        Value::DictRef(id)
                    }
                    Err(_) => v.dup(),
                }
            }
            _ => v.dup(),
        }
    }

    /// Copies arrays and dictionaries recursively: the copy and
    /// everything inside it is fresh, so no aliasing with the original
    /// remains at any depth. Objects are never copied, only shared.
    pub fn deep_copy(&mut self, v: &Value, fuel: u64) -> (r: Result<Value, EvalError>)
        requires
            old(self).sg.wf(),
        ensures
            final(self).sg == old(self).sg,
            heap_preserves(&final(self).heap, &old(self).heap),
            final(self).heap.objects@ == old(self).heap.objects@,
            match r {
                Ok(c) => {
                    &&& fresh_container_refs(
                        c,
                        old(self).heap.arrays@.len() as int,
                        old(self).heap.dicts@.len() as int,
                    )
                    &&& (!(*v matches Value::ArrayRef(_)) && !(*v matches Value::DictRef(_))
                        ==> c == *v)
                    // The copy mirrors the original structurally, down
                    // to as many container levels as the budget allows;
                    // a deeper structure exhausts the budget instead.
                    &&& deep_congruent(&old(self).heap, *v, &final(self).heap, c, fuel as nat)
                    // And it shares nothing with what existed before
                    // the call, at any depth the budget covers.
                    &&& deep_fresh(
                        &final(self).heap,
                        c,
                        old(self).heap.arrays@.len() as int,
                        old(self).heap.dicts@.len() as int,
                        fuel as nat,
                    )
                },
                Err(_) => true,
            },
        decreases fuel,
    {
        if fuel == 0 {
            return Err(EvalError::BudgetExhausted);
        }
        match v {
            Value::ArrayRef(a) => {
                let elems = match self.heap.array_snapshot(*a) {
                    Ok(elems) => elems,
                    Err(e) => {
                        return Err(e);
                    }
                };
                let mut out: Vec<Value> = Vec::new();
                let mut i: usize = 0;
                while i < elems.len()
                    invariant
                        i <= elems@.len(),
                        fuel >= 1,
                        self.sg == old(self).sg,
                        old(self).sg.wf(),
                        elems@ == old(self).heap.arrays@[*a as int]@,
                        *a < old(self).heap.arrays@.len(),
                        heap_preserves(&self.heap, &old(self).heap),
                        self.heap.objects@ == old(self).heap.objects@,
                        out@.len() == i,
                        forall|j: int|
                            0 <= j < i ==> fresh_container_refs(
                                #[trigger] out@[j],
                                old(self).heap.arrays@.len() as int,
                                old(self).heap.dicts@.len() as int,
                            ),
                        forall|j: int|
                            0 <= j < i ==> deep_congruent(
                                &old(self).heap,
                                elems@[j],
                                &self.heap,
                                #[trigger] out@[j],
                                (fuel - 1) as nat,
                            ),
                        forall|j: int|
                            0 <= j < i ==> deep_fresh(
                                &self.heap,
                                #[trigger] out@[j],
                                old(self).heap.arrays@.len() as int,
                                old(self).heap.dicts@.len() as int,
                                (fuel - 1) as nat,
                            ),
                    decreases elems@.len() - i,
                {
                    let ghost pre = *self;
                    match self.deep_copy(&elems[i], fuel - 1) {
                        Ok(c) => {
                            proof {
                                lemma_deep_congruent_frame(
                                    &pre.heap,
                                    &old(self).heap,
                                    &self.heap,
                                    &self.heap,
                                    elems@[i as int],
                                    c,
                                    (fuel - 1) as nat,
                                );
                                assert forall|j: int| 0 <= j < i implies deep_congruent(
                                    &old(self).heap,
                                    elems@[j],
                                    &self.heap,
                                    #[trigger] out@[j],
                                    (fuel - 1) as nat,
                                ) by {
                                    lemma_deep_congruent_frame(
                                        &old(self).heap,
                                        &old(self).heap,
                                        &pre.heap,
                                        &self.heap,
                                        elems@[j],
                                        out@[j],
                                        (fuel - 1) as nat,
                                    );
                                }
                                lemma_deep_fresh_weaken(
                                    &self.heap,
                                    c,
                                    old(self).heap.arrays@.len() as int,
                                    old(self).heap.dicts@.len() as int,
                                    pre.heap.arrays@.len() as int,
                                    pre.heap.dicts@.len() as int,
                                    (fuel - 1) as nat,
                                );
                                assert forall|j: int| 0 <= j < i implies deep_fresh(
                                    &self.heap,
                                    #[trigger] out@[j],
                                    old(self).heap.arrays@.len() as int,
                                    old(self).heap.dicts@.len() as int,
                                    (fuel - 1) as nat,
                                ) by {
                                    lemma_deep_fresh_frame(
                                        &pre.heap,
                                        &self.heap,
                                        out@[j],
                                        old(self).heap.arrays@.len() as int,
                                        old(self).heap.dicts@.len() as int,
                                        (fuel - 1) as nat,
                                    );
                                }
                            }
                            out.push(c);
                        }
                        Err(e) => {
                            return Err(e);
                        }
                    }
                    i = i + 1;
                }
                let ghost prealloc = *self;
                let id = self.heap.alloc_array(out);
                proof {
                    assert forall|j: int| 0 <= j < elems@.len() implies deep_congruent(
                        &old(self).heap,
                        elems@[j],
                        &self.heap,
                        #[trigger] self.heap.arrays@[id as int]@[j],
                        (fuel - 1) as nat,
                    ) by {
                        lemma_deep_congruent_frame(
                            &old(self).heap,
                            &old(self).heap,
                            &prealloc.heap,
                            &self.heap,
                            elems@[j],
                            self.heap.arrays@[id as int]@[j],
                            (fuel - 1) as nat,
                        );
                    }
                    assert forall|j: int| 0 <= j < elems@.len() implies deep_fresh(
                        &self.heap,
                        #[trigger] self.heap.arrays@[id as int]@[j],
                        old(self).heap.arrays@.len() as int,
                        old(self).heap.dicts@.len() as int,
                        (fuel - 1) as nat,
                    ) by {
                        lemma_deep_fresh_frame(
                            &prealloc.heap,
                            &self.heap,
                            self.heap.arrays@[id as int]@[j],
                            old(self).heap.arrays@.len() as int,
                            old(self).heap.dicts@.len() as int,
                            (fuel - 1) as nat,
                        );
                    }
                }
                Ok(Value::ArrayRef(id))
            }
            Value::DictRef(d) => {
                let entries = match self.heap.dict_snapshot(*d) {
                    Ok(entries) => entries,
                    Err(e) => {
                        return Err(e);
                    }
                };
                let mut out: Vec<(HashKey, Value)> = Vec::new();
                let mut i: usize = 0;
                while i < entries.len()
                    invariant
                        i <= entries@.len(),
                        fuel >= 1,
                        self.sg == old(self).sg,
                        old(self).sg.wf(),
                        entries@ == old(self).heap.dicts@[*d as int]@,
                        *d < old(self).heap.dicts@.len(),
                        heap_preserves(&self.heap, &old(self).heap),
                        self.heap.objects@ == old(self).heap.objects@,
                        out@.len() == i,
                        forall|j: int|
                            0 <= j < i ==> (#[trigger] out@[j]).0 == entries@[j].0
                                && deep_congruent(
                                &old(self).heap,
                                entries@[j].1,
                                &self.heap,
                                out@[j].1,
                                (fuel - 1) as nat,
                            ),
                        forall|j: int|
                            0 <= j < i ==> deep_fresh(
                                &self.heap,
                                (#[trigger] out@[j]).1,
                                old(self).heap.arrays@.len() as int,
                                old(self).heap.dicts@.len() as int,
                                (fuel - 1) as nat,
                            ),
                    decreases entries@.len() - i,
                {
                    let ghost pre = *self;
                    match self.deep_copy(&entries[i].1, fuel - 1) {
                        Ok(c) => {
                            proof {
                                lemma_deep_congruent_frame(
                                    &pre.heap,
                                    &old(self).heap,
                                    &self.heap,
                                    &self.heap,
                                    entries@[i as int].1,
                                    c,
                                    (fuel - 1) as nat,
                                );
                                assert forall|j: int| 0 <= j < i implies (#[trigger] out@[j]).0
                                    == entries@[j].0 && deep_congruent(
                                    &old(self).heap,
                                    entries@[j].1,
                                    &self.heap,
                                    out@[j].1,
                                    (fuel - 1) as nat,
                                ) by {
                                    lemma_deep_congruent_frame(
                                        &old(self).heap,
                                        &old(self).heap,
                                        &pre.heap,
                                        &self.heap,
                                        entries@[j].1,
                                        out@[j].1,
                                        (fuel - 1) as nat,
                                    );
                                }
                                lemma_deep_fresh_weaken(
                                    &self.heap,
                                    c,
                                    old(self).heap.arrays@.len() as int,
                                    old(self).heap.dicts@.len() as int,
                                    pre.heap.arrays@.len() as int,
                                    pre.heap.dicts@.len() as int,
                                    (fuel - 1) as nat,
                                );
                                assert forall|j: int| 0 <= j < i implies deep_fresh(
                                    &self.heap,
                                    (#[trigger] out@[j]).1,
                                    old(self).heap.arrays@.len() as int,
                                    old(self).heap.dicts@.len() as int,
                                    (fuel - 1) as nat,
                                ) by {
                                    lemma_deep_fresh_frame(
                                        &pre.heap,
                                        &self.heap,
                                        out@[j].1,
                                        old(self).heap.arrays@.len() as int,
                                        old(self).heap.dicts@.len() as int,
                                        (fuel - 1) as nat,
                                    );
                                }
                            }
                            out.push((entries[i].0.dup(), c));
                        }
                        Err(e) => {
                            return Err(e);
                        }
                    }
                    i = i + 1;
                }
                let ghost prealloc = *self;
                let id = self.heap.alloc_dict(out);
                proof {
                    assert forall|j: int| 0 <= j < entries@.len() implies (
                    #[trigger] self.heap.dicts@[id as int]@[j]).0 == entries@[j].0
                        && deep_congruent(
                        &old(self).heap,
                        entries@[j].1,
                        &self.heap,
                        self.heap.dicts@[id as int]@[j].1,
                        (fuel - 1) as nat,
                    ) by {
                        lemma_deep_congruent_frame(
                            &old(self).heap,
                            &old(self).heap,
                            &prealloc.heap,
                            &self.heap,
                            entries@[j].1,
                            self.heap.dicts@[id as int]@[j].1,
                            (fuel - 1) as nat,
                        );
                    }
                    assert forall|j: int| 0 <= j < entries@.len() implies deep_fresh(
                        &self.heap,
                        (#[trigger] self.heap.dicts@[id as int]@[j]).1,
                        old(self).heap.arrays@.len() as int,
                        old(self).heap.dicts@.len() as int,
                        (fuel - 1) as nat,
                    ) by {
                        lemma_deep_fresh_frame(
                            &prealloc.heap,
                            &self.heap,
                            self.heap.dicts@[id as int]@[j].1,
                            old(self).heap.arrays@.len() as int,
                            old(self).heap.dicts@.len() as int,
                            (fuel - 1) as nat,
                        );
                    }
                }
                Ok(Value::DictRef(id))
            }
            _ => Ok(v.dup()),
        }
    }
}


/// Registry evolution is reflexive.
pub broadcast proof fn lemma_sg_evolves_refl(a: &SuperglobalState)
    ensures
        #[trigger] sg_evolves(a, a),
{
    assert forall|i: int|
        0 <= i < a.classes@.len() implies class_evolves(#[trigger] a.classes@[i], a.classes@[i]) by {
        assert forall|k: int|
            0 <= k < a.classes@[i].constants@.len() implies const_evolves(
            #[trigger] a.classes@[i].constants@[k],
            a.classes@[i].constants@[k],
        ) by {}
    }
}

/// Machine evolution is reflexive.
pub broadcast proof fn lemma_evolves_to_refl(a: &EvaluatorState)
    ensures
        #[trigger] evolves_to(a, a),
{
    lemma_sg_evolves_refl(&a.sg);
}

/// A resolved-at-assignment-time left-hand location.
#[derive(Debug)]
pub enum AssignmentLeftHand {
    Name(String),
    Subscript(Value, Value),
    Attr(Value, String),
}

/// A short description of a value's kind, used in error messages.
pub fn kind_name(v: &Value) -> (r: &'static str)
{
    match v {
        Value::Null => "null",
        Value::Bool(_) => "boolean",
        Value::Int(_) => "integer",
        Value::Str(_) => "string",
        Value::ArrayRef(_) => "array",
        Value::DictRef(_) => "dictionary",
        Value::ClassRef(_) => "class",
        Value::ObjectRef(_) => "object",
        Value::BoundMethod(_) => "method",
        Value::Lambda(_) => "lambda",
        Value::CallableWithBindings(_) => "callable",
        Value::EnumType(_) => "enum",
        Value::SignalStub => "signal",
    }
}

impl EvaluatorState {
    /// Converts a runtime value into a heap-free simple value; reference
    /// values other than classes and containers of simple values are
    /// rejected.
    pub fn value_to_simple(&self, v: &Value, fuel: u64) -> (r: Result<SimpleValue, EvalError>)
        ensures
            match *v {
                Value::Null => r == Ok::<SimpleValue, EvalError>(SimpleValue::Null),
                Value::Bool(b) => r == Ok::<SimpleValue, EvalError>(SimpleValue::Bool(b)),
                Value::Int(i) => r == Ok::<SimpleValue, EvalError>(SimpleValue::Int(i)),
                Value::Str(s) => r == Ok::<SimpleValue, EvalError>(SimpleValue::Str(s)),
                Value::ClassRef(c) => r == Ok::<SimpleValue, EvalError>(SimpleValue::ClassRef(c)),
                Value::EnumType(t) => r == Ok::<SimpleValue, EvalError>(SimpleValue::EnumType(t)),
                Value::ArrayRef(_) => true,
                Value::DictRef(_) => true,
                _ => r is Err,
            },
        decreases fuel,
    {
        match v {
            Value::Null => {
                return Ok(SimpleValue::Null);
            }
            Value::Bool(b) => {
                return Ok(SimpleValue::Bool(*b));
            }
            Value::Int(i) => {
                return Ok(SimpleValue::Int(*i));
            }
            Value::Str(s) => {
                return Ok(SimpleValue::Str(s.clone()));
            }
            Value::ClassRef(c) => {
                return Ok(SimpleValue::ClassRef(*c));
            }
            Value::EnumType(t) => {
                return Ok(SimpleValue::EnumType(rc_clone(t)));
            }
            _ => {}
        }
        if fuel == 0 {
            return Err(EvalError::BudgetExhausted);
        }
        match v {
            Value::Null => Ok(SimpleValue::Null),
            Value::Bool(b) => Ok(SimpleValue::Bool(*b)),
            Value::Int(i) => Ok(SimpleValue::Int(*i)),
            Value::Str(s) => Ok(SimpleValue::Str(s.clone())),
            Value::ClassRef(c) => Ok(SimpleValue::ClassRef(*c)),
            Value::EnumType(t) => Ok(SimpleValue::EnumType(rc_clone(t))),
            Value::ArrayRef(a) => {
                let elems = match self.heap.array_snapshot(*a) {
                    Ok(elems) => elems,
                    Err(e) => {
                        return Err(e);
                    }
                };
                let mut out: Vec<SimpleValue> = Vec::new();
                let mut i: usize = 0;
                while i < elems.len()
                    invariant
                        fuel >= 1,
                        *v matches Value::ArrayRef(_),
                    decreases elems@.len() - i,
                {
                    match self.value_to_simple(&elems[i], fuel - 1) {
                        Ok(sv) => {
                            out.push(sv);
                        }
                        Err(e) => {
                            return Err(e);
                        }
                    }
                    i = i + 1;
                }
                Ok(SimpleValue::SimpleArray(Rc::new(out)))
            }
            Value::DictRef(d) => {
                let entries = match self.heap.dict_snapshot(*d) {
                    Ok(entries) => entries,
                    Err(e) => {
                        return Err(e);
                    }
                };
                let mut out: Vec<(HashKey, SimpleValue)> = Vec::new();
                let mut i: usize = 0;
                while i < entries.len()
                    invariant
                        fuel >= 1,
                        *v matches Value::DictRef(_),
                    decreases entries@.len() - i,
                {
                    match self.value_to_simple(&entries[i].1, fuel - 1) {
                        Ok(sv) => {
                            out.push((entries[i].0.dup(), sv));
                        }
                        Err(e) => {
                            return Err(e);
                        }
                    }
                    i = i + 1;
                }
                Ok(SimpleValue::SimpleDict(Rc::new(out)))
            }
            _ => Err(EvalError::DomainError("not a simple value".to_owned())),
        }
    }

    /// Materialises a simple value as a runtime value; constant arrays
    /// and dictionaries come out as fresh heap containers, so each read
    /// of such a constant behaves copy-on-write.
    pub fn simple_to_value(&mut self, s: &SimpleValue, fuel: u64) -> (r: Result<Value, EvalError>)
        ensures
            final(self).sg == old(self).sg,
            heap_extends(&final(self).heap, &old(self).heap),
            match *s {
                SimpleValue::Null => r == Ok::<Value, EvalError>(Value::Null) && *final(self)
                    == *old(self),
                SimpleValue::Bool(b) => r == Ok::<Value, EvalError>(Value::Bool(b)) && *final(self)
                    == *old(self),
                SimpleValue::Int(i) => r == Ok::<Value, EvalError>(Value::Int(i)) && *final(self)
                    == *old(self),
                SimpleValue::Str(t) => r == Ok::<Value, EvalError>(Value::Str(t)) && *final(self)
                    == *old(self),
                SimpleValue::ClassRef(c) => r == Ok::<Value, EvalError>(Value::ClassRef(c))
                    && *final(self) == *old(self),
                SimpleValue::EnumType(t) => r == Ok::<Value, EvalError>(Value::EnumType(t))
                    && *final(self) == *old(self),
                // Constant containers come out as fresh heap containers:
                // copy-on-write.
                SimpleValue::SimpleArray(_) => r matches Ok(v) ==> v matches Value::ArrayRef(id)
                    && old(self).heap.arrays@.len() <= id < final(self).heap.arrays@.len(),
                SimpleValue::SimpleDict(_) => r matches Ok(v) ==> v matches Value::DictRef(id)
                    && old(self).heap.dicts@.len() <= id < final(self).heap.dicts@.len(),
            },
        decreases fuel,
    {
        match s {
            SimpleValue::Null => {
                return Ok(Value::Null);
            }
            SimpleValue::Bool(b) => {
                return Ok(Value::Bool(*b));
            }
            SimpleValue::Int(i) => {
                return Ok(Value::Int(*i));
            }
            SimpleValue::Str(t) => {
                return Ok(Value::Str(t.clone()));
            }
            SimpleValue::ClassRef(c) => {
                return Ok(Value::ClassRef(*c));
            }
            SimpleValue::EnumType(t) => {
                return Ok(Value::EnumType(rc_clone(t)));
            }
            _ => {}
        }
        if fuel == 0 {
            return Err(EvalError::BudgetExhausted);
        }
        match s {
            SimpleValue::Null => Ok(Value::Null),
            SimpleValue::Bool(b) => Ok(Value::Bool(*b)),
            SimpleValue::Int(i) => Ok(Value::Int(*i)),
            SimpleValue::Str(t) => Ok(Value::Str(t.clone())),
            SimpleValue::ClassRef(c) => Ok(Value::ClassRef(*c)),
            SimpleValue::EnumType(t) => Ok(Value::EnumType(rc_clone(t))),
            SimpleValue::SimpleArray(elems) => {
                let inner = rc_clone(elems);
                let mut out: Vec<Value> = Vec::new();
                let mut i: usize = 0;
                while i < inner.len()
                    invariant
                        fuel >= 1,
                        self.sg == old(self).sg,
                        heap_extends(&self.heap, &old(self).heap),
                        *s matches SimpleValue::SimpleArray(_),
                    decreases inner@.len() - i,
                {
                    match self.simple_to_value(&inner[i], fuel - 1) {
                        Ok(v) => {
                            out.push(v);
                        }
                        Err(e) => {
                            return Err(e);
                        }
                    }
                    i = i + 1;
                }
                let id = self.heap.alloc_array(out);
                Ok(Value::ArrayRef(id))
            }
            SimpleValue::SimpleDict(entries) => {
                let inner = rc_clone(entries);
                let mut out: Vec<(HashKey, Value)> = Vec::new();
                let mut i: usize = 0;
                while i < inner.len()
                    invariant
                        fuel >= 1,
                        self.sg == old(self).sg,
                        heap_extends(&self.heap, &old(self).heap),
                        *s matches SimpleValue::SimpleDict(_),
                    decreases inner@.len() - i,
                {
                    match self.simple_to_value(&inner[i].1, fuel - 1) {
                        Ok(v) => {
                            out.push((inner[i].0.dup(), v));
                        }
                        Err(e) => {
                            return Err(e);
                        }
                    }
                    i = i + 1;
                }
                let id = self.heap.alloc_dict(out);
                Ok(Value::DictRef(id))
            }
        }
    }
}


impl EvaluatorState {
    /// Forces the class constant in slot `ki` of class `ci`. A memoized
    /// constant is returned as it is, with nothing run and nothing
    /// changed, so a constant's initializer runs at most once no matter
    /// how often it is read; a poisoned constant fails the same way
    /// forever; an unevaluated initializer is run in a scope that sees
    /// the owning class, and the first outcome is memoized permanently.
    pub fn force_constant_at(&mut self, ci: usize, ki: usize, fuel: u64) -> (r: Result<
        SimpleValue,
        EvalError,
    >)
        requires
            old(self).sg.wf(),
            ci < old(self).sg.classes@.len(),
            ki < old(self).sg.classes@[ci as int].constants@.len(),
        ensures
            final(self).sg.wf(),
            evolves_to(&*old(self), &*final(self)),
            old(self).sg.classes@[ci as int].constants@[ki as int].1 matches LazyConst::Resolved(v)
                ==> *final(self) == *old(self) && r == Ok::<SimpleValue, EvalError>(v),
            old(self).sg.classes@[ci as int].constants@[ki as int].1 is Poisoned ==> *final(self)
                == *old(self) && r matches Err(EvalError::PoisonedConstant),
            r matches Ok(v) ==> final(self).sg.classes@[ci as int].constants@[ki as int].1
                == LazyConst::Resolved(v),
            // A run of the initializer that fails poisons the slot for
            // good; only running out of budget before anything ran leaves
            // the machine untouched.
            r is Err ==> final(self).sg.classes@[ci as int].constants@[ki as int].1 is Poisoned
                || (*final(self) == *old(self) && r matches Err(EvalError::BudgetExhausted)),
        decreases fuel,
    {
        proof {
            lemma_evolves_to_refl(&*self);
        }
        let expr = match &self.sg.classes[ci].constants[ki].1 {
            LazyConst::Resolved(v) => {
                return Ok(v.dup());
            }
            LazyConst::Poisoned => {
                return Err(EvalError::PoisonedConstant);
            }
            LazyConst::Unevaluated(e) => rc_clone(e),
        };
        if fuel == 0 {
            return Err(EvalError::BudgetExhausted);
        }
        let mut scope = Scope::new();
        scope.enclosing_class = Some(ci);
        let eval_result = self.eval_expr(&scope, &expr, fuel - 1);
        let sv_result = match eval_result {
            Ok(v) => self.value_to_simple(&v, fuel - 1),
            Err(e) => Err(e),
        };
        proof {
            lemma_evolves_to_trans(&*old(self), &*old(self), &*self);
        }
        // First write wins: if evaluating the initializer resolved this
        // very constant already, keep that outcome.
        match &self.sg.classes[ci].constants[ki].1 {
            LazyConst::Resolved(v) => {
                return Ok(v.dup());
            }
            LazyConst::Poisoned => {
                return Err(EvalError::PoisonedConstant);
            }
            LazyConst::Unevaluated(_) => {}
        }
        let ghost pre = *self;
        let outcome = match sv_result {
            Ok(sv) => {
                let copy = sv.dup();
                let cls = &mut self.sg.classes[ci];
                let slot = cls.constants.remove(ki);
                cls.constants.insert(ki, (slot.0, LazyConst::Resolved(sv)));
                Ok(copy)
            }
            Err(e) => {
                let cls = &mut self.sg.classes[ci];
                let slot = cls.constants.remove(ki);
                cls.constants.insert(ki, (slot.0, LazyConst::Poisoned));
                Err(e)
            }
        };
        proof {
            assert forall|i: int|
                0 <= i < pre.sg.classes@.len() implies class_evolves(
                #[trigger] pre.sg.classes@[i],
                self.sg.classes@[i],
            ) by {
                if i == ci {
                    assert forall|k: int|
                        0 <= k < pre.sg.classes@[i].constants@.len() implies const_evolves(
                        #[trigger] pre.sg.classes@[i].constants@[k],
                        self.sg.classes@[i].constants@[k],
                    ) by {}
                }
            }
            assert(sg_evolves(&pre.sg, &self.sg));
            lemma_evolves_to_trans(&*old(self), &pre, &*self);
            lemma_sg_evolves_wf(&old(self).sg, &self.sg);
        }
        outcome
    }

    /// Looks a method up for the given receiver: a class reference finds
    /// its static methods and the synthesized constructor under the name
    /// `new`; every other value searches its class's method table along
    /// the parent chain.
    pub fn get_func(&self, v: &Value, name: &str) -> (r: Result<ScopedMethod, EvalError>)
        requires
            self.sg.wf(),
        ensures
            r matches Err(e) ==> e matches EvalError::UndefinedFunc(n) && n@ == name@,
            match *v {
                Value::ClassRef(c) => if c < self.sg.classes@.len() {
                    match lookup_method_spec(self.sg.classes@, c as int, name@) {
                        Some(p) => if method_is_static_spec(p.0) {
                            r matches Ok(sm) && sm.method == p.0 && sm.owning_class == Some(
                                p.1 as usize,
                            )
                        } else if name@ == "new"@ {
                            r matches Ok(sm) && sm.method == Method::Native(NativeFn::Constructor)
                                && sm.owning_class == Some(c)
                        } else {
                            r is Err
                        },
                        None => if name@ == "new"@ {
                            r matches Ok(sm) && sm.method == Method::Native(NativeFn::Constructor)
                                && sm.owning_class == Some(c)
                        } else {
                            r is Err
                        },
                    }
                } else {
                    r is Err
                },
                _ => match class_of_spec(&self.sg, &self.heap, *v) {
                    Some(c) => if 0 <= c < self.sg.classes@.len() {
                        match lookup_method_spec(self.sg.classes@, c, name@) {
                            Some(p) => r matches Ok(sm) && sm.method == p.0 && sm.owning_class
                                == Some(p.1 as usize),
                            None => r is Err,
                        }
                    } else {
                        r is Err
                    },
                    None => r is Err,
                },
            },
    {
        if let Value::ClassRef(c) = v {
            if *c < self.sg.classes.len() {
                if let Some(pair) = find_method(&self.sg.classes, *c, name) {
                    if pair.0.is_static() {
                        return Ok(ScopedMethod { method: pair.0, owning_class: Some(pair.1) });
                    }
                }
                if crate::text::str_eq(name, "new") {
                    return Ok(ScopedMethod {
                        method: Method::Native(NativeFn::Constructor),
                        owning_class: Some(*c),
                    });
                }
                return Err(EvalError::UndefinedFunc(name.to_owned()));
            }
            return Err(EvalError::UndefinedFunc(name.to_owned()));
        }
        match self.get_class(v) {
            Some(c) => {
                if c < self.sg.classes.len() {
                    match find_method(&self.sg.classes, c, name) {
                        Some(pair) => Ok(ScopedMethod {
                            method: pair.0,
                            owning_class: Some(pair.1),
                        }),
                        None => Err(EvalError::UndefinedFunc(name.to_owned())),
                    }
                } else {
                    Err(EvalError::UndefinedFunc(name.to_owned()))
                }
            }
            None => Err(EvalError::UndefinedFunc(name.to_owned())),
        }
    }

    /// Resolves an attribute read without the proxy layer, in the fixed
    /// order: enum member, lazily-forced class constant, raw object
    /// field, then method wrapped as a bound method; anything else fails.
    /// In particular a raw field named like a method always shadows the
    /// method.
    pub fn get_value_raw(&mut self, v: &Value, name: &str, fuel: u64) -> (r: Result<
        Value,
        EvalError,
    >)
        requires
            old(self).sg.wf(),
        ensures
            final(self).sg.wf(),
            evolves_to(&*old(self), &*final(self)),
            match *v {
                Value::ObjectRef(o) => o < old(self).heap.objects@.len() ==> (match field_index_of(
                    old(self).heap.objects@[o as int].fields@,
                    name@,
                ) {
                    Some(i) => *final(self) == *old(self) && r == Ok::<Value, EvalError>(
                        old(self).heap.objects@[o as int].fields@[i].1,
                    ),
                    None => true,
                }),
                _ => true,
            },
        decreases fuel,
    {
        proof {
            lemma_evolves_to_refl(&*self);
        }
        match v {
            Value::EnumType(t) => {
                let table: &Vec<(String, i64)> = t;
                return match table_find(table, name) {
                    Some(i) => Ok(Value::Int(table[i].1)),
                    None => Err(EvalError::UndefinedVariable(name.to_owned())),
                };
            }
            Value::ClassRef(c) => {
                if *c >= self.sg.classes.len() {
                    return Err(EvalError::DomainError("dangling class reference".to_owned()));
                }
                if fuel == 0 {
                    return Err(EvalError::BudgetExhausted);
                }
                match find_constant_pos(&self.sg.classes, *c, name) {
                    Some(pos) => {
                        let sv = match self.force_constant_at(pos.0, pos.1, fuel - 1) {
                            Ok(sv) => sv,
                            Err(e) => {
                                return Err(e);
                            }
                        };
                        let out = self.simple_to_value(&sv, fuel - 1);
                        proof {
                            lemma_evolves_to_trans(&*old(self), &*old(self), &*self);
                        }
                        return out;
                    }
                    None => {}
                }
            }
            Value::ObjectRef(o) => {
                match self.heap.object_get_field(*o, name) {
                    Ok(Some(val)) => {
                        return Ok(val);
                    }
                    Ok(None) => {}
                    Err(e) => {
                        return Err(e);
                    }
                }
            }
            _ => {}
        }
        match self.get_func(v, name) {
            Ok(sm) => {
                let id = self.heap.alloc_bound_method(
                    BoundMethodVal {
                        receiver: v.dup(),
                        method: sm.method,
                        owning_class: sm.owning_class,
                    },
                );
                Ok(Value::BoundMethod(id))
            }
            Err(_) => Err(EvalError::UndefinedVariable(name.to_owned())),
        }
    }

    /// Writes an attribute without the proxy layer: only objects have
    /// assignable raw fields.
    pub fn set_value_raw(&mut self, v: &Value, name: &str, value: Value) -> (r: Result<
        (),
        EvalError,
    >)
        ensures
            final(self).sg == old(self).sg,
            heap_extends(&final(self).heap, &old(self).heap),
            match *v {
                Value::ObjectRef(o) => r is Ok ==> o < old(self).heap.objects@.len()
                    && fields_after_set(
                    old(self).heap.objects@[o as int].fields@,
                    name@,
                    value,
                    final(self).heap.objects@[o as int].fields@,
                ),
                _ => r is Err && *final(self) == *old(self),
            },
    {
        match v {
            Value::ObjectRef(o) => {
                let r = self.heap.object_set_field(*o, name, value);
                proof {
                    assert(self.heap.arrays@.len() >= old(self).heap.arrays@.len());
                    assert(self.heap.objects@.len() >= old(self).heap.objects@.len());
                    assert(heap_extends(&self.heap, &old(self).heap));
                }
                r
            }
            _ => Err(EvalError::type_error("object".to_owned(), kind_name(v).to_owned())),
        }
    }

    /// Resolves an attribute read: a proxy variable of the receiver's
    /// class always takes priority over the raw resolution order.
    pub fn get_value(&mut self, v: &Value, name: &str, fuel: u64) -> (r: Result<Value, EvalError>)
        requires
            old(self).sg.wf(),
        ensures
            final(self).sg.wf(),
            evolves_to(&*old(self), &*final(self)),
            // The proxy layer always takes priority: with a proxy named
            // `name` on the receiver's class the read goes to the proxy's
            // backing field, otherwise a raw object field always wins
            // over a method of the same name, and a field read changes
            // nothing.
            fuel >= 1 ==> (match proxy_for_spec(&old(self).sg, &old(self).heap, *v, name@) {
                Some(backing) => (match *v {
                    Value::ObjectRef(o) => o < old(self).heap.objects@.len() ==> (match
                        field_index_of(old(self).heap.objects@[o as int].fields@, backing) {
                        Some(i) => *final(self) == *old(self) && r == Ok::<Value, EvalError>(
                            old(self).heap.objects@[o as int].fields@[i].1,
                        ),
                        None => true,
                    }),
                    _ => true,
                }),
                None => (match *v {
                    Value::ObjectRef(o) => o < old(self).heap.objects@.len() ==> (match
                        field_index_of(old(self).heap.objects@[o as int].fields@, name@) {
                        Some(i) => *final(self) == *old(self) && r == Ok::<Value, EvalError>(
                            old(self).heap.objects@[o as int].fields@[i].1,
                        ),
                        None => true,
                    }),
                    _ => true,
                }),
            }),
        decreases fuel,
    {
        proof {
            lemma_evolves_to_refl(&*self);
        }
        if fuel == 0 {
            return Err(EvalError::BudgetExhausted);
        }
        if let Some(c) = self.get_class(v) {
            if c < self.sg.classes.len() {
                if let Some(pos) = find_proxy_pos(&self.sg.classes, c, name) {
                    let backing = self.sg.classes[pos.0].proxy_vars[pos.1].1.read_field();
                    return self.get_value_raw(v, backing.as_str(), fuel - 1);
                }
            }
        }
        self.get_value_raw(v, name, fuel - 1)
    }

    /// Resolves an attribute write: a proxy variable of the receiver's
    /// class intercepts the write and runs its adjustment first.
    pub fn set_value(&mut self, v: &Value, name: &str, value: Value, fuel: u64) -> (r: Result<
        (),
        EvalError,
    >)
        requires
            old(self).sg.wf(),
        ensures
            final(self).sg.wf(),
            evolves_to(&*old(self), &*final(self)),
            // A proxy intercepts the write and runs its adjustment
            // first; a plainly backed proxy stores the adjusted value in
            // its backing field, the fort-defense shapes additionally
            // clamp against the stored maximum. Without a proxy the raw
            // field is written. Only objects are writable.
            fuel >= 1 ==> (match proxy_record_spec(&old(self).sg, &old(self).heap, *v, name@) {
                Some(p) => (match p {
                    crate::class::ProxyVar::Backed { backing_field, adjustment } => (match
                        crate::class::adjust_value_spec(adjustment, value) {
                        Some(w) => (match *v {
                            Value::ObjectRef(o) => r is Ok ==> o < old(self).heap.objects@.len()
                                && fields_after_set(
                                old(self).heap.objects@[o as int].fields@,
                                backing_field@,
                                w,
                                final(self).heap.objects@[o as int].fields@,
                            ),
                            _ => r is Err,
                        }),
                        None => r is Err && *final(self) == *old(self),
                    }),
                    _ => true,
                }),
                None => (match *v {
                    Value::ObjectRef(o) => r is Ok ==> o < old(self).heap.objects@.len()
                        && fields_after_set(
                        old(self).heap.objects@[o as int].fields@,
                        name@,
                        value,
                        final(self).heap.objects@[o as int].fields@,
                    ),
                    _ => r is Err,
                }),
            }),
        decreases fuel,
    {
        proof {
            lemma_evolves_to_refl(&*self);
        }
        if fuel == 0 {
            return Err(EvalError::BudgetExhausted);
        }
        if let Some(c) = self.get_class(v) {
            if c < self.sg.classes.len() {
                if let Some(pos) = find_proxy_pos(&self.sg.classes, c, name) {
                    match &self.sg.classes[pos.0].proxy_vars[pos.1].1 {
                        crate::class::ProxyVar::Backed { backing_field, adjustment } => {
                            let backing = backing_field.clone();
                            let adjustment = *adjustment;
                            let adjusted = match adjustment {
                                crate::class::Adjustment::Identity => value,
                                _ => match value {
                                    Value::Int(n) => Value::Int(adjustment.apply(n)),
                                    other => {
                                        return Err(EvalError::type_error(
                                            "integer".to_owned(),
                                            kind_name(&other).to_owned(),
                                        ));
                                    }
                                },
                            };
                            return self.set_value_raw(v, backing.as_str(), adjusted);
                        }
                        crate::class::ProxyVar::FortDefense { curr_field, max_field } => {
                            let curr = curr_field.clone();
                            let max_name = max_field.clone();
                            let written = match value {
                                Value::Int(n) => n,
                                other => {
                                    return Err(EvalError::type_error(
                                        "integer".to_owned(),
                                        kind_name(&other).to_owned(),
                                    ));
                                }
                            };
                            let upper = match self.get_value_raw(v, max_name.as_str(), fuel - 1) {
                                Ok(Value::Int(n)) => n,
                                Ok(other) => {
                                    return Err(EvalError::type_error(
                                        "integer".to_owned(),
                                        kind_name(&other).to_owned(),
                                    ));
                                }
                                Err(e) => {
                                    return Err(e);
                                }
                            };
                            let clamped = crate::util::clamp(written, 0, upper);
                            return self.set_value_raw(v, curr.as_str(), Value::Int(clamped));
                        }
                        crate::class::ProxyVar::MaxFortDefense { curr_proxy, max_field } => {
                            let curr = curr_proxy.clone();
                            let max_name = max_field.clone();
                            let written = match value {
                                Value::Int(n) => n,
                                other => {
                                    return Err(EvalError::type_error(
                                        "integer".to_owned(),
                                        kind_name(&other).to_owned(),
                                    ));
                                }
                            };
                            let floored = if written < 0 {
                                0
                            } else {
                                written
                            };
                            match self.set_value_raw(v, max_name.as_str(), Value::Int(floored)) {
                                Ok(()) => {}
                                Err(e) => {
                                    return Err(e);
                                }
                            }
                            // Re-run the defense setter so the stat stays
                            // clamped under the new maximum.
                            let old_defense = match self.get_value(v, curr.as_str(), fuel - 1) {
                                Ok(d) => d,
                                Err(e) => {
                                    return Err(e);
                                }
                            };
                            return self.set_value(v, curr.as_str(), old_defense, fuel - 1);
                        }
                    }
                }
            }
        }
        self.set_value_raw(v, name, value)
    }
}


/// How many parameters have no default value and so must be supplied.
pub open spec fn spec_required_count(params: Seq<Parameter>) -> int
    decreases params.len(),
{
    if params.len() == 0 {
        0
    } else {
        spec_required_count(params.drop_last()) + (if params.last().default_value is None {
            1int
        } else {
            0int
        })
    }
}

/// The value a literal stands for.
pub open spec fn lit_value_spec(l: Literal) -> Value {
    match l {
        Literal::Null => Value::Null,
        Literal::Bool(b) => Value::Bool(b),
        Literal::Int(i) => Value::Int(i),
        Literal::String(gd) => Value::Str(gd.contents),
    }
}

/// Materialises a literal.
pub fn lit_to_value(l: &Literal) -> (r: Value)
    ensures
        r == lit_value_spec(*l),
{
    match l {
        Literal::Null => Value::Null,
        Literal::Bool(b) => Value::Bool(*b),
        Literal::Int(i) => Value::Int(*i),
        Literal::String(gd) => Value::Str(gd.contents.clone()),
    }
}

/// Whether a literal pattern matches a value: primitives by content,
/// strings character for character; reference values never match a
/// literal.
pub fn literal_matches(v: &Value, l: &Literal) -> (r: bool)
    ensures
        r == match (*v, *l) {
            (Value::Null, Literal::Null) => true,
            (Value::Bool(a), Literal::Bool(b)) => a == b,
            (Value::Int(a), Literal::Int(b)) => a == b,
            (Value::Str(a), Literal::String(b)) => a@ == b.contents@,
            _ => false,
        },
{
    match (v, l) {
        (Value::Null, Literal::Null) => true,
        (Value::Bool(a), Literal::Bool(b)) => a == b,
        (Value::Int(a), Literal::Int(b)) => a == b,
        (Value::Str(a), Literal::String(b)) => crate::text::str_eq(a.as_str(), b.contents.as_str()),
        _ => false,
    }
}

/// Copies a locals table; the copy aliases the same reference values.
pub fn dup_locals(t: &Vec<(String, Value)>) -> (r: Vec<(String, Value)>)
    ensures
        r@ == t@,
{
    let mut r: Vec<(String, Value)> = Vec::new();
    let mut i: usize = 0;
    while i < t.len()
        invariant
            i <= t@.len(),
            r@ == t@.subrange(0, i as int),
        decreases t@.len() - i,
    {
        r.push((t[i].0.clone(), t[i].1.dup()));
        proof {
            assert(t@[i as int] == (t@[i as int].0, t@[i as int].1));
            assert(r@ =~= t@.subrange(0, i + 1 as int));
        }
        i = i + 1;
    }
    proof {
        assert(t@.subrange(0, t@.len() as int) =~= t@);
    }
    r
}

impl EvaluatorState {
    /// The class a call through this receiver resolves against: the
    /// class itself for a class reference, the value's class otherwise.
    pub fn get_call_target(&self, v: &Value) -> (r: Option<usize>)
        ensures
            match r {
                Some(c) => call_target_spec(&self.sg, &self.heap, *v) == Some(c as int),
                None => call_target_spec(&self.sg, &self.heap, *v) is None,
            },
    {
        match v {
            Value::ClassRef(c) => Some(*c),
            _ => self.get_class(v),
        }
    }

    /// Resolves a bare name, in the fixed order: local variable, the
    /// receiver's own class name, an enclosing-class constant, then a
    /// superglobal variable.
    pub fn get_var(&mut self, scope: &Scope, name: &str, fuel: u64) -> (r: Result<
        Option<Value>,
        EvalError,
    >)
        requires
            old(self).sg.wf(),
        ensures
            final(self).sg.wf(),
            evolves_to(&*old(self), &*final(self)),
            // A local always wins, and reading it changes nothing.
            match table_index_of(scope.locals@, name@) {
                Some(i) => r == Ok::<Option<Value>, EvalError>(Some(scope.locals@[i].1))
                    && *final(self) == *old(self),
                None => true,
            },
            // Nothing is found only when every layer of the fixed order
            // missed: locals, the receiver's own class name, an
            // enclosing-class constant, and the superglobals.
            r matches Ok(found) && found is None ==> {
                &&& table_index_of(scope.locals@, name@) is None
                &&& (match call_target_spec(&old(self).sg, &old(self).heap, scope.self_value) {
                    Some(c) => 0 <= c < old(self).sg.classes@.len() ==> (match old(self).sg.classes@[c].name {
                        Some(n) => n@ != name@,
                        None => true,
                    }),
                    None => true,
                })
                &&& (match scope.enclosing_class {
                    Some(ec) => ec < old(self).sg.classes@.len() ==> lookup_constant_spec(
                        old(self).sg.classes@,
                        ec as int,
                        name@,
                    ) is None,
                    None => true,
                })
                &&& table_index_of(old(self).sg.vars@, name@) is None
            },
        decreases fuel,
    {
        broadcast use lemma_evolves_to_trans, lemma_sg_evolves_wf, lemma_evolves_to_refl;

        if let Some(v) = scope.get_local_var(name) {
            return Ok(Some(v));
        }
        if fuel == 0 {
            return Err(EvalError::BudgetExhausted);
        }
        if let Some(c) = self.get_call_target(&scope.self_value) {
            if c < self.sg.classes.len() {
                let is_class_name = match &self.sg.classes[c].name {
                    Some(n) => crate::text::str_eq(n.as_str(), name),
                    None => false,
                };
                if is_class_name {
                    return Ok(Some(Value::ClassRef(c)));
                }
            }
        }
        if let Some(ec) = scope.enclosing_class {
            if ec < self.sg.classes.len() {
                if let Some(pos) = find_constant_pos(&self.sg.classes, ec, name) {
                    let sv = match self.force_constant_at(pos.0, pos.1, fuel - 1) {
                        Ok(sv) => sv,
                        Err(e) => {
                            return Err(e);
                        }
                    };
                    let v = match self.simple_to_value(&sv, fuel - 1) {
                        Ok(v) => v,
                        Err(e) => {
                            return Err(e);
                        }
                    };
                    return Ok(Some(v));
                }
            }
        }
        match table_find(&self.sg.vars, name) {
            Some(i) => {
                let sv = self.sg.vars[i].1.dup();
                let v = match self.simple_to_value(&sv, fuel - 1) {
                    Ok(v) => v,
                    Err(e) => {
                        return Err(e);
                    }
                };
                Ok(Some(v))
            }
            None => Ok(None),
        }
    }

    /// Binds positional arguments into the callee's scope; a missing
    /// argument falls back to the parameter's default expression,
    /// evaluated in the callee's own scope, and too few required
    /// arguments fail with the arity error.
    pub fn bind_arguments(&mut self, scope: &mut Scope, func_name: &str, args: MethodArgs,
        params: &Vec<Parameter>, fuel: u64) -> (r: Result<(), EvalError>)
        requires
            old(self).sg.wf(),
        ensures
            final(self).sg.wf(),
            evolves_to(&*old(self), &*final(self)),
            // On failure the callee's scope is untouched: all bindings
            // are computed before any is installed.
            r is Err ==> *final(scope) == *old(scope),
            // A parameter that gets no argument and has no default is
            // exactly the wrong-arity error, raised before anything runs,
            // with the callee's name and the exact counts.
            (exists|i: int|
                args.0@.len() <= i < params@.len() && (#[trigger] params@[i]).default_value
                    is None) ==> ({
                &&& *final(self) == *old(self)
                &&& *final(scope) == *old(scope)
                &&& r matches Err(e) && e matches EvalError::WrongArity {
                    function,
                    expected,
                    actual,
                } && function@ == func_name@ && expected == (if spec_required_count(params@)
                    == params@.len() {
                    ExpectedArity::Exactly(spec_required_count(params@) as usize)
                } else {
                    ExpectedArity::Between(
                        spec_required_count(params@) as usize,
                        params@.len() as usize,
                    )
                }) && actual == args.0@.len()
            }),
            // On success every parameter name is bound as a local, and
            // the receiver and enclosing class stay as they were.
            r is Ok ==> final(scope).self_value == old(scope).self_value && final(scope).enclosing_class == old(scope).enclosing_class && forall|i: int|
                0 <= i < params@.len() ==> field_index_of(
                    final(scope).locals@,
                    (#[trigger] params@[i]).name@,
                ) is Some,
            // Surplus arguments beyond the parameter list create no
            // bindings.
            r is Ok ==> final(scope).locals@.len() <= old(scope).locals@.len() + params@.len(),
            // Binding is positional: with pairwise-distinct parameter
            // names, the i-th parameter reads back as the i-th argument;
            // the rest are filled from their defaults.
            r is Ok && (forall|a: int, b: int|
                0 <= a < b < params@.len() ==> (#[trigger] params@[a]).name@ != (
                #[trigger] params@[b]).name@) ==> forall|i: int|
                0 <= i < args.0@.len() && i < params@.len() ==> (match field_index_of(
                    final(scope).locals@,
                    (#[trigger] params@[i]).name@,
                ) {
                    Some(fi) => final(scope).locals@[fi].1 == args.0@[i],
                    None => false,
                }),
        decreases fuel,
    {
        broadcast use lemma_evolves_to_trans, lemma_sg_evolves_wf, lemma_evolves_to_refl;

        let mut required: usize = 0;
        let mut k: usize = 0;
        while k < params.len()
            invariant
                required <= k <= params@.len(),
                required == spec_required_count(params@.subrange(0, k as int)),
            decreases params@.len() - k,
        {
            let ghost upto = params@.subrange(0, k + 1 as int);
            proof {
                assert(upto.drop_last() =~= params@.subrange(0, k as int));
                assert(upto.last() == params@[k as int]);
            }
            if params[k].default_value.is_none() {
                required = required + 1;
            }
            k = k + 1;
        }
        proof {
            assert(params@.subrange(0, params@.len() as int) =~= params@);
        }
        let args_len = args.0.len();
        // The arity check comes first: a required parameter beyond the
        // supplied arguments fails before any default expression runs.
        let mut c: usize = args_len;
        while c < params.len()
            invariant
                args_len <= c,
                args_len == args.0@.len(),
                required == spec_required_count(params@),
                *self == *old(self),
                *scope == *old(scope),
                old(self).sg.wf(),
                forall|k: int|
                    args_len <= k < c && k < params@.len() ==> (#[trigger] params@[k]).default_value
                        is Some,
            decreases params@.len() - c,
        {
            if params[c].default_value.is_none() {
                return Err(EvalError::WrongArity {
                    function: func_name.to_owned(),
                    expected: ExpectedArity::between(required, params.len()),
                    actual: args_len,
                });
            }
            c = c + 1;
        }
        if fuel == 0 {
            return Err(EvalError::BudgetExhausted);
        }
        let mut arg_iter = args.0;
        let mut next: usize = 0;
        // First pass: compute every binding without touching the scope.
        let mut bindings: Vec<(String, Value)> = Vec::new();
        let mut i: usize = 0;
        while i < params.len()
            invariant
                old(self).sg.wf(),
                self.sg.wf(),
                evolves_to(&*old(self), &*self),
                next <= arg_iter@.len(),
                fuel >= 1,
                args_len == arg_iter@.len(),
                required == spec_required_count(params@),
                i <= params@.len(),
                bindings@.len() == i,
                *scope == *old(scope),
                forall|k: int|
                    args_len <= k < params@.len() ==> (#[trigger] params@[k]).default_value
                        is Some,
                args_len == args.0@.len(),
                arg_iter@ == args.0@,
                next == (if i <= args_len {
                    i
                } else {
                    args_len
                }),
                forall|k: int| 0 <= k < i ==> (#[trigger] bindings@[k]).0@ == params@[k].name@,
                forall|k: int|
                    0 <= k < i && k < args.0@.len() ==> (#[trigger] bindings@[k]).1 == args.0@[k],
            decreases params@.len() - i,
        {
            broadcast use lemma_evolves_to_trans, lemma_sg_evolves_wf, lemma_evolves_to_refl;

            let bound: Value;
            if next < arg_iter.len() {
                bound = arg_iter[next].dup();
                next = next + 1;
            } else {
                match &params[i].default_value {
                    Some(expr) => {
                        bound = match self.eval_expr(&*scope, expr, fuel - 1) {
                            Ok(v) => v,
                            Err(e) => {
                                return Err(e);
                            }
                        };
                    }
                    None => {
                        // Already excluded by the arity check above.
                        return Err(EvalError::WrongArity {
                            function: func_name.to_owned(),
                            expected: ExpectedArity::between(required, params.len()),
                            actual: args_len,
                        });
                    }
                }
            }
            bindings.push((params[i].name.clone(), bound));
            i = i + 1;
        }
        // Second pass: install the bindings.
        let ghost distinct = forall|a: int, b: int|
            0 <= a < b < params@.len() ==> (#[trigger] params@[a]).name@ != (
            #[trigger] params@[b]).name@;
        let mut j: usize = 0;
        while j < bindings.len()
            invariant
                j <= bindings@.len(),
                bindings@.len() == params@.len(),
                scope.locals@.len() <= old(scope).locals@.len() + j,
                distinct == (forall|a: int, b: int|
                    0 <= a < b < params@.len() ==> (#[trigger] params@[a]).name@ != (
                    #[trigger] params@[b]).name@),
                forall|k: int|
                    0 <= k < bindings@.len() && k < args.0@.len() ==> (
                    #[trigger] bindings@[k]).1 == args.0@[k],
                distinct ==> forall|k: int|
                    0 <= k < j ==> (match field_index_of(
                        scope.locals@,
                        (#[trigger] bindings@[k]).0@,
                    ) {
                        Some(fi) => scope.locals@[fi].1 == bindings@[k].1,
                        None => false,
                    }),
                forall|k: int|
                    args.0@.len() <= k < params@.len() ==> (#[trigger] params@[k]).default_value
                        is Some,
                forall|k: int| 0 <= k < bindings@.len() ==> (#[trigger] bindings@[k]).0@
                    == params@[k].name@,
                scope.self_value == old(scope).self_value,
                scope.enclosing_class == old(scope).enclosing_class,
                forall|k: int| 0 <= k < j ==> field_index_of(
                    scope.locals@,
                    (#[trigger] bindings@[k]).0@,
                ) is Some,
            decreases bindings@.len() - j,
        {
            let ghost before_locals = scope.locals@;
            scope.set_local_var(bindings[j].0.as_str(), bindings[j].1.dup());
            proof {
                crate::heap::lemma_field_present_index_entry(
                    before_locals,
                    bindings@[j as int].0@,
                    bindings@[j as int].1,
                    scope.locals@,
                );
                assert forall|k: int| 0 <= k < j implies field_index_of(
                    scope.locals@,
                    (#[trigger] bindings@[k]).0@,
                ) is Some by {
                    crate::heap::lemma_fields_after_set_preserves(
                        before_locals,
                        bindings@[j as int].0@,
                        bindings@[j as int].1,
                        scope.locals@,
                        bindings@[k].0@,
                    );
                }
                if distinct {
                    assert forall|k: int| 0 <= k < j + 1 implies (match field_index_of(
                        scope.locals@,
                        (#[trigger] bindings@[k]).0@,
                    ) {
                        Some(fi) => scope.locals@[fi].1 == bindings@[k].1,
                        None => false,
                    }) by {
                        if k < j {
                            assert(params@[k].name@ != params@[j as int].name@);
                            crate::heap::lemma_fields_after_set_other(
                                before_locals,
                                bindings@[j as int].0@,
                                bindings@[j as int].1,
                                scope.locals@,
                                bindings@[k].0@,
                            );
                        } else {
                            crate::heap::lemma_fields_after_set_written(
                                before_locals,
                                bindings@[j as int].0@,
                                bindings@[j as int].1,
                                scope.locals@,
                            );
                        }
                    }
                }
            }
            j = j + 1;
        }
        proof {
            assert forall|i: int| 0 <= i < params@.len() implies field_index_of(
                scope.locals@,
                (#[trigger] params@[i]).name@,
            ) is Some by {
                assert(bindings@[i].0@ == params@[i].name@);
                assert(field_index_of(scope.locals@, bindings@[i].0@) is Some);
            }
            if distinct {
                assert forall|i: int|
                    0 <= i < args.0@.len() && i < params@.len() implies (match field_index_of(
                    scope.locals@,
                    (#[trigger] params@[i]).name@,
                ) {
                    Some(fi) => scope.locals@[fi].1 == args.0@[i],
                    None => false,
                }) by {
                    assert(bindings@[i].0@ == params@[i].name@);
                    assert(bindings@[i].1 == args.0@[i]);
                }
            }
        }
        Ok(())
    }

    /// Invokes a method in a freshly prepared scope: the receiver
    /// becomes `self`, the owning class's constants come into scope,
    /// arguments are bound, and a propagating error is wrapped with the
    /// callee's name, building a call trace.
    pub fn call_scoped(&mut self, globals: Option<usize>, method: &Method, self_value: Value,
        args: MethodArgs, fuel: u64) -> (r: Result<Value, EvalError>)
        requires
            old(self).sg.wf(),
        ensures
            final(self).sg.wf(),
            evolves_to(&*old(self), &*final(self)),
            // Every propagating error is wrapped with the callee's name,
            // without discarding its cause, building a call trace.
            r matches Err(e) ==> e matches EvalError::ErrorInFunction { function, inner } && (
            method matches Method::Gd(d) ==> function@ == d.name@),
        decreases fuel,
    {
        broadcast use lemma_evolves_to_trans, lemma_sg_evolves_wf, lemma_evolves_to_refl;

        if fuel == 0 {
            let name: String = match method {
                Method::Gd(decl_rc) => decl_rc.name.0.clone(),
                Method::Native(_) => "<native>".to_owned(),
            };
            return Err(EvalError::BudgetExhausted.with_function_context(name));
        }
        match method {
            Method::Gd(decl_rc) => {
                let decl = rc_clone(decl_rc);
                let mut scope = Scope {
                    self_value,
                    locals: Vec::new(),
                    enclosing_class: globals,
                };
                match self.bind_arguments(&mut scope, decl.name.0.as_str(), args, &decl.params,
                    fuel - 1) {
                    Ok(()) => {}
                    Err(e) => {
                        return Err(e.with_function_context(decl.name.0.clone()));
                    }
                }
                let body_result = self.eval_body(&mut scope, &decl.body, fuel - 1);
                match ControlFlow::expect_return_or_null(body_result) {
                    Ok(v) => Ok(v),
                    Err(e) => Err(e.with_function_context(decl.name.0.clone())),
                }
            }
            Method::Native(f) => {
                let out = self.native_dispatch(*f, globals, self_value, args, fuel - 1);
                match out {
                    Ok(v) => Ok(v),
                    Err(e) => Err(e.with_function_context("<native>".to_owned())),
                }
            }
        }
    }

    /// Calls the method `name` on a receiver value, resolving it through
    /// the receiver's class.
    pub fn call_function_on(&mut self, receiver: &Value, name: &str, args: Vec<Value>, fuel: u64)
        -> (r: Result<Value, EvalError>)
        requires
            old(self).sg.wf(),
        ensures
            final(self).sg.wf(),
            evolves_to(&*old(self), &*final(self)),
            // An error is either the failed lookup, as the undefined
            // function by its name, or the callee's failure wrapped
            // with that callee's name, building a call trace.
            fuel >= 1 ==> (r matches Err(e) ==> ({
                ||| (e matches EvalError::UndefinedFunc(n) && n@ == name@)
                ||| (e matches EvalError::ErrorInFunction { function, inner } && (
                match found_method_spec(&old(self).sg, &old(self).heap, *receiver, name@) {
                    Some(m) => m matches Method::Gd(d) ==> function@ == d.name@,
                    None => true,
                }))
            })),
        decreases fuel,
    {
        broadcast use lemma_evolves_to_trans, lemma_sg_evolves_wf, lemma_evolves_to_refl;

        if fuel == 0 {
            return Err(EvalError::BudgetExhausted);
        }
        let sm = match self.get_func(receiver, name) {
            Ok(sm) => sm,
            Err(e) => {
                return Err(e);
            }
        };
        let globals = match sm.owning_class {
            Some(c) => Some(c),
            None => self.get_call_target(receiver),
        };
        self.call_scoped(globals, &sm.method, receiver.dup(), MethodArgs(args), fuel - 1)
    }

    /// Calls the method `name` on a class: `new` always routes to the
    /// synthesized constructor.
    pub fn call_function_on_class(&mut self, cid: usize, name: &str, args: Vec<Value>, fuel: u64)
        -> (r: Result<Value, EvalError>)
        requires
            old(self).sg.wf(),
            cid < old(self).sg.classes@.len(),
        ensures
            final(self).sg.wf(),
            evolves_to(&*old(self), &*final(self)),
            // `new` always routes to the synthesized constructor; any
            // other name is resolved along the parent chain, and a
            // missing method is exactly the undefined-function error.
            fuel >= 1 && name@ != "new"@ && lookup_method_spec(
                old(self).sg.classes@,
                cid as int,
                name@,
            ) is None ==> (r matches Err(EvalError::UndefinedFunc(n)) && n@ == name@),
        decreases fuel,
    {
        broadcast use lemma_evolves_to_trans, lemma_sg_evolves_wf, lemma_evolves_to_refl;

        if fuel == 0 {
            return Err(EvalError::BudgetExhausted);
        }
        let method: Method = if crate::text::str_eq(name, "new") {
            Method::Native(NativeFn::Constructor)
        } else {
            match find_method(&self.sg.classes, cid, name) {
                Some(pair) => pair.0,
                None => {
                    return Err(EvalError::UndefinedFunc(name.to_owned()));
                }
            }
        };
        self.call_scoped(Some(cid), &method, Value::ClassRef(cid), args_of(args), fuel - 1)
    }

    /// Invokes a callable value: a bound method calls its method on its
    /// receiver, a lambda runs its body in the captured scope, a partial
    /// application prepends its bound arguments.
    pub fn call_value(&mut self, callee: &Value, args: Vec<Value>, fuel: u64) -> (r: Result<
        Value,
        EvalError,
    >)
        requires
            old(self).sg.wf(),
        ensures
            final(self).sg.wf(),
            evolves_to(&*old(self), &*final(self)),
        decreases fuel,
    {
        broadcast use lemma_evolves_to_trans, lemma_sg_evolves_wf, lemma_evolves_to_refl;

        if fuel == 0 {
            return Err(EvalError::BudgetExhausted);
        }
        match callee {
            Value::BoundMethod(id) => {
                if *id >= self.heap.bound_methods.len() {
                    return Err(EvalError::DomainError("dangling method reference".to_owned()));
                }
                let receiver = self.heap.bound_methods[*id].receiver.dup();
                let method = self.heap.bound_methods[*id].method.dup();
                let owner = self.heap.bound_methods[*id].owning_class;
                let globals = match owner {
                    Some(c) => Some(c),
                    None => self.get_call_target(&receiver),
                };
                self.call_scoped(globals, &method, receiver, args_of(args), fuel - 1)
            }
            Value::Lambda(id) => {
                if *id >= self.heap.lambdas.len() {
                    return Err(EvalError::DomainError("dangling lambda reference".to_owned()));
                }
                let lambda = rc_clone(&self.heap.lambdas[*id].lambda);
                let captured_self = self.heap.lambdas[*id].captured_self.dup();
                let locals = dup_locals(&self.heap.lambdas[*id].captured_locals);
                let enclosing = self.heap.lambdas[*id].enclosing_class;
                let mut scope = Scope {
                    self_value: captured_self,
                    locals,
                    enclosing_class: enclosing,
                };
                match self.bind_arguments(&mut scope, "<lambda>", args_of(args), &lambda.params,
                    fuel - 1) {
                    Ok(()) => {}
                    Err(e) => {
                        return Err(e);
                    }
                }
                let body_result = self.eval_body(&mut scope, &lambda.body, fuel - 1);
                ControlFlow::expect_return_or_null(body_result)
            }
            Value::CallableWithBindings(id) => {
                if *id >= self.heap.callables.len() {
                    return Err(EvalError::DomainError("dangling callable reference".to_owned()));
                }
                let inner = self.heap.callables[*id].inner.dup();
                let mut bound = dup_values(&self.heap.callables[*id].bound);
                // The call's own arguments come first; the bound ones
                // follow them.
                let mut all = args;
                all.append(&mut bound);
                self.call_value(&inner, all, fuel - 1)
            }
            other => Err(EvalError::CannotCallValue(kind_name(other).to_owned())),
        }
    }

    /// Runs one of the native built-in operations.
    pub fn native_dispatch(&mut self, f: NativeFn, globals: Option<usize>, self_value: Value,
        args: MethodArgs, fuel: u64) -> (r: Result<Value, EvalError>)
        requires
            old(self).sg.wf(),
        ensures
            final(self).sg.wf(),
            evolves_to(&*old(self), &*final(self)),
            match f {
                // Subscript reads wrap negative indices Python-style,
                // refuse out-of-range ones with the raw index, and look
                // dictionary keys up by value, all without mutating.
                NativeFn::GetItem => fuel >= 1 ==> ({
                    &&& (match self_value {
                        Value::ArrayRef(a) => (a < old(self).heap.arrays@.len() && old(self).heap.arrays@[a as int]@.len() <= 0x7fff_ffff_ffff_ffff && args.0@.len()
                            == 1) ==> ({
                            let n = old(self).heap.arrays@[a as int]@.len() as int;
                            match args.0@[0] {
                                Value::Int(raw) => ({
                                    &&& (0 <= raw < n ==> r == Ok::<Value, EvalError>(
                                        old(self).heap.arrays@[a as int]@[raw as int],
                                    ) && *final(self) == *old(self))
                                    &&& (-n <= raw < 0 ==> r == Ok::<Value, EvalError>(
                                        old(self).heap.arrays@[a as int]@[raw + n],
                                    ) && *final(self) == *old(self))
                                    &&& ((raw < -n || raw >= n) ==> r == Err::<Value, EvalError>(
                                        EvalError::IndexOutOfBounds(raw),
                                    ) && *final(self) == *old(self))
                                }),
                                _ => r is Err && *final(self) == *old(self),
                            }
                        }),
                        Value::DictRef(d) => (d < old(self).heap.dicts@.len() && args.0@.len()
                            == 1) ==> (match args.0@[0].spec_as_key() {
                            Some(k) => (match crate::heap::dict_index_of(
                                old(self).heap.dicts@[d as int]@,
                                k,
                            ) {
                                Some(i) => r == Ok::<Value, EvalError>(
                                    old(self).heap.dicts@[d as int]@[i].1,
                                ) && *final(self) == *old(self),
                                None => r matches Err(EvalError::DomainError(_)) && *final(self)
                                    == *old(self),
                            }),
                            None => r matches Err(EvalError::InvalidHashKey(_)) && *final(self)
                                == *old(self),
                        }),
                        _ => true,
                    })
                }),
                // `duplicate` picks the copy by its optional Boolean
                // argument: deep on true, shallow otherwise.
                NativeFn::Duplicate => fuel >= 1 ==> ({
                    &&& (args.0@.len() > 1 ==> (r matches Err(EvalError::WrongArity { .. })
                        && *final(self) == *old(self)))
                    &&& (args.0@.len() == 1 && !(args.0@[0] matches Value::Bool(_)) ==> (r matches
                        Err(EvalError::TypeError { .. }) && *final(self) == *old(self)))
                    &&& (args.0@.len() == 1 && args.0@[0] == Value::Bool(true) ==> (r matches Ok(c)
                        ==> deep_congruent(
                        &old(self).heap,
                        self_value,
                        &final(self).heap,
                        c,
                        (fuel - 1) as nat,
                    ) && deep_fresh(
                        &final(self).heap,
                        c,
                        old(self).heap.arrays@.len() as int,
                        old(self).heap.dicts@.len() as int,
                        (fuel - 1) as nat,
                    )))
                    &&& ((args.0@.len() == 0 || (args.0@.len() == 1 && args.0@[0] == Value::Bool(
                        false,
                    ))) ==> (r matches Ok(c) ==> (match self_value {
                        Value::ArrayRef(a) => a < old(self).heap.arrays@.len() ==> c
                            == Value::ArrayRef(old(self).heap.arrays@.len() as usize) && final(self).heap.arrays@.last()@ == old(self).heap.arrays@[a as int]@,
                        Value::DictRef(d) => d < old(self).heap.dicts@.len() ==> c
                            == Value::DictRef(old(self).heap.dicts@.len() as usize) && final(self).heap.dicts@.last()@ == old(self).heap.dicts@[d as int]@,
                        _ => c == self_value,
                    })))
                }),
                NativeFn::Size => r matches Ok(n) ==> *final(self) == *old(self) && (
                match self_value {
                    Value::ArrayRef(a) => a < old(self).heap.arrays@.len() && n == Value::Int(
                        old(self).heap.arrays@[a as int]@.len() as i64,
                    ),
                    Value::DictRef(d) => d < old(self).heap.dicts@.len() && n == Value::Int(
                        old(self).heap.dicts@[d as int]@.len() as i64,
                    ),
                    _ => false,
                }),
                NativeFn::PushBack => r matches Ok(v) ==> v == Value::Null && args.0@.len() == 1
                    && (match self_value {
                    Value::ArrayRef(a) => ({
                        &&& a < old(self).heap.arrays@.len()
                        &&& final(self).heap.arrays@[a as int]@ == old(self).heap.arrays@[
                            a as int
                        ]@.push(args.0@[0])
                        &&& forall|j: int|
                            0 <= j < old(self).heap.arrays@.len() && j != a ==> final(self).heap.arrays@[j] == old(self).heap.arrays@[j]
                        &&& final(self).heap.dicts@ == old(self).heap.dicts@
                        &&& final(self).sg == old(self).sg
                    }),
                    _ => false,
                }),
                NativeFn::MiniFn => r matches Ok(v) ==> *final(self) == *old(self)
                    && args.0@.len() == 2 && (match (args.0@[0], args.0@[1]) {
                    (Value::Int(a), Value::Int(b)) => v == Value::Int(
                        if a < b {
                            a
                        } else {
                            b
                        },
                    ),
                    _ => false,
                }),
                NativeFn::MaxiFn => r matches Ok(v) ==> *final(self) == *old(self)
                    && args.0@.len() == 2 && (match (args.0@[0], args.0@[1]) {
                    (Value::Int(a), Value::Int(b)) => v == Value::Int(
                        if a > b {
                            a
                        } else {
                            b
                        },
                    ),
                    _ => false,
                }),
                NativeFn::Noop => fuel >= 1 ==> (r matches Ok(v) && v == Value::Null && *final(self) == *old(self)),
                NativeFn::StaticNoop => fuel >= 1 ==> (r matches Ok(v) && v == Value::Null
                    && *final(self) == *old(self)),
                _ => true,
            },
        decreases fuel,
    {
        broadcast use lemma_evolves_to_trans, lemma_sg_evolves_wf, lemma_evolves_to_refl;

        if fuel == 0 {
            return Err(EvalError::BudgetExhausted);
        }
        match f {
            NativeFn::Constructor => {
                let cid = match self_value {
                    Value::ClassRef(c) => c,
                    other => {
                        return Err(
                            EvalError::type_error("class".to_owned(), kind_name(&other).to_owned()),
                        );
                    }
                };
                if cid >= self.sg.classes.len() {
                    return Err(EvalError::DomainError("dangling class reference".to_owned()));
                }
                let ivars = rc_clone(&self.sg.classes[cid].instance_vars);
                let oid = self.heap.alloc_object(cid);
                let obj_val = Value::ObjectRef(oid);
                let mut i: usize = 0;
                while i < ivars.len()
                    invariant
                        f == NativeFn::Constructor,
                        old(self).sg.wf(),
                        self.sg.wf(),
                        evolves_to(&*old(self), &*self),
                        fuel >= 1,
                    decreases ivars@.len() - i,
                {
                    broadcast use lemma_evolves_to_trans, lemma_sg_evolves_wf,
                        lemma_evolves_to_refl;

                    // The initializer runs in the freshly made instance's
                    // own scope, a documented historical inaccuracy that
                    // dependent scripts may rely on.
                    let scope = Scope {
                        self_value: obj_val.dup(),
                        locals: Vec::new(),
                        enclosing_class: Some(cid),
                    };
                    let init_val = match self.eval_expr(&scope, &ivars[i].initial_value, fuel - 1) {
                        Ok(v) => v,
                        Err(e) => {
                            return Err(e);
                        }
                    };
                    match self.set_value(&obj_val, ivars[i].name.0.as_str(), init_val, fuel - 1) {
                        Ok(()) => {}
                        Err(e) => {
                            return Err(e);
                        }
                    }
                    i = i + 1;
                }
                if let Some(pair) = find_method(&self.sg.classes, cid, "_init") {
                    match self.call_scoped(Some(pair.1), &pair.0, obj_val.dup(), args, fuel - 1) {
                        Ok(_) => {}
                        Err(e) => {
                            return Err(e);
                        }
                    }
                }
                Ok(obj_val)
            }
            NativeFn::GetItem => {
                let index = match args.expect_one_arg("__getitem__") {
                    Ok(v) => v,
                    Err(e) => {
                        return Err(e);
                    }
                };
                match self_value {
                    Value::ArrayRef(a) => {
                        let n = match self.heap.array_len(a) {
                            Ok(n) => n,
                            Err(e) => {
                                return Err(e);
                            }
                        };
                        let raw = match index {
                            Value::Int(i) => i,
                            other => {
                                return Err(
                                    EvalError::type_error(
                                        "integer".to_owned(),
                                        kind_name(&other).to_owned(),
                                    ),
                                );
                            }
                        };
                        if (n as u64) > 0x7fff_ffff_ffff_ffffu64 {
                            return Err(EvalError::IndexOutOfBounds(raw));
                        }
                        let idx = if raw < 0 {
                            raw + n as i64
                        } else {
                            raw
                        };
                        if idx < 0 || idx >= n as i64 {
                            return Err(EvalError::IndexOutOfBounds(raw));
                        }
                        self.heap.array_get(a, idx as usize)
                    }
                    Value::DictRef(d) => {
                        let key = match index.as_key() {
                            Ok(k) => k,
                            Err(e) => {
                                return Err(EvalError::InvalidHashKey(e));
                            }
                        };
                        match self.heap.dict_get(d, &key) {
                            Ok(Some(v)) => Ok(v),
                            Ok(None) => Err(
                                EvalError::DomainError("missing dictionary key".to_owned()),
                            ),
                            Err(e) => Err(e),
                        }
                    }
                    other => Err(
                        EvalError::type_error(
                            "array or dictionary".to_owned(),
                            kind_name(&other).to_owned(),
                        ),
                    ),
                }
            }
            NativeFn::Size => {
                match args.expect_arity(0, "size") {
                    Ok(()) => {}
                    Err(e) => {
                        return Err(e);
                    }
                }
                let n = match self_value {
                    Value::ArrayRef(a) => match self.heap.array_len(a) {
                        Ok(n) => n,
                        Err(e) => {
                            return Err(e);
                        }
                    },
                    Value::DictRef(d) => match self.heap.dict_len(d) {
                        Ok(n) => n,
                        Err(e) => {
                            return Err(e);
                        }
                    },
                    other => {
                        return Err(
                            EvalError::type_error(
                                "array or dictionary".to_owned(),
                                kind_name(&other).to_owned(),
                            ),
                        );
                    }
                };
                if (n as u64) > 0x7fff_ffff_ffff_ffffu64 {
                    return Err(EvalError::DomainError("container too large".to_owned()));
                }
                Ok(Value::Int(n as i64))
            }
            NativeFn::PushBack => {
                let item = match args.expect_one_arg("push_back") {
                    Ok(v) => v,
                    Err(e) => {
                        return Err(e);
                    }
                };
                match self_value {
                    Value::ArrayRef(a) => {
                        match self.heap.array_push(a, item) {
                            Ok(()) => Ok(Value::Null),
                            Err(e) => Err(e),
                        }
                    }
                    other => Err(
                        EvalError::type_error("array".to_owned(), kind_name(&other).to_owned()),
                    ),
                }
            }
            NativeFn::DictKeys => {
                match self_value {
                    Value::DictRef(d) => {
                        let keys = match self.heap.dict_keys(d) {
                            Ok(s) => s,
                            Err(e) => {
                                return Err(e);
                            }
                        };
                        let id = self.heap.alloc_array(keys);
                        Ok(Value::ArrayRef(id))
                    }
                    other => Err(
                        EvalError::type_error(
                            "dictionary".to_owned(),
                            kind_name(&other).to_owned(),
                        ),
                    ),
                }
            }
            NativeFn::DictValues => {
                match self_value {
                    Value::DictRef(d) => {
                        let values = match self.heap.dict_values(d) {
                            Ok(s) => s,
                            Err(e) => {
                                return Err(e);
                            }
                        };
                        let id = self.heap.alloc_array(values);
                        Ok(Value::ArrayRef(id))
                    }
                    other => Err(
                        EvalError::type_error(
                            "dictionary".to_owned(),
                            kind_name(&other).to_owned(),
                        ),
                    ),
                }
            }
            NativeFn::Duplicate => {
                match args.expect_arity_within(0, 1, "duplicate") {
                    Ok(()) => {}
                    Err(e) => {
                        return Err(e);
                    }
                }
                let deep = if args.0.len() == 1 {
                    match &args.0[0] {
                        Value::Bool(b) => *b,
                        other => {
                            return Err(
                                EvalError::type_error(
                                    "Boolean".to_owned(),
                                    kind_name(other).to_owned(),
                                ),
                            );
                        }
                    }
                } else {
                    false
                };
                if deep {
                    self.deep_copy(&self_value, fuel - 1)
                } else {
                    Ok(self.shallow_copy(&self_value))
                }
            }
            NativeFn::MapFn => {
                let callable = match args.expect_one_arg("map") {
                    Ok(v) => v,
                    Err(e) => {
                        return Err(e);
                    }
                };
                let elems = match self.iterable_array(&self_value) {
                    Ok(s) => s,
                    Err(e) => {
                        return Err(e);
                    }
                };
                let mut out: Vec<Value> = Vec::new();
                let mut i: usize = 0;
                while i < elems.len()
                    invariant
                        f == NativeFn::MapFn,
                        old(self).sg.wf(),
                        self.sg.wf(),
                        evolves_to(&*old(self), &*self),
                        fuel >= 1,
                    decreases elems@.len() - i,
                {
                    broadcast use lemma_evolves_to_trans, lemma_sg_evolves_wf,
                        lemma_evolves_to_refl;

                    let mut one: Vec<Value> = Vec::new();
                    one.push(elems[i].dup());
                    match self.call_value(&callable, one, fuel - 1) {
                        Ok(v) => {
                            out.push(v);
                        }
                        Err(e) => {
                            return Err(e);
                        }
                    }
                    i = i + 1;
                }
                let id = self.heap.alloc_array(out);
                Ok(Value::ArrayRef(id))
            }
            NativeFn::FilterFn => {
                let callable = match args.expect_one_arg("filter") {
                    Ok(v) => v,
                    Err(e) => {
                        return Err(e);
                    }
                };
                let elems = match self.iterable_array(&self_value) {
                    Ok(s) => s,
                    Err(e) => {
                        return Err(e);
                    }
                };
                let mut out: Vec<Value> = Vec::new();
                let mut i: usize = 0;
                while i < elems.len()
                    invariant
                        f == NativeFn::FilterFn,
                        old(self).sg.wf(),
                        self.sg.wf(),
                        evolves_to(&*old(self), &*self),
                        fuel >= 1,
                    decreases elems@.len() - i,
                {
                    broadcast use lemma_evolves_to_trans, lemma_sg_evolves_wf,
                        lemma_evolves_to_refl;

                    let mut one: Vec<Value> = Vec::new();
                    one.push(elems[i].dup());
                    match self.call_value(&callable, one, fuel - 1) {
                        Ok(v) => {
                            if v.as_bool() {
                                out.push(elems[i].dup());
                            }
                        }
                        Err(e) => {
                            return Err(e);
                        }
                    }
                    i = i + 1;
                }
                let id = self.heap.alloc_array(out);
                Ok(Value::ArrayRef(id))
            }
            NativeFn::ReduceFn => {
                match args.expect_arity_within(1, 2, "reduce") {
                    Ok(()) => {}
                    Err(e) => {
                        return Err(e);
                    }
                }
                let callable = args.0[0].dup();
                let mut accum: Value = if args.0.len() == 2 {
                    args.0[1].dup()
                } else {
                    Value::Null
                };
                let elems = match self.iterable_array(&self_value) {
                    Ok(s) => s,
                    Err(e) => {
                        return Err(e);
                    }
                };
                let mut i: usize = 0;
                if accum.is_null() {
                    if elems.len() == 0 {
                        return Err(
                            EvalError::DomainError("cannot reduce an empty array".to_owned()),
                        );
                    }
                    accum = elems[0].dup();
                    i = 1;
                }
                while i < elems.len()
                    invariant
                        f == NativeFn::ReduceFn,
                        old(self).sg.wf(),
                        self.sg.wf(),
                        evolves_to(&*old(self), &*self),
                        fuel >= 1,
                    decreases elems@.len() - i,
                {
                    broadcast use lemma_evolves_to_trans, lemma_sg_evolves_wf,
                        lemma_evolves_to_refl;

                    let mut two: Vec<Value> = Vec::new();
                    two.push(accum);
                    two.push(elems[i].dup());
                    accum = match self.call_value(&callable, two, fuel - 1) {
                        Ok(v) => v,
                        Err(e) => {
                            return Err(e);
                        }
                    };
                    i = i + 1;
                }
                Ok(accum)
            }
            NativeFn::SortCustom => {
                let callable = match args.expect_one_arg("sort_custom") {
                    Ok(v) => v,
                    Err(e) => {
                        return Err(e);
                    }
                };
                let aid = match self_value {
                    Value::ArrayRef(a) => a,
                    other => {
                        return Err(
                            EvalError::type_error("array".to_owned(), kind_name(&other).to_owned()),
                        );
                    }
                };
                let mut elems = match self.heap.array_snapshot(aid) {
                    Ok(s) => s,
                    Err(e) => {
                        return Err(e);
                    }
                };
                // An insertion sort driven by the scripted comparator: a
                // truthy answer to (a, b) means a sorts below b.
                let n = elems.len();
                let mut i: usize = 1;
                while i < n
                    invariant
                        f == NativeFn::SortCustom,
                        old(self).sg.wf(),
                        self.sg.wf(),
                        evolves_to(&*old(self), &*self),
                        fuel >= 1,
                        n == elems@.len(),
                    decreases n - i,
                {
                    broadcast use lemma_evolves_to_trans, lemma_sg_evolves_wf,
                        lemma_evolves_to_refl;

                    let mut j: usize = i;
                    while j > 0
                        invariant
                            f == NativeFn::SortCustom,
                            old(self).sg.wf(),
                            self.sg.wf(),
                            evolves_to(&*old(self), &*self),
                            fuel >= 1,
                            j <= i < n == elems@.len(),
                        decreases j,
                    {
                        broadcast use lemma_evolves_to_trans, lemma_sg_evolves_wf,
                            lemma_evolves_to_refl;

                        let mut two: Vec<Value> = Vec::new();
                        two.push(elems[j].dup());
                        two.push(elems[j - 1].dup());
                        let verdict = match self.call_value(&callable, two, fuel - 1) {
                            Ok(v) => v,
                            Err(e) => {
                                return Err(e);
                            }
                        };
                        if !verdict.as_bool() {
                            break;
                        }
                        crate::util::swap_elems(&mut elems, j - 1, j);
                        j = j - 1;
                    }
                    i = i + 1;
                }
                match self.heap.array_replace(aid, elems) {
                    Ok(()) => Ok(Value::Null),
                    Err(e) => Err(e),
                }
            }
            NativeFn::CallableCall => self.call_value(&self_value, args.0, fuel - 1),
            NativeFn::CallableBind => {
                let id = self.heap.alloc_callable(
                    CallableBindings { inner: self_value, bound: args.0 },
                );
                Ok(Value::CallableWithBindings(id))
            }
            NativeFn::Randi => {
                match args.expect_arity(0, "randi") {
                    Ok(()) => {}
                    Err(e) => {
                        return Err(e);
                    }
                }
                // The engine's integer draw is 32-bit.
                let word = self.rng.next_u32();
                let signed = #[verifier::truncate] (word as i32);
                Ok(Value::Int(signed as i64))
            }
            NativeFn::RandiRange => {
                match args.expect_arity(2, "randi_range") {
                    Ok(()) => {}
                    Err(e) => {
                        return Err(e);
                    }
                }
                let lo = match &args.0[0] {
                    Value::Int(i) => *i,
                    other => {
                        return Err(
                            EvalError::type_error(
                                "integer".to_owned(),
                                kind_name(other).to_owned(),
                            ),
                        );
                    }
                };
                let hi = match &args.0[1] {
                    Value::Int(i) => *i,
                    other => {
                        return Err(
                            EvalError::type_error(
                                "integer".to_owned(),
                                kind_name(other).to_owned(),
                            ),
                        );
                    }
                };
                if lo > hi {
                    return Err(EvalError::DomainError("empty range".to_owned()));
                }
                Ok(Value::Int(self.rng.randi_range(lo, hi)))
            }
            NativeFn::Choose => {
                let arr = match args.expect_one_arg("choose") {
                    Ok(v) => v,
                    Err(e) => {
                        return Err(e);
                    }
                };
                let elems = match self.iterable_array(&arr) {
                    Ok(s) => s,
                    Err(e) => {
                        return Err(e);
                    }
                };
                if elems.len() == 0 {
                    return Err(
                        EvalError::DomainError("cannot choose from an empty array".to_owned()),
                    );
                }
                if (elems.len() as u64) > 0x7fff_ffff_ffff_ffffu64 {
                    return Err(EvalError::DomainError("container too large".to_owned()));
                }
                let idx = self.rng.randi_range(0, elems.len() as i64 - 1);
                Ok(elems[idx as usize].dup())
            }
            NativeFn::Shuffle => {
                match args.expect_arity(0, "shuffle") {
                    Ok(()) => {}
                    Err(e) => {
                        return Err(e);
                    }
                }
                let aid = match self_value {
                    Value::ArrayRef(a) => a,
                    other => {
                        return Err(
                            EvalError::type_error("array".to_owned(), kind_name(&other).to_owned()),
                        );
                    }
                };
                let mut elems = match self.heap.array_snapshot(aid) {
                    Ok(s) => s,
                    Err(e) => {
                        return Err(e);
                    }
                };
                if (elems.len() as u64) > 0x7fff_ffff_ffff_ffffu64 {
                    return Err(EvalError::DomainError("container too large".to_owned()));
                }
                let ghost before = elems@;
                // A seeded shuffle: a permutation drawn deterministically
                // from the random stream.
                let mut i = elems.len();
                while i > 1
                    invariant
                        f == NativeFn::Shuffle,
                        i <= elems@.len() == before.len(),
                        elems@.len() <= 0x7fff_ffff_ffff_ffff,
                        elems@.to_multiset() == before.to_multiset(),
                        self.sg == old(self).sg,
                        self.heap == old(self).heap,
                        old(self).sg.wf(),
                    decreases i,
                {
                    i = i - 1;
                    let j = self.rng.randi_range(0, i as i64);
                    proof {
                        crate::util::lemma_swap_multiset(elems@, j as int, i as int);
                    }
                    crate::util::swap_elems(&mut elems, j as usize, i);
                }
                match self.heap.array_replace(aid, elems) {
                    Ok(()) => Ok(Value::Null),
                    Err(e) => Err(e),
                }
            }
            NativeFn::UnimplementedStub => Err(
                EvalError::UnimplementedMethod("method intentionally unimplemented".to_owned()),
            ),
            NativeFn::Preload => {
                let path = match args.expect_one_arg("preload") {
                    Ok(Value::Str(s)) => s,
                    Ok(other) => {
                        return Err(
                            EvalError::type_error(
                                "string".to_owned(),
                                kind_name(&other).to_owned(),
                            ),
                        );
                    }
                    Err(e) => {
                        return Err(e);
                    }
                };
                match self.sg.get_file(path.as_str()) {
                    Some(c) => Ok(Value::ClassRef(c)),
                    None => Err(EvalError::UndefinedClass(path)),
                }
            }
            NativeFn::LenFn => {
                let arg = match args.expect_one_arg("len") {
                    Ok(v) => v,
                    Err(e) => {
                        return Err(e);
                    }
                };
                let n: usize = match &arg {
                    Value::ArrayRef(a) => match self.heap.array_len(*a) {
                        Ok(n) => n,
                        Err(e) => {
                            return Err(e);
                        }
                    },
                    Value::DictRef(d) => match self.heap.dict_len(*d) {
                        Ok(n) => n,
                        Err(e) => {
                            return Err(e);
                        }
                    },
                    Value::Str(s) => s.as_str().as_bytes().len(),
                    other => {
                        return Err(
                            EvalError::type_error(
                                "array, string, or dict".to_owned(),
                                kind_name(other).to_owned(),
                            ),
                        );
                    }
                };
                if (n as u64) > 0x7fff_ffff_ffff_ffffu64 {
                    return Err(EvalError::DomainError("container too large".to_owned()));
                }
                Ok(Value::Int(n as i64))
            }
            NativeFn::RangeFn => {
                match args.expect_arity_within(1, 3, "range") {
                    Ok(()) => {}
                    Err(e) => {
                        return Err(e);
                    }
                }
                let mut bounds: Vec<i64> = Vec::new();
                let mut k: usize = 0;
                while k < args.0.len()
                    invariant
                        f == NativeFn::RangeFn,
                        k <= args.0@.len(),
                        old(self).sg.wf(),
                        self.sg.wf(),
                        evolves_to(&*old(self), &*self),
                    decreases args.0@.len() - k,
                {
                    match &args.0[k] {
                        Value::Int(n) => {
                            bounds.push(*n);
                        }
                        other => {
                            return Err(
                                EvalError::type_error(
                                    "integer".to_owned(),
                                    kind_name(other).to_owned(),
                                ),
                            );
                        }
                    }
                    k = k + 1;
                }
                let (begin, end, step): (i64, i64, i64) = if bounds.len() == 1 {
                    (0, bounds[0], 1)
                } else if bounds.len() == 2 {
                    (bounds[0], bounds[1], 1)
                } else if bounds.len() == 3 {
                    (bounds[0], bounds[1], bounds[2])
                } else {
                    return Err(EvalError::DomainError("bad range arity".to_owned()));
                };
                if step == 0 {
                    return Err(EvalError::DomainError("step argument cannot be zero".to_owned()));
                }
                let mut out: Vec<Value> = Vec::new();
                let mut cur: i128 = begin as i128;
                let target: i128 = end as i128;
                let stride: i128 = step as i128;
                if step > 0 {
                    while cur < target
                        invariant
                            f == NativeFn::RangeFn,
                            1 <= stride <= 0x7fff_ffff_ffff_ffffi128,
                            -0x8000_0000_0000_0000i128 <= cur,
                            cur <= target + stride || cur == begin as i128,
                            cur <= 0x7fff_ffff_ffff_ffffi128 + 0x7fff_ffff_ffff_ffffi128,
                            -0x8000_0000_0000_0000i128 <= target <= 0x7fff_ffff_ffff_ffffi128,
                        decreases target + stride - cur,
                    {
                        out.push(Value::Int(cur as i64));
                        cur = cur + stride;
                    }
                } else {
                    while cur > target
                        invariant
                            f == NativeFn::RangeFn,
                            -0x8000_0000_0000_0000i128 <= stride <= -1,
                            cur <= 0x7fff_ffff_ffff_ffffi128,
                            cur >= target + stride || cur == begin as i128,
                            cur >= -0x8000_0000_0000_0000i128 - 0x8000_0000_0000_0000i128,
                            -0x8000_0000_0000_0000i128 <= target <= 0x7fff_ffff_ffff_ffffi128,
                        decreases cur - target - stride,
                    {
                        out.push(Value::Int(cur as i64));
                        cur = cur + stride;
                    }
                }
                let id = self.heap.alloc_array(out);
                Ok(Value::ArrayRef(id))
            }
            NativeFn::PrintFn => Ok(Value::Null),
            NativeFn::ClampiFn => {
                match args.expect_arity(3, "clampi") {
                    Ok(()) => {}
                    Err(e) => {
                        return Err(e);
                    }
                }
                let mut ns: Vec<i64> = Vec::new();
                let mut k: usize = 0;
                while k < 3
                    invariant
                        f == NativeFn::ClampiFn,
                        k <= 3 <= args.0@.len(),
                        old(self).sg.wf(),
                        self.sg.wf(),
                        evolves_to(&*old(self), &*self),
                    decreases 3 - k,
                {
                    match &args.0[k] {
                        Value::Int(n) => {
                            ns.push(*n);
                        }
                        other => {
                            return Err(
                                EvalError::type_error(
                                    "integer".to_owned(),
                                    kind_name(other).to_owned(),
                                ),
                            );
                        }
                    }
                    k = k + 1;
                }
                if ns.len() == 3 {
                    Ok(Value::Int(crate::util::clamp(ns[0], ns[1], ns[2])))
                } else {
                    Err(EvalError::DomainError("bad clamp arity".to_owned()))
                }
            }
            NativeFn::MiniFn => {
                match args.expect_arity(2, "mini") {
                    Ok(()) => {}
                    Err(e) => {
                        return Err(e);
                    }
                }
                match (&args.0[0], &args.0[1]) {
                    (Value::Int(a), Value::Int(b)) => Ok(Value::Int(if a < b {
                        *a
                    } else {
                        *b
                    })),
                    _ => Err(EvalError::type_error("integer".to_owned(), "value".to_owned())),
                }
            }
            NativeFn::MaxiFn => {
                match args.expect_arity(2, "maxi") {
                    Ok(()) => {}
                    Err(e) => {
                        return Err(e);
                    }
                }
                match (&args.0[0], &args.0[1]) {
                    (Value::Int(a), Value::Int(b)) => Ok(Value::Int(if a > b {
                        *a
                    } else {
                        *b
                    })),
                    _ => Err(EvalError::type_error("integer".to_owned(), "value".to_owned())),
                }
            }
            NativeFn::SelectDeck => self.select_player_field(
                &self_value,
                args,
                "__evilconsim_deck_bottom",
                "__evilconsim_deck_top",
                fuel - 1,
            ),
            NativeFn::SelectDiscard => self.select_player_field(
                &self_value,
                args,
                "__evilconsim_discardpile_bottom",
                "__evilconsim_discardpile_top",
                fuel - 1,
            ),
            NativeFn::SelectHand => self.select_player_field(
                &self_value,
                args,
                "__evilconsim_hand_bottom",
                "__evilconsim_hand_top",
                fuel - 1,
            ),
            NativeFn::SelectMinions => self.select_player_field(
                &self_value,
                args,
                "__evilconsim_minionstrip_bottom",
                "__evilconsim_minionstrip_top",
                fuel - 1,
            ),
            NativeFn::SelectEffects => self.select_player_field(
                &self_value,
                args,
                "__evilconsim_effectstrip_bottom",
                "__evilconsim_effectstrip_top",
                fuel - 1,
            ),
            NativeFn::SelectStats => self.select_player_field(
                &self_value,
                args,
                "__evilconsim_statspanel_bottom",
                "__evilconsim_statspanel_top",
                fuel - 1,
            ),
            NativeFn::EndGame => {
                let winner = match args.expect_one_arg("end_game") {
                    Ok(v) => v,
                    Err(e) => {
                        return Err(e);
                    }
                };
                // Only the first end of the game has any effect.
                let old_value = match self.get_value(
                    &self_value,
                    crate::mocking::ENDGAME_VARIABLE,
                    fuel - 1,
                ) {
                    Ok(v) => v,
                    Err(e) => {
                        return Err(e);
                    }
                };
                if matches!(old_value, Value::Null) {
                    match self.set_value(
                        &self_value,
                        crate::mocking::ENDGAME_VARIABLE,
                        winner,
                        fuel - 1,
                    ) {
                        Ok(()) => {}
                        Err(e) => {
                            return Err(e);
                        }
                    }
                }
                Ok(Value::Null)
            }
            NativeFn::GetViewportRect => {
                // A duck-typed stand-in: an object with a zero size.
                let oid = self.heap.alloc_object(self.sg.builtins.object);
                match self.heap.object_set_field(oid, "size", Value::Int(0)) {
                    Ok(()) => {}
                    Err(e) => {
                        return Err(e);
                    }
                }
                Ok(Value::ObjectRef(oid))
            }
            NativeFn::HandCardsHidden => Ok(Value::Bool(false)),
            NativeFn::CardStripInit => {
                // The playing field instantiates bare strips, so the
                // contained-card-kind argument is optional: a bare strip
                // leaves its container's type unset.
                if args.0.len() == 0 {
                    return Ok(Value::Null);
                }
                let kind = match args.expect_one_arg("_init") {
                    Ok(Value::Str(s)) => s,
                    Ok(other) => {
                        return Err(
                            EvalError::type_error(
                                "string".to_owned(),
                                kind_name(&other).to_owned(),
                            ),
                        );
                    }
                    Err(e) => {
                        return Err(e);
                    }
                };
                let container = match self.get_value(&self_value, "__evilconsim_cards", fuel - 1) {
                    Ok(v) => v,
                    Err(e) => {
                        return Err(e);
                    }
                };
                match self.set_value(&container, "contained_type", Value::Str(kind), fuel - 1) {
                    Ok(()) => Ok(Value::Null),
                    Err(e) => Err(e),
                }
            }
            NativeFn::CardStripCards => {
                match args.expect_arity(0, "cards") {
                    Ok(()) => {}
                    Err(e) => {
                        return Err(e);
                    }
                }
                self.get_value(&self_value, "__evilconsim_cards", fuel - 1)
            }
            NativeFn::PlayFullGame => self.play_full_game_native(args, fuel - 1),
            NativeFn::SetEvilPoints => {
                match self.basic_set_stat("evil_points", args, fuel - 1) {
                    Ok(_) => Ok(Value::Null),
                    Err(e) => Err(e),
                }
            }
            NativeFn::AddEvilPoints => {
                match self.basic_add_stat("evil_points", args, fuel - 1) {
                    Ok(_) => Ok(Value::Null),
                    Err(e) => Err(e),
                }
            }
            NativeFn::SetFortDefense => {
                let (new_value, field, player) = match self.basic_set_stat(
                    "fort_defense",
                    args,
                    fuel - 1,
                ) {
                    Ok(t) => t,
                    Err(e) => {
                        return Err(e);
                    }
                };
                if new_value <= 0 {
                    let winner = match self.other_player(&player) {
                        Ok(w) => w,
                        Err(e) => {
                            return Err(e);
                        }
                    };
                    match self.send_endgame_signal(&field, winner, fuel - 1) {
                        Ok(()) => {}
                        Err(e) => {
                            return Err(e);
                        }
                    }
                }
                Ok(Value::Null)
            }
            NativeFn::AddFortDefense => {
                let (new_value, field, player) = match self.basic_add_stat(
                    "fort_defense",
                    args,
                    fuel - 1,
                ) {
                    Ok(t) => t,
                    Err(e) => {
                        return Err(e);
                    }
                };
                if new_value <= 0 {
                    let winner = match self.other_player(&player) {
                        Ok(w) => w,
                        Err(e) => {
                            return Err(e);
                        }
                    };
                    match self.send_endgame_signal(&field, winner, fuel - 1) {
                        Ok(()) => {}
                        Err(e) => {
                            return Err(e);
                        }
                    }
                }
                Ok(Value::Null)
            }
            NativeFn::SetDestinySong => {
                let (new_value, field, player) = match self.basic_set_stat(
                    "destiny_song",
                    args,
                    fuel - 1,
                ) {
                    Ok(t) => t,
                    Err(e) => {
                        return Err(e);
                    }
                };
                if new_value >= 3 {
                    match self.send_endgame_signal(&field, player, fuel - 1) {
                        Ok(()) => {}
                        Err(e) => {
                            return Err(e);
                        }
                    }
                }
                Ok(Value::Null)
            }
            NativeFn::AddDestinySong => {
                let (new_value, field, player) = match self.basic_add_stat(
                    "destiny_song",
                    args,
                    fuel - 1,
                ) {
                    Ok(t) => t,
                    Err(e) => {
                        return Err(e);
                    }
                };
                if new_value >= 3 {
                    match self.send_endgame_signal(&field, player, fuel - 1) {
                        Ok(()) => {}
                        Err(e) => {
                            return Err(e);
                        }
                    }
                }
                Ok(Value::Null)
            }
            NativeFn::SetLevel => self.card_meta_stat("set_level", "LEVEL", false, false, args,
                fuel - 1),
            NativeFn::AddLevel => self.card_meta_stat("add_level", "LEVEL", true, false, args,
                fuel - 1),
            NativeFn::SetMorale => self.card_meta_stat("set_morale", "MORALE", false, true, args,
                fuel - 1),
            NativeFn::AddMorale => self.card_meta_stat("add_morale", "MORALE", true, true, args,
                fuel - 1),
            NativeFn::CodexGetEntityScript => {
                let id = match args.expect_one_arg("get_entity_script") {
                    Ok(Value::Int(n)) => n,
                    Ok(other) => {
                        return Err(
                            EvalError::type_error(
                                "integer".to_owned(),
                                kind_name(&other).to_owned(),
                            ),
                        );
                    }
                    Err(e) => {
                        return Err(e);
                    }
                };
                if id < 0 || (id as u64) >= (self.sg.codex_cards.len() as u64) {
                    // A missing codex entry resolves to nothing.
                    return Ok(Value::Null);
                }
                let path = self.sg.codex_cards[id as usize].path.clone();
                match self.sg.get_file(path.as_str()) {
                    Some(c) => Ok(Value::ClassRef(c)),
                    None => Err(EvalError::DomainError("card not found in codex".to_owned())),
                }
            }
            NativeFn::CodexGetEntity => {
                let script = match self.native_dispatch(
                    NativeFn::CodexGetEntityScript,
                    globals,
                    self_value,
                    args,
                    fuel - 1,
                ) {
                    Ok(v) => v,
                    Err(e) => {
                        return Err(e);
                    }
                };
                match script {
                    Value::ClassRef(c) => {
                        if c >= self.sg.classes.len() {
                            return Err(
                                EvalError::DomainError("dangling class reference".to_owned()),
                            );
                        }
                        self.call_function_on_class(c, "new", Vec::new(), fuel - 1)
                    }
                    other => Ok(other),
                }
            }
            NativeFn::CodexGetAllIds => {
                let top = self.sg.codex_max_id;
                let mut out: Vec<Value> = Vec::new();
                let mut cur: i64 = 0;
                while cur <= top && cur < i64::MAX
                    invariant
                        f == NativeFn::CodexGetAllIds,
                        0 <= cur,
                        cur <= top + 1 || cur == 0,
                    decreases top - cur + 1,
                {
                    out.push(Value::Int(cur));
                    cur = cur + 1;
                }
                let id = self.heap.alloc_array(out);
                Ok(Value::ArrayRef(id))
            }
            NativeFn::Noop => Ok(Value::Null),
            NativeFn::StaticNoop => Ok(Value::Null),
        }
    }
}

impl EvaluatorState {
    /// The detached contents of an array receiver.
    fn iterable_array(&self, v: &Value) -> (r: Result<Vec<Value>, EvalError>) {
        match v {
            Value::ArrayRef(a) => self.heap.array_snapshot(*a),
            other => Err(
                EvalError::type_error("array".to_owned(), kind_name(other).to_owned()),
            ),
        }
    }
}


impl EvaluatorState {
    /// Reads a superglobal variable as a runtime value.
    pub fn get_global_value(&mut self, name: &str, fuel: u64) -> (r: Result<Value, EvalError>)
        requires
            old(self).sg.wf(),
        ensures
            final(self).sg.wf(),
            evolves_to(&*old(self), &*final(self)),
        decreases fuel,
    {
        broadcast use lemma_evolves_to_trans, lemma_sg_evolves_wf, lemma_evolves_to_refl;

        if fuel == 0 {
            return Err(EvalError::BudgetExhausted);
        }
        match table_find(&self.sg.vars, name) {
            Some(i) => {
                let sv = self.sg.vars[i].1.dup();
                self.simple_to_value(&sv, fuel - 1)
            }
            None => Err(EvalError::UndefinedVariable(name.to_owned())),
        }
    }

    /// Selects one of a pair of per-player fields by the player name.
    fn select_player_field(&mut self, receiver: &Value, args: MethodArgs, bottom: &str, top: &str,
        fuel: u64) -> (r: Result<Value, EvalError>)
        requires
            old(self).sg.wf(),
        ensures
            final(self).sg.wf(),
            evolves_to(&*old(self), &*final(self)),
        decreases fuel,
    {
        broadcast use lemma_evolves_to_trans, lemma_sg_evolves_wf, lemma_evolves_to_refl;

        if fuel == 0 {
            return Err(EvalError::BudgetExhausted);
        }
        let player = match args.expect_one_arg("getter") {
            Ok(Value::Str(s)) => s,
            Ok(other) => {
                return Err(
                    EvalError::type_error("string".to_owned(), kind_name(&other).to_owned()),
                );
            }
            Err(e) => {
                return Err(e);
            }
        };
        if crate::text::str_eq(player.as_str(), "BOTTOM") {
            self.get_value(receiver, bottom, fuel - 1)
        } else if crate::text::str_eq(player.as_str(), "TOP") {
            self.get_value(receiver, top, fuel - 1)
        } else {
            Ok(Value::Null)
        }
    }

    /// The opposite player name.
    fn other_player(&self, player: &Value) -> (r: Result<Value, EvalError>) {
        match player {
            Value::Str(s) => {
                if crate::text::str_eq(s.as_str(), "TOP") {
                    Ok(Value::Str("BOTTOM".to_owned()))
                } else if crate::text::str_eq(s.as_str(), "BOTTOM") {
                    Ok(Value::Str("TOP".to_owned()))
                } else {
                    Err(EvalError::DomainError("bad card player".to_owned()))
                }
            }
            other => Err(EvalError::type_error("string".to_owned(), kind_name(other).to_owned())),
        }
    }

    /// Writes one stat of the chosen player's panel, returning the new
    /// value with the field and player for the endgame checks.
    fn basic_set_stat(&mut self, stat: &str, args: MethodArgs, fuel: u64) -> (r: Result<
        (i64, Value, Value),
        EvalError,
    >)
        requires
            old(self).sg.wf(),
        ensures
            final(self).sg.wf(),
            evolves_to(&*old(self), &*final(self)),
        decreases fuel,
    {
        broadcast use lemma_evolves_to_trans, lemma_sg_evolves_wf, lemma_evolves_to_refl;

        if fuel == 0 {
            return Err(EvalError::BudgetExhausted);
        }
        match args.expect_arity(3, stat) {
            Ok(()) => {}
            Err(e) => {
                return Err(e);
            }
        }
        let playing_field = args.0[0].dup();
        let player = args.0[1].dup();
        let new_value = match &args.0[2] {
            Value::Int(n) => *n,
            other => {
                return Err(
                    EvalError::type_error("integer".to_owned(), kind_name(other).to_owned()),
                );
            }
        };
        let mut call_args: Vec<Value> = Vec::new();
        call_args.push(player.dup());
        let stats = match self.call_function_on(&playing_field, "get_stats", call_args, fuel - 1) {
            Ok(v) => v,
            Err(e) => {
                return Err(e);
            }
        };
        match self.set_value(&stats, stat, Value::Int(new_value), fuel - 1) {
            Ok(()) => {}
            Err(e) => {
                return Err(e);
            }
        }
        Ok((new_value, playing_field, player))
    }

    /// Adjusts one stat of the chosen player's panel by a delta.
    fn basic_add_stat(&mut self, stat: &str, args: MethodArgs, fuel: u64) -> (r: Result<
        (i64, Value, Value),
        EvalError,
    >)
        requires
            old(self).sg.wf(),
        ensures
            final(self).sg.wf(),
            evolves_to(&*old(self), &*final(self)),
        decreases fuel,
    {
        broadcast use lemma_evolves_to_trans, lemma_sg_evolves_wf, lemma_evolves_to_refl;

        if fuel == 0 {
            return Err(EvalError::BudgetExhausted);
        }
        match args.expect_arity(3, stat) {
            Ok(()) => {}
            Err(e) => {
                return Err(e);
            }
        }
        let playing_field = args.0[0].dup();
        let player = args.0[1].dup();
        let delta = match &args.0[2] {
            Value::Int(n) => *n,
            other => {
                return Err(
                    EvalError::type_error("integer".to_owned(), kind_name(other).to_owned()),
                );
            }
        };
        let mut call_args: Vec<Value> = Vec::new();
        call_args.push(player.dup());
        let stats = match self.call_function_on(&playing_field, "get_stats", call_args, fuel - 1) {
            Ok(v) => v,
            Err(e) => {
                return Err(e);
            }
        };
        let old_value = match self.get_value(&stats, stat, fuel - 1) {
            Ok(Value::Int(n)) => n,
            Ok(other) => {
                return Err(
                    EvalError::type_error("integer".to_owned(), kind_name(&other).to_owned()),
                );
            }
            Err(e) => {
                return Err(e);
            }
        };
        let new_value = old_value.wrapping_add(delta);
        match self.set_value(&stats, stat, Value::Int(new_value), fuel - 1) {
            Ok(()) => {}
            Err(e) => {
                return Err(e);
            }
        }
        Ok((new_value, playing_field, player))
    }

    /// Ends the game on the playing field in the given player's favour.
    fn send_endgame_signal(&mut self, playing_field: &Value, winner: Value, fuel: u64) -> (r:
        Result<(), EvalError>)
        requires
            old(self).sg.wf(),
        ensures
            final(self).sg.wf(),
            evolves_to(&*old(self), &*final(self)),
        decreases fuel,
    {
        broadcast use lemma_evolves_to_trans, lemma_sg_evolves_wf, lemma_evolves_to_refl;

        if fuel == 0 {
            return Err(EvalError::BudgetExhausted);
        }
        let mut call_args: Vec<Value> = Vec::new();
        call_args.push(winner);
        match self.call_function_on(playing_field, "end_game", call_args, fuel - 1) {
            Ok(_) => Ok(()),
            Err(e) => Err(e),
        }
    }

    /// Writes or adjusts a card's metadata entry, then runs the morale
    /// expiry check when asked.
    fn card_meta_stat(&mut self, fname: &str, key: &str, add: bool, check_morale: bool,
        args: MethodArgs, fuel: u64) -> (r: Result<Value, EvalError>)
        requires
            old(self).sg.wf(),
        ensures
            final(self).sg.wf(),
            evolves_to(&*old(self), &*final(self)),
        decreases fuel,
    {
        broadcast use lemma_evolves_to_trans, lemma_sg_evolves_wf, lemma_evolves_to_refl;

        if fuel == 0 {
            return Err(EvalError::BudgetExhausted);
        }
        match args.expect_arity_within(3, 4, fname) {
            Ok(()) => {}
            Err(e) => {
                return Err(e);
            }
        }
        // A fourth argument, when present, is ignored.
        let playing_field = args.0[0].dup();
        let card = args.0[1].dup();
        let given = match &args.0[2] {
            Value::Int(n) => *n,
            other => {
                return Err(
                    EvalError::type_error("integer".to_owned(), kind_name(other).to_owned()),
                );
            }
        };
        let given = if given < 0 {
            0
        } else {
            given
        };
        let metadata = match self.get_value(&card, "metadata", fuel - 1) {
            Ok(v) => v,
            Err(e) => {
                return Err(e);
            }
        };
        let new_value: i64 = if add {
            // The old value is read off the level entry, as the engine
            // has always done.
            let mut one: Vec<Value> = Vec::new();
            one.push(Value::Str("LEVEL".to_owned()));
            let old_value = match self.call_function_on(&metadata, "__getitem__", one, fuel - 1) {
                Ok(Value::Int(n)) => n,
                Ok(other) => {
                    return Err(
                        EvalError::type_error("integer".to_owned(), kind_name(&other).to_owned()),
                    );
                }
                Err(e) => {
                    return Err(e);
                }
            };
            let summed = old_value.wrapping_add(given);
            if summed < 0 {
                0
            } else {
                summed
            }
        } else {
            given
        };
        match self.set_index(&metadata, Value::Str(key.to_owned()), Value::Int(new_value)) {
            Ok(()) => {}
            Err(e) => {
                return Err(e);
            }
        }
        if check_morale {
            match self.do_morale_check(&playing_field, &card, fuel - 1) {
                Ok(()) => {}
                Err(e) => {
                    return Err(e);
                }
            }
        }
        Ok(Value::Null)
    }

    /// A card whose morale reached zero gets its pre-expiry hook, and if
    /// still spent, expires and is destroyed.
    fn do_morale_check(&mut self, playing_field: &Value, card: &Value, fuel: u64) -> (r: Result<
        (),
        EvalError,
    >)
        requires
            old(self).sg.wf(),
        ensures
            final(self).sg.wf(),
            evolves_to(&*old(self), &*final(self)),
        decreases fuel,
    {
        broadcast use lemma_evolves_to_trans, lemma_sg_evolves_wf, lemma_evolves_to_refl;

        if fuel == 0 {
            return Err(EvalError::BudgetExhausted);
        }
        let metadata = match self.get_value(card, "metadata", fuel - 1) {
            Ok(v) => v,
            Err(e) => {
                return Err(e);
            }
        };
        let morale = match self.read_morale(&metadata, fuel - 1) {
            Ok(n) => n,
            Err(e) => {
                return Err(e);
            }
        };
        if morale > 0 {
            return Ok(());
        }
        let card_type = match self.get_value(card, "card_type", fuel - 1) {
            Ok(v) => v,
            Err(e) => {
                return Err(e);
            }
        };
        let mut two: Vec<Value> = Vec::new();
        two.push(playing_field.dup());
        two.push(card.dup());
        match self.call_function_on(&card_type, "on_pre_expire", two, fuel - 1) {
            Ok(_) => {}
            Err(e) => {
                return Err(e);
            }
        }
        let morale = match self.read_morale(&metadata, fuel - 1) {
            Ok(n) => n,
            Err(e) => {
                return Err(e);
            }
        };
        if morale > 0 {
            return Ok(());
        }
        let mut two: Vec<Value> = Vec::new();
        two.push(playing_field.dup());
        two.push(card.dup());
        match self.call_function_on(&card_type, "on_expire", two, fuel - 1) {
            Ok(_) => {}
            Err(e) => {
                return Err(e);
            }
        }
        let api = match self.get_global_value("CardGameApi", fuel - 1) {
            Ok(v) => v,
            Err(e) => {
                return Err(e);
            }
        };
        let mut two: Vec<Value> = Vec::new();
        two.push(playing_field.dup());
        two.push(card.dup());
        match self.call_function_on(&api, "destroy_card", two, fuel - 1) {
            Ok(_) => Ok(()),
            Err(e) => Err(e),
        }
    }

    /// Reads a card's morale entry.
    fn read_morale(&mut self, metadata: &Value, fuel: u64) -> (r: Result<i64, EvalError>)
        requires
            old(self).sg.wf(),
        ensures
            final(self).sg.wf(),
            evolves_to(&*old(self), &*final(self)),
        decreases fuel,
    {
        broadcast use lemma_evolves_to_trans, lemma_sg_evolves_wf, lemma_evolves_to_refl;

        if fuel == 0 {
            return Err(EvalError::BudgetExhausted);
        }
        let mut one: Vec<Value> = Vec::new();
        one.push(Value::Str("MORALE".to_owned()));
        match self.call_function_on(metadata, "__getitem__", one, fuel - 1) {
            Ok(Value::Int(n)) => Ok(n),
            Ok(other) => Err(
                EvalError::type_error("integer".to_owned(), kind_name(&other).to_owned()),
            ),
            Err(e) => Err(e),
        }
    }

    /// Whether the playing field has reached an end state.
    fn check_for_endgame(&mut self, playing_field: &Value, fuel: u64) -> (r: Result<
        bool,
        EvalError,
    >)
        requires
            old(self).sg.wf(),
        ensures
            final(self).sg.wf(),
            evolves_to(&*old(self), &*final(self)),
        decreases fuel,
    {
        broadcast use lemma_evolves_to_trans, lemma_sg_evolves_wf, lemma_evolves_to_refl;

        if fuel == 0 {
            return Err(EvalError::BudgetExhausted);
        }
        match self.get_value(playing_field, crate::mocking::ENDGAME_VARIABLE, fuel - 1) {
            Ok(Value::Str(_)) => Ok(true),
            Ok(_) => Ok(false),
            Err(e) => Err(e),
        }
    }

    /// Draws a player's opening hand up to the hand limit.
    fn draw_initial_hand(&mut self, playing_field: &Value, player: &str, fuel: u64) -> (r: Result<
        (),
        EvalError,
    >)
        requires
            old(self).sg.wf(),
        ensures
            final(self).sg.wf(),
            evolves_to(&*old(self), &*final(self)),
        decreases fuel,
    {
        broadcast use lemma_evolves_to_trans, lemma_sg_evolves_wf, lemma_evolves_to_refl;

        if fuel == 0 {
            return Err(EvalError::BudgetExhausted);
        }
        let stats_calculator = match self.get_global_value("StatsCalculator", fuel - 1) {
            Ok(v) => v,
            Err(e) => {
                return Err(e);
            }
        };
        let api = match self.get_global_value("CardGameApi", fuel - 1) {
            Ok(v) => v,
            Err(e) => {
                return Err(e);
            }
        };
        let mut two: Vec<Value> = Vec::new();
        two.push(playing_field.dup());
        two.push(Value::Str(player.to_owned()));
        let hand_limit = match self.call_function_on(&stats_calculator, "get_hand_limit", two,
            fuel - 1) {
            Ok(Value::Int(n)) => n,
            Ok(other) => {
                return Err(
                    EvalError::type_error("integer".to_owned(), kind_name(&other).to_owned()),
                );
            }
            Err(e) => {
                return Err(e);
            }
        };
        let mut three: Vec<Value> = Vec::new();
        three.push(playing_field.dup());
        three.push(Value::Str(player.to_owned()));
        three.push(Value::Int(hand_limit));
        match self.call_function_on(&api, "draw_cards", three, fuel - 1) {
            Ok(_) => Ok(()),
            Err(e) => Err(e),
        }
    }

    /// Runs one player's half of a full turn: the scripted phases, then
    /// the player agent's decisions, then the end phase.
    fn run_turn_for(&mut self, playing_field: &Value, player: &str, fuel: u64) -> (r: Result<
        (),
        EvalError,
    >)
        requires
            old(self).sg.wf(),
        ensures
            final(self).sg.wf(),
            evolves_to(&*old(self), &*final(self)),
        decreases fuel,
    {
        broadcast use lemma_evolves_to_trans, lemma_sg_evolves_wf, lemma_evolves_to_refl;

        if fuel == 0 {
            return Err(EvalError::BudgetExhausted);
        }
        let phases = match self.get_global_value("CardGamePhases", fuel - 1) {
            Ok(v) => v,
            Err(e) => {
                return Err(e);
            }
        };
        match self.set_value(playing_field, "turn_player", Value::Str(player.to_owned()),
            fuel - 1) {
            Ok(()) => {}
            Err(e) => {
                return Err(e);
            }
        }
        let mut k: usize = 0;
        while k < 4
            invariant
                old(self).sg.wf(),
                self.sg.wf(),
                evolves_to(&*old(self), &*self),
                fuel >= 1,
            decreases 4 - k,
        {
            broadcast use lemma_evolves_to_trans, lemma_sg_evolves_wf, lemma_evolves_to_refl;

            let name: &str = if k == 0 {
                "draw_phase"
            } else if k == 1 {
                "attack_phase"
            } else if k == 2 {
                "morale_phase"
            } else {
                "standby_phase"
            };
            let mut two: Vec<Value> = Vec::new();
            two.push(playing_field.dup());
            two.push(Value::Str(player.to_owned()));
            match self.call_function_on(&phases, name, two, fuel - 1) {
                Ok(_) => {}
                Err(e) => {
                    return Err(e);
                }
            }
            k = k + 1;
        }
        let mut one: Vec<Value> = Vec::new();
        one.push(Value::Str(player.to_owned()));
        let agent = match self.call_function_on(playing_field, "player_agent", one, fuel - 1) {
            Ok(v) => v,
            Err(e) => {
                return Err(e);
            }
        };
        let mut one: Vec<Value> = Vec::new();
        one.push(playing_field.dup());
        match self.call_function_on(&agent, "run_one_turn", one, fuel - 1) {
            Ok(_) => {}
            Err(e) => {
                return Err(e);
            }
        }
        let mut two: Vec<Value> = Vec::new();
        two.push(playing_field.dup());
        two.push(Value::Str(player.to_owned()));
        match self.call_function_on(&phases, "end_phase", two, fuel - 1) {
            Ok(_) => Ok(()),
            Err(e) => Err(e),
        }
    }

    /// Drives one full match: both opening hands, then full turns until
    /// an end state is reached. Hitting the turn ceiling first is the
    /// dedicated loop-limit error, the engine's substitute for
    /// cancellation.
    pub fn play_full_game_native(&mut self, args: MethodArgs, fuel: u64) -> (r: Result<
        Value,
        EvalError,
    >)
        requires
            old(self).sg.wf(),
        ensures
            final(self).sg.wf(),
            evolves_to(&*old(self), &*final(self)),
            // In this headless engine the driver yields null once the
            // end state is reached; it never returns another value.
            r matches Ok(v) ==> v == Value::Null,
            // Its own argument errors, raised before any turn runs: the
            // field and an optional integer turn ceiling, non-negative
            // and within a sane bound.
            fuel >= 1 && (args.0@.len() < 1 || args.0@.len() > 2) ==> (r matches Err(
                EvalError::WrongArity { function, expected, actual },
            ) && function@ == "play_full_game"@ && expected == ExpectedArity::Between(1, 2)
                && actual == args.0@.len() && *final(self) == *old(self)),
            fuel >= 1 && args.0@.len() == 2 ==> (match args.0@[1] {
                Value::Int(n) => (n < 0 || n > 0xffff_ffff) ==> (r matches Err(
                    EvalError::DomainError(_),
                ) && *final(self) == *old(self)),
                _ => r matches Err(EvalError::TypeError { .. }) && *final(self) == *old(self),
            }),
        decreases fuel,
    {
        broadcast use lemma_evolves_to_trans, lemma_sg_evolves_wf, lemma_evolves_to_refl;

        if fuel == 0 {
            return Err(EvalError::BudgetExhausted);
        }
        match args.expect_arity_within(1, 2, "play_full_game") {
            Ok(()) => {}
            Err(e) => {
                return Err(e);
            }
        }
        let playing_field = args.0[0].dup();
        let max_turns: Option<usize> = if args.0.len() == 2 {
            match &args.0[1] {
                Value::Int(n) => {
                    if *n < 0 {
                        return Err(EvalError::DomainError("expected unsigned int".to_owned()));
                    }
                    if (*n as u64) > 0xffff_ffffu64 {
                        return Err(EvalError::DomainError("turn ceiling too large".to_owned()));
                    }
                    Some(*n as usize)
                }
                other => {
                    return Err(
                        EvalError::type_error("integer".to_owned(), kind_name(other).to_owned()),
                    );
                }
            }
        } else {
            None
        };
        match self.draw_initial_hand(&playing_field, "BOTTOM", fuel - 1) {
            Ok(()) => {}
            Err(e) => {
                return Err(e);
            }
        }
        match self.draw_initial_hand(&playing_field, "TOP", fuel - 1) {
            Ok(()) => {}
            Err(e) => {
                return Err(e);
            }
        }
        let phases = match self.get_global_value("CardGamePhases", fuel - 1) {
            Ok(v) => v,
            Err(e) => {
                return Err(e);
            }
        };
        let mut turn_iter: usize = 0;
        let mut budget = fuel;
        loop
            invariant
                old(self).sg.wf(),
                self.sg.wf(),
                evolves_to(&*old(self), &*self),
                budget <= fuel,
                fuel >= 1,
                1 <= args.0@.len() <= 2,
                args.0@.len() == 2 ==> (match args.0@[1] {
                    Value::Int(n) => 0 <= n <= 0xffff_ffff,
                    _ => false,
                }),
            decreases budget,
        {
            broadcast use lemma_evolves_to_trans, lemma_sg_evolves_wf, lemma_evolves_to_refl;

            if budget == 0 {
                return Err(EvalError::BudgetExhausted);
            }
            let over = match self.check_for_endgame(&playing_field, budget - 1) {
                Ok(b) => b,
                Err(e) => {
                    return Err(e);
                }
            };
            if over {
                // In the real engine this method never returns (it waits
                // on a signal that never fires); headlessly it yields
                // null once the end state is reached.
                return Ok(Value::Null);
            }
            let mut one: Vec<Value> = Vec::new();
            one.push(playing_field.dup());
            match self.call_function_on(&phases, "start_of_full_turn", one, budget - 1) {
                Ok(_) => {}
                Err(e) => {
                    return Err(e);
                }
            }
            match self.run_turn_for(&playing_field, "BOTTOM", budget - 1) {
                Ok(()) => {}
                Err(e) => {
                    return Err(e);
                }
            }
            match self.run_turn_for(&playing_field, "TOP", budget - 1) {
                Ok(()) => {}
                Err(e) => {
                    return Err(e);
                }
            }
            let mut one: Vec<Value> = Vec::new();
            one.push(playing_field.dup());
            match self.call_function_on(&phases, "end_of_full_turn", one, budget - 1) {
                Ok(_) => {}
                Err(e) => {
                    return Err(e);
                }
            }
            if turn_iter < usize::MAX {
                turn_iter = turn_iter + 1;
            }
            if let Some(limit) = max_turns {
                if turn_iter >= limit {
                    return Err(EvalError::LoopLimitExceeded { limit });
                }
            }
            budget = budget - 1;
        }
    }
}

/// Wraps plain arguments for dispatch.
pub fn args_of(args: Vec<Value>) -> (r: MethodArgs)
    ensures
        r.0@ == args@,
{
    MethodArgs(args)
}

/// Copies a vector of values; the copies alias the same referents.
pub fn dup_values(t: &Vec<Value>) -> (r: Vec<Value>)
    ensures
        r@ == t@,
{
    let mut r: Vec<Value> = Vec::new();
    let mut i: usize = 0;
    while i < t.len()
        invariant
            i <= t@.len(),
            r@ == t@.subrange(0, i as int),
        decreases t@.len() - i,
    {
        r.push(t[i].dup());
        proof {
            assert(r@ =~= t@.subrange(0, i + 1 as int));
        }
        i = i + 1;
    }
    proof {
        assert(t@.subrange(0, t@.len() as int) =~= t@);
    }
    r
}


impl EvaluatorState {
    /// Evaluates a list of expressions left to right.
    pub fn eval_args(&mut self, scope: &Scope, exprs: &Vec<Expr>, fuel: u64) -> (r: Result<
        Vec<Value>,
        EvalError,
    >)
        requires
            old(self).sg.wf(),
        ensures
            final(self).sg.wf(),
            evolves_to(&*old(self), &*final(self)),
        decreases fuel,
    {
        broadcast use lemma_evolves_to_trans, lemma_sg_evolves_wf, lemma_evolves_to_refl;

        if fuel == 0 {
            return Err(EvalError::BudgetExhausted);
        }
        let mut out: Vec<Value> = Vec::new();
        let mut i: usize = 0;
        while i < exprs.len()
            invariant
                old(self).sg.wf(),
                self.sg.wf(),
                evolves_to(&*old(self), &*self),
                fuel >= 1,
            decreases exprs@.len() - i,
        {
            broadcast use lemma_evolves_to_trans, lemma_sg_evolves_wf, lemma_evolves_to_refl;

            match self.eval_expr(scope, &exprs[i], fuel - 1) {
                Ok(v) => {
                    out.push(v);
                }
                Err(e) => {
                    return Err(e);
                }
            }
            i = i + 1;
        }
        Ok(out)
    }

    /// Evaluates one expression in the given scope. Expression
    /// evaluation never observes control-flow signals.
    pub fn eval_expr(&mut self, scope: &Scope, e: &Expr, fuel: u64) -> (r: Result<
        Value,
        EvalError,
    >)
        requires
            old(self).sg.wf(),
        ensures
            final(self).sg.wf(),
            evolves_to(&*old(self), &*final(self)),
            // A literal is its value and a signal constructor its stub;
            // neither changes anything.
            *e matches Expr::Literal(lit) ==> r == Ok::<Value, EvalError>(lit_value_spec(lit))
                && *final(self) == *old(self),
            *e matches Expr::NewSignal ==> r == Ok::<Value, EvalError>(Value::SignalStub)
                && *final(self) == *old(self),
            // A node path is never evaluated headlessly.
            fuel >= 1 ==> (match *e {
                Expr::GetNode(n) => r matches Err(EvalError::UnexpectedGetNode(m)) && m@ == n@,
                _ => true,
            }),
            // `self` and a bare `super` resolve before anything else.
            fuel >= 1 ==> (match *e {
                Expr::Name(id) => {
                    &&& (id@ == "self"@ ==> r == Ok::<Value, EvalError>(scope.self_value)
                        && *final(self) == *old(self))
                    &&& (id@ != "self"@ && id@ == "super"@ ==> r == Err::<Value, EvalError>(
                        EvalError::BadSuper,
                    ) && *final(self) == *old(self))
                },
                _ => true,
            }),
            // `and` and `or` short-circuit: a deciding literal left
            // operand settles the result without running the right side,
            // and a literal right operand is then the result itself.
            fuel >= 1 ==> (match *e {
                Expr::BinaryOp(l, op, rr) => match op {
                    crate::ops::BinaryOp::And => ({
                        &&& (match *l {
                            Expr::Literal(la) => !lit_value_spec(la).spec_as_bool() ==> r
                                == Ok::<Value, EvalError>(Value::Bool(false)) && *final(self)
                                == *old(self),
                            _ => true,
                        })
                        &&& (match (*l, *rr) {
                            (Expr::Literal(la), Expr::Literal(lb)) => lit_value_spec(
                                la,
                            ).spec_as_bool() ==> r == Ok::<Value, EvalError>(lit_value_spec(lb))
                                && *final(self) == *old(self),
                            _ => true,
                        })
                    }),
                    crate::ops::BinaryOp::Or => ({
                        &&& (match *l {
                            Expr::Literal(la) => lit_value_spec(la).spec_as_bool() ==> r
                                == Ok::<Value, EvalError>(lit_value_spec(la)) && *final(self)
                                == *old(self),
                            _ => true,
                        })
                        &&& (match (*l, *rr) {
                            (Expr::Literal(la), Expr::Literal(lb)) => !lit_value_spec(
                                la,
                            ).spec_as_bool() ==> r == Ok::<Value, EvalError>(lit_value_spec(lb))
                                && *final(self) == *old(self),
                            _ => true,
                        })
                    }),
                    _ => true,
                },
                _ => true,
            }),
            // A name that is not `self` or `super` resolves a local
            // first, and a read of a local changes nothing.
            fuel >= 2 ==> (match *e {
                Expr::Name(id) => id@ != "self"@ && id@ != "super"@ ==> (match table_index_of(
                    scope.locals@,
                    id@,
                ) {
                    Some(i) => r == Ok::<Value, EvalError>(scope.locals@[i].1) && *final(self)
                        == *old(self),
                    None => true,
                }),
                _ => true,
            }),
            // Array and dictionary displays make fresh containers.
            fuel >= 1 ==> (match *e {
                Expr::Array(_) => r matches Ok(v) ==> v matches Value::ArrayRef(id) && old(self).heap.arrays@.len() <= id < final(self).heap.arrays@.len(),
                Expr::Dictionary(_) => r matches Ok(v) ==> v matches Value::DictRef(id) && old(self).heap.dicts@.len() <= id < final(self).heap.dicts@.len(),
                _ => true,
            }),
            // A lambda captures the defining scope by reference: the
            // receiver, the locals and the enclosing class as they are.
            fuel >= 1 ==> (match *e {
                Expr::Lambda(l) => r matches Ok(v) && v == Value::Lambda(
                    old(self).heap.lambdas@.len() as usize,
                ) && final(self).heap.lambdas@.len() == old(self).heap.lambdas@.len() + 1 && ({
                    let closure = final(self).heap.lambdas@.last();
                    &&& closure.lambda == l
                    &&& *closure.captured_self == scope.self_value
                    &&& closure.captured_locals@ == scope.locals@
                    &&& closure.enclosing_class == scope.enclosing_class
                }),
                _ => true,
            }),
        decreases fuel,
    {
        broadcast use lemma_evolves_to_trans, lemma_sg_evolves_wf, lemma_evolves_to_refl;

        if let Expr::Literal(lit) = e {
            return Ok(lit_to_value(lit));
        }
        if let Expr::NewSignal = e {
            return Ok(Value::SignalStub);
        }
        if fuel == 0 {
            return Err(EvalError::BudgetExhausted);
        }
        match e {
            Expr::Literal(lit) => Ok(lit_to_value(lit)),
            Expr::Array(elems) => {
                let values = match self.eval_args(scope, elems, fuel - 1) {
                    Ok(vs) => vs,
                    Err(e) => {
                        return Err(e);
                    }
                };
                let id = self.heap.alloc_array(values);
                Ok(Value::ArrayRef(id))
            }
            Expr::Dictionary(pairs) => {
                let id = self.heap.alloc_dict(Vec::new());
                let mut i: usize = 0;
                while i < pairs.len()
                    invariant
                        old(self).sg.wf(),
                        self.sg.wf(),
                        evolves_to(&*old(self), &*self),
                        fuel >= 1,
                        *e matches Expr::Dictionary(_),
                        old(self).heap.dicts@.len() <= id < self.heap.dicts@.len(),
                    decreases pairs@.len() - i,
                {
                    broadcast use lemma_evolves_to_trans, lemma_sg_evolves_wf,
                        lemma_evolves_to_refl;

                    let kv = match self.eval_expr(scope, &pairs[i].key, fuel - 1) {
                        Ok(v) => v,
                        Err(e) => {
                            return Err(e);
                        }
                    };
                    let key = match kv.as_key() {
                        Ok(k) => k,
                        Err(e) => {
                            return Err(EvalError::InvalidHashKey(e));
                        }
                    };
                    let value = match self.eval_expr(scope, &pairs[i].value, fuel - 1) {
                        Ok(v) => v,
                        Err(e) => {
                            return Err(e);
                        }
                    };
                    match self.heap.dict_set(id, key, value) {
                        Ok(()) => {}
                        Err(e) => {
                            return Err(e);
                        }
                    }
                    i = i + 1;
                }
                Ok(Value::DictRef(id))
            }
            Expr::Name(name) => self.eval_name(scope, name.0.as_str(), fuel - 1),
            Expr::GetNode(node) => Err(EvalError::UnexpectedGetNode(node.0.clone())),
            Expr::Call { func, args } => {
                let name = match &**func {
                    Expr::Name(id) => id.0.clone(),
                    _ => {
                        return Err(EvalError::CannotCall("call target is not a name".to_owned()));
                    }
                };
                let values = match self.eval_args(scope, args, fuel - 1) {
                    Ok(vs) => vs,
                    Err(e) => {
                        return Err(e);
                    }
                };
                // A method on the receiver wins; otherwise a superglobal
                // function is called. Either runs with the enclosing
                // class's constants still in scope.
                match self.get_func(&scope.self_value, name.as_str()) {
                    Ok(sm) => self.call_scoped(
                        scope.enclosing_class,
                        &sm.method,
                        scope.self_value.dup(),
                        args_of(values),
                        fuel - 1,
                    ),
                    Err(_) => {
                        match table_find(&self.sg.functions, name.as_str()) {
                            Some(i) => {
                                let m = self.sg.functions[i].1.dup();
                                self.call_scoped(
                                    scope.enclosing_class,
                                    &m,
                                    scope.self_value.dup(),
                                    args_of(values),
                                    fuel - 1,
                                )
                            }
                            None => Err(EvalError::UndefinedFunc(name)),
                        }
                    }
                }
            }
            Expr::Subscript(left, right) => {
                let lv = match self.eval_expr(scope, left, fuel - 1) {
                    Ok(v) => v,
                    Err(e) => {
                        return Err(e);
                    }
                };
                let rv = match self.eval_expr(scope, right, fuel - 1) {
                    Ok(v) => v,
                    Err(e) => {
                        return Err(e);
                    }
                };
                let mut args: Vec<Value> = Vec::new();
                args.push(rv);
                self.call_function_on(&lv, "__getitem__", args, fuel - 1)
            }
            Expr::Attr(left, name) => {
                let lv = match self.eval_expr(scope, left, fuel - 1) {
                    Ok(v) => v,
                    Err(e) => {
                        return Err(e);
                    }
                };
                self.get_value(&lv, name.0.as_str(), fuel - 1)
            }
            Expr::AttrCall(left, name, args) => {
                let is_super = match &**left {
                    Expr::Name(id) => crate::text::str_eq(id.0.as_str(), "super"),
                    _ => false,
                };
                if is_super {
                    let ec = match scope.enclosing_class {
                        Some(ec) => ec,
                        None => {
                            return Err(EvalError::BadSuper);
                        }
                    };
                    if ec >= self.sg.classes.len() {
                        return Err(EvalError::BadSuper);
                    }
                    let parent = match self.sg.classes[ec].parent {
                        Some(p) => p,
                        None => {
                            return Err(EvalError::BadSuper);
                        }
                    };
                    let pair = match find_method(&self.sg.classes, parent, name.0.as_str()) {
                        Some(pair) => pair,
                        None => {
                            return Err(EvalError::UndefinedFunc(name.0.clone()));
                        }
                    };
                    let values = match self.eval_args(scope, args, fuel - 1) {
                        Ok(vs) => vs,
                        Err(e) => {
                            return Err(e);
                        }
                    };
                    self.call_scoped(
                        Some(parent),
                        &pair.0,
                        scope.self_value.dup(),
                        args_of(values),
                        fuel - 1,
                    )
                } else {
                    let lv = match self.eval_expr(scope, left, fuel - 1) {
                        Ok(v) => v,
                        Err(e) => {
                            return Err(e);
                        }
                    };
                    let values = match self.eval_args(scope, args, fuel - 1) {
                        Ok(vs) => vs,
                        Err(e) => {
                            return Err(e);
                        }
                    };
                    self.call_function_on(&lv, name.0.as_str(), values, fuel - 1)
                }
            }
            Expr::BinaryOp(left, op, right) => {
                let lv = match self.eval_expr(scope, left, fuel - 1) {
                    Ok(v) => v,
                    Err(e) => {
                        return Err(e);
                    }
                };
                match op {
                    crate::ops::BinaryOp::And => {
                        if lv.as_bool() {
                            self.eval_expr(scope, right, fuel - 1)
                        } else {
                            Ok(Value::Bool(false))
                        }
                    }
                    crate::ops::BinaryOp::Or => {
                        if lv.as_bool() {
                            Ok(lv)
                        } else {
                            self.eval_expr(scope, right, fuel - 1)
                        }
                    }
                    other => {
                        let rv = match self.eval_expr(scope, right, fuel - 1) {
                            Ok(v) => v,
                            Err(e) => {
                                return Err(e);
                            }
                        };
                        self.eval_binary_op(lv, *other, rv, fuel - 1)
                    }
                }
            }
            Expr::UnaryOp(op, inner) => {
                let v = match self.eval_expr(scope, inner, fuel - 1) {
                    Ok(v) => v,
                    Err(e) => {
                        return Err(e);
                    }
                };
                crate::opsem::eval_unary_op(*op, v)
            }
            Expr::Await(inner) => self.eval_expr(scope, inner, fuel - 1),
            Expr::Lambda(lambda) => {
                let closure = LambdaClosure {
                    lambda: rc_clone(lambda),
                    captured_self: Box::new(scope.self_value.dup()),
                    captured_locals: dup_locals(&scope.locals),
                    enclosing_class: scope.enclosing_class,
                };
                let id = self.heap.alloc_lambda(closure);
                Ok(Value::Lambda(id))
            }
            Expr::Conditional { if_true, cond, if_false } => {
                let cv = match self.eval_expr(scope, cond, fuel - 1) {
                    Ok(v) => v,
                    Err(e) => {
                        return Err(e);
                    }
                };
                if cv.as_bool() {
                    self.eval_expr(scope, if_true, fuel - 1)
                } else {
                    self.eval_expr(scope, if_false, fuel - 1)
                }
            }
            Expr::NewSignal => Ok(Value::SignalStub),
        }
    }

    /// Resolves a bare name as an expression: `self` and `super` are
    /// special; otherwise scope resolution runs, then an attribute on
    /// the receiver.
    pub fn eval_name(&mut self, scope: &Scope, name: &str, fuel: u64) -> (r: Result<
        Value,
        EvalError,
    >)
        requires
            old(self).sg.wf(),
        ensures
            final(self).sg.wf(),
            evolves_to(&*old(self), &*final(self)),
            // `self` denotes the receiver, a bare `super` is an error,
            // and otherwise a local always wins; none of these change
            // anything.
            name@ == "self"@ ==> r == Ok::<Value, EvalError>(scope.self_value) && *final(self)
                == *old(self),
            name@ != "self"@ && name@ == "super"@ ==> r == Err::<Value, EvalError>(
                EvalError::BadSuper,
            ) && *final(self) == *old(self),
            fuel >= 1 && name@ != "self"@ && name@ != "super"@ ==> (match table_index_of(
                scope.locals@,
                name@,
            ) {
                Some(i) => r == Ok::<Value, EvalError>(scope.locals@[i].1) && *final(self)
                    == *old(self),
                None => true,
            }),
        decreases fuel,
    {
        broadcast use lemma_evolves_to_trans, lemma_sg_evolves_wf, lemma_evolves_to_refl;

        if crate::text::str_eq(name, "self") {
            return Ok(scope.self_value.dup());
        }
        if fuel == 0 && !crate::text::str_eq(name, "super") {
            return Err(EvalError::BudgetExhausted);
        }
        if crate::text::str_eq(name, "super") {
            return Err(EvalError::BadSuper);
        }
        match self.get_var(scope, name, fuel - 1) {
            Ok(Some(v)) => {
                return Ok(v);
            }
            Ok(None) => {}
            Err(e) => {
                return Err(e);
            }
        }
        let receiver = scope.self_value.dup();
        match self.get_value(&receiver, name, fuel - 1) {
            Ok(v) => Ok(v),
            Err(_) => Err(EvalError::UndefinedVariable(name.to_owned())),
        }
    }

    /// Runs a statement list in order.
    pub fn eval_body(&mut self, scope: &mut Scope, body: &Vec<Stmt>, fuel: u64) -> (r: Result<
        (),
        EvalErrorOrControlFlow,
    >)
        requires
            old(self).sg.wf(),
        ensures
            final(self).sg.wf(),
            evolves_to(&*old(self), &*final(self)),
            body@.len() == 0 ==> r is Ok && *final(self) == *old(self) && *final(scope) == *old(scope),
        decreases fuel,
    {
        broadcast use lemma_evolves_to_trans, lemma_sg_evolves_wf, lemma_evolves_to_refl;

        if body.len() == 0 {
            return Ok(());
        }
        if fuel == 0 {
            return Err(EvalErrorOrControlFlow::EvalError(EvalError::BudgetExhausted));
        }
        let mut i: usize = 0;
        while i < body.len()
            invariant
                old(self).sg.wf(),
                self.sg.wf(),
                evolves_to(&*old(self), &*self),
                fuel >= 1,
            decreases body@.len() - i,
        {
            broadcast use lemma_evolves_to_trans, lemma_sg_evolves_wf, lemma_evolves_to_refl;

            match self.eval_stmt(scope, &body[i], fuel - 1) {
                Ok(()) => {}
                Err(e) => {
                    return Err(e);
                }
            }
            i = i + 1;
        }
        Ok(())
    }

    /// Runs one statement. Control-flow signals travel on the error
    /// channel, distinct from ordinary errors.
    pub fn eval_stmt(&mut self, scope: &mut Scope, stmt: &Stmt, fuel: u64) -> (r: Result<
        (),
        EvalErrorOrControlFlow,
    >)
        requires
            old(self).sg.wf(),
        ensures
            final(self).sg.wf(),
            evolves_to(&*old(self), &*final(self)),
            // `pass` does nothing; `break`, `continue` and a bare
            // `return` raise exactly their signal and change nothing.
            *stmt matches Stmt::Pass ==> r is Ok && *final(self) == *old(self) && *final(scope)
                == *old(scope),
            *stmt matches Stmt::Break ==> r == Err::<(), EvalErrorOrControlFlow>(
                EvalErrorOrControlFlow::ControlFlow(ControlFlow::Break),
            ) && *final(self) == *old(self) && *final(scope) == *old(scope),
            *stmt matches Stmt::Continue ==> r == Err::<(), EvalErrorOrControlFlow>(
                EvalErrorOrControlFlow::ControlFlow(ControlFlow::Continue),
            ) && *final(self) == *old(self) && *final(scope) == *old(scope),
            (match *stmt {
                Stmt::Return(inner) => inner is None ==> r == Err::<(), EvalErrorOrControlFlow>(
                    EvalErrorOrControlFlow::ControlFlow(ControlFlow::Return(Value::Null)),
                ) && *final(self) == *old(self) && *final(scope) == *old(scope),
                _ => true,
            }),
            // A `return` of a literal raises the literal's value.
            fuel >= 1 ==> (match *stmt {
                Stmt::Return(inner) => match inner {
                    Some(e) => (match *e {
                        Expr::Literal(lit) => r == Err::<(), EvalErrorOrControlFlow>(
                            EvalErrorOrControlFlow::ControlFlow(
                                ControlFlow::Return(lit_value_spec(lit)),
                            ),
                        ),
                        _ => true,
                    }),
                    None => true,
                },
                _ => true,
            }),
            // A declaration binds the local to its evaluated initializer
            // (null when there is none); shown here for initializers the
            // contract can name.
            fuel >= 1 ==> (match *stmt {
                Stmt::Var(v) => (match v.initial_value {
                    None => r is Ok && *final(self) == *old(self) && final(scope).self_value
                        == old(scope).self_value && final(scope).enclosing_class == old(scope).enclosing_class && fields_after_set(
                        old(scope).locals@,
                        v.name@,
                        Value::Null,
                        final(scope).locals@,
                    ),
                    Some(e) => (match *e {
                        Expr::Literal(lit) => r is Ok && *final(self) == *old(self) && final(scope).self_value == old(scope).self_value && final(scope).enclosing_class
                            == old(scope).enclosing_class && fields_after_set(
                            old(scope).locals@,
                            v.name@,
                            lit_value_spec(lit),
                            final(scope).locals@,
                        ),
                        _ => true,
                    }),
                }),
                _ => true,
            }),
            // Loops consume their own break and continue: neither signal
            // ever escapes the nearest enclosing loop. Errors and return
            // signals pass on.
            (*stmt matches Stmt::While(_) || *stmt matches Stmt::For(_)) ==> !(r matches Err(
                EvalErrorOrControlFlow::ControlFlow(ControlFlow::Break),
            )) && !(r matches Err(EvalErrorOrControlFlow::ControlFlow(ControlFlow::Continue))),
            // An assignment whose target is a bound local and whose
            // right side is a literal: plain `=` stores the literal; an
            // arithmetic compound operator reads the local once and
            // stores the combined value, or raises the arithmetic's own
            // domain error.
            fuel >= 3 ==> (match *stmt {
                Stmt::AssignOp(left, aop, right) => (match (*left, *right) {
                    (Expr::Name(id), Expr::Literal(lit)) => (id@ != "self"@ && id@ != "super"@)
                        ==> (match table_index_of(old(scope).locals@, id@) {
                        Some(i) => ({
                            &&& (aop == crate::ops::AssignOp::Eq ==> r is Ok && *final(self)
                                == *old(self) && final(scope).self_value == old(scope).self_value
                                && final(scope).enclosing_class == old(scope).enclosing_class
                                && fields_after_set(
                                old(scope).locals@,
                                id@,
                                lit_value_spec(lit),
                                final(scope).locals@,
                            ))
                            &&& ((aop == crate::ops::AssignOp::AddEq || aop
                                == crate::ops::AssignOp::SubEq || aop == crate::ops::AssignOp::MulEq
                                || aop == crate::ops::AssignOp::DivEq || aop
                                == crate::ops::AssignOp::ModEq) ==> (match (
                                old(scope).locals@[i].1,
                                lit_value_spec(lit),
                            ) {
                                (Value::Int(a), Value::Int(b)) => ({
                                    let bin = (if aop == crate::ops::AssignOp::AddEq {
                                        crate::ops::BinaryOp::Add
                                    } else if aop == crate::ops::AssignOp::SubEq {
                                        crate::ops::BinaryOp::Sub
                                    } else if aop == crate::ops::AssignOp::MulEq {
                                        crate::ops::BinaryOp::Mul
                                    } else if aop == crate::ops::AssignOp::DivEq {
                                        crate::ops::BinaryOp::Div
                                    } else {
                                        crate::ops::BinaryOp::Mod
                                    });
                                    match crate::opsem::int_binop_spec(bin, a, b) {
                                        Some(v) => r is Ok && final(scope).self_value == old(scope).self_value && final(scope).enclosing_class == old(scope).enclosing_class && fields_after_set(
                                            old(scope).locals@,
                                            id@,
                                            Value::Int(v),
                                            final(scope).locals@,
                                        ),
                                        None => r matches Err(EvalErrorOrControlFlow::EvalError(
                                            EvalError::DomainError(_),
                                        )),
                                    }
                                }),
                                _ => true,
                            }))
                        }),
                        None => true,
                    }),
                    _ => true,
                }),
                _ => true,
            }),
        decreases fuel,
    {
        broadcast use lemma_evolves_to_trans, lemma_sg_evolves_wf, lemma_evolves_to_refl;

        match stmt {
            Stmt::Pass => {
                return Ok(());
            }
            Stmt::Break => {
                return Err(EvalErrorOrControlFlow::ControlFlow(ControlFlow::Break));
            }
            Stmt::Continue => {
                return Err(EvalErrorOrControlFlow::ControlFlow(ControlFlow::Continue));
            }
            Stmt::Return(inner) => {
                if inner.is_none() {
                    return Err(
                        EvalErrorOrControlFlow::ControlFlow(ControlFlow::Return(Value::Null)),
                    );
                }
            }
            _ => {}
        }
        if fuel == 0 {
            return Err(EvalErrorOrControlFlow::EvalError(EvalError::BudgetExhausted));
        }
        match stmt {
            Stmt::ExprStmt(e) => {
                match self.eval_expr(scope, e, fuel - 1) {
                    Ok(_) => Ok(()),
                    Err(err) => Err(EvalErrorOrControlFlow::EvalError(err)),
                }
            }
            Stmt::Var(var_stmt) => {
                let value = match &var_stmt.initial_value {
                    None => Value::Null,
                    Some(e) => match self.eval_expr(scope, e, fuel - 1) {
                        Ok(v) => v,
                        Err(err) => {
                            return Err(EvalErrorOrControlFlow::EvalError(err));
                        }
                    },
                };
                scope.set_local_var(var_stmt.name.0.as_str(), value);
                Ok(())
            }
            Stmt::Return(inner) => {
                let value = match inner {
                    None => Value::Null,
                    Some(e) => match self.eval_expr(scope, e, fuel - 1) {
                        Ok(v) => v,
                        Err(err) => {
                            return Err(EvalErrorOrControlFlow::EvalError(err));
                        }
                    },
                };
                Err(EvalErrorOrControlFlow::ControlFlow(ControlFlow::Return(value)))
            }
            Stmt::Pass => Ok(()),
            Stmt::Break => Err(EvalErrorOrControlFlow::ControlFlow(ControlFlow::Break)),
            Stmt::Continue => Err(EvalErrorOrControlFlow::ControlFlow(ControlFlow::Continue)),
            Stmt::If(if_stmt) => {
                let cond = match self.eval_expr(scope, &if_stmt.condition, fuel - 1) {
                    Ok(v) => v,
                    Err(err) => {
                        return Err(EvalErrorOrControlFlow::EvalError(err));
                    }
                };
                if cond.as_bool() {
                    return self.eval_body(scope, &if_stmt.body, fuel - 1);
                }
                let mut k: usize = 0;
                while k < if_stmt.elif_clauses.len()
                    invariant
                        old(self).sg.wf(),
                        self.sg.wf(),
                        evolves_to(&*old(self), &*self),
                        fuel >= 1,
                        *stmt matches Stmt::If(_),
                    decreases if_stmt.elif_clauses@.len() - k,
                {
                    broadcast use lemma_evolves_to_trans, lemma_sg_evolves_wf,
                        lemma_evolves_to_refl;

                    let c = match self.eval_expr(scope, &if_stmt.elif_clauses[k].condition,
                        fuel - 1) {
                        Ok(v) => v,
                        Err(err) => {
                            return Err(EvalErrorOrControlFlow::EvalError(err));
                        }
                    };
                    if c.as_bool() {
                        return self.eval_body(scope, &if_stmt.elif_clauses[k].body, fuel - 1);
                    }
                    k = k + 1;
                }
                match &if_stmt.else_clause {
                    Some(body) => self.eval_body(scope, body, fuel - 1),
                    None => Ok(()),
                }
            }
            Stmt::While(while_stmt) => {
                let mut budget = fuel;
                loop
                    invariant
                        old(self).sg.wf(),
                        self.sg.wf(),
                        evolves_to(&*old(self), &*self),
                        budget <= fuel,
                        *stmt matches Stmt::While(_),
                    decreases budget,
                {
                    broadcast use lemma_evolves_to_trans, lemma_sg_evolves_wf,
                        lemma_evolves_to_refl;

                    if budget == 0 {
                        return Err(EvalErrorOrControlFlow::EvalError(EvalError::BudgetExhausted));
                    }
                    let cond = match self.eval_expr(scope, &while_stmt.condition, budget - 1) {
                        Ok(v) => v,
                        Err(err) => {
                            return Err(EvalErrorOrControlFlow::EvalError(err));
                        }
                    };
                    if !cond.as_bool() {
                        return Ok(());
                    }
                    let inner = self.eval_body(scope, &while_stmt.body, budget - 1);
                    match ControlFlow::extract_loop_control(inner) {
                        Ok(Some(LoopControlFlow::Break)) => {
                            return Ok(());
                        }
                        Ok(_) => {}
                        Err(e) => {
                            return Err(e);
                        }
                    }
                    budget = budget - 1;
                }
            }
            Stmt::For(for_stmt) => {
                let iterable = match self.eval_expr(scope, &for_stmt.iterable, fuel - 1) {
                    Ok(v) => v,
                    Err(err) => {
                        return Err(EvalErrorOrControlFlow::EvalError(err));
                    }
                };
                // The loop iterates a snapshot: mutating the source
                // mid-loop never changes the iteration.
                let snapshot = match self.try_iter(&iterable) {
                    Ok(s) => s,
                    Err(err) => {
                        return Err(EvalErrorOrControlFlow::EvalError(err));
                    }
                };
                let mut i: usize = 0;
                while i < snapshot.len()
                    invariant
                        old(self).sg.wf(),
                        self.sg.wf(),
                        evolves_to(&*old(self), &*self),
                        fuel >= 1,
                        *stmt matches Stmt::For(_),
                    decreases snapshot@.len() - i,
                {
                    broadcast use lemma_evolves_to_trans, lemma_sg_evolves_wf,
                        lemma_evolves_to_refl;

                    scope.set_local_var(for_stmt.variable.0.as_str(), snapshot[i].dup());
                    let inner = self.eval_body(scope, &for_stmt.body, fuel - 1);
                    match ControlFlow::extract_loop_control(inner) {
                        Ok(Some(LoopControlFlow::Break)) => {
                            return Ok(());
                        }
                        Ok(_) => {}
                        Err(e) => {
                            return Err(e);
                        }
                    }
                    i = i + 1;
                }
                Ok(())
            }
            Stmt::Match(match_stmt) => {
                let value = match self.eval_expr(scope, &match_stmt.value, fuel - 1) {
                    Ok(v) => v,
                    Err(err) => {
                        return Err(EvalErrorOrControlFlow::EvalError(err));
                    }
                };
                let mut k: usize = 0;
                while k < match_stmt.clauses.len()
                    invariant
                        old(self).sg.wf(),
                        self.sg.wf(),
                        evolves_to(&*old(self), &*self),
                        fuel >= 1,
                        *stmt matches Stmt::Match(_),
                    decreases match_stmt.clauses@.len() - k,
                {
                    broadcast use lemma_evolves_to_trans, lemma_sg_evolves_wf,
                        lemma_evolves_to_refl;

                    let hit = match &match_stmt.clauses[k].pattern {
                        crate::ast::Pattern::Underscore => true,
                        crate::ast::Pattern::Literal(lit) => literal_matches(&value, lit),
                    };
                    if hit {
                        return self.eval_body(scope, &match_stmt.clauses[k].body, fuel - 1);
                    }
                    k = k + 1;
                }
                Ok(())
            }
            Stmt::AssignOp(left, op, right) => {
                // The left-hand location is resolved once, before the
                // right-hand side runs, so a side-effecting receiver
                // expression is not evaluated twice.
                let lh = match self.eval_expr_for_assignment(scope, left, fuel - 1) {
                    Ok(lh) => lh,
                    Err(err) => {
                        return Err(EvalErrorOrControlFlow::EvalError(err));
                    }
                };
                let result = match op.as_binary() {
                    None => {
                        match self.eval_expr(scope, right, fuel - 1) {
                            Ok(v) => v,
                            Err(err) => {
                                return Err(EvalErrorOrControlFlow::EvalError(err));
                            }
                        }
                    }
                    Some(bin) => {
                        let current = match self.eval_assignment_left_hand(scope, &lh, fuel - 1) {
                            Ok(v) => v,
                            Err(err) => {
                                return Err(EvalErrorOrControlFlow::EvalError(err));
                            }
                        };
                        let rv = match self.eval_expr(scope, right, fuel - 1) {
                            Ok(v) => v,
                            Err(err) => {
                                return Err(EvalErrorOrControlFlow::EvalError(err));
                            }
                        };
                        match self.eval_binary_op(current, bin, rv, fuel - 1) {
                            Ok(v) => v,
                            Err(err) => {
                                return Err(EvalErrorOrControlFlow::EvalError(err));
                            }
                        }
                    }
                };
                match self.do_assignment(scope, lh, result, fuel - 1) {
                    Ok(()) => Ok(()),
                    Err(err) => Err(EvalErrorOrControlFlow::EvalError(err)),
                }
            }
        }
    }

    /// Resolves an assignable location once, evaluating its receiver
    /// subexpressions.
    pub fn eval_expr_for_assignment(&mut self, scope: &Scope, e: &Expr, fuel: u64) -> (r: Result<
        AssignmentLeftHand,
        EvalError,
    >)
        requires
            old(self).sg.wf(),
        ensures
            final(self).sg.wf(),
            evolves_to(&*old(self), &*final(self)),
            // A bare name resolves to itself without running anything;
            // only names, subscripts and attributes are assignable.
            match *e {
                Expr::Name(id) => r matches Ok(lh) && lh matches AssignmentLeftHand::Name(n)
                    && n@ == id@ && *final(self) == *old(self),
                Expr::Subscript(_, _) => r matches Ok(lh) ==> lh matches
                    AssignmentLeftHand::Subscript(_, _),
                Expr::Attr(_, nm) => r matches Ok(lh) ==> lh matches AssignmentLeftHand::Attr(
                    _,
                    n,
                ) && n@ == nm@,
                _ => r matches Err(EvalError::CannotAssignTo(_)),
            },
        decreases fuel,
    {
        broadcast use lemma_evolves_to_trans, lemma_sg_evolves_wf, lemma_evolves_to_refl;

        match e {
            Expr::Name(name) => {
                return Ok(AssignmentLeftHand::Name(name.0.clone()));
            }
            Expr::Subscript(_, _) => {}
            Expr::Attr(_, _) => {}
            _ => {
                return Err(
                    EvalError::CannotAssignTo("expression is not assignable".to_owned()),
                );
            }
        }
        if fuel == 0 {
            return Err(EvalError::BudgetExhausted);
        }
        match e {
            Expr::Name(name) => Ok(AssignmentLeftHand::Name(name.0.clone())),
            Expr::Subscript(left, right) => {
                let lv = match self.eval_expr(scope, left, fuel - 1) {
                    Ok(v) => v,
                    Err(err) => {
                        return Err(err);
                    }
                };
                let rv = match self.eval_expr(scope, right, fuel - 1) {
                    Ok(v) => v,
                    Err(err) => {
                        return Err(err);
                    }
                };
                Ok(AssignmentLeftHand::Subscript(lv, rv))
            }
            Expr::Attr(left, name) => {
                let lv = match self.eval_expr(scope, left, fuel - 1) {
                    Ok(v) => v,
                    Err(err) => {
                        return Err(err);
                    }
                };
                Ok(AssignmentLeftHand::Attr(lv, name.0.clone()))
            }
            _ => Err(EvalError::CannotAssignTo("expression is not assignable".to_owned())),
        }
    }

    /// Reads the current value of a resolved assignable location,
    /// without re-running its receiver expressions.
    pub fn eval_assignment_left_hand(&mut self, scope: &Scope, lh: &AssignmentLeftHand, fuel: u64)
        -> (r: Result<Value, EvalError>)
        requires
            old(self).sg.wf(),
        ensures
            final(self).sg.wf(),
            evolves_to(&*old(self), &*final(self)),
            // Reading a plain name that is a bound local yields the
            // local and changes nothing.
            fuel >= 2 ==> (match *lh {
                AssignmentLeftHand::Name(n) => n@ != "self"@ && n@ != "super"@ ==> (
                match table_index_of(scope.locals@, n@) {
                    Some(i) => r == Ok::<Value, EvalError>(scope.locals@[i].1) && *final(self)
                        == *old(self),
                    None => true,
                }),
                _ => true,
            }),
        decreases fuel,
    {
        broadcast use lemma_evolves_to_trans, lemma_sg_evolves_wf, lemma_evolves_to_refl;

        if fuel == 0 {
            return Err(EvalError::BudgetExhausted);
        }
        match lh {
            AssignmentLeftHand::Name(name) => self.eval_name(scope, name.as_str(), fuel - 1),
            AssignmentLeftHand::Subscript(left, index) => {
                let mut args: Vec<Value> = Vec::new();
                args.push(index.dup());
                self.call_function_on(&left.dup(), "__getitem__", args, fuel - 1)
            }
            AssignmentLeftHand::Attr(left, name) => {
                let receiver = left.dup();
                self.get_value(&receiver, name.as_str(), fuel - 1)
            }
        }
    }

    /// Writes a value to a resolved assignable location: a plain name
    /// binds the local if it exists, else an attribute of the receiver;
    /// subscripts write through the container's reference, visible to
    /// every alias.
    pub fn do_assignment(&mut self, scope: &mut Scope, lh: AssignmentLeftHand, value: Value,
        fuel: u64) -> (r: Result<(), EvalError>)
        requires
            old(self).sg.wf(),
        ensures
            final(self).sg.wf(),
            evolves_to(&*old(self), &*final(self)),
            // A name that is already a local rebinds the local, touching
            // nothing else; otherwise the write goes to the receiver's
            // attribute, leaving the locals alone.
            match lh {
                AssignmentLeftHand::Name(n) => match table_index_of(old(scope).locals@, n@) {
                    Some(_) => r is Ok && *final(self) == *old(self) && final(scope).self_value
                        == old(scope).self_value && final(scope).enclosing_class == old(scope).enclosing_class && fields_after_set(
                        old(scope).locals@,
                        n@,
                        value,
                        final(scope).locals@,
                    ),
                    None => *final(scope) == *old(scope),
                },
                _ => *final(scope) == *old(scope),
            },
        decreases fuel,
    {
        broadcast use lemma_evolves_to_trans, lemma_sg_evolves_wf, lemma_evolves_to_refl;

        match &lh {
            AssignmentLeftHand::Name(name) => {
                if scope.has_local_var(name.as_str()) {
                    scope.set_local_var(name.as_str(), value);
                    return Ok(());
                }
            }
            _ => {}
        }
        if fuel == 0 {
            return Err(EvalError::BudgetExhausted);
        }
        match lh {
            AssignmentLeftHand::Name(name) => {
                if scope.has_local_var(name.as_str()) {
                    scope.set_local_var(name.as_str(), value);
                    Ok(())
                } else {
                    let receiver = scope.self_value.dup();
                    self.set_value(&receiver, name.as_str(), value, fuel - 1)
                }
            }
            AssignmentLeftHand::Subscript(left, index) => self.set_index(&left, index, value),
            AssignmentLeftHand::Attr(left, name) => self.set_value(
                &left,
                name.as_str(),
                value,
                fuel - 1,
            ),
        }
    }

    /// Writes one element of an array (indices are not wrapped) or one
    /// entry of a dictionary.
    pub fn set_index(&mut self, receiver: &Value, index: Value, value: Value) -> (r: Result<
        (),
        EvalError,
    >)
        ensures
            final(self).sg == old(self).sg,
            heap_extends(&final(self).heap, &old(self).heap),
            match *receiver {
                Value::ArrayRef(a) => match index {
                    Value::Int(i) => if a < old(self).heap.arrays@.len() && 0 <= i < old(self).heap.arrays@[a as int]@.len() && old(self).heap.arrays@[a as int]@.len()
                        <= 0x7fff_ffff_ffff_ffff {
                        // The write lands in the shared array, seen through
                        // every alias; nothing else moves.
                        &&& r is Ok
                        &&& final(self).heap.arrays@.len() == old(self).heap.arrays@.len()
                        &&& final(self).heap.arrays@[a as int]@ == old(self).heap.arrays@[a as int]@.update(i as int, value)
                        &&& forall|j: int|
                            0 <= j < old(self).heap.arrays@.len() && j != a ==> final(self).heap.arrays@[j] == old(self).heap.arrays@[j]
                        &&& final(self).heap.dicts@ == old(self).heap.dicts@
                        &&& final(self).heap.objects@ == old(self).heap.objects@
                    } else {
                        r is Err && final(self).heap.arrays@ == old(self).heap.arrays@
                    },
                    _ => r is Err && *final(self) == *old(self),
                },
                Value::DictRef(d) => match index.spec_as_key() {
                    Some(k) => d < old(self).heap.dicts@.len() ==> r is Ok && final(self).heap.dicts@.len() == old(self).heap.dicts@.len() && (match
                        crate::heap::dict_index_of(old(self).heap.dicts@[d as int]@, k) {
                        Some(i) => final(self).heap.dicts@[d as int]@ == old(self).heap.dicts@[d as int]@.update(i, (k, value)),
                        None => final(self).heap.dicts@[d as int]@ == old(self).heap.dicts@[d as int]@.push((k, value)),
                    }),
                    None => r is Err && *final(self) == *old(self),
                },
                _ => r is Err && *final(self) == *old(self),
            },
    {
        match receiver {
            Value::ArrayRef(a) => {
                let idx = match index {
                    Value::Int(i) => i,
                    other => {
                        return Err(
                            EvalError::type_error(
                                "integer".to_owned(),
                                kind_name(&other).to_owned(),
                            ),
                        );
                    }
                };
                let n = match self.heap.array_len(*a) {
                    Ok(n) => n,
                    Err(e) => {
                        return Err(e);
                    }
                };
                if idx < 0 || (n as u64) > 0x7fff_ffff_ffff_ffffu64 || idx >= n as i64 {
                    return Err(EvalError::IndexOutOfBounds(idx));
                }
                match self.heap.array_set(*a, idx as usize, value) {
                    Ok(()) => Ok(()),
                    Err(e) => Err(e),
                }
            }
            Value::DictRef(d) => {
                let key = match index.as_key() {
                    Ok(k) => k,
                    Err(e) => {
                        return Err(EvalError::InvalidHashKey(e));
                    }
                };
                match self.heap.dict_set(*d, key, value) {
                    Ok(()) => Ok(()),
                    Err(e) => Err(e),
                }
            }
            other => Err(
                EvalError::type_error(
                    "array or dictionary".to_owned(),
                    kind_name(other).to_owned(),
                ),
            ),
        }
    }
}


impl SuperglobalState {
    /// Binds a superglobal variable.
    pub fn bind_var(&mut self, name: String, value: SimpleValue)
        ensures
            final(self).classes@ == old(self).classes@,
            final(self).builtins == old(self).builtins,
            final(self).functions@ == old(self).functions@,
            final(self).loaded_files@ == old(self).loaded_files@,
            final(self).vars@ == old(self).vars@.push((name, value)),
    {
        self.vars.push((name, value));
    }

    /// Binds a class under a superglobal name.
    pub fn bind_class(&mut self, name: String, class: usize)
        ensures
            final(self).classes@ == old(self).classes@,
            final(self).builtins == old(self).builtins,
            final(self).functions@ == old(self).functions@,
            final(self).loaded_files@ == old(self).loaded_files@,
            final(self).vars@ == old(self).vars@.push((name, SimpleValue::ClassRef(class))),
    {
        self.vars.push((name, SimpleValue::ClassRef(class)));
    }

    /// Defines a superglobal function.
    pub fn define_func(&mut self, name: String, func: Method)
        ensures
            final(self).classes@ == old(self).classes@,
            final(self).builtins == old(self).builtins,
            final(self).vars@ == old(self).vars@,
            final(self).loaded_files@ == old(self).loaded_files@,
            final(self).functions@ == old(self).functions@.push((name, func)),
    {
        self.functions.push((name, func));
    }

    /// Registers an already-built class under a resource path.
    pub fn add_file(&mut self, path: String, class: usize)
        ensures
            final(self).classes@ == old(self).classes@,
            final(self).builtins == old(self).builtins,
            final(self).vars@ == old(self).vars@,
            final(self).functions@ == old(self).functions@,
            final(self).loaded_files@ == old(self).loaded_files@.push((path, class)),
    {
        self.loaded_files.push((path, class));
    }

    /// The class bound under a superglobal name, if any.
    pub fn get_class_var(&self, name: &str) -> (r: Option<usize>) {
        match table_find_simple(&self.vars, name) {
            Some(i) => match &self.vars[i].1 {
                SimpleValue::ClassRef(c) => Some(*c),
                _ => None,
            },
            None => None,
        }
    }

    /// The class loaded under a resource path, if any.
    pub fn get_file(&self, path: &str) -> (r: Option<usize>) {
        match table_find_usize(&self.loaded_files, path) {
            Some(i) => Some(self.loaded_files[i].1),
            None => None,
        }
    }

    /// Installs an entry in a declaration table: a repeated name
    /// replaces the earlier declaration, so the last one wins.
    fn table_put<T>(entries: &mut Vec<(String, T)>, name: String, value: T) {
        match crate::class::table_find(&*entries, name.as_str()) {
            Some(i) => {
                let _replaced = entries.remove(i);
                entries.insert(i, (name, value));
            }
            None => {
                entries.push((name, value));
            }
        }
    }

    /// Builds one class record out of a list of declarations and
    /// appends it to the class table. Nested classes are built first
    /// and always extend the reference-counted base.
    pub fn build_class_from_decls(&mut self, name: Option<String>, parent: usize,
        decls: Vec<crate::ast::Decl>, fuel: u64) -> (r: Result<usize, EvalError>)
        requires
            old(self).wf(),
            parent < old(self).classes@.len(),
        ensures
            final(self).wf(),
            final(self).classes@.len() >= old(self).classes@.len(),
            final(self).builtins == old(self).builtins,
            final(self).loaded_files@ == old(self).loaded_files@,
            final(self).vars@ == old(self).vars@,
            final(self).functions@ == old(self).functions@,
            // Existing class records are never touched: the table only
            // ever grows.
            forall|j: int|
                0 <= j < old(self).classes@.len() ==> final(self).classes@[j] == old(self).classes@[j],
            // The built record is appended last, under the given name
            // and parent.
            r matches Ok(cid) ==> cid < final(self).classes@.len() && cid + 1 == final(self).classes@.len() && final(self).classes@[cid as int].name == name && final(self).classes@[cid as int].parent == Some(parent),
        decreases fuel,
    {
        if fuel == 0 {
            return Err(EvalError::BudgetExhausted);
        }
        let refcounted = self.builtins.refcounted;
        let mut constants: Vec<(String, LazyConst)> = Vec::new();
        let mut instance_vars: Vec<InstanceVar> = Vec::new();
        let mut methods: Vec<(String, Method)> = Vec::new();
        let mut rest = decls;
        while rest.len() > 0
            invariant
                old(self).wf(),
                self.wf(),
                self.classes@.len() >= old(self).classes@.len(),
                self.builtins == old(self).builtins,
                self.loaded_files@ == old(self).loaded_files@,
                self.vars@ == old(self).vars@,
                self.functions@ == old(self).functions@,
                forall|j: int|
                    0 <= j < old(self).classes@.len() ==> self.classes@[j] == old(self).classes@[j],
                refcounted == self.builtins.refcounted,
                fuel >= 1,
            decreases rest@.len(),
        {
            {
                let decl = rest.remove(0);
                match decl {
                    crate::ast::Decl::Const { name, value } => {
                        Self::table_put(
                            &mut constants,
                            name.0,
                            LazyConst::Unevaluated(Rc::new(*value)),
                        );
                    }
                    crate::ast::Decl::Var(var_stmt) => {
                        let init: Expr = match var_stmt.initial_value {
                            Some(e) => *e,
                            None => Expr::Literal(Literal::Null),
                        };
                        instance_vars.push(
                            InstanceVar { name: var_stmt.name, initial_value: Rc::new(init) },
                        );
                    }
                    crate::ast::Decl::Function(f) => {
                        Self::table_put(&mut methods, f.name.0.clone(), Method::Gd(Rc::new(f)));
                    }
                    crate::ast::Decl::Constructor(c) => {
                        let decl = crate::ast::FunctionDecl {
                            name: crate::ident::Identifier("_init".to_owned()),
                            params: c.params,
                            is_static: false,
                            body: c.body,
                        };
                        Self::table_put(&mut methods, "_init".to_owned(), Method::Gd(Rc::new(decl)));
                    }
                    crate::ast::Decl::Enum(enum_decl) => {
                        let mut table: Vec<(String, i64)> = Vec::new();
                        let mut prev: i64 = -1;
                        let mut members = enum_decl.members;
                        while members.len() > 0
                            invariant
                                old(self).wf(),
                                self.wf(),
                                self.classes@.len() >= old(self).classes@.len(),
                                self.builtins == old(self).builtins,
                                self.loaded_files@ == old(self).loaded_files@,
                                self.vars@ == old(self).vars@,
                                self.functions@ == old(self).functions@,
                                forall|j: int|
                                    0 <= j < old(self).classes@.len() ==> self.classes@[j] == old(self).classes@[j],
                            decreases members@.len(),
                        {
                            {
                                let (mname, mval) = members.remove(0);
                                let value: i64 = match mval {
                                    None => {
                                        if prev == i64::MAX {
                                            return Err(
                                                EvalError::DomainError(
                                                    "enum value overflow".to_owned(),
                                                ),
                                            );
                                        }
                                        prev + 1
                                    }
                                    Some(Expr::Literal(Literal::Int(v))) => v,
                                    Some(_) => {
                                        return Err(
                                            EvalError::InvalidEnumConstant(mname.0.clone()),
                                        );
                                    }
                                };
                                table.push((mname.0, value));
                                prev = value;
                            }
                        }
                        Self::table_put(
                            &mut constants,
                            enum_decl.name.0,
                            LazyConst::Resolved(SimpleValue::EnumType(Rc::new(table))),
                        );
                    }
                    crate::ast::Decl::InnerClass(iname, idecls) => {
                        let child = match self.build_class_from_decls(
                            Some(iname.0.clone()),
                            refcounted,
                            idecls,
                            fuel - 1,
                        ) {
                            Ok(c) => c,
                            Err(e) => {
                                return Err(e);
                            }
                        };
                        Self::table_put(
                            &mut constants,
                            iname.0,
                            LazyConst::Resolved(SimpleValue::ClassRef(child)),
                        );
                    }
                    crate::ast::Decl::Signal(sname) => {
                        instance_vars.push(
                            InstanceVar { name: sname, initial_value: Rc::new(Expr::NewSignal) },
                        );
                    }
                }
            }
        }
        let cid = self.classes.len();
        self.classes.push(
            Class {
                name,
                parent: Some(parent),
                constants,
                instance_vars: Rc::new(instance_vars),
                proxy_vars: Rc::new(Vec::new()),
                methods: Rc::new(methods),
            },
        );
        proof {
            assert forall|j: int|
                0 <= j < self.classes@.len() implies match (#[trigger] self.classes@[j]).parent {
                Some(p) => p < j,
                None => true,
            } by {
                if j < cid {
                }
            }
        }
        Ok(cid)
    }

    /// Loads one source file: the extends clause is resolved against
    /// already-known classes and files, the class record is built and
    /// registered under its path, and a named class is also bound as a
    /// superglobal.
    pub fn load_file(&mut self, path: String, file: crate::ast::SourceFile, fuel: u64) -> (r:
        Result<usize, EvalError>)
        requires
            old(self).wf(),
        ensures
            final(self).wf(),
            final(self).builtins == old(self).builtins,
            // Loading appends: files, classes and functions already
            // registered are never removed or changed.
            final(self).functions@ == old(self).functions@,
            forall|j: int|
                0 <= j < old(self).classes@.len() ==> final(self).classes@[j] == old(self).classes@[j],
            forall|j: int|
                0 <= j < old(self).loaded_files@.len() ==> final(self).loaded_files@[j] == old(self).loaded_files@[j],
            forall|j: int|
                0 <= j < old(self).vars@.len() ==> final(self).vars@[j] == old(self).vars@[j],
            // On success the path maps to the fresh class, and a class
            // with a name is also bound as a superglobal variable;
            // nothing is registered on failure.
            r matches Ok(cid) ==> cid < final(self).classes@.len() && final(self).loaded_files@.len() == old(self).loaded_files@.len() + 1 && final(self).loaded_files@.last().0@ == path@ && final(self).loaded_files@.last().1 == cid,
            r matches Ok(cid) ==> (match final(self).classes@[cid as int].name {
                Some(n) => final(self).vars@.len() == old(self).vars@.len() + 1 && final(self).vars@.last().0@ == n@ && final(self).vars@.last().1 == SimpleValue::ClassRef(cid),
                None => final(self).vars@ == old(self).vars@,
            }),
            r is Err ==> final(self).loaded_files@ == old(self).loaded_files@ && final(self).vars@
                == old(self).vars@,
        decreases fuel,
    {
        if fuel == 0 {
            return Err(EvalError::BudgetExhausted);
        }
        let parent: usize = match &file.extends_clause {
            None => self.builtins.refcounted,
            Some(crate::ast::ExtendsClause::Id(id)) => {
                match table_find_simple(&self.vars, id.0.as_str()) {
                    Some(i) => match &self.vars[i].1 {
                        SimpleValue::ClassRef(c) => *c,
                        _ => {
                            return Err(EvalError::UnknownClass(id.0.clone()));
                        }
                    },
                    None => {
                        return Err(EvalError::UnknownClass(id.0.clone()));
                    }
                }
            }
            Some(crate::ast::ExtendsClause::Path(p)) => {
                match self.get_file(p.contents.as_str()) {
                    Some(c) => c,
                    None => {
                        return Err(EvalError::UnknownClass(p.contents.clone()));
                    }
                }
            }
        };
        if parent >= self.classes.len() {
            return Err(EvalError::UnknownClass("parent class out of range".to_owned()));
        }
        let class_name: Option<String> = match &file.class_name {
            Some(n) => Some(n.0.clone()),
            None => None,
        };
        let cid = match self.build_class_from_decls(class_name, parent, file.decls, fuel - 1) {
            Ok(c) => c,
            Err(e) => {
                return Err(e);
            }
        };
        self.loaded_files.push((path, cid));
        if let Some(n) = &file.class_name {
            self.vars.push((n.0.clone(), SimpleValue::ClassRef(cid)));
        }
        Ok(cid)
    }

    /// Builds the registry with every built-in class bootstrapped: the
    /// object base, the reference-counted base, arrays, dictionaries,
    /// integers, strings, callables and signals, all reachable through
    /// the same dispatch path as scripted methods.
    pub fn build() -> (r: SuperglobalState)
        ensures
            r.wf(),
            // The bootstrapped container classes carry their documented
            // method tables, reachable through ordinary dispatch.
            r.builtins.array < r.classes@.len(),
            r.builtins.dictionary < r.classes@.len(),
            lookup_method_spec(r.classes@, r.builtins.array as int, "__getitem__"@) is Some,
            lookup_method_spec(r.classes@, r.builtins.array as int, "size"@) is Some,
            lookup_method_spec(r.classes@, r.builtins.array as int, "push_back"@) is Some,
            lookup_method_spec(r.classes@, r.builtins.array as int, "duplicate"@) is Some,
            lookup_method_spec(r.classes@, r.builtins.array as int, "map"@) is Some,
            lookup_method_spec(r.classes@, r.builtins.array as int, "filter"@) is Some,
            lookup_method_spec(r.classes@, r.builtins.array as int, "reduce"@) is Some,
            lookup_method_spec(r.classes@, r.builtins.array as int, "sort_custom"@) is Some,
            lookup_method_spec(r.classes@, r.builtins.array as int, "shuffle"@) is Some,
            lookup_method_spec(r.classes@, r.builtins.dictionary as int, "__getitem__"@) is Some,
            lookup_method_spec(r.classes@, r.builtins.dictionary as int, "size"@) is Some,
            lookup_method_spec(r.classes@, r.builtins.dictionary as int, "keys"@) is Some,
            lookup_method_spec(r.classes@, r.builtins.dictionary as int, "values"@) is Some,
            lookup_method_spec(r.classes@, r.builtins.dictionary as int, "duplicate"@) is Some,
    {
        let mut classes: Vec<Class> = Vec::new();

        let object = classes.len();
        classes.push(
            Class {
                name: Some("Object".to_owned()),
                parent: None,
                constants: Vec::new(),
                instance_vars: Rc::new(Vec::new()),
                proxy_vars: Rc::new(Vec::new()),
                methods: Rc::new(Vec::new()),
            },
        );

        let refcounted = classes.len();
        classes.push(
            Class {
                name: Some("RefCounted".to_owned()),
                parent: Some(object),
                constants: Vec::new(),
                instance_vars: Rc::new(Vec::new()),
                proxy_vars: Rc::new(Vec::new()),
                methods: Rc::new(Vec::new()),
            },
        );

        let array = classes.len();
        let mut array_methods: Vec<(String, Method)> = Vec::new();
        array_methods.push(("__getitem__".to_owned(), Method::Native(NativeFn::GetItem)));
        array_methods.push(("size".to_owned(), Method::Native(NativeFn::Size)));
        array_methods.push(("push_back".to_owned(), Method::Native(NativeFn::PushBack)));
        array_methods.push(("duplicate".to_owned(), Method::Native(NativeFn::Duplicate)));
        array_methods.push(("map".to_owned(), Method::Native(NativeFn::MapFn)));
        array_methods.push(("filter".to_owned(), Method::Native(NativeFn::FilterFn)));
        array_methods.push(("reduce".to_owned(), Method::Native(NativeFn::ReduceFn)));
        array_methods.push(("sort_custom".to_owned(), Method::Native(NativeFn::SortCustom)));
        array_methods.push(("shuffle".to_owned(), Method::Native(NativeFn::Shuffle)));
        classes.push(
            Class {
                name: Some("Array".to_owned()),
                parent: Some(object),
                constants: Vec::new(),
                instance_vars: Rc::new(Vec::new()),
                proxy_vars: Rc::new(Vec::new()),
                methods: Rc::new(array_methods),
            },
        );

        let dictionary = classes.len();
        let mut dict_methods: Vec<(String, Method)> = Vec::new();
        dict_methods.push(("__getitem__".to_owned(), Method::Native(NativeFn::GetItem)));
        dict_methods.push(("size".to_owned(), Method::Native(NativeFn::Size)));
        dict_methods.push(("keys".to_owned(), Method::Native(NativeFn::DictKeys)));
        dict_methods.push(("values".to_owned(), Method::Native(NativeFn::DictValues)));
        dict_methods.push(("duplicate".to_owned(), Method::Native(NativeFn::Duplicate)));
        classes.push(
            Class {
                name: Some("Dictionary".to_owned()),
                parent: Some(object),
                constants: Vec::new(),
                instance_vars: Rc::new(Vec::new()),
                proxy_vars: Rc::new(Vec::new()),
                methods: Rc::new(dict_methods),
            },
        );

        let int_class = classes.len();
        classes.push(
            Class {
                name: Some("int".to_owned()),
                parent: Some(object),
                constants: Vec::new(),
                instance_vars: Rc::new(Vec::new()),
                proxy_vars: Rc::new(Vec::new()),
                methods: Rc::new(Vec::new()),
            },
        );

        let string_class = classes.len();
        classes.push(
            Class {
                name: Some("String".to_owned()),
                parent: Some(object),
                constants: Vec::new(),
                instance_vars: Rc::new(Vec::new()),
                proxy_vars: Rc::new(Vec::new()),
                methods: Rc::new(Vec::new()),
            },
        );

        let callable = classes.len();
        let mut callable_methods: Vec<(String, Method)> = Vec::new();
        callable_methods.push(("call".to_owned(), Method::Native(NativeFn::CallableCall)));
        callable_methods.push(("bind".to_owned(), Method::Native(NativeFn::CallableBind)));
        classes.push(
            Class {
                name: Some("Callable".to_owned()),
                parent: Some(object),
                constants: Vec::new(),
                instance_vars: Rc::new(Vec::new()),
                proxy_vars: Rc::new(Vec::new()),
                methods: Rc::new(callable_methods),
            },
        );

        let signal = classes.len();
        let mut signal_methods: Vec<(String, Method)> = Vec::new();
        signal_methods.push(("emit".to_owned(), Method::Native(NativeFn::Noop)));
        signal_methods.push(("connect".to_owned(), Method::Native(NativeFn::Noop)));
        classes.push(
            Class {
                name: Some("Signal".to_owned()),
                parent: Some(object),
                constants: Vec::new(),
                instance_vars: Rc::new(Vec::new()),
                proxy_vars: Rc::new(Vec::new()),
                methods: Rc::new(signal_methods),
            },
        );

        let randomness = classes.len();
        let mut randomness_methods: Vec<(String, Method)> = Vec::new();
        randomness_methods.push(("randi".to_owned(), Method::Native(NativeFn::Randi)));
        randomness_methods.push(("randi_range".to_owned(), Method::Native(NativeFn::RandiRange)));
        randomness_methods.push(("choose".to_owned(), Method::Native(NativeFn::Choose)));
        classes.push(
            Class {
                name: Some("Randomness".to_owned()),
                parent: Some(refcounted),
                constants: Vec::new(),
                instance_vars: Rc::new(Vec::new()),
                proxy_vars: Rc::new(Vec::new()),
                methods: Rc::new(randomness_methods),
            },
        );

        let builtins = BuiltinClasses {
            object,
            refcounted,
            array,
            dictionary,
            int_class,
            string_class,
            callable,
            signal,
        };
        let mut sg = SuperglobalState {
            classes,
            vars: Vec::new(),
            functions: Vec::new(),
            loaded_files: Vec::new(),
            builtins,
            codex_cards: Vec::new(),
            codex_max_id: 0,
        };
        sg.vars.push(("Object".to_owned(), SimpleValue::ClassRef(object)));
        sg.vars.push(("RefCounted".to_owned(), SimpleValue::ClassRef(refcounted)));
        sg.vars.push(("Array".to_owned(), SimpleValue::ClassRef(array)));
        sg.vars.push(("Dictionary".to_owned(), SimpleValue::ClassRef(dictionary)));
        sg.vars.push(("int".to_owned(), SimpleValue::ClassRef(int_class)));
        sg.vars.push(("String".to_owned(), SimpleValue::ClassRef(string_class)));
        sg.vars.push(("Callable".to_owned(), SimpleValue::ClassRef(callable)));
        sg.vars.push(("Signal".to_owned(), SimpleValue::ClassRef(signal)));
        sg.vars.push(("Randomness".to_owned(), SimpleValue::ClassRef(randomness)));
        proof {
            let am = sg.classes@[array as int].methods@;
            crate::class::lemma_table_present_index(am, "__getitem__"@, 0);
            crate::class::lemma_table_present_index(am, "size"@, 1);
            crate::class::lemma_table_present_index(am, "push_back"@, 2);
            crate::class::lemma_table_present_index(am, "duplicate"@, 3);
            crate::class::lemma_table_present_index(am, "map"@, 4);
            crate::class::lemma_table_present_index(am, "filter"@, 5);
            crate::class::lemma_table_present_index(am, "reduce"@, 6);
            crate::class::lemma_table_present_index(am, "sort_custom"@, 7);
            crate::class::lemma_table_present_index(am, "shuffle"@, 8);
            let dm = sg.classes@[dictionary as int].methods@;
            crate::class::lemma_table_present_index(dm, "__getitem__"@, 0);
            crate::class::lemma_table_present_index(dm, "size"@, 1);
            crate::class::lemma_table_present_index(dm, "keys"@, 2);
            crate::class::lemma_table_present_index(dm, "values"@, 3);
            crate::class::lemma_table_present_index(dm, "duplicate"@, 4);
        }
        sg
    }
}

/// Finds the first entry named `name` in a path-keyed table.
fn table_find_usize(entries: &Vec<(String, usize)>, name: &str) -> (r: Option<usize>)
    ensures
        r matches Some(i) ==> i < entries@.len(),
{
    let mut i: usize = 0;
    while i < entries.len()
        invariant
            i <= entries@.len(),
        decreases entries@.len() - i,
    {
        if crate::text::str_eq(entries[i].0.as_str(), name) {
            return Some(i);
        }
        i = i + 1;
    }
    None
}

/// Finds the first entry named `name` in a value-keyed table.
fn table_find_simple(entries: &Vec<(String, SimpleValue)>, name: &str) -> (r: Option<usize>)
    ensures
        r matches Some(i) ==> i < entries@.len(),
{
    let mut i: usize = 0;
    while i < entries.len()
        invariant
            i <= entries@.len(),
        decreases entries@.len() - i,
    {
        if crate::text::str_eq(entries[i].0.as_str(), name) {
            return Some(i);
        }
        i = i + 1;
    }
    None
}

impl EvaluatorState {
    /// A fresh machine over a built registry, with its random stream
    /// seeded; the same seed always gives the same stream.
    pub fn new(sg: SuperglobalState, seed: u64) -> (r: EvaluatorState)
        ensures
            r.sg == sg,
            r.heap.arrays@.len() == 0,
            r.rng == (SeededRng { seed, word_pos: 0 }),
    {
        EvaluatorState { sg, heap: Heap::new(), rng: SeededRng { seed, word_pos: 0 } }
    }
}

} // verus!
