//! Identifiers and resource paths: thin wrappers around strings.

use vstd::prelude::*;

verus! {

/// Thin wrapper around a string, marking it as an identifier.
#[derive(Debug, Clone, Eq, Hash)]
pub struct Identifier(pub String);

/// Thin wrapper around a string marking it as a pathname. Enforces no
/// invariants, but typically these strings start with the engine's
/// resource scheme.
#[derive(Debug, Clone, Eq, Hash)]
pub struct ResourcePath(pub String);

impl View for Identifier {
    type V = Seq<char>;

    open spec fn view(&self) -> Seq<char> {
        self.0@
    }
}

impl View for ResourcePath {
    type V = Seq<char>;

    open spec fn view(&self) -> Seq<char> {
        self.0@
    }
}

impl Identifier {
    /// Wraps a string as an identifier.
    pub fn new(s: String) -> (r: Identifier)
        ensures
            r@ == s@,
    {
        Identifier(s)
    }
}

impl ResourcePath {
    /// Wraps a string as a resource path.
    pub fn new(s: String) -> (r: ResourcePath)
        ensures
            r@ == s@,
    {
        ResourcePath(s)
    }
}

impl PartialEq for Identifier {
    fn eq(&self, other: &Identifier) -> (r: bool) {
        self.0 == other.0
    }
}

impl vstd::std_specs::cmp::PartialEqSpecImpl for Identifier {
    open spec fn obeys_eq_spec() -> bool {
        true
    }

    open spec fn eq_spec(&self, other: &Identifier) -> bool {
        self.0@ == other.0@
    }
}

impl PartialEq for ResourcePath {
    fn eq(&self, other: &ResourcePath) -> (r: bool) {
        self.0 == other.0
    }
}

impl vstd::std_specs::cmp::PartialEqSpecImpl for ResourcePath {
    open spec fn obeys_eq_spec() -> bool {
        true
    }

    open spec fn eq_spec(&self, other: &ResourcePath) -> bool {
        self.0@ == other.0@
    }
}

/// Whether `s` begins with `prefix`.
pub open spec fn starts_with_spec(s: Seq<char>, prefix: Seq<char>) -> bool {
    prefix.len() <= s.len() && s.subrange(0, prefix.len() as int) == prefix
}

/// Rewrites an absolute path under the project root as an engine-style
/// resource path: the root (and one separator after it) is replaced by
/// the resource scheme. A path outside the root has no resource form.
pub fn normalize_path(project_root: &str, absolute: &str) -> (r: Option<ResourcePath>)
    ensures
        match r {
            Some(p) => starts_with_spec(absolute@, project_root@) && ({
                let rest = absolute@.skip(project_root@.len() as int);
                let trimmed = if rest.len() > 0 && rest[0] == '/' {
                    rest.skip(1)
                } else {
                    rest
                };
                p@ == "res://"@ + trimmed
            }),
            None => !starts_with_spec(absolute@, project_root@),
        },
{
    let root = crate::text::chars_of(project_root);
    let abs = crate::text::chars_of(absolute);
    if root.len() > abs.len() {
        proof {
            assert(!starts_with_spec(absolute@, project_root@));
        }
        return None;
    }
    let mut i: usize = 0;
    while i < root.len()
        invariant
            i <= root@.len() <= abs@.len(),
            root@ == project_root@,
            abs@ == absolute@,
            forall|k: int| 0 <= k < i ==> abs@[k] == root@[k],
        decreases root@.len() - i,
    {
        if abs[i] != root[i] {
            proof {
                if starts_with_spec(absolute@, project_root@) {
                    assert(absolute@.subrange(0, project_root@.len() as int)[i as int]
                        == absolute@[i as int]);
                }
            }
            return None;
        }
        i = i + 1;
    }
    proof {
        assert(absolute@.subrange(0, project_root@.len() as int) =~= project_root@);
    }
    let start = if root.len() < abs.len() && abs[root.len()] == '/' {
        root.len() + 1
    } else {
        root.len()
    };
    let mut out = String::new();
    crate::text::push_char(&mut out, 'r');
    crate::text::push_char(&mut out, 'e');
    crate::text::push_char(&mut out, 's');
    crate::text::push_char(&mut out, ':');
    crate::text::push_char(&mut out, '/');
    crate::text::push_char(&mut out, '/');
    let ghost scheme_done = out@;
    let mut k = start;
    while k < abs.len()
        invariant
            start <= k <= abs@.len(),
            abs@ == absolute@,
            out@ == scheme_done + abs@.subrange(start as int, k as int),
        decreases abs@.len() - k,
    {
        crate::text::push_char(&mut out, abs[k]);
        proof {
            assert(out@ =~= scheme_done + abs@.subrange(start as int, k + 1 as int));
        }
        k = k + 1;
    }
    proof {
        reveal_strlit("res://");
        assert(scheme_done =~= "res://"@);
        let rest = absolute@.skip(project_root@.len() as int);
        let trimmed = if rest.len() > 0 && rest[0] == '/' {
            rest.skip(1)
        } else {
            rest
        };
        assert(rest[0] == absolute@[project_root@.len() as int] || rest.len() == 0);
        assert(abs@.subrange(start as int, abs@.len() as int) =~= trimmed);
        assert(out@ =~= "res://"@ + trimmed);
    }
    Some(ResourcePath(out))
}

} // verus!
