//! The rules of resolving `include` segments of a template at build time:
//! how deep includes may nest, and what each include becomes.
use vstd::prelude::*;
use crate::text::{dec, push_dec, push_str, str_eq, string_from_chars};

verus! {

/// How deep includes may nest when no limit is configured.
pub const DEFAULT_MAX_COMPILE_INCLUDE_DEPTH: usize = 64;

/// The message for includes nested `depth` deep, past `max_depth`.
pub open spec fn depth_message(depth: nat, max_depth: nat) -> Seq<char> {
    "compile-time include depth ("@ + dec(depth) + ") exceeds maximum ("@ + dec(max_depth)
        + "). Set PROMPT_TEMPLATES_MAX_INCLUDE_DEPTH to increase the limit"@
}

/// Refuse includes nested deeper than `max_depth`.
pub fn check_include_depth(depth: usize, max_depth: usize) -> (r: Result<(), String>)
    ensures
        r is Ok <==> depth <= max_depth,
        r matches Err(m) ==> m@ == depth_message(depth as nat, max_depth as nat),
{
    if depth <= max_depth {
        return Ok(());
    }
    let mut v: Vec<char> = Vec::new();
    push_str(&mut v, "compile-time include depth (");
    push_dec(&mut v, depth);
    push_str(&mut v, ") exceeds maximum (");
    push_dec(&mut v, max_depth);
    push_str(&mut v, "). Set PROMPT_TEMPLATES_MAX_INCLUDE_DEPTH to increase the limit");
    proof {
        reveal_strlit("compile-time include depth (");
        reveal_strlit(") exceeds maximum (");
        reveal_strlit("). Set PROMPT_TEMPLATES_MAX_INCLUDE_DEPTH to increase the limit");
    }
    assert(v@ =~= depth_message(depth as nat, max_depth as nat));
    Err(string_from_chars(v))
}

/// What resolution does with one `include` segment.
#[derive(Debug, Clone, Copy, PartialEq, Eq, Structural)]
pub enum IncludeStep {
    /// The include names a `tmpl` parameter: it is bound when rendering.
    Deferred,
    /// The include names an inline template of the same file, which is used.
    Inline,
    /// The included file is already being resolved further up: only its
    /// declarations are loaded, so that a cycle ends there.
    DeclarationsOnly,
    /// The included file is read and resolved one level deeper.
    Resolve,
}

/// The step for an include, in order of precedence: a `tmpl` parameter,
/// then an inline template, then a file already being resolved.
pub open spec fn include_step_of(names_tmpl_param: bool, names_inline: bool, already_resolving: bool) -> IncludeStep {
    if names_tmpl_param {
        IncludeStep::Deferred
    } else if names_inline {
        IncludeStep::Inline
    } else if already_resolving {
        IncludeStep::DeclarationsOnly
    } else {
        IncludeStep::Resolve
    }
}

/// The step for an include.
pub fn include_step(names_tmpl_param: bool, names_inline: bool, already_resolving: bool) -> (r: IncludeStep)
    ensures
        r == include_step_of(names_tmpl_param, names_inline, already_resolving),
{
    if names_tmpl_param {
        IncludeStep::Deferred
    } else if names_inline {
        IncludeStep::Inline
    } else if already_resolving {
        IncludeStep::DeclarationsOnly
    } else {
        IncludeStep::Resolve
    }
}

/// The files whose includes are being resolved, from the outermost down:
/// an include of one of them ends a cycle.
pub struct IncludeStack {
    paths: Vec<String>,
}

impl View for IncludeStack {
    type V = Set<Seq<char>>;

    /// The paths being resolved.
    closed spec fn view(&self) -> Set<Seq<char>> {
        Set::new(|p: Seq<char>| exists|i: int| 0 <= i < self.paths@.len() && #[trigger] self.paths@[i]@ == p)
    }
}

impl IncludeStack {
    /// No file is being resolved.
    pub fn new() -> (r: Self)
        ensures
            r@ == Set::<Seq<char>>::empty(),
    {
        let r = IncludeStack { paths: Vec::new() };
        assert(r@ =~= Set::<Seq<char>>::empty());
        r
    }

    /// Whether `path` is being resolved.
    pub fn contains(&self, path: &str) -> (r: bool)
        ensures
            r == self@.contains(path@),
    {
        let mut i: usize = 0;
        while i < self.paths.len()
            invariant
                i <= self.paths@.len(),
                forall|j: int| 0 <= j < i ==> #[trigger] self.paths@[j]@ != path@,
            decreases self.paths.len() - i,
        {
            if str_eq(self.paths[i].as_str(), path) {
                return true;
            }
            i = i + 1;
        }
        false
    }

    /// Decide what the include of `path` becomes, and when it is resolved
    /// one level deeper, mark `path` as being resolved.
    pub fn step(&mut self, path: &str, names_tmpl_param: bool, names_inline: bool) -> (r: IncludeStep)
        ensures
            r == include_step_of(names_tmpl_param, names_inline, old(self)@.contains(path@)),
            r == IncludeStep::Resolve ==> final(self)@ == old(self)@.insert(path@),
            r != IncludeStep::Resolve ==> final(self)@ == old(self)@,
    {
        let resolving = if names_tmpl_param || names_inline {
            false
        } else {
            self.contains(path)
        };
        let r = include_step(names_tmpl_param, names_inline, resolving);
        if r == IncludeStep::Resolve {
            let ghost before = self.paths@;
            self.paths.push(String::from_str(path));
            assert(self.paths@[before.len() as int]@ == path@);
            assert(self@ =~= old(self)@.insert(path@)) by {
                assert forall|p: Seq<char>| #[trigger] self@.contains(p) implies old(self)@.insert(path@).contains(p) by {
                    let i = choose|i: int| 0 <= i < self.paths@.len() && #[trigger] self.paths@[i]@ == p;
                    if i < before.len() {
                        assert(before[i]@ == p);
                    }
                }
                assert forall|p: Seq<char>| #[trigger] old(self)@.contains(p) implies self@.contains(p) by {
                    let i = choose|i: int| 0 <= i < before.len() && #[trigger] before[i]@ == p;
                    assert(self.paths@[i]@ == p);
                }
            }
        }
        r
    }

    /// The include of `path` is resolved: `path` is no longer being resolved.
    pub fn finish(&mut self, path: &str)
        ensures
            final(self)@ == old(self)@.remove(path@),
    {
        let mut kept: Vec<String> = Vec::new();
        let mut i: usize = 0;
        while i < self.paths.len()
            invariant
                i <= self.paths@.len(),
                forall|j: int| 0 <= j < kept@.len() ==> #[trigger] kept@[j]@ != path@,
                forall|p: Seq<char>|
                    #![trigger listed_in(kept@, kept@.len() as int, p)]
                    #![trigger listed_in(self.paths@, i as int, p)]
                    p != path@ ==> (listed_in(kept@, kept@.len() as int, p) <==> listed_in(self.paths@, i as int, p)),
            decreases self.paths.len() - i,
        {
            let ghost k0 = kept@;
            if !str_eq(self.paths[i].as_str(), path) {
                let c = String::from_str(self.paths[i].as_str());
                kept.push(c);
            }
            assert forall|p: Seq<char>| p != path@ implies (listed_in(kept@, kept@.len() as int, p) <==> listed_in(
                self.paths@,
                i + 1,
                p,
            )) by {
                if listed_in(kept@, kept@.len() as int, p) {
                    let j = choose|j: int| 0 <= j < kept@.len() && #[trigger] kept@[j]@ == p;
                    if j < k0.len() {
                        assert(k0[j]@ == p);
                        assert(listed_in(k0, k0.len() as int, p));
                        let m = choose|m: int| 0 <= m < i && #[trigger] self.paths@[m]@ == p;
                        assert(self.paths@[m]@ == p);
                    } else {
                        assert(self.paths@[i as int]@ == p);
                    }
                }
                if listed_in(self.paths@, i + 1, p) {
                    let j = choose|j: int| 0 <= j < i + 1 && #[trigger] self.paths@[j]@ == p;
                    if j < i {
                        assert(listed_in(self.paths@, i as int, p));
                        let m = choose|m: int| 0 <= m < k0.len() && #[trigger] k0[m]@ == p;
                        assert(kept@[m]@ == p);
                    } else {
                        assert(kept@[k0.len() as int]@ == p);
                    }
                }
            }
            i = i + 1;
        }
        self.paths = kept;
        assert(self@ =~= old(self)@.remove(path@)) by {
            assert forall|p: Seq<char>| #[trigger] self@.contains(p) <==> old(self)@.remove(path@).contains(p) by {
                if self@.contains(p) {
                    let j = choose|j: int| 0 <= j < self.paths@.len() && #[trigger] self.paths@[j]@ == p;
                    assert(self.paths@[j]@ != path@);
                    assert(listed_in(self.paths@, self.paths@.len() as int, p));
                }
                if old(self)@.remove(path@).contains(p) {
                    assert(listed_in(old(self).paths@, old(self).paths@.len() as int, p));
                    let j = choose|j: int| 0 <= j < self.paths@.len() && #[trigger] self.paths@[j]@ == p;
                }
            }
        }
    }
}

/// Whether one of the first `n` of `s` is `p`.
pub open spec fn listed_in(s: Seq<String>, n: int, p: Seq<char>) -> bool {
    exists|j: int| 0 <= j < n && #[trigger] s[j]@ == p
}

/// An include that is resolved and then finished leaves the stack as it
/// found it; a file already being resolved is never resolved again, so a
/// cycle of includes ends at its first repetition.
pub proof fn law_include_stack(s: Set<Seq<char>>, p: Seq<char>, names_tmpl_param: bool, names_inline: bool)
    ensures
        !s.contains(p) ==> s.insert(p).remove(p) == s,
        s.contains(p) ==> include_step_of(names_tmpl_param, names_inline, s.contains(p)) != IncludeStep::Resolve,
{
    if !s.contains(p) {
        assert(s.insert(p).remove(p) =~= s);
    }
}

} // verus!
