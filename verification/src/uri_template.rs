//! URI template matching for resource templates with `{variable}` placeholders.
use vstd::prelude::*;
use crate::text::{chars_of, chars_slice, chars_match_at, occurs_at, string_from_chars};

verus! {

/// The first index of `c` in `s` at or after `i`.
pub open spec fn find_char_from(s: Seq<char>, c: char, i: int) -> Option<int>
    decreases s.len() - i,
{
    if i < 0 || i >= s.len() {
        None
    } else if s[i] == c {
        Some(i)
    } else {
        find_char_from(s, c, i + 1)
    }
}

/// The first index of `c` in `s`.
pub open spec fn find_char(s: Seq<char>, c: char) -> Option<int> {
    find_char_from(s, c, 0)
}

/// The first index at or after `i` at which `p` occurs in `s`.
pub open spec fn find_seq_from(s: Seq<char>, p: Seq<char>, i: int) -> Option<int>
    decreases s.len() + 1 - i,
{
    if i < 0 || i > s.len() {
        None
    } else if occurs_at(s, p, i) {
        Some(i)
    } else {
        find_seq_from(s, p, i + 1)
    }
}

/// The first index at which `p` occurs in `s`.
pub open spec fn find_seq(s: Seq<char>, p: Seq<char>) -> Option<int> {
    find_seq_from(s, p, 0)
}

pub proof fn lemma_find_char_from(s: Seq<char>, c: char, i: int)
    ensures
        find_char_from(s, c, i) matches Some(k) ==> i <= k < s.len() && s[k] == c,
    decreases s.len() - i,
{
    if i < 0 || i >= s.len() {
    } else if s[i] == c {
    } else {
        lemma_find_char_from(s, c, i + 1);
    }
}

pub proof fn lemma_find_seq_from(s: Seq<char>, p: Seq<char>, i: int)
    ensures
        find_seq_from(s, p, i) matches Some(k) ==> i <= k <= s.len() && occurs_at(s, p, k),
    decreases s.len() + 1 - i,
{
    if i < 0 || i > s.len() {
    } else if occurs_at(s, p, i) {
    } else {
        lemma_find_seq_from(s, p, i + 1);
    }
}

/// The variable bindings of matching `uri` against `template`, in the order
/// the variables appear, or `None` when it does not match.
///
/// Literal text before each `{name}` must match the URI exactly; a variable
/// captures up to the first occurrence of the literal text that follows it
/// (up to the next `{`), or the whole rest of the URI when it ends the
/// template. Whatever literal text remains must equal the rest of the URI.
pub open spec fn match_steps(t: Seq<char>, u: Seq<char>) -> Option<Seq<(Seq<char>, Seq<char>)>>
    decreases t.len(),
{
    match find_char(t, '{') {
        None => if t == u {
            Some(Seq::empty())
        } else {
            None
        },
        Some(si) => {
            let prefix = t.take(si);
            if !(u.len() >= prefix.len() && u.take(prefix.len() as int) == prefix) {
                None
            } else {
                let u1 = u.skip(prefix.len() as int);
                let t1 = t.skip(si + 1);
                match find_char(t1, '}') {
                    None => None,
                    Some(ei) => {
                        let name = t1.take(ei);
                        let t2 = t1.skip(ei + 1);
                        proof {
                            lemma_find_char_from(t, '{', 0);
                            lemma_find_char_from(t1, '}', 0);
                        }
                        if t2.len() == 0 {
                            Some(seq![(name, u1)])
                        } else {
                            let nb = match find_char(t2, '{') {
                                Some(k) => k,
                                None => t2.len() as int,
                            };
                            let delim = t2.take(nb);
                            match find_seq(u1, delim) {
                                None => None,
                                Some(ve) => match match_steps(t2, u1.skip(ve)) {
                                    Some(rest) => Some(seq![(name, u1.take(ve))] + rest),
                                    None => None,
                                },
                            }
                        }
                    },
                }
            }
        },
    }
}

/// The map built by inserting the bindings in order (a later binding of the
/// same name replaces an earlier one).
pub open spec fn bindings_map(s: Seq<(Seq<char>, Seq<char>)>) -> Map<Seq<char>, Seq<char>>
    decreases s.len(),
{
    if s.len() == 0 {
        Map::empty()
    } else {
        bindings_map(s.drop_last()).insert(s.last().0, s.last().1)
    }
}

/// The template `t` with its `{name}` variables, in order, replaced by the
/// values `vals` (an unterminated `{` is kept as text).
pub open spec fn expand(t: Seq<char>, vals: Seq<Seq<char>>) -> Seq<char>
    decreases t.len(),
{
    match find_char(t, '{') {
        None => t,
        Some(si) => {
            let t1 = t.skip(si + 1);
            match find_char(t1, '}') {
                None => t,
                Some(ei) => {
                    proof {
                        lemma_find_char_from(t, '{', 0);
                        lemma_find_char_from(t1, '}', 0);
                    }
                    let v = if vals.len() > 0 {
                        vals[0]
                    } else {
                        Seq::empty()
                    };
                    t.take(si) + v + expand(t1.skip(ei + 1), vals.skip(1))
                },
            }
        },
    }
}

/// The values of bindings, in order.
pub open spec fn binding_values(b: Seq<(Seq<char>, Seq<char>)>) -> Seq<Seq<char>> {
    b.map_values(|p: (Seq<char>, Seq<char>)| p.1)
}

/// Matching reads back what expanding wrote: a URI that matches a template
/// is the template with each variable replaced by the value bound to it.
pub proof fn law_match_expands_back(t: Seq<char>, u: Seq<char>)
    requires
        match_steps(t, u) is Some,
    ensures
        expand(t, binding_values(match_steps(t, u)->0)) == u,
    decreases t.len(),
{
    let b = match_steps(t, u)->0;
    match find_char(t, '{') {
        None => {},
        Some(si) => {
            lemma_find_char_from(t, '{', 0);
            let prefix = t.take(si);
            let u1 = u.skip(prefix.len() as int);
            let t1 = t.skip(si + 1);
            lemma_find_char_from(t1, '}', 0);
            let ei = find_char(t1, '}')->0;
            let t2 = t1.skip(ei + 1);
            assert(prefix.len() == si);
            if t2.len() == 0 {
                assert(binding_values(b) =~= seq![u1]);
                assert(binding_values(b).skip(1) =~= Seq::<Seq<char>>::empty());
                assert(expand(t2, Seq::<Seq<char>>::empty()) == t2) by {
                    assert(find_char_from(t2, '{', 0) is None);
                }
                assert(prefix + u1 + t2 =~= u);
            } else {
                let nb = match find_char(t2, '{') {
                    Some(k) => k,
                    None => t2.len() as int,
                };
                let delim = t2.take(nb);
                let ve = find_seq(u1, delim)->0;
                lemma_find_seq_from(u1, delim, 0);
                let rest = match_steps(t2, u1.skip(ve))->0;
                law_match_expands_back(t2, u1.skip(ve));
                assert(b == seq![(t1.take(ei), u1.take(ve))] + rest);
                assert(binding_values(b)[0] == u1.take(ve));
                assert(binding_values(b).skip(1) =~= binding_values(rest));
                assert(prefix + u1.take(ve) + u1.skip(ve) =~= u);
            }
        },
    }
}

/// The names of the `{name}` variables of `t`, in order (up to an
/// unterminated `{`).
pub open spec fn template_vars(t: Seq<char>) -> Seq<Seq<char>>
    decreases t.len(),
{
    match find_char(t, '{') {
        None => Seq::empty(),
        Some(si) => {
            let t1 = t.skip(si + 1);
            match find_char(t1, '}') {
                None => Seq::empty(),
                Some(ei) => {
                    proof {
                        lemma_find_char_from(t, '{', 0);
                        lemma_find_char_from(t1, '}', 0);
                    }
                    seq![t1.take(ei)] + template_vars(t1.skip(ei + 1))
                },
            }
        },
    }
}

/// The names of bindings, in order.
pub open spec fn binding_names(b: Seq<(Seq<char>, Seq<char>)>) -> Seq<Seq<char>> {
    b.map_values(|p: (Seq<char>, Seq<char>)| p.0)
}

proof fn lemma_match_names(t: Seq<char>, u: Seq<char>)
    requires
        match_steps(t, u) is Some,
    ensures
        binding_names(match_steps(t, u)->0) == template_vars(t),
    decreases t.len(),
{
    let b = match_steps(t, u)->0;
    match find_char(t, '{') {
        None => {
            assert(binding_names(b) =~= Seq::<Seq<char>>::empty());
        },
        Some(si) => {
            lemma_find_char_from(t, '{', 0);
            let prefix = t.take(si);
            let u1 = u.skip(prefix.len() as int);
            let t1 = t.skip(si + 1);
            lemma_find_char_from(t1, '}', 0);
            let ei = find_char(t1, '}')->0;
            let t2 = t1.skip(ei + 1);
            if t2.len() == 0 {
                assert(template_vars(t2) =~= Seq::<Seq<char>>::empty()) by {
                    assert(find_char_from(t2, '{', 0) is None);
                }
                assert(binding_names(b) =~= seq![t1.take(ei)] + template_vars(t2));
            } else {
                let nb = match find_char(t2, '{') {
                    Some(k) => k,
                    None => t2.len() as int,
                };
                let delim = t2.take(nb);
                let ve = find_seq(u1, delim)->0;
                let rest = match_steps(t2, u1.skip(ve))->0;
                lemma_match_names(t2, u1.skip(ve));
                assert(b == seq![(t1.take(ei), u1.take(ve))] + rest);
                assert(binding_names(b) =~= seq![t1.take(ei)] + binding_names(rest));
            }
        },
    }
}

proof fn lemma_bindings_keys(b: Seq<(Seq<char>, Seq<char>)>, k: Seq<char>)
    ensures
        bindings_map(b).contains_key(k) <==> binding_names(b).contains(k),
    decreases b.len(),
{
    if b.len() > 0 {
        let init = b.drop_last();
        lemma_bindings_keys(init, k);
        let nb = binding_names(b);
        let ni = binding_names(init);
        assert(nb =~= ni.push(b.last().0));
        if ni.contains(k) {
            let i = choose|i: int| 0 <= i < ni.len() && ni[i] == k;
            assert(nb[i] == k);
        }
        if nb.contains(k) && k != b.last().0 {
            let i = choose|i: int| 0 <= i < nb.len() && nb[i] == k;
            assert(i < ni.len());
            assert(ni[i] == k);
        }
        if k == b.last().0 {
            assert(nb[nb.len() - 1] == k);
        }
    }
}

/// The variables a match binds are exactly the template's variables, in
/// the template's order; a template without variables matches exactly
/// itself, binding nothing.
pub proof fn law_match_binds_template_vars(t: Seq<char>, u: Seq<char>)
    ensures
        match_steps(t, u) matches Some(b) ==> binding_names(b) == template_vars(t) && forall|k: Seq<char>|
            #[trigger] bindings_map(b).contains_key(k) <==> template_vars(t).contains(k),
        find_char(t, '{') is None ==> (match_steps(t, u) is Some <==> t == u) && (match_steps(t, u) matches Some(b)
            ==> b.len() == 0),
{
    if match_steps(t, u) is Some {
        let b = match_steps(t, u)->0;
        lemma_match_names(t, u);
        assert forall|k: Seq<char>| #[trigger] bindings_map(b).contains_key(k) <==> template_vars(t).contains(k) by {
            lemma_bindings_keys(b, k);
        }
    }
}

/// The value each of `names` has in `m`, in order.
pub open spec fn values_by_name(m: Map<Seq<char>, Seq<char>>, names: Seq<Seq<char>>) -> Seq<Seq<char>> {
    names.map_values(|n: Seq<char>| m[n])
}

proof fn lemma_bound_value(b: Seq<(Seq<char>, Seq<char>)>, i: int)
    requires
        binding_names(b).no_duplicates(),
        0 <= i < b.len(),
    ensures
        bindings_map(b).contains_key(b[i].0),
        bindings_map(b)[b[i].0] == b[i].1,
    decreases b.len(),
{
    let init = b.drop_last();
    if i < b.len() - 1 {
        assert(binding_names(init) =~= binding_names(b).drop_last());
        assert(binding_names(b)[i] != binding_names(b)[b.len() - 1]);
        lemma_bound_value(init, i);
        assert(init[i] == b[i]);
    }
}

/// With distinct variable names, the matched map read back in the
/// template's order expands the template to the URI again; a matched URI is
/// the template with each `{v}` replaced by the value the map gives `v`.
pub proof fn law_match_map_expands_back(t: Seq<char>, u: Seq<char>)
    requires
        template_vars(t).no_duplicates(),
        match_steps(t, u) is Some,
    ensures
        expand(t, values_by_name(bindings_map(match_steps(t, u)->0), template_vars(t))) == u,
{
    let b = match_steps(t, u)->0;
    lemma_match_names(t, u);
    law_match_expands_back(t, u);
    assert(values_by_name(bindings_map(b), template_vars(t)) =~= binding_values(b)) by {
        assert forall|i: int| 0 <= i < b.len() implies #[trigger] binding_values(b)[i] == values_by_name(
            bindings_map(b),
            template_vars(t),
        )[i] by {
            assert(template_vars(t)[i] == b[i].0);
            lemma_bound_value(b, i);
        }
    }
}

/// Whether `s` holds no `{`.
pub open spec fn brace_free(s: Seq<char>) -> bool {
    forall|i: int| 0 <= i < s.len() ==> s[i] != '{'
}

/// Whether a variable name holds neither `{` nor `}`.
pub open spec fn plain_name(s: Seq<char>) -> bool {
    forall|i: int| 0 <= i < s.len() ==> s[i] != '{' && s[i] != '}'
}

/// The template with literal prefix `lit` followed, for each
/// `(name, literal)` of `vars`, by `{name}` and that literal.
pub open spec fn template_from(lit: Seq<char>, vars: Seq<(Seq<char>, Seq<char>)>) -> Seq<char>
    decreases vars.len(),
{
    if vars.len() == 0 {
        lit
    } else {
        lit + seq!['{'] + vars[0].0 + seq!['}'] + template_from(vars[0].1, vars.skip(1))
    }
}

/// That template's expansion with the values `vals`, in order.
pub open spec fn uri_from(lit: Seq<char>, vars: Seq<(Seq<char>, Seq<char>)>, vals: Seq<Seq<char>>) -> Seq<char>
    decreases vars.len(),
{
    if vars.len() == 0 || vals.len() == 0 {
        lit
    } else {
        lit + vals[0] + uri_from(vars[0].1, vars.skip(1), vals.skip(1))
    }
}

/// Whether value `v` ends where the literal `d` that follows it first
/// occurs: `d` occurs in `v` followed by `d` nowhere before the end of `v`.
pub open spec fn ends_at_literal(v: Seq<char>, d: Seq<char>) -> bool {
    forall|j: int| 0 <= j < v.len() ==> !#[trigger] occurs_at(v + d, d, j)
}

/// Whether each value stops at the literal text that follows its variable
/// (a last variable with nothing after it takes the rest of the URI).
pub open spec fn values_fit(vars: Seq<(Seq<char>, Seq<char>)>, vals: Seq<Seq<char>>) -> bool {
    forall|i: int|
        0 <= i < vars.len() ==> (i == vars.len() - 1 && vars[i].1.len() == 0) || ends_at_literal(
            #[trigger] vals[i],
            vars[i].1,
        )
}

proof fn lemma_find_char_at(s: Seq<char>, c: char, i: int, k: int)
    requires
        0 <= i <= k < s.len(),
        s[k] == c,
        forall|j: int| i <= j < k ==> s[j] != c,
    ensures
        find_char_from(s, c, i) == Some(k),
    decreases k - i,
{
    if i < k {
        lemma_find_char_at(s, c, i + 1, k);
    }
}

proof fn lemma_find_char_none(s: Seq<char>, c: char, i: int)
    requires
        0 <= i,
        forall|j: int| i <= j < s.len() ==> s[j] != c,
    ensures
        find_char_from(s, c, i) is None,
    decreases s.len() - i,
{
    if i < s.len() {
        lemma_find_char_none(s, c, i + 1);
    }
}

proof fn lemma_find_seq_at(s: Seq<char>, d: Seq<char>, i: int, k: int)
    requires
        0 <= i <= k,
        occurs_at(s, d, k),
        forall|j: int| i <= j < k ==> !#[trigger] occurs_at(s, d, j),
    ensures
        find_seq_from(s, d, i) == Some(k),
    decreases k - i,
{
    if i < k {
        assert(!occurs_at(s, d, i));
        lemma_find_seq_at(s, d, i + 1, k);
    }
}

/// Completeness of matching: expanding a template whose literals hold no
/// `{` and whose names hold no braces, with values that each stop at the
/// literal text following their variable, gives a URI that matches the
/// template and binds each variable, in order, to its value.
#[verifier::rlimit(40)]
pub proof fn law_match_complete(lit: Seq<char>, vars: Seq<(Seq<char>, Seq<char>)>, vals: Seq<Seq<char>>)
    requires
        vals.len() == vars.len(),
        brace_free(lit),
        forall|i: int| 0 <= i < vars.len() ==> plain_name(#[trigger] vars[i].0) && brace_free(vars[i].1),
        values_fit(vars, vals),
    ensures
        match_steps(template_from(lit, vars), uri_from(lit, vars, vals)) == Some(
            Seq::new(vars.len(), |i: int| (vars[i].0, vals[i])),
        ),
    decreases vars.len(),
{
    let t = template_from(lit, vars);
    let u = uri_from(lit, vars, vals);
    let want = Seq::new(vars.len(), |i: int| (vars[i].0, vals[i]));
    if vars.len() == 0 {
        lemma_find_char_none(t, '{', 0);
        assert(want =~= Seq::<(Seq<char>, Seq<char>)>::empty());
    } else {
        let name = vars[0].0;
        let lit1 = vars[0].1;
        let v = vals[0];
        let rest_vars = vars.skip(1);
        let rest_vals = vals.skip(1);
        let tr = template_from(lit1, rest_vars);
        let ur = uri_from(lit1, rest_vars, rest_vals);
        assert(plain_name(name) && brace_free(lit1));
        assert(t == lit + seq!['{'] + name + seq!['}'] + tr);
        assert(u == lit + v + ur);
        let si = lit.len() as int;
        assert(t[si] == '{');
        lemma_find_char_at(t, '{', 0, si);
        assert(t.take(si) =~= lit);
        assert(u.take(si) =~= lit);
        let u1 = u.skip(si);
        assert(u1 =~= v + ur);
        let t1 = t.skip(si + 1);
        assert(t1 =~= name + seq!['}'] + tr);
        let ei = name.len() as int;
        assert(t1[ei] == '}');
        lemma_find_char_at(t1, '}', 0, ei);
        assert(t1.take(ei) =~= name);
        let t2 = t1.skip(ei + 1);
        assert(t2 =~= tr);
        // the rest of the template, with the rest of the values
        assert forall|i: int| 0 <= i < rest_vars.len() implies plain_name(#[trigger] rest_vars[i].0) && brace_free(
            rest_vars[i].1,
        ) by {
            assert(rest_vars[i] == vars[i + 1]);
        }
        assert(values_fit(rest_vars, rest_vals)) by {
            assert forall|i: int| 0 <= i < rest_vars.len() implies (i == rest_vars.len() - 1 && rest_vars[i].1.len()
                == 0) || ends_at_literal(#[trigger] rest_vals[i], rest_vars[i].1) by {
                assert(rest_vals[i] == vals[i + 1]);
                assert(rest_vars[i] == vars[i + 1]);
            }
        }
        law_match_complete(lit1, rest_vars, rest_vals);
        let rest = Seq::new(rest_vars.len(), |i: int| (rest_vars[i].0, rest_vals[i]));
        assert(want =~= seq![(name, v)] + rest);
        if rest_vars.len() == 0 {
            assert(ur == lit1);
            assert(tr == lit1);
        }
        if t2.len() == 0 {
            assert(lit1.len() == 0 && rest_vars.len() == 0);
            assert(u1 =~= v);
            assert(rest =~= Seq::<(Seq<char>, Seq<char>)>::empty());
        } else {
            // the delimiter is the literal after the variable
            if rest_vars.len() > 0 {
                assert(tr == lit1 + seq!['{'] + rest_vars[0].0 + seq!['}'] + template_from(rest_vars[0].1, rest_vars.skip(1)));
                assert(tr[lit1.len() as int] == '{');
                lemma_find_char_at(tr, '{', 0, lit1.len() as int);
            } else {
                lemma_find_char_none(tr, '{', 0);
            }
            let nb = match find_char(t2, '{') {
                Some(k) => k,
                None => t2.len() as int,
            };
            assert(nb == lit1.len());
            let delim = t2.take(nb);
            assert(delim =~= lit1);
            assert(!(0 == vars.len() - 1 && vars[0].1.len() == 0));
            assert(ends_at_literal(vals[0], vars[0].1));
            assert(occurs_at(u1, lit1, v.len() as int)) by {
                assert(rest_vars.len() == 0 ==> ur == lit1);
                if rest_vars.len() > 0 {
                    assert(ur == lit1 + rest_vals[0] + uri_from(rest_vars[0].1, rest_vars.skip(1), rest_vals.skip(1)));
                }
                assert(u1.subrange(v.len() as int, (v.len() + lit1.len()) as int) =~= lit1);
            }
            assert forall|j: int| 0 <= j < v.len() implies !#[trigger] occurs_at(u1, lit1, j) by {
                assert(!occurs_at(v + lit1, lit1, j));
                if occurs_at(u1, lit1, j) {
                    assert(u1.subrange(j, j + lit1.len()) =~= (v + lit1).subrange(j, j + lit1.len()));
                }
            }
            lemma_find_seq_at(u1, lit1, 0, v.len() as int);
            assert(u1.take(v.len() as int) =~= v);
            assert(u1.skip(v.len() as int) =~= ur);
        }
    }
}

/// Variables extracted from a URI, by name. Each name occurs once.
pub struct UriParams {
    entries: Vec<(String, String)>,
}

impl View for UriParams {
    type V = Map<Seq<char>, Seq<char>>;

    /// The bindings as a map from names to values.
    closed spec fn view(&self) -> Map<Seq<char>, Seq<char>> {
        Map::new(
            |k: Seq<char>| exists|i: int| 0 <= i < self.entries@.len() && self.entries@[i].0@ == k,
            |k: Seq<char>| self.entries@[self.index_of(k)].1@,
        )
    }
}

impl UriParams {
    /// Names are unique among the entries.
    pub closed spec fn wf(&self) -> bool {
        forall|i: int, j: int| 0 <= i < j < self.entries@.len() ==> self.entries@[i].0@ != self.entries@[j].0@
    }

    /// The index of the entry named `k`.
    pub closed spec fn index_of(&self, k: Seq<char>) -> int {
        choose|i: int| 0 <= i < self.entries@.len() && self.entries@[i].0@ == k
    }


    /// No variables.
    pub fn new() -> (r: Self)
        ensures
            r.wf(),
            r@ == Map::<Seq<char>, Seq<char>>::empty(),
    {
        let r = UriParams { entries: Vec::new() };
        assert(r@ =~= Map::<Seq<char>, Seq<char>>::empty());
        r
    }

    fn position(&self, key: &str) -> (r: Option<usize>)
        requires
            self.wf(),
        ensures
            match r {
                Some(i) => i < self.entries@.len() && self.entries@[i as int].0@ == key@,
                None => forall|i: int| 0 <= i < self.entries@.len() ==> self.entries@[i].0@ != key@,
            },
    {
        let kc = chars_of(key);
        let mut i: usize = 0;
        while i < self.entries.len()
            invariant
                kc@ == key@,
                i <= self.entries@.len(),
                forall|j: int| 0 <= j < i ==> self.entries@[j].0@ != key@,
            decreases self.entries.len() - i,
        {
            let ec = chars_of(self.entries[i].0.as_str());
            assert(ec@.len() == kc@.len() ==> ec@.subrange(0, kc@.len() as int) =~= ec@);
            if ec.len() == kc.len() && chars_match_at(&ec, &kc, 0) {
                return Some(i);
            }
            i = i + 1;
        }
        None
    }

    /// Bind `key` to `value`, replacing an earlier binding of `key`.
    pub fn insert(&mut self, key: String, value: String)
        requires
            old(self).wf(),
        ensures
            final(self).wf(),
            final(self)@ == old(self)@.insert(key@, value@),
    {
        match self.position(key.as_str()) {
            Some(i) => {
                let ghost before = self.entries@;
                self.entries.set(i, (key, value));
                assert(self@ =~= old(self)@.insert(key@, value@)) by {
                    assert forall|k: Seq<char>| #[trigger] self@.contains_key(k)
                        == old(self)@.insert(key@, value@).contains_key(k) by {
                        if old(self)@.contains_key(k) {
                            let j = choose|j: int| 0 <= j < before.len() && before[j].0@ == k;
                            assert(self.entries@[j].0@ == k);
                        }
                    }
                    assert forall|k: Seq<char>| self@.contains_key(k) implies #[trigger] self@[k]
                        == old(self)@.insert(key@, value@)[k] by {
                        let a = self.index_of(k);
                        if k != key@ {
                            let b = old(self).index_of(k);
                            assert(a == b);
                        }
                    }
                }
            },
            None => {
                let ghost before = self.entries@;
                self.entries.push((key, value));
                assert(self@ =~= old(self)@.insert(key@, value@)) by {
                    assert forall|k: Seq<char>| #[trigger] self@.contains_key(k)
                        == old(self)@.insert(key@, value@).contains_key(k) by {
                        if old(self)@.contains_key(k) {
                            let j = choose|j: int| 0 <= j < before.len() && before[j].0@ == k;
                            assert(self.entries@[j].0@ == k);
                        }
                        if k == key@ {
                            assert(self.entries@[before.len() as int].0@ == k);
                        }
                    }
                    assert forall|k: Seq<char>| self@.contains_key(k) implies #[trigger] self@[k]
                        == old(self)@.insert(key@, value@)[k] by {
                        let a = self.index_of(k);
                        if k != key@ {
                            let b = old(self).index_of(k);
                            assert(a == b);
                        }
                    }
                }
            },
        }
    }

    /// The value bound to `key`.
    pub fn get(&self, key: &str) -> (r: Option<&String>)
        requires
            self.wf(),
        ensures
            match r {
                Some(v) => self@.contains_key(key@) && self@[key@] == v@,
                None => !self@.contains_key(key@),
            },
    {
        match self.position(key) {
            Some(i) => {
                let ghost j = self.index_of(key@);
                assert(j == i as int);
                Some(&self.entries[i].1)
            },
            None => None,
        }
    }

    /// Whether no variable is bound.
    pub fn is_empty(&self) -> (r: bool)
        requires
            self.wf(),
        ensures
            r == (self@ == Map::<Seq<char>, Seq<char>>::empty()),
    {
        if self.entries.len() == 0 {
            assert(self@ =~= Map::<Seq<char>, Seq<char>>::empty());
            true
        } else {
            assert(self@.contains_key(self.entries@[0].0@));
            false
        }
    }
}

pub fn find_char_vec(s: &Vec<char>, c: char) -> (r: Option<usize>)
    ensures
        match find_char(s@, c) {
            Some(k) => r == Some(k as usize),
            None => r is None,
        },
{
    let mut i: usize = 0;
    while i < s.len()
        invariant
            i <= s.len(),
            find_char_from(s@, c, i as int) == find_char_from(s@, c, 0),
        decreases s.len() - i,
    {
        if s[i] == c {
            return Some(i);
        }
        i = i + 1;
    }
    None
}

pub fn find_seq_vec(s: &Vec<char>, p: &Vec<char>) -> (r: Option<usize>)
    ensures
        match find_seq(s@, p@) {
            Some(k) => r == Some(k as usize),
            None => r is None,
        },
{
    let mut i: usize = 0;
    while i < s.len()
        invariant
            i <= s.len(),
            find_seq_from(s@, p@, i as int) == find_seq_from(s@, p@, 0),
        decreases s.len() - i,
    {
        if chars_match_at(s, p, i) {
            return Some(i);
        }
        i = i + 1;
    }
    if chars_match_at(s, p, i) {
        return Some(i);
    }
    assert(find_seq_from(s@, p@, i + 1) is None);
    None
}

/// Match `uri` against the template `template` with `{variable}`
/// placeholders, extracting each variable's value; `None` when the URI does
/// not match.
pub fn match_uri_template(template: &str, uri: &str) -> (r: Option<UriParams>)
    ensures
        match match_steps(template@, uri@) {
            Some(steps) => r matches Some(m) && m.wf() && m@ == bindings_map(steps),
            None => r is None,
        },
{
    let mut t = chars_of(template);
    let mut u = chars_of(uri);
    let mut params = UriParams::new();
    let ghost mut done: Seq<(Seq<char>, Seq<char>)> = Seq::empty();
    loop
        invariant
            params.wf(),
            params@ == bindings_map(done),
            match_steps(template@, uri@) == (match match_steps(t@, u@) {
                Some(rest) => Some(done + rest),
                None => None::<Seq<(Seq<char>, Seq<char>)>>,
            }),
        decreases t.len(),
    {
        let ghost t0 = t@;
        let ghost u0 = u@;
        match find_char_vec(&t, '{') {
            None => {
                assert(t@.len() == u@.len() && occurs_at(u@, t@, 0) ==> t@ =~= u@) by {
                    if t@.len() == u@.len() && occurs_at(u@, t@, 0) {
                        assert(u@.subrange(0, t@.len() as int) =~= u@);
                    }
                }
                if t.len() == u.len() && chars_match_at(&u, &t, 0) {
                    assert(done + Seq::<(Seq<char>, Seq<char>)>::empty() =~= done);
                    return Some(params);
                }
                assert(t@ != u@) by {
                    if t@ == u@ {
                        assert(u@.subrange(0, t@.len() as int) =~= u@);
                    }
                }
                return None;
            },
            Some(si) => {
                proof {
                    lemma_find_char_from(t@, '{', 0);
                }
                let prefix = chars_slice(&t, 0, si);
                assert(occurs_at(u@, prefix@, 0) == (u@.len() >= prefix@.len() && u@.take(prefix@.len() as int) == prefix@)) by {
                    if u@.len() >= prefix@.len() {
                        assert(u@.subrange(0, prefix@.len() as int) =~= u@.take(prefix@.len() as int));
                    }
                }
                assert(prefix@ =~= t@.take(si as int));
                if !chars_match_at(&u, &prefix, 0) {
                    return None;
                }
                let u1 = chars_slice(&u, si, u.len());
                let t1 = chars_slice(&t, si + 1, t.len());
                assert(u1@ =~= u@.skip(prefix@.len() as int));
                assert(t1@ =~= t@.skip(si + 1));
                let ei = match find_char_vec(&t1, '}') {
                    Some(e) => e,
                    None => return None,
                };
                proof {
                    lemma_find_char_from(t1@, '}', 0);
                }
                let name = chars_slice(&t1, 0, ei);
                let t2 = chars_slice(&t1, ei + 1, t1.len());
                assert(name@ =~= t1@.take(ei as int));
                assert(t2@ =~= t1@.skip(ei + 1));
                if t2.len() == 0 {
                    let ghost step = (name@, u1@);
                    params.insert(string_from_chars(name), string_from_chars(u1));
                    proof {
                        assert(done.push(step).drop_last() =~= done);
                        assert(done + seq![step] =~= done.push(step));
                    }
                    return Some(params);
                }
                let nb = match find_char_vec(&t2, '{') {
                    Some(k) => k,
                    None => t2.len(),
                };
                proof {
                    lemma_find_char_from(t2@, '{', 0);
                }
                let delim = chars_slice(&t2, 0, nb);
                assert(delim@ =~= t2@.take(nb as int));
                let ve = match find_seq_vec(&u1, &delim) {
                    Some(v) => v,
                    None => return None,
                };
                proof {
                    lemma_find_seq_from(u1@, delim@, 0);
                }
                let value = chars_slice(&u1, 0, ve);
                let rest = chars_slice(&u1, ve, u1.len());
                assert(value@ =~= u1@.take(ve as int));
                assert(rest@ =~= u1@.skip(ve as int));
                let ghost step = (name@, value@);
                params.insert(string_from_chars(name), string_from_chars(value));
                proof {
                    assert(done.push(step).drop_last() =~= done);
                    match match_steps(t2@, rest@) {
                        Some(r2) => {
                            assert(done + (seq![step] + r2) =~= done.push(step) + r2);
                        },
                        None => {},
                    }
                    done = done.push(step);
                }
                t = t2;
                u = rest;
            },
        }
    }
}

} // verus!
