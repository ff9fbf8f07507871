//! Name-keyed registries of tools, prompts and resources, and the rules of
//! batch tool execution. A registry holds one entry per name; registering a
//! name again replaces its entry.
use vstd::prelude::*;
use crate::text::str_eq;
use crate::types::output::{ToolError, ToolOutput};
use crate::uri_template::{match_steps, match_uri_template};

verus! {

/// Entries keyed by a static name; each name occurs once.
pub struct NamedRegistry<E> {
    entries: Vec<(&'static str, E)>,
}

impl<E> NamedRegistry<E> {
    /// Names are unique among the entries.
    pub open spec fn wf(&self) -> bool {
        unique_names(self.items())
    }

    /// The entries in registration order (a re-registered name moves last).
    pub closed spec fn items(&self) -> Seq<(&'static str, E)> {
        self.entries@
    }

    /// The registered names.
    pub open spec fn names(&self) -> Set<Seq<char>> {
        Set::new(|n: Seq<char>| exists|i: int| 0 <= i < self.items().len() && #[trigger] self.items()[i].0@ == n)
    }

    /// An empty registry.
    pub fn new() -> (r: Self)
        ensures
            r.wf(),
            r.items() == Seq::<(&'static str, E)>::empty(),
    {
        NamedRegistry { entries: Vec::new() }
    }

    fn position(&self, name: &str) -> (r: Option<usize>)
        requires
            self.wf(),
        ensures
            match r {
                Some(i) => i < self.items().len() && self.items()[i as int].0@ == name@,
                None => forall|i: int| 0 <= i < self.items().len() ==> self.items()[i].0@ != name@,
            },
    {
        let mut i: usize = 0;
        while i < self.entries.len()
            invariant
                i <= self.entries@.len(),
                forall|j: int| 0 <= j < i ==> self.entries@[j].0@ != name@,
            decreases self.entries.len() - i,
        {
            if str_eq(self.entries[i].0, name) {
                return Some(i);
            }
            i = i + 1;
        }
        None
    }

    /// Register `entry` under `name`, replacing (and moving last) an entry
    /// already registered under that name.
    pub fn register(&mut self, name: &'static str, entry: E)
        requires
            old(self).wf(),
        ensures
            final(self).wf(),
            final(self).items() == without(old(self).items(), name@).push((name, entry)),
    {
        match self.position(name) {
            Some(i) => {
                let ghost before = self.entries@;
                self.entries.remove(i);
                assert(self.entries@ =~= without(before, name@)) by {
                    lemma_without_unique(before, name@, i as int);
                }
            },
            None => {
                assert(forall|i: int| 0 <= i < self.items().len() ==> self.items()[i].0@ != name@);
                assert(self.items() == self.entries@);
                proof {
                    lemma_without_absent(self.entries@, name@);
                }
            },
        }
        let ghost kept = self.entries@;
        self.entries.push((name, entry));
        assert forall|i: int, j: int| 0 <= i < j < self.entries@.len() implies self.entries@[i].0@ != self.entries@[j].0@ by {
            if j == kept.len() {
                lemma_without_lacks(old(self).items(), name@, i);
            }
        }
    }

    /// Remove the entry named `name`; whether there was one.
    pub fn remove(&mut self, name: &str) -> (r: bool)
        requires
            old(self).wf(),
        ensures
            final(self).wf(),
            r == old(self).names().contains(name@),
            final(self).items() == without(old(self).items(), name@),
    {
        match self.position(name) {
            Some(i) => {
                let ghost before = self.entries@;
                self.entries.remove(i);
                proof {
                    lemma_without_unique(before, name@, i as int);
                    assert(old(self).items()[i as int].0@ == name@);
                }
                true
            },
            None => {
                assert(forall|i: int| 0 <= i < self.items().len() ==> self.items()[i].0@ != name@);
                assert(self.items() == self.entries@);
                proof {
                    lemma_without_absent(self.entries@, name@);
                }
                false
            },
        }
    }

    /// Remove every entry.
    pub fn clear(&mut self)
        ensures
            final(self).wf(),
            final(self).items() == Seq::<(&'static str, E)>::empty(),
    {
        self.entries.clear();
    }

    /// Number of registered entries.
    pub fn len(&self) -> (r: usize)
        ensures
            r == self.items().len(),
    {
        self.entries.len()
    }

    /// Whether nothing is registered.
    pub fn is_empty(&self) -> (r: bool)
        ensures
            r == (self.items().len() == 0),
    {
        self.entries.len() == 0
    }

    /// Whether an entry is registered under `name`.
    pub fn contains(&self, name: &str) -> (r: bool)
        requires
            self.wf(),
        ensures
            r == self.names().contains(name@),
    {
        match self.position(name) {
            Some(i) => {
                assert(self.items()[i as int].0@ == name@);
                true
            },
            None => false,
        }
    }

    /// The entry registered under `name`.
    pub fn get(&self, name: &str) -> (r: Option<&E>)
        requires
            self.wf(),
        ensures
            match r {
                Some(e) => exists|i: int| 0 <= i < self.items().len() && self.items()[i].0@ == name@ && self.items()[i].1 == *e,
                None => !self.names().contains(name@),
            },
    {
        match self.position(name) {
            Some(i) => Some(&self.entries[i].1),
            None => None,
        }
    }

    /// The entries, in registration order.
    pub fn entries(&self) -> (r: &Vec<(&'static str, E)>)
        ensures
            r@ == self.items(),
    {
        &self.entries
    }
}

/// Whether an entry is named otherwise than `n`.
pub open spec fn named_other<E>(n: Seq<char>) -> spec_fn((&'static str, E)) -> bool {
    |e: (&'static str, E)| e.0@ != n
}

/// `s` without its entries named `n`.
pub open spec fn without<E>(s: Seq<(&'static str, E)>, n: Seq<char>) -> Seq<(&'static str, E)> {
    s.filter(named_other(n))
}

proof fn lemma_without_absent<E>(s: Seq<(&'static str, E)>, n: Seq<char>)
    requires
        forall|i: int| 0 <= i < s.len() ==> s[i].0@ != n,
    ensures
        without(s, n) == s,
    decreases s.len(),
{
    reveal(Seq::filter);
    if s.len() > 0 {
        lemma_without_absent(s.drop_last(), n);
        assert(s.drop_last().push(s.last()) =~= s);
    } else {
        assert(without(s, n) =~= s);
    }
}

proof fn lemma_without_unique<E>(s: Seq<(&'static str, E)>, n: Seq<char>, i: int)
    requires
        0 <= i < s.len(),
        s[i].0@ == n,
        forall|a: int, b: int| 0 <= a < b < s.len() ==> s[a].0@ != s[b].0@,
    ensures
        without(s, n) == s.remove(i),
    decreases s.len(),
{
    reveal(Seq::filter);
    if i == s.len() - 1 {
        lemma_without_absent(s.drop_last(), n);
        assert(s.remove(i) =~= s.drop_last());
    } else {
        lemma_without_unique(s.drop_last(), n, i);
        assert(s.remove(i) =~= s.drop_last().remove(i).push(s.last()));
        assert(s.last().0@ != n);
    }
}

proof fn lemma_without_lacks<E>(s: Seq<(&'static str, E)>, n: Seq<char>, i: int)
    requires
        0 <= i < without(s, n).len(),
    ensures
        without(s, n)[i].0@ != n,
{
    s.lemma_filter_pred(named_other(n), i);
}

/// Registering a name twice keeps one entry for it: the one registered last.
pub proof fn law_register_replaces<E>(s: Seq<(&'static str, E)>, name: &'static str, a: E, b: E)
    ensures
        without(without(s, name@).push((name, a)), name@).push((name, b)) == without(s, name@).push((name, b)),
{
    let w = without(s, name@);
    assert(without(w.push((name, a)), name@) =~= w) by {
        reveal(Seq::filter);
        assert(w.push((name, a)).drop_last() =~= w);
        assert forall|i: int| 0 <= i < w.len() implies w[i].0@ != name@ by {
            lemma_without_lacks(s, name@, i);
        }
        lemma_without_absent(w, name@);
    }
}

/// The entries after registering `e` under `name` in `s`.
pub open spec fn registered<E>(s: Seq<(&'static str, E)>, name: &'static str, e: E) -> Seq<(&'static str, E)> {
    without(s, name@).push((name, e))
}

/// The entry registered under `n` in `s`, if any.
pub open spec fn entry_named<E>(s: Seq<(&'static str, E)>, n: Seq<char>) -> Option<E> {
    if exists|i: int| 0 <= i < s.len() && #[trigger] s[i].0@ == n {
        Some(s[choose|i: int| 0 <= i < s.len() && #[trigger] s[i].0@ == n].1)
    } else {
        None
    }
}

/// Whether the names of `s` are pairwise distinct.
pub open spec fn unique_names<E>(s: Seq<(&'static str, E)>) -> bool {
    forall|a: int, b: int| 0 <= a < b < s.len() ==> s[a].0@ != s[b].0@
}

proof fn lemma_entry_at<E>(s: Seq<(&'static str, E)>, i: int)
    requires
        unique_names(s),
        0 <= i < s.len(),
    ensures
        entry_named(s, s[i].0@) == Some(s[i].1),
{
    let n = s[i].0@;
    assert(s[i].0@ == n);
    let c = choose|c: int| 0 <= c < s.len() && #[trigger] s[c].0@ == n;
    if c != i {
        if c < i {
            assert(s[c].0@ != s[i].0@);
        } else {
            assert(s[i].0@ != s[c].0@);
        }
    }
}

proof fn lemma_without_keeps_unique<E>(s: Seq<(&'static str, E)>, n: Seq<char>)
    requires
        unique_names(s),
    ensures
        unique_names(without(s, n)),
    decreases s.len(),
{
    reveal(Seq::filter);
    if s.len() > 0 {
        let init = s.drop_last();
        assert(unique_names(init)) by {
            assert forall|a: int, b: int| 0 <= a < b < init.len() implies init[a].0@ != init[b].0@ by {
                assert(s[a].0@ != s[b].0@);
            }
        }
        lemma_without_keeps_unique(init, n);
        let wi = without(init, n);
        if s.last().0@ != n {
            assert(without(s, n) =~= wi.push(s.last()));
            assert forall|a: int| 0 <= a < wi.len() implies #[trigger] wi[a].0@ != s.last().0@ by {
                init.lemma_filter_contains_rev(named_other(n), wi[a]);
                assert(wi.contains(wi[a]));
                let j = choose|j: int| 0 <= j < init.len() && init[j] == wi[a];
                assert(s[j].0@ != s[s.len() - 1].0@);
            }
        } else {
            assert(without(s, n) =~= wi);
        }
    }
}

/// Registering `e` under `name` in entries `s` whose names are distinct (the
/// entries of every registry: `wf` is `unique_names(items())`): afterwards
/// `name` holds `e`, every other name keeps its entry (or its absence), and
/// the count grows by one exactly when `name` was not registered.
pub proof fn law_register_effect<E>(s: Seq<(&'static str, E)>, name: &'static str, e: E)
    requires
        unique_names(s),
    ensures
        unique_names(registered(s, name, e)),
        entry_named(registered(s, name, e), name@) == Some(e),
        forall|n: Seq<char>| n != name@ ==> #[trigger] entry_named(registered(s, name, e), n) == entry_named(s, n),
        registered(s, name, e).len() == s.len() + if entry_named(s, name@) is Some {
            0int
        } else {
            1int
        },
{
    let w = without(s, name@);
    let after = registered(s, name, e);
    let last = w.len() as int;
    assert forall|i: int| 0 <= i < w.len() implies #[trigger] w[i].0@ != name@ by {
        lemma_without_lacks(s, name@, i);
    }
    lemma_without_keeps_unique(s, name@);
    assert forall|a: int, b: int| 0 <= a < b < after.len() implies after[a].0@ != after[b].0@ by {
        if b == last {
            assert(w[a].0@ != name@);
        } else {
            assert(w[a].0@ != w[b].0@);
        }
    }
    assert(after[last] == (name, e));
    lemma_entry_at(after, last);
    assert forall|n: Seq<char>| n != name@ implies #[trigger] entry_named(after, n) == entry_named(s, n) by {
        if exists|i: int| 0 <= i < s.len() && #[trigger] s[i].0@ == n {
            let j = choose|i: int| 0 <= i < s.len() && #[trigger] s[i].0@ == n;
            lemma_entry_at(s, j);
            s.lemma_filter_contains(named_other(name@), j);
            assert(w.contains(s[j]));
            let k = choose|k: int| 0 <= k < w.len() && w[k] == s[j];
            assert(after[k] == s[j]);
            lemma_entry_at(after, k);
        } else {
            if exists|i: int| 0 <= i < after.len() && #[trigger] after[i].0@ == n {
                let k = choose|i: int| 0 <= i < after.len() && #[trigger] after[i].0@ == n;
                assert(k != last);
                s.lemma_filter_contains_rev(named_other(name@), w[k]);
                assert(w.contains(w[k]));
                let j = choose|j: int| 0 <= j < s.len() && s[j] == w[k];
                assert(s[j].0@ == n);
            }
        }
    }
    if exists|i: int| 0 <= i < s.len() && #[trigger] s[i].0@ == name@ {
        let i = choose|i: int| 0 <= i < s.len() && #[trigger] s[i].0@ == name@;
        lemma_without_unique(s, name@, i);
    } else {
        lemma_without_absent(s, name@);
    }
}

/// Execution strategy for a batch of tool invocations.
#[derive(Debug, Clone, Copy, PartialEq, Eq, Structural)]
pub enum BatchExecutionMode {
    /// Execute all calls concurrently, collecting outcomes in call order;
    /// destructive tools need explicit confirmation.
    Parallel,
    /// Execute all calls concurrently, allowing destructive tools.
    ParallelAllowDestructive,
    /// Execute calls one by one in call order, halting at the first error.
    SequentialStopOnError,
}

impl Default for BatchExecutionMode {
    fn default() -> (r: Self)
        ensures
            r == BatchExecutionMode::Parallel,
    {
        BatchExecutionMode::Parallel
    }
}

/// Marker context extension to explicitly allow destructive tools in a
/// parallel batch.
#[derive(Debug, Clone, Copy, PartialEq, Eq, Structural)]
pub struct AllowDestructiveBatch(pub bool);

/// Borrowed string-based tool invocation within a batch.
#[derive(Debug, Clone, Copy, PartialEq, Eq)]
pub struct BatchToolCallStr<'a> {
    /// Caller-assigned tool call identifier.
    pub id: &'a str,
    /// Target registered tool name.
    pub name: &'a str,
    /// Raw JSON arguments string.
    pub arguments_json: &'a str,
}

/// What running a tool does to what it acts on.
#[derive(Debug, Clone, Copy, PartialEq, Eq, Structural)]
pub enum ToolEffect {
    /// Only reads.
    ReadOnly,
    /// Changes state.
    Mutating,
    /// Destroys data; a parallel batch runs it only when confirmed.
    Destructive,
}

/// The effect an `effect = "..."` attribute value names.
pub open spec fn effect_named(name: Seq<char>) -> Option<ToolEffect> {
    if name == "read_only"@ {
        Some(ToolEffect::ReadOnly)
    } else if name == "mutating"@ {
        Some(ToolEffect::Mutating)
    } else if name == "destructive"@ {
        Some(ToolEffect::Destructive)
    } else {
        None
    }
}

impl ToolEffect {
    /// The effect named `name` (`"read_only"`, `"mutating"` or
    /// `"destructive"`), if it names one.
    pub fn from_name(name: &str) -> (r: Option<ToolEffect>)
        ensures
            r == effect_named(name@),
    {
        proof {
            reveal_strlit("read_only");
            reveal_strlit("mutating");
            reveal_strlit("destructive");
        }
        if str_eq(name, "read_only") {
            Some(ToolEffect::ReadOnly)
        } else if str_eq(name, "mutating") {
            Some(ToolEffect::Mutating)
        } else if str_eq(name, "destructive") {
            Some(ToolEffect::Destructive)
        } else {
            None
        }
    }

    /// Whether the effect is destructive.
    pub fn is_destructive(self) -> (r: bool)
        ensures
            r == (self == ToolEffect::Destructive),
    {
        match self {
            ToolEffect::Destructive => true,
            _ => false,
        }
    }
}

/// Outcome of an individual tool invocation within a batch.
#[derive(Debug)]
pub struct BatchToolCallOutcome {
    /// Caller-assigned tool call identifier.
    pub id: String,
    /// Target tool name.
    pub name: String,
    /// Result produced by the tool handler.
    pub result: Result<ToolOutput, ToolError>,
}

/// Whether the mode runs the calls concurrently.
pub fn is_parallel(mode: BatchExecutionMode) -> (r: bool)
    ensures
        r == !(mode is SequentialStopOnError),
{
    match mode {
        BatchExecutionMode::SequentialStopOnError => false,
        _ => true,
    }
}

/// Whether destructive tools may run in a parallel batch: the mode allows
/// them, or the context carries a confirming [`AllowDestructiveBatch`].
pub fn allows_destructive(mode: BatchExecutionMode, ext: Option<AllowDestructiveBatch>) -> (r: bool)
    ensures
        r == (mode is ParallelAllowDestructive || ext == Some(AllowDestructiveBatch(true))),
{
    match mode {
        BatchExecutionMode::ParallelAllowDestructive => true,
        _ => match ext {
            Some(AllowDestructiveBatch(flag)) => flag,
            None => false,
        },
    }
}

/// Whether a call to a tool is rejected before it runs in a parallel batch.
pub fn rejects_in_parallel(allow_destructive: bool, is_destructive: bool) -> (r: bool)
    ensures
        r == (is_destructive && !allow_destructive),
{
    is_destructive && !allow_destructive
}

/// The outcomes of a parallel batch, in call order: the `i`-th call's id
/// and tool name with the `i`-th result, whatever order the calls finished in.
pub fn parallel_outcomes(calls: &[BatchToolCallStr<'_>], results: Vec<Result<ToolOutput, ToolError>>) -> (r: Vec<
    BatchToolCallOutcome,
>)
    requires
        calls@.len() == results@.len(),
    ensures
        r@.len() == calls@.len(),
        forall|i: int|
            0 <= i < r@.len() ==> {
                &&& #[trigger] r@[i].id@ == calls@[i].id@
                &&& r@[i].name@ == calls@[i].name@
                &&& r@[i].result == results@[i]
            },
{
    let ghost src = results@;
    let mut rest = results;
    let mut out: Vec<BatchToolCallOutcome> = Vec::new();
    let mut i: usize = 0;
    while i < calls.len()
        invariant
            i == out@.len(),
            i <= calls@.len(),
            calls@.len() == src.len(),
            rest@ == src.subrange(i as int, src.len() as int),
            forall|j: int|
                0 <= j < i ==> {
                    &&& #[trigger] out@[j].id@ == calls@[j].id@
                    &&& out@[j].name@ == calls@[j].name@
                    &&& out@[j].result == src[j]
                },
        decreases calls.len() - i,
    {
        let result = rest.remove(0);
        let call = &calls[i];
        out.push(BatchToolCallOutcome { id: String::from_str(call.id), name: String::from_str(call.name), result });
        i = i + 1;
    }
    out
}

/// The outcomes of a sequential batch as they are collected: every outcome
/// but possibly the last succeeded, and the batch is stopped exactly when
/// the last one failed.
pub struct SequentialBatch {
    outcomes: Vec<BatchToolCallOutcome>,
}

impl SequentialBatch {
    /// Every outcome before the last succeeded.
    pub closed spec fn wf(&self) -> bool {
        forall|i: int| 0 <= i < self.outcomes@.len() - 1 ==> #[trigger] self.outcomes@[i].result is Ok
    }

    /// The collected outcomes.
    pub closed spec fn collected(&self) -> Seq<BatchToolCallOutcome> {
        self.outcomes@
    }

    /// Whether the batch has stopped: its last outcome failed.
    pub open spec fn stopped(&self) -> bool {
        self.collected().len() > 0 && self.collected().last().result is Err
    }

    /// A batch with no outcome yet.
    pub fn new() -> (r: Self)
        ensures
            r.wf(),
            r.collected().len() == 0,
    {
        SequentialBatch { outcomes: Vec::new() }
    }

    /// Record the outcome of the next call; returns whether the batch goes on.
    pub fn record(&mut self, outcome: BatchToolCallOutcome) -> (r: bool)
        requires
            old(self).wf(),
            !old(self).stopped(),
        ensures
            final(self).wf(),
            final(self).collected() == old(self).collected().push(outcome),
            r == !final(self).stopped(),
    {
        let go_on = outcome.result.is_ok();
        self.outcomes.push(outcome);
        go_on
    }

    /// Whether the batch has stopped.
    pub fn is_stopped(&self) -> (r: bool)
        ensures
            r == self.stopped(),
    {
        self.outcomes.len() > 0 && self.outcomes[self.outcomes.len() - 1].result.is_err()
    }

    /// The collected outcomes, in call order.
    pub fn into_outcomes(self) -> (r: Vec<BatchToolCallOutcome>)
        ensures
            r@ == self.collected(),
    {
        self.outcomes
    }
}

/// A sequential batch holds at most one failed outcome, and only as its last.
pub proof fn law_sequential_stops_at_first_error(b: SequentialBatch, i: int)
    requires
        b.wf(),
        0 <= i < b.collected().len(),
        b.collected()[i].result is Err,
    ensures
        i == b.collected().len() - 1,
        b.stopped(),
{
}

/// The index of the first resource template `uri` matches, which is the
/// resource that reads it.
pub fn first_matching_template(templates: &Vec<&str>, uri: &str) -> (r: Option<usize>)
    ensures
        match r {
            Some(i) => i < templates@.len() && match_steps(templates@[i as int]@, uri@) is Some
                && forall|j: int| 0 <= j < i ==> match_steps(#[trigger] templates@[j]@, uri@) is None,
            None => forall|j: int| 0 <= j < templates@.len() ==> match_steps(#[trigger] templates@[j]@, uri@) is None,
        },
{
    let mut i: usize = 0;
    while i < templates.len()
        invariant
            i <= templates@.len(),
            forall|j: int| 0 <= j < i ==> match_steps(#[trigger] templates@[j]@, uri@) is None,
        decreases templates.len() - i,
    {
        if match_uri_template(templates[i], uri).is_some() {
            return Some(i);
        }
        i = i + 1;
    }
    None
}

} // verus!
