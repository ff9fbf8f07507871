//! String-keyed structured metadata attached to tool output and errors.
use vstd::prelude::*;
use crate::text::{chars_of, chars_match_at};

verus! {

/// Structured key-value metadata for hooks, policies and logging; each key
/// occurs once, and a later insertion of a key replaces its value.
#[derive(Debug)]
pub struct Metadata {
    entries: Vec<(String, serde_json::Value)>,
}

impl View for Metadata {
    type V = Map<Seq<char>, serde_json::Value>;

    /// The entries as a map from keys to values.
    closed spec fn view(&self) -> Map<Seq<char>, serde_json::Value> {
        Map::new(
            |k: Seq<char>| exists|i: int| 0 <= i < self.entries@.len() && self.entries@[i].0@ == k,
            |k: Seq<char>| self.entries@[self.index_of(k)].1,
        )
    }
}

/// Whether `k` equals `key` as text.
fn same_text(k: &str, key: &Vec<char>) -> (r: bool)
    ensures
        r == (k@ == key@),
{
    let kc = chars_of(k);
    assert(kc@.len() == key@.len() ==> kc@.subrange(0, key@.len() as int) =~= kc@);
    kc.len() == key.len() && chars_match_at(&kc, key, 0)
}

impl Metadata {
    /// Keys are unique among the entries.
    pub closed spec fn wf(&self) -> bool {
        forall|i: int, j: int| 0 <= i < j < self.entries@.len() ==> self.entries@[i].0@ != self.entries@[j].0@
    }

    /// The index of the entry with key `k`.
    pub closed spec fn index_of(&self, k: Seq<char>) -> int {
        choose|i: int| 0 <= i < self.entries@.len() && self.entries@[i].0@ == k
    }

    /// No metadata.
    pub fn new() -> (r: Self)
        ensures
            r.wf(),
            r@ == Map::<Seq<char>, serde_json::Value>::empty(),
    {
        let r = Metadata { entries: Vec::new() };
        assert(r@ =~= Map::<Seq<char>, serde_json::Value>::empty());
        r
    }

    fn position(&self, key: &str) -> (r: Option<usize>)
        requires
            self.wf(),
        ensures
            match r {
                Some(i) => i < self.entries@.len() && self.entries@[i as int].0@ == key@,
                None => forall|i: int| 0 <= i < self.entries@.len() ==> self.entries@[i].0@ != key@,
            },
    {
        let kc = chars_of(key);
        let mut i: usize = 0;
        while i < self.entries.len()
            invariant
                kc@ == key@,
                i <= self.entries@.len(),
                forall|j: int| 0 <= j < i ==> self.entries@[j].0@ != key@,
            decreases self.entries.len() - i,
        {
            if same_text(self.entries[i].0.as_str(), &kc) {
                return Some(i);
            }
            i = i + 1;
        }
        None
    }

    /// Set `key` to `value`, replacing an earlier value of `key`.
    pub fn insert(&mut self, key: String, value: serde_json::Value)
        requires
            old(self).wf(),
        ensures
            final(self).wf(),
            final(self)@ == old(self)@.insert(key@, value),
    {
        let ghost before = self.entries@;
        match self.position(key.as_str()) {
            Some(i) => {
                self.entries.set(i, (key, value));
            },
            None => {
                self.entries.push((key, value));
            },
        }
        assert(self@ =~= old(self)@.insert(key@, value)) by {
            assert forall|k: Seq<char>| #[trigger] self@.contains_key(k) == old(self)@.insert(key@, value).contains_key(k) by {
                if old(self)@.contains_key(k) {
                    let j = choose|j: int| 0 <= j < before.len() && before[j].0@ == k;
                    assert(self.entries@[j].0@ == k);
                }
                if k == key@ && self.entries@.len() > before.len() {
                    assert(self.entries@[before.len() as int].0@ == k);
                }
            }
            assert forall|k: Seq<char>| self@.contains_key(k) implies #[trigger] self@[k] == old(self)@.insert(key@, value)[k] by {
                let a = self.index_of(k);
                if k != key@ {
                    let b = old(self).index_of(k);
                    assert(a == b);
                }
            }
        }
    }

    /// Set every key of `fields` in order (a later field replaces an earlier one).
    pub fn extend(&mut self, fields: Vec<(String, serde_json::Value)>)
        requires
            old(self).wf(),
        ensures
            final(self).wf(),
            final(self)@ == fields_into(old(self)@, fields@),
    {
        let mut rest = fields;
        let ghost all = rest@;
        let ghost mut k: int = 0;
        while rest.len() > 0
            invariant
                self.wf(),
                0 <= k <= all.len(),
                rest@ =~= all.subrange(k, all.len() as int),
                self@ == fields_into(old(self)@, all.take(k)),
            decreases rest.len(),
        {
            let (key, value) = rest.remove(0);
            proof {
                assert(all.take(k + 1).drop_last() =~= all.take(k));
                assert(all.take(k + 1).last() == all[k]);
            }
            self.insert(key, value);
            proof {
                k = k + 1;
            }
        }
        assert(all.take(k) =~= all);
    }

    /// The value of `key`.
    pub fn get(&self, key: &str) -> (r: Option<&serde_json::Value>)
        requires
            self.wf(),
        ensures
            match r {
                Some(v) => self@.contains_key(key@) && self@[key@] == *v,
                None => !self@.contains_key(key@),
            },
    {
        match self.position(key) {
            Some(i) => {
                let ghost j = self.index_of(key@);
                assert(j == i as int);
                Some(&self.entries[i].1)
            },
            None => None,
        }
    }

    /// Whether `key` has a value.
    pub fn contains_key(&self, key: &str) -> (r: bool)
        requires
            self.wf(),
        ensures
            r == self@.contains_key(key@),
    {
        self.get(key).is_some()
    }

    /// Whether there is no metadata.
    pub fn is_empty(&self) -> (r: bool)
        ensures
            r == (self@ == Map::<Seq<char>, serde_json::Value>::empty()),
    {
        if self.entries.len() == 0 {
            assert(self@ =~= Map::<Seq<char>, serde_json::Value>::empty());
            true
        } else {
            assert(self@.contains_key(self.entries@[0].0@));
            false
        }
    }

    /// The entries, in the order they were first set.
    pub fn entries(&self) -> (r: &Vec<(String, serde_json::Value)>)
        ensures
            forall|k: Seq<char>| self@.contains_key(k) <==> exists|i: int| 0 <= i < r@.len() && #[trigger] r@[i].0@ == k,
    {
        &self.entries
    }
}

/// `m` with every field of `fields` set in order.
pub open spec fn fields_into(m: Map<Seq<char>, serde_json::Value>, fields: Seq<(String, serde_json::Value)>) -> Map<Seq<char>, serde_json::Value>
    decreases fields.len(),
{
    if fields.len() == 0 {
        m
    } else {
        fields_into(m, fields.drop_last()).insert(fields.last().0@, fields.last().1)
    }
}

proof fn lemma_fields_present(m: Map<Seq<char>, serde_json::Value>, fields: Seq<(String, serde_json::Value)>, k: Seq<char>)
    ensures
        fields_into(m, fields).contains_key(k) <==> (m.contains_key(k) || exists|i: int|
            0 <= i < fields.len() && #[trigger] fields[i].0@ == k),
    decreases fields.len(),
{
    if fields.len() > 0 {
        let init = fields.drop_last();
        lemma_fields_present(m, init, k);
        if exists|i: int| 0 <= i < fields.len() && #[trigger] fields[i].0@ == k {
            let i = choose|i: int| 0 <= i < fields.len() && #[trigger] fields[i].0@ == k;
            if i < init.len() {
                assert(init[i].0@ == k);
            }
        }
        if exists|i: int| 0 <= i < init.len() && #[trigger] init[i].0@ == k {
            let i = choose|i: int| 0 <= i < init.len() && #[trigger] init[i].0@ == k;
            assert(fields[i].0@ == k);
        }
    }
}

proof fn lemma_fields_absent(m: Map<Seq<char>, serde_json::Value>, fields: Seq<(String, serde_json::Value)>, k: Seq<char>)
    requires
        forall|i: int| 0 <= i < fields.len() ==> #[trigger] fields[i].0@ != k,
    ensures
        fields_into(m, fields).contains_key(k) == m.contains_key(k),
        fields_into(m, fields)[k] == m[k],
    decreases fields.len(),
{
    if fields.len() > 0 {
        let init = fields.drop_last();
        assert(fields[fields.len() - 1].0@ != k);
        assert forall|i: int| 0 <= i < init.len() implies #[trigger] init[i].0@ != k by {
            assert(fields[i].0@ != k);
        }
        lemma_fields_absent(m, init, k);
    }
}

proof fn lemma_fields_last(m: Map<Seq<char>, serde_json::Value>, fields: Seq<(String, serde_json::Value)>, i: int)
    requires
        0 <= i < fields.len(),
        forall|j: int| i < j < fields.len() ==> #[trigger] fields[j].0@ != fields[i].0@,
    ensures
        fields_into(m, fields)[fields[i].0@] == fields[i].1,
    decreases fields.len(),
{
    let init = fields.drop_last();
    if i < fields.len() - 1 {
        assert(fields[fields.len() - 1].0@ != fields[i].0@);
        assert(init[i] == fields[i]);
        assert forall|j: int| i < j < init.len() implies #[trigger] init[j].0@ != init[i].0@ by {
            assert(fields[j].0@ != fields[i].0@);
        }
        lemma_fields_last(m, init, i);
    }
}

/// Merging fields into metadata: a key is present when it was before or a
/// field names it; a field's value replaces the key's old value, and of two
/// fields with one key the later one wins; other keys keep their values.
pub proof fn law_fields_override(
    m: Map<Seq<char>, serde_json::Value>,
    fields: Seq<(String, serde_json::Value)>,
    k: Seq<char>,
)
    ensures
        fields_into(m, fields).contains_key(k) <==> (m.contains_key(k) || exists|i: int|
            0 <= i < fields.len() && #[trigger] fields[i].0@ == k),
        (forall|i: int| 0 <= i < fields.len() ==> #[trigger] fields[i].0@ != k) ==> (m.contains_key(k)
            ==> fields_into(m, fields)[k] == m[k]),
        forall|i: int|
            0 <= i < fields.len() && #[trigger] fields[i].0@ == k && (forall|j: int|
                i < j < fields.len() ==> fields[j].0@ != k) ==> fields_into(m, fields)[k] == fields[i].1,
{
    lemma_fields_present(m, fields, k);
    if forall|i: int| 0 <= i < fields.len() ==> #[trigger] fields[i].0@ != k {
        lemma_fields_absent(m, fields, k);
    }
    assert forall|i: int|
        0 <= i < fields.len() && #[trigger] fields[i].0@ == k && (forall|j: int|
            i < j < fields.len() ==> fields[j].0@ != k) implies fields_into(m, fields)[k] == fields[i].1 by {
        lemma_fields_last(m, fields, i);
    }
}

} // verus!
