//! A map from symbol names to values, kept as a list of entries in insertion order.
use vstd::prelude::*;
use crate::text::str_eq;

verus! {

/// The map that a list of entries stands for: a later entry for a name
/// overrides an earlier one.
pub open spec fn entries_map<V>(s: Seq<(String, V)>) -> Map<Seq<char>, V>
    decreases s.len(),
{
    if s.len() == 0 {
        Map::empty()
    } else {
        entries_map(s.drop_last()).insert(s.last().0@, s.last().1)
    }
}

/// No name occurs in two entries.
pub open spec fn keys_unique<V>(s: Seq<(String, V)>) -> bool {
    forall|i: int, j: int|
        0 <= i < j < s.len() ==> #[trigger] s[i].0@ != #[trigger] s[j].0@
}

/// `i` is the last entry of `s` named `k`.
pub open spec fn is_last_index<V>(s: Seq<(String, V)>, k: Seq<char>, i: int) -> bool {
    &&& 0 <= i < s.len()
    &&& s[i].0@ == k
    &&& forall|j: int| i < j < s.len() ==> #[trigger] s[j].0@ != k
}

proof fn lemma_absent<V>(s: Seq<(String, V)>, k: Seq<char>)
    requires
        forall|j: int| 0 <= j < s.len() ==> #[trigger] s[j].0@ != k,
    ensures
        !entries_map(s).contains_key(k),
    decreases s.len(),
{
    if s.len() > 0 {
        let p = s.drop_last();
        assert forall|j: int| 0 <= j < p.len() implies #[trigger] p[j].0@ != k by {
            assert(p[j] == s[j]);
        }
        lemma_absent(p, k);
    }
}

proof fn lemma_last_index<V>(s: Seq<(String, V)>, k: Seq<char>, i: int)
    requires
        is_last_index(s, k, i),
    ensures
        entries_map(s).contains_key(k),
        entries_map(s)[k] == s[i].1,
    decreases s.len(),
{
    let p = s.drop_last();
    if i < s.len() - 1 {
        assert(s[s.len() - 1].0@ != k);
        assert forall|j: int| i < j < p.len() implies #[trigger] p[j].0@ != k by {
            assert(p[j] == s[j]);
        }
        assert(p[i] == s[i]);
        lemma_last_index(p, k, i);
    }
}

proof fn lemma_update_last<V>(s: Seq<(String, V)>, k: String, v: V, i: int)
    requires
        is_last_index(s, k@, i),
    ensures
        entries_map(s.update(i, (k, v))) == entries_map(s).insert(k@, v),
    decreases s.len(),
{
    let p = s.drop_last();
    let u = s.update(i, (k, v));
    if i == s.len() - 1 {
        assert(u.drop_last() =~= p);
        assert(entries_map(u) =~= entries_map(s).insert(k@, v));
    } else {
        assert(u.drop_last() =~= p.update(i, (k, v)));
        assert(s[s.len() - 1].0@ != k@);
        assert forall|j: int| i < j < p.len() implies #[trigger] p[j].0@ != k@ by {
            assert(p[j] == s[j]);
        }
        assert(p[i] == s[i]);
        lemma_update_last(p, k, v, i);
        assert(entries_map(u) =~= entries_map(s).insert(k@, v));
    }
}

/// After a name is bound to a value, looking the name up gives that value,
/// and looking up any other name gives what it gave before.
pub proof fn law_lookup_after_insert<V>(
    before: SymbolMap<V>,
    after: SymbolMap<V>,
    k: Seq<char>,
    v: V,
    other: Seq<char>,
)
    requires
        after@ == before@.insert(k, v),
    ensures
        after@.contains_key(k),
        after@[k] == v,
        other != k ==> after@.contains_key(other) == before@.contains_key(other),
        other != k && before@.contains_key(other) ==> after@[other] == before@[other],
{
}

/// The index of the last entry of `entries` named `key`, if any.
fn find_last<V>(entries: &Vec<(String, V)>, key: &str) -> (r: Option<usize>)
    ensures
        match r {
            Some(i) => is_last_index(entries@, key@, i as int),
            None => forall|j: int| 0 <= j < entries@.len() ==> #[trigger] entries@[j].0@ != key@,
        },
{
    let mut i = entries.len();
    while i > 0
        invariant
            i <= entries@.len(),
            forall|j: int| i <= j < entries@.len() ==> #[trigger] entries@[j].0@ != key@,
        decreases i,
    {
        i = i - 1;
        if str_eq(entries[i].0.as_str(), key) {
            return Some(i);
        }
    }
    None
}

/// The names of a list of entries, in order.
pub open spec fn entry_names<V>(s: Seq<(String, V)>) -> Seq<Seq<char>> {
    s.map_values(|e: (String, V)| e.0@)
}

/// A finite map from names to values. Each name occurs in at most one entry;
/// the entries keep the order in which their names were first inserted.
#[derive(Debug)]
pub struct SymbolMap<V> {
    entries: Vec<(String, V)>,
}

impl<V> View for SymbolMap<V> {
    type V = Map<Seq<char>, V>;

    closed spec fn view(&self) -> Map<Seq<char>, V> {
        entries_map(self.entries@)
    }
}

impl<V> SymbolMap<V> {
    /// No name occurs in two entries.
    #[verifier::type_invariant]
    closed spec fn names_unique(self) -> bool {
        keys_unique(self.entries@)
    }

    /// The bound names, in the order in which they were first inserted.
    pub closed spec fn names(&self) -> Seq<Seq<char>> {
        entry_names(self.entries@)
    }

    /// An empty map.
    pub fn new() -> (r: Self)
        ensures
            r@ == Map::<Seq<char>, V>::empty(),
            r.names().len() == 0,
    {
        SymbolMap { entries: Vec::new() }
    }

    /// Binds `key` to `value`, replacing any value it had. A name bound for the
    /// first time is added after all the others; rebinding a name keeps its place.
    pub fn insert(&mut self, key: String, value: V)
        ensures
            final(self)@ == old(self)@.insert(key@, value),
            old(self)@.contains_key(key@) ==> final(self).names() == old(self).names(),
            !old(self)@.contains_key(key@) ==> final(self).names() == old(self).names().push(
                key@,
            ),
    {
        proof {
            use_type_invariant(&*self);
        }
        let mut entries: Vec<(String, V)> = Vec::new();
        std::mem::swap(&mut entries, &mut self.entries);
        let ghost old_entries = entries@;
        assert(old_entries == old(self).entries@);
        match find_last(&entries, key.as_str()) {
            Some(i) => {
                proof {
                    lemma_update_last(entries@, key, value, i as int);
                    lemma_last_index(entries@, key@, i as int);
                }
                entries.set(i, (key, value));
                assert(entry_names(entries@) =~= entry_names(old_entries));
            },
            None => {
                proof {
                    lemma_absent(entries@, key@);
                }
                entries.push((key, value));
                assert(entries@.drop_last() =~= old_entries);
                assert(entries@.last() == (key, value));
                assert(entry_names(entries@) =~= entry_names(old_entries).push(key@));
            },
        }
        self.entries = entries;
    }

    /// The value bound to `key`, if any.
    pub fn get(&self, key: &str) -> (r: Option<&V>)
        ensures
            match r {
                Some(v) => self@.contains_key(key@) && *v == self@[key@],
                None => !self@.contains_key(key@),
            },
    {
        match find_last(&self.entries, key) {
            Some(i) => {
                proof {
                    lemma_last_index(self.entries@, key@, i as int);
                }
                Some(&self.entries[i].1)
            },
            None => {
                proof {
                    lemma_absent(self.entries@, key@);
                }
                None
            },
        }
    }

    /// The `(name, value)` entries, in the order of `names`.
    pub fn entries(&self) -> (r: &Vec<(String, V)>)
        ensures
            entry_names(r@) == self.names(),
            forall|i: int, j: int|
                0 <= i < j < r@.len() ==> #[trigger] r@[i].0@ != #[trigger] r@[j].0@,
            forall|i: int|
                0 <= i < r@.len() ==> self@.contains_key(#[trigger] r@[i].0@) && self@[r@[i].0@]
                    == r@[i].1,
            forall|k: Seq<char>| #[trigger] self@.contains_key(k) ==> self.names().contains(k),
    {
        proof {
            use_type_invariant(self);
            let s = self.entries@;
            assert forall|i: int|
                0 <= i < s.len() implies self@.contains_key(#[trigger] s[i].0@) && self@[s[i].0@]
                == s[i].1 by {
                assert forall|j: int| i < j < s.len() implies #[trigger] s[j].0@ != s[i].0@ by {}
                lemma_last_index(s, s[i].0@, i);
            }
            assert forall|k: Seq<char>| #[trigger] self@.contains_key(k) implies self.names().contains(
                k,
            ) by {
                if !(exists|j: int| 0 <= j < s.len() && #[trigger] s[j].0@ == k) {
                    lemma_absent(s, k);
                }
                let j = choose|j: int| 0 <= j < s.len() && #[trigger] s[j].0@ == k;
                assert(self.names()[j] == k);
            }
        }
        &self.entries
    }
}

} // verus!
