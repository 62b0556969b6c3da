use vstd::prelude::*;

verus! {

/// The mapping described by a list of key/value entries, later entries
/// overriding earlier ones with the same key.
pub open spec fn entries_map(s: Seq<(String, String)>) -> Map<Seq<char>, Seq<char>>
    decreases s.len(),
{
    if s.len() == 0 {
        Map::empty()
    } else {
        entries_map(s.drop_last()).insert(s.last().0@, s.last().1@)
    }
}

/// No entry at or after index `from` has key `k`.
pub open spec fn key_absent_from(s: Seq<(String, String)>, k: Seq<char>, from: int) -> bool {
    forall|i: int| from <= i < s.len() ==> #[trigger] s[i].0@ != k
}

/// A key that no entry holds is not in the mapping.
proof fn lemma_lookup_absent(s: Seq<(String, String)>, k: Seq<char>)
    requires
        key_absent_from(s, k, 0),
    ensures
        !entries_map(s).contains_key(k),
    decreases s.len(),
{
    if s.len() > 0 {
        assert(s[s.len() - 1].0@ != k);
        lemma_lookup_absent(s.drop_last(), k);
    }
}

/// The last entry holding a key gives its value.
proof fn lemma_lookup_last(s: Seq<(String, String)>, j: int)
    requires
        0 <= j < s.len(),
        key_absent_from(s, s[j].0@, j + 1),
    ensures
        entries_map(s).contains_key(s[j].0@),
        entries_map(s)[s[j].0@] == s[j].1@,
    decreases s.len(),
{
    if j < s.len() - 1 {
        assert(s[s.len() - 1].0@ != s[j].0@);
        assert(s.drop_last()[j] == s[j]);
        lemma_lookup_last(s.drop_last(), j);
    }
}

/// Replacing the last entry of a key rebinds that key.
proof fn lemma_replace_last(s: Seq<(String, String)>, j: int, e: (String, String))
    requires
        0 <= j < s.len(),
        s[j].0@ == e.0@,
        key_absent_from(s, e.0@, j + 1),
    ensures
        entries_map(s.update(j, e)) == entries_map(s).insert(e.0@, e.1@),
    decreases s.len(),
{
    let t = s.update(j, e);
    if j == s.len() - 1 {
        assert(t.drop_last() =~= s.drop_last());
        assert(entries_map(t) =~= entries_map(s).insert(e.0@, e.1@));
    } else {
        assert(t.drop_last() =~= s.drop_last().update(j, e));
        lemma_replace_last(s.drop_last(), j, e);
        assert(s[s.len() - 1].0@ != e.0@);
        assert(entries_map(t) =~= entries_map(s).insert(e.0@, e.1@));
    }
}

/// A mapping from attribute keys to attribute values.
#[derive(Debug)]
pub struct AttrMap {
    entries: Vec<(String, String)>,
}

impl View for AttrMap {
    type V = Map<Seq<char>, Seq<char>>;

    closed spec fn view(&self) -> Map<Seq<char>, Seq<char>> {
        entries_map(self.entries@)
    }
}

impl AttrMap {
    /// An empty mapping.
    pub fn new() -> (m: AttrMap)
        ensures
            m@ == Map::<Seq<char>, Seq<char>>::empty(),
    {
        AttrMap { entries: Vec::new() }
    }

    /// Whether no key is bound.
    pub fn is_empty(&self) -> (r: bool)
        ensures
            r == (self@ == Map::<Seq<char>, Seq<char>>::empty()),
    {
        let r = self.entries.len() == 0;
        proof {
            if !r {
                let s = self.entries@;
                lemma_lookup_last(s, s.len() - 1);
                assert(!Map::<Seq<char>, Seq<char>>::empty().contains_key(s[s.len() - 1].0@));
            } else {
                assert(self@ =~= Map::<Seq<char>, Seq<char>>::empty());
            }
        }
        r
    }

    /// The index of the last entry whose key is `key`, if any.
    fn find(&self, key: &String) -> (r: Option<usize>)
        ensures
            match r {
                Some(j) => j < self.entries.len() && self.entries@[j as int].0@ == key@
                    && key_absent_from(self.entries@, key@, j + 1),
                None => key_absent_from(self.entries@, key@, 0),
            },
    {
        let mut i: usize = self.entries.len();
        while i > 0
            invariant
                i <= self.entries.len(),
                key_absent_from(self.entries@, key@, i as int),
            decreases i,
        {
            if self.entries[i - 1].0 == *key {
                return Some(i - 1);
            }
            i = i - 1;
        }
        None
    }

    /// The value bound to `key`, if any.
    pub fn get(&self, key: &str) -> (r: Option<&String>)
        ensures
            match r {
                Some(v) => self@.contains_key(key@) && self@[key@] == v@,
                None => !self@.contains_key(key@),
            },
    {
        let key = key.to_owned();
        match self.find(&key) {
            Some(j) => {
                proof {
                    lemma_lookup_last(self.entries@, j as int);
                }
                Some(&self.entries[j].1)
            },
            None => {
                proof {
                    lemma_lookup_absent(self.entries@, key@);
                }
                None
            },
        }
    }

    /// Binds `key` to `value`, replacing any earlier value of `key`.
    pub fn insert(&mut self, key: String, value: String)
        ensures
            final(self)@ == old(self)@.insert(key@, value@),
    {
        match self.find(&key) {
            Some(j) => {
                proof {
                    lemma_replace_last(self.entries@, j as int, (key, value));
                }
                self.entries.set(j, (key, value));
            },
            None => {
                let ghost s = self.entries@;
                self.entries.push((key, value));
                proof {
                    assert(self.entries@.drop_last() =~= s);
                }
            },
        }
    }
}

impl AttrMap {
    /// Whether every key of `self` is bound to the same value in `o`.
    fn covered_by(&self, o: &AttrMap) -> (r: bool)
        ensures
            r == (forall|k: Seq<char>| #[trigger] self@.contains_key(k)
                ==> o@.contains_key(k) && o@[k] == self@[k]),
    {
        let n = self.entries.len();
        let mut i: usize = 0;
        while i < n
            invariant
                n == self.entries.len(),
                i <= n,
                forall|j: int| 0 <= j < i ==> {
                    let k = #[trigger] self.entries@[j].0@;
                    self@.contains_key(k) ==> o@.contains_key(k) && o@[k] == self@[k]
                },
            decreases n - i,
        {
            let key = self.entries[i].0.as_str();
            let mine = self.get(key);
            let theirs = o.get(key);
            let same = match (mine, theirs) {
                (Some(a), Some(b)) => *a == *b,
                (None, _) => true,
                _ => false,
            };
            if !same {
                return false;
            }
            i = i + 1;
        }
        proof {
            assert forall|k: Seq<char>| #[trigger] self@.contains_key(k) implies o@.contains_key(k)
                && o@[k] == self@[k] by {
                if key_absent_from(self.entries@, k, 0) {
                    lemma_lookup_absent(self.entries@, k);
                }
                let j = choose|j: int| 0 <= j < self.entries@.len() && self.entries@[j].0@ == k;
                assert(self.entries@[j].0@ == k);
            }
        }
        true
    }
}

impl PartialEq for AttrMap {
    /// Two mappings are equal when they bind the same keys to the same values,
    /// whatever order the bindings were made in.
    fn eq(&self, o: &AttrMap) -> (r: bool) {
        let r = self.covered_by(o) && o.covered_by(self);
        proof {
            if r {
                assert(self@ =~= o@);
            }
        }
        r
    }
}

impl vstd::std_specs::cmp::PartialEqSpecImpl for AttrMap {
    open spec fn obeys_eq_spec() -> bool {
        true
    }

    open spec fn eq_spec(&self, o: &AttrMap) -> bool {
        self@ == o@
    }
}

} // verus!
