use vstd::prelude::*;
use vstd::set_lib::lemma_subset_equality;

verus! {

/// The map that a list of key/value pairs stands for; a later pair wins.
pub open spec fn pairs_map(s: Seq<(String, String)>) -> Map<Seq<char>, Seq<char>>
    decreases s.len(),
{
    if s.len() == 0 {
        Map::empty()
    } else {
        pairs_map(s.drop_last()).insert(s.last().0@, s.last().1@)
    }
}

/// No key occurs twice in the list.
pub open spec fn keys_distinct(s: Seq<(String, String)>) -> bool {
    forall|i: int, j: int| 0 <= i < j < s.len() ==> s[i].0@ != s[j].0@
}

proof fn lemma_pairs_map_has(s: Seq<(String, String)>, i: int)
    requires
        keys_distinct(s),
        0 <= i < s.len(),
    ensures
        pairs_map(s).contains_key(s[i].0@),
        pairs_map(s)[s[i].0@] == s[i].1@,
    decreases s.len(),
{
    if i < s.len() - 1 {
        let d = s.drop_last();
        assert(d[i] == s[i]);
        lemma_pairs_map_has(d, i);
        assert(s[i].0@ != s.last().0@);
    }
}

proof fn lemma_pairs_map_lacks(s: Seq<(String, String)>, k: Seq<char>)
    requires
        forall|i: int| 0 <= i < s.len() ==> s[i].0@ != k,
    ensures
        !pairs_map(s).contains_key(k),
    decreases s.len(),
{
    if s.len() > 0 {
        let d = s.drop_last();
        assert forall|i: int| 0 <= i < d.len() implies d[i].0@ != k by {
            assert(d[i] == s[i]);
        }
        lemma_pairs_map_lacks(d, k);
    }
}

proof fn lemma_pairs_map_finite(s: Seq<(String, String)>)
    requires
        keys_distinct(s),
    ensures
        pairs_map(s).dom().finite(),
        pairs_map(s).len() == s.len(),
    decreases s.len(),
{
    if s.len() > 0 {
        let d = s.drop_last();
        lemma_pairs_map_finite(d);
        assert forall|i: int| 0 <= i < d.len() implies d[i].0@ != s.last().0@ by {
            assert(d[i] == s[i]);
        }
        lemma_pairs_map_lacks(d, s.last().0@);
    }
}

proof fn lemma_pairs_map_update(s: Seq<(String, String)>, i: int, p: (String, String))
    requires
        keys_distinct(s),
        0 <= i < s.len(),
        s[i].0@ == p.0@,
    ensures
        pairs_map(s.update(i, p)) == pairs_map(s).insert(p.0@, p.1@),
    decreases s.len(),
{
    let u = s.update(i, p);
    if i == s.len() - 1 {
        assert(u.drop_last() == s.drop_last());
        assert(pairs_map(u) =~= pairs_map(s).insert(p.0@, p.1@));
    } else {
        let d = s.drop_last();
        assert(u.drop_last() == d.update(i, p));
        lemma_pairs_map_update(d, i, p);
        assert(s[i].0@ != s.last().0@);
        assert(pairs_map(u) =~= pairs_map(s).insert(p.0@, p.1@));
    }
}

/// The position of `key` among the entries, if it is there.
fn position(entries: &Vec<(String, String)>, key: &String) -> (r: Option<usize>)
    ensures
        match r {
            Some(i) => i < entries@.len() && entries@[i as int].0@ == key@,
            None => forall|i: int| 0 <= i < entries@.len() ==> entries@[i].0@ != key@,
        },
{
    let mut i: usize = 0;
    while i < entries.len()
        invariant
            i <= entries@.len(),
            forall|j: int| 0 <= j < i ==> entries@[j].0@ != key@,
        decreases entries@.len() - i,
    {
        if entries[i].0 == *key {
            return Some(i);
        }
        i = i + 1;
    }
    None
}

/// A string-to-string map with distinct keys, as attached to a token or to
/// the registry itself.
#[derive(Debug)]
pub struct Metadata {
    entries: Vec<(String, String)>,
}

impl View for Metadata {
    type V = Map<Seq<char>, Seq<char>>;

    closed spec fn view(&self) -> Map<Seq<char>, Seq<char>> {
        pairs_map(self.entries@)
    }
}

impl Metadata {
    #[verifier::type_invariant]
    spec fn inv(self) -> bool {
        keys_distinct(self.entries@)
    }

    pub fn new() -> (r: Metadata)
        ensures
            r@ == Map::<Seq<char>, Seq<char>>::empty(),
    {
        Metadata { entries: Vec::new() }
    }

    /// The value stored under `key`.
    pub fn get(&self, key: &str) -> (r: Option<&String>)
        ensures
            r.is_some() == self@.contains_key(key@),
            r matches Some(v) ==> v@ == self@[key@],
    {
        proof {
            use_type_invariant(self);
        }
        let k = key.to_owned();
        match position(&self.entries, &k) {
            Some(i) => {
                proof {
                    lemma_pairs_map_has(self.entries@, i as int);
                }
                Some(&self.entries[i].1)
            },
            None => {
                proof {
                    lemma_pairs_map_lacks(self.entries@, k@);
                }
                None
            },
        }
    }

    /// Sets `key` to `value`, replacing what was stored under it.
    pub fn insert(&mut self, key: String, value: String)
        ensures
            final(self)@ == old(self)@.insert(key@, value@),
    {
        let mut taken = Metadata::new();
        core::mem::swap(self, &mut taken);
        proof {
            use_type_invariant(&taken);
        }
        let Metadata { mut entries } = taken;
        let ghost old_entries = entries@;
        match position(&entries, &key) {
            Some(i) => {
                let ghost p = (key, value);
                proof {
                    lemma_pairs_map_update(old_entries, i as int, p);
                }
                entries.set(i, (key, value));
            },
            None => {
                entries.push((key, value));
                proof {
                    assert(entries@.drop_last() == old_entries);
                    assert forall|a: int, b: int| 0 <= a < b < entries@.len() implies entries@[a].0@
                        != entries@[b].0@ by {
                        if b < old_entries.len() {
                            assert(entries@[a] == old_entries[a]);
                            assert(entries@[b] == old_entries[b]);
                        } else {
                            assert(entries@[a] == old_entries[a]);
                        }
                    }
                }
            },
        }
        *self = Metadata { entries };
    }

    /// The number of keys.
    pub fn len(&self) -> (r: usize)
        ensures
            r == self@.len(),
            self@.dom().finite(),
    {
        proof {
            use_type_invariant(self);
            lemma_pairs_map_finite(self.entries@);
        }
        self.entries.len()
    }

    /// The entries, each key once.
    pub fn entries(&self) -> (r: &Vec<(String, String)>)
        ensures
            pairs_map(r@) == self@,
            keys_distinct(r@),
    {
        proof {
            use_type_invariant(self);
        }
        &self.entries
    }

    /// A copy whose view is known to be the same.
    pub fn duplicate(&self) -> (r: Metadata)
        ensures
            r@ == self@,
    {
        let mut r = Metadata::new();
        let mut i: usize = 0;
        while i < self.entries.len()
            invariant
                i <= self.entries@.len(),
                r@ == pairs_map(self.entries@.take(i as int)),
            decreases self.entries@.len() - i,
        {
            let k = self.entries[i].0.clone();
            let v = self.entries[i].1.clone();
            r.insert(k, v);
            proof {
                assert(self.entries@.take(i + 1).drop_last() == self.entries@.take(i as int));
            }
            i = i + 1;
        }
        proof {
            assert(self.entries@.take(i as int) == self.entries@);
        }
        r
    }
}

impl PartialEq for Metadata {
    fn eq(&self, other: &Metadata) -> (r: bool) {
        proof {
            use_type_invariant(self);
            use_type_invariant(other);
            lemma_pairs_map_finite(self.entries@);
            lemma_pairs_map_finite(other.entries@);
        }
        if self.entries.len() != other.entries.len() {
            return false;
        }
        let mut i: usize = 0;
        while i < self.entries.len()
            invariant
                keys_distinct(self.entries@),
                i <= self.entries@.len(),
                forall|j: int|
                    0 <= j < i ==> #[trigger] other@.contains_key(self.entries@[j].0@)
                        && other@[self.entries@[j].0@] == self.entries@[j].1@,
            decreases self.entries@.len() - i,
        {
            let key = self.entries[i].0.as_str();
            let found = other.get(key);
            assert(key@ == self.entries@[i as int].0@);
            proof {
                lemma_pairs_map_has(self.entries@, i as int);
            }
            match found {
                Some(v) => {
                    if !(*v == self.entries[i].1) {
                        return false;
                    }
                },
                None => {
                    return false;
                },
            }
            i = i + 1;
        }
        proof {
            assert forall|k: Seq<char>| #[trigger] self@.dom().contains(k) implies other@.dom().contains(
                k,
            ) && other@[k] == self@[k] by {
                if forall|j: int| 0 <= j < self.entries@.len() ==> self.entries@[j].0@ != k {
                    lemma_pairs_map_lacks(self.entries@, k);
                }
                let j = choose|j: int| 0 <= j < self.entries@.len() && self.entries@[j].0@ == k;
                lemma_pairs_map_has(self.entries@, j);
                assert(other@.contains_key(self.entries@[j].0@));
            }
            assert(self@.dom().subset_of(other@.dom()));
            assert(self@.len() == other@.len());
            lemma_subset_equality(self@.dom(), other@.dom());
            assert(self@ =~= other@);
        }
        true
    }
}

impl vstd::std_specs::cmp::PartialEqSpecImpl for Metadata {
    open spec fn obeys_eq_spec() -> bool {
        true
    }

    open spec fn eq_spec(&self, other: &Metadata) -> bool {
        self@ == other@
    }
}

} // verus!
