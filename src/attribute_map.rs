use vstd::prelude::*;
use crate::value::{AttributeValue, ValueModel};

verus! {

/// Attributes by name: names are case-sensitive and unique, and a later write
/// to a name replaces the value held under it.
pub struct AttributeMap {
    entries: Vec<(String, AttributeValue)>,
}

/// Whether two texts hold the same characters.
pub fn same_text(a: &str, b: &str) -> (r: bool)
    ensures
        r == (a@ == b@),
{
    let n = a.unicode_len();
    if n != b.unicode_len() {
        return false;
    }
    let mut i: usize = 0;
    while i < n
        invariant
            n == a@.len(),
            n == b@.len(),
            i <= n,
            forall|j: int| 0 <= j < i ==> a@[j] == b@[j],
        decreases n - i,
    {
        if a.get_char(i) != b.get_char(i) {
            return false;
        }
        i = i + 1;
    }
    assert(a@ =~= b@);
    true
}

impl AttributeMap {
    #[verifier::type_invariant]
    closed spec fn names_unique(&self) -> bool {
        forall|i: int, j: int|
            0 <= i < j < self.entries@.len() ==> self.entries@[i].0@ != self.entries@[j].0@
    }

    closed spec fn holds_at(&self, k: Seq<char>, i: int) -> bool {
        0 <= i < self.entries@.len() && self.entries@[i].0@ == k
    }

    /// The names in the order in which they were first written.
    pub closed spec fn name_seq(&self) -> Seq<Seq<char>> {
        self.entries@.map_values(|e: (String, AttributeValue)| e.0@)
    }
}

impl View for AttributeMap {
    type V = Map<Seq<char>, ValueModel>;

    closed spec fn view(&self) -> Map<Seq<char>, ValueModel> {
        Map::new(
            |k: Seq<char>| exists|i: int| self.holds_at(k, i),
            |k: Seq<char>| self.entries@[choose|i: int| self.holds_at(k, i)].1@,
        )
    }
}

impl AttributeMap {
    proof fn lemma_at(&self, k: Seq<char>, i: int)
        requires
            self.names_unique(),
            self.holds_at(k, i),
        ensures
            self@.contains_key(k),
            self@[k] == self.entries@[i].1@,
    {
        assert(self@.dom().contains(k));
        let j = choose|j: int| self.holds_at(k, j);
        assert(j == i);
    }

    /// An empty map.
    pub fn new() -> (r: AttributeMap)
        ensures
            r@ == Map::<Seq<char>, ValueModel>::empty(),
            r.name_seq() == Seq::<Seq<char>>::empty(),
    {
        let r = AttributeMap { entries: Vec::new() };
        assert(r@ =~= Map::<Seq<char>, ValueModel>::empty());
        assert(r.name_seq() =~= Seq::<Seq<char>>::empty());
        r
    }

    fn find(&self, key: &str) -> (r: Option<usize>)
        ensures
            match r {
                Some(i) => self.holds_at(key@, i as int),
                None => forall|i: int| !self.holds_at(key@, i),
            },
    {
        let mut i: usize = 0;
        while i < self.entries.len()
            invariant
                i <= self.entries@.len(),
                forall|j: int| 0 <= j < i ==> !self.holds_at(key@, j),
            decreases self.entries@.len() - i,
        {
            if same_text(self.entries[i].0.as_str(), key) {
                return Some(i);
            }
            i = i + 1;
        }
        None
    }

    /// The value held under `key`, if any.
    pub fn get(&self, key: &str) -> (r: Option<&AttributeValue>)
        ensures
            match r {
                Some(v) => self@.contains_key(key@) && v@ == self@[key@],
                None => !self@.contains_key(key@),
            },
    {
        proof { use_type_invariant(self); }
        match self.find(key) {
            Some(i) => {
                proof { self.lemma_at(key@, i as int); }
                Some(&self.entries[i].1)
            },
            None => None,
        }
    }

    /// Whether a value is held under `key`.
    pub fn contains_key(&self, key: &str) -> (r: bool)
        ensures
            r == self@.contains_key(key@),
    {
        self.get(key).is_some()
    }

    /// Writes `value` under `key`, replacing what was held there.
    pub fn insert(&mut self, key: String, value: AttributeValue)
        ensures
            final(self)@ == old(self)@.insert(key@, value@),
            final(self).name_seq() == if old(self)@.contains_key(key@) {
                old(self).name_seq()
            } else {
                old(self).name_seq().push(key@)
            },
    {
        proof { use_type_invariant(&*self); }
        let ghost k = key@;
        let ghost v = value@;
        let ghost before = *self;
        let found = self.find(key.as_str());
        let mut taken = AttributeMap::new();
        std::mem::swap(self, &mut taken);
        let AttributeMap { entries: mut entries } = taken;
        match found {
            Some(i) => {
                entries.set(i, (key, value));
            },
            None => {
                entries.push((key, value));
            },
        }
        proof {
            assert forall|a: int, b: int| 0 <= a < b < entries@.len() implies entries@[a].0@
                != entries@[b].0@ by {
                if found is None && b == before.entries@.len() {
                    assert(!before.holds_at(k, a));
                }
            }
        }
        let after = AttributeMap { entries };
        proof {
            if let Some(i) = found {
                assert(after.holds_at(k, i as int));
            } else {
                assert(after.holds_at(k, before.entries@.len() as int));
            }
            assert forall|kk: Seq<char>| #[trigger] after@.contains_key(kk)
                == before@.insert(k, v).contains_key(kk) by {
                if kk != k {
                    if exists|j: int| after.holds_at(kk, j) {
                        let j = choose|j: int| after.holds_at(kk, j);
                        assert(before.holds_at(kk, j));
                    }
                    if exists|j: int| before.holds_at(kk, j) {
                        let j = choose|j: int| before.holds_at(kk, j);
                        assert(after.holds_at(kk, j));
                    }
                }
            }
            assert forall|kk: Seq<char>| #[trigger] after@.contains_key(kk) implies after@[kk]
                == before@.insert(k, v)[kk] by {
                let j = choose|j: int| after.holds_at(kk, j);
                after.lemma_at(kk, j);
                if kk != k {
                    before.lemma_at(kk, j);
                }
            }
            assert(after@ =~= before@.insert(k, v));
            if let Some(i) = found {
                before.lemma_at(k, i as int);
                assert(after.name_seq() =~= before.name_seq());
            } else {
                if before@.contains_key(k) {
                    let j = choose|j: int| before.holds_at(k, j);
                }
                assert(after.name_seq() =~= before.name_seq().push(k));
            }
        }
        *self = after;
    }

    /// The number of names held; with it, what the name sequence is.
    pub fn len(&self) -> (r: usize)
        ensures
            r == self.name_seq().len(),
            self.name_seq().no_duplicates(),
            forall|k: Seq<char>| #[trigger] self@.contains_key(k) <==> self.name_seq().contains(k),
    {
        proof {
            use_type_invariant(self);
            assert forall|k: Seq<char>| #[trigger] self@.contains_key(k) <==> self.name_seq().contains(
                k) by {
                if self@.contains_key(k) {
                    let j = choose|j: int| self.holds_at(k, j);
                    assert(self.name_seq()[j] == k);
                }
                if self.name_seq().contains(k) {
                    let j = choose|j: int| 0 <= j < self.name_seq().len() && self.name_seq()[j] == k;
                    assert(self.holds_at(k, j));
                }
            }
        }
        self.entries.len()
    }

    /// The `i`-th name in the name sequence.
    pub fn name_at(&self, i: usize) -> (r: &String)
        requires
            i < self.name_seq().len(),
        ensures
            r@ == self.name_seq()[i as int],
    {
        &self.entries[i].0
    }

    /// The value held under the `i`-th name.
    pub fn value_at(&self, i: usize) -> (r: &AttributeValue)
        requires
            i < self.name_seq().len(),
        ensures
            self@.contains_key(self.name_seq()[i as int]),
            r@ == self@[self.name_seq()[i as int]],
    {
        proof {
            use_type_invariant(self);
            self.lemma_at(self.entries@[i as int].0@, i as int);
        }
        &self.entries[i].1
    }

    /// A copy that holds the same names and values, in the same order.
    pub fn copied(&self) -> (r: AttributeMap)
        ensures
            r@ == self@,
            r.name_seq() == self.name_seq(),
    {
        proof { use_type_invariant(self); }
        let mut entries: Vec<(String, AttributeValue)> = Vec::new();
        let mut i: usize = 0;
        while i < self.entries.len()
            invariant
                i <= self.entries@.len(),
                entries@.len() == i,
                forall|j: int| 0 <= j < i ==> (#[trigger] entries@[j]).0@ == self.entries@[j].0@
                    && entries@[j].1@ == self.entries@[j].1@,
            decreases self.entries@.len() - i,
        {
            let e = &self.entries[i];
            entries.push((e.0.clone(), e.1.copied()));
            i = i + 1;
        }
        let r = AttributeMap { entries };
        proof {
            assert forall|k: Seq<char>, j: int| r.holds_at(k, j) == self.holds_at(k, j) by {}
            assert forall|k: Seq<char>| #[trigger] r@.contains_key(k) implies r@[k] == self@[k] by {
                let j = choose|j: int| r.holds_at(k, j);
                r.lemma_at(k, j);
                self.lemma_at(k, j);
            }
            assert(r@ =~= self@);
            assert(r.name_seq() =~= self.name_seq());
        }
        r
    }

    /// Writes every entry of `other` into this map: names of `other` take its
    /// values, and the other names keep theirs.
    pub fn merge_from(&mut self, other: &AttributeMap)
        ensures
            final(self)@ == old(self)@.union_prefer_right(other@),
    {
        let n = other.len();
        let mut i: usize = 0;
        while i < n
            invariant
                n == other.name_seq().len(),
                i <= n,
                forall|k: Seq<char>| #[trigger] other@.contains_key(k) <==> other.name_seq().contains(k),
                forall|k: Seq<char>| #[trigger] self@.contains_key(k) <==> (old(self)@.contains_key(k)
                    || other.name_seq().subrange(0, i as int).contains(k)),
                forall|k: Seq<char>| #[trigger] self@.contains_key(k) ==> self@[k] == if other.name_seq().subrange(
                    0,
                    i as int,
                ).contains(k) {
                    other@[k]
                } else {
                    old(self)@[k]
                },
            decreases n - i,
        {
            let key = other.name_at(i);
            let v = other.value_at(i);
            let ghost pre = other.name_seq().subrange(0, i as int);
            self.insert(key.clone(), v.copied());
            proof {
                let post = other.name_seq().subrange(0, i + 1);
                assert(post =~= pre.push(key@));
                assert forall|k: Seq<char>| post.contains(k) <==> (pre.contains(k) || k == key@) by {
                    if post.contains(k) {
                        let j = choose|j: int| 0 <= j < post.len() && post[j] == k;
                        if j < i {
                            assert(pre[j] == k);
                        }
                    }
                    if pre.contains(k) {
                        let j = choose|j: int| 0 <= j < pre.len() && pre[j] == k;
                        assert(post[j] == k);
                    }
                    if k == key@ {
                        assert(post[i as int] == k);
                    }
                }
            }
            i = i + 1;
        }
        proof {
            assert(other.name_seq().subrange(0, n as int) =~= other.name_seq());
            assert(self@ =~= old(self)@.union_prefer_right(other@));
        }
    }
}

} // verus!
