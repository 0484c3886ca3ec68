use vstd::prelude::*;

verus! {

/// The map that a list of key/value pairs denotes: a later pair for the same
/// key replaces an earlier one.
pub open spec fn pairs_map<V: View>(s: Seq<(String, V)>) -> Map<Seq<char>, V::V>
    decreases s.len(),
{
    if s.len() == 0 {
        Map::empty()
    } else {
        pairs_map(s.drop_last()).insert(s.last().0@, s.last().1@)
    }
}

/// No two pairs of the list carry the same key.
pub open spec fn keys_distinct<V>(s: Seq<(String, V)>) -> bool {
    forall|i: int, j: int| 0 <= i < s.len() && 0 <= j < s.len() && i != j ==> s[i].0@ != s[j].0@
}

pub proof fn lemma_pairs_map_dom<V: View>(s: Seq<(String, V)>, k: Seq<char>)
    ensures
        pairs_map(s).contains_key(k) <==> exists|i: int| 0 <= i < s.len() && s[i].0@ == k,
    decreases s.len(),
{
    if s.len() > 0 {
        let t = s.drop_last();
        lemma_pairs_map_dom(t, k);
        if pairs_map(s).contains_key(k) && s.last().0@ != k {
            let i = choose|i: int| 0 <= i < t.len() && t[i].0@ == k;
            assert(s[i] == t[i]);
        }
        if exists|i: int| 0 <= i < s.len() && s[i].0@ == k {
            let i = choose|i: int| 0 <= i < s.len() && s[i].0@ == k;
            if i < t.len() {
                assert(t[i] == s[i]);
            }
        }
    }
}

pub proof fn lemma_pairs_map_at<V: View>(s: Seq<(String, V)>, i: int)
    requires
        keys_distinct(s),
        0 <= i < s.len(),
    ensures
        pairs_map(s).contains_key(s[i].0@),
        pairs_map(s)[s[i].0@] == s[i].1@,
    decreases s.len(),
{
    if i < s.len() - 1 {
        let t = s.drop_last();
        assert(t[i] == s[i]);
        lemma_pairs_map_at(t, i);
    }
}

proof fn lemma_pairs_map_update<V: View>(s: Seq<(String, V)>, i: int, k: String, v: V)
    requires
        keys_distinct(s),
        0 <= i < s.len(),
        k@ == s[i].0@,
    ensures
        keys_distinct(s.update(i, (k, v))),
        pairs_map(s.update(i, (k, v))) == pairs_map(s).insert(k@, v@),
    decreases s.len(),
{
    let u = s.update(i, (k, v));
    if i < s.len() - 1 {
        let t = s.drop_last();
        assert(t[i] == s[i]);
        lemma_pairs_map_update(t, i, k, v);
        assert(u.drop_last() == t.update(i, (k, v)));
        assert(u.last() == s.last());
        assert(s.last().0@ != s[i].0@);
        assert(pairs_map(u) =~= pairs_map(s).insert(s[i].0@, v@));
    } else {
        assert(u.drop_last() == s.drop_last());
        assert(pairs_map(u) =~= pairs_map(s).insert(s[i].0@, v@));
    }
}

proof fn lemma_pairs_map_remove<V: View>(s: Seq<(String, V)>, i: int)
    requires
        keys_distinct(s),
        0 <= i < s.len(),
    ensures
        keys_distinct(s.remove(i)),
        pairs_map(s.remove(i)) == pairs_map(s).remove(s[i].0@),
    decreases s.len(),
{
    let r = s.remove(i);
    let t = s.drop_last();
    if i < s.len() - 1 {
        assert(t[i] == s[i]);
        lemma_pairs_map_remove(t, i);
        assert(r.drop_last() == t.remove(i));
        assert(r.last() == s.last());
        assert(s.last().0@ != s[i].0@);
        assert(pairs_map(r) =~= pairs_map(s).remove(s[i].0@));
    } else {
        assert(r == t);
        assert forall|j: int| 0 <= j < t.len() implies t[j].0@ != s[i].0@ by {
            assert(t[j] == s[j]);
        }
        lemma_pairs_map_dom(t, s[i].0@);
        assert(pairs_map(r) =~= pairs_map(s).remove(s[i].0@));
    }
}

/// Two lists with the same keys and values of the same views denote the same map.
proof fn lemma_pairs_map_same<V: View>(s: Seq<(String, V)>, t: Seq<(String, V)>)
    requires
        s.len() == t.len(),
        forall|i: int| 0 <= i < s.len() ==> s[i].0@ == t[i].0@ && s[i].1@ == t[i].1@,
    ensures
        pairs_map(s) == pairs_map(t),
    decreases s.len(),
{
    if s.len() > 0 {
        lemma_pairs_map_same(s.drop_last(), t.drop_last());
    }
}

/// A value that can be copied with its view kept.
pub trait Replica: View + Sized {
    fn replica(&self) -> (r: Self)
        ensures
            r@ == self@,
    ;
}

impl Replica for String {
    fn replica(&self) -> (r: String) {
        self.clone()
    }
}

/// A finite map from strings to values: a list of pairs with distinct keys.
#[derive(Debug)]
pub struct Table<V> {
    entries: Vec<(String, V)>,
}

impl<V: View> View for Table<V> {
    type V = Map<Seq<char>, V::V>;

    closed spec fn view(&self) -> Map<Seq<char>, V::V> {
        pairs_map(self.entries@)
    }
}

impl<V: View> Table<V> {
    /// The table's own invariant: its keys are distinct.
    pub closed spec fn wf(&self) -> bool {
        keys_distinct(self.entries@)
    }

    pub fn new() -> (t: Self)
        ensures
            t.wf(),
            t@ == Map::<Seq<char>, V::V>::empty(),
    {
        Table { entries: Vec::new() }
    }

    fn find(&self, k: &String) -> (r: Option<usize>)
        requires
            self.wf(),
        ensures
            match r {
                Some(i) => i < self.entries@.len() && self.entries@[i as int].0@ == k@,
                None => !self@.contains_key(k@),
            },
    {
        let mut i: usize = 0;
        while i < self.entries.len()
            invariant
                i <= self.entries@.len(),
                forall|j: int| 0 <= j < i ==> self.entries@[j].0@ != k@,
            decreases self.entries@.len() - i,
        {
            if self.entries[i].0 == *k {
                return Some(i);
            }
            i = i + 1;
        }
        proof {
            lemma_pairs_map_dom(self.entries@, k@);
        }
        None
    }

    pub fn contains_key(&self, k: &String) -> (r: bool)
        requires
            self.wf(),
        ensures
            r == self@.contains_key(k@),
    {
        match self.find(k) {
            Some(i) => {
                proof {
                    lemma_pairs_map_at(self.entries@, i as int);
                }
                true
            },
            None => false,
        }
    }

    pub fn get(&self, k: &String) -> (r: Option<&V>)
        requires
            self.wf(),
        ensures
            match r {
                Some(v) => self@.contains_key(k@) && v@ == self@[k@],
                None => !self@.contains_key(k@),
            },
    {
        match self.find(k) {
            Some(i) => {
                proof {
                    lemma_pairs_map_at(self.entries@, i as int);
                }
                Some(&self.entries[i].1)
            },
            None => None,
        }
    }

    /// Sets the value of `k`, replacing the one it had.
    pub fn insert(&mut self, k: String, v: V)
        requires
            old(self).wf(),
        ensures
            final(self).wf(),
            final(self)@ == old(self)@.insert(k@, v@),
    {
        match self.find(&k) {
            Some(i) => {
                proof {
                    lemma_pairs_map_update(self.entries@, i as int, k, v);
                }
                self.entries.set(i, (k, v));
            },
            None => {
                proof {
                    lemma_pairs_map_dom(self.entries@, k@);
                }
                let ghost s = self.entries@;
                self.entries.push((k, v));
                assert(self.entries@.drop_last() == s);
            },
        }
    }

    /// Removes `k` and hands back the value it had.
    pub fn remove(&mut self, k: &String) -> (r: Option<V>)
        requires
            old(self).wf(),
        ensures
            final(self).wf(),
            final(self)@ == old(self)@.remove(k@),
            match r {
                Some(v) => old(self)@.contains_key(k@) && v@ == old(self)@[k@],
                None => !old(self)@.contains_key(k@) && final(self)@ == old(self)@,
            },
    {
        match self.find(k) {
            Some(i) => {
                proof {
                    lemma_pairs_map_at(self.entries@, i as int);
                    lemma_pairs_map_remove(self.entries@, i as int);
                }
                let p = self.entries.remove(i);
                Some(p.1)
            },
            None => {
                assert(self@.remove(k@) =~= self@);
                None
            },
        }
    }

    /// Builds the table that a list of pairs denotes; a later pair wins.
    pub fn from_pairs(pairs: Vec<(String, V)>) -> (t: Self)
        ensures
            t.wf(),
            t@ == pairs_map(pairs@),
    {
        let ghost all = pairs@;
        let mut t = Table::new();
        let mut rest = pairs;
        while rest.len() > 0
            invariant
                t.wf(),
                rest@.len() <= all.len(),
                rest@ == all.subrange(all.len() - rest@.len(), all.len() as int),
                t@ == pairs_map(all.subrange(0, all.len() - rest@.len())),
            decreases rest@.len(),
        {
            let ghost done = all.subrange(0, all.len() - rest@.len());
            let (k, v) = rest.remove(0);
            t.insert(k, v);
            proof {
                let next = all.subrange(0, all.len() - rest@.len());
                assert(next.drop_last() == done);
                assert(next.last() == (k, v));
            }
        }
        assert(all.subrange(0, all.len() as int) == all);
        t
    }
}

impl<V: View> Table<V> {
    /// Hands over the pairs of the table.
    pub fn into_pairs(self) -> (r: Vec<(String, V)>)
        requires
            self.wf(),
        ensures
            keys_distinct(r@),
            pairs_map(r@) == self@,
    {
        self.entries
    }

    /// The pairs of the table, in the order in which their keys came in.
    pub fn pairs(&self) -> (r: &Vec<(String, V)>)
        requires
            self.wf(),
        ensures
            keys_distinct(r@),
            pairs_map(r@) == self@,
    {
        &self.entries
    }
}

impl<V: Replica> Table<V> {
    /// A copy of the table, as it stands now.
    pub fn snapshot(&self) -> (r: Table<V>)
        requires
            self.wf(),
        ensures
            r.wf(),
            r@ == self@,
    {
        let mut copy: Vec<(String, V)> = Vec::new();
        let mut i: usize = 0;
        while i < self.entries.len()
            invariant
                i <= self.entries@.len(),
                copy@.len() == i,
                keys_distinct(self.entries@),
                forall|j: int|
                    0 <= j < i ==> copy@[j].0 == self.entries@[j].0 && copy@[j].1@
                        == self.entries@[j].1@,
            decreases self.entries@.len() - i,
        {
            let k = self.entries[i].0.clone();
            let v = self.entries[i].1.replica();
            copy.push((k, v));
            i = i + 1;
        }
        proof {
            lemma_pairs_map_same(copy@, self.entries@);
            assert forall|a: int, b: int|
                0 <= a < copy@.len() && 0 <= b < copy@.len() && a != b implies copy@[a].0@
                != copy@[b].0@ by {
                assert(self.entries@[a].0@ != self.entries@[b].0@);
            }
        }
        Table { entries: copy }
    }
}

} // verus!
