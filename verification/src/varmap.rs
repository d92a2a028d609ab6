//! The resolved-variables mapping: built in declaration order, read as a
//! name→value map by everything downstream of variable resolution.

use vstd::prelude::*;

use crate::text::eq_str;
use crate::value::{Value, ValueView};

verus! {

/// The map described by an entry list; the first entry under a name wins.
/// `VarMap::insert` replaces in place, so a name never occurs twice.
pub open spec fn entries_map(s: Seq<(String, Value)>) -> Map<Seq<char>, ValueView>
    decreases s.len(),
{
    if s.len() == 0 {
        Map::empty()
    } else {
        entries_map(s.drop_first()).insert(s[0].0@, s[0].1@)
    }
}

proof fn lemma_entries_map_found(s: Seq<(String, Value)>, i: int)
    requires
        0 <= i < s.len(),
        forall|j: int| 0 <= j < i ==> s[j].0@ != s[i].0@,
    ensures
        entries_map(s).dom().contains(s[i].0@),
        entries_map(s)[s[i].0@] == s[i].1@,
    decreases s.len(),
{
    if i > 0 {
        lemma_entries_map_found(s.drop_first(), i - 1);
    }
}

proof fn lemma_entries_map_absent(s: Seq<(String, Value)>, k: Seq<char>)
    requires
        forall|j: int| 0 <= j < s.len() ==> s[j].0@ != k,
    ensures
        !entries_map(s).dom().contains(k),
    decreases s.len(),
{
    if s.len() > 0 {
        lemma_entries_map_absent(s.drop_first(), k);
    }
}

proof fn lemma_entries_map_contains(s: Seq<(String, Value)>, k: Seq<char>)
    ensures
        entries_map(s).dom().contains(k) <==> exists|j: int| 0 <= j < s.len() && s[j].0@ == k,
    decreases s.len(),
{
    if s.len() > 0 {
        lemma_entries_map_contains(s.drop_first(), k);
        if entries_map(s).dom().contains(k) {
            if s[0].0@ == k {
                assert(0 <= 0 < s.len() && s[0].0@ == k);
            } else {
                let j = choose|j: int| 0 <= j < s.drop_first().len() && s.drop_first()[j].0@ == k;
                assert(s[j + 1].0@ == k);
            }
        }
        if exists|j: int| 0 <= j < s.len() && s[j].0@ == k {
            let j = choose|j: int| 0 <= j < s.len() && s[j].0@ == k;
            if j > 0 {
                assert(s.drop_first()[j - 1].0@ == k);
            }
        }
    }
}

proof fn lemma_entries_map_update(s: Seq<(String, Value)>, i: int, e: (String, Value))
    requires
        0 <= i < s.len(),
        s[i].0@ == e.0@,
        forall|j: int| 0 <= j < i ==> s[j].0@ != e.0@,
    ensures
        entries_map(s.update(i, e)) == entries_map(s).insert(e.0@, e.1@),
    decreases s.len(),
{
    let t = s.update(i, e);
    if i == 0 {
        assert(t.drop_first() =~= s.drop_first());
        assert(entries_map(s.drop_first()).insert(s[0].0@, s[0].1@).insert(e.0@, e.1@)
            =~= entries_map(s.drop_first()).insert(e.0@, e.1@));
    } else {
        assert(t.drop_first() =~= s.drop_first().update(i - 1, e));
        lemma_entries_map_update(s.drop_first(), i - 1, e);
        assert(t[0] == s[0]);
        assert(s[0].0@ != e.0@);
        assert(entries_map(s.drop_first()).insert(e.0@, e.1@).insert(s[0].0@, s[0].1@)
            =~= entries_map(s.drop_first()).insert(s[0].0@, s[0].1@).insert(e.0@, e.1@));
    }
}

proof fn lemma_entries_map_push(s: Seq<(String, Value)>, e: (String, Value))
    requires
        forall|j: int| 0 <= j < s.len() ==> s[j].0@ != e.0@,
    ensures
        entries_map(s.push(e)) == entries_map(s).insert(e.0@, e.1@),
    decreases s.len(),
{
    if s.len() == 0 {
        assert(s.push(e).drop_first() =~= s);
        assert(entries_map(s.push(e)) =~= entries_map(s).insert(e.0@, e.1@));
    } else {
        assert(s.push(e).drop_first() =~= s.drop_first().push(e));
        lemma_entries_map_push(s.drop_first(), e);
        assert(s.push(e)[0] == s[0]);
        assert(entries_map(s.drop_first()).insert(e.0@, e.1@).insert(s[0].0@, s[0].1@)
            =~= entries_map(s.drop_first()).insert(s[0].0@, s[0].1@).insert(e.0@, e.1@));
    }
}

/// An ordered name→value mapping.  It is built incrementally by variable
/// resolution and read by rendering, hooks and cleanup.
#[derive(Debug)]
pub struct VarMap {
    entries: Vec<(String, Value)>,
}

impl View for VarMap {
    type V = Map<Seq<char>, ValueView>;

    closed spec fn view(&self) -> Map<Seq<char>, ValueView> {
        entries_map(self.entries@)
    }
}

impl VarMap {
    /// The entries in insertion order.
    pub closed spec fn pairs(&self) -> Seq<(Seq<char>, ValueView)> {
        Seq::new(self.entries@.len(), |i: int| (self.entries@[i].0@, self.entries@[i].1@))
    }

    /// An empty mapping.
    pub fn new() -> (r: VarMap)
        ensures
            r@ == Map::<Seq<char>, ValueView>::empty(),
            r.pairs() == Seq::<(Seq<char>, ValueView)>::empty(),
    {
        let r = VarMap { entries: Vec::new() };
        proof {
            assert(r.pairs() =~= Seq::<(Seq<char>, ValueView)>::empty());
        }
        r
    }

    /// The number of variables held.
    pub fn len(&self) -> (r: usize)
        ensures
            r == self.pairs().len(),
    {
        self.entries.len()
    }

    /// One entry, by position.
    pub fn entry_at(&self, i: usize) -> (r: &(String, Value))
        requires
            i < self.pairs().len(),
        ensures
            r.0@ == self.pairs()[i as int].0,
            r.1@ == self.pairs()[i as int].1,
    {
        &self.entries[i]
    }

    /// Look a variable up by name.
    pub fn get(&self, name: &str) -> (r: Option<&Value>)
        ensures
            match r {
                Some(v) => self@.dom().contains(name@) && v@ == self@[name@],
                None => !self@.dom().contains(name@),
            },
    {
        let mut i: usize = 0;
        let n = self.entries.len();
        while i < n
            invariant
                i <= n,
                n == self.entries@.len(),
                forall|j: int| 0 <= j < i ==> self.entries@[j].0@ != name@,
            decreases n - i,
        {
            let e = &self.entries[i];
            if eq_str(e.0.as_str(), name) {
                proof {
                    lemma_entries_map_found(self.entries@, i as int);
                }
                return Some(&self.entries[i].1);
            }
            i += 1;
        }
        proof {
            lemma_entries_map_absent(self.entries@, name@);
        }
        None
    }

    /// A name is in the map exactly when some entry carries it.
    pub proof fn lemma_key_iff_pair(&self, k: Seq<char>)
        ensures
            self@.dom().contains(k) <==> exists|j: int|
                0 <= j < self.pairs().len() && (#[trigger] self.pairs()[j]).0 == k,
    {
        lemma_entries_map_contains(self.entries@, k);
        if self@.dom().contains(k) {
            let j = choose|j: int| 0 <= j < self.entries@.len() && self.entries@[j].0@ == k;
            assert(self.pairs()[j].0 == k);
        }
        if exists|j: int| 0 <= j < self.pairs().len() && (#[trigger] self.pairs()[j]).0 == k {
            let j = choose|j: int|
                0 <= j < self.pairs().len() && (#[trigger] self.pairs()[j]).0 == k;
            assert(self.entries@[j].0@ == k);
        }
    }

    /// Whether a variable of that name is held.
    pub fn contains_key(&self, name: &str) -> (r: bool)
        ensures
            r == self@.dom().contains(name@),
    {
        self.get(name).is_some()
    }

    /// Add a variable, replacing any earlier value under the same name.
    pub fn insert(&mut self, name: String, value: Value)
        ensures
            final(self)@ == old(self)@.insert(name@, value@),
    {
        let mut i: usize = 0;
        let n = self.entries.len();
        while i < n
            invariant
                i <= n,
                n == self.entries@.len(),
                self.entries@ == old(self).entries@,
                forall|j: int| 0 <= j < i ==> self.entries@[j].0@ != name@,
            decreases n - i,
        {
            let e = &self.entries[i];
            if eq_str(e.0.as_str(), name.as_str()) {
                let ghost pre = self.entries@;
                proof {
                    lemma_entries_map_update(pre, i as int, (name, value));
                }
                self.entries.remove(i);
                self.entries.insert(i, (name, value));
                proof {
                    assert(self.entries@ =~= pre.update(i as int, (name, value)));
                }
                return ;
            }
            i += 1;
        }
        proof {
            lemma_entries_map_push(self.entries@, (name, value));
        }
        self.entries.push((name, value));
    }
}

} // verus!
