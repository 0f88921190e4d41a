use vstd::prelude::*;
use crate::table::{IdentModel, TableIdent};

verus! {

/// An owned grouping of values under table identities: a list of buckets,
/// each key held once, each bucket keeping the order in which its values
/// were added. A bucket can be fetched and removed in one step, so what it
/// holds is handed out at most once.
pub struct Buckets<T> {
    entries: Vec<(TableIdent, Vec<T>)>,
}

impl<T> View for Buckets<T> {
    type V = Seq<(IdentModel, Seq<T>)>;

    closed spec fn view(&self) -> Seq<(IdentModel, Seq<T>)> {
        self.entries@.map_values(|e: (TableIdent, Vec<T>)| (e.0@, e.1@))
    }
}

/// Whether some bucket of `s` has the key `key`.
pub open spec fn has_key<T>(s: Seq<(IdentModel, Seq<T>)>, key: IdentModel) -> bool {
    exists|i: int| 0 <= i < s.len() && (#[trigger] s[i]).0 == key
}

/// Removing a bucket of another key keeps `key` present.
pub proof fn lemma_remove_keeps_key<T>(s: Seq<(IdentModel, Seq<T>)>, w: int, key: IdentModel)
    requires
        0 <= w < s.len(),
        has_key(s, key),
        s[w].0 != key,
    ensures
        has_key(s.remove(w), key),
{
    let v = choose|v: int| 0 <= v < s.len() && (#[trigger] s[v]).0 == key;
    if v < w {
        assert(s.remove(w)[v] == s[v]);
    } else {
        assert(s.remove(w)[v - 1] == s[v]);
    }
}

impl<T> Buckets<T> {
    /// No key is held by two buckets.
    pub open spec fn wf(&self) -> bool {
        forall|i: int, j: int|
            0 <= i < j < self@.len() ==> (#[trigger] self@[i]).0 != (#[trigger] self@[j]).0
    }

    pub fn new() -> (r: Buckets<T>)
        ensures
            r@ == Seq::<(IdentModel, Seq<T>)>::empty(),
            r.wf(),
    {
        Buckets { entries: Vec::new() }
    }

    pub fn len(&self) -> (r: usize)
        ensures
            r == self@.len(),
    {
        self.entries.len()
    }

    fn find(&self, key: &TableIdent) -> (r: Option<usize>)
        ensures
            r matches Some(i) ==> i < self@.len() && self@[i as int].0 == key@,
            r is None ==> !has_key(self@, key@),
    {
        let mut i: usize = 0;
        while i < self.entries.len()
            invariant
                0 <= i <= self@.len(),
                self@.len() == self.entries@.len(),
                forall|j: int| 0 <= j < i ==> (#[trigger] self@[j]).0 != key@,
            decreases self@.len() - i,
        {
            if self.entries[i].0.same(key) {
                return Some(i);
            }
            i += 1;
        }
        None
    }

    /// Appends `item` to the bucket of `key`, opening that bucket at the end
    /// when `key` has none yet.
    pub fn add(&mut self, key: &TableIdent, item: T)
        requires
            old(self).wf(),
        ensures
            final(self).wf(),
            forall|i: int|
                0 <= i < old(self)@.len() && (#[trigger] old(self)@[i]).0 == key@
                    ==> final(self)@ == old(self)@.update(i, (key@, old(self)@[i].1.push(item))),
            !has_key(old(self)@, key@) ==> final(self)@ == old(self)@.push((key@, seq![item])),
    {
        match self.find(key) {
            Some(i) => {
                let (k, mut items) = self.entries.remove(i);
                items.push(item);
                self.entries.insert(i, (k, items));
                proof {
                    assert(final(self)@ =~= old(self)@.update(i as int, (key@, old(self)@[i as int].1.push(item))));
                }
            },
            None => {
                let mut items = Vec::new();
                items.push(item);
                assert(items@ =~= seq![item]);
                self.entries.push((key.copy(), items));
                proof {
                    assert(final(self)@ =~= old(self)@.push((key@, seq![item])));
                }
            },
        }
    }

    /// Fetches and removes the bucket of `key`, if there is one.
    pub fn take(&mut self, key: &TableIdent) -> (r: Option<Vec<T>>)
        requires
            old(self).wf(),
        ensures
            final(self).wf(),
            forall|i: int|
                0 <= i < old(self)@.len() && (#[trigger] old(self)@[i]).0 == key@
                    ==> (r matches Some(v) && v@ == old(self)@[i].1) && final(self)@ == old(self)@.remove(i),
            !has_key(old(self)@, key@) ==> r is None && final(self)@ == old(self)@,
    {
        match self.find(key) {
            Some(i) => {
                let (_k, items) = self.entries.remove(i);
                proof {
                    assert(final(self)@ =~= old(self)@.remove(i as int));
                }
                Some(items)
            },
            None => None,
        }
    }

    /// Removes and returns the first bucket.
    pub fn pop_first(&mut self) -> (r: Option<(TableIdent, Vec<T>)>)
        requires
            old(self).wf(),
        ensures
            final(self).wf(),
            old(self)@.len() == 0 ==> r is None && final(self)@ == old(self)@,
            old(self)@.len() > 0 ==> (r matches Some(e) && (e.0@, e.1@) == old(self)@[0])
                && final(self)@ == old(self)@.drop_first(),
    {
        if self.entries.len() == 0 {
            return None;
        }
        let e = self.entries.remove(0);
        proof {
            assert(final(self)@ =~= old(self)@.drop_first());
        }
        Some(e)
    }
}

} // verus!
