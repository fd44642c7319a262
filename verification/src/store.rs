//! The record store: an identifier-keyed mapping for one entity kind, generic
//! over the record type.
//!
//! The representation is a vector of `(identifier, record)` pairs kept in
//! strictly ascending identifier order, so a scan yields records in ascending
//! key order. The abstract content is the map from identifiers to record
//! views, `contents()`, together with the ordered key sequence `key_seq()`.

use vstd::prelude::*;

verus! {

/// An identifier-keyed store of records of one entity kind.
pub struct RecordStore<T: View> {
    entries: Vec<(u64, T)>,
}

/// The map described by a sequence of key-record pairs; a later pair with the
/// same key would win, though a well-formed store never holds one.
pub open spec fn pairs_contents<T: View>(s: Seq<(u64, T)>) -> Map<u64, T::V>
    decreases s.len(),
{
    if s.len() == 0 {
        Map::empty()
    } else {
        pairs_contents(s.drop_last()).insert(s.last().0, s.last().1@)
    }
}

/// Pairwise-distinct keys.
pub open spec fn distinct_keys<T: View>(s: Seq<(u64, T)>) -> bool {
    forall|i: int, j: int| 0 <= i < j < s.len() ==> s[i].0 != s[j].0
}

/// Each pair of a duplicate-free pair sequence is present in its map.
proof fn lemma_contents_at<T: View>(s: Seq<(u64, T)>, i: int)
    requires
        distinct_keys(s),
        0 <= i < s.len(),
    ensures
        pairs_contents(s).dom().contains(s[i].0),
        pairs_contents(s)[s[i].0] == s[i].1@,
    decreases s.len(),
{
    if i < s.len() - 1 {
        let t = s.drop_last();
        assert(distinct_keys(t)) by {
            assert(forall|i1: int, j1: int|
                0 <= i1 < j1 < t.len() ==> t[i1] == s[i1] && t[j1] == s[j1]);
        }
        assert(t[i] == s[i]);
        lemma_contents_at(t, i);
        assert(s[i].0 != s.last().0);
    }
}

/// A key that no pair carries is absent from the map.
proof fn lemma_contents_no_key<T: View>(s: Seq<(u64, T)>, k: u64)
    requires
        forall|i: int| 0 <= i < s.len() ==> s[i].0 != k,
    ensures
        !pairs_contents(s).dom().contains(k),
    decreases s.len(),
{
    if s.len() > 0 {
        let t = s.drop_last();
        assert(forall|i: int| 0 <= i < t.len() ==> t[i] == s[i]);
        lemma_contents_no_key(t, k);
    }
}

/// Replacing the pair at a key's position updates the map at that key alone.
proof fn lemma_contents_update<T: View>(s: Seq<(u64, T)>, j: int, id: u64, rec: T)
    requires
        distinct_keys(s),
        0 <= j < s.len(),
        s[j].0 == id,
    ensures
        pairs_contents(s.update(j, (id, rec))) == pairs_contents(s).insert(id, rec@),
    decreases s.len(),
{
    let s2 = s.update(j, (id, rec));
    if j == s.len() - 1 {
        assert(s2.drop_last() =~= s.drop_last());
        assert(pairs_contents(s2) =~= pairs_contents(s).insert(id, rec@));
    } else {
        let t = s.drop_last();
        assert(distinct_keys(t)) by {
            assert(forall|i1: int, j1: int|
                0 <= i1 < j1 < t.len() ==> t[i1] == s[i1] && t[j1] == s[j1]);
        }
        assert(t[j] == s[j]);
        lemma_contents_update(t, j, id, rec);
        assert(s2.drop_last() =~= t.update(j, (id, rec)));
        assert(s2.last() == s.last());
        assert(s.last().0 != id);
        assert(pairs_contents(s2) =~= pairs_contents(s).insert(id, rec@));
    }
}

/// Inserting a pair with a fresh key at any position adds exactly that key to
/// the map.
proof fn lemma_contents_insert_at<T: View>(s: Seq<(u64, T)>, j: int, id: u64, rec: T)
    requires
        distinct_keys(s),
        0 <= j <= s.len(),
        forall|i: int| 0 <= i < s.len() ==> s[i].0 != id,
    ensures
        pairs_contents(s.insert(j, (id, rec))) == pairs_contents(s).insert(id, rec@),
    decreases s.len(),
{
    let s2 = s.insert(j, (id, rec));
    if j == s.len() {
        assert(s2.drop_last() =~= s);
        assert(s2.last() == (id, rec));
        assert(pairs_contents(s2) =~= pairs_contents(s).insert(id, rec@));
    } else {
        let t = s.drop_last();
        assert(distinct_keys(t)) by {
            assert(forall|i1: int, j1: int|
                0 <= i1 < j1 < t.len() ==> t[i1] == s[i1] && t[j1] == s[j1]);
        }
        assert(forall|i: int| 0 <= i < t.len() ==> t[i] == s[i]);
        lemma_contents_insert_at(t, j, id, rec);
        assert(s2.drop_last() =~= t.insert(j, (id, rec)));
        assert(s2.last() == s.last());
        assert(s.last().0 != id);
        assert(pairs_contents(s2) =~= pairs_contents(s).insert(id, rec@));
    }
}

/// Removing the pair at a key's position removes exactly that key from the map.
proof fn lemma_contents_remove_at<T: View>(s: Seq<(u64, T)>, j: int)
    requires
        distinct_keys(s),
        0 <= j < s.len(),
    ensures
        pairs_contents(s.remove(j)) == pairs_contents(s).remove(s[j].0),
    decreases s.len(),
{
    let id = s[j].0;
    let s2 = s.remove(j);
    if j == s.len() - 1 {
        assert(s2 =~= s.drop_last());
        assert(forall|i: int| 0 <= i < s.len() - 1 ==> s.drop_last()[i] == s[i]);
        lemma_contents_no_key(s.drop_last(), id);
        assert(pairs_contents(s2) =~= pairs_contents(s).remove(id));
    } else {
        let t = s.drop_last();
        assert(distinct_keys(t)) by {
            assert(forall|i1: int, j1: int|
                0 <= i1 < j1 < t.len() ==> t[i1] == s[i1] && t[j1] == s[j1]);
        }
        assert(t[j] == s[j]);
        lemma_contents_remove_at(t, j);
        assert(s2.drop_last() =~= t.remove(j));
        assert(s2.last() == s.last());
        assert(s.last().0 != id);
        assert(pairs_contents(s2) =~= pairs_contents(s).remove(id));
    }
}

impl<T: View> RecordStore<T> {
    /// The stored identifiers, in ascending order.
    pub closed spec fn key_seq(self) -> Seq<u64> {
        self.entries@.map_values(|p: (u64, T)| p.0)
    }

    /// The stored records, as a map from identifier to record view.
    pub closed spec fn contents(self) -> Map<u64, T::V> {
        pairs_contents(self.entries@)
    }

    /// The stored record views, in ascending identifier order: what a full
    /// scan yields.
    pub open spec fn rec_seq(self) -> Seq<T::V> {
        Seq::new(self.key_seq().len(), |i: int| self.contents()[self.key_seq()[i]])
    }

    /// The key sequence is exactly the map's domain, in strictly ascending
    /// order: identifiers ascend, each listed identifier is mapped, and each
    /// mapped identifier is listed.
    pub open spec fn well_formed(self) -> bool {
        &&& forall|i: int, j: int|
            0 <= i < j < self.key_seq().len() ==> self.key_seq()[i] < self.key_seq()[j]
        &&& forall|i: int|
            0 <= i < self.key_seq().len() ==> self.contents().dom().contains(
                #[trigger] self.key_seq()[i],
            )
        &&& forall|id: u64|
            #[trigger] self.contents().dom().contains(id) ==> self.key_seq().contains(id)
    }

    proof fn lemma_well_formed_distinct(self)
        requires
            forall|i: int, j: int|
                0 <= i < j < self.key_seq().len() ==> self.key_seq()[i] < self.key_seq()[j],
        ensures
            distinct_keys(self.entries@),
            forall|i: int|
                0 <= i < self.entries@.len() ==> #[trigger] self.entries@[i].0
                    == self.key_seq()[i],
    {
        assert forall|i: int, j: int|
            0 <= i < j < self.entries@.len() implies self.entries@[i].0 != self.entries@[j].0 by {
            assert(self.key_seq()[i] < self.key_seq()[j]);
        }
    }

    /// The empty store.
    pub fn new() -> (r: Self)
        ensures
            r.well_formed(),
            r.contents() == Map::<u64, T::V>::empty(),
            r.key_seq() == Seq::<u64>::empty(),
    {
        let r = RecordStore { entries: Vec::new() };
        proof {
            assert(r.key_seq() =~= Seq::<u64>::empty());
            assert(r.contents() =~= Map::<u64, T::V>::empty());
        }
        r
    }

    /// How many records are stored; zero exactly when the map is empty.
    pub fn num_records(&self) -> (n: usize)
        ensures
            n == self.key_seq().len(),
            n == 0 ==> self.contents() == Map::<u64, T::V>::empty(),
    {
        proof {
            if self.entries@.len() == 0 {
                assert(self.contents() =~= Map::<u64, T::V>::empty());
            }
        }
        self.entries.len()
    }

    /// The record at scan position `i`.
    pub fn record_at(&self, i: usize) -> (r: &T)
        requires
            self.well_formed(),
            i < self.key_seq().len(),
        ensures
            r@ == self.rec_seq()[i as int],
            self.contents().dom().contains(self.key_seq()[i as int]),
            r@ == self.contents()[self.key_seq()[i as int]],
    {
        proof {
            self.lemma_well_formed_distinct();
            lemma_contents_at(self.entries@, i as int);
        }
        let p = &self.entries[i];
        &p.1
    }

    /// Looks an identifier up; no side effects.
    #[verifier::loop_isolation(false)]
    pub fn get(&self, id: u64) -> (r: Option<&T>)
        requires
            self.well_formed(),
        ensures
            match r {
                Some(t) => self.contents().dom().contains(id) && t@ == self.contents()[id],
                None => !self.contents().dom().contains(id),
            },
    {
        proof {
            self.lemma_well_formed_distinct();
        }
        let n = self.entries.len();
        let mut i: usize = 0;
        while i < n
            invariant
                n == self.entries@.len(),
                i <= n,
                forall|j: int| 0 <= j < i ==> self.entries@[j].0 != id,
            decreases n - i,
        {
            let p = &self.entries[i];
            if p.0 == id {
                proof {
                    lemma_contents_at(self.entries@, i as int);
                }
                return Some(&p.1);
            }
            i += 1;
        }
        proof {
            lemma_contents_no_key(self.entries@, id);
        }
        None
    }

    /// Upserts: inserts the record if the identifier is absent, overwrites if
    /// present. Keeps the ascending order; in particular an identifier above
    /// every stored one goes to the end of the scan order.
    #[verifier::loop_isolation(false)]
    pub fn insert(&mut self, id: u64, rec: T)
        requires
            old(self).well_formed(),
        ensures
            final(self).well_formed(),
            final(self).contents() == old(self).contents().insert(id, rec@),
            old(self).contents().dom().contains(id) ==> final(self).key_seq() == old(self).key_seq(),
            !old(self).contents().dom().contains(id) ==> final(self).key_seq().len() == old(self).key_seq().len() + 1,
            (forall|i: int| 0 <= i < old(self).key_seq().len() ==> old(self).key_seq()[i] < id)
                ==> final(self).key_seq() == old(self).key_seq().push(id),
    {
        proof {
            self.lemma_well_formed_distinct();
        }
        let ghost s0 = self.entries@;
        let n = self.entries.len();
        let mut i: usize = 0;
        while i < n
            invariant
                n == self.entries@.len(),
                i <= n,
                self.entries@ == s0,
                forall|j: int| 0 <= j < i ==> self.entries@[j].0 < id,
            decreases n - i,
        {
            let p_key = self.entries[i].0;
            if p_key == id {
                proof {
                    lemma_contents_at(s0, i as int);
                    lemma_contents_update(s0, i as int, id, rec);
                }
                self.entries[i] = (id, rec);
                proof {
                    assert(self.entries@ == s0.update(i as int, (id, rec)));
                    assert(self.key_seq() =~= old(self).key_seq());
                    assert forall|k: int|
                        0 <= k < self.key_seq().len() implies self.contents().dom().contains(
                        #[trigger] self.key_seq()[k],
                    ) by {
                        assert(old(self).contents().dom().contains(old(self).key_seq()[k]));
                    }
                    assert forall|k: u64| #[trigger] self.contents().dom().contains(k)
                        implies self.key_seq().contains(k) by {
                        assert(old(self).contents().dom().contains(k));
                        assert(old(self).key_seq().contains(k));
                        let w = choose|w: int|
                            0 <= w < old(self).key_seq().len() && old(self).key_seq()[w] == k;
                        assert(self.key_seq()[w] == k);
                    }
                }
                return ;
            } else if p_key > id {
                proof {
                    assert forall|j: int| 0 <= j < s0.len() implies s0[j].0 != id by {
                        if j >= i {
                            assert(old(self).key_seq()[i as int] <= old(self).key_seq()[j]);
                        }
                    }
                    lemma_contents_insert_at(s0, i as int, id, rec);
                    lemma_contents_no_key(s0, id);
                }
                self.entries.insert(i, (id, rec));
                proof {
                    assert(self.entries@ == s0.insert(i as int, (id, rec)));
                    assert(self.key_seq() =~= old(self).key_seq().insert(i as int, id));
                    assert forall|j1: int, j2: int|
                        0 <= j1 < j2 < self.key_seq().len() implies self.key_seq()[j1]
                        < self.key_seq()[j2] by {
                        if j1 < i && j2 > i {
                            assert(old(self).key_seq()[j1] < id);
                            assert(old(self).key_seq()[i as int] <= old(self).key_seq()[j2 - 1]);
                        } else if j1 == i && j2 > i {
                            assert(old(self).key_seq()[i as int] <= old(self).key_seq()[j2 - 1]);
                        }
                    }
                    assert forall|k: int|
                        0 <= k < self.key_seq().len() implies self.contents().dom().contains(
                        #[trigger] self.key_seq()[k],
                    ) by {
                        if k < i {
                            assert(old(self).contents().dom().contains(old(self).key_seq()[k]));
                        } else if k > i {
                            assert(old(self).contents().dom().contains(
                                old(self).key_seq()[k - 1],
                            ));
                        }
                    }
                    assert forall|k: u64| #[trigger] self.contents().dom().contains(k)
                        implies self.key_seq().contains(k) by {
                        if k == id {
                            assert(self.key_seq()[i as int] == id);
                        } else {
                            assert(old(self).contents().dom().contains(k));
                            assert(old(self).key_seq().contains(k));
                            let w = choose|w: int|
                                0 <= w < old(self).key_seq().len() && old(self).key_seq()[w] == k;
                            if w < i {
                                assert(self.key_seq()[w] == k);
                            } else {
                                assert(self.key_seq()[w + 1] == k);
                            }
                        }
                    }
                }
                return ;
            }
            i += 1;
        }
        proof {
            assert(forall|j: int| 0 <= j < s0.len() ==> s0[j].0 != id);
            lemma_contents_insert_at(s0, s0.len() as int, id, rec);
            lemma_contents_no_key(s0, id);
        }
        self.entries.push((id, rec));
        proof {
            assert(self.entries@ =~= s0.insert(s0.len() as int, (id, rec)));
            assert(self.key_seq() =~= old(self).key_seq().push(id));
            assert forall|k: int|
                0 <= k < self.key_seq().len() implies self.contents().dom().contains(
                #[trigger] self.key_seq()[k],
            ) by {
                if k < self.key_seq().len() - 1 {
                    assert(old(self).contents().dom().contains(old(self).key_seq()[k]));
                }
            }
            assert forall|k: u64| #[trigger] self.contents().dom().contains(k)
                implies self.key_seq().contains(k) by {
                if k == id {
                    assert(self.key_seq()[self.key_seq().len() - 1] == id);
                } else {
                    assert(old(self).contents().dom().contains(k));
                    assert(old(self).key_seq().contains(k));
                    let w = choose|w: int|
                        0 <= w < old(self).key_seq().len() && old(self).key_seq()[w] == k;
                    assert(self.key_seq()[w] == k);
                }
            }
        }
    }

    /// Deletes and returns the prior record if the identifier is present.
    #[verifier::loop_isolation(false)]
    pub fn remove(&mut self, id: u64) -> (r: Option<T>)
        requires
            old(self).well_formed(),
        ensures
            final(self).well_formed(),
            final(self).contents() == old(self).contents().remove(id),
            match r {
                Some(t) => {
                    &&& old(self).contents().dom().contains(id)
                    &&& t@ == old(self).contents()[id]
                    &&& exists|j: int|
                        0 <= j < old(self).key_seq().len() && old(self).key_seq()[j] == id
                            && final(self).key_seq() == old(self).key_seq().remove(j)
                },
                None => {
                    &&& !old(self).contents().dom().contains(id)
                    &&& *final(self) == *old(self)
                },
            },
    {
        proof {
            self.lemma_well_formed_distinct();
        }
        let ghost s0 = self.entries@;
        let n = self.entries.len();
        let mut i: usize = 0;
        while i < n
            invariant
                n == self.entries@.len(),
                i <= n,
                *self == *old(self),
                forall|j: int| 0 <= j < i ==> self.entries@[j].0 != id,
            decreases n - i,
        {
            let p_key = self.entries[i].0;
            if p_key == id {
                proof {
                    lemma_contents_at(s0, i as int);
                    lemma_contents_remove_at(s0, i as int);
                }
                let pair = self.entries.remove(i);
                proof {
                    assert(self.entries@ == s0.remove(i as int));
                    assert(self.key_seq() =~= old(self).key_seq().remove(i as int));
                    assert forall|j1: int, j2: int|
                        0 <= j1 < j2 < self.key_seq().len() implies self.key_seq()[j1]
                        < self.key_seq()[j2] by {
                        if j1 < i && j2 >= i {
                            assert(old(self).key_seq()[j1] < old(self).key_seq()[j2 + 1]);
                        } else if j1 >= i {
                            assert(old(self).key_seq()[j1 + 1] < old(self).key_seq()[j2 + 1]);
                        }
                    }
                    assert forall|k: int|
                        0 <= k < self.key_seq().len() implies self.contents().dom().contains(
                        #[trigger] self.key_seq()[k],
                    ) by {
                        if k < i {
                            assert(old(self).contents().dom().contains(old(self).key_seq()[k]));
                            assert(old(self).key_seq()[k] != id);
                        } else {
                            assert(old(self).contents().dom().contains(
                                old(self).key_seq()[k + 1],
                            ));
                            assert(old(self).key_seq()[k + 1] != id);
                        }
                    }
                    assert(old(self).key_seq()[i as int] == id);
                    assert forall|k: u64| #[trigger] self.contents().dom().contains(k)
                        implies self.key_seq().contains(k) by {
                        assert(old(self).contents().dom().contains(k) && k != id);
                        assert(old(self).key_seq().contains(k));
                        let w = choose|w: int|
                            0 <= w < old(self).key_seq().len() && old(self).key_seq()[w] == k;
                        if w < i {
                            assert(self.key_seq()[w] == k);
                        } else {
                            assert(self.key_seq()[w - 1] == k);
                        }
                    }
                    assert(self.key_seq() == old(self).key_seq().remove(i as int));
                    assert(exists|j: int|
                        0 <= j < old(self).key_seq().len() && old(self).key_seq()[j] == id
                            && self.key_seq() == old(self).key_seq().remove(j)) by {
                        assert((i as int) < old(self).key_seq().len() && old(self).key_seq()[
                            i as int
                        ] == id && self.key_seq() == old(self).key_seq().remove(i as int));
                    }
                }
                return Some(pair.1);
            }
            i += 1;
        }
        proof {
            lemma_contents_no_key(self.entries@, id);
            assert(self.contents() =~= old(self).contents().remove(id));
        }
        None
    }
}

} // verus!
