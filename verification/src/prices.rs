//! The price cache: per type name an optional on-demand price and an
//! optional spot price, both in micro-dollars per hour. Bulk price events
//! merge into the cache field by field; a partial record updates only the
//! field it carries (last write wins per field).

use vstd::prelude::*;

verus! {

/// Cached prices of one instance type, in micro-dollars per hour.
/// Either field is absent until the corresponding fetch delivered it.
#[derive(Clone, Copy, Debug, PartialEq, Eq)]
pub struct Prices {
    pub on_demand: Option<u64>,
    pub spot: Option<u64>,
}

/// The price cache, viewed as a map from type name to [`Prices`].
pub struct PriceTable {
    entries: Vec<(String, Prices)>,
}

/// The map an entry list denotes: later entries win on a repeated key.
pub open spec fn entries_map(s: Seq<(String, Prices)>) -> Map<Seq<char>, Prices>
    decreases s.len(),
{
    if s.len() == 0 {
        Map::empty()
    } else {
        entries_map(s.drop_last()).insert(s.last().0@, s.last().1)
    }
}

/// `m` after an on-demand price `p` for `k` arrived: the on-demand field is
/// replaced, the spot field is kept.
pub open spec fn od_merged(m: Map<Seq<char>, Prices>, k: Seq<char>, p: u64) -> Map<
    Seq<char>,
    Prices,
> {
    let prev_spot = if m.contains_key(k) {
        m[k].spot
    } else {
        None
    };
    m.insert(k, Prices { on_demand: Some(p), spot: prev_spot })
}

/// `m` after a whole batch of on-demand prices arrived, in order.
pub open spec fn od_merged_all(m: Map<Seq<char>, Prices>, batch: Seq<(Seq<char>, u64)>) -> Map<
    Seq<char>,
    Prices,
>
    decreases batch.len(),
{
    if batch.len() == 0 {
        m
    } else {
        od_merged(od_merged_all(m, batch.drop_last()), batch.last().0, batch.last().1)
    }
}

/// `m` after a spot price `p` for `k` arrived: the spot field is replaced,
/// the on-demand field is kept.
pub open spec fn spot_merged(m: Map<Seq<char>, Prices>, k: Seq<char>, p: u64) -> Map<
    Seq<char>,
    Prices,
> {
    let prev_od = if m.contains_key(k) {
        m[k].on_demand
    } else {
        None
    };
    m.insert(k, Prices { on_demand: prev_od, spot: Some(p) })
}

/// `m` after a whole batch of spot prices arrived, in order.
pub open spec fn spot_merged_all(m: Map<Seq<char>, Prices>, batch: Seq<(Seq<char>, u64)>) -> Map<
    Seq<char>,
    Prices,
>
    decreases batch.len(),
{
    if batch.len() == 0 {
        m
    } else {
        spot_merged(spot_merged_all(m, batch.drop_last()), batch.last().0, batch.last().1)
    }
}

impl View for PriceTable {
    type V = Map<Seq<char>, Prices>;

    closed spec fn view(&self) -> Map<Seq<char>, Prices> {
        entries_map(self.entries@)
    }
}

proof fn lemma_entries_map_contains(s: Seq<(String, Prices)>, k: Seq<char>)
    ensures
        entries_map(s).contains_key(k) <==> exists|i: int| 0 <= i < s.len() && s[i].0@ == k,
    decreases s.len(),
{
    if s.len() > 0 {
        lemma_entries_map_contains(s.drop_last(), k);
        if entries_map(s).contains_key(k) {
            if s.last().0@ == k {
                assert(s[s.len() - 1].0@ == k);
            } else {
                let i = choose|i: int| 0 <= i < s.drop_last().len() && s.drop_last()[i].0@ == k;
                assert(s[i].0@ == k);
            }
        }
        if exists|i: int| 0 <= i < s.len() && s[i].0@ == k {
            let i = choose|i: int| 0 <= i < s.len() && s[i].0@ == k;
            if i < s.len() - 1 {
                assert(s.drop_last()[i].0@ == k);
            }
        }
    }
}

spec fn keys_unique(s: Seq<(String, Prices)>) -> bool {
    forall|i: int, j: int| 0 <= i < j < s.len() ==> s[i].0@ != s[j].0@
}

proof fn lemma_entries_map_get(s: Seq<(String, Prices)>, i: int)
    requires
        keys_unique(s),
        0 <= i < s.len(),
    ensures
        entries_map(s).contains_key(s[i].0@),
        entries_map(s)[s[i].0@] == s[i].1,
    decreases s.len(),
{
    if i == s.len() - 1 {
    } else {
        assert(keys_unique(s.drop_last()));
        assert(s.drop_last()[i] == s[i]);
        lemma_entries_map_get(s.drop_last(), i);
        assert(s[i].0@ != s.last().0@);
    }
}

proof fn lemma_entries_map_update(s: Seq<(String, Prices)>, i: int, p: Prices)
    requires
        keys_unique(s),
        0 <= i < s.len(),
    ensures
        entries_map(s.update(i, (s[i].0, p))) =~= entries_map(s).insert(s[i].0@, p),
    decreases s.len(),
{
    let t = s.update(i, (s[i].0, p));
    if i == s.len() - 1 {
        assert(t.drop_last() =~= s.drop_last());
        assert(t.last() == (s[i].0, p));
    } else {
        assert(keys_unique(s.drop_last()));
        assert(s.drop_last()[i] == s[i]);
        lemma_entries_map_update(s.drop_last(), i, p);
        assert(t.drop_last() =~= s.drop_last().update(i, (s[i].0, p)));
        assert(t.last() == s.last());
        assert(s[i].0@ != s.last().0@);
    }
}

impl PriceTable {
    /// Entry keys are pairwise distinct, so each type name denotes one record.
    pub closed spec fn wf(&self) -> bool {
        keys_unique(self.entries@)
    }

    /// An empty cache.
    pub fn new() -> (r: PriceTable)
        ensures
            r.wf(),
            r@ == Map::<Seq<char>, Prices>::empty(),
    {
        PriceTable { entries: Vec::new() }
    }

    /// Whether no price of any kind has been cached yet.
    pub fn is_empty(&self) -> (r: bool)
        ensures
            r == (self@ == Map::<Seq<char>, Prices>::empty()),
    {
        let r = self.entries.len() == 0;
        proof {
            if self.entries@.len() > 0 {
                assert(self@.contains_key(self.entries@.last().0@));
                assert(!Map::<Seq<char>, Prices>::empty().contains_key(
                    self.entries@.last().0@,
                ));
            }
        }
        r
    }

    /// Index of the entry holding `name`, if one exists.
    fn find(&self, name: &str) -> (r: Option<usize>)
        requires
            self.wf(),
        ensures
            match r {
                Some(i) => i < self.entries@.len() && self.entries@[i as int].0@ == name@,
                None => !self@.contains_key(name@),
            },
    {
        let mut i: usize = 0;
        while i < self.entries.len()
            invariant
                0 <= i <= self.entries@.len(),
                forall|m: int| 0 <= m < i ==> self.entries@[m].0@ != name@,
            decreases self.entries@.len() - i,
        {
            if crate::text::str_eq(self.entries[i].0.as_str(), name) {
                return Some(i);
            }
            i += 1;
        }
        proof {
            lemma_entries_map_contains(self.entries@, name@);
        }
        None
    }

    /// The cached record of `name`, if any.
    pub fn get(&self, name: &str) -> (r: Option<Prices>)
        requires
            self.wf(),
        ensures
            r == if self@.contains_key(name@) {
                Some(self@[name@])
            } else {
                None::<Prices>
            },
    {
        match self.find(name) {
            Some(i) => {
                proof {
                    lemma_entries_map_get(self.entries@, i as int);
                }
                Some(self.entries[i].1)
            },
            None => None,
        }
    }

    /// The cached on-demand price of `name`, if any.
    pub fn get_on_demand(&self, name: &str) -> (r: Option<u64>)
        requires
            self.wf(),
        ensures
            r == od_of(self@, name@),
    {
        match self.get(name) {
            Some(p) => p.on_demand,
            None => None,
        }
    }

    /// Records an on-demand price, keeping any cached spot price.
    pub fn set_on_demand(&mut self, name: &str, p: u64)
        requires
            old(self).wf(),
        ensures
            final(self).wf(),
            final(self)@ == od_merged(old(self)@, name@, p),
    {
        match self.find(name) {
            Some(i) => {
                proof {
                    lemma_entries_map_get(self.entries@, i as int);
                    lemma_entries_map_update(
                        self.entries@,
                        i as int,
                        Prices { on_demand: Some(p), spot: self.entries@[i as int].1.spot },
                    );
                }
                let spot = self.entries[i].1.spot;
                self.entries[i].1 = Prices { on_demand: Some(p), spot };
                proof {
                    assert(self.entries@ =~= old(self).entries@.update(
                        i as int,
                        (old(self).entries@[i as int].0, Prices { on_demand: Some(p), spot }),
                    ));
                }
            },
            None => {
                let entry = (name.to_owned(), Prices {
                    on_demand: Some(p),
                    spot: None,
                });
                self.entries.push(entry);
                proof {
                    lemma_entries_map_contains(old(self).entries@, name@);
                    assert(self.entries@.drop_last() =~= old(self).entries@);
                }
            },
        }
    }

    /// Records a spot price, keeping any cached on-demand price.
    pub fn set_spot(&mut self, name: &str, p: u64)
        requires
            old(self).wf(),
        ensures
            final(self).wf(),
            final(self)@ == spot_merged(old(self)@, name@, p),
    {
        match self.find(name) {
            Some(i) => {
                proof {
                    lemma_entries_map_get(self.entries@, i as int);
                    lemma_entries_map_update(
                        self.entries@,
                        i as int,
                        Prices { on_demand: self.entries@[i as int].1.on_demand, spot: Some(p) },
                    );
                }
                let on_demand = self.entries[i].1.on_demand;
                self.entries[i].1 = Prices { on_demand, spot: Some(p) };
                proof {
                    assert(self.entries@ =~= old(self).entries@.update(
                        i as int,
                        (old(self).entries@[i as int].0, Prices { on_demand, spot: Some(p) }),
                    ));
                }
            },
            None => {
                let entry = (name.to_owned(), Prices {
                    on_demand: None,
                    spot: Some(p),
                });
                self.entries.push(entry);
                proof {
                    lemma_entries_map_contains(old(self).entries@, name@);
                    assert(self.entries@.drop_last() =~= old(self).entries@);
                }
            },
        }
    }

    /// Merges a bulk batch of on-demand prices, in batch order.
    pub fn merge_on_demand(&mut self, batch: &Vec<(String, u64)>)
        requires
            old(self).wf(),
        ensures
            final(self).wf(),
            final(self)@ == od_merged_all(old(self)@, batch.deep_view()),
    {
        let mut i: usize = 0;
        while i < batch.len()
            invariant
                0 <= i <= batch@.len(),
                self.wf(),
                self@ == od_merged_all(old(self)@, batch.deep_view().take(i as int)),
            decreases batch@.len() - i,
        {
            self.set_on_demand(batch[i].0.as_str(), batch[i].1);
            proof {
                let bv = batch.deep_view();
                assert(bv.take(i as int + 1).drop_last() =~= bv.take(i as int));
                assert(bv.take(i as int + 1).last() == bv[i as int]);
            }
            i += 1;
        }
        proof {
            assert(batch.deep_view().take(batch@.len() as int) =~= batch.deep_view());
        }
    }

    /// Merges a bulk batch of spot prices, in batch order.
    pub fn merge_spot(&mut self, batch: &Vec<(String, u64)>)
        requires
            old(self).wf(),
        ensures
            final(self).wf(),
            final(self)@ == spot_merged_all(old(self)@, batch.deep_view()),
    {
        let mut i: usize = 0;
        while i < batch.len()
            invariant
                0 <= i <= batch@.len(),
                self.wf(),
                self@ == spot_merged_all(old(self)@, batch.deep_view().take(i as int)),
            decreases batch@.len() - i,
        {
            self.set_spot(batch[i].0.as_str(), batch[i].1);
            proof {
                let bv = batch.deep_view();
                assert(bv.take(i as int + 1).drop_last() =~= bv.take(i as int));
                assert(bv.take(i as int + 1).last() == bv[i as int]);
            }
            i += 1;
        }
        proof {
            assert(batch.deep_view().take(batch@.len() as int) =~= batch.deep_view());
        }
    }
}

/// The on-demand price the cache knows for `t`, if any.
pub open spec fn od_of(m: Map<Seq<char>, Prices>, t: Seq<char>) -> Option<u64> {
    if m.contains_key(t) {
        m[t].on_demand
    } else {
        None
    }
}

} // verus!
