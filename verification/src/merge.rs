//! Collections of records and their merge.

use vstd::prelude::*;
use vstd::hash_map::StringHashMap;

use crate::model::{aggregate, all_consistent, all_in_range, has_player, is_merge_of, summed};
use crate::model::{lemma_aggregate_some, lemma_aggregate_summed};
use crate::statistics::{lemma_view_in_range, PlayerStatistics, PlayerStatisticsView};

verus! {

/// The records of a sequence as mathematical values.
pub open spec fn views_of(records: Seq<PlayerStatistics>) -> Seq<PlayerStatisticsView> {
    records.map_values(|r: PlayerStatistics| r@)
}

/// The records met so far, one per player in the order in which the players
/// were first met, and for each name the place of its record.
struct Tally {
    records: Vec<PlayerStatistics>,
    places: StringHashMap<usize>,
}

impl Tally {
    /// The tally stands for the records `seen`.
    spec fn holds(&self, seen: Seq<PlayerStatisticsView>) -> bool {
        &&& forall|i: int|
            0 <= i < self.records@.len() ==> aggregate(seen, (#[trigger] self.records@[i])@.player)
                == Some(self.records@[i]@)
        &&& forall|i: int|
            0 <= i < self.records@.len() ==> self.places@.contains_key(
                (#[trigger] self.records@[i])@.player,
            ) && self.places@[self.records@[i]@.player] == i
        &&& forall|p: Seq<char>| #[trigger]
            self.places@.contains_key(p) ==> self.places@[p] < self.records@.len()
                && self.records@[self.places@[p] as int]@.player == p
        &&& forall|p: Seq<char>|
            (#[trigger] aggregate(seen, p)) is Some ==> self.places@.contains_key(p)
        &&& all_consistent(seen)
        &&& all_in_range(seen)
    }

    fn new() -> (t: Self)
        ensures
            t.holds(Seq::empty()),
    {
        Tally { records: Vec::new(), places: StringHashMap::new() }
    }

    /// Takes one more record in.
    fn add(&mut self, record: &PlayerStatistics, Ghost(seen): Ghost<Seq<PlayerStatisticsView>>)
        requires
            old(self).holds(seen),
        ensures
            final(self).holds(seen.push(record@)),
    {
        let ghost now = seen.push(record@);
        let ghost name = record@.player;
        proof {
            assert(now.drop_last() =~= seen);
            use_type_invariant(record);
            lemma_view_in_range(*record);
        }
        let place = match self.places.get(record.player()) {
            Some(at) => Some(*at),
            None => None,
        };
        match place {
            Some(i) => {
                let ghost before = self.records@;
                self.records[i].absorb(record);
                proof {
                    assert(aggregate(seen, name) == Some(before[i as int]@));
                    assert forall|j: int| 0 <= j < self.records@.len() implies aggregate(
                        now,
                        (#[trigger] self.records@[j])@.player,
                    ) == Some(self.records@[j]@) by {
                        if j != i {
                            assert(self.records@[j] == before[j]);
                            assert(before[j]@.player != name);
                        }
                    }
                    assert forall|p: Seq<char>|
                        (#[trigger] aggregate(now, p)) is Some implies self.places@.contains_key(
                        p,
                    ) by {
                        if p != name {
                            assert(aggregate(now, p) == aggregate(seen, p));
                        }
                    }
                }
            },
            None => {
                let ghost before = self.records@;
                let at = self.records.len();
                self.records.push(record.clone());
                self.places.insert(record.player().to_owned(), at);
                proof {
                    assert(aggregate(seen, name) is None);
                    assert forall|j: int| 0 <= j < self.records@.len() implies aggregate(
                        now,
                        (#[trigger] self.records@[j])@.player,
                    ) == Some(self.records@[j]@) by {
                        if j < at {
                            assert(self.records@[j] == before[j]);
                            assert(before[j]@.player != name);
                        }
                    }
                    assert forall|p: Seq<char>|
                        (#[trigger] aggregate(now, p)) is Some implies self.places@.contains_key(
                        p,
                    ) by {
                        if p != name {
                            assert(aggregate(now, p) == aggregate(seen, p));
                        }
                    }
                }
            },
        }
    }

    /// Takes every record of `records` in, in order.
    fn add_all(
        &mut self,
        records: &Vec<PlayerStatistics>,
        Ghost(seen): Ghost<Seq<PlayerStatisticsView>>,
    )
        requires
            old(self).holds(seen),
        ensures
            final(self).holds(seen + views_of(records@)),
    {
        let n = records.len();
        let mut k: usize = 0;
        proof {
            assert(seen + views_of(records@).take(0) =~= seen);
        }
        while k < n
            invariant
                n == records@.len(),
                k <= n,
                self.holds(seen + views_of(records@).take(k as int)),
            decreases n - k,
        {
            let ghost so_far = seen + views_of(records@).take(k as int);
            self.add(&records[k], Ghost(so_far));
            proof {
                assert(so_far.push(records@[k as int]@) =~= seen + views_of(records@).take(
                    k as int + 1,
                ));
            }
            k = k + 1;
        }
        proof {
            assert(views_of(records@).take(n as int) =~= views_of(records@));
        }
    }

    /// A tally that stands for `seen` holds a merge of `seen`.
    proof fn lemma_holds_merge(&self, seen: Seq<PlayerStatisticsView>)
        requires
            self.holds(seen),
        ensures
            is_merge_of(views_of(self.records@), seen),
            forall|i: int|
                0 <= i < self.records@.len() ==> (#[trigger] views_of(self.records@)[i]) == summed(
                    seen,
                    self.records@[i]@.player,
                ),
    {
        let merged = views_of(self.records@);
        assert forall|i: int| 0 <= i < merged.len() implies (#[trigger] merged[i]) == summed(
            seen,
            self.records@[i]@.player,
        ) by {
            lemma_aggregate_some(seen, self.records@[i]@.player);
            lemma_aggregate_summed(seen, self.records@[i]@.player);
        }
        assert forall|i: int, j: int| 0 <= i < j < merged.len() implies (
        #[trigger] merged[i]).player != (#[trigger] merged[j]).player by {
            assert(self.places@[self.records@[i]@.player] == i);
            assert(self.places@[self.records@[j]@.player] == j);
        }
        assert forall|i: int| 0 <= i < merged.len() implies aggregate(
            seen,
            (#[trigger] merged[i]).player,
        ) == Some(merged[i]) by {
            assert(merged[i] == self.records@[i]@);
        }
        assert forall|k: int| 0 <= k < seen.len() implies has_player(
            merged,
            (#[trigger] seen[k]).player,
        ) by {
            let p = seen[k].player;
            lemma_aggregate_some(seen, p);
            let at = self.places@[p] as int;
            assert(merged[at].player == p);
        }
    }
}

/// A collection of records. Nothing is asked of it: a name may occur in it
/// any number of times.
#[derive(Debug, PartialEq, Eq)]
pub struct PlayerStatisticsVec {
    _vec: Vec<PlayerStatistics>,
}

impl Clone for PlayerStatisticsVec {
    fn clone(&self) -> (r: Self)
        ensures
            r@ == self@,
    {
        let mut copy: Vec<PlayerStatistics> = Vec::new();
        let n = self._vec.len();
        let mut k: usize = 0;
        while k < n
            invariant
                n == self._vec@.len(),
                k <= n,
                copy@ == self._vec@.take(k as int),
            decreases n - k,
        {
            copy.push(self._vec[k].clone());
            k = k + 1;
        }
        Self { _vec: copy }
    }
}

impl View for PlayerStatisticsVec {
    type V = Seq<PlayerStatisticsView>;

    closed spec fn view(&self) -> Seq<PlayerStatisticsView> {
        views_of(self._vec@)
    }
}

impl PlayerStatisticsVec {
    /// The empty collection.
    pub fn new() -> (r: Self)
        ensures
            r@ == Seq::<PlayerStatisticsView>::empty(),
    {
        Self { _vec: Vec::new() }
    }

    /// The collection of the given records, in their order.
    pub fn from(player_statistics_vec: Vec<PlayerStatistics>) -> (r: Self)
        ensures
            r@ == views_of(player_statistics_vec@),
    {
        Self { _vec: player_statistics_vec }
    }

    /// The records of the collection, in their order.
    pub fn records(&self) -> (r: &Vec<PlayerStatistics>)
        ensures
            views_of(r@) == self@,
    {
        &self._vec
    }

    /// The merge of `a` and `b`: one record for each player that occurs in
    /// either. It holds the sums of the accumulated quantities of all the
    /// records of that player in `a` and `b`, each held at the largest `u64`
    /// where the sum is larger, and the rates that follow from the sums. The
    /// order of the result is left open. Neither `a` nor `b` changes.
    pub fn merged(a: &Self, b: &Self) -> (r: Self)
        ensures
            is_merge_of(r@, a@ + b@),
            forall|i: int|
                0 <= i < r@.len() ==> (#[trigger] r@[i]) == summed(a@ + b@, r@[i].player),
            all_consistent(r@),
    {
        let mut tally = Tally::new();
        tally.add_all(&a._vec, Ghost(Seq::empty()));
        proof {
            assert(Seq::<PlayerStatisticsView>::empty() + a@ =~= a@);
        }
        tally.add_all(&b._vec, Ghost(a@));
        proof {
            tally.lemma_holds_merge(a@ + b@);
        }
        Self { _vec: tally.records }
    }
}

} // verus!
