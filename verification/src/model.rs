//! What merging means: what the records under one name come to, and when
//! a collection is a merge of another.
//!
//! Merging folds records into one record per player. The first record met
//! under a name is taken as it is; every later record under that name is
//! added to it. For consistent records that is the record of the sums.

use vstd::prelude::*;

use crate::metrics::capped;
use crate::statistics::PlayerStatisticsView;

verus! {

/// Some record of `records` bears the name `player`.
pub open spec fn has_player(records: Seq<PlayerStatisticsView>, player: Seq<char>) -> bool {
    exists|i: int| 0 <= i < records.len() && (#[trigger] records[i]).player == player
}

/// No two records of `records` bear the same name.
pub open spec fn distinct_players(records: Seq<PlayerStatisticsView>) -> bool {
    forall|i: int, j: int|
        0 <= i < j < records.len() ==> (#[trigger] records[i]).player != (
        #[trigger] records[j]).player
}

/// Every record of `records` holds only quantities that a record can hold.
pub open spec fn all_in_range(records: Seq<PlayerStatisticsView>) -> bool {
    forall|i: int| 0 <= i < records.len() ==> (#[trigger] records[i]).in_range()
}

/// Every record of `records` is consistent.
pub open spec fn all_consistent(records: Seq<PlayerStatisticsView>) -> bool {
    forall|i: int| 0 <= i < records.len() ==> (#[trigger] records[i]).is_consistent()
}

/// What the records of `records` under the name `player` come to when they
/// are taken in order: nothing where there is none, the first of them
/// unchanged where it is the only one, and otherwise the first with each
/// later one added to it.
pub open spec fn aggregate(records: Seq<PlayerStatisticsView>, player: Seq<char>) -> Option<
    PlayerStatisticsView,
>
    decreases records.len(),
{
    if records.len() == 0 {
        None
    } else {
        let earlier = aggregate(records.drop_last(), player);
        let last = records.last();
        if last.player != player {
            earlier
        } else {
            match earlier {
                None => Some(last),
                Some(sum) => Some(sum.combined(last)),
            }
        }
    }
}

/// Four accumulated quantities.
pub struct Quantities {
    pub damage: nat,
    pub time_in_combat: nat,
    pub seconds_in_game: nat,
    pub fame: nat,
}

/// The sums of the accumulated quantities of the records of `records` under
/// the name `player`.
pub open spec fn totals(records: Seq<PlayerStatisticsView>, player: Seq<char>) -> Quantities
    decreases records.len(),
{
    if records.len() == 0 {
        Quantities { damage: 0, time_in_combat: 0, seconds_in_game: 0, fame: 0 }
    } else {
        let earlier = totals(records.drop_last(), player);
        let last = records.last();
        if last.player != player {
            earlier
        } else {
            Quantities {
                damage: earlier.damage + last.damage,
                time_in_combat: earlier.time_in_combat + last.time_in_combat,
                seconds_in_game: earlier.seconds_in_game + last.seconds_in_game,
                fame: earlier.fame + last.fame,
            }
        }
    }
}

/// How many records of `records` bear the name `player`.
pub open spec fn occurrences(records: Seq<PlayerStatisticsView>, player: Seq<char>) -> nat
    decreases records.len(),
{
    if records.len() == 0 {
        0
    } else {
        occurrences(records.drop_last(), player) + if records.last().player == player {
            1nat
        } else {
            0nat
        }
    }
}

/// The record of `player` that holds the sums of the accumulated quantities
/// of the records of `records` under that name, each held at the largest
/// `u64` where the sum is larger, and the rates that follow from them.
pub open spec fn summed(
    records: Seq<PlayerStatisticsView>,
    player: Seq<char>,
) -> PlayerStatisticsView {
    let t = totals(records, player);
    PlayerStatisticsView::from_raw(
        player,
        capped(t.damage, u64::MAX as nat),
        capped(t.time_in_combat, u64::MAX as nat),
        capped(t.seconds_in_game, u64::MAX as nat),
        capped(t.fame, u64::MAX as nat),
    )
}

/// `merged` is a merge of `records`: it holds one record for each name that
/// occurs in `records`, and that record is what the records under the name
/// come to.
pub open spec fn is_merge_of(
    merged: Seq<PlayerStatisticsView>,
    records: Seq<PlayerStatisticsView>,
) -> bool {
    &&& distinct_players(merged)
    &&& forall|i: int|
        0 <= i < merged.len() ==> aggregate(records, (#[trigger] merged[i]).player) == Some(
            merged[i],
        )
    &&& forall|k: int|
        0 <= k < records.len() ==> has_player(merged, (#[trigger] records[k]).player)
}

/// A name under which `records` come to something occurs in `records`, and
/// what they come to bears that name.
pub proof fn lemma_aggregate_some(records: Seq<PlayerStatisticsView>, player: Seq<char>)
    ensures
        aggregate(records, player) is Some <==> has_player(records, player),
        aggregate(records, player) is Some ==> aggregate(records, player)->0.player == player,
    decreases records.len(),
{
    if records.len() > 0 {
        let front = records.drop_last();
        lemma_aggregate_some(front, player);
        if has_player(front, player) {
            let i = choose|i: int| 0 <= i < front.len() && (#[trigger] front[i]).player == player;
            assert(records[i].player == player);
        }
        if records.last().player == player {
            assert(records[records.len() - 1].player == player);
        }
        if has_player(records, player) {
            let i = choose|i: int|
                0 <= i < records.len() && (#[trigger] records[i]).player == player;
            if i < front.len() {
                assert(front[i].player == player);
            }
        }
    }
}

/// What consistent records come to is consistent.
pub proof fn lemma_aggregate_consistent(records: Seq<PlayerStatisticsView>, player: Seq<char>)
    requires
        all_consistent(records),
    ensures
        aggregate(records, player) is Some ==> aggregate(records, player)->0.is_consistent(),
    decreases records.len(),
{
    if records.len() > 0 {
        let front = records.drop_last();
        assert forall|i: int| 0 <= i < front.len() implies (
        #[trigger] front[i]).is_consistent() by {
            assert(records[i].is_consistent());
        }
        lemma_aggregate_consistent(front, player);
        assert(records[records.len() - 1].is_consistent());
    }
}

/// A name that does not occur has no records and sums of zero.
proof fn lemma_absent_player(records: Seq<PlayerStatisticsView>, player: Seq<char>)
    requires
        !has_player(records, player),
    ensures
        occurrences(records, player) == 0,
        totals(records, player) == (Quantities {
            damage: 0,
            time_in_combat: 0,
            seconds_in_game: 0,
            fame: 0,
        }),
    decreases records.len(),
{
    if records.len() > 0 {
        let front = records.drop_last();
        assert(records[records.len() - 1].player != player);
        if has_player(front, player) {
            let i = choose|i: int| 0 <= i < front.len() && (#[trigger] front[i]).player == player;
            assert(records[i].player == player);
        }
        lemma_absent_player(front, player);
    }
}

/// Merging is summing. What the records under a name come to has as
/// accumulated quantities the sums over those records, each held at the
/// largest `u64` where the sum is larger. Its rates are those that follow
/// from these wherever the name occurs more than once, or every record is
/// consistent.
pub proof fn lemma_aggregate_is_sum(records: Seq<PlayerStatisticsView>, player: Seq<char>)
    requires
        all_in_range(records),
        has_player(records, player),
    ensures
        occurrences(records, player) >= 1,
        aggregate(records, player) is Some,
        ({
            let r = aggregate(records, player)->0;
            let t = totals(records, player);
            &&& r.player == player
            &&& r.damage == capped(t.damage, u64::MAX as nat)
            &&& r.time_in_combat == capped(t.time_in_combat, u64::MAX as nat)
            &&& r.seconds_in_game == capped(t.seconds_in_game, u64::MAX as nat)
            &&& r.fame == capped(t.fame, u64::MAX as nat)
            &&& occurrences(records, player) >= 2 || all_consistent(records)
                ==> r.is_consistent()
        }),
    decreases records.len(),
{
    let front = records.drop_last();
    let last = records.last();
    lemma_aggregate_some(records, player);
    lemma_aggregate_some(front, player);
    assert(last == records[records.len() - 1]);
    assert forall|i: int| 0 <= i < front.len() implies (#[trigger] front[i]).in_range() by {
        assert(records[i].in_range());
    }
    if all_consistent(records) {
        lemma_aggregate_consistent(records, player);
    }
    if has_player(front, player) {
        lemma_aggregate_is_sum(front, player);
    } else {
        lemma_absent_player(front, player);
        let i = choose|i: int| 0 <= i < records.len() && (#[trigger] records[i]).player == player;
        if i < front.len() {
            assert(front[i].player == player);
        }
    }
}

/// Consistent records come to the record of the sums.
pub proof fn lemma_aggregate_summed(records: Seq<PlayerStatisticsView>, player: Seq<char>)
    requires
        all_in_range(records),
        all_consistent(records),
        has_player(records, player),
    ensures
        aggregate(records, player) == Some(summed(records, player)),
{
    lemma_aggregate_is_sum(records, player);
}

} // verus!
