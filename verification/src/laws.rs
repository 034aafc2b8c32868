//! What holds of every merge: it is determined up to order, it is
//! commutative and associative, the empty collection is its identity, and
//! it adds the accumulated quantities of a player.

use vstd::prelude::*;

use crate::metrics::{capped, dps_of, fame_per_hour_of, fame_per_minute_of};
use crate::model::{aggregate, distinct_players, has_player, is_merge_of, lemma_aggregate_some};
use crate::model::{totals, Quantities};
use crate::statistics::PlayerStatisticsView;

verus! {

/// What two runs of records under one name come to together, given what each
/// comes to alone.
pub open spec fn joined(
    x: Option<PlayerStatisticsView>,
    y: Option<PlayerStatisticsView>,
) -> Option<PlayerStatisticsView> {
    match (x, y) {
        (None, _) => y,
        (_, None) => x,
        (Some(a), Some(b)) => Some(a.combined(b)),
    }
}

/// Computing the rates of a record again changes nothing after the first
/// time, and leaves a consistent record.
pub proof fn lemma_recomputed_idempotent(s: PlayerStatisticsView)
    ensures
        s.recomputed().recomputed() == s.recomputed(),
        s.recomputed().is_consistent(),
        s.is_consistent() ==> s.recomputed() == s,
{
}

/// Adding records one after another comes to the same however they are
/// grouped.
pub proof fn lemma_combined_associative(
    x: PlayerStatisticsView,
    y: PlayerStatisticsView,
    z: PlayerStatisticsView,
)
    ensures
        x.combined(y).combined(z) == x.combined(y.combined(z)),
{
}

/// Adding two records of one player comes to the same in either order.
pub proof fn lemma_combined_commutative(x: PlayerStatisticsView, y: PlayerStatisticsView)
    requires
        x.player == y.player,
    ensures
        x.combined(y) == y.combined(x),
{
}

/// What `a` followed by `b` comes to under a name is what `a` comes to,
/// joined with what `b` comes to.
pub proof fn lemma_aggregate_concat(
    a: Seq<PlayerStatisticsView>,
    b: Seq<PlayerStatisticsView>,
    player: Seq<char>,
)
    ensures
        aggregate(a + b, player) == joined(aggregate(a, player), aggregate(b, player)),
    decreases b.len(),
{
    if b.len() == 0 {
        assert(a + b =~= a);
    } else {
        let front = b.drop_last();
        assert((a + b).drop_last() =~= a + front);
        lemma_aggregate_concat(a, front, player);
        if b.last().player == player {
            match (aggregate(a, player), aggregate(front, player)) {
                (Some(x), Some(y)) => {
                    lemma_combined_associative(x, y, b.last());
                },
                _ => {},
            }
        }
    }
}

/// What `a` followed by `b` comes to under a name is what `b` followed by
/// `a` comes to.
pub proof fn lemma_aggregate_commutative(
    a: Seq<PlayerStatisticsView>,
    b: Seq<PlayerStatisticsView>,
    player: Seq<char>,
)
    ensures
        aggregate(a + b, player) == aggregate(b + a, player),
{
    lemma_aggregate_concat(a, b, player);
    lemma_aggregate_concat(b, a, player);
    lemma_aggregate_some(a, player);
    lemma_aggregate_some(b, player);
    match (aggregate(a, player), aggregate(b, player)) {
        (Some(x), Some(y)) => {
            lemma_combined_commutative(x, y);
        },
        _ => {},
    }
}

/// The sums over `a` followed by `b` are the sums over `a` plus the sums
/// over `b`.
pub proof fn lemma_totals_concat(
    a: Seq<PlayerStatisticsView>,
    b: Seq<PlayerStatisticsView>,
    player: Seq<char>,
)
    ensures
        totals(a + b, player) == (Quantities {
            damage: totals(a, player).damage + totals(b, player).damage,
            time_in_combat: totals(a, player).time_in_combat + totals(b, player).time_in_combat,
            seconds_in_game: totals(a, player).seconds_in_game + totals(
                b,
                player,
            ).seconds_in_game,
            fame: totals(a, player).fame + totals(b, player).fame,
        }),
    decreases b.len(),
{
    if b.len() == 0 {
        assert(a + b =~= a);
    } else {
        assert((a + b).drop_last() =~= a + b.drop_last());
        lemma_totals_concat(a, b.drop_last(), player);
    }
}

/// Where a name occurs once in `records`, the records come to that one
/// record, unchanged.
pub proof fn lemma_aggregate_sole(records: Seq<PlayerStatisticsView>, i: int)
    requires
        0 <= i < records.len(),
        forall|j: int|
            0 <= j < records.len() && j != i ==> (#[trigger] records[j]).player
                != records[i].player,
    ensures
        aggregate(records, records[i].player) == Some(records[i]),
    decreases records.len(),
{
    let player = records[i].player;
    let front = records.drop_last();
    if i == records.len() - 1 {
        lemma_aggregate_some(front, player);
        if has_player(front, player) {
            let j = choose|j: int| 0 <= j < front.len() && (#[trigger] front[j]).player == player;
            assert(records[j].player == player);
        }
    } else {
        assert(records[records.len() - 1].player != player);
        assert(front[i] == records[i]);
        assert forall|j: int| 0 <= j < front.len() && j != i implies (#[trigger] front[j]).player
            != front[i].player by {
            assert(records[j].player != records[i].player);
        }
        lemma_aggregate_sole(front, i);
    }
}

/// A collection in which no name occurs twice is a merge of itself.
pub proof fn lemma_distinct_is_merge_of_itself(records: Seq<PlayerStatisticsView>)
    requires
        distinct_players(records),
    ensures
        is_merge_of(records, records),
{
    assert forall|i: int| 0 <= i < records.len() implies aggregate(
        records,
        (#[trigger] records[i]).player,
    ) == Some(records[i]) by {
        assert forall|j: int| 0 <= j < records.len() && j != i implies (
        #[trigger] records[j]).player != records[i].player by {
            if j < i {
                assert(records[j].player != records[i].player);
            } else {
                assert(records[i].player != records[j].player);
            }
        }
        lemma_aggregate_sole(records, i);
    }
}

/// Every record of a merge of `s1` stands in every merge of `s2`, where the
/// records of each player come to the same in `s1` and in `s2`.
proof fn lemma_merge_records_shared(
    m1: Seq<PlayerStatisticsView>,
    s1: Seq<PlayerStatisticsView>,
    m2: Seq<PlayerStatisticsView>,
    s2: Seq<PlayerStatisticsView>,
    i: int,
)
    requires
        is_merge_of(m1, s1),
        is_merge_of(m2, s2),
        forall|p: Seq<char>|
            #![trigger aggregate(s1, p)]
            #![trigger aggregate(s2, p)]
            aggregate(s1, p) == aggregate(s2, p),
        0 <= i < m1.len(),
    ensures
        m2.contains(m1[i]),
{
    let p = m1[i].player;
    assert(aggregate(s2, p) == Some(m1[i]));
    lemma_aggregate_some(s2, p);
    let k = choose|k: int| 0 <= k < s2.len() && (#[trigger] s2[k]).player == p;
    assert(has_player(m2, s2[k].player));
    let j = choose|j: int| 0 <= j < m2.len() && (#[trigger] m2[j]).player == p;
    assert(m2[j] == m1[i]);
}

/// No record occurs twice where no name does.
proof fn lemma_distinct_no_duplicates(records: Seq<PlayerStatisticsView>)
    requires
        distinct_players(records),
    ensures
        records.no_duplicates(),
{
    assert forall|i: int, j: int|
        0 <= i < records.len() && 0 <= j < records.len() && i != j implies records[i]
        != records[j] by {
        if i < j {
            assert(records[i].player != records[j].player);
        } else {
            assert(records[j].player != records[i].player);
        }
    }
}

/// A merge depends only on what the records of each player come to: two
/// merges of collections that agree in that hold the same records, each as
/// often as the other.
pub proof fn lemma_merges_agree(
    m1: Seq<PlayerStatisticsView>,
    s1: Seq<PlayerStatisticsView>,
    m2: Seq<PlayerStatisticsView>,
    s2: Seq<PlayerStatisticsView>,
)
    requires
        is_merge_of(m1, s1),
        is_merge_of(m2, s2),
        forall|p: Seq<char>|
            #![trigger aggregate(s1, p)]
            #![trigger aggregate(s2, p)]
            aggregate(s1, p) == aggregate(s2, p),
    ensures
        m1.to_multiset() == m2.to_multiset(),
{
    lemma_distinct_no_duplicates(m1);
    lemma_distinct_no_duplicates(m2);
    m1.lemma_multiset_has_no_duplicates();
    m2.lemma_multiset_has_no_duplicates();
    m1.to_multiset_ensures();
    m2.to_multiset_ensures();
    assert forall|v: PlayerStatisticsView| m1.to_multiset().count(v) == m2.to_multiset().count(
        v,
    ) by {
        if m1.contains(v) {
            let i = choose|i: int| 0 <= i < m1.len() && m1[i] == v;
            lemma_merge_records_shared(m1, s1, m2, s2, i);
        }
        if m2.contains(v) {
            let j = choose|j: int| 0 <= j < m2.len() && m2[j] == v;
            lemma_merge_records_shared(m2, s2, m1, s1, j);
        }
    }
    assert(m1.to_multiset() =~= m2.to_multiset());
}

/// A merge is determined up to the order of its records.
pub proof fn lemma_merge_unique(
    m1: Seq<PlayerStatisticsView>,
    m2: Seq<PlayerStatisticsView>,
    records: Seq<PlayerStatisticsView>,
)
    requires
        is_merge_of(m1, records),
        is_merge_of(m2, records),
    ensures
        m1.to_multiset() == m2.to_multiset(),
{
    lemma_merges_agree(m1, records, m2, records);
}

/// Merging is commutative: a merge of `a` with `b` and a merge of `b` with
/// `a` hold the same records, each as often as the other.
pub proof fn lemma_merge_commutative(
    a: Seq<PlayerStatisticsView>,
    b: Seq<PlayerStatisticsView>,
    ab: Seq<PlayerStatisticsView>,
    ba: Seq<PlayerStatisticsView>,
)
    requires
        is_merge_of(ab, a + b),
        is_merge_of(ba, b + a),
    ensures
        ab.to_multiset() == ba.to_multiset(),
{
    assert forall|p: Seq<char>|
        #![trigger aggregate(a + b, p)]
        #![trigger aggregate(b + a, p)]
        aggregate(a + b, p) == aggregate(b + a, p) by {
        lemma_aggregate_commutative(a, b, p);
    }
    lemma_merges_agree(ab, a + b, ba, b + a);
}

/// The empty collection is the identity of merging on the right: a merge
/// of `x` with the empty collection holds the records of `x`, each as often
/// as `x` does, where no name occurs twice in `x`.
pub proof fn lemma_merge_identity_right(
    x: Seq<PlayerStatisticsView>,
    merged: Seq<PlayerStatisticsView>,
)
    requires
        distinct_players(x),
        is_merge_of(merged, x + Seq::<PlayerStatisticsView>::empty()),
    ensures
        merged.to_multiset() == x.to_multiset(),
{
    assert(x + Seq::<PlayerStatisticsView>::empty() =~= x);
    lemma_distinct_is_merge_of_itself(x);
    lemma_merge_unique(merged, x, x);
}

/// The empty collection is the identity of merging on the left: a merge of
/// the empty collection with `x` holds the records of `x`, each as often as
/// `x` does, where no name occurs twice in `x`.
pub proof fn lemma_merge_identity_left(
    x: Seq<PlayerStatisticsView>,
    merged: Seq<PlayerStatisticsView>,
)
    requires
        distinct_players(x),
        is_merge_of(merged, Seq::<PlayerStatisticsView>::empty() + x),
    ensures
        merged.to_multiset() == x.to_multiset(),
{
    assert(Seq::<PlayerStatisticsView>::empty() + x =~= x);
    lemma_distinct_is_merge_of_itself(x);
    lemma_merge_unique(merged, x, x);
}

/// Merging adds. Where `a` holds one record of a player and `b` holds one,
/// the record of that player in a merge of `a` and `b` has as accumulated
/// quantities the sums of theirs, each held at the largest `u64` where the
/// sum is larger, and as rates those that follow from the sums.
pub proof fn lemma_merge_additive(
    a: Seq<PlayerStatisticsView>,
    b: Seq<PlayerStatisticsView>,
    merged: Seq<PlayerStatisticsView>,
    i: int,
    j: int,
    k: int,
)
    requires
        is_merge_of(merged, a + b),
        0 <= i < a.len(),
        0 <= j < b.len(),
        0 <= k < merged.len(),
        a[i].player == merged[k].player,
        b[j].player == merged[k].player,
        forall|n: int| 0 <= n < a.len() && n != i ==> (#[trigger] a[n]).player != a[i].player,
        forall|n: int| 0 <= n < b.len() && n != j ==> (#[trigger] b[n]).player != b[j].player,
    ensures
        merged[k] == a[i].combined(b[j]),
        merged[k].damage == capped(a[i].damage + b[j].damage, u64::MAX as nat),
        merged[k].time_in_combat == capped(
            a[i].time_in_combat + b[j].time_in_combat,
            u64::MAX as nat,
        ),
        merged[k].seconds_in_game == capped(
            a[i].seconds_in_game + b[j].seconds_in_game,
            u64::MAX as nat,
        ),
        merged[k].fame == capped(a[i].fame + b[j].fame, u64::MAX as nat),
        a[i].damage + b[j].damage <= u64::MAX ==> merged[k].damage == a[i].damage + b[j].damage,
        a[i].time_in_combat + b[j].time_in_combat <= u64::MAX ==> merged[k].time_in_combat
            == a[i].time_in_combat + b[j].time_in_combat,
        a[i].seconds_in_game + b[j].seconds_in_game <= u64::MAX ==> merged[k].seconds_in_game
            == a[i].seconds_in_game + b[j].seconds_in_game,
        a[i].fame + b[j].fame <= u64::MAX ==> merged[k].fame == a[i].fame + b[j].fame,
        merged[k].dps == dps_of(merged[k].damage, merged[k].time_in_combat),
        merged[k].fame_per_minute == fame_per_minute_of(
            merged[k].fame,
            merged[k].seconds_in_game,
        ),
        merged[k].fame_per_hour == fame_per_hour_of(merged[k].fame, merged[k].seconds_in_game),
{
    let player = merged[k].player;
    lemma_aggregate_sole(a, i);
    lemma_aggregate_sole(b, j);
    lemma_aggregate_concat(a, b, player);
    assert(aggregate(a + b, merged[k].player) == Some(merged[k]));
}

/// What a merge comes to under a name is what the merged records came to.
proof fn lemma_aggregate_of_merge(
    merged: Seq<PlayerStatisticsView>,
    records: Seq<PlayerStatisticsView>,
    player: Seq<char>,
)
    requires
        is_merge_of(merged, records),
    ensures
        aggregate(merged, player) == aggregate(records, player),
{
    lemma_aggregate_some(merged, player);
    lemma_aggregate_some(records, player);
    if has_player(merged, player) {
        let i = choose|i: int| 0 <= i < merged.len() && (#[trigger] merged[i]).player == player;
        assert forall|j: int| 0 <= j < merged.len() && j != i implies (#[trigger] merged[j]).player
            != merged[i].player by {
            if j < i {
                assert(merged[j].player != merged[i].player);
            } else {
                assert(merged[i].player != merged[j].player);
            }
        }
        lemma_aggregate_sole(merged, i);
        assert(aggregate(records, merged[i].player) == Some(merged[i]));
    } else if has_player(records, player) {
        let k = choose|k: int| 0 <= k < records.len() && (#[trigger] records[k]).player == player;
        assert(has_player(merged, records[k].player));
    }
}

/// A merge of a merge with a third collection is a merge of all three: on
/// the left, and on the right.
pub proof fn lemma_merge_of_merge(
    a: Seq<PlayerStatisticsView>,
    b: Seq<PlayerStatisticsView>,
    inner: Seq<PlayerStatisticsView>,
    outer: Seq<PlayerStatisticsView>,
)
    requires
        is_merge_of(inner, a),
    ensures
        is_merge_of(outer, inner + b) ==> is_merge_of(outer, a + b),
        is_merge_of(outer, b + inner) ==> is_merge_of(outer, b + a),
{
    assert forall|p: Seq<char>| #[trigger] aggregate(inner + b, p) == aggregate(a + b, p) by {
        lemma_aggregate_of_merge(inner, a, p);
        lemma_aggregate_concat(inner, b, p);
        lemma_aggregate_concat(a, b, p);
    }
    assert forall|p: Seq<char>| #[trigger] aggregate(b + inner, p) == aggregate(b + a, p) by {
        lemma_aggregate_of_merge(inner, a, p);
        lemma_aggregate_concat(b, inner, p);
        lemma_aggregate_concat(b, a, p);
    }
    if is_merge_of(outer, inner + b) {
        assert forall|k: int| 0 <= k < (a + b).len() implies has_player(
            outer,
            (#[trigger] (a + b)[k]).player,
        ) by {
            let p = (a + b)[k].player;
            lemma_aggregate_some(a + b, p);
            lemma_aggregate_some(inner + b, p);
            let n = choose|n: int|
                0 <= n < (inner + b).len() && (#[trigger] (inner + b)[n]).player == p;
            assert(has_player(outer, (inner + b)[n].player));
        }
        assert forall|i: int| 0 <= i < outer.len() implies aggregate(
            a + b,
            (#[trigger] outer[i]).player,
        ) == Some(outer[i]) by {
            assert(aggregate(inner + b, outer[i].player) == Some(outer[i]));
        }
    }
    if is_merge_of(outer, b + inner) {
        assert forall|k: int| 0 <= k < (b + a).len() implies has_player(
            outer,
            (#[trigger] (b + a)[k]).player,
        ) by {
            let p = (b + a)[k].player;
            lemma_aggregate_some(b + a, p);
            lemma_aggregate_some(b + inner, p);
            let n = choose|n: int|
                0 <= n < (b + inner).len() && (#[trigger] (b + inner)[n]).player == p;
            assert(has_player(outer, (b + inner)[n].player));
        }
        assert forall|i: int| 0 <= i < outer.len() implies aggregate(
            b + a,
            (#[trigger] outer[i]).player,
        ) == Some(outer[i]) by {
            assert(aggregate(b + inner, outer[i].player) == Some(outer[i]));
        }
    }
}

/// Merging is associative: merging `a` with `b` and the result with `c`, and
/// merging `a` with the result of merging `b` with `c`, hold the same
/// records, each as often as the other.
pub proof fn lemma_merge_associative(
    a: Seq<PlayerStatisticsView>,
    b: Seq<PlayerStatisticsView>,
    c: Seq<PlayerStatisticsView>,
    ab: Seq<PlayerStatisticsView>,
    bc: Seq<PlayerStatisticsView>,
    left: Seq<PlayerStatisticsView>,
    right: Seq<PlayerStatisticsView>,
)
    requires
        is_merge_of(ab, a + b),
        is_merge_of(bc, b + c),
        is_merge_of(left, ab + c),
        is_merge_of(right, a + bc),
    ensures
        left.to_multiset() == right.to_multiset(),
{
    lemma_merge_of_merge(a + b, c, ab, left);
    lemma_merge_of_merge(b + c, a, bc, right);
    assert((a + b) + c =~= a + (b + c));
    lemma_merge_unique(left, right, a + b + c);
}

} // verus!
