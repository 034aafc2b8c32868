//! One player's record: four accumulated quantities and the three rates
//! derived from them.

use vstd::prelude::*;

use crate::metrics::{capped, dps_of, fame_per_hour_of, fame_per_minute_of};
use crate::metrics::{dps, fame_per_hour, fame_per_minute, SCALE};

verus! {

/// What a player achieved over some span of play.
///
/// Four quantities accumulate: damage, seconds of combat, seconds in game
/// and fame. Three rates follow from them: damage per second, fame per
/// minute and fame per hour. A record is made from the four and holds the
/// rates that follow; it changes only by having another record added to it,
/// which computes the rates again. So the rates of a record always follow
/// from its accumulated quantities.
///
/// Damage, seconds, fame and damage per second are in thousandths; fame per
/// minute and fame per hour are whole numbers.
#[derive(Debug, PartialEq, Eq)]
pub struct PlayerStatistics {
    player: String,
    damage: u64,
    time_in_combat: u64,
    dps: u64,
    seconds_in_game: u64,
    fame: u64,
    fame_per_minute: u32,
    fame_per_hour: u32,
}

/// A record as a mathematical value.
pub struct PlayerStatisticsView {
    pub player: Seq<char>,
    pub damage: nat,
    pub time_in_combat: nat,
    pub dps: nat,
    pub seconds_in_game: nat,
    pub fame: nat,
    pub fame_per_minute: nat,
    pub fame_per_hour: nat,
}

impl PlayerStatisticsView {
    /// The record with the given accumulated quantities and the rates that
    /// follow from them.
    pub open spec fn from_raw(
        player: Seq<char>,
        damage: nat,
        time_in_combat: nat,
        seconds_in_game: nat,
        fame: nat,
    ) -> Self {
        PlayerStatisticsView {
            player,
            damage,
            time_in_combat,
            dps: dps_of(damage, time_in_combat),
            seconds_in_game,
            fame,
            fame_per_minute: fame_per_minute_of(fame, seconds_in_game),
            fame_per_hour: fame_per_hour_of(fame, seconds_in_game),
        }
    }

    /// This record with its rates computed afresh.
    pub open spec fn recomputed(self) -> Self {
        Self::from_raw(
            self.player,
            self.damage,
            self.time_in_combat,
            self.seconds_in_game,
            self.fame,
        )
    }

    /// The rates are those that follow from the accumulated quantities.
    pub open spec fn is_consistent(self) -> bool {
        self == self.recomputed()
    }

    /// Every quantity is one that a record can hold.
    pub open spec fn in_range(self) -> bool {
        &&& self.damage <= u64::MAX
        &&& self.time_in_combat <= u64::MAX
        &&& self.dps <= u64::MAX
        &&& self.seconds_in_game <= u64::MAX
        &&& self.fame <= u64::MAX
        &&& self.fame_per_minute <= u32::MAX
        &&& self.fame_per_hour <= u32::MAX
    }

    /// This record after `other` has been added to it: each accumulated
    /// quantity is the sum, held at the largest `u64` where the sum is
    /// larger, and the rates are computed from the new quantities.
    pub open spec fn combined(self, other: Self) -> Self {
        Self::from_raw(
            self.player,
            capped(self.damage + other.damage, u64::MAX as nat),
            capped(self.time_in_combat + other.time_in_combat, u64::MAX as nat),
            capped(self.seconds_in_game + other.seconds_in_game, u64::MAX as nat),
            capped(self.fame + other.fame, u64::MAX as nat),
        )
    }
}

impl View for PlayerStatistics {
    type V = PlayerStatisticsView;

    closed spec fn view(&self) -> PlayerStatisticsView {
        PlayerStatisticsView {
            player: self.player@,
            damage: self.damage as nat,
            time_in_combat: self.time_in_combat as nat,
            dps: self.dps as nat,
            seconds_in_game: self.seconds_in_game as nat,
            fame: self.fame as nat,
            fame_per_minute: self.fame_per_minute as nat,
            fame_per_hour: self.fame_per_hour as nat,
        }
    }
}

/// A consistent record over no time has zero rates.
pub proof fn lemma_zero_time_zero_rate(s: PlayerStatisticsView)
    requires
        s.is_consistent(),
    ensures
        s.time_in_combat == 0 ==> s.dps == 0,
        s.seconds_in_game == 0 ==> s.fame_per_minute == 0 && s.fame_per_hour == 0,
{
}

/// What a record holds is in range.
pub proof fn lemma_view_in_range(s: PlayerStatistics)
    ensures
        s@.in_range(),
{
}

impl Clone for PlayerStatistics {
    fn clone(&self) -> (r: Self)
        ensures
            r == *self,
            r@.is_consistent(),
    {
        proof {
            use_type_invariant(self);
        }
        PlayerStatistics {
            player: self.player.clone(),
            damage: self.damage,
            time_in_combat: self.time_in_combat,
            dps: self.dps,
            seconds_in_game: self.seconds_in_game,
            fame: self.fame,
            fame_per_minute: self.fame_per_minute,
            fame_per_hour: self.fame_per_hour,
        }
    }
}

impl PlayerStatistics {
    /// The rates follow from the accumulated quantities.
    #[verifier::type_invariant]
    pub open spec fn rates_follow(&self) -> bool {
        self@.is_consistent()
    }

    /// The record of `player` with the given accumulated quantities, and
    /// the rates that follow from them.
    pub fn new(
        player: String,
        damage: u64,
        time_in_combat: u64,
        seconds_in_game: u64,
        fame: u64,
    ) -> (r: Self)
        ensures
            r@ == PlayerStatisticsView::from_raw(
                player@,
                damage as nat,
                time_in_combat as nat,
                seconds_in_game as nat,
                fame as nat,
            ),
            r@.is_consistent(),
            time_in_combat == 0 ==> r@.dps == 0,
            seconds_in_game == 0 ==> r@.fame_per_minute == 0 && r@.fame_per_hour == 0,
    {
        PlayerStatistics {
            player,
            damage,
            time_in_combat,
            dps: dps(damage, time_in_combat),
            seconds_in_game,
            fame,
            fame_per_minute: fame_per_minute(fame, seconds_in_game),
            fame_per_hour: fame_per_hour(fame, seconds_in_game),
        }
    }

    /// The player's name.
    pub fn player(&self) -> (r: &str)
        ensures
            r@ == self@.player,
    {
        self.player.as_str()
    }

    /// The damage dealt, in thousandths.
    pub fn damage(&self) -> (r: u64)
        ensures
            r == self@.damage,
    {
        self.damage
    }

    /// The seconds spent in combat, in thousandths.
    pub fn time_in_combat(&self) -> (r: u64)
        ensures
            r == self@.time_in_combat,
    {
        self.time_in_combat
    }

    /// Damage per second, in thousandths: what follows from `damage` and
    /// `time_in_combat`, and zero where no time was spent in combat.
    pub fn dps(&self) -> (r: u64)
        ensures
            r == self@.dps,
            r == dps_of(self@.damage, self@.time_in_combat),
            self@.time_in_combat == 0 ==> r == 0,
    {
        proof {
            use_type_invariant(self);
        }
        self.dps
    }

    /// The seconds spent in game, in thousandths.
    pub fn seconds_in_game(&self) -> (r: u64)
        ensures
            r == self@.seconds_in_game,
    {
        self.seconds_in_game
    }

    /// The whole seconds spent in game; a part of a second is left out.
    pub fn time_in_game(&self) -> (r: u64)
        ensures
            r == self@.seconds_in_game / (SCALE as nat),
    {
        self.seconds_in_game / SCALE
    }

    /// The fame earned, in thousandths.
    pub fn fame(&self) -> (r: u64)
        ensures
            r == self@.fame,
    {
        self.fame
    }

    /// Fame per minute: what follows from `fame` and `seconds_in_game`, and
    /// zero where no time was spent in game.
    pub fn fame_per_minute(&self) -> (r: u32)
        ensures
            r == self@.fame_per_minute,
            r == fame_per_minute_of(self@.fame, self@.seconds_in_game),
            self@.seconds_in_game == 0 ==> r == 0,
    {
        proof {
            use_type_invariant(self);
        }
        self.fame_per_minute
    }

    /// Fame per hour: what follows from `fame` and `seconds_in_game`, and
    /// zero where no time was spent in game.
    pub fn fame_per_hour(&self) -> (r: u32)
        ensures
            r == self@.fame_per_hour,
            r == fame_per_hour_of(self@.fame, self@.seconds_in_game),
            self@.seconds_in_game == 0 ==> r == 0,
    {
        proof {
            use_type_invariant(self);
        }
        self.fame_per_hour
    }

    /// Adds `other` to this record: the accumulated quantities are summed,
    /// each held at the largest `u64` where the sum is larger, and the rates
    /// are computed again from the sums. The player's name stays.
    pub fn absorb(&mut self, other: &PlayerStatistics)
        ensures
            final(self)@ == old(self)@.combined(other@),
            final(self)@.is_consistent(),
    {
        let damage = self.damage.saturating_add(other.damage);
        let time_in_combat = self.time_in_combat.saturating_add(other.time_in_combat);
        let seconds_in_game = self.seconds_in_game.saturating_add(other.seconds_in_game);
        let fame = self.fame.saturating_add(other.fame);
        let mut player = String::new();
        proof {
            use_type_invariant(&*self);
        }
        core::mem::swap(&mut self.player, &mut player);
        *self = PlayerStatistics::new(player, damage, time_in_combat, seconds_in_game, fame);
    }
}

} // verus!
