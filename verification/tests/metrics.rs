use meter::metrics::{dps, fame_per_hour, fame_per_minute, HOUR, MINUTE, SCALE};
use meter::statistics::PlayerStatistics;

#[test]
fn scale_and_windows() {
    assert_eq!(SCALE, 1000);
    assert_eq!(MINUTE, 60);
    assert_eq!(HOUR, 3600);
}

#[test]
fn dps_is_zero_without_combat_time() {
    assert_eq!(dps(0, 0), 0);
    assert_eq!(dps(1, 0), 0);
    assert_eq!(dps(123_456_000, 0), 0);
    assert_eq!(dps(u64::MAX, 0), 0);
}

#[test]
fn fame_rates_are_zero_without_game_time() {
    assert_eq!(fame_per_minute(0, 0), 0);
    assert_eq!(fame_per_minute(600_000, 0), 0);
    assert_eq!(fame_per_minute(u64::MAX, 0), 0);
    assert_eq!(fame_per_hour(0, 0), 0);
    assert_eq!(fame_per_hour(600_000, 0), 0);
    assert_eq!(fame_per_hour(u64::MAX, 0), 0);
}

#[test]
fn dps_exact_values() {
    // 100 damage over 10 s
    assert_eq!(dps(100_000, 10_000), 10_000);
    // 150 damage over 15 s
    assert_eq!(dps(150_000, 15_000), 10_000);
    // 100 damage over 3 s: 33.333...
    assert_eq!(dps(100_000, 3_000), 33_333);
    // 200 damage over 3 s: 66.666...
    assert_eq!(dps(200_000, 3_000), 66_667);
    // 1.5 damage over 0.5 s
    assert_eq!(dps(1_500, 500), 3_000);
    assert_eq!(dps(0, 5_000), 0);
}

#[test]
fn dps_rounds_a_half_up() {
    // 0.001 damage over 2 s is 0.0005 damage per second
    assert_eq!(dps(1, 2_000), 1);
    // 0.003 damage over 2 s is 0.0015
    assert_eq!(dps(3, 2_000), 2);
    // just under a half goes down
    assert_eq!(dps(1, 2_001), 0);
    // just over a half goes up
    assert_eq!(dps(1, 1_999), 1);
}

#[test]
fn dps_is_held_at_the_largest_value() {
    assert_eq!(dps(u64::MAX, 1), u64::MAX);
    assert_eq!(dps(u64::MAX, 999), u64::MAX);
    assert_eq!(dps(u64::MAX, 1_000), u64::MAX);
    assert_eq!(dps(u64::MAX, 2_000), 9_223_372_036_854_775_808);
    assert_eq!(dps(u64::MAX, u64::MAX), 1_000);
}

#[test]
fn fame_per_minute_exact_values() {
    // 600 fame in 60 s
    assert_eq!(fame_per_minute(600_000, 60_000), 600);
    // 900 fame in 90 s
    assert_eq!(fame_per_minute(900_000, 90_000), 600);
    // 1 fame in 7 s: 8.571...
    assert_eq!(fame_per_minute(1_000, 7_000), 9);
    // 1 fame in 8 s: 7.5
    assert_eq!(fame_per_minute(1_000, 8_000), 8);
    // 1 fame in 9 s: 6.666...
    assert_eq!(fame_per_minute(1_000, 9_000), 7);
    // 1 fame in 130 s: 0.4615...
    assert_eq!(fame_per_minute(1_000, 130_000), 0);
    assert_eq!(fame_per_minute(0, 60_000), 0);
}

#[test]
fn fame_per_hour_exact_values() {
    assert_eq!(fame_per_hour(600_000, 60_000), 36_000);
    assert_eq!(fame_per_hour(900_000, 90_000), 36_000);
    // 1 fame in 7 s: 514.28...
    assert_eq!(fame_per_hour(1_000, 7_000), 514);
    // 1 fame in 2.4 h: 0.41666...
    assert_eq!(fame_per_hour(1_000, 8_640_000), 0);
    // 1 fame in 2 h: 0.5
    assert_eq!(fame_per_hour(1_000, 7_200_000), 1);
    assert_eq!(fame_per_hour(0, 60_000), 0);
}

#[test]
fn fame_rates_are_held_at_the_largest_value() {
    assert_eq!(fame_per_minute(u64::MAX, 1), u32::MAX);
    assert_eq!(fame_per_hour(u64::MAX, 1), u32::MAX);
    // exactly the largest value, and one step over it
    assert_eq!(fame_per_minute(u32::MAX as u64, 60), u32::MAX);
    assert_eq!(fame_per_minute(u32::MAX as u64 + 1, 60), u32::MAX);
    assert_eq!(fame_per_minute(u32::MAX as u64 - 1, 60), u32::MAX - 1);
    assert_eq!(fame_per_hour(u32::MAX as u64 - 1, 3_600), u32::MAX - 1);
}

#[test]
fn new_record_has_the_rates_that_follow() {
    let r = PlayerStatistics::new("Ann".to_string(), 100_000, 3_000, 7_000, 1_000);
    assert_eq!(r.player(), "Ann");
    assert_eq!(r.damage(), 100_000);
    assert_eq!(r.time_in_combat(), 3_000);
    assert_eq!(r.dps(), 33_333);
    assert_eq!(r.seconds_in_game(), 7_000);
    assert_eq!(r.fame(), 1_000);
    assert_eq!(r.fame_per_minute(), 9);
    assert_eq!(r.fame_per_hour(), 514);
}

#[test]
fn new_record_without_time_has_zero_rates() {
    let r = PlayerStatistics::new("Ann".to_string(), 100_000, 0, 0, 600_000);
    assert_eq!(r.damage(), 100_000);
    assert_eq!(r.fame(), 600_000);
    assert_eq!(r.dps(), 0);
    assert_eq!(r.fame_per_minute(), 0);
    assert_eq!(r.fame_per_hour(), 0);
}

#[test]
fn new_record_without_combat_time_keeps_its_fame_rates() {
    let r = PlayerStatistics::new("Ann".to_string(), 100_000, 0, 60_000, 600_000);
    assert_eq!(r.dps(), 0);
    assert_eq!(r.fame_per_minute(), 600);
    assert_eq!(r.fame_per_hour(), 36_000);
    let q = PlayerStatistics::new("Ann".to_string(), 100_000, 10_000, 0, 600_000);
    assert_eq!(q.dps(), 10_000);
    assert_eq!(q.fame_per_minute(), 0);
    assert_eq!(q.fame_per_hour(), 0);
}

#[test]
fn rates_of_a_record_are_those_of_the_formulas() {
    let r = PlayerStatistics::new("Ann".to_string(), 200_000, 3_000, 7_000, 1_000);
    assert_eq!(r.dps(), dps(r.damage(), r.time_in_combat()));
    assert_eq!(r.fame_per_minute(), fame_per_minute(r.fame(), r.seconds_in_game()));
    assert_eq!(r.fame_per_hour(), fame_per_hour(r.fame(), r.seconds_in_game()));
    assert_eq!(r.dps(), 66_667);
}

#[test]
fn recomputing_twice_gives_the_same() {
    let once = PlayerStatistics::new("Ann".to_string(), 200_000, 3_000, 7_000, 1_000);
    let twice = PlayerStatistics::new(
        once.player().to_string(),
        once.damage(),
        once.time_in_combat(),
        once.seconds_in_game(),
        once.fame(),
    );
    assert_eq!(twice, once);
    // adding nothing computes the rates again, from the same quantities
    let mut again = once.clone();
    let nothing = PlayerStatistics::new("Ann".to_string(), 0, 0, 0, 0);
    again.absorb(&nothing);
    assert_eq!(again, once);
    again.absorb(&nothing);
    assert_eq!(again, once);
}

#[test]
fn getters_return_what_the_record_was_made_of() {
    let r = PlayerStatistics::new("Ann".to_string(), 100_000, 3_000, 7_999, 1_000);
    assert_eq!(r.player(), "Ann");
    assert_eq!(r.damage(), 100_000);
    assert_eq!(r.time_in_combat(), 3_000);
    assert_eq!(r.seconds_in_game(), 7_999);
    assert_eq!(r.fame(), 1_000);
}

#[test]
fn time_in_game_is_in_whole_seconds() {
    let r = PlayerStatistics::new("Ann".to_string(), 100_000, 3_000, 7_999, 1_000);
    assert_eq!(r.time_in_game(), 7);
    let none = PlayerStatistics::new("Ann".to_string(), 0, 0, 999, 0);
    assert_eq!(none.time_in_game(), 0);
    let whole = PlayerStatistics::new("Ann".to_string(), 0, 0, 90_000, 0);
    assert_eq!(whole.time_in_game(), 90);
    let most = PlayerStatistics::new("Ann".to_string(), 0, 0, u64::MAX, 0);
    assert_eq!(most.time_in_game(), 18_446_744_073_709_551);
}

#[test]
fn clone_keeps_every_field() {
    let r = PlayerStatistics::new("Ann".to_string(), 100_000, 3_000, 7_000, 1_000);
    let c = r.clone();
    assert_eq!(c.player(), "Ann");
    assert_eq!(c.damage(), 100_000);
    assert_eq!(c.time_in_combat(), 3_000);
    assert_eq!(c.dps(), 33_333);
    assert_eq!(c.seconds_in_game(), 7_000);
    assert_eq!(c.fame(), 1_000);
    assert_eq!(c.fame_per_minute(), 9);
    assert_eq!(c.fame_per_hour(), 514);
    assert_eq!(c, r);
}

#[test]
fn records_are_equal_when_every_field_is() {
    let r = PlayerStatistics::new("Ann".to_string(), 1, 2, 3, 4);
    assert_eq!(r, PlayerStatistics::new("Ann".to_string(), 1, 2, 3, 4));
    assert_ne!(r, PlayerStatistics::new("Bob".to_string(), 1, 2, 3, 4));
    assert_ne!(r, PlayerStatistics::new("Ann".to_string(), 2, 2, 3, 4));
    assert_ne!(r, PlayerStatistics::new("Ann".to_string(), 1, 3, 3, 4));
    assert_ne!(r, PlayerStatistics::new("Ann".to_string(), 1, 2, 4, 4));
    assert_ne!(r, PlayerStatistics::new("Ann".to_string(), 1, 2, 3, 5));
}

#[test]
fn absorb_adds_and_recomputes() {
    let mut r = PlayerStatistics::new("Bob".to_string(), 100_000, 10_000, 60_000, 600_000);
    let other = PlayerStatistics::new("Bob".to_string(), 50_000, 5_000, 30_000, 300_000);
    r.absorb(&other);
    assert_eq!(r.player(), "Bob");
    assert_eq!(r.damage(), 150_000);
    assert_eq!(r.time_in_combat(), 15_000);
    assert_eq!(r.dps(), 10_000);
    assert_eq!(r.seconds_in_game(), 90_000);
    assert_eq!(r.fame(), 900_000);
    assert_eq!(r.fame_per_minute(), 600);
    assert_eq!(r.fame_per_hour(), 36_000);
    // the record that was added is as it was
    assert_eq!(other, PlayerStatistics::new("Bob".to_string(), 50_000, 5_000, 30_000, 300_000));
}

#[test]
fn absorb_does_not_sum_or_average_the_rates() {
    // 10 damage per second and 30 damage per second
    let mut r = PlayerStatistics::new("Bob".to_string(), 100_000, 10_000, 60_000, 60_000);
    let other = PlayerStatistics::new("Bob".to_string(), 900_000, 30_000, 60_000, 180_000);
    assert_eq!(r.dps(), 10_000);
    assert_eq!(other.dps(), 30_000);
    assert_eq!(r.fame_per_minute(), 60);
    assert_eq!(other.fame_per_minute(), 180);
    r.absorb(&other);
    // 1000 damage over 40 s, 240 fame over 120 s
    assert_eq!(r.dps(), 25_000);
    assert_eq!(r.fame_per_minute(), 120);
    assert_eq!(r.fame_per_hour(), 7_200);
}

#[test]
fn absorb_keeps_the_name_of_the_record_added_to() {
    let mut r = PlayerStatistics::new("Bob".to_string(), 1, 1, 1, 1);
    let other = PlayerStatistics::new("Eve".to_string(), 1, 1, 1, 1);
    r.absorb(&other);
    assert_eq!(r.player(), "Bob");
    assert_eq!(r.damage(), 2);
    assert_eq!(other.player(), "Eve");
}

#[test]
fn absorb_holds_sums_at_the_largest_value() {
    let mut r = PlayerStatistics::new("Bob".to_string(), u64::MAX, u64::MAX - 1, 5, u64::MAX);
    let other = PlayerStatistics::new("Bob".to_string(), 1, 1, u64::MAX, u64::MAX);
    r.absorb(&other);
    assert_eq!(r.damage(), u64::MAX);
    assert_eq!(r.time_in_combat(), u64::MAX);
    assert_eq!(r.seconds_in_game(), u64::MAX);
    assert_eq!(r.fame(), u64::MAX);
    assert_eq!(r.dps(), 1_000);
    assert_eq!(r.fame_per_minute(), 60);
    assert_eq!(r.fame_per_hour(), 3_600);
}

#[test]
fn absorb_a_record_without_time_recomputes_from_the_sums() {
    let mut r = PlayerStatistics::new("Bob".to_string(), 0, 0, 0, 0);
    let other = PlayerStatistics::new("Bob".to_string(), 5_000, 0, 0, 7_000);
    r.absorb(&other);
    assert_eq!(r.damage(), 5_000);
    assert_eq!(r.fame(), 7_000);
    assert_eq!(r.dps(), 0);
    assert_eq!(r.fame_per_minute(), 0);
    assert_eq!(r.fame_per_hour(), 0);
}
