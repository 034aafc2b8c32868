use meter::fields::{Field, FieldValue};
use meter::statistics::PlayerStatistics;

#[test]
fn fields_come_under_their_names_in_order() {
    let r = PlayerStatistics::new("Bob".to_string(), 150_000, 15_000, 90_000, 900_000);
    let fields = r.to_fields();
    let names: Vec<&str> = fields.iter().map(|f| f.name).collect();
    assert_eq!(
        names,
        vec![
            "player",
            "damage",
            "time_in_combat",
            "dps",
            "seconds_in_game",
            "fame",
            "fame_per_minute",
            "fame_per_hour",
        ]
    );
}

#[test]
fn fields_hold_the_values_of_the_record() {
    let r = PlayerStatistics::new("Bob".to_string(), 150_000, 15_000, 90_000, 900_000);
    let fields = r.to_fields();
    assert_eq!(fields.len(), 8);
    assert_eq!(fields[0], Field { name: "player", value: FieldValue::Text("Bob".to_string()) });
    assert_eq!(fields[1], Field { name: "damage", value: FieldValue::Real(150_000) });
    assert_eq!(fields[2], Field { name: "time_in_combat", value: FieldValue::Real(15_000) });
    assert_eq!(fields[3], Field { name: "dps", value: FieldValue::Real(10_000) });
    assert_eq!(fields[4], Field { name: "seconds_in_game", value: FieldValue::Real(90_000) });
    assert_eq!(fields[5], Field { name: "fame", value: FieldValue::Real(900_000) });
    assert_eq!(fields[6], Field { name: "fame_per_minute", value: FieldValue::Integer(600) });
    assert_eq!(fields[7], Field { name: "fame_per_hour", value: FieldValue::Integer(36_000) });
}

#[test]
fn fields_of_a_record_without_time() {
    let r = PlayerStatistics::new(String::new(), 5, 0, 0, 7);
    let fields = r.to_fields();
    assert_eq!(fields.len(), 8);
    assert_eq!(fields[0].value, FieldValue::Text(String::new()));
    assert_eq!(fields[1].value, FieldValue::Real(5));
    assert_eq!(fields[2].value, FieldValue::Real(0));
    assert_eq!(fields[3].value, FieldValue::Real(0));
    assert_eq!(fields[4].value, FieldValue::Real(0));
    assert_eq!(fields[5].value, FieldValue::Real(7));
    assert_eq!(fields[6].value, FieldValue::Integer(0));
    assert_eq!(fields[7].value, FieldValue::Integer(0));
}

#[test]
fn fields_do_not_change_the_record() {
    let r = PlayerStatistics::new("Bob".to_string(), 150_000, 15_000, 90_000, 900_000);
    let first = r.to_fields();
    let second = r.to_fields();
    assert_eq!(first, second);
    assert_eq!(r, PlayerStatistics::new("Bob".to_string(), 150_000, 15_000, 90_000, 900_000));
}
