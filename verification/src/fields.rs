//! A record as a list of named fields, for whoever hands records on to
//! another program: eight fields, under fixed names and in a fixed order.

use vstd::prelude::*;

use crate::statistics::{PlayerStatistics, PlayerStatisticsView};

verus! {

/// What a field holds.
#[derive(Debug, PartialEq, Eq)]
pub enum FieldValue {
    /// A text.
    Text(String),
    /// A real number, in thousandths.
    Real(u64),
    /// A whole number.
    Integer(u32),
}

/// A field of a record: its name and what it holds.
#[derive(Debug, PartialEq, Eq)]
pub struct Field {
    pub name: &'static str,
    pub value: FieldValue,
}

/// What a field holds, as a mathematical value.
pub enum FieldValueView {
    Text(Seq<char>),
    Real(nat),
    Integer(nat),
}

/// A field as a mathematical value.
pub struct FieldView {
    pub name: Seq<char>,
    pub value: FieldValueView,
}

impl View for FieldValue {
    type V = FieldValueView;

    open spec fn view(&self) -> FieldValueView {
        match *self {
            FieldValue::Text(s) => FieldValueView::Text(s@),
            FieldValue::Real(x) => FieldValueView::Real(x as nat),
            FieldValue::Integer(n) => FieldValueView::Integer(n as nat),
        }
    }
}

impl View for Field {
    type V = FieldView;

    open spec fn view(&self) -> FieldView {
        FieldView { name: self.name@, value: self.value@ }
    }
}

/// The fields of a record, in their order: the player's name as a text, then
/// damage, seconds of combat, damage per second, seconds in game and fame as
/// real numbers, then fame per minute and fame per hour as whole numbers.
pub open spec fn fields_of(s: PlayerStatisticsView) -> Seq<FieldView> {
    seq![
        FieldView { name: "player"@, value: FieldValueView::Text(s.player) },
        FieldView { name: "damage"@, value: FieldValueView::Real(s.damage) },
        FieldView { name: "time_in_combat"@, value: FieldValueView::Real(s.time_in_combat) },
        FieldView { name: "dps"@, value: FieldValueView::Real(s.dps) },
        FieldView { name: "seconds_in_game"@, value: FieldValueView::Real(s.seconds_in_game) },
        FieldView { name: "fame"@, value: FieldValueView::Real(s.fame) },
        FieldView { name: "fame_per_minute"@, value: FieldValueView::Integer(s.fame_per_minute) },
        FieldView { name: "fame_per_hour"@, value: FieldValueView::Integer(s.fame_per_hour) },
    ]
}

/// The fields of a sequence, as mathematical values.
pub open spec fn field_views(fields: Seq<Field>) -> Seq<FieldView> {
    fields.map_values(|f: Field| f@)
}

impl PlayerStatistics {
    /// The record as its eight fields, in their order.
    pub fn to_fields(&self) -> (fields: Vec<Field>)
        ensures
            field_views(fields@) == fields_of(self@),
    {
        let mut fields: Vec<Field> = Vec::new();
        fields.push(Field { name: "player", value: FieldValue::Text(self.player().to_owned()) });
        fields.push(Field { name: "damage", value: FieldValue::Real(self.damage()) });
        fields.push(
            Field { name: "time_in_combat", value: FieldValue::Real(self.time_in_combat()) },
        );
        fields.push(Field { name: "dps", value: FieldValue::Real(self.dps()) });
        fields.push(
            Field { name: "seconds_in_game", value: FieldValue::Real(self.seconds_in_game()) },
        );
        fields.push(Field { name: "fame", value: FieldValue::Real(self.fame()) });
        fields.push(
            Field { name: "fame_per_minute", value: FieldValue::Integer(self.fame_per_minute()) },
        );
        fields.push(
            Field { name: "fame_per_hour", value: FieldValue::Integer(self.fame_per_hour()) },
        );
        assert(field_views(fields@) =~= fields_of(self@));
        fields
    }
}

} // verus!
