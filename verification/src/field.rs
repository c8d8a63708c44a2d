//! Field definitions: what the schema says of one column.

use vstd::prelude::*;
use crate::maps::texts;

verus! {

/// A type token of the schema.
#[derive(Clone, Copy, Debug, PartialEq, Eq, Structural)]
pub enum JsonType {
    /// `"string"`
    Text,
    /// `"integer"`
    Integer,
    /// `"number"`
    Number,
    /// `"null"`
    Null,
}

/// A format marker of a date column.
#[derive(Clone, Copy, Debug, PartialEq, Eq, Structural)]
pub enum DateFormat {
    /// `"date"`
    Date,
    /// `"date-time"`
    DateTime,
}

/// A numeric bound of a column.
#[derive(Clone, Debug)]
pub enum Bound {
    /// The bound of an integer column.
    Integer(i64),
    /// The bound of a float column, as the profile writes it.
    Decimal(String),
}

/// One value of an enum list.
#[derive(Clone, Debug)]
pub enum EnumValue {
    /// A value of a string column.
    Text(String),
    /// A value of an integer column.
    Integer(i64),
    /// A value of a float column, as the frequency table writes it.
    Decimal(String),
    /// The sentinel that admits a missing value.
    Null,
}

/// The definition of one field of the schema.
#[derive(Clone, Debug)]
pub struct FieldDefinition {
    pub description: String,
    pub types: Vec<JsonType>,
    pub min_length: Option<u32>,
    pub max_length: Option<u32>,
    pub minimum: Option<Bound>,
    pub maximum: Option<Bound>,
    /// The enum list; empty where the field has none.
    pub enum_values: Vec<EnumValue>,
    pub pattern: Option<String>,
    pub format: Option<DateFormat>,
}

/// The mathematical value of a [`Bound`].
pub enum BoundView {
    Integer(i64),
    Decimal(Seq<char>),
}

/// The mathematical value of an [`EnumValue`].
pub enum EnumValueView {
    Text(Seq<char>),
    Integer(i64),
    Decimal(Seq<char>),
    Null,
}

/// The mathematical value of a [`FieldDefinition`].
pub struct FieldView {
    pub description: Seq<char>,
    pub types: Seq<JsonType>,
    pub min_length: Option<u32>,
    pub max_length: Option<u32>,
    pub minimum: Option<BoundView>,
    pub maximum: Option<BoundView>,
    pub enum_values: Seq<EnumValueView>,
    pub pattern: Option<Seq<char>>,
    pub format: Option<DateFormat>,
}

impl View for Bound {
    type V = BoundView;

    open spec fn view(&self) -> BoundView {
        match self {
            Bound::Integer(v) => BoundView::Integer(*v),
            Bound::Decimal(t) => BoundView::Decimal(t@),
        }
    }
}

impl View for EnumValue {
    type V = EnumValueView;

    open spec fn view(&self) -> EnumValueView {
        match self {
            EnumValue::Text(t) => EnumValueView::Text(t@),
            EnumValue::Integer(v) => EnumValueView::Integer(*v),
            EnumValue::Decimal(t) => EnumValueView::Decimal(t@),
            EnumValue::Null => EnumValueView::Null,
        }
    }
}

/// The view of an optional bound.
pub open spec fn bound_view(b: Option<Bound>) -> Option<BoundView> {
    match b {
        Some(b) => Some(b@),
        None => None,
    }
}

/// The view of an optional text.
pub open spec fn text_view(t: Option<String>) -> Option<Seq<char>> {
    match t {
        Some(t) => Some(t@),
        None => None,
    }
}

/// The views of a list of enum values.
pub open spec fn enum_views(v: Seq<EnumValue>) -> Seq<EnumValueView> {
    Seq::new(v.len(), |i: int| v[i]@)
}

impl View for FieldDefinition {
    type V = FieldView;

    open spec fn view(&self) -> FieldView {
        FieldView {
            description: self.description@,
            types: self.types@,
            min_length: self.min_length,
            max_length: self.max_length,
            minimum: bound_view(self.minimum),
            maximum: bound_view(self.maximum),
            enum_values: enum_views(self.enum_values@),
            pattern: text_view(self.pattern),
            format: self.format,
        }
    }
}

impl FieldView {
    /// Whether the type list holds `"string"`.
    pub open spec fn has_string_type(self) -> bool {
        self.types.contains(JsonType::Text)
    }

    /// Whether the field has an enum list.
    pub open spec fn has_enum(self) -> bool {
        self.enum_values.len() > 0
    }

    /// Whether a pattern constraint may be attached to the field:
    /// its type list holds `"string"` and it has no enum list.
    pub open spec fn admits_pattern(self) -> bool {
        self.has_string_type() && !self.has_enum()
    }
}

/// Whether a list of type tokens holds the token.
pub fn holds_type(types: &Vec<JsonType>, token: JsonType) -> (r: bool)
    ensures
        r == types@.contains(token),
{
    let mut i: usize = 0;
    while i < types.len()
        invariant
            i <= types.len(),
            forall|j: int| 0 <= j < i ==> types@[j] != token,
        decreases types.len() - i,
    {
        if types[i] == token {
            return true;
        }
        i += 1;
    }
    false
}

/// Only a string field without an enum list gets a pattern constraint.
pub fn should_emit_pattern_constraint(field_def: &FieldDefinition) -> (r: bool)
    ensures
        r == field_def@.admits_pattern(),
{
    holds_type(&field_def.types, JsonType::Text) && field_def.enum_values.len() == 0
}

} // verus!
