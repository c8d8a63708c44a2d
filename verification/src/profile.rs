//! Column profiles: the statistics of one column, read from a profile record.

use vstd::prelude::*;
use crate::maps::{offset_entries, offsets_get, texts, OffsetMap};
use crate::text::{parse_count, same_text, unsigned_literal};

verus! {

/// The statistics of one column that the pipeline reads.
#[derive(Clone, Debug)]
pub struct ColumnProfile {
    /// The inferred type, as the statistics engine names it.
    pub field_type: String,
    pub min: Option<String>,
    pub max: Option<String>,
    pub min_length: Option<String>,
    pub max_length: Option<String>,
    pub null_count: usize,
    pub cardinality: usize,
}

/// The mathematical value of a [`ColumnProfile`].
pub struct ProfileView {
    pub field_type: Seq<char>,
    pub min: Option<Seq<char>>,
    pub max: Option<Seq<char>>,
    pub min_length: Option<Seq<char>>,
    pub max_length: Option<Seq<char>>,
    pub null_count: usize,
    pub cardinality: usize,
}

impl View for ColumnProfile {
    type V = ProfileView;

    open spec fn view(&self) -> ProfileView {
        ProfileView {
            field_type: self.field_type@,
            min: crate::field::text_view(self.min),
            max: crate::field::text_view(self.max),
            min_length: crate::field::text_view(self.min_length),
            max_length: crate::field::text_view(self.max_length),
            null_count: self.null_count,
            cardinality: self.cardinality,
        }
    }
}

/// The type that the statistics engine inferred for a column.
#[derive(Clone, Copy, Debug, PartialEq, Eq, Structural)]
pub enum ColumnKind {
    Text,
    Integer,
    Float,
    Null,
    Date,
    DateTime,
    /// A type name that the pipeline does not know.
    Other,
}

/// The kind that a type name stands for.
pub open spec fn kind_of(name: Seq<char>) -> ColumnKind {
    if name == "String"@ {
        ColumnKind::Text
    } else if name == "Integer"@ {
        ColumnKind::Integer
    } else if name == "Float"@ {
        ColumnKind::Float
    } else if name == "NULL"@ {
        ColumnKind::Null
    } else if name == "Date"@ {
        ColumnKind::Date
    } else if name == "DateTime"@ {
        ColumnKind::DateTime
    } else {
        ColumnKind::Other
    }
}

/// Reads a type name of the statistics engine.
pub fn column_kind(name: &str) -> (r: ColumnKind)
    ensures
        r == kind_of(name@),
{
    if same_text(name, "String") {
        ColumnKind::Text
    } else if same_text(name, "Integer") {
        ColumnKind::Integer
    } else if same_text(name, "Float") {
        ColumnKind::Float
    } else if same_text(name, "NULL") {
        ColumnKind::Null
    } else if same_text(name, "Date") {
        ColumnKind::Date
    } else if same_text(name, "DateTime") {
        ColumnKind::DateTime
    } else {
        ColumnKind::Other
    }
}

/// Whether the index names every statistic that a profile is read from.
pub open spec fn index_complete(index: Map<Seq<char>, usize>) -> bool {
    &&& index.contains_key("type"@)
    &&& index.contains_key("nullcount"@)
    &&& index.contains_key("cardinality"@)
    &&& index.contains_key("min"@)
    &&& index.contains_key("max"@)
    &&& index.contains_key("min_length"@)
    &&& index.contains_key("max_length"@)
}

/// The text of a named statistic in a record: the field at the offset that
/// the index gives, where the record reaches that far.
pub open spec fn stat_text(record: Seq<Seq<char>>, index: Map<Seq<char>, usize>, name: Seq<char>) -> Option<Seq<char>> {
    if index.contains_key(name) && index[name] < record.len() {
        Some(record[index[name] as int])
    } else {
        None
    }
}

/// The count that a statistic holds: its value where it is a decimal
/// number that fits, else zero.
pub open spec fn stat_count(text: Option<Seq<char>>) -> usize {
    match text {
        Some(t) => match unsigned_literal(t, usize::MAX as nat) {
            Some(v) => v as usize,
            None => 0,
        },
        None => 0,
    }
}

/// Whether a profile can be read from the record: the index is complete
/// and the record holds the type.
pub open spec fn record_readable(record: Seq<Seq<char>>, index: Map<Seq<char>, usize>) -> bool {
    index_complete(index) && stat_text(record, index, "type"@) is Some
}

/// The profile that a record holds.
pub open spec fn profile_of(record: Seq<Seq<char>>, index: Map<Seq<char>, usize>) -> ProfileView {
    ProfileView {
        field_type: stat_text(record, index, "type"@)->0,
        min: stat_text(record, index, "min"@),
        max: stat_text(record, index, "max"@),
        min_length: stat_text(record, index, "min_length"@),
        max_length: stat_text(record, index, "max_length"@),
        null_count: stat_count(stat_text(record, index, "nullcount"@)),
        cardinality: stat_count(stat_text(record, index, "cardinality"@)),
    }
}

/// Finds a named statistic in a record. The outer `None` says that the
/// index lacks the name.
pub(crate) fn stat_field(record: &Vec<String>, index: &OffsetMap, name: &str) -> (r: Option<Option<String>>)
    ensures
        r is Some <==> offset_entries(*index).contains_key(name@),
        r matches Some(t) ==> crate::field::text_view(t) == stat_text(texts(record@), offset_entries(*index), name@),
{
    match offsets_get(index, name) {
        None => None,
        Some(offset) => {
            if offset < record.len() {
                Some(Some(record[offset].clone()))
            } else {
                Some(None)
            }
        },
    }
}

/// Reads a count: zero where the statistic is absent or no number.
pub(crate) fn count_of(text: &Option<String>) -> (r: usize)
    ensures
        r == stat_count(crate::field::text_view(*text)),
{
    match text {
        Some(t) => match parse_count(t.as_str()) {
            Some(v) => v,
            None => 0,
        },
        None => 0,
    }
}

impl ColumnProfile {
    /// Reads the profile of a column from its record, or `None` where the
    /// index is incomplete or the record lacks the type.
    pub fn from_record(record: &Vec<String>, index: &OffsetMap) -> (r: Option<ColumnProfile>)
        ensures
            r is Some <==> record_readable(texts(record@), offset_entries(*index)),
            r matches Some(p) ==> p@ == profile_of(texts(record@), offset_entries(*index)),
    {
        let field_type = match stat_field(record, index, "type") {
            Some(Some(t)) => t,
            _ => { return None; },
        };
        let null_count = match stat_field(record, index, "nullcount") {
            Some(t) => count_of(&t),
            None => { return None; },
        };
        let cardinality = match stat_field(record, index, "cardinality") {
            Some(t) => count_of(&t),
            None => { return None; },
        };
        let min = match stat_field(record, index, "min") {
            Some(t) => t,
            None => { return None; },
        };
        let max = match stat_field(record, index, "max") {
            Some(t) => t,
            None => { return None; },
        };
        let min_length = match stat_field(record, index, "min_length") {
            Some(t) => t,
            None => { return None; },
        };
        let max_length = match stat_field(record, index, "max_length") {
            Some(t) => t,
            None => { return None; },
        };
        Some(ColumnProfile { field_type, min, max, min_length, max_length, null_count, cardinality })
    }
}

} // verus!
