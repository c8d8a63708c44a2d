//! Schema assembly: from column profiles, enum candidates and pattern
//! candidates to the schema document.

use vstd::prelude::*;
use vstd::utf8::{decode_utf8, valid_utf8};
use crate::maps::{enum_entries, enums_get, offset_entries, text_entries, text_map_get, texts, EnumMap, OffsetMap, PatternMap};
use crate::profile::{profile_of, record_readable, ColumnProfile};
use crate::properties::{distinct_names, has_name, names, put, PropertyMap, PropertyView};
use crate::rules::{consistent, definition_of, field_definition};
use crate::text::convert_to_string;

verus! {

/// An explicit column selection: the 1-based ordinals of the chosen
/// columns. A selection without ordinals stands for every column.
#[derive(Clone, Debug)]
pub struct SelectColumns {
    pub ordinals: Vec<usize>,
}

/// The 0-based indices of the first `n` ordinals, or the first ordinal
/// that names no column: zero, or one beyond the last column.
pub open spec fn resolved(ordinals: Seq<usize>, n: int, columns: usize) -> Result<Seq<usize>, SchemaErrorView>
    decreases n,
{
    if n <= 0 {
        Ok(Seq::empty())
    } else {
        match resolved(ordinals, n - 1, columns) {
            Err(e) => Err(e),
            Ok(indices) => if 0 < ordinals[n - 1] <= columns {
                Ok(indices.push((ordinals[n - 1] - 1) as usize))
            } else {
                Err(SchemaErrorView::InvalidSelection { index: ordinals[n - 1] })
            },
        }
    }
}

/// The columns that a selection stands for: every column where it has no
/// ordinal, else the columns that its ordinals name.
pub open spec fn selected(ordinals: Seq<usize>, columns: usize) -> Result<Seq<usize>, SchemaErrorView> {
    if ordinals.len() == 0 {
        Ok(Seq::new(columns as nat, |i: int| i as usize))
    } else {
        resolved(ordinals, ordinals.len() as int, columns)
    }
}

impl SelectColumns {
    /// The selection that stands for every column.
    pub fn all() -> (r: SelectColumns)
        ensures
            r.ordinals@.len() == 0,
    {
        SelectColumns { ordinals: Vec::new() }
    }

    /// Resolves the selection against an input of the given number of columns.
    pub fn selection(&self, columns: usize) -> (r: Result<Vec<usize>, SchemaError>)
        ensures
            match r {
                Ok(indices) => selected(self.ordinals@, columns) == Ok::<Seq<usize>, SchemaErrorView>(indices@),
                Err(e) => selected(self.ordinals@, columns) == Err::<Seq<usize>, SchemaErrorView>(e@),
            },
    {
        let mut indices: Vec<usize> = Vec::new();
        if self.ordinals.len() == 0 {
            let mut i: usize = 0;
            while i < columns
                invariant
                    i <= columns,
                    indices@.len() == i,
                    forall|j: int| 0 <= j < i ==> indices@[j] == j,
                decreases columns - i,
            {
                indices.push(i);
                i += 1;
            }
            assert(indices@ =~= Seq::new(columns as nat, |i: int| i as usize));
            return Ok(indices);
        }
        let mut i: usize = 0;
        while i < self.ordinals.len()
            invariant
                i <= self.ordinals.len(),
                resolved(self.ordinals@, i as int, columns) == Ok::<Seq<usize>, SchemaErrorView>(indices@),
            decreases self.ordinals.len() - i,
        {
            let ordinal = self.ordinals[i];
            if ordinal == 0 || ordinal > columns {
                proof {
                    lemma_resolution_failure_persists(self.ordinals@, i + 1, self.ordinals@.len() as int, columns);
                }
                return Err(SchemaError::InvalidSelection { index: ordinal });
            }
            indices.push(ordinal - 1);
            i += 1;
        }
        Ok(indices)
    }
}

/// An ordinal that names no column among the first `k` fails the whole selection.
pub proof fn lemma_resolution_failure_persists(ordinals: Seq<usize>, k: int, n: int, columns: usize)
    requires
        0 <= k <= n,
        resolved(ordinals, k, columns) is Err,
    ensures
        resolved(ordinals, n, columns) == resolved(ordinals, k, columns),
    decreases n - k,
{
    if k < n {
        lemma_resolution_failure_persists(ordinals, k, n - 1, columns);
    }
}

/// The options of one schema run.
#[derive(Clone, Debug)]
pub struct Args {
    pub flag_enum_threshold: usize,
    pub flag_ignore_case: bool,
    pub flag_strict_dates: bool,
    pub flag_pattern_columns: SelectColumns,
    pub flag_dates_whitelist: String,
    pub flag_prefer_dmy: bool,
    pub flag_force: bool,
    pub flag_stdout: bool,
    pub flag_jobs: Option<usize>,
    pub flag_no_headers: bool,
    pub flag_delimiter: Option<u8>,
    pub arg_input: Option<String>,
    pub flag_memcheck: bool,
}

/// What a profile lookup is made for.
#[derive(Clone, Copy, Debug, PartialEq, Eq, Structural)]
pub enum StatsMode {
    /// For a schema: every statistic is needed.
    Schema,
    /// For a frequency table: a current cache is used, none is made.
    Frequency,
    /// For a frequency table: the cache is made where it is not current.
    FrequencyForceStats,
    /// No profile is wanted.
    NoStats,
}

/// What the rules make of an input: the name of every column, in header
/// order, and the properties mapping.
#[derive(Clone, Debug)]
pub struct InferredSchema {
    /// One name for each column of the header, in header order. A name
    /// that occurs twice in the header occurs twice here.
    pub columns: Vec<String>,
    /// The definition of each column name. Of two columns of one name the
    /// later one gives the definition.
    pub properties: PropertyMap,
}

/// Why a schema could not be assembled.
#[derive(Clone, Debug)]
pub enum SchemaError {
    /// A header or a value is not valid text.
    Encoding { bytes: Vec<u8> },
    /// The profile or the frequency table of a column is missing, or a numeric statistic of the
    /// profile does not parse.
    ProfileInconsistency { column: usize },
    /// A column selection names a column that the input does not have.
    InvalidSelection { index: usize },
    /// An item of a selection expression is no ordinal.
    UnreadableSelection { position: usize },
}

/// The mathematical value of a [`SchemaError`].
pub enum SchemaErrorView {
    Encoding { bytes: Seq<u8> },
    ProfileInconsistency { column: usize },
    InvalidSelection { index: usize },
    UnreadableSelection { position: usize },
}

impl View for SchemaError {
    type V = SchemaErrorView;

    open spec fn view(&self) -> SchemaErrorView {
        match self {
            SchemaError::Encoding { bytes } => SchemaErrorView::Encoding { bytes: bytes@ },
            SchemaError::ProfileInconsistency { column } => SchemaErrorView::ProfileInconsistency { column: *column },
            SchemaError::InvalidSelection { index } => SchemaErrorView::InvalidSelection { index: *index },
            SchemaError::UnreadableSelection { position } => SchemaErrorView::UnreadableSelection {
                position: *position,
            },
        }
    }
}

/// The bytes of each field of a record.
pub open spec fn byte_fields(fields: Seq<Vec<u8>>) -> Seq<Seq<u8>> {
    Seq::new(fields.len(), |i: int| fields[i]@)
}

/// The texts of each record of a profile array.
pub open spec fn record_texts(records: Seq<Vec<String>>) -> Seq<Seq<Seq<char>>> {
    Seq::new(records.len(), |i: int| texts(records[i]@))
}

/// The enum candidates of a column: the values that the map binds to its
/// name, none where the map lacks the name.
pub open spec fn candidates_of(enums: Map<Seq<char>, Seq<Seq<char>>>, name: Seq<char>) -> Seq<Seq<char>> {
    if enums.contains_key(name) {
        enums[name]
    } else {
        Seq::empty()
    }
}

/// What the rules make of column `i`: its property, or the reason why it has none.
pub open spec fn column_outcome(
    i: int,
    source: Seq<char>,
    fields: Seq<Seq<u8>>,
    records: Seq<Seq<Seq<char>>>,
    index: Map<Seq<char>, usize>,
    enums: Map<Seq<char>, Seq<Seq<char>>>,
    strict_dates: bool,
) -> Result<PropertyView, SchemaErrorView> {
    if !valid_utf8(fields[i]) {
        Err(SchemaErrorView::Encoding { bytes: fields[i] })
    } else if i >= records.len() || !record_readable(records[i], index) {
        Err(SchemaErrorView::ProfileInconsistency { column: i as usize })
    } else {
        let name = decode_utf8(fields[i]);
        let profile = profile_of(records[i], index);
        let candidates = candidates_of(enums, name);
        if consistent(profile, candidates) {
            Ok(PropertyView { name, definition: definition_of(name, source, profile, candidates, strict_dates) })
        } else {
            Err(SchemaErrorView::ProfileInconsistency { column: i as usize })
        }
    }
}

/// The properties of the first `n` columns, taken in header order, or the
/// failure of the first column that has one.
pub open spec fn inferred(
    n: int,
    source: Seq<char>,
    fields: Seq<Seq<u8>>,
    records: Seq<Seq<Seq<char>>>,
    index: Map<Seq<char>, usize>,
    enums: Map<Seq<char>, Seq<Seq<char>>>,
    strict_dates: bool,
) -> Result<Seq<PropertyView>, SchemaErrorView>
    decreases n,
{
    if n <= 0 {
        Ok(Seq::empty())
    } else {
        match inferred(n - 1, source, fields, records, index, enums, strict_dates) {
            Err(e) => Err(e),
            Ok(properties) => match column_outcome(n - 1, source, fields, records, index, enums, strict_dates) {
                Err(e) => Err(e),
                Ok(property) => Ok(put(properties, property.name, property.definition)),
            },
        }
    }
}

/// A failure among the first `k` columns is the failure of any longer run.
pub proof fn lemma_failure_persists(
    k: int,
    n: int,
    source: Seq<char>,
    fields: Seq<Seq<u8>>,
    records: Seq<Seq<Seq<char>>>,
    index: Map<Seq<char>, usize>,
    enums: Map<Seq<char>, Seq<Seq<char>>>,
    strict_dates: bool,
)
    requires
        0 <= k <= n,
        inferred(k, source, fields, records, index, enums, strict_dates) is Err,
    ensures
        inferred(n, source, fields, records, index, enums, strict_dates) == inferred(
            k,
            source,
            fields,
            records,
            index,
            enums,
            strict_dates,
        ),
    decreases n - k,
{
    if k < n {
        lemma_failure_persists(k, n - 1, source, fields, records, index, enums, strict_dates);
    }
}

/// Builds the properties of a schema from the profile of each column, and
/// hands on the name of every column.
///
/// The columns are taken in header order. Each gets the definition that the
/// rules give its profile and its enum candidates; a later column of the
/// same name replaces the definition of the earlier one. The column names
/// are the header, name for name. The first column whose header is no text,
/// or whose profile is missing or inconsistent, ends the run with its error.
pub fn infer_schema_from_stats(
    args: &Args,
    input_filename: &str,
    csv_fields: &Vec<Vec<u8>>,
    csv_stats: &Vec<Vec<String>>,
    stats_col_index_map: &OffsetMap,
    unique_values_map: &EnumMap,
) -> (r: Result<InferredSchema, SchemaError>)
    ensures
        match r {
            Ok(schema) => schema.properties.wf() && texts(schema.columns@) == header_names(
                byte_fields(csv_fields@),
                csv_fields@.len() as int,
            ) && schema.columns@.len() == csv_fields@.len() && inferred(
                csv_fields@.len() as int,
                input_filename@,
                byte_fields(csv_fields@),
                record_texts(csv_stats@),
                offset_entries(*stats_col_index_map),
                enum_entries(*unique_values_map),
                args.flag_strict_dates,
            ) == Ok::<Seq<PropertyView>, SchemaErrorView>(schema.properties@),
            Err(e) => inferred(
                csv_fields@.len() as int,
                input_filename@,
                byte_fields(csv_fields@),
                record_texts(csv_stats@),
                offset_entries(*stats_col_index_map),
                enum_entries(*unique_values_map),
                args.flag_strict_dates,
            ) == Err::<Seq<PropertyView>, SchemaErrorView>(e@),
        },
{
    let ghost fields = byte_fields(csv_fields@);
    let ghost records = record_texts(csv_stats@);
    let ghost index = offset_entries(*stats_col_index_map);
    let ghost enums = enum_entries(*unique_values_map);
    let no_candidates: Vec<String> = Vec::new();
    assert(texts(no_candidates@) =~= Seq::<Seq<char>>::empty());
    let mut properties = PropertyMap::new();
    let mut columns: Vec<String> = Vec::new();
    assert(texts(columns@) =~= header_names(fields, 0));
    let mut i: usize = 0;
    while i < csv_fields.len()
        invariant
            i <= csv_fields.len(),
            columns@.len() == i,
            texts(columns@) == header_names(fields, i as int),
            fields == byte_fields(csv_fields@),
            records == record_texts(csv_stats@),
            index == offset_entries(*stats_col_index_map),
            enums == enum_entries(*unique_values_map),
            texts(no_candidates@) == Seq::<Seq<char>>::empty(),
            properties.wf(),
            inferred(i as int, input_filename@, fields, records, index, enums, args.flag_strict_dates)
                == Ok::<Seq<PropertyView>, SchemaErrorView>(properties@),
        decreases csv_fields.len() - i,
    {
        let ghost outcome = column_outcome(i as int, input_filename@, fields, records, index, enums, args.flag_strict_dates);
        assert(fields[i as int] == csv_fields@[i as int]@);
        let header_string = match convert_to_string(csv_fields[i].as_slice()) {
            Ok(s) => s,
            Err(e) => {
                proof {
                    lemma_failure_persists(i + 1, csv_fields@.len() as int, input_filename@, fields, records, index, enums, args.flag_strict_dates);
                }
                return Err(SchemaError::Encoding { bytes: e.bytes });
            },
        };
        if i >= csv_stats.len() {
            proof {
                    lemma_failure_persists(i + 1, csv_fields@.len() as int, input_filename@, fields, records, index, enums, args.flag_strict_dates);
                }
                return Err(SchemaError::ProfileInconsistency { column: i });
        }
        assert(records[i as int] == texts(csv_stats@[i as int]@));
        let profile = match ColumnProfile::from_record(&csv_stats[i], stats_col_index_map) {
            Some(p) => p,
            None => {
                proof {
                    lemma_failure_persists(i + 1, csv_fields@.len() as int, input_filename@, fields, records, index, enums, args.flag_strict_dates);
                }
                return Err(SchemaError::ProfileInconsistency { column: i });
            },
        };
        let candidates = match enums_get(unique_values_map, header_string.as_str()) {
            Some(values) => values,
            None => &no_candidates,
        };
        assert(texts(candidates@) == candidates_of(enums, header_string@));
        let definition = match field_definition(
            header_string.as_str(),
            input_filename,
            &profile,
            candidates,
            args.flag_strict_dates,
        ) {
            Some(d) => d,
            None => {
                proof {
                    lemma_failure_persists(i + 1, csv_fields@.len() as int, input_filename@, fields, records, index, enums, args.flag_strict_dates);
                }
                return Err(SchemaError::ProfileInconsistency { column: i });
            },
        };
        assert(outcome == Ok::<PropertyView, SchemaErrorView>(
            PropertyView { name: header_string@, definition: definition@ },
        ));
        let ghost named = texts(columns@);
        columns.push(header_string.clone());
        assert(texts(columns@) =~= header_names(fields, i + 1)) by {
            assert forall|k: int| 0 <= k < i + 1 implies texts(columns@)[k] == header_names(fields, i + 1)[k] by {
                if k < i {
                    assert(texts(columns@)[k] == named[k]);
                }
            }
        }
        properties.insert(header_string, definition);
        i += 1;
    }
    Ok(InferredSchema { columns, properties })
}

/// Two runs of the rules on the same profiles, candidates and options give the same properties.
pub proof fn lemma_inference_deterministic(
    first: Result<Seq<PropertyView>, SchemaErrorView>,
    second: Result<Seq<PropertyView>, SchemaErrorView>,
    n: int,
    source: Seq<char>,
    fields: Seq<Seq<u8>>,
    records: Seq<Seq<Seq<char>>>,
    index: Map<Seq<char>, usize>,
    enums: Map<Seq<char>, Seq<Seq<char>>>,
    strict_dates: bool,
)
    requires
        first == inferred(n, source, fields, records, index, enums, strict_dates),
        second == inferred(n, source, fields, records, index, enums, strict_dates),
    ensures
        first == second,
{
}

/// The names of the first `n` columns, in header order.
pub open spec fn header_names(fields: Seq<Seq<u8>>, n: int) -> Seq<Seq<char>> {
    Seq::new(n as nat, |i: int| decode_utf8(fields[i]))
}

/// Where the rules succeed on `n` columns of pairwise different names, the
/// properties mapping has one entry for each column, in header order.
pub proof fn lemma_every_column_named(
    n: int,
    source: Seq<char>,
    fields: Seq<Seq<u8>>,
    records: Seq<Seq<Seq<char>>>,
    index: Map<Seq<char>, usize>,
    enums: Map<Seq<char>, Seq<Seq<char>>>,
    strict_dates: bool,
)
    requires
        0 <= n <= fields.len(),
        inferred(n, source, fields, records, index, enums, strict_dates) is Ok,
        forall|i: int, j: int| 0 <= i < j < n ==> decode_utf8(#[trigger] fields[i]) != decode_utf8(#[trigger] fields[j]),
    ensures
        names(inferred(n, source, fields, records, index, enums, strict_dates)->Ok_0) == header_names(fields, n),
        inferred(n, source, fields, records, index, enums, strict_dates)->Ok_0.len() == n,
    decreases n,
{
    if n > 0 {
        lemma_every_column_named(n - 1, source, fields, records, index, enums, strict_dates);
        let before = inferred(n - 1, source, fields, records, index, enums, strict_dates)->Ok_0;
        let property = column_outcome(n - 1, source, fields, records, index, enums, strict_dates)->Ok_0;
        let after = inferred(n, source, fields, records, index, enums, strict_dates)->Ok_0;
        assert(property.name == decode_utf8(fields[n - 1]));
        assert(!has_name(before, property.name)) by {
            if has_name(before, property.name) {
                let k = choose|k: int| 0 <= k < before.len() && (#[trigger] before[k]).name == property.name;
                assert(names(before)[k] == before[k].name);
                assert(header_names(fields, n - 1)[k] == decode_utf8(fields[k]));
            }
        }
        assert(after == before.push(property));
        assert forall|k: int| 0 <= k < n implies names(after)[k] == header_names(fields, n)[k] by {
            if k < n - 1 {
                assert(names(before)[k] == header_names(fields, n - 1)[k]);
            }
        }
        assert(names(after) =~= header_names(fields, n));
    } else {
        assert(names(Seq::<PropertyView>::empty()) =~= header_names(fields, 0));
    }
}

/// The required fields: the name of every column, in header order, one
/// entry for each column whatever its name and its null count.
pub fn get_required_fields(schema: &InferredSchema) -> (r: Vec<String>)
    ensures
        texts(r@) == texts(schema.columns@),
        r@.len() == schema.columns@.len(),
{
    let mut fields: Vec<String> = Vec::new();
    let mut i: usize = 0;
    while i < schema.columns.len()
        invariant
            i <= schema.columns.len(),
            fields@.len() == i,
            forall|j: int| 0 <= j < i ==> (#[trigger] fields@[j])@ == schema.columns@[j]@,
        decreases schema.columns.len() - i,
    {
        fields.push(schema.columns[i].clone());
        i += 1;
    }
    assert(texts(fields@) =~= texts(schema.columns@));
    fields
}

/// A property with the pattern of its column, where the patterns hold one
/// and the definition admits it.
pub open spec fn with_pattern(property: PropertyView, patterns: Map<Seq<char>, Seq<char>>) -> PropertyView {
    if patterns.contains_key(property.name) && property.definition.admits_pattern() {
        PropertyView {
            name: property.name,
            definition: crate::field::FieldView { pattern: Some(patterns[property.name]), ..property.definition },
        }
    } else {
        property
    }
}

/// The properties with the patterns of their columns.
pub open spec fn with_patterns(properties: Seq<PropertyView>, patterns: Map<Seq<char>, Seq<char>>) -> Seq<PropertyView> {
    Seq::new(properties.len(), |i: int| with_pattern(properties[i], patterns))
}

/// Attaches to each string field without an enum list the pattern of its column.
pub fn attach_patterns(properties_map: &mut PropertyMap, pattern_map: &PatternMap)
    ensures
        final(properties_map)@ == with_patterns(old(properties_map)@, text_entries(*pattern_map)),
        old(properties_map).wf() ==> final(properties_map).wf(),
{
    let ghost before = properties_map@;
    let ghost patterns = text_entries(*pattern_map);
    let mut i: usize = 0;
    while i < properties_map.entries.len()
        invariant
            i <= properties_map.entries.len(),
            properties_map@.len() == before.len(),
            patterns == text_entries(*pattern_map),
            forall|j: int| 0 <= j < i ==> (#[trigger] properties_map@[j]) == with_pattern(before[j], patterns),
            forall|j: int| i <= j < before.len() ==> (#[trigger] properties_map@[j]) == before[j],
        decreases properties_map.entries.len() - i,
    {
        let ghost current = properties_map@;
        assert(current[i as int] == before[i as int]);
        let found = text_map_get(pattern_map, properties_map.entries[i].name.as_str());
        match found {
            Some(pattern) => {
                if crate::field::should_emit_pattern_constraint(&properties_map.entries[i].definition) {
                    properties_map.entries[i].definition.pattern = Some(pattern.clone());
                }
            },
            None => {},
        }
        assert(properties_map@[i as int] == with_pattern(before[i as int], patterns));
        assert forall|j: int| 0 <= j < i implies (#[trigger] properties_map@[j]) == with_pattern(before[j], patterns) by {
            assert(properties_map@[j] == current[j]);
        }
        assert forall|j: int| i < j < before.len() implies (#[trigger] properties_map@[j]) == before[j] by {
            assert(properties_map@[j] == current[j]);
        }
        i += 1;
    }
    assert(properties_map@ =~= with_patterns(before, patterns));
    proof {
        if distinct_names(before) {
            assert forall|a: int, b: int| 0 <= a < b < properties_map@.len() implies (#[trigger] properties_map@[a]).name
                != (#[trigger] properties_map@[b]).name by {
                assert(before[a].name != before[b].name);
            }
        }
    }
}

} // verus!
