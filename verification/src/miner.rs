//! The enum miner: which columns have few distinct values, and what those values are.

use vstd::prelude::*;
use vstd::string::{StrSliceExecFns, StringExecFns};
use vstd::utf8::{decode_utf8, encode_utf8, valid_utf8};
use stats::Frequencies;
use crate::maps::{enum_entries, enums_insert, enums_new, offset_entries, texts, EnumMap, OffsetMap};
use crate::profile::{count_of, stat_count, stat_field, stat_text};
use crate::field::EnumValueView;
use crate::profile::{kind_of, ColumnKind, ProfileView};
use crate::profiling::{jobs_allowed, njobs};
use crate::rules::{definition_of, text_enum};
use crate::schema::{byte_fields, record_texts, Args, SchemaError, SchemaErrorView};
use crate::text::{ascending, convert_to_string, decimal_digits, decimal_text, join_texts, joined, sort_texts};

verus! {

/// Whether a cardinality makes a column an enum candidate: it is known
/// (not zero) and at most the threshold.
pub open spec fn is_low_cardinality(cardinality: usize, threshold: usize) -> bool {
    0 < cardinality <= threshold
}

/// The cardinality that the profile array reports for column `i`; zero
/// where it reports none.
pub open spec fn cardinality_at(records: Seq<Seq<Seq<char>>>, index: Map<Seq<char>, usize>, i: int) -> usize {
    if 0 <= i < records.len() {
        stat_count(stat_text(records[i], index, "cardinality"@))
    } else {
        0
    }
}

/// The 1-based ordinals of the enum candidates among the first `n` columns, ascending.
pub open spec fn low_cardinality_ordinals(
    n: int,
    threshold: usize,
    records: Seq<Seq<Seq<char>>>,
    index: Map<Seq<char>, usize>,
) -> Seq<usize>
    decreases n,
{
    if n <= 0 {
        Seq::empty()
    } else {
        let earlier = low_cardinality_ordinals(n - 1, threshold, records, index);
        if is_low_cardinality(cardinality_at(records, index, n - 1), threshold) {
            earlier.push(n as usize)
        } else {
            earlier
        }
    }
}

/// The ordinals in decimal.
pub open spec fn ordinal_texts(ordinals: Seq<usize>) -> Seq<Seq<char>> {
    Seq::new(ordinals.len(), |i: int| decimal_digits(ordinals[i] as nat))
}

/// The selection expression of a list of ordinals: the ordinals in decimal, separated by commas.
pub open spec fn selector_of(ordinals: Seq<usize>) -> Seq<char> {
    joined(ordinal_texts(ordinals), ","@)
}

/// The cardinality that a profile record reports; zero where it reports none.
pub fn cardinality_of(record: &Vec<String>, index: &OffsetMap) -> (r: usize)
    ensures
        r == stat_count(stat_text(texts(record@), offset_entries(*index), "cardinality"@)),
{
    match stat_field(record, index, "cardinality") {
        Some(text) => count_of(&text),
        None => 0,
    }
}

/// Writes a list of ordinals as a selection expression.
pub fn selector_arg(ordinals: &Vec<usize>) -> (r: String)
    ensures
        r@ == selector_of(ordinals@),
{
    let mut items: Vec<String> = Vec::new();
    let mut i: usize = 0;
    while i < ordinals.len()
        invariant
            i <= ordinals.len(),
            items@.len() == i,
            forall|j: int| 0 <= j < i ==> (#[trigger] items@[j])@ == decimal_digits(ordinals@[j] as nat),
        decreases ordinals.len() - i,
    {
        items.push(decimal_text(ordinals[i] as u64));
        i += 1;
    }
    assert(texts(items@) =~= ordinal_texts(ordinals@));
    join_texts(&items, ",")
}

/// Collects the 1-based ordinals of the columns whose cardinality is known
/// and at most the threshold, and writes them as a selection expression.
pub fn build_low_cardinality_column_selector_arg(
    low_cardinality_column_indices: &mut Vec<usize>,
    enum_cardinality_threshold: usize,
    csv_fields: &Vec<Vec<u8>>,
    csv_stats: &Vec<Vec<String>>,
    stats_col_index_map: &OffsetMap,
) -> (r: String)
    ensures
        final(low_cardinality_column_indices)@ == low_cardinality_ordinals(
            csv_fields@.len() as int,
            enum_cardinality_threshold,
            record_texts(csv_stats@),
            offset_entries(*stats_col_index_map),
        ),
        r@ == selector_of(final(low_cardinality_column_indices)@),
{
    low_cardinality_column_indices.clear();
    let ghost records = record_texts(csv_stats@);
    let ghost index = offset_entries(*stats_col_index_map);
    let mut i: usize = 0;
    while i < csv_fields.len()
        invariant
            i <= csv_fields.len(),
            records == record_texts(csv_stats@),
            index == offset_entries(*stats_col_index_map),
            low_cardinality_column_indices@ == low_cardinality_ordinals(
                i as int,
                enum_cardinality_threshold,
                records,
                index,
            ),
        decreases csv_fields.len() - i,
    {
        let col_cardinality = if i < csv_stats.len() {
            assert(records[i as int] == texts(csv_stats@[i as int]@));
            cardinality_of(&csv_stats[i], stats_col_index_map)
        } else {
            0
        };
        if col_cardinality > 0 && col_cardinality <= enum_cardinality_threshold {
            low_cardinality_column_indices.push(i + 1);
        }
        i += 1;
    }
    selector_arg(low_cardinality_column_indices)
}

/// A column whose cardinality equals the threshold is an enum candidate;
/// one more distinct value and it is none.
pub proof fn lemma_threshold_boundary(threshold: usize)
    requires
        0 < threshold < usize::MAX,
    ensures
        is_low_cardinality(threshold, threshold),
        !is_low_cardinality((threshold + 1) as usize, threshold),
        !is_low_cardinality(0, threshold),
{
}

#[verifier::external_type_specification]
#[verifier::external_body]
#[verifier::reject_recursive_types(T)]
pub struct ExFrequencies<T>(Frequencies<T>);

/// What a frequency table holds: each distinct value with the number of its occurrences.
pub uninterp spec fn frequency_counts(table: Frequencies<Vec<u8>>) -> Map<Seq<u8>, u64>;

/// The distinct values of a frequency table, from `Frequencies::most_frequent`.
///
/// Trusted: the outside function hands out each distinct value of the table
/// once, in descending order of their counts.
#[verifier::external_body]
pub(crate) fn most_frequent_values(table: &Frequencies<Vec<u8>>) -> (r: Vec<Vec<u8>>)
    ensures
        byte_fields(r@).no_duplicates(),
        byte_fields(r@).to_set() == frequency_counts(*table).dom(),
        forall|i: int, j: int| 0 <= i < j < r@.len() ==> frequency_counts(*table)[#[trigger] byte_fields(r@)[i]]
            >= frequency_counts(*table)[#[trigger] byte_fields(r@)[j]],
{
    table.most_frequent().0.into_iter().map(|(value, _)| value.clone()).collect()
}

/// Whether every distinct value of the table is valid text.
pub open spec fn table_is_text(table: Map<Seq<u8>, u64>) -> bool {
    forall|bytes: Seq<u8>| table.contains_key(bytes) ==> valid_utf8(bytes)
}

/// The distinct values of the table, as texts.
pub open spec fn table_values(table: Map<Seq<u8>, u64>) -> Set<Seq<char>> {
    Set::new(|text: Seq<char>| table.contains_key(encode_utf8(text)))
}

/// Whether the list holds the distinct values of the table, each once, in ascending order.
pub open spec fn is_value_list(list: Seq<Seq<char>>, table: Map<Seq<u8>, u64>) -> bool {
    &&& ascending(list)
    &&& list.no_duplicates()
    &&& list.to_set() == table_values(table)
}

/// A frequency table has one value list only: two runs on the same table
/// give the same enum list, value for value.
pub proof fn lemma_value_list_determined(first: Seq<Seq<char>>, second: Seq<Seq<char>>, table: Map<Seq<u8>, u64>)
    requires
        is_value_list(first, table),
        is_value_list(second, table),
    ensures
        first == second,
{
    crate::order::lemma_sorted_list_unique(first, second);
}

/// Two lists with the same items, counted, have the same set of items, and
/// if one has no duplicates, neither has the other.
pub proof fn lemma_same_items(a: Seq<Seq<char>>, b: Seq<Seq<char>>)
    requires
        a.to_multiset() == b.to_multiset(),
    ensures
        a.to_set() == b.to_set(),
        a.no_duplicates() ==> b.no_duplicates(),
{
    a.to_multiset_ensures();
    b.to_multiset_ensures();
    assert forall|x: Seq<char>| a.to_set().contains(x) == b.to_set().contains(x) by {
        assert(a.contains(x) <==> a.to_multiset().count(x) > 0);
        assert(b.contains(x) <==> b.to_multiset().count(x) > 0);
    }
    assert(a.to_set() =~= b.to_set());
    if a.no_duplicates() {
        a.lemma_multiset_has_no_duplicates();
        b.lemma_multiset_has_no_duplicates_conv();
    }
}

/// The distinct values of a table as texts, in ascending order; or the
/// bytes of a value that is no text.
pub fn sorted_values(table: &Frequencies<Vec<u8>>) -> (r: Result<Vec<String>, Vec<u8>>)
    ensures
        r is Ok <==> table_is_text(frequency_counts(*table)),
        r matches Ok(list) ==> is_value_list(texts(list@), frequency_counts(*table)),
        r matches Err(bytes) ==> frequency_counts(*table).contains_key(bytes@) && !valid_utf8(bytes@),
{
    broadcast use vstd::utf8::decode_utf8_encode_utf8, vstd::utf8::encode_utf8_decode_utf8, vstd::utf8::encode_utf8_valid_utf8;
    let ghost counts = frequency_counts(*table);
    let raw = most_frequent_values(table);
    let ghost raw_bytes = byte_fields(raw@);
    let mut unique_values: Vec<String> = Vec::new();
    let mut i: usize = 0;
    while i < raw.len()
        invariant
            i <= raw.len(),
            raw_bytes == byte_fields(raw@),
            counts == frequency_counts(*table),
            raw_bytes.to_set() == counts.dom(),
            unique_values@.len() == i,
            forall|j: int| 0 <= j < i ==> valid_utf8(#[trigger] raw_bytes[j]),
            forall|j: int| 0 <= j < i ==> (#[trigger] unique_values@[j])@ == decode_utf8(raw_bytes[j]),
        decreases raw.len() - i,
    {
        assert(raw_bytes[i as int] == raw@[i as int]@);
        match convert_to_string(raw[i].as_slice()) {
            Ok(text) => {
                unique_values.push(text);
            },
            Err(e) => {
                assert(raw_bytes.to_set().contains(raw_bytes[i as int]));
                assert(counts.dom().contains(raw_bytes[i as int]));
                return Err(e.bytes);
            },
        }
        i += 1;
    }
    let ghost decoded = texts(unique_values@);
    proof {
        assert forall|bytes: Seq<u8>| counts.contains_key(bytes) implies valid_utf8(bytes) by {
            assert(raw_bytes.to_set().contains(bytes));
            let k = choose|k: int| 0 <= k < raw_bytes.len() && raw_bytes[k] == bytes;
            assert(valid_utf8(raw_bytes[k]));
        }
        assert forall|a: int, b: int| 0 <= a < decoded.len() && 0 <= b < decoded.len() && a != b implies decoded[a]
            != decoded[b] by {
            assert(decoded[a] == decode_utf8(raw_bytes[a]));
            assert(decoded[b] == decode_utf8(raw_bytes[b]));
            assert(encode_utf8(decode_utf8(raw_bytes[a])) == raw_bytes[a]);
            assert(encode_utf8(decode_utf8(raw_bytes[b])) == raw_bytes[b]);
            assert(raw_bytes[a] != raw_bytes[b]);
        }
        assert(decoded.to_set() =~= table_values(counts)) by {
            assert forall|text: Seq<char>| decoded.to_set().contains(text) implies table_values(counts).contains(text) by {
                let k = choose|k: int| 0 <= k < decoded.len() && decoded[k] == text;
                assert(decoded[k] == decode_utf8(raw_bytes[k]));
                assert(encode_utf8(decode_utf8(raw_bytes[k])) == raw_bytes[k]);
                assert(raw_bytes.to_set().contains(raw_bytes[k]));
            }
            assert forall|text: Seq<char>| table_values(counts).contains(text) implies decoded.to_set().contains(text) by {
                let bytes = encode_utf8(text);
                assert(raw_bytes.to_set().contains(bytes));
                let k = choose|k: int| 0 <= k < raw_bytes.len() && raw_bytes[k] == bytes;
                assert(decoded[k] == decode_utf8(raw_bytes[k]));
                assert(decode_utf8(encode_utf8(text)) == text);
                assert(decoded.contains(text));
            }
        }
    }
    sort_texts(&mut unique_values);
    proof {
        lemma_same_items(decoded, texts(unique_values@));
    }
    Ok(unique_values)
}

/// What each frequency table holds.
pub open spec fn table_counts(tables: Seq<Frequencies<Vec<u8>>>) -> Seq<Map<Seq<u8>, u64>> {
    Seq::new(tables.len(), |i: int| frequency_counts(tables[i]))
}

/// Whether column `i` can be mined: it has a table, every value of the
/// table is text, and so is its header.
pub open spec fn minable(i: int, fields: Seq<Seq<u8>>, tables: Seq<Map<Seq<u8>, u64>>) -> bool {
    &&& i < tables.len()
    &&& table_is_text(tables[i])
    &&& valid_utf8(fields[i])
}

/// Whether no column after `i` among the first `n` has the name of column `i`.
pub open spec fn last_of_its_name(i: int, n: int, fields: Seq<Seq<u8>>) -> bool {
    forall|j: int| i < j < n ==> decode_utf8(#[trigger] fields[j]) != decode_utf8(fields[i])
}

/// Whether the map binds the name of each of the first `n` columns, and no
/// other name, to the value list of the last column of that name.
pub open spec fn is_enum_map(
    map: Map<Seq<char>, Seq<Seq<char>>>,
    n: int,
    fields: Seq<Seq<u8>>,
    tables: Seq<Map<Seq<u8>, u64>>,
) -> bool {
    &&& forall|name: Seq<char>| #[trigger]
        map.contains_key(name) <==> exists|i: int| 0 <= i < n && decode_utf8(#[trigger] fields[i]) == name
    &&& forall|i: int|
        0 <= i < n && last_of_its_name(i, n, fields) ==> is_value_list(
            map[decode_utf8(#[trigger] fields[i])],
            tables[i],
        )
}

/// Whether the error is one that column `i` gives: the column has no
/// table; or a value of its table is no text, and the error holds such a
/// value; or its header is no text, and the error holds the header.
pub open spec fn mining_error_of(
    error: SchemaErrorView,
    i: int,
    fields: Seq<Seq<u8>>,
    tables: Seq<Map<Seq<u8>, u64>>,
) -> bool {
    match error {
        SchemaErrorView::ProfileInconsistency { column } => column == i && i >= tables.len(),
        SchemaErrorView::Encoding { bytes } => i < tables.len() && (if table_is_text(tables[i]) {
            bytes == fields[i] && !valid_utf8(bytes)
        } else {
            tables[i].contains_key(bytes) && !valid_utf8(bytes)
        }),
        _ => false,
    }
}

/// Builds the map from column name to the sorted distinct values of the
/// column, from the headers and the frequency tables of the selected columns.
///
/// The run succeeds where every column has a table and all headers and
/// values are text. Else it ends at the first column that fails, with the
/// error of that column.
pub fn construct_map_of_unique_values(
    freq_csv_fields: &Vec<Vec<u8>>,
    frequency_tables: &Vec<Frequencies<Vec<u8>>>,
) -> (r: Result<EnumMap, SchemaError>)
    ensures
        r is Ok <==> forall|i: int|
            0 <= i < freq_csv_fields@.len() ==> #[trigger] minable(
                i,
                byte_fields(freq_csv_fields@),
                table_counts(frequency_tables@),
            ),
        r matches Ok(map) ==> is_enum_map(
            enum_entries(map),
            freq_csv_fields@.len() as int,
            byte_fields(freq_csv_fields@),
            table_counts(frequency_tables@),
        ),
        r matches Err(e) ==> exists|i: int|
            0 <= i < freq_csv_fields@.len() && !(#[trigger] minable(
                i,
                byte_fields(freq_csv_fields@),
                table_counts(frequency_tables@),
            )) && (forall|j: int|
                0 <= j < i ==> #[trigger] minable(j, byte_fields(freq_csv_fields@), table_counts(frequency_tables@)))
                && mining_error_of(e@, i, byte_fields(freq_csv_fields@), table_counts(frequency_tables@)),
{
    let ghost fields = byte_fields(freq_csv_fields@);
    let ghost tables = table_counts(frequency_tables@);
    let mut unique_values_map = enums_new();
    let mut i: usize = 0;
    while i < freq_csv_fields.len()
        invariant
            i <= freq_csv_fields.len(),
            fields == byte_fields(freq_csv_fields@),
            tables == table_counts(frequency_tables@),
            forall|j: int| 0 <= j < i ==> #[trigger] minable(j, fields, tables),
            is_enum_map(enum_entries(unique_values_map), i as int, fields, tables),
        decreases freq_csv_fields.len() - i,
    {
        assert(fields[i as int] == freq_csv_fields@[i as int]@);
        if i >= frequency_tables.len() {
            let error = SchemaError::ProfileInconsistency { column: i };
            assert(!minable(i as int, fields, tables));
            assert(mining_error_of(error@, i as int, fields, tables));
            return Err(error);
        }
        assert(tables[i as int] == frequency_counts(frequency_tables@[i as int]));
        let unique_values = match sorted_values(&frequency_tables[i]) {
            Ok(list) => list,
            Err(bytes) => {
                let error = SchemaError::Encoding { bytes };
                assert(!minable(i as int, fields, tables));
                assert(mining_error_of(error@, i as int, fields, tables));
                return Err(error);
            },
        };
        let header_string = match convert_to_string(freq_csv_fields[i].as_slice()) {
            Ok(text) => text,
            Err(e) => {
                let error = SchemaError::Encoding { bytes: e.bytes };
                assert(!minable(i as int, fields, tables));
                assert(mining_error_of(error@, i as int, fields, tables));
                return Err(error);
            },
        };
        let ghost before = enum_entries(unique_values_map);
        let ghost name = header_string@;
        let ghost list = texts(unique_values@);
        enums_insert(&mut unique_values_map, header_string, unique_values);
        proof {
            let after = enum_entries(unique_values_map);
            assert(after == before.insert(name, list));
            assert(minable(i as int, fields, tables));
            assert forall|other: Seq<char>| #[trigger]
                after.contains_key(other) <==> exists|k: int|
                    0 <= k < i + 1 && decode_utf8(#[trigger] fields[k]) == other by {
                if after.contains_key(other) {
                    if other == name {
                        assert(decode_utf8(fields[i as int]) == other);
                    } else {
                        assert(before.contains_key(other));
                        let k = choose|k: int| 0 <= k < i && decode_utf8(#[trigger] fields[k]) == other;
                        assert(0 <= k < i + 1 && decode_utf8(fields[k]) == other);
                    }
                }
                if exists|k: int| 0 <= k < i + 1 && decode_utf8(#[trigger] fields[k]) == other {
                    let k = choose|k: int| 0 <= k < i + 1 && decode_utf8(#[trigger] fields[k]) == other;
                    if k < i {
                        assert(before.contains_key(other));
                    }
                }
            }
            assert forall|k: int| 0 <= k < i + 1 && last_of_its_name(k, i + 1, fields) implies is_value_list(
                after[decode_utf8(#[trigger] fields[k])],
                tables[k],
            ) by {
                if k < i {
                    assert(decode_utf8(fields[i as int]) != decode_utf8(fields[k]));
                    assert(last_of_its_name(k, i as int, fields));
                }
            }
        }
        i += 1;
    }
    Ok(unique_values_map)
}

/// How the frequency engine is to run.
#[derive(Clone, Copy, Debug, PartialEq, Eq, Structural)]
pub enum FrequencyMode {
    /// One pass over the input.
    Sequential,
    /// In shards over an indexed input, one for each job.
    Parallel,
}

/// The options of a frequency run.
#[derive(Clone, Debug)]
pub struct FrequencyRequest {
    pub input: Option<String>,
    /// The columns to count, as a selection expression.
    pub select: String,
    /// How many of the most frequent values of each column are wanted.
    pub limit: usize,
    pub ignore_case: bool,
    /// Empty values are left out.
    pub no_nulls: bool,
    pub jobs: usize,
    pub no_headers: bool,
    pub delimiter: Option<u8>,
    pub memcheck: bool,
    pub mode: FrequencyMode,
}

/// The mathematical value of a [`FrequencyRequest`].
pub struct FrequencyRequestView {
    pub input: Option<Seq<char>>,
    pub select: Seq<char>,
    pub limit: usize,
    pub ignore_case: bool,
    pub no_nulls: bool,
    pub jobs: usize,
    pub no_headers: bool,
    pub delimiter: Option<u8>,
    pub memcheck: bool,
    pub mode: FrequencyMode,
}

impl View for FrequencyRequest {
    type V = FrequencyRequestView;

    open spec fn view(&self) -> FrequencyRequestView {
        FrequencyRequestView {
            input: crate::field::text_view(self.input),
            select: self.select@,
            limit: self.limit,
            ignore_case: self.ignore_case,
            no_nulls: self.no_nulls,
            jobs: self.jobs,
            no_headers: self.no_headers,
            delimiter: self.delimiter,
            memcheck: self.memcheck,
            mode: self.mode,
        }
    }
}

/// The frequency run that mines the selected columns: up to `threshold`
/// values for each, empty values left out, in shards where the input has
/// an index. No run is made for an empty selection.
pub open spec fn frequency_request_of(args: Args, select: Seq<char>, units: usize, indexed: bool) -> Option<
    FrequencyRequestView,
> {
    if select.len() == 0 {
        None
    } else {
        Some(
            FrequencyRequestView {
                input: crate::field::text_view(args.arg_input),
                select,
                limit: args.flag_enum_threshold,
                ignore_case: args.flag_ignore_case,
                no_nulls: true,
                jobs: jobs_allowed(args.flag_jobs, units),
                no_headers: args.flag_no_headers,
                delimiter: args.flag_delimiter,
                memcheck: args.flag_memcheck,
                mode: if indexed { FrequencyMode::Parallel } else { FrequencyMode::Sequential },
            },
        )
    }
}

/// Plans the frequency run that mines the selected columns.
pub fn frequency_request(args: &Args, column_select_arg: &str, units: usize, indexed: bool) -> (r: Option<
    FrequencyRequest,
>)
    ensures
        r is Some <==> frequency_request_of(*args, column_select_arg@, units, indexed) is Some,
        r matches Some(request) ==> Some(request@) == frequency_request_of(*args, column_select_arg@, units, indexed),
{
    if column_select_arg.unicode_len() == 0 {
        None
    } else {
        Some(
            FrequencyRequest {
                input: args.arg_input.clone(),
                select: String::from_str(column_select_arg),
                limit: args.flag_enum_threshold,
                ignore_case: args.flag_ignore_case,
                no_nulls: true,
                jobs: njobs(args.flag_jobs, units),
                no_headers: args.flag_no_headers,
                delimiter: args.flag_delimiter,
                memcheck: args.flag_memcheck,
                mode: if indexed { FrequencyMode::Parallel } else { FrequencyMode::Sequential },
            },
        )
    }
}

/// The map of unique values where no column was mined.
pub fn no_unique_values() -> (r: EnumMap)
    ensures
        enum_entries(r) == (Map::<Seq<char>, Seq<Seq<char>>>::empty()),
{
    enums_new()
}

/// A column is among the selected ordinals exactly when its cardinality is
/// known and at most the threshold.
pub proof fn lemma_selected_iff_low_cardinality(
    n: int,
    threshold: usize,
    records: Seq<Seq<Seq<char>>>,
    index: Map<Seq<char>, usize>,
    column: int,
)
    requires
        0 <= column < n <= usize::MAX,
    ensures
        low_cardinality_ordinals(n, threshold, records, index).contains((column + 1) as usize) <==> is_low_cardinality(
            cardinality_at(records, index, column),
            threshold,
        ),
        forall|k: int|
            0 <= k < low_cardinality_ordinals(n, threshold, records, index).len() ==> 0 < (
            #[trigger] low_cardinality_ordinals(n, threshold, records, index)[k]) <= n,
    decreases n,
{
    let ordinals = low_cardinality_ordinals(n, threshold, records, index);
    let earlier = low_cardinality_ordinals(n - 1, threshold, records, index);
    let taken = is_low_cardinality(cardinality_at(records, index, n - 1), threshold);
    if n - 1 > 0 {
        lemma_selected_iff_low_cardinality(n - 1, threshold, records, index, if column < n - 1 { column } else { 0 });
    }
    if taken {
        assert(ordinals == earlier.push(n as usize));
        assert(ordinals[earlier.len() as int] == n as usize);
        assert forall|k: int| 0 <= k < ordinals.len() implies 0 < (#[trigger] ordinals[k]) <= n by {
            if k < earlier.len() {
                assert(ordinals[k] == earlier[k]);
            }
        }
        if column < n - 1 {
            if earlier.contains((column + 1) as usize) {
                let k = choose|k: int| 0 <= k < earlier.len() && earlier[k] == (column + 1) as usize;
                assert(ordinals[k] == (column + 1) as usize);
            }
            if ordinals.contains((column + 1) as usize) {
                let k = choose|k: int| 0 <= k < ordinals.len() && ordinals[k] == (column + 1) as usize;
                assert(k < earlier.len());
                assert(earlier[k] == (column + 1) as usize);
            }
        }
    } else {
        assert(ordinals == earlier);
        if column == n - 1 {
            if ordinals.contains((column + 1) as usize) {
                let k = choose|k: int| 0 <= k < ordinals.len() && ordinals[k] == (column + 1) as usize;
                assert(0 < earlier[k] <= n - 1);
            }
        }
    }
}

/// A value list has as many entries as its table has distinct values.
pub proof fn lemma_value_list_size(list: Seq<Seq<char>>, table: Map<Seq<u8>, u64>)
    requires
        is_value_list(list, table),
        table_is_text(table),
    ensures
        table.dom().finite(),
        list.len() == table.dom().len(),
{
    broadcast use vstd::utf8::decode_utf8_encode_utf8, vstd::utf8::encode_utf8_decode_utf8;
    broadcast use vstd::seq_lib::seq_to_set_is_finite;
    let values = table_values(table);
    let encode = |text: Seq<char>| encode_utf8(text);
    list.unique_seq_to_set();
    assert(values.finite());
    assert(vstd::relations::injective_on(encode, values)) by {
        assert forall|a: Seq<char>, b: Seq<char>|
            values.contains(a) && values.contains(b) && #[trigger] encode(a) == #[trigger] encode(b) implies a == b by {
            assert(decode_utf8(encode_utf8(a)) == a);
            assert(decode_utf8(encode_utf8(b)) == b);
        }
    }
    assert(values.map(encode) =~= table.dom()) by {
        assert forall|bytes: Seq<u8>| values.map(encode).contains(bytes) <==> table.dom().contains(bytes) by {
            if table.dom().contains(bytes) {
                assert(valid_utf8(bytes));
                assert(encode_utf8(decode_utf8(bytes)) == bytes);
                assert(values.contains(decode_utf8(bytes)));
                assert(encode(decode_utf8(bytes)) == bytes);
            }
            if values.map(encode).contains(bytes) {
                let text = choose|text: Seq<char>| values.contains(text) && bytes == encode(text);
                assert(table.contains_key(encode_utf8(text)));
            }
        }
    }
    vstd::set_lib::lemma_map_size(values, table.dom(), encode);
}

/// A string column without nulls whose cardinality equals the threshold
/// is an enum candidate, and its enum list is the value list of its
/// frequency table: threshold many texts, no two the same, where the table
/// holds as many distinct values as the profile counts.
pub proof fn lemma_enum_list_at_threshold(
    name: Seq<char>,
    source: Seq<char>,
    profile: ProfileView,
    threshold: usize,
    table: Map<Seq<u8>, u64>,
    candidates: Seq<Seq<char>>,
    strict_dates: bool,
)
    requires
        kind_of(profile.field_type) == ColumnKind::Text,
        profile.null_count == 0,
        profile.cardinality == threshold,
        threshold > 0,
        table_is_text(table),
        is_value_list(candidates, table),
        table.dom().len() == profile.cardinality,
    ensures
        is_low_cardinality(profile.cardinality, threshold),
        definition_of(name, source, profile, candidates, strict_dates).enum_values == text_enum(candidates),
        definition_of(name, source, profile, candidates, strict_dates).enum_values.len() == threshold,
        definition_of(name, source, profile, candidates, strict_dates).enum_values.no_duplicates(),
        candidates.to_set() == table_values(table),
{
    lemma_value_list_size(candidates, table);
    let list = definition_of(name, source, profile, candidates, strict_dates).enum_values;
    assert forall|i: int, j: int| 0 <= i < list.len() && 0 <= j < list.len() && i != j implies list[i] != list[j] by {
        assert(list[i] == EnumValueView::Text(candidates[i]));
        assert(list[j] == EnumValueView::Text(candidates[j]));
        assert(candidates[i] != candidates[j]);
    }
}

/// A column whose cardinality is one above the threshold is not selected
/// for mining; and a column whose name is not among the mined headers has
/// no candidates, so its definition has no enum list.
pub proof fn lemma_no_enum_above_threshold(
    name: Seq<char>,
    source: Seq<char>,
    profile: ProfileView,
    threshold: usize,
    enums: Map<Seq<char>, Seq<Seq<char>>>,
    mined: int,
    mined_fields: Seq<Seq<u8>>,
    tables: Seq<Map<Seq<u8>, u64>>,
    strict_dates: bool,
)
    requires
        threshold < usize::MAX,
        profile.cardinality == threshold + 1,
        is_enum_map(enums, mined, mined_fields, tables),
        forall|i: int| 0 <= i < mined ==> decode_utf8(#[trigger] mined_fields[i]) != name,
    ensures
        !is_low_cardinality(profile.cardinality, threshold),
        !enums.contains_key(name),
        definition_of(
            name,
            source,
            profile,
            crate::schema::candidates_of(enums, name),
            strict_dates,
        ).enum_values.len() == 0,
{
    if enums.contains_key(name) {
        let i = choose|i: int| 0 <= i < mined && decode_utf8(#[trigger] mined_fields[i]) == name;
        assert(decode_utf8(mined_fields[i]) != name);
    }
}

} // verus!
