//! The pattern synthesizer: a regular expression for each selected string
//! column, made from the values seen in the column.

use vstd::prelude::*;
use vstd::utf8::{decode_utf8, valid_utf8};
use grex::RegExpBuilder;
use crate::maps::{
    distinct_columns, distinct_entries, distinct_new, distinct_observe, distinct_values, text_entries,
    text_map_insert, text_map_new, seen_in, texts, DistinctMap, PatternMap,
};
use crate::properties::{has_name, index_of, PropertyMap, PropertyView};
use crate::schema::{byte_fields, SchemaError, SchemaErrorView};
use crate::text::convert_to_string;

verus! {

/// The distinct values of each column, or the failure that ended the scan.
pub type Collected = Result<Map<Seq<char>, Set<Seq<char>>>, SchemaErrorView>;

/// Whether a selection names every column of an input of `columns` columns.
pub open spec fn selects_every_column(selection: Seq<usize>, columns: nat) -> bool {
    forall|column: usize| column < columns ==> #[trigger] selection.contains(column)
}

/// Whether a selection is left alone: it names no column, or every column.
pub open spec fn selection_guarded(selection: Seq<usize>, columns: nat) -> bool {
    selection.len() == 0 || selects_every_column(selection, columns)
}

/// Whether the column may get a pattern: it has a definition, and the
/// definition is a string without an enum list.
pub open spec fn eligible(properties: Seq<PropertyView>, name: Seq<char>) -> bool {
    has_name(properties, name) && properties[index_of(properties, name)].definition.admits_pattern()
}

/// The distinct values after one cell of a row, the cell of the given column.
///
/// A column that the input lacks, a header that is no text, and a value of
/// an eligible column that is no text each end the scan. A cell of a column
/// that is not eligible, and a cell that the row lacks, change nothing.
pub open spec fn observe_cell(
    seen: Map<Seq<char>, Set<Seq<char>>>,
    column: int,
    row: Seq<Seq<u8>>,
    headers: Seq<Seq<u8>>,
    properties: Seq<PropertyView>,
) -> Collected {
    if column >= headers.len() {
        Err(SchemaErrorView::InvalidSelection { index: column as usize })
    } else if !valid_utf8(headers[column]) {
        Err(SchemaErrorView::Encoding { bytes: headers[column] })
    } else if !eligible(properties, decode_utf8(headers[column])) || column >= row.len() {
        Ok(seen)
    } else if !valid_utf8(row[column]) {
        Err(SchemaErrorView::Encoding { bytes: row[column] })
    } else {
        Ok(
            seen.insert(
                decode_utf8(headers[column]),
                seen_in(seen, decode_utf8(headers[column])).insert(decode_utf8(row[column])),
            ),
        )
    }
}

/// The distinct values after the first `upto` selected cells of a row.
pub open spec fn observe_row(
    before: Collected,
    selection: Seq<usize>,
    upto: int,
    row: Seq<Seq<u8>>,
    headers: Seq<Seq<u8>>,
    properties: Seq<PropertyView>,
) -> Collected
    decreases upto,
{
    if upto <= 0 {
        before
    } else {
        match observe_row(before, selection, upto - 1, row, headers, properties) {
            Err(e) => Err(e),
            Ok(seen) => observe_cell(seen, selection[upto - 1] as int, row, headers, properties),
        }
    }
}

/// The byte fields of each row.
pub open spec fn byte_rows(rows: Seq<Vec<Vec<u8>>>) -> Seq<Seq<Seq<u8>>> {
    Seq::new(rows.len(), |i: int| byte_fields(rows[i]@))
}

/// The distinct values after the first `upto` rows.
pub open spec fn observe_rows(
    selection: Seq<usize>,
    rows: Seq<Seq<Seq<u8>>>,
    upto: int,
    headers: Seq<Seq<u8>>,
    properties: Seq<PropertyView>,
) -> Collected
    decreases upto,
{
    if upto <= 0 {
        Ok(Map::empty())
    } else {
        observe_row(
            observe_rows(selection, rows, upto - 1, headers, properties),
            selection,
            selection.len() as int,
            rows[upto - 1],
            headers,
            properties,
        )
    }
}

/// Whether every column of the map has at least one value.
pub open spec fn inhabited(seen: Map<Seq<char>, Set<Seq<char>>>) -> bool {
    forall|name: Seq<char>| #[trigger] seen.contains_key(name) ==> has_value(seen[name])
}

/// Whether the set holds at least one value.
pub open spec fn has_value(values: Set<Seq<char>>) -> bool {
    exists|value: Seq<char>| values.contains(value)
}

/// A failed scan stays failed.
pub proof fn lemma_row_failure_persists(
    before: Collected,
    selection: Seq<usize>,
    upto: int,
    row: Seq<Seq<u8>>,
    headers: Seq<Seq<u8>>,
    properties: Seq<PropertyView>,
)
    requires
        before is Err,
    ensures
        observe_row(before, selection, upto, row, headers, properties) == before,
    decreases upto,
{
    if upto > 0 {
        lemma_row_failure_persists(before, selection, upto - 1, row, headers, properties);
    }
}

/// A failure among the first `k` rows is the failure of the whole scan.
pub proof fn lemma_scan_failure_persists(
    selection: Seq<usize>,
    rows: Seq<Seq<Seq<u8>>>,
    k: int,
    n: int,
    headers: Seq<Seq<u8>>,
    properties: Seq<PropertyView>,
)
    requires
        0 <= k <= n,
        observe_rows(selection, rows, k, headers, properties) is Err,
    ensures
        observe_rows(selection, rows, n, headers, properties) == observe_rows(selection, rows, k, headers, properties),
    decreases n - k,
{
    if k < n {
        lemma_scan_failure_persists(selection, rows, k, n - 1, headers, properties);
        lemma_row_failure_persists(
            observe_rows(selection, rows, n - 1, headers, properties),
            selection,
            selection.len() as int,
            rows[n - 1],
            headers,
            properties,
        );
    }
}

/// Collects the distinct values of each selected column that may get a
/// pattern, row by row and cell by cell in the order of the selection.
pub fn collect_distinct_values(
    selection: &Vec<usize>,
    headers: &Vec<Vec<u8>>,
    rows: &Vec<Vec<Vec<u8>>>,
    properties_map: &PropertyMap,
) -> (r: Result<DistinctMap, SchemaError>)
    requires
        properties_map.wf(),
    ensures
        match r {
            Ok(seen) => inhabited(distinct_entries(seen)) && observe_rows(
                selection@,
                byte_rows(rows@),
                rows@.len() as int,
                byte_fields(headers@),
                properties_map@,
            ) == Ok::<Map<Seq<char>, Set<Seq<char>>>, SchemaErrorView>(distinct_entries(seen)),
            Err(e) => observe_rows(
                selection@,
                byte_rows(rows@),
                rows@.len() as int,
                byte_fields(headers@),
                properties_map@,
            ) == Err::<Map<Seq<char>, Set<Seq<char>>>, SchemaErrorView>(e@),
        },
{
    let ghost all_rows = byte_rows(rows@);
    let ghost all_headers = byte_fields(headers@);
    let ghost properties = properties_map@;
    let mut unique_values_map = distinct_new();
    let mut r: usize = 0;
    while r < rows.len()
        invariant
            r <= rows.len(),
            all_rows == byte_rows(rows@),
            all_headers == byte_fields(headers@),
            properties == properties_map@,
            properties_map.wf(),
            inhabited(distinct_entries(unique_values_map)),
            observe_rows(selection@, all_rows, r as int, all_headers, properties) == Ok::<
                Map<Seq<char>, Set<Seq<char>>>,
                SchemaErrorView,
            >(distinct_entries(unique_values_map)),
        decreases rows.len() - r,
    {
        let ghost before = observe_rows(selection@, all_rows, r as int, all_headers, properties);
        let ghost row = all_rows[r as int];
        assert(row == byte_fields(rows@[r as int]@));
        let record = &rows[r];
        let mut i: usize = 0;
        while i < selection.len()
            invariant
                i <= selection.len(),
                r < rows.len(),
                all_rows == byte_rows(rows@),
                all_headers == byte_fields(headers@),
                properties == properties_map@,
                properties_map.wf(),
                row == byte_fields(record@),
                row == all_rows[r as int],
                before == observe_rows(selection@, all_rows, r as int, all_headers, properties),
                inhabited(distinct_entries(unique_values_map)),
                observe_row(before, selection@, i as int, row, all_headers, properties) == Ok::<
                    Map<Seq<char>, Set<Seq<char>>>,
                    SchemaErrorView,
                >(distinct_entries(unique_values_map)),
            decreases selection.len() - i,
        {
            let column = selection[i];
            let ghost seen = distinct_entries(unique_values_map);
            let ghost outcome = observe_cell(seen, column as int, row, all_headers, properties);
            assert(observe_row(before, selection@, i + 1, row, all_headers, properties) == outcome);
            if column >= headers.len() {
                let error = SchemaError::InvalidSelection { index: column };
                proof {
                    lemma_row_failure_persists(outcome, selection@, 0, row, all_headers, properties);
                    lemma_cells_failure_persists(before, selection@, i + 1, selection@.len() as int, row, all_headers, properties);
                    lemma_scan_failure_persists(selection@, all_rows, r + 1, rows@.len() as int, all_headers, properties);
                }
                return Err(error);
            }
            assert(all_headers[column as int] == headers@[column as int]@);
            let header_string = match convert_to_string(headers[column].as_slice()) {
                Ok(text) => text,
                Err(e) => {
                    let error = SchemaError::Encoding { bytes: e.bytes };
                    proof {
                        lemma_cells_failure_persists(before, selection@, i + 1, selection@.len() as int, row, all_headers, properties);
                        lemma_scan_failure_persists(selection@, all_rows, r + 1, rows@.len() as int, all_headers, properties);
                    }
                    return Err(error);
                },
            };
            let admits = match properties_map.get(header_string.as_str()) {
                Some(definition) => crate::field::should_emit_pattern_constraint(definition),
                None => false,
            };
            assert(admits == eligible(properties, header_string@));
            if admits && column < record.len() {
                assert(row[column as int] == record@[column as int]@);
                let value_string = match convert_to_string(record[column].as_slice()) {
                    Ok(text) => text,
                    Err(e) => {
                        let error = SchemaError::Encoding { bytes: e.bytes };
                        proof {
                            lemma_cells_failure_persists(before, selection@, i + 1, selection@.len() as int, row, all_headers, properties);
                            lemma_scan_failure_persists(selection@, all_rows, r + 1, rows@.len() as int, all_headers, properties);
                        }
                        return Err(error);
                    },
                };
                let ghost name = header_string@;
                let ghost value = value_string@;
                distinct_observe(&mut unique_values_map, header_string, value_string);
                proof {
                    let after = distinct_entries(unique_values_map);
                    assert(after[name].contains(value));
                    assert forall|other: Seq<char>| #[trigger] after.contains_key(other) implies has_value(
                        after[other],
                    ) by {
                        if other != name {
                            assert(seen.contains_key(other));
                            assert(has_value(seen[other]));
                        } else {
                            assert(after[other].contains(value));
                        }
                    }
                    assert(inhabited(after));
                }
            }
            i += 1;
        }
        r += 1;
    }
    Ok(unique_values_map)
}

/// A failure among the first `k` cells of a row is the failure of the row.
pub proof fn lemma_cells_failure_persists(
    before: Collected,
    selection: Seq<usize>,
    k: int,
    n: int,
    row: Seq<Seq<u8>>,
    headers: Seq<Seq<u8>>,
    properties: Seq<PropertyView>,
)
    requires
        0 <= k <= n,
        observe_row(before, selection, k, row, headers, properties) is Err,
    ensures
        observe_row(before, selection, n, row, headers, properties) == observe_row(
            before,
            selection,
            k,
            row,
            headers,
            properties,
        ),
    decreases n - k,
{
    if k < n {
        lemma_cells_failure_persists(before, selection, k, n - 1, row, headers, properties);
    }
}

/// How often a substring must repeat in a row to be folded into a repetition.
pub const MINIMUM_REPETITIONS: u32 = 2;

/// Builds a regular expression that matches every one of the values, with
/// grex: repeated substrings are folded where they repeat at least
/// `minimum_repetitions` times.
///
/// Trusted: the outside builder takes any values but an empty list, and
/// any minimum but zero. Nothing is stated of the expression that it builds.
#[verifier::external_body]
pub(crate) fn synthesize(values: &Vec<String>, minimum_repetitions: u32) -> (r: String)
    requires
        values@.len() > 0,
        minimum_repetitions > 0,
{
    RegExpBuilder::from(values).with_conversion_of_repetitions().with_minimum_repetitions(minimum_repetitions).build()
}

/// Binds the pattern of a column in the pattern map.
pub fn record_pattern(pattern_map: &mut PatternMap, column: String, pattern: String)
    ensures
        text_entries(*final(pattern_map)) == text_entries(*old(pattern_map)).insert(column@, pattern@),
{
    text_map_insert(pattern_map, column, pattern);
}

/// Makes a pattern for each column of the map from the values of the column.
pub fn patterns_of(unique_values_map: &DistinctMap) -> (r: PatternMap)
    requires
        inhabited(distinct_entries(*unique_values_map)),
    ensures
        text_entries(r).dom() == distinct_entries(*unique_values_map).dom(),
{
    let ghost seen = distinct_entries(*unique_values_map);
    let mut pattern_map = text_map_new();
    let columns = distinct_columns(unique_values_map);
    let mut i: usize = 0;
    while i < columns.len()
        invariant
            i <= columns.len(),
            seen == distinct_entries(*unique_values_map),
            inhabited(seen),
            texts(columns@).to_set() == seen.dom(),
            forall|name: Seq<char>| text_entries(pattern_map).contains_key(name) <==> exists|j: int|
                0 <= j < i && #[trigger] texts(columns@)[j] == name,
        decreases columns.len() - i,
    {
        let ghost name = columns@[i as int]@;
        assert(texts(columns@)[i as int] == name);
        assert(texts(columns@).to_set().contains(name));
        assert(seen.contains_key(name));
        let values = distinct_values(unique_values_map, columns[i].as_str());
        proof {
            assert(has_value(seen[name]));
            let value = choose|value: Seq<char>| seen[name].contains(value);
            assert(texts(values@).to_set().contains(value));
        }
        let regexp = synthesize(&values, MINIMUM_REPETITIONS);
        let ghost before = text_entries(pattern_map);
        record_pattern(&mut pattern_map, columns[i].clone(), regexp);
        proof {
            let after = text_entries(pattern_map);
            assert forall|other: Seq<char>| after.contains_key(other) <==> exists|j: int|
                0 <= j < i + 1 && #[trigger] texts(columns@)[j] == other by {
                if after.contains_key(other) && other != name {
                    assert(before.contains_key(other));
                    let j = choose|j: int| 0 <= j < i && #[trigger] texts(columns@)[j] == other;
                    assert(0 <= j < i + 1 && texts(columns@)[j] == other);
                }
                if exists|j: int| 0 <= j < i + 1 && #[trigger] texts(columns@)[j] == other {
                    let j = choose|j: int| 0 <= j < i + 1 && #[trigger] texts(columns@)[j] == other;
                    if j < i {
                        assert(before.contains_key(other));
                    }
                }
            }
        }
        i += 1;
    }
    proof {
        assert forall|name: Seq<char>| text_entries(pattern_map).contains_key(name) <==> seen.contains_key(name) by {
            if seen.contains_key(name) {
                assert(texts(columns@).to_set().contains(name));
                let j = choose|j: int| 0 <= j < texts(columns@).len() && texts(columns@)[j] == name;
                assert(0 <= j < i && texts(columns@)[j] == name);
            }
            if text_entries(pattern_map).contains_key(name) {
                let j = choose|j: int| 0 <= j < i && #[trigger] texts(columns@)[j] == name;
                assert(texts(columns@).to_set().contains(texts(columns@)[j]));
            }
        }
        assert(text_entries(pattern_map).dom() =~= seen.dom());
    }
    pattern_map
}

/// The first of the first `n` selected indices that names no column of an
/// input of `columns` columns.
pub open spec fn first_beyond(selection: Seq<usize>, n: int, columns: nat) -> Option<usize>
    decreases n,
{
    if n <= 0 {
        None
    } else {
        match first_beyond(selection, n - 1, columns) {
            Some(index) => Some(index),
            None => if selection[n - 1] >= columns {
                Some(selection[n - 1])
            } else {
                None
            },
        }
    }
}

/// Looks for a selected index that names no column.
pub fn index_beyond(selection: &Vec<usize>, columns: usize) -> (r: Option<usize>)
    ensures
        r == first_beyond(selection@, selection@.len() as int, columns as nat),
{
    let mut i: usize = 0;
    while i < selection.len()
        invariant
            i <= selection.len(),
            first_beyond(selection@, i as int, columns as nat) is None,
        decreases selection.len() - i,
    {
        if selection[i] >= columns {
            proof {
                lemma_first_beyond_persists(selection@, i + 1, selection@.len() as int, columns as nat);
            }
            return Some(selection[i]);
        }
        i += 1;
    }
    None
}

/// An index beyond the input among the first `k` is the first beyond of any longer selection.
pub proof fn lemma_first_beyond_persists(selection: Seq<usize>, k: int, n: int, columns: nat)
    requires
        0 <= k <= n,
        first_beyond(selection, k, columns) is Some,
    ensures
        first_beyond(selection, n, columns) == first_beyond(selection, k, columns),
    decreases n - k,
{
    if k < n {
        lemma_first_beyond_persists(selection, k, n - 1, columns);
    }
}

/// Whether the selection holds the column.
pub fn selects(selection: &Vec<usize>, column: usize) -> (r: bool)
    ensures
        r == selection@.contains(column),
{
    let mut i: usize = 0;
    while i < selection.len()
        invariant
            i <= selection.len(),
            forall|j: int| 0 <= j < i ==> selection@[j] != column,
        decreases selection.len() - i,
    {
        if selection[i] == column {
            return true;
        }
        i += 1;
    }
    false
}

/// Whether the selection is left alone: it names no column, or every column of the input.
pub fn is_guarded(selection: &Vec<usize>, columns: usize) -> (r: bool)
    ensures
        r == selection_guarded(selection@, columns as nat),
{
    if selection.len() == 0 {
        return true;
    }
    let mut column: usize = 0;
    while column < columns
        invariant
            column <= columns,
            selection@.len() > 0,
            forall|c: usize| c < column ==> #[trigger] selection@.contains(c),
        decreases columns - column,
    {
        if !selects(selection, column) {
            assert(!selects_every_column(selection@, columns as nat));
            return false;
        }
        column += 1;
    }
    true
}

/// Makes the pattern candidates of the selected columns.
///
/// A selection that names a column which the input lacks is an error,
/// whatever else holds. A selection of no column, or of every column of
/// the input, gives no pattern at all. Else every row is scanned once;
/// each selected string column without an enum list that has a value in
/// some row gets a pattern made from its distinct values. The scan ends
/// with an error at the first cell whose header or value is no text.
pub fn generate_string_patterns(
    selection: &Vec<usize>,
    headers: &Vec<Vec<u8>>,
    rows: &Vec<Vec<Vec<u8>>>,
    properties_map: &PropertyMap,
) -> (r: Result<PatternMap, SchemaError>)
    requires
        properties_map.wf(),
    ensures
        match first_beyond(selection@, selection@.len() as int, headers@.len()) {
            Some(index) => r is Err && r->Err_0@ == (SchemaErrorView::InvalidSelection { index }),
            None => if selection_guarded(selection@, headers@.len()) {
                r is Ok && text_entries(r->Ok_0) == (Map::<Seq<char>, Seq<char>>::empty())
            } else {
                match observe_rows(
                    selection@,
                    byte_rows(rows@),
                    rows@.len() as int,
                    byte_fields(headers@),
                    properties_map@,
                ) {
                    Ok(seen) => r is Ok && text_entries(r->Ok_0).dom() == seen.dom(),
                    Err(e) => r is Err && r->Err_0@ == e,
                }
            },
        },
{
    match index_beyond(selection, headers.len()) {
        Some(index) => {
            return Err(SchemaError::InvalidSelection { index });
        },
        None => {},
    }
    if is_guarded(selection, headers.len()) {
        return Ok(text_map_new());
    }
    match collect_distinct_values(selection, headers, rows, properties_map) {
        Ok(unique_values_map) => Ok(patterns_of(&unique_values_map)),
        Err(e) => Err(e),
    }
}

} // verus!
