use ahash::AHashMap;
use csv_profiler::cache::build_stats_index;
use csv_profiler::document::{assemble_schema, schema_output_path};
use csv_profiler::field::{should_emit_pattern_constraint, Bound, DateFormat, EnumValue, JsonType};
use csv_profiler::maps::{EnumMap, OffsetMap, PatternMap};
use csv_profiler::properties::PropertyMap;
use csv_profiler::rules::apply_null_rule;
use csv_profiler::schema::{
    attach_patterns, get_required_fields, infer_schema_from_stats, Args, InferredSchema, SchemaError, SelectColumns,
};

fn options(strict_dates: bool) -> Args {
    Args {
        flag_enum_threshold: 50,
        flag_ignore_case: false,
        flag_strict_dates: strict_dates,
        flag_pattern_columns: SelectColumns { ordinals: Vec::new() },
        flag_dates_whitelist: "date,time,due,open,close,created".to_string(),
        flag_prefer_dmy: false,
        flag_force: false,
        flag_stdout: false,
        flag_jobs: None,
        flag_no_headers: false,
        flag_delimiter: None,
        arg_input: Some("data.csv".to_string()),
        flag_memcheck: false,
    }
}

fn index() -> OffsetMap {
    let columns: Vec<String> =
        ["field", "type", "min", "max", "min_length", "max_length", "nullcount", "cardinality"]
            .iter()
            .map(|s| s.to_string())
            .collect();
    build_stats_index(&columns)
}

fn record(kind: &str, min: &str, max: &str, min_len: &str, max_len: &str, nulls: &str, card: &str) -> Vec<String> {
    [kind, min, max, min_len, max_len, nulls, card].iter().map(|s| s.to_string()).collect()
}

fn headers(names: &[&str]) -> Vec<Vec<u8>> {
    names.iter().map(|n| n.as_bytes().to_vec()).collect()
}

fn no_enums() -> EnumMap {
    AHashMap::new()
}

fn infer_schema(
    names: &[&str],
    stats: Vec<Vec<String>>,
    enums: &EnumMap,
    strict: bool,
) -> Result<InferredSchema, SchemaError> {
    infer_schema_from_stats(&options(strict), "data.csv", &headers(names), &stats, &index(), enums)
}

fn infer(names: &[&str], stats: Vec<Vec<String>>, enums: &EnumMap, strict: bool) -> Result<PropertyMap, SchemaError> {
    infer_schema(names, stats, enums, strict).map(|schema| schema.properties)
}

#[test]
fn string_column_gets_lengths_and_description() {
    let props = infer(&["name"], vec![record("String", "Ann", "Zoe", "3", "12", "0", "90")], &no_enums(), false)
        .unwrap();
    assert_eq!(props.len(), 1);
    let def = props.get("name").unwrap();
    assert_eq!(def.description, "name column from data.csv");
    assert_eq!(def.types, vec![JsonType::Text]);
    assert_eq!(def.min_length, Some(3));
    assert_eq!(def.max_length, Some(12));
    assert!(def.minimum.is_none());
    assert!(def.maximum.is_none());
    assert!(def.enum_values.is_empty());
    assert!(def.pattern.is_none());
    assert!(def.format.is_none());
}

#[test]
fn integer_column_gets_parsed_bounds() {
    let props = infer(&["age"], vec![record("Integer", "-7", "42", "1", "2", "0", "30")], &no_enums(), false)
        .unwrap();
    let def = props.get("age").unwrap();
    assert_eq!(def.types, vec![JsonType::Integer]);
    assert!(matches!(def.minimum, Some(Bound::Integer(-7))));
    assert!(matches!(def.maximum, Some(Bound::Integer(42))));
    assert_eq!(def.min_length, None);
    assert_eq!(def.max_length, None);
}

#[test]
fn float_column_keeps_bounds_as_written() {
    let props = infer(&["price"], vec![record("Float", "0.5", "99.25", "3", "5", "0", "70")], &no_enums(), false)
        .unwrap();
    let def = props.get("price").unwrap();
    assert_eq!(def.types, vec![JsonType::Number]);
    match &def.minimum {
        Some(Bound::Decimal(text)) => assert_eq!(text, "0.5"),
        other => panic!("unexpected minimum {:?}", other),
    }
    match &def.maximum {
        Some(Bound::Decimal(text)) => assert_eq!(text, "99.25"),
        other => panic!("unexpected maximum {:?}", other),
    }
}

#[test]
fn null_column_has_the_null_type_alone() {
    let props = infer(&["empty"], vec![record("NULL", "", "", "", "", "5", "0")], &no_enums(), false).unwrap();
    let def = props.get("empty").unwrap();
    assert_eq!(def.types, vec![JsonType::Null]);
    assert!(def.enum_values.is_empty());
}

#[test]
fn date_columns_are_bare_strings_unless_strict() {
    let stats = vec![
        record("Date", "2020-01-01", "2021-01-01", "10", "10", "0", "9"),
        record("DateTime", "2020-01-01T00:00:00Z", "2021-01-01T00:00:00Z", "20", "20", "0", "9"),
    ];
    let loose = infer(&["day", "stamp"], stats.clone(), &no_enums(), false).unwrap();
    assert_eq!(loose.get("day").unwrap().types, vec![JsonType::Text]);
    assert_eq!(loose.get("day").unwrap().format, None);
    assert_eq!(loose.get("day").unwrap().min_length, None);
    assert_eq!(loose.get("stamp").unwrap().format, None);
    let strict = infer(&["day", "stamp"], stats, &no_enums(), true).unwrap();
    assert_eq!(strict.get("day").unwrap().format, Some(DateFormat::Date));
    assert_eq!(strict.get("stamp").unwrap().format, Some(DateFormat::DateTime));
    assert_eq!(strict.get("stamp").unwrap().types, vec![JsonType::Text]);
}

#[test]
fn unknown_type_defaults_to_string() {
    let props = infer(&["odd"], vec![record("Boolean", "", "", "1", "5", "0", "2")], &no_enums(), false).unwrap();
    let def = props.get("odd").unwrap();
    assert_eq!(def.types, vec![JsonType::Text]);
    assert_eq!(def.min_length, None);
    assert_eq!(def.max_length, None);
}

#[test]
fn nulls_append_the_null_type_once() {
    let props = infer(&["name"], vec![record("String", "a", "b", "1", "1", "3", "2")], &no_enums(), false).unwrap();
    let mut def = props.get("name").unwrap().clone();
    assert_eq!(def.types, vec![JsonType::Text, JsonType::Null]);
    apply_null_rule(&mut def, 3);
    apply_null_rule(&mut def, 3);
    assert_eq!(def.types, vec![JsonType::Text, JsonType::Null]);
}

#[test]
fn nulls_append_the_null_sentinel_to_an_enum_list_once() {
    let mut enums = no_enums();
    enums.insert("color".to_string(), vec!["blue".to_string(), "red".to_string()]);
    let props = infer(&["color"], vec![record("String", "blue", "red", "3", "4", "1", "2")], &enums, false).unwrap();
    let mut def = props.get("color").unwrap().clone();
    assert_eq!(def.enum_values.len(), 3);
    assert!(matches!(&def.enum_values[0], EnumValue::Text(t) if t == "blue"));
    assert!(matches!(&def.enum_values[1], EnumValue::Text(t) if t == "red"));
    assert!(matches!(def.enum_values[2], EnumValue::Null));
    apply_null_rule(&mut def, 1);
    assert_eq!(def.enum_values.len(), 3);
}

#[test]
fn no_nulls_leave_type_and_enum_alone() {
    let mut enums = no_enums();
    enums.insert("color".to_string(), vec!["blue".to_string()]);
    let props = infer(&["color"], vec![record("String", "blue", "blue", "4", "4", "0", "1")], &enums, false).unwrap();
    let def = props.get("color").unwrap();
    assert_eq!(def.types, vec![JsonType::Text]);
    assert_eq!(def.enum_values.len(), 1);
}

#[test]
fn integer_enum_values_are_numbers() {
    let mut enums = no_enums();
    enums.insert("n".to_string(), vec!["-3".to_string(), "10".to_string(), "7".to_string()]);
    let props = infer(&["n"], vec![record("Integer", "-3", "10", "1", "2", "0", "3")], &enums, false).unwrap();
    let def = props.get("n").unwrap();
    assert_eq!(def.enum_values.len(), 3);
    assert!(matches!(def.enum_values[0], EnumValue::Integer(-3)));
    assert!(matches!(def.enum_values[1], EnumValue::Integer(10)));
    assert!(matches!(def.enum_values[2], EnumValue::Integer(7)));
}

#[test]
fn float_enum_values_are_kept_as_written() {
    let mut enums = no_enums();
    enums.insert("p".to_string(), vec!["0.5".to_string(), "1.5".to_string()]);
    let props = infer(&["p"], vec![record("Float", "0.5", "1.5", "3", "3", "0", "2")], &enums, false).unwrap();
    let def = props.get("p").unwrap();
    assert_eq!(def.enum_values.len(), 2);
    assert!(matches!(&def.enum_values[1], EnumValue::Decimal(t) if t == "1.5"));
}

#[test]
fn date_column_gets_no_enum_list() {
    let mut enums = no_enums();
    enums.insert("day".to_string(), vec!["2020-01-01".to_string()]);
    let props =
        infer(&["day"], vec![record("Date", "2020-01-01", "2020-01-01", "10", "10", "0", "1")], &enums, true).unwrap();
    assert!(props.get("day").unwrap().enum_values.is_empty());
}

#[test]
fn unparsable_integer_bound_is_a_profile_inconsistency() {
    let result = infer(
        &["ok", "bad"],
        vec![record("String", "a", "b", "1", "1", "0", "2"), record("Integer", "4x2", "9", "1", "3", "0", "5")],
        &no_enums(),
        false,
    );
    assert!(matches!(result, Err(SchemaError::ProfileInconsistency { column: 1 })));
}

#[test]
fn unparsable_integer_enum_value_is_a_profile_inconsistency() {
    let mut enums = no_enums();
    enums.insert("n".to_string(), vec!["1".to_string(), "one".to_string()]);
    let result = infer(&["n"], vec![record("Integer", "1", "2", "1", "1", "0", "2")], &enums, false);
    assert!(matches!(result, Err(SchemaError::ProfileInconsistency { column: 0 })));
}

#[test]
fn unparsable_length_is_a_profile_inconsistency() {
    let result = infer(&["name"], vec![record("String", "a", "b", "short", "1", "0", "2")], &no_enums(), false);
    assert!(matches!(result, Err(SchemaError::ProfileInconsistency { column: 0 })));
}

#[test]
fn missing_profile_is_a_profile_inconsistency() {
    let result = infer(&["a", "b"], vec![record("String", "a", "b", "1", "1", "0", "2")], &no_enums(), false);
    assert!(matches!(result, Err(SchemaError::ProfileInconsistency { column: 1 })));
}

#[test]
fn incomplete_index_is_a_profile_inconsistency() {
    let columns: Vec<String> = ["field", "type"].iter().map(|s| s.to_string()).collect();
    let short_index = build_stats_index(&columns);
    let result = infer_schema_from_stats(
        &options(false),
        "data.csv",
        &headers(&["a"]),
        &vec![record("String", "a", "b", "1", "1", "0", "2")],
        &short_index,
        &no_enums(),
    );
    assert!(matches!(result, Err(SchemaError::ProfileInconsistency { column: 0 })));
}

#[test]
fn header_that_is_no_text_is_an_encoding_error() {
    let fields = vec![b"ok".to_vec(), vec![0xff, 0xfe]];
    let stats = vec![record("String", "a", "b", "1", "1", "0", "2"), record("String", "a", "b", "1", "1", "0", "2")];
    let result = infer_schema_from_stats(&options(false), "data.csv", &fields, &stats, &index(), &no_enums());
    match result {
        Err(SchemaError::Encoding { bytes }) => assert_eq!(bytes, vec![0xff, 0xfe]),
        other => panic!("unexpected result {:?}", other),
    }
}

#[test]
fn unreadable_null_count_counts_as_zero() {
    let props = infer(&["name"], vec![record("String", "a", "b", "1", "1", "many", "2")], &no_enums(), false).unwrap();
    assert_eq!(props.get("name").unwrap().types, vec![JsonType::Text]);
}

#[test]
fn short_record_leaves_later_statistics_absent() {
    let stats = vec![vec!["String".to_string(), "a".to_string(), "b".to_string()]];
    let props = infer(&["name"], stats, &no_enums(), false).unwrap();
    let def = props.get("name").unwrap();
    assert_eq!(def.min_length, None);
    assert_eq!(def.max_length, None);
    assert_eq!(def.types, vec![JsonType::Text]);
}

#[test]
fn required_lists_every_column_in_header_order() {
    let stats = vec![
        record("String", "a", "b", "1", "1", "4", "2"),
        record("Integer", "1", "2", "1", "1", "0", "2"),
        record("NULL", "", "", "", "", "9", "0"),
    ];
    let schema = infer_schema(&["zeta", "alpha", "mid"], stats, &no_enums(), false).unwrap();
    assert_eq!(schema.columns, vec!["zeta", "alpha", "mid"]);
    assert_eq!(get_required_fields(&schema), vec!["zeta", "alpha", "mid"]);
}

#[test]
fn later_column_of_the_same_name_replaces_the_definition() {
    let stats = vec![record("String", "a", "b", "1", "1", "0", "2"), record("Integer", "1", "2", "1", "1", "0", "2")];
    let schema = infer_schema(&["twin", "twin"], stats, &no_enums(), false).unwrap();
    assert_eq!(schema.properties.len(), 1);
    assert_eq!(schema.properties.get("twin").unwrap().types, vec![JsonType::Integer]);
    assert_eq!(get_required_fields(&schema), vec!["twin", "twin"]);
    let document = assemble_schema("data.csv", schema, &AHashMap::new());
    assert_eq!(document.required, vec!["twin", "twin"]);
    assert_eq!(document.properties.len(), 1);
}

#[test]
fn inference_is_repeatable() {
    let stats = vec![record("String", "a", "b", "1", "1", "2", "2"), record("Integer", "1", "2", "1", "1", "0", "2")];
    let mut enums = no_enums();
    enums.insert("a".to_string(), vec!["x".to_string(), "y".to_string()]);
    let first = infer(&["a", "b"], stats.clone(), &enums, true).unwrap();
    let second = infer(&["a", "b"], stats, &enums, true).unwrap();
    assert_eq!(format!("{:?}", first), format!("{:?}", second));
}

#[test]
fn pattern_goes_to_string_fields_without_enum_only() {
    let mut enums = no_enums();
    enums.insert("color".to_string(), vec!["blue".to_string()]);
    let stats = vec![
        record("String", "a", "b", "1", "1", "0", "80"),
        record("String", "blue", "blue", "4", "4", "0", "1"),
        record("Integer", "1", "2", "1", "1", "0", "80"),
        record("Date", "2020-01-01", "2020-01-02", "10", "10", "0", "80"),
    ];
    let mut props = infer(&["code", "color", "n", "day"], stats, &enums, false).unwrap();
    assert!(should_emit_pattern_constraint(props.get("code").unwrap()));
    assert!(!should_emit_pattern_constraint(props.get("color").unwrap()));
    assert!(!should_emit_pattern_constraint(props.get("n").unwrap()));
    assert!(should_emit_pattern_constraint(props.get("day").unwrap()));
    let mut patterns: PatternMap = AHashMap::new();
    patterns.insert("code".to_string(), "^[a-z]$".to_string());
    patterns.insert("color".to_string(), "^blue$".to_string());
    patterns.insert("n".to_string(), "^\\d$".to_string());
    attach_patterns(&mut props, &patterns);
    assert_eq!(props.get("code").unwrap().pattern.as_deref(), Some("^[a-z]$"));
    assert_eq!(props.get("color").unwrap().pattern, None);
    assert_eq!(props.get("n").unwrap().pattern, None);
    assert_eq!(props.get("day").unwrap().pattern, None);
}

#[test]
fn document_has_fixed_dialect_title_and_required_list() {
    let stats = vec![record("String", "a", "b", "1", "1", "1", "80"), record("Integer", "1", "2", "1", "1", "0", "80")];
    let schema = infer_schema(&["code", "n"], stats, &no_enums(), false).unwrap();
    let mut patterns: PatternMap = AHashMap::new();
    patterns.insert("code".to_string(), "^x$".to_string());
    let document = assemble_schema("data.csv", schema, &patterns);
    assert_eq!(document.dialect, "https://json-schema.org/draft-07/schema");
    assert_eq!(document.title, "JSON Schema for data.csv");
    assert_eq!(document.description, "Inferred JSON Schema from QSV schema command");
    assert_eq!(document.required, vec!["code", "n"]);
    assert_eq!(document.properties.len(), 2);
    assert_eq!(document.properties.get("code").unwrap().pattern.as_deref(), Some("^x$"));
    assert_eq!(document.properties.get("code").unwrap().types, vec![JsonType::Text, JsonType::Null]);
}

#[test]
fn schema_file_stands_beside_the_input() {
    assert_eq!(schema_output_path("dir/mydata.csv"), "dir/mydata.csv.schema.json");
    assert_eq!(schema_output_path("stdin.csv"), "stdin.csv.schema.json");
}

#[test]
fn selection_resolves_ordinals() {
    assert_eq!(SelectColumns::all().selection(3).unwrap(), vec![0, 1, 2]);
    assert_eq!(SelectColumns { ordinals: vec![3, 1] }.selection(3).unwrap(), vec![2, 0]);
    assert!(matches!(
        SelectColumns { ordinals: vec![1, 4, 0] }.selection(3),
        Err(SchemaError::InvalidSelection { index: 4 })
    ));
    assert!(matches!(
        SelectColumns { ordinals: vec![0] }.selection(3),
        Err(SchemaError::InvalidSelection { index: 0 })
    ));
}

#[test]
fn selection_expression_is_a_list_of_ordinals() {
    assert_eq!(SelectColumns::parse("1,3").unwrap().ordinals, vec![1, 3]);
    assert_eq!(SelectColumns::parse("12").unwrap().ordinals, vec![12]);
    assert_eq!(SelectColumns::parse("3,1,3").unwrap().ordinals, vec![3, 1, 3]);
    assert!(SelectColumns::parse("").unwrap().ordinals.is_empty());
}

#[test]
fn selection_expression_with_an_item_that_is_no_ordinal_is_unreadable() {
    assert!(matches!(SelectColumns::parse("name"), Err(SchemaError::UnreadableSelection { position: 0 })));
    assert!(matches!(SelectColumns::parse("1,,3"), Err(SchemaError::UnreadableSelection { position: 1 })));
    assert!(matches!(SelectColumns::parse("1,2,"), Err(SchemaError::UnreadableSelection { position: 2 })));
    assert!(matches!(SelectColumns::parse(","), Err(SchemaError::UnreadableSelection { position: 0 })));
    assert!(matches!(SelectColumns::parse("1, 2"), Err(SchemaError::UnreadableSelection { position: 1 })));
    assert!(matches!(SelectColumns::parse("1,-2"), Err(SchemaError::UnreadableSelection { position: 1 })));
}

#[test]
fn required_has_one_entry_for_each_column_of_any_header() {
    let stats = vec![
        record("String", "a", "b", "1", "1", "4", "2"),
        record("Integer", "1", "2", "1", "1", "0", "2"),
        record("String", "a", "b", "1", "1", "0", "2"),
        record("NULL", "", "", "", "", "9", "0"),
    ];
    let schema = infer_schema(&["a", "b", "a", ""], stats, &no_enums(), false).unwrap();
    let document = assemble_schema("data.csv", schema, &AHashMap::new());
    assert_eq!(document.required, vec!["a", "b", "a", ""]);
    assert_eq!(document.properties.len(), 3);
    let none = infer_schema(&[], Vec::new(), &no_enums(), false).unwrap();
    assert!(assemble_schema("data.csv", none, &AHashMap::new()).required.is_empty());
}
