use csv_profiler::field::{EnumValue, FieldDefinition, JsonType};
use csv_profiler::pattern::{
    collect_distinct_values, generate_string_patterns, is_guarded, patterns_of, record_pattern,
};
use csv_profiler::properties::PropertyMap;
use csv_profiler::schema::SchemaError;
use csv_profiler::text::convert_to_string;

fn field(token: JsonType, enum_values: Vec<EnumValue>) -> FieldDefinition {
    FieldDefinition {
        description: String::new(),
        types: vec![token],
        min_length: None,
        max_length: None,
        minimum: None,
        maximum: None,
        enum_values,
        pattern: None,
        format: None,
    }
}

fn properties() -> PropertyMap {
    let mut map = PropertyMap::new();
    map.insert("code".to_string(), field(JsonType::Text, Vec::new()));
    map.insert("color".to_string(), field(JsonType::Text, vec![EnumValue::Text("red".to_string())]));
    map.insert("n".to_string(), field(JsonType::Integer, Vec::new()));
    map.insert("note".to_string(), field(JsonType::Text, Vec::new()));
    map
}

fn headers() -> Vec<Vec<u8>> {
    ["code", "color", "n", "note"].iter().map(|h| h.as_bytes().to_vec()).collect()
}

fn row(cells: &[&str]) -> Vec<Vec<u8>> {
    cells.iter().map(|c| c.as_bytes().to_vec()).collect()
}

fn rows() -> Vec<Vec<Vec<u8>>> {
    vec![row(&["aaa", "red", "1", "x"]), row(&["aaa", "red", "2", "y"]), row(&["aaa", "red", "3", "x"])]
}

#[test]
fn no_selected_column_gives_no_pattern() {
    let patterns = generate_string_patterns(&Vec::new(), &headers(), &rows(), &properties()).unwrap();
    assert!(patterns.is_empty());
}

#[test]
fn every_column_selected_gives_no_pattern() {
    let patterns = generate_string_patterns(&vec![0, 1, 2, 3], &headers(), &rows(), &properties()).unwrap();
    assert!(patterns.is_empty());
}

#[test]
fn guard_comes_before_any_scan() {
    let bad_rows = vec![vec![vec![0xff], vec![0xff], vec![0xff], vec![0xff]]];
    let patterns = generate_string_patterns(&vec![3, 1, 0, 2, 1], &headers(), &bad_rows, &properties()).unwrap();
    assert!(patterns.is_empty());
}

#[test]
fn column_named_several_times_is_still_a_strict_subset() {
    let patterns = generate_string_patterns(&vec![0, 0, 0, 0], &headers(), &rows(), &properties()).unwrap();
    assert_eq!(patterns.len(), 1);
    assert!(patterns.contains_key("code"));
}

#[test]
fn guard_looks_at_the_columns_named_not_at_their_number() {
    assert!(is_guarded(&Vec::new(), 4));
    assert!(is_guarded(&Vec::new(), 0));
    assert!(is_guarded(&vec![0, 1, 2, 3], 4));
    assert!(is_guarded(&vec![3, 3, 2, 1, 0], 4));
    assert!(!is_guarded(&vec![0, 1, 2], 4));
    assert!(!is_guarded(&vec![0, 0, 1, 1], 4));
    assert!(!is_guarded(&vec![0, 1, 2, 2, 2], 4));
}

#[test]
fn selected_string_column_gets_a_pattern() {
    let patterns = generate_string_patterns(&vec![0], &headers(), &rows(), &properties()).unwrap();
    assert_eq!(patterns.len(), 1);
    assert_eq!(patterns["code"], "^a{3}$");
}

#[test]
fn columns_with_enum_or_other_type_get_no_pattern() {
    let patterns = generate_string_patterns(&vec![1, 2, 3], &headers(), &rows(), &properties()).unwrap();
    assert_eq!(patterns.len(), 1);
    assert!(patterns.contains_key("note"));
    assert!(patterns["note"] == "^[xy]$" || patterns["note"] == "^(?:x|y)$");
}

#[test]
fn no_rows_give_no_pattern() {
    let patterns = generate_string_patterns(&vec![0], &headers(), &Vec::new(), &properties()).unwrap();
    assert!(patterns.is_empty());
}

#[test]
fn column_without_definition_is_passed_over() {
    let mut wide = headers();
    wide.push(b"extra".to_vec());
    let data = vec![row(&["aaa", "red", "1", "x", "zzz"])];
    let patterns = generate_string_patterns(&vec![0, 4], &wide, &data, &properties()).unwrap();
    assert_eq!(patterns.len(), 1);
    assert!(patterns.contains_key("code"));
}

#[test]
fn cell_that_a_row_lacks_is_passed_over() {
    let data = vec![row(&["only"]), row(&["aaa", "red", "1", "x"])];
    let seen = collect_distinct_values(&vec![3, 0], &headers(), &data, &properties()).unwrap();
    assert_eq!(seen.len(), 2);
    assert_eq!(seen["code"].len(), 2);
    assert!(seen["code"].contains("only"));
    assert!(seen["code"].contains("aaa"));
    assert_eq!(seen["note"].len(), 1);
    assert!(seen["note"].contains("x"));
}

#[test]
fn distinct_values_are_collected_once_each() {
    let seen = collect_distinct_values(&vec![0, 3], &headers(), &rows(), &properties()).unwrap();
    assert_eq!(seen.len(), 2);
    assert_eq!(seen["code"].len(), 1);
    assert_eq!(seen["note"].len(), 2);
    let patterns = patterns_of(&seen);
    assert_eq!(patterns.len(), 2);
    assert_eq!(patterns["code"], "^a{3}$");
}

#[test]
fn selection_beyond_the_input_is_invalid() {
    let result = generate_string_patterns(&vec![9], &headers(), &rows(), &properties());
    assert!(matches!(result, Err(SchemaError::InvalidSelection { index: 9 })));
}

#[test]
fn value_that_is_no_text_ends_the_scan() {
    let mut data = rows();
    data[1][0] = vec![0xf0, 0x28];
    match generate_string_patterns(&vec![0], &headers(), &data, &properties()) {
        Err(SchemaError::Encoding { bytes }) => assert_eq!(bytes, vec![0xf0, 0x28]),
        other => panic!("unexpected result {:?}", other.map(|m| m.len())),
    }
}

#[test]
fn value_of_an_ineligible_column_is_not_read() {
    let mut data = rows();
    data[1][2] = vec![0xff];
    let patterns = generate_string_patterns(&vec![2, 0], &headers(), &data, &properties()).unwrap();
    assert_eq!(patterns.len(), 1);
}

#[test]
fn header_that_is_no_text_ends_the_scan() {
    let mut bad = headers();
    bad[0] = vec![0xc0];
    match generate_string_patterns(&vec![0], &bad, &rows(), &properties()) {
        Err(SchemaError::Encoding { bytes }) => assert_eq!(bytes, vec![0xc0]),
        other => panic!("unexpected result {:?}", other.map(|m| m.len())),
    }
}

#[test]
fn recorded_pattern_replaces_an_earlier_one() {
    let mut patterns = generate_string_patterns(&Vec::new(), &headers(), &rows(), &properties()).unwrap();
    record_pattern(&mut patterns, "code".to_string(), "^a$".to_string());
    record_pattern(&mut patterns, "code".to_string(), "^b$".to_string());
    assert_eq!(patterns.len(), 1);
    assert_eq!(patterns["code"], "^b$");
}

#[test]
fn bytes_become_text_or_an_error_with_the_bytes() {
    assert_eq!(convert_to_string("héllo".as_bytes()).unwrap(), "héllo");
    assert_eq!(convert_to_string(b"").unwrap(), "");
    let error = convert_to_string(&[0x68, 0xff, 0x69]).unwrap_err();
    assert_eq!(error.bytes, vec![0x68, 0xff, 0x69]);
    assert!(convert_to_string(&[0xed, 0xa0, 0x80]).is_err());
}

#[test]
fn selection_beyond_the_input_is_invalid_on_every_path() {
    let one: Vec<Vec<u8>> = vec![b"code".to_vec()];
    let guarded = generate_string_patterns(&vec![7], &one, &rows(), &properties());
    assert!(matches!(guarded, Err(SchemaError::InvalidSelection { index: 7 })));
    let without_rows = generate_string_patterns(&vec![0, 4], &headers(), &Vec::new(), &properties());
    assert!(matches!(without_rows, Err(SchemaError::InvalidSelection { index: 4 })));
    let ineligible_first = generate_string_patterns(&vec![2, 5, 9], &headers(), &rows(), &properties());
    assert!(matches!(ineligible_first, Err(SchemaError::InvalidSelection { index: 5 })));
    let all_but_wrong = generate_string_patterns(&vec![0, 1, 2, 4], &headers(), &rows(), &properties());
    assert!(matches!(all_but_wrong, Err(SchemaError::InvalidSelection { index: 4 })));
}
