use ahash::AHashMap;
use csv_profiler::cache::build_stats_index;
use csv_profiler::maps::OffsetMap;
use csv_profiler::miner::{
    build_low_cardinality_column_selector_arg, cardinality_of, construct_map_of_unique_values, frequency_request,
    no_unique_values, selector_arg, sorted_values, FrequencyMode,
};
use csv_profiler::schema::{Args, SchemaError, SelectColumns};
use stats::Frequencies;

fn mining_options(threshold: usize, input: Option<&str>) -> Args {
    Args {
        flag_enum_threshold: threshold,
        flag_ignore_case: true,
        flag_strict_dates: false,
        flag_pattern_columns: SelectColumns { ordinals: Vec::new() },
        flag_dates_whitelist: "date".to_string(),
        flag_prefer_dmy: false,
        flag_force: false,
        flag_stdout: false,
        flag_jobs: Some(3),
        flag_no_headers: true,
        flag_delimiter: Some(b';'),
        arg_input: input.map(|s| s.to_string()),
        flag_memcheck: false,
    }
}

fn cardinality_index() -> OffsetMap {
    let columns: Vec<String> = ["field", "type", "cardinality"].iter().map(|s| s.to_string()).collect();
    build_stats_index(&columns)
}

fn profile(cardinality: &str) -> Vec<String> {
    vec!["String".to_string(), cardinality.to_string()]
}

fn table(values: &[&[u8]]) -> Frequencies<Vec<u8>> {
    let mut t = Frequencies::new();
    for v in values {
        t.add(v.to_vec());
    }
    t
}

#[test]
fn selector_names_low_cardinality_columns_by_ordinal() {
    let fields: Vec<Vec<u8>> = vec![b"a".to_vec(), b"b".to_vec(), b"c".to_vec(), b"d".to_vec()];
    let stats = vec![profile("3"), profile("51"), profile("50"), profile("0")];
    let mut ordinals = vec![99];
    let arg = build_low_cardinality_column_selector_arg(&mut ordinals, 50, &fields, &stats, &cardinality_index());
    assert_eq!(ordinals, vec![1, 3]);
    assert_eq!(arg, "1,3");
}

#[test]
fn cardinality_at_the_threshold_is_in_and_one_above_is_out() {
    let fields: Vec<Vec<u8>> = vec![b"at".to_vec(), b"above".to_vec()];
    let stats = vec![profile("7"), profile("8")];
    let mut ordinals = Vec::new();
    let arg = build_low_cardinality_column_selector_arg(&mut ordinals, 7, &fields, &stats, &cardinality_index());
    assert_eq!(ordinals, vec![1]);
    assert_eq!(arg, "1");
}

#[test]
fn enum_list_of_a_column_at_the_threshold_has_threshold_values() {
    let t = table(&[b"a", b"b", b"c", b"a", b"c"]);
    assert_eq!(t.cardinality(), 3);
    let values = sorted_values(&t).unwrap();
    assert_eq!(values.len(), 3);
}

#[test]
fn zero_or_unknown_cardinality_is_left_out() {
    let fields: Vec<Vec<u8>> = vec![b"a".to_vec(), b"b".to_vec(), b"c".to_vec()];
    let stats = vec![profile("0"), profile("n/a")];
    let mut ordinals = Vec::new();
    let arg = build_low_cardinality_column_selector_arg(&mut ordinals, 50, &fields, &stats, &cardinality_index());
    assert!(ordinals.is_empty());
    assert_eq!(arg, "");
}

#[test]
fn selector_writes_large_ordinals_in_decimal() {
    assert_eq!(selector_arg(&vec![1, 10, 123, 4567]), "1,10,123,4567");
    assert_eq!(selector_arg(&vec![12]), "12");
    assert_eq!(selector_arg(&Vec::new()), "");
}

#[test]
fn cardinality_is_read_from_the_profile_record() {
    assert_eq!(cardinality_of(&profile("17"), &cardinality_index()), 17);
    assert_eq!(cardinality_of(&profile("+17"), &cardinality_index()), 17);
    assert_eq!(cardinality_of(&profile("-1"), &cardinality_index()), 0);
    assert_eq!(cardinality_of(&profile(""), &cardinality_index()), 0);
    assert_eq!(cardinality_of(&vec!["String".to_string()], &cardinality_index()), 0);
    let empty: OffsetMap = AHashMap::new();
    assert_eq!(cardinality_of(&profile("17"), &empty), 0);
}

#[test]
fn values_come_out_sorted_and_distinct() {
    let t = table(&[b"pear", b"apple", b"pear", b"fig", b"Zebra", b"apple", b"pear"]);
    assert_eq!(sorted_values(&t).unwrap(), vec!["Zebra", "apple", "fig", "pear"]);
}

#[test]
fn values_are_ordered_by_their_bytes() {
    let t = table(&["é".as_bytes(), b"z", b"a", b"ab", b""]);
    assert_eq!(sorted_values(&t).unwrap(), vec!["", "a", "ab", "z", "é"]);
}

#[test]
fn value_that_is_no_text_is_reported() {
    let t = table(&[b"ok", &[0xc3, 0x28]]);
    assert_eq!(sorted_values(&t), Err(vec![0xc3, 0x28]));
}

#[test]
fn map_binds_each_header_to_its_values() {
    let headers: Vec<Vec<u8>> = vec![b"color".to_vec(), b"size".to_vec()];
    let tables = vec![table(&[b"red", b"blue", b"red"]), table(&[b"L", b"S", b"M"])];
    let map = construct_map_of_unique_values(&headers, &tables).unwrap();
    assert_eq!(map.len(), 2);
    assert_eq!(map["color"], vec!["blue", "red"]);
    assert_eq!(map["size"], vec!["L", "M", "S"]);
}

#[test]
fn later_header_of_the_same_name_wins() {
    let headers: Vec<Vec<u8>> = vec![b"x".to_vec(), b"x".to_vec()];
    let tables = vec![table(&[b"1"]), table(&[b"2", b"3"])];
    let map = construct_map_of_unique_values(&headers, &tables).unwrap();
    assert_eq!(map.len(), 1);
    assert_eq!(map["x"], vec!["2", "3"]);
}

#[test]
fn map_fails_on_a_header_that_is_no_text() {
    let headers: Vec<Vec<u8>> = vec![b"ok".to_vec(), vec![0xff]];
    let tables = vec![table(&[b"1"]), table(&[b"2"])];
    match construct_map_of_unique_values(&headers, &tables) {
        Err(SchemaError::Encoding { bytes }) => assert_eq!(bytes, vec![0xff]),
        other => panic!("unexpected result {:?}", other.map(|m| m.len())),
    }
}

#[test]
fn map_fails_on_a_value_that_is_no_text() {
    let headers: Vec<Vec<u8>> = vec![b"ok".to_vec()];
    let tables = vec![table(&[b"fine", &[0x80]])];
    match construct_map_of_unique_values(&headers, &tables) {
        Err(SchemaError::Encoding { bytes }) => assert_eq!(bytes, vec![0x80]),
        other => panic!("unexpected result {:?}", other.map(|m| m.len())),
    }
}

#[test]
fn map_fails_on_a_header_without_a_table() {
    let headers: Vec<Vec<u8>> = vec![b"a".to_vec(), b"b".to_vec()];
    let tables = vec![table(&[b"1"])];
    assert!(matches!(
        construct_map_of_unique_values(&headers, &tables),
        Err(SchemaError::ProfileInconsistency { column: 1 })
    ));
}

#[test]
fn no_headers_give_an_empty_map() {
    let map = construct_map_of_unique_values(&Vec::new(), &Vec::new()).unwrap();
    assert!(map.is_empty());
    assert!(no_unique_values().is_empty());
}

#[test]
fn empty_selection_plans_no_frequency_run() {
    assert!(frequency_request(&mining_options(50, Some("in.csv")), "", 8, true).is_none());
}

#[test]
fn frequency_run_takes_the_options_of_the_schema_run() {
    let request = frequency_request(&mining_options(25, Some("in.csv")), "1,3", 8, true).unwrap();
    assert_eq!(request.input.as_deref(), Some("in.csv"));
    assert_eq!(request.select, "1,3");
    assert_eq!(request.limit, 25);
    assert!(request.ignore_case);
    assert!(request.no_nulls);
    assert_eq!(request.jobs, 3);
    assert!(request.no_headers);
    assert_eq!(request.delimiter, Some(b';'));
    assert!(!request.memcheck);
    assert_eq!(request.mode, FrequencyMode::Parallel);
    let sequential = frequency_request(&mining_options(25, None), "2", 2, false).unwrap();
    assert_eq!(sequential.mode, FrequencyMode::Sequential);
    assert_eq!(sequential.jobs, 2);
    assert_eq!(sequential.input, None);
}

#[test]
fn selector_reads_back_as_the_ordinals_it_was_written_from() {
    for ordinals in [vec![1usize, 10, 123, 4567], vec![7], vec![usize::MAX, 1], Vec::new()] {
        let written = selector_arg(&ordinals);
        assert_eq!(SelectColumns::parse(&written).unwrap().ordinals, ordinals);
    }
}
