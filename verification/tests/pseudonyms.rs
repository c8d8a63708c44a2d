use csv_profiler::properties::PropertyMap;
use csv_profiler::pseudo::{holds_placeholder, PseudoError, Pseudonymizer};

#[test]
fn values_keep_their_identifier() {
    let mut p = Pseudonymizer::new(1000, 5, "ID-{}").unwrap();
    let names = ["Mary", "John", "Mary", "Sue", "John", "Mary"];
    let given: Vec<String> = names.iter().map(|n| p.assign(n).unwrap()).collect();
    assert_eq!(given, vec!["ID-1000", "ID-1005", "ID-1000", "ID-1010", "ID-1005", "ID-1000"]);
    assert_eq!(p.next, 1015);
}

#[test]
fn plain_format_gives_the_number_alone() {
    let mut p = Pseudonymizer::new(0, 1, "{}").unwrap();
    assert_eq!(p.assign("a").unwrap(), "0");
    assert_eq!(p.assign("b").unwrap(), "1");
    assert_eq!(p.assign("a").unwrap(), "0");
    assert_eq!(p.next, 2);
}

#[test]
fn format_without_placeholder_is_rejected() {
    assert!(matches!(Pseudonymizer::new(0, 1, "ID"), Err(PseudoError::InvalidFormat)));
    assert!(matches!(Pseudonymizer::new(0, 1, ""), Err(PseudoError::InvalidFormat)));
    assert!(matches!(Pseudonymizer::new(0, 1, "{ }"), Err(PseudoError::InvalidFormat)));
    assert!(matches!(Pseudonymizer::new(0, 1, "{}-{}"), Err(PseudoError::InvalidFormat)));
}

#[test]
fn placeholder_is_found_anywhere() {
    assert!(holds_placeholder("{}"));
    assert!(holds_placeholder("a{}"));
    assert!(holds_placeholder("{}a"));
    assert!(holds_placeholder("é{}é"));
    assert!(!holds_placeholder("{"));
    assert!(!holds_placeholder("}{"));
    assert!(!holds_placeholder(""));
}

#[test]
fn counter_overflow_is_reported_with_the_last_number() {
    let mut p = Pseudonymizer::new(u64::MAX - 1, 2, "{}").unwrap();
    assert_eq!(p.assign("first"), Err(PseudoError::Overflow { last_valid: u64::MAX - 1 }));
    assert_eq!(p.assign("first").unwrap(), "18446744073709551614");
    let mut q = Pseudonymizer::new(u64::MAX - 1, 1, "{}").unwrap();
    assert_eq!(q.assign("first").unwrap(), "18446744073709551614");
    assert_eq!(q.assign("second"), Err(PseudoError::Overflow { last_valid: u64::MAX }));
}

#[test]
fn fresh_property_map_is_empty() {
    let map = PropertyMap::new();
    assert_eq!(map.len(), 0);
    assert!(map.get("x").is_none());
    assert_eq!(map.position("x"), None);
}
