use same_alerter::dataset::load_locations;
use same_alerter::location::{resolve_location, search_by_code, LocationTable};

fn v(s: &str) -> Vec<u8> {
    s.as_bytes().to_vec()
}

fn sample_table() -> LocationTable {
    let data = v("048081,Exampleton,ExampleState\n048013,Aransas,Texas\n");
    load_locations(&data).expect("sample dataset parses")
}

#[test]
fn code_present_resolves_to_county_and_state() {
    let table = sample_table();
    let loc = resolve_location(&table, &v("048081")).expect("code is in the table");
    assert_eq!(loc.county, v("Exampleton"));
    assert_eq!(loc.state, v("ExampleState"));
    assert_eq!(loc.direction, v(""));
}

#[test]
fn every_subdivision_digit_resolves_alike() {
    let table = sample_table();
    let directions = [
        "", "Northwest ", "North ", "Northeast ", "West ", "Central ", "East ", "Southwest ",
        "South ", "Southeast ",
    ];
    for (digit, expected_dir) in directions.iter().enumerate() {
        let code = format!("{}48081", digit);
        let loc = resolve_location(&table, &v(&code)).expect("subdivision digit must not matter");
        assert_eq!(loc.county, v("Exampleton"));
        assert_eq!(loc.state, v("ExampleState"));
        assert_eq!(loc.direction, v(expected_dir));
    }
}

#[test]
fn non_digit_subdivision_gets_empty_direction() {
    let table = sample_table();
    let loc = resolve_location(&table, &v("X48081")).expect("normalization maps X to 0");
    assert_eq!(loc.direction, v(""));
    assert_eq!(loc.county, v("Exampleton"));
}

#[test]
fn absent_code_is_not_found() {
    let table = sample_table();
    assert!(resolve_location(&table, &v("099999")).is_none());
    assert!(resolve_location(&table, &v("148999")).is_none());
    assert!(resolve_location(&table, &v("")).is_none());
}

#[test]
fn search_by_code_finds_exact_key() {
    let table = sample_table();
    let entry = search_by_code(&table, &v("048013")).expect("exact key present");
    assert_eq!(entry.county, v("Aransas"));
    assert_eq!(entry.state, v("Texas"));
    assert!(search_by_code(&table, &v("48013")).is_none());
}

#[test]
fn dataset_with_crlf_and_blank_lines_parses() {
    let data = v("048081,Exampleton,ExampleState\r\n\r\n048013,Aransas,Texas\r\n");
    let table = load_locations(&data).expect("CRLF dataset parses");
    assert_eq!(table.entries.len(), 2);
    assert!(search_by_code(&table, &v("048081")).is_some());
}

#[test]
fn dataset_without_trailing_newline_parses() {
    let data = v("048081,Exampleton,ExampleState");
    let table = load_locations(&data).expect("final unterminated record parses");
    assert_eq!(table.entries.len(), 1);
}

#[test]
fn empty_dataset_gives_empty_table() {
    let table = load_locations(&v("")).expect("empty dataset is fine");
    assert_eq!(table.entries.len(), 0);
}

#[test]
fn record_with_too_few_fields_is_fatal() {
    let data = v("048081,Exampleton,ExampleState\n048013,Aransas\n");
    let err = load_locations(&data).expect_err("two fields are malformed");
    assert_eq!(err.line_start, 31);
}

#[test]
fn record_with_too_many_fields_is_fatal() {
    let data = v("048081,Exampleton,ExampleState,Extra\n");
    assert!(load_locations(&data).is_err());
}
