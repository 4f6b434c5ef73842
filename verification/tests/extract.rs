use acro::entry::extract_entries;

fn record(fields: &[&str]) -> Vec<String> {
    fields.iter().map(|f| String::from(*f)).collect()
}

#[test]
fn extracts_both_columns_in_order() {
    let records = vec![
        record(&["NATO", "North Atlantic Treaty Organization"]),
        record(&["USA", "United States of America"]),
    ];
    let entries = extract_entries(&records, 0, 1);
    assert_eq!(entries.len(), 2);
    assert_eq!(entries[0].acronym, "NATO");
    assert_eq!(entries[0].definition, "North Atlantic Treaty Organization");
    assert_eq!(entries[1].acronym, "USA");
    assert_eq!(entries[1].definition, "United States of America");
}

#[test]
fn short_records_are_dropped_without_gaps() {
    let records = vec![
        record(&["NATO", "first"]),
        record(&["only-one-field"]),
        record(&[]),
        record(&["USA", "second"]),
    ];
    let entries = extract_entries(&records, 0, 1);
    assert_eq!(entries.len(), 2);
    assert_eq!(entries[0].acronym, "NATO");
    assert_eq!(entries[1].acronym, "USA");
}

#[test]
fn a_record_needs_both_columns() {
    let records = vec![record(&["acronym-without-definition"])];
    assert_eq!(extract_entries(&records, 0, 1).len(), 0);
    assert_eq!(extract_entries(&records, 0, 0).len(), 1);
}

#[test]
fn columns_may_point_anywhere() {
    let records = vec![record(&["a", "b", "c"]), record(&["d", "e"])];
    let entries = extract_entries(&records, 2, 0);
    assert_eq!(entries.len(), 1);
    assert_eq!(entries[0].acronym, "c");
    assert_eq!(entries[0].definition, "a");
}
