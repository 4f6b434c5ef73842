use acro::Entry;
use acro::matching::find_exact_match;
use acro::matching::find_matching_entries;
use acro::matching::find_partial_match;

fn get_test_entry_vec() -> Vec<Entry> {
    Vec::from([
        Entry {
            acronym: String::from("NATO"),
            definition: String::from("N A T O"),
        },
        Entry {
            acronym: String::from("USA"),
            definition: String::from("U S A"),
        },
    ])
}

#[test]
fn test_find_exact_match_found() {
    let result = find_exact_match(&get_test_entry_vec(), "NATO");
    assert_eq!(result.len(), 1);
}

#[test]
fn test_find_exact_match_nothing() {
    let result = find_exact_match(&get_test_entry_vec(), "NAT");
    assert_eq!(result.len(), 0);
}

#[test]
fn test_find_partial_match_nothing() {
    let result = find_partial_match(&get_test_entry_vec(), "NATA");
    assert_eq!(result.len(), 0);
}

#[test]
fn test_find_partial_match_two_results() {
    let result = find_partial_match(&get_test_entry_vec(), "A");
    assert_eq!(result.len(), 2);
}

#[test]
fn test_find_matching_entries_two_results() {
    let result = find_matching_entries(&get_test_entry_vec(), "A");
    assert_eq!(result.len(), 2);
}

#[test]
fn test_find_matching_entries_one_result() {
    let result = find_matching_entries(&get_test_entry_vec(), "NATO");
    assert_eq!(result.len(), 1);
}

#[test]
fn test_find_matching_entries_no_results() {
    let result = find_matching_entries(&get_test_entry_vec(), "NATA");
    assert_eq!(result.len(), 0);
}

#[test]
fn matching_is_case_insensitive_both_ways() {
    let entries = vec![Entry {
        acronym: String::from("nato"),
        definition: String::from("lower-case source"),
    }];
    let result = find_matching_entries(&entries, "NATO");
    assert_eq!(result.len(), 1);
    assert_eq!(result[0].acronym, "nato");
    let mixed = find_matching_entries(&entries, "NAto");
    assert_eq!(mixed.len(), 1);
}

#[test]
fn partial_fallback_returns_substring_match() {
    let result = find_matching_entries(&get_test_entry_vec(), "NAT");
    assert_eq!(result.len(), 1);
    assert_eq!(result[0].acronym, "NATO");
    assert_eq!(result[0].definition, "N A T O");
}

#[test]
fn partial_fallback_preserves_order() {
    let result = find_matching_entries(&get_test_entry_vec(), "A");
    assert_eq!(result.len(), 2);
    assert_eq!(result[0].acronym, "NATO");
    assert_eq!(result[1].acronym, "USA");
}

#[test]
fn exact_match_excludes_partial_matches() {
    let entries = vec![
        Entry {
            acronym: String::from("NATO"),
            definition: String::from("first"),
        },
        Entry {
            acronym: String::from("NATOX"),
            definition: String::from("longer acronym that only contains the query"),
        },
        Entry {
            acronym: String::from("nato"),
            definition: String::from("second exact, other case"),
        },
    ];
    let result = find_matching_entries(&entries, "NATO");
    assert_eq!(result.len(), 2);
    assert_eq!(result[0].definition, "first");
    assert_eq!(result[1].definition, "second exact, other case");
}

#[test]
fn duplicate_acronyms_match_once_each() {
    let entries = vec![
        Entry {
            acronym: String::from("USA"),
            definition: String::from("United States of America"),
        },
        Entry {
            acronym: String::from("USA"),
            definition: String::from("United Space Alliance"),
        },
    ];
    let result = find_matching_entries(&entries, "usa");
    assert_eq!(result.len(), 2);
    assert_eq!(result[0].definition, "United States of America");
    assert_eq!(result[1].definition, "United Space Alliance");
}

#[test]
fn empty_query_partially_matches_everything() {
    let entries = get_test_entry_vec();
    let result = find_matching_entries(&entries, "");
    assert_eq!(result.len(), 2);
}

#[test]
fn substring_search_agrees_with_contains() {
    let hay = acro::text::chars_of("NATO");
    assert!(acro::text::contains_chars(&hay, &acro::text::chars_of("AT")));
    assert!(acro::text::contains_chars(&hay, &acro::text::chars_of("")));
    assert!(acro::text::contains_chars(&hay, &acro::text::chars_of("NATO")));
    assert!(!acro::text::contains_chars(&hay, &acro::text::chars_of("NATA")));
    assert!(!acro::text::contains_chars(&hay, &acro::text::chars_of("NATOX")));
}
