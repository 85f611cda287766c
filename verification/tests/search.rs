use serie::search::{SearchOptions, SearchTarget};

#[test]
fn test_search_target_next_cycles_through_all_targets() {
    let mut target = SearchTarget::All;
    let expected = [
        SearchTarget::Subject,
        SearchTarget::Author,
        SearchTarget::Ref,
        SearchTarget::Hash,
        SearchTarget::All,
    ];

    for expected_target in expected {
        target = target.next();
        assert_eq!(target, expected_target);
    }
}

#[test]
fn test_search_options_status_string() {
    let options = SearchOptions {
        target: SearchTarget::Author,
        ignore_case: true,
        fuzzy: true,
    };

    assert_eq!(options.status_string(), "[author] [ignore-case] [fuzzy]");
}

#[test]
fn search_options_status_string_defaults() {
    let options = SearchOptions::default();
    assert_eq!(options.status_string(), "[all] [case-sensitive] [substring]");
}
