use retcher::Browser;
use retcher::HeaderEntry;
use retcher::generate_headers;
use retcher::merge;
use retcher::names_equal;

fn entry(name: &str, value: &str) -> HeaderEntry {
    HeaderEntry { name: name.to_string(), value: value.to_string() }
}

#[test]
fn override_replaces_value_in_place() {
    let base = generate_headers(&"127.0.0.1".to_string(), Browser::Chrome, false);
    let base_names: Vec<String> = base.iter().map(|e| e.name.clone()).collect();
    let overrides = vec![entry("User-Agent", "Custom-User-Agent!")];

    let merged = merge(base, &overrides);

    // no new header appeared, and every position kept its name
    assert_eq!(merged.len(), base_names.len());
    for (have, name) in merged.iter().zip(base_names.iter()) {
        assert_eq!(have.name, *name);
    }
    assert_eq!(merged[3].name, "User-Agent");
    assert_eq!(merged[3].value, "Custom-User-Agent!");
}

#[test]
fn unknown_header_is_appended_at_the_end() {
    let base = generate_headers(&"127.0.0.1".to_string(), Browser::Chrome, false);
    let base_len = base.len();
    let overrides = vec![entry("random-header", "random-header-value")];

    let merged = merge(base, &overrides);

    assert_eq!(merged.len(), base_len + 1);
    assert_eq!(merged[base_len].name, "random-header");
    assert_eq!(merged[base_len].value, "random-header-value");
}

#[test]
fn override_matches_names_case_insensitively() {
    let base = vec![entry("User-Agent", "stock"), entry("Accept", "*/*")];
    let overrides = vec![entry("USER-AGENT", "replaced")];

    let merged = merge(base, &overrides);

    assert_eq!(merged.len(), 2);
    // the base entry keeps its position and its name; only the value changes
    assert_eq!(merged[0].name, "User-Agent");
    assert_eq!(merged[0].value, "replaced");
    assert_eq!(merged[1].name, "Accept");
    assert_eq!(merged[1].value, "*/*");
}

#[test]
fn merge_twice_equals_merge_once() {
    let base = generate_headers(&"127.0.0.1".to_string(), Browser::Chrome, false);
    let overrides = vec![
        entry("User-Agent", "Custom-User-Agent!"),
        entry("Accept-Language", "cs-CZ"),
        entry("random-header", "random-header-value"),
    ];

    let once = merge(base, &overrides);
    let twice = merge(once.clone(), &overrides);

    assert_eq!(once, twice);
}

#[test]
fn merged_overrides_keep_base_order() {
    let base = generate_headers(&"127.0.0.1".to_string(), Browser::Chrome, false);
    let overrides = vec![
        entry("User-Agent", "Custom-User-Agent!"),
        entry("Accept-Language", "cs-CZ"),
        entry("random-header", "random-header-value"),
    ];

    let merged = merge(base, &overrides);

    let expected = vec![
        ("Host", "127.0.0.1"),
        ("Connection", "keep-alive"),
        ("Upgrade-Insecure-Requests", "1"),
        ("User-Agent", "Custom-User-Agent!"),
        ("Accept", "text/html,application/xhtml+xml,application/xml;q=0.9,image/avif,image/webp,image/apng,*/*;q=0.8,application/signed-exchange;v=b3;q=0.7"),
        ("Accept-Encoding", "gzip, deflate"),
        ("Accept-Language", "cs-CZ"),
        ("random-header", "random-header-value"),
    ];

    assert_eq!(merged.len(), expected.len());
    for (have, (name, value)) in merged.iter().zip(expected.iter()) {
        assert_eq!(have.name, *name);
        assert_eq!(have.value, *value);
    }
}

#[test]
fn header_name_equivalence() {
    assert!(names_equal("accept", "ACCEPT"));
    assert!(names_equal("User-Agent", "user-agent"));
    assert!(names_equal("", ""));
    assert!(!names_equal("accept", "accept-language"));
    assert!(!names_equal("host", "host "));
}
