use retcher::Browser;
use retcher::generate_headers;

fn pairs(entries: &Vec<retcher::HeaderEntry>) -> Vec<(String, String)> {
    entries.iter().map(|e| (e.name.clone(), e.value.clone())).collect()
}

#[test]
fn chrome_plaintext_header_order() {
    let headers = generate_headers(&"127.0.0.1".to_string(), Browser::Chrome, false);

    let expected = vec![
        ("Host", "127.0.0.1"),
        ("Connection", "keep-alive"),
        ("Upgrade-Insecure-Requests", "1"),
        ("User-Agent", "Mozilla/5.0 (X11; Linux x86_64) AppleWebKit/537.36 (KHTML, like Gecko) Chrome/125.0.0.0 Safari/537.36"),
        ("Accept", "text/html,application/xhtml+xml,application/xml;q=0.9,image/avif,image/webp,image/apng,*/*;q=0.8,application/signed-exchange;v=b3;q=0.7"),
        ("Accept-Encoding", "gzip, deflate"),
        ("Accept-Language", "en-US,en;q=0.9"),
    ];

    let got = pairs(&headers);
    assert_eq!(got.len(), expected.len());
    for (have, (name, value)) in got.iter().zip(expected.iter()) {
        assert_eq!(have.0, *name);
        assert_eq!(have.1, *value);
    }
}

#[test]
fn chrome_encrypted_header_order() {
    let headers = generate_headers(&"example.com".to_string(), Browser::Chrome, true);

    let expected_names = vec![
        "sec-ch-ua",
        "sec-ch-ua-mobile",
        "sec-ch-ua-platform",
        "Connection",
        "Upgrade-Insecure-Requests",
        "User-Agent",
        "Accept",
        "sec-fetch-site",
        "sec-fetch-mode",
        "sec-fetch-user",
        "sec-fetch-dest",
        "Accept-Encoding",
        "Accept-Language",
    ];

    let got = pairs(&headers);
    assert_eq!(got.len(), expected_names.len());
    for (have, name) in got.iter().zip(expected_names.iter()) {
        assert_eq!(have.0, *name);
    }
    // the Host rule is restricted to HTTP/1 and must not survive an
    // encrypted (HTTP/2+) context
    assert!(got.iter().all(|p| p.0 != "Host"));
}

#[test]
fn firefox_plaintext_header_order() {
    let headers = generate_headers(&"localhost".to_string(), Browser::Firefox, false);

    let expected = vec![
        ("Host", "localhost"),
        ("User-Agent", "Mozilla/5.0 (X11; Linux x86_64; rv:128.0) Gecko/20100101 Firefox/128.0"),
        ("Accept", "text/html,application/xhtml+xml,application/xml;q=0.9,image/avif,image/webp,image/png,image/svg+xml,*/*;q=0.8"),
        ("Accept-Language", "en,cs;q=0.7,en-US;q=0.3"),
        ("Accept-Encoding", "gzip, deflate"),
        ("Connection", "keep-alive"),
        ("Upgrade-Insecure-Requests", "1"),
        ("Priority", "u=0, i"),
    ];

    let got = pairs(&headers);
    assert_eq!(got.len(), expected.len());
    for (have, (name, value)) in got.iter().zip(expected.iter()) {
        assert_eq!(have.0, *name);
        assert_eq!(have.1, *value);
    }
}

#[test]
fn firefox_encrypted_includes_sec_fetch() {
    let headers = generate_headers(&"example.com".to_string(), Browser::Firefox, true);
    let got = pairs(&headers);

    assert!(got.iter().any(|p| p.0 == "sec-fetch-dest" && p.1 == "document"));
    assert!(got.iter().any(|p| p.0 == "sec-fetch-mode" && p.1 == "navigate"));
    assert!(got.iter().any(|p| p.0 == "sec-fetch-site" && p.1 == "none"));
    assert!(got.iter().any(|p| p.0 == "sec-fetch-user" && p.1 == "?1"));
    assert!(got.iter().all(|p| p.0 != "Host"));
}

#[test]
fn host_value_follows_target() {
    let headers = generate_headers(&"something.example".to_string(), Browser::Chrome, false);
    let got = pairs(&headers);
    assert_eq!(got[0].0, "Host");
    assert_eq!(got[0].1, "something.example");
}
