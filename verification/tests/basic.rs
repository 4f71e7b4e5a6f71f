use retcher::Browser;
use retcher::EngineOptions;
use retcher::Retcher;

#[test]
fn browser_param_passing() {
    let retcher = Retcher::new(EngineOptions {
        browser: Some(Browser::Chrome),
        ignore_tls_errors: None,
    });

    assert_eq!(retcher.browser, Browser::Chrome);

    let retcher = Retcher::new(EngineOptions {
        browser: Some(Browser::Firefox),
        ignore_tls_errors: None,
    });

    assert_eq!(retcher.browser, Browser::Firefox);
}

#[test]
fn browser_defaults_to_firefox() {
    let retcher = Retcher::new(EngineOptions {
        browser: None,
        ignore_tls_errors: None,
    });

    assert_eq!(retcher.browser, Browser::Firefox);
    assert_eq!(retcher.ignore_tls_errors, false);
}

#[test]
fn tls_weakening_is_opt_in() {
    let retcher = Retcher::new(EngineOptions {
        browser: None,
        ignore_tls_errors: Some(true),
    });

    assert_eq!(retcher.ignore_tls_errors, true);

    let retcher = Retcher::new(EngineOptions {
        browser: None,
        ignore_tls_errors: Some(false),
    });

    assert_eq!(retcher.ignore_tls_errors, false);
}
