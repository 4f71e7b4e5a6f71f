//! The header profile registry: a static, ordered catalog of header rules
//! per browser identity.
//!
//! Each rule carries the header's name, its value, and the transport
//! condition under which the impersonated browser would send it. Order is
//! semantically significant: it dictates the wire order of the outgoing
//! headers, which is part of what makes the fingerprint convincing.

use vstd::prelude::*;

use crate::names::fold_name;
use crate::names::name_eq;

verus! {

/// The browser identity a client impersonates. Closed set: adding a browser
/// means adding a variant and a registry entry.
#[derive(Clone, Copy, PartialEq, Eq, Structural, Debug)]
pub enum Browser {
    Firefox,
    Chrome,
}

/// The operating systems a profile may be keyed by.
#[derive(Clone, Copy, PartialEq, Eq, Structural, Debug)]
pub enum OperatingSystem {
    Windows,
    Linux,
    MacOS,
    Android,
    IOS,
}

/// When a header rule applies. The flags are tri-state filters: a rule is
/// either unconditional, sent only over an encrypted transport, or sent only
/// when the transport speaks HTTP/1. There is no encoded representation of
/// "only when the condition is false".
///
/// `RequireHttp1` is judged by "not encrypted": the registry encodes the
/// approximation that an encrypted transport implies HTTP/2 or newer. This
/// is a documented simplification, not a negotiated-protocol check.
#[derive(Clone, Copy, PartialEq, Eq, Structural, Debug)]
pub enum Applicability {
    Unconditional,
    RequireEncrypted,
    RequireHttp1,
}

/// One entry of a profile: a header the impersonated browser would send
/// under the rule's transport condition.
#[derive(Clone, Debug)]
pub struct HeaderRule {
    pub name: String,
    pub value: String,
    pub cond: Applicability,
}

/// The mathematical shape of a header rule.
pub ghost struct RuleView {
    pub name: Seq<char>,
    pub value: Seq<char>,
    pub cond: Applicability,
}

impl View for HeaderRule {
    type V = RuleView;

    open spec fn view(&self) -> RuleView {
        RuleView { name: self.name@, value: self.value@, cond: self.cond }
    }
}

/// The rules of a profile, as their mathematical shapes, in declared order.
pub open spec fn rules_view(s: Seq<HeaderRule>) -> Seq<RuleView> {
    s.map_values(|r: HeaderRule| r@)
}

/// The Firefox profile. The `Host` rule carries the request's target host
/// and is restricted to HTTP/1; the `sec-fetch-*` rules are sent only over
/// an encrypted transport.
pub open spec fn firefox_rules(host: Seq<char>) -> Seq<RuleView> {
    seq![
        RuleView { name: "Host"@, value: host, cond: Applicability::RequireHttp1 },
        RuleView {
            name: "User-Agent"@,
            value: "Mozilla/5.0 (X11; Linux x86_64; rv:128.0) Gecko/20100101 Firefox/128.0"@,
            cond: Applicability::Unconditional,
        },
        RuleView {
            name: "Accept"@,
            value: "text/html,application/xhtml+xml,application/xml;q=0.9,image/avif,image/webp,image/png,image/svg+xml,*/*;q=0.8"@,
            cond: Applicability::Unconditional,
        },
        RuleView { name: "Accept-Language"@, value: "en,cs;q=0.7,en-US;q=0.3"@, cond: Applicability::Unconditional },
        RuleView { name: "Accept-Encoding"@, value: "gzip, deflate"@, cond: Applicability::Unconditional },
        RuleView { name: "sec-fetch-dest"@, value: "document"@, cond: Applicability::RequireEncrypted },
        RuleView { name: "sec-fetch-mode"@, value: "navigate"@, cond: Applicability::RequireEncrypted },
        RuleView { name: "sec-fetch-site"@, value: "none"@, cond: Applicability::RequireEncrypted },
        RuleView { name: "sec-fetch-user"@, value: "?1"@, cond: Applicability::RequireEncrypted },
        RuleView { name: "Connection"@, value: "keep-alive"@, cond: Applicability::Unconditional },
        RuleView { name: "Upgrade-Insecure-Requests"@, value: "1"@, cond: Applicability::Unconditional },
        RuleView { name: "Priority"@, value: "u=0, i"@, cond: Applicability::Unconditional },
    ]
}

/// The Chrome profile.
pub open spec fn chrome_rules(host: Seq<char>) -> Seq<RuleView> {
    seq![
        RuleView {
            name: "sec-ch-ua"@,
            value: "\"Google Chrome\";v=\"125\", \"Chromium\";v=\"125\", \"Not.A/Brand\";v=\"24\""@,
            cond: Applicability::RequireEncrypted,
        },
        RuleView { name: "sec-ch-ua-mobile"@, value: "?0"@, cond: Applicability::RequireEncrypted },
        RuleView { name: "sec-ch-ua-platform"@, value: "Linux"@, cond: Applicability::RequireEncrypted },
        RuleView { name: "Host"@, value: host, cond: Applicability::RequireHttp1 },
        RuleView { name: "Connection"@, value: "keep-alive"@, cond: Applicability::Unconditional },
        RuleView { name: "Upgrade-Insecure-Requests"@, value: "1"@, cond: Applicability::Unconditional },
        RuleView {
            name: "User-Agent"@,
            value: "Mozilla/5.0 (X11; Linux x86_64) AppleWebKit/537.36 (KHTML, like Gecko) Chrome/125.0.0.0 Safari/537.36"@,
            cond: Applicability::Unconditional,
        },
        RuleView {
            name: "Accept"@,
            value: "text/html,application/xhtml+xml,application/xml;q=0.9,image/avif,image/webp,image/apng,*/*;q=0.8,application/signed-exchange;v=b3;q=0.7"@,
            cond: Applicability::Unconditional,
        },
        RuleView { name: "sec-fetch-site"@, value: "none"@, cond: Applicability::RequireEncrypted },
        RuleView { name: "sec-fetch-mode"@, value: "navigate"@, cond: Applicability::RequireEncrypted },
        RuleView { name: "sec-fetch-user"@, value: "?1"@, cond: Applicability::RequireEncrypted },
        RuleView { name: "sec-fetch-dest"@, value: "document"@, cond: Applicability::RequireEncrypted },
        RuleView { name: "Accept-Encoding"@, value: "gzip, deflate"@, cond: Applicability::Unconditional },
        RuleView { name: "Accept-Language"@, value: "en-US,en;q=0.9"@, cond: Applicability::Unconditional },
    ]
}

/// The registry, as one total function: every identity resolves to a
/// non-empty profile. An identity without a profile of its own falls back to
/// Firefox; this permissive default is deliberate.
pub open spec fn spec_profile(identity: Browser, host: Seq<char>) -> Seq<RuleView> {
    match identity {
        Browser::Chrome => chrome_rules(host),
        _ => firefox_rules(host),
    }
}

/// Law (the registry invariant): within one profile, no header name occurs
/// twice, however it is cased.
pub proof fn lemma_profile_names_distinct(identity: Browser, host: Seq<char>)
    ensures
        forall|j: int, k: int|
            0 <= j < k < spec_profile(identity, host).len() ==> !name_eq(
                (#[trigger] spec_profile(identity, host)[j]).name,
                (#[trigger] spec_profile(identity, host)[k]).name,
            ),
{
    reveal_strlit("Host");
    reveal_strlit("User-Agent");
    reveal_strlit("Accept");
    reveal_strlit("Accept-Language");
    reveal_strlit("Accept-Encoding");
    reveal_strlit("sec-fetch-dest");
    reveal_strlit("sec-fetch-mode");
    reveal_strlit("sec-fetch-site");
    reveal_strlit("sec-fetch-user");
    reveal_strlit("Connection");
    reveal_strlit("Upgrade-Insecure-Requests");
    reveal_strlit("Priority");
    reveal_strlit("sec-ch-ua");
    reveal_strlit("sec-ch-ua-mobile");
    reveal_strlit("sec-ch-ua-platform");
    assert(fold_name("Host"@).len() == 4);
    assert(fold_name("User-Agent"@).len() == 10);
    assert(fold_name("Accept"@).len() == 6);
    assert(fold_name("Accept-Language"@).len() == 15);
    assert(fold_name("Accept-Encoding"@).len() == 15);
    assert(fold_name("sec-fetch-dest"@).len() == 14);
    assert(fold_name("sec-fetch-mode"@).len() == 14);
    assert(fold_name("sec-fetch-site"@).len() == 14);
    assert(fold_name("sec-fetch-user"@).len() == 14);
    assert(fold_name("Connection"@).len() == 10);
    assert(fold_name("Upgrade-Insecure-Requests"@).len() == 25);
    assert(fold_name("Priority"@).len() == 8);
    assert(fold_name("sec-ch-ua"@).len() == 9);
    assert(fold_name("sec-ch-ua-mobile"@).len() == 16);
    assert(fold_name("sec-ch-ua-platform"@).len() == 18);
    assert(fold_name("User-Agent"@)[0] != fold_name("Connection"@)[0]);
    assert(fold_name("Accept-Language"@)[7] != fold_name("Accept-Encoding"@)[7]);
    assert(fold_name("sec-fetch-dest"@)[10] != fold_name("sec-fetch-mode"@)[10]);
    assert(fold_name("sec-fetch-dest"@)[10] != fold_name("sec-fetch-site"@)[10]);
    assert(fold_name("sec-fetch-dest"@)[10] != fold_name("sec-fetch-user"@)[10]);
    assert(fold_name("sec-fetch-mode"@)[10] != fold_name("sec-fetch-site"@)[10]);
    assert(fold_name("sec-fetch-mode"@)[10] != fold_name("sec-fetch-user"@)[10]);
    assert(fold_name("sec-fetch-site"@)[10] != fold_name("sec-fetch-user"@)[10]);
    let p = spec_profile(identity, host);
    assert forall|j: int, k: int| 0 <= j < k < p.len() implies !name_eq(p[j].name, p[k].name) by {
        assert(fold_name(p[j].name).len() == p[j].name.len());
        assert(fold_name(p[k].name).len() == p[k].name.len());
    }
}

fn rule(name: &str, value: &str, cond: Applicability) -> (r: HeaderRule)
    ensures
        r@ == (RuleView { name: name@, value: value@, cond }),
{
    HeaderRule { name: String::from_str(name), value: String::from_str(value), cond }
}

fn host_rule(host: &str) -> (r: HeaderRule)
    ensures
        r@ == (RuleView { name: "Host"@, value: host@, cond: Applicability::RequireHttp1 }),
{
    HeaderRule {
        name: String::from_str("Host"),
        value: String::from_str(host),
        cond: Applicability::RequireHttp1,
    }
}

/// Resolves a browser identity to its header profile, with the rules in
/// declared order and the `Host` rule's value set to the target host.
pub fn lookup(identity: Browser, host: &str) -> (profile: Vec<HeaderRule>)
    ensures
        rules_view(profile@) == spec_profile(identity, host@),
        profile@.len() > 0,
{
    let mut profile: Vec<HeaderRule> = Vec::new();
    match identity {
        Browser::Chrome => {
            profile.push(rule(
                "sec-ch-ua",
                "\"Google Chrome\";v=\"125\", \"Chromium\";v=\"125\", \"Not.A/Brand\";v=\"24\"",
                Applicability::RequireEncrypted,
            ));
            profile.push(rule("sec-ch-ua-mobile", "?0", Applicability::RequireEncrypted));
            profile.push(rule("sec-ch-ua-platform", "Linux", Applicability::RequireEncrypted));
            profile.push(host_rule(host));
            profile.push(rule("Connection", "keep-alive", Applicability::Unconditional));
            profile.push(rule("Upgrade-Insecure-Requests", "1", Applicability::Unconditional));
            profile.push(rule(
                "User-Agent",
                "Mozilla/5.0 (X11; Linux x86_64) AppleWebKit/537.36 (KHTML, like Gecko) Chrome/125.0.0.0 Safari/537.36",
                Applicability::Unconditional,
            ));
            profile.push(rule(
                "Accept",
                "text/html,application/xhtml+xml,application/xml;q=0.9,image/avif,image/webp,image/apng,*/*;q=0.8,application/signed-exchange;v=b3;q=0.7",
                Applicability::Unconditional,
            ));
            profile.push(rule("sec-fetch-site", "none", Applicability::RequireEncrypted));
            profile.push(rule("sec-fetch-mode", "navigate", Applicability::RequireEncrypted));
            profile.push(rule("sec-fetch-user", "?1", Applicability::RequireEncrypted));
            profile.push(rule("sec-fetch-dest", "document", Applicability::RequireEncrypted));
            profile.push(rule("Accept-Encoding", "gzip, deflate", Applicability::Unconditional));
            profile.push(rule("Accept-Language", "en-US,en;q=0.9", Applicability::Unconditional));
            proof {
                assert(rules_view(profile@) =~= chrome_rules(host@));
            }
        }
        _ => {
            profile.push(host_rule(host));
            profile.push(rule(
                "User-Agent",
                "Mozilla/5.0 (X11; Linux x86_64; rv:128.0) Gecko/20100101 Firefox/128.0",
                Applicability::Unconditional,
            ));
            profile.push(rule(
                "Accept",
                "text/html,application/xhtml+xml,application/xml;q=0.9,image/avif,image/webp,image/png,image/svg+xml,*/*;q=0.8",
                Applicability::Unconditional,
            ));
            profile.push(rule("Accept-Language", "en,cs;q=0.7,en-US;q=0.3", Applicability::Unconditional));
            profile.push(rule("Accept-Encoding", "gzip, deflate", Applicability::Unconditional));
            profile.push(rule("sec-fetch-dest", "document", Applicability::RequireEncrypted));
            profile.push(rule("sec-fetch-mode", "navigate", Applicability::RequireEncrypted));
            profile.push(rule("sec-fetch-site", "none", Applicability::RequireEncrypted));
            profile.push(rule("sec-fetch-user", "?1", Applicability::RequireEncrypted));
            profile.push(rule("Connection", "keep-alive", Applicability::Unconditional));
            profile.push(rule("Upgrade-Insecure-Requests", "1", Applicability::Unconditional));
            profile.push(rule("Priority", "u=0, i", Applicability::Unconditional));
            proof {
                assert(rules_view(profile@) =~= firefox_rules(host@));
            }
        }
    }
    profile
}

} // verus!
