//! The header synthesizer: filters a profile's rules by the transport
//! context and materializes the surviving rules, in declared order, as an
//! ordered list of header name/value pairs.

use vstd::prelude::*;

use crate::names::name_eq;
use crate::profile::Applicability;
use crate::profile::Browser;
use crate::profile::HeaderRule;
use crate::profile::RuleView;
use crate::profile::lookup;
use crate::profile::rules_view;
use crate::profile::spec_profile;

verus! {

/// One header as it goes on the wire: a name/value pair.
#[derive(Clone, PartialEq, Eq, Debug)]
pub struct HeaderEntry {
    pub name: String,
    pub value: String,
}

/// The mathematical shape of a header pair.
pub ghost struct EntryView {
    pub name: Seq<char>,
    pub value: Seq<char>,
}

impl View for HeaderEntry {
    type V = EntryView;

    open spec fn view(&self) -> EntryView {
        EntryView { name: self.name@, value: self.value@ }
    }
}

/// An ordered header list, as its mathematical shape.
pub open spec fn entries_view(s: Seq<HeaderEntry>) -> Seq<EntryView> {
    s.map_values(|e: HeaderEntry| e@)
}

/// The header a rule emits once its condition has been found to hold.
pub open spec fn entry_of(r: RuleView) -> EntryView {
    EntryView { name: r.name, value: r.value }
}

/// Whether a rule survives the transport-context filter: an unconditional
/// rule always does; a rule restricted to encrypted transports only when
/// the transport is encrypted; a rule restricted to HTTP/1 only when it is
/// not (the registry's documented "encrypted implies HTTP/2+" approximation).
pub open spec fn rule_applies(r: RuleView, encrypted: bool) -> bool {
    match r.cond {
        Applicability::Unconditional => true,
        Applicability::RequireEncrypted => encrypted,
        Applicability::RequireHttp1 => !encrypted,
    }
}

/// The rules of a profile that survive the filter, in declared order.
pub open spec fn kept_rules(profile: Seq<RuleView>, encrypted: bool) -> Seq<RuleView>
    decreases profile.len(),
{
    if profile.len() == 0 {
        Seq::empty()
    } else {
        let rest = kept_rules(profile.drop_last(), encrypted);
        if rule_applies(profile.last(), encrypted) {
            rest.push(profile.last())
        } else {
            rest
        }
    }
}

/// What synthesis returns: the surviving rules, materialized as pairs.
pub open spec fn spec_synthesize(profile: Seq<RuleView>, encrypted: bool) -> Seq<EntryView> {
    kept_rules(profile, encrypted).map_values(|r: RuleView| entry_of(r))
}

/// No two entries of a header list name the same header.
pub open spec fn distinct_names(s: Seq<EntryView>) -> bool {
    forall|j: int, k: int|
        0 <= j < k < s.len() ==> !name_eq((#[trigger] s[j]).name, (#[trigger] s[k]).name)
}

/// `a` is `b` with zero or more elements left out and none reordered.
pub open spec fn is_subsequence_of<T>(a: Seq<T>, b: Seq<T>) -> bool
    decreases b.len(),
{
    if b.len() == 0 {
        a.len() == 0
    } else {
        (a.len() > 0 && a.last() == b.last() && is_subsequence_of(a.drop_last(), b.drop_last()))
            || is_subsequence_of(a, b.drop_last())
    }
}

/// Filtering keeps the declared order: the surviving rules are a
/// subsequence of the profile.
pub proof fn lemma_kept_rules_subsequence(profile: Seq<RuleView>, encrypted: bool)
    ensures
        is_subsequence_of(kept_rules(profile, encrypted), profile),
    decreases profile.len(),
{
    if profile.len() > 0 {
        lemma_kept_rules_subsequence(profile.drop_last(), encrypted);
        if rule_applies(profile.last(), encrypted) {
            let k = kept_rules(profile, encrypted);
            assert(k.drop_last() =~= kept_rules(profile.drop_last(), encrypted));
        }
    }
}

/// A subsequence stays a subsequence under element-wise mapping.
pub proof fn lemma_map_preserves_subsequence<T, U>(a: Seq<T>, b: Seq<T>, f: spec_fn(T) -> U)
    requires
        is_subsequence_of(a, b),
    ensures
        is_subsequence_of(a.map_values(f), b.map_values(f)),
    decreases b.len(),
{
    if b.len() == 0 {
        assert(a.map_values(f).len() == 0);
    } else {
        assert(b.drop_last().map_values(f) =~= b.map_values(f).drop_last());
        if a.len() > 0 && a.last() == b.last() && is_subsequence_of(a.drop_last(), b.drop_last()) {
            lemma_map_preserves_subsequence(a.drop_last(), b.drop_last(), f);
            assert(a.drop_last().map_values(f) =~= a.map_values(f).drop_last());
            assert(a.map_values(f).last() == f(a.last()));
            assert(b.map_values(f).last() == f(b.last()));
        } else {
            lemma_map_preserves_subsequence(a, b.drop_last(), f);
        }
    }
}

/// Law: for every profile and transport context, the synthesized output
/// order is a subsequence of the profile's declared order — filtering never
/// reorders.
pub proof fn lemma_synthesize_subsequence(profile: Seq<RuleView>, encrypted: bool)
    ensures
        is_subsequence_of(
            spec_synthesize(profile, encrypted),
            profile.map_values(|r: RuleView| entry_of(r)),
        ),
{
    lemma_kept_rules_subsequence(profile, encrypted);
    lemma_map_preserves_subsequence(
        kept_rules(profile, encrypted),
        profile,
        |r: RuleView| entry_of(r),
    );
}

/// Every rule that survives the filter applies to the context it was
/// filtered for.
pub proof fn lemma_kept_rules_apply(profile: Seq<RuleView>, encrypted: bool)
    ensures
        forall|i: int|
            0 <= i < kept_rules(profile, encrypted).len() ==> rule_applies(
                #[trigger] kept_rules(profile, encrypted)[i],
                encrypted,
            ),
    decreases profile.len(),
{
    if profile.len() > 0 {
        lemma_kept_rules_apply(profile.drop_last(), encrypted);
        let rest = kept_rules(profile.drop_last(), encrypted);
        let k = kept_rules(profile, encrypted);
        assert forall|i: int| 0 <= i < k.len() implies rule_applies(k[i], encrypted) by {
            if rule_applies(profile.last(), encrypted) {
                if i < k.len() - 1 {
                    assert(k[i] == rest[i]);
                } else {
                    assert(k[i] == profile.last());
                }
            } else {
                assert(k[i] == rest[i]);
            }
        }
    }
}

/// Law: over an encrypted transport, no emitted header comes from a rule
/// restricted to HTTP/1.
pub proof fn lemma_encrypted_excludes_http1(profile: Seq<RuleView>)
    ensures
        forall|i: int|
            0 <= i < kept_rules(profile, true).len() ==> (#[trigger] kept_rules(
                profile,
                true,
            )[i]).cond != Applicability::RequireHttp1,
{
    lemma_kept_rules_apply(profile, true);
}

/// Law: over a plaintext transport, no emitted header comes from a rule
/// restricted to encrypted transports.
pub proof fn lemma_plaintext_excludes_encrypted(profile: Seq<RuleView>)
    ensures
        forall|i: int|
            0 <= i < kept_rules(profile, false).len() ==> (#[trigger] kept_rules(
                profile,
                false,
            )[i]).cond != Applicability::RequireEncrypted,
{
    lemma_kept_rules_apply(profile, false);
}

proof fn lemma_kept_rules_member(profile: Seq<RuleView>, encrypted: bool)
    ensures
        forall|i: int|
            0 <= i < kept_rules(profile, encrypted).len() ==> profile.contains(
                #[trigger] kept_rules(profile, encrypted)[i],
            ),
    decreases profile.len(),
{
    if profile.len() > 0 {
        lemma_kept_rules_member(profile.drop_last(), encrypted);
        let rest = kept_rules(profile.drop_last(), encrypted);
        let k = kept_rules(profile, encrypted);
        assert forall|i: int| 0 <= i < k.len() implies profile.contains(k[i]) by {
            if i < rest.len() {
                assert(k[i] == rest[i]);
                let m = choose|m: int|
                    0 <= m < profile.drop_last().len() && profile.drop_last()[m] == rest[i];
                assert(profile[m] == rest[i]);
            } else {
                assert(k[i] == profile.last());
                assert(profile[profile.len() - 1] == profile.last());
            }
        }
    }
}

/// Filtering a profile whose rule names are pairwise distinct yields rules
/// whose names are pairwise distinct.
pub proof fn lemma_kept_rules_distinct(profile: Seq<RuleView>, encrypted: bool)
    requires
        forall|j: int, k: int|
            0 <= j < k < profile.len() ==> !name_eq(
                (#[trigger] profile[j]).name,
                (#[trigger] profile[k]).name,
            ),
    ensures
        forall|j: int, k: int|
            0 <= j < k < kept_rules(profile, encrypted).len() ==> !name_eq(
                (#[trigger] kept_rules(profile, encrypted)[j]).name,
                (#[trigger] kept_rules(profile, encrypted)[k]).name,
            ),
    decreases profile.len(),
{
    if profile.len() > 0 {
        let prev = profile.drop_last();
        lemma_kept_rules_distinct(prev, encrypted);
        lemma_kept_rules_member(prev, encrypted);
        let rest = kept_rules(prev, encrypted);
        let kept = kept_rules(profile, encrypted);
        assert forall|j: int, k: int| 0 <= j < k < kept.len() implies !name_eq(
            kept[j].name,
            kept[k].name,
        ) by {
            if rule_applies(profile.last(), encrypted) && k == kept.len() - 1 {
                assert(kept[j] == rest[j]);
                assert(kept[k] == profile.last());
                let m = choose|m: int| 0 <= m < prev.len() && prev[m] == rest[j];
                assert(profile[m] == rest[j]);
                assert(!name_eq(profile[m].name, profile[profile.len() - 1].name));
            } else {
                assert(kept[j] == rest[j]);
                assert(kept[k] == rest[k]);
            }
        }
    }
}

/// Law: the synthesized header set of a profile with pairwise distinct
/// rule names names no header twice.
pub proof fn lemma_synthesize_distinct(profile: Seq<RuleView>, encrypted: bool)
    requires
        forall|j: int, k: int|
            0 <= j < k < profile.len() ==> !name_eq(
                (#[trigger] profile[j]).name,
                (#[trigger] profile[k]).name,
            ),
    ensures
        distinct_names(spec_synthesize(profile, encrypted)),
{
    lemma_kept_rules_distinct(profile, encrypted);
    let kept = kept_rules(profile, encrypted);
    let out = spec_synthesize(profile, encrypted);
    assert forall|j: int, k: int| 0 <= j < k < out.len() implies !name_eq(
        (#[trigger] out[j]).name,
        (#[trigger] out[k]).name,
    ) by {
        assert(out[j] == entry_of(kept[j]));
        assert(out[k] == entry_of(kept[k]));
    }
}

/// Materializes the ordered header set a profile yields under the given
/// transport context: rules are visited in declared order, filtered by
/// applicability, and the survivors are emitted as name/value pairs.
pub fn synthesize(profile: &Vec<HeaderRule>, encrypted: bool) -> (out: Vec<HeaderEntry>)
    ensures
        entries_view(out@) == spec_synthesize(rules_view(profile@), encrypted),
{
    let ghost rv = rules_view(profile@);
    let mut out: Vec<HeaderEntry> = Vec::new();
    let mut i: usize = 0;
    while i < profile.len()
        invariant
            i <= profile@.len(),
            rv == rules_view(profile@),
            out@.len() == kept_rules(rv.take(i as int), encrypted).len(),
            forall|j: int|
                0 <= j < out@.len() ==> #[trigger] out@[j]@ == entry_of(
                    kept_rules(rv.take(i as int), encrypted)[j],
                ),
        decreases profile@.len() - i,
    {
        let r = &profile[i];
        let applies = match r.cond {
            Applicability::Unconditional => true,
            Applicability::RequireEncrypted => encrypted,
            Applicability::RequireHttp1 => !encrypted,
        };
        proof {
            assert(r@ == rv[i as int]);
            assert(applies == rule_applies(rv[i as int], encrypted));
            assert(rv.take(i as int + 1).drop_last() =~= rv.take(i as int));
            assert(rv.take(i as int + 1).last() == rv[i as int]);
            if applies {
                assert(kept_rules(rv.take(i as int + 1), encrypted) == kept_rules(
                    rv.take(i as int),
                    encrypted,
                ).push(rv[i as int]));
            } else {
                assert(kept_rules(rv.take(i as int + 1), encrypted) == kept_rules(
                    rv.take(i as int),
                    encrypted,
                ));
            }
        }
        if applies {
            out.push(HeaderEntry { name: r.name.clone(), value: r.value.clone() });
        }
        i += 1;
    }
    proof {
        assert(rv.take(profile@.len() as int) =~= rv);
        assert(entries_view(out@) =~= spec_synthesize(rv, encrypted));
    }
    out
}

/// The full synthesis path of one request: resolve the identity to its
/// profile, then filter and materialize it for the target host and
/// transport.
pub fn generate_headers(host: &String, browser: Browser, https: bool) -> (out: Vec<HeaderEntry>)
    ensures
        entries_view(out@) == spec_synthesize(spec_profile(browser, host@), https),
{
    let profile = lookup(browser, host.as_str());
    synthesize(&profile, https)
}

} // verus!
