//! The header merger: overlays caller-supplied custom headers onto a
//! synthesized base set.
//!
//! Override, not duplication: an override whose name (case-insensitively)
//! already occurs in the base replaces that entry's value in place, keeping
//! the entry's position and name; an override naming a new header is
//! appended at the end. The merge is total: it never fails, whatever the
//! caller supplied.

use vstd::prelude::*;

use crate::names::name_eq;
use crate::names::names_equal;
use crate::synth::EntryView;
use crate::synth::HeaderEntry;
use crate::synth::distinct_names;
use crate::synth::entries_view;

verus! {

/// The position of the first entry whose name denotes `n`, or -1 when no
/// entry does.
pub open spec fn find_name(s: Seq<EntryView>, n: Seq<char>) -> int
    decreases s.len(),
{
    if s.len() == 0 {
        -1
    } else if name_eq(s[0].name, n) {
        0
    } else {
        let rest = find_name(s.drop_first(), n);
        if rest == -1 {
            -1
        } else {
            rest + 1
        }
    }
}

/// What `find_name` returns: a position in range that matches, with no
/// match before it; or -1, and then nothing matches.
pub proof fn lemma_find_name(s: Seq<EntryView>, n: Seq<char>)
    ensures
        -1 <= find_name(s, n) < s.len(),
        find_name(s, n) >= 0 ==> name_eq(s[find_name(s, n)].name, n),
        forall|k: int|
            0 <= k < s.len() && (find_name(s, n) == -1 || k < find_name(s, n)) ==> !name_eq(
                (#[trigger] s[k]).name,
                n,
            ),
    decreases s.len(),
{
    if s.len() > 0 && !name_eq(s[0].name, n) {
        lemma_find_name(s.drop_first(), n);
        assert forall|k: int|
            0 <= k < s.len() && (find_name(s, n) == -1 || k < find_name(s, n)) implies !name_eq(
            (#[trigger] s[k]).name,
            n,
        ) by {
            if k > 0 {
                assert(s[k] == s.drop_first()[k - 1]);
            }
        }
    }
}

/// `find_name` returns the position of a match that nothing earlier
/// matches.
pub proof fn lemma_find_name_unique(s: Seq<EntryView>, n: Seq<char>, i: int)
    requires
        0 <= i < s.len(),
        name_eq(s[i].name, n),
        forall|k: int| 0 <= k < i ==> !name_eq((#[trigger] s[k]).name, n),
    ensures
        find_name(s, n) == i,
    decreases s.len(),
{
    if i > 0 {
        assert(!name_eq(s[0].name, n));
        assert(s.drop_first()[i - 1] == s[i]);
        assert forall|k: int| 0 <= k < i - 1 implies !name_eq(
            (#[trigger] s.drop_first()[k]).name,
            n,
        ) by {
            assert(s.drop_first()[k] == s[k + 1]);
        }
        lemma_find_name_unique(s.drop_first(), n, i - 1);
    }
}

/// One override applied to the base: replace the value in place where the
/// name already occurs, append otherwise.
pub open spec fn apply_override(base: Seq<EntryView>, ov: EntryView) -> Seq<EntryView> {
    let i = find_name(base, ov.name);
    if i >= 0 {
        base.update(i, EntryView { name: base[i].name, value: ov.value })
    } else {
        base.push(ov)
    }
}

/// The merged header set: the overrides applied to the base, first to last.
pub open spec fn spec_merge(base: Seq<EntryView>, ovs: Seq<EntryView>) -> Seq<EntryView>
    decreases ovs.len(),
{
    if ovs.len() == 0 {
        base
    } else {
        spec_merge(apply_override(base, ovs[0]), ovs.drop_first())
    }
}

proof fn lemma_apply_keeps_names(base: Seq<EntryView>, ov: EntryView)
    ensures
        base.len() <= apply_override(base, ov).len() <= base.len() + 1,
        forall|j: int|
            0 <= j < base.len() ==> (#[trigger] apply_override(base, ov)[j]).name == base[j].name,
{
    lemma_find_name(base, ov.name);
}

/// Law (one half of the override property): merging never moves a base
/// entry — every base position keeps its header name, and the merged set is
/// at least as long as the base.
pub proof fn lemma_merge_keeps_base_names(base: Seq<EntryView>, ovs: Seq<EntryView>)
    ensures
        spec_merge(base, ovs).len() >= base.len(),
        forall|j: int|
            0 <= j < base.len() ==> (#[trigger] spec_merge(base, ovs)[j]).name == base[j].name,
    decreases ovs.len(),
{
    if ovs.len() > 0 {
        lemma_apply_keeps_names(base, ovs[0]);
        lemma_merge_keeps_base_names(apply_override(base, ovs[0]), ovs.drop_first());
    }
}

proof fn lemma_find_stable_apply(base: Seq<EntryView>, ov: EntryView, n: Seq<char>)
    requires
        find_name(base, n) >= 0,
    ensures
        find_name(apply_override(base, ov), n) == find_name(base, n),
{
    lemma_find_name(base, n);
    lemma_apply_keeps_names(base, ov);
    lemma_find_name_unique(apply_override(base, ov), n, find_name(base, n));
}

proof fn lemma_find_stable_merge(base: Seq<EntryView>, ovs: Seq<EntryView>, n: Seq<char>)
    requires
        find_name(base, n) >= 0,
    ensures
        find_name(spec_merge(base, ovs), n) == find_name(base, n),
    decreases ovs.len(),
{
    if ovs.len() > 0 {
        lemma_find_stable_apply(base, ovs[0], n);
        lemma_find_stable_merge(apply_override(base, ovs[0]), ovs.drop_first(), n);
    }
}

proof fn lemma_merge_untouched(base: Seq<EntryView>, ovs: Seq<EntryView>, n: Seq<char>)
    requires
        find_name(base, n) >= 0,
        forall|k: int| 0 <= k < ovs.len() ==> !name_eq((#[trigger] ovs[k]).name, n),
    ensures
        spec_merge(base, ovs)[find_name(base, n)] == base[find_name(base, n)],
    decreases ovs.len(),
{
    if ovs.len() > 0 {
        let i = find_name(base, n);
        let e = ovs[0];
        let x = apply_override(base, e);
        lemma_find_name(base, n);
        lemma_find_name(base, e.name);
        if find_name(base, e.name) == i {
            assert(name_eq(base[i].name, e.name));
            assert(name_eq(base[i].name, n));
            assert(false);
        }
        assert(x[i] == base[i]);
        lemma_find_stable_apply(base, e, n);
        assert forall|k: int| 0 <= k < ovs.drop_first().len() implies !name_eq(
            (#[trigger] ovs.drop_first()[k]).name,
            n,
        ) by {
            assert(ovs.drop_first()[k] == ovs[k + 1]);
        }
        lemma_merge_untouched(x, ovs.drop_first(), n);
    }
}

proof fn lemma_merge_applied_value(base: Seq<EntryView>, ovs: Seq<EntryView>, j: int)
    requires
        0 <= j < ovs.len(),
        find_name(base, ovs[j].name) >= 0,
        forall|k: int| j < k < ovs.len() ==> !name_eq((#[trigger] ovs[k]).name, ovs[j].name),
    ensures
        ({
            let i = find_name(base, ovs[j].name);
            spec_merge(base, ovs)[i] == (EntryView { name: base[i].name, value: ovs[j].value })
        }),
    decreases ovs.len(),
{
    let n = ovs[j].name;
    let i = find_name(base, n);
    let e = ovs[0];
    let x = apply_override(base, e);
    lemma_find_name(base, n);
    lemma_find_stable_apply(base, e, n);
    if j == 0 {
        assert(x[i] == (EntryView { name: base[i].name, value: e.value }));
        assert forall|k: int| 0 <= k < ovs.drop_first().len() implies !name_eq(
            (#[trigger] ovs.drop_first()[k]).name,
            n,
        ) by {
            assert(ovs.drop_first()[k] == ovs[k + 1]);
        }
        lemma_merge_untouched(x, ovs.drop_first(), n);
    } else {
        lemma_apply_keeps_names(base, e);
        assert(ovs.drop_first()[j - 1] == ovs[j]);
        assert forall|k: int| j - 1 < k < ovs.drop_first().len() implies !name_eq(
            (#[trigger] ovs.drop_first()[k]).name,
            ovs.drop_first()[j - 1].name,
        ) by {
            assert(ovs.drop_first()[k] == ovs[k + 1]);
        }
        lemma_merge_applied_value(x, ovs.drop_first(), j - 1);
    }
}

/// Law (the merge override property): for a header name present in both the
/// base set and an override set with distinct names, the merged set carries
/// the override's value at the base entry's original position, under the
/// base entry's original name.
pub proof fn lemma_merge_override(base: Seq<EntryView>, ovs: Seq<EntryView>, j: int)
    requires
        distinct_names(ovs),
        0 <= j < ovs.len(),
        find_name(base, ovs[j].name) >= 0,
    ensures
        spec_merge(base, ovs).len() >= base.len(),
        ({
            let i = find_name(base, ovs[j].name);
            spec_merge(base, ovs)[i].name == base[i].name && spec_merge(base, ovs)[i].value
                == ovs[j].value
        }),
{
    lemma_merge_keeps_base_names(base, ovs);
    lemma_find_name(base, ovs[j].name);
    lemma_merge_applied_value(base, ovs, j);
}

/// Law (merge idempotence): merging the same override set twice yields the
/// same result as merging it once.
pub proof fn lemma_merge_idempotent(base: Seq<EntryView>, ovs: Seq<EntryView>)
    requires
        distinct_names(ovs),
    ensures
        spec_merge(spec_merge(base, ovs), ovs) == spec_merge(base, ovs),
    decreases ovs.len(),
{
    if ovs.len() > 0 {
        let e = ovs[0];
        let rest = ovs.drop_first();
        let x = apply_override(base, e);
        assert forall|a: int, b: int| 0 <= a < b < rest.len() implies !name_eq(
            (#[trigger] rest[a]).name,
            (#[trigger] rest[b]).name,
        ) by {
            assert(rest[a] == ovs[a + 1]);
            assert(rest[b] == ovs[b + 1]);
        }
        lemma_find_name(base, e.name);
        let i0 = find_name(base, e.name);
        let p: int = if i0 >= 0 {
            i0
        } else {
            base.len() as int
        };
        if i0 >= 0 {
            lemma_find_stable_apply(base, e, e.name);
        } else {
            lemma_find_name_unique(x, e.name, p);
        }
        assert(find_name(x, e.name) == p);
        assert(x[p].value == e.value);
        assert forall|k: int| 0 <= k < rest.len() implies !name_eq(
            (#[trigger] rest[k]).name,
            e.name,
        ) by {
            assert(rest[k] == ovs[k + 1]);
        }
        let m = spec_merge(x, rest);
        lemma_merge_keeps_base_names(x, rest);
        lemma_merge_untouched(x, rest, e.name);
        lemma_find_stable_merge(x, rest, e.name);
        assert(p < m.len());
        assert(m[p] == (EntryView { name: m[p].name, value: e.value }));
        assert(apply_override(m, e) =~= m);
        lemma_merge_idempotent(x, rest);
        assert(spec_merge(spec_merge(base, ovs), ovs) == spec_merge(apply_override(m, e), rest));
    }
}

proof fn lemma_apply_keeps_distinct(base: Seq<EntryView>, ov: EntryView)
    requires
        distinct_names(base),
    ensures
        distinct_names(apply_override(base, ov)),
{
    lemma_find_name(base, ov.name);
    let x = apply_override(base, ov);
    if find_name(base, ov.name) >= 0 {
        assert forall|j: int, k: int| 0 <= j < k < x.len() implies !name_eq(
            (#[trigger] x[j]).name,
            (#[trigger] x[k]).name,
        ) by {
            assert(x[j].name == base[j].name);
            assert(x[k].name == base[k].name);
        }
    } else {
        assert forall|j: int, k: int| 0 <= j < k < x.len() implies !name_eq(
            (#[trigger] x[j]).name,
            (#[trigger] x[k]).name,
        ) by {
            if k < base.len() {
                assert(x[j] == base[j]);
                assert(x[k] == base[k]);
            } else {
                assert(x[j] == base[j]);
                assert(x[k] == ov);
            }
        }
    }
}

/// Law: merging keeps the header names of the result distinct — custom
/// headers augment or override a base set that names no header twice, and
/// never duplicate.
pub proof fn lemma_merge_keeps_distinct(base: Seq<EntryView>, ovs: Seq<EntryView>)
    requires
        distinct_names(base),
    ensures
        distinct_names(spec_merge(base, ovs)),
    decreases ovs.len(),
{
    if ovs.len() > 0 {
        lemma_apply_keeps_distinct(base, ovs[0]);
        lemma_merge_keeps_distinct(apply_override(base, ovs[0]), ovs.drop_first());
    }
}

/// Overlays the override entries, first to last, onto the base list: a
/// value is replaced in place where the header name (case-insensitively)
/// already occurs, and a new header is appended at the end.
pub fn merge(base: Vec<HeaderEntry>, overrides: &Vec<HeaderEntry>) -> (out: Vec<HeaderEntry>)
    ensures
        entries_view(out@) == spec_merge(entries_view(base@), entries_view(overrides@)),
{
    let ghost base0 = entries_view(base@);
    let ghost ovs = entries_view(overrides@);
    let mut out = base;
    proof {
        assert(ovs.skip(0) =~= ovs);
    }
    let mut i: usize = 0;
    while i < overrides.len()
        invariant
            i <= overrides@.len(),
            ovs == entries_view(overrides@),
            spec_merge(entries_view(out@), ovs.skip(i as int)) == spec_merge(base0, ovs),
        decreases overrides@.len() - i,
    {
        let ov = &overrides[i];
        let ghost cur = entries_view(out@);
        let mut j: usize = 0;
        let mut found = false;
        while j < out.len() && !found
            invariant
                j <= out@.len(),
                i < overrides@.len(),
                cur == entries_view(out@),
                ov == overrides@[i as int],
                forall|k: int| 0 <= k < j ==> !name_eq((#[trigger] cur[k]).name, ov@.name),
                found ==> j < cur.len() && name_eq(cur[j as int].name, ov@.name),
            decreases out@.len() - j + (if found { 0int } else { 1int }),
        {
            if names_equal(out[j].name.as_str(), ov.name.as_str()) {
                found = true;
            } else {
                j += 1;
            }
        }
        proof {
            assert(ovs[i as int] == ov@);
        }
        if found {
            proof {
                lemma_find_name_unique(cur, ov@.name, j as int);
            }
            let kept_name = out[j].name.clone();
            out[j] = HeaderEntry { name: kept_name, value: ov.value.clone() };
            proof {
                assert(entries_view(out@) =~= apply_override(cur, ovs[i as int]));
            }
        } else {
            proof {
                lemma_find_name(cur, ov@.name);
                if find_name(cur, ov@.name) >= 0 {
                    let f = find_name(cur, ov@.name);
                    assert(name_eq(cur[f].name, ov@.name));
                    assert(false);
                }
            }
            out.push(HeaderEntry { name: ov.name.clone(), value: ov.value.clone() });
            proof {
                assert(entries_view(out@) =~= apply_override(cur, ovs[i as int]));
            }
        }
        proof {
            assert(ovs.skip(i as int).drop_first() =~= ovs.skip(i as int + 1));
            assert(ovs.skip(i as int)[0] == ovs[i as int]);
            assert(spec_merge(cur, ovs.skip(i as int)) == spec_merge(
                entries_view(out@),
                ovs.skip(i as int + 1),
            ));
        }
        i += 1;
    }
    proof {
        assert(ovs.skip(overrides@.len() as int) =~= Seq::<EntryView>::empty());
    }
    out
}

} // verus!
