//! Who is trusted, and which findings analysts do not want to see.

use crate::records::{
    AnalystSuppression, AnalystSuppressionView, PrincipalAllowlistEntry,
    PrincipalAllowlistEntryView, ScopedPrincipalAllowlistEntry, ScopedPrincipalAllowlistEntryView,
    ScopedSourceAllowlistEntry, ScopedSourceAllowlistEntryView, SourceAllowlistEntry,
    SourceAllowlistEntryView, TriScopedAllowlistEntry, TriScopedAllowlistEntryView,
};
use crate::text;
use crate::types;
use crate::types::{Finding, FindingView};
use vstd::prelude::*;

verus! {

/// Whether a source is trusted everywhere.
pub open spec fn source_listed(
    entries: Seq<SourceAllowlistEntryView>,
    source_ip: Seq<char>,
) -> bool {
    exists|i: int| 0 <= i < entries.len() && (#[trigger] entries[i]).source_ip == source_ip
}

pub fn is_source_allowlisted(entries: &Vec<SourceAllowlistEntry>, source_ip: &str) -> (r: bool)
    ensures
        r == source_listed(entries.deep_view(), source_ip@),
{
    let ghost all = entries.deep_view();
    let mut i: usize = 0;
    while i < entries.len()
        invariant
            i <= entries@.len(),
            all == entries.deep_view(),
            forall|j: int| 0 <= j < i ==> (#[trigger] all[j]).source_ip != source_ip@,
        decreases entries@.len() - i,
    {
        assert(all[i as int] == entries@[i as int].deep_view());
        if text::same(entries[i].source_ip.as_str(), source_ip) {
            return true;
        }
        i = i + 1;
    }
    false
}

pub open spec fn admits_source(
    e: ScopedSourceAllowlistEntryView,
    source_ip: Seq<char>,
    path: Seq<char>,
) -> bool {
    e.source_ip == source_ip && text::has_prefix(path, e.path_prefix)
}

/// Whether a source is trusted on a path.
pub open spec fn source_listed_for_path(
    entries: Seq<ScopedSourceAllowlistEntryView>,
    source_ip: Seq<char>,
    path: Seq<char>,
) -> bool {
    exists|i: int| 0 <= i < entries.len() && admits_source(#[trigger] entries[i], source_ip, path)
}

pub fn is_source_allowlisted_for_path(
    entries: &Vec<ScopedSourceAllowlistEntry>,
    source_ip: &str,
    path: &str,
) -> (r: bool)
    ensures
        r == source_listed_for_path(entries.deep_view(), source_ip@, path@),
{
    let ghost all = entries.deep_view();
    let mut i: usize = 0;
    while i < entries.len()
        invariant
            i <= entries@.len(),
            all == entries.deep_view(),
            forall|j: int| 0 <= j < i ==> !admits_source(#[trigger] all[j], source_ip@, path@),
        decreases entries@.len() - i,
    {
        assert(all[i as int] == entries@[i as int].deep_view());
        if text::same(entries[i].source_ip.as_str(), source_ip) && text::starts_with(
            path,
            entries[i].path_prefix.as_str(),
        ) {
            return true;
        }
        i = i + 1;
    }
    false
}

/// Whether a principal is trusted everywhere.
pub open spec fn principal_listed(
    entries: Seq<PrincipalAllowlistEntryView>,
    principal_key: Seq<char>,
) -> bool {
    exists|i: int|
        0 <= i < entries.len() && text::has_prefix(
            principal_key,
            (#[trigger] entries[i]).principal_prefix,
        )
}

pub fn is_principal_allowlisted(
    entries: &Vec<PrincipalAllowlistEntry>,
    principal_key: &str,
) -> (r: bool)
    ensures
        r == principal_listed(entries.deep_view(), principal_key@),
{
    let ghost all = entries.deep_view();
    let mut i: usize = 0;
    while i < entries.len()
        invariant
            i <= entries@.len(),
            all == entries.deep_view(),
            forall|j: int|
                0 <= j < i ==> !text::has_prefix(
                    principal_key@,
                    (#[trigger] all[j]).principal_prefix,
                ),
        decreases entries@.len() - i,
    {
        assert(all[i as int] == entries@[i as int].deep_view());
        if text::starts_with(principal_key, entries[i].principal_prefix.as_str()) {
            return true;
        }
        i = i + 1;
    }
    false
}

pub open spec fn admits_principal(
    e: ScopedPrincipalAllowlistEntryView,
    principal_key: Seq<char>,
    path: Seq<char>,
) -> bool {
    text::has_prefix(principal_key, e.principal_prefix) && text::has_prefix(path, e.path_prefix)
}

/// Whether a principal is trusted on a path.
pub open spec fn principal_listed_for_path(
    entries: Seq<ScopedPrincipalAllowlistEntryView>,
    principal_key: Seq<char>,
    path: Seq<char>,
) -> bool {
    exists|i: int|
        0 <= i < entries.len() && admits_principal(#[trigger] entries[i], principal_key, path)
}

pub fn is_principal_allowlisted_for_path(
    entries: &Vec<ScopedPrincipalAllowlistEntry>,
    principal_key: &str,
    path: &str,
) -> (r: bool)
    ensures
        r == principal_listed_for_path(entries.deep_view(), principal_key@, path@),
{
    let ghost all = entries.deep_view();
    let mut i: usize = 0;
    while i < entries.len()
        invariant
            i <= entries@.len(),
            all == entries.deep_view(),
            forall|j: int|
                0 <= j < i ==> !admits_principal(#[trigger] all[j], principal_key@, path@),
        decreases entries@.len() - i,
    {
        assert(all[i as int] == entries@[i as int].deep_view());
        if text::starts_with(principal_key, entries[i].principal_prefix.as_str())
            && text::starts_with(path, entries[i].path_prefix.as_str()) {
            return true;
        }
        i = i + 1;
    }
    false
}

pub open spec fn admits_all(
    e: TriScopedAllowlistEntryView,
    source_ip: Seq<char>,
    principal_key: Seq<char>,
    path: Seq<char>,
) -> bool {
    &&& e.source_ip == source_ip
    &&& text::has_prefix(principal_key, e.principal_prefix)
    &&& text::has_prefix(path, e.path_prefix)
}

/// Whether a principal is trusted on a path when it comes from a source.
pub open spec fn tri_scoped_listed(
    entries: Seq<TriScopedAllowlistEntryView>,
    source_ip: Seq<char>,
    principal_key: Seq<char>,
    path: Seq<char>,
) -> bool {
    exists|i: int|
        0 <= i < entries.len() && admits_all(
            #[trigger] entries[i],
            source_ip,
            principal_key,
            path,
        )
}

pub fn is_tri_scoped_allowlisted(
    entries: &Vec<TriScopedAllowlistEntry>,
    source_ip: &str,
    principal_key: &str,
    path: &str,
) -> (r: bool)
    ensures
        r == tri_scoped_listed(entries.deep_view(), source_ip@, principal_key@, path@),
{
    let ghost all = entries.deep_view();
    let mut i: usize = 0;
    while i < entries.len()
        invariant
            i <= entries@.len(),
            all == entries.deep_view(),
            forall|j: int|
                0 <= j < i ==> !admits_all(
                    #[trigger] all[j],
                    source_ip@,
                    principal_key@,
                    path@,
                ),
        decreases entries@.len() - i,
    {
        assert(all[i as int] == entries@[i as int].deep_view());
        if text::same(entries[i].source_ip.as_str(), source_ip) && text::starts_with(
            principal_key,
            entries[i].principal_prefix.as_str(),
        ) && text::starts_with(path, entries[i].path_prefix.as_str()) {
            return true;
        }
        i = i + 1;
    }
    false
}

/// All lists of who is trusted.
#[derive(Debug)]
pub struct Allowlists {
    pub sources: Vec<SourceAllowlistEntry>,
    pub scoped_sources: Vec<ScopedSourceAllowlistEntry>,
    pub principals: Vec<PrincipalAllowlistEntry>,
    pub scoped_principals: Vec<ScopedPrincipalAllowlistEntry>,
    pub tri_scoped: Vec<TriScopedAllowlistEntry>,
}

/// Why a request is trusted, if it is.
#[derive(Debug, Clone, Copy, PartialEq, Eq, Structural)]
pub struct Trust {
    pub source: bool,
    pub principal: bool,
}

/// The trust that a request has.
pub open spec fn trust_of(
    lists: Allowlists,
    source_ip: Seq<char>,
    principal_key: Seq<char>,
    path: Seq<char>,
) -> Trust {
    let both = tri_scoped_listed(lists.tri_scoped.deep_view(), source_ip, principal_key, path);
    Trust {
        source: source_listed(lists.sources.deep_view(), source_ip) || source_listed_for_path(
            lists.scoped_sources.deep_view(),
            source_ip,
            path,
        ) || both,
        principal: principal_listed(lists.principals.deep_view(), principal_key)
            || principal_listed_for_path(
            lists.scoped_principals.deep_view(),
            principal_key,
            path,
        ) || both,
    }
}

pub open spec fn is_trusted(t: Trust) -> bool {
    t.source || t.principal
}

pub fn resolve_trust(
    lists: &Allowlists,
    source_ip: &str,
    principal_key: &str,
    path: &str,
) -> (r: Trust)
    ensures
        r == trust_of(*lists, source_ip@, principal_key@, path@),
{
    let both = is_tri_scoped_allowlisted(&lists.tri_scoped, source_ip, principal_key, path);
    Trust {
        source: is_source_allowlisted(&lists.sources, source_ip) || is_source_allowlisted_for_path(
            &lists.scoped_sources,
            source_ip,
            path,
        ) || both,
        principal: is_principal_allowlisted(&lists.principals, principal_key)
            || is_principal_allowlisted_for_path(
            &lists.scoped_principals,
            principal_key,
            path,
        ) || both,
    }
}

/// Whether a suppression is about a finding on a path.
pub open spec fn silences(s: AnalystSuppressionView, rule_id: Seq<char>, path: Seq<char>) -> bool {
    s.rule_id == rule_id && (match s.path_prefix {
        Some(prefix) => text::has_prefix(path, prefix),
        None => true,
    })
}

/// Whether a finding on a path is not wanted.
pub open spec fn is_suppressed(
    suppressions: Seq<AnalystSuppressionView>,
    rule_id: Seq<char>,
    path: Seq<char>,
) -> bool {
    exists|i: int|
        0 <= i < suppressions.len() && silences(#[trigger] suppressions[i], rule_id, path)
}

fn suppressed(suppressions: &Vec<AnalystSuppression>, rule_id: &str, path: &str) -> (r: bool)
    ensures
        r == is_suppressed(suppressions.deep_view(), rule_id@, path@),
{
    let ghost all = suppressions.deep_view();
    let mut i: usize = 0;
    while i < suppressions.len()
        invariant
            i <= suppressions@.len(),
            all == suppressions.deep_view(),
            forall|j: int| 0 <= j < i ==> !silences(#[trigger] all[j], rule_id@, path@),
        decreases suppressions@.len() - i,
    {
        assert(all[i as int] == suppressions@[i as int].deep_view());
        if text::same(suppressions[i].rule_id.as_str(), rule_id) {
            let here = match &suppressions[i].path_prefix {
                Some(prefix) => text::starts_with(path, prefix.as_str()),
                None => true,
            };
            if here {
                return true;
            }
        }
        i = i + 1;
    }
    false
}

/// The findings that are wanted, in order.
pub open spec fn wanted_of(
    suppressions: Seq<AnalystSuppressionView>,
    path: Seq<char>,
    findings: Seq<FindingView>,
) -> Seq<FindingView>
    decreases findings.len(),
{
    if findings.len() == 0 {
        Seq::empty()
    } else {
        let before = wanted_of(suppressions, path, findings.drop_last());
        if is_suppressed(suppressions, findings.last().rule_id, path) {
            before
        } else {
            before.push(findings.last())
        }
    }
}

pub fn filter_suppressed_findings(
    suppressions: &Vec<AnalystSuppression>,
    path: &str,
    findings: Vec<Finding>,
) -> (r: Vec<Finding>)
    ensures
        r.deep_view() == wanted_of(suppressions.deep_view(), path@, findings.deep_view()),
{
    let ghost all = findings.deep_view();
    let mut out: Vec<Finding> = Vec::new();
    let mut i: usize = 0;
    assert(all.take(0) =~= Seq::empty());
    assert(out.deep_view() =~= Seq::empty());
    while i < findings.len()
        invariant
            i <= findings@.len(),
            all == findings.deep_view(),
            out.deep_view() == wanted_of(suppressions.deep_view(), path@, all.take(i as int)),
        decreases findings@.len() - i,
    {
        assert(all.take(i + 1).drop_last() =~= all.take(i as int));
        assert(all.take(i + 1).last() == findings@[i as int].deep_view());
        if !suppressed(suppressions, findings[i].rule_id.as_str(), path) {
            types::push_finding(&mut out, findings[i].clone());
        }
        i = i + 1;
    }
    assert(all.take(i as int) =~= all);
    out
}

/// No finding that is reported is suppressed, and every one that is not is reported.
pub proof fn law_suppression(
    suppressions: Seq<AnalystSuppressionView>,
    path: Seq<char>,
    findings: Seq<FindingView>,
)
    ensures
        forall|f: FindingView| #[trigger]
            wanted_of(suppressions, path, findings).contains(f) == (findings.contains(f)
                && !is_suppressed(suppressions, f.rule_id, path)),
    decreases findings.len(),
{
    if findings.len() > 0 {
        let d = findings.drop_last();
        law_suppression(suppressions, path, d);
        let before = wanted_of(suppressions, path, d);
        let after = wanted_of(suppressions, path, findings);
        assert forall|f: FindingView| #[trigger]
            after.contains(f) == (findings.contains(f) && !is_suppressed(
                suppressions,
                f.rule_id,
                path,
            )) by {
            assert(before.contains(f) == (d.contains(f) && !is_suppressed(
                suppressions,
                f.rule_id,
                path,
            )));
            if findings.contains(f) {
                let i = choose|i: int| 0 <= i < findings.len() && findings[i] == f;
                if i < d.len() {
                    assert(d[i] == f);
                }
            }
            if d.contains(f) {
                let i = choose|i: int| 0 <= i < d.len() && d[i] == f;
                assert(findings[i] == f);
            }
            if before.contains(f) {
                let i = choose|i: int| 0 <= i < before.len() && before[i] == f;
                assert(after[i] == f);
            }
            if after.contains(f) {
                let i = choose|i: int| 0 <= i < after.len() && after[i] == f;
                if i < before.len() {
                    assert(before[i] == f);
                }
            }
            if !is_suppressed(suppressions, findings.last().rule_id, path) {
                assert(after[before.len() as int] == findings.last());
            }
            assert(findings[findings.len() - 1] == findings.last());
        }
    }
}

} // verus!
