//! What is asked of the store, and what is kept in it.

use crate::journal;
use crate::laws::delivery;
use crate::requests::{
    AuditSearchFilters, EventSearchFilters, PolicyTimelineFilters, PolicyTimelineQuery,
};
use crate::storage;
use crate::storage::{SqlQueryView, SqlValueView};
use crate::telemetry_delivery;
use crate::text;
use crate::types::{DecisionOutcomeView, FindingView, MitigationAction, Severity};
use vstd::prelude::*;

verus! {

/// The text of a query: what is always asked, and a condition for each value that is given.
pub open spec fn asked(base: Seq<char>, all: Seq<(Seq<char>, Option<Seq<char>>)>) -> Seq<char>
    decreases all.len(),
{
    if all.len() == 0 {
        base
    } else {
        let before = asked(base, all.drop_last());
        if all.last().1 is Some {
            before + all.last().0
        } else {
            before
        }
    }
}

/// The values of a query: those that are given.
pub open spec fn bound(all: Seq<(Seq<char>, Option<Seq<char>>)>) -> Seq<SqlValueView>
    decreases all.len(),
{
    if all.len() == 0 {
        Seq::empty()
    } else {
        let before = bound(all.drop_last());
        match all.last().1 {
            Some(v) => before.push(SqlValueView::Text(v)),
            None => before,
        }
    }
}

/// A text between wildcards.
pub open spec fn around(v: Option<Seq<char>>) -> Option<Seq<char>> {
    match v {
        Some(s) => Some("%"@ + s + "%"@),
        None => None,
    }
}

proof fn lemma_asked(
    base: Seq<char>,
    all: Seq<(Seq<char>, Option<Seq<char>>)>,
    next: (Seq<char>, Option<Seq<char>>),
)
    ensures
        ({
            let q = SqlQueryView { sql: asked(base, all), values: bound(all) };
            let r = SqlQueryView {
                sql: asked(base, all.push(next)),
                values: bound(all.push(next)),
            };
            storage::with_text(q, next.0, next.1) == r
        }),
{
    assert(all.push(next).drop_last() =~= all);
}

/// What the search for events asks.
pub open spec fn event_conditions(
    f: EventSearchFilters,
    since: Option<Seq<char>>,
    until: Option<Seq<char>>,
) -> Seq<(Seq<char>, Option<Seq<char>>)> {
    Seq::<(Seq<char>, Option<Seq<char>>)>::empty().push(
        (" AND source_ip = ?"@, f.source_ip.deep_view()),
    ).push((" AND rule_ids LIKE ?"@, around(f.rule_id.deep_view()))).push(
        (
            " AND highest_severity = ?"@,
            match f.severity {
                Some(s) => Some(text::lower_of(s@)),
                None => None,
            },
        ),
    ).push(
        (
            " AND method = ?"@,
            match f.method {
                Some(m) => Some(text::upper_of(m@)),
                None => None,
            },
        ),
    ).push((" AND path LIKE ?"@, around(f.path_contains.deep_view()))).push(
        (" AND timestamp >= ?"@, since),
    ).push((" AND timestamp <= ?"@, until))
}

/// Events are searched by every condition that is given, the newest first; a page holds from one to
/// five hundred of them, and twenty where nothing is said.
pub proof fn law_events_searched(
    f: EventSearchFilters,
    since: Option<Seq<char>>,
    until: Option<Seq<char>>,
)
    ensures
        ({
            let q = storage::events_sql(f, since, until);
            let all = event_conditions(f, since, until);
            let n = bound(all).len() as int;
            &&& q.sql == asked("SELECT event_json FROM security_events WHERE 1=1"@, all)
                + " ORDER BY timestamp DESC LIMIT ? OFFSET ?"@
            &&& q.values.len() == n + 2 && q.values.take(n) == bound(all)
            &&& f.limit is None ==> q.values[n] == SqlValueView::Integer(20)
            &&& f.limit matches Some(k) ==> {
                &&& 1 <= k <= 500 ==> q.values[n] == SqlValueView::Integer(k as i64)
                &&& k < 1 ==> q.values[n] == SqlValueView::Integer(1)
                &&& k > 500 ==> q.values[n] == SqlValueView::Integer(500)
            }
            &&& f.offset is None ==> q.values[n + 1] == SqlValueView::Integer(0)
            &&& f.offset matches Some(k) ==> k <= i64::MAX ==> q.values[n + 1]
                == SqlValueView::Integer(k as i64)
        }),
{
    let base = "SELECT event_json FROM security_events WHERE 1=1"@;
    let e = Seq::<(Seq<char>, Option<Seq<char>>)>::empty();
    let all = event_conditions(f, since, until);
    let c6 = all.drop_last();
    let c5 = c6.drop_last();
    let c4 = c5.drop_last();
    let c3 = c4.drop_last();
    let c2 = c3.drop_last();
    let c1 = c2.drop_last();
    assert(c1.drop_last() =~= e);
    assert(all =~= c6.push(all.last()));
    assert(c6 =~= c5.push(c6.last()));
    assert(c5 =~= c4.push(c5.last()));
    assert(c4 =~= c3.push(c4.last()));
    assert(c3 =~= c2.push(c3.last()));
    assert(c2 =~= c1.push(c2.last()));
    assert(c1 =~= e.push(c1.last()));
    lemma_asked(base, e, c1.last());
    lemma_asked(base, c1, c2.last());
    lemma_asked(base, c2, c3.last());
    lemma_asked(base, c3, c4.last());
    lemma_asked(base, c4, c5.last());
    lemma_asked(base, c5, c6.last());
    lemma_asked(base, c6, all.last());
    let q = storage::events_sql(f, since, until);
    assert(q.values.take(bound(all).len() as int) =~= bound(all));
}

/// What the search for audits asks.
pub open spec fn audit_conditions(
    f: AuditSearchFilters,
    since: Option<Seq<char>>,
    until: Option<Seq<char>>,
) -> Seq<(Seq<char>, Option<Seq<char>>)> {
    Seq::<(Seq<char>, Option<Seq<char>>)>::empty().push(
        (" AND actor = ?"@, f.actor.deep_view()),
    ).push((" AND action = ?"@, f.action.deep_view())).push(
        (" AND target LIKE ?"@, around(f.target.deep_view())),
    ).push((" AND timestamp >= ?"@, since)).push((" AND timestamp <= ?"@, until))
}

/// Audits are searched by every condition that is given, the newest first; a page holds from one to
/// five hundred of them, and twenty where nothing is said.
pub proof fn law_audits_searched(
    f: AuditSearchFilters,
    since: Option<Seq<char>>,
    until: Option<Seq<char>>,
)
    ensures
        ({
            let q = storage::audits_sql(f, since, until);
            let all = audit_conditions(f, since, until);
            let n = bound(all).len() as int;
            &&& q.sql == asked("SELECT audit_json FROM admin_audits WHERE 1=1"@, all)
                + " ORDER BY timestamp DESC LIMIT ? OFFSET ?"@
            &&& q.values.len() == n + 2 && q.values.take(n) == bound(all)
            &&& f.limit is None ==> q.values[n] == SqlValueView::Integer(20)
            &&& f.limit matches Some(k) ==> {
                &&& 1 <= k <= 500 ==> q.values[n] == SqlValueView::Integer(k as i64)
                &&& k < 1 ==> q.values[n] == SqlValueView::Integer(1)
                &&& k > 500 ==> q.values[n] == SqlValueView::Integer(500)
            }
            &&& f.offset is None ==> q.values[n + 1] == SqlValueView::Integer(0)
            &&& f.offset matches Some(k) ==> k <= i64::MAX ==> q.values[n + 1]
                == SqlValueView::Integer(k as i64)
        }),
{
    let base = "SELECT audit_json FROM admin_audits WHERE 1=1"@;
    let e = Seq::<(Seq<char>, Option<Seq<char>>)>::empty();
    let all = audit_conditions(f, since, until);
    let c4 = all.drop_last();
    let c3 = c4.drop_last();
    let c2 = c3.drop_last();
    let c1 = c2.drop_last();
    assert(c1.drop_last() =~= e);
    assert(all =~= c4.push(all.last()));
    assert(c4 =~= c3.push(c4.last()));
    assert(c3 =~= c2.push(c3.last()));
    assert(c2 =~= c1.push(c2.last()));
    assert(c1 =~= e.push(c1.last()));
    lemma_asked(base, e, c1.last());
    lemma_asked(base, c1, c2.last());
    lemma_asked(base, c2, c3.last());
    lemma_asked(base, c3, c4.last());
    lemma_asked(base, c4, all.last());
    let q = storage::audits_sql(f, since, until);
    assert(q.values.take(bound(all).len() as int) =~= bound(all));
}

/// What a search of the timeline asks.
pub open spec fn timeline_asked(
    actor: Option<Seq<char>>,
    action: Option<Seq<char>>,
    target: Option<Seq<char>>,
    result: Option<Seq<char>>,
) -> Seq<(Seq<char>, Option<Seq<char>>)> {
    Seq::<(Seq<char>, Option<Seq<char>>)>::empty().push((" AND actor = ?"@, actor)).push(
        (" AND action = ?"@, action),
    ).push((" AND target LIKE ?"@, around(target))).push((" AND result = ?"@, result))
}

proof fn lemma_timeline(
    base: Seq<char>,
    actor: Option<Seq<char>>,
    action: Option<Seq<char>>,
    target: Option<Seq<char>>,
    result: Option<Seq<char>>,
)
    ensures
        ({
            let all = timeline_asked(actor, action, target, result);
            storage::timeline_conditions(
                SqlQueryView { sql: base, values: Seq::empty() },
                actor,
                action,
                target,
                result,
            ) == (SqlQueryView { sql: asked(base, all), values: bound(all) })
        }),
{
    let e = Seq::<(Seq<char>, Option<Seq<char>>)>::empty();
    let all = timeline_asked(actor, action, target, result);
    let c3 = all.drop_last();
    let c2 = c3.drop_last();
    let c1 = c2.drop_last();
    assert(c1.drop_last() =~= e);
    assert(all =~= c3.push(all.last()));
    assert(c3 =~= c2.push(c3.last()));
    assert(c2 =~= c1.push(c2.last()));
    assert(c1 =~= e.push(c1.last()));
    lemma_asked(base, e, c1.last());
    lemma_asked(base, c1, c2.last());
    lemma_asked(base, c2, c3.last());
    lemma_asked(base, c3, all.last());
}

/// A page of the timeline and the count for it ask the same; the page comes newest first unless it
/// is asked for the other way, with fifty entries where nothing is said.
pub proof fn law_timeline_searched(f: PolicyTimelineQuery)
    ensures
        ({
            let q = storage::page_sql(f);
            let count = storage::count_sql(f);
            let all = timeline_asked(
                f.actor.deep_view(),
                f.action.deep_view(),
                f.target_contains.deep_view(),
                f.result.deep_view(),
            );
            let n = bound(all).len() as int;
            let text = asked("SELECT audit_json FROM admin_audits WHERE 1=1"@, all);
            &&& count.sql == asked("SELECT COUNT(*) FROM admin_audits WHERE 1=1"@, all)
            &&& count.values == bound(all)
            &&& f.sort_dir.deep_view() == Some("asc"@) ==> q.sql == text
                + " ORDER BY timestamp ASC LIMIT ? OFFSET ?"@
            &&& f.sort_dir.deep_view() != Some("asc"@) ==> q.sql == text
                + " ORDER BY timestamp DESC LIMIT ? OFFSET ?"@
            &&& q.values.len() == n + 2 && q.values.take(n) == bound(all)
            &&& f.limit is None ==> q.values[n] == SqlValueView::Integer(50)
            &&& f.limit matches Some(k) ==> k <= i64::MAX ==> q.values[n] == SqlValueView::Integer(
                k as i64,
            )
            &&& f.offset is None ==> q.values[n + 1] == SqlValueView::Integer(0)
            &&& f.offset matches Some(k) ==> k <= i64::MAX ==> q.values[n + 1]
                == SqlValueView::Integer(k as i64)
        }),
{
    let actor = f.actor.deep_view();
    let action = f.action.deep_view();
    let target = f.target_contains.deep_view();
    let result = f.result.deep_view();
    lemma_timeline(
        "SELECT COUNT(*) FROM admin_audits WHERE 1=1"@,
        actor,
        action,
        target,
        result,
    );
    lemma_timeline(
        "SELECT audit_json FROM admin_audits WHERE 1=1"@,
        actor,
        action,
        target,
        result,
    );
    let all = timeline_asked(actor, action, target, result);
    assert(storage::page_sql(f).values.take(bound(all).len() as int) =~= bound(all));
}

/// The same of the timeline without a count.
pub proof fn law_timeline_filtered(f: PolicyTimelineFilters)
    ensures
        ({
            let q = storage::timeline_sql(f);
            let all = timeline_asked(
                f.actor.deep_view(),
                f.action.deep_view(),
                f.target_contains.deep_view(),
                f.result.deep_view(),
            );
            let n = bound(all).len() as int;
            &&& q.sql == asked("SELECT audit_json FROM admin_audits WHERE 1=1"@, all)
                + " ORDER BY timestamp DESC LIMIT ? OFFSET ?"@
            &&& q.values.len() == n + 2 && q.values.take(n) == bound(all)
            &&& f.limit is None ==> q.values[n] == SqlValueView::Integer(50)
            &&& f.limit matches Some(k) ==> k <= i64::MAX ==> q.values[n] == SqlValueView::Integer(
                k as i64,
            )
            &&& f.offset is None ==> q.values[n + 1] == SqlValueView::Integer(0)
            &&& f.offset matches Some(k) ==> k <= i64::MAX ==> q.values[n + 1]
                == SqlValueView::Integer(k as i64)
        }),
{
    let actor = f.actor.deep_view();
    let action = f.action.deep_view();
    let target = f.target_contains.deep_view();
    let result = f.result.deep_view();
    lemma_timeline(
        "SELECT audit_json FROM admin_audits WHERE 1=1"@,
        actor,
        action,
        target,
        result,
    );
    let all = timeline_asked(actor, action, target, result);
    assert(storage::timeline_sql(f).values.take(bound(all).len() as int) =~= bound(all));
}

proof fn lemma_top_rank(found: Seq<FindingView>)
    ensures
        0 <= storage::top_rank(found) <= 4,
        found.len() > 0 ==> exists|i: int|
            0 <= i < found.len() && telemetry_delivery::rank_of((#[trigger] found[i]).severity)
                == storage::top_rank(found),
        forall|i: int|
            0 <= i < found.len() ==> telemetry_delivery::rank_of((#[trigger] found[i]).severity)
                <= storage::top_rank(found),
    decreases found.len(),
{
    if found.len() > 0 {
        let before = found.drop_last();
        lemma_top_rank(before);
        assert(forall|i: int| 0 <= i < before.len() ==> before[i] == #[trigger] found[i]);
        assert(found.last() == found[found.len() - 1]);
        if before.len() > 0 {
            let i = choose|i: int|
                0 <= i < before.len() && telemetry_delivery::rank_of(
                    (#[trigger] before[i]).severity,
                ) == storage::top_rank(before);
            assert(found[i] == before[i]);
        }
    }
}

/// An event is kept under the highest of its severities; one without findings under the lowest.
pub proof fn law_kept_severity(found: Seq<FindingView>)
    ensures
        ({
            let kept = storage::rank_column(storage::top_rank(found) as i32);
            &&& found.len() == 0 ==> kept == "low"@
            &&& delivery::is_highest(found, Severity::Low) ==> kept == "low"@
            &&& delivery::is_highest(found, Severity::Medium) ==> kept == "medium"@
            &&& delivery::is_highest(found, Severity::High) ==> kept == "high"@
            &&& delivery::is_highest(found, Severity::Critical) ==> kept == "critical"@
        }),
{
    lemma_top_rank(found);
    let top = storage::top_rank(found);
    assert forall|s: Severity| #[trigger] delivery::is_highest(
        found,
        s,
    ) implies telemetry_delivery::rank_of(s) == top by {
        let i = choose|i: int| 0 <= i < found.len() && (#[trigger] found[i]).severity == s;
        assert(telemetry_delivery::rank_of(found[i].severity) <= top);
        let j = choose|j: int|
            0 <= j < found.len() && telemetry_delivery::rank_of((#[trigger] found[j]).severity)
                == top;
        assert(found[j].severity == found[j].severity);
    }
}

/// An outcome is kept as a word, a refusal with its status.
pub proof fn law_kept_outcome(outcome: DecisionOutcomeView)
    ensures
        outcome is Allow ==> telemetry_delivery::outcome_text(outcome) == "allow"@,
        outcome is Reject ==> telemetry_delivery::outcome_text(outcome) == "reject:"@
            + text::decimal_of(outcome->status_code as nat),
{
}

/// An action is kept under its name, with the time that it lasts.
pub proof fn law_kept_action(ttl_secs: u64)
    requires
        ttl_secs <= i64::MAX,
    ensures
        storage::action_columns_of(MitigationAction::BlockSourceIpTemporary { ttl_secs }) == (
            "block_source_ip_temporary"@,
            ttl_secs as int,
        ),
        storage::action_columns_of(MitigationAction::ThrottleSource { ttl_secs }) == (
            "throttle_source"@,
            ttl_secs as int,
        ),
        storage::action_columns_of(MitigationAction::MarkSourceSuspicious { ttl_secs }) == (
            "mark_source_suspicious"@,
            ttl_secs as int,
        ),
        storage::action_columns_of(MitigationAction::BlockRequest).0 == "block_request"@,
{
}

/// Two suppressions of rules share a key only where the rule and the prefix are the same, as long as
/// the names of rules hold no bar and no prefix is a star.
pub proof fn law_suppression_keys(
    a: Seq<char>,
    b: Seq<char>,
    p: Option<Seq<char>>,
    q: Option<Seq<char>>,
)
    requires
        !a.contains('|'),
        !b.contains('|'),
        p != Some(seq!['*']),
        q != Some(seq!['*']),
        storage::suppression_key_of(a, p) == storage::suppression_key_of(b, q),
    ensures
        a == b,
        p == q,
{
    reveal_strlit("|");
    reveal_strlit("|*");
    let star = seq!['*'];
    let x = match p {
        Some(s) => s,
        None => star,
    };
    let y = match q {
        Some(s) => s,
        None => star,
    };
    let bar = seq!['|'];
    assert("|"@ =~= bar);
    assert("|*"@ =~= bar + star);
    let k = a + bar + x;
    assert(storage::suppression_key_of(a, p) =~= k);
    assert(storage::suppression_key_of(b, q) =~= b + bar + y);
    if a.len() < b.len() {
        assert(k[a.len() as int] == '|');
        assert((b + bar + y)[a.len() as int] == b[a.len() as int]);
    }
    if b.len() < a.len() {
        assert((b + bar + y)[b.len() as int] == '|');
        assert(k[b.len() as int] == a[b.len() as int]);
    }
    assert(a =~= k.take(a.len() as int));
    assert(b =~= k.take(a.len() as int));
    assert(x =~= k.skip((a.len() + 1) as int));
    assert(y =~= k.skip((a.len() + 1) as int));
}

/// The newest lines come first, as many as are asked for and there are.
pub proof fn law_newest_lines(content: Seq<char>, limit: nat, i: int)
    ensures
        ({
            let all = journal::lines_of(content);
            let some = journal::recent_lines_of(content, limit);
            &&& some.len() <= limit && some.len() <= all.len()
            &&& some.len() == limit || some.len() == all.len()
            &&& 0 <= i < some.len() ==> some[i] == all[all.len() - 1 - i]
        }),
{
}

/// A line ends at its line feed, with or without a carriage return before it.
pub proof fn law_line_ends(line: Seq<char>)
    requires
        !line.contains('\n'),
        line.len() == 0 || line.last() != '\r',
    ensures
        journal::lines_of(line + seq!['\n']) == seq![line],
        journal::lines_of(line + seq!['\r', '\n']) == seq![line],
        line.len() > 0 ==> journal::lines_of(line) == seq![line],
        journal::lines_of(Seq::empty()).len() == 0,
{
    let e = Seq::<char>::empty();
    journal::law_appended_line_is_newest(e, line);
    assert(e + line + seq!['\n'] =~= line + seq!['\n']);
    assert(text::split_of(e, '\n') =~= seq![e]);
    assert(journal::lines_of(e) =~= Seq::empty());
    assert(Seq::<Seq<char>>::empty().push(line) =~= seq![line]);
    text::lemma_split_whole(line, '\n');
    assert(seq![line].drop_last() =~= Seq::empty());
    if line.len() > 0 {
        assert(journal::lines_of(line) =~= seq![line]);
    }
    let long = line + seq!['\r'];
    assert(!long.contains('\n'));
    text::lemma_split_whole(long, '\n');
    text::lemma_split_append(long, '\n', e);
    assert(long + seq!['\n'] + e =~= line + seq!['\r', '\n']);
    assert(long.drop_last() =~= line);
    assert(journal::lines_of(line + seq!['\r', '\n']) =~= seq![line]);
}

} // verus!
