//! What is asked of the database, and how records are written into its columns.

use crate::net;
use crate::outside;
use crate::records::{
    AdminAudit, PolicyTimelineEntry, PolicyTimelineEntryView, PolicyTimelinePage,
};
use crate::requests::{
    AuditSearchFilters, EventSearchFilters, PolicyTimelineFilters, PolicyTimelineQuery,
};
use crate::store::{ActiveMitigation, ActiveMitigationView};
use crate::telemetry_delivery;
use crate::text;
use crate::types::{
    FindingView, MitigationAction, SecurityEvent, Severity, SourceReputation, Timestamp,
};
use vstd::prelude::*;

verus! {

/// A value that is bound to a query.
#[derive(Debug)]
pub enum SqlValue {
    Text(String),
    Integer(i64),
}

#[verifier::ext_equal]
pub enum SqlValueView {
    Text(Seq<char>),
    Integer(i64),
}

impl DeepView for SqlValue {
    type V = SqlValueView;

    open spec fn deep_view(&self) -> SqlValueView {
        match self {
            SqlValue::Text(s) => SqlValueView::Text(s@),
            SqlValue::Integer(n) => SqlValueView::Integer(*n),
        }
    }
}

/// A query with one value for each of its question marks.
#[derive(Debug)]
pub struct SqlQuery {
    pub sql: String,
    pub values: Vec<SqlValue>,
}

#[verifier::ext_equal]
pub struct SqlQueryView {
    pub sql: Seq<char>,
    pub values: Seq<SqlValueView>,
}

impl DeepView for SqlQuery {
    type V = SqlQueryView;

    open spec fn deep_view(&self) -> SqlQueryView {
        SqlQueryView { sql: self.sql@, values: self.values.deep_view() }
    }
}

/// A query with a condition on a text added, where a value is given.
pub open spec fn with_text(q: SqlQueryView, condition: Seq<char>, v: Option<Seq<char>>) -> SqlQueryView {
    match v {
        Some(s) => SqlQueryView {
            sql: q.sql + condition,
            values: q.values.push(SqlValueView::Text(s)),
        },
        None => q,
    }
}

/// A pattern for texts that hold another.
pub open spec fn holding(v: Option<Seq<char>>) -> Option<Seq<char>> {
    match v {
        Some(s) => Some("%"@ + s + "%"@),
        None => None,
    }
}

pub open spec fn lowered(v: Option<Seq<char>>) -> Option<Seq<char>> {
    match v {
        Some(s) => Some(text::lower_of(s)),
        None => None,
    }
}

pub open spec fn raised(v: Option<Seq<char>>) -> Option<Seq<char>> {
    match v {
        Some(s) => Some(text::upper_of(s)),
        None => None,
    }
}

fn push_value(q: &mut SqlQuery, v: SqlValue)
    ensures
        final(q).deep_view() == (SqlQueryView {
            values: old(q).deep_view().values.push(v.deep_view()),
            ..old(q).deep_view()
        }),
{
    let ghost before = q.values.deep_view();
    let ghost view = v.deep_view();
    q.values.push(v);
    assert(q.values.deep_view() =~= before.push(view));
}

fn push_condition(q: &mut SqlQuery, condition: &str, v: Option<String>)
    ensures
        final(q).deep_view() == with_text(old(q).deep_view(), condition@, v.deep_view()),
{
    if let Some(s) = v {
        q.sql = text::cat2(q.sql.as_str(), condition);
        push_value(q, SqlValue::Text(s));
    }
}

fn hold_pattern(v: &Option<String>) -> (r: Option<String>)
    ensures
        r.deep_view() == holding(v.deep_view()),
{
    match v {
        Some(s) => Some(text::cat3("%", s.as_str(), "%")),
        None => None,
    }
}

fn lower(v: &Option<String>) -> (r: Option<String>)
    ensures
        r.deep_view() == lowered(v.deep_view()),
{
    match v {
        Some(s) => Some(text::to_ascii_lowercase(s.as_str())),
        None => None,
    }
}

fn raise(v: &Option<String>) -> (r: Option<String>)
    ensures
        r.deep_view() == raised(v.deep_view()),
{
    match v {
        Some(s) => Some(text::to_ascii_uppercase(s.as_str())),
        None => None,
    }
}

/// A number as the database holds it: what does not fit wraps round to a negative number.
pub open spec fn as_sql_integer(n: nat) -> int {
    if n <= i64::MAX {
        n as int
    } else {
        n - 0x1_0000_0000_0000_0000
    }
}

pub fn sql_integer(n: u64) -> (r: i64)
    ensures
        r == as_sql_integer(n as nat),
{
    if n <= 0x7fff_ffff_ffff_ffff {
        n as i64
    } else {
        -((0xffff_ffff_ffff_ffff - n) as i64) - 1
    }
}

/// The number that the database holds as an integer.
pub open spec fn from_sql_integer(n: i64) -> int {
    if n >= 0 {
        n as int
    } else {
        n + 0x1_0000_0000_0000_0000
    }
}

pub fn sql_unsigned(n: i64) -> (r: u64)
    ensures
        r == from_sql_integer(n),
{
    if n >= 0 {
        n as u64
    } else {
        0xffff_ffff_ffff_ffff - ((-(n + 1)) as u64)
    }
}

/// What is written as an integer is read back.
pub proof fn law_integers_kept(n: u64)
    ensures
        i64::MIN <= as_sql_integer(n as nat) <= i64::MAX,
        from_sql_integer(as_sql_integer(n as nat) as i64) == n,
{
}

/// The number of records of a page: twenty where none is given, held between one and 500.
pub open spec fn page_limit_of(limit: Option<usize>) -> nat {
    match limit {
        Some(n) => if n < 1 {
            1
        } else if n > 500 {
            500
        } else {
            n as nat
        },
        None => 20,
    }
}

fn page_limit(limit: Option<usize>) -> (r: u64)
    ensures
        r == page_limit_of(limit),
{
    match limit {
        Some(n) => if n < 1 {
            1
        } else if n > 500 {
            500
        } else {
            n as u64
        },
        None => 20,
    }
}

pub open spec fn given(n: Option<usize>, default: nat) -> nat {
    match n {
        Some(n) => n as nat,
        None => default,
    }
}

fn given_or(n: Option<usize>, default: usize) -> (r: u64)
    ensures
        r == given(n, default as nat),
{
    match n {
        Some(n) => n as u64,
        None => default as u64,
    }
}

/// A query with its last part and the two numbers of a page.
pub open spec fn paged(q: SqlQueryView, tail: Seq<char>, limit: nat, offset: nat) -> SqlQueryView {
    SqlQueryView {
        sql: q.sql + tail,
        values: q.values.push(SqlValueView::Integer(as_sql_integer(limit) as i64)).push(
            SqlValueView::Integer(as_sql_integer(offset) as i64),
        ),
    }
}

fn add_page(q: &mut SqlQuery, tail: &str, limit: u64, offset: u64)
    ensures
        final(q).deep_view() == paged(old(q).deep_view(), tail@, limit as nat, offset as nat),
{
    q.sql = text::cat2(q.sql.as_str(), tail);
    push_value(q, SqlValue::Integer(sql_integer(limit)));
    push_value(q, SqlValue::Integer(sql_integer(offset)));
}

/// The same point in time in UTC, or what is wrong with the text.
pub open spec fn utc_text_of(input: Seq<char>) -> Result<Seq<char>, Seq<char>> {
    match outside::rfc3339_read(input) {
        Ok(t) => Ok(t.0),
        Err(e) => Err(e),
    }
}

pub fn normalize_rfc3339(input: &str) -> (r: Result<String, String>)
    ensures
        (match r {
            Ok(s) => Ok(s@),
            Err(e) => Err(e@),
        }) == utc_text_of(input@),
{
    match outside::read_rfc3339(input) {
        Ok(t) => Ok(t.0),
        Err(e) => Err(e),
    }
}

/// An optional time read, and what is wrong with it.
pub open spec fn read_time(v: Option<Seq<char>>) -> Result<Option<Seq<char>>, Seq<char>> {
    match v {
        None => Ok(None),
        Some(s) => match utc_text_of(s) {
            Ok(t) => Ok(Some(t)),
            Err(e) => Err(e),
        },
    }
}

fn normalize_time(v: &Option<String>) -> (r: Result<Option<String>, String>)
    ensures
        (match r {
            Ok(t) => Ok(t.deep_view()),
            Err(e) => Err(e@),
        }) == read_time(v.deep_view()),
{
    match v {
        None => Ok(None),
        Some(s) => match normalize_rfc3339(s.as_str()) {
            Ok(t) => Ok(Some(t)),
            Err(e) => Err(e),
        },
    }
}

fn new_query(sql: &str) -> (r: SqlQuery)
    ensures
        r.deep_view() == (SqlQueryView { sql: sql@, values: Seq::empty() }),
{
    let values: Vec<SqlValue> = Vec::new();
    assert(values.deep_view() =~= Seq::empty());
    SqlQuery { sql: sql.to_string(), values }
}

/// The query for security events, given the limits in time in UTC.
pub open spec fn events_sql(
    f: EventSearchFilters,
    since: Option<Seq<char>>,
    until: Option<Seq<char>>,
) -> SqlQueryView {
    let q0 = SqlQueryView {
        sql: "SELECT event_json FROM security_events WHERE 1=1"@,
        values: Seq::empty(),
    };
    let q1 = with_text(q0, " AND source_ip = ?"@, f.source_ip.deep_view());
    let q2 = with_text(q1, " AND rule_ids LIKE ?"@, holding(f.rule_id.deep_view()));
    let q3 = with_text(q2, " AND highest_severity = ?"@, lowered(f.severity.deep_view()));
    let q4 = with_text(q3, " AND method = ?"@, raised(f.method.deep_view()));
    let q5 = with_text(q4, " AND path LIKE ?"@, holding(f.path_contains.deep_view()));
    let q6 = with_text(q5, " AND timestamp >= ?"@, since);
    let q7 = with_text(q6, " AND timestamp <= ?"@, until);
    paged(
        q7,
        " ORDER BY timestamp DESC LIMIT ? OFFSET ?"@,
        page_limit_of(f.limit),
        given(f.offset, 0),
    )
}

/// Writes the query for security events, given the limits in time in UTC.
pub fn write_events_query(
    filters: &EventSearchFilters,
    since: Option<String>,
    until: Option<String>,
) -> (r: SqlQuery)
    ensures
        r.deep_view() == events_sql(*filters, since.deep_view(), until.deep_view()),
{
    let mut q = new_query("SELECT event_json FROM security_events WHERE 1=1");
    push_condition(&mut q, " AND source_ip = ?", text::clone_option(&filters.source_ip));
    push_condition(&mut q, " AND rule_ids LIKE ?", hold_pattern(&filters.rule_id));
    push_condition(&mut q, " AND highest_severity = ?", lower(&filters.severity));
    push_condition(&mut q, " AND method = ?", raise(&filters.method));
    push_condition(&mut q, " AND path LIKE ?", hold_pattern(&filters.path_contains));
    push_condition(&mut q, " AND timestamp >= ?", since);
    push_condition(&mut q, " AND timestamp <= ?", until);
    add_page(
        &mut q,
        " ORDER BY timestamp DESC LIMIT ? OFFSET ?",
        page_limit(filters.limit),
        given_or(filters.offset, 0),
    );
    q
}

/// The query for security events, or what is wrong with the times in it.
pub open spec fn events_query_of(f: EventSearchFilters) -> Result<SqlQueryView, Seq<char>> {
    match read_time(f.since.deep_view()) {
        Err(e) => Err(e),
        Ok(since) => match read_time(f.until.deep_view()) {
            Err(e) => Err(e),
            Ok(until) => Ok(events_sql(f, since, until)),
        },
    }
}

pub fn query_security_events(filters: &EventSearchFilters) -> (r: Result<SqlQuery, String>)
    ensures
        (match r {
            Ok(q) => Ok(q.deep_view()),
            Err(e) => Err(e@),
        }) == events_query_of(*filters),
{
    let since = match normalize_time(&filters.since) {
        Ok(t) => t,
        Err(e) => return Err(e),
    };
    let until = match normalize_time(&filters.until) {
        Ok(t) => t,
        Err(e) => return Err(e),
    };
    Ok(write_events_query(filters, since, until))
}

/// The filters for the latest events about broken response contracts.
pub fn recent_response_contract_mismatch_events(limit: usize) -> (r: EventSearchFilters)
    ensures
        r.rule_id.deep_view() == Some("response.contract_mismatch"@),
        r.source_ip is None,
        r.severity is None,
        r.method is None,
        r.path_contains is None,
        r.since is None,
        r.until is None,
        r.limit == Some(limit),
        r.offset == Some(0usize),
{
    EventSearchFilters {
        source_ip: None,
        rule_id: Some("response.contract_mismatch".to_string()),
        severity: None,
        method: None,
        path_contains: None,
        since: None,
        until: None,
        limit: Some(limit),
        offset: Some(0),
    }
}

/// The query for what administrators did, given the limits in time in UTC.
pub open spec fn audits_sql(
    f: AuditSearchFilters,
    since: Option<Seq<char>>,
    until: Option<Seq<char>>,
) -> SqlQueryView {
    let q0 = SqlQueryView {
        sql: "SELECT audit_json FROM admin_audits WHERE 1=1"@,
        values: Seq::empty(),
    };
    let q1 = with_text(q0, " AND actor = ?"@, f.actor.deep_view());
    let q2 = with_text(q1, " AND action = ?"@, f.action.deep_view());
    let q3 = with_text(q2, " AND target LIKE ?"@, holding(f.target.deep_view()));
    let q4 = with_text(q3, " AND timestamp >= ?"@, since);
    let q5 = with_text(q4, " AND timestamp <= ?"@, until);
    paged(
        q5,
        " ORDER BY timestamp DESC LIMIT ? OFFSET ?"@,
        page_limit_of(f.limit),
        given(f.offset, 0),
    )
}

/// Writes the query for what administrators did, given the limits in time in UTC.
pub fn write_audits_query(
    filters: &AuditSearchFilters,
    since: Option<String>,
    until: Option<String>,
) -> (r: SqlQuery)
    ensures
        r.deep_view() == audits_sql(*filters, since.deep_view(), until.deep_view()),
{
    let mut q = new_query("SELECT audit_json FROM admin_audits WHERE 1=1");
    push_condition(&mut q, " AND actor = ?", text::clone_option(&filters.actor));
    push_condition(&mut q, " AND action = ?", text::clone_option(&filters.action));
    push_condition(&mut q, " AND target LIKE ?", hold_pattern(&filters.target));
    push_condition(&mut q, " AND timestamp >= ?", since);
    push_condition(&mut q, " AND timestamp <= ?", until);
    add_page(
        &mut q,
        " ORDER BY timestamp DESC LIMIT ? OFFSET ?",
        page_limit(filters.limit),
        given_or(filters.offset, 0),
    );
    q
}

/// The query for what administrators did, or what is wrong with the times in it.
pub open spec fn audits_query_of(f: AuditSearchFilters) -> Result<SqlQueryView, Seq<char>> {
    match read_time(f.since.deep_view()) {
        Err(e) => Err(e),
        Ok(since) => match read_time(f.until.deep_view()) {
            Err(e) => Err(e),
            Ok(until) => Ok(audits_sql(f, since, until)),
        },
    }
}

pub fn query_admin_audits(filters: &AuditSearchFilters) -> (r: Result<SqlQuery, String>)
    ensures
        (match r {
            Ok(q) => Ok(q.deep_view()),
            Err(e) => Err(e@),
        }) == audits_query_of(*filters),
{
    let since = match normalize_time(&filters.since) {
        Ok(t) => t,
        Err(e) => return Err(e),
    };
    let until = match normalize_time(&filters.until) {
        Ok(t) => t,
        Err(e) => return Err(e),
    };
    Ok(write_audits_query(filters, since, until))
}

/// A query with the conditions on the history of the policy.
pub open spec fn timeline_conditions(
    q: SqlQueryView,
    actor: Option<Seq<char>>,
    action: Option<Seq<char>>,
    target_contains: Option<Seq<char>>,
    result: Option<Seq<char>>,
) -> SqlQueryView {
    let q1 = with_text(q, " AND actor = ?"@, actor);
    let q2 = with_text(q1, " AND action = ?"@, action);
    let q3 = with_text(q2, " AND target LIKE ?"@, holding(target_contains));
    with_text(q3, " AND result = ?"@, result)
}

fn push_timeline_conditions(
    q: &mut SqlQuery,
    actor: &Option<String>,
    action: &Option<String>,
    target_contains: &Option<String>,
    result: &Option<String>,
)
    ensures
        final(q).deep_view() == timeline_conditions(
            old(q).deep_view(),
            actor.deep_view(),
            action.deep_view(),
            target_contains.deep_view(),
            result.deep_view(),
        ),
{
    push_condition(q, " AND actor = ?", text::clone_option(actor));
    push_condition(q, " AND action = ?", text::clone_option(action));
    push_condition(q, " AND target LIKE ?", hold_pattern(target_contains));
    push_condition(q, " AND result = ?", text::clone_option(result));
}

/// The query for a part of the history of the policy.
pub open spec fn timeline_sql(f: PolicyTimelineFilters) -> SqlQueryView {
    paged(
        timeline_conditions(
            SqlQueryView {
                sql: "SELECT audit_json FROM admin_audits WHERE 1=1"@,
                values: Seq::empty(),
            },
            f.actor.deep_view(),
            f.action.deep_view(),
            f.target_contains.deep_view(),
            f.result.deep_view(),
        ),
        " ORDER BY timestamp DESC LIMIT ? OFFSET ?"@,
        given(f.limit, 50),
        given(f.offset, 0),
    )
}

pub fn query_policy_timeline_filtered(filters: &PolicyTimelineFilters) -> (r: SqlQuery)
    ensures
        r.deep_view() == timeline_sql(*filters),
{
    let mut q = new_query("SELECT audit_json FROM admin_audits WHERE 1=1");
    push_timeline_conditions(
        &mut q,
        &filters.actor,
        &filters.action,
        &filters.target_contains,
        &filters.result,
    );
    add_page(
        &mut q,
        " ORDER BY timestamp DESC LIMIT ? OFFSET ?",
        given_or(filters.limit, 50),
        given_or(filters.offset, 0),
    );
    q
}

/// Whether the oldest entries come first: only where that is asked for.
pub open spec fn oldest_first(sort_dir: Option<Seq<char>>) -> bool {
    sort_dir == Some("asc"@)
}

/// The queries for the number of entries of the history and for one page of them.
#[derive(Debug)]
pub struct TimelinePageQuery {
    pub count: SqlQuery,
    pub page: SqlQuery,
    pub limit: usize,
    pub offset: usize,
    pub sort_dir: String,
}

pub open spec fn count_sql(f: PolicyTimelineQuery) -> SqlQueryView {
    timeline_conditions(
        SqlQueryView { sql: "SELECT COUNT(*) FROM admin_audits WHERE 1=1"@, values: Seq::empty() },
        f.actor.deep_view(),
        f.action.deep_view(),
        f.target_contains.deep_view(),
        f.result.deep_view(),
    )
}

pub open spec fn page_sql(f: PolicyTimelineQuery) -> SqlQueryView {
    paged(
        timeline_conditions(
            SqlQueryView {
                sql: "SELECT audit_json FROM admin_audits WHERE 1=1"@,
                values: Seq::empty(),
            },
            f.actor.deep_view(),
            f.action.deep_view(),
            f.target_contains.deep_view(),
            f.result.deep_view(),
        ),
        if oldest_first(f.sort_dir.deep_view()) {
            " ORDER BY timestamp ASC LIMIT ? OFFSET ?"@
        } else {
            " ORDER BY timestamp DESC LIMIT ? OFFSET ?"@
        },
        given(f.limit, 50),
        given(f.offset, 0),
    )
}

pub fn query_policy_timeline_page(filters: &PolicyTimelineQuery) -> (r: TimelinePageQuery)
    ensures
        r.count.deep_view() == count_sql(*filters),
        r.page.deep_view() == page_sql(*filters),
        r.limit == given(filters.limit, 50),
        r.offset == given(filters.offset, 0),
        r.sort_dir@ == (if oldest_first(filters.sort_dir.deep_view()) {
            "asc"@
        } else {
            "desc"@
        }),
{
    let mut count = new_query("SELECT COUNT(*) FROM admin_audits WHERE 1=1");
    push_timeline_conditions(
        &mut count,
        &filters.actor,
        &filters.action,
        &filters.target_contains,
        &filters.result,
    );
    let mut page = new_query("SELECT audit_json FROM admin_audits WHERE 1=1");
    push_timeline_conditions(
        &mut page,
        &filters.actor,
        &filters.action,
        &filters.target_contains,
        &filters.result,
    );
    let ascending = match &filters.sort_dir {
        Some(d) => text::same(d.as_str(), "asc"),
        None => false,
    };
    let tail = if ascending {
        " ORDER BY timestamp ASC LIMIT ? OFFSET ?"
    } else {
        " ORDER BY timestamp DESC LIMIT ? OFFSET ?"
    };
    add_page(&mut page, tail, given_or(filters.limit, 50), given_or(filters.offset, 0));
    let limit: usize = match filters.limit {
        Some(n) => n,
        None => 50,
    };
    let offset: usize = match filters.offset {
        Some(n) => n,
        None => 0,
    };
    let sort_dir = if ascending {
        "asc".to_string()
    } else {
        "desc".to_string()
    };
    TimelinePageQuery { count, page, limit, offset, sort_dir }
}

/// The page of the history where nothing was stored yet. The order is named as it was asked for.
pub fn empty_timeline_page(filters: &PolicyTimelineQuery) -> (r: PolicyTimelinePage)
    ensures
        r.items.deep_view() == Seq::<PolicyTimelineEntryView>::empty(),
        r.total == 0,
        r.limit == given(filters.limit, 50),
        r.offset == given(filters.offset, 0),
        r.sort_dir@ == (match filters.sort_dir.deep_view() {
            Some(d) => d,
            None => "desc"@,
        }),
{
    let items: Vec<PolicyTimelineEntry> = Vec::new();
    assert(items.deep_view() =~= Seq::empty());
    let limit: usize = match filters.limit {
        Some(n) => n,
        None => 50,
    };
    let offset: usize = match filters.offset {
        Some(n) => n,
        None => 0,
    };
    let sort_dir = match &filters.sort_dir {
        Some(d) => d.clone(),
        None => "desc".to_string(),
    };
    PolicyTimelinePage { items, total: 0, limit, offset, sort_dir }
}

/// The step in the history that an audit record stands for.
pub fn timeline_entry(audit: AdminAudit) -> (r: PolicyTimelineEntry)
    ensures
        r.timestamp == audit.timestamp,
        r.actor == audit.actor,
        r.action == audit.action,
        r.target == audit.target,
        r.result == audit.result,
        r.details == audit.details,
{
    PolicyTimelineEntry {
        timestamp: audit.timestamp,
        actor: audit.actor,
        action: audit.action,
        target: audit.target,
        result: audit.result,
        details: audit.details,
    }
}

/// The columns of a security event that are searched.
#[derive(Debug)]
pub struct EventColumns {
    pub rule_ids: String,
    pub highest_severity: String,
    pub outcome: String,
}

pub fn severity_rank(severity: &Severity) -> (r: i32)
    ensures
        r == telemetry_delivery::rank_of(*severity),
{
    match severity {
        Severity::Low => 1,
        Severity::Medium => 2,
        Severity::High => 3,
        Severity::Critical => 4,
    }
}

pub open spec fn rank_column(rank: i32) -> Seq<char> {
    if rank == 4 {
        "critical"@
    } else if rank == 3 {
        "high"@
    } else if rank == 2 {
        "medium"@
    } else {
        "low"@
    }
}

pub fn rank_to_severity_name(rank: i32) -> (r: &'static str)
    ensures
        r@ == rank_column(rank),
{
    match rank {
        4 => "critical",
        3 => "high",
        2 => "medium",
        _ => "low",
    }
}

/// The highest rank of some findings, zero where there are none.
pub open spec fn top_rank(findings: Seq<FindingView>) -> int
    decreases findings.len(),
{
    if findings.len() == 0 {
        0
    } else {
        let before = top_rank(findings.drop_last());
        let last = telemetry_delivery::rank_of(findings.last().severity) as int;
        if last > before {
            last
        } else {
            before
        }
    }
}

/// What is stored of an event besides the event itself.
pub fn event_columns(event: &SecurityEvent) -> (r: EventColumns)
    ensures
        r.rule_ids@ == text::join_of(
            telemetry_delivery::rule_ids_of(event.findings.deep_view()),
            ","@,
        ),
        r.highest_severity@ == rank_column(top_rank(event.findings.deep_view()) as i32),
        r.outcome@ == telemetry_delivery::outcome_text(event.decision.outcome.deep_view()),
{
    let ids = telemetry_delivery::list_rule_ids(&event.findings);
    let rule_ids = text::join(&ids, ",");
    let findings = &event.findings;
    let ghost all = findings.deep_view();
    let mut top: i32 = 0;
    let mut i: usize = 0;
    assert(all.take(0) =~= Seq::empty());
    while i < findings.len()
        invariant
            i <= findings@.len(),
            all == findings.deep_view(),
            top == top_rank(all.take(i as int)),
        decreases findings@.len() - i,
    {
        assert(all.take(i + 1).drop_last() =~= all.take(i as int));
        assert(all.take(i + 1).last() == findings@[i as int].deep_view());
        let rank = severity_rank(&findings[i].severity);
        if rank > top {
            top = rank;
        }
        i = i + 1;
    }
    assert(all.take(i as int) =~= all);
    EventColumns {
        rule_ids,
        highest_severity: rank_to_severity_name(top).to_string(),
        outcome: telemetry_delivery::outcome_name(&event.decision.outcome),
    }
}

/// The columns in which an action is stored: its kind, and how long it lasts.
pub open spec fn action_columns_of(action: MitigationAction) -> (Seq<char>, int) {
    match action {
        MitigationAction::BlockSourceIpTemporary { ttl_secs } => (
            "block_source_ip_temporary"@,
            as_sql_integer(ttl_secs as nat),
        ),
        MitigationAction::ThrottleSource { ttl_secs } => (
            "throttle_source"@,
            as_sql_integer(ttl_secs as nat),
        ),
        MitigationAction::MarkSourceSuspicious { ttl_secs } => (
            "mark_source_suspicious"@,
            as_sql_integer(ttl_secs as nat),
        ),
        MitigationAction::BlockRequest => ("block_request"@, 0),
    }
}

pub fn action_columns(action: &MitigationAction) -> (r: (String, i64))
    ensures
        (r.0@, r.1 as int) == action_columns_of(*action),
{
    match action {
        MitigationAction::BlockSourceIpTemporary { ttl_secs } => (
            "block_source_ip_temporary".to_string(),
            sql_integer(*ttl_secs),
        ),
        MitigationAction::ThrottleSource { ttl_secs } => (
            "throttle_source".to_string(),
            sql_integer(*ttl_secs),
        ),
        MitigationAction::MarkSourceSuspicious { ttl_secs } => (
            "mark_source_suspicious".to_string(),
            sql_integer(*ttl_secs),
        ),
        MitigationAction::BlockRequest => ("block_request".to_string(), 0),
    }
}

/// The action that is read from its columns; a kind that is not known is read as a block.
pub open spec fn action_from(kind: Seq<char>, ttl_secs: i64) -> MitigationAction {
    let ttl = from_sql_integer(ttl_secs) as u64;
    if kind == "throttle_source"@ {
        MitigationAction::ThrottleSource { ttl_secs: ttl }
    } else if kind == "mark_source_suspicious"@ {
        MitigationAction::MarkSourceSuspicious { ttl_secs: ttl }
    } else {
        MitigationAction::BlockSourceIpTemporary { ttl_secs: ttl }
    }
}

pub fn read_action(kind: &str, ttl_secs: i64) -> (r: MitigationAction)
    ensures
        r == action_from(kind@, ttl_secs),
{
    let ttl: u64 = sql_unsigned(ttl_secs);
    if text::same(kind, "throttle_source") {
        MitigationAction::ThrottleSource { ttl_secs: ttl }
    } else if text::same(kind, "mark_source_suspicious") {
        MitigationAction::MarkSourceSuspicious { ttl_secs: ttl }
    } else {
        MitigationAction::BlockSourceIpTemporary { ttl_secs: ttl }
    }
}

/// The point in time some seconds and nanoseconds after the Unix epoch.
pub open spec fn instant_of(secs: i64, nanos: u32) -> Timestamp {
    (secs * 1_000_000_000 + nanos) as i128
}

/// The point in time that a text writes, if it writes one.
pub open spec fn timestamp_from(input: Seq<char>) -> Option<Timestamp> {
    match outside::rfc3339_read(input) {
        Ok(t) => Some(instant_of(t.1, t.2)),
        Err(_) => None,
    }
}

fn read_timestamp(input: &str) -> (r: Option<Timestamp>)
    ensures
        r == timestamp_from(input@),
{
    match outside::read_rfc3339(input) {
        Ok(t) => Some(t.1 as i128 * 1_000_000_000 + t.2 as i128),
        Err(_) => None,
    }
}

/// A mitigation from its columns: none where the address or one of the times cannot be read.
pub open spec fn mitigation_from(
    source_ip: Seq<char>,
    action_id: Seq<char>,
    kind: Seq<char>,
    ttl_secs: i64,
    created_at: Option<Timestamp>,
    expires_at: Option<Timestamp>,
    reason: Seq<char>,
) -> Option<ActiveMitigationView> {
    match (net::canonical_ip_of(source_ip), created_at, expires_at) {
        (Some(source_ip), Some(created_at), Some(expires_at)) => Some(
            ActiveMitigationView {
                action_id,
                source_ip,
                action: action_from(kind, ttl_secs),
                created_at,
                expires_at,
                reason,
            },
        ),
        _ => None,
    }
}

/// A mitigation from its columns, the times being read already.
pub fn mitigation_at(
    source_ip: &str,
    action_id: String,
    kind: &str,
    ttl_secs: i64,
    created_at: Option<Timestamp>,
    expires_at: Option<Timestamp>,
    reason: String,
) -> (r: Option<ActiveMitigation>)
    ensures
        r.deep_view() == mitigation_from(
            source_ip@,
            action_id@,
            kind@,
            ttl_secs,
            created_at,
            expires_at,
            reason@,
        ),
{
    match (net::canonical_ip(source_ip), created_at, expires_at) {
        (Some(source_ip), Some(created_at), Some(expires_at)) => Some(
            ActiveMitigation {
                action_id,
                source_ip,
                action: read_action(kind, ttl_secs),
                created_at,
                expires_at,
                reason,
            },
        ),
        _ => None,
    }
}

/// Reads a mitigation from the columns of its row.
pub fn read_mitigation(
    source_ip: &str,
    action_id: String,
    kind: &str,
    ttl_secs: i64,
    created_at: &str,
    expires_at: &str,
    reason: String,
) -> (r: Option<ActiveMitigation>)
    ensures
        r.deep_view() == mitigation_from(
            source_ip@,
            action_id@,
            kind@,
            ttl_secs,
            timestamp_from(created_at@),
            timestamp_from(expires_at@),
            reason@,
        ),
{
    let created = read_timestamp(created_at);
    let expires = read_timestamp(expires_at);
    mitigation_at(source_ip, action_id, kind, ttl_secs, created, expires, reason)
}

/// Reads the reputation of a source from the columns of its row; none where the time cannot be read.
pub fn read_reputation(source_ip: String, suspicious_score: i32, last_seen_at: &str) -> (r: Option<
    SourceReputation,
>)
    ensures
        match r {
            Some(found) => timestamp_from(last_seen_at@) == Some(found.last_seen_at)
                && found.source_ip@ == source_ip@ && found.suspicious_score == suspicious_score,
            None => timestamp_from(last_seen_at@) is None,
        },
{
    match read_timestamp(last_seen_at) {
        Some(last_seen_at) => Some(SourceReputation { source_ip, suspicious_score, last_seen_at }),
        None => None,
    }
}

/// An action that lasts for some time is read back as it was stored.
pub proof fn law_actions_kept(action: MitigationAction)
    requires
        !(action is BlockRequest),
    ensures
        action_from(action_columns_of(action).0, action_columns_of(action).1 as i64) == action,
{
    reveal_strlit("block_source_ip_temporary");
    reveal_strlit("throttle_source");
    reveal_strlit("mark_source_suspicious");
    assert("block_source_ip_temporary"@.len() == 25);
    assert("throttle_source"@.len() == 15);
    assert("mark_source_suspicious"@.len() == 22);
}

/// A mitigation that lasts for some time is read back from its columns as it was stored, where its
/// times are read back.
pub proof fn law_mitigation_read_back(m: ActiveMitigationView, source_ip: Seq<char>)
    requires
        net::canonical_ip_of(source_ip) == Some(m.source_ip),
        !(m.action is BlockRequest),
    ensures
        mitigation_from(
            m.source_ip,
            m.action_id,
            action_columns_of(m.action).0,
            action_columns_of(m.action).1 as i64,
            Some(m.created_at),
            Some(m.expires_at),
            m.reason,
        ) == Some(m),
{
    net::law_canonical_text(source_ip, source_ip);
    law_actions_kept(m.action);
}

/// The key under which a suppression is stored.
pub open spec fn suppression_key_of(rule_id: Seq<char>, path_prefix: Option<Seq<char>>) -> Seq<
    char,
> {
    match path_prefix {
        Some(prefix) => rule_id + "|"@ + prefix,
        None => rule_id + "|*"@,
    }
}

pub fn suppression_key(rule_id: &str, path_prefix: Option<&str>) -> (r: String)
    ensures
        r@ == suppression_key_of(rule_id@, path_prefix.deep_view()),
{
    match path_prefix {
        Some(prefix) => text::cat3(rule_id, "|", prefix),
        None => text::cat2(rule_id, "|*"),
    }
}

/// The key under which an allowlist entry of two parts is stored.
pub fn allowlist_key(a: &str, b: &str) -> (r: String)
    ensures
        r@ == a@ + "|"@ + b@,
{
    text::cat3(a, "|", b)
}

/// The key under which an allowlist entry of three parts is stored.
pub fn tri_scoped_key(a: &str, b: &str, c: &str) -> (r: String)
    ensures
        r@ == a@ + "|"@ + b@ + "|"@ + c@,
{
    text::cat5(a, "|", b, "|", c)
}

/// How much is stored of each kind.
#[derive(Debug)]
pub struct StorageMetrics {
    pub total_events: i64,
    pub blocked_events: i64,
    pub total_audits: i64,
    pub latest_rule_ids: String,
    pub persisted_active_mitigations: i64,
    pub persisted_reputations: i64,
    pub persisted_learned_routes: i64,
    pub persisted_behavior_snapshots: i64,
    pub approved_shadow_routes: i64,
    pub promoted_spec_routes: i64,
    pub managed_spec_routes: i64,
    pub analyst_suppressions: i64,
    pub source_allowlist_entries: i64,
    pub principal_allowlist_entries: i64,
    pub response_contracts: i64,
    pub policy_bundles: i64,
    pub scoped_source_allowlist_entries: i64,
    pub scoped_principal_allowlist_entries: i64,
    pub tri_scoped_allowlist_entries: i64,
    pub restore_refusals: i64,
    pub managed_spec_release_states: i64,
    pub restore_refusal_alerts: i64,
    pub critical_restore_refusal_alerts: i64,
}

impl Default for StorageMetrics {
    fn default() -> (r: Self)
        ensures
            r.total_events == 0,
            r.blocked_events == 0,
            r.total_audits == 0,
            r.latest_rule_ids@ == Seq::<char>::empty(),
            r.persisted_active_mitigations == 0,
            r.persisted_reputations == 0,
            r.persisted_learned_routes == 0,
            r.persisted_behavior_snapshots == 0,
            r.approved_shadow_routes == 0,
            r.promoted_spec_routes == 0,
            r.managed_spec_routes == 0,
            r.analyst_suppressions == 0,
            r.source_allowlist_entries == 0,
            r.principal_allowlist_entries == 0,
            r.response_contracts == 0,
            r.policy_bundles == 0,
            r.scoped_source_allowlist_entries == 0,
            r.scoped_principal_allowlist_entries == 0,
            r.tri_scoped_allowlist_entries == 0,
            r.restore_refusals == 0,
            r.managed_spec_release_states == 0,
            r.restore_refusal_alerts == 0,
            r.critical_restore_refusal_alerts == 0,
    {
        StorageMetrics {
            total_events: 0,
            blocked_events: 0,
            total_audits: 0,
            latest_rule_ids: String::new(),
            persisted_active_mitigations: 0,
            persisted_reputations: 0,
            persisted_learned_routes: 0,
            persisted_behavior_snapshots: 0,
            approved_shadow_routes: 0,
            promoted_spec_routes: 0,
            managed_spec_routes: 0,
            analyst_suppressions: 0,
            source_allowlist_entries: 0,
            principal_allowlist_entries: 0,
            response_contracts: 0,
            policy_bundles: 0,
            scoped_source_allowlist_entries: 0,
            scoped_principal_allowlist_entries: 0,
            tri_scoped_allowlist_entries: 0,
            restore_refusals: 0,
            managed_spec_release_states: 0,
            restore_refusal_alerts: 0,
            critical_restore_refusal_alerts: 0,
        }
    }
}

/// What is counted for the metrics, each with a query of its own.
pub open spec fn metric_queries() -> Seq<Seq<char>> {
    seq![
        "SELECT COUNT(*) FROM security_events"@,
        "SELECT COUNT(*) FROM security_events WHERE outcome LIKE 'reject:%'"@,
        "SELECT COUNT(*) FROM admin_audits"@,
        "SELECT COUNT(*) FROM active_mitigations"@,
        "SELECT COUNT(*) FROM reputations"@,
        "SELECT COUNT(*) FROM learned_routes"@,
        "SELECT COUNT(*) FROM behavior_snapshots"@,
        "SELECT COUNT(*) FROM approved_shadow_routes"@,
        "SELECT COUNT(*) FROM promoted_spec_routes"@,
        "SELECT COUNT(*) FROM managed_spec_routes"@,
        "SELECT COUNT(*) FROM analyst_suppressions"@,
        "SELECT COUNT(*) FROM source_allowlist"@,
        "SELECT COUNT(*) FROM principal_allowlist"@,
        "SELECT COUNT(*) FROM response_contracts"@,
        "SELECT COUNT(*) FROM policy_bundles"@,
        "SELECT COUNT(*) FROM scoped_source_allowlist"@,
        "SELECT COUNT(*) FROM scoped_principal_allowlist"@,
        "SELECT COUNT(*) FROM tri_scoped_allowlist"@,
        "SELECT COUNT(*) FROM restore_refusals"@,
        "SELECT COUNT(*) FROM managed_spec_release_state"@,
        "SELECT COUNT(*) FROM restore_refusal_alerts"@,
        "SELECT COUNT(*) FROM restore_refusal_alerts WHERE severity = 'critical' AND status != 'resolved'"@,
    ]
}

/// The queries whose counts make up the metrics.
pub fn metrics_sql() -> (r: Vec<String>)
    ensures
        r.deep_view() == metric_queries(),
{
    let mut out: Vec<String> = Vec::new();
    out.push("SELECT COUNT(*) FROM security_events".to_string());
    out.push("SELECT COUNT(*) FROM security_events WHERE outcome LIKE 'reject:%'".to_string());
    out.push("SELECT COUNT(*) FROM admin_audits".to_string());
    out.push("SELECT COUNT(*) FROM active_mitigations".to_string());
    out.push("SELECT COUNT(*) FROM reputations".to_string());
    out.push("SELECT COUNT(*) FROM learned_routes".to_string());
    out.push("SELECT COUNT(*) FROM behavior_snapshots".to_string());
    out.push("SELECT COUNT(*) FROM approved_shadow_routes".to_string());
    out.push("SELECT COUNT(*) FROM promoted_spec_routes".to_string());
    out.push("SELECT COUNT(*) FROM managed_spec_routes".to_string());
    out.push("SELECT COUNT(*) FROM analyst_suppressions".to_string());
    out.push("SELECT COUNT(*) FROM source_allowlist".to_string());
    out.push("SELECT COUNT(*) FROM principal_allowlist".to_string());
    out.push("SELECT COUNT(*) FROM response_contracts".to_string());
    out.push("SELECT COUNT(*) FROM policy_bundles".to_string());
    out.push("SELECT COUNT(*) FROM scoped_source_allowlist".to_string());
    out.push("SELECT COUNT(*) FROM scoped_principal_allowlist".to_string());
    out.push("SELECT COUNT(*) FROM tri_scoped_allowlist".to_string());
    out.push("SELECT COUNT(*) FROM restore_refusals".to_string());
    out.push("SELECT COUNT(*) FROM managed_spec_release_state".to_string());
    out.push("SELECT COUNT(*) FROM restore_refusal_alerts".to_string());
    out.push("SELECT COUNT(*) FROM restore_refusal_alerts WHERE severity = 'critical' AND status != 'resolved'".to_string());
    assert(out.deep_view() =~= metric_queries());
    out
}

/// The query for the rules that the latest event with a rule has met.
pub const LATEST_RULES_SQL: &'static str =
    "SELECT rule_ids FROM security_events WHERE rule_ids <> '' ORDER BY timestamp DESC LIMIT 1";

/// The metrics from the counts that the queries gave, in their order, and the rules of the latest
/// event. There are none where a count is missing.
pub fn metrics_snapshot(counts: &Vec<i64>, latest_rule_ids: Option<String>) -> (r: Option<
    StorageMetrics,
>)
    ensures
        r is Some == (counts@.len() == metric_queries().len()),
        r matches Some(m) ==> {
            &&& m.total_events == counts@[0]
            &&& m.blocked_events == counts@[1]
            &&& m.total_audits == counts@[2]
            &&& m.persisted_active_mitigations == counts@[3]
            &&& m.persisted_reputations == counts@[4]
            &&& m.persisted_learned_routes == counts@[5]
            &&& m.persisted_behavior_snapshots == counts@[6]
            &&& m.approved_shadow_routes == counts@[7]
            &&& m.promoted_spec_routes == counts@[8]
            &&& m.managed_spec_routes == counts@[9]
            &&& m.analyst_suppressions == counts@[10]
            &&& m.source_allowlist_entries == counts@[11]
            &&& m.principal_allowlist_entries == counts@[12]
            &&& m.response_contracts == counts@[13]
            &&& m.policy_bundles == counts@[14]
            &&& m.scoped_source_allowlist_entries == counts@[15]
            &&& m.scoped_principal_allowlist_entries == counts@[16]
            &&& m.tri_scoped_allowlist_entries == counts@[17]
            &&& m.restore_refusals == counts@[18]
            &&& m.managed_spec_release_states == counts@[19]
            &&& m.restore_refusal_alerts == counts@[20]
            &&& m.critical_restore_refusal_alerts == counts@[21]
            &&& m.latest_rule_ids@ == (match latest_rule_ids {
                Some(ids) => ids@,
                None => Seq::<char>::empty(),
            })
        },
{
    if counts.len() != 22 {
        return None;
    }
    Some(
        StorageMetrics {
            total_events: counts[0],
            blocked_events: counts[1],
            total_audits: counts[2],
            latest_rule_ids: match latest_rule_ids {
                Some(ids) => ids,
                None => String::new(),
            },
            persisted_active_mitigations: counts[3],
            persisted_reputations: counts[4],
            persisted_learned_routes: counts[5],
            persisted_behavior_snapshots: counts[6],
            approved_shadow_routes: counts[7],
            promoted_spec_routes: counts[8],
            managed_spec_routes: counts[9],
            analyst_suppressions: counts[10],
            source_allowlist_entries: counts[11],
            principal_allowlist_entries: counts[12],
            response_contracts: counts[13],
            policy_bundles: counts[14],
            scoped_source_allowlist_entries: counts[15],
            scoped_principal_allowlist_entries: counts[16],
            tri_scoped_allowlist_entries: counts[17],
            restore_refusals: counts[18],
            managed_spec_release_states: counts[19],
            restore_refusal_alerts: counts[20],
            critical_restore_refusal_alerts: counts[21],
        },
    )
}

} // verus!
