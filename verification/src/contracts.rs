//! Response contracts: what a route is expected to answer, and how far it has come to release.

use crate::headers;
use crate::headers::Headers;
use crate::records::{
    ManagedSpecReleaseState, ManagedSpecReleaseStateView, ReleaseGuardResult,
    ReleaseGuardResultView,
};
use crate::requests::{
    ApproveContractMismatchRequest, PromoteManagedSpecReleaseRequest, UpsertResponseContractRequest,
};
use crate::routes;
use crate::text;
use crate::types;
use crate::types::{
    AttackClass, Finding, FindingEvidence, FindingEvidenceView, FindingView, LivePolicyState,
    ResponseContract, ResponseContractView, SecurityEvent, Severity, Timestamp,
};
use vstd::prelude::*;

verus! {

/// Whether a record is about a route: the method without regard to case, the path as it is.
pub open spec fn is_route(
    method: Seq<char>,
    path: Seq<char>,
    wanted_method: Seq<char>,
    wanted_path: Seq<char>,
) -> bool {
    text::lower_of(method) == text::lower_of(wanted_method) && path == wanted_path
}

fn same_route(method: &str, path: &str, wanted_method: &str, wanted_path: &str) -> (r: bool)
    ensures
        r == is_route(method@, path@, wanted_method@, wanted_path@),
{
    text::eq_ignore_ascii_case(method, wanted_method) && text::same(path, wanted_path)
}

/// The first contract of a route.
pub open spec fn contract_for(
    contracts: Seq<ResponseContractView>,
    method: Seq<char>,
    path: Seq<char>,
) -> Option<ResponseContractView>
    decreases contracts.len(),
{
    if contracts.len() == 0 {
        None
    } else if is_route(contracts[0].method, contracts[0].normalized_path, method, path) {
        Some(contracts[0])
    } else {
        contract_for(contracts.drop_first(), method, path)
    }
}

pub fn find_contract<'a>(
    contracts: &'a Vec<ResponseContract>,
    method: &str,
    normalized_path: &str,
) -> (r: Option<&'a ResponseContract>)
    ensures
        r.deep_view() == contract_for(contracts.deep_view(), method@, normalized_path@),
{
    let ghost all = contracts.deep_view();
    let mut i: usize = 0;
    assert(all.skip(0) =~= all);
    while i < contracts.len()
        invariant
            i <= contracts@.len(),
            all == contracts.deep_view(),
            contract_for(all, method@, normalized_path@) == contract_for(
                all.skip(i as int),
                method@,
                normalized_path@,
            ),
        decreases contracts@.len() - i,
    {
        assert(all.skip(i as int)[0] == contracts@[i as int].deep_view());
        let c = &contracts[i];
        if same_route(c.method.as_str(), c.normalized_path.as_str(), method, normalized_path) {
            return Some(c);
        }
        assert(all.skip(i as int).drop_first() =~= all.skip(i + 1));
        i = i + 1;
    }
    assert(all.skip(i as int).len() == 0);
    None
}

pub fn response_contract_for_route(
    contracts: &Vec<ResponseContract>,
    method: &str,
    normalized_path: &str,
) -> (r: Option<ResponseContract>)
    ensures
        r.deep_view() == contract_for(contracts.deep_view(), method@, normalized_path@),
{
    match find_contract(contracts, method, normalized_path) {
        Some(c) => Some(c.clone()),
        None => None,
    }
}

/// The release channel of a route.
pub open spec fn channel_for(
    states: Seq<ManagedSpecReleaseStateView>,
    method: Seq<char>,
    path: Seq<char>,
) -> Option<Seq<char>>
    decreases states.len(),
{
    if states.len() == 0 {
        None
    } else if is_route(states[0].method, states[0].normalized_path, method, path) {
        Some(states[0].channel)
    } else {
        channel_for(states.drop_first(), method, path)
    }
}

pub fn find_channel(
    states: &Vec<ManagedSpecReleaseState>,
    method: &str,
    normalized_path: &str,
) -> (r: Option<String>)
    ensures
        r.deep_view() == channel_for(states.deep_view(), method@, normalized_path@),
{
    let ghost all = states.deep_view();
    let mut i: usize = 0;
    assert(all.skip(0) =~= all);
    while i < states.len()
        invariant
            i <= states@.len(),
            all == states.deep_view(),
            channel_for(all, method@, normalized_path@) == channel_for(
                all.skip(i as int),
                method@,
                normalized_path@,
            ),
        decreases states@.len() - i,
    {
        assert(all.skip(i as int)[0] == states@[i as int].deep_view());
        let s = &states[i];
        if same_route(s.method.as_str(), s.normalized_path.as_str(), method, normalized_path) {
            return Some(s.channel.clone());
        }
        assert(all.skip(i as int).drop_first() =~= all.skip(i + 1));
        i = i + 1;
    }
    assert(all.skip(i as int).len() == 0);
    None
}

/// The contract that an analyst asks for.
pub fn build_response_contract_from_request(
    actor: String,
    req: ApproveContractMismatchRequest,
    now: Timestamp,
) -> (r: ResponseContract)
    ensures
        r.deep_view() == (ResponseContractView {
            method: text::upper_of(req.method@),
            normalized_path: req.normalized_path@,
            expected_status: req.expected_status,
            expected_content_type_prefix: req.expected_content_type_prefix@,
            required_headers: req.required_headers.deep_view(),
            approved_at: now,
            approved_by: actor@,
            note: req.note.deep_view(),
        }),
{
    ResponseContract {
        method: text::to_ascii_uppercase(req.method.as_str()),
        normalized_path: req.normalized_path,
        expected_status: req.expected_status,
        expected_content_type_prefix: req.expected_content_type_prefix,
        required_headers: req.required_headers,
        approved_at: now,
        approved_by: actor,
        note: req.note,
    }
}

/// The contract that an administrator sets.
pub fn contract_from_upsert(
    actor: String,
    req: UpsertResponseContractRequest,
    now: Timestamp,
) -> (r: ResponseContract)
    ensures
        r.deep_view() == (ResponseContractView {
            method: text::upper_of(req.method@),
            normalized_path: req.normalized_path@,
            expected_status: req.expected_status,
            expected_content_type_prefix: req.expected_content_type_prefix@,
            required_headers: req.required_headers.deep_view(),
            approved_at: now,
            approved_by: actor@,
            note: req.note.deep_view(),
        }),
{
    ResponseContract {
        method: text::to_ascii_uppercase(req.method.as_str()),
        normalized_path: req.normalized_path,
        expected_status: req.expected_status,
        expected_content_type_prefix: req.expected_content_type_prefix,
        required_headers: req.required_headers,
        approved_at: now,
        approved_by: actor,
        note: req.note,
    }
}

/// The names of required headers that an answer lacks, in order.
pub open spec fn missing_headers_of(required: Seq<Seq<char>>, h: Headers) -> Seq<Seq<char>>
    decreases required.len(),
{
    if required.len() == 0 {
        Seq::empty()
    } else {
        let before = missing_headers_of(required.drop_last(), h);
        if headers::has_field(h, required.last()) {
            before
        } else {
            before.push(required.last())
        }
    }
}

pub fn missing_headers(required: &Vec<String>, headers: &Headers) -> (r: Vec<String>)
    ensures
        r.deep_view() == missing_headers_of(required.deep_view(), *headers),
{
    let ghost all = required.deep_view();
    let mut out: Vec<String> = Vec::new();
    let mut i: usize = 0;
    assert(all.take(0) =~= Seq::empty());
    assert(out.deep_view() =~= Seq::empty());
    while i < required.len()
        invariant
            i <= required@.len(),
            all == required.deep_view(),
            out.deep_view() == missing_headers_of(all.take(i as int), *headers),
        decreases required@.len() - i,
    {
        assert(all.take(i + 1).drop_last() =~= all.take(i as int));
        assert(all.take(i + 1).last() == required@[i as int]@);
        if !headers.contains_key(required[i].as_str()) {
            text::push_text(&mut out, required[i].clone());
        }
        i = i + 1;
    }
    assert(all.take(i as int) =~= all);
    out
}

/// The content type that an answer declares, empty where it declares none.
pub open spec fn declared_type(h: Headers) -> Seq<char> {
    match headers::field_text(h, "content-type"@) {
        Some(v) => v,
        None => ""@,
    }
}

/// Whether an answer is what a contract expects.
pub open spec fn keeps_contract(contract: ResponseContractView, status: u16, h: Headers) -> bool {
    &&& status == contract.expected_status
    &&& text::has_prefix(declared_type(h), contract.expected_content_type_prefix)
    &&& missing_headers_of(contract.required_headers, h).len() == 0
}

/// What the evidence of a broken contract says about the status.
pub open spec fn status_evidence(expected: u16, actual: u16) -> Seq<char> {
    "expected="@ + text::decimal_of(expected as nat) + ", actual="@ + text::decimal_of(
        actual as nat,
    )
}

/// What the evidence of a broken contract says about the content type.
pub open spec fn type_evidence(expected: Seq<char>, actual: Seq<char>) -> Seq<char> {
    "expected_prefix="@ + expected + ", actual="@ + actual
}

/// The finding about an answer that breaks its contract.
pub open spec fn mismatch_finding(
    policy: LivePolicyState,
    path: Seq<char>,
    method: Seq<char>,
    normalized_path: Seq<char>,
    contract: ResponseContractView,
    status: u16,
    h: Headers,
) -> FindingView {
    FindingView {
        rule_id: "response.contract_mismatch"@,
        attack_class: AttackClass::ResponseLeak,
        severity: Severity::Medium,
        confidence: 880_000,
        message: "response contract mismatch for "@ + method + " "@ + normalized_path,
        evidence: seq![
            FindingEvidenceView {
                location: "response.contract.status"@,
                value_preview: status_evidence(contract.expected_status, status),
            },
            FindingEvidenceView {
                location: "response.contract.content_type"@,
                value_preview: type_evidence(
                    contract.expected_content_type_prefix,
                    declared_type(h),
                ),
            },
            FindingEvidenceView {
                location: "response.contract.missing_headers"@,
                value_preview: text::join_of(
                    missing_headers_of(contract.required_headers, h),
                    ","@,
                ),
            },
        ],
        mode: types::rule_mode_of(policy, path, "response.contract_mismatch"@),
    }
}

/// Holds an answer against the contract of its route.
pub fn check_contract(
    policy: &LivePolicyState,
    path: &str,
    method: &str,
    normalized_path: &str,
    contract: &ResponseContract,
    status: u16,
    headers: &Headers,
) -> (r: Option<Finding>)
    ensures
        r.deep_view() == (if keeps_contract(contract.deep_view(), status, *headers) {
            None
        } else {
            Some(
                mismatch_finding(
                    *policy,
                    path@,
                    method@,
                    normalized_path@,
                    contract.deep_view(),
                    status,
                    *headers,
                ),
            )
        }),
{
    let declared = match headers.get("content-type") {
        Some(v) => v,
        None => "",
    };
    let missing = missing_headers(&contract.required_headers, headers);
    let status_ok = status == contract.expected_status;
    let type_ok = text::starts_with(declared, contract.expected_content_type_prefix.as_str());
    if status_ok && type_ok && missing.len() == 0 {
        return None;
    }
    let message = text::cat4("response contract mismatch for ", method, " ", normalized_path);
    let expected = text::decimal(contract.expected_status as u128);
    let actual = text::decimal(status as u128);
    let shown_status = text::cat4("expected=", expected.as_str(), ", actual=", actual.as_str());
    let shown_type = text::cat4(
        "expected_prefix=",
        contract.expected_content_type_prefix.as_str(),
        ", actual=",
        declared,
    );
    let shown_headers = text::join(&missing, ",");
    let mode = types::resolve_rule_mode(policy, path, "response.contract_mismatch");
    let mut finding = types::make_finding(
        "response.contract_mismatch",
        AttackClass::ResponseLeak,
        Severity::Medium,
        880_000,
        message.as_str(),
        "response.contract.status",
        shown_status.as_str(),
        mode,
    );
    types::add_evidence(&mut finding, "response.contract.content_type", shown_type.as_str());
    types::add_evidence(&mut finding, "response.contract.missing_headers", shown_headers.as_str());
    proof {
        let wanted = mismatch_finding(
            *policy,
            path@,
            method@,
            normalized_path@,
            contract.deep_view(),
            status,
            *headers,
        );
        assert(finding.deep_view().evidence =~= wanted.evidence);
    }
    Some(finding)
}

/// What stands behind a label at the start of a piece of evidence, up to the first comma.
pub open spec fn labelled(value: Seq<char>, label: Seq<char>) -> Option<Seq<char>> {
    text::stripped_prefix(text::trim_of(text::split_of(value, ',')[0]), label)
}

pub(crate) fn read_label(value: &str, label: &str) -> (r: Option<String>)
    ensures
        r.deep_view() == labelled(value@, label@),
{
    let parts = text::split(value, ',');
    proof {
        text::lemma_split_parts(value@, ',');
    }
    assert(parts.deep_view()[0] == parts@[0]@);
    let first = text::trim(parts[0].as_str());
    text::strip_prefix(first.as_str(), label)
}

pub open spec fn as_status(n: Option<nat>) -> Option<u16> {
    match n {
        Some(n) => Some(n as u16),
        None => None,
    }
}

/// The status that a piece of evidence says was expected.
pub open spec fn status_in(value: Seq<char>) -> Option<u16> {
    match labelled(value, "expected="@) {
        Some(v) => as_status(text::parsed_uint(v, 65_535)),
        None => None,
    }
}

pub(crate) fn read_status(value: &str) -> (r: Option<u16>)
    ensures
        r == status_in(value@),
{
    match read_label(value, "expected=") {
        Some(v) => match text::parse_uint(v.as_str(), 65_535) {
            Some(n) => Some(n as u16),
            None => None,
        },
        None => None,
    }
}

/// The expected status that some evidence names; the last piece that names one counts.
pub open spec fn expected_status_in(evidence: Seq<FindingEvidenceView>) -> Option<u16>
    decreases evidence.len(),
{
    if evidence.len() == 0 {
        None
    } else if evidence.last().location == "response.contract.status"@ && labelled(
        evidence.last().value_preview,
        "expected="@,
    ) is Some {
        status_in(evidence.last().value_preview)
    } else {
        expected_status_in(evidence.drop_last())
    }
}

/// The expected content type that some evidence names; the last piece that names one counts.
pub open spec fn expected_type_in(evidence: Seq<FindingEvidenceView>) -> Option<Seq<char>>
    decreases evidence.len(),
{
    if evidence.len() == 0 {
        None
    } else if evidence.last().location == "response.contract.content_type"@ && labelled(
        evidence.last().value_preview,
        "expected_prefix="@,
    ) is Some {
        labelled(evidence.last().value_preview, "expected_prefix="@)
    } else {
        expected_type_in(evidence.drop_last())
    }
}

/// The required headers that some evidence names; the last piece that is not blank counts.
pub open spec fn expected_headers_in(evidence: Seq<FindingEvidenceView>) -> Seq<Seq<char>>
    decreases evidence.len(),
{
    if evidence.len() == 0 {
        Seq::empty()
    } else if evidence.last().location == "response.contract.missing_headers"@ && text::trim_of(
        evidence.last().value_preview,
    ).len() > 0 {
        text::trimmed_fields_of(text::split_of(evidence.last().value_preview, ','))
    } else {
        expected_headers_in(evidence.drop_last())
    }
}

/// The evidence of the first finding about a broken contract.
pub open spec fn mismatch_evidence(findings: Seq<FindingView>) -> Option<Seq<FindingEvidenceView>>
    decreases findings.len(),
{
    if findings.len() == 0 {
        None
    } else if findings[0].rule_id == "response.contract_mismatch"@ {
        Some(findings[0].evidence)
    } else {
        mismatch_evidence(findings.drop_first())
    }
}

pub(crate) fn find_mismatch(findings: &Vec<Finding>) -> (r: Option<&Vec<FindingEvidence>>)
    ensures
        r.deep_view() == mismatch_evidence(findings.deep_view()),
{
    let ghost all = findings.deep_view();
    let mut i: usize = 0;
    assert(all.skip(0) =~= all);
    while i < findings.len()
        invariant
            i <= findings@.len(),
            all == findings.deep_view(),
            mismatch_evidence(all) == mismatch_evidence(all.skip(i as int)),
        decreases findings@.len() - i,
    {
        assert(all.skip(i as int)[0] == findings@[i as int].deep_view());
        if text::same(findings[i].rule_id.as_str(), "response.contract_mismatch") {
            return Some(&findings[i].evidence);
        }
        assert(all.skip(i as int).drop_first() =~= all.skip(i + 1));
        i = i + 1;
    }
    assert(all.skip(i as int).len() == 0);
    None
}

/// The contract that a finding about a broken one speaks for.
pub open spec fn contract_in_event(
    method: Seq<char>,
    path: Seq<char>,
    findings: Seq<FindingView>,
    actor: Seq<char>,
    note: Option<Seq<char>>,
    now: Timestamp,
) -> Option<ResponseContractView> {
    match mismatch_evidence(findings) {
        None => None,
        Some(evidence) => match expected_status_in(evidence) {
            None => None,
            Some(status) => match expected_type_in(evidence) {
                None => None,
                Some(prefix) => Some(
                    ResponseContractView {
                        method: text::upper_of(method),
                        normalized_path: routes::route_of(path),
                        expected_status: status,
                        expected_content_type_prefix: prefix,
                        required_headers: expected_headers_in(evidence),
                        approved_at: now,
                        approved_by: actor,
                        note,
                    },
                ),
            },
        },
    }
}

/// Makes the contract that an event about a broken one speaks for.
pub fn build_response_contract_from_mismatch_event(
    event: &SecurityEvent,
    actor: String,
    note: Option<String>,
    now: Timestamp,
) -> (r: Option<ResponseContract>)
    ensures
        r.deep_view() == contract_in_event(
            event.method@,
            event.path@,
            event.findings.deep_view(),
            actor@,
            note.deep_view(),
            now,
        ),
{
    let evidence = match find_mismatch(&event.findings) {
        Some(e) => e,
        None => return None,
    };
    let ghost all = evidence.deep_view();
    let mut status: Option<u16> = None;
    let mut prefix: Option<String> = None;
    let mut required: Vec<String> = Vec::new();
    let mut i: usize = 0;
    assert(all.take(0) =~= Seq::empty());
    assert(required.deep_view() =~= Seq::empty());
    while i < evidence.len()
        invariant
            i <= evidence@.len(),
            all == evidence.deep_view(),
            status == expected_status_in(all.take(i as int)),
            prefix.deep_view() == expected_type_in(all.take(i as int)),
            required.deep_view() == expected_headers_in(all.take(i as int)),
        decreases evidence@.len() - i,
    {
        assert(all.take(i + 1).drop_last() =~= all.take(i as int));
        assert(all.take(i + 1).last() == evidence@[i as int].deep_view());
        let place = evidence[i].location.as_str();
        let value = evidence[i].value_preview.as_str();
        if text::same(place, "response.contract.status") {
            if read_label(value, "expected=").is_some() {
                status = read_status(value);
            }
        }
        if text::same(place, "response.contract.content_type") {
            let named = read_label(value, "expected_prefix=");
            if named.is_some() {
                prefix = named;
            }
        }
        if text::same(place, "response.contract.missing_headers") {
            let trimmed = text::trim(value);
            if !trimmed.as_str().is_empty() {
                required = text::trimmed_fields(value, ',');
            }
        }
        i = i + 1;
    }
    assert(all.take(i as int) =~= all);
    match status {
        None => None,
        Some(expected_status) => match prefix {
            None => None,
            Some(expected_content_type_prefix) => Some(
                ResponseContract {
                    method: text::to_ascii_uppercase(event.method.as_str()),
                    normalized_path: routes::security_route(event.path.as_str()),
                    expected_status,
                    expected_content_type_prefix,
                    required_headers: required,
                    approved_at: now,
                    approved_by: actor,
                    note,
                },
            ),
        },
    }
}

/// The first of some events that belongs to the given request.
pub open spec fn event_of_request(events: Seq<SecurityEvent>, request_id: Seq<char>) -> Option<
    SecurityEvent,
>
    decreases events.len(),
{
    if events.len() == 0 {
        None
    } else if events[0].request_id@ == request_id {
        Some(events[0])
    } else {
        event_of_request(events.drop_first(), request_id)
    }
}

/// The contract that the event of a request holds, or why there is none.
pub open spec fn contract_of_request(
    events: Seq<SecurityEvent>,
    request_id: Seq<char>,
    actor: Seq<char>,
    note: Option<Seq<char>>,
    now: Timestamp,
) -> Result<ResponseContractView, Seq<char>> {
    match event_of_request(events, request_id) {
        None => Err("request_id not found"@),
        Some(e) => match contract_in_event(
            e.method@,
            e.path@,
            e.findings.deep_view(),
            actor,
            note,
            now,
        ) {
            None => Err("event is not a response.contract_mismatch"@),
            Some(c) => Ok(c),
        },
    }
}

/// Reads the response contract from the event of a request.
pub fn approve_response_contract_from_event(
    events: &Vec<SecurityEvent>,
    request_id: &str,
    actor: String,
    note: Option<String>,
    now: Timestamp,
) -> (r: Result<ResponseContract, String>)
    ensures
        (match r {
            Ok(c) => Ok(c.deep_view()),
            Err(e) => Err(e@),
        }) == contract_of_request(events@, request_id@, actor@, note.deep_view(), now),
{
    let mut i: usize = 0;
    assert(events@.skip(0) =~= events@);
    while i < events.len()
        invariant
            i <= events@.len(),
            event_of_request(events@, request_id@) == event_of_request(
                events@.skip(i as int),
                request_id@,
            ),
        decreases events@.len() - i,
    {
        assert(events@.skip(i as int)[0] == events@[i as int]);
        assert(events@.skip(i as int).drop_first() =~= events@.skip(i + 1));
        if text::same(events[i].request_id.as_str(), request_id) {
            return match build_response_contract_from_mismatch_event(&events[i], actor, note, now) {
                Some(contract) => Ok(contract),
                None => Err("event is not a response.contract_mismatch".to_string()),
            };
        }
        i = i + 1;
    }
    Err("request_id not found".to_string())
}

/// What speaks against moving a route to a release channel.
pub open spec fn guard_reasons(
    has_contract: bool,
    current: Option<Seq<char>>,
    target: Seq<char>,
) -> Seq<Seq<char>> {
    if target == "exported"@ {
        (if has_contract {
            Seq::<Seq<char>>::empty()
        } else {
            seq!["response contract required before exported"@]
        }) + (if current == Some("approved"@) {
            Seq::<Seq<char>>::empty()
        } else {
            seq!["route must be in approved before exported"@]
        })
    } else {
        Seq::empty()
    }
}

/// Whether a route may be moved to a release channel.
pub open spec fn release_guard_of(
    contracts: Seq<ResponseContractView>,
    states: Seq<ManagedSpecReleaseStateView>,
    method: Seq<char>,
    path: Seq<char>,
    target: Seq<char>,
) -> ReleaseGuardResultView {
    let reasons = guard_reasons(
        contract_for(contracts, method, path) is Some,
        channel_for(states, method, path),
        target,
    );
    ReleaseGuardResultView {
        method: text::upper_of(method),
        normalized_path: path,
        allowed: reasons.len() == 0,
        reasons,
    }
}

fn is_text(v: &Option<String>, s: &str) -> (r: bool)
    ensures
        r == (v.deep_view() == Some(s@)),
{
    match v {
        Some(x) => text::same(x.as_str(), s),
        None => false,
    }
}

pub fn evaluate_release_guard(
    contracts: &Vec<ResponseContract>,
    states: &Vec<ManagedSpecReleaseState>,
    method: &str,
    normalized_path: &str,
    target_channel: &str,
) -> (r: ReleaseGuardResult)
    ensures
        r.deep_view() == release_guard_of(
            contracts.deep_view(),
            states.deep_view(),
            method@,
            normalized_path@,
            target_channel@,
        ),
{
    let mut reasons: Vec<String> = Vec::new();
    assert(reasons.deep_view() =~= Seq::empty());
    let has_contract = find_contract(contracts, method, normalized_path).is_some();
    let current = find_channel(states, method, normalized_path);
    if text::same(target_channel, "exported") {
        if !has_contract {
            text::push_text(
                &mut reasons,
                "response contract required before exported".to_string(),
            );
        }
        if !is_text(&current, "approved") {
            text::push_text(
                &mut reasons,
                "route must be in approved before exported".to_string(),
            );
        }
    }
    assert(reasons.deep_view() =~= guard_reasons(
        has_contract,
        current.deep_view(),
        target_channel@,
    ));
    ReleaseGuardResult {
        method: text::to_ascii_uppercase(method),
        normalized_path: normalized_path.to_string(),
        allowed: reasons.len() == 0,
        reasons,
    }
}

/// Whether a route can go from one release channel to another: it starts as a draft, is approved,
/// is exported, and may be put where it already is.
pub open spec fn valid_transition(current: Option<Seq<char>>, target: Seq<char>) -> bool {
    match current {
        None => target == "draft"@,
        Some(c) => (c == "draft"@ && target == "approved"@) || (c == "approved"@ && target
            == "exported"@) || c == target,
    }
}

pub fn is_valid_release_transition(current: Option<&str>, target: &str) -> (r: bool)
    ensures
        r == valid_transition(current.deep_view(), target@),
{
    match current {
        None => text::same(target, "draft"),
        Some(c) => (text::same(c, "draft") && text::same(target, "approved")) || (text::same(
            c,
            "approved",
        ) && text::same(target, "exported")) || text::same(c, target),
    }
}

/// What a request to move a route to another channel comes to: the new state, or why not.
pub open spec fn promotion_of(
    contracts: Seq<ResponseContractView>,
    states: Seq<ManagedSpecReleaseStateView>,
    request: PromoteManagedSpecReleaseRequest,
    actor: Seq<char>,
    now: Timestamp,
) -> Result<ManagedSpecReleaseStateView, Seq<char>> {
    let method = request.method@;
    let path = request.normalized_path@;
    let target = request.target_channel@;
    let guard = release_guard_of(contracts, states, method, path, target);
    if !guard.allowed {
        Err("release guard blocked promotion: "@ + text::join_of(guard.reasons, "; "@))
    } else if !valid_transition(channel_for(states, method, path), target) {
        Err("invalid release-state transition"@)
    } else {
        Ok(
            ManagedSpecReleaseStateView {
                method: text::upper_of(method),
                normalized_path: path,
                channel: target,
                updated_at: now,
                updated_by: actor,
                note: request.note.deep_view(),
            },
        )
    }
}

pub fn promote_managed_spec_release(
    contracts: &Vec<ResponseContract>,
    states: &Vec<ManagedSpecReleaseState>,
    request: PromoteManagedSpecReleaseRequest,
    actor: String,
    now: Timestamp,
) -> (r: Result<ManagedSpecReleaseState, String>)
    ensures
        (match r {
            Ok(next) => Ok(next.deep_view()),
            Err(message) => Err(message@),
        }) == promotion_of(contracts.deep_view(), states.deep_view(), request, actor@, now),
{
    let guard = evaluate_release_guard(
        contracts,
        states,
        request.method.as_str(),
        request.normalized_path.as_str(),
        request.target_channel.as_str(),
    );
    if !guard.allowed {
        let reasons = text::join(&guard.reasons, "; ");
        return Err(text::cat2("release guard blocked promotion: ", reasons.as_str()));
    }
    let current = find_channel(states, request.method.as_str(), request.normalized_path.as_str());
    let held: Option<&str> = match &current {
        Some(c) => Some(c.as_str()),
        None => None,
    };
    assert(held.deep_view() == current.deep_view());
    if !is_valid_release_transition(held, request.target_channel.as_str()) {
        return Err("invalid release-state transition".to_string());
    }
    Ok(
        ManagedSpecReleaseState {
            method: text::to_ascii_uppercase(request.method.as_str()),
            normalized_path: request.normalized_path,
            channel: request.target_channel,
            updated_at: now,
            updated_by: actor,
            note: request.note,
        },
    )
}

/// Nothing is exported that has no contract or was not approved.
pub proof fn law_export_needs_approval(
    contracts: Seq<ResponseContractView>,
    states: Seq<ManagedSpecReleaseStateView>,
    request: PromoteManagedSpecReleaseRequest,
    actor: Seq<char>,
    now: Timestamp,
)
    requires
        request.target_channel@ == "exported"@,
        promotion_of(contracts, states, request, actor, now) is Ok,
    ensures
        contract_for(contracts, request.method@, request.normalized_path@) is Some,
        channel_for(states, request.method@, request.normalized_path@) == Some("approved"@),
{
}

pub open spec fn is_channel(c: Seq<char>) -> bool {
    c == "draft"@ || c == "approved"@ || c == "exported"@
}

/// A route that is on no channel or on one of the three stays on these.
pub proof fn law_channels_closed(current: Option<Seq<char>>, target: Seq<char>)
    requires
        current is Some ==> is_channel(current->0),
        valid_transition(current, target),
    ensures
        is_channel(target),
{
}

/// Whether a text can be read back from a list whose items are set off by commas.
pub open spec fn is_plain_item(s: Seq<char>) -> bool {
    &&& s.len() > 0
    &&& !s.contains(',')
    &&& !text::is_space_char(s[0])
    &&& !text::is_space_char(s.last())
}

/// What stands behind a label and before a comma is read back.
proof fn lemma_labelled(label: Seq<char>, v: Seq<char>, rest: Seq<char>)
    requires
        label.len() > 0,
        !label.contains(','),
        !v.contains(','),
        !text::is_space_char(label[0]),
        !text::is_space_char(label.last()),
        v.len() > 0 ==> !text::is_space_char(v.last()),
    ensures
        labelled(label + v + seq![','] + rest, label) == Some(v),
{
    let first = label + v;
    assert(!first.contains(',')) by {
        assert forall|i: int| 0 <= i < first.len() implies first[i] != ',' by {
            if i < label.len() {
                assert(first[i] == label[i]);
            } else {
                assert(first[i] == v[i - label.len()]);
            }
        }
    }
    text::lemma_split_first(first, ',', rest);
    assert(first.last() == (if v.len() > 0 {
        v.last()
    } else {
        label.last()
    }));
    text::lemma_trim_kept(first);
    assert(first.take(label.len() as int) =~= label);
    assert(first.skip(label.len() as int) =~= v);
}

proof fn lemma_plain_items(items: Seq<Seq<char>>)
    requires
        forall|i: int| 0 <= i < items.len() ==> is_plain_item(#[trigger] items[i]),
    ensures
        text::trimmed_fields_of(items) == items,
    decreases items.len(),
{
    if items.len() > 0 {
        let before = items.drop_last();
        assert forall|i: int| 0 <= i < before.len() implies is_plain_item(#[trigger] before[i]) by {
            assert(before[i] == items[i]);
        }
        lemma_plain_items(before);
        assert(is_plain_item(items[items.len() - 1]));
        text::lemma_trim_kept(items.last());
        assert(before.push(items.last()) =~= items);
    } else {
        assert(items =~= Seq::empty());
    }
}

proof fn lemma_join_start(items: Seq<Seq<char>>, sep: Seq<char>)
    requires
        items.len() > 0,
        items[0].len() > 0,
    ensures
        text::join_of(items, sep).len() > 0,
        text::join_of(items, sep)[0] == items[0][0],
    decreases items.len(),
{
    if items.len() > 1 {
        assert(items.drop_last()[0] == items[0]);
        lemma_join_start(items.drop_last(), sep);
    }
}

/// Approving the event about a broken contract gives the contract that was broken, with the
/// headers that were missing. The content type must not hold a comma nor end in white space, and
/// the names of the headers must be plain.
pub proof fn law_mismatch_gives_contract_back(
    policy: LivePolicyState,
    path: Seq<char>,
    method: Seq<char>,
    contract: ResponseContractView,
    status: u16,
    h: Headers,
    actor: Seq<char>,
    note: Option<Seq<char>>,
    now: Timestamp,
)
    requires
        !contract.expected_content_type_prefix.contains(','),
        contract.expected_content_type_prefix.len() > 0 ==> !text::is_space_char(
            contract.expected_content_type_prefix.last(),
        ),
        forall|i: int|
            0 <= i < missing_headers_of(contract.required_headers, h).len() ==> is_plain_item(
                #[trigger] missing_headers_of(contract.required_headers, h)[i],
            ),
    ensures
        contract_in_event(
            method,
            path,
            seq![
                mismatch_finding(
                    policy,
                    path,
                    method,
                    routes::route_of(path),
                    contract,
                    status,
                    h,
                ),
            ],
            actor,
            note,
            now,
        ) == Some(
            ResponseContractView {
                method: text::upper_of(method),
                normalized_path: routes::route_of(path),
                expected_status: contract.expected_status,
                expected_content_type_prefix: contract.expected_content_type_prefix,
                required_headers: missing_headers_of(contract.required_headers, h),
                approved_at: now,
                approved_by: actor,
                note,
            },
        ),
{
    let finding = mismatch_finding(
        policy,
        path,
        method,
        routes::route_of(path),
        contract,
        status,
        h,
    );
    let findings = seq![finding];
    let e = finding.evidence;
    assert(mismatch_evidence(findings) == Some(e));
    reveal_strlit("response.contract.status");
    reveal_strlit("response.contract.content_type");
    reveal_strlit("response.contract.missing_headers");
    let e2 = e.drop_last();
    let e1 = e2.drop_last();
    let e0 = e1.drop_last();
    assert(e2.last() == e[1]);
    assert(e1.last() == e[0]);
    assert(e0.len() == 0);
    assert(e[2].location.len() == 33 && e[1].location.len() == 30 && e[0].location.len() == 24);
    reveal_strlit("expected=");
    reveal_strlit("expected_prefix=");
    reveal_strlit(", actual=");
    reveal_strlit(",");
    let tail = " actual="@;
    reveal_strlit(" actual=");
    assert(", actual="@ =~= seq![','] + tail);
    // The status.
    let digits = text::decimal_of(contract.expected_status as nat);
    text::law_decimal_value(contract.expected_status as nat);
    text::law_decimal_read(contract.expected_status as nat, 65_535);
    assert(text::is_digit_char(digits[digits.len() - 1]));
    assert(!digits.contains(',')) by {
        assert forall|i: int| 0 <= i < digits.len() implies digits[i] != ',' by {
            assert(text::is_digit_char(digits[i]));
        }
    }
    let status_rest = tail + text::decimal_of(status as nat);
    assert(e[0].value_preview =~= "expected="@ + digits + seq![','] + status_rest);
    lemma_labelled("expected="@, digits, status_rest);
    assert(expected_status_in(e1) == Some(contract.expected_status));
    assert(expected_status_in(e2) == Some(contract.expected_status));
    assert(expected_status_in(e) == Some(contract.expected_status));
    // The content type.
    let prefix = contract.expected_content_type_prefix;
    let type_rest = tail + declared_type(h);
    assert(e[1].value_preview =~= "expected_prefix="@ + prefix + seq![','] + type_rest);
    lemma_labelled("expected_prefix="@, prefix, type_rest);
    assert(expected_type_in(e2) == Some(prefix));
    assert(expected_type_in(e) == Some(prefix));
    // The headers.
    let missing = missing_headers_of(contract.required_headers, h);
    assert(","@ =~= seq![',']);
    if missing.len() > 0 {
        assert(is_plain_item(missing[0]));
        lemma_join_start(missing, ","@);
        text::lemma_trim_not_empty(e[2].value_preview);
        text::law_split_undoes_join(missing, ',');
        lemma_plain_items(missing);
    } else {
        assert(e[2].value_preview.len() == 0);
        assert(expected_headers_in(e0) == Seq::<Seq<char>>::empty());
        assert(expected_headers_in(e1) == Seq::<Seq<char>>::empty());
        assert(expected_headers_in(e2) == Seq::<Seq<char>>::empty());
        assert(missing =~= Seq::empty());
    }
    assert(expected_headers_in(e) == missing);
}

} // verus!
