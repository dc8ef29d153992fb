//! Which contracts are approved and which routes are released.

use crate::contracts;
use crate::headers;
use crate::headers::Headers;
use crate::records::ManagedSpecReleaseStateView;
use crate::requests::PromoteManagedSpecReleaseRequest;
use crate::routes;
use crate::text;
use crate::types::{
    FindingEvidenceView, FindingView, ResponseContractView, SecurityEvent, Timestamp,
};
use vstd::prelude::*;

verus! {

/// Whether the first of the states that speaks of a route puts it on a channel.
pub open spec fn is_on(
    states: Seq<ManagedSpecReleaseStateView>,
    method: Seq<char>,
    path: Seq<char>,
    channel: Seq<char>,
) -> bool {
    exists|i: int|
        0 <= i < states.len() && (#[trigger] states[i]).normalized_path == path && text::lower_of(
            states[i].method,
        ) == text::lower_of(method) && states[i].channel == channel && forall|j: int|
            0 <= j < i ==> (#[trigger] states[j]).normalized_path != path || text::lower_of(
                states[j].method,
            ) != text::lower_of(method)
}

/// Whether none of the states speaks of a route.
pub open spec fn is_on_none(
    states: Seq<ManagedSpecReleaseStateView>,
    method: Seq<char>,
    path: Seq<char>,
) -> bool {
    forall|i: int|
        0 <= i < states.len() ==> (#[trigger] states[i]).normalized_path != path || text::lower_of(
            states[i].method,
        ) != text::lower_of(method)
}

proof fn lemma_channel(
    states: Seq<ManagedSpecReleaseStateView>,
    method: Seq<char>,
    path: Seq<char>,
    channel: Seq<char>,
)
    ensures
        contracts::channel_for(states, method, path) == Some(channel) <==> is_on(
            states,
            method,
            path,
            channel,
        ),
        contracts::channel_for(states, method, path) is None <==> is_on_none(states, method, path),
    decreases states.len(),
{
    if states.len() > 0 {
        let rest = states.drop_first();
        lemma_channel(rest, method, path, channel);
        assert(forall|i: int| 0 <= i < rest.len() ==> #[trigger] rest[i] == states[i + 1]);
        if contracts::is_route(states[0].method, states[0].normalized_path, method, path) {
            if is_on(states, method, path, channel) {
                let i = choose|i: int|
                    0 <= i < states.len() && (#[trigger] states[i]).normalized_path == path
                        && text::lower_of(states[i].method) == text::lower_of(method)
                        && states[i].channel == channel && forall|j: int|
                        0 <= j < i ==> (#[trigger] states[j]).normalized_path != path
                            || text::lower_of(states[j].method) != text::lower_of(method);
                if i > 0 {
                    assert(states[0].normalized_path != path || text::lower_of(states[0].method)
                        != text::lower_of(method));
                }
            }
        } else {
            if is_on(rest, method, path, channel) {
                let i = choose|i: int|
                    0 <= i < rest.len() && (#[trigger] rest[i]).normalized_path == path
                        && text::lower_of(rest[i].method) == text::lower_of(method)
                        && rest[i].channel == channel && forall|j: int|
                        0 <= j < i ==> (#[trigger] rest[j]).normalized_path != path
                            || text::lower_of(rest[j].method) != text::lower_of(method);
                assert forall|j: int| 0 <= j < i + 1 implies (#[trigger] states[j]).normalized_path
                    != path || text::lower_of(states[j].method) != text::lower_of(method) by {
                    if j > 0 {
                        assert(rest[j - 1] == states[j]);
                    }
                }
                assert(states[i + 1].channel == channel);
            }
            if is_on(states, method, path, channel) {
                let i = choose|i: int|
                    0 <= i < states.len() && (#[trigger] states[i]).normalized_path == path
                        && text::lower_of(states[i].method) == text::lower_of(method)
                        && states[i].channel == channel && forall|j: int|
                        0 <= j < i ==> (#[trigger] states[j]).normalized_path != path
                            || text::lower_of(states[j].method) != text::lower_of(method);
                assert(i > 0);
                assert(rest[i - 1] == states[i]);
                assert forall|j: int| 0 <= j < i - 1 implies (#[trigger] rest[j]).normalized_path
                    != path || text::lower_of(rest[j].method) != text::lower_of(method) by {
                    assert(states[j + 1] == rest[j]);
                }
            }
            if is_on_none(rest, method, path) {
                assert forall|i: int| 0 <= i < states.len() implies (
                #[trigger] states[i]).normalized_path != path || text::lower_of(states[i].method)
                    != text::lower_of(method) by {
                    if i > 0 {
                        assert(rest[i - 1] == states[i]);
                    }
                }
            }
        }
    }
}

/// Whether one of the contracts is for a route.
pub open spec fn has_contract(
    all: Seq<ResponseContractView>,
    method: Seq<char>,
    path: Seq<char>,
) -> bool {
    exists|i: int|
        0 <= i < all.len() && (#[trigger] all[i]).normalized_path == path && text::lower_of(
            all[i].method,
        ) == text::lower_of(method)
}

proof fn lemma_contract(all: Seq<ResponseContractView>, method: Seq<char>, path: Seq<char>)
    ensures
        contracts::contract_for(all, method, path) is Some <==> has_contract(all, method, path),
    decreases all.len(),
{
    if all.len() > 0 {
        let rest = all.drop_first();
        lemma_contract(rest, method, path);
        assert(forall|i: int| 0 <= i < rest.len() ==> #[trigger] rest[i] == all[i + 1]);
        if has_contract(rest, method, path) {
            let i = choose|i: int|
                0 <= i < rest.len() && (#[trigger] rest[i]).normalized_path == path
                    && text::lower_of(rest[i].method) == text::lower_of(method);
            assert(all[i + 1].normalized_path == path);
        }
        if has_contract(all, method, path) {
            let i = choose|i: int|
                0 <= i < all.len() && (#[trigger] all[i]).normalized_path == path
                    && text::lower_of(all[i].method) == text::lower_of(method);
            if i > 0 {
                assert(rest[i - 1] == all[i]);
            }
        }
    }
}

/// A route goes from no channel to draft, from draft to approved, and, with a contract, from
/// approved to exported. It may be put again where it is, but not on exported.
pub proof fn law_promoted(
    all: Seq<ResponseContractView>,
    states: Seq<ManagedSpecReleaseStateView>,
    request: PromoteManagedSpecReleaseRequest,
    actor: Seq<char>,
    now: Timestamp,
)
    ensures
        ({
            let method = request.method@;
            let path = request.normalized_path@;
            let target = request.target_channel@;
            let r = contracts::promotion_of(all, states, request, actor, now);
            &&& r is Ok <==> {
                ||| target == "draft"@ && is_on_none(states, method, path)
                ||| target == "approved"@ && is_on(states, method, path, "draft"@)
                ||| target == "exported"@ && is_on(states, method, path, "approved"@)
                    && has_contract(all, method, path)
                ||| target != "exported"@ && is_on(states, method, path, target)
            }
            &&& r is Ok ==> r->Ok_0.method == text::upper_of(method) && r->Ok_0.normalized_path
                == path && r->Ok_0.channel == target && r->Ok_0.updated_at == now
                && r->Ok_0.updated_by == actor && r->Ok_0.note == request.note.deep_view()
        }),
{
    let method = request.method@;
    let path = request.normalized_path@;
    lemma_channel(states, method, path, "draft"@);
    lemma_channel(states, method, path, "approved"@);
    lemma_channel(states, method, path, request.target_channel@);
    lemma_contract(all, method, path);
    reveal_strlit("draft");
    reveal_strlit("approved");
    reveal_strlit("exported");
    assert("approved"@[0] == 'a' && "exported"@[0] == 'e' && "draft"@.len() == 5);
}

/// The guard holds back what is to be exported, without a contract or without approval, and says
/// which is missing.
pub proof fn law_release_guarded(
    all: Seq<ResponseContractView>,
    states: Seq<ManagedSpecReleaseStateView>,
    method: Seq<char>,
    path: Seq<char>,
    target: Seq<char>,
)
    ensures
        ({
            let g = contracts::release_guard_of(all, states, method, path, target);
            let contract = has_contract(all, method, path);
            let approved = is_on(states, method, path, "approved"@);
            &&& g.method == text::upper_of(method) && g.normalized_path == path
            &&& g.allowed <==> target != "exported"@ || contract && approved
            &&& g.reasons.contains("response contract required before exported"@) <==> target
                == "exported"@ && !contract
            &&& g.reasons.contains("route must be in approved before exported"@) <==> target
                == "exported"@ && !approved
        }),
{
    lemma_channel(states, method, path, "approved"@);
    lemma_contract(all, method, path);
    reveal_strlit("response contract required before exported");
    reveal_strlit("route must be in approved before exported");
    let one = "response contract required before exported"@;
    let two = "route must be in approved before exported"@;
    assert(one[1] == 'e' && two[1] == 'o');
    let g = contracts::release_guard_of(all, states, method, path, target);
    if target == "exported"@ {
        let a = if has_contract(all, method, path) {
            Seq::<Seq<char>>::empty()
        } else {
            seq![one]
        };
        let b = if is_on(states, method, path, "approved"@) {
            Seq::<Seq<char>>::empty()
        } else {
            seq![two]
        };
        assert(g.reasons == a + b);
        if a.len() > 0 {
            assert(g.reasons[0] == one);
        }
        if b.len() > 0 {
            assert(g.reasons[a.len() as int] == two);
        }
    }
}

proof fn lemma_event(events: Seq<SecurityEvent>, request_id: Seq<char>)
    ensures
        ({
            let r = contracts::event_of_request(events, request_id);
            &&& r is None <==> forall|i: int|
                0 <= i < events.len() ==> (#[trigger] events[i]).request_id@ != request_id
            &&& r is Some ==> exists|i: int|
                0 <= i < events.len() && #[trigger] events[i] == r->0 && r->0.request_id@
                    == request_id && forall|j: int|
                    0 <= j < i ==> (#[trigger] events[j]).request_id@ != request_id
        }),
    decreases events.len(),
{
    if events.len() > 0 && events[0].request_id@ != request_id {
        let rest = events.drop_first();
        lemma_event(rest, request_id);
        assert(forall|i: int| 0 <= i < rest.len() ==> #[trigger] rest[i] == events[i + 1]);
        assert(forall|i: int| 0 < i < events.len() ==> #[trigger] events[i] == rest[i - 1]);
        let r = contracts::event_of_request(events, request_id);
        if r is Some {
            let i = choose|i: int|
                0 <= i < rest.len() && #[trigger] rest[i] == r->0 && r->0.request_id@ == request_id
                    && forall|j: int|
                    0 <= j < i ==> (#[trigger] rest[j]).request_id@ != request_id;
            assert(events[i + 1] == r->0);
            assert forall|j: int| 0 <= j < i + 1 implies (#[trigger] events[j]).request_id@
                != request_id by {
                if j > 0 {
                    assert(rest[j - 1] == events[j]);
                }
            }
        } else {
            assert forall|i: int| 0 <= i < events.len() implies (#[trigger] events[i]).request_id@
                != request_id by {
                if i > 0 {
                    assert(rest[i - 1] == events[i]);
                }
            }
        }
    }
}

proof fn lemma_evidence(findings: Seq<FindingView>)
    ensures
        ({
            let r = contracts::mismatch_evidence(findings);
            &&& r is None <==> forall|i: int|
                0 <= i < findings.len() ==> (#[trigger] findings[i]).rule_id
                    != "response.contract_mismatch"@
            &&& r is Some ==> exists|i: int|
                0 <= i < findings.len() && (#[trigger] findings[i]).rule_id
                    == "response.contract_mismatch"@ && findings[i].evidence == r->0
        }),
    decreases findings.len(),
{
    if findings.len() > 0 && findings[0].rule_id != "response.contract_mismatch"@ {
        let rest = findings.drop_first();
        lemma_evidence(rest);
        assert(forall|i: int| 0 <= i < rest.len() ==> #[trigger] rest[i] == findings[i + 1]);
        let r = contracts::mismatch_evidence(findings);
        if r is Some {
            let i = choose|i: int|
                0 <= i < rest.len() && (#[trigger] rest[i]).rule_id
                    == "response.contract_mismatch"@ && rest[i].evidence == r->0;
            assert(findings[i + 1].evidence == r->0);
        } else {
            assert forall|i: int| 0 <= i < findings.len() implies (#[trigger] findings[i]).rule_id
                != "response.contract_mismatch"@ by {
                if i > 0 {
                    assert(rest[i - 1] == findings[i]);
                }
            }
        }
    }
}

/// A request that was not seen gives no contract.
pub proof fn law_unseen_request(
    events: Seq<SecurityEvent>,
    request_id: Seq<char>,
    actor: Seq<char>,
    note: Option<Seq<char>>,
    now: Timestamp,
)
    ensures
        contracts::contract_of_request(events, request_id, actor, note, now) == Err::<
            ResponseContractView,
            Seq<char>,
        >("request_id not found"@) <==> forall|i: int|
            0 <= i < events.len() ==> (#[trigger] events[i]).request_id@ != request_id,
{
    reveal_strlit("request_id not found");
    reveal_strlit("event is not a response.contract_mismatch");
    assert("request_id not found"@[0] == 'r' && "event is not a response.contract_mismatch"@[0]
        == 'e');
    lemma_event(events, request_id);
}

/// A contract comes of the first event of a request, for the route of that event. An event that
/// tells of no broken contract gives none.
pub proof fn law_contract_approved(
    events: Seq<SecurityEvent>,
    i: int,
    actor: Seq<char>,
    note: Option<Seq<char>>,
    now: Timestamp,
)
    requires
        0 <= i < events.len(),
        forall|j: int|
            0 <= j < i ==> (#[trigger] events[j]).request_id@ != events[i].request_id@,
    ensures
        ({
            let r = contracts::contract_of_request(
                events,
                events[i].request_id@,
                actor,
                note,
                now,
            );
            let found = events[i].findings.deep_view();
            &&& r is Err ==> r->Err_0 == "event is not a response.contract_mismatch"@
            &&& r is Ok ==> r->Ok_0.method == text::upper_of(events[i].method@)
                && r->Ok_0.normalized_path == routes::route_of(events[i].path@)
                && r->Ok_0.approved_by == actor && r->Ok_0.approved_at == now && r->Ok_0.note
                == note
            &&& r is Ok ==> exists|k: int|
                0 <= k < found.len() && (#[trigger] found[k]).rule_id
                    == "response.contract_mismatch"@
        }),
{
    let request_id = events[i].request_id@;
    lemma_event(events, request_id);
    let e = contracts::event_of_request(events, request_id);
    assert(e is Some);
    let k = choose|k: int|
        0 <= k < events.len() && #[trigger] events[k] == e->0 && e->0.request_id@ == request_id
            && forall|j: int| 0 <= j < k ==> (#[trigger] events[j]).request_id@ != request_id;
    assert(k == i);
    lemma_evidence(events[i].findings.deep_view());
}

/// A contract is read from the evidence of a mismatch only where both the status and the type that
/// were expected stand there.
pub proof fn law_contract_read(
    method: Seq<char>,
    path: Seq<char>,
    evidence: Seq<FindingEvidenceView>,
    first: FindingView,
    rest: Seq<FindingView>,
    actor: Seq<char>,
    note: Option<Seq<char>>,
    now: Timestamp,
)
    requires
        first.rule_id == "response.contract_mismatch"@,
        first.evidence == evidence,
    ensures
        ({
            let r = contracts::contract_in_event(
                method,
                path,
                seq![first] + rest,
                actor,
                note,
                now,
            );
            &&& (forall|i: int|
                0 <= i < evidence.len() ==> (#[trigger] evidence[i]).location
                    != "response.contract.status"@) ==> r is None
            &&& (forall|i: int|
                0 <= i < evidence.len() ==> (#[trigger] evidence[i]).location
                    != "response.contract.content_type"@) ==> r is None
            &&& r is Some && (forall|i: int|
                0 <= i < evidence.len() ==> (#[trigger] evidence[i]).location
                    != "response.contract.missing_headers"@) ==> r->0.required_headers.len() == 0
        }),
{
    let all = seq![first] + rest;
    assert(all[0] == first);
    lemma_places(evidence);
}

proof fn lemma_places(evidence: Seq<FindingEvidenceView>)
    ensures
        (forall|i: int|
            0 <= i < evidence.len() ==> (#[trigger] evidence[i]).location
                != "response.contract.status"@) ==> contracts::expected_status_in(evidence) is None,
        (forall|i: int|
            0 <= i < evidence.len() ==> (#[trigger] evidence[i]).location
                != "response.contract.content_type"@) ==> contracts::expected_type_in(
            evidence,
        ) is None,
        (forall|i: int|
            0 <= i < evidence.len() ==> (#[trigger] evidence[i]).location
                != "response.contract.missing_headers"@) ==> contracts::expected_headers_in(
            evidence,
        ).len() == 0,
    decreases evidence.len(),
{
    if evidence.len() > 0 {
        let before = evidence.drop_last();
        lemma_places(before);
        assert(forall|i: int| 0 <= i < before.len() ==> #[trigger] before[i] == evidence[i]);
        assert(evidence.last() == evidence[evidence.len() - 1]);
    }
}

/// What a contract misses is what it requires and a response does not carry.
pub proof fn law_missing_headers(required: Seq<Seq<char>>, h: Headers, name: Seq<char>)
    ensures
        contracts::missing_headers_of(required, h).contains(name) <==> required.contains(name)
            && !headers::has_field(h, name),
    decreases required.len(),
{
    let missing = contracts::missing_headers_of(required, h);
    if required.len() > 0 {
        let before = required.drop_last();
        let earlier = contracts::missing_headers_of(before, h);
        law_missing_headers(before, h, name);
        assert(before.push(required.last()) =~= required);
        lemma_pushed(before, required.last(), name);
        lemma_pushed(earlier, required.last(), name);
    }
}

proof fn lemma_pushed(s: Seq<Seq<char>>, last: Seq<char>, x: Seq<char>)
    ensures
        s.push(last).contains(x) == (s.contains(x) || x == last),
{
    let t = s.push(last);
    assert(t[s.len() as int] == last);
    if s.contains(x) {
        let i = choose|i: int| 0 <= i < s.len() && s[i] == x;
        assert(t[i] == x);
    }
    if t.contains(x) {
        let i = choose|i: int| 0 <= i < t.len() && t[i] == x;
        if i < s.len() {
            assert(s[i] == x);
        }
    }
}

} // verus!
