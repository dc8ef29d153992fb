//! What is learned of the bodies of a route, and what departs from it.

use crate::config::{AppConfig, DiscoveryConfig, RuleMode};
use crate::detection;
use crate::detection::inspection;
use crate::detection::normalization;
use crate::detection::schema_learning;
use crate::detection::schema_learning::{LearnedFieldView, LearnedJsonSchemaView};
use crate::headers::Headers;
use crate::json;
use crate::json::JsonNodeView;
use crate::laws;
use crate::laws::attacks;
use crate::laws::sources;
use crate::table;
use crate::text;
use crate::types;
use crate::types::{FindingView, LearnedRouteView, LivePolicyState, RequestContext};
use vstd::prelude::*;

verus! {

proof fn lemma_rules()
    ensures
        "UZ-API-SCHEMA-001"@[16] == '1',
        "UZ-API-SCHEMA-002"@[16] == '2',
        "UZ-API-SCHEMA-003"@[16] == '3',
        "UZ-API-SCHEMA-004"@[16] == '4',
        "UZ-API-SCHEMA-005"@[16] == '5',
        "UZ-API-SCHEMA-006"@[16] == '6',
        "UZ-API-SCHEMA-007"@[16] == '7',
        "UZ-API-SCHEMA-008"@[16] == '8',
        "body."@.len() == 5,
{
    reveal_strlit("UZ-API-SCHEMA-001");
    reveal_strlit("UZ-API-SCHEMA-002");
    reveal_strlit("UZ-API-SCHEMA-003");
    reveal_strlit("UZ-API-SCHEMA-004");
    reveal_strlit("UZ-API-SCHEMA-005");
    reveal_strlit("UZ-API-SCHEMA-006");
    reveal_strlit("UZ-API-SCHEMA-007");
    reveal_strlit("UZ-API-SCHEMA-008");
    reveal_strlit("body.");
}

/// The kind of value that a field had most often.
pub open spec fn usual_kind(f: LearnedFieldView) -> Option<Seq<char>> {
    schema_learning::dominant(f.types)
}

proof fn lemma_place(a: Seq<char>, b: Seq<char>)
    ensures
        ("body."@ + a == "body."@ + b) == (a == b),
{
    reveal_strlit("body.");
    assert(("body."@ + a).skip(5) =~= a);
    assert(("body."@ + b).skip(5) =~= b);
}

/// Whether a field of a body is unlike what was learned: it is new, or of another kind; what is
/// sensitive is left alone.
pub open spec fn is_new(learned: Seq<(Seq<char>, LearnedFieldView)>, field: Seq<char>) -> bool {
    table::at(learned, field) is None && !normalization::sensitive(field)
}

pub open spec fn is_unusual(
    learned: Seq<(Seq<char>, LearnedFieldView)>,
    field: Seq<char>,
    kind: Seq<char>,
) -> bool {
    let l = table::at(learned, field);
    l is Some && !l->0.sensitive && usual_kind(l->0) != Some(kind)
}

proof fn lemma_fields_cited(
    learned: Seq<(Seq<char>, LearnedFieldView)>,
    found: Seq<(Seq<char>, Seq<char>)>,
    mode: RuleMode,
    field: Seq<char>,
)
    ensures
        ({
            let all = schema_learning::field_findings(learned, found, mode);
            &&& laws::cites(all, "UZ-API-SCHEMA-001"@, "body."@ + field) == exists|i: int|
                0 <= i < found.len() && (#[trigger] found[i]).0 == field && is_new(learned, field)
            &&& laws::cites(all, "UZ-API-SCHEMA-003"@, "body."@ + field) == exists|i: int|
                0 <= i < found.len() && (#[trigger] found[i]).0 == field && is_unusual(
                    learned,
                    field,
                    found[i].1,
                )
            &&& forall|rule_id: Seq<char>, place: Seq<char>|
                rule_id[16] != '1' && rule_id[16] != '3' ==> !#[trigger] laws::cites(
                    all,
                    rule_id,
                    place,
                )
        }),
    decreases found.len(),
{
    broadcast use laws::group_findings;

    lemma_rules();
    if found.len() > 0 {
        let before = found.drop_last();
        let last = found.last();
        lemma_fields_cited(learned, before, mode, field);
        lemma_place(last.0, field);
        assert(last == found[found.len() - 1]);
        assert(forall|i: int| 0 <= i < before.len() ==> #[trigger] before[i] == found[i]);
        if exists|i: int|
            0 <= i < found.len() && (#[trigger] found[i]).0 == field && is_new(learned, field) {
            let i = choose|i: int|
                0 <= i < found.len() && (#[trigger] found[i]).0 == field && is_new(learned, field);
            if i < before.len() {
                assert(before[i].0 == field);
            }
        }
        if exists|i: int|
            0 <= i < before.len() && (#[trigger] before[i]).0 == field && is_new(learned, field) {
            let i = choose|i: int|
                0 <= i < before.len() && (#[trigger] before[i]).0 == field && is_new(
                    learned,
                    field,
                );
            assert(found[i].0 == field);
        }
        if exists|i: int|
            0 <= i < found.len() && (#[trigger] found[i]).0 == field && is_unusual(
                learned,
                field,
                found[i].1,
            ) {
            let i = choose|i: int|
                0 <= i < found.len() && (#[trigger] found[i]).0 == field && is_unusual(
                    learned,
                    field,
                    found[i].1,
                );
            if i < before.len() {
                assert(before[i].0 == field);
            }
        }
        if exists|i: int|
            0 <= i < before.len() && (#[trigger] before[i]).0 == field && is_unusual(
                learned,
                field,
                before[i].1,
            ) {
            let i = choose|i: int|
                0 <= i < before.len() && (#[trigger] before[i]).0 == field && is_unusual(
                    learned,
                    field,
                    before[i].1,
                );
            assert(found[i].0 == field);
        }
    }
}

/// Whether a field is in nine of ten bodies of a route.
pub open spec fn is_usual(f: LearnedFieldView, samples: u64) -> bool {
    if samples == 0 {
        10 * f.seen >= 9
    } else {
        10 * f.seen >= 9 * samples
    }
}

proof fn lemma_missing_cited(
    learned: Seq<(Seq<char>, LearnedFieldView)>,
    samples: u64,
    found: Seq<(Seq<char>, Seq<char>)>,
    mode: RuleMode,
    field: Seq<char>,
)
    ensures
        ({
            let all = schema_learning::missing_findings(learned, samples, found, mode);
            &&& laws::cites(all, "UZ-API-SCHEMA-002"@, "body."@ + field) == exists|i: int|
                0 <= i < learned.len() && (#[trigger] learned[i]).0 == field && is_usual(
                    learned[i].1,
                    samples,
                ) && !learned[i].1.sensitive && table::at(found, field) is None
            &&& forall|rule_id: Seq<char>, place: Seq<char>|
                rule_id[16] != '2' ==> !#[trigger] laws::cites(all, rule_id, place)
        }),
    decreases learned.len(),
{
    broadcast use laws::group_findings;

    lemma_rules();
    if learned.len() > 0 {
        let before = learned.drop_last();
        let last = learned.last();
        lemma_missing_cited(before, samples, found, mode, field);
        lemma_place(last.0, field);
        assert(last == learned[learned.len() - 1]);
        assert(schema_learning::usually_present(last.1, samples) == is_usual(last.1, samples));
        assert(forall|i: int| 0 <= i < before.len() ==> #[trigger] before[i] == learned[i]);
        if exists|i: int|
            0 <= i < learned.len() && (#[trigger] learned[i]).0 == field && is_usual(
                learned[i].1,
                samples,
            ) && !learned[i].1.sensitive && table::at(found, field) is None {
            let i = choose|i: int|
                0 <= i < learned.len() && (#[trigger] learned[i]).0 == field && is_usual(
                    learned[i].1,
                    samples,
                ) && !learned[i].1.sensitive && table::at(found, field) is None;
            if i < before.len() {
                assert(before[i].0 == field);
            }
        }
        if exists|i: int|
            0 <= i < before.len() && (#[trigger] before[i]).0 == field && is_usual(
                before[i].1,
                samples,
            ) && !before[i].1.sensitive && table::at(found, field) is None {
            let i = choose|i: int|
                0 <= i < before.len() && (#[trigger] before[i]).0 == field && is_usual(
                    before[i].1,
                    samples,
                ) && !before[i].1.sensitive && table::at(found, field) is None;
            assert(learned[i].0 == field);
        }
    }
}

/// Once enough bodies of a route were seen, a new field, a field of another kind than usual, a
/// usual field that is missing, and a body more than four times as large as the largest are
/// reported; too deep a body and too long an array always are. Nothing else is.
pub proof fn law_departures_reported(
    m: Seq<(Seq<char>, LearnedJsonSchemaView)>,
    route_key: Seq<char>,
    n: JsonNodeView,
    body_len: usize,
    config: DiscoveryConfig,
    mode: RuleMode,
    field: Seq<char>,
)
    ensures
        ({
            let all = schema_learning::parsed_findings(m, route_key, n, body_len, config, mode);
            let schema = schema_learning::schema_for(m, route_key);
            let fields = schema_learning::fields_of(n, config.max_schema_fields);
            let ready = schema.samples >= config.schema_min_samples;
            &&& laws::cites(all, "UZ-API-SCHEMA-001"@, "body."@ + field) == (ready && exists|i: int|
                0 <= i < fields.len() && (#[trigger] fields[i]).0 == field && is_new(
                    schema.fields,
                    field,
                ))
            &&& laws::cites(all, "UZ-API-SCHEMA-003"@, "body."@ + field) == (ready && exists|i: int|
                0 <= i < fields.len() && (#[trigger] fields[i]).0 == field && is_unusual(
                    schema.fields,
                    field,
                    fields[i].1,
                ))
            &&& laws::cites(all, "UZ-API-SCHEMA-002"@, "body."@ + field) == (ready && exists|i: int|
                0 <= i < schema.fields.len() && (#[trigger] schema.fields[i]).0 == field
                    && is_usual(schema.fields[i].1, schema.samples)
                    && !schema.fields[i].1.sensitive && table::at(fields, field) is None)
            &&& 4 * schema.max_body_bytes_seen <= usize::MAX ==> laws::cites(
                all,
                "UZ-API-SCHEMA-007"@,
                "request.body.size"@,
            ) == (ready && schema.max_body_bytes_seen > 0 && body_len > 4
                * schema.max_body_bytes_seen)
            &&& laws::cites(all, "UZ-API-SCHEMA-005"@, "request.body.depth"@) == (json::capped(
                json::depth_of(n),
            ) as usize > config.max_json_depth)
            &&& laws::cites(all, "UZ-API-SCHEMA-006"@, "request.body.array"@) == (json::array_len_of(
                n,
            ) as usize > config.max_json_array_len)
        }),
{
    let depth = json::capped(json::depth_of(n)) as usize;
    let array_len = json::array_len_of(n) as usize;
    let schema = schema_learning::schema_for(m, route_key);
    let fields = schema_learning::fields_of(n, config.max_schema_fields);
    let a = schema_learning::structure_findings(depth, array_len, config, mode);
    let b = schema_learning::departures(schema, fields, body_len, mode);
    lemma_structure_cited(depth, array_len, config, mode);
    lemma_departures_cited(schema, fields, body_len, mode, field);
    lemma_rules();
    assert forall|rule_id: Seq<char>, place: Seq<char>| #[trigger]
        laws::cites(a + b, rule_id, place) == (laws::cites(a, rule_id, place) || laws::cites(
            b,
            rule_id,
            place,
        )) by {
        laws::lemma_cites_add(a, b, rule_id, place);
    }
    assert(a + Seq::<FindingView>::empty() =~= a);
}

proof fn lemma_structure_cited(
    depth: usize,
    array_len: usize,
    config: DiscoveryConfig,
    mode: RuleMode,
)
    ensures
        ({
            let all = schema_learning::structure_findings(depth, array_len, config, mode);
            &&& laws::cites(all, "UZ-API-SCHEMA-005"@, "request.body.depth"@) == (depth
                > config.max_json_depth)
            &&& laws::cites(all, "UZ-API-SCHEMA-006"@, "request.body.array"@) == (array_len
                > config.max_json_array_len)
            &&& forall|rule_id: Seq<char>, place: Seq<char>|
                rule_id[16] != '5' && rule_id[16] != '6' ==> !#[trigger] laws::cites(
                    all,
                    rule_id,
                    place,
                )
        }),
{
    broadcast use laws::group_findings;

    lemma_rules();
}

proof fn lemma_departures_cited(
    schema: LearnedJsonSchemaView,
    fields: Seq<(Seq<char>, Seq<char>)>,
    body_len: usize,
    mode: RuleMode,
    field: Seq<char>,
)
    ensures
        ({
            let all = schema_learning::departures(schema, fields, body_len, mode);
            &&& laws::cites(all, "UZ-API-SCHEMA-001"@, "body."@ + field) == exists|i: int|
                0 <= i < fields.len() && (#[trigger] fields[i]).0 == field && is_new(
                    schema.fields,
                    field,
                )
            &&& laws::cites(all, "UZ-API-SCHEMA-003"@, "body."@ + field) == exists|i: int|
                0 <= i < fields.len() && (#[trigger] fields[i]).0 == field && is_unusual(
                    schema.fields,
                    field,
                    fields[i].1,
                )
            &&& laws::cites(all, "UZ-API-SCHEMA-002"@, "body."@ + field) == exists|i: int|
                0 <= i < schema.fields.len() && (#[trigger] schema.fields[i]).0 == field
                    && is_usual(schema.fields[i].1, schema.samples)
                    && !schema.fields[i].1.sensitive && table::at(fields, field) is None
            &&& 4 * schema.max_body_bytes_seen <= usize::MAX ==> laws::cites(
                all,
                "UZ-API-SCHEMA-007"@,
                "request.body.size"@,
            ) == (schema.max_body_bytes_seen > 0 && body_len > 4 * schema.max_body_bytes_seen)
            &&& forall|rule_id: Seq<char>, place: Seq<char>|
                rule_id[16] == '5' || rule_id[16] == '6' ==> !#[trigger] laws::cites(
                    all,
                    rule_id,
                    place,
                )
        }),
{
    broadcast use laws::group_findings;

    lemma_rules();
    lemma_fields_cited(schema.fields, fields, mode, field);
    lemma_missing_cited(schema.fields, schema.samples, fields, mode, field);
}

/// A body that is there is compared and learned from only where it is declared as JSON and is JSON;
/// another declared type and a malformed body are reported, and nothing is learned from them.
pub proof fn law_bodies_read(
    m: Seq<(Seq<char>, LearnedJsonSchemaView)>,
    route_key: Seq<char>,
    body: Option<Seq<char>>,
    content_type: Option<Seq<char>>,
    parsed: Option<JsonNodeView>,
    config: DiscoveryConfig,
    mode: RuleMode,
)
    ensures
        ({
            let all = schema_learning::body_findings(
                m,
                route_key,
                body,
                content_type,
                parsed,
                config,
                mode,
            );
            let after = schema_learning::memory_after_body(
                m,
                route_key,
                body,
                content_type,
                parsed,
                config,
            );
            let filled = body is Some && text::trim_of(body->0).len() > 0;
            let declared = content_type is Some && text::has_part(
                content_type->0,
                "application/json"@,
            );
            &&& !filled ==> all.len() == 0
            &&& filled && content_type is None ==> all.len() == 0
            &&& filled && content_type is Some && !declared ==> all.len() == 1 && all[0].rule_id
                == "UZ-API-SCHEMA-008"@
            &&& filled && declared && parsed is None ==> all.len() == 1 && all[0].rule_id
                == "UZ-API-SCHEMA-004"@ && all[0].evidence[0].location == "request.body"@
            &&& filled && declared && parsed is Some ==> all == schema_learning::parsed_findings(
                m,
                route_key,
                parsed->0,
                text::byte_len_of(body->0) as usize,
                config,
                mode,
            )
            &&& !(filled && declared && parsed is Some) ==> after == m
        }),
{
}

proof fn lemma_fields_after(
    learned: Seq<(Seq<char>, LearnedFieldView)>,
    found: Seq<(Seq<char>, Seq<char>)>,
    field: Seq<char>,
)
    requires
        table::ascending(learned),
        table::ascending(found),
    ensures
        table::ascending(schema_learning::fields_after(learned, found)),
        table::at(schema_learning::fields_after(learned, found), field) == (match table::at(
            found,
            field,
        ) {
            Some(kind) => Some(schema_learning::field_after(learned, field, kind)),
            None => table::at(learned, field),
        }),
    decreases found.len(),
{
    if found.len() > 0 {
        let before = found.drop_last();
        let last = found.last();
        table::lemma_take_ascends(found, found.len() - 1);
        assert(found.take(found.len() - 1) =~= before);
        lemma_fields_after(learned, before, field);
        lemma_fields_after(learned, before, last.0);
        table::lemma_index(before, last.0);
        table::lemma_index_unique(found, found.len() - 1);
        if table::at(before, last.0) is Some {
            let i = table::index_of(before, last.0)->0;
            assert(text::less_of(found[i].0, found[found.len() - 1].0));
            text::lemma_less_order(last.0, last.0, last.0);
        }
        let some = schema_learning::fields_after(learned, before);
        table::law_put(some, last.0, schema_learning::field_after(some, last.0, last.1));
        assert(schema_learning::field_after(some, last.0, last.1) == schema_learning::field_after(
            learned,
            last.0,
            last.1,
        ));
        if field != last.0 {
            table::lemma_index(before, field);
            assert(table::at(found, field) == table::at(before, field));
        }
    }
}

/// What a body teaches: its route has one sample more and its largest measures; every field of the
/// body was seen once more, with its kind counted once more, and every other field is as it was.
pub proof fn law_schema_learned(
    schema: LearnedJsonSchemaView,
    found: Seq<(Seq<char>, Seq<char>)>,
    depth: usize,
    array_len: usize,
    body_len: usize,
    field: Seq<char>,
)
    requires
        table::ascending(schema.fields),
        table::ascending(found),
        schema.samples < u64::MAX,
        forall|i: int|
            0 <= i < schema.fields.len() ==> (#[trigger] schema.fields[i]).1.seen < u64::MAX
                && table::ascending(schema.fields[i].1.types) && forall|j: int|
                0 <= j < schema.fields[i].1.types.len() ==> (
                #[trigger] schema.fields[i].1.types[j]).1 < u64::MAX,
    ensures
        ({
            let after = schema_learning::schema_after(schema, found, depth, array_len, body_len);
            let before = table::at(schema.fields, field);
            let now = table::at(after.fields, field);
            let kind = table::at(found, field);
            &&& after.route_key == schema.route_key
            &&& after.samples == schema.samples + 1
            &&& after.max_depth_seen >= depth && after.max_depth_seen >= schema.max_depth_seen && (
            after.max_depth_seen == depth || after.max_depth_seen == schema.max_depth_seen)
            &&& after.max_array_len_seen >= array_len && after.max_array_len_seen
                >= schema.max_array_len_seen && (after.max_array_len_seen == array_len
                || after.max_array_len_seen == schema.max_array_len_seen)
            &&& after.max_body_bytes_seen >= body_len && after.max_body_bytes_seen
                >= schema.max_body_bytes_seen && (after.max_body_bytes_seen == body_len
                || after.max_body_bytes_seen == schema.max_body_bytes_seen)
            &&& kind is None ==> now == before
            &&& kind is Some ==> now is Some
            &&& kind is Some && before is Some ==> {
                let count = table::at(before->0.types, kind->0);
                &&& now->0.seen == before->0.seen + 1
                &&& now->0.sensitive == before->0.sensitive
                &&& table::at(now->0.types, kind->0) == Some(
                    (if count is Some {
                        count->0 + 1
                    } else {
                        1
                    }) as u64,
                )
                &&& forall|k: Seq<char>|
                    k != kind->0 ==> #[trigger] table::at(now->0.types, k) == table::at(
                        before->0.types,
                        k,
                    )
            }
            &&& kind is Some && before is None ==> {
                &&& now->0.seen == 1
                &&& now->0.sensitive == normalization::sensitive(field)
                &&& table::at(now->0.types, kind->0) == Some(1u64)
            }
        }),
{
    lemma_fields_after(schema.fields, found, field);
    table::lemma_index(schema.fields, field);
    if let Some(kind) = table::at(found, field) {
        match table::at(schema.fields, field) {
            Some(l) => {
                let i = table::index_of(schema.fields, field)->0;
                assert(schema.fields[i].1 == l);
                table::lemma_index(l.types, kind);
                let count = match table::at(l.types, kind) {
                    Some(c) => c,
                    None => 0,
                };
                if table::at(l.types, kind) is Some {
                    let j = table::index_of(l.types, kind)->0;
                    assert(schema.fields[i].1.types[j].1 == count);
                }
                table::law_put(l.types, kind, schema_learning::one_more(count));
            },
            None => {
                let none = Seq::<(Seq<char>, u64)>::empty();
                assert(table::at(none, kind) is None);
                table::law_put(none, kind, 1u64);
            },
        }
    }
}

/// The kind that a field had most often is one that it had, and none was more frequent.
pub proof fn law_usual_kind(f: LearnedFieldView)
    ensures
        match usual_kind(f) {
            Some(k) => exists|i: int|
                0 <= i < f.types.len() && (#[trigger] f.types[i]).0 == k && forall|j: int|
                    0 <= j < f.types.len() ==> (#[trigger] f.types[j]).1 <= f.types[i].1,
            None => f.types.len() == 0,
        },
{
    lemma_dominant(f.types);
}

proof fn lemma_dominant(s: Seq<(Seq<char>, u64)>)
    ensures
        match schema_learning::dominant_index(s) {
            Some(i) => 0 <= i < s.len() && forall|j: int|
                0 <= j < s.len() ==> (#[trigger] s[j]).1 <= s[i].1,
            None => s.len() == 0,
        },
    decreases s.len(),
{
    if s.len() > 0 {
        let before = s.drop_last();
        lemma_dominant(before);
        assert(forall|j: int| 0 <= j < before.len() ==> #[trigger] before[j] == s[j]);
        if schema_learning::dominant_index(before) is Some {
            let i = schema_learning::dominant_index(before)->0;
            assert(before[i] == s[i]);
            assert forall|j: int| 0 <= j < before.len() implies (#[trigger] s[j]).1 <= s[i].1 by {
                assert(before[j].1 <= before[i].1);
            }
        }
    }
}

/// What the inspection of a request reports of learned bodies is what comparing its body gives, and
/// nothing where routes are not learned.
pub proof fn law_learned_reported(
    config: AppConfig,
    policy: LivePolicyState,
    known: Seq<LearnedRouteView>,
    hits: u64,
    schemas: Seq<(Seq<char>, LearnedJsonSchemaView)>,
    request: RequestContext,
    h: Headers,
    rule_id: Seq<char>,
    place: Seq<char>,
)
    requires
        rule_id == "UZ-API-SCHEMA-001"@ || rule_id == "UZ-API-SCHEMA-002"@ || rule_id
            == "UZ-API-SCHEMA-003"@ || rule_id == "UZ-API-SCHEMA-004"@ || rule_id
            == "UZ-API-SCHEMA-005"@ || rule_id == "UZ-API-SCHEMA-006"@ || rule_id
            == "UZ-API-SCHEMA-007"@ || rule_id == "UZ-API-SCHEMA-008"@,
    ensures
        ({
            let reported = attacks::found_in(config, policy, known, hits, schemas, request, h);
            let n = normalization::normalized_of(request, h, detection::limits_of(config));
            laws::cites(reported, rule_id, place) == (config.discovery.enabled && laws::cites(
                schema_learning::body_findings(
                    schemas,
                    text::upper_of(request.method@) + ":"@ + crate::routes::route_of(request.path@),
                    request.body_preview.deep_view(),
                    n.content_type,
                    inspection::parsed_body(request),
                    config.discovery,
                    types::rule_mode_of(policy, request.path@, "UZ-API-SCHEMA-000"@),
                ),
                rule_id,
                place,
            ))
        }),
{
    attacks::lemma_reported_by_class(config, policy, known, hits, schemas, request, h);
    sources::lemma_learned_rules();
    let c = attacks::checks_of(config, policy, known, hits, schemas, request, h);
    laws::lemma_cites_add(c.declared, c.learned, rule_id, place);
    lemma_declared_not_learned(config, policy, request, h, rule_id, place);
}

proof fn lemma_declared_not_learned(
    config: AppConfig,
    policy: LivePolicyState,
    request: RequestContext,
    h: Headers,
    rule_id: Seq<char>,
    place: Seq<char>,
)
    requires
        rule_id == "UZ-API-SCHEMA-001"@ || rule_id == "UZ-API-SCHEMA-002"@ || rule_id
            == "UZ-API-SCHEMA-003"@ || rule_id == "UZ-API-SCHEMA-004"@ || rule_id
            == "UZ-API-SCHEMA-005"@ || rule_id == "UZ-API-SCHEMA-006"@ || rule_id
            == "UZ-API-SCHEMA-007"@ || rule_id == "UZ-API-SCHEMA-008"@,
    ensures
        !laws::cites(
            sources::only(
                crate::validation::validation_of(
                    config,
                    policy,
                    request,
                    crate::routes::route_of(request.path@),
                    h,
                    crate::validation::body_json(request),
                ).finding,
            ),
            rule_id,
            place,
        ),
{
    reveal_strlit("UZ-API-SCHEMA-001");
    reveal_strlit("UZ-API-SCHEMA-002");
    reveal_strlit("UZ-API-SCHEMA-003");
    reveal_strlit("UZ-API-SCHEMA-004");
    reveal_strlit("UZ-API-SCHEMA-005");
    reveal_strlit("UZ-API-SCHEMA-006");
    reveal_strlit("UZ-API-SCHEMA-007");
    reveal_strlit("UZ-API-SCHEMA-008");
    assert(rule_id[0] == 'U');
    lemma_declared_rule(
        config,
        policy,
        request,
        crate::routes::route_of(request.path@),
        h,
        crate::validation::body_json(request),
    );
}

proof fn lemma_declared_rule(
    config: AppConfig,
    policy: LivePolicyState,
    request: RequestContext,
    route: Seq<char>,
    h: Headers,
    parsed: Option<JsonNodeView>,
)
    ensures
        match crate::validation::validation_of(config, policy, request, route, h, parsed).finding {
            Some(f) => f.rule_id[0] == 's',
            None => true,
        },
{
    lemma_declared_names();
    match crate::routes::match_in(
        crate::routes::compiled_routes(config),
        request.method@,
        route,
    ) {
        Some(r) => {
            if parsed is Some {
                lemma_declared_fields(policy, request.path@, parsed->0, r.body.required_fields);
            }
        },
        None => {},
    }
}

proof fn lemma_declared_fields(
    policy: LivePolicyState,
    path: Seq<char>,
    n: JsonNodeView,
    fields: Seq<crate::config::SchemaFieldConfigView>,
)
    ensures
        match crate::validation::fields_error(policy, path, n, fields) {
            Some(r) => r.finding is Some && r.finding->0.rule_id[0] == 's',
            None => true,
        },
    decreases fields.len(),
{
    lemma_declared_names();
    if fields.len() > 0 {
        lemma_declared_fields(policy, path, n, fields.drop_first());
    }
}

proof fn lemma_declared_names()
    ensures
        "schema.required_field_missing"@[0] == 's',
        "schema.field_type_mismatch"@[0] == 's',
        "schema.body_required"@[0] == 's',
        "schema.invalid_json"@[0] == 's',
        "schema.max_depth"@[0] == 's',
        "schema.max_fields"@[0] == 's',
        "schema.missing_required_header"@[0] == 's',
        "schema.missing_required_query"@[0] == 's',
        "schema.auth_required"@[0] == 's',
        "schema.unknown_route"@[0] == 's',
{
    reveal_strlit("schema.required_field_missing");
    reveal_strlit("schema.field_type_mismatch");
    reveal_strlit("schema.body_required");
    reveal_strlit("schema.invalid_json");
    reveal_strlit("schema.max_depth");
    reveal_strlit("schema.max_fields");
    reveal_strlit("schema.missing_required_header");
    reveal_strlit("schema.missing_required_query");
    reveal_strlit("schema.auth_required");
    reveal_strlit("schema.unknown_route");
}

} // verus!
