//! Learning the shape of JSON request bodies and noticing departures from it.

use crate::config::{DiscoveryConfig, RuleMode};
use crate::detection::normalization;
use crate::json;
use crate::json::{Json, JsonNode, JsonNodeView, JsonView};
use crate::outside;
use crate::table;
use crate::table::Table;
use crate::text;
use crate::types;
use crate::types::{AttackClass, Finding, FindingView, Severity};
use vstd::prelude::*;
use vstd::utf8;

verus! {

/// What was seen of one field: how often, with which kinds of values, and whether its name is
/// sensitive. No value of the field is kept.
#[derive(Debug)]
pub struct LearnedField {
    pub seen: u64,
    pub types: Table<u64>,
    pub sensitive: bool,
}

#[verifier::ext_equal]
pub struct LearnedFieldView {
    pub seen: u64,
    pub types: Seq<(Seq<char>, u64)>,
    pub sensitive: bool,
}

impl DeepView for LearnedField {
    type V = LearnedFieldView;

    open spec fn deep_view(&self) -> LearnedFieldView {
        LearnedFieldView {
            seen: self.seen,
            types: self.types.deep_view(),
            sensitive: self.sensitive,
        }
    }
}

impl Clone for LearnedField {
    fn clone(&self) -> (r: Self)
        ensures
            r.deep_view() == self.deep_view(),
    {
        LearnedField { seen: self.seen, types: self.types.clone(), sensitive: self.sensitive }
    }
}

/// What was seen of the bodies of one route.
#[derive(Debug)]
pub struct LearnedJsonSchema {
    pub route_key: String,
    pub samples: u64,
    pub fields: Table<LearnedField>,
    pub max_depth_seen: usize,
    pub max_array_len_seen: usize,
    pub max_body_bytes_seen: usize,
}

#[verifier::ext_equal]
pub struct LearnedJsonSchemaView {
    pub route_key: Seq<char>,
    pub samples: u64,
    pub fields: Seq<(Seq<char>, LearnedFieldView)>,
    pub max_depth_seen: usize,
    pub max_array_len_seen: usize,
    pub max_body_bytes_seen: usize,
}

impl DeepView for LearnedJsonSchema {
    type V = LearnedJsonSchemaView;

    open spec fn deep_view(&self) -> LearnedJsonSchemaView {
        LearnedJsonSchemaView {
            route_key: self.route_key@,
            samples: self.samples,
            fields: self.fields.deep_view(),
            max_depth_seen: self.max_depth_seen,
            max_array_len_seen: self.max_array_len_seen,
            max_body_bytes_seen: self.max_body_bytes_seen,
        }
    }
}

/// The learned schemas, by route key.
#[derive(Debug)]
pub struct SchemaMemory {
    pub schemas: Table<LearnedJsonSchema>,
}

impl DeepView for SchemaMemory {
    type V = Seq<(Seq<char>, LearnedJsonSchemaView)>;

    open spec fn deep_view(&self) -> Seq<(Seq<char>, LearnedJsonSchemaView)> {
        self.schemas.deep_view()
    }
}

impl SchemaMemory {
    pub fn new() -> (r: Self)
        ensures
            r.deep_view() == Seq::<(Seq<char>, LearnedJsonSchemaView)>::empty(),
    {
        SchemaMemory { schemas: Table::new() }
    }
}

/// Forgets all schemas and gives their number.
pub fn clear_schema_memory(memory: &mut SchemaMemory) -> (r: usize)
    ensures
        r == old(memory).deep_view().len(),
        final(memory).deep_view() == Seq::<(Seq<char>, LearnedJsonSchemaView)>::empty(),
{
    let count = memory.schemas.len();
    memory.schemas = Table::new();
    count
}

/// A field name in the form in which it is learned.
pub open spec fn field_name(key: Seq<char>) -> Seq<char> {
    text::lower_of(text::cleaned_of(key, true))
}

/// The path of a field inside another.
pub open spec fn field_path(prefix: Seq<char>, name: Seq<char>) -> Seq<char> {
    if prefix.len() == 0 {
        name
    } else {
        prefix + "."@ + name
    }
}

/// The fields found so far with those of a value added, up to `max_fields`.
pub open spec fn flatten_into(
    found: Seq<(Seq<char>, Seq<char>)>,
    n: JsonNodeView,
    prefix: Seq<char>,
    max_fields: nat,
) -> Seq<(Seq<char>, Seq<char>)>
    decreases n,
{
    if found.len() >= max_fields {
        found
    } else {
        match n.value {
            JsonView::Object(members) => flatten_members(found, members, prefix, max_fields),
            _ => found,
        }
    }
}

/// The fields found so far with those of some members added, up to `max_fields`.
pub open spec fn flatten_members(
    found: Seq<(Seq<char>, Seq<char>)>,
    members: Seq<(Seq<char>, JsonNodeView)>,
    prefix: Seq<char>,
    max_fields: nat,
) -> Seq<(Seq<char>, Seq<char>)>
    decreases members,
{
    if members.len() == 0 || found.len() >= max_fields {
        found
    } else {
        let rest = members.drop_first();
        let name = field_name(members[0].0);
        if name.len() == 0 {
            flatten_members(found, rest, prefix, max_fields)
        } else {
            let path = field_path(prefix, name);
            let with_field = table::put(found, path, json::kind_of(members[0].1));
            let with_children = if members[0].1.value is Object {
                flatten_into(with_field, members[0].1, path, max_fields)
            } else {
                with_field
            };
            flatten_members(with_children, rest, prefix, max_fields)
        }
    }
}

/// The fields of a value with the kinds of their values: the paths of all object members, at most
/// `max_fields` of them.
pub open spec fn fields_of(n: JsonNodeView, max_fields: usize) -> Seq<(Seq<char>, Seq<char>)> {
    flatten_into(Seq::empty(), n, Seq::empty(), max_fields as nat)
}

pub fn flatten_json_fields(node: &JsonNode, max_fields: usize) -> (r: Table<String>)
    ensures
        r.deep_view() == fields_of(node.deep_view(), max_fields),
{
    let mut out: Table<String> = Table::new();
    proof {
        reveal_strlit("");
        assert(""@ =~= Seq::empty());
    }
    flatten_json_fields_inner(node, "", max_fields, &mut out);
    out
}

fn flatten_json_fields_inner(
    node: &JsonNode,
    prefix: &str,
    max_fields: usize,
    out: &mut Table<String>,
)
    ensures
        final(out).deep_view() == flatten_into(
            old(out).deep_view(),
            node.deep_view(),
            prefix@,
            max_fields as nat,
        ),
    decreases node,
{
    proof {
        json::lemma_node_view(*node);
    }
    if out.len() >= max_fields {
        return;
    }
    if let Json::Object(members) = &node.value {
        let ghost all = json::members_view(members@);
        let ghost goal = flatten_members(old(out).deep_view(), all, prefix@, max_fields as nat);
        let mut i: usize = 0;
        assert(all.skip(0) =~= all);
        while i < members.len()
            invariant
                i <= members@.len(),
                node.value == Json::Object(*members),
                all == json::members_view(members@),
                goal == flatten_members(
                    out.deep_view(),
                    all.skip(i as int),
                    prefix@,
                    max_fields as nat,
                ),
                goal == flatten_into(
                    old(out).deep_view(),
                    node.deep_view(),
                    prefix@,
                    max_fields as nat,
                ),
            decreases members@.len() - i,
        {
            if out.len() >= max_fields {
                return;
            }
            let member = &members[i];
            let child = &member.node;
            proof {
                assert(all.skip(i as int)[0] == all[i as int]);
                assert(all[i as int] == (member.name@, child.deep_view()));
                assert(all.skip(i as int).drop_first() =~= all.skip(i + 1));
                json::lemma_node_view(*child);
            }
            let cleaned = text::clean_name(member.name.as_str(), true);
            let name = text::to_ascii_lowercase(cleaned.as_str());
            if !name.as_str().is_empty() {
                let path = if prefix.is_empty() {
                    name
                } else {
                    text::cat3(prefix, ".", name.as_str())
                };
                out.insert(path.clone(), json::json_kind(child).to_string());
                let object = match &child.value {
                    Json::Object(_) => true,
                    _ => false,
                };
                if object {
                    assert(decreases_to!(*node => members@[i as int].node)) by {
                        assert(decreases_to!(*node => node.value));
                        assert(decreases_to!(node.value => node.value->Object_0));
                        assert(decreases_to!(*members => members@));
                        assert(decreases_to!(members@ => members@[i as int]));
                        assert(decreases_to!(members@[i as int] => members@[i as int].node));
                    }
                    flatten_json_fields_inner(child, path.as_str(), max_fields, out);
                }
            }
            i = i + 1;
        }
        assert(all.skip(i as int).len() == 0);
    }
}

fn clone_fields(fields: &Table<LearnedField>) -> (r: Table<LearnedField>)
    ensures
        r.deep_view() == fields.deep_view(),
{
    let ghost all = fields.deep_view();
    let n = fields.len();
    let mut out: Table<LearnedField> = Table::new();
    let mut i: usize = 0;
    assert(all.take(0) =~= Seq::empty());
    while i < n
        invariant
            i <= n,
            n == all.len(),
            all == fields.deep_view(),
            table::ascending(all),
            out.deep_view() == all.take(i as int),
        decreases n - i,
    {
        let key = fields.key(i).to_string();
        let value = fields.value(i).clone();
        proof {
            assert(all.take(i + 1) =~= all.take(i as int).push((key@, value.deep_view())));
            table::lemma_take_ascends(all, i + 1);
            table::lemma_put_last(all.take(i as int), key@, value.deep_view());
        }
        out.insert(key, value);
        i = i + 1;
    }
    assert(all.take(i as int) =~= all);
    out
}

impl Clone for LearnedJsonSchema {
    fn clone(&self) -> (r: Self)
        ensures
            r.deep_view() == self.deep_view(),
    {
        LearnedJsonSchema {
            route_key: self.route_key.clone(),
            samples: self.samples,
            fields: clone_fields(&self.fields),
            max_depth_seen: self.max_depth_seen,
            max_array_len_seen: self.max_array_len_seen,
            max_body_bytes_seen: self.max_body_bytes_seen,
        }
    }
}

/// Whether schemas are ordered by their samples, the most first.
pub open spec fn most_samples_first(s: Seq<LearnedJsonSchemaView>) -> bool {
    forall|i: int, j: int|
        0 <= i < j < s.len() ==> (#[trigger] s[i]).samples >= (#[trigger] s[j]).samples
}

/// The schemas of a memory.
pub open spec fn schemas_of(m: Seq<(Seq<char>, LearnedJsonSchemaView)>) -> Seq<
    LearnedJsonSchemaView,
> {
    Seq::new(m.len(), |i: int| m[i].1)
}

/// The schemas with the most samples, at most `limit` of them: the start of a list of all schemas
/// in that order.
pub fn snapshot_schema_memory(memory: &SchemaMemory, limit: usize) -> (r: Vec<LearnedJsonSchema>)
    ensures
        exists|sorted: Seq<LearnedJsonSchemaView>|
            {
                &&& #[trigger] most_samples_first(sorted)
                &&& sorted.to_multiset() == schemas_of(memory.deep_view()).to_multiset()
                &&& r.deep_view() == (if sorted.len() <= limit {
                    sorted
                } else {
                    sorted.take(limit as int)
                })
            },
{
    let ghost all = schemas_of(memory.deep_view());
    let n = memory.schemas.len();
    let mut out: Vec<LearnedJsonSchema> = Vec::new();
    let mut i: usize = 0;
    assert(out.deep_view() =~= all.take(0));
    while i < n
        invariant
            i <= n,
            n == all.len(),
            all == schemas_of(memory.deep_view()),
            most_samples_first(out.deep_view()),
            out.deep_view().to_multiset() == all.take(i as int).to_multiset(),
        decreases n - i,
    {
        let schema = memory.schemas.value(i).clone();
        let ghost view = schema.deep_view();
        let ghost before = out.deep_view();
        assert(view == all[i as int]);
        let mut at: usize = 0;
        while at < out.len() && out[at].samples >= schema.samples
            invariant
                at <= out@.len(),
                before == out.deep_view(),
                forall|j: int|
                    0 <= j < at ==> (#[trigger] before[j]).samples >= schema.samples,
            decreases out@.len() - at,
        {
            assert(before[at as int] == out@[at as int].deep_view());
            at = at + 1;
        }
        assert(at < before.len() ==> before[at as int] == out@[at as int].deep_view());
        out.insert(at, schema);
        proof {
            let after = out.deep_view();
            assert(after =~= before.insert(at as int, view));
            assert forall|x: int, y: int| 0 <= x < y < after.len() implies (
            #[trigger] after[x]).samples >= (#[trigger] after[y]).samples by {
                let px = if x < at {
                    x
                } else {
                    x - 1
                };
                let py = if y < at {
                    y
                } else {
                    y - 1
                };
                if x == at {
                    if py > at {
                        assert(before[at as int].samples >= before[py].samples);
                    }
                } else if y == at {
                    assert(before[px].samples >= view.samples);
                } else {
                    assert(before[px].samples >= before[py].samples);
                }
            }
            vstd::seq_lib::to_multiset_insert(before, at as int, view);
            vstd::seq_lib::to_multiset_build(all.take(i as int), view);
            assert(all.take(i + 1) =~= all.take(i as int).push(view));
        }
        i = i + 1;
    }
    assert(all.take(i as int) =~= all);
    let ghost sorted = out.deep_view();
    assert(most_samples_first(sorted));
    if out.len() > limit {
        out.truncate(limit);
        assert(out.deep_view() =~= sorted.take(limit as int));
    }
    out
}

/// A finding about the shape of a body.
pub open spec fn schema_finding_of(
    rule_id: Seq<char>,
    severity: Severity,
    confidence: i64,
    message: Seq<char>,
    location: Seq<char>,
    value_preview: Seq<char>,
    mode: RuleMode,
) -> FindingView {
    types::finding_of(
        rule_id,
        AttackClass::SchemaViolation,
        severity,
        confidence,
        message,
        location,
        text::truncate_of(value_preview, 160),
        mode,
    )
}

fn schema_finding(
    rule_id: &str,
    severity: Severity,
    confidence: i64,
    message: &str,
    location: &str,
    value_preview: &str,
    mode: RuleMode,
) -> (r: Finding)
    ensures
        r.deep_view() == schema_finding_of(
            rule_id@,
            severity,
            confidence,
            message@,
            location@,
            value_preview@,
            mode,
        ),
{
    let preview = text::truncate(value_preview, 160);
    types::make_finding(
        rule_id,
        AttackClass::SchemaViolation,
        severity,
        confidence,
        message,
        location,
        preview.as_str(),
        mode,
    )
}

/// The position of the kind that was counted most often; of several, the last.
pub open spec fn dominant_index(s: Seq<(Seq<char>, u64)>) -> Option<int>
    decreases s.len(),
{
    if s.len() == 0 {
        None
    } else {
        match dominant_index(s.drop_last()) {
            None => Some(s.len() - 1),
            Some(j) => if s.last().1 >= s[j].1 {
                Some(s.len() - 1)
            } else {
                Some(j)
            },
        }
    }
}

/// The kind that was counted most often.
pub open spec fn dominant(s: Seq<(Seq<char>, u64)>) -> Option<Seq<char>> {
    match dominant_index(s) {
        Some(i) => Some(s[i].0),
        None => None,
    }
}

/// No kind was counted more often than the dominant one.
pub proof fn law_dominant(s: Seq<(Seq<char>, u64)>)
    requires
        s.len() > 0,
    ensures
        dominant_index(s) is Some,
        0 <= dominant_index(s)->0 < s.len(),
        forall|i: int| 0 <= i < s.len() ==> (#[trigger] s[i]).1 <= s[dominant_index(s)->0].1,
    decreases s.len(),
{
    if s.len() > 1 {
        let d = s.drop_last();
        law_dominant(d);
        let j = dominant_index(d)->0;
        assert(d[j] == s[j]);
        assert forall|i: int| 0 <= i < s.len() implies (#[trigger] s[i]).1
            <= s[dominant_index(s)->0].1 by {
            if i < d.len() {
                assert(d[i].1 <= d[j].1);
            }
        }
    } else {
        assert(dominant_index(s.drop_last()) is None);
    }
}

pub fn dominant_type(field: &LearnedField) -> (r: Option<String>)
    ensures
        r.deep_view() == dominant(field.deep_view().types),
{
    let ghost all = field.types.deep_view();
    let n = field.types.len();
    if n == 0 {
        return None;
    }
    let mut best: usize = 0;
    let mut i: usize = 1;
    proof {
        assert(all.take(1).drop_last() =~= Seq::empty());
        assert(dominant_index(all.take(1).drop_last()) is None);
    }
    while i < n
        invariant
            1 <= i <= n,
            n == all.len(),
            all == field.types.deep_view(),
            best < i,
            dominant_index(all.take(i as int)) == Some(best as int),
        decreases n - i,
    {
        assert(all.take(i + 1).drop_last() =~= all.take(i as int));
        assert(all.take(i as int)[best as int] == all[best as int]);
        if *field.types.value(i) >= *field.types.value(best) {
            best = i;
        }
        i = i + 1;
    }
    assert(all.take(i as int) =~= all);
    Some(field.types.key(best).to_string())
}

/// How an optional kind is written in a finding.
pub open spec fn shown_kind(kind: Option<Seq<char>>) -> Seq<char> {
    match kind {
        Some(k) => "Some(\""@ + k + "\")"@,
        None => "None"@,
    }
}

fn show_kind(kind: &Option<String>) -> (r: String)
    ensures
        r@ == shown_kind(kind.deep_view()),
{
    match kind {
        Some(k) => text::cat3("Some(\"", k.as_str(), "\")"),
        None => "None".to_string(),
    }
}

/// The finding about one field of a body, if there is one: the field was not learned, or the kind
/// of its value is not the usual one. Sensitive fields are passed over.
pub open spec fn field_finding(
    learned: Seq<(Seq<char>, LearnedFieldView)>,
    field: Seq<char>,
    kind: Seq<char>,
    mode: RuleMode,
) -> Option<FindingView> {
    match table::at(learned, field) {
        None => if normalization::sensitive(field) {
            None
        } else {
            Some(
                schema_finding_of(
                    "UZ-API-SCHEMA-001"@,
                    Severity::Medium,
                    720_000,
                    "unexpected JSON request field observed"@,
                    "body."@ + field,
                    field,
                    mode,
                ),
            )
        },
        Some(l) => if dominant(l.types) != Some(kind) && !l.sensitive {
            Some(
                schema_finding_of(
                    "UZ-API-SCHEMA-003"@,
                    Severity::Medium,
                    780_000,
                    "JSON request field type differs from learned schema"@,
                    "body."@ + field,
                    "field="@ + field + ", expected="@ + shown_kind(dominant(l.types))
                        + ", actual="@ + kind,
                    mode,
                ),
            )
        } else {
            None
        },
    }
}

/// The findings about the fields of a body, in order of their names.
pub open spec fn field_findings(
    learned: Seq<(Seq<char>, LearnedFieldView)>,
    found: Seq<(Seq<char>, Seq<char>)>,
    mode: RuleMode,
) -> Seq<FindingView>
    decreases found.len(),
{
    if found.len() == 0 {
        Seq::empty()
    } else {
        let before = field_findings(learned, found.drop_last(), mode);
        match field_finding(learned, found.last().0, found.last().1, mode) {
            Some(f) => before.push(f),
            None => before,
        }
    }
}

fn check_field(
    learned: &Table<LearnedField>,
    field: &str,
    kind: &str,
    mode: RuleMode,
) -> (r: Option<Finding>)
    ensures
        r.deep_view() == field_finding(learned.deep_view(), field@, kind@, mode),
{
    let location = text::cat2("body.", field);
    match learned.get(field) {
        None => {
            if normalization::is_sensitive_key(field) {
                None
            } else {
                Some(
                    schema_finding(
                        "UZ-API-SCHEMA-001",
                        Severity::Medium,
                        720_000,
                        "unexpected JSON request field observed",
                        location.as_str(),
                        field,
                        mode,
                    ),
                )
            }
        },
        Some(l) => {
            let expected = dominant_type(l);
            let usual = match &expected {
                Some(e) => text::same(e.as_str(), kind),
                None => false,
            };
            if !usual && !l.sensitive {
                let shown = show_kind(&expected);
                let mut preview = text::cat5("field=", field, ", expected=", shown.as_str(), ", actual=");
                preview.append(kind);
                Some(
                    schema_finding(
                        "UZ-API-SCHEMA-003",
                        Severity::Medium,
                        780_000,
                        "JSON request field type differs from learned schema",
                        location.as_str(),
                        preview.as_str(),
                        mode,
                    ),
                )
            } else {
                None
            }
        },
    }
}

/// Whether a field was in at least nine of ten samples.
pub open spec fn usually_present(f: LearnedFieldView, samples: u64) -> bool {
    f.seen * 10 >= (if samples > 0 {
        samples as int
    } else {
        1
    }) * 9
}

/// The findings about usual fields that a body lacks, in order of their names.
pub open spec fn missing_findings(
    learned: Seq<(Seq<char>, LearnedFieldView)>,
    samples: u64,
    found: Seq<(Seq<char>, Seq<char>)>,
    mode: RuleMode,
) -> Seq<FindingView>
    decreases learned.len(),
{
    if learned.len() == 0 {
        Seq::empty()
    } else {
        let before = missing_findings(learned.drop_last(), samples, found, mode);
        let (field, l) = learned.last();
        if usually_present(l, samples) && table::at(found, field) is None && !l.sensitive {
            before.push(
                schema_finding_of(
                    "UZ-API-SCHEMA-002"@,
                    Severity::Low,
                    680_000,
                    "usually-present JSON request field is missing"@,
                    "body."@ + field,
                    field,
                    mode,
                ),
            )
        } else {
            before
        }
    }
}

/// Whether a body is more than four times as large as any that was learned.
pub open spec fn unusually_large(body_len: usize, learned_max: usize) -> bool {
    learned_max > 0 && body_len > (if learned_max * 4 <= usize::MAX {
        learned_max * 4
    } else {
        usize::MAX as int
    })
}

/// The findings about a body of a route that was learned well enough.
pub open spec fn departures(
    schema: LearnedJsonSchemaView,
    found: Seq<(Seq<char>, Seq<char>)>,
    body_len: usize,
    mode: RuleMode,
) -> Seq<FindingView> {
    let fields = field_findings(schema.fields, found, mode) + missing_findings(
        schema.fields,
        schema.samples,
        found,
        mode,
    );
    if unusually_large(body_len, schema.max_body_bytes_seen) {
        fields.push(
            schema_finding_of(
                "UZ-API-SCHEMA-007"@,
                Severity::Medium,
                750_000,
                "request body is unusually large for learned route"@,
                "request.body.size"@,
                "bytes="@ + text::decimal_of(body_len as nat) + ", learned_max="@
                    + text::decimal_of(schema.max_body_bytes_seen as nat),
                mode,
            ),
        )
    } else {
        fields
    }
}

fn find_departures(
    schema: &LearnedJsonSchema,
    found: &Table<String>,
    body_len: usize,
    mode: RuleMode,
) -> (r: Vec<Finding>)
    ensures
        r.deep_view() == departures(schema.deep_view(), found.deep_view(), body_len, mode),
{
    let mut findings: Vec<Finding> = Vec::new();
    let ghost f = found.deep_view();
    let ghost l = schema.fields.deep_view();
    let n = found.len();
    let mut i: usize = 0;
    assert(f.take(0) =~= Seq::empty());
    assert(findings.deep_view() =~= Seq::empty());
    while i < n
        invariant
            i <= n,
            n == f.len(),
            f == found.deep_view(),
            l == schema.fields.deep_view(),
            findings.deep_view() == field_findings(l, f.take(i as int), mode),
        decreases n - i,
    {
        assert(f.take(i + 1).drop_last() =~= f.take(i as int));
        assert(f.take(i + 1).last() == f[i as int]);
        match check_field(&schema.fields, found.key(i), found.value(i).as_str(), mode) {
            Some(finding) => {
                types::push_finding(&mut findings, finding);
            },
            None => {},
        }
        i = i + 1;
    }
    assert(f.take(i as int) =~= f);
    let ghost first = field_findings(l, f, mode);
    let m = schema.fields.len();
    let samples: u128 = if schema.samples > 0 {
        schema.samples as u128
    } else {
        1
    };
    let mut j: usize = 0;
    assert(l.take(0) =~= Seq::empty());
    assert(findings.deep_view() =~= first + missing_findings(l.take(0), schema.samples, f, mode));
    while j < m
        invariant
            j <= m,
            m == l.len(),
            f == found.deep_view(),
            l == schema.fields.deep_view(),
            samples == (if schema.samples > 0 {
                schema.samples as int
            } else {
                1
            }),
            findings.deep_view() == first + missing_findings(
                l.take(j as int),
                schema.samples,
                f,
                mode,
            ),
        decreases m - j,
    {
        assert(l.take(j + 1).drop_last() =~= l.take(j as int));
        assert(l.take(j + 1).last() == l[j as int]);
        let field = schema.fields.key(j);
        let learned = schema.fields.value(j);
        if learned.seen as u128 * 10 >= samples * 9 && !found.contains_key(field)
            && !learned.sensitive {
            let location = text::cat2("body.", field);
            types::push_finding(
                &mut findings,
                schema_finding(
                    "UZ-API-SCHEMA-002",
                    Severity::Low,
                    680_000,
                    "usually-present JSON request field is missing",
                    location.as_str(),
                    field,
                    mode,
                ),
            );
            assert(findings.deep_view() =~= first + missing_findings(
                l.take(j + 1),
                schema.samples,
                f,
                mode,
            ));
        }
        j = j + 1;
    }
    assert(l.take(j as int) =~= l);
    let limit: u128 = schema.max_body_bytes_seen as u128 * 4;
    let most: u128 = if limit <= usize::MAX as u128 {
        limit
    } else {
        usize::MAX as u128
    };
    if schema.max_body_bytes_seen > 0 && body_len as u128 > most {
        let size = text::decimal(body_len as u128);
        let learned_max = text::decimal(schema.max_body_bytes_seen as u128);
        let preview = text::cat4("bytes=", size.as_str(), ", learned_max=", learned_max.as_str());
        types::push_finding(
            &mut findings,
            schema_finding(
                "UZ-API-SCHEMA-007",
                Severity::Medium,
                750_000,
                "request body is unusually large for learned route",
                "request.body.size",
                preview.as_str(),
                mode,
            ),
        );
    }
    findings
}

/// One more; the count stops at its largest value.
pub open spec fn one_more(n: u64) -> u64 {
    if n < u64::MAX {
        (n + 1) as u64
    } else {
        n
    }
}

/// A learned field after it was seen once more with a kind of value.
pub open spec fn field_after(
    learned: Seq<(Seq<char>, LearnedFieldView)>,
    field: Seq<char>,
    kind: Seq<char>,
) -> LearnedFieldView {
    let l = match table::at(learned, field) {
        Some(l) => l,
        None => LearnedFieldView {
            seen: 0,
            types: Seq::empty(),
            sensitive: normalization::sensitive(field),
        },
    };
    let count = match table::at(l.types, kind) {
        Some(n) => n,
        None => 0,
    };
    LearnedFieldView {
        seen: one_more(l.seen),
        types: table::put(l.types, kind, one_more(count)),
        sensitive: l.sensitive,
    }
}

/// The learned fields after a body with some fields.
pub open spec fn fields_after(
    learned: Seq<(Seq<char>, LearnedFieldView)>,
    found: Seq<(Seq<char>, Seq<char>)>,
) -> Seq<(Seq<char>, LearnedFieldView)>
    decreases found.len(),
{
    if found.len() == 0 {
        learned
    } else {
        let before = fields_after(learned, found.drop_last());
        table::put(
            before,
            found.last().0,
            field_after(before, found.last().0, found.last().1),
        )
    }
}

fn learn_field(learned: &mut Table<LearnedField>, field: &str, kind: &str)
    ensures
        final(learned).deep_view() == table::put(
            old(learned).deep_view(),
            field@,
            field_after(old(learned).deep_view(), field@, kind@),
        ),
{
    let mut entry = match learned.get(field) {
        Some(l) => l.clone(),
        None => LearnedField {
            seen: 0,
            types: Table::new(),
            sensitive: normalization::is_sensitive_key(field),
        },
    };
    entry.seen = entry.seen.saturating_add(1);
    let count: u64 = match entry.types.get(kind) {
        Some(n) => *n,
        None => 0,
    };
    entry.types.insert(kind.to_string(), count.saturating_add(1));
    learned.insert(field.to_string(), entry);
}

pub open spec fn larger_usize(a: usize, b: usize) -> usize {
    if a < b {
        b
    } else {
        a
    }
}

/// A schema after one more body.
pub open spec fn schema_after(
    schema: LearnedJsonSchemaView,
    found: Seq<(Seq<char>, Seq<char>)>,
    depth: usize,
    array_len: usize,
    body_len: usize,
) -> LearnedJsonSchemaView {
    LearnedJsonSchemaView {
        route_key: schema.route_key,
        samples: one_more(schema.samples),
        fields: fields_after(schema.fields, found),
        max_depth_seen: larger_usize(schema.max_depth_seen, depth),
        max_array_len_seen: larger_usize(schema.max_array_len_seen, array_len),
        max_body_bytes_seen: larger_usize(schema.max_body_bytes_seen, body_len),
    }
}

fn learn_body(
    schema: &mut LearnedJsonSchema,
    found: &Table<String>,
    depth: usize,
    array_len: usize,
    body_len: usize,
)
    ensures
        final(schema).deep_view() == schema_after(
            old(schema).deep_view(),
            found.deep_view(),
            depth,
            array_len,
            body_len,
        ),
{
    let ghost start = schema.fields.deep_view();
    let ghost f = found.deep_view();
    schema.samples = schema.samples.saturating_add(1);
    if schema.max_depth_seen < depth {
        schema.max_depth_seen = depth;
    }
    if schema.max_array_len_seen < array_len {
        schema.max_array_len_seen = array_len;
    }
    if schema.max_body_bytes_seen < body_len {
        schema.max_body_bytes_seen = body_len;
    }
    let ghost mid = schema.deep_view();
    let n = found.len();
    let mut i: usize = 0;
    assert(f.take(0) =~= Seq::empty());
    while i < n
        invariant
            i <= n,
            n == f.len(),
            f == found.deep_view(),
            schema.deep_view() == (LearnedJsonSchemaView {
                fields: fields_after(start, f.take(i as int)),
                ..mid
            }),
        decreases n - i,
    {
        assert(f.take(i + 1).drop_last() =~= f.take(i as int));
        assert(f.take(i + 1).last() == f[i as int]);
        learn_field(&mut schema.fields, found.key(i), found.value(i).as_str());
        i = i + 1;
    }
    assert(f.take(i as int) =~= f);
}

/// The position of a schema with the fewest samples; of several, the first.
pub open spec fn fewest_samples(m: Seq<(Seq<char>, LearnedJsonSchemaView)>) -> int
    decreases m.len(),
{
    if m.len() <= 1 {
        0
    } else {
        let j = fewest_samples(m.drop_last());
        if m.last().1.samples < m[j].1.samples {
            m.len() - 1
        } else {
            j
        }
    }
}

/// No schema has fewer samples than the one that gives way.
pub proof fn law_fewest_samples(m: Seq<(Seq<char>, LearnedJsonSchemaView)>)
    requires
        m.len() > 0,
    ensures
        0 <= fewest_samples(m) < m.len(),
        forall|i: int|
            0 <= i < m.len() ==> m[fewest_samples(m)].1.samples <= (#[trigger] m[i]).1.samples,
    decreases m.len(),
{
    if m.len() > 1 {
        let d = m.drop_last();
        law_fewest_samples(d);
        let j = fewest_samples(d);
        assert(d[j] == m[j]);
        assert forall|i: int| 0 <= i < m.len() implies m[fewest_samples(m)].1.samples <= (
        #[trigger] m[i]).1.samples by {
            if i < d.len() {
                assert(d[i].1.samples >= d[j].1.samples);
            }
        }
    }
}

/// Removes a schema with the fewest samples.
pub fn evict_lowest_sample_schema(memory: &mut SchemaMemory)
    ensures
        final(memory).deep_view() == (if old(memory).deep_view().len() == 0 {
            old(memory).deep_view()
        } else {
            old(memory).deep_view().remove(fewest_samples(old(memory).deep_view()))
        }),
{
    let n = memory.schemas.len();
    if n == 0 {
        return;
    }
    let ghost all = memory.schemas.deep_view();
    let mut best: usize = 0;
    let mut i: usize = 1;
    while i < n
        invariant
            1 <= i <= n,
            n == all.len(),
            all == memory.schemas.deep_view(),
            *memory == *old(memory),
            best < i,
            best == fewest_samples(all.take(i as int)),
        decreases n - i,
    {
        assert(all.take(i + 1).drop_last() =~= all.take(i as int));
        assert(all.take(i + 1).last() == all[i as int]);
        assert(all.take(i + 1)[best as int] == all[best as int]);
        if memory.schemas.value(i).samples < memory.schemas.value(best).samples {
            best = i;
        }
        i = i + 1;
    }
    assert(all.take(i as int) =~= all);
    memory.schemas.remove_at(best);
}

/// The memory with room for the schema of a route.
pub open spec fn with_room(
    m: Seq<(Seq<char>, LearnedJsonSchemaView)>,
    route_key: Seq<char>,
    max_routes: usize,
) -> Seq<(Seq<char>, LearnedJsonSchemaView)> {
    if table::at(m, route_key) is None && m.len() >= max_routes && m.len() > 0 {
        m.remove(fewest_samples(m))
    } else {
        m
    }
}

/// The schema of a route, empty where nothing was learned yet.
pub open spec fn schema_for(
    m: Seq<(Seq<char>, LearnedJsonSchemaView)>,
    route_key: Seq<char>,
) -> LearnedJsonSchemaView {
    match table::at(m, route_key) {
        Some(s) => s,
        None => LearnedJsonSchemaView {
            route_key,
            samples: 0,
            fields: Seq::empty(),
            max_depth_seen: 0,
            max_array_len_seen: 0,
            max_body_bytes_seen: 0,
        },
    }
}

/// The findings about the size of a body's structure.
pub open spec fn structure_findings(
    depth: usize,
    array_len: usize,
    config: DiscoveryConfig,
    mode: RuleMode,
) -> Seq<FindingView> {
    let deep = if depth > config.max_json_depth {
        seq![
            schema_finding_of(
                "UZ-API-SCHEMA-005"@,
                Severity::High,
                900_000,
                "JSON request body exceeds maximum inspection depth"@,
                "request.body.depth"@,
                "depth="@ + text::decimal_of(depth as nat) + ", max="@ + text::decimal_of(
                    config.max_json_depth as nat,
                ),
                mode,
            ),
        ]
    } else {
        Seq::empty()
    };
    if array_len > config.max_json_array_len {
        deep.push(
            schema_finding_of(
                "UZ-API-SCHEMA-006"@,
                Severity::Medium,
                860_000,
                "JSON request body contains an unusually large array"@,
                "request.body.array"@,
                "array_len="@ + text::decimal_of(array_len as nat) + ", max="@ + text::decimal_of(
                    config.max_json_array_len as nat,
                ),
                mode,
            ),
        )
    } else {
        deep
    }
}

/// The findings about a body that was read.
pub open spec fn parsed_findings(
    m: Seq<(Seq<char>, LearnedJsonSchemaView)>,
    route_key: Seq<char>,
    n: JsonNodeView,
    body_len: usize,
    config: DiscoveryConfig,
    mode: RuleMode,
) -> Seq<FindingView> {
    let depth = json::capped(json::depth_of(n)) as usize;
    let array_len = json::array_len_of(n) as usize;
    let schema = schema_for(m, route_key);
    structure_findings(depth, array_len, config, mode) + if schema.samples
        >= config.schema_min_samples {
        departures(schema, fields_of(n, config.max_schema_fields), body_len, mode)
    } else {
        Seq::empty()
    }
}

/// The memory after a body that was read.
pub open spec fn memory_after(
    m: Seq<(Seq<char>, LearnedJsonSchemaView)>,
    route_key: Seq<char>,
    n: JsonNodeView,
    body_len: usize,
    config: DiscoveryConfig,
) -> Seq<(Seq<char>, LearnedJsonSchemaView)> {
    table::put(
        with_room(m, route_key, config.max_schema_routes),
        route_key,
        schema_after(
            schema_for(m, route_key),
            fields_of(n, config.max_schema_fields),
            json::capped(json::depth_of(n)) as usize,
            json::array_len_of(n) as usize,
            body_len,
        ),
    )
}

/// Compares a body that was read with what was learned of its route, then learns from it.
pub fn learn_parsed(
    memory: &mut SchemaMemory,
    route_key: &str,
    parsed: &JsonNode,
    body_len: usize,
    config: &DiscoveryConfig,
    mode: RuleMode,
) -> (r: Vec<Finding>)
    ensures
        r.deep_view() == parsed_findings(
            old(memory).deep_view(),
            route_key@,
            parsed.deep_view(),
            body_len,
            *config,
            mode,
        ),
        final(memory).deep_view() == memory_after(
            old(memory).deep_view(),
            route_key@,
            parsed.deep_view(),
            body_len,
            *config,
        ),
{
    let depth = json::json_depth(parsed);
    let array_len = json::max_array_len(parsed);
    let found = flatten_json_fields(parsed, config.max_schema_fields);
    let mut findings: Vec<Finding> = Vec::new();
    assert(findings.deep_view() =~= Seq::empty());
    if depth > config.max_json_depth {
        let d = text::decimal(depth as u128);
        let max = text::decimal(config.max_json_depth as u128);
        let preview = text::cat4("depth=", d.as_str(), ", max=", max.as_str());
        types::push_finding(
            &mut findings,
            schema_finding(
                "UZ-API-SCHEMA-005",
                Severity::High,
                900_000,
                "JSON request body exceeds maximum inspection depth",
                "request.body.depth",
                preview.as_str(),
                mode,
            ),
        );
        assert(findings.deep_view() =~= seq![findings.deep_view()[0]]);
    }
    if array_len > config.max_json_array_len {
        let a = text::decimal(array_len as u128);
        let max = text::decimal(config.max_json_array_len as u128);
        let preview = text::cat4("array_len=", a.as_str(), ", max=", max.as_str());
        types::push_finding(
            &mut findings,
            schema_finding(
                "UZ-API-SCHEMA-006",
                Severity::Medium,
                860_000,
                "JSON request body contains an unusually large array",
                "request.body.array",
                preview.as_str(),
                mode,
            ),
        );
    }
    let ghost structure = findings.deep_view();
    assert(structure =~= structure_findings(depth, array_len, *config, mode));
    let known = memory.schemas.get(route_key);
    let is_new = known.is_none();
    let mut schema = match known {
        Some(s) => s.clone(),
        None => LearnedJsonSchema {
            route_key: route_key.to_string(),
            samples: 0,
            fields: Table::new(),
            max_depth_seen: 0,
            max_array_len_seen: 0,
            max_body_bytes_seen: 0,
        },
    };
    assert(schema.deep_view() == schema_for(memory.deep_view(), route_key@));
    if is_new && memory.schemas.len() >= config.max_schema_routes {
        evict_lowest_sample_schema(memory);
    }
    assert(memory.deep_view() == with_room(
        old(memory).deep_view(),
        route_key@,
        config.max_schema_routes,
    ));
    if schema.samples >= config.schema_min_samples {
        let more = find_departures(&schema, &found, body_len, mode);
        types::extend_findings(&mut findings, more);
    } else {
        assert(structure + Seq::<FindingView>::empty() =~= structure);
    }
    learn_body(&mut schema, &found, depth, array_len, body_len);
    memory.schemas.insert(route_key.to_string(), schema);
    findings
}

/// The finding about a body that is not declared as JSON.
pub open spec fn content_type_findings(
    route_key: Seq<char>,
    content_type: Option<Seq<char>>,
    mode: RuleMode,
) -> Seq<FindingView> {
    match content_type {
        Some(t) => if text::has_part(t, "application/json"@) {
            Seq::empty()
        } else {
            seq![
                schema_finding_of(
                    "UZ-API-SCHEMA-008"@,
                    Severity::Low,
                    620_000,
                    "request content type is not JSON for schema learning"@,
                    "request.content_type"@,
                    "route="@ + route_key + ", content_type="@ + t,
                    mode,
                ),
            ]
        },
        None => Seq::empty(),
    }
}

fn unexpected_content_type(
    route_key: &str,
    content_type: Option<&str>,
    mode: RuleMode,
) -> (r: Vec<Finding>)
    ensures
        r.deep_view() == content_type_findings(route_key@, content_type.deep_view(), mode),
{
    let mut findings: Vec<Finding> = Vec::new();
    if let Some(t) = content_type {
        if !text::contains(t, "application/json") {
            let preview = text::cat4("route=", route_key, ", content_type=", t);
            findings.push(
                schema_finding(
                    "UZ-API-SCHEMA-008",
                    Severity::Low,
                    620_000,
                    "request content type is not JSON for schema learning",
                    "request.content_type",
                    preview.as_str(),
                    mode,
                ),
            );
        }
    }
    assert(findings.deep_view() =~= content_type_findings(
        route_key@,
        content_type.deep_view(),
        mode,
    ));
    findings
}

/// Whether a body is there and is declared as JSON.
pub open spec fn is_learnable(body: Option<Seq<char>>, content_type: Option<Seq<char>>) -> bool {
    &&& body is Some && text::trim_of(body->0).len() > 0
    &&& content_type is Some && text::has_part(content_type->0, "application/json"@)
}

/// The finding about a body that is declared as JSON and is none.
pub open spec fn malformed_finding(mode: RuleMode) -> FindingView {
    schema_finding_of(
        "UZ-API-SCHEMA-004"@,
        Severity::Medium,
        880_000,
        "malformed JSON request body"@,
        "request.body"@,
        "invalid_json"@,
        mode,
    )
}

/// The findings about the body of a request, from what reading it gave.
pub open spec fn body_findings(
    m: Seq<(Seq<char>, LearnedJsonSchemaView)>,
    route_key: Seq<char>,
    body: Option<Seq<char>>,
    content_type: Option<Seq<char>>,
    parsed: Option<JsonNodeView>,
    config: DiscoveryConfig,
    mode: RuleMode,
) -> Seq<FindingView> {
    if body is None || text::trim_of(body->0).len() == 0 {
        Seq::empty()
    } else if !is_learnable(body, content_type) {
        content_type_findings(route_key, content_type, mode)
    } else {
        match parsed {
            Some(n) => parsed_findings(
                m,
                route_key,
                n,
                text::byte_len_of(body->0) as usize,
                config,
                mode,
            ),
            None => seq![malformed_finding(mode)],
        }
    }
}

/// The memory after the body of a request, from what reading it gave.
pub open spec fn memory_after_body(
    m: Seq<(Seq<char>, LearnedJsonSchemaView)>,
    route_key: Seq<char>,
    body: Option<Seq<char>>,
    content_type: Option<Seq<char>>,
    parsed: Option<JsonNodeView>,
    config: DiscoveryConfig,
) -> Seq<(Seq<char>, LearnedJsonSchemaView)> {
    if is_learnable(body, content_type) && parsed is Some {
        memory_after(m, route_key, parsed->0, text::byte_len_of(body->0) as usize, config)
    } else {
        m
    }
}

/// Compares the body of a request with what was learned of its route, then learns from it. A body
/// that is missing, blank, not declared as JSON or malformed teaches nothing.
pub fn learn_and_detect_json_schema(
    memory: &mut SchemaMemory,
    route_key: &str,
    body: Option<&str>,
    content_type: Option<&str>,
    config: &DiscoveryConfig,
    mode: RuleMode,
) -> (r: Vec<Finding>)
    ensures
        r.deep_view() == body_findings(
            old(memory).deep_view(),
            route_key@,
            body.deep_view(),
            content_type.deep_view(),
            outside::json_parsed(utf8::encode_utf8(body.deep_view()->0)),
            *config,
            mode,
        ),
        final(memory).deep_view() == memory_after_body(
            old(memory).deep_view(),
            route_key@,
            body.deep_view(),
            content_type.deep_view(),
            outside::json_parsed(utf8::encode_utf8(body.deep_view()->0)),
            *config,
        ),
{
    let mut none: Vec<Finding> = Vec::new();
    assert(none.deep_view() =~= Seq::empty());
    match body {
        None => none,
        Some(body) => {
            if text::trim(body).as_str().is_empty() {
                return none;
            }
            let declared = match content_type {
                Some(t) => text::contains(t, "application/json"),
                None => false,
            };
            if !declared {
                return unexpected_content_type(route_key, content_type, mode);
            }
            match outside::parse_json(body.as_bytes()) {
                Some(parsed) => {
                    let body_len = text::byte_len(body);
                    learn_parsed(memory, route_key, &parsed, body_len, config, mode)
                },
                None => {
                    none.push(
                        schema_finding(
                            "UZ-API-SCHEMA-004",
                            Severity::Medium,
                            880_000,
                            "malformed JSON request body",
                            "request.body",
                            "invalid_json",
                            mode,
                        ),
                    );
                    assert(none.deep_view() =~= seq![malformed_finding(mode)]);
                    none
                },
            }
        },
    }
}

proof fn lemma_flatten_bounded(
    found: Seq<(Seq<char>, Seq<char>)>,
    n: JsonNodeView,
    prefix: Seq<char>,
    max_fields: nat,
)
    requires
        found.len() <= max_fields,
        table::ascending(found),
    ensures
        flatten_into(found, n, prefix, max_fields).len() <= max_fields,
        table::ascending(flatten_into(found, n, prefix, max_fields)),
    decreases n,
{
    if found.len() < max_fields {
        match n.value {
            JsonView::Object(members) => {
                lemma_flatten_members_bounded(found, members, prefix, max_fields);
            },
            _ => {},
        }
    }
}

proof fn lemma_flatten_members_bounded(
    found: Seq<(Seq<char>, Seq<char>)>,
    members: Seq<(Seq<char>, JsonNodeView)>,
    prefix: Seq<char>,
    max_fields: nat,
)
    requires
        found.len() <= max_fields,
        table::ascending(found),
    ensures
        flatten_members(found, members, prefix, max_fields).len() <= max_fields,
        table::ascending(flatten_members(found, members, prefix, max_fields)),
    decreases members,
{
    if members.len() > 0 && found.len() < max_fields {
        let rest = members.drop_first();
        let name = field_name(members[0].0);
        if name.len() == 0 {
            lemma_flatten_members_bounded(found, rest, prefix, max_fields);
        } else {
            let path = field_path(prefix, name);
            table::law_put(found, path, json::kind_of(members[0].1));
            let with_field = table::put(found, path, json::kind_of(members[0].1));
            if members[0].1.value is Object {
                lemma_flatten_bounded(with_field, members[0].1, path, max_fields);
                lemma_flatten_members_bounded(
                    flatten_into(with_field, members[0].1, path, max_fields),
                    rest,
                    prefix,
                    max_fields,
                );
            } else {
                lemma_flatten_members_bounded(with_field, rest, prefix, max_fields);
            }
        }
    }
}

/// No more fields are taken from a body than the limit allows.
pub proof fn law_fields_bounded(n: JsonNodeView, max_fields: usize)
    ensures
        fields_of(n, max_fields).len() <= max_fields,
{
    lemma_flatten_bounded(Seq::empty(), n, Seq::empty(), max_fields as nat);
}

/// The memory never grows beyond its limit, and never beyond one schema where the limit is zero.
pub proof fn law_memory_bounded(
    m: Seq<(Seq<char>, LearnedJsonSchemaView)>,
    route_key: Seq<char>,
    body: Option<Seq<char>>,
    content_type: Option<Seq<char>>,
    parsed: Option<JsonNodeView>,
    config: DiscoveryConfig,
)
    requires
        table::ascending(m),
        m.len() <= config.max_schema_routes || m.len() <= 1,
    ensures
        ({
            let n = memory_after_body(m, route_key, body, content_type, parsed, config).len();
            n <= config.max_schema_routes || n <= 1
        }),
{
    if is_learnable(body, content_type) && parsed is Some {
        let room = with_room(m, route_key, config.max_schema_routes);
        if m.len() > 0 {
            law_fewest_samples(m);
        }
        assert(table::ascending(room)) by {
            assert forall|a: int, b: int| 0 <= a < b < room.len() implies text::less_of(
                (#[trigger] room[a]).0,
                (#[trigger] room[b]).0,
            ) by {
                let v = fewest_samples(m);
                if room.len() < m.len() {
                    let x = if a < v {
                        a
                    } else {
                        a + 1
                    };
                    let y = if b < v {
                        b
                    } else {
                        b + 1
                    };
                    assert(text::less_of(m[x].0, m[y].0));
                } else {
                    assert(text::less_of(m[a].0, m[b].0));
                }
            }
        }
        table::law_put(
            room,
            route_key,
            schema_after(
                schema_for(m, route_key),
                fields_of(parsed->0, config.max_schema_fields),
                json::capped(json::depth_of(parsed->0)) as usize,
                json::array_len_of(parsed->0) as usize,
                text::byte_len_of(body->0) as usize,
            ),
        );
    }
}

/// While a route is being learned no departures are reported: the only findings are about depth and
/// array length.
pub proof fn law_quiet_while_learning(
    m: Seq<(Seq<char>, LearnedJsonSchemaView)>,
    route_key: Seq<char>,
    n: JsonNodeView,
    body_len: usize,
    config: DiscoveryConfig,
    mode: RuleMode,
)
    requires
        schema_for(m, route_key).samples < config.schema_min_samples,
    ensures
        parsed_findings(m, route_key, n, body_len, config, mode) == structure_findings(
            json::capped(json::depth_of(n)) as usize,
            json::array_len_of(n) as usize,
            config,
            mode,
        ),
{
    let s = structure_findings(
        json::capped(json::depth_of(n)) as usize,
        json::array_len_of(n) as usize,
        config,
        mode,
    );
    assert(s + Seq::<FindingView>::empty() =~= s);
}

proof fn lemma_same_fields(
    found: Seq<(Seq<char>, Seq<char>)>,
    a: JsonNodeView,
    b: JsonNodeView,
    prefix: Seq<char>,
    max_fields: nat,
)
    requires
        json::same_shape(a, b),
    ensures
        flatten_into(found, a, prefix, max_fields) == flatten_into(found, b, prefix, max_fields),
    decreases a,
{
    if found.len() < max_fields {
        match (a.value, b.value) {
            (JsonView::Object(x), JsonView::Object(y)) => {
                lemma_same_member_fields(found, x, y, prefix, max_fields);
            },
            _ => {},
        }
    }
}

proof fn lemma_same_member_fields(
    found: Seq<(Seq<char>, Seq<char>)>,
    x: Seq<(Seq<char>, JsonNodeView)>,
    y: Seq<(Seq<char>, JsonNodeView)>,
    prefix: Seq<char>,
    max_fields: nat,
)
    requires
        json::same_member_shapes(x, y),
    ensures
        flatten_members(found, x, prefix, max_fields) == flatten_members(
            found,
            y,
            prefix,
            max_fields,
        ),
    decreases x,
{
    if x.len() > 0 && found.len() < max_fields {
        let rest = x.drop_first();
        let other_rest = y.drop_first();
        assert(json::same_member_shapes(rest, other_rest)) by {
            assert forall|i: int|
                #![trigger rest[i]]
                #![trigger other_rest[i]]
                0 <= i < rest.len() implies rest[i].0 == other_rest[i].0 && json::same_shape(
                rest[i].1,
                other_rest[i].1,
            ) by {
                assert(rest[i] == x[i + 1]);
                assert(other_rest[i] == y[i + 1]);
            }
        }
        assert(x[0].0 == y[0].0 && json::same_shape(x[0].1, y[0].1));
        json::lemma_same_shape(x[0].1, y[0].1);
        let name = field_name(x[0].0);
        if name.len() == 0 {
            lemma_same_member_fields(found, rest, other_rest, prefix, max_fields);
        } else {
            let path = field_path(prefix, name);
            let with_field = table::put(found, path, json::kind_of(x[0].1));
            if x[0].1.value is Object {
                lemma_same_fields(with_field, x[0].1, y[0].1, path, max_fields);
                lemma_same_member_fields(
                    flatten_into(with_field, x[0].1, path, max_fields),
                    rest,
                    other_rest,
                    prefix,
                    max_fields,
                );
            } else {
                lemma_same_member_fields(with_field, rest, other_rest, prefix, max_fields);
            }
        }
    }
}

/// What the scalars of a JSON body hold is neither reported nor learned: two bodies of the same
/// length and shape give the same findings and leave the same memory.
pub proof fn law_scalars_leave_no_trace(
    m: Seq<(Seq<char>, LearnedJsonSchemaView)>,
    route_key: Seq<char>,
    a: Seq<char>,
    b: Seq<char>,
    content_type: Option<Seq<char>>,
    config: DiscoveryConfig,
    mode: RuleMode,
)
    requires
        text::trim_of(a).len() > 0,
        text::trim_of(b).len() > 0,
        text::byte_len_of(a) == text::byte_len_of(b),
        outside::json_parsed(utf8::encode_utf8(a)) is Some,
        outside::json_parsed(utf8::encode_utf8(b)) is Some,
        json::same_shape(
            outside::json_parsed(utf8::encode_utf8(a))->0,
            outside::json_parsed(utf8::encode_utf8(b))->0,
        ),
    ensures
        body_findings(
            m,
            route_key,
            Some(a),
            content_type,
            outside::json_parsed(utf8::encode_utf8(a)),
            config,
            mode,
        ) == body_findings(
            m,
            route_key,
            Some(b),
            content_type,
            outside::json_parsed(utf8::encode_utf8(b)),
            config,
            mode,
        ),
        memory_after_body(
            m,
            route_key,
            Some(a),
            content_type,
            outside::json_parsed(utf8::encode_utf8(a)),
            config,
        ) == memory_after_body(
            m,
            route_key,
            Some(b),
            content_type,
            outside::json_parsed(utf8::encode_utf8(b)),
            config,
        ),
{
    let x = outside::json_parsed(utf8::encode_utf8(a))->0;
    let y = outside::json_parsed(utf8::encode_utf8(b))->0;
    json::lemma_same_shape(x, y);
    lemma_same_fields(Seq::empty(), x, y, Seq::empty(), config.max_schema_fields as nat);
}

} // verus!
