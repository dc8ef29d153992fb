//! JSON values as the inspection reads them.

use crate::text;
use vstd::prelude::*;

verus! {

/// A JSON value with its compact text.
#[derive(Debug)]
pub struct JsonNode {
    pub rendered: String,
    pub value: Json,
}

/// A member of a JSON object.
#[derive(Debug)]
pub struct JsonMember {
    pub name: String,
    pub node: JsonNode,
}

/// The shape of a JSON value. The digits of a number are in the text of its node.
#[derive(Debug)]
pub enum Json {
    Null,
    Bool(bool),
    Number,
    Text(String),
    Array(Vec<JsonNode>),
    Object(Vec<JsonMember>),
}

#[verifier::ext_equal]
pub struct JsonNodeView {
    pub rendered: Seq<char>,
    pub value: JsonView,
}

#[verifier::ext_equal]
pub enum JsonView {
    Null,
    Bool(bool),
    Number,
    Text(Seq<char>),
    Array(Seq<JsonNodeView>),
    Object(Seq<(Seq<char>, JsonNodeView)>),
}

impl DeepView for JsonNode {
    type V = JsonNodeView;

    open spec fn deep_view(&self) -> JsonNodeView {
        node_view(*self)
    }
}

pub open spec fn node_view(n: JsonNode) -> JsonNodeView
    decreases n,
{
    JsonNodeView { rendered: n.rendered@, value: json_view(n.value) }
}

pub open spec fn json_view(j: Json) -> JsonView
    decreases j,
{
    match j {
        Json::Null => JsonView::Null,
        Json::Bool(b) => JsonView::Bool(b),
        Json::Number => JsonView::Number,
        Json::Text(s) => JsonView::Text(s@),
        Json::Array(items) => JsonView::Array(
            Seq::new(
                items@.len(),
                |i: int|
                    if 0 <= i < items@.len() {
                        node_view(items@[i])
                    } else {
                        arbitrary()
                    },
            ),
        ),
        Json::Object(members) => JsonView::Object(
            Seq::new(
                members@.len(),
                |i: int|
                    if 0 <= i < members@.len() {
                        (members@[i].name@, node_view(members@[i].node))
                    } else {
                        arbitrary()
                    },
            ),
        ),
    }
}

/// The views of the items of an array.
pub open spec fn items_view(items: Seq<JsonNode>) -> Seq<JsonNodeView> {
    Seq::new(items.len(), |i: int| items[i].deep_view())
}

/// The names and views of the members of an object.
pub open spec fn members_view(members: Seq<JsonMember>) -> Seq<(Seq<char>, JsonNodeView)> {
    Seq::new(members.len(), |i: int| (members[i].name@, members[i].node.deep_view()))
}

/// What the view of a node is, one level at a time.
pub proof fn lemma_node_view(n: JsonNode)
    ensures
        n.deep_view().rendered == n.rendered@,
        n.deep_view().value == (match n.value {
            Json::Null => JsonView::Null,
            Json::Bool(b) => JsonView::Bool(b),
            Json::Number => JsonView::Number,
            Json::Text(s) => JsonView::Text(s@),
            Json::Array(items) => JsonView::Array(items_view(items@)),
            Json::Object(members) => JsonView::Object(members_view(members@)),
        }),
{
    reveal_with_fuel(node_view, 2);
    reveal_with_fuel(json_view, 2);
    match n.value {
        Json::Array(items) => {
            assert(json_view(n.value)->Array_0 =~= items_view(items@));
        },
        Json::Object(members) => {
            assert(json_view(n.value)->Object_0 =~= members_view(members@));
        },
        _ => {},
    }
}

/// The nesting depth of a value; a value that holds no other has depth one.
pub open spec fn depth_of(n: JsonNodeView) -> nat
    decreases n,
{
    match n.value {
        JsonView::Array(items) => 1 + items_depth(items),
        JsonView::Object(members) => 1 + members_depth(members),
        _ => 1,
    }
}

/// The largest depth among some values, zero where there are none.
pub open spec fn items_depth(items: Seq<JsonNodeView>) -> nat
    decreases items,
{
    if items.len() == 0 {
        0
    } else {
        larger(items_depth(items.drop_last()), depth_of(items.last()))
    }
}

pub open spec fn members_depth(members: Seq<(Seq<char>, JsonNodeView)>) -> nat
    decreases members,
{
    if members.len() == 0 {
        0
    } else {
        larger(members_depth(members.drop_last()), depth_of(members.last().1))
    }
}

pub open spec fn larger(a: nat, b: nat) -> nat {
    if a < b {
        b
    } else {
        a
    }
}

/// A number held to the range of `usize`.
pub open spec fn capped(n: nat) -> nat {
    if n <= usize::MAX {
        n
    } else {
        usize::MAX as nat
    }
}

pub fn json_depth(node: &JsonNode) -> (r: usize)
    ensures
        r == capped(depth_of(node.deep_view())),
    decreases node,
{
    proof {
        lemma_node_view(*node);
    }
    match &node.value {
        Json::Array(items) => {
            let ghost all = items_view(items@);
            let mut deepest: usize = 0;
            let mut i: usize = 0;
            while i < items.len()
                invariant
                    i <= items@.len(),
                    node.value == Json::Array(*items),
                    all == items_view(items@),
                    deepest == capped(items_depth(all.take(i as int))),
                decreases items@.len() - i,
            {
                assert(decreases_to!(*node => items@[i as int])) by {
                    assert(decreases_to!(*node => node.value));
                    assert(decreases_to!(node.value => node.value->Array_0));
                    assert(decreases_to!(*items => items@));
                    assert(decreases_to!(items@ => items@[i as int]));
                }
                let d = json_depth(&items[i]);
                if deepest < d {
                    deepest = d;
                }
                assert(all.take(i + 1).drop_last() =~= all.take(i as int));
                assert(all[i as int] == items@[i as int].deep_view());
                i = i + 1;
            }
            assert(all.take(i as int) =~= all);
            deepest.saturating_add(1)
        },
        Json::Object(members) => {
            let ghost all = members_view(members@);
            let mut deepest: usize = 0;
            let mut i: usize = 0;
            while i < members.len()
                invariant
                    i <= members@.len(),
                    node.value == Json::Object(*members),
                    all == members_view(members@),
                    deepest == capped(members_depth(all.take(i as int))),
                decreases members@.len() - i,
            {
                assert(decreases_to!(*node => members@[i as int].node)) by {
                    assert(decreases_to!(*node => node.value));
                    assert(decreases_to!(node.value => node.value->Object_0));
                    assert(decreases_to!(*members => members@));
                    assert(decreases_to!(members@ => members@[i as int]));
                    assert(decreases_to!(members@[i as int] => members@[i as int].node));
                }
                let d = json_depth(&members[i].node);
                if deepest < d {
                    deepest = d;
                }
                assert(all.take(i + 1).drop_last() =~= all.take(i as int));
                assert(all[i as int].1 == members@[i as int].node.deep_view());
                i = i + 1;
            }
            assert(all.take(i as int) =~= all);
            deepest.saturating_add(1)
        },
        _ => 1,
    }
}

/// The number of object members in a value, at every level.
pub open spec fn field_count_of(n: JsonNodeView) -> nat
    decreases n,
{
    match n.value {
        JsonView::Array(items) => items_field_count(items),
        JsonView::Object(members) => members.len() + members_field_count(members),
        _ => 0,
    }
}

pub open spec fn items_field_count(items: Seq<JsonNodeView>) -> nat
    decreases items,
{
    if items.len() == 0 {
        0
    } else {
        items_field_count(items.drop_last()) + field_count_of(items.last())
    }
}

pub open spec fn members_field_count(members: Seq<(Seq<char>, JsonNodeView)>) -> nat
    decreases members,
{
    if members.len() == 0 {
        0
    } else {
        members_field_count(members.drop_last()) + field_count_of(members.last().1)
    }
}

pub fn json_field_count(node: &JsonNode) -> (r: usize)
    ensures
        r == capped(field_count_of(node.deep_view())),
    decreases node,
{
    proof {
        lemma_node_view(*node);
    }
    match &node.value {
        Json::Array(items) => {
            let ghost all = items_view(items@);
            let mut total: usize = 0;
            let mut i: usize = 0;
            while i < items.len()
                invariant
                    i <= items@.len(),
                    node.value == Json::Array(*items),
                    all == items_view(items@),
                    total == capped(items_field_count(all.take(i as int))),
                decreases items@.len() - i,
            {
                assert(decreases_to!(*node => items@[i as int])) by {
                    assert(decreases_to!(*node => node.value));
                    assert(decreases_to!(node.value => node.value->Array_0));
                    assert(decreases_to!(*items => items@));
                    assert(decreases_to!(items@ => items@[i as int]));
                }
                total = total.saturating_add(json_field_count(&items[i]));
                assert(all.take(i + 1).drop_last() =~= all.take(i as int));
                assert(all[i as int] == items@[i as int].deep_view());
                i = i + 1;
            }
            assert(all.take(i as int) =~= all);
            total
        },
        Json::Object(members) => {
            let ghost all = members_view(members@);
            let mut total: usize = members.len();
            let mut i: usize = 0;
            while i < members.len()
                invariant
                    i <= members@.len(),
                    node.value == Json::Object(*members),
                    all == members_view(members@),
                    total == capped(all.len() + members_field_count(all.take(i as int))),
                decreases members@.len() - i,
            {
                assert(decreases_to!(*node => members@[i as int].node)) by {
                    assert(decreases_to!(*node => node.value));
                    assert(decreases_to!(node.value => node.value->Object_0));
                    assert(decreases_to!(*members => members@));
                    assert(decreases_to!(members@ => members@[i as int]));
                    assert(decreases_to!(members@[i as int] => members@[i as int].node));
                }
                total = total.saturating_add(json_field_count(&members[i].node));
                assert(all.take(i + 1).drop_last() =~= all.take(i as int));
                assert(all[i as int].1 == members@[i as int].node.deep_view());
                i = i + 1;
            }
            assert(all.take(i as int) =~= all);
            total
        },
        _ => 0,
    }
}

/// The length of the longest array in a value, at every level.
pub open spec fn array_len_of(n: JsonNodeView) -> nat
    decreases n,
{
    match n.value {
        JsonView::Array(items) => larger(items.len(), items_array_len(items)),
        JsonView::Object(members) => members_array_len(members),
        _ => 0,
    }
}

pub open spec fn items_array_len(items: Seq<JsonNodeView>) -> nat
    decreases items,
{
    if items.len() == 0 {
        0
    } else {
        larger(items_array_len(items.drop_last()), array_len_of(items.last()))
    }
}

pub open spec fn members_array_len(members: Seq<(Seq<char>, JsonNodeView)>) -> nat
    decreases members,
{
    if members.len() == 0 {
        0
    } else {
        larger(members_array_len(members.drop_last()), array_len_of(members.last().1))
    }
}

pub fn max_array_len(node: &JsonNode) -> (r: usize)
    ensures
        r == array_len_of(node.deep_view()),
    decreases node,
{
    proof {
        lemma_node_view(*node);
    }
    match &node.value {
        Json::Array(items) => {
            let ghost all = items_view(items@);
            let mut longest: usize = 0;
            let mut i: usize = 0;
            while i < items.len()
                invariant
                    i <= items@.len(),
                    node.value == Json::Array(*items),
                    all == items_view(items@),
                    longest == items_array_len(all.take(i as int)),
                decreases items@.len() - i,
            {
                assert(decreases_to!(*node => items@[i as int])) by {
                    assert(decreases_to!(*node => node.value));
                    assert(decreases_to!(node.value => node.value->Array_0));
                    assert(decreases_to!(*items => items@));
                    assert(decreases_to!(items@ => items@[i as int]));
                }
                let n = max_array_len(&items[i]);
                if longest < n {
                    longest = n;
                }
                assert(all.take(i + 1).drop_last() =~= all.take(i as int));
                assert(all[i as int] == items@[i as int].deep_view());
                i = i + 1;
            }
            assert(all.take(i as int) =~= all);
            if items.len() < longest {
                longest
            } else {
                items.len()
            }
        },
        Json::Object(members) => {
            let ghost all = members_view(members@);
            let mut longest: usize = 0;
            let mut i: usize = 0;
            while i < members.len()
                invariant
                    i <= members@.len(),
                    node.value == Json::Object(*members),
                    all == members_view(members@),
                    longest == members_array_len(all.take(i as int)),
                decreases members@.len() - i,
            {
                assert(decreases_to!(*node => members@[i as int].node)) by {
                    assert(decreases_to!(*node => node.value));
                    assert(decreases_to!(node.value => node.value->Object_0));
                    assert(decreases_to!(*members => members@));
                    assert(decreases_to!(members@ => members@[i as int]));
                    assert(decreases_to!(members@[i as int] => members@[i as int].node));
                }
                let n = max_array_len(&members[i].node);
                if longest < n {
                    longest = n;
                }
                assert(all.take(i + 1).drop_last() =~= all.take(i as int));
                assert(all[i as int].1 == members@[i as int].node.deep_view());
                i = i + 1;
            }
            assert(all.take(i as int) =~= all);
            longest
        },
        _ => 0,
    }
}

/// The first member with a name.
pub open spec fn member_in(members: Seq<(Seq<char>, JsonNodeView)>, name: Seq<char>) -> Option<
    JsonNodeView,
>
    decreases members.len(),
{
    if members.len() == 0 {
        None
    } else if members[0].0 == name {
        Some(members[0].1)
    } else {
        member_in(members.drop_first(), name)
    }
}

/// The member of an object with a name; a value that is not an object has none.
pub open spec fn member_of(n: JsonNodeView, name: Seq<char>) -> Option<JsonNodeView> {
    match n.value {
        JsonView::Object(members) => member_in(members, name),
        _ => None,
    }
}

/// The text of a string value.
pub open spec fn text_of(n: Option<JsonNodeView>) -> Option<Seq<char>> {
    match n {
        Some(n) => match n.value {
            JsonView::Text(s) => Some(s),
            _ => None,
        },
        None => None,
    }
}

/// The text of a string value or the digits of a number.
pub open spec fn scalar_of(n: Option<JsonNodeView>) -> Option<Seq<char>> {
    match n {
        Some(n) => match n.value {
            JsonView::Text(s) => Some(s),
            JsonView::Number => Some(n.rendered),
            _ => None,
        },
        None => None,
    }
}

impl JsonNode {
    pub fn get(&self, name: &str) -> (r: Option<&JsonNode>)
        ensures
            r.deep_view() == member_of(self.deep_view(), name@),
    {
        proof {
            lemma_node_view(*self);
        }
        match &self.value {
            Json::Object(members) => {
                let ghost all = members_view(members@);
                let mut i: usize = 0;
                assert(all.skip(0) =~= all);
                while i < members.len()
                    invariant
                        i <= members@.len(),
                        self.value == Json::Object(*members),
                        all == members_view(members@),
                        self.deep_view().value == JsonView::Object(all),
                        member_in(all, name@) == member_in(all.skip(i as int), name@),
                    decreases members@.len() - i,
                {
                    assert(all.skip(i as int)[0] == all[i as int]);
                    assert(all[i as int] == (
                        members@[i as int].name@,
                        members@[i as int].node.deep_view(),
                    ));
                    if text::same(members[i].name.as_str(), name) {
                        return Some(&members[i].node);
                    }
                    assert(all.skip(i as int).drop_first() =~= all.skip(i + 1));
                    i = i + 1;
                }
                None
            },
            _ => None,
        }
    }

    pub fn as_str(&self) -> (r: Option<&str>)
        ensures
            r.deep_view() == text_of(Some(self.deep_view())),
    {
        proof {
            lemma_node_view(*self);
        }
        match &self.value {
            Json::Text(s) => Some(s.as_str()),
            _ => None,
        }
    }

    /// The text of a string value or the digits of a number.
    pub fn as_string(&self) -> (r: Option<String>)
        ensures
            r.deep_view() == scalar_of(Some(self.deep_view())),
    {
        proof {
            lemma_node_view(*self);
        }
        match &self.value {
            Json::Text(s) => Some(s.clone()),
            Json::Number => Some(self.rendered.clone()),
            _ => None,
        }
    }
}

/// The text of a member that is a string.
pub fn member_str<'a>(node: &'a JsonNode, name: &str) -> (r: Option<&'a str>)
    ensures
        r.deep_view() == text_of(member_of(node.deep_view(), name@)),
{
    match node.get(name) {
        Some(n) => n.as_str(),
        None => None,
    }
}

/// The text of a member that is a string, or the digits of one that is a number.
pub fn member_string(node: &JsonNode, name: &str) -> (r: Option<String>)
    ensures
        r.deep_view() == scalar_of(member_of(node.deep_view(), name@)),
{
    match node.get(name) {
        Some(n) => n.as_string(),
        None => None,
    }
}

/// The word for the kind of a value.
pub open spec fn kind_of(n: JsonNodeView) -> Seq<char> {
    match n.value {
        JsonView::Null => "null"@,
        JsonView::Bool(_) => "boolean"@,
        JsonView::Number => "number"@,
        JsonView::Text(_) => "string"@,
        JsonView::Array(_) => "array"@,
        JsonView::Object(_) => "object"@,
    }
}

pub fn json_kind(node: &JsonNode) -> (r: &'static str)
    ensures
        r@ == kind_of(node.deep_view()),
{
    proof {
        lemma_node_view(*node);
    }
    match &node.value {
        Json::Null => "null",
        Json::Bool(_) => "boolean",
        Json::Number => "number",
        Json::Text(_) => "string",
        Json::Array(_) => "array",
        Json::Object(_) => "object",
    }
}

/// Whether two values differ at most in what their scalars hold: the same kinds, the same names in
/// the same order, the same lengths of arrays, at every level.
pub open spec fn same_shape(a: JsonNodeView, b: JsonNodeView) -> bool
    decreases a,
{
    match (a.value, b.value) {
        (JsonView::Null, JsonView::Null) => true,
        (JsonView::Bool(_), JsonView::Bool(_)) => true,
        (JsonView::Number, JsonView::Number) => true,
        (JsonView::Text(_), JsonView::Text(_)) => true,
        (JsonView::Array(x), JsonView::Array(y)) => same_item_shapes(x, y),
        (JsonView::Object(x), JsonView::Object(y)) => same_member_shapes(x, y),
        _ => false,
    }
}

pub open spec fn same_item_shapes(x: Seq<JsonNodeView>, y: Seq<JsonNodeView>) -> bool
    decreases x,
{
    &&& x.len() == y.len()
    &&& forall|i: int| #![trigger x[i]] #![trigger y[i]] 0 <= i < x.len() ==> same_shape(x[i], y[i])
}

pub open spec fn same_member_shapes(
    x: Seq<(Seq<char>, JsonNodeView)>,
    y: Seq<(Seq<char>, JsonNodeView)>,
) -> bool
    decreases x,
{
    &&& x.len() == y.len()
    &&& forall|i: int|
        #![trigger x[i]]
        #![trigger y[i]]
        0 <= i < x.len() ==> x[i].0 == y[i].0 && same_shape(x[i].1, y[i].1)
}

/// Values of the same shape have the same kind, are as deep, and have longest arrays of the same
/// length.
pub proof fn lemma_same_shape(a: JsonNodeView, b: JsonNodeView)
    requires
        same_shape(a, b),
    ensures
        kind_of(a) == kind_of(b),
        depth_of(a) == depth_of(b),
        array_len_of(a) == array_len_of(b),
    decreases a,
{
    match (a.value, b.value) {
        (JsonView::Array(x), JsonView::Array(y)) => {
            lemma_same_items(x, y);
        },
        (JsonView::Object(x), JsonView::Object(y)) => {
            lemma_same_members(x, y);
        },
        _ => {},
    }
}

proof fn lemma_same_items(x: Seq<JsonNodeView>, y: Seq<JsonNodeView>)
    requires
        same_item_shapes(x, y),
    ensures
        items_depth(x) == items_depth(y),
        items_array_len(x) == items_array_len(y),
    decreases x,
{
    if x.len() > 0 {
        assert(same_shape(x[x.len() - 1], y[y.len() - 1]));
        lemma_same_shape(x.last(), y.last());
        assert(same_item_shapes(x.drop_last(), y.drop_last()));
        lemma_same_items(x.drop_last(), y.drop_last());
    }
}

proof fn lemma_same_members(
    x: Seq<(Seq<char>, JsonNodeView)>,
    y: Seq<(Seq<char>, JsonNodeView)>,
)
    requires
        same_member_shapes(x, y),
    ensures
        members_depth(x) == members_depth(y),
        members_array_len(x) == members_array_len(y),
    decreases x,
{
    if x.len() > 0 {
        assert(same_shape(x[x.len() - 1].1, y[y.len() - 1].1));
        lemma_same_shape(x.last().1, y.last().1);
        assert(same_member_shapes(x.drop_last(), y.drop_last()));
        lemma_same_members(x.drop_last(), y.drop_last());
    }
}

} // verus!
