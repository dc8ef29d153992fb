//! How documents are measured and read.

use crate::json;
use crate::json::{JsonNodeView, JsonView};
use vstd::prelude::*;

verus! {

proof fn lemma_items(items: Seq<JsonNodeView>)
    ensures
        forall|i: int|
            #![trigger items[i]]
            0 <= i < items.len() ==> json::depth_of(items[i]) <= json::items_depth(items)
                && json::array_len_of(items[i]) <= json::items_array_len(items),
        items.len() == 0 ==> json::items_depth(items) == 0 && json::items_array_len(items) == 0,
        items.len() > 0 ==> exists|i: int|
            0 <= i < items.len() && json::depth_of(#[trigger] items[i]) == json::items_depth(items),
        json::items_array_len(items) > 0 ==> exists|i: int|
            0 <= i < items.len() && json::array_len_of(#[trigger] items[i])
                == json::items_array_len(items),
    decreases items.len(),
{
    if items.len() > 0 {
        let before = items.drop_last();
        lemma_items(before);
        assert(forall|i: int| 0 <= i < before.len() ==> before[i] == #[trigger] items[i]);
        assert(items.last() == items[items.len() - 1]);
        if before.len() > 0 {
            let i = choose|i: int|
                0 <= i < before.len() && json::depth_of(#[trigger] before[i]) == json::items_depth(
                    before,
                );
            assert(items[i] == before[i]);
        }
        if json::items_array_len(before) > 0 {
            let i = choose|i: int|
                0 <= i < before.len() && json::array_len_of(#[trigger] before[i])
                    == json::items_array_len(before);
            assert(items[i] == before[i]);
        }
    }
}

proof fn lemma_members(members: Seq<(Seq<char>, JsonNodeView)>)
    ensures
        forall|i: int|
            #![trigger members[i]]
            0 <= i < members.len() ==> json::depth_of(members[i].1) <= json::members_depth(members)
                && json::array_len_of(members[i].1) <= json::members_array_len(members),
        members.len() == 0 ==> json::members_depth(members) == 0 && json::members_array_len(members)
            == 0,
        members.len() > 0 ==> exists|i: int|
            0 <= i < members.len() && json::depth_of((#[trigger] members[i]).1)
                == json::members_depth(members),
        json::members_array_len(members) > 0 ==> exists|i: int|
            0 <= i < members.len() && json::array_len_of((#[trigger] members[i]).1)
                == json::members_array_len(members),
    decreases members.len(),
{
    if members.len() > 0 {
        let before = members.drop_last();
        lemma_members(before);
        assert(forall|i: int| 0 <= i < before.len() ==> before[i] == #[trigger] members[i]);
        assert(members.last() == members[members.len() - 1]);
        if before.len() > 0 {
            let i = choose|i: int|
                0 <= i < before.len() && json::depth_of((#[trigger] before[i]).1)
                    == json::members_depth(before);
            assert(members[i] == before[i]);
        }
        if json::members_array_len(before) > 0 {
            let i = choose|i: int|
                0 <= i < before.len() && json::array_len_of((#[trigger] before[i]).1)
                    == json::members_array_len(before);
            assert(members[i] == before[i]);
        }
    }
}

/// A plain value is one deep; what holds others is one deeper than the deepest of them.
pub proof fn law_depth(n: JsonNodeView)
    ensures
        !(n.value is Array) && !(n.value is Object) ==> json::depth_of(n) == 1,
        n.value matches JsonView::Array(items) ==> {
            &&& items.len() == 0 ==> json::depth_of(n) == 1
            &&& items.len() > 0 ==> exists|i: int|
                0 <= i < items.len() && json::depth_of(n) == 1 + json::depth_of(#[trigger] items[i])
            &&& forall|i: int|
                0 <= i < items.len() ==> json::depth_of(#[trigger] items[i]) < json::depth_of(n)
        },
        n.value matches JsonView::Object(members) ==> {
            &&& members.len() == 0 ==> json::depth_of(n) == 1
            &&& members.len() > 0 ==> exists|i: int|
                0 <= i < members.len() && json::depth_of(n) == 1 + json::depth_of(
                    (#[trigger] members[i]).1,
                )
            &&& forall|i: int|
                0 <= i < members.len() ==> json::depth_of((#[trigger] members[i]).1)
                    < json::depth_of(n)
        },
{
    match n.value {
        JsonView::Array(items) => {
            lemma_items(items);
        },
        JsonView::Object(members) => {
            lemma_members(members);
        },
        _ => {},
    }
}

/// The longest array of a document is the document itself or one within it.
pub proof fn law_array_len(n: JsonNodeView)
    ensures
        !(n.value is Array) && !(n.value is Object) ==> json::array_len_of(n) == 0,
        n.value matches JsonView::Array(items) ==> {
            &&& items.len() <= json::array_len_of(n)
            &&& json::array_len_of(n) == items.len() || exists|i: int|
                0 <= i < items.len() && json::array_len_of(n) == json::array_len_of(
                    #[trigger] items[i],
                )
            &&& forall|i: int|
                0 <= i < items.len() ==> json::array_len_of(#[trigger] items[i])
                    <= json::array_len_of(n)
        },
        n.value matches JsonView::Object(members) ==> {
            &&& json::array_len_of(n) == 0 || exists|i: int|
                0 <= i < members.len() && json::array_len_of(n) == json::array_len_of(
                    (#[trigger] members[i]).1,
                )
            &&& forall|i: int|
                0 <= i < members.len() ==> json::array_len_of((#[trigger] members[i]).1)
                    <= json::array_len_of(n)
        },
{
    match n.value {
        JsonView::Array(items) => {
            lemma_items(items);
        },
        JsonView::Object(members) => {
            lemma_members(members);
        },
        _ => {},
    }
}

/// Every member of a document, at any depth, is one field.
pub proof fn law_field_count(
    n: JsonNodeView,
    a: JsonNodeView,
    b: JsonNodeView,
    name: Seq<char>,
    item: JsonNodeView,
    members: Seq<(Seq<char>, JsonNodeView)>,
    items: Seq<JsonNodeView>,
)
    requires
        a.value == JsonView::Object(members),
        b.value == JsonView::Array(items),
    ensures
        !(n.value is Array) && !(n.value is Object) ==> json::field_count_of(n) == 0,
        members.len() == 0 ==> json::field_count_of(a) == 0,
        items.len() == 0 ==> json::field_count_of(b) == 0,
        n.value == JsonView::Object(members.push((name, item))) ==> json::field_count_of(n)
            == json::field_count_of(a) + 1 + json::field_count_of(item),
        n.value == JsonView::Array(items.push(item)) ==> json::field_count_of(n)
            == json::field_count_of(b) + json::field_count_of(item),
{
    assert(members.push((name, item)).drop_last() =~= members);
    assert(items.push(item).drop_last() =~= items);
}

/// A member is found under its name; of several the first.
pub proof fn law_member(n: JsonNodeView, name: Seq<char>, i: int)
    ensures
        !(n.value is Object) ==> json::member_of(n, name) is None,
        n.value matches JsonView::Object(members) ==> {
            &&& json::member_of(n, name) is None <==> forall|j: int|
                0 <= j < members.len() ==> (#[trigger] members[j]).0 != name
            &&& 0 <= i < members.len() && members[i].0 == name && (forall|j: int|
                0 <= j < i ==> (#[trigger] members[j]).0 != name) ==> json::member_of(n, name)
                == Some(members[i].1)
        },
{
    if n.value is Object {
        lemma_member(n.value->Object_0, name, i);
    }
}

proof fn lemma_member(members: Seq<(Seq<char>, JsonNodeView)>, name: Seq<char>, i: int)
    ensures
        json::member_in(members, name) is None <==> forall|j: int|
            0 <= j < members.len() ==> (#[trigger] members[j]).0 != name,
        0 <= i < members.len() && members[i].0 == name && (forall|j: int|
            0 <= j < i ==> (#[trigger] members[j]).0 != name) ==> json::member_in(members, name)
            == Some(members[i].1),
    decreases members.len(),
{
    if members.len() > 0 {
        let rest = members.drop_first();
        lemma_member(rest, name, i - 1);
        assert(forall|j: int| 0 <= j < rest.len() ==> #[trigger] rest[j] == members[j + 1]);
        if members[0].0 != name {
            if json::member_in(rest, name) is None {
                assert forall|j: int| 0 <= j < members.len() implies (#[trigger] members[j]).0
                    != name by {
                    if j > 0 {
                        assert(rest[j - 1] == members[j]);
                    }
                }
            }
            if 0 < i < members.len() && (forall|j: int|
                0 <= j < i ==> (#[trigger] members[j]).0 != name) {
                assert(rest[i - 1] == members[i]);
                assert forall|j: int| 0 <= j < i - 1 implies (#[trigger] rest[j]).0 != name by {
                    assert(rest[j] == members[j + 1]);
                }
            }
        } else if i > 0 && (forall|j: int| 0 <= j < i ==> (#[trigger] members[j]).0 != name) {
            assert(members[0].0 != name);
        }
    }
}

/// The kind of a value, and what is read as text.
pub proof fn law_kind(n: JsonNodeView)
    ensures
        n.value is Null ==> json::kind_of(n) == "null"@,
        n.value is Bool ==> json::kind_of(n) == "boolean"@,
        n.value is Number ==> json::kind_of(n) == "number"@,
        n.value is Text ==> json::kind_of(n) == "string"@,
        n.value is Array ==> json::kind_of(n) == "array"@,
        n.value is Object ==> json::kind_of(n) == "object"@,
        json::text_of(Some(n)) is Some <==> n.value is Text,
        n.value matches JsonView::Text(s) ==> json::text_of(Some(n)) == Some(s),
{
}

} // verus!
