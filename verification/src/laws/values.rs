//! What is read from JSON values.

use crate::json::{array_view, json_view, number_integer, object_view, Json, JsonView, Number};
use vstd::prelude::*;

verus! {

/// A member is found by its own name, and only in an object; of members with one name the
/// last one counts.
pub proof fn law_members_have_names(m: Seq<(String, Json)>, name: String, v: Json, other: Seq<char>)
    requires
        other != name@,
    ensures
        JsonView::Object(object_view(m.push((name, v)))).field(name@) == Some(json_view(v)),
        JsonView::Object(object_view(m.push((name, v)))).field(other) == JsonView::Object(
            object_view(m),
        ).field(other),
        JsonView::Object(object_view(Seq::empty())).field(other) is None,
        forall|x: JsonView| !(x is Object) ==> #[trigger] x.field(other) is None,
{
    assert(m.push((name, v)).drop_last() =~= m);
}

/// A value is read as what it is and as nothing else.
pub proof fn law_values_are_what_they_are(s: Seq<char>, b: bool, items: Seq<JsonView>, u: u64, i: i64)
    ensures
        JsonView::Str(s).text() == Some(s),
        JsonView::Str(s).integer() is None && JsonView::Str(s).truth() is None && JsonView::Str(
            s,
        ).items() is None && JsonView::Str(s).unsigned() is None,
        JsonView::Bool(b).truth() == Some(b),
        JsonView::Bool(b).text() is None && JsonView::Bool(b).integer() is None,
        JsonView::Array(items).items() == Some(items),
        JsonView::Array(items).text() is None,
        JsonView::Number(Number::Unsigned(u)).unsigned() == Some(u),
        JsonView::Number(Number::Negative(i)).unsigned() is None,
        JsonView::Number(Number::Float(u)).unsigned() is None,
        JsonView::Number(Number::Unsigned(u)).text() is None,
        JsonView::Null.text() is None && JsonView::Null.integer() is None && JsonView::Null.truth()
            is None && JsonView::Null.items() is None,
{
}

/// A whole number is read as itself where it fits a signed machine word, and as no whole
/// number where it does not; a number with a fraction is none.
pub proof fn law_whole_numbers(u: u64, i: i64, bits: u64)
    ensures
        u <= 0x7FFF_FFFF_FFFF_FFFF ==> number_integer(Number::Unsigned(u)) is Some
            && number_integer(Number::Unsigned(u))->0 == u,
        u > 0x7FFF_FFFF_FFFF_FFFF ==> number_integer(Number::Unsigned(u)) is None,
        number_integer(Number::Negative(i)) == Some(i),
        number_integer(Number::Float(bits)) is None,
        JsonView::Number(Number::Unsigned(u)).integer() == number_integer(Number::Unsigned(u)),
        JsonView::Number(Number::Negative(i)).integer() == Some(i),
{
}

/// The members of a kind are those members that are of that kind.
pub proof fn law_members_of_a_kind(v: JsonView, name: Seq<char>)
    ensures
        v.text_field(name) == match v.field(name) {
            Some(JsonView::Str(s)) => Some(s),
            _ => None,
        },
        v.truth_field(name) == match v.field(name) {
            Some(JsonView::Bool(b)) => Some(b),
            _ => None,
        },
        v.items_field(name) == match v.field(name) {
            Some(JsonView::Array(s)) => Some(s),
            _ => None,
        },
        v.number_field(name) == match v.field(name) {
            Some(JsonView::Number(n)) => Some(n),
            _ => None,
        },
        v.integer_field(name) == match v.field(name) {
            Some(JsonView::Number(n)) => number_integer(n),
            _ => None,
        },
{
}

/// A list has the items that were put into it, in their order.
pub proof fn law_items_in_their_order(s: Seq<Json>, i: int)
    requires
        0 <= i < s.len(),
    ensures
        array_view(s).len() == s.len(),
        array_view(s)[i] == s[i]@,
{
    crate::json::lemma_array_view(s);
}

} // verus!
