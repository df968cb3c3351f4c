//! What is read from values, told from the values.
use vstd::prelude::*;

use crate::json::{
    adding_a_field_replaces_its_key, flag_member, member, number_member, stated_member, text_member,
    texts_among, texts_member, JsonView,
};
use crate::text::trim::blank;

verus! {

/// What stands under a key is read as what it is: a text, a number or a truth value, and as
/// nothing where it is something else.
pub proof fn members_are_read_as_what_they_are(
    fields: Seq<(Seq<char>, JsonView)>,
    key: Seq<char>,
    s: Seq<char>,
    n: nat,
    b: bool,
)
    ensures
        ({
            let text = JsonView::Object(fields.push((key, JsonView::Text(s))));
            let number = JsonView::Object(fields.push((key, JsonView::Unsigned(n))));
            let flag = JsonView::Object(fields.push((key, JsonView::Bool(b))));
            &&& text_member(text, key) == Some(s)
            &&& !blank(s) ==> stated_member(text, key) == Some(s)
            &&& blank(s) ==> stated_member(text, key) is None
            &&& number_member(text, key) is None && flag_member(text, key) is None && texts_member(
                text,
                key,
            ) is None
            &&& number_member(number, key) == Some(n)
            &&& text_member(number, key) is None && flag_member(number, key) is None
                && stated_member(number, key) is None
            &&& flag_member(flag, key) == Some(b)
            &&& text_member(flag, key) is None && number_member(flag, key) is None
            &&& text_member(JsonView::Text(s), key) is None
            &&& member(JsonView::Null, key) is None
        }),
{
    adding_a_field_replaces_its_key(fields, key, JsonView::Text(s), key);
    adding_a_field_replaces_its_key(fields, key, JsonView::Unsigned(n), key);
    adding_a_field_replaces_its_key(fields, key, JsonView::Bool(b), key);
}

/// The texts of an array are read in order, and whatever is no text is passed over.
pub proof fn texts_are_read_in_order(items: Seq<JsonView>, s: Seq<char>, other: JsonView)
    requires
        !(other is Text),
    ensures
        texts_among(items.push(JsonView::Text(s))) == texts_among(items).push(s),
        texts_among(items.push(other)) == texts_among(items),
        texts_among(Seq::empty()).len() == 0,
{
    assert(items.push(JsonView::Text(s)).drop_last() =~= items);
    assert(items.push(other).drop_last() =~= items);
}

/// An array under a key is read as its texts.
pub proof fn arrays_are_read_as_their_texts(
    fields: Seq<(Seq<char>, JsonView)>,
    key: Seq<char>,
    items: Seq<JsonView>,
)
    ensures
        texts_member(JsonView::Object(fields.push((key, JsonView::Array(items)))), key) == Some(
            texts_among(items),
        ),
        text_member(JsonView::Object(fields.push((key, JsonView::Array(items)))), key) is None,
{
    adding_a_field_replaces_its_key(fields, key, JsonView::Array(items), key);
}

} // verus!
