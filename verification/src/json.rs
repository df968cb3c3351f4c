//! JSON values as the library reads and builds them.
//!
//! An object is a list of fields. Where a key occurs twice the later field counts,
//! so that adding a field replaces an earlier one of the same key.
use vstd::prelude::*;

use crate::text::chars::text_eq;
use crate::text::compose::{opt_text, texts};
use crate::text::trim::{is_blank, blank};

verus! {

/// A JSON value. A number is an unsigned integer, a negative integer, or the bits
/// of a double-precision number.
#[derive(Debug)]
pub enum Json {
    Null,
    Bool(bool),
    Unsigned(u64),
    Negative(i64),
    Float(u64),
    Text(String),
    Array(Vec<Json>),
    Object(Vec<(String, Json)>),
}

/// What a JSON value says.
pub enum JsonView {
    Null,
    Bool(bool),
    Unsigned(nat),
    Negative(int),
    Float(u64),
    Text(Seq<char>),
    Array(Seq<JsonView>),
    Object(Seq<(Seq<char>, JsonView)>),
}

impl View for Json {
    type V = JsonView;

    open spec fn view(&self) -> JsonView {
        said(*self)
    }
}

/// What a JSON value says.
pub open spec fn said(value: Json) -> JsonView
    decreases value,
{
    match value {
        Json::Null => JsonView::Null,
        Json::Bool(b) => JsonView::Bool(b),
        Json::Unsigned(n) => JsonView::Unsigned(n as nat),
        Json::Negative(n) => JsonView::Negative(n as int),
        Json::Float(bits) => JsonView::Float(bits),
        Json::Text(s) => JsonView::Text(s@),
        Json::Array(items) => JsonView::Array(
            Seq::new(
                items@.len(),
                |i: int|
                    if 0 <= i < items@.len() {
                        said(items@[i])
                    } else {
                        JsonView::Null
                    },
            ),
        ),
        Json::Object(fields) => JsonView::Object(
            Seq::new(
                fields@.len(),
                |i: int|
                    if 0 <= i < fields@.len() {
                        (fields@[i].0@, said(fields@[i].1))
                    } else {
                        (seq![], JsonView::Null)
                    },
            ),
        ),
    }
}

/// The fields of an empty object.
pub open spec fn no_fields() -> Seq<(Seq<char>, JsonView)> {
    Seq::empty()
}

/// The value of the last field with the given key.
pub open spec fn field(fields: Seq<(Seq<char>, JsonView)>, key: Seq<char>) -> Option<JsonView>
    decreases fields.len(),
{
    if fields.len() == 0 {
        None
    } else if fields.last().0 == key {
        Some(fields.last().1)
    } else {
        field(fields.drop_last(), key)
    }
}

/// What the value holds under a key; a value that is no object holds nothing.
pub open spec fn member(v: JsonView, key: Seq<char>) -> Option<JsonView> {
    match v {
        JsonView::Object(fields) => field(fields, key),
        _ => None,
    }
}

/// The text under a key.
pub open spec fn text_member(v: JsonView, key: Seq<char>) -> Option<Seq<char>> {
    match member(v, key) {
        Some(JsonView::Text(s)) => Some(s),
        _ => None,
    }
}

/// The text under a key, where it is not blank.
pub open spec fn stated_member(v: JsonView, key: Seq<char>) -> Option<Seq<char>> {
    match text_member(v, key) {
        Some(s) => if blank(s) {
            None
        } else {
            Some(s)
        },
        None => None,
    }
}

/// The unsigned integer under a key.
pub open spec fn number_member(v: JsonView, key: Seq<char>) -> Option<nat> {
    match member(v, key) {
        Some(JsonView::Unsigned(n)) => Some(n),
        _ => None,
    }
}

/// The truth value under a key.
pub open spec fn flag_member(v: JsonView, key: Seq<char>) -> Option<bool> {
    match member(v, key) {
        Some(JsonView::Bool(b)) => Some(b),
        _ => None,
    }
}

/// The texts among the given values, in order.
pub open spec fn texts_among(items: Seq<JsonView>) -> Seq<Seq<char>>
    decreases items.len(),
{
    if items.len() == 0 {
        seq![]
    } else {
        match items.last() {
            JsonView::Text(s) => texts_among(items.drop_last()).push(s),
            _ => texts_among(items.drop_last()),
        }
    }
}

/// The texts in the array under a key; nothing where there is no array.
pub open spec fn texts_member(v: JsonView, key: Seq<char>) -> Option<Seq<Seq<char>>> {
    match member(v, key) {
        Some(JsonView::Array(items)) => Some(texts_among(items)),
        _ => None,
    }
}

/// An optional text as a value: null where there is none.
pub open spec fn text_or_null(o: Option<Seq<char>>) -> JsonView {
    match o {
        Some(s) => JsonView::Text(s),
        None => JsonView::Null,
    }
}

/// An optional number as a value: null where there is none.
pub open spec fn number_or_null(o: Option<u32>) -> JsonView {
    match o {
        Some(n) => JsonView::Unsigned(n as nat),
        None => JsonView::Null,
    }
}

/// Texts as an array.
pub open spec fn text_array(v: Seq<Seq<char>>) -> JsonView {
    JsonView::Array(Seq::new(v.len(), |i: int| JsonView::Text(v[i])))
}

pub open spec fn views(v: Seq<Json>) -> Seq<JsonView> {
    Seq::new(v.len(), |i: int| v[i]@)
}

pub open spec fn field_views(v: Seq<(String, Json)>) -> Seq<(Seq<char>, JsonView)> {
    Seq::new(v.len(), |i: int| (v[i].0@, v[i].1@))
}

pub open spec fn opt_view(o: Option<&Json>) -> Option<JsonView> {
    match o {
        Some(v) => Some(v@),
        None => None,
    }
}

pub proof fn lemma_array_view(items: Vec<Json>)
    ensures
        Json::Array(items)@ == JsonView::Array(views(items@)),
{
    reveal_with_fuel(said, 2);
    let v = Json::Array(items)@;
    assert(v->Array_0 =~= views(items@));
}

pub proof fn lemma_object_view(fields: Vec<(String, Json)>)
    ensures
        Json::Object(fields)@ == JsonView::Object(field_views(fields@)),
{
    reveal_with_fuel(said, 2);
    let v = Json::Object(fields)@;
    assert(v->Object_0 =~= field_views(fields@));
}

impl Json {
    /// A text value.
    pub fn text(s: &str) -> (r: Json)
        ensures
            r@ == JsonView::Text(s@),
    {
        Json::Text(s.to_owned())
    }

    /// A text value, or null.
    pub fn opt_text(o: &Option<String>) -> (r: Json)
        ensures
            r@ == text_or_null(opt_text(*o)),
    {
        match o {
            Some(s) => Json::Text(s.as_str().to_owned()),
            None => Json::Null,
        }
    }

    /// A number value, or null.
    pub fn opt_number(o: Option<u32>) -> (r: Json)
        ensures
            r@ == number_or_null(o),
    {
        match o {
            Some(n) => Json::Unsigned(n as u64),
            None => Json::Null,
        }
    }

    /// An array of the given values.
    pub fn array(items: Vec<Json>) -> (r: Json)
        ensures
            r@ == JsonView::Array(views(items@)),
    {
        proof {
            lemma_array_view(items);
        }
        Json::Array(items)
    }

    /// An array without items.
    pub fn empty_array() -> (r: Json)
        ensures
            r@ == JsonView::Array(Seq::empty()),
    {
        let items: Vec<Json> = Vec::new();
        assert(views(items@) =~= Seq::<JsonView>::empty());
        Json::array(items)
    }

    /// An object without fields.
    pub fn empty_object() -> (r: Json)
        ensures
            r@ == JsonView::Object(no_fields()),
    {
        Fields::new().done()
    }

    /// An array of texts.
    pub fn text_items(v: &Vec<String>) -> (r: Json)
        ensures
            r@ == text_array(texts(v@)),
    {
        let mut items: Vec<Json> = Vec::new();
        let mut i: usize = 0;
        while i < v.len()
            invariant
                i <= v@.len(),
                items@.len() == i,
                forall|j: int| 0 <= j < i ==> #[trigger] items@[j]@ == JsonView::Text(v@[j]@),
            decreases v@.len() - i,
        {
            items.push(Json::text(v[i].as_str()));
            i += 1;
        }
        assert(views(items@) =~= text_array(texts(v@))->Array_0);
        Json::array(items)
    }

    /// What the value holds under a key.
    pub fn get(&self, key: &str) -> (r: Option<&Json>)
        ensures
            opt_view(r) == member(self@, key@),
    {
        match self {
            Json::Object(fields) => {
                let ghost all = field_views(fields@);
                proof {
                    lemma_object_view(*fields);
                }
                let mut i: usize = fields.len();
                assert(all.take(i as int) =~= all);
                while i > 0
                    invariant
                        i <= fields@.len(),
                        all == field_views(fields@),
                        self@ == JsonView::Object(all),
                        field(all, key@) == field(all.take(i as int), key@),
                    decreases i,
                {
                    assert(all.take(i as int).drop_last() =~= all.take(i - 1));
                    assert(all.take(i as int).last() == all[i - 1]);
                    if text_eq(fields[i - 1].0.as_str(), key) {
                        return Some(&fields[i - 1].1);
                    }
                    i -= 1;
                }
                None
            },
            _ => None,
        }
    }

    /// The text under a key.
    pub fn get_text(&self, key: &str) -> (r: Option<String>)
        ensures
            opt_text(r) == text_member(self@, key@),
    {
        match self.get(key) {
            Some(Json::Text(s)) => Some(s.as_str().to_owned()),
            _ => None,
        }
    }

    /// The text under a key, where it is not blank.
    pub fn get_stated(&self, key: &str) -> (r: Option<String>)
        ensures
            opt_text(r) == stated_member(self@, key@),
    {
        match self.get_text(key) {
            Some(s) => if is_blank(s.as_str()) {
                None
            } else {
                Some(s)
            },
            None => None,
        }
    }

    /// The unsigned integer under a key.
    pub fn get_number(&self, key: &str) -> (r: Option<u64>)
        ensures
            match r {
                Some(n) => number_member(self@, key@) == Some(n as nat),
                None => number_member(self@, key@) is None,
            },
    {
        match self.get(key) {
            Some(Json::Unsigned(n)) => Some(*n),
            _ => None,
        }
    }

    /// The truth value under a key.
    pub fn get_flag(&self, key: &str) -> (r: Option<bool>)
        ensures
            r == flag_member(self@, key@),
    {
        match self.get(key) {
            Some(Json::Bool(b)) => Some(*b),
            _ => None,
        }
    }

    /// The texts in the array under a key.
    pub fn get_texts(&self, key: &str) -> (r: Option<Vec<String>>)
        ensures
            crate::text::compose::opt_texts(r) == texts_member(self@, key@),
    {
        match self.get(key) {
            Some(Json::Array(items)) => {
                let ghost all = views(items@);
                proof {
                    lemma_array_view(*items);
                }
                let mut r: Vec<String> = Vec::new();
                let mut i: usize = 0;
                assert(texts(r@) =~= texts_among(all.take(0)));
                while i < items.len()
                    invariant
                        i <= items@.len(),
                        all == views(items@),
                        texts(r@) == texts_among(all.take(i as int)),
                    decreases items@.len() - i,
                {
                    assert(all.take(i as int + 1).drop_last() =~= all.take(i as int));
                    assert(all.take(i as int + 1).last() == items@[i as int]@);
                    if let Json::Text(s) = &items[i] {
                        crate::text::compose::put(&mut r, s.as_str());
                    }
                    i += 1;
                }
                assert(all.take(i as int) =~= all);
                Some(r)
            },
            _ => None,
        }
    }
}

/// The fields of an object that is being built.
#[derive(Debug)]
pub struct Fields {
    pub list: Vec<(String, Json)>,
}

impl View for Fields {
    type V = Seq<(Seq<char>, JsonView)>;

    open spec fn view(&self) -> Seq<(Seq<char>, JsonView)> {
        field_views(self.list@)
    }
}

impl Fields {
    /// No fields.
    pub fn new() -> (r: Fields)
        ensures
            r@ == no_fields(),
    {
        let r = Fields { list: Vec::new() };
        assert(r@ =~= no_fields());
        r
    }

    /// Adds a field; it replaces an earlier one of the same key.
    pub fn put(&mut self, key: &str, value: Json)
        ensures
            final(self)@ == old(self)@.push((key@, value@)),
    {
        let ghost before = self.list@;
        self.list.push((key.to_owned(), value));
        assert(self@ =~= field_views(before).push((key@, value@)));
    }

    /// Adds a text field.
    pub fn text(&mut self, key: &str, value: &str)
        ensures
            final(self)@ == old(self)@.push((key@, JsonView::Text(value@))),
    {
        self.put(key, Json::text(value));
    }

    /// Adds a field that is a text or null.
    pub fn opt_text(&mut self, key: &str, value: &Option<String>)
        ensures
            final(self)@ == old(self)@.push((key@, text_or_null(opt_text(*value)))),
    {
        self.put(key, Json::opt_text(value));
    }

    /// Adds a truth value.
    pub fn flag(&mut self, key: &str, value: bool)
        ensures
            final(self)@ == old(self)@.push((key@, JsonView::Bool(value))),
    {
        self.put(key, Json::Bool(value));
    }

    /// Adds an unsigned integer.
    pub fn number(&mut self, key: &str, value: u64)
        ensures
            final(self)@ == old(self)@.push((key@, JsonView::Unsigned(value as nat))),
    {
        self.put(key, Json::Unsigned(value));
    }

    /// Adds a null field.
    pub fn null(&mut self, key: &str)
        ensures
            final(self)@ == old(self)@.push((key@, JsonView::Null)),
    {
        self.put(key, Json::Null);
    }

    /// Adds an array of texts.
    pub fn texts(&mut self, key: &str, value: &Vec<String>)
        ensures
            final(self)@ == old(self)@.push((key@, text_array(texts(value@)))),
    {
        self.put(key, Json::text_items(value));
    }

    /// The object with these fields.
    pub fn done(self) -> (r: Json)
        ensures
            r@ == JsonView::Object(self@),
    {
        proof {
            lemma_object_view(self.list);
        }
        Json::Object(self.list)
    }
}

/// Whether two values say the same. The fields of objects have to be in the same order.
pub fn same_json(a: &Json, b: &Json) -> (r: bool)
    ensures
        r == (a@ == b@),
    decreases *a,
{
    match (a, b) {
        (Json::Null, Json::Null) => true,
        (Json::Bool(x), Json::Bool(y)) => *x == *y,
        (Json::Unsigned(x), Json::Unsigned(y)) => *x == *y,
        (Json::Negative(x), Json::Negative(y)) => *x == *y,
        (Json::Float(x), Json::Float(y)) => *x == *y,
        (Json::Text(x), Json::Text(y)) => text_eq(x.as_str(), y.as_str()),
        (Json::Array(x), Json::Array(y)) => {
            proof {
                lemma_array_view(*x);
                lemma_array_view(*y);
            }
            if x.len() != y.len() {
                assert(views(x@).len() != views(y@).len());
                return false;
            }
            let mut i: usize = 0;
            while i < x.len()
                invariant
                    i <= x@.len(),
                    x@.len() == y@.len(),
                    *a == Json::Array(*x),
                    a@ == JsonView::Array(views(x@)),
                    b@ == JsonView::Array(views(y@)),
                    forall|j: int| 0 <= j < i ==> (#[trigger] x@[j])@ == y@[j]@,
                decreases x@.len() - i,
            {
                if !same_json(&x[i], &y[i]) {
                    assert(views(x@)[i as int] != views(y@)[i as int]);
                    return false;
                }
                i += 1;
            }
            assert(views(x@) =~= views(y@));
            true
        },
        (Json::Object(x), Json::Object(y)) => {
            proof {
                lemma_object_view(*x);
                lemma_object_view(*y);
            }
            if x.len() != y.len() {
                assert(field_views(x@).len() != field_views(y@).len());
                return false;
            }
            let mut i: usize = 0;
            while i < x.len()
                invariant
                    i <= x@.len(),
                    x@.len() == y@.len(),
                    *a == Json::Object(*x),
                    a@ == JsonView::Object(field_views(x@)),
                    b@ == JsonView::Object(field_views(y@)),
                    forall|j: int|
                        0 <= j < i ==> (#[trigger] x@[j]).0@ == y@[j].0@ && x@[j].1@ == y@[j].1@,
                decreases x@.len() - i,
            {
                if !text_eq(x[i].0.as_str(), y[i].0.as_str()) || !same_json(&x[i].1, &y[i].1) {
                    assert(field_views(x@)[i as int] != field_views(y@)[i as int]);
                    return false;
                }
                i += 1;
            }
            assert(field_views(x@) =~= field_views(y@));
            true
        },
        _ => false,
    }
}

/// A field that is added is what the object then holds under its key, and it
/// leaves every other key as it was.
pub proof fn adding_a_field_replaces_its_key(
    fields: Seq<(Seq<char>, JsonView)>,
    key: Seq<char>,
    value: JsonView,
    other: Seq<char>,
)
    ensures
        field(fields.push((key, value)), key) == Some(value),
        other != key ==> field(fields.push((key, value)), other) == field(fields, other),
{
    assert(fields.push((key, value)).drop_last() =~= fields);
}

/// A field is found under its key where no later one has that key.
pub proof fn lemma_field_at(fields: Seq<(Seq<char>, JsonView)>, i: int)
    requires
        0 <= i < fields.len(),
        forall|j: int| i < j < fields.len() ==> (#[trigger] fields[j]).0 != fields[i].0,
    ensures
        field(fields, fields[i].0) == Some(fields[i].1),
    decreases fields.len(),
{
    if i < fields.len() - 1 {
        let rest = fields.drop_last();
        assert(fields[fields.len() - 1].0 != fields[i].0);
        assert forall|j: int| i < j < rest.len() implies (#[trigger] rest[j]).0 != rest[i].0 by {
            assert(rest[j] == fields[j]);
        }
        lemma_field_at(rest, i);
    }
}

} // verus!
