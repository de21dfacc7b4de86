//! JSON values as plain data.
//!
//! The application reads and writes JSON text; the library builds, moves and
//! looks into values.
use vstd::prelude::*;

use crate::text::same_text;

verus! {

/// A JSON value. Numbers keep the width they were written with: floating
/// point numbers are held as bit patterns.
#[derive(Debug, PartialEq)]
pub enum Json {
    Null,
    Bool(bool),
    UInt(u64),
    Int(i64),
    /// Bits of a single-precision number.
    Real(u32),
    /// Bits of a double-precision number.
    Double(u64),
    Text(String),
    List(Vec<Json>),
    Object(Vec<(String, Json)>),
}

/// What a JSON value says.
pub enum JsonView {
    Null,
    Bool(bool),
    UInt(u64),
    Int(i64),
    Real(u32),
    Double(u64),
    Text(Seq<char>),
    List(Seq<JsonView>),
    Object(Seq<(Seq<char>, JsonView)>),
}

/// The view of a value, nested values by their own views.
pub open spec fn view_of(j: Json) -> JsonView
    decreases j,
{
    match j {
        Json::Null => JsonView::Null,
        Json::Bool(b) => JsonView::Bool(b),
        Json::UInt(n) => JsonView::UInt(n),
        Json::Int(n) => JsonView::Int(n),
        Json::Real(n) => JsonView::Real(n),
        Json::Double(n) => JsonView::Double(n),
        Json::Text(s) => JsonView::Text(s@),
        Json::List(v) => JsonView::List(
            Seq::new(
                v@.len(),
                |i: int|
                    if 0 <= i < v@.len() {
                        view_of(v@[i])
                    } else {
                        JsonView::Null
                    },
            ),
        ),
        Json::Object(v) => JsonView::Object(
            Seq::new(
                v@.len(),
                |i: int|
                    if 0 <= i < v@.len() {
                        (v@[i].0@, view_of(v@[i].1))
                    } else {
                        (Seq::empty(), JsonView::Null)
                    },
            ),
        ),
    }
}

impl View for Json {
    type V = JsonView;

    open spec fn view(&self) -> JsonView {
        view_of(*self)
    }
}

/// The views of a list of values.
pub open spec fn item_views(items: Seq<Json>) -> Seq<JsonView> {
    Seq::new(items.len(), |i: int| items[i]@)
}

/// The views of an object's fields.
pub open spec fn field_views(fields: Seq<(String, Json)>) -> Seq<(Seq<char>, JsonView)> {
    Seq::new(fields.len(), |i: int| (fields[i].0@, fields[i].1@))
}

/// The first field of that name, in an object.
pub open spec fn field_of(fields: Seq<(Seq<char>, JsonView)>, key: Seq<char>) -> Option<JsonView>
    decreases fields.len(),
{
    if fields.len() == 0 {
        None
    } else if fields[0].0 == key {
        Some(fields[0].1)
    } else {
        field_of(fields.skip(1), key)
    }
}

impl JsonView {
    /// The field of that name; `None` where there is none, or no object.
    pub open spec fn field(self, key: Seq<char>) -> Option<JsonView> {
        match self {
            JsonView::Object(fields) => field_of(fields, key),
            _ => None,
        }
    }
}

/// Append a field.
pub fn push_field(fields: &mut Vec<(String, Json)>, key: &str, value: Json)
    ensures
        field_views(final(fields)@) == field_views(old(fields)@).push((key@, value@)),
{
    fields.push((key.to_owned(), value));
    proof {
        assert(field_views(fields@) =~= field_views(old(fields)@).push((key@, value@)));
    }
}

impl Json {
    /// A string.
    pub fn text(s: &str) -> (r: Json)
        ensures
            r@ == JsonView::Text(s@),
    {
        Json::Text(s.to_owned())
    }

    /// An array.
    pub fn list(items: Vec<Json>) -> (r: Json)
        ensures
            r@ == JsonView::List(item_views(items@)),
    {
        let r: Json = Json::List(items);
        proof {
            assert(r@->List_0 =~= item_views(items@));
        }
        r
    }

    /// An object.
    pub fn object(fields: Vec<(String, Json)>) -> (r: Json)
        ensures
            r@ == JsonView::Object(field_views(fields@)),
    {
        let r: Json = Json::Object(fields);
        proof {
            assert(r@->Object_0 =~= field_views(fields@));
        }
        r
    }

    /// The field of that name; `None` where there is none, or no object.
    pub fn get(&self, key: &str) -> (r: Option<&Json>)
        ensures
            match r {
                Some(v) => self@.field(key@) == Some(v@),
                None => self@.field(key@) is None,
            },
    {
        match self {
            Json::Object(fields) => {
                let ghost all = field_views(fields@);
                proof {
                    assert(self@->Object_0 =~= all);
                    assert(all.skip(0) =~= all);
                }
                let mut i: usize = 0;
                while i < fields.len()
                    invariant
                        i <= fields@.len(),
                        all == field_views(fields@),
                        self@ == JsonView::Object(all),
                        field_of(all, key@) == field_of(all.skip(i as int), key@),
                    decreases fields@.len() - i,
                {
                    if same_text(fields[i].0.as_str(), key) {
                        return Some(&fields[i].1);
                    }
                    proof {
                        assert(all.skip(i as int).skip(1) =~= all.skip(i + 1));
                    }
                    i += 1;
                }
                None
            },
            _ => None,
        }
    }

    /// The text of a string.
    pub fn as_text(&self) -> (r: Option<&str>)
        ensures
            match r {
                Some(s) => self@ == JsonView::Text(s@),
                None => !(self@ is Text),
            },
    {
        match self {
            Json::Text(s) => Some(s.as_str()),
            _ => None,
        }
    }

    /// The items of an array.
    pub fn as_list(&self) -> (r: Option<&Vec<Json>>)
        ensures
            match r {
                Some(v) => self@ == JsonView::List(item_views(v@)),
                None => !(self@ is List),
            },
    {
        match self {
            Json::List(v) => {
                proof {
                    assert(self@->List_0 =~= item_views(v@));
                }
                Some(v)
            },
            _ => None,
        }
    }

    /// An unsigned number.
    pub fn as_u64(&self) -> (r: Option<u64>)
        ensures
            r == (match self@ {
                JsonView::UInt(n) => Some(n),
                _ => None,
            }),
    {
        match self {
            Json::UInt(n) => Some(*n),
            _ => None,
        }
    }
}

/// A field is found by its name, the first of that name; and a name that no
/// field has is not found.
pub proof fn fields_are_found_by_name(
    fields: Seq<(Seq<char>, JsonView)>,
    i: int,
    key: Seq<char>,
)
    ensures
        0 <= i < fields.len() && (forall|j: int| 0 <= j < i ==> (#[trigger] fields[j]).0
            != fields[i].0) ==> field_of(fields, fields[i].0) == Some(fields[i].1),
        (forall|j: int| 0 <= j < fields.len() ==> (#[trigger] fields[j]).0 != key) ==> field_of(
            fields,
            key,
        ) is None,
    decreases fields.len(),
{
    if fields.len() > 0 {
        let rest = fields.skip(1);
        fields_are_found_by_name(rest, i - 1, key);
        assert forall|j: int| 0 <= j < rest.len() implies rest[j] == fields[j + 1] by {}
        if 0 < i < fields.len() && (forall|j: int| 0 <= j < i ==> (#[trigger] fields[j]).0
            != fields[i].0) {
            assert(rest[i - 1] == fields[i]);
            assert(fields[0].0 != fields[i].0);
            assert forall|j: int| 0 <= j < i - 1 implies (#[trigger] rest[j]).0 != rest[i
                - 1].0 by {
                assert(rest[j] == fields[j + 1]);
            }
        }
        if forall|j: int| 0 <= j < fields.len() ==> (#[trigger] fields[j]).0 != key {
            assert(fields[0].0 != key);
            assert forall|j: int| 0 <= j < rest.len() implies (#[trigger] rest[j]).0 != key by {
                assert(rest[j] == fields[j + 1]);
            }
        }
    }
}

/// Only objects have fields, and theirs are the ones they hold.
pub proof fn objects_have_their_fields(
    fields: Seq<(Seq<char>, JsonView)>,
    key: Seq<char>,
    v: JsonView,
)
    ensures
        JsonView::Object(fields).field(key) == field_of(fields, key),
        !(v is Object) ==> v.field(key) is None,
{
}

/// The view of a value tells its kind and what it holds.
pub proof fn views_tell_the_value(
    b: bool,
    u: u64,
    n: i64,
    bits: u32,
    s: String,
    items: Vec<Json>,
    fields: Vec<(String, Json)>,
    i: int,
)
    ensures
        Json::Null@ == JsonView::Null,
        Json::Bool(b)@ == JsonView::Bool(b),
        Json::UInt(u)@ == JsonView::UInt(u),
        Json::Int(n)@ == JsonView::Int(n),
        Json::Real(bits)@ == JsonView::Real(bits),
        Json::Double(u)@ == JsonView::Double(u),
        Json::Text(s)@ == JsonView::Text(s@),
        Json::List(items)@ is List,
        Json::List(items)@->List_0.len() == items@.len(),
        0 <= i < items@.len() ==> Json::List(items)@->List_0[i] == items@[i]@,
        Json::Object(fields)@ is Object,
        Json::Object(fields)@->Object_0.len() == fields@.len(),
        0 <= i < fields@.len() ==> Json::Object(fields)@->Object_0[i] == (
            fields@[i].0@,
            fields@[i].1@,
        ),
{
}

} // verus!
