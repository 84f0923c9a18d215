//! JSON values as plain data, and the outside calls that print and read them.

use vstd::prelude::*;

use crate::json_text;
use crate::text;

verus! {

/// A JSON value. The fields of an object keep their order.
#[derive(Debug)]
pub enum Json {
    Null,
    Bool(bool),
    /// A whole number from zero up.
    Unsigned(u64),
    /// A whole number below zero.
    Signed(i64),
    /// Any other number, as it is written.
    Decimal(String),
    Text(String),
    Array(Vec<Json>),
    Object(Vec<(String, Json)>),
}

/// What a JSON value holds.
pub ghost enum JsonView {
    Null,
    Bool(bool),
    Unsigned(u64),
    Signed(i64),
    Decimal(Seq<char>),
    Text(Seq<char>),
    Array(Seq<JsonView>),
    Object(Seq<(Seq<char>, JsonView)>),
}

/// What a JSON value holds.
pub open spec fn json_view(j: Json) -> JsonView
    decreases j,
{
    match j {
        Json::Null => JsonView::Null,
        Json::Bool(b) => JsonView::Bool(b),
        Json::Unsigned(n) => JsonView::Unsigned(n),
        Json::Signed(n) => JsonView::Signed(n),
        Json::Decimal(t) => JsonView::Decimal(t@),
        Json::Text(t) => JsonView::Text(t@),
        Json::Array(items) => JsonView::Array(
            Seq::new(
                items@.len(),
                |i: int|
                    if 0 <= i < items@.len() {
                        json_view(items@[i])
                    } else {
                        JsonView::Null
                    },
            ),
        ),
        Json::Object(fields) => JsonView::Object(
            Seq::new(
                fields@.len(),
                |i: int|
                    if 0 <= i < fields@.len() {
                        (fields@[i].0@, json_view(fields@[i].1))
                    } else {
                        (Seq::empty(), JsonView::Null)
                    },
            ),
        ),
    }
}

impl View for Json {
    type V = JsonView;

    open spec fn view(&self) -> JsonView {
        json_view(*self)
    }
}

/// What the items of an array hold.
pub open spec fn items_view(items: Seq<Json>) -> Seq<JsonView> {
    items.map_values(|j: Json| j@)
}

/// What the fields of an object hold.
pub open spec fn fields_view(fields: Seq<(String, Json)>) -> Seq<(Seq<char>, JsonView)> {
    fields.map_values(|f: (String, Json)| (f.0@, f.1@))
}

/// The view of an array is made of the views of its items.
pub broadcast proof fn array_view(items: Vec<Json>)
    ensures
        #[trigger] Json::Array(items)@ == JsonView::Array(items_view(items@)),
{
    reveal_with_fuel(json_view, 2);
    let j = Json::Array(items);
    assert(j@->Array_0 =~= items_view(items@));
}

/// The view of an object is made of the views of its fields.
pub broadcast proof fn object_view(fields: Vec<(String, Json)>)
    ensures
        #[trigger] Json::Object(fields)@ == JsonView::Object(fields_view(fields@)),
{
    reveal_with_fuel(json_view, 2);
    let j = Json::Object(fields);
    assert(j@->Object_0 =~= fields_view(fields@));
}

/// The position of the first field with a name, if there is one.
pub open spec fn field_index(fields: Seq<(Seq<char>, JsonView)>, name: Seq<char>) -> Option<int>
    decreases fields.len(),
{
    if fields.len() == 0 {
        None
    } else {
        match field_index(fields.drop_last(), name) {
            Some(i) => Some(i),
            None => if fields.last().0 == name {
                Some(fields.len() - 1)
            } else {
                None
            },
        }
    }
}

/// The field of an object with a name; other values have no fields.
pub open spec fn field(j: JsonView, name: Seq<char>) -> Option<JsonView> {
    match j {
        JsonView::Object(fields) => match field_index(fields, name) {
            Some(i) => Some(fields[i].1),
            None => None,
        },
        _ => None,
    }
}

/// The text of a field, where the field is a text.
pub open spec fn text_field(j: JsonView, name: Seq<char>) -> Option<Seq<char>> {
    match field(j, name) {
        Some(JsonView::Text(t)) => Some(t),
        _ => None,
    }
}

proof fn field_index_in_range(fields: Seq<(Seq<char>, JsonView)>, name: Seq<char>)
    ensures
        match field_index(fields, name) {
            Some(i) => 0 <= i < fields.len() && fields[i].0 == name,
            None => forall|i: int| 0 <= i < fields.len() ==> fields[i].0 != name,
        },
    decreases fields.len(),
{
    if fields.len() > 0 {
        field_index_in_range(fields.drop_last(), name);
        if field_index(fields, name) is None {
            assert forall|i: int| 0 <= i < fields.len() implies fields[i].0 != name by {
                if i < fields.len() - 1 {
                    assert(fields.drop_last()[i] == fields[i]);
                }
            }
        }
    }
}

impl Json {
    /// The field of an object with a name.
    pub fn get(&self, name: &str) -> (r: Option<&Json>)
        ensures
            match r {
                Some(j) => field(self@, name@) == Some(j@),
                None => field(self@, name@) is None,
            },
    {
        broadcast use object_view;

        match self {
            Json::Object(fields) => {
                assert(*self == Json::Object(*fields));
                let ghost all = self@->Object_0;
                let mut found: Option<usize> = None;
                for i in 0..fields.len()
                    invariant
                        all.len() == fields@.len(),
                        forall|k: int|
                            0 <= k < fields@.len() ==> all[k] == (fields@[k].0@, fields@[k].1@),
                        match found {
                            Some(k) => k < i && field_index(all.take(i as int), name@) == Some(
                                k as int,
                            ),
                            None => field_index(all.take(i as int), name@) is None,
                        },
                {
                    assert(all.take(i + 1).drop_last() =~= all.take(i as int));
                    if found.is_none() && text::same(fields[i].0.as_str(), name) {
                        found = Some(i);
                    }
                }
                assert(all.take(all.len() as int) =~= all);
                match found {
                    Some(k) => Some(&fields[k].1),
                    None => None,
                }
            },
            _ => None,
        }
    }

    /// The text that the value is, where it is one.
    pub fn as_str(&self) -> (r: Option<&String>)
        ensures
            match r {
                Some(t) => self@ == JsonView::Text(t@),
                None => !(self@ is Text),
            },
    {
        match self {
            Json::Text(t) => Some(t),
            _ => None,
        }
    }

    /// The whole number from zero up that the value is, where it is one.
    pub fn as_u64(&self) -> (r: Option<u64>)
        ensures
            match r {
                Some(n) => self@ == JsonView::Unsigned(n),
                None => !(self@ is Unsigned),
            },
    {
        match self {
            Json::Unsigned(n) => Some(*n),
            _ => None,
        }
    }

    /// The items of the array that the value is, where it is one.
    pub fn as_array(&self) -> (r: Option<&Vec<Json>>)
        ensures
            match r {
                Some(items) => self@ == JsonView::Array(items_view(items@)),
                None => !(self@ is Array),
            },
    {
        broadcast use array_view;

        match self {
            Json::Array(items) => {
                assert(*self == Json::Array(*items));
                Some(items)
            },
            _ => None,
        }
    }

    /// A copy of the value.
    pub fn copy(&self) -> (r: Json)
        ensures
            r@ == self@,
        decreases self,
    {
        broadcast use {array_view, object_view};

        match self {
            Json::Null => Json::Null,
            Json::Bool(b) => Json::Bool(*b),
            Json::Unsigned(n) => Json::Unsigned(*n),
            Json::Signed(n) => Json::Signed(*n),
            Json::Decimal(t) => Json::Decimal(t.clone()),
            Json::Text(t) => Json::Text(t.clone()),
            Json::Array(items) => {
                let mut out: Vec<Json> = Vec::new();
                for i in 0..items.len()
                    invariant
                        self == Json::Array(*items),
                        out@.len() == i,
                        forall|k: int| 0 <= k < i ==> (#[trigger] out@[k])@ == items@[k]@,
                    decreases items@.len() - i,
                {
                    assert(decreases_to!(*self => self->Array_0));
                    assert(decreases_to!(self->Array_0 => self->Array_0@));
                    assert(decreases_to!(self->Array_0@ => self->Array_0@[i as int]));
                    let item = items[i].copy();
                    out.push(item);
                }
                assert(items_view(out@) =~= items_view(items@));
                assert(*self == Json::Array(*items));
                Json::Array(out)
            },
            Json::Object(fields) => {
                let mut out: Vec<(String, Json)> = Vec::new();
                for i in 0..fields.len()
                    invariant
                        self == Json::Object(*fields),
                        out@.len() == i,
                        forall|k: int|
                            0 <= k < i ==> (#[trigger] out@[k]).0@ == fields@[k].0@ && out@[k].1@
                                == fields@[k].1@,
                    decreases fields@.len() - i,
                {
                    let name = fields[i].0.clone();
                    assert(decreases_to!(*self => self->Object_0));
                    assert(decreases_to!(self->Object_0 => self->Object_0@));
                    assert(decreases_to!(self->Object_0@ => self->Object_0@[i as int]));
                    assert(decreases_to!(self->Object_0@[i as int] => self->Object_0@[i as int].1));
                    let value = fields[i].1.copy();
                    out.push((name, value));
                }
                assert(fields_view(out@) =~= fields_view(fields@));
                assert(*self == Json::Object(*fields));
                Json::Object(out)
            },
        }
    }
}

// ---------------------------------------------------------------------------
// Outside calls
// ---------------------------------------------------------------------------

#[verifier::external_type_specification]
#[verifier::external_body]
pub struct ExValue(serde_json::Value);

/// The text that `serde_json::to_string_pretty` writes for a value.
pub uninterp spec fn pretty_json(j: JsonView) -> Seq<char>;

/// The text that `serde_json::to_string` writes for a value.
pub uninterp spec fn compact_json(j: JsonView) -> Seq<char>;

/// The text that the debug format of `serde_json::Value` gives.
pub uninterp spec fn debug_json(j: JsonView) -> Seq<char>;

/// The value that `serde_json::from_str` reads from a text, or the message of its error.
pub uninterp spec fn parsed_json(text: Seq<char>) -> Result<JsonView, Seq<char>>;

/// Whether `serde_json::Value` holds two values to be equal.
pub uninterp spec fn equal_json(a: JsonView, b: JsonView) -> bool;

/// The name by which `serde_json` marks an object that stands for text that is JSON already.
pub open spec fn raw_mark() -> Seq<char> {
    "$serde_json::private::RawValue"@
}

/// Whether a value is read as it was written: numbers are whole and in the form that fits them, no
/// name stands twice in an object, none starts with the mark of raw text, and values are nested less
/// than `depth` deep.
pub open spec fn readable(j: JsonView, depth: nat) -> bool
    decreases depth,
{
    depth > 0 && match j {
        JsonView::Signed(n) => n < 0,
        JsonView::Decimal(_) => false,
        JsonView::Array(items) => forall|i: int|
            0 <= i < items.len() ==> readable(#[trigger] items[i], (depth - 1) as nat),
        JsonView::Object(fields) => {
            &&& forall|i: int|
                0 <= i < fields.len() ==> readable((#[trigger] fields[i]).1, (depth - 1) as nat)
            &&& forall|i: int, k: int|
                0 <= i < k < fields.len() ==> (#[trigger] fields[i]).0 != (#[trigger] fields[k]).0
            &&& fields.len() > 0 ==> fields[0].0 != raw_mark()
        },
        _ => true,
    }
}

/// Whether the text of an object has its names, each once and in order.
pub open spec fn has_names(text: Seq<char>, fields: Seq<(Seq<char>, JsonView)>) -> bool {
    let names = json_text::member_names(text);
    &&& names.len() == fields.len()
    &&& forall|i: int|
        0 <= i < names.len() ==> parsed_json(#[trigger] names[i]) == read_back(
            JsonView::Text(fields[i].0),
        )
}

/// The result of reading a value that was written.
pub open spec fn read_back(j: JsonView) -> Result<JsonView, Seq<char>> {
    Ok(j)
}

/// How deep values may be nested that are sure to be read again.
pub open spec fn max_depth() -> nat {
    100
}

/// The value as a `serde_json::Value`, variant by variant. A number in decimal form is read by
/// `serde_json::Number`; one that is no number becomes null. Nothing is claimed of the result.
#[verifier::external_body]
pub(crate) fn to_value(j: &Json) -> serde_json::Value {
    match j {
        Json::Null => serde_json::Value::Null,
        Json::Bool(b) => serde_json::Value::from(*b),
        Json::Unsigned(n) => serde_json::Value::from(*n),
        Json::Signed(n) => serde_json::Value::from(*n),
        Json::Decimal(t) => t.parse().map(serde_json::Value::Number).unwrap_or_default(),
        Json::Text(t) => serde_json::Value::from(t.as_str()),
        Json::Array(items) => items.iter().map(to_value).collect(),
        Json::Object(fields) => fields.iter().map(|f| (f.0.clone(), to_value(&f.1))).collect(),
    }
}

/// A `serde_json::Value` as plain data, variant by variant. Nothing is claimed of the result.
#[verifier::external_body]
pub(crate) fn from_value(v: serde_json::Value) -> Json {
    match v {
        serde_json::Value::Null => Json::Null,
        serde_json::Value::Bool(b) => Json::Bool(b),
        serde_json::Value::Number(n) => match (n.as_u64(), n.as_i64()) {
            (Some(u), _) => Json::Unsigned(u),
            (None, Some(i)) => Json::Signed(i),
            (None, None) => Json::Decimal(n.to_string()),
        },
        serde_json::Value::String(t) => Json::Text(t),
        serde_json::Value::Array(items) => Json::Array(items.into_iter().map(from_value).collect()),
        serde_json::Value::Object(m) => Json::Object(m.into_iter().map(|f| (f.0, from_value(f.1))).collect()),
    }
}

/// `serde_json::to_string_pretty` on the value. The text is a function of the value alone; a JSON
/// value has string keys only, so the call does not fail. What is written is read again by
/// `serde_json::from_str` as it was, where the value is one of those that can be.
#[verifier::external_body]
pub(crate) fn to_string_pretty(j: &Json) -> (r: String)
    ensures
        r@ == pretty_json(j@),
        readable(j@, max_depth()) ==> parsed_json(r@) == read_back(j@),
{
    serde_json::to_string_pretty(&to_value(j)).unwrap_or_default()
}

/// `serde_json::to_string` on the value. The text is a function of the value alone; a JSON value has
/// string keys only, so the call does not fail. What is written is read again by
/// `serde_json::from_str` as it was, where the value is one of those that can be; an object among them
/// is written with each of its names once, in order, and each is read again as it was.
#[verifier::external_body]
pub(crate) fn to_string(j: &Json) -> (r: String)
    ensures
        r@ == compact_json(j@),
        readable(j@, max_depth()) ==> parsed_json(r@) == read_back(j@),
        readable(j@, max_depth()) && j@ is Object ==> has_names(r@, j@->Object_0),
{
    serde_json::to_string(&to_value(j)).unwrap_or_default()
}

/// The debug format of `serde_json::Value`. The text is a function of the value alone.
#[verifier::external_body]
pub(crate) fn to_debug(j: &Json) -> (r: String)
    ensures
        r@ == debug_json(j@),
{
    format!("{:?}", to_value(j))
}

/// The operator `==` of `serde_json::Value`. Whether two values are equal is a function of the values
/// alone; a text is equal to the same text, and to nothing else.
#[verifier::external_body]
pub(crate) fn equal(a: &Json, b: &Json) -> (r: bool)
    ensures
        r == equal_json(a@, b@),
        a@ is Text || b@ is Text ==> r == (a@ == b@),
{
    to_value(a) == to_value(b)
}

/// `serde_json::from_str` into a JSON value. Whether the text is JSON, the value, and the message of
/// the error are functions of the text alone.
#[verifier::external_body]
pub(crate) fn from_str(text: &str) -> (r: Result<Json, String>)
    ensures
        match r {
            Ok(j) => parsed_json(text@) == Ok::<JsonView, Seq<char>>(j@),
            Err(e) => parsed_json(text@) == Err::<JsonView, Seq<char>>(e@),
        },
{
    serde_json::from_str::<serde_json::Value>(text).map(from_value).map_err(|e| e.to_string())
}

// ---------------------------------------------------------------------------
// Building
// ---------------------------------------------------------------------------

/// A list of texts as a JSON value.
pub open spec fn texts_view(parts: Seq<Seq<char>>) -> JsonView {
    JsonView::Array(parts.map_values(|t: Seq<char>| JsonView::Text(t)))
}

/// A list of texts as a JSON value.
pub fn texts_value(parts: &Vec<String>) -> (r: Json)
    ensures
        r@ == texts_view(text::views(parts@)),
{
    broadcast use array_view;

    let mut out: Vec<Json> = Vec::new();
    for i in 0..parts.len()
        invariant
            out@.len() == i,
            forall|k: int| 0 <= k < i ==> (#[trigger] out@[k])@ == JsonView::Text(parts@[k]@),
    {
        out.push(Json::Text(parts[i].clone()));
    }
    assert(items_view(out@) =~= text::views(parts@).map_values(
        |t: Seq<char>| JsonView::Text(t),
    ));
    Json::Array(out)
}

/// An optional text as a JSON value: `null` where there is none.
pub open spec fn opt_text_view(t: Option<Seq<char>>) -> JsonView {
    match t {
        Some(t) => JsonView::Text(t),
        None => JsonView::Null,
    }
}

/// An optional text as a JSON value.
pub fn opt_text_value(t: &Option<String>) -> (r: Json)
    ensures
        r@ == opt_text_view(text::opt_view(*t)),
{
    match t {
        Some(t) => Json::Text(t.clone()),
        None => Json::Null,
    }
}

/// A name that stands among the fields is found.
pub proof fn has_field(fields: Seq<(Seq<char>, JsonView)>, i: int)
    requires
        0 <= i < fields.len(),
    ensures
        field(JsonView::Object(fields), fields[i].0) is Some,
{
    field_index_in_range(fields, fields[i].0);
}

/// A name that does not stand among the fields is not found.
pub proof fn no_field(fields: Seq<(Seq<char>, JsonView)>, name: Seq<char>)
    requires
        forall|i: int| 0 <= i < fields.len() ==> (#[trigger] fields[i]).0 != name,
    ensures
        field(JsonView::Object(fields), name) is None,
{
    field_index_in_range(fields, name);
}

/// The first field with a name is found under it.
pub proof fn first_field(fields: Seq<(Seq<char>, JsonView)>, i: int)
    requires
        0 <= i < fields.len(),
        forall|j: int| 0 <= j < i ==> (#[trigger] fields[j]).0 != fields[i].0,
    ensures
        field(JsonView::Object(fields), fields[i].0) == Some(fields[i].1),
    decreases fields.len(),
{
    let less = fields.drop_last();
    field_index_in_range(less, fields[i].0);
    if i < fields.len() - 1 {
        first_field(less, i);
    } else if field_index(less, fields[i].0) is Some {
        let k = field_index(less, fields[i].0)->0;
        assert(fields[k].0 == less[k].0);
    }
}

// ---------------------------------------------------------------------------
// Building objects
// ---------------------------------------------------------------------------

/// One field, or none.
pub open spec fn optional_field(name: Seq<char>, value: Option<JsonView>) -> Seq<
    (Seq<char>, JsonView),
> {
    match value {
        Some(v) => seq![(name, v)],
        None => Seq::empty(),
    }
}

/// Appends a field.
pub fn push_field(fields: &mut Vec<(String, Json)>, name: &str, value: Json)
    ensures
        fields_view(final(fields)@) == fields_view(old(fields)@).push((name@, value@)),
{
    fields.push((name.to_owned(), value));
    assert(fields_view(fields@) =~= fields_view(old(fields)@).push((name@, value@)));
}

/// Appends a field, if it has a value.
pub fn push_optional(fields: &mut Vec<(String, Json)>, name: &str, value: Option<Json>)
    ensures
        fields_view(final(fields)@) == fields_view(old(fields)@) + optional_field(
            name@,
            match value {
                Some(v) => Some(v@),
                None => None,
            },
        ),
{
    match value {
        Some(v) => {
            push_field(fields, name, v);
        },
        None => {},
    }
    assert(fields_view(fields@) =~= fields_view(old(fields)@) + optional_field(
        name@,
        match value {
            Some(v) => Some(v@),
            None => None,
        },
    ));
}

} // verus!
