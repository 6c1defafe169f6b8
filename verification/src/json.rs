//! JSON documents as plain values: what EDGAR answers, what a tool is called
//! with and what it replies.

use vstd::prelude::*;
use crate::text::{owned, same};

verus! {

/// A JSON number. An integer is kept as it is; any other number is kept as the
/// bits of the double that it denotes.
#[derive(Clone, Copy, Debug, PartialEq, Eq, Structural)]
pub enum Number {
    PosInt(u64),
    NegInt(i64),
    Float(u64),
}

/// A JSON value. An object holds its fields in the order in which the document
/// lists them.
#[derive(Debug)]
pub enum Json {
    Null,
    Bool(bool),
    Number(Number),
    Str(String),
    Array(Vec<Json>),
    Object(Vec<(String, Json)>),
}

/// What a [`Json`] holds.
#[verifier::ext_equal]
pub enum JsonView {
    Null,
    Bool(bool),
    Number(Number),
    Str(Seq<char>),
    Array(Seq<JsonView>),
    Object(Seq<(Seq<char>, JsonView)>),
}

impl View for Json {
    type V = JsonView;

    open spec fn view(&self) -> JsonView
        decreases self,
    {
        match self {
            Json::Null => JsonView::Null,
            Json::Bool(b) => JsonView::Bool(*b),
            Json::Number(n) => JsonView::Number(*n),
            Json::Str(s) => JsonView::Str(s@),
            Json::Array(items) => JsonView::Array(
                Seq::new(
                    items@.len(),
                    |i: int|
                        if 0 <= i < items@.len() {
                            items@[i].view()
                        } else {
                            JsonView::Null
                        },
                ),
            ),
            Json::Object(fields) => JsonView::Object(
                Seq::new(
                    fields@.len(),
                    |i: int|
                        if 0 <= i < fields@.len() {
                            (fields@[i].0@, fields@[i].1.view())
                        } else {
                            (Seq::empty(), JsonView::Null)
                        },
                ),
            ),
        }
    }
}

/// What a sequence of values holds.
pub open spec fn items_view(items: Seq<Json>) -> Seq<JsonView> {
    items.map_values(|item: Json| item@)
}

/// What a sequence of fields holds.
pub open spec fn fields_view(fields: Seq<(String, Json)>) -> Seq<(Seq<char>, JsonView)> {
    fields.map_values(|field: (String, Json)| (field.0@, field.1@))
}

/// The value of the first field with the given name.
pub open spec fn lookup(fields: Seq<(Seq<char>, JsonView)>, key: Seq<char>) -> Option<JsonView>
    decreases fields.len(),
{
    if fields.len() == 0 {
        None
    } else if fields[0].0 == key {
        Some(fields[0].1)
    } else {
        lookup(fields.drop_first(), key)
    }
}

/// A lookup finds the first field of its name.
pub proof fn lookup_finds(fields: Seq<(Seq<char>, JsonView)>, key: Seq<char>, i: int)
    requires
        0 <= i < fields.len(),
        fields[i].0 == key,
        forall|k: int| 0 <= k < i ==> (#[trigger] fields[k]).0 != key,
    ensures
        lookup(fields, key) == Some(fields[i].1),
    decreases i,
{
    if i > 0 {
        let rest = fields.drop_first();
        assert forall|k: int| 0 <= k < i - 1 implies (#[trigger] rest[k]).0 != key by {
            assert(rest[k] == fields[k + 1]);
        }
        assert(fields[0].0 != key);
        lookup_finds(rest, key, i - 1);
    }
}

/// A lookup finds nothing where no field has the name.
pub proof fn lookup_misses(fields: Seq<(Seq<char>, JsonView)>, key: Seq<char>)
    requires
        forall|k: int| 0 <= k < fields.len() ==> (#[trigger] fields[k]).0 != key,
    ensures
        lookup(fields, key) is None,
    decreases fields.len(),
{
    if fields.len() > 0 {
        let rest = fields.drop_first();
        assert forall|k: int| 0 <= k < rest.len() implies (#[trigger] rest[k]).0 != key by {
            assert(rest[k] == fields[k + 1]);
        }
        assert(fields[0].0 != key);
        lookup_misses(rest, key);
    }
}

/// Fields in which `key` holds `value`: in place of what it held, or as a new
/// last field.
pub open spec fn assigned(
    fields: Seq<(Seq<char>, JsonView)>,
    key: Seq<char>,
    value: JsonView,
) -> Seq<(Seq<char>, JsonView)>
    decreases fields.len(),
{
    if fields.len() == 0 {
        seq![(key, value)]
    } else if fields[0].0 == key {
        seq![(key, value)] + fields.drop_first()
    } else {
        seq![fields[0]] + assigned(fields.drop_first(), key, value)
    }
}

/// After an assignment a field holds what it was given, and every other field
/// what it held before.
pub proof fn lookup_after_assignment(
    fields: Seq<(Seq<char>, JsonView)>,
    key: Seq<char>,
    value: JsonView,
    other: Seq<char>,
)
    ensures
        lookup(assigned(fields, key, value), other) == if other == key {
            Some(value)
        } else {
            lookup(fields, other)
        },
    decreases fields.len(),
{
    let changed = assigned(fields, key, value);
    if fields.len() == 0 {
        assert(changed.drop_first() =~= Seq::empty());
        assert(changed[0] == (key, value));
        assert(lookup(changed.drop_first(), other) is None);
    } else if fields[0].0 == key {
        assert(changed[0] == (key, value));
        assert(changed.drop_first() =~= fields.drop_first());
    } else {
        let rest = assigned(fields.drop_first(), key, value);
        assert(changed[0] == fields[0]);
        assert(changed.drop_first() =~= rest);
        lookup_after_assignment(fields.drop_first(), key, value, other);
    }
}

/// Whether no two fields have the same name, as in every parsed document.
pub open spec fn names_differ(fields: Seq<(Seq<char>, JsonView)>) -> bool {
    forall|i: int, j: int|
        0 <= i < j < fields.len() ==> (#[trigger] fields[i]).0 != (#[trigger] fields[j]).0
}

impl JsonView {
    /// The value of a field; null where there is no such field or no object.
    pub open spec fn field(self, key: Seq<char>) -> JsonView {
        match self {
            JsonView::Object(fields) => match lookup(fields, key) {
                Some(value) => value,
                None => JsonView::Null,
            },
            _ => JsonView::Null,
        }
    }

    pub open spec fn as_str(self) -> Option<Seq<char>> {
        match self {
            JsonView::Str(s) => Some(s),
            _ => None,
        }
    }

    pub open spec fn as_u64(self) -> Option<u64> {
        match self {
            JsonView::Number(Number::PosInt(n)) => Some(n),
            _ => None,
        }
    }

    pub open spec fn as_bool(self) -> Option<bool> {
        match self {
            JsonView::Bool(b) => Some(b),
            _ => None,
        }
    }

    pub open spec fn as_array(self) -> Option<Seq<JsonView>> {
        match self {
            JsonView::Array(items) => Some(items),
            _ => None,
        }
    }

    pub open spec fn as_object(self) -> Option<Seq<(Seq<char>, JsonView)>> {
        match self {
            JsonView::Object(fields) => Some(fields),
            _ => None,
        }
    }
}

/// What an optional text holds.
pub open spec fn text_view(text: Option<&str>) -> Option<Seq<char>> {
    match text {
        Some(s) => Some(s@),
        None => None,
    }
}

/// What an optional string holds.
pub open spec fn string_view(text: Option<String>) -> Option<Seq<char>> {
    match text {
        Some(s) => Some(s@),
        None => None,
    }
}

/// What a result holds.
pub open spec fn outcome_view(r: Result<String, String>) -> Result<Seq<char>, Seq<char>> {
    match r {
        Ok(s) => Ok(s@),
        Err(e) => Err(e@),
    }
}

/// An optional text, or the one that takes its place.
pub open spec fn text_or(text: Option<Seq<char>>, other: Seq<char>) -> Seq<char> {
    match text {
        Some(s) => s,
        None => other,
    }
}

/// The value at a position of an optional array; null where there is none.
pub open spec fn cell_at(items: Option<Seq<JsonView>>, i: int) -> JsonView {
    match items {
        Some(a) => if 0 <= i < a.len() {
            a[i]
        } else {
            JsonView::Null
        },
        None => JsonView::Null,
    }
}

/// An array holds what its items hold.
pub proof fn array_holds_items(items: Vec<Json>)
    ensures
        Json::Array(items)@ == JsonView::Array(items_view(items@)),
{
    reveal_with_fuel(<Json as View>::view, 2);
    assert(Json::Array(items)@->Array_0 =~= items_view(items@));
}

/// An object holds what its fields hold.
pub proof fn object_holds_fields(fields: Vec<(String, Json)>)
    ensures
        Json::Object(fields)@ == JsonView::Object(fields_view(fields@)),
{
    reveal_with_fuel(<Json as View>::view, 2);
    assert(Json::Object(fields)@->Object_0 =~= fields_view(fields@));
}

impl Clone for Json {
    /// A copy that holds the same.
    fn clone(&self) -> (r: Self)
        ensures
            r@ == self@,
        decreases self,
    {
        match self {
            Json::Null => Json::Null,
            Json::Bool(b) => Json::Bool(*b),
            Json::Number(n) => Json::Number(*n),
            Json::Str(s) => Json::Str(s.clone()),
            Json::Array(items) => {
                let mut copy: Vec<Json> = Vec::new();
                let mut i: usize = 0;
                while i < items.len()
                    invariant
                        i <= items@.len(),
                        *self matches Json::Array(v) && v == *items,
                        copy@.len() == i,
                        forall|k: int| 0 <= k < i ==> (#[trigger] copy@[k])@ == items@[k]@,
                    decreases items@.len() - i,
                {
                    let item = items[i].clone();
                    copy.push(item);
                    i += 1;
                }
                proof {
                    array_holds_items(copy);
                    array_holds_items(*items);
                }
                assert(items_view(copy@) =~= items_view(items@));
                Json::Array(copy)
            },
            Json::Object(fields) => {
                let mut copy: Vec<(String, Json)> = Vec::new();
                let mut i: usize = 0;
                while i < fields.len()
                    invariant
                        i <= fields@.len(),
                        *self matches Json::Object(v) && v == *fields,
                        copy@.len() == i,
                        forall|k: int|
                            0 <= k < i ==> (#[trigger] copy@[k]).0@ == fields@[k].0@
                                && copy@[k].1@ == fields@[k].1@,
                    decreases fields@.len() - i,
                {
                    let value = fields[i].1.clone();
                    copy.push((fields[i].0.clone(), value));
                    i += 1;
                }
                proof {
                    object_holds_fields(copy);
                    object_holds_fields(*fields);
                }
                assert(fields_view(copy@) =~= fields_view(fields@));
                Json::Object(copy)
            },
        }
    }
}

impl Json {
    /// A string value.
    pub fn string(text: &str) -> (r: Json)
        ensures
            r@ == JsonView::Str(text@),
    {
        Json::Str(owned(text))
    }

    /// An array of the given values.
    pub fn array(items: Vec<Json>) -> (r: Json)
        ensures
            r@ == JsonView::Array(items_view(items@)),
    {
        proof {
            array_holds_items(items);
        }
        Json::Array(items)
    }

    /// An object with the given fields.
    pub fn object(fields: Vec<(String, Json)>) -> (r: Json)
        ensures
            r@ == JsonView::Object(fields_view(fields@)),
    {
        proof {
            object_holds_fields(fields);
        }
        Json::Object(fields)
    }

    /// The value of a field, where there is one.
    pub fn get(&self, key: &str) -> (r: Option<&Json>)
        ensures
            r matches Some(v) ==> v@ == self@.field(key@) && self@.as_object() is Some && lookup(
                self@.as_object()->0,
                key@,
            ) == Some(v@),
            r is None ==> self@.field(key@) == JsonView::Null,
            r is Some <==> self@.as_object() is Some && lookup(self@.as_object()->0, key@) is Some,
    {
        match self {
            Json::Object(fields) => {
                proof {
                    object_holds_fields(*fields);
                }
                find(fields, key)
            },
            _ => None,
        }
    }

    /// The text of a string.
    pub fn as_str(&self) -> (r: Option<&str>)
        ensures
            text_view(r) == self@.as_str(),
    {
        match self {
            Json::Str(s) => Some(s.as_str()),
            _ => None,
        }
    }

    /// The items of an array.
    pub fn as_array(&self) -> (r: Option<&Vec<Json>>)
        ensures
            r is Some <==> self@.as_array() is Some,
            r matches Some(items) ==> items_view(items@) == self@.as_array()->0,
    {
        match self {
            Json::Array(items) => {
                proof {
                    array_holds_items(*items);
                }
                Some(items)
            },
            _ => None,
        }
    }

    /// The fields of an object.
    pub fn as_object(&self) -> (r: Option<&Vec<(String, Json)>>)
        ensures
            r is Some <==> self@.as_object() is Some,
            r matches Some(fields) ==> fields_view(fields@) == self@.as_object()->0,
    {
        match self {
            Json::Object(fields) => {
                proof {
                    object_holds_fields(*fields);
                }
                Some(fields)
            },
            _ => None,
        }
    }

    /// The text of a field that holds a string.
    pub fn str_field(&self, key: &str) -> (r: Option<&str>)
        ensures
            text_view(r) == self@.field(key@).as_str(),
    {
        match self.get(key) {
            Some(v) => v.as_str(),
            None => None,
        }
    }

    /// The number in a field that holds a non-negative integer.
    pub fn u64_field(&self, key: &str) -> (r: Option<u64>)
        ensures
            r == self@.field(key@).as_u64(),
    {
        match self.get(key) {
            Some(Json::Number(Number::PosInt(n))) => Some(*n),
            _ => None,
        }
    }

    /// The truth value in a field that holds one.
    pub fn bool_field(&self, key: &str) -> (r: Option<bool>)
        ensures
            r == self@.field(key@).as_bool(),
    {
        match self.get(key) {
            Some(Json::Bool(b)) => Some(*b),
            _ => None,
        }
    }

    /// The items of a field that holds an array.
    pub fn array_field(&self, key: &str) -> (r: Option<&Vec<Json>>)
        ensures
            r is Some <==> self@.field(key@).as_array() is Some,
            r matches Some(items) ==> items_view(items@) == self@.field(key@).as_array()->0,
    {
        match self.get(key) {
            Some(v) => v.as_array(),
            None => None,
        }
    }

    /// A copy of what a field holds; null where there is no such field.
    pub fn field_copy(&self, key: &str) -> (r: Json)
        ensures
            r@ == self@.field(key@),
    {
        match self.get(key) {
            Some(v) => v.clone(),
            None => Json::Null,
        }
    }
}

/// The value of the first field with the given name.
pub fn find<'a>(fields: &'a Vec<(String, Json)>, key: &str) -> (r: Option<&'a Json>)
    ensures
        r is Some <==> lookup(fields_view(fields@), key@) is Some,
        r matches Some(v) ==> lookup(fields_view(fields@), key@) == Some(v@),
{
    let ghost all = fields_view(fields@);
    let mut i: usize = 0;
    assert(all.skip(0) == all);
    while i < fields.len()
        invariant
            i <= fields@.len(),
            all == fields_view(fields@),
            lookup(all, key@) == lookup(all.skip(i as int), key@),
        decreases fields@.len() - i,
    {
        assert(all.skip(i as int)[0] == all[i as int]);
        if same(fields[i].0.as_str(), key) {
            return Some(&fields[i].1);
        }
        assert(all.skip(i as int).drop_first() == all.skip(i + 1));
        i += 1;
    }
    None
}

/// Adds a field at the end.
pub fn put(fields: &mut Vec<(String, Json)>, key: &str, value: Json)
    ensures
        fields_view(final(fields)@) == fields_view(old(fields)@).push((key@, value@)),
{
    fields.push((owned(key), value));
    assert(fields_view(fields@) =~= fields_view(old(fields)@).push((key@, value@)));
}

/// A copy of the value at a position of an optional array; null where there is
/// none.
pub fn cell_copy(items: Option<&Vec<Json>>, i: usize) -> (r: Json)
    ensures
        r@ == match items {
            Some(a) => cell_at(Some(items_view(a@)), i as int),
            None => JsonView::Null,
        },
{
    match items {
        Some(a) => if i < a.len() {
            a[i].clone()
        } else {
            Json::Null
        },
        None => Json::Null,
    }
}

/// A copy of a vector of values.
pub fn items_copy(items: &Vec<Json>) -> (r: Vec<Json>)
    ensures
        items_view(r@) == items_view(items@),
{
    let mut r: Vec<Json> = Vec::new();
    let mut i: usize = 0;
    while i < items.len()
        invariant
            i <= items@.len(),
            r@.len() == i,
            forall|k: int| 0 <= k < i ==> (#[trigger] r@[k])@ == items@[k]@,
        decreases items@.len() - i,
    {
        r.push(items[i].clone());
        i += 1;
    }
    assert(items_view(r@) =~= items_view(items@));
    r
}

/// A field of an object holds what stands under its name first, and null where
/// nothing stands there.
pub proof fn fields_are_read_by_name(fields: Seq<(Seq<char>, JsonView)>, key: Seq<char>, i: int)
    ensures
        0 <= i < fields.len() && fields[i].0 == key && (forall|k: int|
            0 <= k < i ==> (#[trigger] fields[k]).0 != key) ==> JsonView::Object(fields).field(key)
            == fields[i].1,
        (forall|k: int| 0 <= k < fields.len() ==> (#[trigger] fields[k]).0 != key)
            ==> JsonView::Object(fields).field(key) == JsonView::Null,
{
    if 0 <= i < fields.len() && fields[i].0 == key && (forall|k: int|
        0 <= k < i ==> (#[trigger] fields[k]).0 != key) {
        lookup_finds(fields, key, i);
    }
    if forall|k: int| 0 <= k < fields.len() ==> (#[trigger] fields[k]).0 != key {
        lookup_misses(fields, key);
    }
}

/// Each kind of value is read as that kind and as no other. A number is read as
/// an unsigned integer exactly where it is one.
pub proof fn values_are_read_by_kind(
    v: JsonView,
    s: Seq<char>,
    n: u64,
    b: bool,
    items: Seq<JsonView>,
    fields: Seq<(Seq<char>, JsonView)>,
    key: Seq<char>,
)
    ensures
        v.as_str() == Some(s) <==> v == JsonView::Str(s),
        v.as_u64() == Some(n) <==> v == JsonView::Number(Number::PosInt(n)),
        v.as_bool() == Some(b) <==> v == JsonView::Bool(b),
        v.as_array() == Some(items) <==> v == JsonView::Array(items),
        v.as_object() == Some(fields) <==> v == JsonView::Object(fields),
        v !is Object ==> v.field(key) == JsonView::Null,
{
}

/// A cell is what stands at its position, and null beyond the end or where
/// there is no array; a text that is missing is replaced by the other one.
pub proof fn missing_values_are_replaced(
    items: Seq<JsonView>,
    i: int,
    text: Seq<char>,
    other: Seq<char>,
)
    ensures
        0 <= i < items.len() ==> cell_at(Some(items), i) == items[i],
        i >= items.len() ==> cell_at(Some(items), i) == JsonView::Null,
        cell_at(None, i) == JsonView::Null,
        text_or(Some(text), other) == text,
        text_or(None, other) == other,
{
}

/// What stands at a position of a value that is to be an array; null where it
/// is none or too short.
pub open spec fn item_of(v: JsonView, i: int) -> JsonView {
    match v {
        JsonView::Array(items) => if 0 <= i < items.len() {
            items[i]
        } else {
            JsonView::Null
        },
        _ => JsonView::Null,
    }
}

/// The text of a value that is to be a string; empty where it is none.
pub open spec fn text_in(v: JsonView) -> Seq<char> {
    match v {
        JsonView::Str(s) => s,
        _ => Seq::empty(),
    }
}

/// A value holds what it is made of, and sequences of values, of fields and of
/// optional texts are viewed item by item.
pub proof fn values_hold_what_they_are_made_of(
    b: bool,
    n: Number,
    s: String,
    items: Vec<Json>,
    fields: Vec<(String, Json)>,
    i: int,
)
    ensures
        Json::Null@ == JsonView::Null,
        Json::Bool(b)@ == JsonView::Bool(b),
        Json::Number(n)@ == JsonView::Number(n),
        Json::Str(s)@ == JsonView::Str(s@),
        Json::Array(items)@ == JsonView::Array(items_view(items@)),
        Json::Object(fields)@ == JsonView::Object(fields_view(fields@)),
        items_view(items@).len() == items@.len(),
        0 <= i < items@.len() ==> items_view(items@)[i] == items@[i]@,
        fields_view(fields@).len() == fields@.len(),
        0 <= i < fields@.len() ==> fields_view(fields@)[i] == (fields@[i].0@, fields@[i].1@),
        string_view(Some(s)) == Some(s@),
        string_view(None) is None,
        text_view(None) is None,
        outcome_view(Ok(s)) == Ok::<_, Seq<char>>(s@),
        outcome_view(Err(s)) == Err::<Seq<char>, _>(s@),
{
    array_holds_items(items);
    object_holds_fields(fields);
}

} // verus!
