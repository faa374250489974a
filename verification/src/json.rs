//! JSON documents as plain values, read and written by `serde_json`.
//!
//! What is claimed of `serde_json` holds of it with its default features: a
//! number is not kept as text, and an object keeps its members in the order of
//! their keys.

use vstd::prelude::*;

verus! {

/// A JSON number as `serde_json` keeps it: a natural number, a negative
/// integer, or the bits of an IEEE 754 double.
#[derive(Clone, Copy, Debug, PartialEq, Eq, Structural)]
pub enum JsonNumber {
    Unsigned(u64),
    Negative(i64),
    Double(u64),
}

/// A number that stands in a document that was read: a negative integer is
/// less than zero, and a double is finite, for its eleven exponent bits are
/// not all ones.
pub open spec fn is_sound_number(n: JsonNumber) -> bool {
    match n {
        JsonNumber::Unsigned(_) => true,
        JsonNumber::Negative(i) => i < 0,
        JsonNumber::Double(bits) => bits as int / 0x10_0000_0000_0000 % 0x800 != 0x7ff,
    }
}

/// Every number in a document, at any depth, is one that can be read.
pub open spec fn has_sound_numbers(contents: JsonView) -> bool
    decreases contents,
{
    match contents {
        JsonView::Number(n) => is_sound_number(n),
        JsonView::Array(items) => forall|i: int|
            0 <= i < items.len() ==> has_sound_numbers(#[trigger] items[i]),
        JsonView::Object(members) => {
            &&& members.dom().finite()
            &&& forall|key: Seq<char>| #[trigger]
                members.contains_key(key) ==> has_sound_numbers(members[key])
        },
        _ => true,
    }
}

/// What a JSON document says.
pub ghost enum JsonView {
    Null,
    Bool(bool),
    Number(JsonNumber),
    Text(Seq<char>),
    Array(Seq<JsonView>),
    Object(Map<Seq<char>, JsonView>),
}

/// A JSON document. An object lists its members; of two members with one key
/// the later counts.
#[derive(Debug)]
pub enum Json {
    Null,
    Bool(bool),
    Number(JsonNumber),
    Text(String),
    Array(Vec<Json>),
    Object(Vec<(String, Json)>),
}

impl JsonView {
    /// The member `key`, where this is an object that has one.
    pub open spec fn member(self, key: Seq<char>) -> Option<JsonView> {
        match self {
            JsonView::Object(members) => if members.contains_key(key) {
                Some(members[key])
            } else {
                None
            },
            _ => None,
        }
    }
}

impl View for Json {
    type V = JsonView;

    open spec fn view(&self) -> JsonView {
        said(*self)
    }
}

/// What the document `json` says.
pub open spec fn said(json: Json) -> JsonView
    decreases json,
{
    match json {
        Json::Null => JsonView::Null,
        Json::Bool(b) => JsonView::Bool(b),
        Json::Number(n) => JsonView::Number(n),
        Json::Text(s) => JsonView::Text(s@),
        Json::Array(items) => JsonView::Array(items_said(items@)),
        Json::Object(members) => JsonView::Object(members_said(members@)),
    }
}

/// What each of `items` says, in order.
pub open spec fn items_said(items: Seq<Json>) -> Seq<JsonView>
    decreases items,
{
    if items.len() == 0 {
        Seq::empty()
    } else {
        items_said(items.drop_last()).push(said(items.last()))
    }
}

/// What each key of `members` stands for, by the last member that has it.
pub open spec fn members_said(members: Seq<(String, Json)>) -> Map<Seq<char>, JsonView>
    decreases members,
{
    if members.len() == 0 {
        Map::empty()
    } else {
        members_said(members.drop_last()).insert(members.last().0@, said(members.last().1))
    }
}

/// A `serde_json` value. It is opaque here: [`json_contents`] names what it
/// says, and [`open_value`] hands that out one level at a time.
#[verifier::external_type_specification]
#[verifier::external_body]
pub struct ExValue(serde_json::Value);

/// What a `serde_json` value says.
pub uninterp spec fn json_contents(value: serde_json::Value) -> JsonView;

/// What comes of reading a text: what it says, or the words of an error.
pub ghost enum JsonReading {
    Value(JsonView),
    Error(Seq<char>),
}

/// What `serde_json` reads in a text.
pub uninterp spec fn json_read(text: Seq<char>) -> JsonReading;

/// One level of a `serde_json` value.
pub enum JsonLevel<'a> {
    Null,
    Bool(bool),
    Number(JsonNumber),
    Text(&'a str),
    Array(&'a Vec<serde_json::Value>),
    Object(Vec<(&'a String, &'a serde_json::Value)>),
}

/// `level` is the outermost level of `contents`: a leaf is the leaf itself, the
/// elements of an array stand in their order, and each member of an object
/// stands once. A number is a sound one.
pub open spec fn is_level_of(level: JsonLevel<'_>, contents: JsonView) -> bool {
    match contents {
        JsonView::Null => level is Null,
        JsonView::Bool(b) => level matches JsonLevel::Bool(c) && b == c,
        JsonView::Number(n) => level matches JsonLevel::Number(m) && n == m && is_sound_number(m),
        JsonView::Text(s) => level matches JsonLevel::Text(t) && s == t@,
        JsonView::Array(items) => {
            &&& level matches JsonLevel::Array(values)
            &&& values@.len() == items.len()
            &&& forall|i: int|
                0 <= i < items.len() ==> json_contents(#[trigger] values@[i]) == items[i]
        },
        JsonView::Object(members) => {
            &&& level matches JsonLevel::Object(fields)
            &&& forall|i: int, j: int|
                0 <= i < j < fields@.len() ==> (#[trigger] fields@[i]).0@ != (
                #[trigger] fields@[j]).0@
            &&& forall|i: int|
                0 <= i < fields@.len() ==> members.contains_key((#[trigger] fields@[i]).0@)
                    && members[fields@[i].0@] == json_contents(*fields@[i].1)
            &&& forall|key: Seq<char>| #[trigger]
                members.contains_key(key) ==> exists|i: int|
                    0 <= i < fields@.len() && (#[trigger] fields@[i]).0@ == key
        },
    }
}

/// Reads a text with `serde_json::from_str`. What comes back, the value or the
/// error, rests on the text alone; the error is handed on as its own words.
#[verifier::external_body]
fn read_value(text: &str) -> (r: Result<serde_json::Value, String>)
    ensures
        match r {
            Ok(value) => json_read(text@) == JsonReading::Value(json_contents(value)),
            Err(words) => json_read(text@) == JsonReading::Error(words@),
        },
{
    serde_json::from_str(text).map_err(|error: serde_json::Error| error.to_string())
}

/// Takes one level off a `serde_json::Value`, variant by variant. A number is
/// one of the three kinds that `serde_json::Number` holds: `as_u64` answers
/// for a natural number alone, `as_i64` then for a negative one, and a double
/// is handed on as its bits. `serde_json::Number` holds no negative integer
/// that is not less than zero, and no double that is not finite.
#[verifier::external_body]
fn open_value(value: &serde_json::Value) -> (level: JsonLevel<'_>)
    ensures
        is_level_of(level, json_contents(*value)),
{
    match value {
        serde_json::Value::Null => JsonLevel::Null,
        serde_json::Value::Bool(b) => JsonLevel::Bool(*b),
        serde_json::Value::Number(n) => JsonLevel::Number(match (n.as_u64(), n.as_i64()) {
            (Some(natural), _) => JsonNumber::Unsigned(natural),
            (None, Some(negative)) => JsonNumber::Negative(negative),
            (None, None) => JsonNumber::Double(n.as_f64().unwrap().to_bits()),
        }),
        serde_json::Value::String(s) => JsonLevel::Text(s),
        serde_json::Value::Array(items) => JsonLevel::Array(items),
        serde_json::Value::Object(members) => JsonLevel::Object(members.iter().collect()),
    }
}

proof fn members_have_finitely_many_keys(
    fields: Seq<(&String, &serde_json::Value)>,
    members: Map<Seq<char>, JsonView>,
)
    requires
        forall|key: Seq<char>| #[trigger]
            members.contains_key(key) ==> exists|i: int|
                0 <= i < fields.len() && (#[trigger] fields[i]).0@ == key,
    ensures
        members.dom().finite(),
{
    let keys = fields.map_values(|field: (&String, &serde_json::Value)| field.0@);
    assert forall|key: Seq<char>| members.dom().contains(key) implies keys.to_set().contains(
        key,
    ) by {
        assert(members.contains_key(key));
        let i = choose|i: int| 0 <= i < fields.len() && (#[trigger] fields[i]).0@ == key;
        assert(keys[i] == key);
    }
    vstd::seq_lib::seq_to_set_is_finite(keys);
    vstd::set_lib::lemma_len_subset(members.dom(), keys.to_set());
}

/// The document that a `serde_json` value is.
fn to_json(value: &serde_json::Value) -> (json: Json)
    ensures
        json@ == json_contents(*value),
        has_sound_numbers(json@),
    decreases json_contents(*value),
{
    match open_value(value) {
        JsonLevel::Null => Json::Null,
        JsonLevel::Bool(b) => Json::Bool(b),
        JsonLevel::Number(n) => Json::Number(n),
        JsonLevel::Text(s) => Json::Text(s.to_owned()),
        JsonLevel::Array(values) => {
            let ghost contents = json_contents(*value)->Array_0;
            let mut items: Vec<Json> = Vec::new();
            let mut i: usize = 0;
            while i < values.len()
                invariant
                    i <= values@.len() == contents.len(),
                    json_contents(*value) == JsonView::Array(contents),
                    forall|k: int|
                        0 <= k < contents.len() ==> json_contents(#[trigger] values@[k])
                            == contents[k],
                    items_said(items@) == contents.take(i as int),
                    forall|k: int| 0 <= k < i ==> has_sound_numbers(#[trigger] contents[k]),
                decreases values@.len() - i,
            {
                proof {
                    let whole = json_contents(*value);
                    assert(decreases_to!(whole => whole->Array_0));
                    assert(decreases_to!(contents => contents[i as int]));
                    assert(json_contents(values@[i as int]) == contents[i as int]);
                }
                let item = to_json(&values[i]);
                let ghost before = items@;
                items.push(item);
                assert(items@.drop_last() == before);
                assert(contents.take(i + 1) == contents.take(i as int).push(contents[i as int]));
                i = i + 1;
            }
            assert(contents.take(i as int) == contents);
            Json::Array(items)
        },
        JsonLevel::Object(fields) => {
            let ghost contents = json_contents(*value)->Object_0;
            proof {
                members_have_finitely_many_keys(fields@, contents);
            }
            let mut members: Vec<(String, Json)> = Vec::new();
            let mut i: usize = 0;
            while i < fields.len()
                invariant
                    i <= fields@.len(),
                    json_contents(*value) == JsonView::Object(contents),
                    contents.dom().finite(),
                    forall|k: int|
                        0 <= k < fields@.len() ==> contents.contains_key(
                            (#[trigger] fields@[k]).0@,
                        ) && contents[fields@[k].0@] == json_contents(*fields@[k].1),
                    forall|key: Seq<char>| #[trigger]
                        members_said(members@).contains_key(key) <==> exists|k: int|
                            0 <= k < i && (#[trigger] fields@[k]).0@ == key,
                    forall|key: Seq<char>| #[trigger]
                        members_said(members@).contains_key(key) ==> contents.contains_key(key)
                            && members_said(members@)[key] == contents[key],
                    forall|k: int|
                        0 <= k < i ==> has_sound_numbers(contents[(#[trigger] fields@[k]).0@]),
                decreases fields@.len() - i,
            {
                let field = fields[i];
                proof {
                    let key = fields@[i as int].0@;
                    let whole = json_contents(*value);
                    assert(contents.contains_key(key));
                    assert(decreases_to!(whole => whole->Object_0));
                    assert(decreases_to!(contents => contents[key]));
                }
                let member = to_json(field.1);
                let ghost before = members@;
                members.push((field.0.clone(), member));
                proof {
                    assert(members@.drop_last() == before);
                    assert forall|key: Seq<char>| #[trigger]
                        members_said(members@).contains_key(key) <==> exists|k: int|
                            0 <= k < i + 1 && (#[trigger] fields@[k]).0@ == key by {
                        if key == fields@[i as int].0@ {
                            assert(members_said(members@).contains_key(key));
                        } else {
                            assert(members_said(members@).contains_key(key) == members_said(
                                before,
                            ).contains_key(key));
                        }
                    }
                    assert forall|key: Seq<char>| #[trigger]
                        members_said(members@).contains_key(key) implies contents.contains_key(key)
                        && members_said(members@)[key] == contents[key] by {
                        if key != fields@[i as int].0@ {
                            assert(members_said(before).contains_key(key));
                        }
                    }
                }
                i = i + 1;
            }
            assert(members_said(members@) =~= contents);
            Json::Object(members)
        },
    }
}

/// Reads a text as a JSON document. Every number in it is finite.
pub fn read_json(text: &str) -> (r: Result<Json, String>)
    ensures
        match r {
            Ok(json) => json_read(text@) == JsonReading::Value(json@) && has_sound_numbers(
                json@,
            ),
            Err(words) => json_read(text@) == JsonReading::Error(words@),
        },
{
    match read_value(text) {
        Ok(value) => Ok(to_json(&value)),
        Err(words) => Err(words),
    }
}

/// What an array says is what each of its elements says, in order.
pub proof fn items_said_each(items: Seq<Json>)
    ensures
        items_said(items).len() == items.len(),
        forall|i: int| 0 <= i < items.len() ==> #[trigger] items_said(items)[i] == items[i]@,
    decreases items.len(),
{
    if items.len() > 0 {
        items_said_each(items.drop_last());
    }
}

impl Json {
    /// The member `key`, where this is an object that has one.
    pub fn member(&self, key: &str) -> (r: Option<&Json>)
        ensures
            match r {
                Some(json) => self@.member(key@) == Some(json@),
                None => self@.member(key@) is None,
            },
    {
        match self {
            Json::Object(members) => {
                let wanted = key.to_owned();
                let mut i = members.len();
                assert(members@.take(i as int) == members@);
                while 0 < i
                    invariant
                        i <= members@.len(),
                        wanted@ == key@,
                        *self == Json::Object(*members),
                        JsonView::Object(members_said(members@)).member(key@) == JsonView::Object(
                            members_said(members@.take(i as int)),
                        ).member(key@),
                    decreases i,
                {
                    assert(members@.take(i as int).drop_last() == members@.take(i - 1));
                    if members[i - 1].0 == wanted {
                        return Some(&members[i - 1].1);
                    }
                    i = i - 1;
                }
                None
            },
            _ => None,
        }
    }

    /// The elements, where this is an array.
    pub fn elements(&self) -> (r: Option<&Vec<Json>>)
        ensures
            match r {
                Some(items) => {
                    &&& self@ matches JsonView::Array(views)
                    &&& views.len() == items@.len()
                    &&& forall|i: int| 0 <= i < items@.len() ==> views[i] == (#[trigger] items@[i])@
                },
                None => !(self@ is Array),
            },
    {
        match self {
            Json::Array(items) => {
                proof {
                    items_said_each(items@);
                }
                Some(items)
            },
            _ => None,
        }
    }
}

/// A leaf of a record: a member that is neither an array nor an object.
#[derive(Debug)]
pub enum Leaf {
    Null,
    Text(String),
    Unsigned(u64),
}

impl View for Leaf {
    type V = JsonView;

    open spec fn view(&self) -> JsonView {
        match *self {
            Leaf::Null => JsonView::Null,
            Leaf::Text(s) => JsonView::Text(s@),
            Leaf::Unsigned(n) => JsonView::Number(JsonNumber::Unsigned(n)),
        }
    }
}

/// `contents` is a record: an object of which every member is null, a text or
/// a natural number.
pub open spec fn is_record(contents: JsonView) -> bool {
    &&& contents matches JsonView::Object(members)
    &&& members.dom().finite()
    &&& forall|key: Seq<char>| #[trigger]
        members.contains_key(key) ==> match members[key] {
            JsonView::Null => true,
            JsonView::Text(_) => true,
            JsonView::Number(n) => n is Unsigned,
            _ => false,
        }
}

/// No key stands in `members` twice.
pub open spec fn distinct_keys<T>(members: Seq<(String, T)>) -> bool {
    forall|i: int, j: int|
        0 <= i < j < members.len() ==> (#[trigger] members[i]).0@ != (#[trigger] members[j]).0@
}

/// The members of the record that `members` lists.
pub open spec fn record_members(members: Seq<(String, Leaf)>) -> Map<Seq<char>, JsonView>
    decreases members.len(),
{
    if members.len() == 0 {
        Map::empty()
    } else {
        record_members(members.drop_last()).insert(members.last().0@, members.last().1@)
    }
}

/// The members of the object that `members` lists.
pub open spec fn object_members(members: Seq<(String, serde_json::Value)>) -> Map<
    Seq<char>,
    JsonView,
>
    decreases members.len(),
{
    if members.len() == 0 {
        Map::empty()
    } else {
        object_members(members.drop_last()).insert(
            members.last().0@,
            json_contents(members.last().1),
        )
    }
}

/// The text that `serde_json` writes for a value.
pub uninterp spec fn json_written(contents: JsonView) -> Seq<char>;

/// `serde_json::Value::from` on an optional text: the text itself, or null.
#[verifier::external_body]
fn text_value(text: Option<String>) -> (value: serde_json::Value)
    ensures
        json_contents(value) == match text {
            Some(s) => JsonView::Text(s@),
            None => JsonView::Null,
        },
{
    serde_json::Value::from(text)
}

/// `serde_json::Value::from` on a natural number: that number.
#[verifier::external_body]
fn number_value(n: u64) -> (value: serde_json::Value)
    ensures
        json_contents(value) == JsonView::Number(JsonNumber::Unsigned(n)),
{
    serde_json::Value::from(n)
}

/// `serde_json::Value::from_iter` on key and value pairs: the object that has
/// each pair as a member. Where two pairs share a key, nothing is claimed.
#[verifier::external_body]
fn object_value(members: Vec<(String, serde_json::Value)>) -> (value: serde_json::Value)
    requires
        distinct_keys(members@),
    ensures
        json_contents(value) == JsonView::Object(object_members(members@)),
{
    serde_json::Value::from_iter(members)
}

/// Writes a `serde_json::Value` with its `Display`, the compact form. The text
/// rests on what the value says alone, for an object keeps its members in the
/// order of their keys. Reading the text of a record with
/// `serde_json::from_str` gives the record back; of other values that is left
/// unsaid, for a double may come back changed and a deep value is refused.
#[verifier::external_body]
fn value_text(value: &serde_json::Value) -> (text: String)
    ensures
        text@ == json_written(json_contents(*value)),
        is_record(json_contents(*value)) ==> json_read(text@) == JsonReading::Value(
            json_contents(*value),
        ),
{
    value.to_string()
}

proof fn listed_members_are_a_record(members: Seq<(String, Leaf)>)
    ensures
        is_record(JsonView::Object(record_members(members))),
    decreases members.len(),
{
    if members.len() > 0 {
        listed_members_are_a_record(members.drop_last());
    }
}

/// Writes the record that `members` lists. Reading the text gives the record
/// back.
pub fn write_record(members: Vec<(String, Leaf)>) -> (text: String)
    requires
        distinct_keys(members@),
    ensures
        text@ == json_written(JsonView::Object(record_members(members@))),
        json_read(text@) == JsonReading::Value(JsonView::Object(record_members(members@))),
{
    let mut values: Vec<(String, serde_json::Value)> = Vec::new();
    let mut i: usize = 0;
    while i < members.len()
        invariant
            i == values@.len() <= members@.len(),
            forall|k: int| 0 <= k < i ==> (#[trigger] values@[k]).0@ == members@[k].0@,
            object_members(values@) == record_members(members@.take(i as int)),
        decreases members@.len() - i,
    {
        let value = match &members[i].1 {
            Leaf::Null => text_value(None),
            Leaf::Text(s) => text_value(Some(s.clone())),
            Leaf::Unsigned(n) => number_value(*n),
        };
        let ghost before = values@;
        values.push((members[i].0.clone(), value));
        assert(values@.drop_last() == before);
        assert(members@.take(i + 1).drop_last() == members@.take(i as int));
        i = i + 1;
    }
    proof {
        assert(members@.take(i as int) == members@);
        listed_members_are_a_record(members@);
        assert forall|j: int, k: int| 0 <= j < k < values@.len() implies (
        #[trigger] values@[j]).0@ != (#[trigger] values@[k]).0@ by {
            assert(members@[j].0@ != members@[k].0@);
        }
    }
    value_text(&object_value(values))
}

/// A leaf of a document says itself: nothing is cut, rounded or turned round.
pub proof fn leaves_say_themselves(b: bool, n: JsonNumber, s: String)
    ensures
        Json::Null@ == JsonView::Null,
        Json::Bool(b)@ == JsonView::Bool(b),
        Json::Number(n)@ == JsonView::Number(n),
        Json::Text(s)@ == JsonView::Text(s@),
        Leaf::Null@ == JsonView::Null,
        Leaf::Text(s)@ == JsonView::Text(s@),
        forall|u: u64| #[trigger]
            Leaf::Unsigned(u)@ == JsonView::Number(JsonNumber::Unsigned(u)),
{
}

/// An array says one thing for each of its elements, in their order.
pub proof fn arrays_say_every_element(items: Vec<Json>)
    ensures
        Json::Array(items)@ matches JsonView::Array(views) && views.len() == items@.len() && forall|
            i: int,
        |
            0 <= i < items@.len() ==> #[trigger] views[i] == items@[i]@,
{
    items_said_each(items@);
}

proof fn members_said_by_the_last(members: Seq<(String, Json)>, key: Seq<char>, at: int)
    requires
        0 <= at < members.len(),
        members[at].0@ == key,
        forall|k: int| at < k < members.len() ==> (#[trigger] members[k]).0@ != key,
    ensures
        members_said(members).contains_key(key),
        members_said(members)[key] == members[at].1@,
    decreases members.len(),
{
    if at < members.len() - 1 {
        assert(members[members.len() - 1].0@ != key);
        members_said_by_the_last(members.drop_last(), key, at);
    }
}

proof fn members_said_of_no_member(members: Seq<(String, Json)>, key: Seq<char>)
    requires
        forall|k: int| 0 <= k < members.len() ==> (#[trigger] members[k]).0@ != key,
    ensures
        !members_said(members).contains_key(key),
    decreases members.len(),
{
    if members.len() > 0 {
        assert(members[members.len() - 1].0@ != key);
        members_said_of_no_member(members.drop_last(), key);
    }
}

/// The member `key` of an object is the last one that is listed under that
/// very key, wherever it stands in the list.
pub proof fn objects_say_every_member(members: Vec<(String, Json)>, key: Seq<char>, at: int)
    requires
        0 <= at < members@.len(),
        members@[at].0@ == key,
        forall|k: int| at < k < members@.len() ==> (#[trigger] members@[k]).0@ != key,
    ensures
        Json::Object(members)@.member(key) == Some(members@[at].1@),
{
    members_said_by_the_last(members@, key, at);
}

/// An object has no member under a key that it does not list.
pub proof fn objects_say_no_other_member(members: Vec<(String, Json)>, key: Seq<char>)
    requires
        forall|k: int| 0 <= k < members@.len() ==> (#[trigger] members@[k]).0@ != key,
    ensures
        Json::Object(members)@.member(key) is None,
{
    members_said_of_no_member(members@, key);
}

/// Members are looked up in objects alone, and by their whole key.
pub proof fn members_are_those_of_objects(members: Map<Seq<char>, JsonView>, key: Seq<char>)
    ensures
        members.dom().contains(key) ==> JsonView::Object(members).member(key) == Some(members[key]),
        !members.dom().contains(key) ==> JsonView::Object(members).member(key) is None,
        forall|other: JsonView|
            !(other is Object) ==> (#[trigger] other.member(key)) is None,
{
}

proof fn record_members_by_key(members: Seq<(String, Leaf)>)
    requires
        distinct_keys(members),
    ensures
        forall|i: int|
            0 <= i < members.len() ==> record_members(members).contains_key(
                (#[trigger] members[i]).0@,
            ) && record_members(members)[members[i].0@] == members[i].1@,
        forall|key: Seq<char>| #[trigger]
            record_members(members).contains_key(key) ==> exists|i: int|
                0 <= i < members.len() && (#[trigger] members[i]).0@ == key,
    decreases members.len(),
{
    if members.len() > 0 {
        let rest = members.drop_last();
        let last = members.len() - 1;
        assert(distinct_keys(rest)) by {
            assert forall|i: int, j: int| 0 <= i < j < rest.len() implies (#[trigger] rest[i]).0@
                != (#[trigger] rest[j]).0@ by {
                assert(members[i].0@ != members[j].0@);
            }
        }
        record_members_by_key(rest);
        assert forall|i: int| 0 <= i < members.len() implies record_members(members).contains_key(
            (#[trigger] members[i]).0@,
        ) && record_members(members)[members[i].0@] == members[i].1@ by {
            if i < last {
                assert(rest[i] == members[i]);
                assert(members[i].0@ != members[last].0@);
            }
        }
        assert forall|key: Seq<char>| #[trigger]
            record_members(members).contains_key(key) implies exists|i: int|
            0 <= i < members.len() && (#[trigger] members[i]).0@ == key by {
            if key == members[last].0@ {
            } else {
                assert(record_members(rest).contains_key(key));
                let i = choose|i: int| 0 <= i < rest.len() && (#[trigger] rest[i]).0@ == key;
                assert(members[i].0@ == key);
            }
        }
    }
}

/// A record has a member for each that is listed, which is the leaf listed
/// there, and no other.
pub proof fn records_have_every_member(members: Seq<(String, Leaf)>, key: Seq<char>)
    requires
        distinct_keys(members),
    ensures
        record_members(members).dom().contains(key) <==> exists|i: int|
            0 <= i < members.len() && (#[trigger] members[i]).0@ == key,
        forall|i: int|
            0 <= i < members.len() ==> record_members(members)[(#[trigger] members[i]).0@]
                == members[i].1@,
{
    record_members_by_key(members);
}

/// Keys are distinct exactly where no two places have the same one.
pub proof fn distinct_keys_leave_no_two_alike(members: Seq<(String, Leaf)>, i: int, j: int)
    requires
        distinct_keys(members),
        0 <= i < members.len(),
        0 <= j < members.len(),
        members[i].0@ == members[j].0@,
    ensures
        i == j,
{
}

/// A double is sound exactly where it is finite: put together from its sign,
/// exponent and fraction, it is infinite or no number at all for one exponent
/// alone. A negative integer is sound exactly where it is less than zero.
pub proof fn sound_numbers_are_finite(sign: u64, exponent: u64, fraction: u64, bits: u64, i: i64)
    requires
        sign <= 1,
        exponent <= 2047,
        fraction < 4503599627370496,
        bits == sign * 9223372036854775808 + exponent * 4503599627370496 + fraction,
    ensures
        is_sound_number(JsonNumber::Double(bits)) <==> exponent != 2047,
        is_sound_number(JsonNumber::Negative(i)) <==> i <= -1,
        forall|n: u64| #[trigger] is_sound_number(JsonNumber::Unsigned(n)),
{
    assert(bits as int / 4503599627370496 == sign * 2048 + exponent);
    assert((sign * 2048 + exponent) % 2048 == exponent);
}

/// Soundness reaches every number: it holds of a number alone, of each element
/// of an array and of each member of an object.
pub proof fn soundness_reaches_every_number(
    n: JsonNumber,
    items: Seq<JsonView>,
    members: Map<Seq<char>, JsonView>,
)
    ensures
        has_sound_numbers(JsonView::Number(n)) <==> is_sound_number(n),
        has_sound_numbers(JsonView::Array(items)) ==> forall|i: int|
            0 <= i < items.len() ==> has_sound_numbers(#[trigger] items[i]),
        has_sound_numbers(JsonView::Object(members)) ==> forall|key: Seq<char>| #[trigger]
            members.contains_key(key) ==> has_sound_numbers(members[key]),
{
    if has_sound_numbers(JsonView::Array(items)) {
        assert forall|i: int| 0 <= i < items.len() implies has_sound_numbers(
            #[trigger] items[i],
        ) by {
            let whole = JsonView::Array(items);
            assert(has_sound_numbers(whole));
            assert(whole->Array_0[i] == items[i]);
        }
    }
}

} // verus!
