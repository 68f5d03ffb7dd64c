//! JSON values.

use vstd::prelude::*;

use crate::names;
use crate::names::Duplicate;
use crate::text;

verus! {

/// A JSON number that is no integer of 64 bits.
#[verifier::external_type_specification]
#[verifier::external_body]
pub struct ExNumber(serde_json::Number);

/// A JSON value as `serde_json` holds it.
#[verifier::external_type_specification]
#[verifier::external_body]
pub struct ExValue(serde_json::Value);

/// A JSON value. The members of an object are kept in order.
#[derive(Debug, PartialEq)]
pub enum Json {
    Null,
    Bool(bool),
    /// An integer that fits in 64 bits without a sign.
    Unsigned(u64),
    /// An integer below zero that fits in 64 bits with a sign.
    Negative(i64),
    /// Any other number.
    Number(serde_json::Number),
    Text(String),
    Array(Vec<Json>),
    Object(Vec<(String, Json)>),
}

/// A JSON value as a mathematical value.
pub enum JsonValue {
    Null,
    Bool(bool),
    Unsigned(u64),
    Negative(i64),
    Number(serde_json::Number),
    Text(Seq<char>),
    Array(Seq<JsonValue>),
    Object(Seq<(Seq<char>, JsonValue)>),
}

impl Json {
    /// The mathematical value.
    pub open spec fn value(self) -> JsonValue
        decreases self,
    {
        match self {
            Json::Null => JsonValue::Null,
            Json::Bool(b) => JsonValue::Bool(b),
            Json::Unsigned(n) => JsonValue::Unsigned(n),
            Json::Negative(n) => JsonValue::Negative(n),
            Json::Number(n) => JsonValue::Number(n),
            Json::Text(s) => JsonValue::Text(s@),
            Json::Array(items) => JsonValue::Array(
                Seq::new(
                    items@.len(),
                    |i: int|
                        if 0 <= i < items@.len() {
                            items@[i].value()
                        } else {
                            JsonValue::Null
                        },
                ),
            ),
            Json::Object(members) => JsonValue::Object(
                Seq::new(
                    members@.len(),
                    |i: int|
                        if 0 <= i < members@.len() {
                            (members@[i].0@, members@[i].1.value())
                        } else {
                            (Seq::empty(), JsonValue::Null)
                        },
                ),
            ),
        }
    }
}

impl View for Json {
    type V = JsonValue;

    open spec fn view(&self) -> JsonValue {
        self.value()
    }
}

/// `serde_json::Number::clone` gives an equal number.
pub assume_specification[ <serde_json::Number as Clone>::clone ](n: &serde_json::Number) -> (copy:
    serde_json::Number)
    ensures
        copy == *n,
;

/// The member of an object with the given name; other values have none.
pub open spec fn member(v: JsonValue, name: Seq<char>) -> Option<JsonValue> {
    match v {
        JsonValue::Object(members) => names::find(members, name),
        _ => None,
    }
}

/// An object with the given member set; other values stay as they are.
pub open spec fn with_member(v: JsonValue, name: Seq<char>, value: JsonValue) -> JsonValue {
    match v {
        JsonValue::Object(members) => JsonValue::Object(names::with_entry(members, name, value)),
        _ => v,
    }
}

/// The members of an object, or nothing for another value.
pub open spec fn members(v: JsonValue) -> Seq<(Seq<char>, JsonValue)> {
    match v {
        JsonValue::Object(members) => members,
        _ => Seq::empty(),
    }
}

impl Json {
    /// The member of an object with the given name.
    pub fn get(&self, name: &str) -> (m: Option<&Json>)
        ensures
            match m {
                Some(j) => member(self@, name@) == Some(j@),
                None => member(self@, name@) is None,
            },
    {
        match self {
            Json::Object(list) => {
                let ghost all = members(self@);
                let mut i: usize = 0;
                while i < list.len()
                    invariant
                        i <= list@.len(),
                        all.len() == list@.len(),
                        all == members(self@),
                        self == Json::Object(*list),
                        forall|k: int| 0 <= k < i ==> (#[trigger] all[k]).0 != name@,
                    decreases list.len() - i,
                {
                    if text::same(list[i].0.as_str(), name) {
                        proof {
                            names::lemma_position_is(all, name@, i as int);
                        }
                        return Some(&list[i].1);
                    }
                    i = i + 1;
                }
                proof {
                    names::lemma_position_is(all, name@, i as int);
                }
                None
            },
            _ => None,
        }
    }

    /// The text of a JSON string.
    pub fn as_str(&self) -> (s: Option<&str>)
        ensures
            match s {
                Some(t) => self@ == JsonValue::Text(t@),
                None => !(self@ is Text),
            },
    {
        match self {
            Json::Text(s) => Some(s.as_str()),
            _ => None,
        }
    }

    /// The value of an unsigned integer.
    pub fn as_u64(&self) -> (n: Option<u64>)
        ensures
            match n {
                Some(u) => self@ == JsonValue::Unsigned(u),
                None => !(self@ is Unsigned),
            },
    {
        match self {
            Json::Unsigned(n) => Some(*n),
            _ => None,
        }
    }

    /// Set a member of an object; another value stays as it is.
    pub fn set(&mut self, name: &str, value: Json)
        ensures
            final(self)@ == with_member(old(self)@, name@, value@),
    {
        let ghost all = members(self@);
        let ghost before = *self;
        match self {
            Json::Object(list) => {
                let n = list.len();
                let ghost start = list@;
                let mut i: usize = 0;
                while i < n && !text::same(list[i].0.as_str(), name)
                    invariant
                        i <= n,
                        n == list@.len(),
                        list@ == start,
                        all.len() == n,
                        forall|k: int|
                            0 <= k < n ==> (#[trigger] all[k]) == (start[k].0@, start[k].1@),
                        forall|k: int| 0 <= k < i ==> (#[trigger] all[k]).0 != name@,
                    decreases n - i,
                {
                    i = i + 1;
                }
                proof {
                    names::lemma_position_is(all, name@, i as int);
                }
                if i < n {
                    list.set(i, (name.to_owned(), value));
                } else {
                    list.push((name.to_owned(), value));
                }
            },
            _ => {},
        }
        proof {
            if before is Object {
                assert(members(self@) =~= names::with_entry(all, name@, value@));
            }
        }
    }
}

/// Members by their views.
pub open spec fn pairs(list: Seq<(String, Json)>) -> Seq<(Seq<char>, JsonValue)> {
    list.map_values(|m: (String, Json)| (m.0@, m.1@))
}

/// An object with the given members.
pub fn object(list: Vec<(String, Json)>) -> (json: Json)
    ensures
        json@ == JsonValue::Object(pairs(list@)),
{
    let json = Json::Object(list);
    assert(json@->Object_0 =~= pairs(list@));
    json
}

impl Duplicate for Json {
    fn duplicate(&self) -> (copy: Self) {
        copy_json(self)
    }
}

/// A JSON value, copied.
pub fn copy_json(j: &Json) -> (copy: Json)
    ensures
        copy@ == j@,
    decreases j,
{
    match j {
        Json::Null => Json::Null,
        Json::Bool(b) => Json::Bool(*b),
        Json::Unsigned(n) => Json::Unsigned(*n),
        Json::Negative(n) => Json::Negative(*n),
        Json::Number(n) => Json::Number(n.clone()),
        Json::Text(s) => Json::Text(s.clone()),
        Json::Array(items) => {
            let mut copies: Vec<Json> = Vec::new();
            let mut i: usize = 0;
            while i < items.len()
                invariant
                    i <= items@.len(),
                    j == Json::Array(*items),
                    copies@.len() == i,
                    forall|k: int| 0 <= k < i ==> (#[trigger] copies@[k])@ == items@[k]@,
                decreases items.len() - i,
            {
                assert(decreases_to!(*j => j->Array_0));
                assert(decreases_to!(j->Array_0 => j->Array_0@));
                assert(decreases_to!(j->Array_0@ => j->Array_0@[i as int]));
                copies.push(copy_json(&items[i]));
                i = i + 1;
            }
            let copy = Json::Array(copies);
            assert(copy@->Array_0 =~= j@->Array_0);
            copy
        },
        Json::Object(list) => {
            let mut copies: Vec<(String, Json)> = Vec::new();
            let mut i: usize = 0;
            while i < list.len()
                invariant
                    i <= list@.len(),
                    j == Json::Object(*list),
                    copies@.len() == i,
                    forall|k: int|
                        0 <= k < i ==> (#[trigger] copies@[k]).0 == list@[k].0 && copies@[k].1@
                            == list@[k].1@,
                decreases list.len() - i,
            {
                assert(decreases_to!(*j => j->Object_0));
                assert(decreases_to!(j->Object_0 => j->Object_0@));
                assert(decreases_to!(j->Object_0@ => j->Object_0@[i as int]));
                assert(decreases_to!(j->Object_0@[i as int] => j->Object_0@[i as int].1));
                copies.push((list[i].0.clone(), copy_json(&list[i].1)));
                i = i + 1;
            }
            let copy = Json::Object(copies);
            assert(copy@->Object_0 =~= j@->Object_0);
            copy
        },
    }
}

// ---------------------------------------------------------------------------
// Text form
// ---------------------------------------------------------------------------

/// The JSON value that a text stands for, as `serde_json::from_str` reads
/// it; `None` for a text that is not JSON.
pub uninterp spec fn json_of_text(text: Seq<char>) -> Option<JsonValue>;

/// The compact text of a JSON value, as `serde_json::to_string` writes it.
pub uninterp spec fn text_of_json(value: JsonValue) -> Seq<char>;

/// Convert a `serde_json::Value`, variant by variant.
#[verifier::external_body]
fn from_value(value: serde_json::Value) -> Json {
    match value {
        serde_json::Value::Null => Json::Null,
        serde_json::Value::Bool(b) => Json::Bool(b),
        serde_json::Value::Number(n) => match (n.as_u64(), n.as_i64()) {
            (Some(u), _) => Json::Unsigned(u),
            (None, Some(i)) => Json::Negative(i),
            (None, None) => Json::Number(n),
        },
        serde_json::Value::String(s) => Json::Text(s),
        serde_json::Value::Array(a) => Json::Array(a.into_iter().map(from_value).collect()),
        serde_json::Value::Object(o) => {
            Json::Object(o.into_iter().map(|(k, v)| (k, from_value(v))).collect())
        },
    }
}

/// Convert into a `serde_json::Value`, variant by variant.
#[verifier::external_body]
fn to_value(json: &Json) -> serde_json::Value {
    match json {
        Json::Null => serde_json::Value::Null,
        Json::Bool(b) => serde_json::Value::Bool(*b),
        Json::Unsigned(n) => serde_json::Value::Number((*n).into()),
        Json::Negative(n) => serde_json::Value::Number((*n).into()),
        Json::Number(n) => serde_json::Value::Number(n.clone()),
        Json::Text(s) => serde_json::Value::String(s.clone()),
        Json::Array(a) => serde_json::Value::Array(a.iter().map(to_value).collect()),
        Json::Object(o) => {
            serde_json::Value::Object(o.iter().map(|(k, v)| (k.clone(), to_value(v))).collect())
        },
    }
}

/// Read a JSON text with `serde_json::from_str`. What it accepts is named,
/// not spelled out: the claim is that the outcome depends on the text alone.
#[verifier::external_body]
pub(crate) fn parse(text: &str) -> (json: Option<Json>)
    ensures
        match json {
            Some(j) => json_of_text(text@) == Some(j@),
            None => json_of_text(text@) is None,
        },
{
    serde_json::from_str::<serde_json::Value>(text).ok().map(from_value)
}

/// Write a JSON value with `serde_json::to_string`. The claim is that the
/// outcome depends on the value alone, and that there is a text for every
/// value: its keys are texts and it is written into memory, so neither of the
/// two things that can fail there does.
#[verifier::external_body]
pub(crate) fn render(json: &Json) -> (text: Result<String, String>)
    ensures
        text is Ok,
        text->Ok_0@ == text_of_json(json@),
{
    serde_json::to_string(&to_value(json)).map_err(|error| error.to_string())
}

// ---------------------------------------------------------------------------
// Laws
// ---------------------------------------------------------------------------

/// An object has a member of a name exactly where one of its pairs has the
/// name; the first such pair counts. Nothing but an object has members.
pub proof fn members_are_found_by_name(
    front: Seq<(Seq<char>, JsonValue)>,
    name: Seq<char>,
    value: JsonValue,
    back: Seq<(Seq<char>, JsonValue)>,
    other: JsonValue,
)
    requires
        forall|i: int| 0 <= i < front.len() ==> (#[trigger] front[i]).0 != name,
    ensures
        member(JsonValue::Object(front), name) is None,
        member(JsonValue::Object(front + seq![(name, value)] + back), name) == Some(value),
        !(other is Object) ==> member(other, name) is None,
        other is Object ==> members(other) == other->Object_0,
        !(other is Object) ==> members(other).len() == 0,
{
    names::the_first_pair_of_a_name_decides(front, name, value, back, value);
}

/// Setting a member of an object changes what that name reads and nothing
/// else; a value that is no object stays as it is.
pub proof fn setting_a_member_changes_it_alone(
    v: JsonValue,
    name: Seq<char>,
    value: JsonValue,
    other: Seq<char>,
)
    ensures
        v is Object ==> with_member(v, name, value) is Object && member(
            with_member(v, name, value),
            name,
        ) == Some(value),
        other != name ==> member(with_member(v, name, value), other) == member(v, other),
        !(v is Object) ==> with_member(v, name, value) == v,
{
    names::store_then_find(members(v), name, value, other);
}

/// A JSON value is read off its text form, member by member and item by item.
pub proof fn values_are_read_item_by_item(j: Json, i: int)
    ensures
        j matches Json::Text(s) ==> j@ == JsonValue::Text(s@),
        j matches Json::Bool(b) ==> j@ == JsonValue::Bool(b),
        j matches Json::Unsigned(n) ==> j@ == JsonValue::Unsigned(n),
        j matches Json::Negative(n) ==> j@ == JsonValue::Negative(n),
        j matches Json::Number(n) ==> j@ == JsonValue::Number(n),
        j is Null ==> j@ == JsonValue::Null,
        j matches Json::Array(items) ==> (j@ matches JsonValue::Array(values) && values.len()
            == items@.len() && (0 <= i < items@.len() ==> values[i] == items@[i]@)),
        j matches Json::Object(list) ==> (j@ matches JsonValue::Object(values) && values.len()
            == list@.len() && (0 <= i < list@.len() ==> values[i] == (list@[i].0@, list@[i].1@))),
{
}

/// A member is had by its name, a text and a number by what they are.
pub proof fn values_are_had_as_what_they_are(
    j: &Json,
    name: &str,
    m: Option<&Json>,
    s: Option<&str>,
    n: Option<u64>,
)
    requires
        call_ensures(Json::get, (j, name), m),
        call_ensures(Json::as_str, (j,), s),
        call_ensures(Json::as_u64, (j,), n),
    ensures
        m matches Some(v) ==> member(j@, name@) == Some(v@),
        m is None ==> member(j@, name@) is None,
        s is Some <==> j@ is Text,
        s matches Some(t) ==> j@ == JsonValue::Text(t@),
        n is Some <==> j@ is Unsigned,
        n matches Some(u) ==> j@ == JsonValue::Unsigned(u),
{
}

} // verus!
