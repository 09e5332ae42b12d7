//! JSON values, as `serde_json` holds them.

use vstd::prelude::*;

verus! {

/// A JSON value of `serde_json`.
#[verifier::external_type_specification]
#[verifier::external_body]
pub struct ExValue(serde_json::Value);

/// What a JSON value holds. A number with a fraction or an exponent, or one
/// too large for 64 bits, is a float, of which nothing is said.
pub ghost enum Json {
    /// `null`.
    Null,
    /// A boolean.
    Bool(bool),
    /// An integer of 64 bits, signed or not.
    Integer(int),
    /// Any other number.
    Float,
    /// A string.
    String(Seq<char>),
    /// An array.
    Array(Seq<Json>),
    /// An object: each name at most once.
    Object(Map<Seq<char>, Json>),
}

/// What a value of `serde_json` holds.
pub uninterp spec fn json_of(value: serde_json::Value) -> Json;

/// The value that JSON text stands for, as `serde_json::from_slice` reads it;
/// none where the bytes are not JSON text that it accepts.
pub uninterp spec fn parsed_json(text: Seq<u8>) -> Option<Json>;

/// `serde_json::from_slice` into a `serde_json::Value`: a function of the bytes
/// alone. Which bytes it accepts is not said.
#[verifier::external_body]
pub(crate) fn parse(text: &[u8]) -> (value: Option<serde_json::Value>)
    ensures
        match value {
            Some(value) => parsed_json(text@) == Some(json_of(value)),
            None => parsed_json(text@) is None,
        },
{
    serde_json::from_slice(text).ok()
}

/// What `value` holds under `name`: nothing where it is not an object.
pub open spec fn member(value: Json, name: Seq<char>) -> Option<Json> {
    match value {
        Json::Object(members) => if members.contains_key(name) {
            Some(members[name])
        } else {
            None
        },
        _ => None,
    }
}

/// `serde_json::Value::get` with a string: the member of that name, where the
/// value is an object that has one.
#[verifier::external_body]
pub(crate) fn get<'a>(value: &'a serde_json::Value, name: &str) -> (found: Option<
    &'a serde_json::Value,
>)
    ensures
        match found {
            Some(found) => member(json_of(*value), name@) == Some(json_of(*found)),
            None => member(json_of(*value), name@) is None,
        },
{
    value.get(name)
}

/// The text of a string value.
pub open spec fn text_in(value: Json) -> Option<Seq<char>> {
    match value {
        Json::String(text) => Some(text),
        _ => None,
    }
}

/// `serde_json::Value::as_str`: the text of a string value.
#[verifier::external_body]
pub(crate) fn as_str<'a>(value: &'a serde_json::Value) -> (text: Option<&'a str>)
    ensures
        match text {
            Some(text) => text_in(json_of(*value)) == Some(text@),
            None => text_in(json_of(*value)) is None,
        },
{
    value.as_str()
}

/// The number in an integer value, where it is not negative.
pub open spec fn number_in(value: Json) -> Option<u64> {
    match value {
        Json::Integer(number) => if 0 <= number <= u64::MAX {
            Some(number as u64)
        } else {
            None
        },
        _ => None,
    }
}

/// `serde_json::Value::as_u64`: the number in an integer value, where it fits.
#[verifier::external_body]
pub(crate) fn as_u64(value: &serde_json::Value) -> (number: Option<u64>)
    ensures
        number == number_in(json_of(*value)),
{
    value.as_u64()
}

/// `serde_json::Value::clone`: a value that holds the same.
#[verifier::external_body]
pub(crate) fn copy(value: &serde_json::Value) -> (copied: serde_json::Value)
    ensures
        json_of(copied) == json_of(*value),
{
    value.clone()
}

/// `serde_json::Value::Null`.
#[verifier::external_body]
pub(crate) fn null() -> (value: serde_json::Value)
    ensures
        json_of(value) == Json::Null,
{
    serde_json::Value::Null
}

/// `serde_json::Value::from` a boolean.
#[verifier::external_body]
pub(crate) fn bool(flag: bool) -> (value: serde_json::Value)
    ensures
        json_of(value) == Json::Bool(flag),
{
    serde_json::Value::from(flag)
}

/// `serde_json::Value::from` an unsigned number.
#[verifier::external_body]
pub(crate) fn unsigned(number: u64) -> (value: serde_json::Value)
    ensures
        json_of(value) == Json::Integer(number as int),
{
    serde_json::Value::from(number)
}

/// `serde_json::Value::from` a signed number.
#[verifier::external_body]
pub(crate) fn signed(number: i64) -> (value: serde_json::Value)
    ensures
        json_of(value) == Json::Integer(number as int),
{
    serde_json::Value::from(number)
}

/// `serde_json::Value::from` a string.
#[verifier::external_body]
pub(crate) fn string(text: &str) -> (value: serde_json::Value)
    ensures
        json_of(value) == Json::String(text@),
{
    serde_json::Value::from(text)
}

/// What the values of a sequence hold.
pub open spec fn jsons_of(values: Seq<serde_json::Value>) -> Seq<Json> {
    Seq::new(values.len(), |i: int| json_of(values[i]))
}

/// `serde_json::Value::Array` of these values.
#[verifier::external_body]
pub(crate) fn array(values: Vec<serde_json::Value>) -> (value: serde_json::Value)
    ensures
        json_of(value) == Json::Array(jsons_of(values@)),
{
    serde_json::Value::Array(values)
}

/// The members that pairs give an object: a later pair replaces an earlier one
/// of its name.
pub open spec fn members_of(pairs: Seq<(Seq<char>, Json)>) -> Map<Seq<char>, Json>
    decreases pairs.len(),
{
    if pairs.len() == 0 {
        Map::empty()
    } else {
        members_of(pairs.drop_last()).insert(pairs.last().0, pairs.last().1)
    }
}

/// No members.
pub open spec fn none() -> Seq<(Seq<char>, Json)> {
    Seq::empty()
}

/// The object with these members.
pub open spec fn object_of(pairs: Seq<(Seq<char>, Json)>) -> Json {
    Json::Object(members_of(pairs))
}

/// The members of an object of `serde_json`.
#[verifier::external_type_specification]
#[verifier::external_body]
#[verifier::reject_recursive_types(K)]
#[verifier::reject_recursive_types(V)]
pub struct ExMap<K, V>(serde_json::Map<K, V>);

/// The values that the members of an object hold, by their names.
pub uninterp spec fn members_in(
    members: serde_json::Map<String, serde_json::Value>,
) -> Map<Seq<char>, Json>;

/// `serde_json::Map::new`: no members.
#[verifier::external_body]
fn no_members() -> (members: serde_json::Map<String, serde_json::Value>)
    ensures
        members_in(members) == members_of(none()),
{
    serde_json::Map::new()
}

/// `serde_json::Map::insert`: the member of this name holds this value, whether
/// there was one before or not. The others stay.
#[verifier::external_body]
fn insert(
    members: &mut serde_json::Map<String, serde_json::Value>,
    name: String,
    value: serde_json::Value,
)
    ensures
        members_in(*final(members)) == members_in(*old(members)).insert(name@, json_of(value)),
{
    members.insert(name, value);
}

/// `serde_json::Value::Object` of these members.
#[verifier::external_body]
fn object(members: serde_json::Map<String, serde_json::Value>) -> (value: serde_json::Value)
    ensures
        json_of(value) == Json::Object(members_in(members)),
{
    serde_json::Value::Object(members)
}

/// An object under construction: its members, in the order they were added.
pub struct Members {
    members: serde_json::Map<String, serde_json::Value>,
    pairs: Ghost<Seq<(Seq<char>, Json)>>,
}

impl View for Members {
    type V = Seq<(Seq<char>, Json)>;

    closed spec fn view(&self) -> Seq<(Seq<char>, Json)> {
        self.pairs@
    }
}

impl Members {
    /// The members are those that the pairs give.
    #[verifier::type_invariant]
    spec fn as_added(self) -> bool {
        members_in(self.members) == members_of(self.pairs@)
    }

    /// No members.
    pub fn new() -> (members: Members)
        ensures
            members@ == none(),
    {
        Members { members: no_members(), pairs: Ghost(none()) }
    }

    /// One member more.
    pub fn with(self, name: &str, value: serde_json::Value) -> (members: Members)
        ensures
            members@ == self@.push((name@, json_of(value))),
    {
        proof {
            use_type_invariant(&self);
        }
        let ghost pairs = self.pairs@.push((name@, json_of(value)));
        assert(pairs.drop_last() =~= self.pairs@);
        let mut members = self.members;
        insert(&mut members, name.to_owned(), value);
        Members { members, pairs: Ghost(pairs) }
    }

    /// The object with these members.
    pub fn object(self) -> (value: serde_json::Value)
        ensures
            json_of(value) == object_of(self@),
    {
        proof {
            use_type_invariant(&self);
        }
        object(self.members)
    }
}

}
