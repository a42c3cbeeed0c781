use vstd::prelude::*;

verus! {

/// A JSON document.
///
/// Numbers that fit a `u64` are held as `UInt`; every other number is held
/// in `Number` as the text that writes it.  Object members keep their order.
#[derive(Debug)]
pub enum Json {
    Null,
    Bool(bool),
    UInt(u64),
    Number(String),
    Str(String),
    Array(Vec<Json>),
    Object(Vec<(String, Json)>),
}

/// The mathematical value of a [`Json`] document: strings are taken by their
/// characters.
pub enum JsonModel {
    Null,
    Bool(bool),
    UInt(u64),
    Number(Seq<char>),
    Str(Seq<char>),
    Array(Seq<JsonModel>),
    Object(Seq<(Seq<char>, JsonModel)>),
}

impl Json {
    pub open spec fn model(self) -> JsonModel
        decreases self,
    {
        match self {
            Json::Null => JsonModel::Null,
            Json::Bool(b) => JsonModel::Bool(b),
            Json::UInt(n) => JsonModel::UInt(n),
            Json::Number(t) => JsonModel::Number(t@),
            Json::Str(s) => JsonModel::Str(s@),
            Json::Array(items) => JsonModel::Array(
                Seq::new(items@.len(), |i: int| if 0 <= i < items@.len() { items@[i].model() } else { JsonModel::Null }),
            ),
            Json::Object(members) => JsonModel::Object(
                Seq::new(members@.len(), |i: int| if 0 <= i < members@.len() { (members@[i].0@, members@[i].1.model()) } else { (Seq::empty(), JsonModel::Null) }),
            ),
        }
    }
}

/// The values of a list of documents.
pub open spec fn models(items: Seq<Json>) -> Seq<JsonModel> {
    Seq::new(items.len(), |i: int| items[i].model())
}

/// The values of a list of object members.
pub open spec fn member_models(members: Seq<(String, Json)>) -> Seq<(Seq<char>, JsonModel)> {
    Seq::new(members.len(), |i: int| (members[i].0@, members[i].1.model()))
}

/// A string document holding `text`.
pub fn json_text(text: String) -> (j: Json)
    ensures
        j.model() == JsonModel::Str(text@),
{
    Json::Str(text)
}

/// A string document holding the characters of `text`.
pub fn json_str(text: &str) -> (j: Json)
    ensures
        j.model() == JsonModel::Str(text@),
{
    Json::Str(String::from_str(text))
}

/// An array of `items`.
pub fn json_array(items: Vec<Json>) -> (j: Json)
    ensures
        j.model() == JsonModel::Array(models(items@)),
{
    let j = Json::Array(items);
    assert(j.model() == JsonModel::Array(models(items@))) by {
        let m = j.model();
        assert(m->Array_0 =~= models(items@));
    }
    j
}

/// An object with `members`, in this order.
pub fn json_object(members: Vec<(String, Json)>) -> (j: Json)
    ensures
        j.model() == JsonModel::Object(member_models(members@)),
{
    let j = Json::Object(members);
    assert(j.model() == JsonModel::Object(member_models(members@))) by {
        let m = j.model();
        assert(m->Object_0 =~= member_models(members@));
    }
    j
}

/// An object with one member.
pub fn json_object1(k1: &str, v1: Json) -> (j: Json)
    ensures
        j.model() == JsonModel::Object(seq![(k1@, v1.model())]),
{
    let ghost m1 = v1.model();
    let mut members: Vec<(String, Json)> = Vec::new();
    members.push((String::from_str(k1), v1));
    let j = json_object(members);
    assert(member_models(members@) =~= seq![(k1@, m1)]);
    j
}

/// An object with two members, in this order.
pub fn json_object2(k1: &str, v1: Json, k2: &str, v2: Json) -> (j: Json)
    ensures
        j.model() == JsonModel::Object(seq![(k1@, v1.model()), (k2@, v2.model())]),
{
    let ghost m1 = v1.model();
    let ghost m2 = v2.model();
    let mut members: Vec<(String, Json)> = Vec::new();
    members.push((String::from_str(k1), v1));
    members.push((String::from_str(k2), v2));
    let j = json_object(members);
    assert(member_models(members@) =~= seq![(k1@, m1), (k2@, m2)]);
    j
}

/// The value of the first member named `key`, if there is one.
pub open spec fn member_value(members: Seq<(Seq<char>, JsonModel)>, key: Seq<char>) -> Option<JsonModel>
    decreases members.len(),
{
    if members.len() == 0 {
        None
    } else if members[0].0 == key {
        Some(members[0].1)
    } else {
        member_value(members.drop_first(), key)
    }
}

/// The member `key` of a document that may be there: `None` when the
/// document is missing, is no object, or has no such member.
pub open spec fn get_member(doc: Option<JsonModel>, key: Seq<char>) -> Option<JsonModel> {
    match doc {
        Some(JsonModel::Object(members)) => member_value(members, key),
        _ => None,
    }
}

/// The item `i` of a document that may be there: `None` when the document
/// is missing, is no array, or is too short.
pub open spec fn get_item(doc: Option<JsonModel>, i: int) -> Option<JsonModel> {
    match doc {
        Some(JsonModel::Array(items)) => if 0 <= i < items.len() {
            Some(items[i])
        } else {
            None
        },
        _ => None,
    }
}

/// The number of items of a document, when it is an array.
pub open spec fn item_count(doc: Option<JsonModel>) -> Option<nat> {
    match doc {
        Some(JsonModel::Array(items)) => Some(items.len()),
        _ => None,
    }
}

} // verus!
