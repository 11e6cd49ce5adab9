use vstd::prelude::*;

verus! {

/// A JSON value, carried through the library without being looked into.
#[verifier::external_type_specification]
#[verifier::external_body]
pub struct ExJsonValue(serde_json::Value);

/// A JSON object's members.
#[verifier::external_type_specification]
#[verifier::external_body]
#[verifier::reject_recursive_types(K)]
#[verifier::reject_recursive_types(V)]
pub struct ExJsonMap<K, V>(serde_json::Map<K, V>);

/// The members of a JSON object, by name.
pub uninterp spec fn members(m: serde_json::Map<String, serde_json::Value>) -> Map<Seq<char>, serde_json::Value>;

/// The JSON number that an unsigned integer converts to.
pub uninterp spec fn unsigned_json(n: u64) -> serde_json::Value;

/// Relies on `serde_json::Map::insert` and `serde_json::Value::from(u64)`:
/// afterwards the object has a member `name` holding the number `value`, and
/// every other member is as it was.
#[verifier::external_body]
pub(crate) fn insert_unsigned(m: &mut serde_json::Map<String, serde_json::Value>, name: &str, value: u64)
    ensures
        members(*final(m)) == members(*old(m)).insert(name@, unsigned_json(value)),
{
    m.insert(name.to_owned(), serde_json::Value::from(value));
}

} // verus!
