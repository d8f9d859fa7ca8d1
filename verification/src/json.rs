//! JSON objects with boolean and unsigned members, built with `serde_json`.

use vstd::prelude::*;

verus! {

/// `serde_json::Value`, a JSON value. Nothing inside it is seen here.
#[verifier::external_type_specification]
#[verifier::external_body]
pub struct ExValue(serde_json::Value);

/// `serde_json::Map`, the members of a JSON object. What it holds is told by
/// [`object_members`].
#[verifier::external_type_specification]
#[verifier::external_body]
#[verifier::reject_recursive_types(K)]
#[verifier::reject_recursive_types(V)]
pub struct ExMap<K, V>(serde_json::Map<K, V>);

/// What a member of a JSON object holds, where it is a boolean or a number
/// that fits an unsigned 64-bit integer.
#[derive(Clone, Copy, Debug, PartialEq, Eq, Structural)]
pub enum JsonScalar {
    /// `true` or `false`.
    Bool(bool),
    /// A non-negative integer.
    Unsigned(u64),
}

/// The members of a JSON object: from each member's name to what it holds.
/// Of a member that is neither a boolean nor an unsigned integer, only its
/// name is told.
pub uninterp spec fn object_members(object: serde_json::Map<String, serde_json::Value>) -> Map<
    Seq<char>,
    JsonScalar,
>;

/// The members of an object that has none.
pub open spec fn no_members() -> Map<Seq<char>, JsonScalar> {
    Map::empty()
}

/// `serde_json::Map::new`: an object without members.
#[verifier::external_body]
pub(crate) fn new_object() -> (object: serde_json::Map<String, serde_json::Value>)
    ensures
        object_members(object) == no_members(),
{
    serde_json::Map::new()
}

/// `serde_json::Map::insert`, with the member turned into a
/// `serde_json::Value` by `Value::from`: afterwards the object has the member
/// `name` with the value `member`, in place of an earlier member of that
/// name if there was one, and its other members as before.
#[verifier::external_body]
pub(crate) fn insert_member(
    object: &mut serde_json::Map<String, serde_json::Value>,
    name: &str,
    member: JsonScalar,
)
    ensures
        object_members(*final(object)) == object_members(*old(object)).insert(name@, member),
{
    let value = match member {
        JsonScalar::Bool(flag) => serde_json::Value::from(flag),
        JsonScalar::Unsigned(number) => serde_json::Value::from(number),
    };
    object.insert(name.to_owned(), value);
}

} // verus!
