//! The boundary to the JSON codec. Nothing in this file is proved: each
//! function states what the codec is taken to do.

use vstd::prelude::*;
use serde::Serializer;

verus! {

/// The error type of the JSON codec, carried through unread.
#[verifier::external_type_specification]
#[verifier::external_body]
pub struct ExJsonError(serde_json::Error);

/// The text that the codec writes for a JSON object with the given string
/// members, in the given order.
pub uninterp spec fn json_object_text(members: Seq<(Seq<char>, Seq<char>)>) -> Seq<u8>;

/// The members that the codec reads from `bytes` as one JSON map, each with
/// its key and, where its value is a JSON string, that string; `None` where
/// the codec refuses the bytes.
pub uninterp spec fn json_object_members(bytes: Seq<u8>) -> Option<
    Seq<(Seq<char>, Option<Seq<char>>)>,
>;

/// The keys and values of string pairs, as sequences of characters.
pub open spec fn pairs_view(pairs: Seq<(String, String)>) -> Seq<(Seq<char>, Seq<char>)> {
    pairs.map_values(|p: (String, String)| (p.0@, p.1@))
}

/// The keys and optional string values of members, as sequences of characters.
pub open spec fn members_view(members: Seq<(String, Option<String>)>) -> Seq<
    (Seq<char>, Option<Seq<char>>),
> {
    members.map_values(
        |m: (String, Option<String>)|
            (
                m.0@,
                match m.1 {
                    Some(text) => Some(text@),
                    None => None,
                },
            ),
    )
}

/// Calls `serde::Serializer::collect_map` on a `serde_json::Serializer` that
/// writes into a fresh byte vector. Claims that the call succeeds and that
/// the bytes are a function of the members and their order. The serializer
/// fails only where its writer fails or a key is no string: here every key
/// is a string and the writer is a byte vector, which takes every write.
#[verifier::external_body]
pub(crate) fn write_object(members: &Vec<(String, String)>) -> (r: Result<
    Vec<u8>,
    serde_json::Error,
>)
    ensures
        r is Ok,
        r matches Ok(bytes) ==> bytes@ == json_object_text(pairs_view(members@)),
{
    let mut out = Vec::new();
    serde_json::Serializer::new(&mut out).collect_map(members.iter().map(|m| (&m.0, &m.1)))?;
    Ok(out)
}

/// Calls `serde_json::from_slice` for a `serde_json::Map` and hands out the
/// map's members in the map's own order, each value kept only where it is a
/// JSON string. Claims only that the outcome is a function of the bytes.
#[verifier::external_body]
pub(crate) fn read_object(bytes: &[u8]) -> (r: Result<
    Vec<(String, Option<String>)>,
    serde_json::Error,
>)
    ensures
        r is Ok <==> json_object_members(bytes@) is Some,
        r matches Ok(members) ==> members_view(members@) == json_object_members(bytes@).unwrap(),
{
    let object: serde_json::Map<String, serde_json::Value> = serde_json::from_slice(bytes)?;
    Ok(object.into_iter().map(|(key, value)| (key, match value {
        serde_json::Value::String(text) => Some(text),
        serde_json::Value::Null => None,
        serde_json::Value::Bool(_) => None,
        serde_json::Value::Number(_) => None,
        serde_json::Value::Array(_) => None,
        serde_json::Value::Object(_) => None,
    })).collect())
}

/// Decodes an application value from the text of an envelope's message, as
/// a handler does with its argument. Calls `serde_json::from_str`; claims
/// nothing of the value.
#[verifier::external_body]
pub fn decode<D: serde::de::DeserializeOwned>(message: String) -> (r: Result<D, serde_json::Error>) {
    serde_json::from_str(message.as_str())
}

} // verus!
