//! Structured decoding of a snapshot's body.
//!
//! The body bytes are parsed as JSON into a mapping of string keys to
//! 64-bit integers. Decoding reads the immutable snapshot only — it can be
//! called repeatedly and concurrently, and never consumes the body.

use vstd::prelude::*;

use crate::request::Request;

verus! {

/// The body bytes do not parse as the requested structured shape.
#[derive(Debug, Clone, PartialEq, Eq, Structural)]
pub struct DecodeError;

/// What serde_json yields when the bytes are deserialized as a map from
/// strings to 64-bit integers: `None` when they are not such a JSON object,
/// otherwise its entries, sorted by key. Depends on the bytes alone.
pub uninterp spec fn json_int_entries(bytes: Seq<u8>) -> Option<Seq<(Seq<char>, i64)>>;

/// Relies on serde_json::from_slice deserializing into a
/// std::collections::BTreeMap<String, i64>: it succeeds exactly when the
/// bytes are a JSON object whose values are integers in range, and the
/// map hands its entries out sorted by key.
#[verifier::external_body]
fn parse_json_int_entries(bytes: &Vec<u8>) -> (r: Option<Vec<(String, i64)>>)
    ensures
        r is Some <==> json_int_entries(bytes@) is Some,
        r matches Some(v) ==> json_int_entries(bytes@) == Some(
            v@.map_values(|p: (String, i64)| (p.0@, p.1)),
        ),
{
    let parsed: std::collections::BTreeMap<String, i64> = match serde_json::from_slice(bytes) {
        Ok(map) => map,
        Err(_) => return None,
    };
    Some(parsed.into_iter().collect())
}

impl Request {
    /// Decode the body as a JSON object of string keys and integer values.
    ///
    /// Succeeds exactly when the bytes parse as such an object, returning
    /// its entries sorted by key; otherwise fails with [`DecodeError`].
    /// The snapshot is untouched, so the call can be repeated freely.
    pub fn body_json(&self) -> (r: Result<Vec<(String, i64)>, DecodeError>)
        ensures
            r is Ok <==> json_int_entries(self.body@) is Some,
            r matches Ok(v) ==> json_int_entries(self.body@) == Some(
                v@.map_values(|p: (String, i64)| (p.0@, p.1)),
            ),
            r is Err ==> r == Err::<Vec<(String, i64)>, DecodeError>(DecodeError),
    {
        match parse_json_int_entries(&self.body) {
            Some(entries) => Ok(entries),
            None => Err(DecodeError),
        }
    }
}

} // verus!
