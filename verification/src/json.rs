use vstd::prelude::*;

verus! {

/// Whether a byte sequence parses as one complete JSON document.
///
/// The grammar is the outside parser's own; the transport needs only
/// that acceptance is a function of the bytes alone.
pub uninterp spec fn json_accepts(b: Seq<u8>) -> bool;

/// Relies on `serde_json::from_slice::<Value>`: whether bytes parse as
/// one JSON document depends on the bytes alone.
#[verifier::external_body]
pub(crate) fn parse_json(bytes: &Vec<u8>) -> (r: bool)
    ensures
        r == json_accepts(bytes@),
{
    serde_json::from_slice::<serde_json::Value>(bytes.as_slice()).is_ok()
}

} // verus!
