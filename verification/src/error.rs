use vstd::prelude::*;

verus! {

/// Errors surfaced by the client and server facades.
#[derive(Clone, Copy, Debug, PartialEq, Eq, Structural)]
pub enum Error {
    /// A payload failed to encode or decode as one complete envelope:
    /// it is not a single well-formed document, or it cannot be carried
    /// as one frame (it embeds the frame delimiter or exceeds the frame
    /// size bound).
    Serialization,
    /// The byte stream violated the framing discipline: a frame grew past
    /// the size bound before its delimiter arrived.
    IO,
    /// The request queue is closed or cannot accept another request.
    SendError,
    /// A request id with no pending entry was referenced: it was never
    /// issued, or its entry was already consumed.
    UnknownRequest,
}

} // verus!
