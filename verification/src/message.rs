use vstd::prelude::*;

verus! {

/// An opaque request payload: one serialized envelope, carried whole.
///
/// The transport never inspects the contents; its view is the byte
/// sequence that crosses the wire.
#[derive(Clone, Debug)]
pub struct Request {
    pub bytes: Vec<u8>,
}

impl View for Request {
    type V = Seq<u8>;

    open spec fn view(&self) -> Seq<u8> {
        self.bytes@
    }
}

impl Request {
    /// Wrap one serialized envelope as a request payload.
    pub fn new(bytes: Vec<u8>) -> (r: Request)
        ensures
            r@ == bytes@,
    {
        Request { bytes }
    }

    /// The serialized envelope this request carries.
    pub fn bytes(&self) -> (r: &Vec<u8>)
        ensures
            r@ == self@,
    {
        &self.bytes
    }
}

/// An opaque response payload: one serialized envelope, carried whole.
#[derive(Clone, Debug)]
pub struct Response {
    pub bytes: Vec<u8>,
}

impl View for Response {
    type V = Seq<u8>;

    open spec fn view(&self) -> Seq<u8> {
        self.bytes@
    }
}

impl Response {
    /// Wrap one serialized envelope as a response payload.
    pub fn new(bytes: Vec<u8>) -> (r: Response)
        ensures
            r@ == bytes@,
    {
        Response { bytes }
    }

    /// The serialized envelope this response carries.
    pub fn bytes(&self) -> (r: &Vec<u8>)
        ensures
            r@ == self@,
    {
        &self.bytes
    }
}

} // verus!
