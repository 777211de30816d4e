use vstd::prelude::*;

use crate::error::Error;
use crate::frame::{
    decode_frame_of, decode_ready, decode_rest, encode_frame, first_nl, framed, payload_admissible,
    wf_payload, FrameDecoder, MAX_FRAME_LEN,
};
use crate::json::json_accepts;
use crate::message::{Request, Response};
use crate::queue::{RequestQueue, QUEUE_CAPACITY};

verus! {

/// The wire image of a run of requests: each one laid down as one
/// frame, oldest first.
pub open spec fn frames_of(rs: Seq<Request>) -> Seq<u8>
    decreases rs.len(),
{
    if rs.len() == 0 {
        Seq::<u8>::empty()
    } else {
        framed(rs[0]@) + frames_of(rs.drop_first())
    }
}

/// Law: a request accepted after others is laid on the wire after all
/// of them — the wire image of a run of requests is the image of the
/// earlier ones followed by the newcomer's frame. With the queue
/// accepting by appending and the drain writing front to back, frames
/// reach the wire in exactly the order the requests were submitted.
pub proof fn lemma_submitted_last_is_written_last(rs: Seq<Request>, r: Request)
    ensures
        frames_of(rs.push(r)) == frames_of(rs) + framed(r@),
    decreases rs.len(),
{
    if rs.len() == 0 {
        assert(rs.push(r)[0] == r);
        assert(rs.push(r).drop_first() =~= Seq::<Request>::empty());
        assert(frames_of(Seq::<Request>::empty()) == Seq::<u8>::empty());
        assert(frames_of(rs.push(r)) == framed(r@) + Seq::<u8>::empty());
        assert(frames_of(rs.push(r)) =~= frames_of(rs) + framed(r@));
    } else {
        let t = rs.push(r);
        assert(t[0] == rs[0]);
        assert(t.drop_first() =~= rs.drop_first().push(r));
        lemma_submitted_last_is_written_last(rs.drop_first(), r);
        assert(frames_of(t) == framed(rs[0]@) + frames_of(rs.drop_first().push(r)));
        assert(frames_of(rs) == framed(rs[0]@) + frames_of(rs.drop_first()));
        assert(framed(rs[0]@) + (frames_of(rs.drop_first()) + framed(r@)) =~= (framed(rs[0]@)
            + frames_of(rs.drop_first())) + framed(r@));
    }
}

/// Client side of the transport: one instance owns one connection.
///
/// The facade enqueues outgoing requests into the bounded queue and
/// decodes incoming frames into responses. The service loop around it
/// moves bytes: it drains the queue onto the socket through
/// [`IpcTransportClient::next_frame_to_send`] and hands everything the
/// socket delivers to [`IpcTransportClient::receive_bytes`].
pub struct IpcTransportClient {
    pub queue: RequestQueue,
    pub decoder: FrameDecoder,
}

impl IpcTransportClient {
    /// Every queued payload is one the frame format can carry whole.
    pub open spec fn wf(&self) -> bool {
        forall|i: int| 0 <= i < self.queue.items@.len() ==> wf_payload(
            #[trigger] self.queue.items@[i]@,
        )
    }

    /// A fresh client core: empty queue at the default capacity, nothing
    /// buffered on the read side.
    pub fn new() -> (c: IpcTransportClient)
        ensures
            c.wf(),
            c.queue.items@ == Seq::<Request>::empty(),
            c.queue.capacity == QUEUE_CAPACITY,
            !c.queue.closed,
            c.decoder@ == Seq::<u8>::empty(),
    {
        IpcTransportClient { queue: RequestQueue::new(QUEUE_CAPACITY), decoder: FrameDecoder::new() }
    }

    /// Enqueue a request for the service loop to write.
    ///
    /// A payload the frame format cannot carry is rejected with
    /// `Serialization`; a closed or full queue rejects with `SendError`.
    pub fn send_request(&mut self, r: Request) -> (res: Result<(), Error>)
        requires
            old(self).wf(),
        ensures
            final(self).wf(),
            final(self).decoder@ == old(self).decoder@,
            final(self).queue.capacity == old(self).queue.capacity,
            final(self).queue.closed == old(self).queue.closed,
            !wf_payload(r@) ==> (res matches Err(Error::Serialization)
                && final(self).queue.items@ == old(self).queue.items@),
            wf_payload(r@) && old(self).queue.closed ==> (res matches Err(Error::SendError)
                && final(self).queue.items@ == old(self).queue.items@),
            wf_payload(r@) && !old(self).queue.closed && old(self).queue.items@.len() < old(
                self,
            ).queue.capacity ==> (res matches Ok(())
                && final(self).queue.items@ == old(self).queue.items@.push(r)),
            wf_payload(r@) && !old(self).queue.closed && old(self).queue.items@.len() >= old(
                self,
            ).queue.capacity ==> (res matches Err(Error::SendError)
                && final(self).queue.items@ == old(self).queue.items@),
    {
        if !payload_admissible(r.bytes()) {
            return Err(Error::Serialization);
        }
        self.queue.submit(r)
    }

    /// Service step of the I/O loop's write side: take the oldest queued
    /// request and lay it out as the next frame for the wire.
    pub fn next_frame_to_send(&mut self) -> (r: Option<Vec<u8>>)
        requires
            old(self).wf(),
        ensures
            final(self).wf(),
            final(self).decoder@ == old(self).decoder@,
            final(self).queue.capacity == old(self).queue.capacity,
            final(self).queue.closed == old(self).queue.closed,
            old(self).queue.items@.len() == 0 ==> (r is None
                && final(self).queue.items@ == old(self).queue.items@),
            old(self).queue.items@.len() > 0 ==> (r matches Some(f)
                && f@ == framed(old(self).queue.items@[0]@)
                && final(self).queue.items@ == old(self).queue.items@.drop_first()),
    {
        match self.queue.pop() {
            None => None,
            Some(rq) => Some(encode_frame(rq.bytes())),
        }
    }

    /// Drain the queue completely, producing the wire image of every
    /// pending request: the frames appear in exactly the order the
    /// requests were submitted.
    pub fn drain_pending(&mut self) -> (wire: Vec<u8>)
        requires
            old(self).wf(),
        ensures
            final(self).wf(),
            final(self).decoder@ == old(self).decoder@,
            final(self).queue.capacity == old(self).queue.capacity,
            final(self).queue.closed == old(self).queue.closed,
            final(self).queue.items@.len() == 0,
            wire@ == frames_of(old(self).queue.items@),
    {
        let mut wire: Vec<u8> = Vec::new();
        while self.queue.len() > 0
            invariant
                self.wf(),
                self.decoder@ == old(self).decoder@,
                self.queue.capacity == old(self).queue.capacity,
                self.queue.closed == old(self).queue.closed,
                wire@ + frames_of(self.queue.items@) == frames_of(old(self).queue.items@),
            decreases self.queue.items@.len(),
        {
            let ghost pre = self.queue.items@;
            let rq = self.queue.pop().unwrap();
            let mut f = encode_frame(rq.bytes());
            wire.append(&mut f);
            proof {
                assert(frames_of(pre) == framed(pre[0]@) + frames_of(pre.drop_first()));
                assert(wire@ + frames_of(self.queue.items@) =~= frames_of(old(self).queue.items@));
            }
        }
        assert(wire@ =~= frames_of(old(self).queue.items@));
        wire
    }

    /// Hand the decoder one delivery of bytes read from the connection.
    pub fn receive_bytes(&mut self, data: &Vec<u8>)
        requires
            old(self).wf(),
        ensures
            final(self).wf(),
            final(self).decoder@ == old(self).decoder@ + data@,
            final(self).queue.items@ == old(self).queue.items@,
            final(self).queue.capacity == old(self).queue.capacity,
            final(self).queue.closed == old(self).queue.closed,
    {
        self.decoder.feed(data);
    }

    /// Decode the next response, if a complete frame has arrived.
    ///
    /// A frame that is not one well-formed document fails with
    /// `Serialization`; a frame that outgrew the size bound fails with
    /// `IO`; an incomplete frame is simply not ready yet, and the caller
    /// keeps waiting for more bytes.
    pub fn next_response(&mut self) -> (res: Result<Option<Response>, Error>)
        requires
            old(self).wf(),
        ensures
            final(self).wf(),
            final(self).queue.items@ == old(self).queue.items@,
            final(self).queue.capacity == old(self).queue.capacity,
            final(self).queue.closed == old(self).queue.closed,
            decode_ready(old(self).decoder@) && json_accepts(decode_frame_of(old(self).decoder@))
                ==> (res matches Ok(Some(resp)) && resp@ == decode_frame_of(old(self).decoder@)
                && final(self).decoder@ == decode_rest(old(self).decoder@)),
            decode_ready(old(self).decoder@) && !json_accepts(decode_frame_of(old(self).decoder@))
                ==> (res matches Err(Error::Serialization)
                && final(self).decoder@ == decode_rest(old(self).decoder@)),
            first_nl(old(self).decoder@) < old(self).decoder@.len() && first_nl(old(self).decoder@)
                > MAX_FRAME_LEN as int ==> (res matches Err(Error::IO)
                && final(self).decoder@ == decode_rest(old(self).decoder@)),
            first_nl(old(self).decoder@) == old(self).decoder@.len() && old(self).decoder@.len()
                > MAX_FRAME_LEN as int ==> (res matches Err(Error::IO)
                && final(self).decoder@ == Seq::<u8>::empty()),
            first_nl(old(self).decoder@) == old(self).decoder@.len() && old(self).decoder@.len()
                <= MAX_FRAME_LEN as int ==> (res matches Ok(None)
                && final(self).decoder@ == old(self).decoder@),
    {
        match self.decoder.next_frame() {
            Ok(None) => Ok(None),
            Ok(Some(frame)) => {
                if crate::json::parse_json(&frame) {
                    Ok(Some(Response::new(frame)))
                } else {
                    Err(Error::Serialization)
                }
            },
            Err(e) => Err(e),
        }
    }

    /// Close the request queue: the facade is shutting down, the service
    /// loop drains what is queued and then stops.
    pub fn close(&mut self)
        requires
            old(self).wf(),
        ensures
            final(self).wf(),
            final(self).queue.closed,
            final(self).queue.items@ == old(self).queue.items@,
            final(self).queue.capacity == old(self).queue.capacity,
            final(self).decoder@ == old(self).decoder@,
    {
        self.queue.close();
    }
}

} // verus!
