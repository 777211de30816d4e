use vstd::prelude::*;

use crate::error::Error;

verus! {

/// The frame delimiter: each frame is one payload followed by this byte.
pub const NL: u8 = 10;

/// Bound on the length of one frame's payload. A stream that runs past
/// it without a delimiter is rejected instead of buffered without bound.
pub const MAX_FRAME_LEN: usize = 1048576;

/// A payload the frame format can carry whole: it does not embed the
/// delimiter and fits the size bound.
pub open spec fn wf_payload(p: Seq<u8>) -> bool {
    &&& p.len() <= MAX_FRAME_LEN
    &&& forall|j: int| 0 <= j < p.len() ==> p[j] != NL
}

/// The wire form of one payload: the payload followed by the delimiter.
pub open spec fn framed(p: Seq<u8>) -> Seq<u8> {
    p.push(NL)
}

/// Index of the first delimiter in `s`, or `s.len()` if none occurs.
pub open spec fn first_nl(s: Seq<u8>) -> int
    decreases s.len(),
{
    if s.len() == 0 {
        0
    } else if s[0] == NL {
        0
    } else {
        1 + first_nl(s.drop_first())
    }
}

/// The first delimiter stands exactly where a delimiter first occurs.
pub proof fn lemma_first_nl_at(s: Seq<u8>, i: int)
    requires
        0 <= i < s.len(),
        s[i] == NL,
        forall|j: int| 0 <= j < i ==> s[j] != NL,
    ensures
        first_nl(s) == i,
    decreases s.len(),
{
    if i == 0 {
    } else {
        assert(s[0] != NL);
        assert(s.drop_first()[i - 1] == s[i]);
        assert forall|j: int| 0 <= j < i - 1 implies s.drop_first()[j] != NL by {
            assert(s.drop_first()[j] == s[j + 1]);
        }
        lemma_first_nl_at(s.drop_first(), i - 1);
    }
}

pub proof fn lemma_first_nl_none(s: Seq<u8>)
    requires
        forall|j: int| 0 <= j < s.len() ==> s[j] != NL,
    ensures
        first_nl(s) == s.len(),
    decreases s.len(),
{
    if s.len() == 0 {
    } else {
        assert(s[0] != NL);
        assert forall|j: int| 0 <= j < s.drop_first().len() implies s.drop_first()[j] != NL by {
            assert(s.drop_first()[j] == s[j + 1]);
        }
        lemma_first_nl_none(s.drop_first());
    }
}

/// A complete, acceptable frame stands at the front of the buffer.
pub open spec fn decode_ready(b: Seq<u8>) -> bool {
    first_nl(b) < b.len() && first_nl(b) <= MAX_FRAME_LEN as int
}

/// The payload of the frame at the front of the buffer.
pub open spec fn decode_frame_of(b: Seq<u8>) -> Seq<u8> {
    b.take(first_nl(b))
}

/// What remains buffered once the frame at the front is consumed.
pub open spec fn decode_rest(b: Seq<u8>) -> Seq<u8> {
    b.skip(first_nl(b) + 1)
}

/// Whether an exec check accepted a payload for framing.
pub fn payload_admissible(p: &Vec<u8>) -> (r: bool)
    ensures
        r == wf_payload(p@),
{
    if p.len() > MAX_FRAME_LEN {
        return false;
    }
    let n = p.len();
    let mut i: usize = 0;
    while i < n
        invariant
            i <= n,
            n == p@.len(),
            forall|j: int| 0 <= j < i ==> p@[j] != NL,
        decreases n - i,
    {
        if p[i] == NL {
            return false;
        }
        i += 1;
    }
    true
}

/// Lay one payload on the wire as a single frame.
pub fn encode_frame(payload: &Vec<u8>) -> (r: Vec<u8>)
    ensures
        r@ == framed(payload@),
{
    let n = payload.len();
    let mut r: Vec<u8> = Vec::new();
    let mut i: usize = 0;
    while i < n
        invariant
            i <= n,
            n == payload@.len(),
            r@ == payload@.take(i as int),
        decreases n - i,
    {
        r.push(payload[i]);
        assert(r@ =~= payload@.take(i + 1));
        i += 1;
    }
    assert(r@ =~= payload@);
    r.push(NL);
    r
}

/// Incremental decoder for the frame format: buffers bytes as they
/// arrive and yields one payload per delimiter, rejecting a frame that
/// outgrows the size bound.
pub struct FrameDecoder {
    pub buf: Vec<u8>,
}

impl View for FrameDecoder {
    type V = Seq<u8>;

    open spec fn view(&self) -> Seq<u8> {
        self.buf@
    }
}

impl FrameDecoder {
    /// A decoder with nothing buffered.
    pub fn new() -> (d: FrameDecoder)
        ensures
            d@ == Seq::<u8>::empty(),
    {
        FrameDecoder { buf: Vec::new() }
    }

    /// Buffer one delivery of bytes from the stream, as it arrived.
    pub fn feed(&mut self, data: &Vec<u8>)
        ensures
            final(self)@ == old(self)@ + data@,
    {
        self.buf.extend_from_slice(data.as_slice());
    }

    /// Take the frame at the front of the buffer, if one is complete.
    ///
    /// A frame longer than `MAX_FRAME_LEN` is dropped and reported as an
    /// `IO` error; when no delimiter has arrived and the buffer already
    /// exceeds the bound, the buffer is discarded rather than grown
    /// without bound. Otherwise an incomplete frame stays buffered and
    /// the call reports that no frame is ready yet.
    pub fn next_frame(&mut self) -> (r: Result<Option<Vec<u8>>, Error>)
        ensures
            decode_ready(old(self)@) ==> {
                &&& r matches Ok(Some(f)) && f@ == decode_frame_of(old(self)@)
                &&& final(self)@ == decode_rest(old(self)@)
            },
            first_nl(old(self)@) < old(self)@.len() && first_nl(old(self)@) > MAX_FRAME_LEN as int
                ==> (r matches Err(Error::IO) && final(self)@ == decode_rest(old(self)@)),
            first_nl(old(self)@) == old(self)@.len() && old(self)@.len() > MAX_FRAME_LEN as int
                ==> (r matches Err(Error::IO) && final(self)@ == Seq::<u8>::empty()),
            first_nl(old(self)@) == old(self)@.len() && old(self)@.len() <= MAX_FRAME_LEN as int
                ==> (r matches Ok(None) && final(self)@ == old(self)@),
    {
        let n = self.buf.len();
        let mut i: usize = 0;
        while i < n && self.buf[i] != NL
            invariant
                i <= n,
                n == self.buf@.len(),
                forall|j: int| 0 <= j < i ==> self.buf@[j] != NL,
            decreases n - i,
        {
            i += 1;
        }
        if i < n {
            proof {
                lemma_first_nl_at(self.buf@, i as int);
            }
            let rest = copy_range(&self.buf, i + 1, n);
            if i <= MAX_FRAME_LEN {
                let frame = copy_range(&self.buf, 0, i);
                self.buf = rest;
                assert(frame@ =~= decode_frame_of(old(self)@));
                assert(self.buf@ =~= decode_rest(old(self)@));
                Ok(Some(frame))
            } else {
                self.buf = rest;
                assert(self.buf@ =~= decode_rest(old(self)@));
                Err(Error::IO)
            }
        } else {
            proof {
                lemma_first_nl_none(self.buf@);
            }
            if n > MAX_FRAME_LEN {
                self.buf = Vec::new();
                Err(Error::IO)
            } else {
                Ok(None)
            }
        }
    }
}

/// Copy of `v[from..to]`.
pub(crate) fn copy_range(v: &Vec<u8>, from: usize, to: usize) -> (r: Vec<u8>)
    requires
        from <= to <= v@.len(),
    ensures
        r@ == v@.subrange(from as int, to as int),
{
    let mut r: Vec<u8> = Vec::new();
    let mut k: usize = from;
    while k < to
        invariant
            from <= k <= to <= v@.len(),
            r@ == v@.subrange(from as int, k as int),
        decreases to - k,
    {
        r.push(v[k]);
        assert(r@ =~= v@.subrange(from as int, k + 1));
        k += 1;
    }
    r
}

/// Round trip of the frame format: a payload the format can carry,
/// framed and then decoded, comes back unchanged with nothing buffered.
pub proof fn lemma_frame_round_trip(p: Seq<u8>)
    requires
        wf_payload(p),
    ensures
        decode_ready(framed(p)),
        decode_frame_of(framed(p)) == p,
        decode_rest(framed(p)) == Seq::<u8>::empty(),
{
    assert(framed(p)[p.len() as int] == NL);
    assert forall|j: int| 0 <= j < p.len() implies framed(p)[j] != NL by {
        assert(framed(p)[j] == p[j]);
    }
    lemma_first_nl_at(framed(p), p.len() as int);
    assert(decode_frame_of(framed(p)) =~= p);
    assert(decode_rest(framed(p)) =~= Seq::<u8>::empty());
}

} // verus!
