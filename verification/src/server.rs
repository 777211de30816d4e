use vstd::prelude::*;

use std::collections::HashMap;

use crate::error::Error;
use crate::frame::{encode_frame, framed, payload_admissible, wf_payload, MAX_FRAME_LEN};
use crate::json::{json_accepts, parse_json};
use crate::message::{Request, Response};

verus! {

broadcast use
    vstd::std_specs::hash::group_hash_axioms,
    vstd::string::to_string_from_display_ensures_for_str;

/// Bytes the wire treats as insignificant padding around a document.
pub open spec fn is_ws(b: u8) -> bool {
    b == 32 || b == 9 || b == 13 || b == 10
}

/// `s` with its leading padding removed.
pub open spec fn trim_front(s: Seq<u8>) -> Seq<u8>
    decreases s.len(),
{
    if s.len() > 0 && is_ws(s[0]) {
        trim_front(s.drop_first())
    } else {
        s
    }
}

/// `s` with its trailing padding removed.
pub open spec fn trim_back(s: Seq<u8>) -> Seq<u8>
    decreases s.len(),
{
    if s.len() > 0 && is_ws(s.last()) {
        trim_back(s.drop_last())
    } else {
        s
    }
}

/// The document carried by a connection's bytes: what the peer sent,
/// stripped of surrounding padding.
pub open spec fn trimmed(s: Seq<u8>) -> Seq<u8> {
    trim_back(trim_front(s))
}

pub proof fn lemma_trim_front_at(s: Seq<u8>, i: int)
    requires
        0 <= i <= s.len(),
        forall|k: int| 0 <= k < i ==> is_ws(s[k]),
        i < s.len() ==> !is_ws(s[i]),
    ensures
        trim_front(s) == s.skip(i),
    decreases i,
{
    if i == 0 {
        assert(s.skip(0) =~= s);
    } else {
        assert(is_ws(s[0]));
        let t = s.drop_first();
        assert forall|k: int| 0 <= k < i - 1 implies is_ws(t[k]) by {
            assert(t[k] == s[k + 1]);
        }
        if i - 1 < t.len() {
            assert(t[i - 1] == s[i]);
        }
        lemma_trim_front_at(t, i - 1);
        assert(t.skip(i - 1) =~= s.skip(i));
    }
}

pub proof fn lemma_trim_back_at(s: Seq<u8>, j: int)
    requires
        0 <= j <= s.len(),
        forall|k: int| j <= k < s.len() ==> is_ws(s[k]),
        j > 0 ==> !is_ws(s[j - 1]),
    ensures
        trim_back(s) == s.take(j),
    decreases s.len() - j,
{
    if j == s.len() {
        assert(s.take(j) =~= s);
    } else {
        assert(is_ws(s.last()));
        let t = s.drop_last();
        assert forall|k: int| j <= k < t.len() implies is_ws(t[k]) by {
            assert(t[k] == s[k]);
        }
        lemma_trim_back_at(t, j);
        assert(t.take(j) =~= s.take(j));
    }
}

fn is_ws_byte(b: u8) -> (r: bool)
    ensures
        r == is_ws(b),
{
    b == 32 || b == 9 || b == 13 || b == 10
}

/// Strip the padding around the document a connection delivered.
pub fn trim_bytes(v: &Vec<u8>) -> (r: Vec<u8>)
    ensures
        r@ == trimmed(v@),
{
    let n = v.len();
    let mut i: usize = 0;
    while i < n && is_ws_byte(v[i])
        invariant
            i <= n,
            n == v@.len(),
            forall|k: int| 0 <= k < i ==> is_ws(v@[k]),
        decreases n - i,
    {
        i += 1;
    }
    let mut j: usize = n;
    while j > i && is_ws_byte(v[j - 1])
        invariant
            i <= j <= n,
            n == v@.len(),
            forall|k: int| j <= k < n ==> is_ws(v@[k]),
        decreases j,
    {
        j -= 1;
    }
    proof {
        lemma_trim_front_at(v@, i as int);
        let t = v@.skip(i as int);
        assert forall|k: int| j - i <= k < t.len() implies is_ws(t[k]) by {
            assert(t[k] == v@[k + i]);
        }
        if j > i {
            assert(t[j - i - 1] == v@[j - 1]);
        }
        lemma_trim_back_at(t, j - i);
        assert(t.take(j - i) =~= v@.subrange(i as int, j as int));
    }
    crate::frame::copy_range(v, i, j)
}

/// Server side of the transport.
///
/// The accept loop around it reads each short-lived connection to
/// completion and hands the bytes, together with the connection's
/// write-capable half `W`, to [`IpcTransportServer::next_request`]. The
/// core assigns ids, keeps the pending-response table from each id to
/// the half owed the response, and on [`IpcTransportServer::finish`]
/// hands that half back together with the frame to write. `W` is opaque
/// to the core: it is owned, never read.
pub struct IpcTransportServer<W> {
    /// The endpoint path this server was bound to.
    pub path: String,
    /// The most recently issued request id; `0` before any is issued.
    pub next_request_id: u64,
    /// Pending-response table: each issued id still owed a response,
    /// mapped to the half that must receive it.
    pub connections: HashMap<u64, W>,
    /// Every id this instance ever issued, in order of issue.
    pub issued: Ghost<Seq<u64>>,
}

impl<W> IpcTransportServer<W> {
    /// Ids are issued strictly increasing from one, never above the
    /// counter, and only issued ids can be pending.
    pub open spec fn wf(&self) -> bool {
        &&& forall|k: u64| #[trigger]
            self.connections@.contains_key(k) ==> self.issued@.contains(k)
        &&& forall|i: int|
            0 <= i < self.issued@.len() ==> 1 <= #[trigger] self.issued@[i]
                <= self.next_request_id
        &&& forall|i: int, j: int|
            0 <= i < j < self.issued@.len() ==> self.issued@[i] < self.issued@[j]
    }

    /// A server for the endpoint at `path`: no id issued, nothing
    /// pending. Binding the listening socket itself is its caller's
    /// I/O and can still fail there.
    pub fn bind(path: &str) -> (r: Result<IpcTransportServer<W>, Error>)
        ensures
            r matches Ok(s) && s.wf() && s.next_request_id == 0 && s.connections@ == Map::<
                u64,
                W,
            >::empty() && s.issued@ == Seq::<u64>::empty() && s.path@ == path@,
    {
        Ok(
            IpcTransportServer {
                path: path.to_string(),
                next_request_id: 0,
                connections: HashMap::new(),
                issued: Ghost(Seq::empty()),
            },
        )
    }

    /// Decision step of the accept loop for one fully read connection:
    /// `buffer` is everything the peer sent, `writer` the half that can
    /// carry the eventual response.
    ///
    /// A buffer within the size bound whose document is well formed
    /// gets the next id, its writer is registered as pending, and the
    /// pair is surfaced. A malformed or oversized buffer is discarded —
    /// its writer is dropped, closing the connection — and the loop
    /// goes on accepting. When the id counter is exhausted nothing
    /// further is accepted: wrapping would reissue an id.
    pub fn next_request(&mut self, buffer: Vec<u8>, writer: W) -> (r: Option<(u64, Request)>)
        requires
            old(self).wf(),
        ensures
            final(self).wf(),
            final(self).path@ == old(self).path@,
            buffer@.len() <= MAX_FRAME_LEN as int && json_accepts(trimmed(buffer@)) && old(
                self,
            ).next_request_id < u64::MAX ==> ({
                let id = (old(self).next_request_id + 1) as u64;
                &&& r matches Some(p) && p.0 == id && p.1@ == trimmed(buffer@)
                &&& final(self).next_request_id == id
                &&& !old(self).connections@.contains_key(id)
                &&& final(self).connections@ == old(self).connections@.insert(id, writer)
                &&& final(self).issued@ == old(self).issued@.push(id)
            }),
            !(buffer@.len() <= MAX_FRAME_LEN as int && json_accepts(trimmed(buffer@)) && old(
                self,
            ).next_request_id < u64::MAX) ==> ({
                &&& r is None
                &&& final(self).next_request_id == old(self).next_request_id
                &&& final(self).connections@ == old(self).connections@
                &&& final(self).issued@ == old(self).issued@
            }),
    {
        if buffer.len() > MAX_FRAME_LEN {
            return None;
        }
        let doc = trim_bytes(&buffer);
        if !parse_json(&doc) {
            return None;
        }
        if self.next_request_id == u64::MAX {
            return None;
        }
        let id = self.next_request_id + 1;
        proof {
            if old(self).connections@.contains_key(id) {
                assert(old(self).issued@.contains(id));
                let i = choose|i: int|
                    0 <= i < old(self).issued@.len() && old(self).issued@[i] == id;
                assert(old(self).issued@[i] <= old(self).next_request_id);
            }
        }
        self.next_request_id = id;
        let _ = self.connections.insert(id, writer);
        proof {
            self.issued@ = self.issued@.push(id);
        }
        proof {
            assert forall|k: u64| #[trigger]
                self.connections@.contains_key(k) implies self.issued@.contains(k) by {
                if k == id {
                    assert(self.issued@[self.issued@.len() - 1] == id);
                } else {
                    assert(old(self).connections@.contains_key(k));
                    assert(old(self).issued@.contains(k));
                    let i = choose|i: int|
                        0 <= i < old(self).issued@.len() && old(self).issued@[i] == k;
                    assert(self.issued@[i] == k);
                }
            }
        }
        Some((id, Request::new(doc)))
    }

    /// Consume the pending entry for `request_id` and produce the action
    /// owed to that connection: its write half, together with the frame
    /// to write when a response is owed, or nothing more than closing
    /// when none is. An id with no pending entry fails with
    /// `UnknownRequest`; a response the frame format cannot carry fails
    /// with `Serialization`, and the connection is closed unanswered.
    pub fn finish(&mut self, request_id: u64, response: Option<&Response>) -> (r: Result<
        (W, Option<Vec<u8>>),
        Error,
    >)
        requires
            old(self).wf(),
        ensures
            final(self).wf(),
            final(self).path@ == old(self).path@,
            final(self).next_request_id == old(self).next_request_id,
            final(self).issued@ == old(self).issued@,
            !old(self).connections@.contains_key(request_id) ==> (r matches Err(
                Error::UnknownRequest,
            ) && final(self).connections@ == old(self).connections@),
            old(self).connections@.contains_key(request_id) ==> ({
                &&& final(self).connections@ == old(self).connections@.remove(request_id)
                &&& match response {
                    None => r matches Ok(p) && p.0 == old(self).connections@[request_id]
                        && p.1 is None,
                    Some(resp) => if wf_payload(resp@) {
                        r matches Ok(p) && p.0 == old(self).connections@[request_id]
                            && (p.1 matches Some(f) && f@ == framed(resp@))
                    } else {
                        r matches Err(Error::Serialization)
                    },
                }
            }),
    {
        let w = match self.connections.remove(&request_id) {
            Some(w) => w,
            None => {
                proof {
                    assert(self.connections@ =~= old(self).connections@);
                }
                return Err(Error::UnknownRequest);
            },
        };
        match response {
            None => Ok((w, None)),
            Some(resp) => {
                if payload_admissible(resp.bytes()) {
                    Ok((w, Some(encode_frame(resp.bytes()))))
                } else {
                    Err(Error::Serialization)
                }
            },
        }
    }

    /// Whether `request_id` still identifies a pending connection: `Ok(true)`
    /// exactly while its entry is in the table, `UnknownRequest` once it
    /// was consumed or was never issued.
    pub fn capability_query(&self, request_id: u64) -> (r: Result<bool, Error>)
        ensures
            self.connections@.contains_key(request_id) ==> r matches Ok(true),
            !self.connections@.contains_key(request_id) ==> r matches Err(Error::UnknownRequest),
    {
        if self.connections.contains_key(&request_id) {
            Ok(true)
        } else {
            Err(Error::UnknownRequest)
        }
    }

    /// Streaming several responses to one request is not supported by
    /// this transport: a connection is strictly one request, then one
    /// response through `finish`. Every attempt fails and consumes
    /// nothing.
    pub fn send(&mut self, _request_id: u64, _response: &Response) -> (r: Result<(), Error>)
        ensures
            r matches Err(Error::UnknownRequest),
            final(self).path@ == old(self).path@,
            final(self).next_request_id == old(self).next_request_id,
            final(self).connections@ == old(self).connections@,
            final(self).issued@ == old(self).issued@,
    {
        Err(Error::UnknownRequest)
    }

    /// The id counter can issue nothing further; the server must stop
    /// accepting rather than wrap and reissue an id.
    pub fn ids_exhausted(&self) -> (r: bool)
        ensures
            r == (self.next_request_id == u64::MAX),
    {
        self.next_request_id == u64::MAX
    }

    /// How many requests are still owed a response.
    pub fn pending_count(&self) -> (n: usize)
        ensures
            n == self.connections@.len(),
    {
        self.connections.len()
    }
}

/// Law: the request ids one server instance issues are strictly
/// increasing in order of issue; in particular no id is issued twice in
/// its lifetime.
pub proof fn lemma_issued_ids_strictly_increase<W>(s: IpcTransportServer<W>, i: int, j: int)
    requires
        s.wf(),
        0 <= i < j < s.issued@.len(),
    ensures
        s.issued@[i] < s.issued@[j],
{
}

/// Law: an id the server never issued has no pending entry, so
/// `capability_query` and `finish` on it fail with `UnknownRequest` by
/// their contracts.
pub proof fn lemma_unissued_id_not_pending<W>(s: IpcTransportServer<W>, id: u64)
    requires
        s.wf(),
        !s.issued@.contains(id),
    ensures
        !s.connections@.contains_key(id),
{
    if s.connections@.contains_key(id) {
        assert(s.issued@.contains(id));
    }
}

/// Law: a freshly registered id is pending until consumed: right after
/// registration its entry is in the table, so `capability_query` on it
/// answers `Ok(true)` by its contract.
pub proof fn lemma_fresh_id_pending<W>(pending: Map<u64, W>, id: u64, writer: W)
    ensures
        pending.insert(id, writer).contains_key(id),
{
}

/// Law: the entry a successful `finish` consumes is gone for good: the
/// table that remains does not hold the id, so a second `finish` — or a
/// `capability_query` — on the same id fails with `UnknownRequest` by
/// those contracts.
pub proof fn lemma_finished_id_not_pending<W>(pending: Map<u64, W>, id: u64)
    ensures
        !pending.remove(id).contains_key(id),
{
}

} // verus!
