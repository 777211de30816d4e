use ipc_transport::client::IpcTransportClient;
use ipc_transport::error::Error;
use ipc_transport::frame::{encode_frame, FrameDecoder, MAX_FRAME_LEN, NL};
use ipc_transport::message::{Request, Response};
use ipc_transport::queue::{RequestQueue, QUEUE_CAPACITY};
use ipc_transport::server::{trim_bytes, IpcTransportServer};

fn req(text: &str) -> Request {
    Request::new(text.as_bytes().to_vec())
}

fn resp(text: &str) -> Response {
    Response::new(text.as_bytes().to_vec())
}

#[test]
fn requests_hit_the_wire_in_submission_order() {
    let mut c = IpcTransportClient::new();
    assert!(c.send_request(req("{\"id\":1}")).is_ok());
    assert!(c.send_request(req("{\"id\":2}")).is_ok());
    assert!(c.send_request(req("{\"id\":3}")).is_ok());
    let wire = c.drain_pending();
    assert_eq!(wire, b"{\"id\":1}\n{\"id\":2}\n{\"id\":3}\n".to_vec());
    assert!(c.next_frame_to_send().is_none());
}

#[test]
fn next_frame_to_send_pops_oldest_first() {
    let mut c = IpcTransportClient::new();
    assert!(c.send_request(req("first")).is_ok());
    assert!(c.send_request(req("second")).is_ok());
    assert_eq!(c.next_frame_to_send().unwrap(), b"first\n".to_vec());
    assert_eq!(c.next_frame_to_send().unwrap(), b"second\n".to_vec());
    assert!(c.next_frame_to_send().is_none());
}

#[test]
fn frame_round_trip_request() {
    let r = req("{\"id\":1,\"method\":\"ping\"}");
    let wire = encode_frame(r.bytes());
    let mut d = FrameDecoder::new();
    d.feed(&wire);
    let back = d.next_frame().unwrap().unwrap();
    assert_eq!(&back, Request::new(back.clone()).bytes());
    assert_eq!(back, r.bytes().clone());
    assert!(d.next_frame().unwrap().is_none());
}

#[test]
fn frame_round_trip_response() {
    let r = resp("{\"id\":1,\"result\":\"pong\"}");
    let wire = encode_frame(r.bytes());
    let mut d = FrameDecoder::new();
    d.feed(&wire);
    let back = d.next_frame().unwrap().unwrap();
    assert_eq!(back, r.bytes().clone());
}

#[test]
fn decoder_splits_frames_and_keeps_partial_input() {
    let mut d = FrameDecoder::new();
    d.feed(&b"alpha\nbeta".to_vec());
    assert_eq!(d.next_frame().unwrap().unwrap(), b"alpha".to_vec());
    assert!(d.next_frame().unwrap().is_none());
    d.feed(&b"\n".to_vec());
    assert_eq!(d.next_frame().unwrap().unwrap(), b"beta".to_vec());
}

#[test]
fn decoder_rejects_oversized_frame() {
    let mut d = FrameDecoder::new();
    let mut big = vec![b'a'; MAX_FRAME_LEN + 1];
    big.push(NL);
    d.feed(&big);
    assert_eq!(d.next_frame().unwrap_err(), Error::IO);
    assert!(d.next_frame().unwrap().is_none());
}

#[test]
fn decoder_rejects_unbounded_buffering_without_delimiter() {
    let mut d = FrameDecoder::new();
    let big = vec![b'a'; MAX_FRAME_LEN + 1];
    d.feed(&big);
    assert_eq!(d.next_frame().unwrap_err(), Error::IO);
}

#[test]
fn queue_is_bounded_and_rejects_when_full() {
    let mut q = RequestQueue::new(2);
    assert!(q.submit(req("a")).is_ok());
    assert!(q.submit(req("b")).is_ok());
    assert_eq!(q.submit(req("c")).unwrap_err(), Error::SendError);
    assert_eq!(q.len(), 2);
    assert!(q.is_full());
}

#[test]
fn closed_queue_rejects_but_still_drains() {
    let mut q = RequestQueue::new(4);
    assert!(q.submit(req("a")).is_ok());
    q.close();
    assert!(q.is_closed());
    assert_eq!(q.submit(req("b")).unwrap_err(), Error::SendError);
    assert_eq!(q.pop().unwrap().bytes().clone(), b"a".to_vec());
    assert!(q.pop().is_none());
}

#[test]
fn client_queue_has_documented_capacity() {
    let mut c = IpcTransportClient::new();
    for i in 0..QUEUE_CAPACITY {
        assert!(c.send_request(req(&format!("{}", i))).is_ok());
    }
    assert_eq!(c.send_request(req("over")).unwrap_err(), Error::SendError);
}

#[test]
fn client_rejects_payload_the_frame_format_cannot_carry() {
    let mut c = IpcTransportClient::new();
    assert_eq!(
        c.send_request(req("{\"a\":\n1}")).unwrap_err(),
        Error::Serialization
    );
    let big = Request::new(vec![b'x'; MAX_FRAME_LEN + 1]);
    assert_eq!(c.send_request(big).unwrap_err(), Error::Serialization);
}

#[test]
fn closed_client_rejects_submission() {
    let mut c = IpcTransportClient::new();
    c.close();
    assert_eq!(c.send_request(req("{}")).unwrap_err(), Error::SendError);
}

#[test]
fn next_response_decodes_a_frame() {
    let mut c = IpcTransportClient::new();
    c.receive_bytes(&b"{\"id\":1,\"result\":\"pong\"}\n".to_vec());
    let r = c.next_response().unwrap().unwrap();
    assert_eq!(r.bytes().clone(), b"{\"id\":1,\"result\":\"pong\"}".to_vec());
}

#[test]
fn next_response_keeps_waiting_on_partial_frame() {
    let mut c = IpcTransportClient::new();
    c.receive_bytes(&b"{\"id\":1".to_vec());
    assert!(c.next_response().unwrap().is_none());
    c.receive_bytes(&b"}\n".to_vec());
    assert_eq!(
        c.next_response().unwrap().unwrap().bytes().clone(),
        b"{\"id\":1}".to_vec()
    );
}

#[test]
fn next_response_surfaces_decode_error() {
    let mut c = IpcTransportClient::new();
    c.receive_bytes(&b"not json at all\n".to_vec());
    assert_eq!(c.next_response().unwrap_err(), Error::Serialization);
}

#[test]
fn next_response_surfaces_framing_error() {
    let mut c = IpcTransportClient::new();
    c.receive_bytes(&vec![b'a'; MAX_FRAME_LEN + 2]);
    assert_eq!(c.next_response().unwrap_err(), Error::IO);
}

#[test]
fn server_ids_are_strictly_increasing() {
    let mut s: IpcTransportServer<u64> = IpcTransportServer::bind("/tmp/endpoint").unwrap();
    let mut last = 0u64;
    for k in 0..5u64 {
        let (id, _rq) = s
            .next_request(format!("{{\"id\":{}}}", k).into_bytes(), k)
            .unwrap();
        assert!(id > last);
        last = id;
    }
    assert_eq!(last, 5);
}

#[test]
fn second_finish_on_same_id_fails_unknown_request() {
    let mut s: IpcTransportServer<u64> = IpcTransportServer::bind("/tmp/endpoint").unwrap();
    let (id, _rq) = s.next_request(b"{\"id\":1}".to_vec(), 7).unwrap();
    let (w, frame) = s.finish(id, Some(&resp("{\"ok\":true}"))).unwrap();
    assert_eq!(w, 7);
    assert_eq!(frame.unwrap(), b"{\"ok\":true}\n".to_vec());
    assert_eq!(s.finish(id, None).unwrap_err(), Error::UnknownRequest);
    assert_eq!(
        s.finish(id, Some(&resp("{}"))).unwrap_err(),
        Error::UnknownRequest
    );
}

#[test]
fn capability_query_tracks_the_pending_entry() {
    let mut s: IpcTransportServer<u64> = IpcTransportServer::bind("/tmp/endpoint").unwrap();
    assert_eq!(s.capability_query(1).unwrap_err(), Error::UnknownRequest);
    let (id, _rq) = s.next_request(b"{\"id\":1}".to_vec(), 1).unwrap();
    assert_eq!(s.capability_query(id).unwrap(), true);
    s.finish(id, None).unwrap();
    assert_eq!(s.capability_query(id).unwrap_err(), Error::UnknownRequest);
}

#[test]
fn finish_without_response_still_hands_back_the_connection() {
    let mut s: IpcTransportServer<u64> = IpcTransportServer::bind("/tmp/endpoint").unwrap();
    let (id, _rq) = s.next_request(b"{}".to_vec(), 3).unwrap();
    let (w, frame) = s.finish(id, None).unwrap();
    assert_eq!(w, 3);
    assert!(frame.is_none());
    assert_eq!(s.pending_count(), 0);
}

#[test]
fn finish_rejects_response_the_frame_format_cannot_carry() {
    let mut s: IpcTransportServer<u64> = IpcTransportServer::bind("/tmp/endpoint").unwrap();
    let (id, _rq) = s.next_request(b"{}".to_vec(), 3).unwrap();
    assert_eq!(
        s.finish(id, Some(&resp("{\"a\":\n1}"))).unwrap_err(),
        Error::Serialization
    );
    // the entry is consumed on the error path too
    assert_eq!(s.capability_query(id).unwrap_err(), Error::UnknownRequest);
}

#[test]
fn send_never_streams_a_second_response() {
    let mut s: IpcTransportServer<u64> = IpcTransportServer::bind("/tmp/endpoint").unwrap();
    let (id, _rq) = s.next_request(b"{}".to_vec(), 3).unwrap();
    assert!(s.send(id, &resp("{}")).is_err());
    // send consumes nothing: the entry is still pending
    assert_eq!(s.capability_query(id).unwrap(), true);
}

#[test]
fn malformed_payload_is_discarded_and_serving_continues() {
    let mut s: IpcTransportServer<u64> = IpcTransportServer::bind("/tmp/endpoint").unwrap();
    assert!(s.next_request(b"not json at all".to_vec(), 1).is_none());
    assert_eq!(s.pending_count(), 0);
    let (id, rq) = s.next_request(b"{\"id\":1}".to_vec(), 2).unwrap();
    assert_eq!(id, 1);
    assert_eq!(rq.bytes().clone(), b"{\"id\":1}".to_vec());
}

#[test]
fn oversized_connection_buffer_is_discarded() {
    let mut s: IpcTransportServer<u64> = IpcTransportServer::bind("/tmp/endpoint").unwrap();
    let mut big = b"{\"pad\":\"".to_vec();
    big.extend(vec![b'a'; MAX_FRAME_LEN]);
    big.extend(b"\"}".to_vec());
    assert!(s.next_request(big, 1).is_none());
    assert_eq!(s.pending_count(), 0);
    // serving continues afterwards
    assert!(s.next_request(b"{}".to_vec(), 2).is_some());
}

#[test]
fn two_connections_get_distinct_ids_and_independent_entries() {
    let mut s: IpcTransportServer<u64> = IpcTransportServer::bind("/tmp/endpoint").unwrap();
    let (id_a, _ra) = s.next_request(b"{\"id\":1}".to_vec(), 10).unwrap();
    let (id_b, _rb) = s.next_request(b"{\"id\":2}".to_vec(), 20).unwrap();
    assert_ne!(id_a, id_b);
    let (w, _f) = s.finish(id_a, Some(&resp("{\"id\":1}"))).unwrap();
    assert_eq!(w, 10);
    // finishing one request leaves the other pending
    assert_eq!(s.capability_query(id_b).unwrap(), true);
    let (w2, _f2) = s.finish(id_b, Some(&resp("{\"id\":2}"))).unwrap();
    assert_eq!(w2, 20);
}

#[test]
fn ping_pong_through_both_cores() {
    // client side frames the request
    let mut c = IpcTransportClient::new();
    assert!(c.send_request(req("{\"id\":1,\"method\":\"ping\"}")).is_ok());
    let wire = c.drain_pending();

    // the connection delivers the client's bytes to the server whole
    let mut s: IpcTransportServer<u64> = IpcTransportServer::bind("/tmp/endpoint").unwrap();
    let (id, rq) = s.next_request(wire, 42).unwrap();
    assert_eq!(id, 1);
    assert_eq!(rq.bytes().clone(), b"{\"id\":1,\"method\":\"ping\"}".to_vec());

    // the server answers and the client decodes the same bytes
    let (w, frame) = s.finish(id, Some(&resp("{\"id\":1,\"result\":\"pong\"}"))).unwrap();
    assert_eq!(w, 42);
    c.receive_bytes(&frame.unwrap());
    let got = c.next_response().unwrap().unwrap();
    assert_eq!(got.bytes().clone(), b"{\"id\":1,\"result\":\"pong\"}".to_vec());
}

#[test]
fn surfaced_request_is_the_document_without_padding() {
    let mut s: IpcTransportServer<u64> = IpcTransportServer::bind("/tmp/endpoint").unwrap();
    let (_id, rq) = s
        .next_request(b"  {\"id\":1}\r\n".to_vec(), 1)
        .unwrap();
    assert_eq!(rq.bytes().clone(), b"{\"id\":1}".to_vec());
}

#[test]
fn trim_bytes_strips_padding_only_at_the_edges() {
    assert_eq!(trim_bytes(&b" \t a b \r\n".to_vec()), b"a b".to_vec());
    assert_eq!(trim_bytes(&b"".to_vec()), b"".to_vec());
    assert_eq!(trim_bytes(&b" \n ".to_vec()), b"".to_vec());
    assert_eq!(trim_bytes(&b"x".to_vec()), b"x".to_vec());
}

#[test]
fn server_state_queries() {
    let mut s: IpcTransportServer<u64> = IpcTransportServer::bind("/tmp/endpoint").unwrap();
    assert!(!s.ids_exhausted());
    assert_eq!(s.pending_count(), 0);
    let (_id, _rq) = s.next_request(b"{}".to_vec(), 1).unwrap();
    assert_eq!(s.pending_count(), 1);
}
