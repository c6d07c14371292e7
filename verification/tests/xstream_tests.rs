use p2p_network::types::XStreamID;
use p2p_network::xstream_behaviour::{BehaviourAction, StreamTable, XStreamEvent, XStreamNetworkBehaviour};
use p2p_network::xstream_handler::{
    is_xstream_protocol, xstream_protocol, ConnectionReport, HandlerPoll, XStreamHandler, XStreamHandlerEvent,
    XStreamHandlerIn, XSTREAM_PROTOCOL,
};

type Stream = (u128, Vec<u8>);

fn build(id: u128, peer: Vec<u8>) -> Stream {
    (id, peer)
}

#[test]
fn test_xstream_protocol() {
    let protocol = xstream_protocol();
    assert_eq!(protocol, XSTREAM_PROTOCOL);
}

#[test]
fn test_is_xstream_protocol() {
    let protocol = libp2p::StreamProtocol::new("/xstream/");
    assert!(is_xstream_protocol(protocol.as_ref()));

    let other_protocol = libp2p::StreamProtocol::new("/other/");
    assert!(!is_xstream_protocol(other_protocol.as_ref()));
}

#[test]
fn handler_numbers_streams_and_reports_them() {
    let mut h: XStreamHandler<Stream> = XStreamHandler::new();
    h.set_peer_id(b"peer");
    assert!(!h.connection_keep_alive());
    h.handle_inbound_stream(build);
    h.handle_outbound_stream(build);
    assert!(h.connection_keep_alive());
    assert_eq!(h.get_stream(0), Some(&(0, b"peer".to_vec())));
    assert_eq!(h.get_stream(1), Some(&(1, b"peer".to_vec())));
    assert_eq!(h.get_stream(2), None);
    match h.poll() {
        HandlerPoll::Notify(XStreamHandlerEvent::IncomingStreamEstablished { stream_id, stream }) => {
            assert_eq!(stream_id, 0);
            assert_eq!(stream, (0, b"peer".to_vec()));
        }
        _ => panic!("expected the incoming stream"),
    }
    assert!(matches!(
        h.poll(),
        HandlerPoll::Notify(XStreamHandlerEvent::OutboundStreamEstablished { stream_id: 1, .. })
    ));
    assert!(matches!(h.poll(), HandlerPoll::Pending));
}

#[test]
fn handler_reports_before_opening() {
    let mut h: XStreamHandler<Stream> = XStreamHandler::new();
    h.on_behaviour_event(XStreamHandlerIn::OpenStream);
    h.on_connection_event(ConnectionReport::<fn(u128, Vec<u8>) -> Stream>::DialUpgradeError("refused".to_string()));
    match h.poll() {
        HandlerPoll::Notify(XStreamHandlerEvent::StreamError { stream_id, error }) => {
            assert_eq!(stream_id, None);
            assert_eq!(error, "Dial upgrade error: refused");
        }
        _ => panic!("expected the error first"),
    }
    assert!(matches!(h.poll(), HandlerPoll::OpenOutbound));
    assert!(matches!(h.poll(), HandlerPoll::Pending));
}

#[test]
fn handler_connection_events() {
    let mut h: XStreamHandler<Stream> = XStreamHandler::new();
    h.set_peer_id(b"p");
    h.on_connection_event(ConnectionReport::FullyNegotiatedInbound(build));
    h.on_connection_event(ConnectionReport::<fn(u128, Vec<u8>) -> Stream>::ListenUpgradeError("bad".to_string()));
    h.on_connection_event(ConnectionReport::<fn(u128, Vec<u8>) -> Stream>::Other);
    assert!(matches!(h.poll(), HandlerPoll::Notify(XStreamHandlerEvent::IncomingStreamEstablished { stream_id: 0, .. })));
    match h.poll() {
        HandlerPoll::Notify(XStreamHandlerEvent::StreamError { error, .. }) => assert_eq!(error, "Listen upgrade error: bad"),
        _ => panic!("expected the listen error"),
    }
    assert!(matches!(h.poll(), HandlerPoll::Pending));
}

#[test]
fn handler_close_reports_every_stream() {
    let mut h: XStreamHandler<Stream> = XStreamHandler::new();
    h.handle_inbound_stream(build);
    h.handle_inbound_stream(build);
    assert!(matches!(h.poll_close(), Some(XStreamHandlerEvent::IncomingStreamEstablished { stream_id: 0, .. })));
    assert!(matches!(h.poll_close(), Some(XStreamHandlerEvent::IncomingStreamEstablished { stream_id: 1, .. })));
    assert!(matches!(h.poll_close(), Some(XStreamHandlerEvent::StreamClosed { stream_id: 0 })));
    assert!(h.connection_keep_alive());
    assert!(matches!(h.poll_close(), Some(XStreamHandlerEvent::StreamClosed { stream_id: 1 })));
    assert!(!h.connection_keep_alive());
    assert!(h.poll_close().is_none());
}

#[test]
fn stream_table_keys_are_peer_and_id() {
    let mut t: StreamTable<u32> = StreamTable::new();
    t.insert(b"a", 1, 10);
    t.insert(b"b", 1, 20);
    t.insert(b"a", 1, 11);
    assert_eq!(t.get(b"a", 1), Some(&11));
    assert_eq!(t.get(b"b", 1), Some(&20));
    assert_eq!(t.remove(b"a", 1), Some(11));
    assert_eq!(t.get(b"a", 1), None);
    assert_eq!(t.remove(b"a", 1), None);
}

#[test]
fn behaviour_delivers_requested_stream_to_waiter() {
    let mut b: XStreamNetworkBehaviour<Stream, &str> = XStreamNetworkBehaviour::new();
    b.open_stream(b"peer", "waiter");
    match b.poll(None) {
        Some(BehaviourAction::OpenStreamOn(p)) => assert_eq!(p, b"peer".to_vec()),
        _ => panic!("expected a request to open a stream"),
    }
    let delivered = b.on_connection_handler_event(
        b"peer",
        XStreamHandlerEvent::OutboundStreamEstablished { stream_id: 3, stream: (3, b"peer".to_vec()) },
    );
    assert_eq!(delivered, Some(("waiter", (3, b"peer".to_vec()))));
    assert_eq!(b.get_stream(b"peer", 3), Some(&(3, b"peer".to_vec())));
    match b.poll(None) {
        Some(BehaviourAction::Generate(XStreamEvent::StreamEstablished { peer_id, stream_id })) => {
            assert_eq!(peer_id, b"peer".to_vec());
            assert_eq!(stream_id, XStreamID(3));
        }
        _ => panic!("expected StreamEstablished"),
    }
    let again = b.on_connection_handler_event(
        b"peer",
        XStreamHandlerEvent::OutboundStreamEstablished { stream_id: 4, stream: (4, vec![]) },
    );
    assert_eq!(again, None);
}

#[test]
fn behaviour_tracks_incoming_errors_and_closings() {
    let mut b: XStreamNetworkBehaviour<Stream, ()> = XStreamNetworkBehaviour::new();
    b.request_open_stream(b"x");
    assert!(b.on_connection_handler_event(
        b"p",
        XStreamHandlerEvent::IncomingStreamEstablished { stream_id: 1, stream: (1, vec![7]) },
    )
    .is_none());
    assert!(b.get_stream(b"p", 1).is_some());
    // The queue is taken from its end.
    assert!(matches!(b.poll(None), Some(BehaviourAction::Generate(XStreamEvent::IncomingStream { stream: (1, _) }))));
    assert!(matches!(b.poll(None), Some(BehaviourAction::OpenStreamOn(_))));
    b.on_connection_handler_event(b"p", XStreamHandlerEvent::StreamError { stream_id: Some(1), error: "e".to_string() });
    assert!(b.get_stream(b"p", 1).is_none());
    match b.poll(None) {
        Some(BehaviourAction::Generate(XStreamEvent::StreamError { stream_id, error, .. })) => {
            assert_eq!(stream_id, Some(XStreamID(1)));
            assert_eq!(error, "e");
        }
        _ => panic!("expected StreamError"),
    }
    b.on_connection_handler_event(b"p", XStreamHandlerEvent::IncomingStreamEstablished { stream_id: 2, stream: (2, vec![]) });
    b.notify_stream_closed(b"p", 2);
    assert!(b.get_stream(b"p", 2).is_none());
    assert!(b.poll(None).is_some());
    assert!(b.poll(None).is_some());
    assert!(b.poll(None).is_none());
}

#[test]
fn closure_report_comes_first() {
    let mut b: XStreamNetworkBehaviour<Stream, ()> = XStreamNetworkBehaviour::new();
    b.on_connection_handler_event(b"p", XStreamHandlerEvent::IncomingStreamEstablished { stream_id: 5, stream: (5, vec![]) });
    let report = XStreamEvent::StreamClosed { peer_id: b"p".to_vec(), stream_id: XStreamID(5) };
    assert!(matches!(b.poll(Some(report)), Some(BehaviourAction::Generate(XStreamEvent::StreamClosed { .. }))));
    assert!(b.get_stream(b"p", 5).is_none());
    assert!(matches!(b.poll(None), Some(BehaviourAction::Generate(XStreamEvent::IncomingStream { .. }))));
}

#[test]
fn handler_for_connection_names_peer() {
    let b: XStreamNetworkBehaviour<Stream, ()> = XStreamNetworkBehaviour::new();
    let mut h = b.handler_for_connection(b"remote");
    h.handle_inbound_stream(build);
    assert_eq!(h.get_stream(0), Some(&(0, b"remote".to_vec())));
}

#[test]
fn kept_streams_can_be_changed_in_place() {
    let mut h: XStreamHandler<Stream> = XStreamHandler::new();
    h.set_peer_id(b"peer");
    h.handle_inbound_stream(build);
    if let Some(s) = h.get_stream_mut(0) {
        s.1 = b"changed".to_vec();
    }
    assert_eq!(h.get_stream(0), Some(&(0, b"changed".to_vec())));
    assert!(h.get_stream_mut(5).is_none());

    let mut b: XStreamNetworkBehaviour<Stream, u8> = XStreamNetworkBehaviour::new();
    b.on_connection_handler_event(
        b"p",
        XStreamHandlerEvent::IncomingStreamEstablished { stream_id: 3, stream: (3, b"p".to_vec()) },
    );
    if let Some(s) = b.get_stream_mut(b"p", 3) {
        s.0 = 30;
    }
    assert_eq!(b.get_stream(b"p", 3), Some(&(30, b"p".to_vec())));
    assert!(b.get_stream_mut(b"q", 3).is_none());

    let mut t: StreamTable<u8> = StreamTable::new();
    t.insert(b"p", 1, 10);
    if let Some(v) = t.get_mut(b"p", 1) {
        *v = 11;
    }
    assert_eq!(t.get(b"p", 1), Some(&11));
}
