use p2p_network::pending::{IncomingOutcome, PendingStreamRecord, PendingStreamsManager};
use p2p_network::header::StreamHeader;
use p2p_network::stream_manager::{IncomingStreamResult, StreamManager, PENDING_TIMEOUT};
use p2p_network::stream_state::{
    close_step, settle_read, settle_read_exact, settle_read_to_end, settle_write_all, CloseAction,
    CloseEvent, IoErrorKind, Settlement, WriteOutcome,
};
use p2p_network::types::XStreamState;

#[test]
fn closing_both_sides_in_either_order_is_fully_closed() {
    let a = XStreamState::Open.mark_local_closed().mark_remote_closed();
    let b = XStreamState::Open.mark_remote_closed().mark_local_closed();
    assert_eq!(a, XStreamState::FullyClosed);
    assert_eq!(b, XStreamState::FullyClosed);
}

#[test]
fn closing_twice_changes_nothing() {
    let once = XStreamState::Open.mark_local_closed();
    assert_eq!(once, XStreamState::LocalClosed);
    assert_eq!(once.mark_local_closed(), once);
    assert_eq!(XStreamState::FullyClosed.transition(XStreamState::Open), XStreamState::FullyClosed);
}

#[test]
fn state_queries() {
    assert!(!XStreamState::Open.is_closed());
    assert!(XStreamState::RemoteClosed.is_closed());
    assert!(XStreamState::LocalClosed.is_local_closed());
    assert!(!XStreamState::LocalClosed.is_remote_closed());
    assert!(XStreamState::FullyClosed.is_remote_closed());
}

#[test]
fn readability_and_writability() {
    assert_eq!(XStreamState::Open.check_readable(), Ok(()));
    assert_eq!(XStreamState::RemoteClosed.check_readable(), Err(IoErrorKind::NotConnected));
    assert_eq!(XStreamState::LocalClosed.check_readable(), Ok(()));
    assert_eq!(XStreamState::LocalClosed.check_writable(), Err(IoErrorKind::NotConnected));
    assert_eq!(XStreamState::RemoteClosed.check_writable(), Ok(()));
    assert_eq!(XStreamState::Open.check_writable(), Ok(()));
}

#[test]
fn dropped_connection_errors() {
    assert!(IoErrorKind::BrokenPipe.is_connection_closed());
    assert!(IoErrorKind::ConnectionReset.is_connection_closed());
    assert!(IoErrorKind::ConnectionAborted.is_connection_closed());
    assert!(!IoErrorKind::UnexpectedEof.is_connection_closed());
    assert!(!IoErrorKind::Other.is_connection_closed());
}

#[test]
fn read_exact_settlements() {
    let ok = settle_read_exact(XStreamState::Open, Ok(()));
    assert_eq!(ok, Settlement { state: XStreamState::Open, notifications: 0, outcome: Ok(()) });
    let eof = settle_read_exact(XStreamState::Open, Err(IoErrorKind::UnexpectedEof));
    assert_eq!(eof.state, XStreamState::RemoteClosed);
    assert_eq!(eof.notifications, 1);
    assert_eq!(eof.outcome, Err(IoErrorKind::UnexpectedEof));
    let other = settle_read_exact(XStreamState::Open, Err(IoErrorKind::InvalidInput));
    assert_eq!(other.state, XStreamState::Open);
    assert_eq!(other.notifications, 0);
}

#[test]
fn read_to_end_settlements() {
    let empty = settle_read_to_end(XStreamState::LocalClosed, Ok(0));
    assert_eq!(empty.state, XStreamState::FullyClosed);
    assert_eq!(empty.notifications, 2);
    assert_eq!(empty.outcome, Ok(()));
    let some = settle_read_to_end(XStreamState::Open, Ok(10));
    assert_eq!(some.notifications, 1);
    assert_eq!(some.state, XStreamState::RemoteClosed);
    let reset = settle_read_to_end(XStreamState::Open, Err(IoErrorKind::ConnectionReset));
    assert_eq!(reset.notifications, 1);
    assert_eq!(reset.outcome, Err(IoErrorKind::ConnectionReset));
}

#[test]
fn read_settlements() {
    let zero = settle_read(XStreamState::Open, Ok(0));
    assert_eq!(zero.outcome, Err(IoErrorKind::UnexpectedEof));
    assert_eq!(zero.state, XStreamState::RemoteClosed);
    let data = settle_read(XStreamState::Open, Ok(5));
    assert_eq!(data, Settlement { state: XStreamState::Open, notifications: 0, outcome: Ok(()) });
}

#[test]
fn write_settlements() {
    let done = settle_write_all(XStreamState::Open, WriteOutcome::Done);
    assert_eq!(done.outcome, Ok(()));
    let pipe = settle_write_all(XStreamState::Open, WriteOutcome::FlushFailed(IoErrorKind::BrokenPipe));
    assert_eq!(pipe.state, XStreamState::RemoteClosed);
    assert_eq!(pipe.notifications, 1);
    let other = settle_write_all(XStreamState::Open, WriteOutcome::WriteFailed(IoErrorKind::Other));
    assert_eq!(other.notifications, 0);
    assert_eq!(other.outcome, Err(IoErrorKind::Other));
}

#[test]
fn close_procedure_runs_flush_then_close() {
    let (s1, a1) = close_step(XStreamState::Open, CloseEvent::Start);
    assert_eq!(s1, XStreamState::LocalClosed);
    assert_eq!(a1, CloseAction::Flush);
    let (s2, a2) = close_step(s1, CloseEvent::Flushed(Ok(())));
    assert_eq!(s2, XStreamState::LocalClosed);
    assert_eq!(a2, CloseAction::CloseWrite);
    let (s3, a3) = close_step(s2, CloseEvent::WriteClosed(Ok(())));
    assert_eq!(s3, XStreamState::LocalClosed);
    assert_eq!(a3, CloseAction::Finish { notify: true, outcome: Ok(()) });
}

#[test]
fn close_of_closed_stream_finishes_at_once() {
    let (s, a) = close_step(XStreamState::FullyClosed, CloseEvent::Start);
    assert_eq!(s, XStreamState::FullyClosed);
    assert_eq!(a, CloseAction::Finish { notify: false, outcome: Ok(()) });
}

#[test]
fn close_failures() {
    let (s, a) = close_step(XStreamState::LocalClosed, CloseEvent::Flushed(Err(IoErrorKind::ConnectionReset)));
    assert_eq!(s, XStreamState::FullyClosed);
    assert_eq!(a, CloseAction::Finish { notify: true, outcome: Ok(()) });
    let (s, a) = close_step(XStreamState::LocalClosed, CloseEvent::WriteClosed(Err(IoErrorKind::Other)));
    assert_eq!(s, XStreamState::LocalClosed);
    assert_eq!(a, CloseAction::Finish { notify: true, outcome: Err(IoErrorKind::Other) });
}

#[test]
fn pending_manager_add_take_count() {
    let mut m: PendingStreamsManager<&str, u8> = PendingStreamsManager::new(30_000);
    assert_eq!(m.count(), 0);
    assert_eq!(m.default_timeout(), 30_000);
    for i in 0..3u128 {
        m.add_pending_stream("s", i, true, 1, 100);
    }
    assert_eq!(m.count(), 3);
    assert!(m.has_pending_stream(1));
    let taken = m.take_pending_stream(1).unwrap();
    assert_eq!(taken.id, 1);
    assert!(taken.is_main);
    assert_eq!(taken.received_at, 100);
    assert_eq!(taken.peer_id, 1);
    assert!(!m.has_pending_stream(1));
    assert_eq!(m.count(), 2);
    assert!(m.has_pending_stream(0));
    assert!(m.has_pending_stream(2));
    assert!(m.take_pending_stream(1).is_none());
    assert_eq!(m.count(), 2);
}

#[test]
fn record_timeout_logic() {
    let fresh = PendingStreamRecord::new((), 1, true, (), 1_000);
    assert!(!fresh.is_timed_out(1_000, 10_000));
    assert!(fresh.is_timed_out(1_010, 0));
    let old = PendingStreamRecord::new((), 2, false, (), 0);
    assert!(old.is_timed_out(60_000, 30_000));
    assert!(!old.is_timed_out(30_000, 30_000));
    assert!(!PendingStreamRecord::new((), 3, true, (), 500).is_timed_out(100, 0));
}

#[test]
fn timed_out_streams_are_taken_out() {
    let mut m: PendingStreamsManager<u32, u8> = PendingStreamsManager::new(30_000);
    m.add_pending_stream(10, 1, true, 7, 0);
    m.add_pending_stream(20, 2, false, 7, 50_000);
    m.add_pending_stream(30, 3, true, 7, 10_000);
    let mut gone: Vec<u128> = m.take_timed_out(60_000).iter().map(|r| r.id).collect();
    gone.sort();
    assert_eq!(gone, vec![1, 3]);
    assert_eq!(m.count(), 1);
    assert!(m.has_pending_stream(2));
}

#[test]
fn incoming_substreams_pair_up() {
    let mut m: PendingStreamsManager<&str, u8> = PendingStreamsManager::new(30_000);
    let first = m.accept_incoming(StreamHeader { id: 5, is_main: false }, "err", 9, 0);
    assert!(matches!(first, IncomingOutcome::Stored));
    let second = m.accept_incoming(StreamHeader { id: 5, is_main: true }, "main", 9, 10);
    match second {
        IncomingOutcome::Paired(pair) => {
            assert_eq!(pair.main_stream, "main");
            assert_eq!(pair.error_stream, "err");
            assert_eq!(pair.id, 5);
            assert_eq!(pair.peer_id, 9);
        }
        _ => panic!("expected a pair"),
    }
    assert_eq!(m.count(), 0);
}

#[test]
fn duplicate_substream_is_reported() {
    let mut m: PendingStreamsManager<&str, u8> = PendingStreamsManager::new(30_000);
    m.accept_incoming(StreamHeader { id: 5, is_main: true }, "a", 9, 0);
    match m.accept_incoming(StreamHeader { id: 5, is_main: true }, "b", 9, 1) {
        IncomingOutcome::Duplicate { incoming, pending } => {
            assert_eq!(incoming, "b");
            assert_eq!(pending.stream, "a");
        }
        _ => panic!("expected a duplicate"),
    }
    assert_eq!(m.count(), 0);
}

#[test]
fn stream_manager_numbers_pairs_and_writes_headers() {
    let mut m: StreamManager<&str, u8> = StreamManager::new();
    let first = m.open_stream();
    assert_eq!(first.id, 0);
    assert_eq!(first.main_header, StreamHeader::make(0, true));
    assert_eq!(first.error_header, StreamHeader::make(0, false));
    let second = m.open_stream();
    assert_eq!(second.id, 1);
    assert_eq!(PENDING_TIMEOUT, 30_000);
}

#[test]
fn stream_manager_files_incoming_substreams() {
    let mut m: StreamManager<&str, u8> = StreamManager::new();
    let h = StreamHeader::make(42, true);
    assert!(matches!(m.handle_incoming_stream(&h, "main", 3, 0), IncomingStreamResult::Stored));
    match m.handle_incoming_stream(&h, "again", 3, 5) {
        IncomingStreamResult::Duplicate { error, incoming, pending } => {
            assert_eq!(error, "Получен дубликат потока с ID: 42");
            assert_eq!(incoming, "again");
            assert_eq!(pending, "main");
        }
        _ => panic!("expected a duplicate"),
    }
    let e = StreamHeader::make(43, false);
    let mh = StreamHeader::make(43, true);
    m.handle_incoming_stream(&e, "err", 3, 0);
    match m.handle_incoming_stream(&mh, "main", 3, 1) {
        IncomingStreamResult::Paired(p) => {
            assert_eq!(p.main_stream, "main");
            assert_eq!(p.error_stream, "err");
            assert_eq!(p.id, 43);
        }
        _ => panic!("expected a pair"),
    }
    m.handle_incoming_stream(&e, "late", 3, 0);
    let gone = m.clean_timed_out_streams(40_000);
    assert_eq!(gone.len(), 1);
    assert_eq!(gone[0].stream, "late");
}

#[test]
fn opened_pair_meets_in_either_order() {
    let mut opener: StreamManager<&str, u8> = StreamManager::new();
    let pair = opener.open_stream();
    for main_first in [true, false] {
        let mut m: StreamManager<&str, u8> = StreamManager::new();
        let (h1, s1, h2, s2) = if main_first {
            (&pair.main_header, "main", &pair.error_header, "error")
        } else {
            (&pair.error_header, "error", &pair.main_header, "main")
        };
        assert!(matches!(m.handle_incoming_stream(h1, s1, 7, 0), IncomingStreamResult::Stored));
        match m.handle_incoming_stream(h2, s2, 7, 1) {
            IncomingStreamResult::Paired(p) => {
                assert_eq!((p.main_stream, p.error_stream, p.id, p.peer_id), ("main", "error", pair.id, 7));
            }
            _ => panic!("expected a pair"),
        }
        assert!(m.clean_timed_out_streams(1_000_000).is_empty());
    }
}
