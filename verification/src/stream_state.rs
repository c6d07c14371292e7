//! Closure bookkeeping of a stream: how its state moves when either side
//! closes, which operations a state allows, and what each read, write and close
//! does with the outcome of its I/O.
use vstd::prelude::*;

use crate::types::XStreamState;

verus! {

/// Kind of an I/O error met by a stream operation.
#[derive(Debug, Clone, Copy, PartialEq, Eq, Structural)]
pub enum IoErrorKind {
    UnexpectedEof,
    BrokenPipe,
    ConnectionReset,
    ConnectionAborted,
    NotConnected,
    NotFound,
    InvalidInput,
    Other,
}

impl IoErrorKind {
    /// Whether this error means that the remote side has dropped the connection.
    pub open spec fn closes_connection(self) -> bool {
        self == IoErrorKind::BrokenPipe || self == IoErrorKind::ConnectionReset || self
            == IoErrorKind::ConnectionAborted
    }

    /// Whether this error means that the remote side has dropped the connection
    /// (broken pipe, connection reset or connection aborted).
    pub fn is_connection_closed(&self) -> (r: bool)
        ensures
            r == self.closes_connection(),
    {
        match self {
            IoErrorKind::BrokenPipe => true,
            IoErrorKind::ConnectionReset => true,
            IoErrorKind::ConnectionAborted => true,
            _ => false,
        }
    }
}

impl XStreamState {
    /// Whether the local side has closed.
    pub open spec fn local_done(self) -> bool {
        self == XStreamState::LocalClosed || self == XStreamState::FullyClosed
    }

    /// Whether the remote side has closed.
    pub open spec fn remote_done(self) -> bool {
        self == XStreamState::RemoteClosed || self == XStreamState::FullyClosed
    }

    /// The state that a request to move to `requested` leads to: a fully closed
    /// stream stays fully closed, and a stream closed on one side becomes fully
    /// closed when the other side closes.
    pub open spec fn after_request(self, requested: XStreamState) -> XStreamState {
        match (self, requested) {
            (XStreamState::FullyClosed, _) => XStreamState::FullyClosed,
            (XStreamState::LocalClosed, XStreamState::RemoteClosed) => XStreamState::FullyClosed,
            (XStreamState::RemoteClosed, XStreamState::LocalClosed) => XStreamState::FullyClosed,
            (_, r) => r,
        }
    }

    /// The state after the local side closes.
    pub open spec fn after_local_close(self) -> XStreamState {
        match self {
            XStreamState::Open => self.after_request(XStreamState::LocalClosed),
            XStreamState::RemoteClosed => self.after_request(XStreamState::FullyClosed),
            _ => self,
        }
    }

    /// The state after the remote side closes.
    pub open spec fn after_remote_close(self) -> XStreamState {
        match self {
            XStreamState::Open => self.after_request(XStreamState::RemoteClosed),
            XStreamState::LocalClosed => self.after_request(XStreamState::FullyClosed),
            _ => self,
        }
    }

    /// The state that a request to move to `requested` leads to.
    pub fn transition(self, requested: XStreamState) -> (r: XStreamState)
        ensures
            r == self.after_request(requested),
    {
        match (self, requested) {
            (XStreamState::FullyClosed, _) => XStreamState::FullyClosed,
            (XStreamState::LocalClosed, XStreamState::RemoteClosed) => XStreamState::FullyClosed,
            (XStreamState::RemoteClosed, XStreamState::LocalClosed) => XStreamState::FullyClosed,
            (_, r) => r,
        }
    }

    /// The state after the local side closes.
    pub fn mark_local_closed(self) -> (r: XStreamState)
        ensures
            r == self.after_local_close(),
    {
        match self {
            XStreamState::Open => self.transition(XStreamState::LocalClosed),
            XStreamState::RemoteClosed => self.transition(XStreamState::FullyClosed),
            _ => self,
        }
    }

    /// The state after the remote side closes.
    pub fn mark_remote_closed(self) -> (r: XStreamState)
        ensures
            r == self.after_remote_close(),
    {
        match self {
            XStreamState::Open => self.transition(XStreamState::RemoteClosed),
            XStreamState::LocalClosed => self.transition(XStreamState::FullyClosed),
            _ => self,
        }
    }

    /// Whether the stream is closed on either side.
    pub fn is_closed(self) -> (r: bool)
        ensures
            r == (self != XStreamState::Open),
    {
        match self {
            XStreamState::Open => false,
            _ => true,
        }
    }

    /// Whether the local side has closed.
    pub fn is_local_closed(self) -> (r: bool)
        ensures
            r == self.local_done(),
    {
        match self {
            XStreamState::LocalClosed => true,
            XStreamState::FullyClosed => true,
            _ => false,
        }
    }

    /// Whether the remote side has closed.
    pub fn is_remote_closed(self) -> (r: bool)
        ensures
            r == self.remote_done(),
    {
        match self {
            XStreamState::RemoteClosed => true,
            XStreamState::FullyClosed => true,
            _ => false,
        }
    }

    /// Reading is refused with `NotConnected` once the remote side has closed.
    pub fn check_readable(self) -> (r: Result<(), IoErrorKind>)
        ensures
            self.remote_done() ==> r == Err::<(), IoErrorKind>(IoErrorKind::NotConnected),
            !self.remote_done() ==> r is Ok,
    {
        if self.is_remote_closed() {
            return Err(IoErrorKind::NotConnected);
        }
        Ok(())
    }

    /// Writing is refused with `NotConnected` once the local side has closed;
    /// a stream that only the remote side closed can still send.
    pub fn check_writable(self) -> (r: Result<(), IoErrorKind>)
        ensures
            self.local_done() ==> r == Err::<(), IoErrorKind>(IoErrorKind::NotConnected),
            !self.local_done() ==> r is Ok,
    {
        if self.is_local_closed() {
            return Err(IoErrorKind::NotConnected);
        }
        Ok(())
    }
}

/// What a stream operation does once its I/O has finished: the stream's new
/// state, how many closure notifications it sends, and what it returns.
#[derive(Debug, Clone, Copy, PartialEq, Eq)]
pub struct Settlement {
    pub state: XStreamState,
    pub notifications: u8,
    pub outcome: Result<(), IoErrorKind>,
}

/// The settlement that sends `notifications` closure notifications and
/// returns `outcome`: any notification marks the stream remotely closed.
pub open spec fn settle(
    state: XStreamState,
    notifications: u8,
    outcome: Result<(), IoErrorKind>,
) -> Settlement {
    Settlement {
        state: if notifications > 0 {
            state.after_remote_close()
        } else {
            state
        },
        notifications,
        outcome,
    }
}

/// Settles `read_exact`: a failure that shows the end of the stream or a
/// dropped connection notifies closure once; the error is returned either way.
pub fn settle_read_exact(state: XStreamState, io: Result<(), IoErrorKind>) -> (r: Settlement)
    ensures
        r == match io {
            Ok(()) => settle(state, 0, Ok(())),
            Err(k) => settle(
                state,
                if k == IoErrorKind::UnexpectedEof || k.closes_connection() {
                    1
                } else {
                    0
                },
                Err(k),
            ),
        },
{
    match io {
        Ok(()) => Settlement { state, notifications: 0, outcome: Ok(()) },
        Err(k) => {
            if k == IoErrorKind::UnexpectedEof || k.is_connection_closed() {
                Settlement { state: state.mark_remote_closed(), notifications: 1, outcome: Err(k) }
            } else {
                Settlement { state, notifications: 0, outcome: Err(k) }
            }
        },
    }
}

/// Settles `read_to_end`: reading to the end always notifies closure, twice
/// when nothing was read; a dropped connection notifies once; other errors do
/// not notify.
pub fn settle_read_to_end(state: XStreamState, io: Result<usize, IoErrorKind>) -> (r: Settlement)
    ensures
        r == match io {
            Ok(n) => settle(
                state,
                if n == 0 {
                    2
                } else {
                    1
                },
                Ok(()),
            ),
            Err(k) => settle(
                state,
                if k.closes_connection() {
                    1
                } else {
                    0
                },
                Err(k),
            ),
        },
{
    match io {
        Ok(n) => {
            let count: u8 = if n == 0 {
                2
            } else {
                1
            };
            Settlement { state: state.mark_remote_closed(), notifications: count, outcome: Ok(()) }
        },
        Err(k) => {
            if k.is_connection_closed() {
                Settlement { state: state.mark_remote_closed(), notifications: 1, outcome: Err(k) }
            } else {
                Settlement { state, notifications: 0, outcome: Err(k) }
            }
        },
    }
}

/// Settles `read`: a read of zero bytes is the end of the stream, notified
/// once and returned as `UnexpectedEof`; a dropped connection notifies once.
pub fn settle_read(state: XStreamState, io: Result<usize, IoErrorKind>) -> (r: Settlement)
    ensures
        r == match io {
            Ok(n) => if n == 0 {
                settle(state, 1, Err(IoErrorKind::UnexpectedEof))
            } else {
                settle(state, 0, Ok(()))
            },
            Err(k) => settle(
                state,
                if k.closes_connection() {
                    1
                } else {
                    0
                },
                Err(k),
            ),
        },
{
    match io {
        Ok(n) => {
            if n == 0 {
                Settlement {
                    state: state.mark_remote_closed(),
                    notifications: 1,
                    outcome: Err(IoErrorKind::UnexpectedEof),
                }
            } else {
                Settlement { state, notifications: 0, outcome: Ok(()) }
            }
        },
        Err(k) => {
            if k.is_connection_closed() {
                Settlement { state: state.mark_remote_closed(), notifications: 1, outcome: Err(k) }
            } else {
                Settlement { state, notifications: 0, outcome: Err(k) }
            }
        },
    }
}

/// How the I/O of `write_all` ended.
#[derive(Debug, Clone, Copy, PartialEq, Eq, Structural)]
pub enum WriteOutcome {
    /// The data was written and flushed.
    Done,
    /// Writing failed.
    WriteFailed(IoErrorKind),
    /// Writing succeeded and flushing failed.
    FlushFailed(IoErrorKind),
}

/// Settles `write_all`: a failure that shows a dropped connection notifies
/// closure once; the error is returned either way.
pub fn settle_write_all(state: XStreamState, io: WriteOutcome) -> (r: Settlement)
    ensures
        r == match io {
            WriteOutcome::Done => settle(state, 0, Ok(())),
            WriteOutcome::WriteFailed(k) => settle(
                state,
                if k.closes_connection() {
                    1
                } else {
                    0
                },
                Err(k),
            ),
            WriteOutcome::FlushFailed(k) => settle(
                state,
                if k.closes_connection() {
                    1
                } else {
                    0
                },
                Err(k),
            ),
        },
{
    match io {
        WriteOutcome::Done => Settlement { state, notifications: 0, outcome: Ok(()) },
        WriteOutcome::WriteFailed(k) | WriteOutcome::FlushFailed(k) => {
            if k.is_connection_closed() {
                Settlement { state: state.mark_remote_closed(), notifications: 1, outcome: Err(k) }
            } else {
                Settlement { state, notifications: 0, outcome: Err(k) }
            }
        },
    }
}

/// What the close procedure of a stream has just observed.
#[derive(Debug, Clone, Copy, PartialEq, Eq)]
pub enum CloseEvent {
    /// `close` was called.
    Start,
    /// Flushing the write half finished with this result.
    Flushed(Result<(), IoErrorKind>),
    /// Closing the write half finished with this result.
    WriteClosed(Result<(), IoErrorKind>),
}

/// What the close procedure does next.
#[derive(Debug, Clone, Copy, PartialEq, Eq)]
pub enum CloseAction {
    /// Flush the write half.
    Flush,
    /// Close the write half.
    CloseWrite,
    /// Stop, sending a closure notification when `notify` holds, and return
    /// `outcome`.
    Finish { notify: bool, outcome: Result<(), IoErrorKind> },
}

/// The result that a failed flush or close of the write half leaves: a dropped
/// connection counts as closed, any other error is returned.
pub open spec fn close_failure(state: XStreamState, k: IoErrorKind) -> (XStreamState, CloseAction) {
    if k.closes_connection() {
        (state.after_remote_close(), CloseAction::Finish { notify: true, outcome: Ok(()) })
    } else {
        (state, CloseAction::Finish { notify: true, outcome: Err(k) })
    }
}

/// One step of the close procedure: the state after the event and the next
/// action.
pub open spec fn close_transition(state: XStreamState, event: CloseEvent) -> (
    XStreamState,
    CloseAction,
) {
    match event {
        CloseEvent::Start => if state.local_done() {
            (state, CloseAction::Finish { notify: false, outcome: Ok(()) })
        } else {
            (state.after_local_close(), CloseAction::Flush)
        },
        CloseEvent::Flushed(Ok(())) => (state, CloseAction::CloseWrite),
        CloseEvent::Flushed(Err(k)) => close_failure(state, k),
        CloseEvent::WriteClosed(Ok(())) => (
            state,
            CloseAction::Finish { notify: true, outcome: Ok(()) },
        ),
        CloseEvent::WriteClosed(Err(k)) => close_failure(state, k),
    }
}

/// One step of the close procedure. A stream already closed locally finishes at
/// once, without notification. Otherwise it is marked locally closed, the write
/// half is flushed and then closed; a failure that shows a dropped connection
/// marks it remotely closed and counts as success, any other failure is
/// returned; every close that got past the first step sends one closure
/// notification.
pub fn close_step(state: XStreamState, event: CloseEvent) -> (r: (XStreamState, CloseAction))
    ensures
        r == close_transition(state, event),
{
    match event {
        CloseEvent::Start => {
            if state.is_local_closed() {
                (state, CloseAction::Finish { notify: false, outcome: Ok(()) })
            } else {
                (state.mark_local_closed(), CloseAction::Flush)
            }
        },
        CloseEvent::Flushed(Ok(())) => (state, CloseAction::CloseWrite),
        CloseEvent::WriteClosed(Ok(())) => (
            state,
            CloseAction::Finish { notify: true, outcome: Ok(()) },
        ),
        CloseEvent::Flushed(Err(k)) | CloseEvent::WriteClosed(Err(k)) => {
            if k.is_connection_closed() {
                (
                    state.mark_remote_closed(),
                    CloseAction::Finish { notify: true, outcome: Ok(()) },
                )
            } else {
                (state, CloseAction::Finish { notify: true, outcome: Err(k) })
            }
        },
    }
}

/// Closing never reopens: whatever side was closed stays closed after either
/// side closes.
pub proof fn law_closure_is_monotone(s: XStreamState)
    ensures
        s.local_done() ==> s.after_remote_close().local_done(),
        s.remote_done() ==> s.after_remote_close().remote_done(),
        s.local_done() ==> s.after_local_close().local_done(),
        s.remote_done() ==> s.after_local_close().remote_done(),
        s.after_local_close().local_done(),
        s.after_remote_close().remote_done(),
{
}

/// The order in which the two sides close does not matter, and once both have
/// closed the stream is fully closed.
pub proof fn law_closures_commute(s: XStreamState)
    ensures
        s.after_local_close().after_remote_close() == s.after_remote_close().after_local_close(),
        s.after_local_close().after_remote_close() == XStreamState::FullyClosed,
{
}

/// Closing the same side twice is the same as closing it once.
pub proof fn law_closure_is_idempotent(s: XStreamState)
    ensures
        s.after_local_close().after_local_close() == s.after_local_close(),
        s.after_remote_close().after_remote_close() == s.after_remote_close(),
{
}

/// The stored byte of a state reads back to the same state.
pub proof fn law_state_byte_roundtrip(s: XStreamState)
    ensures
        XStreamState::from_byte(s.byte()) == s,
{
}

/// Whatever the flush and the close of the write half report, a close that
/// starts on a stream not yet closed locally ends with the stream closed
/// locally, sends exactly one notification, and fails only with an error that
/// is not a dropped connection.
pub proof fn law_close_ends_locally_closed(
    s: XStreamState,
    flushed: Result<(), IoErrorKind>,
    shut: Result<(), IoErrorKind>,
)
    requires
        !s.local_done(),
    ensures
        ({
            let (s1, a1) = close_transition(s, CloseEvent::Start);
            let (s2, a2) = close_transition(s1, CloseEvent::Flushed(flushed));
            let (s3, a3) = close_transition(s2, CloseEvent::WriteClosed(shut));
            &&& a1 == CloseAction::Flush
            &&& s1.local_done()
            &&& match a2 {
                CloseAction::Finish { notify, outcome } => {
                    &&& flushed is Err
                    &&& notify
                    &&& s2.local_done()
                    &&& (outcome matches Err(k) ==> !k.closes_connection())
                },
                _ => {
                    &&& a2 == CloseAction::CloseWrite
                    &&& flushed is Ok
                    &&& s3.local_done()
                    &&& a3 matches CloseAction::Finish { notify, outcome } && notify && (
                    outcome matches Err(k) ==> !k.closes_connection())
                },
            }
        }),
{
}

/// A second close after the local side has closed returns success at once,
/// without I/O and without notification.
pub proof fn law_close_is_idempotent(s: XStreamState)
    requires
        s.local_done(),
    ensures
        close_transition(s, CloseEvent::Start) == (
            s,
            CloseAction::Finish { notify: false, outcome: Ok(()) },
        ),
{
}

} // verus!
