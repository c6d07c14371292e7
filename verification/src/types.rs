//! Identifiers, roles, directions and closure states of paired streams.
use std::sync::atomic::{AtomicU64, Ordering};
use std::sync::Arc;
use vstd::prelude::*;

verus! {

/// Direction of a stream: who initiated it.
#[derive(Debug, Clone, Copy, PartialEq, Eq, Structural)]
pub enum XStreamDirection {
    /// Initiated by the remote peer.
    Inbound,
    /// Initiated by the local node.
    Outbound,
}

/// Role of a substream within a stream pair.
#[derive(Debug, Clone, Copy, PartialEq, Eq, Structural)]
pub enum SubstreamRole {
    /// The data stream.
    Main,
    /// The error-reporting stream.
    Error,
}

impl SubstreamRole {
    /// The role that a header byte denotes: `1` is the error stream, every other
    /// byte the main stream.
    pub open spec fn from_byte(value: u8) -> SubstreamRole {
        if value == 1 {
            SubstreamRole::Error
        } else {
            SubstreamRole::Main
        }
    }

    /// The byte that a header carries for this role.
    pub open spec fn byte(self) -> u8 {
        match self {
            SubstreamRole::Main => 0,
            SubstreamRole::Error => 1,
        }
    }

    /// The byte that a header carries for this role (`Main` is `0`, `Error` is `1`).
    pub fn to_u8(self) -> (r: u8)
        ensures
            r == self.byte(),
    {
        match self {
            SubstreamRole::Main => 0,
            SubstreamRole::Error => 1,
        }
    }
}

impl From<u8> for SubstreamRole {
    fn from(value: u8) -> (r: SubstreamRole) {
        if value == 1 {
            SubstreamRole::Error
        } else {
            SubstreamRole::Main
        }
    }
}

impl vstd::std_specs::convert::FromSpecImpl<u8> for SubstreamRole {
    open spec fn obeys_from_spec() -> bool {
        true
    }

    open spec fn from_spec(v: u8) -> SubstreamRole {
        SubstreamRole::from_byte(v)
    }
}

/// Closure state of a stream.
#[derive(Debug, Clone, Copy, PartialEq, Eq, Structural)]
pub enum XStreamState {
    /// Open in both directions.
    Open,
    /// Closed by the local side; data can still arrive.
    LocalClosed,
    /// Closed by the remote side; data can still be sent.
    RemoteClosed,
    /// Closed in both directions.
    FullyClosed,
}

impl XStreamState {
    /// The state that a stored byte denotes; unknown bytes denote `Open`.
    pub open spec fn from_byte(value: u8) -> XStreamState {
        if value == 1 {
            XStreamState::LocalClosed
        } else if value == 2 {
            XStreamState::RemoteClosed
        } else if value == 3 {
            XStreamState::FullyClosed
        } else {
            XStreamState::Open
        }
    }

    /// The byte under which this state is stored.
    pub open spec fn byte(self) -> u8 {
        match self {
            XStreamState::Open => 0,
            XStreamState::LocalClosed => 1,
            XStreamState::RemoteClosed => 2,
            XStreamState::FullyClosed => 3,
        }
    }

    /// The byte under which this state is stored (`0` to `3`, in declaration order).
    pub fn to_u8(self) -> (r: u8)
        ensures
            r == self.byte(),
    {
        match self {
            XStreamState::Open => 0,
            XStreamState::LocalClosed => 1,
            XStreamState::RemoteClosed => 2,
            XStreamState::FullyClosed => 3,
        }
    }
}

impl From<u8> for XStreamState {
    fn from(value: u8) -> (r: XStreamState) {
        if value == 1 {
            XStreamState::LocalClosed
        } else if value == 2 {
            XStreamState::RemoteClosed
        } else if value == 3 {
            XStreamState::FullyClosed
        } else {
            XStreamState::Open
        }
    }
}

impl vstd::std_specs::convert::FromSpecImpl<u8> for XStreamState {
    open spec fn obeys_from_spec() -> bool {
        true
    }

    open spec fn from_spec(v: u8) -> XStreamState {
        XStreamState::from_byte(v)
    }
}

/// Unique identifier of a stream pair.
#[derive(Debug, Clone, Copy, PartialEq, Eq, Hash, Structural)]
pub struct XStreamID(pub u128);

impl From<u128> for XStreamID {
    fn from(value: u128) -> (r: XStreamID) {
        XStreamID(value)
    }
}

impl vstd::std_specs::convert::FromSpecImpl<u128> for XStreamID {
    open spec fn obeys_from_spec() -> bool {
        true
    }

    open spec fn from_spec(v: u128) -> XStreamID {
        XStreamID(v)
    }
}

impl From<XStreamID> for u128 {
    fn from(id: XStreamID) -> (r: u128) {
        id.0
    }
}

impl vstd::std_specs::convert::FromSpecImpl<XStreamID> for u128 {
    open spec fn obeys_from_spec() -> bool {
        true
    }

    open spec fn from_spec(v: XStreamID) -> u128 {
        v.0
    }
}

/// The decimal digit character for `d < 10`.
pub open spec fn digit_char(d: nat) -> char {
    if d == 0 {
        '0'
    } else if d == 1 {
        '1'
    } else if d == 2 {
        '2'
    } else if d == 3 {
        '3'
    } else if d == 4 {
        '4'
    } else if d == 5 {
        '5'
    } else if d == 6 {
        '6'
    } else if d == 7 {
        '7'
    } else if d == 8 {
        '8'
    } else {
        '9'
    }
}

/// The decimal notation of `n`, without sign or leading zeros.
pub open spec fn decimal_text(n: nat) -> Seq<char>
    decreases n,
{
    if n < 10 {
        seq![digit_char(n)]
    } else {
        decimal_text(n / 10).push(digit_char(n % 10))
    }
}

fn digit_str(d: u8) -> (s: &'static str)
    requires
        d < 10,
    ensures
        s@ == seq![digit_char(d as nat)],
{
    proof {
        reveal_strlit("0");
        reveal_strlit("1");
        reveal_strlit("2");
        reveal_strlit("3");
        reveal_strlit("4");
        reveal_strlit("5");
        reveal_strlit("6");
        reveal_strlit("7");
        reveal_strlit("8");
        reveal_strlit("9");
    }
    if d == 0 {
        "0"
    } else if d == 1 {
        "1"
    } else if d == 2 {
        "2"
    } else if d == 3 {
        "3"
    } else if d == 4 {
        "4"
    } else if d == 5 {
        "5"
    } else if d == 6 {
        "6"
    } else if d == 7 {
        "7"
    } else if d == 8 {
        "8"
    } else {
        "9"
    }
}

/// Appends the decimal notation of `n` to `out`.
pub(crate) fn append_decimal(out: &mut String, n: u128)
    ensures
        final(out)@ == old(out)@ + decimal_text(n as nat),
    decreases n,
{
    if n < 10 {
        let d: u8 = n as u8;
        out.append(digit_str(d));
    } else {
        append_decimal(out, n / 10);
        let d: u8 = (n % 10) as u8;
        let ghost before = out@;
        out.append(digit_str(d));
        assert(out@ =~= old(out)@ + decimal_text(n as nat));
    }
}

impl XStreamID {
    /// The identifier's value in decimal notation (what `Display` prints for it).
    pub fn to_decimal_string(&self) -> (s: String)
        ensures
            s@ == decimal_text(self.0 as nat),
    {
        let mut s = String::new();
        append_decimal(&mut s, self.0);
        assert(s@ =~= decimal_text(self.0 as nat));
        s
    }

    /// The identifier whose high 64 bits are `high` and low 64 bits are `low`.
    pub fn from_parts(high: u64, low: u64) -> (r: XStreamID)
        ensures
            r.0 == high as nat * 0x1_0000_0000_0000_0000 + low as nat,
    {
        let h: u128 = high as u128;
        let l: u128 = low as u128;
        assert(h * 0x1_0000_0000_0000_0000 + l <= u128::MAX) by (nonlinear_arith)
            requires
                h <= u64::MAX,
                l <= u64::MAX,
        ;
        XStreamID(h * 0x1_0000_0000_0000_0000 + l)
    }

    /// The high and low 64-bit halves of an identifier value.
    pub fn split_parts(value: u128) -> (r: (u64, u64))
        ensures
            r.0 as nat * 0x1_0000_0000_0000_0000 + r.1 as nat == value as nat,
    {
        let high: u64 = (value / 0x1_0000_0000_0000_0000) as u64;
        let low: u64 = (value % 0x1_0000_0000_0000_0000) as u64;
        (high, low)
    }
}

/// Generates identifiers from counters shared by all clones: each call of
/// `next` takes the next value of the low counter, and moves the high counter
/// on when the low counter wraps.
#[derive(Debug, Clone)]
pub struct XStreamIDIterator {
    high: Arc<AtomicU64>,
    low: Arc<AtomicU64>,
}

impl XStreamIDIterator {
    /// An iterator whose first identifier is `0`.
    pub fn new() -> (r: XStreamIDIterator) {
        XStreamIDIterator { high: Arc::new(AtomicU64::new(0)), low: Arc::new(AtomicU64::new(0)) }
    }

    /// An iterator whose first identifier is `start`.
    pub fn with_start(start: u128) -> (r: XStreamIDIterator) {
        let (high, low) = XStreamID::split_parts(start);
        XStreamIDIterator { high: Arc::new(AtomicU64::new(high)), low: Arc::new(AtomicU64::new(low)) }
    }

    /// The next identifier. The counters are shared with other clones and other
    /// threads, so the value taken is whatever the counters held at the call; the
    /// identifier is composed from it by `XStreamID::from_parts`. When the low
    /// counter wraps, the high counter moves on for later identifiers, and this
    /// one keeps the high half that it had.
    pub fn next(&mut self) -> (r: Option<XStreamID>)
        ensures
            r is Some,
    {
        let low = self.low.fetch_add(1, Ordering::SeqCst);
        let high = if low == u64::MAX {
            self.high.fetch_add(1, Ordering::SeqCst)
        } else {
            self.high.load(Ordering::SeqCst)
        };
        Some(XStreamID::from_parts(high, low))
    }
}

/// The identifier that follows `c`: its successor, wrapping to zero after
/// `u128::MAX`.
pub open spec fn next_id_after(c: u128) -> u128 {
    if c < u128::MAX {
        (c + 1) as u128
    } else {
        0
    }
}

/// The identifier that an iterator made by `IdIterator::new` gives after `k`
/// calls of `next`.
pub open spec fn id_after_calls(k: nat) -> u128
    decreases k,
{
    if k == 0 {
        0
    } else {
        next_id_after(id_after_calls((k - 1) as nat))
    }
}

/// Identifiers count up from zero and wrap: after `k` calls of `next` on a
/// new iterator, the next identifier is `k` modulo `2^128`.
pub proof fn law_ids_count_from_zero_and_wrap(k: nat)
    ensures
        id_after_calls(k) == k % 0x1_0000_0000_0000_0000_0000_0000_0000_0000nat,
    decreases k,
{
    if k > 0 {
        law_ids_count_from_zero_and_wrap((k - 1) as nat);
    }
}

/// Generates consecutive `u128` identifiers from zero, wrapping to zero after
/// `u128::MAX`.
#[derive(Debug, Clone)]
pub struct IdIterator {
    current: u128,
}

impl IdIterator {
    /// The value that the next call of `next` returns.
    pub closed spec fn current(&self) -> u128 {
        self.current
    }

    /// An iterator whose first identifier is `0`.
    pub fn new() -> (r: IdIterator)
        ensures
            r.current() == 0,
    {
        IdIterator { current: 0 }
    }

    /// Returns the current identifier and moves on to its successor, wrapping
    /// from `u128::MAX` to `0`.
    pub fn next(&mut self) -> (r: Option<u128>)
        ensures
            r == Some(old(self).current()),
            final(self).current() == next_id_after(old(self).current()),
    {
        let current = self.current;
        self.current = if current < u128::MAX {
            current + 1
        } else {
            0
        };
        Some(current)
    }
}

} // verus!
