//! Stream headers: the seventeen bytes that open every substream, a
//! network-order `u128` identifier followed by one role byte.
use byteorder::{ByteOrder, NetworkEndian};
use vstd::prelude::*;

use crate::encoding::{be_value, lemma_sixteen_bytes_fit_u128, lemma_u128_be_roundtrip, u128_be};
use crate::types::{SubstreamRole, XStreamID};

verus! {

/// Size of a stream header: sixteen identifier bytes and one role byte.
pub const HEADER_SIZE: usize = 17;

/// `NetworkEndian::write_u128` (byteorder): stores the sixteen network-order
/// bytes of `n` at the front of `buf`; the crate panics when `buf` is shorter
/// than sixteen bytes, which `requires` rules out.
#[verifier::external_body]
fn write_u128_network_order(buf: &mut [u8], n: u128)
    requires
        old(buf)@.len() >= 16,
    ensures
        final(buf)@ == u128_be(n) + old(buf)@.skip(16),
{
    NetworkEndian::write_u128(buf, n)
}

/// `NetworkEndian::read_u128` (byteorder): the `u128` that the first sixteen
/// bytes of `buf` denote in network order; the crate panics when `buf` is
/// shorter than sixteen bytes, which `requires` rules out.
#[verifier::external_body]
fn read_u128_network_order(buf: &[u8]) -> (r: u128)
    requires
        buf@.len() >= 16,
    ensures
        r == be_value(buf@.take(16)),
{
    NetworkEndian::read_u128(buf)
}

/// The header bytes for identifier `id` followed by the role byte `tag`.
pub open spec fn header_bytes(id: u128, tag: u8) -> Seq<u8> {
    u128_be(id).push(tag)
}

/// The identifier that the first sixteen bytes of a header denote.
pub open spec fn header_id(s: Seq<u8>) -> u128 {
    be_value(s.take(16)) as u128
}

/// Seventeen bytes: the network-order identifier and the tag byte.
fn encode_header(id: u128, tag: u8) -> (r: Vec<u8>)
    ensures
        r@ == header_bytes(id, tag),
        r@.len() == HEADER_SIZE,
{
    let mut buf: Vec<u8> = vec![0u8; 16];
    write_u128_network_order(buf.as_mut_slice(), id);
    proof {
        lemma_u128_be_roundtrip(id);
        assert(buf@ =~= u128_be(id));
    }
    buf.push(tag);
    buf
}

/// Reads the identifier and the tag byte of a header.
fn decode_header(bytes: &[u8]) -> (r: (u128, u8))
    requires
        bytes@.len() >= HEADER_SIZE,
    ensures
        r.0 == header_id(bytes@),
        r.1 == bytes@[16],
{
    let id = read_u128_network_order(bytes);
    proof {
        lemma_sixteen_bytes_fit_u128(bytes@.take(16));
    }
    (id, bytes[16])
}

/// Header of an XStream substream: the stream's identifier and the
/// substream's role.
#[derive(Debug, Clone)]
pub struct XStreamHeader {
    pub stream_id: XStreamID,
    pub stream_type: SubstreamRole,
}

/// Errors of header decoding.
#[derive(Debug, Clone, Copy, PartialEq, Eq, Structural)]
pub enum HeaderError {
    /// Fewer than `HEADER_SIZE` bytes were available.
    Truncated,
}

impl XStreamHeader {
    /// A header for the given stream and role.
    pub fn new(stream_id: XStreamID, stream_type: SubstreamRole) -> (r: XStreamHeader)
        ensures
            r.stream_id == stream_id,
            r.stream_type == stream_type,
    {
        XStreamHeader { stream_id, stream_type }
    }

    /// The wire form of this header.
    pub open spec fn wire(self) -> Seq<u8> {
        header_bytes(self.stream_id.0, self.stream_type.byte())
    }

    /// The header that the first seventeen bytes of `s` denote.
    pub open spec fn parse(s: Seq<u8>) -> XStreamHeader {
        XStreamHeader {
            stream_id: XStreamID(header_id(s)),
            stream_type: SubstreamRole::from_byte(s[16]),
        }
    }

    /// The seventeen bytes that announce this header on a substream: the
    /// identifier in network order, then `0` for the main stream or `1` for the
    /// error stream.
    pub fn to_bytes(&self) -> (r: Vec<u8>)
        ensures
            r@ == self.wire(),
            r@.len() == HEADER_SIZE,
    {
        encode_header(self.stream_id.0, self.stream_type.to_u8())
    }

    /// The header at the front of `bytes`; `Truncated` when fewer than
    /// `HEADER_SIZE` bytes are given. Any role byte other than `1` denotes the
    /// main stream.
    pub fn from_bytes(bytes: &[u8]) -> (r: Result<XStreamHeader, HeaderError>)
        ensures
            bytes@.len() < HEADER_SIZE <==> r is Err,
            r is Err ==> r == Err::<XStreamHeader, HeaderError>(HeaderError::Truncated),
            r matches Ok(h) ==> h == XStreamHeader::parse(bytes@),
    {
        if bytes.len() < HEADER_SIZE {
            return Err(HeaderError::Truncated);
        }
        let (id, tag) = decode_header(bytes);
        Ok(XStreamHeader { stream_id: XStreamID(id), stream_type: SubstreamRole::from(tag) })
    }
}

/// Header of a pending substream as the stream manager reads it: the pair
/// identifier and whether this is the main substream.
#[derive(Debug, Clone, Copy, PartialEq, Eq, Structural)]
pub struct StreamHeader {
    /// Identifier shared by the two substreams of a pair.
    pub id: u128,
    /// `true` for the main substream, `false` for the error substream.
    pub is_main: bool,
}

impl StreamHeader {
    /// The wire form of a header: the identifier, then `1` for main or `0` for
    /// the error substream.
    pub open spec fn wire(id: u128, is_main: bool) -> Seq<u8> {
        header_bytes(id, if is_main { 1u8 } else { 0u8 })
    }

    /// The header that the first seventeen bytes of `s` denote: any nonzero
    /// role byte marks the main substream.
    pub open spec fn parse(s: Seq<u8>) -> StreamHeader {
        StreamHeader { id: header_id(s), is_main: s[16] != 0 }
    }

    /// The seventeen header bytes for identifier `id` and the given role.
    pub fn make(id: u128, is_main: bool) -> (r: Vec<u8>)
        ensures
            r@ == StreamHeader::wire(id, is_main),
            r@.len() == HEADER_SIZE,
    {
        let tag: u8 = if is_main {
            1
        } else {
            0
        };
        encode_header(id, tag)
    }

    /// The header that seventeen received bytes denote.
    pub fn from_bytes(bytes: &[u8]) -> (r: StreamHeader)
        requires
            bytes@.len() == HEADER_SIZE,
        ensures
            r == StreamHeader::parse(bytes@),
    {
        let (id, tag) = decode_header(bytes);
        StreamHeader { id, is_main: tag != 0 }
    }
}

/// Reading an XStream header back from its wire form gives the same header.
pub proof fn law_xstream_header_roundtrip(h: XStreamHeader)
    ensures
        h.wire().len() == HEADER_SIZE,
        XStreamHeader::parse(h.wire()) == h,
{
    lemma_u128_be_roundtrip(h.stream_id.0);
    assert(h.wire().take(16) =~= u128_be(h.stream_id.0));
}

/// Seventeen bytes whose role byte is `0` or `1` are exactly the wire form of
/// the header they denote.
pub proof fn law_xstream_header_bytes_roundtrip(s: Seq<u8>)
    requires
        s.len() == HEADER_SIZE,
        s[16] <= 1,
    ensures
        XStreamHeader::parse(s).wire() =~= s,
{
    lemma_sixteen_bytes_fit_u128(s.take(16));
    assert(s.take(16).push(s[16]) =~= s);
}

/// Reading a pending-stream header back from its wire form gives the same
/// identifier and role.
pub proof fn law_stream_header_roundtrip(id: u128, is_main: bool)
    ensures
        StreamHeader::wire(id, is_main).len() == HEADER_SIZE,
        StreamHeader::parse(StreamHeader::wire(id, is_main)) == (StreamHeader { id, is_main }),
{
    lemma_u128_be_roundtrip(id);
    assert(StreamHeader::wire(id, is_main).take(16) =~= u128_be(id));
}

} // verus!
