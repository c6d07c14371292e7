use p2p_network::codec::{ClientAction, ClientEvent, EchoClient};
use p2p_network::codec::{decode_frame, encode_frame, frame_body_len, EchoRequest, EchoResponse, FrameError};
use p2p_network::encoding::{push_u64_le, u16_from_be_bytes, u16_to_be_bytes};
use p2p_network::header::{HeaderError, StreamHeader, XStreamHeader, HEADER_SIZE};
use p2p_network::pending::PendingStreamsManager;
use p2p_network::types::{SubstreamRole, XStreamID};

#[test]
fn header_format_of_pair_12345() {
    let id: u128 = 12345;
    let header = StreamHeader::make(id, true);
    assert_eq!(header.len(), HEADER_SIZE);
    let parsed = StreamHeader::from_bytes(&header);
    assert_eq!(parsed.id, id);
    assert!(parsed.is_main);
}

#[test]
fn pending_header_bytes_are_network_order_then_role() {
    let header = PendingStreamsManager::<u8, u8>::make_header(0x0102, false);
    let mut expected = vec![0u8; 14];
    expected.push(0x01);
    expected.push(0x02);
    expected.push(0);
    assert_eq!(header, expected);
    let main = StreamHeader::make(1, true);
    assert_eq!(main[16], 1);
}

#[test]
fn any_nonzero_role_byte_is_main() {
    let mut bytes = StreamHeader::make(9, false);
    bytes[16] = 7;
    let parsed = StreamHeader::from_bytes(&bytes);
    assert_eq!(parsed.id, 9);
    assert!(parsed.is_main);
}

#[test]
fn xstream_header_round_trip() {
    let header = XStreamHeader::new(XStreamID(u128::MAX - 5), SubstreamRole::Error);
    let bytes = header.to_bytes();
    assert_eq!(bytes.len(), HEADER_SIZE);
    assert_eq!(bytes[16], 1);
    let back = XStreamHeader::from_bytes(&bytes).unwrap();
    assert_eq!(back.stream_id, XStreamID(u128::MAX - 5));
    assert_eq!(back.stream_type, SubstreamRole::Error);
}

#[test]
fn xstream_header_reads_only_the_first_seventeen_bytes() {
    let mut bytes = XStreamHeader::new(XStreamID(77), SubstreamRole::Main).to_bytes();
    bytes.extend_from_slice(&[9, 9, 9]);
    let back = XStreamHeader::from_bytes(&bytes).unwrap();
    assert_eq!(back.stream_id, XStreamID(77));
    assert_eq!(back.stream_type, SubstreamRole::Main);
}

#[test]
fn truncated_xstream_header_is_refused() {
    let bytes = vec![0u8; HEADER_SIZE - 1];
    assert_eq!(XStreamHeader::from_bytes(&bytes).unwrap_err(), HeaderError::Truncated);
}

#[test]
fn two_byte_network_order() {
    assert_eq!(u16_to_be_bytes(0x1234), [0x12, 0x34]);
    assert_eq!(u16_from_be_bytes(0xab, 0xcd), 0xabcd);
}

#[test]
fn little_endian_u64_append() {
    let mut out = vec![0xff];
    push_u64_le(&mut out, 0x0102030405060708);
    assert_eq!(out, vec![0xff, 8, 7, 6, 5, 4, 3, 2, 1]);
}

#[test]
fn frame_round_trip() {
    let frame = encode_frame(b"hello").unwrap();
    assert_eq!(frame, vec![0, 5, b'h', b'e', b'l', b'l', b'o']);
    assert_eq!(decode_frame(&frame).unwrap(), b"hello".to_vec());
}

#[test]
fn empty_frame() {
    let frame = encode_frame(&[]).unwrap();
    assert_eq!(frame, vec![0, 0]);
    assert_eq!(decode_frame(&frame).unwrap(), Vec::<u8>::new());
}

#[test]
fn frame_length_prefix() {
    assert_eq!(frame_body_len(1, 0), 256);
    assert_eq!(frame_body_len(0xff, 0xff), 65535);
}

#[test]
fn oversized_message_is_refused() {
    let data = vec![0u8; 65536];
    assert_eq!(encode_frame(&data).unwrap_err(), FrameError::MessageTooLong);
    let largest = vec![1u8; 65535];
    let frame = encode_frame(&largest).unwrap();
    assert_eq!(frame.len(), 65537);
    assert_eq!(&frame[..2], &[0xff, 0xff]);
}

#[test]
fn truncated_frame_is_refused() {
    assert_eq!(decode_frame(&[0]).unwrap_err(), FrameError::Truncated);
    assert_eq!(decode_frame(&[0, 3, 1, 2]).unwrap_err(), FrameError::Truncated);
}

#[test]
fn frame_ignores_trailing_bytes() {
    assert_eq!(decode_frame(&[0, 2, 7, 8, 9]).unwrap(), vec![7, 8]);
}

#[test]
fn echo_messages_frame_their_bytes() {
    let req = EchoRequest(b"ping".to_vec());
    assert_eq!(req.to_frame().unwrap(), vec![0, 4, b'p', b'i', b'n', b'g']);
    let resp = EchoResponse(vec![1, 2, 3]);
    assert_eq!(resp.to_frame().unwrap(), vec![0, 3, 1, 2, 3]);
}

#[test]
fn echo_reply_names_the_text() {
    assert_eq!(p2p_network::codec::echo_reply_text("hi"), "ответ от сервера: hi");
}

#[test]
fn echo_client_sends_only_when_connected_and_stops_on_close() {
    let mut c = EchoClient::new();
    assert!(matches!(c.step(ClientEvent::Line("hi".to_string())), ClientAction::NotConnected));
    assert!(matches!(c.step(ClientEvent::Connected { peer_id: b"srv".to_vec() }), ClientAction::Greet));
    match c.step(ClientEvent::Line("hi".to_string())) {
        ClientAction::Send { peer_id, text } => {
            assert_eq!(peer_id, b"srv".to_vec());
            assert_eq!(text, "hi");
        }
        other => panic!("unexpected {other:?}"),
    }
    assert!(matches!(c.step(ClientEvent::ConnectionClosed), ClientAction::Stop));
}

#[test]
fn identifiers_count_from_zero() {
    let mut it = p2p_network::types::IdIterator::new();
    for k in 0..5u128 {
        assert_eq!(it.next(), Some(k));
    }
}
