use p2p_network::types::{IdIterator, SubstreamRole, XStreamID, XStreamIDIterator, XStreamState};

#[test]
fn test_xstream_id_iterator() {
    let mut iter = XStreamIDIterator::new();

    assert_eq!(iter.next(), Some(XStreamID(0)));
    assert_eq!(iter.next(), Some(XStreamID(1)));
    assert_eq!(iter.next(), Some(XStreamID(2)));

    let mut clone_iter = iter.clone();
    assert_eq!(clone_iter.next(), Some(XStreamID(3)));
    assert_eq!(iter.next(), Some(XStreamID(4)));
}

#[test]
fn test_xstream_id_conversion() {
    let id = XStreamID(42);
    let value: u128 = id.into();
    assert_eq!(value, 42);

    let id_back = XStreamID::from(value);
    assert_eq!(id, id_back);
}

#[test]
fn test_xstream_id_display() {
    let id = XStreamID(42);
    assert_eq!(id.to_decimal_string(), "42");
}

#[test]
fn test_substream_role_from_u8() {
    assert_eq!(SubstreamRole::from(0), SubstreamRole::Main);
    assert_eq!(SubstreamRole::from(1), SubstreamRole::Error);
    assert_eq!(SubstreamRole::from(2), SubstreamRole::Main);
}

#[test]
fn test_xstream_state_from_u8() {
    assert_eq!(XStreamState::from(0), XStreamState::Open);
    assert_eq!(XStreamState::from(1), XStreamState::LocalClosed);
    assert_eq!(XStreamState::from(2), XStreamState::RemoteClosed);
    assert_eq!(XStreamState::from(3), XStreamState::FullyClosed);
    assert_eq!(XStreamState::from(4), XStreamState::Open);
}

#[test]
fn id_iterator_with_start_continues_from_start() {
    let mut iter = XStreamIDIterator::with_start(1000);
    assert_eq!(iter.next(), Some(XStreamID(1000)));
    assert_eq!(iter.next(), Some(XStreamID(1001)));
}

#[test]
fn id_iterator_carries_into_high_half() {
    let start: u128 = u64::MAX as u128;
    let mut iter = XStreamIDIterator::with_start(start);
    // The start comes first; then the low half wraps and the high half carries.
    assert_eq!(iter.next(), Some(XStreamID(start)));
    assert_eq!(iter.next(), Some(XStreamID(1u128 << 64)));
    assert_eq!(iter.next(), Some(XStreamID((1u128 << 64) | 1)));
}

#[test]
fn id_parts_round_trip() {
    let value: u128 = (7u128 << 64) | 99;
    let (high, low) = XStreamID::split_parts(value);
    assert_eq!(high, 7);
    assert_eq!(low, 99);
    assert_eq!(XStreamID::from_parts(high, low), XStreamID(value));
}

#[test]
fn decimal_string_of_large_and_zero_ids() {
    assert_eq!(XStreamID(0).to_decimal_string(), "0");
    assert_eq!(XStreamID(u128::MAX).to_decimal_string(), u128::MAX.to_string());
    assert_eq!(XStreamID(1_000_000).to_decimal_string(), "1000000");
}

#[test]
fn plain_id_iterator_counts_from_zero() {
    let mut iter = IdIterator::new();
    assert_eq!(iter.next(), Some(0));
    assert_eq!(iter.next(), Some(1));
    assert_eq!(iter.next(), Some(2));
}

#[test]
fn role_and_state_bytes_round_trip() {
    assert_eq!(SubstreamRole::from(SubstreamRole::Error.to_u8()), SubstreamRole::Error);
    assert_eq!(SubstreamRole::Main.to_u8(), 0);
    assert_eq!(XStreamState::FullyClosed.to_u8(), 3);
    assert_eq!(XStreamState::from(XStreamState::RemoteClosed.to_u8()), XStreamState::RemoteClosed);
}
