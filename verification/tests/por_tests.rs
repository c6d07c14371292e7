use libp2p::identity::Keypair;
use p2p_network::por::{PorUtils, ProofOfRepresentation};

fn owner_keypair() -> Vec<u8> {
    PorUtils::generate_owner_keypair().unwrap()
}

#[test]
fn created_proof_is_valid_in_its_window_only() {
    let kp = owner_keypair();
    let p = ProofOfRepresentation::create(&kp, "12D3KooWnode".to_string(), 1_000, 3_600).unwrap();
    assert_eq!(p.issued_at, 1_000);
    assert_eq!(p.expires_at, 4_600);
    assert_eq!(p.peer_id, "12D3KooWnode");
    assert_eq!(p.validate(1_000), Ok(()));
    assert_eq!(p.validate(4_600), Ok(()));
    assert_eq!(p.validate(999), Err("POR not yet valid".to_string()));
    assert_eq!(p.validate(4_601), Err("POR has expired".to_string()));
}

#[test]
fn proof_carries_the_owner_public_key() {
    let kp = owner_keypair();
    let expected = Keypair::from_protobuf_encoding(&kp).unwrap().public().encode_protobuf();
    let p = ProofOfRepresentation::create_with_times(&kp, "peer".to_string(), 5, 10).unwrap();
    assert_eq!(p.owner_public_key, expected);
    assert_ne!(p.owner_public_key, kp);
    assert_eq!(p.verify_signature(), Ok(()));
}

#[test]
fn tampered_proof_is_refused() {
    let kp = owner_keypair();
    let p = ProofOfRepresentation::create(&kp, "peer-a".to_string(), 0, 100).unwrap();
    let mut other_peer = p.clone();
    other_peer.peer_id = "peer-b".to_string();
    assert_eq!(other_peer.verify_signature(), Err("Invalid signature".to_string()));
    assert_eq!(other_peer.validate(50), Err("Invalid signature".to_string()));
    let mut longer = p.clone();
    longer.expires_at = 200;
    assert_eq!(longer.validate(50), Err("Invalid signature".to_string()));
    let mut bad_sig = p.clone();
    bad_sig.signature[0] ^= 0xff;
    assert_eq!(bad_sig.verify_signature(), Err("Invalid signature".to_string()));
}

#[test]
fn proof_by_another_owner_is_refused() {
    let kp = owner_keypair();
    let other = owner_keypair();
    let mut p = ProofOfRepresentation::create(&kp, "peer".to_string(), 0, 100).unwrap();
    let q = ProofOfRepresentation::create(&other, "peer".to_string(), 0, 100).unwrap();
    p.owner_public_key = q.owner_public_key.clone();
    assert_eq!(p.verify_signature(), Err("Invalid signature".to_string()));
}

#[test]
fn undecodable_key_is_refused() {
    let p = ProofOfRepresentation {
        owner_public_key: vec![1, 2, 3],
        peer_id: "peer".to_string(),
        issued_at: 0,
        expires_at: 10,
        signature: vec![0; 64],
    };
    assert_eq!(p.verify_signature(), Err("Invalid signature".to_string()));
}

#[test]
fn bad_owner_keypair_is_reported() {
    let err = ProofOfRepresentation::create(b"not a key", "peer".to_string(), 0, 10).unwrap_err();
    assert!(err.starts_with("Invalid key format: "));
    let err = PorUtils::keypair_from_bytes(b"not a key").unwrap_err();
    assert!(err.starts_with("Invalid key format: "));
    assert!(PorUtils::peer_id_from_keypair(b"not a key").is_err());
}

#[test]
fn keypair_helpers() {
    let kp = owner_keypair();
    assert_eq!(PorUtils::keypair_from_bytes(&kp).unwrap(), kp);
    let expected = Keypair::from_protobuf_encoding(&kp).unwrap().public().to_peer_id().to_string();
    assert_eq!(PorUtils::peer_id_from_keypair(&kp).unwrap(), expected);
}

#[test]
fn expiry_and_remaining_time() {
    let kp = owner_keypair();
    let p = ProofOfRepresentation::create(&kp, "peer".to_string(), 100, 50).unwrap();
    assert!(!p.is_expired(150));
    assert!(p.is_expired(151));
    assert_eq!(p.remaining_time(120), Some(30));
    assert_eq!(p.remaining_time(150), Some(0));
    assert_eq!(p.remaining_time(151), None);
}

#[test]
fn signed_message_layout() {
    let msg = ProofOfRepresentation::prepare_message_for_signing(&[9, 8], "ab", 1, 2);
    let mut expected = vec![9, 8, b'a', b'b'];
    expected.extend_from_slice(&1u64.to_le_bytes());
    expected.extend_from_slice(&2u64.to_le_bytes());
    assert_eq!(msg, expected);
}

#[test]
fn duplicate_keeps_content() {
    let kp = owner_keypair();
    let p = ProofOfRepresentation::create(&kp, "peer".to_string(), 1, 2).unwrap();
    let d = p.duplicate();
    assert_eq!(d.owner_public_key, p.owner_public_key);
    assert_eq!(d.peer_id, p.peer_id);
    assert_eq!(d.signature, p.signature);
    assert_eq!(d.validate(2), Ok(()));
}

#[test]
fn represent_record_is_checked_against_the_owner() {
    let kp = owner_keypair();
    let record = p2p_network::por::RepresentRecord::new(&kp, b"node").unwrap();
    let owner = libp2p::identity::Keypair::from_protobuf_encoding(&kp).unwrap();
    assert_eq!(record.owner_public_key, owner.public().encode_protobuf());
    assert_eq!(record.check().unwrap(), owner.public().to_peer_id().to_bytes());
    let mut forged = record.clone();
    forged.peer_id = b"other".to_vec();
    assert_eq!(forged.check().unwrap_err(), "so bad(");
    assert!(p2p_network::por::RepresentRecord::new(b"not a key", b"node").is_err());
}

#[test]
fn generated_keys_decode_and_bad_keys_are_named() {
    let kp = owner_keypair();
    assert_eq!(PorUtils::keypair_from_bytes(&kp).unwrap(), kp);
    assert!(PorUtils::peer_id_from_keypair(&kp).is_ok());
    let err = ProofOfRepresentation::create(b"not a key", "node".to_string(), 0, 10).unwrap_err();
    assert!(err.starts_with("Invalid key format: "));
    assert!(p2p_network::por::RepresentRecord::new(b"not a key", b"node").is_err());
}

#[test]
fn owner_public_key_is_checked_when_read() {
    let kp = owner_keypair();
    let p = ProofOfRepresentation::create(&kp, "peer".to_string(), 0, 10).unwrap();
    assert_eq!(PorUtils::public_key_from_bytes(&p.owner_public_key).unwrap(), p.owner_public_key);
    let expected = Keypair::from_protobuf_encoding(&kp).unwrap().public().encode_protobuf();
    assert_eq!(p.owner_public_key, expected);
    let err = PorUtils::public_key_from_bytes(b"not a key").unwrap_err();
    assert!(err.starts_with("Invalid public key: "));
    assert!(err.len() > "Invalid public key: ".len());
}
