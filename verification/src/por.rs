//! Proof of representation: an owner's signed statement that a node (a peer
//! id) represents it during a validity window.
use libp2p::identity::{Keypair, PublicKey};
use vstd::prelude::*;

use crate::encoding::{push_u64_le, u64_le};
use crate::routes::copy_bytes;

verus! {

broadcast use vstd::string::group_string_axioms;

/// Whether the public key whose protobuf encoding is `key` accepts `sig` as a
/// signature of `msg` (`PublicKey::verify` of libp2p; bytes that decode to no
/// key accept nothing).
pub uninterp spec fn signature_accepted(key: Seq<u8>, msg: Seq<u8>, sig: Seq<u8>) -> bool;

/// The protobuf encoding of the public key of the keypair whose protobuf
/// encoding is `keypair` (`Keypair::public` of libp2p).
pub uninterp spec fn keypair_public_key(keypair: Seq<u8>) -> Seq<u8>;

/// How `Keypair::from_protobuf_encoding` (libp2p) takes the bytes `keypair`:
/// `None` when they decode to a keypair, otherwise the text of the decoding
/// error.
pub uninterp spec fn keypair_decoding_error(keypair: Seq<u8>) -> Option<Seq<char>>;

/// How `PublicKey::try_decode_protobuf` (libp2p) takes the bytes `key`:
/// `None` when they decode to a public key, otherwise the text of the decoding
/// error.
pub uninterp spec fn key_decoding_error(key: Seq<u8>) -> Option<Seq<char>>;

/// Whether the bytes `key` decode to a public key.
pub open spec fn key_decodes(key: Seq<u8>) -> bool {
    key_decoding_error(key) is None
}

/// `PublicKey::try_decode_protobuf` then `PublicKey::verify` (libp2p): decodes
/// the key and checks the signature; the result is named `signature_accepted`.
/// Bytes that are no key encoding yield `false`, so an accepted signature
/// means that the key decodes.
#[verifier::external_body]
fn verify_with_encoded_key(key: &[u8], msg: &[u8], sig: &[u8]) -> (r: bool)
    ensures
        r == signature_accepted(key@, msg@, sig@),
        r ==> key_decodes(key@),
{
    match PublicKey::try_decode_protobuf(key) {
        Ok(k) => k.verify(msg, sig),
        Err(_) => false,
    }
}

/// `Keypair::from_protobuf_encoding` then `Keypair::public` and
/// `PublicKey::encode_protobuf` (libp2p): the encoded public key of an encoded
/// keypair, named `keypair_public_key`; `Err` carries the decoding error's text
/// (named by `keypair_decoding_error`) exactly when the bytes do not decode.
#[verifier::external_body]
fn public_key_of_encoded_keypair(keypair: &[u8]) -> (r: Result<Vec<u8>, String>)
    ensures
        r is Ok <==> keypair_decoding_error(keypair@) is None,
        r matches Ok(k) ==> k@ == keypair_public_key(keypair@),
        r matches Err(e) ==> keypair_decoding_error(keypair@) == Some(e@),
{
    match Keypair::from_protobuf_encoding(keypair) {
        Ok(kp) => Ok(kp.public().encode_protobuf()),
        Err(e) => Err(e.to_string()),
    }
}

/// `Keypair::from_protobuf_encoding` then `Keypair::sign` (libp2p): signs `msg`
/// with an encoded keypair. A signature it returns is one that the keypair's
/// public key accepts for `msg`, which is what a signature made with the
/// matching private key is; its bytes are otherwise left unstated. This build
/// compiles libp2p's Ed25519 keys only, whose signing cannot fail, so `Err`
/// comes exactly when the bytes do not decode, with the decoding error's text.
#[verifier::external_body]
fn sign_with_encoded_keypair(keypair: &[u8], msg: &[u8]) -> (r: Result<Vec<u8>, String>)
    ensures
        r is Ok <==> keypair_decoding_error(keypair@) is None,
        r matches Ok(sig) ==> signature_accepted(keypair_public_key(keypair@), msg@, sig@),
        r matches Err(e) ==> keypair_decoding_error(keypair@) == Some(e@),
{
    match Keypair::from_protobuf_encoding(keypair) {
        Ok(kp) => kp.sign(msg).map_err(|e| e.to_string()),
        Err(e) => Err(e.to_string()),
    }
}

/// `Keypair::generate_ed25519` then `Keypair::to_protobuf_encoding` (libp2p): a
/// fresh random keypair in protobuf encoding. Randomness leaves its bytes
/// unstated; the encoding of an Ed25519 keypair always succeeds and decodes
/// back (`Keypair::from_protobuf_encoding` accepts it).
#[verifier::external_body]
fn generate_encoded_ed25519_keypair() -> (r: Result<Vec<u8>, String>)
    ensures
        r is Ok,
        r matches Ok(k) ==> keypair_decoding_error(k@) is None,
{
    Keypair::generate_ed25519().to_protobuf_encoding().map_err(|e| e.to_string())
}

/// `Keypair::from_protobuf_encoding` then `PeerId` of its public key, printed
/// in base58 (libp2p); named by `keypair_peer_id_text`. `Err` carries the
/// decoding error's text exactly when the bytes do not decode.
#[verifier::external_body]
fn peer_id_text_of_encoded_keypair(keypair: &[u8]) -> (r: Result<String, String>)
    ensures
        r is Ok <==> keypair_decoding_error(keypair@) is None,
        r matches Ok(t) ==> t@ == keypair_peer_id_text(keypair@),
        r matches Err(e) ==> keypair_decoding_error(keypair@) == Some(e@),
{
    match Keypair::from_protobuf_encoding(keypair) {
        Ok(kp) => Ok(kp.public().to_peer_id().to_string()),
        Err(e) => Err(e.to_string()),
    }
}

/// The base58 text of the peer id of the keypair whose protobuf encoding is
/// `keypair`.
pub uninterp spec fn keypair_peer_id_text(keypair: Seq<u8>) -> Seq<char>;

/// The binary peer id of the public key whose protobuf encoding is `key`.
pub uninterp spec fn key_peer_id(key: Seq<u8>) -> Seq<u8>;

/// `PublicKey::try_decode_protobuf`, `PublicKey::to_peer_id` and
/// `PeerId::to_bytes` (libp2p): the binary peer id of an encoded public key,
/// named `key_peer_id`; `Err`, with the decoding error's text (named
/// `key_decoding_error`), exactly when the key does not decode.
#[verifier::external_body]
fn peer_id_of_encoded_key(key: &[u8]) -> (r: Result<Vec<u8>, String>)
    ensures
        r is Ok <==> key_decodes(key@),
        r matches Ok(p) ==> p@ == key_peer_id(key@),
        r matches Err(e) ==> key_decoding_error(key@) == Some(e@),
{
    match PublicKey::try_decode_protobuf(key) {
        Ok(k) => Ok(k.to_peer_id().to_bytes()),
        Err(e) => Err(e.to_string()),
    }
}

/// The message that a proof of representation signs: the owner's encoded
/// public key, the peer id's text in UTF-8, then the start and end of the
/// validity window as little-endian `u64`s.
pub open spec fn por_message(key: Seq<u8>, peer_id: Seq<char>, issued_at: u64, expires_at: u64) -> Seq<
    u8,
> {
    key + vstd::utf8::encode_utf8(peer_id) + u64_le(issued_at) + u64_le(expires_at)
}

fn push_bytes(out: &mut Vec<u8>, bytes: &[u8])
    ensures
        final(out)@ == old(out)@ + bytes@,
{
    let mut i: usize = 0;
    while i < bytes.len()
        invariant
            0 <= i <= bytes@.len(),
            out@ == old(out)@ + bytes@.take(i as int),
        decreases bytes@.len() - i,
    {
        out.push(bytes[i]);
        i = i + 1;
        assert(out@ =~= old(out)@ + bytes@.take(i as int));
    }
    assert(bytes@.take(bytes@.len() as int) =~= bytes@);
}

/// Why a proof of representation was refused.
pub open spec fn validation_error(p: ProofOfRepresentation, now: u64) -> Option<Seq<char>> {
    if now < p.issued_at {
        Some("POR not yet valid"@)
    } else if now > p.expires_at {
        Some("POR has expired"@)
    } else if !p.well_signed() {
        Some("Invalid signature"@)
    } else {
        None
    }
}

/// A credential certifying that the node with peer id `peer_id` represents the
/// owner of `owner_public_key` from `issued_at` to `expires_at` (UNIX seconds).
#[derive(Debug, Clone)]
pub struct ProofOfRepresentation {
    /// The owner's public key, protobuf-encoded.
    pub owner_public_key: Vec<u8>,
    /// The represented node's peer id, in base58 text.
    pub peer_id: String,
    /// Start of validity, UNIX seconds.
    pub issued_at: u64,
    /// End of validity, UNIX seconds.
    pub expires_at: u64,
    /// The owner's signature of the message.
    pub signature: Vec<u8>,
}

/// The abstract content of a proof of representation.
pub struct PorView {
    pub owner_public_key: Seq<u8>,
    pub peer_id: Seq<char>,
    pub issued_at: u64,
    pub expires_at: u64,
    pub signature: Seq<u8>,
}

impl View for ProofOfRepresentation {
    type V = PorView;

    open spec fn view(&self) -> PorView {
        PorView {
            owner_public_key: self.owner_public_key@,
            peer_id: self.peer_id@,
            issued_at: self.issued_at,
            expires_at: self.expires_at,
            signature: self.signature@,
        }
    }
}

impl ProofOfRepresentation {
    /// A copy with the same content.
    pub fn duplicate(&self) -> (r: Self)
        ensures
            r@ == self@,
    {
        ProofOfRepresentation {
            owner_public_key: copy_bytes(self.owner_public_key.as_slice()),
            peer_id: self.peer_id.clone(),
            issued_at: self.issued_at,
            expires_at: self.expires_at,
            signature: copy_bytes(self.signature.as_slice()),
        }
    }

    /// The message this credential signs.
    pub open spec fn message(self) -> Seq<u8> {
        por_message(self.owner_public_key@, self.peer_id@, self.issued_at, self.expires_at)
    }

    /// Whether the owner's key accepts the signature of the message.
    pub open spec fn well_signed(self) -> bool {
        signature_accepted(self.owner_public_key@, self.message(), self.signature@)
    }

    /// Whether the credential is accepted at time `now`.
    pub open spec fn valid_at(self, now: u64) -> bool {
        validation_error(self, now) is None
    }

    /// The bytes that the owner signs for the given fields.
    pub fn prepare_message_for_signing(
        owner_public_key: &[u8],
        peer_id: &str,
        issued_at: u64,
        expires_at: u64,
    ) -> (r: Vec<u8>)
        ensures
            r@ == por_message(owner_public_key@, peer_id@, issued_at, expires_at),
    {
        let mut message: Vec<u8> = Vec::new();
        push_bytes(&mut message, owner_public_key);
        push_bytes(&mut message, peer_id.as_bytes());
        push_u64_le(&mut message, issued_at);
        push_u64_le(&mut message, expires_at);
        assert(message@ =~= por_message(owner_public_key@, peer_id@, issued_at, expires_at));
        message
    }

    /// A credential for `peer_id` valid from `issued_at` to `expires_at`,
    /// signed with the owner's keypair (protobuf-encoded). Fails, exactly when
    /// the keypair does not decode, with "Invalid key format: " and the
    /// decoding error; signing a decoded keypair does not fail.
    pub fn create_with_times(
        owner_keypair: &[u8],
        peer_id: String,
        issued_at: u64,
        expires_at: u64,
    ) -> (r: Result<ProofOfRepresentation, String>)
        ensures
            r is Ok <==> keypair_decoding_error(owner_keypair@) is None,
            keypair_decoding_error(owner_keypair@) matches Some(t) ==> (r matches Err(e) && e@
                == "Invalid key format: "@ + t),
            r matches Ok(p) ==> {
                &&& p.owner_public_key@ == keypair_public_key(owner_keypair@)
                &&& p.peer_id@ == peer_id@
                &&& p.issued_at == issued_at
                &&& p.expires_at == expires_at
                &&& p.well_signed()
            },
    {
        let public_key = match public_key_of_encoded_keypair(owner_keypair) {
            Ok(k) => k,
            Err(e) => {
                let mut msg = "Invalid key format: ".to_string();
                msg.append(e.as_str());
                return Err(msg);
            },
        };
        let message = Self::prepare_message_for_signing(
            public_key.as_slice(),
            peer_id.as_str(),
            issued_at,
            expires_at,
        );
        let signature = match sign_with_encoded_keypair(owner_keypair, message.as_slice()) {
            Ok(s) => s,
            Err(e) => {
                let mut msg = "Signature creation error: ".to_string();
                msg.append(e.as_str());
                return Err(msg);
            },
        };
        Ok(
            ProofOfRepresentation {
                owner_public_key: public_key,
                peer_id,
                issued_at,
                expires_at,
                signature,
            },
        )
    }

    /// A credential for `peer_id` valid for `validity_secs` seconds from `now`;
    /// fails as `create_with_times` does, exactly when the keypair does not
    /// decode.
    pub fn create(owner_keypair: &[u8], peer_id: String, now: u64, validity_secs: u64) -> (r: Result<
        ProofOfRepresentation,
        String,
    >)
        requires
            now + validity_secs <= u64::MAX,
        ensures
            r is Ok <==> keypair_decoding_error(owner_keypair@) is None,
            keypair_decoding_error(owner_keypair@) matches Some(t) ==> (r matches Err(e) && e@
                == "Invalid key format: "@ + t),
            r matches Ok(p) ==> {
                &&& p.owner_public_key@ == keypair_public_key(owner_keypair@)
                &&& p.peer_id@ == peer_id@
                &&& p.issued_at == now
                &&& p.expires_at == now + validity_secs
                &&& p.well_signed()
            },
    {
        Self::create_with_times(owner_keypair, peer_id, now, now + validity_secs)
    }

    /// Checks the signature: `Ok` when the owner's key accepts it, otherwise
    /// "Invalid signature".
    pub fn verify_signature(&self) -> (r: Result<(), String>)
        ensures
            r is Ok <==> self.well_signed(),
            r matches Err(e) ==> e@ == "Invalid signature"@,
    {
        let message = Self::prepare_message_for_signing(
            self.owner_public_key.as_slice(),
            self.peer_id.as_str(),
            self.issued_at,
            self.expires_at,
        );
        if verify_with_encoded_key(
            self.owner_public_key.as_slice(),
            message.as_slice(),
            self.signature.as_slice(),
        ) {
            Ok(())
        } else {
            Err("Invalid signature".to_string())
        }
    }

    /// Checks the credential at time `now` (UNIX seconds): "POR not yet valid"
    /// before the window, "POR has expired" after it, then the signature.
    pub fn validate(&self, now: u64) -> (r: Result<(), String>)
        ensures
            r is Ok <==> self.valid_at(now),
            r matches Err(e) ==> Some(e@) == validation_error(*self, now),
    {
        if now < self.issued_at {
            return Err("POR not yet valid".to_string());
        }
        if now > self.expires_at {
            return Err("POR has expired".to_string());
        }
        self.verify_signature()
    }

    /// Whether the window has ended at time `now`.
    pub fn is_expired(&self, now: u64) -> (r: bool)
        ensures
            r == (now > self.expires_at),
    {
        now > self.expires_at
    }

    /// Seconds of validity left at time `now`, or `None` once the window has
    /// ended.
    pub fn remaining_time(&self, now: u64) -> (r: Option<u64>)
        ensures
            now > self.expires_at ==> r is None,
            now <= self.expires_at ==> r == Some((self.expires_at - now) as u64),
    {
        if now > self.expires_at {
            None
        } else {
            Some(self.expires_at - now)
        }
    }
}

/// Helpers for owner keys, which travel protobuf-encoded.
pub struct PorUtils;

impl PorUtils {
    /// A fresh random Ed25519 keypair for an owner, protobuf-encoded: always
    /// produced, and always decodable.
    pub fn generate_owner_keypair() -> (r: Result<Vec<u8>, String>)
        ensures
            r matches Ok(k) && keypair_decoding_error(k@) is None,
    {
        generate_encoded_ed25519_keypair()
    }

    /// Checks that `secret_key_bytes` is a protobuf-encoded keypair and returns
    /// it; "Invalid key format: " with the decoding error otherwise.
    pub fn keypair_from_bytes(secret_key_bytes: &[u8]) -> (r: Result<Vec<u8>, String>)
        ensures
            r is Ok <==> keypair_decoding_error(secret_key_bytes@) is None,
            r matches Ok(k) ==> k@ == secret_key_bytes@,
            keypair_decoding_error(secret_key_bytes@) matches Some(t) ==> (r matches Err(e) && e@
                == "Invalid key format: "@ + t),
    {
        match public_key_of_encoded_keypair(secret_key_bytes) {
            Ok(_) => {
                let mut out: Vec<u8> = Vec::new();
                push_bytes(&mut out, secret_key_bytes);
                assert(out@ =~= secret_key_bytes@);
                Ok(out)
            },
            Err(e) => {
                let mut msg = "Invalid key format: ".to_string();
                msg.append(e.as_str());
                Err(msg)
            },
        }
    }

    /// Checks that `key` is a protobuf-encoded public key, as the owner key of a
    /// proof that arrives from a peer must be, and returns it; "Invalid public
    /// key: " with the decoding error otherwise.
    pub fn public_key_from_bytes(key: &[u8]) -> (r: Result<Vec<u8>, String>)
        ensures
            r is Ok <==> key_decodes(key@),
            r matches Ok(k) ==> k@ == key@,
            key_decoding_error(key@) matches Some(t) ==> (r matches Err(e) && e@
                == "Invalid public key: "@ + t),
    {
        match peer_id_of_encoded_key(key) {
            Ok(_) => {
                let mut out: Vec<u8> = Vec::new();
                push_bytes(&mut out, key);
                assert(out@ =~= key@);
                Ok(out)
            },
            Err(e) => {
                let mut msg = "Invalid public key: ".to_string();
                msg.append(e.as_str());
                Err(msg)
            },
        }
    }

    /// The peer id (base58 text) of the node that the keypair identifies; the
    /// decoding error's text when the keypair does not decode.
    pub fn peer_id_from_keypair(keypair: &[u8]) -> (r: Result<String, String>)
        ensures
            r is Ok <==> keypair_decoding_error(keypair@) is None,
            r matches Ok(t) ==> t@ == keypair_peer_id_text(keypair@),
            r matches Err(e) ==> keypair_decoding_error(keypair@) == Some(e@),
    {
        peer_id_text_of_encoded_keypair(keypair)
    }
}

/// An owner's signature over a node's binary peer id: the owner's encoded
/// public key, the node's peer id and the signature.
#[derive(Debug, Clone)]
pub struct RepresentRecord {
    pub owner_public_key: Vec<u8>,
    pub peer_id: Vec<u8>,
    pub signature: Vec<u8>,
}

impl RepresentRecord {
    /// The record in which the owner with the encoded keypair
    /// `owner_key_pair` signs `peer_id`; the decoding error's text when the
    /// keypair does not decode (signing a decoded keypair does not fail).
    pub fn new(owner_key_pair: &[u8], peer_id: &[u8]) -> (r: Result<RepresentRecord, String>)
        ensures
            r is Ok <==> keypair_decoding_error(owner_key_pair@) is None,
            r matches Err(e) ==> keypair_decoding_error(owner_key_pair@) == Some(e@),
            r matches Ok(rec) ==> {
                &&& rec.owner_public_key@ == keypair_public_key(owner_key_pair@)
                &&& rec.peer_id@ == peer_id@
                &&& signature_accepted(rec.owner_public_key@, rec.peer_id@, rec.signature@)
            },
    {
        let signature = sign_with_encoded_keypair(owner_key_pair, peer_id)?;
        let owner_public_key = public_key_of_encoded_keypair(owner_key_pair)?;
        Ok(RepresentRecord { owner_public_key, peer_id: copy_bytes(peer_id), signature })
    }

    /// Checks the owner's signature: the owner's binary peer id when it is
    /// accepted, "so bad(" when it is not.
    pub fn check(&self) -> (r: Result<Vec<u8>, String>)
        ensures
            !signature_accepted(self.owner_public_key@, self.peer_id@, self.signature@) ==> (r matches Err(
                e,
            ) && e@ == "so bad("@),
            signature_accepted(self.owner_public_key@, self.peer_id@, self.signature@) ==> (r matches Ok(
                p,
            ) && p@ == key_peer_id(self.owner_public_key@)),
    {
        if verify_with_encoded_key(
            self.owner_public_key.as_slice(),
            self.peer_id.as_slice(),
            self.signature.as_slice(),
        ) {
            peer_id_of_encoded_key(self.owner_public_key.as_slice())
        } else {
            Err("so bad(".to_string())
        }
    }
}

/// A credential that `create_with_times` produced is accepted at every moment
/// of its window.
pub proof fn law_created_por_valid_in_window(p: ProofOfRepresentation, now: u64)
    requires
        p.well_signed(),
        p.issued_at <= now <= p.expires_at,
    ensures
        p.valid_at(now),
{
}

/// A credential that `create` or `create_with_times` produced (it is well
/// signed) is judged by its window alone: accepted exactly inside it, refused
/// with "POR not yet valid" before it and with "POR has expired" after it.
pub proof fn law_created_por_judged_by_window(p: ProofOfRepresentation, now: u64)
    requires
        p.well_signed(),
    ensures
        validation_error(p, now) == if now < p.issued_at {
            Some("POR not yet valid"@)
        } else if now > p.expires_at {
            Some("POR has expired"@)
        } else {
            None::<Seq<char>>
        },
        p.valid_at(now) <==> p.issued_at <= now <= p.expires_at,
{
}

/// A credential is never accepted outside its window, and expiry and remaining
/// time agree: the window has ended exactly when no time remains.
pub proof fn law_expiry_agrees_with_validity(p: ProofOfRepresentation, now: u64)
    ensures
        p.valid_at(now) ==> p.issued_at <= now <= p.expires_at,
        (now > p.expires_at) ==> !p.valid_at(now),
{
}

} // verus!
