//! Reading a bootstrap server's address: the peer it names and the address to
//! dial.
use vstd::prelude::*;

use libp2p::multiaddr::Protocol;

verus! {

/// One component of a multiaddress: its binary encoding, and the peer id
/// (binary) when it is a `p2p` component.
pub struct AddrComponent {
    pub encoded: Vec<u8>,
    pub peer_id: Option<Vec<u8>>,
}

/// Abstract component.
pub struct ComponentView {
    pub encoded: Seq<u8>,
    pub peer: Option<Seq<u8>>,
}

impl View for AddrComponent {
    type V = ComponentView;

    open spec fn view(&self) -> ComponentView {
        ComponentView {
            encoded: self.encoded@,
            peer: match self.peer_id {
                Some(p) => Some(p@),
                None => None,
            },
        }
    }
}

/// The abstract components of a list.
pub open spec fn components_view(s: Seq<AddrComponent>) -> Seq<ComponentView> {
    s.map_values(|c: AddrComponent| c@)
}

/// The abstract form of a parse outcome.
pub open spec fn parse_outcome(r: Result<Vec<AddrComponent>, String>) -> Result<
    Seq<ComponentView>,
    Seq<char>,
> {
    match r {
        Ok(v) => Ok(components_view(v@)),
        Err(e) => Err(e@),
    }
}

/// The components that the text of a multiaddress parses into, or the text of
/// the parse error.
pub uninterp spec fn multiaddr_parse(text: Seq<char>) -> Result<Seq<ComponentView>, Seq<char>>;

/// Parses the text of a multiaddress with the multiaddr crate (`FromStr` for
/// `Multiaddr`) and lists its components; the error's text on failure. The
/// contract claims only that the outcome is a function of the text.
#[verifier::external_body]
fn parse_multiaddr(text: &str) -> (r: Result<Vec<AddrComponent>, String>)
    ensures
        parse_outcome(r) == multiaddr_parse(text@),
{
    let addr = match text.parse::<libp2p::Multiaddr>() {
        Ok(a) => a,
        Err(e) => return Err(e.to_string()),
    };
    let mut out = Vec::new();
    for p in addr.iter() {
        let mut encoded = Vec::new();
        let _ = p.write_bytes(&mut encoded);
        let peer_id = match p {
            Protocol::P2p(id) => Some(id.to_bytes()),
            _ => None,
        };
        out.push(AddrComponent { encoded, peer_id });
    }
    Ok(out)
}

/// The index of the first `p2p` component at or after `k`, if any.
pub open spec fn first_p2p_from(s: Seq<ComponentView>, k: int) -> Option<int>
    decreases s.len() - k,
{
    if k < 0 || k >= s.len() {
        None
    } else if s[k].peer is Some {
        Some(k)
    } else {
        first_p2p_from(s, k + 1)
    }
}

/// The bytes of a list of components, one after the other.
pub open spec fn encoded_concat(s: Seq<ComponentView>) -> Seq<u8>
    decreases s.len(),
{
    if s.len() == 0 {
        Seq::empty()
    } else {
        encoded_concat(s.drop_last()) + s.last().encoded
    }
}

/// What a bootstrap address with these components yields: the peer of its
/// first `p2p` component, with the address without that component when it
/// is the last one (the whole address otherwise).
pub open spec fn peer_and_base(s: Seq<ComponentView>) -> Result<(Seq<u8>, Seq<u8>), Seq<char>> {
    match first_p2p_from(s, 0) {
        Some(i) => Ok(
            (
                s[i].peer->Some_0,
                if i == s.len() - 1 {
                    encoded_concat(s.take(i))
                } else {
                    encoded_concat(s)
                },
            ),
        ),
        None => Err("No PeerId (p2p component) found in multiaddress"@),
    }
}

/// What reading the text of a bootstrap address yields.
pub open spec fn extraction(text: Seq<char>) -> Result<(Seq<u8>, Seq<u8>), Seq<char>> {
    match multiaddr_parse(text) {
        Ok(s) => peer_and_base(s),
        Err(e) => Err("Invalid multiaddress '"@ + text + "': "@ + e),
    }
}

/// The abstract form of an extraction's outcome.
pub open spec fn extraction_outcome(r: Result<(Vec<u8>, Vec<u8>), String>) -> Result<
    (Seq<u8>, Seq<u8>),
    Seq<char>,
> {
    match r {
        Ok((p, a)) => Ok((p@, a@)),
        Err(e) => Err(e@),
    }
}

fn concat_encoded(s: &Vec<AddrComponent>, n: usize) -> (r: Vec<u8>)
    requires
        n <= s@.len(),
    ensures
        r@ == encoded_concat(components_view(s@).take(n as int)),
{
    let mut out: Vec<u8> = Vec::new();
    let mut i: usize = 0;
    assert(components_view(s@).take(0) =~= Seq::<ComponentView>::empty());
    while i < n
        invariant
            0 <= i <= n <= s@.len(),
            out@ == encoded_concat(components_view(s@).take(i as int)),
        decreases n - i,
    {
        let ghost before = out@;
        let part = &s[i].encoded;
        let mut j: usize = 0;
        while j < part.len()
            invariant
                0 <= j <= part@.len(),
                out@ == before + part@.take(j as int),
            decreases part@.len() - j,
        {
            out.push(part[j]);
            j = j + 1;
            assert(out@ =~= before + part@.take(j as int));
        }
        proof {
            let cv = components_view(s@);
            assert(part@.take(part@.len() as int) =~= part@);
            assert(cv.take(i + 1).drop_last() =~= cv.take(i as int));
            assert(cv.take(i + 1).last() == cv[i as int]);
        }
        i = i + 1;
    }
    out
}

/// Why connecting to a bootstrap server failed when no attempt was made.
pub const CONNECT_FAILED: &'static str = "Failed to connect to bootstrap server";

/// The components of the multiaddress written as `text`, or the text of the
/// parse error.
pub fn parse_address(text: &str) -> (r: Result<Vec<AddrComponent>, String>)
    ensures
        parse_outcome(r) == multiaddr_parse(text@),
{
    parse_multiaddr(text)
}

/// The binary form of the address made of these components, one after the
/// other.
pub fn encode_address(comps: &Vec<AddrComponent>) -> (r: Vec<u8>)
    ensures
        r@ == encoded_concat(components_view(comps@)),
{
    let r = concat_encoded(comps, comps.len());
    assert(components_view(comps@).take(comps@.len() as int) =~= components_view(comps@));
    r
}

/// What a retrying connection to a bootstrap server does next.
#[derive(Debug)]
pub enum RetryStep {
    /// Make an attempt now.
    Attempt,
    /// Wait the retry delay, then make an attempt.
    PauseThenAttempt,
    /// Stop with this result.
    Finish(Result<(), String>),
}

/// A connection to a bootstrap server that is tried up to a number of times:
/// the attempts allowed, the attempts made and the last attempt's error.
pub struct ConnectRetry {
    max_retries: usize,
    attempts: usize,
    last_error: Option<String>,
}

impl ConnectRetry {
    /// The attempts allowed.
    pub closed spec fn limit(&self) -> nat {
        self.max_retries as nat
    }

    /// The attempts made so far.
    pub closed spec fn made(&self) -> nat {
        self.attempts as nat
    }

    /// The error of the last attempt, if one failed.
    pub closed spec fn last(&self) -> Option<Seq<char>> {
        match self.last_error {
            Some(e) => Some(e@),
            None => None,
        }
    }

    /// No attempt made yet, at most `max_retries` allowed.
    pub fn new(max_retries: usize) -> (r: Self)
        ensures
            r.limit() == max_retries,
            r.made() == 0,
            r.last() is None,
    {
        ConnectRetry { max_retries, attempts: 0, last_error: None }
    }

    /// The first step: an attempt when any is allowed; otherwise the
    /// connection fails at once with `CONNECT_FAILED`.
    pub fn first_step(&self) -> (r: RetryStep)
        ensures
            self.limit() > 0 ==> r is Attempt,
            self.limit() == 0 ==> (r matches RetryStep::Finish(Err(e)) && e@ == CONNECT_FAILED@),
    {
        if self.max_retries > 0 {
            RetryStep::Attempt
        } else {
            RetryStep::Finish(Err(CONNECT_FAILED.to_string()))
        }
    }

    /// Records the outcome of an attempt and says what follows: success ends
    /// with `Ok`; a failure is remembered and followed by a pause and another
    /// attempt while attempts are left, and otherwise ends with that error.
    pub fn record(&mut self, outcome: Result<(), String>) -> (r: RetryStep)
        requires
            old(self).made() < old(self).limit(),
        ensures
            final(self).made() == old(self).made() + 1,
            final(self).limit() == old(self).limit(),
            outcome is Ok ==> (r matches RetryStep::Finish(Ok(()))) && final(self).last() == old(
                self,
            ).last(),
            (match outcome {
                Ok(()) => true,
                Err(e) => {
                    &&& final(self).last() == Some(e@)
                    &&& old(self).made() + 1 < old(self).limit() ==> r is PauseThenAttempt
                    &&& old(self).made() + 1 >= old(self).limit() ==> (r matches RetryStep::Finish(Err(x))
                        && x@ == e@)
                },
            }),
    {
        let attempt = self.attempts;
        self.attempts = attempt + 1;
        match outcome {
            Ok(()) => RetryStep::Finish(Ok(())),
            Err(e) => {
                let again = BootstrapConnect::retry_after(attempt, self.max_retries);
                let kept = e.clone();
                self.last_error = Some(e);
                if again {
                    RetryStep::PauseThenAttempt
                } else {
                    RetryStep::Finish(Err(kept))
                }
            },
        }
    }
}

/// Helpers for connecting to bootstrap servers.
pub struct BootstrapConnect;

impl BootstrapConnect {
    /// Whether, after attempt `attempt` (counted from zero) of at most
    /// `max_retries` has failed, another attempt follows after a pause.
    pub fn retry_after(attempt: usize, max_retries: usize) -> (r: bool)
        requires
            attempt < max_retries,
        ensures
            r == (attempt + 1 < max_retries),
    {
        attempt < max_retries - 1
    }

    /// Reads the text of a bootstrap server's multiaddress: the peer id named
    /// by its first `p2p` component, and the address to dial (the address
    /// without that component when it is the last one, the whole address
    /// otherwise), both in binary form. Fails with "Invalid multiaddress
    /// '<text>': <error>" when the text does not parse, and with "No PeerId
    /// (p2p component) found in multiaddress" when no component names a peer.
    pub fn extract_peer_id_from_multiaddr(addr_str: &str) -> (r: Result<(Vec<u8>, Vec<u8>), String>)
        ensures
            extraction_outcome(r) == extraction(addr_str@),
    {
        let comps = match parse_multiaddr(addr_str) {
            Ok(c) => c,
            Err(e) => {
                let mut msg = "Invalid multiaddress '".to_string();
                msg.append(addr_str);
                msg.append("': ");
                msg.append(e.as_str());
                return Err(msg);
            },
        };
        Self::peer_and_base_address(&comps)
    }

    /// The peer id named by the first `p2p` component of a parsed address,
    /// with the address to dial: without that component when it is the last
    /// one, the whole address otherwise (both in binary form). Fails with "No
    /// PeerId (p2p component) found in multiaddress" when no component names
    /// a peer.
    pub fn peer_and_base_address(comps: &Vec<AddrComponent>) -> (r: Result<(Vec<u8>, Vec<u8>), String>)
        ensures
            extraction_outcome(r) == peer_and_base(components_view(comps@)),
    {
        let ghost cv = components_view(comps@);
        let mut i: usize = 0;
        while i < comps.len()
            invariant
                0 <= i <= comps@.len(),
                cv == components_view(comps@),
                first_p2p_from(cv, 0) == first_p2p_from(cv, i as int),
            decreases comps@.len() - i,
        {
            match &comps[i].peer_id {
                Some(p) => {
                    let peer = crate::routes::copy_bytes(p.as_slice());
                    let base = if i == comps.len() - 1 {
                        concat_encoded(comps, i)
                    } else {
                        concat_encoded(comps, comps.len())
                    };
                    proof {
                        assert(cv.take(cv.len() as int) =~= cv);
                        assert(cv[i as int] == comps@[i as int]@);
                        assert(cv[i as int].peer == Some(p@));
                        assert(first_p2p_from(cv, i as int) == Some(i as int));
                        assert(base@ == if i == cv.len() - 1 {
                            encoded_concat(cv.take(i as int))
                        } else {
                            encoded_concat(cv)
                        });
                        assert(peer_and_base(cv) == Ok::<(Seq<u8>, Seq<u8>), Seq<char>>(
                            (peer@, base@),
                        ));
                    }
                    return Ok((peer, base));
                },
                None => {},
            }
            i = i + 1;
        }
        Err("No PeerId (p2p component) found in multiaddress".to_string())
    }
}

} // verus!
