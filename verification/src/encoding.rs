//! Fixed-width integer encodings used by the wire formats of this crate.
//!
//! Big-endian ("network order") encodings appear in stream headers and in
//! length-prefixed frames; little-endian encodings appear in the message that a
//! proof of representation signs.
use vstd::prelude::*;

verus! {

/// `256` raised to the power `width`: the number of distinct values that fit in
/// `width` bytes.
pub open spec fn byte_radix_pow(width: nat) -> nat
    decreases width,
{
    if width == 0 {
        1
    } else {
        256 * byte_radix_pow((width - 1) as nat)
    }
}

/// The `width` lowest bytes of `n`, most significant first.
pub open spec fn be_bytes(n: nat, width: nat) -> Seq<u8>
    decreases width,
{
    if width == 0 {
        Seq::empty()
    } else {
        be_bytes(n / 256, (width - 1) as nat).push((n % 256) as u8)
    }
}

/// The number that a byte sequence denotes when read most significant byte first.
pub open spec fn be_value(s: Seq<u8>) -> nat
    decreases s.len(),
{
    if s.len() == 0 {
        0
    } else {
        be_value(s.drop_last()) * 256 + s.last() as nat
    }
}

/// The `width` lowest bytes of `n`, least significant first.
pub open spec fn le_bytes(n: nat, width: nat) -> Seq<u8>
    decreases width,
{
    if width == 0 {
        Seq::empty()
    } else {
        seq![(n % 256) as u8] + le_bytes(n / 256, (width - 1) as nat)
    }
}

/// Sixteen bytes, most significant first: the network-order form of a `u128`.
pub open spec fn u128_be(n: u128) -> Seq<u8> {
    be_bytes(n as nat, 16)
}

/// Two bytes, most significant first: the network-order form of a `u16`.
pub open spec fn u16_be(n: u16) -> Seq<u8> {
    be_bytes(n as nat, 2)
}

/// Eight bytes, least significant first: the little-endian form of a `u64`.
pub open spec fn u64_le(n: u64) -> Seq<u8> {
    le_bytes(n as nat, 8)
}

pub proof fn lemma_be_bytes_len(n: nat, width: nat)
    ensures
        be_bytes(n, width).len() == width,
    decreases width,
{
    if width > 0 {
        lemma_be_bytes_len(n / 256, (width - 1) as nat);
    }
}

pub proof fn lemma_le_bytes_len(n: nat, width: nat)
    ensures
        le_bytes(n, width).len() == width,
    decreases width,
{
    if width > 0 {
        lemma_le_bytes_len(n / 256, (width - 1) as nat);
    }
}

/// Reading back the big-endian bytes of a number that fits gives the number.
pub proof fn lemma_be_value_of_bytes(n: nat, width: nat)
    requires
        n < byte_radix_pow(width),
    ensures
        be_value(be_bytes(n, width)) == n,
    decreases width,
{
    if width > 0 {
        let q = n / 256;
        let r = n % 256;
        assert(q < byte_radix_pow((width - 1) as nat));
        lemma_be_value_of_bytes(q, (width - 1) as nat);
        let s = be_bytes(n, width);
        assert(s.drop_last() =~= be_bytes(q, (width - 1) as nat));
    }
}

/// A byte sequence denotes a number below `256^len`, and encoding that number
/// back gives the same bytes.
pub proof fn lemma_be_bytes_of_value(s: Seq<u8>)
    ensures
        be_value(s) < byte_radix_pow(s.len()),
        be_bytes(be_value(s), s.len()) =~= s,
    decreases s.len(),
{
    if s.len() > 0 {
        let init = s.drop_last();
        lemma_be_bytes_of_value(init);
        let v = be_value(s);
        assert(v == be_value(init) * 256 + s.last() as nat);
        assert(v / 256 == be_value(init));
        assert(v % 256 == s.last() as nat);
        assert(be_bytes(v, s.len()) == be_bytes(be_value(init), init.len()).push(s.last()));
        assert(init.push(s.last()) =~= s);
    }
}

pub proof fn lemma_radix_pow_16()
    ensures
        byte_radix_pow(16) == 0x1_0000_0000_0000_0000_0000_0000_0000_0000,
{
    reveal_with_fuel(byte_radix_pow, 17);
}

pub proof fn lemma_radix_pow_2()
    ensures
        byte_radix_pow(2) == 0x1_0000,
{
    reveal_with_fuel(byte_radix_pow, 3);
}

/// Network-order bytes of a `u128` read back to the same `u128`.
pub proof fn lemma_u128_be_roundtrip(n: u128)
    ensures
        u128_be(n).len() == 16,
        be_value(u128_be(n)) == n,
{
    lemma_be_bytes_len(n as nat, 16);
    lemma_radix_pow_16();
    lemma_be_value_of_bytes(n as nat, 16);
}

/// Network-order bytes of a `u16` read back to the same `u16`.
pub proof fn lemma_u16_be_roundtrip(n: u16)
    ensures
        u16_be(n).len() == 2,
        be_value(u16_be(n)) == n,
{
    lemma_be_bytes_len(n as nat, 2);
    lemma_radix_pow_2();
    lemma_be_value_of_bytes(n as nat, 2);
}

/// Sixteen bytes always denote a value that fits a `u128`, whose network-order
/// form is those bytes again.
pub proof fn lemma_sixteen_bytes_fit_u128(s: Seq<u8>)
    requires
        s.len() == 16,
    ensures
        be_value(s) <= u128::MAX,
        u128_be(be_value(s) as u128) =~= s,
{
    lemma_be_bytes_of_value(s);
    lemma_radix_pow_16();
}

/// Two bytes always denote a value that fits a `u16`, whose network-order form
/// is those bytes again.
pub proof fn lemma_two_bytes_fit_u16(s: Seq<u8>)
    requires
        s.len() == 2,
    ensures
        be_value(s) <= u16::MAX,
        u16_be(be_value(s) as u16) =~= s,
{
    lemma_be_bytes_of_value(s);
    lemma_radix_pow_2();
}

/// The network-order bytes of a `u16`, computed directly.
pub fn u16_to_be_bytes(n: u16) -> (r: [u8; 2])
    ensures
        r@ == u16_be(n),
{
    let hi: u8 = (n / 256) as u8;
    let lo: u8 = (n % 256) as u8;
    proof {
        reveal_with_fuel(be_bytes, 3);
        assert((n as nat / 256) / 256 == 0);
    }
    let r = [hi, lo];
    assert(r@ =~= u16_be(n));
    r
}

/// The `u16` that two bytes denote in network order.
pub fn u16_from_be_bytes(hi: u8, lo: u8) -> (r: u16)
    ensures
        r == be_value(seq![hi, lo]),
{
    proof {
        let s = seq![hi, lo];
        assert(s.drop_last() =~= seq![hi]);
        assert(seq![hi].drop_last() =~= Seq::<u8>::empty());
        reveal_with_fuel(be_value, 3);
    }
    (hi as u16) * 256 + (lo as u16)
}

/// Appends the little-endian bytes of `n` to `out`.
pub fn push_u64_le(out: &mut Vec<u8>, n: u64)
    ensures
        final(out)@ == old(out)@ + u64_le(n),
{
    let mut rest: u64 = n;
    let mut i: usize = 0;
    let ghost start = out@;
    assert(byte_radix_pow(0) == 1);
    while i < 8
        invariant
            0 <= i <= 8,
            rest as nat == n as nat / byte_radix_pow(i as nat),
            out@ + le_bytes(rest as nat, (8 - i) as nat) =~= start + u64_le(n),
        decreases 8 - i,
    {
        let byte: u8 = (rest % 256) as u8;
        proof {
            let w = (8 - i) as nat;
            assert(le_bytes(rest as nat, w) == seq![(rest as nat % 256) as u8] + le_bytes(
                rest as nat / 256,
                (w - 1) as nat,
            ));
            assert(out@.push(byte) + le_bytes(rest as nat / 256, (w - 1) as nat) =~= out@
                + le_bytes(rest as nat, w));
            lemma_radix_pow_positive(i as nat);
            vstd::arithmetic::div_mod::lemma_div_denominator(
                n as int,
                byte_radix_pow(i as nat) as int,
                256,
            );
            assert(byte_radix_pow((i + 1) as nat) == 256 * byte_radix_pow(i as nat));
            lemma_radix_pow_positive(i as nat);
            assert(byte_radix_pow(i as nat) * 256 == 256 * byte_radix_pow(i as nat)) by (
            nonlinear_arith);
        }
        out.push(byte);
        rest = rest / 256;
        i = i + 1;
    }
    proof {
        assert(le_bytes(rest as nat, 0) =~= Seq::<u8>::empty());
        assert(out@ =~= start + u64_le(n));
    }
}

pub proof fn lemma_radix_pow_positive(width: nat)
    ensures
        byte_radix_pow(width) > 0,
    decreases width,
{
    if width > 0 {
        lemma_radix_pow_positive((width - 1) as nat);
    }
}

} // verus!
