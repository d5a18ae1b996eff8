//! Fixed-width big-endian integer decoding, the foundation of the frame codec.

use vstd::prelude::*;
use crate::result::ParseError;

verus! {

/// The unsigned value that a byte sequence denotes in big-endian order.
pub open spec fn be_val(bytes: Seq<u8>) -> nat
    decreases bytes.len(),
{
    if bytes.len() == 0 {
        0
    } else {
        be_val(bytes.drop_last()) * 256 + bytes.last() as nat
    }
}

/// `256^n` for `n` up to eight, the byte widths the codec decodes.
pub open spec fn be_cap(n: nat) -> nat {
    if n == 0 {
        1
    } else if n == 1 {
        0x100
    } else if n == 2 {
        0x1_0000
    } else if n == 3 {
        0x100_0000
    } else if n == 4 {
        0x1_0000_0000
    } else if n == 5 {
        0x100_0000_0000
    } else if n == 6 {
        0x1_0000_0000_0000
    } else if n == 7 {
        0x100_0000_0000_0000
    } else {
        0x1_0000_0000_0000_0000
    }
}

/// `be_val` of a sequence of at most eight bytes stays under `256` to the
/// power of its length.
pub proof fn lemma_be_val_cap(bytes: Seq<u8>)
    requires
        bytes.len() <= 8,
    ensures
        be_val(bytes) < be_cap(bytes.len()),
    decreases bytes.len(),
{
    if bytes.len() > 0 {
        lemma_be_val_cap(bytes.drop_last());
    }
}

/// The `j` big-endian bytes that denote `m` (modulo `256^j`).
pub open spec fn be_bytes(m: nat, j: nat) -> Seq<u8>
    decreases j,
{
    if j == 0 {
        Seq::empty()
    } else {
        be_bytes(m / 256, (j - 1) as nat).push((m % 256) as u8)
    }
}

pub proof fn lemma_be_bytes_len(m: nat, j: nat)
    ensures
        be_bytes(m, j).len() == j,
    decreases j,
{
    if j > 0 {
        lemma_be_bytes_len(m / 256, (j - 1) as nat);
    }
}

/// Encoding then decoding in big-endian order is the identity for values
/// that fit the chosen width.
pub proof fn lemma_be_bytes_val(m: nat, j: nat)
    requires
        j <= 8,
        m < be_cap(j),
    ensures
        be_val(be_bytes(m, j)) == m,
    decreases j,
{
    if j > 0 {
        assert(m < 256 * be_cap((j - 1) as nat));
        vstd::arithmetic::div_mod::lemma_multiply_divide_lt(
            m as int,
            256,
            be_cap((j - 1) as nat) as int,
        );
        lemma_be_bytes_val(m / 256, (j - 1) as nat);
        let s = be_bytes(m, j);
        assert(s.drop_last() =~= be_bytes(m / 256, (j - 1) as nat));
        vstd::arithmetic::div_mod::lemma_fundamental_div_mod(m as int, 256);
    }
}

/// Returns the unsigned 16-bit number that the given bytes hold in big-endian
/// order; exactly two bytes must be given.
pub fn bytes_to_u16(bytes: &[u8]) -> (r: Result<u16, ParseError>)
    ensures
        r is Ok <==> bytes@.len() == 2,
        r is Ok ==> r->Ok_0 == be_val(bytes@),
{
    if bytes.len() != 2 {
        return Err(ParseError);
    }
    let v: u16 = (bytes[0] as u16) * 256 + (bytes[1] as u16);
    proof {
        let s = bytes@;
        assert(s.drop_last().drop_last() =~= Seq::<u8>::empty());
        assert(be_val(Seq::<u8>::empty()) == 0);
        assert(s.drop_last().last() == s[0]);
        assert(be_val(s.drop_last()) == s[0]);
        assert(be_val(s) == (be_val(s.drop_last()) * 256 + s.last()));
    }
    Ok(v)
}

/// Returns the unsigned 64-bit number that the given bytes hold in big-endian
/// order; exactly eight bytes must be given.
pub fn bytes_to_u64(bytes: &[u8]) -> (r: Result<u64, ParseError>)
    ensures
        r is Ok <==> bytes@.len() == 8,
        r is Ok ==> r->Ok_0 == be_val(bytes@),
{
    if bytes.len() != 8 {
        return Err(ParseError);
    }
    let mut v: u64 = 0;
    let mut i: usize = 0;
    while i < 8
        invariant
            i <= 8,
            bytes@.len() == 8,
            v == be_val(bytes@.subrange(0, i as int)),
        decreases 8 - i,
    {
        proof {
            lemma_be_val_cap(bytes@.subrange(0, i as int));
            assert(bytes@.subrange(0, i + 1).drop_last() =~= bytes@.subrange(0, i as int));
        }
        v = v * 256 + (bytes[i] as u64);
        i = i + 1;
    }
    proof {
        assert(bytes@.subrange(0, 8) =~= bytes@);
    }
    Ok(v)
}

} // verus!
