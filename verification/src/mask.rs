//! Frame masking: a four-byte key applied by cyclic XOR over a payload.

use vstd::prelude::*;

verus! {

/// A four-byte masking key.
pub type Mask = [u8; 4];

/// The bytes of `data` XORed with the four-byte key `mask`, cycling through
/// the key.
pub open spec fn mask_seq(data: Seq<u8>, mask: Seq<u8>) -> Seq<u8> {
    Seq::new(data.len(), |i: int| data[i] ^ mask[i % 4])
}

/// Masking is an involution: applying the same key twice gives back the
/// original data, whatever its length.
pub proof fn lemma_mask_involution(data: Seq<u8>, mask: Seq<u8>)
    requires
        mask.len() == 4,
    ensures
        mask_seq(mask_seq(data, mask), mask) == data,
{
    assert(forall|a: u8, b: u8| (a ^ b) ^ b == a) by (bit_vector);
    assert(mask_seq(mask_seq(data, mask), mask) =~= data);
}

/// Applies the mask to the data: returns the cyclic XOR of the two.
pub fn apply_mask(data: &[u8], mask: &Mask) -> (r: Vec<u8>)
    ensures
        r@ == mask_seq(data@, mask@),
{
    let mut out: Vec<u8> = Vec::new();
    let mut i: usize = 0;
    while i < data.len()
        invariant
            i <= data@.len(),
            out@ == mask_seq(data@.subrange(0, i as int), mask@),
        decreases data@.len() - i,
    {
        out.push(data[i] ^ mask[i % 4]);
        proof {
            assert(out@ =~= mask_seq(data@.subrange(0, i + 1), mask@));
        }
        i = i + 1;
    }
    proof {
        assert(data@.subrange(0, data@.len() as int) =~= data@);
    }
    out
}

/// Relies on `getrandom::fill` to fill the key with random bytes; the result
/// is random, so nothing is promised of its value.
#[verifier::external_body]
pub fn gen_mask() -> Mask {
    let mut buf: Mask = [0u8; 4];
    let _ = getrandom::fill(&mut buf);
    buf
}

} // verus!
