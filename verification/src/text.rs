//! Byte-string helpers for the handshake codec: substring search, splitting,
//! trimming, ASCII lowercasing, decimal parsing, and the UTF-8 bridge.

use vstd::prelude::*;
use vstd::utf8::{valid_utf8, decode_utf8};

verus! {

/// The pattern `pat` occurs in `bytes` at position `i`.
pub open spec fn match_at(bytes: Seq<u8>, pat: Seq<u8>, i: int) -> bool {
    0 <= i && i + pat.len() <= bytes.len() && bytes.subrange(i, i + pat.len()) == pat
}

/// The position of the first occurrence of `pat` in `bytes`, if any.
pub open spec fn spec_find(bytes: Seq<u8>, pat: Seq<u8>) -> Option<nat>
    decreases bytes.len(),
{
    if pat.len() == 0 {
        Some(0)
    } else if bytes.len() < pat.len() {
        None
    } else if bytes.take(pat.len() as int) == pat {
        Some(0)
    } else {
        match spec_find(bytes.skip(1), pat) {
            Some(i) => Some((i + 1) as nat),
            None => None,
        }
    }
}

/// For positions past the first byte, a match in `bytes` is a match one
/// place earlier in `bytes` without its first byte.
proof fn lemma_match_at_shift(bytes: Seq<u8>, pat: Seq<u8>, j: int)
    requires
        1 <= j,
        pat.len() > 0,
        bytes.len() >= 1,
    ensures
        match_at(bytes, pat, j) == match_at(bytes.skip(1), pat, j - 1),
{
    assert(bytes.skip(1).len() == bytes.len() - 1);
    if j + pat.len() <= bytes.len() {
        assert(bytes.skip(1).subrange(j - 1, j - 1 + pat.len()) =~= bytes.subrange(
            j,
            j + pat.len(),
        ));
    } else {
        assert(!match_at(bytes, pat, j));
        assert(j - 1 + pat.len() > bytes.skip(1).len());
    }
}

/// `spec_find` answers the first match: a found position matches and no
/// earlier one does; `None` means no position matches.
pub proof fn lemma_find_characterization(bytes: Seq<u8>, pat: Seq<u8>)
    ensures
        match spec_find(bytes, pat) {
            Some(i) => match_at(bytes, pat, i as int) && (forall|j: int|
                0 <= j < i ==> !match_at(bytes, pat, j)),
            None => forall|j: int| !match_at(bytes, pat, j),
        },
    decreases bytes.len(),
{
    if pat.len() == 0 {
        assert(bytes.subrange(0, 0) =~= pat);
    } else if bytes.len() < pat.len() {
        assert forall|j: int| !match_at(bytes, pat, j) by {}
    } else if bytes.take(pat.len() as int) == pat {
        assert(bytes.subrange(0, pat.len() as int) =~= bytes.take(pat.len() as int));
    } else {
        lemma_find_characterization(bytes.skip(1), pat);
        assert(!match_at(bytes, pat, 0)) by {
            assert(bytes.subrange(0, pat.len() as int) =~= bytes.take(pat.len() as int));
        }
        match spec_find(bytes.skip(1), pat) {
            Some(i) => {
                let ii = i as int;
                assert(match_at(bytes.skip(1), pat, ii));
                lemma_match_at_shift(bytes, pat, ii + 1);
                assert(match_at(bytes, pat, ii + 1));
                assert forall|j: int| 0 <= j < ii + 1 implies !match_at(bytes, pat, j) by {
                    if j >= 1 {
                        lemma_match_at_shift(bytes, pat, j);
                    }
                }
            },
            None => {
                assert forall|j: int| !match_at(bytes, pat, j) by {
                    if j >= 1 {
                        lemma_match_at_shift(bytes, pat, j);
                    }
                }
            },
        }
    }
}

/// True exactly when `pat` occurs in `bytes` at position `i`.
fn bytes_match_at(bytes: &[u8], pat: &[u8], i: usize) -> (r: bool)
    requires
        i + pat@.len() <= bytes@.len(),
    ensures
        r == match_at(bytes@, pat@, i as int),
{
    let n = bytes.len();
    let mut j: usize = 0;
    while j < pat.len()
        invariant
            j <= pat@.len(),
            i + pat@.len() <= bytes@.len(),
            bytes@.len() == n,
            forall|k: int| 0 <= k < j ==> bytes@[i + k] == pat@[k],
        decreases pat@.len() - j,
    {
        if bytes[i + j] != pat[j] {
            proof {
                assert(bytes@.subrange(i as int, i + pat@.len()) != pat@) by {
                    assert(bytes@.subrange(i as int, i + pat@.len())[j as int] != pat@[j as int]);
                }
            }
            return false;
        }
        j = j + 1;
    }
    proof {
        assert(bytes@.subrange(i as int, i + pat@.len()) =~= pat@);
    }
    true
}

/// Finds the first occurrence of `pat` in `bytes`, as `spec_find` gives it.
pub fn find_subseq(bytes: &[u8], pat: &[u8]) -> (r: Option<usize>)
    requires
        pat@.len() > 0,
    ensures
        match r {
            Some(i) => spec_find(bytes@, pat@) == Some(i as nat),
            None => spec_find(bytes@, pat@) is None,
        },
{
    proof {
        lemma_find_characterization(bytes@, pat@);
    }
    if pat.len() > bytes.len() {
        return None;
    }
    let mut i: usize = 0;
    while i <= bytes.len() - pat.len()
        invariant
            0 < pat@.len() <= bytes@.len(),
            i <= bytes@.len() - pat@.len() + 1,
            forall|j: int| 0 <= j < i ==> !match_at(bytes@, pat@, j),
        decreases bytes@.len() - i,
    {
        if bytes_match_at(bytes, pat, i) {
            proof {
                lemma_find_characterization(bytes@, pat@);
            }
            return Some(i);
        }
        i = i + 1;
    }
    proof {
        lemma_find_characterization(bytes@, pat@);
        assert forall|j: int| !match_at(bytes@, pat@, j) by {}
    }
    None
}

/// The pieces of `bytes` between occurrences of `sep`, in order; one more
/// piece than there are separators, so never empty.
pub open spec fn spec_split(bytes: Seq<u8>, sep: Seq<u8>) -> Seq<Seq<u8>>
    decreases bytes.len(),
    when sep.len() > 0
    via spec_split_decreases
{
    match spec_find(bytes, sep) {
        None => seq![bytes],
        Some(i) => seq![bytes.take(i as int)] + spec_split(bytes.skip(i as int + sep.len() as int), sep),
    }
}

#[via_fn]
proof fn spec_split_decreases(bytes: Seq<u8>, sep: Seq<u8>) {
    lemma_find_characterization(bytes, sep);
}

/// Splits `bytes` at every occurrence of `sep`, as `spec_split` gives it.
pub fn split_bytes(bytes: &[u8], sep: &[u8]) -> (r: Vec<Vec<u8>>)
    requires
        sep@.len() > 0,
    ensures
        r.deep_view() == spec_split(bytes@, sep@),
        r@.len() > 0,
    decreases bytes@.len(),
{
    proof {
        lemma_find_characterization(bytes@, sep@);
    }
    match find_subseq(bytes, sep) {
        None => {
            let mut parts: Vec<Vec<u8>> = Vec::new();
            parts.push(vstd::slice::slice_to_vec(bytes));
            proof {
                assert(parts.deep_view() =~~= spec_split(bytes@, sep@));
            }
            parts
        },
        Some(i) => {
            let n = bytes.len();
            let head = vstd::slice::slice_to_vec(vstd::slice::slice_subrange(bytes, 0, i));
            let rest = vstd::slice::slice_subrange(bytes, i + sep.len(), n);
            let mut tail_parts = split_bytes(rest, sep);
            let mut parts: Vec<Vec<u8>> = Vec::new();
            parts.push(head);
            parts.append(&mut tail_parts);
            proof {
                assert(parts.deep_view() =~~= spec_split(bytes@, sep@));
            }
            parts
        },
    }
}

/// True exactly when the two byte strings are equal.
pub fn bytes_equal(a: &[u8], b: &[u8]) -> (r: bool)
    ensures
        r == (a@ == b@),
{
    if a.len() != b.len() {
        proof {
            assert(a@ != b@);
        }
        return false;
    }
    let mut i: usize = 0;
    while i < a.len()
        invariant
            a@.len() == b@.len(),
            i <= a@.len(),
            forall|k: int| 0 <= k < i ==> a@[k] == b@[k],
        decreases a@.len() - i,
    {
        if a[i] != b[i] {
            return false;
        }
        i = i + 1;
    }
    proof {
        assert(a@ =~= b@);
    }
    true
}

/// An ASCII space or horizontal tab.
pub open spec fn is_space(b: u8) -> bool {
    b == 32 || b == 9
}

/// `bytes` without its leading spaces and tabs.
pub open spec fn spec_trim_start(bytes: Seq<u8>) -> Seq<u8>
    decreases bytes.len(),
{
    if bytes.len() > 0 && is_space(bytes[0]) {
        spec_trim_start(bytes.skip(1))
    } else {
        bytes
    }
}

/// `bytes` without its trailing spaces and tabs.
pub open spec fn spec_trim_end(bytes: Seq<u8>) -> Seq<u8>
    decreases bytes.len(),
{
    if bytes.len() > 0 && is_space(bytes.last()) {
        spec_trim_end(bytes.drop_last())
    } else {
        bytes
    }
}

/// `bytes` without leading and trailing spaces and tabs.
pub open spec fn spec_trim(bytes: Seq<u8>) -> Seq<u8> {
    spec_trim_end(spec_trim_start(bytes))
}

proof fn lemma_trim_start_skip(bytes: Seq<u8>, i: int)
    requires
        0 <= i <= bytes.len(),
        forall|k: int| 0 <= k < i ==> is_space(bytes[k]),
        i < bytes.len() ==> !is_space(bytes[i]),
    ensures
        spec_trim_start(bytes) == bytes.skip(i),
    decreases i,
{
    if i == 0 {
        assert(bytes.skip(0) =~= bytes);
    } else {
        lemma_trim_start_skip(bytes.skip(1), i - 1);
        assert(bytes.skip(1).skip(i - 1) =~= bytes.skip(i));
    }
}

proof fn lemma_trim_end_take(bytes: Seq<u8>, i: int)
    requires
        0 <= i <= bytes.len(),
        forall|k: int| i <= k < bytes.len() ==> is_space(bytes[k]),
        i > 0 ==> !is_space(bytes[i - 1]),
    ensures
        spec_trim_end(bytes) == bytes.take(i),
    decreases bytes.len(),
{
    if i == bytes.len() {
        assert(bytes.take(i) =~= bytes);
    } else {
        lemma_trim_end_take(bytes.drop_last(), i);
        assert(bytes.drop_last().take(i) =~= bytes.take(i));
    }
}

/// The given bytes without leading and trailing spaces and tabs.
pub fn trim_bytes(bytes: &[u8]) -> (r: Vec<u8>)
    ensures
        r@ == spec_trim(bytes@),
{
    let mut start: usize = 0;
    while start < bytes.len() && (bytes[start] == 32 || bytes[start] == 9)
        invariant
            start <= bytes@.len(),
            forall|k: int| 0 <= k < start ==> is_space(bytes@[k]),
        decreases bytes@.len() - start,
    {
        start = start + 1;
    }
    proof {
        lemma_trim_start_skip(bytes@, start as int);
    }
    let mut end: usize = bytes.len();
    while end > start && (bytes[end - 1] == 32 || bytes[end - 1] == 9)
        invariant
            start <= end <= bytes@.len(),
            forall|k: int| end <= k < bytes@.len() ==> is_space(bytes@[k]),
            spec_trim_start(bytes@) == bytes@.skip(start as int),
        decreases end,
    {
        end = end - 1;
    }
    let out = vstd::slice::slice_to_vec(vstd::slice::slice_subrange(bytes, start, end));
    proof {
        let st = bytes@.skip(start as int);
        lemma_trim_end_take(st, end - start);
        assert(st.take(end - start) =~= bytes@.subrange(start as int, end as int));
    }
    out
}

/// Each byte with ASCII capitals mapped to their lowercase counterparts.
pub open spec fn lower_byte(b: u8) -> u8 {
    if 65 <= b <= 90 {
        (b + 32) as u8
    } else {
        b
    }
}

/// The byte string with every ASCII capital lowercased.
pub open spec fn spec_lower(bytes: Seq<u8>) -> Seq<u8> {
    Seq::new(bytes.len(), |i: int| lower_byte(bytes[i]))
}

/// Lowercases the ASCII capitals of the given bytes.
pub fn lower_bytes(bytes: &[u8]) -> (r: Vec<u8>)
    ensures
        r@ == spec_lower(bytes@),
{
    let mut out: Vec<u8> = Vec::new();
    let mut i: usize = 0;
    while i < bytes.len()
        invariant
            i <= bytes@.len(),
            out@ == spec_lower(bytes@.take(i as int)),
        decreases bytes@.len() - i,
    {
        let b = bytes[i];
        if 65 <= b && b <= 90 {
            out.push(b + 32);
        } else {
            out.push(b);
        }
        proof {
            assert(out@ =~= spec_lower(bytes@.take(i + 1)));
        }
        i = i + 1;
    }
    proof {
        assert(bytes@.take(bytes@.len() as int) =~= bytes@);
    }
    out
}

/// An ASCII decimal digit.
pub open spec fn is_digit(b: u8) -> bool {
    48 <= b <= 57
}

/// The value of a digit string, most significant first.
pub open spec fn spec_dec_val(bytes: Seq<u8>) -> nat
    decreases bytes.len(),
{
    if bytes.len() == 0 {
        0
    } else {
        spec_dec_val(bytes.drop_last()) * 10 + (bytes.last() - 48) as nat
    }
}

/// A byte string denotes a u16 when it is nonempty, all digits, and its
/// value fits.
pub open spec fn spec_is_u16_dec(bytes: Seq<u8>) -> bool {
    &&& bytes.len() > 0
    &&& (forall|i: int| 0 <= i < bytes.len() ==> is_digit(bytes[i]))
    &&& spec_dec_val(bytes) <= u16::MAX
}

/// Parses an unsigned 16-bit decimal number: `Some` exactly when the bytes
/// are one or more digits whose value fits.
pub fn parse_u16_dec(bytes: &[u8]) -> (r: Option<u16>)
    ensures
        r matches Some(v) ==> spec_is_u16_dec(bytes@) && v == spec_dec_val(bytes@),
        r is None ==> !spec_is_u16_dec(bytes@),
{
    if bytes.len() == 0 {
        return None;
    }
    let mut v: u32 = 0;
    let mut i: usize = 0;
    while i < bytes.len()
        invariant
            i <= bytes@.len(),
            bytes@.len() > 0,
            forall|k: int| 0 <= k < i ==> is_digit(bytes@[k]),
            v == spec_dec_val(bytes@.take(i as int)),
            v <= u16::MAX,
        decreases bytes@.len() - i,
    {
        let b = bytes[i];
        if b < 48 || b > 57 {
            proof {
                assert(!spec_is_u16_dec(bytes@));
            }
            return None;
        }
        let next: u32 = v * 10 + ((b - 48) as u32);
        proof {
            assert(bytes@.take(i + 1).drop_last() =~= bytes@.take(i as int));
            assert(next == spec_dec_val(bytes@.take(i + 1)));
        }
        if next > 65535 {
            proof {
                lemma_dec_val_prefix_bound(bytes@, i + 1);
            }
            return None;
        }
        v = next;
        i = i + 1;
    }
    proof {
        assert(bytes@.take(bytes@.len() as int) =~= bytes@);
    }
    Some(v as u16)
}

/// A digit string's value is at least the value of any of its prefixes.
proof fn lemma_dec_val_prefix_bound(bytes: Seq<u8>, i: int)
    requires
        0 <= i <= bytes.len(),
    ensures
        spec_dec_val(bytes) >= spec_dec_val(bytes.take(i)),
    decreases bytes.len() - i,
{
    if i < bytes.len() {
        lemma_dec_val_prefix_bound(bytes, i + 1);
        assert(bytes.take(i + 1).drop_last() =~= bytes.take(i));
        assert(spec_dec_val(bytes.take(i + 1)) >= spec_dec_val(bytes.take(i)));
    } else {
        assert(bytes.take(i) =~= bytes);
    }
}

/// Relies on `String::from_utf8`: succeeds exactly on valid UTF-8 and
/// returns the decoded text.
#[verifier::external_body]
pub fn string_from_utf8(bytes: Vec<u8>) -> (r: Option<String>)
    ensures
        r is Some <==> valid_utf8(bytes@),
        r matches Some(s) ==> s@ == decode_utf8(bytes@),
{
    match String::from_utf8(bytes) {
        Ok(s) => Some(s),
        Err(_) => None,
    }
}

} // verus!
