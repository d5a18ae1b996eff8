//! Frame headers: flag, opcode, optional masking key and payload length, and
//! their wire encoding per the 7/7+16/7+64-bit length-extension rule.

use vstd::prelude::*;
use crate::binary::be_bytes;
use crate::mask::Mask;
use crate::traits::Serialize;

verus! {

/// The fragmentation flag of a frame: `FIN` marks the last frame of a
/// message, `NOFLAG` a non-final fragment.
#[allow(non_camel_case_types)]
#[derive(Debug, Clone, Copy, PartialEq, Eq, Structural)]
pub enum FLAG {
    FIN,
    NOFLAG,
}

/// The kind of a frame.
#[allow(non_camel_case_types)]
#[derive(Debug, Clone, Copy, PartialEq, Eq, Structural)]
pub enum OPCODE {
    CONTINUATION,
    TEXT,
    BINARY,
    CLOSE,
    PING,
    PONG,
}

/// The wire value of a flag: the top bit of a frame's first byte.
pub open spec fn spec_flag_bits(flag: FLAG) -> u8 {
    match flag {
        FLAG::FIN => 0x80,
        FLAG::NOFLAG => 0x00,
    }
}

/// The wire value of an opcode: the low four bits of a frame's first byte.
pub open spec fn spec_opcode_bits(code: OPCODE) -> u8 {
    match code {
        OPCODE::CONTINUATION => 0x0,
        OPCODE::TEXT => 0x1,
        OPCODE::BINARY => 0x2,
        OPCODE::CLOSE => 0x8,
        OPCODE::PING => 0x9,
        OPCODE::PONG => 0xA,
    }
}

/// An opcode classifies its frame as a control frame exactly when it is
/// `CLOSE`, `PING` or `PONG`.
pub open spec fn is_control_opcode(code: OPCODE) -> bool {
    code == OPCODE::CLOSE || code == OPCODE::PING || code == OPCODE::PONG
}

pub fn flag_bits(flag: FLAG) -> (r: u8)
    ensures
        r == spec_flag_bits(flag),
{
    match flag {
        FLAG::FIN => 0x80,
        FLAG::NOFLAG => 0x00,
    }
}

pub fn opcode_bits(code: OPCODE) -> (r: u8)
    ensures
        r == spec_opcode_bits(code),
{
    match code {
        OPCODE::CONTINUATION => 0x0,
        OPCODE::TEXT => 0x1,
        OPCODE::BINARY => 0x2,
        OPCODE::CLOSE => 0x8,
        OPCODE::PING => 0x9,
        OPCODE::PONG => 0xA,
    }
}

/// The header of a frame: flag, opcode, optional masking key, and the length
/// of the payload that follows it on the wire.
#[derive(Debug)]
pub struct Header {
    pub flag: FLAG,
    pub code: OPCODE,
    /// `None` when the payload travels unmasked; `Some` holds the key.
    pub mask_key: Option<Mask>,
    pub payload_len: u64,
}

/// The mathematical value of a header: as `Header`, with the masking key
/// abstracted to a byte sequence.
#[verifier::ext_equal]
pub struct HeaderV {
    pub flag: FLAG,
    pub code: OPCODE,
    pub mask: Option<Seq<u8>>,
    pub payload_len: u64,
}

impl View for Header {
    type V = HeaderV;

    open spec fn view(&self) -> HeaderV {
        HeaderV {
            flag: self.flag,
            code: self.code,
            mask: match self.mask_key {
                Some(m) => Some(m@),
                None => None,
            },
            payload_len: self.payload_len,
        }
    }
}

/// A header is well formed when its masking key, if set, holds four bytes.
pub open spec fn wf_header(h: HeaderV) -> bool {
    h.mask is Some ==> h.mask->0.len() == 4
}

/// The 7-bit length field: the length itself up to 125, else the escape
/// value announcing a 16-bit or 64-bit extension.
pub open spec fn spec_len_code(len: u64) -> u8 {
    if len <= 125 {
        len as u8
    } else if len <= 65535 {
        126
    } else {
        127
    }
}

/// The extended length bytes that follow the first two header bytes: empty
/// for short payloads, two or eight big-endian bytes otherwise.
pub open spec fn spec_ext_len_bytes(len: u64) -> Seq<u8> {
    if len <= 125 {
        Seq::empty()
    } else if len <= 65535 {
        be_bytes(len as nat, 2)
    } else {
        be_bytes(len as nat, 8)
    }
}

/// The wire bytes of a header: flag and opcode in the first byte, mask bit
/// and length field in the second, then the extended length and the key.
pub open spec fn spec_header_bytes(h: HeaderV) -> Seq<u8> {
    let byte0 = (spec_flag_bits(h.flag) + spec_opcode_bits(h.code)) as u8;
    let mask_bit: u8 = if h.mask is Some {
        0x80
    } else {
        0x00
    };
    let byte1 = (mask_bit + spec_len_code(h.payload_len)) as u8;
    let mask_bytes = match h.mask {
        Some(m) => m,
        None => Seq::<u8>::empty(),
    };
    seq![byte0, byte1] + spec_ext_len_bytes(h.payload_len) + mask_bytes
}

/// Appends the two big-endian bytes of `n`.
fn push_be2(buffer: &mut Vec<u8>, n: u16)
    ensures
        final(buffer)@ == old(buffer)@ + be_bytes(n as nat, 2),
{
    let hi: u8 = (n / 256) as u8;
    let lo: u8 = (n % 256) as u8;
    buffer.push(hi);
    buffer.push(lo);
    proof {
        let m = n as nat;
        vstd::arithmetic::div_mod::lemma_small_mod(m / 256, 256);
        assert(be_bytes(m / 256 / 256, 0) =~= Seq::<u8>::empty());
        assert(be_bytes(m / 256, 1) == be_bytes(m / 256 / 256, 0).push(((m / 256) % 256) as u8));
        assert(be_bytes(m / 256, 1) =~= seq![hi]);
        assert(be_bytes(m, 2) =~= seq![hi, lo]);
        assert(buffer@ =~= old(buffer)@ + be_bytes(m, 2));
    }
}

/// Appends the eight big-endian bytes of `n`.
fn push_be8(buffer: &mut Vec<u8>, n: u64)
    ensures
        final(buffer)@ == old(buffer)@ + be_bytes(n as nat, 8),
{
    let m1: u64 = n / 256;
    let m2: u64 = m1 / 256;
    let m3: u64 = m2 / 256;
    let m4: u64 = m3 / 256;
    let m5: u64 = m4 / 256;
    let m6: u64 = m5 / 256;
    let m7: u64 = m6 / 256;
    buffer.push((m7 % 256) as u8);
    buffer.push((m6 % 256) as u8);
    buffer.push((m5 % 256) as u8);
    buffer.push((m4 % 256) as u8);
    buffer.push((m3 % 256) as u8);
    buffer.push((m2 % 256) as u8);
    buffer.push((m1 % 256) as u8);
    buffer.push((n % 256) as u8);
    proof {
        let s8 = be_bytes(n as nat, 8);
        assert(s8 == be_bytes(m1 as nat, 7).push((n % 256) as u8));
        assert(be_bytes(m1 as nat, 7) == be_bytes(m2 as nat, 6).push((m1 % 256) as u8));
        assert(be_bytes(m2 as nat, 6) == be_bytes(m3 as nat, 5).push((m2 % 256) as u8));
        assert(be_bytes(m3 as nat, 5) == be_bytes(m4 as nat, 4).push((m3 % 256) as u8));
        assert(be_bytes(m4 as nat, 4) == be_bytes(m5 as nat, 3).push((m4 % 256) as u8));
        assert(be_bytes(m5 as nat, 3) == be_bytes(m6 as nat, 2).push((m5 % 256) as u8));
        assert(be_bytes(m6 as nat, 2) == be_bytes(m7 as nat, 1).push((m6 % 256) as u8));
        assert(be_bytes(m7 as nat, 1) == be_bytes(m7 as nat / 256, 0).push((m7 % 256) as u8));
        assert(buffer@ =~= old(buffer)@ + s8);
    }
}

impl Header {
    pub fn new(flag: FLAG, code: OPCODE, mask_key: Option<Mask>, payload_len: u64) -> (r: Header)
        ensures
            r.flag == flag,
            r.code == code,
            r.mask_key == mask_key,
            r.payload_len == payload_len,
    {
        Header { flag, code, mask_key, payload_len }
    }

    pub fn get_mask(&self) -> (r: Option<Mask>)
        ensures
            r == self.mask_key,
    {
        self.mask_key
    }

    pub fn get_flag(&self) -> (r: FLAG)
        ensures
            r == self.flag,
    {
        self.flag
    }

    pub fn get_opcode(&self) -> (r: OPCODE)
        ensures
            r == self.code,
    {
        self.code
    }

}

impl Serialize for Header {
    open spec fn spec_serialize(&self) -> Seq<u8> {
        spec_header_bytes(self@)
    }

    /// Emits the header's wire bytes: flag-and-opcode byte, mask-bit-and-
    /// length byte, the extended length when the payload needs one, then the
    /// masking key when one is set.
    fn serialize(&self) -> (r: Vec<u8>)
        ensures
            r@ == spec_header_bytes(self@),
    {
        let mut buffer: Vec<u8> = Vec::new();
        buffer.push(flag_bits(self.flag) + opcode_bits(self.code));
        let mask_bit: u8 = if self.mask_key.is_some() {
            0x80
        } else {
            0x00
        };
        if self.payload_len <= 125 {
            buffer.push(mask_bit + (self.payload_len as u8));
        } else if self.payload_len <= 65535 {
            buffer.push(mask_bit + 126);
            push_be2(&mut buffer, self.payload_len as u16);
        } else {
            buffer.push(mask_bit + 127);
            push_be8(&mut buffer, self.payload_len);
        }
        match self.mask_key {
            Some(m) => {
                buffer.push(m[0]);
                buffer.push(m[1]);
                buffer.push(m[2]);
                buffer.push(m[3]);
                proof {
                    assert(m@ =~= seq![m@[0], m@[1], m@[2], m@[3]]);
                }
            },
            None => {},
        }
        proof {
            assert(buffer@ =~= spec_header_bytes(self@));
        }
        buffer
    }
}

} // verus!
