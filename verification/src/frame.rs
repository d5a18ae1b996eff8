//! The frame codec: typed data and control frames, their wire serialization,
//! and the parser that turns a byte buffer back into a frame.

use vstd::prelude::*;
use crate::header::{
    Header, HeaderV, FLAG, OPCODE, spec_header_bytes, spec_flag_bits, spec_opcode_bits,
    spec_len_code, spec_ext_len_bytes, is_control_opcode, wf_header,
};
use crate::mask::{Mask, mask_seq, gen_mask, apply_mask, lemma_mask_involution};
use crate::binary::{
    be_val, be_bytes, bytes_to_u16, bytes_to_u64, lemma_be_bytes_val, lemma_be_bytes_len,
    lemma_be_val_cap,
};
use crate::result::{WebSocketError, WebSocketResult};
use crate::traits::Serialize;

verus! {

/// The two families of frames, and a marker for opcodes outside both.
#[derive(Debug, Clone, Copy, PartialEq, Eq, Structural)]
pub enum FrameKind {
    Data,
    Control,
    NotDefine,
}

/// A frame carrying application data.
#[derive(Debug)]
pub struct DataFrame {
    pub header: Header,
    pub data: Vec<u8>,
}

/// A frame carrying protocol signaling; a CLOSE frame leads its payload with
/// a big-endian status code.
#[derive(Debug)]
pub struct ControlFrame {
    pub header: Header,
    pub status_code: Option<u16>,
    pub data: Vec<u8>,
}

/// One unit of the wire protocol: either kind of frame, as a closed sum.
#[derive(Debug)]
pub enum Frame {
    Data(DataFrame),
    Control(ControlFrame),
}

/// The mathematical value of a data frame.
#[verifier::ext_equal]
pub struct DataFrameV {
    pub header: HeaderV,
    pub data: Seq<u8>,
}

/// The mathematical value of a control frame.
#[verifier::ext_equal]
pub struct ControlFrameV {
    pub header: HeaderV,
    pub status_code: Option<u16>,
    pub data: Seq<u8>,
}

/// The mathematical value of a frame.
#[verifier::ext_equal]
pub enum FrameV {
    Data(DataFrameV),
    Control(ControlFrameV),
}

impl View for DataFrame {
    type V = DataFrameV;

    open spec fn view(&self) -> DataFrameV {
        DataFrameV { header: self.header@, data: self.data@ }
    }
}

impl View for ControlFrame {
    type V = ControlFrameV;

    open spec fn view(&self) -> ControlFrameV {
        ControlFrameV { header: self.header@, status_code: self.status_code, data: self.data@ }
    }
}

impl View for Frame {
    type V = FrameV;

    open spec fn view(&self) -> FrameV {
        match self {
            Frame::Data(f) => FrameV::Data(f@),
            Frame::Control(f) => FrameV::Control(f@),
        }
    }
}

/// The bytes a control frame's status code occupies on the wire.
pub open spec fn status_len(status_code: Option<u16>) -> nat {
    if status_code is Some {
        2
    } else {
        0
    }
}

/// A data frame is well formed when its opcode is a data opcode and its
/// header length equals its data length.
pub open spec fn wf_data_frame(f: DataFrameV) -> bool {
    &&& wf_header(f.header)
    &&& !is_control_opcode(f.header.code)
    &&& f.header.payload_len == f.data.len()
}

/// A control frame is well formed when its opcode is a control opcode and
/// its header length equals status bytes plus data, at most 125 in all.
pub open spec fn wf_control_frame(f: ControlFrameV) -> bool {
    &&& wf_header(f.header)
    &&& is_control_opcode(f.header.code)
    &&& f.header.payload_len == f.data.len() + status_len(f.status_code)
    &&& f.header.payload_len <= 125
}

pub open spec fn wf_frame(f: FrameV) -> bool {
    match f {
        FrameV::Data(d) => wf_data_frame(d),
        FrameV::Control(c) => wf_control_frame(c),
    }
}

pub open spec fn spec_frame_header(f: FrameV) -> HeaderV {
    match f {
        FrameV::Data(d) => d.header,
        FrameV::Control(c) => c.header,
    }
}

/// A frame's payload before masking: for a control frame the status code's
/// big-endian bytes, if any, followed by its data.
pub open spec fn spec_frame_payload(f: FrameV) -> Seq<u8> {
    match f {
        FrameV::Data(d) => d.data,
        FrameV::Control(c) => match c.status_code {
            Some(s) => be_bytes(s as nat, 2) + c.data,
            None => c.data,
        },
    }
}

/// The wire bytes of a frame: its header bytes, then its payload, XOR-masked
/// when the header carries a key.
pub open spec fn spec_frame_bytes(f: FrameV) -> Seq<u8> {
    let h = spec_frame_header(f);
    let payload = spec_frame_payload(f);
    spec_header_bytes(h) + (match h.mask {
        Some(key) => mask_seq(payload, key),
        None => payload,
    })
}

/// The kind an opcode classifies its frame into.
pub open spec fn spec_kind_of(code: OPCODE) -> FrameKind {
    if is_control_opcode(code) {
        FrameKind::Control
    } else {
        FrameKind::Data
    }
}

/// The outcome of parsing a byte buffer into a frame.
#[verifier::ext_equal]
pub enum FrameParse {
    /// Too few bytes have arrived; wait for more.
    Incomplete,
    /// The flag or opcode bits are not among the defined values.
    Invalid,
    /// A complete frame, and the count of wire bytes it occupied.
    Done(FrameV, nat),
}

/// The flag that the first wire byte's top four bits denote, if any.
pub open spec fn spec_flag_of(b0: u8) -> Option<FLAG> {
    if b0 / 16 == 8 {
        Some(FLAG::FIN)
    } else if b0 / 16 == 0 {
        Some(FLAG::NOFLAG)
    } else {
        None
    }
}

/// The opcode that the first wire byte's low four bits denote, if any.
pub open spec fn spec_opcode_of(b0: u8) -> Option<OPCODE> {
    let lo = b0 % 16;
    if lo == 0 {
        Some(OPCODE::CONTINUATION)
    } else if lo == 1 {
        Some(OPCODE::TEXT)
    } else if lo == 2 {
        Some(OPCODE::BINARY)
    } else if lo == 8 {
        Some(OPCODE::CLOSE)
    } else if lo == 9 {
        Some(OPCODE::PING)
    } else if lo == 10 {
        Some(OPCODE::PONG)
    } else {
        None
    }
}

/// The mathematical frame parser. It reads flag, opcode, mask bit and
/// 7-bit length from the first two bytes; follows the 126/127 escapes into
/// the 16-bit or 64-bit extended length; takes the four key bytes when the
/// mask bit is set; unmasks the payload span; and, for a control opcode,
/// splits the leading two payload bytes of a CLOSE frame out as the status
/// code. It answers `Incomplete` whenever the buffer ends before the frame
/// does.
pub open spec fn spec_parse_frame(bytes: Seq<u8>) -> FrameParse {
    if bytes.len() < 2 {
        FrameParse::Incomplete
    } else if spec_flag_of(bytes[0]) is None || spec_opcode_of(bytes[0]) is None {
        FrameParse::Invalid
    } else {
        let flag = spec_flag_of(bytes[0])->0;
        let code = spec_opcode_of(bytes[0])->0;
        let masked = bytes[1] >= 128;
        let len7 = bytes[1] % 128;
        let base: nat = if len7 == 126 {
            4
        } else if len7 == 127 {
            10
        } else {
            2
        };
        if bytes.len() < base {
            FrameParse::Incomplete
        } else {
            let ext: nat = if len7 == 126 {
                be_val(bytes.subrange(2, 4))
            } else if len7 == 127 {
                be_val(bytes.subrange(2, 10))
            } else {
                len7 as nat
            };
            let hlen: nat = base + (if masked {
                4nat
            } else {
                0nat
            });
            if bytes.len() < hlen + ext {
                FrameParse::Incomplete
            } else {
                let key = bytes.subrange(base as int, base as int + 4);
                let raw = bytes.subrange(hlen as int, (hlen + ext) as int);
                let payload = if masked {
                    mask_seq(raw, key)
                } else {
                    raw
                };
                let h = HeaderV {
                    flag,
                    code,
                    mask: if masked {
                        Some(key)
                    } else {
                        None
                    },
                    payload_len: ext as u64,
                };
                let frame = if is_control_opcode(code) {
                    if code == OPCODE::CLOSE && payload.len() >= 2 {
                        FrameV::Control(
                            ControlFrameV {
                                header: h,
                                status_code: Some(be_val(payload.take(2)) as u16),
                                data: payload.skip(2),
                            },
                        )
                    } else {
                        FrameV::Control(
                            ControlFrameV { header: h, status_code: None, data: payload },
                        )
                    }
                } else {
                    FrameV::Data(DataFrameV { header: h, data: payload })
                };
                FrameParse::Done(frame, hlen + ext)
            }
        }
    }
}

fn parse_flag(b0: u8) -> (r: Option<FLAG>)
    ensures
        r == spec_flag_of(b0),
{
    let hi = b0 / 16;
    if hi == 8 {
        Some(FLAG::FIN)
    } else if hi == 0 {
        Some(FLAG::NOFLAG)
    } else {
        None
    }
}

fn parse_opcode(b0: u8) -> (r: Option<OPCODE>)
    ensures
        r == spec_opcode_of(b0),
{
    let lo = b0 % 16;
    if lo == 0 {
        Some(OPCODE::CONTINUATION)
    } else if lo == 1 {
        Some(OPCODE::TEXT)
    } else if lo == 2 {
        Some(OPCODE::BINARY)
    } else if lo == 8 {
        Some(OPCODE::CLOSE)
    } else if lo == 9 {
        Some(OPCODE::PING)
    } else if lo == 10 {
        Some(OPCODE::PONG)
    } else {
        None
    }
}

/// Tries to read one frame out of the front of `bytes`, exactly as
/// `spec_parse_frame` describes: `Ok(None)` when the buffer holds too few
/// bytes yet, an `InvalidFrame` error when the flag or opcode bits are
/// undefined, and otherwise the frame with the count of bytes it used.
pub fn bytes_to_frame(bytes: &[u8]) -> (r: WebSocketResult<Option<(Frame, usize)>>)
    ensures
        r is Err <==> spec_parse_frame(bytes@) is Invalid,
        r matches Err(e) ==> e == WebSocketError::InvalidFrame,
        r matches Ok(o) ==> ((o is None) <==> spec_parse_frame(bytes@) is Incomplete),
        r matches Ok(Some(p)) ==> spec_parse_frame(bytes@) == FrameParse::Done(p.0@, p.1 as nat),
{
    if bytes.len() < 2 {
        return Ok(None);
    }
    let b0 = bytes[0];
    let b1 = bytes[1];
    let flag = match parse_flag(b0) {
        Some(f) => f,
        None => {
            return Err(WebSocketError::InvalidFrame);
        },
    };
    let code = match parse_opcode(b0) {
        Some(c) => c,
        None => {
            return Err(WebSocketError::InvalidFrame);
        },
    };
    let masked = b1 >= 128;
    let len7 = b1 % 128;
    let base: usize = if len7 == 126 {
        4
    } else if len7 == 127 {
        10
    } else {
        2
    };
    if bytes.len() < base {
        return Ok(None);
    }
    let ext: u64 = if len7 == 126 {
        match bytes_to_u16(vstd::slice::slice_subrange(bytes, 2, 4)) {
            Ok(v) => v as u64,
            Err(_) => 0,
        }
    } else if len7 == 127 {
        match bytes_to_u64(vstd::slice::slice_subrange(bytes, 2, 10)) {
            Ok(v) => v,
            Err(_) => 0,
        }
    } else {
        len7 as u64
    };
    let hlen: usize = base + (if masked {
        4
    } else {
        0
    });
    if bytes.len() < hlen || ((bytes.len() - hlen) as u64) < ext {
        return Ok(None);
    }
    let payload_len = ext as usize;
    proof {
        assert(ext <= usize::MAX);
    }
    let mask_opt: Option<Mask> = if masked {
        let key: Mask = [bytes[base], bytes[base + 1], bytes[base + 2], bytes[base + 3]];
        proof {
            assert(key@ =~= bytes@.subrange(base as int, base as int + 4));
        }
        Some(key)
    } else {
        None
    };
    let raw = vstd::slice::slice_subrange(bytes, hlen, hlen + payload_len);
    let payload: Vec<u8> = match &mask_opt {
        Some(key) => apply_mask(raw, key),
        None => vstd::slice::slice_to_vec(raw),
    };
    let used = hlen + payload_len;
    let header = Header::new(flag, code, mask_opt, ext);
    let control = match code {
        OPCODE::CLOSE => true,
        OPCODE::PING => true,
        OPCODE::PONG => true,
        _ => false,
    };
    let is_close = match code {
        OPCODE::CLOSE => true,
        _ => false,
    };
    let frame = if control {
        if is_close && payload.len() >= 2 {
            let status = match bytes_to_u16(vstd::slice::slice_subrange(payload.as_slice(), 0, 2)) {
                Ok(v) => v,
                Err(_) => 0,
            };
            let data = vstd::slice::slice_to_vec(
                vstd::slice::slice_subrange(payload.as_slice(), 2, payload.len()),
            );
            proof {
                lemma_be_val_cap(payload@.take(2));
                assert(payload@.take(2) =~= payload@.subrange(0, 2));
                assert(data@ =~= payload@.skip(2));
            }
            Frame::Control(ControlFrame { header, status_code: Some(status), data })
        } else {
            Frame::Control(ControlFrame { header, status_code: None, data: payload })
        }
    } else {
        Frame::Data(DataFrame { header, data: payload })
    };
    proof {
        assert(spec_parse_frame(bytes@) =~~= FrameParse::Done(frame@, used as nat));
    }
    Ok(Some((frame, used)))
}

/// A frame is in the parser's canonical shape: only a CLOSE frame carries a
/// status code, and a CLOSE frame whose payload has room for one carries
/// one — the parser always splits two leading payload bytes of a CLOSE
/// frame out as the status, so a CLOSE frame without one round-trips only
/// while its data stays under two bytes.
pub open spec fn parse_canonical(f: FrameV) -> bool {
    f matches FrameV::Control(c) ==> {
        &&& (c.status_code is Some ==> c.header.code == OPCODE::CLOSE)
        &&& (c.header.code == OPCODE::CLOSE && c.status_code is None ==> c.data.len() <= 1)
    }
}

/// Round trip: parsing the wire bytes of a well-formed frame in the
/// parser's canonical shape yields the frame itself, masking undone, and
/// consumes every byte.
pub proof fn lemma_frame_round_trip(f: FrameV)
    requires
        wf_frame(f),
        parse_canonical(f),
    ensures
        spec_parse_frame(spec_frame_bytes(f)) == FrameParse::Done(f, spec_frame_bytes(f).len()),
{
    let h = spec_frame_header(f);
    let p = spec_frame_payload(f);
    let hb = spec_header_bytes(h);
    let bytes = spec_frame_bytes(f);
    let mask_bytes = match h.mask {
        Some(m) => m,
        None => Seq::<u8>::empty(),
    };
    let wire_payload = match h.mask {
        Some(key) => mask_seq(p, key),
        None => p,
    };
    assert(bytes == hb + wire_payload);
    assert(wire_payload.len() == p.len());

    let fb = spec_flag_bits(h.flag);
    let ob = spec_opcode_bits(h.code);
    let b0 = (fb + ob) as u8;
    let q: int = if h.flag == FLAG::FIN {
        8
    } else {
        0
    };
    vstd::arithmetic::div_mod::lemma_fundamental_div_mod_converse(b0 as int, 16, q, ob as int);
    assert(spec_flag_of(b0) == Some(h.flag));
    assert(spec_opcode_of(b0) == Some(h.code));

    let len = h.payload_len;
    let lc = spec_len_code(len);
    let mask_bit: u8 = if h.mask is Some {
        0x80
    } else {
        0x00
    };
    let b1 = (mask_bit + lc) as u8;
    let mq: int = if h.mask is Some {
        1
    } else {
        0
    };
    vstd::arithmetic::div_mod::lemma_fundamental_div_mod_converse(b1 as int, 128, mq, lc as int);
    assert(b1 % 128 == lc);
    assert((b1 >= 128) <==> (h.mask is Some));

    assert(p.len() == len) by {
        match f {
            FrameV::Control(c) => {
                match c.status_code {
                    Some(s) => {
                        lemma_be_bytes_len(s as nat, 2);
                    },
                    None => {},
                }
            },
            FrameV::Data(_) => {},
        }
    }
    let ext_bytes = spec_ext_len_bytes(len);
    assert(hb == seq![b0, b1] + ext_bytes + mask_bytes);
    let base: nat = if lc == 126 {
        4
    } else if lc == 127 {
        10
    } else {
        2
    };
    if len <= 125 {
        assert(lc == len);
        assert(ext_bytes.len() == 0);
    } else if len <= 65535 {
        assert(lc == 126);
        lemma_be_bytes_len(len as nat, 2);
        lemma_be_bytes_val(len as nat, 2);
    } else {
        assert(lc == 127);
        lemma_be_bytes_len(len as nat, 8);
        lemma_be_bytes_val(len as nat, 8);
    }
    assert(ext_bytes.len() == base - 2);
    let hlen: nat = base + (if h.mask is Some {
        4nat
    } else {
        0nat
    });
    assert(hb.len() == hlen) by {
        assert(mask_bytes.len() == (if h.mask is Some {
            4int
        } else {
            0int
        }));
    }
    assert(bytes.len() == hlen + p.len());
    assert(bytes[0] == b0);
    assert(bytes[1] == b1);
    if lc == 126 {
        assert(bytes.subrange(2, 4) =~= be_bytes(len as nat, 2));
    }
    if lc == 127 {
        assert(bytes.subrange(2, 10) =~= be_bytes(len as nat, 8));
    }
    if h.mask is Some {
        let m = h.mask->0;
        assert(m.len() == 4);
        assert(bytes.subrange(base as int, base as int + 4) =~= m);
        lemma_mask_involution(p, m);
    }
    assert(bytes.subrange(hlen as int, (hlen + p.len()) as int) =~= wire_payload);
    match f {
        FrameV::Control(c) => {
            match c.status_code {
                Some(s) => {
                    lemma_be_bytes_len(s as nat, 2);
                    assert(p.take(2) =~= be_bytes(s as nat, 2));
                    lemma_be_bytes_val(s as nat, 2);
                    assert(p.skip(2) =~= c.data);
                },
                None => {},
            }
        },
        FrameV::Data(_) => {},
    }
    assert(spec_parse_frame(bytes) =~~= FrameParse::Done(f, bytes.len()));
}

/// Reading one frame out of accumulated bytes: `incoming` is appended to
/// `storage`, one parse is attempted, and on success the consumed bytes are
/// drained from the front of `storage`.
pub fn read_frame(storage: &mut Vec<u8>, incoming: &[u8]) -> (r: WebSocketResult<Option<Frame>>)
    ensures
        ({
            let all = old(storage)@ + incoming@;
            match r {
                Ok(Some(frame)) => spec_parse_frame(all) matches FrameParse::Done(fv, used)
                    && frame@ == fv && final(storage)@ == all.skip(used as int),
                Ok(None) => spec_parse_frame(all) is Incomplete && final(storage)@ == all,
                Err(e) => spec_parse_frame(all) is Invalid && e == WebSocketError::InvalidFrame
                    && final(storage)@ == all,
            }
        }),
{
    storage.extend_from_slice(incoming);
    proof {
        assert(storage@ =~= old(storage)@ + incoming@);
    }
    let parsed = match bytes_to_frame(storage.as_slice()) {
        Ok(p) => p,
        Err(e) => {
            return Err(e);
        },
    };
    match parsed {
        Some((frame, used)) => {
            let rest = storage.split_off(used);
            *storage = rest;
            proof {
                assert(storage@ =~= (old(storage)@ + incoming@).skip(used as int));
            }
            Ok(Some(frame))
        },
        None => Ok(None),
    }
}

/// Picks the masking key of a new frame: the given key if one is handed in,
/// a fresh random key if masking is asked for, no key otherwise.
fn pick_mask(mask_frame: bool, mask: Option<Mask>) -> (r: Option<Mask>)
    ensures
        mask is Some ==> r == mask,
        mask is None && !mask_frame ==> r is None,
        mask is None && mask_frame ==> r is Some,
{
    match mask {
        Some(m) => Some(m),
        None => {
            if mask_frame {
                Some(gen_mask())
            } else {
                None
            }
        },
    }
}

impl DataFrame {
    /// Builds a data frame over the given payload. A key is drawn at random
    /// when `mask_frame` is set and no key is given.
    pub fn new(flag: FLAG, opcode: OPCODE, data: Vec<u8>, mask_frame: bool, mask: Option<Mask>) -> (r:
        DataFrame)
        requires
            !is_control_opcode(opcode),
        ensures
            wf_data_frame(r@),
            r@.header.flag == flag,
            r@.header.code == opcode,
            r@.data == data@,
            r@.header.payload_len == data@.len(),
            mask is Some ==> r.header.mask_key == mask,
            mask is None && !mask_frame ==> r.header.mask_key is None,
            mask is None && mask_frame ==> r.header.mask_key is Some,
    {
        let len = data.len() as u64;
        let header = Header::new(flag, opcode, pick_mask(mask_frame, mask), len);
        DataFrame { header, data }
    }

    pub fn get_data(&self) -> (r: &Vec<u8>)
        ensures
            r@ == self@.data,
    {
        &self.data
    }

    pub fn get_header(&self) -> (r: &Header)
        ensures
            r == self.header,
    {
        &self.header
    }
}

impl ControlFrame {
    /// Builds a control frame over the given status code and payload. The
    /// total payload is bounded by 125 bytes: data that would push it past
    /// that bound is truncated. A key is drawn at random when `mask_frame`
    /// is set and no key is given.
    pub fn new(
        flag: FLAG,
        opcode: OPCODE,
        status_code: Option<u16>,
        data: Vec<u8>,
        mask_frame: bool,
        mask: Option<Mask>,
    ) -> (r: ControlFrame)
        requires
            is_control_opcode(opcode),
        ensures
            wf_control_frame(r@),
            r@.header.flag == flag,
            r@.header.code == opcode,
            r@.status_code == status_code,
            r@.data == (if data@.len() + status_len(status_code) <= 125 {
                data@
            } else {
                data@.subrange(0, 125 - status_len(status_code))
            }),
            r@.header.payload_len == r@.data.len() + status_len(status_code),
            mask is Some ==> r.header.mask_key == mask,
            mask is None && !mask_frame ==> r.header.mask_key is None,
            mask is None && mask_frame ==> r.header.mask_key is Some,
    {
        let status_bytes: usize = if status_code.is_some() {
            2
        } else {
            0
        };
        let mut data = data;
        let ghost data0 = data@;
        if data.len() > 125 - status_bytes {
            data.truncate(125 - status_bytes);
            proof {
                assert(data@ =~= data0.subrange(0, 125 - status_len(status_code)));
            }
        }
        let payload_len = (data.len() + status_bytes) as u64;
        let header = Header::new(flag, opcode, pick_mask(mask_frame, mask), payload_len);
        ControlFrame { header, status_code, data }
    }

    pub fn get_status_code(&self) -> (r: Option<u16>)
        ensures
            r == self.status_code,
    {
        self.status_code
    }

    pub fn get_data(&self) -> (r: &Vec<u8>)
        ensures
            r@ == self@.data,
    {
        &self.data
    }

    pub fn get_header(&self) -> (r: &Header)
        ensures
            r == self.header,
    {
        &self.header
    }
}

impl Frame {
    pub fn get_header(&self) -> (r: &Header)
        ensures
            r@ == spec_frame_header(self@),
    {
        match self {
            Frame::Data(f) => &f.header,
            Frame::Control(f) => &f.header,
        }
    }

    /// The frame's own data: for a control frame this excludes the status
    /// code bytes.
    pub fn get_data(&self) -> (r: &Vec<u8>)
        ensures
            self@ matches FrameV::Data(d) ==> r@ == d.data,
            self@ matches FrameV::Control(c) ==> r@ == c.data,
    {
        match self {
            Frame::Data(f) => &f.data,
            Frame::Control(f) => &f.data,
        }
    }

    /// Classifies the frame by its opcode.
    pub fn kind(&self) -> (r: FrameKind)
        ensures
            r == spec_kind_of(spec_frame_header(self@).code),
    {
        match self.get_header().get_opcode() {
            OPCODE::CLOSE => FrameKind::Control,
            OPCODE::PING => FrameKind::Control,
            OPCODE::PONG => FrameKind::Control,
            OPCODE::TEXT => FrameKind::Data,
            OPCODE::BINARY => FrameKind::Data,
            OPCODE::CONTINUATION => FrameKind::Data,
        }
    }

    /// The frame's payload as it stands before masking: the status code's
    /// big-endian bytes first for a control frame, then the data.
    fn build_payload(&self) -> (r: Vec<u8>)
        ensures
            r@ == spec_frame_payload(self@),
    {
        let mut payload: Vec<u8> = Vec::new();
        match self {
            Frame::Data(f) => {
                payload.extend_from_slice(f.data.as_slice());
                proof {
                    assert(payload@ =~= spec_frame_payload(self@));
                }
            },
            Frame::Control(f) => {
                match f.status_code {
                    Some(s) => {
                        payload.push((s / 256) as u8);
                        payload.push((s % 256) as u8);
                        proof {
                            let m = s as nat;
                            vstd::arithmetic::div_mod::lemma_small_mod(m / 256, 256);
                            assert(be_bytes(m / 256 / 256, 0) =~= Seq::<u8>::empty());
                            assert(be_bytes(m / 256, 1) == be_bytes(m / 256 / 256, 0).push(
                                ((m / 256) % 256) as u8,
                            ));
                            assert(be_bytes(m, 2) == be_bytes(m / 256, 1).push((m % 256) as u8));
                            assert(be_bytes(m, 2) =~= payload@);
                        }
                    },
                    None => {},
                }
                payload.extend_from_slice(f.data.as_slice());
                proof {
                    assert(payload@ =~= spec_frame_payload(self@));
                }
            },
        }
        payload
    }

}

impl Serialize for Frame {
    open spec fn spec_serialize(&self) -> Seq<u8> {
        spec_frame_bytes(self@)
    }

    /// Emits the frame's wire bytes: header bytes, then the payload (status
    /// code first for a control frame), masked with the header's key if one
    /// is set.
    fn serialize(&self) -> (r: Vec<u8>)
        ensures
            r@ == spec_frame_bytes(self@),
    {
        let mut buffer = self.get_header().serialize();
        let mut payload = self.build_payload();
        match self.get_header().get_mask() {
            Some(key) => {
                let mut masked = apply_mask(payload.as_slice(), &key);
                buffer.append(&mut masked);
            },
            None => {
                buffer.append(&mut payload);
            },
        }
        buffer
    }
}

} // verus!
