//! BMAP packet encoding and decoding.
//!
//! A BMAP frame is `[fblock, func, flags, length, payload...]`; the low
//! nibble of `flags` is the operator. This module has no device-specific
//! knowledge and does no I/O.

use vstd::prelude::*;

use vstd::string::StringSliceAdditionalSpecFns;
use crate::text::{dec_text, hex_text, push_dec, push_hex};

verus! {

/// BMAP operators.
#[derive(Debug, Clone, Copy, PartialEq, Eq, Structural)]
pub enum Operator {
    SetOp,
    Get,
    SetGet,
    Status,
    Error,
    Start,
    Result,
    Processing,
}

/// The wire code of an operator.
pub open spec fn op_code(op: Operator) -> u8 {
    match op {
        Operator::SetOp => 0,
        Operator::Get => 1,
        Operator::SetGet => 2,
        Operator::Status => 3,
        Operator::Error => 4,
        Operator::Start => 5,
        Operator::Result => 6,
        Operator::Processing => 7,
    }
}

/// The operator carried by a flags byte: its low nibble, when that names one.
pub open spec fn op_from_flags(v: u8) -> Option<Operator> {
    let n = v % 16;
    if n == 0 {
        Some(Operator::SetOp)
    } else if n == 1 {
        Some(Operator::Get)
    } else if n == 2 {
        Some(Operator::SetGet)
    } else if n == 3 {
        Some(Operator::Status)
    } else if n == 4 {
        Some(Operator::Error)
    } else if n == 5 {
        Some(Operator::Start)
    } else if n == 6 {
        Some(Operator::Result)
    } else if n == 7 {
        Some(Operator::Processing)
    } else {
        None
    }
}

/// The display name of an operator.
pub open spec fn op_name(op: Operator) -> &'static str {
    match op {
        Operator::SetOp => "SET",
        Operator::Get => "GET",
        Operator::SetGet => "SETGET",
        Operator::Status => "STATUS",
        Operator::Error => "ERROR",
        Operator::Start => "START",
        Operator::Result => "RESULT",
        Operator::Processing => "PROCESSING",
    }
}

impl Operator {
    /// Decode the operator from a flags byte (low nibble); `None` for codes 8..15.
    pub fn from_u8(v: u8) -> (r: Option<Self>)
        ensures
            r == op_from_flags(v),
    {
        let n = v & 0x0F;
        assert(v & 0x0F == v % 16) by (bit_vector);
        match n {
            0 => Some(Operator::SetOp),
            1 => Some(Operator::Get),
            2 => Some(Operator::SetGet),
            3 => Some(Operator::Status),
            4 => Some(Operator::Error),
            5 => Some(Operator::Start),
            6 => Some(Operator::Result),
            7 => Some(Operator::Processing),
            _ => None,
        }
    }

    /// Display name ("SET", "GET", ...).
    pub fn name(self) -> (s: &'static str)
        ensures
            s == op_name(self),
    {
        match self {
            Operator::SetOp => "SET",
            Operator::Get => "GET",
            Operator::SetGet => "SETGET",
            Operator::Status => "STATUS",
            Operator::Error => "ERROR",
            Operator::Start => "START",
            Operator::Result => "RESULT",
            Operator::Processing => "PROCESSING",
        }
    }

    /// Wire code of the operator (0..=7).
    pub fn code(self) -> (c: u8)
        ensures
            c == op_code(self),
    {
        match self {
            Operator::SetOp => 0,
            Operator::Get => 1,
            Operator::SetGet => 2,
            Operator::Status => 3,
            Operator::Error => 4,
            Operator::Start => 5,
            Operator::Result => 6,
            Operator::Processing => 7,
        }
    }
}

/// The name of a BMAP error code.
pub open spec fn error_name_spec(code: u8) -> &'static str {
    if code == 0 {
        "Unknown"
    } else if code == 1 {
        "Length"
    } else if code == 2 {
        "Chksum"
    } else if code == 3 {
        "FblockNotSupp"
    } else if code == 4 {
        "FuncNotSupp"
    } else if code == 5 {
        "OpNotSupp(auth)"
    } else if code == 6 {
        "InvalidData"
    } else if code == 7 {
        "DataUnavail"
    } else if code == 8 {
        "Runtime"
    } else if code == 9 {
        "Timeout"
    } else if code == 10 {
        "InvalidState"
    } else if code == 15 {
        "InvalidTransition"
    } else if code == 20 {
        "InsecureTransport"
    } else {
        "Unknown"
    }
}

/// BMAP error code names.
pub fn error_name(code: u8) -> (s: &'static str)
    ensures
        s == error_name_spec(code),
{
    match code {
        0 => "Unknown",
        1 => "Length",
        2 => "Chksum",
        3 => "FblockNotSupp",
        4 => "FuncNotSupp",
        5 => "OpNotSupp(auth)",
        6 => "InvalidData",
        7 => "DataUnavail",
        8 => "Runtime",
        9 => "Timeout",
        10 => "InvalidState",
        15 => "InvalidTransition",
        20 => "InsecureTransport",
        _ => "Unknown",
    }
}

/// A parsed BMAP response.
#[derive(Debug, Clone)]
pub struct BmapResponse {
    pub fblock: u8,
    pub func: u8,
    pub op: Operator,
    pub payload: Vec<u8>,
}

/// The mathematical value of a [`BmapResponse`].
pub struct ResponseView {
    pub fblock: u8,
    pub func: u8,
    pub op: Operator,
    pub payload: Seq<u8>,
}

impl View for BmapResponse {
    type V = ResponseView;

    open spec fn view(&self) -> ResponseView {
        ResponseView { fblock: self.fblock, func: self.func, op: self.op, payload: self.payload@ }
    }
}

/// Human-readable rendering of a response, e.g. `[31.3] RESULT: 00`; an
/// ERROR with a payload also names its error code: `[1.5] ERROR: OpNotSupp(auth) (05)`.
pub open spec fn response_text(r: ResponseView) -> Seq<char> {
    let head = "["@ + dec_text(r.fblock) + "."@ + dec_text(r.func) + "] "@ + op_name(r.op)@ + ": "@;
    if r.op == Operator::Error && r.payload.len() > 0 {
        head + error_name_spec(r.payload[0])@ + " ("@ + hex_text(r.payload) + ")"@
    } else {
        head + hex_text(r.payload)
    }
}

impl BmapResponse {
    /// Format as human-readable string (e.g. "[31.3] RESULT: 00").
    pub fn fmt(&self) -> (s: String)
        ensures
            s@ == response_text(self@),
    {
        let mut s = String::from_str("[");
        push_dec(&mut s, self.fblock);
        s.append(".");
        push_dec(&mut s, self.func);
        s.append("] ");
        s.append(self.op.name());
        s.append(": ");
        if self.op == Operator::Error && self.payload.len() > 0 {
            s.append(error_name(self.payload[0]));
            s.append(" (");
            push_hex(&mut s, self.payload.as_slice());
            s.append(")");
        } else {
            push_hex(&mut s, self.payload.as_slice());
        }
        s
    }
}

/// The frame for `(fblock, func, op, payload)`.
pub open spec fn packet_spec(fblock: u8, func: u8, op: Operator, payload: Seq<u8>) -> Seq<u8> {
    seq![fblock, func, op_code(op), payload.len() as u8] + payload
}

/// Build a BMAP packet from components.
///
/// The length field is one byte, so the payload holds at most 255 bytes.
pub fn bmap_packet(fblock: u8, func: u8, op: Operator, payload: &[u8]) -> (pkt: Vec<u8>)
    requires
        payload@.len() <= 255,
    ensures
        pkt@ == packet_spec(fblock, func, op, payload@),
{
    let mut pkt: Vec<u8> = Vec::new();
    pkt.push(fblock);
    pkt.push(func);
    pkt.push(op.code());
    pkt.push(payload.len() as u8);
    let mut i: usize = 0;
    while i < payload.len()
        invariant
            i <= payload@.len(),
            payload@.len() <= 255,
            pkt@ == seq![fblock, func, op_code(op), payload@.len() as u8] + payload@.take(i as int),
        decreases payload@.len() - i,
    {
        pkt.push(payload[i]);
        i = i + 1;
        assert(pkt@ =~= seq![fblock, func, op_code(op), payload@.len() as u8] + payload@.take(i as int));
    }
    assert(payload@.take(payload@.len() as int) =~= payload@);
    pkt
}

/// The first response framed at the start of `d`, if a whole one is there.
pub open spec fn parse_response_spec(d: Seq<u8>) -> Option<ResponseView> {
    if d.len() < 4 {
        None
    } else {
        match op_from_flags(d[2]) {
            None => None,
            Some(op) => if d.len() < 4 + d[3] {
                None
            } else {
                Some(ResponseView { fblock: d[0], func: d[1], op, payload: d.subrange(4, 4 + d[3]) })
            },
        }
    }
}

/// The responses framed back to back in `d`, up to the first frame that is
/// truncated or carries an unknown operator.
pub open spec fn parse_all_spec(d: Seq<u8>) -> Seq<ResponseView>
    decreases d.len(),
{
    match parse_response_spec(d) {
        None => Seq::empty(),
        Some(r) => seq![r] + parse_all_spec(d.skip(4 + d[3])),
    }
}

/// Copy of `data[start..end]`.
fn copy_range(data: &[u8], start: usize, end: usize) -> (out: Vec<u8>)
    requires
        start <= end <= data@.len(),
    ensures
        out@ == data@.subrange(start as int, end as int),
{
    let mut out: Vec<u8> = Vec::new();
    let mut i = start;
    while i < end
        invariant
            start <= i <= end <= data@.len(),
            out@ == data@.subrange(start as int, i as int),
        decreases end - i,
    {
        out.push(data[i]);
        i = i + 1;
        assert(out@ =~= data@.subrange(start as int, i as int));
    }
    out
}

/// Parse a single BMAP response from raw bytes.
pub fn parse_response(data: &[u8]) -> (r: Option<BmapResponse>)
    ensures
        match r {
            Some(resp) => parse_response_spec(data@) == Some(resp@),
            None => parse_response_spec(data@) is None,
        },
{
    if data.len() < 4 {
        return None;
    }
    let fblock = data[0];
    let func = data[1];
    let op = match Operator::from_u8(data[2]) {
        Some(op) => op,
        None => return None,
    };
    let length = data[3] as usize;
    if data.len() < 4 + length {
        return None;
    }
    let payload = copy_range(data, 4, 4 + length);
    Some(BmapResponse { fblock, func, op, payload })
}

/// The views of a list of responses.
pub open spec fn responses_view(v: Seq<BmapResponse>) -> Seq<ResponseView> {
    v.map_values(|r: BmapResponse| r@)
}

/// Parse concatenated BMAP responses into a list.
pub fn parse_all_responses(data: &[u8]) -> (out: Vec<BmapResponse>)
    ensures
        responses_view(out@) == parse_all_spec(data@),
{
    let mut responses: Vec<BmapResponse> = Vec::new();
    let mut pos: usize = 0;
    assert(data@.skip(0) =~= data@);
    assert(responses_view(responses@) =~= Seq::<ResponseView>::empty());
    proof {
        if !(data@.len() >= 4) {
            assert(parse_all_spec(data@) =~= Seq::<ResponseView>::empty());
        }
    }
    while data.len() >= 4 && pos <= data.len() - 4
        invariant
            pos <= data@.len(),
            responses_view(responses@) + parse_all_spec(data@.skip(pos as int)) == parse_all_spec(data@),
        ensures
            responses_view(responses@) == parse_all_spec(data@),
        decreases data@.len() - pos,
    {
        let ghost rest = data@.skip(pos as int);
        let op = match Operator::from_u8(data[pos + 2]) {
            Some(op) => op,
            None => {
                assert(parse_all_spec(rest) =~= Seq::<ResponseView>::empty());
                assert(responses_view(responses@) =~= responses_view(responses@) + parse_all_spec(rest));
                break;
            },
        };
        let length = data[pos + 3] as usize;
        if length > data.len() - pos - 4 {
            assert(parse_all_spec(rest) =~= Seq::<ResponseView>::empty());
            assert(responses_view(responses@) =~= responses_view(responses@) + parse_all_spec(rest));
            break;
        }
        let payload = copy_range(data, pos + 4, pos + 4 + length);
        let resp = BmapResponse { fblock: data[pos], func: data[pos + 1], op, payload };
        proof {
            assert(rest.subrange(4, 4 + rest[3]) =~= data@.subrange(pos + 4, pos + 4 + length));
            assert(rest.skip(4 + rest[3]) =~= data@.skip(pos + 4 + length));
            assert(parse_all_spec(rest) == seq![resp@] + parse_all_spec(data@.skip(pos + 4 + length)));
        }
        let ghost prev = responses@;
        responses.push(resp);
        assert(responses_view(responses@) =~= responses_view(prev) + seq![resp@]);
        pos = pos + 4 + length;
        proof {
            if !(data@.len() >= 4 && pos <= data@.len() - 4) {
                assert(parse_all_spec(data@.skip(pos as int)) =~= Seq::<ResponseView>::empty());
                assert(responses_view(responses@) =~= responses_view(responses@) + parse_all_spec(data@.skip(pos as int)));
            }
        }
    }
    responses
}

/// The 32-byte name field: the UTF-8 bytes of the name cut to 31, then zeros.
pub open spec fn mode_name_field(name: Seq<u8>) -> Seq<u8> {
    let n = if name.len() < 31 { name.len() } else { 31 };
    name.take(n as int) + Seq::new((32 - n) as nat, |i: int| 0u8)
}

/// Encode a mode name as a 32-byte null-terminated, null-padded array.
pub fn encode_mode_name(name: &str) -> (buf: [u8; 32])
    ensures
        buf@ == mode_name_field(name.spec_bytes()),
{
    let mut buf = [0u8; 32];
    let bytes = name.as_bytes();
    let end: usize = if bytes.len() < 31 { bytes.len() } else { 31 };
    let mut i: usize = 0;
    while i < end
        invariant
            i <= end <= 31,
            end <= bytes@.len(),
            bytes@ == name.spec_bytes(),
            buf@.len() == 32,
            forall|j: int| 0 <= j < i ==> buf@[j] == bytes@[j],
            forall|j: int| i <= j < 32 ==> buf@[j] == 0u8,
        decreases end - i,
    {
        buf[i] = bytes[i];
        i = i + 1;
    }
    assert(buf@ =~= mode_name_field(name.spec_bytes()));
    buf
}

/// The wire code of every operator decodes back to that operator.
pub proof fn lemma_operator_code_roundtrip(op: Operator)
    ensures
        op_from_flags(op_code(op)) == Some(op),
{
}

/// The frame of a response, as `bmap_packet` builds it.
pub open spec fn frame_of(r: ResponseView) -> Seq<u8> {
    packet_spec(r.fblock, r.func, r.op, r.payload)
}

/// Frames of a list of responses, back to back.
pub open spec fn frames_of(rs: Seq<ResponseView>) -> Seq<u8>
    decreases rs.len(),
{
    if rs.len() == 0 {
        Seq::empty()
    } else {
        frame_of(rs[0]) + frames_of(rs.drop_first())
    }
}

/// A response's frame parses back to that response, whatever bytes follow it.
pub proof fn lemma_parse_response_of_packet(r: ResponseView, rest: Seq<u8>)
    requires
        r.payload.len() <= 255,
    ensures
        parse_response_spec(frame_of(r) + rest) == Some(r),
{
    let d = frame_of(r) + rest;
    lemma_operator_code_roundtrip(r.op);
    assert(d.subrange(4, 4 + d[3]) =~= r.payload);
}

/// Parsing a stream that starts with a response's frame yields that
/// response, then what the remainder of the stream parses to.
pub proof fn lemma_parse_all_of_packet(r: ResponseView, rest: Seq<u8>)
    requires
        r.payload.len() <= 255,
    ensures
        parse_all_spec(frame_of(r) + rest) == seq![r] + parse_all_spec(rest),
{
    let d = frame_of(r) + rest;
    lemma_parse_response_of_packet(r, rest);
    assert(d.skip(4 + d[3]) =~= rest);
}

/// Concatenated frames parse back to exactly the responses they encode.
pub proof fn lemma_parse_all_of_frames(rs: Seq<ResponseView>)
    requires
        forall|i: int| 0 <= i < rs.len() ==> (#[trigger] rs[i]).payload.len() <= 255,
    ensures
        parse_all_spec(frames_of(rs)) == rs,
    decreases rs.len(),
{
    if rs.len() == 0 {
        assert(parse_all_spec(Seq::<u8>::empty()) =~= Seq::<ResponseView>::empty());
    } else {
        let tail = rs.drop_first();
        assert forall|i: int| 0 <= i < tail.len() implies (#[trigger] tail[i]).payload.len() <= 255 by {
            assert(tail[i] == rs[i + 1]);
        }
        lemma_parse_all_of_frames(tail);
        lemma_parse_all_of_packet(rs[0], frames_of(tail));
        assert(seq![rs[0]] + tail =~= rs);
    }
}

} // verus!
