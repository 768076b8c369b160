//! Helpers of the command-line tool: reading raw packets typed as hex, and
//! the CNC level gauge of the status display.

use vstd::prelude::*;
use vstd::string::{StringExecFns, StringSliceAdditionalSpecFns};
use vstd::utf8::{encode_utf8, is_ascii_chars, is_ascii_chars_encode_utf8};

use crate::text::{
    all_hex_digits, hex_byte_text, hex_char, hex_digit_value, hex_number, hex_text, parse_hex, parse_hex_spec,
};

verus! {

/// Whether a byte continues a multi-byte UTF-8 character.
pub open spec fn is_continuation(b: u8) -> bool {
    0x80 <= b && b < 0xC0
}

/// The byte written by two hex characters (`from_str_radix(_, 16)` on the
/// two-byte piece); pieces that are not two ASCII characters never parse.
pub open spec fn pair_value(b0: u8, b1: u8) -> Option<int> {
    if b0 < 128 && b1 < 128 {
        parse_hex_spec(seq![b0 as char, b1 as char], 255)
    } else {
        None
    }
}

/// The bytes written by a hex text, read two characters at a time: pieces
/// that do not parse are skipped, and a trailing odd character is ignored.
pub open spec fn hex_bytes_spec(b: Seq<u8>) -> Seq<u8>
    decreases b.len(),
{
    if b.len() < 2 {
        Seq::empty()
    } else {
        let rest = hex_bytes_spec(b.skip(2));
        match pair_value(b[0], b[1]) {
            Some(v) => seq![v as u8] + rest,
            None => rest,
        }
    }
}

fn pair_byte(b0: u8, b1: u8) -> (r: Option<u8>)
    ensures
        match r {
            Some(v) => pair_value(b0, b1) == Some(v as int),
            None => pair_value(b0, b1) is None,
        },
{
    if b0 < 128 && b1 < 128 {
        let mut cs: Vec<char> = Vec::new();
        cs.push(b0 as char);
        cs.push(b1 as char);
        assert(cs@ =~= seq![b0 as char, b1 as char]);
        match parse_hex(&cs, 255) {
            Some(v) => Some(v as u8),
            None => None,
        }
    } else {
        None
    }
}

/// Decode the bytes of a hex text such as `"1f0101"`.
///
/// Every even byte offset must start a character (the text is sliced there).
pub fn hex_to_bytes(hex: &str) -> (out: Vec<u8>)
    requires
        forall|k: int|
            0 <= k < hex.spec_bytes().len() && k % 2 == 0 ==> !is_continuation(
                #[trigger] hex.spec_bytes()[k],
            ),
    ensures
        out@ == hex_bytes_spec(hex.spec_bytes()),
{
    let b = hex.as_bytes();
    let n = b.len();
    let mut out: Vec<u8> = Vec::new();
    let mut i: usize = 0;
    assert(b@.skip(0) =~= b@);
    assert(out@ + hex_bytes_spec(b@) =~= hex_bytes_spec(b@));
    while n - i >= 2
        invariant
            b@ == hex.spec_bytes(),
            n == b@.len(),
            i <= n,
            out@ + hex_bytes_spec(b@.skip(i as int)) == hex_bytes_spec(b@),
        decreases n - i,
    {
        let ghost rest = b@.skip(i as int);
        assert(rest.skip(2) =~= b@.skip(i + 2));
        assert(rest[0] == b@[i as int] && rest[1] == b@[i + 1]);
        match pair_byte(b[i], b[i + 1]) {
            Some(v) => {
                let ghost before = out@;
                out.push(v);
                assert(out@ + hex_bytes_spec(b@.skip(i + 2)) =~= before + hex_bytes_spec(rest));
            },
            None => {},
        }
        i = i + 2;
    }
    assert(hex_bytes_spec(b@.skip(i as int)) =~= Seq::<u8>::empty());
    assert(out@ + Seq::<u8>::empty() =~= out@);
    out
}

proof fn lemma_hex_text_front(p: Seq<u8>)
    requires
        p.len() > 0,
    ensures
        hex_text(p) == hex_byte_text(p[0], false) + hex_text(p.skip(1)),
    decreases p.len(),
{
    if p.len() == 1 {
        assert(p.drop_last() =~= Seq::<u8>::empty());
        assert(p.skip(1) =~= Seq::<u8>::empty());
        assert(hex_text(p) =~= hex_byte_text(p[0], false) + hex_text(p.skip(1)));
    } else {
        lemma_hex_text_front(p.drop_last());
        assert(p.drop_last().skip(1) =~= p.skip(1).drop_last());
        assert(p.skip(1).last() == p.last());
        assert(hex_text(p) =~= hex_byte_text(p[0], false) + hex_text(p.skip(1)));
    }
}

proof fn lemma_hex_text_len(p: Seq<u8>)
    ensures
        hex_text(p).len() == 2 * p.len(),
        is_ascii_chars(hex_text(p)),
    decreases p.len(),
{
    if p.len() > 0 {
        lemma_hex_text_len(p.drop_last());
        let t = hex_text(p.drop_last());
        let u = hex_byte_text(p.last(), false);
        assert forall|i: int| 0 <= i < (t + u).len() implies '\0' <= #[trigger] (t + u)[i] <= '\u{7f}' by {
            if i >= t.len() {
                assert((t + u)[i] == u[i - t.len()]);
            } else {
                assert((t + u)[i] == t[i]);
            }
        }
    }
}

proof fn lemma_hex_pair(b: u8)
    ensures
        pair_value(hex_char((b / 16) as int, false) as u8, hex_char((b % 16) as int, false) as u8) == Some(
            b as int,
        ),
{
    let hi = (b / 16) as int;
    let lo = (b % 16) as int;
    let c0 = hex_char(hi, false);
    let c1 = hex_char(lo, false);
    assert((c0 as u8) as char == c0);
    assert((c1 as u8) as char == c1);
    let s = seq![c0, c1];
    assert(seq![(c0 as u8) as char, (c1 as u8) as char] =~= s);
    assert(hex_digit_value(c0) == Some(hi as u32));
    assert(hex_digit_value(c1) == Some(lo as u32));
    assert(all_hex_digits(s));
    assert(s.drop_last() =~= seq![c0]);
    assert(seq![c0].drop_last() =~= Seq::<char>::empty());
    assert(seq![c0].last() == c0);
    assert(hex_number(Seq::<char>::empty()) == 0);
    assert(hex_number(seq![c0]) == hi);
    assert(hex_number(s) == hi * 16 + lo);
    assert(hi * 16 + lo == b as int);
}

/// Decoding the lower-case hex rendering of bytes (as `BmapResponse::fmt`
/// prints payloads) gives the bytes back.
pub proof fn lemma_hex_roundtrip(p: Seq<u8>)
    ensures
        hex_bytes_spec(encode_utf8(hex_text(p))) == p,
    decreases p.len(),
{
    lemma_hex_text_len(p);
    is_ascii_chars_encode_utf8(hex_text(p));
    if p.len() > 0 {
        lemma_hex_text_front(p);
        lemma_hex_text_len(p.skip(1));
        is_ascii_chars_encode_utf8(hex_text(p.skip(1)));
        let b = encode_utf8(hex_text(p));
        let h = hex_byte_text(p[0], false);
        assert(b.skip(2) =~= encode_utf8(hex_text(p.skip(1)))) by {
            assert forall|i: int| 0 <= i < b.skip(2).len() implies b.skip(2)[i] == encode_utf8(
                hex_text(p.skip(1)),
            )[i] by {
                assert(hex_text(p)[i + 2] == hex_text(p.skip(1))[i]);
            }
        }
        assert(b[0] == hex_text(p)[0] as u8 && hex_text(p)[0] == h[0]);
        assert(b[1] == hex_text(p)[1] as u8 && hex_text(p)[1] == h[1]);
        lemma_hex_pair(p[0]);
        lemma_hex_roundtrip(p.skip(1));
        assert(hex_bytes_spec(b) =~= seq![p[0]] + p.skip(1));
        assert(seq![p[0]] + p.skip(1) =~= p);
    } else {
        assert(encode_utf8(hex_text(p)).len() == 0);
    }
}

/// The CNC gauge: `level` full blocks, then light blocks up to `max`.
pub open spec fn cnc_bar_spec(level: u8, max: u8) -> Seq<char> {
    Seq::new(level as nat, |i: int| '█') + Seq::new((max - level) as nat, |i: int| '░')
}

/// Render the CNC gauge shown by the status display.
pub fn cnc_bar(level: u8, max: u8) -> (s: String)
    requires
        level <= max,
    ensures
        s@ == cnc_bar_spec(level, max),
{
    let full = "█";
    let light = "░";
    proof {
        reveal_strlit("█");
        reveal_strlit("░");
    }
    let mut s = String::from_str("");
    proof {
        reveal_strlit("");
    }
    let mut i: u8 = 0;
    while i < max
        invariant
            level <= max,
            i <= max,
            full@ == seq!['█'],
            light@ == seq!['░'],
            s@ == cnc_bar_spec(level, max).take(i as int),
        decreases max - i,
    {
        let ghost before = s@;
        if i < level {
            s.append(full);
        } else {
            s.append(light);
        }
        assert(s@ =~= cnc_bar_spec(level, max).take(i + 1)) by {
            assert(cnc_bar_spec(level, max).take(i + 1) =~= before.push(cnc_bar_spec(level, max)[i as int]));
        }
        i = i + 1;
    }
    assert(cnc_bar_spec(level, max).take(max as int) =~= cnc_bar_spec(level, max));
    s
}

} // verus!
