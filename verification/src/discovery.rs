//! Recognising paired BMAP devices from what `bluetoothctl` reports.
//!
//! The application runs `bluetoothctl devices Paired` and `bluetoothctl info
//! <mac>`; this module reads their text: the MAC of each paired device, whether
//! a device is BMAP-capable audio, whether it is connected, and which device
//! type its Modalias product ID maps to.

use vstd::prelude::*;
use vstd::string::{StrSliceExecFns, StringExecFns, StringSliceAdditionalSpecFns};
use vstd::utf8::{encode_utf8, is_char_boundary, is_continuation_byte};

use crate::catalog::{lookup_device, lookup_spec, BMAP_UUID};
use crate::text::{
    chars_of, contains_chars, contains_spec, parse_hex, parse_hex_spec, split_spec, split_str,
    strs_view, trim_bounds, trim_spec,
};

verus! {

/// A discovered BMAP device.
#[derive(Debug, Clone)]
pub struct DiscoveredDevice {
    pub mac: String,
    pub device_type: String,
    pub connected: bool,
}

/// The value of a [`DiscoveredDevice`].
pub struct DiscoveredView {
    pub mac: Seq<char>,
    pub device_type: Seq<char>,
    pub connected: bool,
}

impl View for DiscoveredDevice {
    type V = DiscoveredView;

    open spec fn view(&self) -> DiscoveredView {
        DiscoveredView { mac: self.mac@, device_type: self.device_type@, connected: self.connected }
    }
}

/// The first connected candidate from position `i` on.
pub open spec fn first_connected(cs: Seq<DiscoveredView>, i: int) -> Option<DiscoveredView>
    decreases cs.len() - i,
{
    if i < 0 || i >= cs.len() {
        None
    } else if cs[i].connected {
        Some(cs[i])
    } else {
        first_connected(cs, i + 1)
    }
}

/// The device to connect to: the first connected candidate, else the first
/// candidate, as `(mac, device_type)`.
pub open spec fn pick_spec(cs: Seq<DiscoveredView>) -> Option<(Seq<char>, Seq<char>)> {
    match first_connected(cs, 0) {
        Some(d) => Some((d.mac, d.device_type)),
        None => if cs.len() > 0 {
            Some((cs[0].mac, cs[0].device_type))
        } else {
            None
        },
    }
}

/// Auto-detect a paired, connected BMAP-capable Bluetooth device among the
/// scanned candidates. Prioritizes connected devices. Returns (mac, device_type), or None.
pub fn find_bmap_device(candidates: &Vec<DiscoveredDevice>) -> (r: Option<(String, String)>)
    ensures
        match r {
            Some(p) => pick_spec(candidates@.map_values(|d: DiscoveredDevice| d@)) == Some((p.0@, p.1@)),
            None => pick_spec(candidates@.map_values(|d: DiscoveredDevice| d@)) is None,
        },
{
    let ghost cv = candidates@.map_values(|d: DiscoveredDevice| d@);
    let mut i: usize = 0;
    // Prefer connected
    while i < candidates.len()
        invariant
            i <= candidates@.len(),
            cv == candidates@.map_values(|d: DiscoveredDevice| d@),
            first_connected(cv, i as int) == first_connected(cv, 0),
        decreases candidates@.len() - i,
    {
        assert(cv[i as int] == candidates@[i as int]@);
        if candidates[i].connected {
            return Some((candidates[i].mac.clone(), candidates[i].device_type.clone()));
        }
        i = i + 1;
    }
    // Fall back to first paired
    if candidates.len() > 0 {
        assert(cv[0] == candidates@[0]@);
        Some((candidates[0].mac.clone(), candidates[0].device_type.clone()))
    } else {
        None
    }
}

/// The MAC address on a `bluetoothctl devices Paired` line
/// (`Device <mac> <name>`): the second space-separated field, if there is one.
pub open spec fn paired_mac_spec(line: Seq<char>) -> Option<Seq<char>> {
    let parts = split_spec(line, ' ');
    if parts.len() < 2 {
        None
    } else {
        Some(parts[1])
    }
}

/// The MAC address on a `bluetoothctl devices Paired` line.
pub fn paired_device_mac(line: &str) -> (r: Option<String>)
    ensures
        match r {
            Some(m) => paired_mac_spec(line@) == Some(m@),
            None => paired_mac_spec(line@) is None,
        },
{
    let parts = split_str(line, ' ');
    assert(strs_view(parts@).len() == parts@.len());
    if parts.len() < 2 {
        return None;
    }
    assert(strs_view(parts@)[1] == parts@[1]@);
    Some(String::from_str(parts[1]))
}

/// What a line of `bluetoothctl info` says of the device's product:
/// nothing, a product ID on a `Modalias: bluetooth:vXXXXpYYYY...` line, or a
/// Modalias line whose bytes cut a character where a product ID is read
/// (which the reading does not accept).
pub enum ModaliasLine {
    Skip,
    Found(u16),
    Malformed,
}

/// `s` without the prefix `p`, when it starts with it.
pub open spec fn strip_prefix_spec(s: Seq<char>, p: Seq<char>) -> Option<Seq<char>> {
    if s.len() >= p.len() && s.take(p.len() as int) == p {
        Some(s.skip(p.len() as int))
    } else {
        None
    }
}

/// Bytes read one character each (as `u8 as char`).
pub open spec fn bytes_as_chars(b: Seq<u8>) -> Seq<char> {
    b.map_values(|x: u8| x as char)
}

/// What one `bluetoothctl info` line says of the product: a trimmed line
/// `Modalias:` then, trimmed, `bluetooth:v`; then at least 9 bytes, of which
/// byte 4 is `p` and bytes 5..9 are the product ID in hexadecimal.
pub open spec fn modalias_line(line: Seq<char>) -> ModaliasLine {
    match strip_prefix_spec(trim_spec(line), "Modalias:"@) {
        None => ModaliasLine::Skip,
        Some(rest) => match strip_prefix_spec(trim_spec(rest), "bluetooth:v"@) {
            None => ModaliasLine::Skip,
            Some(bt) => {
                let b = encode_utf8(bt);
                if b.len() < 9 {
                    ModaliasLine::Skip
                } else if !is_char_boundary(b, 4) {
                    ModaliasLine::Malformed
                } else if b[4] != 0x70u8 {
                    ModaliasLine::Skip
                } else if !is_char_boundary(b, 9) {
                    ModaliasLine::Malformed
                } else {
                    match parse_hex_spec(bytes_as_chars(b.subrange(5, 9)), 0xFFFF) {
                        None => ModaliasLine::Skip,
                        Some(v) => ModaliasLine::Found(v as u16),
                    }
                }
            },
        },
    }
}

/// The first line from position `i` on that says something of the product.
pub open spec fn first_modalias(lines: Seq<Seq<char>>, i: int) -> ModaliasLine
    decreases lines.len() - i,
{
    if i < 0 || i >= lines.len() {
        ModaliasLine::Skip
    } else {
        match modalias_line(lines[i]) {
            ModaliasLine::Skip => first_modalias(lines, i + 1),
            o => o,
        }
    }
}

/// The device type of a product ID: its catalog config key, or `qc_ultra2`.
pub open spec fn device_type_for(pid: u16) -> Seq<char> {
    match lookup_spec(pid) {
        Some(d) => match d.config {
            Some(k) => k@,
            None => "qc_ultra2"@,
        },
        None => "qc_ultra2"@,
    }
}

/// The device type `bluetoothctl info` text points to: that of the first
/// Modalias product ID, or `qc_ultra2`.
pub open spec fn detect_type_spec(info: Seq<char>) -> Seq<char> {
    match first_modalias(split_spec(info, '\n'), 0) {
        ModaliasLine::Found(pid) => device_type_for(pid),
        _ => "qc_ultra2"@,
    }
}

/// Whether the text holds, before any readable product ID, a Modalias line
/// that cuts a character where the product ID is read.
pub open spec fn modalias_malformed(info: Seq<char>) -> bool {
    first_modalias(split_spec(info, '\n'), 0) is Malformed
}

/// Whether `v[a..b]` starts with `p`.
fn has_prefix_at(v: &Vec<char>, a: usize, b: usize, p: &Vec<char>) -> (r: bool)
    requires
        a <= b <= v@.len(),
    ensures
        r == (v@.subrange(a as int, b as int).len() >= p@.len()
            && v@.subrange(a as int, b as int).take(p@.len() as int) == p@),
{
    if b - a < p.len() {
        return false;
    }
    let mut k: usize = 0;
    while k < p.len()
        invariant
            a <= b <= v@.len(),
            b - a >= p@.len(),
            k <= p@.len(),
            forall|j: int| 0 <= j < k ==> v@[a + j] == p@[j],
        decreases p@.len() - k,
    {
        if v[a + k] != p[k] {
            assert(v@.subrange(a as int, b as int).take(p@.len() as int)[k as int] != p@[k as int]);
            return false;
        }
        k = k + 1;
    }
    assert(v@.subrange(a as int, b as int).take(p@.len() as int) =~= p@);
    true
}

/// What a `bluetoothctl info` line says of the product.
fn read_modalias_line(line: &str) -> (r: ModaliasLine)
    ensures
        r == modalias_line(line@),
{
    let v = chars_of(line);
    let (a, b) = trim_bounds(&v, 0, v.len());
    assert(v@.subrange(0, v@.len() as int) =~= line@);
    let prefix1 = chars_of("Modalias:");
    if !has_prefix_at(&v, a, b, &prefix1) {
        return ModaliasLine::Skip;
    }
    let (c, d) = trim_bounds(&v, a + prefix1.len(), b);
    assert(v@.subrange(a as int, b as int).skip(prefix1@.len() as int) =~= v@.subrange(a + prefix1@.len(), b as int));
    let prefix2 = chars_of("bluetooth:v");
    if !has_prefix_at(&v, c, d, &prefix2) {
        return ModaliasLine::Skip;
    }
    assert(v@.subrange(c as int, d as int).skip(prefix2@.len() as int) =~= v@.subrange(c + prefix2@.len(), d as int));
    let bt = line.substring_char(c + prefix2.len(), d);
    let bytes = bt.as_bytes();
    let ghost bv = bytes@;
    proof {
        vstd::utf8::encode_utf8_valid_utf8(bt@);
    }
    if bytes.len() < 9 {
        return ModaliasLine::Skip;
    }
    proof {
        vstd::utf8::is_char_boundary_iff_not_is_continuation_byte(bv, 4);
    }
    if 0x80 <= bytes[4] && bytes[4] <= 0xBF {
        return ModaliasLine::Malformed;
    }
    if bytes[4] != 0x70 {
        return ModaliasLine::Skip;
    }
    proof {
        vstd::utf8::is_char_boundary_start_end_of_seq(bv);
        if bv.len() > 9 {
            vstd::utf8::is_char_boundary_iff_not_is_continuation_byte(bv, 9);
        }
    }
    if bytes.len() > 9 && 0x80 <= bytes[9] && bytes[9] <= 0xBF {
        return ModaliasLine::Malformed;
    }
    let mut digits: Vec<char> = Vec::new();
    let mut k: usize = 5;
    while k < 9
        invariant
            5 <= k <= 9,
            bytes@ == bv,
            bv.len() >= 9,
            digits@ == bytes_as_chars(bv.subrange(5, k as int)),
        decreases 9 - k,
    {
        digits.push(bytes[k] as char);
        k = k + 1;
        assert(digits@ =~= bytes_as_chars(bv.subrange(5, k as int)));
    }
    match parse_hex(&digits, 0xFFFF) {
        Some(v) => ModaliasLine::Found(v as u16),
        None => ModaliasLine::Skip,
    }
}

/// Whether the text holds, before any readable product ID, a Modalias line
/// that cuts a character where the product ID is read (reading it would fail).
pub fn has_malformed_modalias(info: &str) -> (b: bool)
    ensures
        b == modalias_malformed(info@),
{
    let lines = split_str(info, '\n');
    let ghost lv = strs_view(lines@);
    let mut i: usize = 0;
    while i < lines.len()
        invariant
            i <= lines@.len(),
            lv == strs_view(lines@),
            lv == split_spec(info@, '\n'),
            first_modalias(lv, i as int) == first_modalias(lv, 0),
        decreases lines@.len() - i,
    {
        assert(lv[i as int] == lines@[i as int]@);
        match read_modalias_line(lines[i]) {
            ModaliasLine::Found(_) => {
                return false;
            },
            ModaliasLine::Malformed => {
                return true;
            },
            ModaliasLine::Skip => {},
        }
        i = i + 1;
    }
    false
}

/// Detect device type from Modalias product ID via catalog lookup.
pub fn detect_device_type(info: &str) -> (r: String)
    requires
        !modalias_malformed(info@),
    ensures
        r@ == detect_type_spec(info@),
{
    let lines = split_str(info, '\n');
    let ghost lv = strs_view(lines@);
    let mut i: usize = 0;
    while i < lines.len()
        invariant
            i <= lines@.len(),
            lv == strs_view(lines@),
            lv == split_spec(info@, '\n'),
            first_modalias(lv, i as int) == first_modalias(lv, 0),
            !(first_modalias(lv, 0) is Malformed),
        decreases lines@.len() - i,
    {
        assert(lv[i as int] == lines@[i as int]@);
        match read_modalias_line(lines[i]) {
            ModaliasLine::Found(pid) => {
                if let Some(dev) = lookup_device(pid) {
                    if let Some(config) = dev.config {
                        return String::from_str(config);
                    }
                }
                return String::from_str("qc_ultra2");
            },
            ModaliasLine::Malformed => {
                return String::from_str("qc_ultra2");
            },
            ModaliasLine::Skip => {},
        }
        i = i + 1;
    }
    String::from_str("qc_ultra2")
}

/// What `bluetoothctl info` text says of a paired device: it is a candidate
/// when it is an audio headset or headphones offering the BMAP service; it
/// is connected when it says `Connected: yes`.
pub open spec fn classify_spec(mac: Seq<char>, info: Seq<char>) -> Option<DiscoveredView> {
    let is_audio = contains_spec(info, "audio-headset"@) || contains_spec(info, "audio-headphones"@);
    let has_bmap = contains_spec(info, BMAP_UUID@);
    if !(is_audio && has_bmap) {
        None
    } else {
        Some(DiscoveredView {
            mac,
            device_type: detect_type_spec(info),
            connected: contains_spec(info, "Connected: yes"@),
        })
    }
}

/// Whether the `bluetoothctl info` text describes a BMAP-capable audio device.
pub open spec fn is_bmap_audio(info: Seq<char>) -> bool {
    (contains_spec(info, "audio-headset"@) || contains_spec(info, "audio-headphones"@))
        && contains_spec(info, BMAP_UUID@)
}

/// Whether `bluetoothctl info` text describes an audio headset or headphones
/// offering the BMAP service.
pub fn describes_bmap_audio(info: &str) -> (b: bool)
    ensures
        b == is_bmap_audio(info@),
{
    let iv = chars_of(info);
    let headset = chars_of("audio-headset");
    let headphones = chars_of("audio-headphones");
    let uuid = chars_of(BMAP_UUID);
    (contains_chars(&iv, &headset) || contains_chars(&iv, &headphones)) && contains_chars(&iv, &uuid)
}

/// Read `bluetoothctl info <mac>` output into a candidate, if it is one.
pub fn classify_device(mac: &str, info: &str) -> (r: Option<DiscoveredDevice>)
    requires
        is_bmap_audio(info@) ==> !modalias_malformed(info@),
    ensures
        match r {
            Some(d) => classify_spec(mac@, info@) == Some(d@),
            None => classify_spec(mac@, info@) is None,
        },
{
    let iv = chars_of(info);
    let headset = chars_of("audio-headset");
    let headphones = chars_of("audio-headphones");
    let uuid = chars_of(BMAP_UUID);
    let is_audio = contains_chars(&iv, &headset) || contains_chars(&iv, &headphones);
    let has_bmap = contains_chars(&iv, &uuid);
    if !(is_audio && has_bmap) {
        return None;
    }
    let yes = chars_of("Connected: yes");
    let connected = contains_chars(&iv, &yes);
    let device_type = detect_device_type(info);
    Some(DiscoveredDevice { mac: String::from_str(mac), device_type, connected })
}

} // verus!
