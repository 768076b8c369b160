//! Device configuration and payload parser/builder types.
//!
//! Each device is described by a `DeviceConfig` that maps feature names
//! to function block addresses and declares which features are available.

use vstd::prelude::*;
use vstd::utf8::{encode_scalar, encode_utf8};
use vstd::slice::slice_subrange;
use vstd::string::StringSliceAdditionalSpecFns;

use crate::protocol::{encode_mode_name, mode_name_field};
use vstd::string::StringExecFns;
use crate::text::{
    chars_of, eq_ignore_ascii_case, eq_ignore_case_spec, fold_case, folded, from_utf8_lossy, hex_byte_text,
    parse_hex, parse_hex_spec, lossy_text, push_hex_byte, split_chars, split_spec,
};

verus! {

/// A function block address: (fblock_id, function_id).
#[derive(Debug, Clone, Copy, PartialEq, Eq, Structural)]
pub struct Addr(pub u8, pub u8);

/// Device identification.
#[derive(Debug, Clone, Copy)]
pub struct DeviceInfo {
    pub name: &'static str,
    pub codename: &'static str,
    pub platform: &'static str,
}

/// Preset audio mode.
#[derive(Debug, Clone, Copy)]
pub struct PresetMode {
    pub idx: u8,
    pub description: &'static str,
}

/// Parsed mode configuration.
#[derive(Debug, Clone)]
pub struct ModeConfig {
    pub mode_idx: u8,
    pub name: String,
    pub cnc_level: u8,
    pub spatial: u8,
    pub wind_block: bool,
    pub anc_toggle: bool,
    pub editable: bool,
    pub configured: bool,
    pub prompt_b1: u8,
    pub prompt_b2: u8,
}

/// The value of a [`ModeConfig`].
pub struct ModeConfigView {
    pub mode_idx: u8,
    pub name: Seq<char>,
    pub cnc_level: u8,
    pub spatial: u8,
    pub wind_block: bool,
    pub anc_toggle: bool,
    pub editable: bool,
    pub configured: bool,
    pub prompt_b1: u8,
    pub prompt_b2: u8,
}

impl View for ModeConfig {
    type V = ModeConfigView;

    open spec fn view(&self) -> ModeConfigView {
        ModeConfigView {
            mode_idx: self.mode_idx,
            name: self.name@,
            cnc_level: self.cnc_level,
            spatial: self.spatial,
            wind_block: self.wind_block,
            anc_toggle: self.anc_toggle,
            editable: self.editable,
            configured: self.configured,
            prompt_b1: self.prompt_b1,
            prompt_b2: self.prompt_b2,
        }
    }
}

/// Parsed EQ band.
#[derive(Debug, Clone, Copy)]
pub struct EqBand {
    pub band_id: u8,
    pub name: &'static str,
    pub current: i8,
    pub min_val: i8,
    pub max_val: i8,
}

/// Button mapping.
#[derive(Debug, Clone, Copy)]
pub struct ButtonMapping {
    pub button_id: u8,
    pub button_name: &'static str,
    pub event: u8,
    pub event_name: &'static str,
    pub action: u8,
    pub action_name: &'static str,
}

impl View for ButtonMapping {
    type V = ButtonMapping;

    open spec fn view(&self) -> ButtonMapping {
        *self
    }
}

/// Audio source information.
#[derive(Debug, Clone)]
pub struct AudioSource {
    pub source_type: &'static str,
    pub source_mac: Option<String>,
}

/// The value of an [`AudioSource`].
pub struct AudioSourceView {
    pub source_type: &'static str,
    pub source_mac: Option<Seq<char>>,
}

impl View for AudioSource {
    type V = AudioSourceView;

    open spec fn view(&self) -> AudioSourceView {
        AudioSourceView {
            source_type: self.source_type,
            source_mac: match &self.source_mac {
                Some(m) => Some(m@),
                None => None,
            },
        }
    }
}

// ── Shared Parsers ──────────────────────────────────────────────────────────

/// The offset of the first complete four-byte battery record, from offset `i`
/// on (records start at multiples of four), whose component ID (its fourth
/// byte) is `0x04`, the combined level.
pub open spec fn combined_record(p: Seq<u8>, i: int) -> Option<int>
    decreases p.len() - i,
{
    if i < 0 || i + 4 > p.len() {
        None
    } else if p[i + 3] == 0x04 {
        Some(i)
    } else {
        combined_record(p, i + 4)
    }
}

/// Battery level. The payload is a list of records `[level, reserved,
/// reserved, component_id]`; the generic level is that of the record with
/// component ID `0x04`, else the first byte. Nothing for an empty payload.
pub open spec fn battery_spec(p: Seq<u8>) -> Option<u8> {
    if p.len() == 0 {
        None
    } else {
        match combined_record(p, 0) {
            Some(i) => Some(p[i]),
            None => Some(p[0]),
        }
    }
}

/// Battery level: the level of the combined record (component ID `0x04`),
/// else the first payload byte.
pub fn parse_battery(payload: &[u8]) -> (r: Option<u8>)
    ensures
        r == battery_spec(payload@),
{
    if payload.len() == 0 {
        return None;
    }
    let mut i: usize = 0;
    while payload.len() - i >= 4
        invariant
            i <= payload@.len(),
            combined_record(payload@, i as int) == combined_record(payload@, 0),
        decreases payload@.len() - i,
    {
        if payload[i + 3] == 0x04 {
            return Some(payload[i]);
        }
        i = i + 4;
    }
    Some(payload[0])
}

/// Firmware version: the payload as (lossy) UTF-8 text.
pub fn parse_firmware(payload: &[u8]) -> (s: String)
    ensures
        s@ == lossy_text(payload@),
{
    from_utf8_lossy(payload)
}

/// Product name: the payload after its first (flag) byte, as (lossy) UTF-8.
pub open spec fn product_name_spec(p: Seq<u8>) -> Seq<char> {
    if p.len() > 1 {
        lossy_text(p.skip(1))
    } else {
        Seq::empty()
    }
}

/// Product name: the payload after its first (flag) byte, as (lossy) UTF-8.
pub fn parse_product_name(payload: &[u8]) -> (s: String)
    ensures
        s@ == product_name_spec(payload@),
{
    if payload.len() > 1 {
        let rest = slice_subrange(payload, 1, payload.len());
        assert(rest@ =~= payload@.skip(1));
        from_utf8_lossy(rest)
    } else {
        String::new()
    }
}

/// Noise cancellation `(current, max)`: `[steps, current, ...]` gives
/// `(current, steps - 1)`; a payload shorter than 3 bytes gives `(0, 10)`.
pub open spec fn cnc_spec(p: Seq<u8>) -> (u8, u8) {
    if p.len() >= 3 {
        (p[1], if p[0] >= 1 { (p[0] - 1) as u8 } else { 0u8 })
    } else {
        (0u8, 10u8)
    }
}

/// Noise cancellation `(current, max)`.
pub fn parse_cnc(payload: &[u8]) -> (r: (u8, u8))
    ensures
        r == cnc_spec(payload@),
{
    if payload.len() >= 3 {
        (payload[1], payload[0].saturating_sub(1))
    } else {
        (0, 10)
    }
}

/// Name of an EQ band id.
pub open spec fn band_name_spec(id: u8) -> &'static str {
    if id == 0 {
        "Bass"
    } else if id == 1 {
        "Mid"
    } else if id == 2 {
        "Treble"
    } else {
        "Unknown"
    }
}

fn band_name(id: u8) -> (s: &'static str)
    ensures
        s == band_name_spec(id),
{
    match id {
        0 => "Bass",
        1 => "Mid",
        2 => "Treble",
        _ => "Unknown",
    }
}

/// The EQ band described by the four bytes `[min, max, current, band_id]` at `i`.
pub open spec fn band_at(p: Seq<u8>, i: int) -> EqBand {
    EqBand {
        band_id: p[i + 3],
        name: band_name_spec(p[i + 3]),
        current: p[i + 2] as i8,
        min_val: p[i] as i8,
        max_val: p[i + 1] as i8,
    }
}

/// EQ bands: one per whole group of four bytes; a trailing partial group is ignored.
pub open spec fn eq_spec(p: Seq<u8>) -> Seq<EqBand> {
    Seq::new(p.len() / 4, |k: int| band_at(p, 4 * k))
}

/// EQ bands from a GET [1.7] payload.
pub fn parse_eq(payload: &[u8]) -> (bands: Vec<EqBand>)
    ensures
        bands@ == eq_spec(payload@),
{
    let mut bands: Vec<EqBand> = Vec::new();
    let mut i: usize = 0;
    while payload.len() >= 4 && i <= payload.len() - 4
        invariant
            i % 4 == 0,
            i <= payload@.len() + 3,
            bands@.len() == i / 4,
            i / 4 <= payload@.len() / 4,
            forall|k: int| 0 <= k < bands@.len() ==> #[trigger] bands@[k] == band_at(payload@, 4 * k),
        decreases payload@.len() + 4 - i,
    {
        let band_id = payload[i + 3];
        bands.push(EqBand {
            band_id,
            name: band_name(band_id),
            current: payload[i + 2] as i8,
            min_val: payload[i] as i8,
            max_val: payload[i + 1] as i8,
        });
        i = i + 4;
    }
    assert(bands@ =~= eq_spec(payload@));
    bands
}

/// Multipoint: bit 1 of the first byte.
pub fn parse_multipoint(payload: &[u8]) -> (r: bool)
    ensures
        r == (payload@.len() > 0 && (payload@[0] / 2) % 2 == 1),
{
    if payload.len() > 0 {
        let b = payload[0];
        assert((b & 0x02 != 0) == ((b / 2) % 2 == 1)) by (bit_vector);
        b & 0x02 != 0
    } else {
        false
    }
}

/// A boolean setting: a first byte that is not zero.
pub fn parse_bool(payload: &[u8]) -> (r: bool)
    ensures
        r == (payload@.len() > 0 && payload@[0] != 0),
{
    payload.len() > 0 && payload[0] != 0
}

/// Sidetone level from the second byte.
pub open spec fn sidetone_spec(p: Seq<u8>) -> &'static str {
    if p.len() >= 2 {
        if p[1] == 0 {
            "off"
        } else if p[1] == 1 {
            "high"
        } else if p[1] == 2 {
            "medium"
        } else if p[1] == 3 {
            "low"
        } else {
            "unknown"
        }
    } else {
        "off"
    }
}

/// Sidetone level from the second byte.
pub fn parse_sidetone(payload: &[u8]) -> (s: &'static str)
    ensures
        s == sidetone_spec(payload@),
{
    if payload.len() >= 2 {
        match payload[1] {
            0 => "off",
            1 => "high",
            2 => "medium",
            3 => "low",
            _ => "unknown",
        }
    } else {
        "off"
    }
}

/// Voice prompt language names.
pub open spec fn language_spec(l: u8) -> &'static str {
    if l == 0 { "UK English" }
    else if l == 1 { "US English" }
    else if l == 2 { "French" }
    else if l == 3 { "Italian" }
    else if l == 4 { "German" }
    else if l == 5 { "EU Spanish" }
    else if l == 6 { "MX Spanish" }
    else if l == 7 { "BR Portuguese" }
    else if l == 8 { "Mandarin" }
    else if l == 9 { "Korean" }
    else if l == 10 { "Russian" }
    else if l == 11 { "Polish" }
    else if l == 12 { "Hebrew" }
    else if l == 13 { "Turkish" }
    else if l == 14 { "Dutch" }
    else if l == 15 { "Japanese" }
    else if l == 16 { "Cantonese" }
    else if l == 17 { "Arabic" }
    else if l == 18 { "Swedish" }
    else if l == 19 { "Danish" }
    else if l == 20 { "Norwegian" }
    else if l == 21 { "Finnish" }
    else if l == 22 { "Hindi" }
    else { "Unknown" }
}

fn language_name(l: u8) -> (s: &'static str)
    ensures
        s == language_spec(l),
{
    match l {
        0 => "UK English",
        1 => "US English",
        2 => "French",
        3 => "Italian",
        4 => "German",
        5 => "EU Spanish",
        6 => "MX Spanish",
        7 => "BR Portuguese",
        8 => "Mandarin",
        9 => "Korean",
        10 => "Russian",
        11 => "Polish",
        12 => "Hebrew",
        13 => "Turkish",
        14 => "Dutch",
        15 => "Japanese",
        16 => "Cantonese",
        17 => "Arabic",
        18 => "Swedish",
        19 => "Danish",
        20 => "Norwegian",
        21 => "Finnish",
        22 => "Hindi",
        _ => "Unknown",
    }
}

/// Voice prompts `(enabled, language)`: bit 5 of the first byte, and the
/// language named by its low five bits.
pub open spec fn voice_prompts_spec(p: Seq<u8>) -> (bool, &'static str) {
    if p.len() > 0 {
        ((p[0] / 32) % 2 == 1, language_spec(p[0] % 32))
    } else {
        (false, "Unknown")
    }
}

/// Voice prompts `(enabled, language)`.
pub fn parse_voice_prompts(payload: &[u8]) -> (r: (bool, &'static str))
    ensures
        r == voice_prompts_spec(payload@),
{
    if payload.len() > 0 {
        let b = payload[0];
        let enabled = (b >> 5) & 1 != 0;
        let lang = b & 0x1F;
        assert(((b >> 5) & 1 != 0) == ((b / 32) % 2 == 1)) by (bit_vector);
        assert(b & 0x1F == b % 32) by (bit_vector);
        (enabled, language_name(lang))
    } else {
        (false, "Unknown")
    }
}

/// ANR mode (QC35) from the first byte.
pub open spec fn anr_spec(p: Seq<u8>) -> &'static str {
    if p.len() == 0 {
        "unknown"
    } else if p[0] == 0 {
        "off"
    } else if p[0] == 1 {
        "high"
    } else if p[0] == 2 {
        "wind"
    } else if p[0] == 3 {
        "low"
    } else {
        "unknown"
    }
}

/// ANR mode (QC35) from the first byte.
pub fn parse_anr(payload: &[u8]) -> (s: &'static str)
    ensures
        s == anr_spec(payload@),
{
    if payload.len() == 0 {
        "unknown"
    } else {
        match payload[0] {
            0 => "off",
            1 => "high",
            2 => "wind",
            3 => "low",
            _ => "unknown",
        }
    }
}

/// Name of a configurable button id.
pub open spec fn button_name_spec(id: u8) -> &'static str {
    if id == 0 { "DistalCnc" }
    else if id == 2 { "Vpa" }
    else if id == 3 { "RightShortcut" }
    else if id == 4 { "LeftShortcut" }
    else if id == 16 { "Action" }
    else if id == 128 { "Shortcut" }
    else { "Unknown" }
}

/// Name of a button event type.
pub open spec fn event_name_spec(e: u8) -> &'static str {
    if e == 3 { "short_press" }
    else if e == 4 { "single_press" }
    else if e == 5 { "press_and_hold" }
    else if e == 6 { "double_press" }
    else if e == 8 { "triple_press" }
    else if e == 9 { "long_press" }
    else if e == 10 { "very_long_press" }
    else { "unknown" }
}

/// Name of a button action mode.
pub open spec fn action_name_spec(a: u8) -> &'static str {
    if a == 0 { "NotConfigured" }
    else if a == 1 { "VPA" }
    else if a == 2 { "ANC" }
    else if a == 3 { "BatteryLevel" }
    else if a == 4 { "PlayPause" }
    else if a == 5 { "IncreaseCNC" }
    else if a == 6 { "DecreaseCNC" }
    else if a == 7 { "ToggleWakeWord" }
    else if a == 8 { "SwitchDevice" }
    else if a == 9 { "ConversationMode" }
    else if a == 10 { "TrackForward" }
    else if a == 11 { "TrackBack" }
    else if a == 12 { "FetchNotifications" }
    else if a == 13 { "WindMode" }
    else if a == 14 { "Disabled" }
    else if a == 15 { "ClientInteraction" }
    else if a == 16 { "SpotifyGo" }
    else if a == 17 { "ModesCarousel" }
    else if a == 19 { "SpatialAudioMode" }
    else if a == 20 { "LineInSwitch" }
    else if a == 21 { "Linking" }
    else { "Unknown" }
}

/// The mapping `[button_id, event, action]` names.
pub open spec fn mapping_of(b: u8, e: u8, a: u8) -> ButtonMapping {
    ButtonMapping {
        button_id: b,
        button_name: button_name_spec(b),
        event: e,
        event_name: event_name_spec(e),
        action: a,
        action_name: action_name_spec(a),
    }
}

/// Button mapping from a GET/SETGET [1.9] payload: its first three bytes.
pub open spec fn buttons_spec(p: Seq<u8>) -> Option<ButtonMapping> {
    if p.len() < 3 {
        None
    } else {
        Some(mapping_of(p[0], p[1], p[2]))
    }
}

/// Button mapping from a GET/SETGET [1.9] payload.
pub fn parse_buttons(payload: &[u8]) -> (r: Option<ButtonMapping>)
    ensures
        r == buttons_spec(payload@),
{
    if payload.len() < 3 {
        return None;
    }
    let bid = payload[0];
    let evt = payload[1];
    let action = payload[2];

    let button_name = match bid {
        0 => "DistalCnc",
        2 => "Vpa",
        3 => "RightShortcut",
        4 => "LeftShortcut",
        16 => "Action",
        128 => "Shortcut",
        _ => "Unknown",
    };

    let event_name = match evt {
        3 => "short_press",
        4 => "single_press",
        5 => "press_and_hold",
        6 => "double_press",
        8 => "triple_press",
        9 => "long_press",
        10 => "very_long_press",
        _ => "unknown",
    };

    let action_name = match action {
        0 => "NotConfigured",
        1 => "VPA",
        2 => "ANC",
        3 => "BatteryLevel",
        4 => "PlayPause",
        5 => "IncreaseCNC",
        6 => "DecreaseCNC",
        7 => "ToggleWakeWord",
        8 => "SwitchDevice",
        9 => "ConversationMode",
        10 => "TrackForward",
        11 => "TrackBack",
        12 => "FetchNotifications",
        13 => "WindMode",
        14 => "Disabled",
        15 => "ClientInteraction",
        16 => "SpotifyGo",
        17 => "ModesCarousel",
        19 => "SpatialAudioMode",
        20 => "LineInSwitch",
        21 => "Linking",
        _ => "Unknown",
    };

    Some(ButtonMapping {
        button_id: bid,
        button_name,
        event: evt,
        event_name,
        action,
        action_name,
    })
}

/// The button id a name stands for (case-insensitive).
pub open spec fn button_id_spec(name: Seq<char>) -> Option<u8> {
    if eq_ignore_case_spec(name, "distalcnc"@) { Some(0) }
    else if eq_ignore_case_spec(name, "vpa"@) { Some(2) }
    else if eq_ignore_case_spec(name, "rightshortcut"@) { Some(3) }
    else if eq_ignore_case_spec(name, "leftshortcut"@) { Some(4) }
    else if eq_ignore_case_spec(name, "action"@) { Some(16) }
    else if eq_ignore_case_spec(name, "shortcut"@) { Some(128) }
    else { None }
}

/// Resolve a button name to its ID.
pub fn button_id_from_name(name: &str) -> (r: Option<u8>)
    ensures
        r == button_id_spec(name@),
{
    if eq_ignore_ascii_case(name, "distalcnc") { Some(0) }
    else if eq_ignore_ascii_case(name, "vpa") { Some(2) }
    else if eq_ignore_ascii_case(name, "rightshortcut") { Some(3) }
    else if eq_ignore_ascii_case(name, "leftshortcut") { Some(4) }
    else if eq_ignore_ascii_case(name, "action") { Some(16) }
    else if eq_ignore_ascii_case(name, "shortcut") { Some(128) }
    else { None }
}

/// The event id a name stands for (case-insensitive).
pub open spec fn event_id_spec(name: Seq<char>) -> Option<u8> {
    if eq_ignore_case_spec(name, "rising_edge"@) { Some(1) }
    else if eq_ignore_case_spec(name, "falling_edge"@) { Some(2) }
    else if eq_ignore_case_spec(name, "short_press"@) { Some(3) }
    else if eq_ignore_case_spec(name, "single_press"@) { Some(4) }
    else if eq_ignore_case_spec(name, "press_and_hold"@) { Some(5) }
    else if eq_ignore_case_spec(name, "double_press"@) { Some(6) }
    else if eq_ignore_case_spec(name, "double_press_hold"@) { Some(7) }
    else if eq_ignore_case_spec(name, "triple_press"@) { Some(8) }
    else if eq_ignore_case_spec(name, "long_press"@) { Some(9) }
    else if eq_ignore_case_spec(name, "very_long_press"@) { Some(10) }
    else { None }
}

/// Resolve an event name to its ID.
pub fn event_id_from_name(name: &str) -> (r: Option<u8>)
    ensures
        r == event_id_spec(name@),
{
    if eq_ignore_ascii_case(name, "rising_edge") { Some(1) }
    else if eq_ignore_ascii_case(name, "falling_edge") { Some(2) }
    else if eq_ignore_ascii_case(name, "short_press") { Some(3) }
    else if eq_ignore_ascii_case(name, "single_press") { Some(4) }
    else if eq_ignore_ascii_case(name, "press_and_hold") { Some(5) }
    else if eq_ignore_ascii_case(name, "double_press") { Some(6) }
    else if eq_ignore_ascii_case(name, "double_press_hold") { Some(7) }
    else if eq_ignore_ascii_case(name, "triple_press") { Some(8) }
    else if eq_ignore_ascii_case(name, "long_press") { Some(9) }
    else if eq_ignore_ascii_case(name, "very_long_press") { Some(10) }
    else { None }
}

/// The action id a name stands for (case-insensitive).
pub open spec fn action_id_spec(name: Seq<char>) -> Option<u8> {
    if eq_ignore_case_spec(name, "notconfigured"@) { Some(0) }
    else if eq_ignore_case_spec(name, "vpa"@) { Some(1) }
    else if eq_ignore_case_spec(name, "anc"@) { Some(2) }
    else if eq_ignore_case_spec(name, "batterylevel"@) { Some(3) }
    else if eq_ignore_case_spec(name, "playpause"@) { Some(4) }
    else if eq_ignore_case_spec(name, "increasecnc"@) { Some(5) }
    else if eq_ignore_case_spec(name, "decreasecnc"@) { Some(6) }
    else if eq_ignore_case_spec(name, "togglewakeword"@) { Some(7) }
    else if eq_ignore_case_spec(name, "switchdevice"@) { Some(8) }
    else if eq_ignore_case_spec(name, "conversationmode"@) { Some(9) }
    else if eq_ignore_case_spec(name, "trackforward"@) { Some(10) }
    else if eq_ignore_case_spec(name, "trackback"@) { Some(11) }
    else if eq_ignore_case_spec(name, "fetchnotifications"@) { Some(12) }
    else if eq_ignore_case_spec(name, "windmode"@) { Some(13) }
    else if eq_ignore_case_spec(name, "disabled"@) { Some(14) }
    else if eq_ignore_case_spec(name, "clientinteraction"@) { Some(15) }
    else if eq_ignore_case_spec(name, "spotifygo"@) { Some(16) }
    else if eq_ignore_case_spec(name, "modescarousel"@) { Some(17) }
    else if eq_ignore_case_spec(name, "spatialaudiomode"@) { Some(19) }
    else if eq_ignore_case_spec(name, "lineinswitch"@) { Some(20) }
    else if eq_ignore_case_spec(name, "linking"@) { Some(21) }
    else { None }
}

/// Resolve an action name to its ID.
pub fn action_id_from_name(name: &str) -> (r: Option<u8>)
    ensures
        r == action_id_spec(name@),
{
    if eq_ignore_ascii_case(name, "notconfigured") { Some(0) }
    else if eq_ignore_ascii_case(name, "vpa") { Some(1) }
    else if eq_ignore_ascii_case(name, "anc") { Some(2) }
    else if eq_ignore_ascii_case(name, "batterylevel") { Some(3) }
    else if eq_ignore_ascii_case(name, "playpause") { Some(4) }
    else if eq_ignore_ascii_case(name, "increasecnc") { Some(5) }
    else if eq_ignore_ascii_case(name, "decreasecnc") { Some(6) }
    else if eq_ignore_ascii_case(name, "togglewakeword") { Some(7) }
    else if eq_ignore_ascii_case(name, "switchdevice") { Some(8) }
    else if eq_ignore_ascii_case(name, "conversationmode") { Some(9) }
    else if eq_ignore_ascii_case(name, "trackforward") { Some(10) }
    else if eq_ignore_ascii_case(name, "trackback") { Some(11) }
    else if eq_ignore_ascii_case(name, "fetchnotifications") { Some(12) }
    else if eq_ignore_ascii_case(name, "windmode") { Some(13) }
    else if eq_ignore_ascii_case(name, "disabled") { Some(14) }
    else if eq_ignore_ascii_case(name, "clientinteraction") { Some(15) }
    else if eq_ignore_ascii_case(name, "spotifygo") { Some(16) }
    else if eq_ignore_ascii_case(name, "modescarousel") { Some(17) }
    else if eq_ignore_ascii_case(name, "spatialaudiomode") { Some(19) }
    else if eq_ignore_ascii_case(name, "lineinswitch") { Some(20) }
    else if eq_ignore_ascii_case(name, "linking") { Some(21) }
    else { None }
}

/// `XX:XX:XX:XX:XX:XX` (upper-case hexadecimal) of six bytes.
pub open spec fn mac_text(m: Seq<u8>) -> Seq<char> {
    hex_byte_text(m[0], true) + ":"@ + hex_byte_text(m[1], true) + ":"@ + hex_byte_text(m[2], true)
        + ":"@ + hex_byte_text(m[3], true) + ":"@ + hex_byte_text(m[4], true) + ":"@
        + hex_byte_text(m[5], true)
}

/// Active audio source from a GET [5.1] payload: byte 2 is the source type;
/// for Bluetooth, bytes 3..9 (when present) are the peer's MAC address.
pub open spec fn source_spec(p: Seq<u8>) -> AudioSourceView {
    if p.len() < 3 || p[2] == 0 {
        AudioSourceView { source_type: "none", source_mac: None }
    } else if p[2] == 1 {
        AudioSourceView {
            source_type: "bluetooth",
            source_mac: if p.len() >= 9 { Some(mac_text(p.subrange(3, 9))) } else { None },
        }
    } else if p[2] == 2 {
        AudioSourceView { source_type: "auxiliary", source_mac: None }
    } else {
        AudioSourceView { source_type: "unknown", source_mac: None }
    }
}

/// Parse AudioManagement SOURCE GET [5.1] response.
pub fn parse_source(payload: &[u8]) -> (r: AudioSource)
    ensures
        r@ == source_spec(payload@),
{
    if payload.len() < 3 {
        return AudioSource { source_type: "none", source_mac: None };
    }
    match payload[2] {
        0 => AudioSource { source_type: "none", source_mac: None },
        1 => {
            let mac = if payload.len() >= 9 {
                let mut m = String::new();
                push_hex_byte(&mut m, payload[3], true);
                m.append(":");
                push_hex_byte(&mut m, payload[4], true);
                m.append(":");
                push_hex_byte(&mut m, payload[5], true);
                m.append(":");
                push_hex_byte(&mut m, payload[6], true);
                m.append(":");
                push_hex_byte(&mut m, payload[7], true);
                m.append(":");
                push_hex_byte(&mut m, payload[8], true);
                assert(payload@.subrange(3, 9)[0] == payload@[3]);
                assert(payload@.subrange(3, 9)[1] == payload@[4]);
                assert(payload@.subrange(3, 9)[2] == payload@[5]);
                assert(payload@.subrange(3, 9)[3] == payload@[6]);
                assert(payload@.subrange(3, 9)[4] == payload@[7]);
                assert(payload@.subrange(3, 9)[5] == payload@[8]);
                assert(m@ =~= mac_text(payload@.subrange(3, 9)));
                Some(m)
            } else {
                None
            };
            AudioSource { source_type: "bluetooth", source_mac: mac }
        },
        2 => AudioSource { source_type: "auxiliary", source_mac: None },
        _ => AudioSource { source_type: "unknown", source_mac: None },
    }
}

/// The ROUTING START [4.12] payload for a MAC text: flags 0x82, then the six
/// bytes of `XX:XX:XX:XX:XX:XX`, each piece a hexadecimal byte; otherwise the
/// reason it was refused.
pub open spec fn routing_spec(mac: Seq<char>) -> Result<Seq<u8>, Seq<char>> {
    let parts = split_spec(mac, ':');
    if parts.len() != 6 {
        Err("MAC must be XX:XX:XX:XX:XX:XX"@)
    } else if exists|i: int| 0 <= i < 6 && (#[trigger] parse_hex_spec(parts[i], 255)) is None {
        Err("Invalid MAC byte"@)
    } else {
        Ok(seq![0x82u8] + Seq::new(6, |i: int| parse_hex_spec(parts[i], 255).unwrap() as u8))
    }
}

/// Build DeviceManagement ROUTING START [4.12] payload.
/// flags=0x82 (bit7=UP, bit1=device slot), followed by 6-byte MAC.
pub fn build_routing(mac_str: &str) -> (r: Result<Vec<u8>, String>)
    ensures
        match r {
            Ok(v) => routing_spec(mac_str@) == Ok::<Seq<u8>, Seq<char>>(v@),
            Err(e) => routing_spec(mac_str@) == Err::<Seq<u8>, Seq<char>>(e@),
        },
{
    let chars = chars_of(mac_str);
    let parts = split_chars(&chars, ':');
    let ghost pv = parts@.map_values(|p: Vec<char>| p@);
    assert(pv.len() == parts@.len());
    if parts.len() != 6 {
        return Err(String::from_str("MAC must be XX:XX:XX:XX:XX:XX"));
    }
    let mut payload: Vec<u8> = Vec::new();
    payload.push(0x82u8);
    let mut i: usize = 0;
    while i < 6
        invariant
            i <= 6,
            parts@.len() == 6,
            pv == parts@.map_values(|p: Vec<char>| p@),
            pv == split_spec(mac_str@, ':'),
            payload@.len() == i + 1,
            payload@[0] == 0x82u8,
            forall|j: int| 0 <= j < i ==> (#[trigger] parse_hex_spec(pv[j], 255)) is Some,
            forall|j: int| 0 <= j < i ==> payload@[j + 1] == parse_hex_spec(pv[j], 255).unwrap() as u8,
        decreases 6 - i,
    {
        assert(pv[i as int] == parts@[i as int]@);
        match parse_hex(&parts[i], 255) {
            Some(v) => {
                payload.push(v as u8);
            },
            None => {
                return Err(String::from_str("Invalid MAC byte"));
            },
        }
        i = i + 1;
    }
    assert(payload@ =~= seq![0x82u8] + Seq::new(6, |j: int| parse_hex_spec(pv[j], 255).unwrap() as u8));
    Ok(payload)
}

/// Build a button remap SETGET payload: [buttonId, eventType, actionMode].
pub fn build_buttons(button_id: u8, event: u8, action: u8) -> (v: Vec<u8>)
    ensures
        v@ == seq![button_id, event, action],
{
    let mut v: Vec<u8> = Vec::new();
    v.push(button_id);
    v.push(event);
    v.push(action);
    v
}

/// The position of the first zero byte, or the length when there is none.
pub open spec fn nul_from(s: Seq<u8>, i: int) -> int
    decreases s.len() - i,
{
    if i >= s.len() || s[i] == 0 {
        i
    } else {
        nul_from(s, i + 1)
    }
}

/// The bytes before the first zero byte.
pub open spec fn until_nul(s: Seq<u8>) -> Seq<u8> {
    s.take(nul_from(s, 0))
}

proof fn lemma_nul_from_bounds(s: Seq<u8>, i: int)
    requires
        0 <= i <= s.len(),
    ensures
        i <= nul_from(s, i) <= s.len(),
    decreases s.len() - i,
{
    if i < s.len() && s[i] != 0 {
        lemma_nul_from_bounds(s, i + 1);
    }
}

fn nul_end(s: &[u8]) -> (n: usize)
    ensures
        n == nul_from(s@, 0),
        n <= s@.len(),
{
    let mut i: usize = 0;
    while i < s.len() && s[i] != 0
        invariant
            i <= s@.len(),
            nul_from(s@, i as int) == nul_from(s@, 0),
        decreases s@.len() - i,
    {
        i = i + 1;
    }
    i
}

/// The text of a NUL-terminated name field `p[start..end]`.
pub open spec fn name_in(p: Seq<u8>, start: int, end: int) -> Seq<char> {
    lossy_text(until_nul(p.subrange(start, end)))
}

fn read_name(p: &[u8], start: usize, end: usize) -> (s: String)
    requires
        start <= end <= p@.len(),
    ensures
        s@ == name_in(p@, start as int, end as int),
{
    let field = slice_subrange(p, start, end);
    let n = nul_end(field);
    let name = slice_subrange(field, 0, n);
    assert(name@ =~= until_nul(field@));
    from_utf8_lossy(name)
}

/// ModeConfig STATUS (48 bytes and more) or SETGET echo (40..47 bytes) of
/// the QC Ultra 2 layout.
pub open spec fn mode_config_qc_ultra2_spec(p: Seq<u8>) -> Option<ModeConfigView> {
    if p.len() < 6 {
        None
    } else if p.len() >= 48 {
        Some(ModeConfigView {
            mode_idx: p[0],
            name: name_in(p, 6, 38),
            cnc_level: p[42],
            spatial: p[44],
            wind_block: p[45] != 0,
            anc_toggle: p[47] != 0,
            editable: p[3] != 0,
            configured: p[4] != 0,
            prompt_b1: p[1],
            prompt_b2: p[2],
        })
    } else if p.len() >= 40 {
        Some(ModeConfigView {
            mode_idx: p[0],
            name: name_in(p, 3, 35),
            cnc_level: p[35],
            spatial: p[37],
            wind_block: p[38] != 0,
            anc_toggle: p[39] != 0,
            editable: true,
            configured: true,
            prompt_b1: p[1],
            prompt_b2: p[2],
        })
    } else {
        None
    }
}

/// The view of an optional mode configuration.
pub open spec fn mode_opt_view(r: Option<ModeConfig>) -> Option<ModeConfigView> {
    match r {
        Some(m) => Some(m@),
        None => None,
    }
}

/// Parse a 48-byte ModeConfig STATUS response (QC Ultra 2 / newer firmware).
///
/// STATUS offsets: CNC=42, spatial=44, wind=45, anc=47.
pub fn parse_mode_config_qc_ultra2(payload: &[u8]) -> (r: Option<ModeConfig>)
    ensures
        mode_opt_view(r) == mode_config_qc_ultra2_spec(payload@),
{
    if payload.len() < 6 {
        return None;
    }
    let mode_idx = payload[0];
    let prompt_b1 = payload[1];
    let prompt_b2 = payload[2];
    if payload.len() >= 48 {
        let name = read_name(payload, 6, 38);
        Some(ModeConfig {
            mode_idx,
            name,
            cnc_level: payload[42],
            spatial: payload[44],
            wind_block: payload[45] != 0,
            anc_toggle: payload[47] != 0,
            editable: payload[3] != 0,
            configured: payload[4] != 0,
            prompt_b1,
            prompt_b2,
        })
    } else if payload.len() >= 40 {
        // SETGET echo format
        let name = read_name(payload, 3, 35);
        Some(ModeConfig {
            mode_idx,
            name,
            cnc_level: payload[35],
            spatial: payload[37],
            wind_block: payload[38] != 0,
            anc_toggle: payload[39] != 0,
            editable: true,
            configured: true,
            prompt_b1,
            prompt_b2,
        })
    } else {
        None
    }
}

/// ModeConfig STATUS (47 bytes and more) or SETGET echo (39..46 bytes) of the
/// QuietComfort Headphones (prince) layout; there is no ANC toggle byte.
pub open spec fn mode_config_prince_spec(p: Seq<u8>) -> Option<ModeConfigView> {
    if p.len() < 6 {
        None
    } else if p.len() >= 47 {
        Some(ModeConfigView {
            mode_idx: p[0],
            name: name_in(p, 6, 38),
            cnc_level: p[42],
            spatial: p[44],
            wind_block: p[46] != 0,
            anc_toggle: false,
            editable: p[3] != 0,
            configured: p[4] != 0,
            prompt_b1: p[1],
            prompt_b2: p[2],
        })
    } else if p.len() >= 39 {
        Some(ModeConfigView {
            mode_idx: p[0],
            name: name_in(p, 3, 35),
            cnc_level: p[35],
            spatial: p[37],
            wind_block: p[38] != 0,
            anc_toggle: false,
            editable: true,
            configured: true,
            prompt_b1: p[1],
            prompt_b2: p[2],
        })
    } else {
        None
    }
}

/// Parse a 47-byte ModeConfig STATUS response (QuietComfort Headphones/prince).
///
/// STATUS offsets: CNC=42, spatial=44, wind=46. No anc_toggle byte.
/// SETGET echo format is 39 bytes: CNC=35, spatial=37, wind=38.
pub fn parse_mode_config_prince(payload: &[u8]) -> (r: Option<ModeConfig>)
    ensures
        mode_opt_view(r) == mode_config_prince_spec(payload@),
{
    if payload.len() < 6 {
        return None;
    }
    let mode_idx = payload[0];
    let prompt_b1 = payload[1];
    let prompt_b2 = payload[2];
    if payload.len() >= 47 {
        let name = read_name(payload, 6, 38);
        Some(ModeConfig {
            mode_idx,
            name,
            cnc_level: payload[42],
            spatial: payload[44],
            wind_block: payload[46] != 0,
            anc_toggle: false,
            editable: payload[3] != 0,
            configured: payload[4] != 0,
            prompt_b1,
            prompt_b2,
        })
    } else if payload.len() >= 39 {
        let name = read_name(payload, 3, 35);
        Some(ModeConfig {
            mode_idx,
            name,
            cnc_level: payload[35],
            spatial: payload[37],
            wind_block: payload[38] != 0,
            anc_toggle: false,
            editable: true,
            configured: true,
            prompt_b1,
            prompt_b2,
        })
    } else {
        None
    }
}

/// ModeConfig STATUS of the QuietComfort Earbuds (lando) layout: identity
/// and flags only; a payload shorter than 44 bytes carries its name from
/// byte 6 on and no flags.
pub open spec fn mode_config_44_spec(p: Seq<u8>) -> Option<ModeConfigView> {
    if p.len() < 6 {
        None
    } else {
        Some(ModeConfigView {
            mode_idx: p[0],
            name: if p.len() >= 44 { name_in(p, 6, 38) } else { name_in(p, 6, p.len() as int) },
            cnc_level: 0,
            spatial: 0,
            wind_block: false,
            anc_toggle: false,
            editable: p.len() >= 44 && p[3] != 0,
            configured: p.len() >= 44 && p[4] != 0,
            prompt_b1: p[1],
            prompt_b2: p[2],
        })
    }
}

/// Parse a 44-byte ModeConfig STATUS response (QuietComfort Earbuds/lando).
pub fn parse_mode_config_44(payload: &[u8]) -> (r: Option<ModeConfig>)
    ensures
        mode_opt_view(r) == mode_config_44_spec(payload@),
{
    if payload.len() < 6 {
        return None;
    }
    let mode_idx = payload[0];
    let prompt_b1 = payload[1];
    let prompt_b2 = payload[2];
    let (editable, configured, name) = if payload.len() >= 44 {
        (payload[3] != 0, payload[4] != 0, read_name(payload, 6, 38))
    } else {
        (false, false, read_name(payload, 6, payload.len()))
    };
    Some(ModeConfig {
        mode_idx,
        name,
        cnc_level: 0,
        spatial: 0,
        wind_block: false,
        anc_toggle: false,
        editable,
        configured,
        prompt_b1,
        prompt_b2,
    })
}

/// The 40-byte ModeConfig SETGET payload.
pub open spec fn mode_config_40_spec(
    mode_idx: u8,
    name: Seq<u8>,
    cnc_level: u8,
    spatial: u8,
    wind_block: bool,
    anc_toggle: bool,
    prompt_b1: u8,
    prompt_b2: u8,
) -> Seq<u8> {
    seq![mode_idx, prompt_b1, prompt_b2] + mode_name_field(name) + seq![
        cnc_level,
        0u8,
        spatial,
        if wind_block { 1u8 } else { 0u8 },
        if anc_toggle { 1u8 } else { 0u8 },
    ]
}

/// The 39-byte ModeConfig SETGET payload (no ANC toggle byte).
pub open spec fn mode_config_39_spec(
    mode_idx: u8,
    name: Seq<u8>,
    cnc_level: u8,
    spatial: u8,
    wind_block: bool,
    prompt_b1: u8,
    prompt_b2: u8,
) -> Seq<u8> {
    seq![mode_idx, prompt_b1, prompt_b2] + mode_name_field(name) + seq![
        cnc_level,
        0u8,
        spatial,
        if wind_block { 1u8 } else { 0u8 },
    ]
}

fn push_all(v: &mut Vec<u8>, bytes: &[u8])
    ensures
        final(v)@ == old(v)@ + bytes@,
{
    let mut i: usize = 0;
    while i < bytes.len()
        invariant
            i <= bytes@.len(),
            v@ == old(v)@ + bytes@.take(i as int),
        decreases bytes@.len() - i,
    {
        v.push(bytes[i]);
        i = i + 1;
        assert(v@ =~= old(v)@ + bytes@.take(i as int));
    }
    assert(bytes@.take(bytes@.len() as int) =~= bytes@);
}

/// Build a 40-byte ModeConfig SETGET payload.
pub fn build_mode_config_40(
    mode_idx: u8,
    name: &str,
    cnc_level: u8,
    spatial: u8,
    wind_block: bool,
    anc_toggle: bool,
    prompt_b1: u8,
    prompt_b2: u8,
) -> (payload: Vec<u8>)
    ensures
        payload@ == mode_config_40_spec(
            mode_idx,
            name.spec_bytes(),
            cnc_level,
            spatial,
            wind_block,
            anc_toggle,
            prompt_b1,
            prompt_b2,
        ),
{
    let mut payload: Vec<u8> = Vec::new();
    payload.push(mode_idx);
    payload.push(prompt_b1);
    payload.push(prompt_b2);
    let field = encode_mode_name(name);
    push_all(&mut payload, field.as_slice());
    payload.push(cnc_level);
    payload.push(0);  // auto_cnc
    payload.push(spatial);
    payload.push(if wind_block { 1 } else { 0 });
    payload.push(if anc_toggle { 1 } else { 0 });
    assert(payload@ =~= mode_config_40_spec(
        mode_idx,
        name.spec_bytes(),
        cnc_level,
        spatial,
        wind_block,
        anc_toggle,
        prompt_b1,
        prompt_b2,
    ));
    payload
}

/// Build a 39-byte ModeConfig SETGET payload (QuietComfort Headphones/prince).
/// The ANC toggle argument is accepted for a uniform builder signature and ignored.
pub fn build_mode_config_39(
    mode_idx: u8,
    name: &str,
    cnc_level: u8,
    spatial: u8,
    wind_block: bool,
    _anc_toggle: bool,
    prompt_b1: u8,
    prompt_b2: u8,
) -> (payload: Vec<u8>)
    ensures
        payload@ == mode_config_39_spec(
            mode_idx,
            name.spec_bytes(),
            cnc_level,
            spatial,
            wind_block,
            prompt_b1,
            prompt_b2,
        ),
{
    let mut payload: Vec<u8> = Vec::new();
    payload.push(mode_idx);
    payload.push(prompt_b1);
    payload.push(prompt_b2);
    let field = encode_mode_name(name);
    push_all(&mut payload, field.as_slice());
    payload.push(cnc_level);
    payload.push(0);  // auto_cnc
    payload.push(spatial);
    payload.push(if wind_block { 1 } else { 0 });
    assert(payload@ =~= mode_config_39_spec(
        mode_idx,
        name.spec_bytes(),
        cnc_level,
        spatial,
        wind_block,
        prompt_b1,
        prompt_b2,
    ));
    payload
}

/// Full device status snapshot.
#[derive(Debug, Clone)]
pub struct DeviceStatus {
    pub battery: u8,
    pub mode: String,
    pub mode_idx: u8,
    pub cnc_level: u8,
    pub cnc_max: u8,
    pub eq: Vec<EqBand>,
    pub name: String,
    pub firmware: String,
    pub sidetone: String,
    pub multipoint: bool,
    pub auto_pause: bool,
    pub prompts_enabled: bool,
    pub prompts_language: String,
}

/// The value of a [`DeviceStatus`].
pub struct DeviceStatusView {
    pub battery: u8,
    pub mode: Seq<char>,
    pub mode_idx: u8,
    pub cnc_level: u8,
    pub cnc_max: u8,
    pub eq: Seq<EqBand>,
    pub name: Seq<char>,
    pub firmware: Seq<char>,
    pub sidetone: Seq<char>,
    pub multipoint: bool,
    pub auto_pause: bool,
    pub prompts_enabled: bool,
    pub prompts_language: Seq<char>,
}

impl View for DeviceStatus {
    type V = DeviceStatusView;

    open spec fn view(&self) -> DeviceStatusView {
        DeviceStatusView {
            battery: self.battery,
            mode: self.mode@,
            mode_idx: self.mode_idx,
            cnc_level: self.cnc_level,
            cnc_max: self.cnc_max,
            eq: self.eq@,
            name: self.name@,
            firmware: self.firmware@,
            sidetone: self.sidetone@,
            multipoint: self.multipoint,
            auto_pause: self.auto_pause,
            prompts_enabled: self.prompts_enabled,
            prompts_language: self.prompts_language@,
        }
    }
}

/// The ModeConfig STATUS layouts a device may use.
#[derive(Debug, Clone, Copy, PartialEq, Eq, Structural)]
pub enum ModeConfigParser {
    /// 48-byte STATUS / 40-byte echo ([`parse_mode_config_qc_ultra2`]).
    QcUltra2,
    /// 47-byte STATUS / 39-byte echo ([`parse_mode_config_prince`]).
    Prince,
    /// 44-byte STATUS, identity and flags only ([`parse_mode_config_44`]).
    Earbuds44,
}

/// What a layout's parser makes of a payload.
pub open spec fn mode_config_parse_spec(layout: ModeConfigParser, p: Seq<u8>) -> Option<ModeConfigView> {
    match layout {
        ModeConfigParser::QcUltra2 => mode_config_qc_ultra2_spec(p),
        ModeConfigParser::Prince => mode_config_prince_spec(p),
        ModeConfigParser::Earbuds44 => mode_config_44_spec(p),
    }
}

impl ModeConfigParser {
    /// Parse a ModeConfig payload with this layout.
    pub fn parse(self, payload: &[u8]) -> (r: Option<ModeConfig>)
        ensures
            mode_opt_view(r) == mode_config_parse_spec(self, payload@),
    {
        match self {
            ModeConfigParser::QcUltra2 => parse_mode_config_qc_ultra2(payload),
            ModeConfigParser::Prince => parse_mode_config_prince(payload),
            ModeConfigParser::Earbuds44 => parse_mode_config_44(payload),
        }
    }
}

/// The ModeConfig SETGET payload formats a device may accept.
#[derive(Debug, Clone, Copy, PartialEq, Eq, Structural)]
pub enum ModeConfigBuilder {
    /// 40-byte payload ([`build_mode_config_40`]).
    Forty,
    /// 39-byte payload without ANC toggle ([`build_mode_config_39`]).
    ThirtyNine,
}

/// The payload a format's builder makes.
pub open spec fn mode_config_build_spec(
    format: ModeConfigBuilder,
    mode_idx: u8,
    name: Seq<u8>,
    cnc_level: u8,
    spatial: u8,
    wind_block: bool,
    anc_toggle: bool,
    prompt_b1: u8,
    prompt_b2: u8,
) -> Seq<u8> {
    match format {
        ModeConfigBuilder::Forty => mode_config_40_spec(
            mode_idx,
            name,
            cnc_level,
            spatial,
            wind_block,
            anc_toggle,
            prompt_b1,
            prompt_b2,
        ),
        ModeConfigBuilder::ThirtyNine => mode_config_39_spec(
            mode_idx,
            name,
            cnc_level,
            spatial,
            wind_block,
            prompt_b1,
            prompt_b2,
        ),
    }
}

impl ModeConfigBuilder {
    /// Build a ModeConfig SETGET payload in this format.
    pub fn build(
        self,
        mode_idx: u8,
        name: &str,
        cnc_level: u8,
        spatial: u8,
        wind_block: bool,
        anc_toggle: bool,
        prompt_b1: u8,
        prompt_b2: u8,
    ) -> (payload: Vec<u8>)
        ensures
            payload@ == mode_config_build_spec(
                self,
                mode_idx,
                name.spec_bytes(),
                cnc_level,
                spatial,
                wind_block,
                anc_toggle,
                prompt_b1,
                prompt_b2,
            ),
    {
        match self {
            ModeConfigBuilder::Forty => build_mode_config_40(
                mode_idx,
                name,
                cnc_level,
                spatial,
                wind_block,
                anc_toggle,
                prompt_b1,
                prompt_b2,
            ),
            ModeConfigBuilder::ThirtyNine => build_mode_config_39(
                mode_idx,
                name,
                cnc_level,
                spatial,
                wind_block,
                anc_toggle,
                prompt_b1,
                prompt_b2,
            ),
        }
    }
}

/// Feature addresses for a device. None means the device doesn't support it.
#[derive(Debug, Clone)]
pub struct DeviceConfig {
    pub info: DeviceInfo,
    /// RFCOMM channel for BMAP (2 for newer devices, 8 for QC35).
    pub rfcomm_channel: u8,
    /// Init packet required before device responds (Some((fblock, func)) for QC35).
    pub init_packet: Option<Addr>,
    pub battery: Option<Addr>,
    pub firmware: Option<Addr>,
    pub product_name: Option<Addr>,
    pub voice_prompts: Option<Addr>,
    pub cnc: Option<Addr>,
    pub eq: Option<Addr>,
    pub buttons: Option<Addr>,
    pub multipoint: Option<Addr>,
    pub sidetone: Option<Addr>,
    pub auto_pause: Option<Addr>,
    pub auto_answer: Option<Addr>,
    /// ANR mode address (QC35: off/high/wind/low at [1.6]).
    pub anr: Option<Addr>,
    pub pairing: Option<Addr>,
    pub routing: Option<Addr>,
    pub source: Option<Addr>,
    pub power: Option<Addr>,
    pub get_all_modes: Option<Addr>,
    pub current_mode: Option<Addr>,
    pub mode_config: Option<Addr>,
    pub favorites: Option<Addr>,
    /// AudioModesSettingsConfig [31.10] — direct CNC/spatial/wind/ANC control.
    pub audio_settings: Option<Addr>,
    pub preset_modes: Vec<(&'static str, PresetMode)>,
    pub editable_slots: Vec<u8>,
    /// Device-specific ModeConfig STATUS layout. None if device has no mode config.
    pub parse_mode_config: Option<ModeConfigParser>,
    /// Device-specific ModeConfig SETGET format.
    pub build_mode_config: Option<ModeConfigBuilder>,
    /// Whether the ModeConfig or audio settings layout exposes an ANC toggle bit.
    pub supports_anc_toggle: bool,
    /// CNC is written with SETGET [1.5] payload [level, 1] (QC Earbuds);
    /// AudioSettings [31.10] and ModeConfig [31.6] writes are unavailable.
    pub cnc_direct_setget: bool,
}

// ── Laws ────────────────────────────────────────────────────────────────────

proof fn lemma_scalar_bytes_nonzero(v: u32)
    requires
        v != 0,
    ensures
        forall|j: int| 0 <= j < encode_scalar(v).len() ==> #[trigger] encode_scalar(v)[j] != 0,
{
    assert(v != 0 && v <= 0x7F ==> (v & 0x7F) as u8 != 0) by (bit_vector);
    assert(0xC0 | ((v >> 6) & 0x1F) as u8 != 0) by (bit_vector);
    assert(0xE0 | ((v >> 12) & 0x0F) as u8 != 0) by (bit_vector);
    assert(0xF0 | ((v >> 18) & 0x7) as u8 != 0) by (bit_vector);
    assert(0x80 | (v & 0x3F) as u8 != 0) by (bit_vector);
    assert(0x80 | ((v >> 6) & 0x3F) as u8 != 0) by (bit_vector);
    assert(0x80 | ((v >> 12) & 0x3F) as u8 != 0) by (bit_vector);
}

/// Text without a NUL character has no zero byte in its UTF-8 encoding.
proof fn lemma_no_nul_bytes(chars: Seq<char>)
    requires
        forall|i: int| 0 <= i < chars.len() ==> chars[i] != '\0',
    ensures
        forall|j: int| 0 <= j < encode_utf8(chars).len() ==> #[trigger] encode_utf8(chars)[j] != 0,
    decreases chars.len(),
{
    if chars.len() > 0 {
        let rest = chars.drop_first();
        assert forall|i: int| 0 <= i < rest.len() implies rest[i] != '\0' by {
            assert(rest[i] == chars[i + 1]);
        }
        lemma_no_nul_bytes(rest);
        assert(chars[0] as u32 != 0) by {
            vstd::utf8::char_u32_cast(chars[0], chars[0] as u32);
            if chars[0] as u32 == 0 {
                assert((0u32 as char) == '\0');
            }
        }
        lemma_scalar_bytes_nonzero(chars[0] as u32);
        let a = encode_scalar(chars[0] as u32);
        let e = encode_utf8(chars);
        assert(e == a + encode_utf8(rest));
        assert forall|j: int| 0 <= j < e.len() implies #[trigger] e[j] != 0 by {
            if j < a.len() {
                assert(e[j] == a[j]);
            } else {
                assert(e[j] == encode_utf8(rest)[j - a.len()]);
            }
        }
    }
}

/// The name field of a ModeConfig payload reads back as the name it was
/// built from, for a name of at most 31 UTF-8 bytes with no NUL character.
pub proof fn lemma_mode_name_roundtrip(name: &str)
    requires
        name.spec_bytes().len() <= 31,
        forall|i: int| 0 <= i < name@.len() ==> name@[i] != '\0',
    ensures
        lossy_text(until_nul(mode_name_field(name.spec_bytes()))) == name@,
{
    lemma_no_nul_bytes(name@);
    let b = name.spec_bytes();
    let f = mode_name_field(b);
    assert(f.take(b.len() as int) =~= b);
    assert forall|i: int| 0 <= i < b.len() implies #[trigger] nul_from(f, i) == nul_from(f, b.len() as int) by {
        lemma_nul_from_step(f, i, b.len() as int);
    }
    assert(nul_from(f, 0) == b.len()) by { lemma_nul_from_step(f, 0, b.len() as int); }
    vstd::utf8::encode_utf8_valid_utf8(name@);
    vstd::utf8::encode_utf8_decode_utf8(name@);
}

proof fn lemma_nul_from_step(s: Seq<u8>, i: int, j: int)
    requires
        0 <= i <= j <= s.len(),
        forall|k: int| i <= k < j ==> s[k] != 0,
    ensures
        nul_from(s, i) == nul_from(s, j),
    decreases j - i,
{
    if i < j {
        lemma_nul_from_step(s, i + 1, j);
    }
}

/// A 40-byte ModeConfig payload, read back as a SETGET echo of the QC Ultra 2
/// layout, gives back every field it was built from, and marks the mode
/// editable and configured.
pub proof fn lemma_mode_config_40_roundtrip(
    mode_idx: u8,
    name: &str,
    cnc_level: u8,
    spatial: u8,
    wind_block: bool,
    anc_toggle: bool,
    prompt_b1: u8,
    prompt_b2: u8,
)
    requires
        name.spec_bytes().len() <= 31,
        forall|i: int| 0 <= i < name@.len() ==> name@[i] != '\0',
    ensures
        mode_config_qc_ultra2_spec(
            mode_config_40_spec(mode_idx, name.spec_bytes(), cnc_level, spatial, wind_block, anc_toggle, prompt_b1, prompt_b2),
        ) == Some(ModeConfigView {
            mode_idx,
            name: name@,
            cnc_level,
            spatial,
            wind_block,
            anc_toggle,
            editable: true,
            configured: true,
            prompt_b1,
            prompt_b2,
        }),
{
    let p = mode_config_40_spec(mode_idx, name.spec_bytes(), cnc_level, spatial, wind_block, anc_toggle, prompt_b1, prompt_b2);
    let f = mode_name_field(name.spec_bytes());
    assert(p.subrange(3, 35) =~= f);
    lemma_mode_name_roundtrip(name);
}

/// A 39-byte ModeConfig payload, read back as a SETGET echo of the prince
/// layout, gives back every field it was built from; that layout has no ANC
/// toggle, which reads as off.
pub proof fn lemma_mode_config_39_roundtrip(
    mode_idx: u8,
    name: &str,
    cnc_level: u8,
    spatial: u8,
    wind_block: bool,
    prompt_b1: u8,
    prompt_b2: u8,
)
    requires
        name.spec_bytes().len() <= 31,
        forall|i: int| 0 <= i < name@.len() ==> name@[i] != '\0',
    ensures
        mode_config_prince_spec(
            mode_config_39_spec(mode_idx, name.spec_bytes(), cnc_level, spatial, wind_block, prompt_b1, prompt_b2),
        ) == Some(ModeConfigView {
            mode_idx,
            name: name@,
            cnc_level,
            spatial,
            wind_block,
            anc_toggle: false,
            editable: true,
            configured: true,
            prompt_b1,
            prompt_b2,
        }),
{
    let p = mode_config_39_spec(mode_idx, name.spec_bytes(), cnc_level, spatial, wind_block, prompt_b1, prompt_b2);
    let f = mode_name_field(name.spec_bytes());
    assert(p.subrange(3, 35) =~= f);
    lemma_mode_name_roundtrip(name);
}

/// A remap payload parses back to the mapping it was built from.
pub proof fn lemma_buttons_roundtrip(button_id: u8, event: u8, action: u8)
    ensures
        buttons_spec(seq![button_id, event, action]) == Some(mapping_of(button_id, event, action)),
{
}

/// Button ids that have a name.
pub open spec fn named_button(id: u8) -> bool {
    id == 0 || id == 2 || id == 3 || id == 4 || id == 16 || id == 128
}

/// Event types that have a name.
pub open spec fn named_event(e: u8) -> bool {
    3 <= e <= 6 || 8 <= e <= 10
}

/// Actions that have a name.
pub open spec fn named_action(a: u8) -> bool {
    a <= 17 || 19 <= a <= 21
}

proof fn lemma_fold_len_differs(a: Seq<char>, b: Seq<char>)
    requires
        a.len() != b.len(),
    ensures
        !eq_ignore_case_spec(a, b),
{
    assert(fold_case(a).len() != fold_case(b).len());
}

proof fn lemma_fold_differs_at(a: Seq<char>, b: Seq<char>, i: int)
    requires
        0 <= i < a.len(),
        i < b.len(),
        folded(a[i]) != folded(b[i]),
    ensures
        !eq_ignore_case_spec(a, b),
{
    assert(fold_case(a)[i] != fold_case(b)[i]);
}

/// Every named button resolves back to its id by its name.
pub proof fn lemma_button_name_resolves(id: u8)
    requires
        named_button(id),
    ensures
        button_id_spec(button_name_spec(id)@) == Some(id),
{
    reveal_strlit("Action");
    reveal_strlit("DistalCnc");
    reveal_strlit("LeftShortcut");
    reveal_strlit("RightShortcut");
    reveal_strlit("Shortcut");
    reveal_strlit("Vpa");
    reveal_strlit("action");
    reveal_strlit("distalcnc");
    reveal_strlit("leftshortcut");
    reveal_strlit("rightshortcut");
    reveal_strlit("shortcut");
    reveal_strlit("vpa");
    if id == 0 {
        assert(fold_case("DistalCnc"@) =~= fold_case("distalcnc"@));
    } else if id == 2 {
        lemma_fold_len_differs("Vpa"@, "distalcnc"@);
        assert(fold_case("Vpa"@) =~= fold_case("vpa"@));
    } else if id == 3 {
        lemma_fold_len_differs("RightShortcut"@, "distalcnc"@);
        lemma_fold_len_differs("RightShortcut"@, "vpa"@);
        assert(fold_case("RightShortcut"@) =~= fold_case("rightshortcut"@));
    } else if id == 4 {
        lemma_fold_len_differs("LeftShortcut"@, "distalcnc"@);
        lemma_fold_len_differs("LeftShortcut"@, "vpa"@);
        lemma_fold_len_differs("LeftShortcut"@, "rightshortcut"@);
        assert(fold_case("LeftShortcut"@) =~= fold_case("leftshortcut"@));
    } else if id == 16 {
        lemma_fold_len_differs("Action"@, "distalcnc"@);
        lemma_fold_len_differs("Action"@, "vpa"@);
        lemma_fold_len_differs("Action"@, "rightshortcut"@);
        lemma_fold_len_differs("Action"@, "leftshortcut"@);
        assert(fold_case("Action"@) =~= fold_case("action"@));
    } else if id == 128 {
        lemma_fold_len_differs("Shortcut"@, "distalcnc"@);
        lemma_fold_len_differs("Shortcut"@, "vpa"@);
        lemma_fold_len_differs("Shortcut"@, "rightshortcut"@);
        lemma_fold_len_differs("Shortcut"@, "leftshortcut"@);
        lemma_fold_len_differs("Shortcut"@, "action"@);
        assert(fold_case("Shortcut"@) =~= fold_case("shortcut"@));
    }
}

/// Every named event resolves back to its id by its name.
pub proof fn lemma_event_name_resolves(id: u8)
    requires
        named_event(id),
    ensures
        event_id_spec(event_name_spec(id)@) == Some(id),
{
    reveal_strlit("double_press");
    reveal_strlit("double_press_hold");
    reveal_strlit("falling_edge");
    reveal_strlit("long_press");
    reveal_strlit("press_and_hold");
    reveal_strlit("rising_edge");
    reveal_strlit("short_press");
    reveal_strlit("single_press");
    reveal_strlit("triple_press");
    reveal_strlit("very_long_press");
    if id == 3 {
        lemma_fold_differs_at("short_press"@, "rising_edge"@, 0);
        lemma_fold_len_differs("short_press"@, "falling_edge"@);
        assert(fold_case("short_press"@) =~= fold_case("short_press"@));
    } else if id == 4 {
        lemma_fold_len_differs("single_press"@, "rising_edge"@);
        lemma_fold_differs_at("single_press"@, "falling_edge"@, 0);
        lemma_fold_len_differs("single_press"@, "short_press"@);
        assert(fold_case("single_press"@) =~= fold_case("single_press"@));
    } else if id == 5 {
        lemma_fold_len_differs("press_and_hold"@, "rising_edge"@);
        lemma_fold_len_differs("press_and_hold"@, "falling_edge"@);
        lemma_fold_len_differs("press_and_hold"@, "short_press"@);
        lemma_fold_len_differs("press_and_hold"@, "single_press"@);
        assert(fold_case("press_and_hold"@) =~= fold_case("press_and_hold"@));
    } else if id == 6 {
        lemma_fold_len_differs("double_press"@, "rising_edge"@);
        lemma_fold_differs_at("double_press"@, "falling_edge"@, 0);
        lemma_fold_len_differs("double_press"@, "short_press"@);
        lemma_fold_differs_at("double_press"@, "single_press"@, 0);
        lemma_fold_len_differs("double_press"@, "press_and_hold"@);
        assert(fold_case("double_press"@) =~= fold_case("double_press"@));
    } else if id == 8 {
        lemma_fold_len_differs("triple_press"@, "rising_edge"@);
        lemma_fold_differs_at("triple_press"@, "falling_edge"@, 0);
        lemma_fold_len_differs("triple_press"@, "short_press"@);
        lemma_fold_differs_at("triple_press"@, "single_press"@, 0);
        lemma_fold_len_differs("triple_press"@, "press_and_hold"@);
        lemma_fold_differs_at("triple_press"@, "double_press"@, 0);
        lemma_fold_len_differs("triple_press"@, "double_press_hold"@);
        assert(fold_case("triple_press"@) =~= fold_case("triple_press"@));
    } else if id == 9 {
        lemma_fold_len_differs("long_press"@, "rising_edge"@);
        lemma_fold_len_differs("long_press"@, "falling_edge"@);
        lemma_fold_len_differs("long_press"@, "short_press"@);
        lemma_fold_len_differs("long_press"@, "single_press"@);
        lemma_fold_len_differs("long_press"@, "press_and_hold"@);
        lemma_fold_len_differs("long_press"@, "double_press"@);
        lemma_fold_len_differs("long_press"@, "double_press_hold"@);
        lemma_fold_len_differs("long_press"@, "triple_press"@);
        assert(fold_case("long_press"@) =~= fold_case("long_press"@));
    } else if id == 10 {
        lemma_fold_len_differs("very_long_press"@, "rising_edge"@);
        lemma_fold_len_differs("very_long_press"@, "falling_edge"@);
        lemma_fold_len_differs("very_long_press"@, "short_press"@);
        lemma_fold_len_differs("very_long_press"@, "single_press"@);
        lemma_fold_len_differs("very_long_press"@, "press_and_hold"@);
        lemma_fold_len_differs("very_long_press"@, "double_press"@);
        lemma_fold_len_differs("very_long_press"@, "double_press_hold"@);
        lemma_fold_len_differs("very_long_press"@, "triple_press"@);
        lemma_fold_len_differs("very_long_press"@, "long_press"@);
        assert(fold_case("very_long_press"@) =~= fold_case("very_long_press"@));
    }
}

/// Every named action resolves back to its id by its name.
pub proof fn lemma_action_name_resolves(id: u8)
    requires
        named_action(id),
    ensures
        action_id_spec(action_name_spec(id)@) == Some(id),
{
    reveal_strlit("ANC");
    reveal_strlit("BatteryLevel");
    reveal_strlit("ClientInteraction");
    reveal_strlit("ConversationMode");
    reveal_strlit("DecreaseCNC");
    reveal_strlit("Disabled");
    reveal_strlit("FetchNotifications");
    reveal_strlit("IncreaseCNC");
    reveal_strlit("LineInSwitch");
    reveal_strlit("Linking");
    reveal_strlit("ModesCarousel");
    reveal_strlit("NotConfigured");
    reveal_strlit("PlayPause");
    reveal_strlit("SpatialAudioMode");
    reveal_strlit("SpotifyGo");
    reveal_strlit("SwitchDevice");
    reveal_strlit("ToggleWakeWord");
    reveal_strlit("TrackBack");
    reveal_strlit("TrackForward");
    reveal_strlit("VPA");
    reveal_strlit("WindMode");
    reveal_strlit("anc");
    reveal_strlit("batterylevel");
    reveal_strlit("clientinteraction");
    reveal_strlit("conversationmode");
    reveal_strlit("decreasecnc");
    reveal_strlit("disabled");
    reveal_strlit("fetchnotifications");
    reveal_strlit("increasecnc");
    reveal_strlit("lineinswitch");
    reveal_strlit("linking");
    reveal_strlit("modescarousel");
    reveal_strlit("notconfigured");
    reveal_strlit("playpause");
    reveal_strlit("spatialaudiomode");
    reveal_strlit("spotifygo");
    reveal_strlit("switchdevice");
    reveal_strlit("togglewakeword");
    reveal_strlit("trackback");
    reveal_strlit("trackforward");
    reveal_strlit("vpa");
    reveal_strlit("windmode");
    if id == 0 {
        assert(fold_case("NotConfigured"@) =~= fold_case("notconfigured"@));
    } else if id == 1 {
        lemma_fold_len_differs("VPA"@, "notconfigured"@);
        assert(fold_case("VPA"@) =~= fold_case("vpa"@));
    } else if id == 2 {
        lemma_fold_len_differs("ANC"@, "notconfigured"@);
        lemma_fold_differs_at("ANC"@, "vpa"@, 0);
        assert(fold_case("ANC"@) =~= fold_case("anc"@));
    } else if id == 3 {
        lemma_fold_len_differs("BatteryLevel"@, "notconfigured"@);
        lemma_fold_len_differs("BatteryLevel"@, "vpa"@);
        lemma_fold_len_differs("BatteryLevel"@, "anc"@);
        assert(fold_case("BatteryLevel"@) =~= fold_case("batterylevel"@));
    } else if id == 4 {
        lemma_fold_len_differs("PlayPause"@, "notconfigured"@);
        lemma_fold_len_differs("PlayPause"@, "vpa"@);
        lemma_fold_len_differs("PlayPause"@, "anc"@);
        lemma_fold_len_differs("PlayPause"@, "batterylevel"@);
        assert(fold_case("PlayPause"@) =~= fold_case("playpause"@));
    } else if id == 5 {
        lemma_fold_len_differs("IncreaseCNC"@, "notconfigured"@);
        lemma_fold_len_differs("IncreaseCNC"@, "vpa"@);
        lemma_fold_len_differs("IncreaseCNC"@, "anc"@);
        lemma_fold_len_differs("IncreaseCNC"@, "batterylevel"@);
        lemma_fold_len_differs("IncreaseCNC"@, "playpause"@);
        assert(fold_case("IncreaseCNC"@) =~= fold_case("increasecnc"@));
    } else if id == 6 {
        lemma_fold_len_differs("DecreaseCNC"@, "notconfigured"@);
        lemma_fold_len_differs("DecreaseCNC"@, "vpa"@);
        lemma_fold_len_differs("DecreaseCNC"@, "anc"@);
        lemma_fold_len_differs("DecreaseCNC"@, "batterylevel"@);
        lemma_fold_len_differs("DecreaseCNC"@, "playpause"@);
        lemma_fold_differs_at("DecreaseCNC"@, "increasecnc"@, 0);
        assert(fold_case("DecreaseCNC"@) =~= fold_case("decreasecnc"@));
    } else if id == 7 {
        lemma_fold_len_differs("ToggleWakeWord"@, "notconfigured"@);
        lemma_fold_len_differs("ToggleWakeWord"@, "vpa"@);
        lemma_fold_len_differs("ToggleWakeWord"@, "anc"@);
        lemma_fold_len_differs("ToggleWakeWord"@, "batterylevel"@);
        lemma_fold_len_differs("ToggleWakeWord"@, "playpause"@);
        lemma_fold_len_differs("ToggleWakeWord"@, "increasecnc"@);
        lemma_fold_len_differs("ToggleWakeWord"@, "decreasecnc"@);
        assert(fold_case("ToggleWakeWord"@) =~= fold_case("togglewakeword"@));
    } else if id == 8 {
        lemma_fold_len_differs("SwitchDevice"@, "notconfigured"@);
        lemma_fold_len_differs("SwitchDevice"@, "vpa"@);
        lemma_fold_len_differs("SwitchDevice"@, "anc"@);
        lemma_fold_differs_at("SwitchDevice"@, "batterylevel"@, 0);
        lemma_fold_len_differs("SwitchDevice"@, "playpause"@);
        lemma_fold_len_differs("SwitchDevice"@, "increasecnc"@);
        lemma_fold_len_differs("SwitchDevice"@, "decreasecnc"@);
        lemma_fold_len_differs("SwitchDevice"@, "togglewakeword"@);
        assert(fold_case("SwitchDevice"@) =~= fold_case("switchdevice"@));
    } else if id == 9 {
        lemma_fold_len_differs("ConversationMode"@, "notconfigured"@);
        lemma_fold_len_differs("ConversationMode"@, "vpa"@);
        lemma_fold_len_differs("ConversationMode"@, "anc"@);
        lemma_fold_len_differs("ConversationMode"@, "batterylevel"@);
        lemma_fold_len_differs("ConversationMode"@, "playpause"@);
        lemma_fold_len_differs("ConversationMode"@, "increasecnc"@);
        lemma_fold_len_differs("ConversationMode"@, "decreasecnc"@);
        lemma_fold_len_differs("ConversationMode"@, "togglewakeword"@);
        lemma_fold_len_differs("ConversationMode"@, "switchdevice"@);
        assert(fold_case("ConversationMode"@) =~= fold_case("conversationmode"@));
    } else if id == 10 {
        lemma_fold_len_differs("TrackForward"@, "notconfigured"@);
        lemma_fold_len_differs("TrackForward"@, "vpa"@);
        lemma_fold_len_differs("TrackForward"@, "anc"@);
        lemma_fold_differs_at("TrackForward"@, "batterylevel"@, 0);
        lemma_fold_len_differs("TrackForward"@, "playpause"@);
        lemma_fold_len_differs("TrackForward"@, "increasecnc"@);
        lemma_fold_len_differs("TrackForward"@, "decreasecnc"@);
        lemma_fold_len_differs("TrackForward"@, "togglewakeword"@);
        lemma_fold_differs_at("TrackForward"@, "switchdevice"@, 0);
        lemma_fold_len_differs("TrackForward"@, "conversationmode"@);
        assert(fold_case("TrackForward"@) =~= fold_case("trackforward"@));
    } else if id == 11 {
        lemma_fold_len_differs("TrackBack"@, "notconfigured"@);
        lemma_fold_len_differs("TrackBack"@, "vpa"@);
        lemma_fold_len_differs("TrackBack"@, "anc"@);
        lemma_fold_len_differs("TrackBack"@, "batterylevel"@);
        lemma_fold_differs_at("TrackBack"@, "playpause"@, 0);
        lemma_fold_len_differs("TrackBack"@, "increasecnc"@);
        lemma_fold_len_differs("TrackBack"@, "decreasecnc"@);
        lemma_fold_len_differs("TrackBack"@, "togglewakeword"@);
        lemma_fold_len_differs("TrackBack"@, "switchdevice"@);
        lemma_fold_len_differs("TrackBack"@, "conversationmode"@);
        lemma_fold_len_differs("TrackBack"@, "trackforward"@);
        assert(fold_case("TrackBack"@) =~= fold_case("trackback"@));
    } else if id == 12 {
        lemma_fold_len_differs("FetchNotifications"@, "notconfigured"@);
        lemma_fold_len_differs("FetchNotifications"@, "vpa"@);
        lemma_fold_len_differs("FetchNotifications"@, "anc"@);
        lemma_fold_len_differs("FetchNotifications"@, "batterylevel"@);
        lemma_fold_len_differs("FetchNotifications"@, "playpause"@);
        lemma_fold_len_differs("FetchNotifications"@, "increasecnc"@);
        lemma_fold_len_differs("FetchNotifications"@, "decreasecnc"@);
        lemma_fold_len_differs("FetchNotifications"@, "togglewakeword"@);
        lemma_fold_len_differs("FetchNotifications"@, "switchdevice"@);
        lemma_fold_len_differs("FetchNotifications"@, "conversationmode"@);
        lemma_fold_len_differs("FetchNotifications"@, "trackforward"@);
        lemma_fold_len_differs("FetchNotifications"@, "trackback"@);
        assert(fold_case("FetchNotifications"@) =~= fold_case("fetchnotifications"@));
    } else if id == 13 {
        lemma_fold_len_differs("WindMode"@, "notconfigured"@);
        lemma_fold_len_differs("WindMode"@, "vpa"@);
        lemma_fold_len_differs("WindMode"@, "anc"@);
        lemma_fold_len_differs("WindMode"@, "batterylevel"@);
        lemma_fold_len_differs("WindMode"@, "playpause"@);
        lemma_fold_len_differs("WindMode"@, "increasecnc"@);
        lemma_fold_len_differs("WindMode"@, "decreasecnc"@);
        lemma_fold_len_differs("WindMode"@, "togglewakeword"@);
        lemma_fold_len_differs("WindMode"@, "switchdevice"@);
        lemma_fold_len_differs("WindMode"@, "conversationmode"@);
        lemma_fold_len_differs("WindMode"@, "trackforward"@);
        lemma_fold_len_differs("WindMode"@, "trackback"@);
        lemma_fold_len_differs("WindMode"@, "fetchnotifications"@);
        assert(fold_case("WindMode"@) =~= fold_case("windmode"@));
    } else if id == 14 {
        lemma_fold_len_differs("Disabled"@, "notconfigured"@);
        lemma_fold_len_differs("Disabled"@, "vpa"@);
        lemma_fold_len_differs("Disabled"@, "anc"@);
        lemma_fold_len_differs("Disabled"@, "batterylevel"@);
        lemma_fold_len_differs("Disabled"@, "playpause"@);
        lemma_fold_len_differs("Disabled"@, "increasecnc"@);
        lemma_fold_len_differs("Disabled"@, "decreasecnc"@);
        lemma_fold_len_differs("Disabled"@, "togglewakeword"@);
        lemma_fold_len_differs("Disabled"@, "switchdevice"@);
        lemma_fold_len_differs("Disabled"@, "conversationmode"@);
        lemma_fold_len_differs("Disabled"@, "trackforward"@);
        lemma_fold_len_differs("Disabled"@, "trackback"@);
        lemma_fold_len_differs("Disabled"@, "fetchnotifications"@);
        lemma_fold_differs_at("Disabled"@, "windmode"@, 0);
        assert(fold_case("Disabled"@) =~= fold_case("disabled"@));
    } else if id == 15 {
        lemma_fold_len_differs("ClientInteraction"@, "notconfigured"@);
        lemma_fold_len_differs("ClientInteraction"@, "vpa"@);
        lemma_fold_len_differs("ClientInteraction"@, "anc"@);
        lemma_fold_len_differs("ClientInteraction"@, "batterylevel"@);
        lemma_fold_len_differs("ClientInteraction"@, "playpause"@);
        lemma_fold_len_differs("ClientInteraction"@, "increasecnc"@);
        lemma_fold_len_differs("ClientInteraction"@, "decreasecnc"@);
        lemma_fold_len_differs("ClientInteraction"@, "togglewakeword"@);
        lemma_fold_len_differs("ClientInteraction"@, "switchdevice"@);
        lemma_fold_len_differs("ClientInteraction"@, "conversationmode"@);
        lemma_fold_len_differs("ClientInteraction"@, "trackforward"@);
        lemma_fold_len_differs("ClientInteraction"@, "trackback"@);
        lemma_fold_len_differs("ClientInteraction"@, "fetchnotifications"@);
        lemma_fold_len_differs("ClientInteraction"@, "windmode"@);
        lemma_fold_len_differs("ClientInteraction"@, "disabled"@);
        assert(fold_case("ClientInteraction"@) =~= fold_case("clientinteraction"@));
    } else if id == 16 {
        lemma_fold_len_differs("SpotifyGo"@, "notconfigured"@);
        lemma_fold_len_differs("SpotifyGo"@, "vpa"@);
        lemma_fold_len_differs("SpotifyGo"@, "anc"@);
        lemma_fold_len_differs("SpotifyGo"@, "batterylevel"@);
        lemma_fold_differs_at("SpotifyGo"@, "playpause"@, 0);
        lemma_fold_len_differs("SpotifyGo"@, "increasecnc"@);
        lemma_fold_len_differs("SpotifyGo"@, "decreasecnc"@);
        lemma_fold_len_differs("SpotifyGo"@, "togglewakeword"@);
        lemma_fold_len_differs("SpotifyGo"@, "switchdevice"@);
        lemma_fold_len_differs("SpotifyGo"@, "conversationmode"@);
        lemma_fold_len_differs("SpotifyGo"@, "trackforward"@);
        lemma_fold_differs_at("SpotifyGo"@, "trackback"@, 0);
        lemma_fold_len_differs("SpotifyGo"@, "fetchnotifications"@);
        lemma_fold_len_differs("SpotifyGo"@, "windmode"@);
        lemma_fold_len_differs("SpotifyGo"@, "disabled"@);
        lemma_fold_len_differs("SpotifyGo"@, "clientinteraction"@);
        assert(fold_case("SpotifyGo"@) =~= fold_case("spotifygo"@));
    } else if id == 17 {
        lemma_fold_differs_at("ModesCarousel"@, "notconfigured"@, 0);
        lemma_fold_len_differs("ModesCarousel"@, "vpa"@);
        lemma_fold_len_differs("ModesCarousel"@, "anc"@);
        lemma_fold_len_differs("ModesCarousel"@, "batterylevel"@);
        lemma_fold_len_differs("ModesCarousel"@, "playpause"@);
        lemma_fold_len_differs("ModesCarousel"@, "increasecnc"@);
        lemma_fold_len_differs("ModesCarousel"@, "decreasecnc"@);
        lemma_fold_len_differs("ModesCarousel"@, "togglewakeword"@);
        lemma_fold_len_differs("ModesCarousel"@, "switchdevice"@);
        lemma_fold_len_differs("ModesCarousel"@, "conversationmode"@);
        lemma_fold_len_differs("ModesCarousel"@, "trackforward"@);
        lemma_fold_len_differs("ModesCarousel"@, "trackback"@);
        lemma_fold_len_differs("ModesCarousel"@, "fetchnotifications"@);
        lemma_fold_len_differs("ModesCarousel"@, "windmode"@);
        lemma_fold_len_differs("ModesCarousel"@, "disabled"@);
        lemma_fold_len_differs("ModesCarousel"@, "clientinteraction"@);
        lemma_fold_len_differs("ModesCarousel"@, "spotifygo"@);
        assert(fold_case("ModesCarousel"@) =~= fold_case("modescarousel"@));
    } else if id == 19 {
        lemma_fold_len_differs("SpatialAudioMode"@, "notconfigured"@);
        lemma_fold_len_differs("SpatialAudioMode"@, "vpa"@);
        lemma_fold_len_differs("SpatialAudioMode"@, "anc"@);
        lemma_fold_len_differs("SpatialAudioMode"@, "batterylevel"@);
        lemma_fold_len_differs("SpatialAudioMode"@, "playpause"@);
        lemma_fold_len_differs("SpatialAudioMode"@, "increasecnc"@);
        lemma_fold_len_differs("SpatialAudioMode"@, "decreasecnc"@);
        lemma_fold_len_differs("SpatialAudioMode"@, "togglewakeword"@);
        lemma_fold_len_differs("SpatialAudioMode"@, "switchdevice"@);
        lemma_fold_differs_at("SpatialAudioMode"@, "conversationmode"@, 0);
        lemma_fold_len_differs("SpatialAudioMode"@, "trackforward"@);
        lemma_fold_len_differs("SpatialAudioMode"@, "trackback"@);
        lemma_fold_len_differs("SpatialAudioMode"@, "fetchnotifications"@);
        lemma_fold_len_differs("SpatialAudioMode"@, "windmode"@);
        lemma_fold_len_differs("SpatialAudioMode"@, "disabled"@);
        lemma_fold_len_differs("SpatialAudioMode"@, "clientinteraction"@);
        lemma_fold_len_differs("SpatialAudioMode"@, "spotifygo"@);
        lemma_fold_len_differs("SpatialAudioMode"@, "modescarousel"@);
        assert(fold_case("SpatialAudioMode"@) =~= fold_case("spatialaudiomode"@));
    } else if id == 20 {
        lemma_fold_len_differs("LineInSwitch"@, "notconfigured"@);
        lemma_fold_len_differs("LineInSwitch"@, "vpa"@);
        lemma_fold_len_differs("LineInSwitch"@, "anc"@);
        lemma_fold_differs_at("LineInSwitch"@, "batterylevel"@, 0);
        lemma_fold_len_differs("LineInSwitch"@, "playpause"@);
        lemma_fold_len_differs("LineInSwitch"@, "increasecnc"@);
        lemma_fold_len_differs("LineInSwitch"@, "decreasecnc"@);
        lemma_fold_len_differs("LineInSwitch"@, "togglewakeword"@);
        lemma_fold_differs_at("LineInSwitch"@, "switchdevice"@, 0);
        lemma_fold_len_differs("LineInSwitch"@, "conversationmode"@);
        lemma_fold_differs_at("LineInSwitch"@, "trackforward"@, 0);
        lemma_fold_len_differs("LineInSwitch"@, "trackback"@);
        lemma_fold_len_differs("LineInSwitch"@, "fetchnotifications"@);
        lemma_fold_len_differs("LineInSwitch"@, "windmode"@);
        lemma_fold_len_differs("LineInSwitch"@, "disabled"@);
        lemma_fold_len_differs("LineInSwitch"@, "clientinteraction"@);
        lemma_fold_len_differs("LineInSwitch"@, "spotifygo"@);
        lemma_fold_len_differs("LineInSwitch"@, "modescarousel"@);
        lemma_fold_len_differs("LineInSwitch"@, "spatialaudiomode"@);
        assert(fold_case("LineInSwitch"@) =~= fold_case("lineinswitch"@));
    } else if id == 21 {
        lemma_fold_len_differs("Linking"@, "notconfigured"@);
        lemma_fold_len_differs("Linking"@, "vpa"@);
        lemma_fold_len_differs("Linking"@, "anc"@);
        lemma_fold_len_differs("Linking"@, "batterylevel"@);
        lemma_fold_len_differs("Linking"@, "playpause"@);
        lemma_fold_len_differs("Linking"@, "increasecnc"@);
        lemma_fold_len_differs("Linking"@, "decreasecnc"@);
        lemma_fold_len_differs("Linking"@, "togglewakeword"@);
        lemma_fold_len_differs("Linking"@, "switchdevice"@);
        lemma_fold_len_differs("Linking"@, "conversationmode"@);
        lemma_fold_len_differs("Linking"@, "trackforward"@);
        lemma_fold_len_differs("Linking"@, "trackback"@);
        lemma_fold_len_differs("Linking"@, "fetchnotifications"@);
        lemma_fold_len_differs("Linking"@, "windmode"@);
        lemma_fold_len_differs("Linking"@, "disabled"@);
        lemma_fold_len_differs("Linking"@, "clientinteraction"@);
        lemma_fold_len_differs("Linking"@, "spotifygo"@);
        lemma_fold_len_differs("Linking"@, "modescarousel"@);
        lemma_fold_len_differs("Linking"@, "spatialaudiomode"@);
        lemma_fold_len_differs("Linking"@, "lineinswitch"@);
        assert(fold_case("Linking"@) =~= fold_case("linking"@));
    }
}

/// The documented QC Ultra 2 ModeConfig layouts: a STATUS of 48 bytes or
/// more has CNC at 42, spatial at 44, wind block at 45 and the ANC toggle at
/// 47 (flags editable 3, configured 4); a SETGET echo of 40 to 47 bytes has
/// CNC at 35, spatial at 37, wind block at 38 and the ANC toggle at 39.
pub proof fn lemma_qc_ultra2_layout(p: Seq<u8>)
    ensures
        p.len() >= 48 ==> (mode_config_qc_ultra2_spec(p) matches Some(m) && m.mode_idx == p[0]
            && m.prompt_b1 == p[1] && m.prompt_b2 == p[2] && m.editable == (p[3] != 0)
            && m.configured == (p[4] != 0) && m.cnc_level == p[42] && m.spatial == p[44]
            && m.wind_block == (p[45] != 0) && m.anc_toggle == (p[47] != 0)),
        40 <= p.len() < 48 ==> (mode_config_qc_ultra2_spec(p) matches Some(m) && m.mode_idx == p[0]
            && m.prompt_b1 == p[1] && m.prompt_b2 == p[2] && m.editable && m.configured
            && m.cnc_level == p[35] && m.spatial == p[37] && m.wind_block == (p[38] != 0)
            && m.anc_toggle == (p[39] != 0)),
        p.len() < 40 ==> mode_config_qc_ultra2_spec(p) is None,
{
}

/// The documented prince ModeConfig layouts: a STATUS of 47 bytes or more
/// has CNC at 42, spatial at 44 and wind block at 46; a SETGET echo of 39 to
/// 46 bytes has CNC at 35, spatial at 37 and wind block at 38. Neither has
/// an ANC toggle, which reads as off.
pub proof fn lemma_prince_layout(p: Seq<u8>)
    ensures
        p.len() >= 47 ==> (mode_config_prince_spec(p) matches Some(m) && m.mode_idx == p[0]
            && m.prompt_b1 == p[1] && m.prompt_b2 == p[2] && m.editable == (p[3] != 0)
            && m.configured == (p[4] != 0) && m.cnc_level == p[42] && m.spatial == p[44]
            && m.wind_block == (p[46] != 0) && !m.anc_toggle),
        39 <= p.len() < 47 ==> (mode_config_prince_spec(p) matches Some(m) && m.mode_idx == p[0]
            && m.prompt_b1 == p[1] && m.prompt_b2 == p[2] && m.editable && m.configured
            && m.cnc_level == p[35] && m.spatial == p[37] && m.wind_block == (p[38] != 0)
            && !m.anc_toggle),
        p.len() < 39 ==> mode_config_prince_spec(p) is None,
{
}

/// The ModeConfig SETGET payloads put each field at its documented offset:
/// index 0, prompt bytes 1 and 2, the 32-byte name field at 3, CNC at 35,
/// auto-CNC 0 at 36, spatial at 37, wind block at 38 and, in the 40-byte
/// format, the ANC toggle at 39.
pub proof fn lemma_mode_config_payload_layout(
    format: ModeConfigBuilder,
    mode_idx: u8,
    name: Seq<u8>,
    cnc_level: u8,
    spatial: u8,
    wind_block: bool,
    anc_toggle: bool,
    prompt_b1: u8,
    prompt_b2: u8,
)
    ensures
        ({
            let p = mode_config_build_spec(format, mode_idx, name, cnc_level, spatial, wind_block, anc_toggle, prompt_b1, prompt_b2);
            &&& p.len() == (if format == ModeConfigBuilder::Forty { 40int } else { 39int })
            &&& p[0] == mode_idx && p[1] == prompt_b1 && p[2] == prompt_b2
            &&& p.subrange(3, 35) == mode_name_field(name)
            &&& p[35] == cnc_level && p[36] == 0 && p[37] == spatial
            &&& p[38] == (if wind_block { 1u8 } else { 0u8 })
            &&& format == ModeConfigBuilder::Forty ==> p[39] == (if anc_toggle { 1u8 } else { 0u8 })
        }),
{
    let p = mode_config_build_spec(format, mode_idx, name, cnc_level, spatial, wind_block, anc_toggle, prompt_b1, prompt_b2);
    assert(mode_name_field(name).len() == 32);
    assert(p.subrange(3, 35) =~= mode_name_field(name));
}

} // verus!
