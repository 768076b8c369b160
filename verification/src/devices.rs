//! Device configurations.

use vstd::prelude::*;

use crate::device::{Addr, DeviceConfig, DeviceInfo, ModeConfigBuilder, ModeConfigParser, PresetMode};
use crate::text::str_equal;

verus! {

/// The `qc_ultra2` feature table.
pub open spec fn is_qc_ultra2(c: DeviceConfig) -> bool {
    &&& c.info == DeviceInfo { name: "Bose QC Ultra Headphones 2", codename: "wolverine", platform: "OTG-QCC-384" }
    &&& c.rfcomm_channel == 2
    &&& c.init_packet == None::<Addr>
    &&& c.battery == Some(Addr(2, 2))
    &&& c.firmware == Some(Addr(0, 5))
    &&& c.product_name == Some(Addr(1, 2))
    &&& c.voice_prompts == Some(Addr(1, 3))
    &&& c.cnc == Some(Addr(1, 5))
    &&& c.eq == Some(Addr(1, 7))
    &&& c.buttons == Some(Addr(1, 9))
    &&& c.multipoint == Some(Addr(1, 10))
    &&& c.sidetone == Some(Addr(1, 11))
    &&& c.auto_pause == Some(Addr(1, 24))
    &&& c.auto_answer == Some(Addr(1, 27))
    &&& c.anr == None::<Addr>
    &&& c.pairing == Some(Addr(4, 8))
    &&& c.routing == Some(Addr(4, 12))
    &&& c.source == Some(Addr(5, 1))
    &&& c.power == Some(Addr(7, 4))
    &&& c.get_all_modes == Some(Addr(31, 1))
    &&& c.current_mode == Some(Addr(31, 3))
    &&& c.mode_config == Some(Addr(31, 6))
    &&& c.favorites == Some(Addr(31, 8))
    &&& c.audio_settings == Some(Addr(31, 10))
    &&& c.preset_modes@ == seq![("quiet", PresetMode { idx: 0, description: "Quiet — full ANC" }), ("aware", PresetMode { idx: 1, description: "Aware — transparency" }), ("immersion", PresetMode { idx: 2, description: "Immersion — spatial audio, head tracking" }), ("cinema", PresetMode { idx: 3, description: "Cinema — spatial audio, fixed stage" })]
    &&& c.editable_slots@ == seq![4u8, 5u8, 6u8, 7u8, 8u8, 9u8, 10u8]
    &&& c.parse_mode_config == Some(ModeConfigParser::QcUltra2)
    &&& c.build_mode_config == Some(ModeConfigBuilder::Forty)
    &&& c.supports_anc_toggle == true
    &&& c.cnc_direct_setget == false
}

/// Bose QC Ultra 2 configuration.
pub fn qc_ultra2() -> (c: DeviceConfig)
    ensures
        is_qc_ultra2(c),
{
    let mut preset_modes: Vec<(&'static str, PresetMode)> = Vec::new();
    preset_modes.push(("quiet", PresetMode { idx: 0, description: "Quiet — full ANC" }));
    preset_modes.push(("aware", PresetMode { idx: 1, description: "Aware — transparency" }));
    preset_modes.push(("immersion", PresetMode { idx: 2, description: "Immersion — spatial audio, head tracking" }));
    preset_modes.push(("cinema", PresetMode { idx: 3, description: "Cinema — spatial audio, fixed stage" }));
    let mut editable_slots: Vec<u8> = Vec::new();
    editable_slots.push(4);
    editable_slots.push(5);
    editable_slots.push(6);
    editable_slots.push(7);
    editable_slots.push(8);
    editable_slots.push(9);
    editable_slots.push(10);
    assert(preset_modes@ =~= seq![("quiet", PresetMode { idx: 0, description: "Quiet — full ANC" }), ("aware", PresetMode { idx: 1, description: "Aware — transparency" }), ("immersion", PresetMode { idx: 2, description: "Immersion — spatial audio, head tracking" }), ("cinema", PresetMode { idx: 3, description: "Cinema — spatial audio, fixed stage" })]);
    assert(editable_slots@ =~= seq![4u8, 5u8, 6u8, 7u8, 8u8, 9u8, 10u8]);
    DeviceConfig {
        info: DeviceInfo { name: "Bose QC Ultra Headphones 2", codename: "wolverine", platform: "OTG-QCC-384" },
        rfcomm_channel: 2,
        init_packet: None,
        battery: Some(Addr(2, 2)),
        firmware: Some(Addr(0, 5)),
        product_name: Some(Addr(1, 2)),
        voice_prompts: Some(Addr(1, 3)),
        cnc: Some(Addr(1, 5)),
        eq: Some(Addr(1, 7)),
        buttons: Some(Addr(1, 9)),
        multipoint: Some(Addr(1, 10)),
        sidetone: Some(Addr(1, 11)),
        auto_pause: Some(Addr(1, 24)),
        auto_answer: Some(Addr(1, 27)),
        anr: None,
        pairing: Some(Addr(4, 8)),
        routing: Some(Addr(4, 12)),
        source: Some(Addr(5, 1)),
        power: Some(Addr(7, 4)),
        get_all_modes: Some(Addr(31, 1)),
        current_mode: Some(Addr(31, 3)),
        mode_config: Some(Addr(31, 6)),
        favorites: Some(Addr(31, 8)),
        audio_settings: Some(Addr(31, 10)),
        preset_modes,
        editable_slots,
        parse_mode_config: Some(ModeConfigParser::QcUltra2),
        build_mode_config: Some(ModeConfigBuilder::Forty),
        supports_anc_toggle: true,
        cnc_direct_setget: false,
    }
}

/// The `qc_prince` feature table.
pub open spec fn is_qc_prince(c: DeviceConfig) -> bool {
    &&& c.info == DeviceInfo { name: "Bose QuietComfort Headphones", codename: "prince", platform: "Unknown" }
    &&& c.rfcomm_channel == 8
    &&& c.init_packet == None::<Addr>
    &&& c.battery == Some(Addr(2, 2))
    &&& c.firmware == Some(Addr(0, 5))
    &&& c.product_name == Some(Addr(1, 2))
    &&& c.voice_prompts == Some(Addr(1, 3))
    &&& c.cnc == Some(Addr(1, 5))
    &&& c.eq == None::<Addr>
    &&& c.buttons == None::<Addr>
    &&& c.multipoint == None::<Addr>
    &&& c.sidetone == None::<Addr>
    &&& c.auto_pause == None::<Addr>
    &&& c.auto_answer == None::<Addr>
    &&& c.anr == None::<Addr>
    &&& c.pairing == Some(Addr(4, 8))
    &&& c.routing == None::<Addr>
    &&& c.source == None::<Addr>
    &&& c.power == None::<Addr>
    &&& c.get_all_modes == Some(Addr(31, 1))
    &&& c.current_mode == Some(Addr(31, 3))
    &&& c.mode_config == Some(Addr(31, 6))
    &&& c.favorites == None::<Addr>
    &&& c.audio_settings == None::<Addr>
    &&& c.preset_modes@ == seq![("quiet", PresetMode { idx: 0, description: "Quiet - full ANC" }), ("aware", PresetMode { idx: 1, description: "Aware - transparency" })]
    &&& c.editable_slots@ == seq![2u8, 3u8]
    &&& c.parse_mode_config == Some(ModeConfigParser::Prince)
    &&& c.build_mode_config == Some(ModeConfigBuilder::ThirtyNine)
    &&& c.supports_anc_toggle == false
    &&& c.cnc_direct_setget == false
}

/// Bose QuietComfort Headphones configuration -- prince, product ID 0x4075.
/// Verified against firmware 1.0.6-80+f5f219b.
/// BMAP over RFCOMM channel 8 with 47-byte ModeConfig STATUS responses.
pub fn qc_prince() -> (c: DeviceConfig)
    ensures
        is_qc_prince(c),
{
    let mut preset_modes: Vec<(&'static str, PresetMode)> = Vec::new();
    preset_modes.push(("quiet", PresetMode { idx: 0, description: "Quiet - full ANC" }));
    preset_modes.push(("aware", PresetMode { idx: 1, description: "Aware - transparency" }));
    let mut editable_slots: Vec<u8> = Vec::new();
    editable_slots.push(2);
    editable_slots.push(3);
    assert(preset_modes@ =~= seq![("quiet", PresetMode { idx: 0, description: "Quiet - full ANC" }), ("aware", PresetMode { idx: 1, description: "Aware - transparency" })]);
    assert(editable_slots@ =~= seq![2u8, 3u8]);
    DeviceConfig {
        info: DeviceInfo { name: "Bose QuietComfort Headphones", codename: "prince", platform: "Unknown" },
        rfcomm_channel: 8,
        init_packet: None,
        battery: Some(Addr(2, 2)),
        firmware: Some(Addr(0, 5)),
        product_name: Some(Addr(1, 2)),
        voice_prompts: Some(Addr(1, 3)),
        cnc: Some(Addr(1, 5)),
        eq: None,
        buttons: None,
        multipoint: None,
        sidetone: None,
        auto_pause: None,
        auto_answer: None,
        anr: None,
        pairing: Some(Addr(4, 8)),
        routing: None,
        source: None,
        power: None,
        get_all_modes: Some(Addr(31, 1)),
        current_mode: Some(Addr(31, 3)),
        mode_config: Some(Addr(31, 6)),
        favorites: None,
        audio_settings: None,
        preset_modes,
        editable_slots,
        parse_mode_config: Some(ModeConfigParser::Prince),
        build_mode_config: Some(ModeConfigBuilder::ThirtyNine),
        supports_anc_toggle: false,
        cnc_direct_setget: false,
    }
}

/// The `qc35` feature table.
pub open spec fn is_qc35(c: DeviceConfig) -> bool {
    &&& c.info == DeviceInfo { name: "Bose QuietComfort 35", codename: "baywolf", platform: "CSR8670" }
    &&& c.rfcomm_channel == 8
    &&& c.init_packet == Some(Addr(0, 1))
    &&& c.battery == Some(Addr(2, 2))
    &&& c.firmware == Some(Addr(0, 5))
    &&& c.product_name == Some(Addr(1, 2))
    &&& c.voice_prompts == Some(Addr(1, 3))
    &&& c.cnc == None::<Addr>
    &&& c.eq == None::<Addr>
    &&& c.buttons == Some(Addr(1, 9))
    &&& c.multipoint == None::<Addr>
    &&& c.sidetone == Some(Addr(1, 11))
    &&& c.auto_pause == None::<Addr>
    &&& c.auto_answer == None::<Addr>
    &&& c.anr == Some(Addr(1, 6))
    &&& c.pairing == Some(Addr(4, 8))
    &&& c.routing == None::<Addr>
    &&& c.source == None::<Addr>
    &&& c.power == None::<Addr>
    &&& c.get_all_modes == None::<Addr>
    &&& c.current_mode == None::<Addr>
    &&& c.mode_config == None::<Addr>
    &&& c.favorites == None::<Addr>
    &&& c.audio_settings == None::<Addr>
    &&& c.preset_modes@ == seq![("high", PresetMode { idx: 0, description: "High — full noise cancellation" }), ("low", PresetMode { idx: 1, description: "Low — reduced noise cancellation" }), ("off", PresetMode { idx: 2, description: "Off — no noise cancellation" })]
    &&& c.editable_slots@ == Seq::<u8>::empty()
    &&& c.parse_mode_config == None::<ModeConfigParser>
    &&& c.build_mode_config == None::<ModeConfigBuilder>
    &&& c.supports_anc_toggle == false
    &&& c.cnc_direct_setget == false
}

/// Bose QC35 configuration — verified against firmware 4.8.1.
/// BMAP over RFCOMM channel 8.
/// ANR [1.6] (off/high/wind/low), buttons [1.9] (VPA/ANC remap).
/// Block 3 NC investigated: binary state toggle only, not useful.
pub fn qc35() -> (c: DeviceConfig)
    ensures
        is_qc35(c),
{
    let mut preset_modes: Vec<(&'static str, PresetMode)> = Vec::new();
    preset_modes.push(("high", PresetMode { idx: 0, description: "High — full noise cancellation" }));
    preset_modes.push(("low", PresetMode { idx: 1, description: "Low — reduced noise cancellation" }));
    preset_modes.push(("off", PresetMode { idx: 2, description: "Off — no noise cancellation" }));
    let mut editable_slots: Vec<u8> = Vec::new();
    assert(preset_modes@ =~= seq![("high", PresetMode { idx: 0, description: "High — full noise cancellation" }), ("low", PresetMode { idx: 1, description: "Low — reduced noise cancellation" }), ("off", PresetMode { idx: 2, description: "Off — no noise cancellation" })]);
    assert(editable_slots@ =~= Seq::<u8>::empty());
    DeviceConfig {
        info: DeviceInfo { name: "Bose QuietComfort 35", codename: "baywolf", platform: "CSR8670" },
        rfcomm_channel: 8,
        init_packet: Some(Addr(0, 1)),
        battery: Some(Addr(2, 2)),
        firmware: Some(Addr(0, 5)),
        product_name: Some(Addr(1, 2)),
        voice_prompts: Some(Addr(1, 3)),
        cnc: None,
        eq: None,
        buttons: Some(Addr(1, 9)),
        multipoint: None,
        sidetone: Some(Addr(1, 11)),
        auto_pause: None,
        auto_answer: None,
        anr: Some(Addr(1, 6)),
        pairing: Some(Addr(4, 8)),
        routing: None,
        source: None,
        power: None,
        get_all_modes: None,
        current_mode: None,
        mode_config: None,
        favorites: None,
        audio_settings: None,
        preset_modes,
        editable_slots,
        parse_mode_config: None,
        build_mode_config: None,
        supports_anc_toggle: false,
        cnc_direct_setget: false,
    }
}

/// The `qc_earbuds` feature table.
pub open spec fn is_qc_earbuds(c: DeviceConfig) -> bool {
    &&& c.info == DeviceInfo { name: "Bose QC Earbuds", codename: "lando", platform: "QCC-384" }
    &&& c.rfcomm_channel == 8
    &&& c.init_packet == None::<Addr>
    &&& c.battery == Some(Addr(2, 2))
    &&& c.firmware == Some(Addr(0, 5))
    &&& c.product_name == Some(Addr(1, 2))
    &&& c.voice_prompts == Some(Addr(1, 3))
    &&& c.cnc == Some(Addr(1, 5))
    &&& c.eq == Some(Addr(1, 7))
    &&& c.buttons == Some(Addr(1, 9))
    &&& c.multipoint == Some(Addr(1, 10))
    &&& c.sidetone == Some(Addr(1, 11))
    &&& c.auto_pause == None::<Addr>
    &&& c.auto_answer == None::<Addr>
    &&& c.anr == None::<Addr>
    &&& c.pairing == Some(Addr(4, 8))
    &&& c.routing == Some(Addr(4, 12))
    &&& c.source == Some(Addr(5, 1))
    &&& c.power == Some(Addr(7, 4))
    &&& c.get_all_modes == Some(Addr(31, 1))
    &&& c.current_mode == Some(Addr(31, 3))
    &&& c.mode_config == Some(Addr(31, 6))
    &&& c.favorites == Some(Addr(31, 8))
    &&& c.audio_settings == None::<Addr>
    &&& c.preset_modes@ == seq![("quiet", PresetMode { idx: 0, description: "Quiet - full ANC" }), ("aware", PresetMode { idx: 1, description: "Aware - transparency" })]
    &&& c.editable_slots@ == Seq::<u8>::empty()
    &&& c.parse_mode_config == Some(ModeConfigParser::Earbuds44)
    &&& c.build_mode_config == None::<ModeConfigBuilder>
    &&& c.supports_anc_toggle == false
    &&& c.cnc_direct_setget == true
}

/// Bose QuietComfort Earbuds (1st Gen) — codename lando, firmware 2.0.7.
/// Four fixed modes; ModeConfig SETGET is non-functional, so CNC is
/// written directly to [1.5].
pub fn qc_earbuds() -> (c: DeviceConfig)
    ensures
        is_qc_earbuds(c),
{
    let mut preset_modes: Vec<(&'static str, PresetMode)> = Vec::new();
    preset_modes.push(("quiet", PresetMode { idx: 0, description: "Quiet - full ANC" }));
    preset_modes.push(("aware", PresetMode { idx: 1, description: "Aware - transparency" }));
    let mut editable_slots: Vec<u8> = Vec::new();
    assert(preset_modes@ =~= seq![("quiet", PresetMode { idx: 0, description: "Quiet - full ANC" }), ("aware", PresetMode { idx: 1, description: "Aware - transparency" })]);
    assert(editable_slots@ =~= Seq::<u8>::empty());
    DeviceConfig {
        info: DeviceInfo { name: "Bose QC Earbuds", codename: "lando", platform: "QCC-384" },
        rfcomm_channel: 8,
        init_packet: None,
        battery: Some(Addr(2, 2)),
        firmware: Some(Addr(0, 5)),
        product_name: Some(Addr(1, 2)),
        voice_prompts: Some(Addr(1, 3)),
        cnc: Some(Addr(1, 5)),
        eq: Some(Addr(1, 7)),
        buttons: Some(Addr(1, 9)),
        multipoint: Some(Addr(1, 10)),
        sidetone: Some(Addr(1, 11)),
        auto_pause: None,
        auto_answer: None,
        anr: None,
        pairing: Some(Addr(4, 8)),
        routing: Some(Addr(4, 12)),
        source: Some(Addr(5, 1)),
        power: Some(Addr(7, 4)),
        get_all_modes: Some(Addr(31, 1)),
        current_mode: Some(Addr(31, 3)),
        mode_config: Some(Addr(31, 6)),
        favorites: Some(Addr(31, 8)),
        audio_settings: None,
        preset_modes,
        editable_slots,
        parse_mode_config: Some(ModeConfigParser::Earbuds44),
        build_mode_config: None,
        supports_anc_toggle: false,
        cnc_direct_setget: true,
    }
}

/// The `qc45` feature table.
pub open spec fn is_qc45(c: DeviceConfig) -> bool {
    &&& c.info == DeviceInfo { name: "Bose QuietComfort 45", codename: "duran", platform: "CSR8670" }
    &&& c.rfcomm_channel == 8
    &&& c.init_packet == Some(Addr(0, 1))
    &&& c.battery == Some(Addr(2, 2))
    &&& c.firmware == Some(Addr(0, 5))
    &&& c.product_name == Some(Addr(1, 2))
    &&& c.voice_prompts == Some(Addr(1, 3))
    &&& c.cnc == Some(Addr(1, 5))
    &&& c.eq == Some(Addr(1, 7))
    &&& c.buttons == Some(Addr(1, 9))
    &&& c.multipoint == Some(Addr(1, 10))
    &&& c.sidetone == Some(Addr(1, 11))
    &&& c.auto_pause == None::<Addr>
    &&& c.auto_answer == None::<Addr>
    &&& c.anr == None::<Addr>
    &&& c.pairing == Some(Addr(4, 8))
    &&& c.routing == None::<Addr>
    &&& c.source == None::<Addr>
    &&& c.power == None::<Addr>
    &&& c.get_all_modes == Some(Addr(31, 1))
    &&& c.current_mode == Some(Addr(31, 3))
    &&& c.mode_config == Some(Addr(31, 6))
    &&& c.favorites == Some(Addr(31, 8))
    &&& c.audio_settings == None::<Addr>
    &&& c.preset_modes@ == seq![("quiet", PresetMode { idx: 0, description: "Quiet - full ANC" }), ("aware", PresetMode { idx: 1, description: "Aware - transparency" })]
    &&& c.editable_slots@ == seq![2u8, 3u8]
    &&& c.parse_mode_config == Some(ModeConfigParser::Prince)
    &&& c.build_mode_config == Some(ModeConfigBuilder::ThirtyNine)
    &&& c.supports_anc_toggle == false
    &&& c.cnc_direct_setget == false
}

/// Bose QuietComfort 45 — codename duran, CSR8670.
/// Layout inferred from the Bose app; unverified on hardware. Shares
/// the prince 47/39-byte ModeConfig format. Needs GET [0.1] before responding.
pub fn qc45() -> (c: DeviceConfig)
    ensures
        is_qc45(c),
{
    let mut preset_modes: Vec<(&'static str, PresetMode)> = Vec::new();
    preset_modes.push(("quiet", PresetMode { idx: 0, description: "Quiet - full ANC" }));
    preset_modes.push(("aware", PresetMode { idx: 1, description: "Aware - transparency" }));
    let mut editable_slots: Vec<u8> = Vec::new();
    editable_slots.push(2);
    editable_slots.push(3);
    assert(preset_modes@ =~= seq![("quiet", PresetMode { idx: 0, description: "Quiet - full ANC" }), ("aware", PresetMode { idx: 1, description: "Aware - transparency" })]);
    assert(editable_slots@ =~= seq![2u8, 3u8]);
    DeviceConfig {
        info: DeviceInfo { name: "Bose QuietComfort 45", codename: "duran", platform: "CSR8670" },
        rfcomm_channel: 8,
        init_packet: Some(Addr(0, 1)),
        battery: Some(Addr(2, 2)),
        firmware: Some(Addr(0, 5)),
        product_name: Some(Addr(1, 2)),
        voice_prompts: Some(Addr(1, 3)),
        cnc: Some(Addr(1, 5)),
        eq: Some(Addr(1, 7)),
        buttons: Some(Addr(1, 9)),
        multipoint: Some(Addr(1, 10)),
        sidetone: Some(Addr(1, 11)),
        auto_pause: None,
        auto_answer: None,
        anr: None,
        pairing: Some(Addr(4, 8)),
        routing: None,
        source: None,
        power: None,
        get_all_modes: Some(Addr(31, 1)),
        current_mode: Some(Addr(31, 3)),
        mode_config: Some(Addr(31, 6)),
        favorites: Some(Addr(31, 8)),
        audio_settings: None,
        preset_modes,
        editable_slots,
        parse_mode_config: Some(ModeConfigParser::Prince),
        build_mode_config: Some(ModeConfigBuilder::ThirtyNine),
        supports_anc_toggle: false,
        cnc_direct_setget: false,
    }
}

/// The `ultra_open` feature table.
pub open spec fn is_ultra_open(c: DeviceConfig) -> bool {
    &&& c.info == DeviceInfo { name: "Bose Ultra Open Earbuds", codename: "serena", platform: "QCC" }
    &&& c.rfcomm_channel == 2
    &&& c.init_packet == None::<Addr>
    &&& c.battery == Some(Addr(2, 2))
    &&& c.firmware == Some(Addr(0, 5))
    &&& c.product_name == Some(Addr(1, 2))
    &&& c.voice_prompts == Some(Addr(1, 3))
    &&& c.cnc == None::<Addr>
    &&& c.eq == Some(Addr(1, 7))
    &&& c.buttons == None::<Addr>
    &&& c.multipoint == Some(Addr(1, 10))
    &&& c.sidetone == None::<Addr>
    &&& c.auto_pause == None::<Addr>
    &&& c.auto_answer == None::<Addr>
    &&& c.anr == None::<Addr>
    &&& c.pairing == Some(Addr(4, 8))
    &&& c.routing == None::<Addr>
    &&& c.source == Some(Addr(5, 1))
    &&& c.power == Some(Addr(7, 4))
    &&& c.get_all_modes == Some(Addr(31, 1))
    &&& c.current_mode == Some(Addr(31, 3))
    &&& c.mode_config == Some(Addr(31, 6))
    &&& c.favorites == None::<Addr>
    &&& c.audio_settings == None::<Addr>
    &&& c.preset_modes@ == Seq::<(&'static str, PresetMode)>::empty()
    &&& c.editable_slots@ == Seq::<u8>::empty()
    &&& c.parse_mode_config == Some(ModeConfigParser::QcUltra2)
    &&& c.build_mode_config == None::<ModeConfigBuilder>
    &&& c.supports_anc_toggle == false
    &&& c.cnc_direct_setget == false
}

/// Bose Ultra Open Earbuds — codename serena, firmware 4.0.22+g1b923b0.
/// Reads, Settings SETGET, EQ, and mode switching confirmed. Open-ear, so
/// no CNC. ModeConfig layout inferred from QC Ultra; read-only until a
/// STATUS capture fixes the SETGET format.
pub fn ultra_open() -> (c: DeviceConfig)
    ensures
        is_ultra_open(c),
{
    let mut preset_modes: Vec<(&'static str, PresetMode)> = Vec::new();
    let mut editable_slots: Vec<u8> = Vec::new();
    assert(preset_modes@ =~= Seq::<(&'static str, PresetMode)>::empty());
    assert(editable_slots@ =~= Seq::<u8>::empty());
    DeviceConfig {
        info: DeviceInfo { name: "Bose Ultra Open Earbuds", codename: "serena", platform: "QCC" },
        rfcomm_channel: 2,
        init_packet: None,
        battery: Some(Addr(2, 2)),
        firmware: Some(Addr(0, 5)),
        product_name: Some(Addr(1, 2)),
        voice_prompts: Some(Addr(1, 3)),
        cnc: None,
        eq: Some(Addr(1, 7)),
        buttons: None,
        multipoint: Some(Addr(1, 10)),
        sidetone: None,
        auto_pause: None,
        auto_answer: None,
        anr: None,
        pairing: Some(Addr(4, 8)),
        routing: None,
        source: Some(Addr(5, 1)),
        power: Some(Addr(7, 4)),
        get_all_modes: Some(Addr(31, 1)),
        current_mode: Some(Addr(31, 3)),
        mode_config: Some(Addr(31, 6)),
        favorites: None,
        audio_settings: None,
        preset_modes,
        editable_slots,
        parse_mode_config: Some(ModeConfigParser::QcUltra2),
        build_mode_config: None,
        supports_anc_toggle: false,
        cnc_direct_setget: false,
    }
}

/// The configuration known by a device type name. The QC Ultra Earbuds
/// (2nd Gen) share the QC Ultra 2 feature layout, under either name.
pub open spec fn device_named(name: Seq<char>, c: Option<DeviceConfig>) -> bool {
    if name == "qc_ultra2"@ || name == "qc_ultra2_earbuds"@ {
        c matches Some(d) && is_qc_ultra2(d)
    } else if name == "qc35"@ {
        c matches Some(d) && is_qc35(d)
    } else if name == "qc_prince"@ {
        c matches Some(d) && is_qc_prince(d)
    } else if name == "qc_earbuds"@ {
        c matches Some(d) && is_qc_earbuds(d)
    } else if name == "qc45"@ {
        c matches Some(d) && is_qc45(d)
    } else if name == "ultra_open"@ {
        c matches Some(d) && is_ultra_open(d)
    } else {
        c is None
    }
}

/// Look up a device config by name.
pub fn get_device(name: &str) -> (c: Option<DeviceConfig>)
    ensures
        device_named(name@, c),
{
    if str_equal(name, "qc_ultra2") || str_equal(name, "qc_ultra2_earbuds") {
        Some(qc_ultra2())
    } else if str_equal(name, "qc35") {
        Some(qc35())
    } else if str_equal(name, "qc_prince") {
        Some(qc_prince())
    } else if str_equal(name, "qc_earbuds") {
        Some(qc_earbuds())
    } else if str_equal(name, "qc45") {
        Some(qc45())
    } else if str_equal(name, "ultra_open") {
        Some(ultra_open())
    } else {
        None
    }
}

} // verus!
