//! What the writing operations of a connection put on the wire, stated in
//! terms of their arguments and of what the device answered: the mode a
//! switch selects, the band each EQ write names, the settings a change
//! keeps, and the profile a creation writes.

use vstd::prelude::*;

use crate::connection::{
    create_profile_run, free_slot, preset_named, set_anc_run, set_cnc_run, set_eq_run, set_mode_run,
    set_spatial_run, set_wind_run, spatial_code, update_settings_run,
};
use crate::device::{band_name_spec, DeviceConfig, ModeConfigBuilder};
use crate::protocol::{mode_name_field, packet_spec, parse_response_spec, Operator};
use crate::transport::Reply;
use vstd::utf8::encode_utf8;

verus! {

/// A reply that carries a response which is not an error, with payload `p`.
pub open spec fn answers(rep: Reply, p: Seq<u8>) -> bool {
    match rep {
        Ok(d) => match parse_response_spec(d) {
            Some(r) => r.op != Operator::Error && r.payload == p,
            None => false,
        },
        Err(_) => false,
    }
}

/// A reply that is not a transport error.
pub open spec fn delivered(rep: Reply) -> bool {
    rep is Ok
}

/// Switching to a preset sends exactly one request: START on the
/// current-mode address with the preset's index first and the announce
/// flag (1 or 0) second.
pub proof fn lemma_set_mode_preset_request(c: DeviceConfig, name: Seq<char>, announce: bool, rs: Seq<Reply>)
    requires
        c.current_mode is Some,
        preset_named(c.preset_modes@, name, 0) is Some,
    ensures
        ({
            let a = c.current_mode.unwrap();
            let idx = preset_named(c.preset_modes@, name, 0).unwrap();
            set_mode_run(c, name, announce, rs).0 == seq![
                (packet_spec(a.0, a.1, Operator::Start, seq![idx, if announce { 1u8 } else { 0u8 }]), false),
            ]
        }),
{
    let a = c.current_mode.unwrap();
    let idx = preset_named(c.preset_modes@, name, 0).unwrap();
    let r = set_mode_run(c, name, announce, rs);
    assert(r.0 =~= seq![(packet_spec(a.0, a.1, Operator::Start, seq![idx, if announce { 1u8 } else { 0u8 }]), false)]);
}

/// The preset a name selects is the first preset listed under that name
/// (ignoring ASCII case), and its index is the one listed with it.
pub proof fn lemma_preset_named_is_listed(ps: Seq<(&'static str, crate::device::PresetMode)>, name: Seq<char>, i: int)
    requires
        0 <= i,
        preset_named(ps, name, i) is Some,
    ensures
        exists|k: int|
            i <= k < ps.len() && crate::text::eq_ignore_case_spec(#[trigger] ps[k].0@, name)
                && ps[k].1.idx == preset_named(ps, name, i).unwrap(),
    decreases ps.len() - i,
{
    if i < ps.len() && !crate::text::eq_ignore_case_spec(ps[i].0@, name) {
        lemma_preset_named_is_listed(ps, name, i + 1);
    }
}

/// Setting the EQ with three delivered replies sends three SETGETs to the EQ
/// address: bass to band 0 ("Bass"), mid to band 1 ("Mid") and treble to
/// band 2 ("Treble"), each payload `[value, band]`, in that order.
pub proof fn lemma_set_eq_bands(c: DeviceConfig, bass: i8, mid: i8, treble: i8, rs: Seq<Reply>)
    requires
        c.eq is Some,
        -10 <= bass <= 10,
        -10 <= mid <= 10,
        -10 <= treble <= 10,
        rs.len() >= 3,
        delivered(rs[0]),
        delivered(rs[1]),
        delivered(rs[2]),
    ensures
        ({
            let a = c.eq.unwrap();
            let run = set_eq_run(c, bass, mid, treble, rs);
            &&& run.1 == Ok::<(), crate::error::ErrorView>(())
            &&& run.0 == seq![
                (packet_spec(a.0, a.1, Operator::SetGet, seq![bass as u8, 0u8]), false),
                (packet_spec(a.0, a.1, Operator::SetGet, seq![mid as u8, 1u8]), false),
                (packet_spec(a.0, a.1, Operator::SetGet, seq![treble as u8, 2u8]), false),
            ]
            &&& band_name_spec(run.0[0].0[5]) == "Bass" && run.0[0].0[4] as i8 == bass
            &&& band_name_spec(run.0[1].0[5]) == "Mid" && run.0[1].0[4] as i8 == mid
            &&& band_name_spec(run.0[2].0[5]) == "Treble" && run.0[2].0[4] as i8 == treble
        }),
{
    let a = c.eq.unwrap();
    let run = set_eq_run(c, bass, mid, treble, rs);
    let r1 = rs.skip(1);
    let r2 = r1.skip(1);
    assert(r1[0] == rs[1]);
    assert(r2[0] == rs[2]);
    assert(run.0 =~= seq![
        (packet_spec(a.0, a.1, Operator::SetGet, seq![bass as u8, 0u8]), false),
        (packet_spec(a.0, a.1, Operator::SetGet, seq![mid as u8, 1u8]), false),
        (packet_spec(a.0, a.1, Operator::SetGet, seq![treble as u8, 2u8]), false),
    ]);
    assert(run.0[0].0[4] == bass as u8 && run.0[0].0[5] == 0u8);
    assert(run.0[1].0[4] == mid as u8 && run.0[1].0[5] == 1u8);
    assert(run.0[2].0[4] == treble as u8 && run.0[2].0[5] == 2u8);
    assert((bass as u8) as i8 == bass) by (bit_vector);
    assert((mid as u8) as i8 == mid) by (bit_vector);
    assert((treble as u8) as i8 == treble) by (bit_vector);
}

/// A change of the live settings on a device with the AudioSettings
/// register reads the five settings bytes `cur` and writes them back with
/// only the given fields replaced: CNC at 0, spatial at 2, wind block at 3
/// and ANC at 4; byte 1 (auto-CNC) and every field not given keep the value
/// read.
pub proof fn lemma_settings_change_keeps_other_fields(
    c: DeviceConfig,
    cnc: Option<u8>,
    spatial: Option<u8>,
    wind: Option<bool>,
    anc: Option<bool>,
    cur: Seq<u8>,
    rs: Seq<Reply>,
)
    requires
        c.audio_settings is Some,
        cur.len() == 5,
        rs.len() >= 1,
        answers(rs[0], cur),
    ensures
        ({
            let a = c.audio_settings.unwrap();
            let run = update_settings_run(c, cnc, spatial, wind, anc, rs);
            let w = run.0[1].0.subrange(4, 9);
            &&& run.0.len() == 2
            &&& run.0[0] == (packet_spec(a.0, a.1, Operator::Get, Seq::empty()), false)
            &&& run.0[1] == (packet_spec(a.0, a.1, Operator::SetGet, w), false)
            &&& w[0] == (match cnc { Some(l) => l, None => cur[0] })
            &&& w[1] == cur[1]
            &&& w[2] == (match spatial { Some(v) => v, None => cur[2] })
            &&& w[3] == (match wind { Some(b) => if b { 1u8 } else { 0u8 }, None => cur[3] })
            &&& w[4] == (match anc { Some(b) => if b { 1u8 } else { 0u8 }, None => cur[4] })
        }),
{
    let a = c.audio_settings.unwrap();
    let run = update_settings_run(c, cnc, spatial, wind, anc, rs);
    let w = crate::connection::settings_payload(cur, cnc, spatial, wind, anc);
    let pkt = packet_spec(a.0, a.1, Operator::SetGet, w);
    assert(run.0 =~= seq![(packet_spec(a.0, a.1, Operator::Get, Seq::empty()), false), (pkt, false)]);
    assert(pkt.subrange(4, 9) =~= w);
}

/// Setting the CNC level through the AudioSettings register writes back the
/// settings read with only the level (byte 0) changed.
pub proof fn lemma_set_cnc_changes_only_the_level(c: DeviceConfig, level: u8, cur: Seq<u8>, rs: Seq<Reply>)
    requires
        level <= 10,
        !(c.cnc_direct_setget && c.cnc is Some),
        c.audio_settings is Some,
        cur.len() == 5,
        rs.len() >= 1,
        answers(rs[0], cur),
    ensures
        ({
            let a = c.audio_settings.unwrap();
            set_cnc_run(c, level, rs).0 == seq![
                (packet_spec(a.0, a.1, Operator::Get, Seq::empty()), false),
                (packet_spec(a.0, a.1, Operator::SetGet, cur.update(0, level)), false),
            ]
        }),
{
    lemma_settings_change_keeps_other_fields(c, Some(level), None, None, None, cur, rs);
    let a = c.audio_settings.unwrap();
    let run = set_cnc_run(c, level, rs);
    assert(run.0[1].0.subrange(4, 9) =~= cur.update(0, level));
    assert(run.0 =~= seq![
        (packet_spec(a.0, a.1, Operator::Get, Seq::empty()), false),
        (packet_spec(a.0, a.1, Operator::SetGet, cur.update(0, level)), false),
    ]);
}

/// Setting spatial audio through the AudioSettings register writes back the
/// settings read with only the spatial code (byte 2) changed.
pub proof fn lemma_set_spatial_changes_only_spatial(c: DeviceConfig, mode: Seq<char>, cur: Seq<u8>, rs: Seq<Reply>)
    requires
        spatial_code(mode) is Some,
        c.audio_settings is Some,
        cur.len() == 5,
        rs.len() >= 1,
        answers(rs[0], cur),
    ensures
        ({
            let a = c.audio_settings.unwrap();
            set_spatial_run(c, mode, rs).0 == seq![
                (packet_spec(a.0, a.1, Operator::Get, Seq::empty()), false),
                (packet_spec(a.0, a.1, Operator::SetGet, cur.update(2, spatial_code(mode).unwrap())), false),
            ]
        }),
{
    let v = spatial_code(mode).unwrap();
    lemma_settings_change_keeps_other_fields(c, None, Some(v), None, None, cur, rs);
    let a = c.audio_settings.unwrap();
    let run = set_spatial_run(c, mode, rs);
    assert(run.0[1].0.subrange(4, 9) =~= cur.update(2, v));
    assert(run.0 =~= seq![
        (packet_spec(a.0, a.1, Operator::Get, Seq::empty()), false),
        (packet_spec(a.0, a.1, Operator::SetGet, cur.update(2, v)), false),
    ]);
}

/// Turning the wind block on or off through the AudioSettings register
/// writes back the settings read with only byte 3 changed, to 1 or 0.
pub proof fn lemma_set_wind_changes_only_wind(c: DeviceConfig, enabled: bool, cur: Seq<u8>, rs: Seq<Reply>)
    requires
        c.audio_settings is Some,
        cur.len() == 5,
        rs.len() >= 1,
        answers(rs[0], cur),
    ensures
        ({
            let a = c.audio_settings.unwrap();
            set_wind_run(c, enabled, rs).0 == seq![
                (packet_spec(a.0, a.1, Operator::Get, Seq::empty()), false),
                (packet_spec(a.0, a.1, Operator::SetGet, cur.update(3, if enabled { 1u8 } else { 0u8 })), false),
            ]
        }),
{
    let v: u8 = if enabled { 1u8 } else { 0u8 };
    lemma_settings_change_keeps_other_fields(c, None, None, Some(enabled), None, cur, rs);
    let a = c.audio_settings.unwrap();
    let run = set_wind_run(c, enabled, rs);
    assert(run.0[1].0.subrange(4, 9) =~= cur.update(3, v));
    assert(run.0 =~= seq![
        (packet_spec(a.0, a.1, Operator::Get, Seq::empty()), false),
        (packet_spec(a.0, a.1, Operator::SetGet, cur.update(3, v)), false),
    ]);
}

/// Turning the ANC on or off through the AudioSettings register writes back
/// the settings read with only byte 4 changed, to 1 or 0.
pub proof fn lemma_set_anc_changes_only_anc(c: DeviceConfig, enabled: bool, cur: Seq<u8>, rs: Seq<Reply>)
    requires
        c.audio_settings is Some,
        cur.len() == 5,
        rs.len() >= 1,
        answers(rs[0], cur),
    ensures
        ({
            let a = c.audio_settings.unwrap();
            set_anc_run(c, enabled, rs).0 == seq![
                (packet_spec(a.0, a.1, Operator::Get, Seq::empty()), false),
                (packet_spec(a.0, a.1, Operator::SetGet, cur.update(4, if enabled { 1u8 } else { 0u8 })), false),
            ]
        }),
{
    let v: u8 = if enabled { 1u8 } else { 0u8 };
    lemma_settings_change_keeps_other_fields(c, None, None, None, Some(enabled), cur, rs);
    let a = c.audio_settings.unwrap();
    let run = set_anc_run(c, enabled, rs);
    assert(run.0[1].0.subrange(4, 9) =~= cur.update(4, v));
    assert(run.0 =~= seq![
        (packet_spec(a.0, a.1, Operator::Get, Seq::empty()), false),
        (packet_spec(a.0, a.1, Operator::SetGet, cur.update(4, v)), false),
    ]);
}

proof fn lemma_free_slot_is_editable(slots: Seq<u8>, ms: Seq<crate::device::ModeConfigView>, i: int)
    requires
        0 <= i,
        free_slot(slots, ms, i) is Some,
    ensures
        slots.contains(free_slot(slots, ms, i).unwrap()),
    decreases slots.len() - i,
{
    if i < slots.len() && !crate::connection::slot_free(ms, slots[i]) {
        lemma_free_slot_is_editable(slots, ms, i + 1);
    } else {
        assert(slots[i] == free_slot(slots, ms, i).unwrap());
    }
}

/// A profile created successfully in slot `slot` is one of the device's
/// editable slots, and its last request is the drained SETGET to the
/// ModeConfig address of a payload with every field at its documented
/// offset: the slot at 0, prompt bytes 0 and 0, the name's field at 3..35,
/// the CNC level at 35, spatial at 37, the wind block at 38 and (40-byte
/// format) the ANC toggle at 39. Read back with the device's own layout
/// (QC Ultra 2 for the 40-byte format, prince for the 39-byte one) it gives
/// those same settings.
pub proof fn lemma_create_profile_writes_the_profile(
    c: DeviceConfig,
    name: Seq<char>,
    cnc_level: u8,
    spatial: u8,
    wind_block: bool,
    anc_toggle: bool,
    rs: Seq<Reply>,
)
    requires
        create_profile_run(c, name, cnc_level, spatial, wind_block, anc_toggle, rs).1 is Ok,
    ensures
        ({
            let run = create_profile_run(c, name, cnc_level, spatial, wind_block, anc_toggle, rs);
            let slot = run.1->Ok_0;
            let a = c.mode_config.unwrap();
            let f = c.build_mode_config.unwrap();
            let w = run.0.last();
            let p = w.0.skip(4);
            &&& c.editable_slots@.contains(slot)
            &&& c.mode_config is Some && c.build_mode_config is Some
            &&& run.0.len() >= 1
            &&& w == (packet_spec(a.0, a.1, Operator::SetGet, p), true)
            &&& p.len() == (if f == ModeConfigBuilder::Forty { 40int } else { 39int })
            &&& p[0] == slot && p[1] == 0 && p[2] == 0
            &&& p.subrange(3, 35) == mode_name_field(encode_utf8(name))
            &&& p[35] == cnc_level && p[37] == spatial
            &&& p[38] == (if wind_block { 1u8 } else { 0u8 })
            &&& f == ModeConfigBuilder::Forty ==> p[39] == (if anc_toggle { 1u8 } else { 0u8 })
            &&& f == ModeConfigBuilder::Forty ==> (crate::device::mode_config_qc_ultra2_spec(p) matches Some(m)
                && m.mode_idx == slot && m.cnc_level == cnc_level && m.spatial == spatial
                && m.wind_block == wind_block && m.anc_toggle == anc_toggle)
            &&& f == ModeConfigBuilder::ThirtyNine ==> (crate::device::mode_config_prince_spec(p) matches Some(m)
                && m.mode_idx == slot && m.cnc_level == cnc_level && m.spatial == spatial
                && m.wind_block == wind_block)
        }),
{
    let run = create_profile_run(c, name, cnc_level, spatial, wind_block, anc_toggle, rs);
    let m = crate::connection::modes_run(c, rs);
    let ms = m.1->Ok_0;
    let r1 = rs.skip(m.0.len() as int);
    let slot = free_slot(c.editable_slots@, ms, 0).unwrap();
    lemma_free_slot_is_editable(c.editable_slots@, ms, 0);
    let a = c.mode_config.unwrap();
    let f = c.build_mode_config.unwrap();
    let p = crate::device::mode_config_build_spec(f, slot, encode_utf8(name), cnc_level, spatial, wind_block, anc_toggle, 0, 0);
    let wm = crate::connection::write_mode_run(c, slot, name, cnc_level, spatial, wind_block, anc_toggle, 0, 0, r1);
    assert(wm.0 == seq![(packet_spec(a.0, a.1, Operator::SetGet, p), true)]);
    assert(run.0 == m.0 + (wm.0 + Seq::<crate::connection::Req>::empty()));
    assert(run.0.last() == (packet_spec(a.0, a.1, Operator::SetGet, p), true));
    crate::device::lemma_mode_config_payload_layout(f, slot, encode_utf8(name), cnc_level, spatial, wind_block, anc_toggle, 0, 0);
    assert(p.len() <= 255);
    assert(packet_spec(a.0, a.1, Operator::SetGet, p).skip(4) =~= p);
    crate::device::lemma_qc_ultra2_layout(p);
    crate::device::lemma_prince_layout(p);
}

/// Reading the live settings from the AudioSettings register gives its
/// five bytes in order: CNC, auto-CNC, spatial, wind block, ANC.
pub proof fn lemma_audio_settings_read(c: DeviceConfig, cur: Seq<u8>, rs: Seq<Reply>)
    requires
        c.audio_settings is Some,
        cur.len() >= 5,
        rs.len() >= 1,
        answers(rs[0], cur),
    ensures
        ({
            let a = c.audio_settings.unwrap();
            let run = crate::connection::audio_settings_run(c, rs);
            &&& run.0 == seq![(packet_spec(a.0, a.1, Operator::Get, Seq::empty()), false)]
            &&& run.1 == Ok::<(u8, u8, u8, u8, u8), crate::error::ErrorView>((cur[0], cur[1], cur[2], cur[3], cur[4]))
        }),
{
    let a = c.audio_settings.unwrap();
    let run = crate::connection::audio_settings_run(c, rs);
    assert(run.0 =~= seq![(packet_spec(a.0, a.1, Operator::Get, Seq::empty()), false)]);
}

/// A settings change followed by a read of the settings, where the device
/// stored what was written, reads back the new values for the fields given
/// and the old ones for the rest.
pub proof fn lemma_settings_change_reads_back(
    c: DeviceConfig,
    cnc: Option<u8>,
    spatial: Option<u8>,
    wind: Option<bool>,
    anc: Option<bool>,
    cur: Seq<u8>,
    rs: Seq<Reply>,
    rs2: Seq<Reply>,
)
    requires
        c.audio_settings is Some,
        cur.len() == 5,
        rs.len() >= 1,
        answers(rs[0], cur),
        rs2.len() >= 1,
        answers(rs2[0], update_settings_run(c, cnc, spatial, wind, anc, rs).0[1].0.skip(4)),
    ensures
        crate::connection::audio_settings_run(c, rs2).1 == Ok::<(u8, u8, u8, u8, u8), crate::error::ErrorView>((
            match cnc { Some(l) => l, None => cur[0] },
            cur[1],
            match spatial { Some(v) => v, None => cur[2] },
            match wind { Some(b) => if b { 1u8 } else { 0u8 }, None => cur[3] },
            match anc { Some(b) => if b { 1u8 } else { 0u8 }, None => cur[4] },
        )),
{
    lemma_settings_change_keeps_other_fields(c, cnc, spatial, wind, anc, cur, rs);
    let run = update_settings_run(c, cnc, spatial, wind, anc, rs);
    let w = run.0[1].0.subrange(4, 9);
    assert(run.0[1].0.skip(4) =~= w);
    lemma_audio_settings_read(c, w, rs2);
}

/// On a device without the AudioSettings register, a successful settings
/// change rewrites the current mode's configuration: its last request is
/// the drained SETGET to the ModeConfig address of a payload for the same
/// mode index, name and prompt bytes, with the given fields replaced and
/// the others as the configuration was read.
pub proof fn lemma_settings_change_rewrites_current_mode(
    c: DeviceConfig,
    cnc: Option<u8>,
    spatial: Option<u8>,
    wind: Option<bool>,
    anc: Option<bool>,
    rs: Seq<Reply>,
)
    requires
        c.audio_settings is None,
        update_settings_run(c, cnc, spatial, wind, anc, rs).1 is Ok,
    ensures
        ({
            let run = update_settings_run(c, cnc, spatial, wind, anc, rs);
            let mc = crate::connection::current_mode_config_run(c, rs).1->Ok_0;
            let a = c.mode_config.unwrap();
            let f = c.build_mode_config.unwrap();
            let w = run.0.last();
            let p = w.0.skip(4);
            &&& crate::connection::current_mode_config_run(c, rs).1 is Ok
            &&& mc.editable
            &&& c.mode_config is Some && c.build_mode_config is Some
            &&& run.0.len() >= 1
            &&& w == (packet_spec(a.0, a.1, Operator::SetGet, p), true)
            &&& p[0] == mc.mode_idx && p[1] == mc.prompt_b1 && p[2] == mc.prompt_b2
            &&& p.subrange(3, 35) == mode_name_field(encode_utf8(mc.name))
            &&& p[35] == (match cnc { Some(l) => l, None => mc.cnc_level })
            &&& p[37] == (match spatial { Some(v) => v, None => mc.spatial })
            &&& p[38] == (if (match wind { Some(b) => b, None => mc.wind_block }) { 1u8 } else { 0u8 })
            &&& f == ModeConfigBuilder::Forty ==> p[39] == (if (match anc { Some(b) => b, None => mc.anc_toggle }) { 1u8 } else { 0u8 })
        }),
{
    let run = update_settings_run(c, cnc, spatial, wind, anc, rs);
    let cm = crate::connection::current_mode_config_run(c, rs);
    let mc = cm.1->Ok_0;
    let rest = rs.skip(cm.0.len() as int);
    let a = c.mode_config.unwrap();
    let f = c.build_mode_config.unwrap();
    let cnc2 = crate::connection::opt_or(cnc, mc.cnc_level);
    let sp2 = crate::connection::opt_or(spatial, mc.spatial);
    let w2 = crate::connection::opt_or(wind, mc.wind_block);
    let anc2 = crate::connection::opt_or(anc, mc.anc_toggle);
    let p = crate::device::mode_config_build_spec(f, mc.mode_idx, encode_utf8(mc.name), cnc2, sp2, w2, anc2, mc.prompt_b1, mc.prompt_b2);
    let wm = crate::connection::write_mode_run(c, mc.mode_idx, mc.name, cnc2, sp2, w2, anc2, mc.prompt_b1, mc.prompt_b2, rest);
    assert(wm.0 == seq![(packet_spec(a.0, a.1, Operator::SetGet, p), true)]);
    assert(run.0 == cm.0 + wm.0);
    assert(run.0.last() == (packet_spec(a.0, a.1, Operator::SetGet, p), true));
    crate::device::lemma_mode_config_payload_layout(f, mc.mode_idx, encode_utf8(mc.name), cnc2, sp2, w2, anc2, mc.prompt_b1, mc.prompt_b2);
    assert(packet_spec(a.0, a.1, Operator::SetGet, p).skip(4) =~= p);
}

/// Switching to a custom profile (a name no preset has) reads all mode
/// configurations, then sends START on the current-mode address with the
/// index of the first profile of that name (ignoring ASCII case) and the
/// announce flag.
pub proof fn lemma_set_mode_profile_request(c: DeviceConfig, name: Seq<char>, announce: bool, rs: Seq<Reply>)
    requires
        c.current_mode is Some,
        preset_named(c.preset_modes@, name, 0) is None,
        crate::connection::modes_run(c, rs).1 is Ok,
        crate::connection::mode_named(crate::connection::modes_run(c, rs).1->Ok_0, name, 0) is Some,
    ensures
        ({
            let a = c.current_mode.unwrap();
            let m = crate::connection::modes_run(c, rs);
            let target = crate::connection::mode_named(m.1->Ok_0, name, 0).unwrap();
            set_mode_run(c, name, announce, rs).0 == m.0.push(
                (packet_spec(a.0, a.1, Operator::Start, seq![target.mode_idx, if announce { 1u8 } else { 0u8 }]), false),
            )
        }),
{
    let a = c.current_mode.unwrap();
    let m = crate::connection::modes_run(c, rs);
    let target = crate::connection::mode_named(m.1->Ok_0, name, 0).unwrap();
    let run = set_mode_run(c, name, announce, rs);
    let mi = crate::connection::mode_index_run(c, name, rs);
    assert(mi.0 =~= m.0);
    assert(run.0 =~= m.0.push(
        (packet_spec(a.0, a.1, Operator::Start, seq![target.mode_idx, if announce { 1u8 } else { 0u8 }]), false),
    ));
}

/// A button remap sends one SETGET to the buttons address with payload
/// `[button, event, action]`, which reads back as that mapping.
pub proof fn lemma_set_buttons_request(c: DeviceConfig, b: u8, e: u8, act: u8, rs: Seq<Reply>)
    requires
        c.buttons is Some,
    ensures
        ({
            let a = c.buttons.unwrap();
            let run = crate::connection::set_buttons_run(c, b, e, act, rs);
            let p = run.0[0].0.skip(4);
            &&& run.0 == seq![(packet_spec(a.0, a.1, Operator::SetGet, seq![b, e, act]), false)]
            &&& p == seq![b, e, act]
            &&& crate::device::buttons_spec(p) matches Some(m) && m.button_id == b && m.event == e && m.action == act
        }),
{
    let a = c.buttons.unwrap();
    let run = crate::connection::set_buttons_run(c, b, e, act, rs);
    assert(run.0 =~= seq![(packet_spec(a.0, a.1, Operator::SetGet, seq![b, e, act]), false)]);
    assert(run.0[0].0.skip(4) =~= seq![b, e, act]);
}

/// Setting an accepted sidetone level sends one SETGET to the sidetone
/// address whose payload reads back as that level ("med" as "medium").
pub proof fn lemma_set_sidetone_request(c: DeviceConfig, level: Seq<char>, rs: Seq<Reply>)
    requires
        c.sidetone is Some,
        crate::connection::sidetone_code(level) is Some,
    ensures
        ({
            let a = c.sidetone.unwrap();
            let run = crate::connection::set_sidetone_run(c, level, rs);
            let p = run.0[0].0.skip(4);
            &&& run.0.len() == 1
            &&& run.0[0] == (packet_spec(a.0, a.1, Operator::SetGet, p), false)
            &&& crate::device::sidetone_spec(p)@ == (if level == "med"@ { "medium"@ } else { level })
        }),
{
    let a = c.sidetone.unwrap();
    let v = crate::connection::sidetone_code(level).unwrap();
    let run = crate::connection::set_sidetone_run(c, level, rs);
    assert(run.0 =~= seq![(packet_spec(a.0, a.1, Operator::SetGet, seq![1u8, v]), false)]);
    assert(run.0[0].0.skip(4) =~= seq![1u8, v]);
    crate::connection::lemma_sidetone_code_reads_back(level);
}

/// Setting an accepted ANR level sends one SETGET to the ANR address whose
/// payload reads back as that level.
pub proof fn lemma_set_anr_request(c: DeviceConfig, level: Seq<char>, rs: Seq<Reply>)
    requires
        c.anr is Some,
        crate::connection::anr_code(level) is Some,
    ensures
        ({
            let a = c.anr.unwrap();
            let run = crate::connection::set_anr_run(c, level, rs);
            let p = run.0[0].0.skip(4);
            &&& run.0.len() == 1
            &&& run.0[0] == (packet_spec(a.0, a.1, Operator::SetGet, p), false)
            &&& crate::device::anr_spec(p)@ == level
        }),
{
    reveal_strlit("off");
    reveal_strlit("high");
    reveal_strlit("wind");
    reveal_strlit("low");
    let a = c.anr.unwrap();
    let v = crate::connection::anr_code(level).unwrap();
    let run = crate::connection::set_anr_run(c, level, rs);
    assert(run.0 =~= seq![(packet_spec(a.0, a.1, Operator::SetGet, seq![v]), false)]);
    assert(run.0[0].0.skip(4) =~= seq![v]);
    assert("off"@[0] != "low"@[0]);
    assert("high"@[0] != "wind"@[0]);
    if level == "off"@ {
        assert(crate::device::anr_spec(seq![v]) == "off");
    } else if level == "high"@ {
        assert(crate::device::anr_spec(seq![v]) == "high");
    } else if level == "wind"@ {
        assert(crate::device::anr_spec(seq![v]) == "wind");
    } else {
        assert(crate::device::anr_spec(seq![v]) == "low");
    }
}

/// Toggling voice prompts after a GET that answered `cur` sends one SETGET
/// to the same address whose byte reads back as the requested state and
/// the language read.
pub proof fn lemma_set_prompts_request(c: DeviceConfig, enabled: bool, cur: Seq<u8>, rs: Seq<Reply>)
    requires
        c.voice_prompts is Some,
        cur.len() >= 1,
        rs.len() >= 1,
        answers(rs[0], cur),
    ensures
        ({
            let a = c.voice_prompts.unwrap();
            let run = crate::connection::set_prompts_run(c, enabled, rs);
            let p = run.0[1].0.skip(4);
            &&& run.0.len() == 2
            &&& run.0[0] == (packet_spec(a.0, a.1, Operator::Get, Seq::empty()), false)
            &&& run.0[1] == (packet_spec(a.0, a.1, Operator::SetGet, p), false)
            &&& p.len() == 1
            &&& crate::device::voice_prompts_spec(p) == (enabled, crate::device::voice_prompts_spec(cur).1)
        }),
{
    let a = c.voice_prompts.unwrap();
    let b = crate::connection::prompt_byte(enabled, cur);
    let run = crate::connection::set_prompts_run(c, enabled, rs);
    assert(run.0 =~= seq![
        (packet_spec(a.0, a.1, Operator::Get, Seq::empty()), false),
        (packet_spec(a.0, a.1, Operator::SetGet, seq![b]), false),
    ]);
    assert(run.0[1].0.skip(4) =~= seq![b]);
    crate::connection::lemma_prompt_byte_keeps_language(enabled, cur);
}

} // verus!
