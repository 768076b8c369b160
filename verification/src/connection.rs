//! High-level BMAP device connection.
//!
//! A connection runs short request/response dialogues over a [`Transport`].
//! Each operation's contract names the dialogue it runs: the packets it
//! sends, in order, and what it returns for every reply the device may give.
//! Dialogues are spec functions from the replies received to the requests
//! made and the result; they are composed with [`then`].

use vstd::prelude::*;
use vstd::string::{StringExecFns, StringSliceAdditionalSpecFns};

use crate::device::{
    build_buttons, build_routing,
    anr_spec, battery_spec, buttons_spec, cnc_spec, eq_spec, parse_anr, parse_battery, parse_bool, parse_buttons,
    parse_cnc, parse_eq, parse_firmware, parse_multipoint, parse_product_name, parse_sidetone,
    parse_source, parse_voice_prompts, product_name_spec, sidetone_spec, source_spec,
    voice_prompts_spec, Addr, AudioSource, ButtonMapping, DeviceConfig, EqBand, ModeConfig,
    ModeConfigParser, ModeConfigView, PresetMode, mode_config_parse_spec, DeviceStatus,
    DeviceStatusView, mode_config_build_spec, routing_spec,
};
use vstd::utf8::encode_utf8;
use crate::text::{dec_text, eq_ignore_ascii_case, eq_ignore_case_spec, lossy_text, push_dec, str_equal};
use crate::error::{res_view, BmapError, BmapResult, ErrorView};
use crate::protocol::{
    bmap_packet, packet_spec, parse_all_responses, parse_all_spec, parse_response,
    parse_response_spec, response_text, responses_view, BmapResponse, Operator, ResponseView,
};
use crate::transport::{Exchange, Reply, Transport};

verus! {

/// A request: the packet sent and whether the reply is drained.
pub type Req = (Seq<u8>, bool);

/// A dialogue's outcome: the requests made, and the result.
pub type Run<V> = (Seq<Req>, Result<V, ErrorView>);

/// The requests of a list of exchanges.
pub open spec fn requests_of(h: Seq<Exchange>) -> Seq<Req> {
    h.map_values(|e: Exchange| (e.0, e.1))
}

/// The replies of a list of exchanges.
pub open spec fn replies_of(h: Seq<Exchange>) -> Seq<Reply> {
    h.map_values(|e: Exchange| e.2)
}

/// `h1` is `h0` followed by more exchanges.
pub open spec fn extends(h0: Seq<Exchange>, h1: Seq<Exchange>) -> bool {
    h0.len() <= h1.len() && h1.take(h0.len() as int) == h0
}

/// The exchanges of `h1` after those of `h0`.
pub open spec fn since(h0: Seq<Exchange>, h1: Seq<Exchange>) -> Seq<Exchange> {
    h1.skip(h0.len() as int)
}

/// The replies received going from history `h0` to `h1`, followed by `more`.
///
/// Each operation's contract reads: for every `more`, the operation's
/// dialogue, given `seen(h0, h1, more)` as the device's replies, makes exactly
/// the requests `made(h0, h1)` and returns the operation's result. That is:
/// the dialogue that took place is the one the spec function describes, and
/// it consumed no reply beyond those received.
pub open spec fn seen(h0: Seq<Exchange>, h1: Seq<Exchange>, more: Seq<Reply>) -> Seq<Reply> {
    replies_of(since(h0, h1)) + more
}

/// The requests made going from history `h0` to `h1`.
pub open spec fn made(h0: Seq<Exchange>, h1: Seq<Exchange>) -> Seq<Req> {
    requests_of(since(h0, h1))
}

/// A dialogue of no exchange.
pub open spec fn done<V>(res: Result<V, ErrorView>) -> Run<V> {
    (Seq::empty(), res)
}

/// A dialogue of one exchange: send `req`, and decode the first reply with `k`.
pub open spec fn step<V>(req: Req, rs: Seq<Reply>, k: spec_fn(Reply) -> Result<V, ErrorView>) -> Run<V> {
    (seq![req], k(rs[0]))
}

/// Sequential composition: run `first`; if it fails, stop with its error;
/// otherwise continue with `k` on its value and the replies that follow.
pub open spec fn then<A, B>(
    first: Run<A>,
    rs: Seq<Reply>,
    k: spec_fn(A, Seq<Reply>) -> Run<B>,
) -> Run<B> {
    match first.1 {
        Err(e) => (first.0, Err(e)),
        Ok(a) => {
            let second = k(a, rs.skip(first.0.len() as int));
            (first.0 + second.0, second.1)
        },
    }
}

/// The error raised when a device lacks a feature.
pub open spec fn unsupported(c: DeviceConfig) -> ErrorView {
    ErrorView::Unsupported(c.info.name@ + " does not support this feature"@)
}

/// The address of a feature, or the unsupported-feature error.
pub open spec fn feature(c: DeviceConfig, f: Option<Addr>) -> Result<Addr, ErrorView> {
    match f {
        Some(a) => Ok(a),
        None => Err(unsupported(c)),
    }
}

/// The error a device reports in a response: code 5 is an authentication
/// refusal, any other code a device error; both carry the response's text.
pub open spec fn check_error_spec(r: ResponseView) -> Result<ResponseView, ErrorView> {
    if r.op == Operator::Error && r.payload.len() > 0 {
        if r.payload[0] == 5 {
            Err(ErrorView::Auth(response_text(r)))
        } else {
            Err(ErrorView::Device { message: response_text(r), code: r.payload[0] })
        }
    } else {
        Ok(r)
    }
}

/// A reply read as one response: a transport error as it is, bytes that hold
/// no response as a timeout with message `empty`, and a device error as
/// [`check_error_spec`] says.
pub open spec fn checked(rep: Reply, empty: Seq<char>) -> Result<ResponseView, ErrorView> {
    match rep {
        Err(e) => Err(e),
        Ok(d) => match parse_response_spec(d) {
            None => Err(ErrorView::Timeout(empty)),
            Some(r) => check_error_spec(r),
        },
    }
}

/// The request for `op` on `a` with `payload`, not drained.
pub open spec fn req(a: Addr, op: Operator, payload: Seq<u8>) -> Req {
    (packet_spec(a.0, a.1, op, payload), false)
}

/// One exchange of `op` on `a` with `payload`, read as a checked response.
pub open spec fn call_run(a: Addr, op: Operator, payload: Seq<u8>, rs: Seq<Reply>) -> Run<ResponseView> {
    step(req(a, op, payload), rs, |rep: Reply| checked(rep, "Empty response"@))
}

/// A GET of `a`, giving the response payload.
pub open spec fn get_run(a: Addr, rs: Seq<Reply>) -> Run<Seq<u8>> {
    step(
        req(a, Operator::Get, Seq::empty()),
        rs,
        |rep: Reply|
            match checked(rep, "Empty response"@) {
                Ok(r) => Ok(r.payload),
                Err(e) => Err(e),
            },
    )
}

/// Read a feature: fail if the device lacks it, else GET it and decode the payload with `decode`.
pub open spec fn read_run<V>(
    c: DeviceConfig,
    f: Option<Addr>,
    rs: Seq<Reply>,
    decode: spec_fn(Seq<u8>) -> Result<V, ErrorView>,
) -> Run<V> {
    match feature(c, f) {
        Err(e) => done(Err(e)),
        Ok(a) => then(get_run(a, rs), rs, |p: Seq<u8>, rest: Seq<Reply>| done(decode(p))),
    }
}

/// Battery percentage from GET [battery], as [`battery_spec`] reads it.
pub open spec fn battery_run(c: DeviceConfig, rs: Seq<Reply>) -> Run<u8> {
    read_run(
        c,
        c.battery,
        rs,
        |p: Seq<u8>|
            match battery_spec(p) {
                Some(b) => Ok(b),
                None => Err(ErrorView::Device { message: "Empty battery response"@, code: 0 }),
            },
    )
}


/// Firmware version: GET [firmware] as (lossy) UTF-8 text.
pub open spec fn firmware_run(c: DeviceConfig, rs: Seq<Reply>) -> Run<Seq<char>> {
    read_run(c, c.firmware, rs, |p: Seq<u8>| Ok(lossy_text(p)))
}

/// Device name: GET [product_name] after its flag byte.
pub open spec fn name_run(c: DeviceConfig, rs: Seq<Reply>) -> Run<Seq<char>> {
    read_run(c, c.product_name, rs, |p: Seq<u8>| Ok(product_name_spec(p)))
}

/// Current mode index: the first byte of GET [current_mode].
pub open spec fn mode_idx_run(c: DeviceConfig, rs: Seq<Reply>) -> Run<u8> {
    read_run(
        c,
        c.current_mode,
        rs,
        |p: Seq<u8>|
            if p.len() > 0 {
                Ok(p[0])
            } else {
                Err(ErrorView::Device { message: "Empty mode response"@, code: 0 })
            },
    )
}

/// Noise cancellation `(current, max)` from GET [cnc].
pub open spec fn cnc_run(c: DeviceConfig, rs: Seq<Reply>) -> Run<(u8, u8)> {
    read_run(c, c.cnc, rs, |p: Seq<u8>| Ok(cnc_spec(p)))
}

/// EQ bands from GET [eq].
pub open spec fn eq_run(c: DeviceConfig, rs: Seq<Reply>) -> Run<Seq<EqBand>> {
    read_run(c, c.eq, rs, |p: Seq<u8>| Ok(eq_spec(p)))
}

/// Sidetone level from GET [sidetone].
pub open spec fn sidetone_run(c: DeviceConfig, rs: Seq<Reply>) -> Run<Seq<char>> {
    read_run(c, c.sidetone, rs, |p: Seq<u8>| Ok(sidetone_spec(p)@))
}

/// Multipoint: bit 1 of the first byte of GET [multipoint].
pub open spec fn multipoint_run(c: DeviceConfig, rs: Seq<Reply>) -> Run<bool> {
    read_run(c, c.multipoint, rs, |p: Seq<u8>| Ok(p.len() > 0 && (p[0] / 2) % 2 == 1))
}

/// ANR mode from GET [anr].
pub open spec fn anr_run(c: DeviceConfig, rs: Seq<Reply>) -> Run<Seq<char>> {
    read_run(c, c.anr, rs, |p: Seq<u8>| Ok(anr_spec(p)@))
}

/// Active audio source from GET [source].
pub open spec fn source_run(c: DeviceConfig, rs: Seq<Reply>) -> Run<crate::device::AudioSourceView> {
    read_run(c, c.source, rs, |p: Seq<u8>| Ok(source_spec(p)))
}

/// A boolean setting: a first payload byte that is not zero.
pub open spec fn flag_of(p: Seq<u8>) -> bool {
    p.len() > 0 && p[0] != 0
}

/// Auto play/pause from GET [auto_pause].
pub open spec fn auto_pause_run(c: DeviceConfig, rs: Seq<Reply>) -> Run<bool> {
    read_run(c, c.auto_pause, rs, |p: Seq<u8>| Ok(flag_of(p)))
}

/// Auto-answer from GET [auto_answer].
pub open spec fn auto_answer_run(c: DeviceConfig, rs: Seq<Reply>) -> Run<bool> {
    read_run(c, c.auto_answer, rs, |p: Seq<u8>| Ok(flag_of(p)))
}

/// Voice prompts `(enabled, language)` from GET [voice_prompts].
pub open spec fn prompts_run(c: DeviceConfig, rs: Seq<Reply>) -> Run<(bool, Seq<char>)> {
    read_run(
        c,
        c.voice_prompts,
        rs,
        |p: Seq<u8>| Ok((voice_prompts_spec(p).0, voice_prompts_spec(p).1@)),
    )
}

/// Button mapping from GET [buttons].
pub open spec fn buttons_run(c: DeviceConfig, rs: Seq<Reply>) -> Run<ButtonMapping> {
    read_run(
        c,
        c.buttons,
        rs,
        |p: Seq<u8>|
            match buttons_spec(p) {
                Some(m) => Ok(m),
                None => Err(ErrorView::Device { message: "Could not parse button config"@, code: 0 }),
            },
    )
}


/// A START to `a` with `payload` whose reply is drained and read as a list of responses.
pub open spec fn start_drain_run(a: Addr, payload: Seq<u8>, rs: Seq<Reply>) -> Run<Seq<ResponseView>> {
    step(
        (packet_spec(a.0, a.1, Operator::Start, payload), true),
        rs,
        |rep: Reply|
            match rep {
                Err(e) => Err(e),
                Ok(d) => Ok(parse_all_spec(d)),
            },
    )
}

/// Raw bytes sent as they are, with every frame of the reply read.
pub open spec fn send_raw_run(data: Seq<u8>, rs: Seq<Reply>) -> Run<Seq<ResponseView>> {
    step(
        (data, true),
        rs,
        |rep: Reply|
            match rep {
                Err(e) => Err(e),
                Ok(d) => Ok(parse_all_spec(d)),
            },
    )
}

/// The mode configurations in a list of responses: each STATUS from the
/// ModeConfig address `mc` with at least 6 payload bytes that `layout` parses.
pub open spec fn modes_from(layout: ModeConfigParser, mc: Addr, rs: Seq<ResponseView>) -> Seq<ModeConfigView>
    decreases rs.len(),
{
    if rs.len() == 0 {
        Seq::empty()
    } else {
        let prefix = modes_from(layout, mc, rs.drop_last());
        let r = rs.last();
        if r.fblock == mc.0 && r.func == mc.1 && r.op == Operator::Status && r.payload.len() >= 6
            && mode_config_parse_spec(layout, r.payload) is Some {
            prefix.push(mode_config_parse_spec(layout, r.payload).unwrap())
        } else {
            prefix
        }
    }
}

/// All mode configurations: START [get_all_modes], drained, and the
/// ModeConfig STATUS responses that come back, parsed with the device's layout.
pub open spec fn modes_run(c: DeviceConfig, rs: Seq<Reply>) -> Run<Seq<ModeConfigView>> {
    match feature(c, c.get_all_modes) {
        Err(e) => done(Err(e)),
        Ok(a) => match feature(c, c.mode_config) {
            Err(e) => done(Err(e)),
            Ok(mc) => match c.parse_mode_config {
                None => done(Err(ErrorView::Unsupported("Device has no mode config parser"@))),
                Some(layout) => then(
                    start_drain_run(a, Seq::empty(), rs),
                    rs,
                    |resps: Seq<ResponseView>, rest: Seq<Reply>| done(Ok(modes_from(layout, mc, resps))),
                ),
            },
        },
    }
}

/// The first preset from position `i` on whose index is `idx`.
pub open spec fn preset_with_idx(ps: Seq<(&'static str, PresetMode)>, idx: u8, i: int) -> Option<&'static str>
    decreases ps.len() - i,
{
    if i < 0 || i >= ps.len() {
        None
    } else if ps[i].1.idx == idx {
        Some(ps[i].0)
    } else {
        preset_with_idx(ps, idx, i + 1)
    }
}

/// The first mode configuration from position `i` on with index `idx`.
pub open spec fn mode_with_idx(ms: Seq<ModeConfigView>, idx: u8, i: int) -> Option<ModeConfigView>
    decreases ms.len() - i,
{
    if i < 0 || i >= ms.len() {
        None
    } else if ms[i].mode_idx == idx {
        Some(ms[i])
    } else {
        mode_with_idx(ms, idx, i + 1)
    }
}

/// The name shown for a mode index that no preset or profile names.
pub open spec fn custom_name(idx: u8) -> Seq<char> {
    "custom("@ + dec_text(idx) + ")"@
}

/// The name of a mode index: the preset's name, else (after reading all
/// mode configurations) the first profile's name with that index, else
/// `custom(<idx>)`. It never fails.
pub open spec fn mode_name_run(c: DeviceConfig, idx: u8, rs: Seq<Reply>) -> Run<Seq<char>> {
    match preset_with_idx(c.preset_modes@, idx, 0) {
        Some(n) => done(Ok(n@)),
        None => {
            let m = modes_run(c, rs);
            (
                m.0,
                Ok(
                    match m.1 {
                        Ok(ms) => match mode_with_idx(ms, idx, 0) {
                            Some(mc) => mc.name,
                            None => custom_name(idx),
                        },
                        Err(_) => custom_name(idx),
                    },
                ),
            )
        },
    }
}

/// The current mode's name: its index, then its name.
pub open spec fn mode_run(c: DeviceConfig, rs: Seq<Reply>) -> Run<Seq<char>> {
    then(mode_idx_run(c, rs), rs, |idx: u8, rest: Seq<Reply>| mode_name_run(c, idx, rest))
}

/// The view of a list of mode configurations, or the error.
pub open spec fn modes_res(r: BmapResult<Vec<ModeConfig>>) -> Result<Seq<ModeConfigView>, ErrorView> {
    match r {
        Ok(v) => Ok(v@.map_values(|m: ModeConfig| m@)),
        Err(e) => Err(e@),
    }
}

/// The view of a list of responses, or the error.
pub open spec fn responses_res(r: BmapResult<Vec<BmapResponse>>) -> Result<Seq<ResponseView>, ErrorView> {
    match r {
        Ok(v) => Ok(responses_view(v@)),
        Err(e) => Err(e@),
    }
}

/// Whether the device offers the feature with this name.
pub open spec fn has_feature_spec(c: DeviceConfig, name: Seq<char>) -> bool {
    if name == "battery"@ { c.battery is Some }
    else if name == "firmware"@ { c.firmware is Some }
    else if name == "product_name"@ { c.product_name is Some }
    else if name == "voice_prompts"@ { c.voice_prompts is Some }
    else if name == "cnc"@ { c.cnc is Some }
    else if name == "eq"@ { c.eq is Some }
    else if name == "buttons"@ { c.buttons is Some }
    else if name == "multipoint"@ { c.multipoint is Some }
    else if name == "sidetone"@ { c.sidetone is Some }
    else if name == "auto_pause"@ { c.auto_pause is Some }
    else if name == "auto_answer"@ { c.auto_answer is Some }
    else if name == "anr"@ { c.anr is Some }
    else if name == "routing"@ { c.routing is Some }
    else if name == "source"@ { c.source is Some }
    else if name == "audio_settings"@ { c.audio_settings is Some }
    else if name == "mode_config"@ { c.mode_config is Some }
    else { false }
}


/// A device that lacks a feature, as `has_feature` reports it, answers every
/// read of that feature with the unsupported-feature error, sending nothing.
pub proof fn lemma_missing_feature_reads_fail(c: DeviceConfig, rs: Seq<Reply>)
    ensures
        !has_feature_spec(c, "battery"@) ==> battery_run(c, rs) == done::<u8>(Err(unsupported(c))),
        !has_feature_spec(c, "firmware"@) ==> firmware_run(c, rs) == done::<Seq<char>>(Err(unsupported(c))),
        !has_feature_spec(c, "product_name"@) ==> name_run(c, rs) == done::<Seq<char>>(Err(unsupported(c))),
        !has_feature_spec(c, "voice_prompts"@) ==> prompts_run(c, rs) == done::<(bool, Seq<char>)>(
            Err(unsupported(c)),
        ),
        !has_feature_spec(c, "cnc"@) ==> cnc_run(c, rs) == done::<(u8, u8)>(Err(unsupported(c))),
        !has_feature_spec(c, "eq"@) ==> eq_run(c, rs) == done::<Seq<EqBand>>(Err(unsupported(c))),
        !has_feature_spec(c, "buttons"@) ==> buttons_run(c, rs) == done::<ButtonMapping>(Err(unsupported(c))),
        !has_feature_spec(c, "multipoint"@) ==> multipoint_run(c, rs) == done::<bool>(Err(unsupported(c))),
        !has_feature_spec(c, "sidetone"@) ==> sidetone_run(c, rs) == done::<Seq<char>>(Err(unsupported(c))),
        !has_feature_spec(c, "auto_pause"@) ==> auto_pause_run(c, rs) == done::<bool>(Err(unsupported(c))),
        !has_feature_spec(c, "auto_answer"@) ==> auto_answer_run(c, rs) == done::<bool>(Err(unsupported(c))),
        !has_feature_spec(c, "anr"@) ==> anr_run(c, rs) == done::<Seq<char>>(Err(unsupported(c))),
        !has_feature_spec(c, "source"@) ==> source_run(c, rs) == done::<crate::device::AudioSourceView>(
            Err(unsupported(c)),
        ),
{
    reveal_strlit("battery");
    reveal_strlit("firmware");
    reveal_strlit("product_name");
    reveal_strlit("voice_prompts");
    reveal_strlit("cnc");
    reveal_strlit("eq");
    reveal_strlit("buttons");
    reveal_strlit("multipoint");
    reveal_strlit("sidetone");
    reveal_strlit("auto_pause");
    reveal_strlit("auto_answer");
    reveal_strlit("anr");
    reveal_strlit("routing");
    reveal_strlit("source");
    reveal_strlit("audio_settings");
    reveal_strlit("mode_config");
    assert("battery"@.len() == 7);
    assert("firmware"@.len() == 8);
    assert("product_name"@.len() == 12);
    assert("voice_prompts"@.len() == 13);
    assert("cnc"@.len() == 3);
    assert("eq"@.len() == 2);
    assert("buttons"@.len() == 7);
    assert("multipoint"@.len() == 10);
    assert("sidetone"@.len() == 8);
    assert("auto_pause"@.len() == 10);
    assert("auto_answer"@.len() == 11);
    assert("anr"@.len() == 3);
    assert("routing"@.len() == 7);
    assert("source"@.len() == 6);
    assert("audio_settings"@.len() == 14);
    assert("mode_config"@.len() == 11);
    assert("buttons"@[1] != "battery"@[1]);
    assert("sidetone"@[0] != "firmware"@[0]);
    assert("auto_pause"@[0] != "multipoint"@[0]);
    assert("anr"@[0] != "cnc"@[0]);
    assert(has_feature_spec(c, "battery"@) == (c.battery is Some));
    assert(has_feature_spec(c, "firmware"@) == (c.firmware is Some));
    assert(has_feature_spec(c, "product_name"@) == (c.product_name is Some));
    assert(has_feature_spec(c, "voice_prompts"@) == (c.voice_prompts is Some));
    assert(has_feature_spec(c, "cnc"@) == (c.cnc is Some));
    assert(has_feature_spec(c, "eq"@) == (c.eq is Some));
    assert(has_feature_spec(c, "buttons"@) == (c.buttons is Some));
    assert(has_feature_spec(c, "multipoint"@) == (c.multipoint is Some));
    assert(has_feature_spec(c, "sidetone"@) == (c.sidetone is Some));
    assert(has_feature_spec(c, "auto_pause"@) == (c.auto_pause is Some));
    assert(has_feature_spec(c, "auto_answer"@) == (c.auto_answer is Some));
    assert(has_feature_spec(c, "anr"@) == (c.anr is Some));
    assert(has_feature_spec(c, "source"@) == (c.source is Some));
}

/// A dialogue that never fails: `r`, with `dflt` in place of an error.
pub open spec fn or_else<V>(r: Run<V>, dflt: V) -> Run<V> {
    (
        r.0,
        Ok(
            match r.1 {
                Ok(v) => v,
                Err(_) => dflt,
            },
        ),
    )
}

/// The current mode's index and name.
pub open spec fn mode_and_name_run(c: DeviceConfig, rs: Seq<Reply>) -> Run<(u8, Seq<char>)> {
    then(
        mode_idx_run(c, rs),
        rs,
        |idx: u8, rest: Seq<Reply>|
            then(mode_name_run(c, idx, rest), rest, |n: Seq<char>, r2: Seq<Reply>| done(Ok((idx, n)))),
    )
}

/// A status with every field at its default.
pub open spec fn blank_status() -> DeviceStatusView {
    DeviceStatusView {
        battery: 0,
        mode: Seq::empty(),
        mode_idx: 0,
        cnc_level: 0,
        cnc_max: 10,
        eq: Seq::empty(),
        name: Seq::empty(),
        firmware: Seq::empty(),
        sidetone: Seq::empty(),
        multipoint: false,
        auto_pause: false,
        prompts_enabled: false,
        prompts_language: Seq::empty(),
    }
}

/// Full device status: mode (index and name), CNC, prompts, battery, EQ,
/// name, firmware, sidetone, multipoint and auto-pause are read in this
/// order. Only the battery is required: its error ends the dialogue; any
/// other read that fails leaves its default (mode 0 with an empty name,
/// CNC 0/10, prompts off in "Unknown", no bands, empty texts, sidetone
/// "off", multipoint and auto-pause off).
pub open spec fn status_run(c: DeviceConfig, rs: Seq<Reply>) -> Run<DeviceStatusView> {
    then(
        or_else(mode_and_name_run(c, rs), (0u8, Seq::<char>::empty())),
        rs,
        |v: (u8, Seq<char>), r: Seq<Reply>|
            status_cnc(c, DeviceStatusView { mode_idx: v.0, mode: v.1, ..blank_status() }, r),
    )
}

/// Status, continued from `s`: CNC, 0/10 when it cannot be read.
pub open spec fn status_cnc(c: DeviceConfig, s: DeviceStatusView, rs: Seq<Reply>) -> Run<DeviceStatusView> {
    then(or_else(cnc_run(c, rs), (0u8, 10u8)), rs, |v: (u8, u8), r: Seq<Reply>| status_prompts(c, DeviceStatusView { cnc_level: v.0, cnc_max: v.1, ..s }, r))
}

/// Status, continued from `s`: voice prompts, off in "Unknown" when they cannot be read.
pub open spec fn status_prompts(c: DeviceConfig, s: DeviceStatusView, rs: Seq<Reply>) -> Run<DeviceStatusView> {
    then(or_else(prompts_run(c, rs), (false, "Unknown"@)), rs, |v: (bool, Seq<char>), r: Seq<Reply>| status_battery(c, DeviceStatusView { prompts_enabled: v.0, prompts_language: v.1, ..s }, r))
}

/// Status, continued from `s`: the battery, whose error ends the dialogue.
pub open spec fn status_battery(c: DeviceConfig, s: DeviceStatusView, rs: Seq<Reply>) -> Run<DeviceStatusView> {
    then(battery_run(c, rs), rs, |v: u8, r: Seq<Reply>| status_eq(c, DeviceStatusView { battery: v, ..s }, r))
}

/// Status, continued from `s`: the EQ bands, none when they cannot be read.
pub open spec fn status_eq(c: DeviceConfig, s: DeviceStatusView, rs: Seq<Reply>) -> Run<DeviceStatusView> {
    then(or_else(eq_run(c, rs), Seq::<EqBand>::empty()), rs, |v: Seq<EqBand>, r: Seq<Reply>| status_name(c, DeviceStatusView { eq: v, ..s }, r))
}

/// Status, continued from `s`: the name, empty when it cannot be read.
pub open spec fn status_name(c: DeviceConfig, s: DeviceStatusView, rs: Seq<Reply>) -> Run<DeviceStatusView> {
    then(or_else(name_run(c, rs), Seq::<char>::empty()), rs, |v: Seq<char>, r: Seq<Reply>| status_firmware(c, DeviceStatusView { name: v, ..s }, r))
}

/// Status, continued from `s`: the firmware version, empty when it cannot be read.
pub open spec fn status_firmware(c: DeviceConfig, s: DeviceStatusView, rs: Seq<Reply>) -> Run<DeviceStatusView> {
    then(or_else(firmware_run(c, rs), Seq::<char>::empty()), rs, |v: Seq<char>, r: Seq<Reply>| status_sidetone(c, DeviceStatusView { firmware: v, ..s }, r))
}

/// Status, continued from `s`: the sidetone, "off" when it cannot be read.
pub open spec fn status_sidetone(c: DeviceConfig, s: DeviceStatusView, rs: Seq<Reply>) -> Run<DeviceStatusView> {
    then(or_else(sidetone_run(c, rs), "off"@), rs, |v: Seq<char>, r: Seq<Reply>| status_multipoint(c, DeviceStatusView { sidetone: v, ..s }, r))
}

/// Status, continued from `s`: multipoint, off when it cannot be read.
pub open spec fn status_multipoint(c: DeviceConfig, s: DeviceStatusView, rs: Seq<Reply>) -> Run<DeviceStatusView> {
    then(or_else(multipoint_run(c, rs), false), rs, |v: bool, r: Seq<Reply>| status_auto_pause(c, DeviceStatusView { multipoint: v, ..s }, r))
}

/// Status, continued from `s`: auto-pause, off when it cannot be read.
pub open spec fn status_auto_pause(c: DeviceConfig, s: DeviceStatusView, rs: Seq<Reply>) -> Run<DeviceStatusView> {
    then(or_else(auto_pause_run(c, rs), false), rs, |v: bool, r: Seq<Reply>| done(Ok(DeviceStatusView { auto_pause: v, ..s })))
}


/// 1 for true, 0 for false.
pub open spec fn b2u(b: bool) -> u8 {
    if b { 1 } else { 0 }
}

/// Byte `i` of `p`, or `d` when `p` is shorter.
pub open spec fn byte_or(p: Seq<u8>, i: int, d: u8) -> u8 {
    if 0 <= i < p.len() { p[i] } else { d }
}

/// The value in an option, or `d`.
pub open spec fn opt_or<V>(o: Option<V>, d: V) -> V {
    match o {
        Some(v) => v,
        None => d,
    }
}

/// Write to a feature: fail if the device lacks it, else send `op` with
/// `payload` and check the response, which is otherwise discarded.
pub open spec fn write_run(c: DeviceConfig, f: Option<Addr>, op: Operator, payload: Seq<u8>, rs: Seq<Reply>) -> Run<()> {
    match feature(c, f) {
        Err(e) => done(Err(e)),
        Ok(a) => then(call_run(a, op, payload, rs), rs, |r: ResponseView, rest: Seq<Reply>| done(Ok(()))),
    }
}

/// A SETGET whose reply is not read: only a transport error counts.
pub open spec fn raw_run(a: Addr, payload: Seq<u8>, rs: Seq<Reply>) -> Run<()> {
    step(
        req(a, Operator::SetGet, payload),
        rs,
        |rep: Reply|
            match rep {
                Err(e) => Err(e),
                Ok(_) => Ok(()),
            },
    )
}

/// Whether some response in a list is a STATUS.
pub open spec fn has_status(rs: Seq<ResponseView>) -> bool {
    exists|i: int| 0 <= i < rs.len() && (#[trigger] rs[i]).op == Operator::Status
}

/// Write a mode configuration: SETGET [mode_config] with the device's
/// ModeConfig payload for these fields (the name as its UTF-8 bytes), the
/// reply drained; it succeeds when some STATUS comes back.
pub open spec fn write_mode_run(
    c: DeviceConfig,
    slot: u8,
    name: Seq<char>,
    cnc_level: u8,
    spatial: u8,
    wind_block: bool,
    anc_toggle: bool,
    prompt_b1: u8,
    prompt_b2: u8,
    rs: Seq<Reply>,
) -> Run<()> {
    match feature(c, c.mode_config) {
        Err(e) => done(Err(e)),
        Ok(a) => match c.build_mode_config {
            None => done(Err(ErrorView::Unsupported("Device has no mode config builder"@))),
            Some(f) => step(
                (
                    packet_spec(
                        a.0,
                        a.1,
                        Operator::SetGet,
                        mode_config_build_spec(
                            f,
                            slot,
                            encode_utf8(name),
                            cnc_level,
                            spatial,
                            wind_block,
                            anc_toggle,
                            prompt_b1,
                            prompt_b2,
                        ),
                    ),
                    true,
                ),
                rs,
                |rep: Reply|
                    match rep {
                        Err(e) => Err(e),
                        Ok(d) => if has_status(parse_all_spec(d)) {
                            Ok(())
                        } else {
                            Err(ErrorView::Device { message: "Mode config write failed"@, code: 0 })
                        },
                    },
            ),
        },
    }
}

/// The current mode's configuration: its index, then all configurations,
/// then the first with that index.
pub open spec fn current_mode_config_run(c: DeviceConfig, rs: Seq<Reply>) -> Run<ModeConfigView> {
    then(
        mode_idx_run(c, rs),
        rs,
        |idx: u8, r1: Seq<Reply>|
            then(
                modes_run(c, r1),
                r1,
                |ms: Seq<ModeConfigView>, r2: Seq<Reply>|
                    done(
                        match mode_with_idx(ms, idx, 0) {
                            Some(m) => Ok(m),
                            None => Err(ErrorView::Device { message: "Current mode config not available"@, code: 0 }),
                        },
                    ),
            ),
    )
}

/// Change the current mode's stored configuration: refuse an ANC change
/// when the layout has no ANC toggle; read the current configuration; refuse
/// a mode that is not editable; write it back with the given fields changed.
pub open spec fn update_mode_config_run(
    c: DeviceConfig,
    cnc: Option<u8>,
    spatial: Option<u8>,
    wind: Option<bool>,
    anc: Option<bool>,
    rs: Seq<Reply>,
) -> Run<()> {
    if anc is Some && !c.supports_anc_toggle {
        done(Err(ErrorView::Unsupported("Device does not expose an ANC on/off toggle"@)))
    } else {
        then(
            current_mode_config_run(c, rs),
            rs,
            |mc: ModeConfigView, rest: Seq<Reply>|
                if !mc.editable {
                    done(
                        Err(
                            ErrorView::Unsupported(
                                "Current mode '"@ + mc.name + "' is not editable on this device"@,
                            ),
                        ),
                    )
                } else {
                    write_mode_run(
                        c,
                        mc.mode_idx,
                        mc.name,
                        opt_or(cnc, mc.cnc_level),
                        opt_or(spatial, mc.spatial),
                        opt_or(wind, mc.wind_block),
                        opt_or(anc, mc.anc_toggle),
                        mc.prompt_b1,
                        mc.prompt_b2,
                        rest,
                    )
                },
        )
    }
}

/// The five-byte AudioModesSettingsConfig payload: the given fields, the
/// others as read (`cur`); missing bytes read as 0 for CNC, auto-CNC and
/// spatial, and as 1 for wind block and ANC.
pub open spec fn settings_payload(
    cur: Seq<u8>,
    cnc: Option<u8>,
    spatial: Option<u8>,
    wind: Option<bool>,
    anc: Option<bool>,
) -> Seq<u8> {
    seq![
        opt_or(cnc, byte_or(cur, 0, 0)),
        byte_or(cur, 1, 0),
        opt_or(spatial, byte_or(cur, 2, 0)),
        match wind { Some(b) => b2u(b), None => byte_or(cur, 3, 1) },
        match anc { Some(b) => b2u(b), None => byte_or(cur, 4, 1) },
    ]
}

/// Change live audio settings: read-modify-write of [audio_settings] when
/// the device has it, else a change of the current mode's configuration.
pub open spec fn update_settings_run(
    c: DeviceConfig,
    cnc: Option<u8>,
    spatial: Option<u8>,
    wind: Option<bool>,
    anc: Option<bool>,
    rs: Seq<Reply>,
) -> Run<()> {
    match c.audio_settings {
        Some(a) => then(
            get_run(a, rs),
            rs,
            |cur: Seq<u8>, r1: Seq<Reply>|
                then(
                    call_run(a, Operator::SetGet, settings_payload(cur, cnc, spatial, wind, anc), r1),
                    r1,
                    |r: ResponseView, r2: Seq<Reply>| done(Ok(())),
                ),
        ),
        None => update_mode_config_run(c, cnc, spatial, wind, anc, rs),
    }
}

/// Current audio settings `(cnc, auto_cnc, spatial, wind, anc)`: from
/// [audio_settings] when the device has it (missing bytes as in
/// [`settings_payload`]), else from the current mode's configuration.
pub open spec fn audio_settings_run(c: DeviceConfig, rs: Seq<Reply>) -> Run<(u8, u8, u8, u8, u8)> {
    match c.audio_settings {
        Some(a) => then(
            get_run(a, rs),
            rs,
            |p: Seq<u8>, r1: Seq<Reply>|
                done(Ok((byte_or(p, 0, 0), byte_or(p, 1, 0), byte_or(p, 2, 0), byte_or(p, 3, 1), byte_or(p, 4, 1)))),
        ),
        None => then(
            current_mode_config_run(c, rs),
            rs,
            |mc: ModeConfigView, r1: Seq<Reply>|
                done(Ok((mc.cnc_level, 0u8, mc.spatial, b2u(mc.wind_block), b2u(mc.anc_toggle)))),
        ),
    }
}

/// The ANR code of a level name.
pub open spec fn anr_code(l: Seq<char>) -> Option<u8> {
    if l == "off"@ { Some(0) }
    else if l == "high"@ { Some(1) }
    else if l == "wind"@ { Some(2) }
    else if l == "low"@ { Some(3) }
    else { None }
}

/// The sidetone code of a level name.
pub open spec fn sidetone_code(l: Seq<char>) -> Option<u8> {
    if l == "off"@ { Some(0) }
    else if l == "high"@ { Some(1) }
    else if l == "medium"@ || l == "med"@ { Some(2) }
    else if l == "low"@ { Some(3) }
    else { None }
}

/// The spatial audio code of a mode name.
pub open spec fn spatial_code(m: Seq<char>) -> Option<u8> {
    if m == "off"@ { Some(0) }
    else if m == "room"@ { Some(1) }
    else if m == "head"@ { Some(2) }
    else { None }
}

/// Every sidetone level accepted for writing reads back as that level, with
/// "med" read back as "medium".
pub proof fn lemma_sidetone_code_reads_back(l: Seq<char>)
    requires
        sidetone_code(l) is Some,
    ensures
        sidetone_spec(seq![1u8, sidetone_code(l).unwrap()])@ == (if l == "med"@ { "medium"@ } else { l }),
{
    reveal_strlit("off");
    reveal_strlit("high");
    reveal_strlit("medium");
    reveal_strlit("med");
    reveal_strlit("low");
    assert("off"@.len() == 3 && "med"@.len() == 3 && "low"@.len() == 3);
    assert("high"@.len() == 4 && "medium"@.len() == 6);
    assert("off"@[0] != "med"@[0] && "off"@[0] != "low"@[0] && "med"@[0] != "low"@[0]);
    let p = seq![1u8, sidetone_code(l).unwrap()];
    if l == "off"@ {
        assert(sidetone_spec(p) == "off");
    } else if l == "high"@ {
        assert(sidetone_spec(p) == "high");
    } else if l == "medium"@ || l == "med"@ {
        assert(sidetone_spec(p) == "medium");
    } else {
        assert(l == "low"@);
        assert(sidetone_spec(p) == "low");
    }
}

/// Toggling voice prompts keeps the language: the byte written reads back as
/// the requested state and the language that was read before.
pub proof fn lemma_prompt_byte_keeps_language(enabled: bool, p: Seq<u8>)
    requires
        p.len() > 0,
    ensures
        voice_prompts_spec(seq![prompt_byte(enabled, p)]) == (enabled, voice_prompts_spec(p).1),
{
    let l = p[0] % 32;
    let b = prompt_byte(enabled, p);
    assert(b == (if enabled { 32int } else { 0int }) + l);
    assert(b / 32 == (if enabled { 1int } else { 0int }));
    assert(b % 32 == l);
}

/// Set ANR: feature check, level check, then SETGET [anr] `[code]`.
pub open spec fn set_anr_run(c: DeviceConfig, level: Seq<char>, rs: Seq<Reply>) -> Run<()> {
    match feature(c, c.anr) {
        Err(e) => done(Err(e)),
        Ok(a) => match anr_code(level) {
            None => done(Err(ErrorView::InvalidArg("ANR: off, high, wind, low"@))),
            Some(v) => write_run(c, c.anr, Operator::SetGet, seq![v], rs),
        },
    }
}

/// Set sidetone: feature check, level check, then SETGET [sidetone] `[1, code]`.
pub open spec fn set_sidetone_run(c: DeviceConfig, level: Seq<char>, rs: Seq<Reply>) -> Run<()> {
    match feature(c, c.sidetone) {
        Err(e) => done(Err(e)),
        Ok(a) => match sidetone_code(level) {
            None => done(Err(ErrorView::InvalidArg("Sidetone: off, low, medium, high"@))),
            Some(v) => write_run(c, c.sidetone, Operator::SetGet, seq![1u8, v], rs),
        },
    }
}

/// Set CNC: a level above 10 is refused; a device that takes CNC directly
/// gets SETGET [cnc] `[level, 1]`; otherwise the live settings change.
pub open spec fn set_cnc_run(c: DeviceConfig, level: u8, rs: Seq<Reply>) -> Run<()> {
    if level > 10 {
        done(Err(ErrorView::InvalidArg("CNC level must be 0-10"@)))
    } else if c.cnc_direct_setget && c.cnc is Some {
        write_run(c, c.cnc, Operator::SetGet, seq![level, 1u8], rs)
    } else {
        update_settings_run(c, Some(level), None, None, None, rs)
    }
}

/// Set spatial audio: an unknown mode is refused; otherwise the live settings change.
pub open spec fn set_spatial_run(c: DeviceConfig, mode: Seq<char>, rs: Seq<Reply>) -> Run<()> {
    match spatial_code(mode) {
        None => done(Err(ErrorView::InvalidArg("Spatial: off, room, head"@))),
        Some(v) => update_settings_run(c, None, Some(v), None, None, rs),
    }
}

/// Turn the ANC on or off: a change of the live settings.
pub open spec fn set_anc_run(c: DeviceConfig, enabled: bool, rs: Seq<Reply>) -> Run<()> {
    update_settings_run(c, None, None, None, Some(enabled), rs)
}

/// Turn the wind block on or off: a change of the live settings.
pub open spec fn set_wind_run(c: DeviceConfig, enabled: bool, rs: Seq<Reply>) -> Run<()> {
    update_settings_run(c, None, None, Some(enabled), None, rs)
}

/// The voice prompt byte: bit 5 for enabled, the language (low five bits) kept from `p`.
pub open spec fn prompt_byte(enabled: bool, p: Seq<u8>) -> u8 {
    ((if enabled { 32int } else { 0int }) + (if p.len() > 0 { p[0] % 32 } else { 0 })) as u8
}

/// Toggle voice prompts: GET [voice_prompts], then SETGET it with the new bit and the same language.
pub open spec fn set_prompts_run(c: DeviceConfig, enabled: bool, rs: Seq<Reply>) -> Run<()> {
    match feature(c, c.voice_prompts) {
        Err(e) => done(Err(e)),
        Ok(a) => then(
            get_run(a, rs),
            rs,
            |p: Seq<u8>, r1: Seq<Reply>|
                then(
                    call_run(a, Operator::SetGet, seq![prompt_byte(enabled, p)], r1),
                    r1,
                    |r: ResponseView, r2: Seq<Reply>| done(Ok(())),
                ),
        ),
    }
}

/// The init exchange a device needs before it answers: none without an init
/// packet; otherwise a GET of the init address, whose reply counts only as
/// a transport error.
pub open spec fn init_run(c: DeviceConfig, rs: Seq<Reply>) -> Run<()> {
    match c.init_packet {
        None => done(Ok(())),
        Some(a) => step(
            req(a, Operator::Get, Seq::empty()),
            rs,
            |rep: Reply|
                match rep {
                    Err(e) => Err(e),
                    Ok(_) => Ok(()),
                },
        ),
    }
}

/// Whether a reply to the firmware GET [0.5] comes from a BMAP peer: it
/// parses, and echoes the address asked with a STATUS.
pub open spec fn speaks_bmap_reply(rep: Reply) -> bool {
    match rep {
        Ok(d) => match parse_response_spec(d) {
            Some(r) => r.fblock == 0 && r.func == 5 && r.op == Operator::Status,
            None => false,
        },
        Err(_) => false,
    }
}

/// Confirming that a channel speaks BMAP: the init exchange, then a firmware
/// GET [0.5]; a failed init answers `false` at once.
pub open spec fn probe_run(c: DeviceConfig, rs: Seq<Reply>) -> Run<bool> {
    let init = init_run(c, rs);
    match init.1 {
        Err(_) => (init.0, Ok(false)),
        Ok(_) => then(
            init,
            rs,
            |u: (), rest: Seq<Reply>|
                step(req(Addr(0, 5), Operator::Get, Seq::empty()), rest, |rep: Reply| Ok(speaks_bmap_reply(rep))),
        ),
    }
}

/// Whether an EQ value is in -10..=10.
pub open spec fn eq_value_ok(v: i8) -> bool {
    -10 <= v <= 10
}

/// Set EQ: values out of -10..=10 are refused, then the feature is checked;
/// then SETGET [eq] `[value, band]` for bass (0), mid (1), treble (2), in
/// order, stopping at the first transport error. The replies are not read.
pub open spec fn set_eq_run(c: DeviceConfig, bass: i8, mid: i8, treble: i8, rs: Seq<Reply>) -> Run<()> {
    if !(eq_value_ok(bass) && eq_value_ok(mid) && eq_value_ok(treble)) {
        done(Err(ErrorView::InvalidArg("EQ values must be -10 to +10"@)))
    } else {
        match feature(c, c.eq) {
            Err(e) => done(Err(e)),
            Ok(a) => then(
                raw_run(a, seq![bass as u8, 0u8], rs),
                rs,
                |u1: (), r1: Seq<Reply>|
                    then(
                        raw_run(a, seq![mid as u8, 1u8], r1),
                        r1,
                        |u2: (), r2: Seq<Reply>| raw_run(a, seq![treble as u8, 2u8], r2),
                    ),
            ),
        }
    }
}

/// Remap a button: SETGET [buttons] `[button, event, action]`; the reply
/// must parse as a mapping, which is returned.
pub open spec fn set_buttons_run(c: DeviceConfig, b: u8, e: u8, act: u8, rs: Seq<Reply>) -> Run<ButtonMapping> {
    match feature(c, c.buttons) {
        Err(err) => done(Err(err)),
        Ok(a) => then(
            call_run(a, Operator::SetGet, seq![b, e, act], rs),
            rs,
            |r: ResponseView, rest: Seq<Reply>|
                done(
                    match buttons_spec(r.payload) {
                        Some(m) => Ok(m),
                        None => Err(ErrorView::Device { message: "Could not parse button remap response"@, code: 0 }),
                    },
                ),
        ),
    }
}

/// Route audio to a paired device: feature check, MAC check, then START [routing].
pub open spec fn route_run(c: DeviceConfig, mac: Seq<char>, rs: Seq<Reply>) -> Run<()> {
    match feature(c, c.routing) {
        Err(e) => done(Err(e)),
        Ok(a) => match routing_spec(mac) {
            Err(m) => done(Err(ErrorView::InvalidArg(m))),
            Ok(p) => write_run(c, c.routing, Operator::Start, p, rs),
        },
    }
}

/// The first preset from position `i` on whose name matches (ignoring ASCII case).
pub open spec fn preset_named(ps: Seq<(&'static str, PresetMode)>, name: Seq<char>, i: int) -> Option<u8>
    decreases ps.len() - i,
{
    if i < 0 || i >= ps.len() {
        None
    } else if eq_ignore_case_spec(ps[i].0@, name) {
        Some(ps[i].1.idx)
    } else {
        preset_named(ps, name, i + 1)
    }
}

/// The first mode configuration from position `i` on whose name matches (ignoring ASCII case).
pub open spec fn mode_named(ms: Seq<ModeConfigView>, name: Seq<char>, i: int) -> Option<ModeConfigView>
    decreases ms.len() - i,
{
    if i < 0 || i >= ms.len() {
        None
    } else if eq_ignore_case_spec(ms[i].name, name) {
        Some(ms[i])
    } else {
        mode_named(ms, name, i + 1)
    }
}

/// The index of the mode a name selects: a preset's, else a profile's
/// (after reading all configurations), else an unknown-mode error.
pub open spec fn mode_index_run(c: DeviceConfig, name: Seq<char>, rs: Seq<Reply>) -> Run<u8> {
    match preset_named(c.preset_modes@, name, 0) {
        Some(i) => done(Ok(i)),
        None => then(
            modes_run(c, rs),
            rs,
            |ms: Seq<ModeConfigView>, r1: Seq<Reply>|
                done(
                    match mode_named(ms, name, 0) {
                        Some(m) => Ok(m.mode_idx),
                        None => Err(ErrorView::InvalidArg("Unknown mode: "@ + name)),
                    },
                ),
        ),
    }
}

/// Switch mode: feature check, the mode's index, then START [current_mode]
/// `[index, announce]`; the answer must be a RESULT, or a PROCESSING from
/// devices that apply the switch asynchronously.
pub open spec fn set_mode_run(c: DeviceConfig, name: Seq<char>, announce: bool, rs: Seq<Reply>) -> Run<()> {
    match feature(c, c.current_mode) {
        Err(e) => done(Err(e)),
        Ok(a) => then(
            mode_index_run(c, name, rs),
            rs,
            |idx: u8, r1: Seq<Reply>|
                step(
                    req(a, Operator::Start, seq![idx, b2u(announce)]),
                    r1,
                    |rep: Reply|
                        match checked(rep, "No response"@) {
                            Err(e) => Err(e),
                            Ok(r) => if r.op != Operator::Result && r.op != Operator::Processing {
                                Err(ErrorView::Device { message: "Mode switch failed"@, code: 0 })
                            } else {
                                Ok(())
                            },
                        },
                ),
        ),
    }
}

/// Whether a slot is free: no configuration has that index, or the first
/// that has it is unconfigured and named "none" (any case) or nothing.
pub open spec fn slot_free(ms: Seq<ModeConfigView>, slot: u8) -> bool {
    match mode_with_idx(ms, slot, 0) {
        None => true,
        Some(m) => !m.configured && (eq_ignore_case_spec(m.name, "none"@) || m.name.len() == 0),
    }
}

/// The first free editable slot from position `i` on.
pub open spec fn free_slot(slots: Seq<u8>, ms: Seq<ModeConfigView>, i: int) -> Option<u8>
    decreases slots.len() - i,
{
    if i < 0 || i >= slots.len() {
        None
    } else if slot_free(ms, slots[i]) {
        Some(slots[i])
    } else {
        free_slot(slots, ms, i + 1)
    }
}

/// Create a profile: read all configurations, take the first free editable
/// slot, write the profile there (prompt bytes 0) and return the slot.
pub open spec fn create_profile_run(
    c: DeviceConfig,
    name: Seq<char>,
    cnc_level: u8,
    spatial: u8,
    wind_block: bool,
    anc_toggle: bool,
    rs: Seq<Reply>,
) -> Run<u8> {
    then(
        modes_run(c, rs),
        rs,
        |ms: Seq<ModeConfigView>, r1: Seq<Reply>|
            match free_slot(c.editable_slots@, ms, 0) {
                None => done(Err(ErrorView::Device { message: "No free profile slot available"@, code: 0 })),
                Some(slot) => then(
                    write_mode_run(c, slot, name, cnc_level, spatial, wind_block, anc_toggle, 0, 0, r1),
                    r1,
                    |u: (), r2: Seq<Reply>| done(Ok(slot)),
                ),
            },
    )
}

/// Delete a profile: read all configurations, find the first with the name
/// (ignoring ASCII case), refuse a preset, and overwrite it with an empty
/// profile named "None".
pub open spec fn delete_profile_run(c: DeviceConfig, name: Seq<char>, rs: Seq<Reply>) -> Run<()> {
    then(
        modes_run(c, rs),
        rs,
        |ms: Seq<ModeConfigView>, r1: Seq<Reply>|
            match mode_named(ms, name, 0) {
                None => done(Err(ErrorView::InvalidArg("Profile '"@ + name + "' not found"@))),
                Some(m) => if !m.editable {
                    done(Err(ErrorView::InvalidArg("Cannot delete preset '"@ + name + "'"@)))
                } else {
                    write_mode_run(c, m.mode_idx, "None"@, 0, 0, false, false, 0, 0, r1)
                },
            },
    )
}

proof fn lemma_one_exchange(h0: Seq<Exchange>, e: Exchange)
    ensures
        extends(h0, h0.push(e)),
        since(h0, h0.push(e)) == seq![e],
        requests_of(since(h0, h0.push(e))) == seq![(e.0, e.1)],
        replies_of(since(h0, h0.push(e))) == seq![e.2],
{
    assert(h0.push(e).take(h0.len() as int) =~= h0);
    assert(since(h0, h0.push(e)) =~= seq![e]);
    assert(requests_of(seq![e]) =~= seq![(e.0, e.1)]);
    assert(replies_of(seq![e]) =~= seq![e.2]);
}

proof fn lemma_chain(h0: Seq<Exchange>, h1: Seq<Exchange>, h2: Seq<Exchange>)
    requires
        extends(h0, h1),
        extends(h1, h2),
    ensures
        extends(h0, h2),
        made(h0, h2) == made(h0, h1) + made(h1, h2),
        made(h0, h1).len() == since(h0, h1).len(),
        forall|more: Seq<Reply>| #[trigger] seen(h0, h2, more) == seen(h0, h1, seen(h1, h2, more)),
        forall|more: Seq<Reply>|
            #[trigger] seen(h0, h1, seen(h1, h2, more)).skip(made(h0, h1).len() as int) == seen(h1, h2, more),
{
    assert(h2.take(h0.len() as int) =~= h0) by {
        assert(h2.take(h1.len() as int).take(h0.len() as int) =~= h2.take(h0.len() as int));
    }
    assert(since(h0, h2) =~= since(h0, h1) + since(h1, h2));
    assert(made(h0, h2) =~= made(h0, h1) + made(h1, h2));
    assert forall|more: Seq<Reply>| #[trigger] seen(h0, h2, more) == seen(h0, h1, seen(h1, h2, more)) by {
        assert(replies_of(since(h0, h2)) =~= replies_of(since(h0, h1)) + replies_of(since(h1, h2)));
        assert(seen(h0, h2, more) =~= seen(h0, h1, seen(h1, h2, more)));
    }
    assert forall|more: Seq<Reply>|
        #[trigger] seen(h0, h1, seen(h1, h2, more)).skip(made(h0, h1).len() as int) == seen(h1, h2, more) by {
        assert(seen(h0, h1, seen(h1, h2, more)).skip(made(h0, h1).len() as int) =~= seen(h1, h2, more));
    }
}

proof fn lemma_no_exchange(h0: Seq<Exchange>)
    ensures
        extends(h0, h0),
        since(h0, h0) == Seq::<Exchange>::empty(),
        requests_of(since(h0, h0)) == Seq::<Req>::empty(),
        replies_of(since(h0, h0)) == Seq::<Reply>::empty(),
{
    assert(h0.take(h0.len() as int) =~= h0);
    assert(since(h0, h0) =~= Seq::<Exchange>::empty());
    assert(requests_of(since(h0, h0)) =~= Seq::<Req>::empty());
    assert(replies_of(since(h0, h0)) =~= Seq::<Reply>::empty());
}

/// High-level connection to a BMAP device.
pub struct BmapConnection<T: Transport> {
    transport: T,
    config: DeviceConfig,
    /// Every exchange made over the transport, oldest first.
    log: Ghost<Seq<Exchange>>,
}

impl<T: Transport> BmapConnection<T> {
    /// The exchanges made over this connection's transport: each packet sent,
    /// whether its reply was drained, and the reply received.
    pub closed spec fn history(&self) -> Seq<Exchange> {
        self.log@
    }

    /// The device configuration of this connection.
    pub closed spec fn device(&self) -> DeviceConfig {
        self.config
    }

    /// The transport this connection runs over.
    pub closed spec fn link(&self) -> T {
        self.transport
    }

    /// Create a connection from a transport and device config.
    pub fn new(transport: T, config: DeviceConfig) -> (r: Self)
        ensures
            r.device() == config,
            r.link() == transport,
            r.history() == Seq::<Exchange>::empty(),
    {
        Self { transport, config, log: Ghost(Seq::empty()) }
    }

    /// Device configuration.
    pub fn config(&self) -> (c: &DeviceConfig)
        ensures
            *c == self.device(),
    {
        &self.config
    }

    /// The transport the connection runs over.
    pub fn transport(&self) -> (t: &T)
        ensures
            *t == self.link(),
    {
        &self.transport
    }

    /// One exchange over the transport, recorded in the history.
    fn exchange(&mut self, packet: &[u8], drain: bool) -> (r: BmapResult<Vec<u8>>)
        ensures
            final(self).device() == old(self).device(),
            final(self).link() == old(self).link(),
            final(self).history() == old(self).history().push((packet@, drain, res_view(r))),
    {
        let r = if drain {
            self.transport.send_recv_drain(packet)
        } else {
            self.transport.send_recv(packet)
        };
        self.log = Ghost(self.log@.push((packet@, drain, res_view(r))));
        r
    }

    // ── Helpers ─────────────────────────────────────────────────────────────

    fn addr(&self, f: Option<Addr>) -> (r: BmapResult<Addr>)
        ensures
            match r {
                Ok(a) => feature(self.device(), f) == Ok::<Addr, ErrorView>(a),
                Err(e) => feature(self.device(), f) == Err::<Addr, ErrorView>(e@),
            },
    {
        match f {
            Some(a) => Ok(a),
            None => Err(BmapError::Unsupported(
                String::from_str(self.config.info.name).concat(" does not support this feature"),
            )),
        }
    }

    fn check_error(resp: &BmapResponse) -> (r: BmapResult<()>)
        ensures
            match r {
                Ok(_) => check_error_spec(resp@) == Ok::<ResponseView, ErrorView>(resp@),
                Err(e) => check_error_spec(resp@) == Err::<ResponseView, ErrorView>(e@),
            },
    {
        if resp.op == Operator::Error && resp.payload.len() > 0 {
            let code = resp.payload[0];
            if code == 5 {
                return Err(BmapError::Auth(resp.fmt()));
            }
            return Err(BmapError::Device { message: resp.fmt(), code });
        }
        Ok(())
    }

    /// Send `op` to `a` with `payload`, and read the reply as one checked response.
    fn call(&mut self, a: Addr, op: Operator, payload: &[u8]) -> (r: BmapResult<BmapResponse>)
        requires
            payload@.len() <= 255,
        ensures
            final(self).device() == old(self).device(),
            final(self).link() == old(self).link(),
            extends(old(self).history(), final(self).history()),
            forall|more: Seq<Reply>|
                #[trigger] call_run(a, op, payload@, seen(old(self).history(), final(self).history(), more))
                    == (made(old(self).history(), final(self).history()), res_view(r)),
    {
        let pkt = bmap_packet(a.0, a.1, op, payload);
        let data = self.exchange(pkt.as_slice(), false);
        proof {
            lemma_one_exchange(old(self).history(), (pkt@, false, res_view(data)));
        }
        let data = match data {
            Ok(d) => d,
            Err(e) => return Err(e),
        };
        let resp = match parse_response(data.as_slice()) {
            Some(r) => r,
            None => return Err(BmapError::Timeout(String::from_str("Empty response"))),
        };
        match Self::check_error(&resp) {
            Ok(_) => Ok(resp),
            Err(e) => Err(e),
        }
    }

    fn get(&mut self, a: Addr) -> (r: BmapResult<Vec<u8>>)
        ensures
            final(self).device() == old(self).device(),
            final(self).link() == old(self).link(),
            extends(old(self).history(), final(self).history()),
            forall|more: Seq<Reply>|
                #[trigger] get_run(a, seen(old(self).history(), final(self).history(), more))
                    == (made(old(self).history(), final(self).history()), res_view(r)),
    {
        let empty: Vec<u8> = Vec::new();
        let resp = self.call(a, Operator::Get, empty.as_slice());
        assert(empty@ =~= Seq::<u8>::empty());
        let r = match resp {
            Ok(r) => Ok(r.payload),
            Err(e) => Err(e),
        };
        assert forall|more: Seq<Reply>|
            #[trigger] get_run(a, seen(old(self).history(), self.history(), more))
                == (made(old(self).history(), self.history()), res_view(r)) by {
            assert(call_run(a, Operator::Get, empty@, seen(old(self).history(), self.history(), more))
                == (made(old(self).history(), self.history()), res_view(resp)));
        }
        r
    }

    // ── Channel set-up ───────────────────────────────────────────────────

    /// Send the device's init packet, if it needs one.
    pub fn send_init(&mut self) -> (r: BmapResult<()>)
        ensures
            final(self).device() == old(self).device(),
            final(self).link() == old(self).link(),
            extends(old(self).history(), final(self).history()),
            forall|more: Seq<Reply>|
                #[trigger] init_run(old(self).device(), seen(old(self).history(), final(self).history(), more))
                    == (made(old(self).history(), final(self).history()), res_view(r)),
    {
        proof { lemma_no_exchange(self.history()); }
        match self.config.init_packet {
            Some(a) => {
                let empty: Vec<u8> = Vec::new();
                let pkt = bmap_packet(a.0, a.1, Operator::Get, empty.as_slice());
                assert(empty@ =~= Seq::<u8>::empty());
                let res = self.exchange(pkt.as_slice(), false);
                proof {
                    lemma_one_exchange(old(self).history(), (pkt@, false, res_view(res)));
                }
                match res {
                    Ok(_) => Ok(()),
                    Err(e) => Err(e),
                }
            },
            None => Ok(()),
        }
    }

    /// Send the init packet if the device needs one, then a firmware GET
    /// [0.5]; true on a reply from a BMAP peer. A socket that accepts a
    /// connection is not proof of BMAP: several channels accept and stay silent.
    pub fn speaks_bmap(&mut self) -> (b: bool)
        ensures
            final(self).device() == old(self).device(),
            final(self).link() == old(self).link(),
            extends(old(self).history(), final(self).history()),
            forall|more: Seq<Reply>|
                #[trigger] probe_run(old(self).device(), seen(old(self).history(), final(self).history(), more))
                    == (made(old(self).history(), final(self).history()), Ok::<bool, ErrorView>(b)),
    {
        let ghost h0 = self.history();
        let init = self.send_init();
        let ghost h1 = self.history();
        if init.is_err() {
            return false;
        }
        let empty: Vec<u8> = Vec::new();
        let pkt = bmap_packet(0, 5, Operator::Get, empty.as_slice());
        assert(empty@ =~= Seq::<u8>::empty());
        let res = self.exchange(pkt.as_slice(), false);
        proof {
            lemma_one_exchange(h1, (pkt@, false, res_view(res)));
            lemma_chain(h0, h1, self.history());
        }
        match res {
            Ok(data) => match parse_response(data.as_slice()) {
                Some(r) => r.fblock == 0 && r.func == 5 && r.op == Operator::Status,
                None => false,
            },
            Err(_) => false,
        }
    }

    // ── Read Operations ─────────────────────────────────────────────────────

    /// Battery percentage.
    pub fn battery(&mut self) -> (r: BmapResult<u8>)
        ensures
            final(self).device() == old(self).device(),
            final(self).link() == old(self).link(),
            extends(old(self).history(), final(self).history()),
            forall|more: Seq<Reply>|
                #[trigger] battery_run(old(self).device(), seen(old(self).history(), final(self).history(), more))
                    == (made(old(self).history(), final(self).history()), res_view(r)),
    {
        let a = match self.addr(self.config.battery) {
            Ok(a) => a,
            Err(e) => {
                proof { lemma_no_exchange(self.history()); }
                return Err(e);
            },
        };
        let payload = match self.get(a) {
            Ok(p) => p,
            Err(e) => return Err(e),
        };
        match parse_battery(payload.as_slice()) {
            Some(b) => Ok(b),
            None => Err(BmapError::Device { message: String::from_str("Empty battery response"), code: 0 }),
        }
    }

    /// Firmware version string.
    pub fn firmware(&mut self) -> (r: BmapResult<String>)
        ensures
            final(self).device() == old(self).device(),
            final(self).link() == old(self).link(),
            extends(old(self).history(), final(self).history()),
            forall|more: Seq<Reply>|
                #[trigger] firmware_run(old(self).device(), seen(old(self).history(), final(self).history(), more))
                    == (made(old(self).history(), final(self).history()), res_view(r)),
    {
        let a = match self.addr(self.config.firmware) {
            Ok(a) => a,
            Err(e) => {
                proof { lemma_no_exchange(self.history()); }
                return Err(e);
            },
        };
        let payload = match self.get(a) {
            Ok(p) => p,
            Err(e) => return Err(e),
        };
        Ok(parse_firmware(payload.as_slice()))
    }

    /// Device Bluetooth name.
    pub fn name(&mut self) -> (r: BmapResult<String>)
        ensures
            final(self).device() == old(self).device(),
            final(self).link() == old(self).link(),
            extends(old(self).history(), final(self).history()),
            forall|more: Seq<Reply>|
                #[trigger] name_run(old(self).device(), seen(old(self).history(), final(self).history(), more))
                    == (made(old(self).history(), final(self).history()), res_view(r)),
    {
        let a = match self.addr(self.config.product_name) {
            Ok(a) => a,
            Err(e) => {
                proof { lemma_no_exchange(self.history()); }
                return Err(e);
            },
        };
        let payload = match self.get(a) {
            Ok(p) => p,
            Err(e) => return Err(e),
        };
        Ok(parse_product_name(payload.as_slice()))
    }

    /// Current audio mode index.
    pub fn mode_idx(&mut self) -> (r: BmapResult<u8>)
        ensures
            final(self).device() == old(self).device(),
            final(self).link() == old(self).link(),
            extends(old(self).history(), final(self).history()),
            forall|more: Seq<Reply>|
                #[trigger] mode_idx_run(old(self).device(), seen(old(self).history(), final(self).history(), more))
                    == (made(old(self).history(), final(self).history()), res_view(r)),
    {
        let a = match self.addr(self.config.current_mode) {
            Ok(a) => a,
            Err(e) => {
                proof { lemma_no_exchange(self.history()); }
                return Err(e);
            },
        };
        let payload = match self.get(a) {
            Ok(p) => p,
            Err(e) => return Err(e),
        };
        if payload.len() > 0 {
            Ok(payload[0])
        } else {
            Err(BmapError::Device { message: String::from_str("Empty mode response"), code: 0 })
        }
    }

    /// Noise cancellation (current, max) tuple.
    pub fn cnc(&mut self) -> (r: BmapResult<(u8, u8)>)
        ensures
            final(self).device() == old(self).device(),
            final(self).link() == old(self).link(),
            extends(old(self).history(), final(self).history()),
            forall|more: Seq<Reply>|
                #[trigger] cnc_run(old(self).device(), seen(old(self).history(), final(self).history(), more))
                    == (made(old(self).history(), final(self).history()), res_view(r)),
    {
        let a = match self.addr(self.config.cnc) {
            Ok(a) => a,
            Err(e) => {
                proof { lemma_no_exchange(self.history()); }
                return Err(e);
            },
        };
        let payload = match self.get(a) {
            Ok(p) => p,
            Err(e) => return Err(e),
        };
        Ok(parse_cnc(payload.as_slice()))
    }

    /// EQ bands.
    pub fn eq(&mut self) -> (r: BmapResult<Vec<EqBand>>)
        ensures
            final(self).device() == old(self).device(),
            final(self).link() == old(self).link(),
            extends(old(self).history(), final(self).history()),
            forall|more: Seq<Reply>|
                #[trigger] eq_run(old(self).device(), seen(old(self).history(), final(self).history(), more))
                    == (made(old(self).history(), final(self).history()), res_view(r)),
    {
        let a = match self.addr(self.config.eq) {
            Ok(a) => a,
            Err(e) => {
                proof { lemma_no_exchange(self.history()); }
                return Err(e);
            },
        };
        let payload = match self.get(a) {
            Ok(p) => p,
            Err(e) => return Err(e),
        };
        Ok(parse_eq(payload.as_slice()))
    }

    /// Sidetone level name.
    pub fn sidetone(&mut self) -> (r: BmapResult<&'static str>)
        ensures
            final(self).device() == old(self).device(),
            final(self).link() == old(self).link(),
            extends(old(self).history(), final(self).history()),
            forall|more: Seq<Reply>|
                #[trigger] sidetone_run(old(self).device(), seen(old(self).history(), final(self).history(), more))
                    == (made(old(self).history(), final(self).history()), res_view(r)),
    {
        let a = match self.addr(self.config.sidetone) {
            Ok(a) => a,
            Err(e) => {
                proof { lemma_no_exchange(self.history()); }
                return Err(e);
            },
        };
        let payload = match self.get(a) {
            Ok(p) => p,
            Err(e) => return Err(e),
        };
        Ok(parse_sidetone(payload.as_slice()))
    }

    /// Multipoint enabled.
    pub fn multipoint(&mut self) -> (r: BmapResult<bool>)
        ensures
            final(self).device() == old(self).device(),
            final(self).link() == old(self).link(),
            extends(old(self).history(), final(self).history()),
            forall|more: Seq<Reply>|
                #[trigger] multipoint_run(old(self).device(), seen(old(self).history(), final(self).history(), more))
                    == (made(old(self).history(), final(self).history()), res_view(r)),
    {
        let a = match self.addr(self.config.multipoint) {
            Ok(a) => a,
            Err(e) => {
                proof { lemma_no_exchange(self.history()); }
                return Err(e);
            },
        };
        let payload = match self.get(a) {
            Ok(p) => p,
            Err(e) => return Err(e),
        };
        Ok(parse_multipoint(payload.as_slice()))
    }

    /// Active Noise Reduction mode (QC35: off/high/wind/low).
    pub fn anr(&mut self) -> (r: BmapResult<&'static str>)
        ensures
            final(self).device() == old(self).device(),
            final(self).link() == old(self).link(),
            extends(old(self).history(), final(self).history()),
            forall|more: Seq<Reply>|
                #[trigger] anr_run(old(self).device(), seen(old(self).history(), final(self).history(), more))
                    == (made(old(self).history(), final(self).history()), res_view(r)),
    {
        let a = match self.addr(self.config.anr) {
            Ok(a) => a,
            Err(e) => {
                proof { lemma_no_exchange(self.history()); }
                return Err(e);
            },
        };
        let payload = match self.get(a) {
            Ok(p) => p,
            Err(e) => return Err(e),
        };
        Ok(parse_anr(payload.as_slice()))
    }

    /// Active audio source (none/bluetooth/auxiliary).
    pub fn source(&mut self) -> (r: BmapResult<AudioSource>)
        ensures
            final(self).device() == old(self).device(),
            final(self).link() == old(self).link(),
            extends(old(self).history(), final(self).history()),
            forall|more: Seq<Reply>|
                #[trigger] source_run(old(self).device(), seen(old(self).history(), final(self).history(), more))
                    == (made(old(self).history(), final(self).history()), res_view(r)),
    {
        let a = match self.addr(self.config.source) {
            Ok(a) => a,
            Err(e) => {
                proof { lemma_no_exchange(self.history()); }
                return Err(e);
            },
        };
        let payload = match self.get(a) {
            Ok(p) => p,
            Err(e) => return Err(e),
        };
        Ok(parse_source(payload.as_slice()))
    }

    /// Auto play/pause enabled.
    pub fn auto_pause(&mut self) -> (r: BmapResult<bool>)
        ensures
            final(self).device() == old(self).device(),
            final(self).link() == old(self).link(),
            extends(old(self).history(), final(self).history()),
            forall|more: Seq<Reply>|
                #[trigger] auto_pause_run(old(self).device(), seen(old(self).history(), final(self).history(), more))
                    == (made(old(self).history(), final(self).history()), res_view(r)),
    {
        let a = match self.addr(self.config.auto_pause) {
            Ok(a) => a,
            Err(e) => {
                proof { lemma_no_exchange(self.history()); }
                return Err(e);
            },
        };
        let payload = match self.get(a) {
            Ok(p) => p,
            Err(e) => return Err(e),
        };
        Ok(parse_bool(payload.as_slice()))
    }

    /// Auto-answer calls enabled.
    pub fn auto_answer(&mut self) -> (r: BmapResult<bool>)
        ensures
            final(self).device() == old(self).device(),
            final(self).link() == old(self).link(),
            extends(old(self).history(), final(self).history()),
            forall|more: Seq<Reply>|
                #[trigger] auto_answer_run(old(self).device(), seen(old(self).history(), final(self).history(), more))
                    == (made(old(self).history(), final(self).history()), res_view(r)),
    {
        let a = match self.addr(self.config.auto_answer) {
            Ok(a) => a,
            Err(e) => {
                proof { lemma_no_exchange(self.history()); }
                return Err(e);
            },
        };
        let payload = match self.get(a) {
            Ok(p) => p,
            Err(e) => return Err(e),
        };
        Ok(parse_bool(payload.as_slice()))
    }

    /// Voice prompts (enabled, language_name).
    pub fn prompts(&mut self) -> (r: BmapResult<(bool, &'static str)>)
        ensures
            final(self).device() == old(self).device(),
            final(self).link() == old(self).link(),
            extends(old(self).history(), final(self).history()),
            forall|more: Seq<Reply>|
                #[trigger] prompts_run(old(self).device(), seen(old(self).history(), final(self).history(), more))
                    == (made(old(self).history(), final(self).history()), res_view(r)),
    {
        let a = match self.addr(self.config.voice_prompts) {
            Ok(a) => a,
            Err(e) => {
                proof { lemma_no_exchange(self.history()); }
                return Err(e);
            },
        };
        let payload = match self.get(a) {
            Ok(p) => p,
            Err(e) => return Err(e),
        };
        Ok(parse_voice_prompts(payload.as_slice()))
    }

    /// Button mapping.
    pub fn buttons(&mut self) -> (r: BmapResult<ButtonMapping>)
        ensures
            final(self).device() == old(self).device(),
            final(self).link() == old(self).link(),
            extends(old(self).history(), final(self).history()),
            forall|more: Seq<Reply>|
                #[trigger] buttons_run(old(self).device(), seen(old(self).history(), final(self).history(), more))
                    == (made(old(self).history(), final(self).history()), res_view(r)),
    {
        let a = match self.addr(self.config.buttons) {
            Ok(a) => a,
            Err(e) => {
                proof { lemma_no_exchange(self.history()); }
                return Err(e);
            },
        };
        let payload = match self.get(a) {
            Ok(p) => p,
            Err(e) => return Err(e),
        };
        match parse_buttons(payload.as_slice()) {
            Some(m) => Ok(m),
            None => Err(BmapError::Device { message: String::from_str("Could not parse button config"), code: 0 }),
        }
    }

    /// Send START and drain all async responses.
    pub fn start_drain(&mut self, addr: Addr, payload: &[u8]) -> (r: BmapResult<Vec<BmapResponse>>)
        requires
            payload@.len() <= 255,
        ensures
            final(self).device() == old(self).device(),
            final(self).link() == old(self).link(),
            extends(old(self).history(), final(self).history()),
            forall|more: Seq<Reply>|
                #[trigger] start_drain_run(addr, payload@, seen(old(self).history(), final(self).history(), more))
                    == (made(old(self).history(), final(self).history()), responses_res(r)),
    {
        let pkt = bmap_packet(addr.0, addr.1, Operator::Start, payload);
        let data = self.exchange(pkt.as_slice(), true);
        proof {
            lemma_one_exchange(old(self).history(), (pkt@, true, res_view(data)));
        }
        match data {
            Ok(d) => Ok(parse_all_responses(d.as_slice())),
            Err(e) => Err(e),
        }
    }

    /// Send raw bytes. Returns all responses.
    pub fn send_raw(&mut self, data: &[u8]) -> (r: BmapResult<Vec<BmapResponse>>)
        ensures
            final(self).device() == old(self).device(),
            final(self).link() == old(self).link(),
            extends(old(self).history(), final(self).history()),
            forall|more: Seq<Reply>|
                #[trigger] send_raw_run(data@, seen(old(self).history(), final(self).history(), more))
                    == (made(old(self).history(), final(self).history()), responses_res(r)),
    {
        let resp = self.exchange(data, true);
        proof {
            lemma_one_exchange(old(self).history(), (data@, true, res_view(resp)));
        }
        match resp {
            Ok(d) => Ok(parse_all_responses(d.as_slice())),
            Err(e) => Err(e),
        }
    }

    /// All mode configurations. Returns vec of ModeConfig.
    pub fn modes(&mut self) -> (r: BmapResult<Vec<ModeConfig>>)
        ensures
            final(self).device() == old(self).device(),
            final(self).link() == old(self).link(),
            extends(old(self).history(), final(self).history()),
            forall|more: Seq<Reply>|
                #[trigger] modes_run(old(self).device(), seen(old(self).history(), final(self).history(), more))
                    == (made(old(self).history(), final(self).history()), modes_res(r)),
    {
        proof { lemma_no_exchange(self.history()); }
        let a = match self.addr(self.config.get_all_modes) {
            Ok(a) => a,
            Err(e) => return Err(e),
        };
        let mc = match self.addr(self.config.mode_config) {
            Ok(a) => a,
            Err(e) => return Err(e),
        };
        let layout = match self.config.parse_mode_config {
            Some(l) => l,
            None => return Err(BmapError::Unsupported(String::from_str("Device has no mode config parser"))),
        };
        let empty: Vec<u8> = Vec::new();
        assert(empty@ =~= Seq::<u8>::empty());
        let responses = match self.start_drain(a, empty.as_slice()) {
            Ok(r) => r,
            Err(e) => return Err(e),
        };
        let ghost rv = responses_view(responses@);
        let mut modes: Vec<ModeConfig> = Vec::new();
        let mut i: usize = 0;
        assert(rv.take(0) =~= Seq::<ResponseView>::empty());
        assert(modes@.map_values(|m: ModeConfig| m@) =~= Seq::<ModeConfigView>::empty());
        while i < responses.len()
            invariant
                i <= responses@.len(),
                rv == responses_view(responses@),
                modes@.map_values(|m: ModeConfig| m@) == modes_from(layout, mc, rv.take(i as int)),
            decreases responses@.len() - i,
        {
            let resp = &responses[i];
            assert(rv.take(i + 1).drop_last() =~= rv.take(i as int));
            assert(rv.take(i + 1).last() == resp@);
            if resp.fblock == mc.0 && resp.func == mc.1 && resp.op == Operator::Status && resp.payload.len() >= 6 {
                match layout.parse(resp.payload.as_slice()) {
                    Some(config) => {
                        let ghost before = modes@.map_values(|m: ModeConfig| m@);
                        modes.push(config);
                        assert(modes@.map_values(|m: ModeConfig| m@) =~= before.push(config@));
                    },
                    None => {},
                }
            }
            i = i + 1;
        }
        assert(rv.take(responses@.len() as int) =~= rv);
        Ok(modes)
    }

    /// Resolve a mode index to a name without an extra GET.
    #[verifier::loop_isolation(false)]
    fn mode_name_from_idx(&mut self, idx: u8) -> (r: String)
        ensures
            final(self).device() == old(self).device(),
            final(self).link() == old(self).link(),
            extends(old(self).history(), final(self).history()),
            forall|more: Seq<Reply>|
                #[trigger] mode_name_run(old(self).device(), idx, seen(old(self).history(), final(self).history(), more))
                    == (made(old(self).history(), final(self).history()), Ok::<Seq<char>, ErrorView>(r@)),
    {
        proof { lemma_no_exchange(self.history()); }
        let mut i: usize = 0;
        while i < self.config.preset_modes.len()
            invariant
                i <= self.config.preset_modes@.len(),
                preset_with_idx(self.config.preset_modes@, idx, i as int)
                    == preset_with_idx(self.config.preset_modes@, idx, 0),
            decreases self.config.preset_modes@.len() - i,
        {
            if self.config.preset_modes[i].1.idx == idx {
                return String::from_str(self.config.preset_modes[i].0);
            }
            i = i + 1;
        }
        let r = self.modes();
        let ghost h1 = self.history();
        match r {
            Ok(ms) => {
                let ghost mv = ms@.map_values(|m: ModeConfig| m@);
                let mut j: usize = 0;
                while j < ms.len()
                    invariant
                        j <= ms@.len(),
                        mv == ms@.map_values(|m: ModeConfig| m@),
                        mode_with_idx(mv, idx, j as int) == mode_with_idx(mv, idx, 0),
                    decreases ms@.len() - j,
                {
                    assert(mv[j as int] == ms@[j as int]@);
                    if ms[j].mode_idx == idx {
                        return ms[j].name.clone();
                    }
                    j = j + 1;
                }
            },
            Err(_) => {},
        }
        let mut s = String::from_str("custom(");
        push_dec(&mut s, idx);
        s.append(")");
        s
    }

    /// Current audio mode name.
    pub fn mode(&mut self) -> (r: BmapResult<String>)
        ensures
            final(self).device() == old(self).device(),
            final(self).link() == old(self).link(),
            extends(old(self).history(), final(self).history()),
            forall|more: Seq<Reply>|
                #[trigger] mode_run(old(self).device(), seen(old(self).history(), final(self).history(), more))
                    == (made(old(self).history(), final(self).history()), res_view(r)),
    {
        let ghost h0 = self.history();
        let idx = match self.mode_idx() {
            Ok(i) => i,
            Err(e) => return Err(e),
        };
        let ghost h1 = self.history();
        let name = self.mode_name_from_idx(idx);
        let ghost h2 = self.history();
        proof {
            lemma_chain(h0, h1, h2);
            assert forall|more: Seq<Reply>|
                #[trigger] mode_run(self.device(), seen(h0, h2, more)) == (made(h0, h2), Ok::<Seq<char>, ErrorView>(name@)) by {
                assert(mode_idx_run(self.device(), seen(h0, h1, seen(h1, h2, more))) == (made(h0, h1), Ok::<u8, ErrorView>(idx)));
                assert(mode_name_run(self.device(), idx, seen(h1, h2, more)) == (made(h1, h2), Ok::<Seq<char>, ErrorView>(name@)));
            }
        }
        Ok(name)
    }

    /// Full device status.
    #[verifier::rlimit(60)]
    #[verifier::spinoff_prover]
    pub fn status(&mut self) -> (r: BmapResult<DeviceStatus>)
        ensures
            final(self).device() == old(self).device(),
            final(self).link() == old(self).link(),
            extends(old(self).history(), final(self).history()),
            forall|more: Seq<Reply>|
                #[trigger] status_run(old(self).device(), seen(old(self).history(), final(self).history(), more))
                    == (made(old(self).history(), final(self).history()), res_view(r)),
    {
        let ghost c = self.device();
        let ghost h0 = self.history();
        // Single GET for mode index, derive name without extra round trip.
        let (current_idx, current_name) = match self.mode_idx() {
            Ok(idx) => {
                let ghost ha = self.history();
                let n = self.mode_name_from_idx(idx);
                proof {
                    let hb = self.history();
                    lemma_chain(h0, ha, hb);
                    assert forall|more: Seq<Reply>|
                        #[trigger] mode_and_name_run(c, seen(h0, hb, more))
                            == (made(h0, hb), Ok::<(u8, Seq<char>), ErrorView>((idx, n@))) by {
                        assert(mode_idx_run(c, seen(h0, ha, seen(ha, hb, more))) == (made(h0, ha), Ok::<u8, ErrorView>(idx)));
                        assert(mode_name_run(c, idx, seen(ha, hb, more)) == (made(ha, hb), Ok::<Seq<char>, ErrorView>(n@)));
                        assert(made(ha, hb) + Seq::<Req>::empty() =~= made(ha, hb));
                    }
                }
                (idx, n)
            },
            Err(_) => (0, String::new()),
        };
        let ghost h1 = self.history();
        let cnc = self.cnc();
        let (cnc_level, cnc_max) = match cnc {
            Ok(v) => v,
            Err(_) => (0, 10),
        };
        let ghost h2 = self.history();
        let prompts = self.prompts();
        let (prompts_enabled, prompts_language) = match prompts {
            Ok(v) => v,
            Err(_) => (false, "Unknown"),
        };
        let ghost h3 = self.history();
        let ghost s1 = DeviceStatusView { mode_idx: current_idx, mode: current_name@, ..blank_status() };
        let ghost s2 = DeviceStatusView { cnc_level: cnc_level, cnc_max: cnc_max, ..s1 };
        let ghost s3 = DeviceStatusView { prompts_enabled: prompts_enabled, prompts_language: prompts_language@, ..s2 };
        let bat = self.battery();
        let battery = match bat {
            Ok(b) => b,
            Err(e) => {
                proof {
                    let h4 = self.history();
                    lemma_chain(h2, h3, h4);
                    lemma_chain(h1, h2, h4);
                    lemma_chain(h0, h1, h4);
                    assert forall|more: Seq<Reply>|
                        #[trigger] status_battery(c, s3, seen(h3, h4, more)) == (made(h3, h4), Err::<DeviceStatusView, ErrorView>(e@)) by {
                        assert(battery_run(c, seen(h3, h4, more)) == (made(h3, h4), res_view(bat)));
                    }
                    self.lemma_status_prefix(h0, h1, h2, h3, h4, current_idx, current_name@, cnc, prompts, s3, Err(e@));
                }
                return Err(e);
            },
        };
        let ghost h4 = self.history();
        let eq = match self.eq() {
            Ok(v) => v,
            Err(_) => Vec::new(),
        };
        let ghost h5 = self.history();
        let name = match self.name() {
            Ok(v) => v,
            Err(_) => String::new(),
        };
        let ghost h6 = self.history();
        let firmware = match self.firmware() {
            Ok(v) => v,
            Err(_) => String::new(),
        };
        let ghost h7 = self.history();
        let sidetone = match self.sidetone() {
            Ok(v) => String::from_str(v),
            Err(_) => String::from_str("off"),
        };
        let ghost h8 = self.history();
        let multipoint = match self.multipoint() {
            Ok(v) => v,
            Err(_) => false,
        };
        let ghost h9 = self.history();
        let auto_pause = match self.auto_pause() {
            Ok(v) => v,
            Err(_) => false,
        };
        let ghost h10 = self.history();
        let status = DeviceStatus {
            battery,
            mode: current_name,
            mode_idx: current_idx,
            cnc_level,
            cnc_max,
            eq,
            name,
            firmware,
            sidetone,
            multipoint,
            auto_pause,
            prompts_enabled,
            prompts_language: String::from_str(prompts_language),
        };
        proof {
            let fin = status@;
            let s4 = DeviceStatusView { battery: battery, ..s3 };
            let s5 = DeviceStatusView { eq: fin.eq, ..s4 };
            let s6 = DeviceStatusView { name: fin.name, ..s5 };
            let s7 = DeviceStatusView { firmware: fin.firmware, ..s6 };
            let s8 = DeviceStatusView { sidetone: fin.sidetone, ..s7 };
            let s9 = DeviceStatusView { multipoint: fin.multipoint, ..s8 };
            assert(DeviceStatusView { auto_pause: fin.auto_pause, ..s9 } == fin);
            lemma_no_exchange(h10);
            lemma_chain(h9, h10, h10);
            assert forall|more: Seq<Reply>|
                #[trigger] status_auto_pause(c, s9, seen(h9, h10, more)) == (made(h9, h10), Ok::<DeviceStatusView, ErrorView>(fin)) by {
                assert(auto_pause_run(c, seen(h9, h10, more)) == auto_pause_run(c, seen(h9, h10, more)));
                assert(made(h9, h10) + Seq::<Req>::empty() =~= made(h9, h10));
            }
            lemma_chain(h8, h9, h10);
            assert forall|more: Seq<Reply>|
                #[trigger] status_multipoint(c, s8, seen(h8, h10, more)) == (made(h8, h10), Ok::<DeviceStatusView, ErrorView>(fin)) by {
                assert(multipoint_run(c, seen(h8, h9, seen(h9, h10, more))) == multipoint_run(c, seen(h8, h9, seen(h9, h10, more))));
                assert(status_auto_pause(c, s9, seen(h9, h10, more)) == (made(h9, h10), Ok::<DeviceStatusView, ErrorView>(fin)));
            }
            lemma_chain(h7, h8, h10);
            assert forall|more: Seq<Reply>|
                #[trigger] status_sidetone(c, s7, seen(h7, h10, more)) == (made(h7, h10), Ok::<DeviceStatusView, ErrorView>(fin)) by {
                assert(sidetone_run(c, seen(h7, h8, seen(h8, h10, more))) == sidetone_run(c, seen(h7, h8, seen(h8, h10, more))));
                assert(status_multipoint(c, s8, seen(h8, h10, more)) == (made(h8, h10), Ok::<DeviceStatusView, ErrorView>(fin)));
            }
            lemma_chain(h6, h7, h10);
            assert forall|more: Seq<Reply>|
                #[trigger] status_firmware(c, s6, seen(h6, h10, more)) == (made(h6, h10), Ok::<DeviceStatusView, ErrorView>(fin)) by {
                assert(firmware_run(c, seen(h6, h7, seen(h7, h10, more))) == firmware_run(c, seen(h6, h7, seen(h7, h10, more))));
                assert(status_sidetone(c, s7, seen(h7, h10, more)) == (made(h7, h10), Ok::<DeviceStatusView, ErrorView>(fin)));
            }
            lemma_chain(h5, h6, h10);
            assert forall|more: Seq<Reply>|
                #[trigger] status_name(c, s5, seen(h5, h10, more)) == (made(h5, h10), Ok::<DeviceStatusView, ErrorView>(fin)) by {
                assert(name_run(c, seen(h5, h6, seen(h6, h10, more))) == name_run(c, seen(h5, h6, seen(h6, h10, more))));
                assert(status_firmware(c, s6, seen(h6, h10, more)) == (made(h6, h10), Ok::<DeviceStatusView, ErrorView>(fin)));
            }
            lemma_chain(h4, h5, h10);
            assert forall|more: Seq<Reply>|
                #[trigger] status_eq(c, s4, seen(h4, h10, more)) == (made(h4, h10), Ok::<DeviceStatusView, ErrorView>(fin)) by {
                assert(eq_run(c, seen(h4, h5, seen(h5, h10, more))) == eq_run(c, seen(h4, h5, seen(h5, h10, more))));
                assert(status_name(c, s5, seen(h5, h10, more)) == (made(h5, h10), Ok::<DeviceStatusView, ErrorView>(fin)));
            }
            lemma_chain(h3, h4, h10);
            assert forall|more: Seq<Reply>|
                #[trigger] status_battery(c, s3, seen(h3, h10, more)) == (made(h3, h10), Ok::<DeviceStatusView, ErrorView>(fin)) by {
                assert(battery_run(c, seen(h3, h4, seen(h4, h10, more))) == (made(h3, h4), res_view(bat)));
                assert(status_eq(c, s4, seen(h4, h10, more)) == (made(h4, h10), Ok::<DeviceStatusView, ErrorView>(fin)));
            }
            lemma_chain(h2, h3, h10);
            lemma_chain(h1, h2, h10);
            lemma_chain(h0, h1, h10);
            self.lemma_status_prefix(h0, h1, h2, h3, h10, current_idx, current_name@, cnc, prompts, s3, Ok(fin));
        }
        Ok(status)
    }

    /// The first three stages of the status dialogue (mode, CNC, prompts),
    /// given what the rest of it gives.
    proof fn lemma_status_prefix(
        &self,
        h0: Seq<Exchange>,
        h1: Seq<Exchange>,
        h2: Seq<Exchange>,
        h3: Seq<Exchange>,
        h4: Seq<Exchange>,
        idx: u8,
        name: Seq<char>,
        cnc: BmapResult<(u8, u8)>,
        prompts: BmapResult<(bool, &'static str)>,
        s3: DeviceStatusView,
        res: Result<DeviceStatusView, ErrorView>,
    )
        requires
            extends(h0, h1),
            extends(h1, h2),
            extends(h2, h3),
            extends(h3, h4),
            forall|more: Seq<Reply>|
                #[trigger] or_else(mode_and_name_run(self.device(), seen(h0, h1, more)), (0u8, Seq::<char>::empty()))
                    == (made(h0, h1), Ok::<(u8, Seq<char>), ErrorView>((idx, name))),
            forall|more: Seq<Reply>|
                #[trigger] cnc_run(self.device(), seen(h1, h2, more)) == (made(h1, h2), res_view(cnc)),
            forall|more: Seq<Reply>|
                #[trigger] prompts_run(self.device(), seen(h2, h3, more)) == (made(h2, h3), res_view(prompts)),
            s3 == ({
                let s1 = DeviceStatusView { mode_idx: idx, mode: name, ..blank_status() };
                let cn = match cnc { Ok(v) => v, Err(_) => (0u8, 10u8) };
                let s2 = DeviceStatusView { cnc_level: cn.0, cnc_max: cn.1, ..s1 };
                let pr = match prompts { Ok(v) => (v.0, v.1@), Err(_) => (false, "Unknown"@) };
                DeviceStatusView { prompts_enabled: pr.0, prompts_language: pr.1, ..s2 }
            }),
            forall|more: Seq<Reply>|
                #[trigger] status_battery(self.device(), s3, seen(h3, h4, more)) == (made(h3, h4), res),
        ensures
            forall|more: Seq<Reply>|
                #[trigger] status_run(self.device(), seen(h0, h4, more)) == (made(h0, h4), res),
    {
        let c = self.device();
        let s1 = DeviceStatusView { mode_idx: idx, mode: name, ..blank_status() };
        let cn = match cnc { Ok(v) => v, Err(_) => (0u8, 10u8) };
        let s2 = DeviceStatusView { cnc_level: cn.0, cnc_max: cn.1, ..s1 };
        lemma_chain(h2, h3, h4);
        lemma_chain(h1, h2, h4);
        lemma_chain(h0, h1, h4);
        assert forall|more: Seq<Reply>|
            #[trigger] status_prompts(c, s2, seen(h2, h4, more)) == (made(h2, h4), res) by {
            assert(prompts_run(c, seen(h2, h3, seen(h3, h4, more))) == (made(h2, h3), res_view(prompts)));
            assert(status_battery(c, s3, seen(h3, h4, more)) == (made(h3, h4), res));
        }
        assert forall|more: Seq<Reply>|
            #[trigger] status_cnc(c, s1, seen(h1, h4, more)) == (made(h1, h4), res) by {
            assert(cnc_run(c, seen(h1, h2, seen(h2, h4, more))) == (made(h1, h2), res_view(cnc)));
            assert(status_prompts(c, s2, seen(h2, h4, more)) == (made(h2, h4), res));
        }
        assert forall|more: Seq<Reply>|
            #[trigger] status_run(c, seen(h0, h4, more)) == (made(h0, h4), res) by {
            assert(or_else(mode_and_name_run(c, seen(h0, h1, seen(h1, h4, more))), (0u8, Seq::<char>::empty()))
                == (made(h0, h1), Ok::<(u8, Seq<char>), ErrorView>((idx, name))));
            assert(status_cnc(c, s1, seen(h1, h4, more)) == (made(h1, h4), res));
        }
    }

    // ── Write Operations ────────────────────────────────────────────────────

    /// Send `op` with `payload` to a feature, discarding the checked response.
    fn write(&mut self, f: Option<Addr>, op: Operator, payload: &[u8]) -> (r: BmapResult<()>)
        requires
            payload@.len() <= 255,
        ensures
            final(self).device() == old(self).device(),
            final(self).link() == old(self).link(),
            extends(old(self).history(), final(self).history()),
            forall|more: Seq<Reply>|
                #[trigger] write_run(old(self).device(), f, op, payload@, seen(old(self).history(), final(self).history(), more))
                    == (made(old(self).history(), final(self).history()), res_view(r)),
    {
        proof { lemma_no_exchange(self.history()); }
        let a = match self.addr(f) {
            Ok(a) => a,
            Err(e) => return Err(e),
        };
        let resp = self.call(a, op, payload);
        match resp {
            Ok(_) => Ok(()),
            Err(e) => Err(e),
        }
    }

    /// Switch to a mode by name (preset or custom profile).
    pub fn set_mode(&mut self, name: &str, announce: bool) -> (r: BmapResult<()>)
        ensures
            final(self).device() == old(self).device(),
            final(self).link() == old(self).link(),
            extends(old(self).history(), final(self).history()),
            forall|more: Seq<Reply>|
                #[trigger] set_mode_run(old(self).device(), name@, announce, seen(old(self).history(), final(self).history(), more))
                    == (made(old(self).history(), final(self).history()), res_view(r)),
    {
        let ghost c = self.device();
        let ghost h0 = self.history();
        proof { lemma_no_exchange(h0); }
        let a = match self.addr(self.config.current_mode) {
            Ok(a) => a,
            Err(e) => return Err(e),
        };
        // Check presets first
        let mut found: Option<u8> = None;
        let mut i: usize = 0;
        while i < self.config.preset_modes.len()
            invariant_except_break
                found is None,
            invariant
                i <= self.config.preset_modes@.len(),
                preset_named(self.config.preset_modes@, name@, i as int)
                    == preset_named(self.config.preset_modes@, name@, 0),
            ensures
                found == preset_named(self.config.preset_modes@, name@, 0),
            decreases self.config.preset_modes@.len() - i,
        {
            if eq_ignore_ascii_case(self.config.preset_modes[i].0, name) {
                found = Some(self.config.preset_modes[i].1.idx);
                break;
            }
            i = i + 1;
        }
        let idx = match found {
            Some(idx) => idx,
            None => {
                // Look up custom profiles
                let modes = self.modes();
                let ghost h1 = self.history();
                let ms = match modes {
                    Ok(ms) => ms,
                    Err(e) => return Err(e),
                };
                let ghost mv = ms@.map_values(|m: ModeConfig| m@);
                let mut j: usize = 0;
                let mut hit: Option<u8> = None;
                while j < ms.len()
                    invariant_except_break
                        hit is None,
                    invariant
                        j <= ms@.len(),
                        mv == ms@.map_values(|m: ModeConfig| m@),
                        mode_named(mv, name@, j as int) == mode_named(mv, name@, 0),
                    ensures
                        match mode_named(mv, name@, 0) {
                            Some(m) => hit == Some(m.mode_idx),
                            None => hit is None,
                        },
                    decreases ms@.len() - j,
                {
                    assert(mv[j as int] == ms@[j as int]@);
                    if eq_ignore_ascii_case(ms[j].name.as_str(), name) {
                        hit = Some(ms[j].mode_idx);
                        break;
                    }
                    j = j + 1;
                }
                match hit {
                    Some(v) => v,
                    None => {
                        return Err(BmapError::InvalidArg(String::from_str("Unknown mode: ").concat(name)));
                    },
                }
            },
        };
        let ghost h1 = self.history();
        let payload = if announce { [idx, 1u8] } else { [idx, 0u8] };
        assert(payload@ =~= seq![idx, b2u(announce)]);
        let pkt = bmap_packet(a.0, a.1, Operator::Start, payload.as_slice());
        let data = self.exchange(pkt.as_slice(), false);
        let ghost h2 = self.history();
        proof {
            lemma_one_exchange(h1, (pkt@, false, res_view(data)));
            lemma_chain(h0, h1, h2);
        }
        let data = match data {
            Ok(d) => d,
            Err(e) => return Err(e),
        };
        let resp = match parse_response(data.as_slice()) {
            Some(r) => r,
            None => return Err(BmapError::Timeout(String::from_str("No response"))),
        };
        match Self::check_error(&resp) {
            Ok(_) => {},
            Err(e) => return Err(e),
        }
        if resp.op != Operator::Result && resp.op != Operator::Processing {
            return Err(BmapError::Device { message: String::from_str("Mode switch failed"), code: 0 });
        }
        Ok(())
    }

    /// Toggle auto-answer calls.
    pub fn set_auto_answer(&mut self, enabled: bool) -> (r: BmapResult<()>)
        ensures
            final(self).device() == old(self).device(),
            final(self).link() == old(self).link(),
            extends(old(self).history(), final(self).history()),
            forall|more: Seq<Reply>|
                #[trigger] write_run(old(self).device(), old(self).device().auto_answer, Operator::SetGet, seq![b2u(enabled)], seen(old(self).history(), final(self).history(), more))
                    == (made(old(self).history(), final(self).history()), res_view(r)),
    {
        let payload = [if enabled { 1u8 } else { 0u8 }];
        assert(payload@ =~= seq![b2u(enabled)]);
        self.write(self.config.auto_answer, Operator::SetGet, payload.as_slice())
    }

    /// Toggle multipoint.
    pub fn set_multipoint(&mut self, enabled: bool) -> (r: BmapResult<()>)
        ensures
            final(self).device() == old(self).device(),
            final(self).link() == old(self).link(),
            extends(old(self).history(), final(self).history()),
            forall|more: Seq<Reply>|
                #[trigger] write_run(old(self).device(), old(self).device().multipoint, Operator::SetGet, seq![b2u(enabled)], seen(old(self).history(), final(self).history(), more))
                    == (made(old(self).history(), final(self).history()), res_view(r)),
    {
        let payload = [if enabled { 1u8 } else { 0u8 }];
        assert(payload@ =~= seq![b2u(enabled)]);
        self.write(self.config.multipoint, Operator::SetGet, payload.as_slice())
    }

    /// Toggle auto play/pause.
    pub fn set_auto_pause(&mut self, enabled: bool) -> (r: BmapResult<()>)
        ensures
            final(self).device() == old(self).device(),
            final(self).link() == old(self).link(),
            extends(old(self).history(), final(self).history()),
            forall|more: Seq<Reply>|
                #[trigger] write_run(old(self).device(), old(self).device().auto_pause, Operator::SetGet, seq![b2u(enabled)], seen(old(self).history(), final(self).history(), more))
                    == (made(old(self).history(), final(self).history()), res_view(r)),
    {
        let payload = [if enabled { 1u8 } else { 0u8 }];
        assert(payload@ =~= seq![b2u(enabled)]);
        self.write(self.config.auto_pause, Operator::SetGet, payload.as_slice())
    }

    /// Power off device.
    pub fn power_off(&mut self) -> (r: BmapResult<()>)
        ensures
            final(self).device() == old(self).device(),
            final(self).link() == old(self).link(),
            extends(old(self).history(), final(self).history()),
            forall|more: Seq<Reply>|
                #[trigger] write_run(old(self).device(), old(self).device().power, Operator::Start, seq![0u8], seen(old(self).history(), final(self).history(), more))
                    == (made(old(self).history(), final(self).history()), res_view(r)),
    {
        let payload = [0u8];
        assert(payload@ =~= seq![0u8]);
        self.write(self.config.power, Operator::Start, payload.as_slice())
    }

    /// Enter pairing mode.
    pub fn pair(&mut self) -> (r: BmapResult<()>)
        ensures
            final(self).device() == old(self).device(),
            final(self).link() == old(self).link(),
            extends(old(self).history(), final(self).history()),
            forall|more: Seq<Reply>|
                #[trigger] write_run(old(self).device(), old(self).device().pairing, Operator::Start, seq![1u8], seen(old(self).history(), final(self).history(), more))
                    == (made(old(self).history(), final(self).history()), res_view(r)),
    {
        let payload = [1u8];
        assert(payload@ =~= seq![1u8]);
        self.write(self.config.pairing, Operator::Start, payload.as_slice())
    }

    /// Set device name.
    pub fn set_name(&mut self, name: &str) -> (r: BmapResult<()>)
        requires
            old(self).device().product_name is Some ==> name.spec_bytes().len() <= 255,
        ensures
            final(self).device() == old(self).device(),
            final(self).link() == old(self).link(),
            extends(old(self).history(), final(self).history()),
            forall|more: Seq<Reply>|
                #[trigger] write_run(old(self).device(), old(self).device().product_name, Operator::SetGet, name.spec_bytes(), seen(old(self).history(), final(self).history(), more))
                    == (made(old(self).history(), final(self).history()), res_view(r)),
    {
        proof { lemma_no_exchange(self.history()); }
        if self.config.product_name.is_none() {
            return match self.addr(self.config.product_name) {
                Ok(_) => Ok(()),
                Err(e) => Err(e),
            };
        }
        self.write(self.config.product_name, Operator::SetGet, name.as_bytes())
    }

    /// Set Active Noise Reduction mode (QC35: off/high/wind/low).
    pub fn set_anr(&mut self, level: &str) -> (r: BmapResult<()>)
        ensures
            final(self).device() == old(self).device(),
            final(self).link() == old(self).link(),
            extends(old(self).history(), final(self).history()),
            forall|more: Seq<Reply>|
                #[trigger] set_anr_run(old(self).device(), level@, seen(old(self).history(), final(self).history(), more))
                    == (made(old(self).history(), final(self).history()), res_view(r)),
    {
        proof { lemma_no_exchange(self.history()); }
        match self.addr(self.config.anr) {
            Ok(_) => {},
            Err(e) => return Err(e),
        }
        let val: u8 = if str_equal(level, "off") {
            0
        } else if str_equal(level, "high") {
            1
        } else if str_equal(level, "wind") {
            2
        } else if str_equal(level, "low") {
            3
        } else {
            return Err(BmapError::InvalidArg(String::from_str("ANR: off, high, wind, low")));
        };
        let payload = [val];
        assert(payload@ =~= seq![val]);
        self.write(self.config.anr, Operator::SetGet, payload.as_slice())
    }

    /// Set sidetone level.
    pub fn set_sidetone(&mut self, level: &str) -> (r: BmapResult<()>)
        ensures
            final(self).device() == old(self).device(),
            final(self).link() == old(self).link(),
            extends(old(self).history(), final(self).history()),
            forall|more: Seq<Reply>|
                #[trigger] set_sidetone_run(old(self).device(), level@, seen(old(self).history(), final(self).history(), more))
                    == (made(old(self).history(), final(self).history()), res_view(r)),
    {
        proof { lemma_no_exchange(self.history()); }
        match self.addr(self.config.sidetone) {
            Ok(_) => {},
            Err(e) => return Err(e),
        }
        let val: u8 = if str_equal(level, "off") {
            0
        } else if str_equal(level, "high") {
            1
        } else if str_equal(level, "medium") || str_equal(level, "med") {
            2
        } else if str_equal(level, "low") {
            3
        } else {
            return Err(BmapError::InvalidArg(String::from_str("Sidetone: off, low, medium, high")));
        };
        let payload = [1u8, val];
        assert(payload@ =~= seq![1u8, val]);
        self.write(self.config.sidetone, Operator::SetGet, payload.as_slice())
    }

    /// Remap a button action via SETGET [1.9].
    pub fn set_buttons(&mut self, button_id: u8, event: u8, action: u8) -> (r: BmapResult<ButtonMapping>)
        ensures
            final(self).device() == old(self).device(),
            final(self).link() == old(self).link(),
            extends(old(self).history(), final(self).history()),
            forall|more: Seq<Reply>|
                #[trigger] set_buttons_run(old(self).device(), button_id, event, action, seen(old(self).history(), final(self).history(), more))
                    == (made(old(self).history(), final(self).history()), res_view(r)),
    {
        proof { lemma_no_exchange(self.history()); }
        let a = match self.addr(self.config.buttons) {
            Ok(a) => a,
            Err(e) => return Err(e),
        };
        let payload = build_buttons(button_id, event, action);
        let resp = match self.call(a, Operator::SetGet, payload.as_slice()) {
            Ok(r) => r,
            Err(e) => return Err(e),
        };
        match parse_buttons(resp.payload.as_slice()) {
            Some(m) => Ok(m),
            None => Err(BmapError::Device {
                message: String::from_str("Could not parse button remap response"),
                code: 0,
            }),
        }
    }

    /// Switch active audio to a paired BT device by MAC address.
    pub fn route(&mut self, mac: &str) -> (r: BmapResult<()>)
        ensures
            final(self).device() == old(self).device(),
            final(self).link() == old(self).link(),
            extends(old(self).history(), final(self).history()),
            forall|more: Seq<Reply>|
                #[trigger] route_run(old(self).device(), mac@, seen(old(self).history(), final(self).history(), more))
                    == (made(old(self).history(), final(self).history()), res_view(r)),
    {
        proof { lemma_no_exchange(self.history()); }
        match self.addr(self.config.routing) {
            Ok(_) => {},
            Err(e) => return Err(e),
        }
        let payload = match build_routing(mac) {
            Ok(p) => p,
            Err(e) => return Err(BmapError::InvalidArg(e)),
        };
        self.write(self.config.routing, Operator::Start, payload.as_slice())
    }

    /// Set EQ bands (-10 to +10 each).
    pub fn set_eq(&mut self, bass: i8, mid: i8, treble: i8) -> (r: BmapResult<()>)
        ensures
            final(self).device() == old(self).device(),
            final(self).link() == old(self).link(),
            extends(old(self).history(), final(self).history()),
            forall|more: Seq<Reply>|
                #[trigger] set_eq_run(old(self).device(), bass, mid, treble, seen(old(self).history(), final(self).history(), more))
                    == (made(old(self).history(), final(self).history()), res_view(r)),
    {
        let ghost h0 = self.history();
        proof { lemma_no_exchange(h0); }
        if bass < -10 || bass > 10 || mid < -10 || mid > 10 || treble < -10 || treble > 10 {
            return Err(BmapError::InvalidArg(String::from_str("EQ values must be -10 to +10")));
        }
        let a = match self.addr(self.config.eq) {
            Ok(a) => a,
            Err(e) => return Err(e),
        };
        let p0 = [bass as u8, 0u8];
        let pkt0 = bmap_packet(a.0, a.1, Operator::SetGet, p0.as_slice());
        let d0 = self.exchange(pkt0.as_slice(), false);
        let ghost h1 = self.history();
        proof {
            lemma_one_exchange(h0, (pkt0@, false, res_view(d0)));
            assert(p0@ =~= seq![bass as u8, 0u8]);
        }
        match d0 {
            Ok(_) => {},
            Err(e) => return Err(e),
        }
        let p1 = [mid as u8, 1u8];
        let pkt1 = bmap_packet(a.0, a.1, Operator::SetGet, p1.as_slice());
        let d1 = self.exchange(pkt1.as_slice(), false);
        let ghost h2 = self.history();
        proof {
            lemma_one_exchange(h1, (pkt1@, false, res_view(d1)));
            assert(p1@ =~= seq![mid as u8, 1u8]);
            lemma_chain(h0, h1, h2);
        }
        match d1 {
            Ok(_) => {},
            Err(e) => return Err(e),
        }
        let p2 = [treble as u8, 2u8];
        let pkt2 = bmap_packet(a.0, a.1, Operator::SetGet, p2.as_slice());
        let d2 = self.exchange(pkt2.as_slice(), false);
        let ghost h3 = self.history();
        proof {
            lemma_one_exchange(h2, (pkt2@, false, res_view(d2)));
            assert(p2@ =~= seq![treble as u8, 2u8]);
            lemma_chain(h1, h2, h3);
            lemma_chain(h0, h1, h3);
        }
        match d2 {
            Ok(_) => Ok(()),
            Err(e) => Err(e),
        }
    }

    /// Toggle voice prompts. Preserves current language.
    pub fn set_prompts(&mut self, enabled: bool) -> (r: BmapResult<()>)
        ensures
            final(self).device() == old(self).device(),
            final(self).link() == old(self).link(),
            extends(old(self).history(), final(self).history()),
            forall|more: Seq<Reply>|
                #[trigger] set_prompts_run(old(self).device(), enabled, seen(old(self).history(), final(self).history(), more))
                    == (made(old(self).history(), final(self).history()), res_view(r)),
    {
        let ghost h0 = self.history();
        proof { lemma_no_exchange(h0); }
        let a = match self.addr(self.config.voice_prompts) {
            Ok(a) => a,
            Err(e) => return Err(e),
        };
        let payload = match self.get(a) {
            Ok(p) => p,
            Err(e) => return Err(e),
        };
        let ghost h1 = self.history();
        let lang: u8 = if payload.len() > 0 { payload[0] & 0x1F } else { 0 };
        let byte0: u8 = ((if enabled { 1u8 } else { 0u8 }) << 5) | lang;
        proof {
            if payload@.len() > 0 {
                let b = payload@[0];
                assert(b & 0x1F == b % 32) by (bit_vector);
            }
            let e: u8 = if enabled { 1u8 } else { 0u8 };
            assert((e << 5) | lang == e * 32 + lang) by (bit_vector)
                requires lang < 32, e <= 1;
        }
        assert(byte0 == prompt_byte(enabled, payload@));
        let p = [byte0];
        assert(p@ =~= seq![prompt_byte(enabled, payload@)]);
        let resp = self.call(a, Operator::SetGet, p.as_slice());
        proof {
            let h2 = self.history();
            lemma_chain(h0, h1, h2);
        }
        match resp {
            Ok(_) => Ok(()),
            Err(e) => Err(e),
        }
    }

    // ── Profile Management ────────────────────────────────────────────────

    #[verifier::loop_isolation(false)]
    fn write_mode(
        &mut self,
        slot: u8,
        name: &str,
        cnc_level: u8,
        spatial: u8,
        wind_block: bool,
        anc_toggle: bool,
        prompt_b1: u8,
        prompt_b2: u8,
    ) -> (r: BmapResult<()>)
        ensures
            final(self).device() == old(self).device(),
            final(self).link() == old(self).link(),
            extends(old(self).history(), final(self).history()),
            forall|more: Seq<Reply>|
                #[trigger] write_mode_run(old(self).device(), slot, name@, cnc_level, spatial, wind_block, anc_toggle, prompt_b1, prompt_b2, seen(old(self).history(), final(self).history(), more))
                    == (made(old(self).history(), final(self).history()), res_view(r)),
    {
        proof { lemma_no_exchange(self.history()); }
        let a = match self.addr(self.config.mode_config) {
            Ok(a) => a,
            Err(e) => return Err(e),
        };
        let builder = match self.config.build_mode_config {
            Some(b) => b,
            None => return Err(BmapError::Unsupported(String::from_str("Device has no mode config builder"))),
        };
        let payload = builder.build(slot, name, cnc_level, spatial, wind_block, anc_toggle, prompt_b1, prompt_b2);
        let pkt = bmap_packet(a.0, a.1, Operator::SetGet, payload.as_slice());
        let data = self.exchange(pkt.as_slice(), true);
        proof {
            lemma_one_exchange(old(self).history(), (pkt@, true, res_view(data)));
        }
        let data = match data {
            Ok(d) => d,
            Err(e) => return Err(e),
        };
        let responses = parse_all_responses(data.as_slice());
        let ghost rv = responses_view(responses@);
        let mut i: usize = 0;
        while i < responses.len()
            invariant
                i <= responses@.len(),
                rv == responses_view(responses@),
                forall|j: int| 0 <= j < i ==> (#[trigger] rv[j]).op != Operator::Status,
            decreases responses@.len() - i,
        {
            assert(rv[i as int] == responses@[i as int]@);
            if responses[i].op == Operator::Status {
                assert(has_status(rv));
                return Ok(());
            }
            i = i + 1;
        }
        Err(BmapError::Device { message: String::from_str("Mode config write failed"), code: 0 })
    }

    #[verifier::loop_isolation(false)]
    fn current_mode_config(&mut self) -> (r: BmapResult<ModeConfig>)
        ensures
            final(self).device() == old(self).device(),
            final(self).link() == old(self).link(),
            extends(old(self).history(), final(self).history()),
            forall|more: Seq<Reply>|
                #[trigger] current_mode_config_run(old(self).device(), seen(old(self).history(), final(self).history(), more))
                    == (made(old(self).history(), final(self).history()), res_view(r)),
    {
        let ghost h0 = self.history();
        let idx = match self.mode_idx() {
            Ok(i) => i,
            Err(e) => return Err(e),
        };
        let ghost h1 = self.history();
        let modes = self.modes();
        proof {
            lemma_chain(h0, h1, self.history());
        }
        let mut ms = match modes {
            Ok(ms) => ms,
            Err(e) => return Err(e),
        };
        let ghost mv = ms@.map_values(|m: ModeConfig| m@);
        let mut j: usize = 0;
        while j < ms.len()
            invariant
                j <= ms@.len(),
                mv == ms@.map_values(|m: ModeConfig| m@),
                mode_with_idx(mv, idx, j as int) == mode_with_idx(mv, idx, 0),
            decreases ms@.len() - j,
        {
            assert(mv[j as int] == ms@[j as int]@);
            if ms[j].mode_idx == idx {
                let m = ms.remove(j);
                return Ok(m);
            }
            j = j + 1;
        }
        Err(BmapError::Device { message: String::from_str("Current mode config not available"), code: 0 })
    }

    fn update_current_mode_config(
        &mut self,
        cnc: Option<u8>,
        spatial: Option<u8>,
        wind: Option<bool>,
        anc: Option<bool>,
    ) -> (r: BmapResult<()>)
        ensures
            final(self).device() == old(self).device(),
            final(self).link() == old(self).link(),
            extends(old(self).history(), final(self).history()),
            forall|more: Seq<Reply>|
                #[trigger] update_mode_config_run(old(self).device(), cnc, spatial, wind, anc, seen(old(self).history(), final(self).history(), more))
                    == (made(old(self).history(), final(self).history()), res_view(r)),
    {
        let ghost h0 = self.history();
        proof { lemma_no_exchange(h0); }
        if anc.is_some() && !self.config.supports_anc_toggle {
            return Err(BmapError::Unsupported(String::from_str("Device does not expose an ANC on/off toggle")));
        }
        let mut mc = match self.current_mode_config() {
            Ok(m) => m,
            Err(e) => return Err(e),
        };
        let ghost h1 = self.history();
        let ghost mc0 = mc@;
        if !mc.editable {
            proof { lemma_no_exchange(h1); lemma_chain(h0, h1, h1); }
            let msg = String::from_str("Current mode '").concat(mc.name.as_str()).concat("' is not editable on this device");
            return Err(BmapError::Unsupported(msg));
        }
        if let Some(v) = cnc { mc.cnc_level = v; }
        if let Some(v) = spatial { mc.spatial = v; }
        if let Some(v) = wind { mc.wind_block = v; }
        if let Some(v) = anc { mc.anc_toggle = v; }
        let r = self.write_mode(
            mc.mode_idx, mc.name.as_str(), mc.cnc_level, mc.spatial,
            mc.wind_block, mc.anc_toggle, mc.prompt_b1, mc.prompt_b2,
        );
        proof { lemma_chain(h0, h1, self.history()); }
        r
    }

    fn update_audio_settings(
        &mut self,
        cnc: Option<u8>,
        spatial: Option<u8>,
        wind: Option<bool>,
        anc: Option<bool>,
    ) -> (r: BmapResult<()>)
        ensures
            final(self).device() == old(self).device(),
            final(self).link() == old(self).link(),
            extends(old(self).history(), final(self).history()),
            forall|more: Seq<Reply>|
                #[trigger] update_settings_run(old(self).device(), cnc, spatial, wind, anc, seen(old(self).history(), final(self).history(), more))
                    == (made(old(self).history(), final(self).history()), res_view(r)),
    {
        let ghost h0 = self.history();
        if let Some(a) = self.config.audio_settings {
            let cur = match self.get(a) {
                Ok(p) => p,
                Err(e) => return Err(e),
            };
            let ghost h1 = self.history();
            let c0: u8 = if cur.len() > 0 { cur[0] } else { 0 };
            let c1: u8 = if cur.len() > 1 { cur[1] } else { 0 };
            let c2: u8 = if cur.len() > 2 { cur[2] } else { 0 };
            let c3: u8 = if cur.len() > 3 { cur[3] } else { 1 };
            let c4: u8 = if cur.len() > 4 { cur[4] } else { 1 };
            let payload = [
                match cnc { Some(v) => v, None => c0 },
                c1,  // auto_cnc
                match spatial { Some(v) => v, None => c2 },
                match wind { Some(b) => if b { 1u8 } else { 0u8 }, None => c3 },
                match anc { Some(b) => if b { 1u8 } else { 0u8 }, None => c4 },
            ];
            assert(payload@ =~= settings_payload(cur@, cnc, spatial, wind, anc));
            let resp = self.call(a, Operator::SetGet, payload.as_slice());
            proof { lemma_chain(h0, h1, self.history()); }
            match resp {
                Ok(_) => Ok(()),
                Err(e) => Err(e),
            }
        } else {
            self.update_current_mode_config(cnc, spatial, wind, anc)
        }
    }

    /// Set noise cancellation level (0-10).
    ///
    /// Scale is inverted: 0 = max ANC, 10 = most ambient pass-through.
    /// Only audible when ANC is on and wind block is off.
    pub fn set_cnc(&mut self, level: u8) -> (r: BmapResult<()>)
        ensures
            final(self).device() == old(self).device(),
            final(self).link() == old(self).link(),
            extends(old(self).history(), final(self).history()),
            forall|more: Seq<Reply>|
                #[trigger] set_cnc_run(old(self).device(), level, seen(old(self).history(), final(self).history(), more))
                    == (made(old(self).history(), final(self).history()), res_view(r)),
    {
        if level > 10 {
            proof { lemma_no_exchange(self.history()); }
            return Err(BmapError::InvalidArg(String::from_str("CNC level must be 0-10")));
        }
        if self.config.cnc_direct_setget && self.config.cnc.is_some() {
            let payload = [level, 1u8];
            assert(payload@ =~= seq![level, 1u8]);
            return self.write(self.config.cnc, Operator::SetGet, payload.as_slice());
        }
        self.update_audio_settings(Some(level), None, None, None)
    }

    /// Set spatial audio mode ("off"=0, "room"=1, "head"=2).
    pub fn set_spatial(&mut self, mode: &str) -> (r: BmapResult<()>)
        ensures
            final(self).device() == old(self).device(),
            final(self).link() == old(self).link(),
            extends(old(self).history(), final(self).history()),
            forall|more: Seq<Reply>|
                #[trigger] set_spatial_run(old(self).device(), mode@, seen(old(self).history(), final(self).history(), more))
                    == (made(old(self).history(), final(self).history()), res_view(r)),
    {
        proof { lemma_no_exchange(self.history()); }
        let spatial: u8 = if str_equal(mode, "off") {
            0
        } else if str_equal(mode, "room") {
            1
        } else if str_equal(mode, "head") {
            2
        } else {
            return Err(BmapError::InvalidArg(String::from_str("Spatial: off, room, head")));
        };
        self.update_audio_settings(None, Some(spatial), None, None)
    }

    /// Toggle Active Noise Cancellation on/off.
    pub fn set_anc(&mut self, enabled: bool) -> (r: BmapResult<()>)
        ensures
            final(self).device() == old(self).device(),
            final(self).link() == old(self).link(),
            extends(old(self).history(), final(self).history()),
            forall|more: Seq<Reply>|
                #[trigger] set_anc_run(old(self).device(), enabled, seen(old(self).history(), final(self).history(), more))
                    == (made(old(self).history(), final(self).history()), res_view(r)),
    {
        self.update_audio_settings(None, None, None, Some(enabled))
    }

    /// Toggle Wind Block on/off.
    pub fn set_wind(&mut self, enabled: bool) -> (r: BmapResult<()>)
        ensures
            final(self).device() == old(self).device(),
            final(self).link() == old(self).link(),
            extends(old(self).history(), final(self).history()),
            forall|more: Seq<Reply>|
                #[trigger] set_wind_run(old(self).device(), enabled, seen(old(self).history(), final(self).history(), more))
                    == (made(old(self).history(), final(self).history()), res_view(r)),
    {
        self.update_audio_settings(None, None, Some(enabled), None)
    }

    /// Read current audio settings as 5-tuple: (cnc, auto_cnc, spatial, wind, anc).
    pub fn audio_settings(&mut self) -> (r: BmapResult<(u8, u8, u8, u8, u8)>)
        ensures
            final(self).device() == old(self).device(),
            final(self).link() == old(self).link(),
            extends(old(self).history(), final(self).history()),
            forall|more: Seq<Reply>|
                #[trigger] audio_settings_run(old(self).device(), seen(old(self).history(), final(self).history(), more))
                    == (made(old(self).history(), final(self).history()), res_view(r)),
    {
        let ghost h0 = self.history();
        if let Some(a) = self.config.audio_settings {
            let p = match self.get(a) {
                Ok(p) => p,
                Err(e) => return Err(e),
            };
            proof { lemma_no_exchange(self.history()); lemma_chain(h0, self.history(), self.history()); }
            Ok((
                if p.len() > 0 { p[0] } else { 0 },
                if p.len() > 1 { p[1] } else { 0 },
                if p.len() > 2 { p[2] } else { 0 },
                if p.len() > 3 { p[3] } else { 1 },
                if p.len() > 4 { p[4] } else { 1 },
            ))
        } else {
            let mc = match self.current_mode_config() {
                Ok(m) => m,
                Err(e) => return Err(e),
            };
            proof { lemma_no_exchange(self.history()); lemma_chain(h0, self.history(), self.history()); }
            Ok((
                mc.cnc_level,
                0,
                mc.spatial,
                if mc.wind_block { 1 } else { 0 },
                if mc.anc_toggle { 1 } else { 0 },
            ))
        }
    }

    fn find_free_slot(&self, modes: &Vec<ModeConfig>) -> (r: BmapResult<u8>)
        ensures
            match free_slot(self.device().editable_slots@, modes@.map_values(|m: ModeConfig| m@), 0) {
                Some(s) => r == Ok::<u8, BmapError>(s),
                None => res_view(r) == Err::<u8, ErrorView>(
                    ErrorView::Device { message: "No free profile slot available"@, code: 0 },
                ),
            },
    {
        let ghost mv = modes@.map_values(|m: ModeConfig| m@);
        let ghost slots = self.config.editable_slots@;
        let mut i: usize = 0;
        while i < self.config.editable_slots.len()
            invariant
                i <= slots.len(),
                slots == self.config.editable_slots@,
                mv == modes@.map_values(|m: ModeConfig| m@),
                free_slot(slots, mv, i as int) == free_slot(slots, mv, 0),
            decreases slots.len() - i,
        {
            let slot = self.config.editable_slots[i];
            // The first configuration with this slot's index, if any.
            let mut j: usize = 0;
            let mut hit: Option<usize> = None;
            while j < modes.len()
                invariant_except_break
                    hit is None,
                invariant
                    j <= modes@.len(),
                    mv == modes@.map_values(|m: ModeConfig| m@),
                    mode_with_idx(mv, slot, j as int) == mode_with_idx(mv, slot, 0),
                ensures
                    match mode_with_idx(mv, slot, 0) {
                        Some(m) => hit matches Some(k) && k < modes@.len() && mv[k as int] == m,
                        None => hit is None,
                    },
                decreases modes@.len() - j,
            {
                assert(mv[j as int] == modes@[j as int]@);
                if modes[j].mode_idx == slot {
                    hit = Some(j);
                    break;
                }
                j = j + 1;
            }
            let free = match hit {
                None => true,
                Some(k) => {
                    assert(mv[k as int] == modes@[k as int]@);
                    !modes[k].configured && (eq_ignore_ascii_case(modes[k].name.as_str(), "none")
                        || modes[k].name.as_str().is_empty())
                },
            };
            assert(free == slot_free(mv, slot));
            if free {
                return Ok(slot);
            }
            i = i + 1;
        }
        Err(BmapError::Device { message: String::from_str("No free profile slot available"), code: 0 })
    }

    /// Create a custom profile in the first available slot. Returns slot index.
    pub fn create_profile(
        &mut self,
        name: &str,
        cnc_level: u8,
        spatial: u8,
        wind_block: bool,
        anc_toggle: bool,
    ) -> (r: BmapResult<u8>)
        ensures
            final(self).device() == old(self).device(),
            final(self).link() == old(self).link(),
            extends(old(self).history(), final(self).history()),
            forall|more: Seq<Reply>|
                #[trigger] create_profile_run(old(self).device(), name@, cnc_level, spatial, wind_block, anc_toggle, seen(old(self).history(), final(self).history(), more))
                    == (made(old(self).history(), final(self).history()), res_view(r)),
    {
        let ghost h0 = self.history();
        let modes = match self.modes() {
            Ok(m) => m,
            Err(e) => return Err(e),
        };
        let ghost h1 = self.history();
        proof { lemma_no_exchange(h1); lemma_chain(h0, h1, h1); }
        let slot = match self.find_free_slot(&modes) {
            Ok(s) => s,
            Err(e) => return Err(e),
        };
        let w = self.write_mode(slot, name, cnc_level, spatial, wind_block, anc_toggle, 0, 0);
        proof { lemma_chain(h0, h1, self.history()); }
        match w {
            Ok(_) => Ok(slot),
            Err(e) => Err(e),
        }
    }

    /// Delete a custom profile by name.
    pub fn delete_profile(&mut self, name: &str) -> (r: BmapResult<()>)
        ensures
            final(self).device() == old(self).device(),
            final(self).link() == old(self).link(),
            extends(old(self).history(), final(self).history()),
            forall|more: Seq<Reply>|
                #[trigger] delete_profile_run(old(self).device(), name@, seen(old(self).history(), final(self).history(), more))
                    == (made(old(self).history(), final(self).history()), res_view(r)),
    {
        let ghost h0 = self.history();
        let modes = match self.modes() {
            Ok(m) => m,
            Err(e) => return Err(e),
        };
        let ghost h1 = self.history();
        proof { lemma_no_exchange(h1); lemma_chain(h0, h1, h1); }
        let ghost mv = modes@.map_values(|m: ModeConfig| m@);
        let mut j: usize = 0;
        let mut hit: Option<usize> = None;
        while j < modes.len()
            invariant_except_break
                hit is None,
            invariant
                j <= modes@.len(),
                mv == modes@.map_values(|m: ModeConfig| m@),
                mode_named(mv, name@, j as int) == mode_named(mv, name@, 0),
            ensures
                match mode_named(mv, name@, 0) {
                    Some(m) => hit matches Some(k) && k < modes@.len() && mv[k as int] == m,
                    None => hit is None,
                },
            decreases modes@.len() - j,
        {
            assert(mv[j as int] == modes@[j as int]@);
            if eq_ignore_ascii_case(modes[j].name.as_str(), name) {
                hit = Some(j);
                break;
            }
            j = j + 1;
        }
        let k = match hit {
            Some(k) => k,
            None => {
                let msg = String::from_str("Profile '").concat(name).concat("' not found");
                return Err(BmapError::InvalidArg(msg));
            },
        };
        assert(mv[k as int] == modes@[k as int]@);
        if !modes[k].editable {
            let msg = String::from_str("Cannot delete preset '").concat(name).concat("'");
            return Err(BmapError::InvalidArg(msg));
        }
        let idx = modes[k].mode_idx;
        let r = self.write_mode(idx, "None", 0, 0, false, false, 0, 0);
        proof { lemma_chain(h0, h1, self.history()); }
        r
    }

    /// Check if the device supports a feature.
    pub fn has_feature(&self, name: &str) -> (r: bool)
        ensures
            r == has_feature_spec(self.device(), name@),
    {
        if str_equal(name, "battery") { self.config.battery.is_some() }
        else if str_equal(name, "firmware") { self.config.firmware.is_some() }
        else if str_equal(name, "product_name") { self.config.product_name.is_some() }
        else if str_equal(name, "voice_prompts") { self.config.voice_prompts.is_some() }
        else if str_equal(name, "cnc") { self.config.cnc.is_some() }
        else if str_equal(name, "eq") { self.config.eq.is_some() }
        else if str_equal(name, "buttons") { self.config.buttons.is_some() }
        else if str_equal(name, "multipoint") { self.config.multipoint.is_some() }
        else if str_equal(name, "sidetone") { self.config.sidetone.is_some() }
        else if str_equal(name, "auto_pause") { self.config.auto_pause.is_some() }
        else if str_equal(name, "auto_answer") { self.config.auto_answer.is_some() }
        else if str_equal(name, "anr") { self.config.anr.is_some() }
        else if str_equal(name, "routing") { self.config.routing.is_some() }
        else if str_equal(name, "source") { self.config.source.is_some() }
        else if str_equal(name, "audio_settings") { self.config.audio_settings.is_some() }
        else if str_equal(name, "mode_config") { self.config.mode_config.is_some() }
        else { false }
    }
}

} // verus!
