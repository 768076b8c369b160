//! Setting up a connection: which device and address to talk to, which
//! RFCOMM channels to try and in what order, and how a channel is confirmed
//! to speak BMAP.
//!
//! Opening sockets is the application's part; it asks [`ChannelProbe`] which
//! channel to try next and reports back what happened.

use vstd::prelude::*;
use vstd::string::StringExecFns;

use crate::device::DeviceConfig;
use crate::devices::{device_named, get_device};
use crate::error::{describe_view, BmapError, BmapResult, ErrorView};
use crate::text::{dec_text, push_dec};

verus! {

/// RFCOMM channels BMAP has been observed on. The channel a unit exposes can
/// vary with firmware and with which profiles bluetoothd has already claimed,
/// so the device's configured channel is a first guess rather than a fact.
pub const FALLBACK_CHANNELS: [u8; 3] = [2, 8, 9];

/// The fallback channels as a sequence.
pub open spec fn fallback_channels() -> Seq<u8> {
    seq![2u8, 8u8, 9u8]
}

/// `s` with every occurrence of `c` removed, order kept.
pub open spec fn without(s: Seq<u8>, c: u8) -> Seq<u8>
    decreases s.len(),
{
    if s.len() == 0 {
        s
    } else if s.last() == c {
        without(s.drop_last(), c)
    } else {
        without(s.drop_last(), c).push(s.last())
    }
}

/// The channels to try, in order: the configured one, then each fallback
/// that differs from it.
pub open spec fn candidates_spec(channel: u8) -> Seq<u8> {
    seq![channel] + without(fallback_channels(), channel)
}

/// The channels to try for a device configured on `channel`.
pub fn channel_candidates(channel: u8) -> (v: Vec<u8>)
    ensures
        v@ == candidates_spec(channel),
{
    let mut v: Vec<u8> = Vec::new();
    v.push(channel);
    let mut i: usize = 0;
    assert(FALLBACK_CHANNELS@ == fallback_channels());
    assert(fallback_channels().take(0) =~= Seq::<u8>::empty());
    while i < 3
        invariant
            i <= 3,
            FALLBACK_CHANNELS@ == fallback_channels(),
            v@ == seq![channel] + without(fallback_channels().take(i as int), channel),
        decreases 3 - i,
    {
        let c = FALLBACK_CHANNELS[i];
        assert(fallback_channels().take(i + 1).drop_last() =~= fallback_channels().take(i as int));
        if c != channel {
            v.push(c);
            assert(v@ =~= seq![channel] + without(fallback_channels().take(i + 1), channel));
        }
        i = i + 1;
    }
    assert(fallback_channels().take(3) =~= fallback_channels());
    v
}

/// The channels to try start with the configured one, hold no channel
/// twice, and include every fallback channel.
pub proof fn lemma_candidates_cover(channel: u8)
    ensures
        candidates_spec(channel)[0] == channel,
        forall|i: int, j: int|
            0 <= i < j < candidates_spec(channel).len() ==> #[trigger] candidates_spec(channel)[i]
                != #[trigger] candidates_spec(channel)[j],
        forall|k: int| 0 <= k < 3 ==> candidates_spec(channel).contains(#[trigger] fallback_channels()[k]),
{
    reveal_with_fuel(without, 4);
    let f = fallback_channels();
    assert(f.drop_last() =~= seq![2u8, 8u8]);
    assert(f.drop_last().drop_last() =~= seq![2u8]);
    assert(f.drop_last().drop_last().drop_last() =~= Seq::<u8>::empty());
    let c = candidates_spec(channel);
    if channel == 2 {
        assert(c =~= seq![2u8, 8u8, 9u8]);
    } else if channel == 8 {
        assert(c =~= seq![8u8, 2u8, 9u8]);
    } else if channel == 9 {
        assert(c =~= seq![9u8, 2u8, 8u8]);
    } else {
        assert(c =~= seq![channel, 2u8, 8u8, 9u8]);
    }
    assert forall|k: int| 0 <= k < 3 implies c.contains(#[trigger] f[k]) by {
        if channel == 2 {
            assert(c[0] == 2 && c[1] == 8 && c[2] == 9);
        } else if channel == 8 {
            assert(c[1] == 2 && c[0] == 8 && c[2] == 9);
        } else if channel == 9 {
            assert(c[1] == 2 && c[2] == 8 && c[0] == 9);
        } else {
            assert(c[1] == 2 && c[2] == 8 && c[3] == 9);
        }
    }
}

/// An optional text, with the empty text counted as absent.
pub open spec fn given(s: Option<Seq<char>>) -> Option<Seq<char>> {
    match s {
        Some(t) => if t.len() > 0 { Some(t) } else { None },
        None => None,
    }
}

/// The view of an optional string slice.
pub open spec fn opt_view(s: Option<&str>) -> Option<Seq<char>> {
    match s {
        Some(t) => Some(t@),
        None => None,
    }
}

/// Which address and device type a connection goes to. An explicit MAC needs
/// an explicit device type. Without a MAC, the detected device is used, and an
/// explicit device type overrides the detected one. Empty texts count as absent.
pub open spec fn target_spec(
    mac: Option<Seq<char>>,
    device_type: Option<Seq<char>>,
    detected: Option<(Seq<char>, Seq<char>)>,
) -> Result<(Seq<char>, Seq<char>), ErrorView> {
    match given(mac) {
        Some(m) => match given(device_type) {
            Some(t) => Ok((m, t)),
            None => Err(ErrorView::InvalidArg("device_type is required when mac is specified"@)),
        },
        None => match detected {
            None => Err(
                ErrorView::NotFound(
                    "No connected BMAP device found. Pair and connect via bluetoothctl or pass --mac"@,
                ),
            ),
            Some(d) => match given(device_type) {
                Some(t) => Ok((d.0, t)),
                None => Ok(d),
            },
        },
    }
}

/// Resolve the address and device configuration a connection goes to.
///
/// `detected` is what discovery found (MAC, device type); it is consulted
/// only when no MAC is given. The device type must name a known device.
pub fn resolve_target(
    mac: Option<&str>,
    device_type: Option<&str>,
    detected: Option<(String, String)>,
) -> (r: BmapResult<(String, DeviceConfig)>)
    ensures
        ({
            let det = match detected {
                Some(d) => Some((d.0@, d.1@)),
                None => None,
            };
            match (target_spec(opt_view(mac), opt_view(device_type), det), r) {
                (Err(e), Err(e2)) => e2@ == e,
                (Ok(t), Ok(got)) => got.0@ == t.0 && device_named(t.1, Some(got.1)),
                (Ok(t), Err(e2)) => device_named(t.1, None) && e2@ == ErrorView::InvalidArg(
                    "Unknown device: "@ + t.1,
                ),
                (Err(_), Ok(_)) => false,
            }
        }),
{
    let mac = match mac {
        Some(m) => if m.unicode_len() > 0 { Some(m) } else { None },
        None => None,
    };
    let device_type = match device_type {
        Some(t) => if t.unicode_len() > 0 { Some(t) } else { None },
        None => None,
    };
    let (addr, dtype) = match mac {
        Some(m) => match device_type {
            Some(t) => (String::from_str(m), String::from_str(t)),
            None => {
                return Err(BmapError::InvalidArg(String::from_str("device_type is required when mac is specified")));
            },
        },
        None => match detected {
            None => {
                return Err(
                    BmapError::NotFound(
                        String::from_str(
                            "No connected BMAP device found. Pair and connect via bluetoothctl or pass --mac",
                        ),
                    ),
                );
            },
            Some(d) => match device_type {
                Some(t) => (d.0, String::from_str(t)),
                None => d,
            },
        },
    };
    match get_device(dtype.as_str()) {
        Some(config) => Ok((addr, config)),
        None => Err(BmapError::InvalidArg(String::from_str("Unknown device: ").concat(dtype.as_str()))),
    }
}

/// Channels written as decimal numbers separated by `", "`.
pub open spec fn channels_text(cs: Seq<u8>) -> Seq<char>
    decreases cs.len(),
{
    if cs.len() == 0 {
        Seq::empty()
    } else if cs.len() == 1 {
        dec_text(cs[0])
    } else {
        channels_text(cs.drop_last()) + ", "@ + dec_text(cs.last())
    }
}

/// The mathematical value of a [`ChannelProbe`].
pub struct ProbeView {
    /// The channels to try, in order.
    pub candidates: Seq<u8>,
    /// How many of them have been tried and given up on.
    pub next: nat,
    /// The error of the first connection attempt that failed, if any.
    pub first_error: Option<ErrorView>,
}

/// The search for a channel that speaks BMAP: the configured channel first,
/// then the fallbacks. A connection on the configured channel is trusted;
/// one on a fallback must answer a firmware GET first.
pub struct ChannelProbe {
    candidates: Vec<u8>,
    next: usize,
    first_error: Option<BmapError>,
}

impl View for ChannelProbe {
    type V = ProbeView;

    closed spec fn view(&self) -> ProbeView {
        ProbeView {
            candidates: self.candidates@,
            next: self.next as nat,
            first_error: match self.first_error {
                Some(e) => Some(e@),
                None => None,
            },
        }
    }
}

/// The error reported when no channel worked: the address, the channels
/// tried, and the description of the first connection error (empty if none).
pub open spec fn exhausted_spec(mac: Seq<char>, p: ProbeView, first: Seq<char>) -> ErrorView {
    ErrorView::Connection(
        "No BMAP channel found on "@ + mac + " (tried "@ + channels_text(p.candidates) + "): "@ + first,
    )
}

impl ChannelProbe {
    #[verifier::type_invariant]
    closed spec fn inv(self) -> bool {
        self.next <= self.candidates@.len()
    }

    /// A probe for a device configured on `channel`, with nothing tried yet.
    pub fn new(channel: u8) -> (p: Self)
        ensures
            p@.candidates == candidates_spec(channel),
            p@.next == 0,
            p@.first_error is None,
    {
        ChannelProbe { candidates: channel_candidates(channel), next: 0, first_error: None }
    }

    /// The channel to try next, or `None` once every candidate was tried.
    pub fn next_channel(&self) -> (c: Option<u8>)
        ensures
            self@.next < self@.candidates.len() ==> c == Some(self@.candidates[self@.next as int]),
            self@.next >= self@.candidates.len() ==> c is None,
    {
        proof {
            use_type_invariant(self);
        }
        if self.next < self.candidates.len() {
            Some(self.candidates[self.next])
        } else {
            None
        }
    }

    /// Whether the channel to try next is the configured one, which is
    /// trusted once it connects.
    pub fn is_configured(&self) -> (b: bool)
        ensures
            b == (self@.next == 0),
    {
        self.next == 0
    }

    /// Connecting on the current channel failed with `e`: keep the first such
    /// error and move on to the next channel.
    pub fn connect_failed(&mut self, e: BmapError)
        ensures
            final(self)@.candidates == old(self)@.candidates,
            final(self)@.next == (if old(self)@.next < old(self)@.candidates.len() {
                old(self)@.next + 1
            } else {
                old(self)@.next
            }),
            final(self)@.first_error == (match old(self)@.first_error {
                Some(f) => Some(f),
                None => Some(e@),
            }),
    {
        proof {
            use_type_invariant(&*self);
        }
        if self.first_error.is_none() {
            self.first_error = Some(e);
        }
        if self.next < self.candidates.len() {
            self.next = self.next + 1;
        }
    }

    /// The current channel connected but did not answer as a BMAP device:
    /// move on to the next channel.
    pub fn probe_failed(&mut self)
        ensures
            final(self)@.candidates == old(self)@.candidates,
            final(self)@.first_error == old(self)@.first_error,
            final(self)@.next == (if old(self)@.next < old(self)@.candidates.len() {
                old(self)@.next + 1
            } else {
                old(self)@.next
            }),
    {
        proof {
            use_type_invariant(&*self);
        }
        if self.next < self.candidates.len() {
            self.next = self.next + 1;
        }
    }

    /// The error to report once every channel failed for the device at `mac`.
    pub fn exhausted_error(&self, mac: &str) -> (e: BmapError)
        ensures
            e@ == exhausted_spec(
                mac@,
                self@,
                match self@.first_error {
                    Some(f) => describe_view(f),
                    None => Seq::empty(),
                },
            ),
    {
        let mut msg = String::from_str("No BMAP channel found on ");
        msg.append(mac);
        msg.append(" (tried ");
        let n = self.candidates.len();
        let mut i: usize = 0;
        let ghost base = msg@;
        assert(self.candidates@.take(0) =~= Seq::<u8>::empty());
        while i < n
            invariant
                n == self.candidates@.len(),
                i <= n,
                msg@ == base + channels_text(self.candidates@.take(i as int)),
            decreases n - i,
        {
            assert(self.candidates@.take(i + 1).drop_last() =~= self.candidates@.take(i as int));
            if i > 0 {
                msg.append(", ");
            }
            push_dec(&mut msg, self.candidates[i]);
            i = i + 1;
        }
        assert(self.candidates@.take(n as int) =~= self.candidates@);
        msg.append("): ");
        match &self.first_error {
            Some(f) => {
                let d = f.describe();
                msg.append(d.as_str());
            },
            None => {},
        }
        BmapError::Connection(msg)
    }
}

} // verus!
