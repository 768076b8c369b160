//! The transport abstraction over which connections run their dialogues,
//! and MAC address parsing for Bluetooth sockets.

use vstd::prelude::*;
use vstd::string::StringExecFns;

use crate::error::{res_view, BmapError, BmapResult, ErrorView};
use crate::device::routing_spec;
use crate::text::{chars_of, parse_hex, parse_hex_spec, split_spec, split_str, strs_view};

verus! {

/// What came back for a packet: the raw bytes received, or the transport's error.
pub type Reply = Result<Seq<u8>, ErrorView>;

/// One exchange over a transport: the packet sent, whether the reply was
/// drained (every frame that arrived), and the reply.
pub type Exchange = (Seq<u8>, bool, Reply);

/// Transport abstraction for sending/receiving BMAP packets.
///
/// Implemented over a real Bluetooth socket by the application, and by mocks
/// in tests. Nothing is assumed of what a transport answers: a connection
/// keeps its own record of the packets it sent and the replies it received.
pub trait Transport {
    /// Send a packet and return the first reply.
    fn send_recv(&self, packet: &[u8]) -> BmapResult<Vec<u8>>;

    /// Send a packet and return everything that arrives until the device goes quiet.
    fn send_recv_drain(&self, packet: &[u8]) -> BmapResult<Vec<u8>>;
}

/// The index of the first of `parts`, from `i` on, that is not a hexadecimal
/// byte, if there is one.
pub open spec fn first_bad_byte(parts: Seq<Seq<char>>, i: int) -> Option<int>
    decreases parts.len() - i,
{
    if i < 0 || i >= parts.len() {
        None
    } else if parse_hex_spec(parts[i], 255) is None {
        Some(i)
    } else {
        first_bad_byte(parts, i + 1)
    }
}

/// What `parse_mac` gives for a text: six colon-separated hexadecimal bytes,
/// in reverse order (the order BlueZ stores them in); otherwise a connection
/// error naming the address, or the first part that is not a byte.
pub open spec fn parse_mac_spec(mac: Seq<char>) -> Result<Seq<u8>, ErrorView> {
    let parts = split_spec(mac, ':');
    if parts.len() != 6 {
        Err(ErrorView::Connection("Invalid MAC address: "@ + mac))
    } else {
        match first_bad_byte(parts, 0) {
            Some(i) => Err(ErrorView::Connection("Invalid MAC byte: "@ + parts[i])),
            None => Ok(Seq::new(6, |k: int| parse_hex_spec(parts[5 - k], 255).unwrap() as u8)),
        }
    }
}

/// Parse a "AA:BB:CC:DD:EE:FF" MAC string into bytes (reversed for BlueZ).
pub fn parse_mac(mac: &str) -> (r: BmapResult<[u8; 6]>)
    ensures
        res_view(r) == parse_mac_spec(mac@),
{
    let parts = split_str(mac, ':');
    if parts.len() != 6 {
        return Err(BmapError::Connection(String::from_str("Invalid MAC address: ").concat(mac)));
    }
    let ghost ps = strs_view(parts@);
    assert(ps.len() == 6);
    let mut addr = [0u8; 6];
    let mut i: usize = 0;
    while i < 6
        invariant
            i <= 6,
            parts@.len() == 6,
            ps == strs_view(parts@),
            ps == split_spec(mac@, ':'),
            addr@.len() == 6,
            first_bad_byte(ps, 0) == first_bad_byte(ps, i as int),
            forall|j: int| 0 <= j < i ==> (#[trigger] parse_hex_spec(ps[j], 255)) is Some,
            forall|j: int| 0 <= j < i ==> addr@[5 - j] == parse_hex_spec(ps[j], 255).unwrap() as u8,
        decreases 6 - i,
    {
        let part = parts[i];
        assert(part@ == ps[i as int]);
        let cs = chars_of(part);
        match parse_hex(&cs, 255) {
            Some(v) => {
                addr[5 - i] = v as u8;
                i = i + 1;
            },
            None => {
                return Err(BmapError::Connection(String::from_str("Invalid MAC byte: ").concat(part)));
            },
        }
    }
    assert(first_bad_byte(ps, 6) is None);
    assert(addr@ =~= Seq::new(6, |k: int| parse_hex_spec(ps[5 - k], 255).unwrap() as u8));
    Ok(addr)
}

proof fn lemma_first_bad_byte(parts: Seq<Seq<char>>, i: int)
    requires
        0 <= i <= parts.len(),
    ensures
        (first_bad_byte(parts, i) is None) == (forall|j: int|
            i <= j < parts.len() ==> (#[trigger] parse_hex_spec(parts[j], 255)) is Some),
    decreases parts.len() - i,
{
    if i < parts.len() {
        lemma_first_bad_byte(parts, i + 1);
    }
}

/// `parse_mac` accepts exactly the MAC texts from which a routing payload is
/// built, and gives their bytes in reverse of the order the payload carries
/// them after its flag byte (BlueZ stores addresses reversed).
pub proof fn lemma_parse_mac_matches_routing(mac: Seq<char>)
    ensures
        (parse_mac_spec(mac) is Ok) == (routing_spec(mac) is Ok),
        match (parse_mac_spec(mac), routing_spec(mac)) {
            (Ok(addr), Ok(payload)) => addr.len() == 6 && payload.len() == 7
                && forall|i: int| 0 <= i < 6 ==> #[trigger] payload[1 + i] == addr[5 - i],
            _ => true,
        },
{
    let parts = split_spec(mac, ':');
    if parts.len() == 6 {
        lemma_first_bad_byte(parts, 0);
        if first_bad_byte(parts, 0) is Some {
            let j = choose|j: int| 0 <= j < 6 && !(parse_hex_spec(parts[j], 255) is Some);
            assert(parse_hex_spec(parts[j], 255) is None);
        }
    }
}

} // verus!
