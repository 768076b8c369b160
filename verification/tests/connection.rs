use std::cell::RefCell;
use std::collections::HashMap;

use bmap::connection::BmapConnection;
use bmap::device::Addr;
use bmap::devices;
use bmap::error::{BmapError, BmapResult};
use bmap::transport::Transport;

/// Mock transport that returns canned responses keyed by (fblock, func).
struct MockTransport {
    responses: HashMap<(u8, u8), Vec<u8>>,
    sent: RefCell<Vec<Vec<u8>>>,
}

impl MockTransport {
    fn new() -> Self {
        Self { responses: HashMap::new(), sent: RefCell::new(Vec::new()) }
    }

    fn add(&mut self, fblock: u8, func: u8, op: u8, payload: &[u8]) {
        let mut resp = vec![fblock, func, op, payload.len() as u8];
        resp.extend_from_slice(payload);
        self.responses.insert((fblock, func), resp);
    }
}

impl Transport for MockTransport {
    fn send_recv(&self, packet: &[u8]) -> BmapResult<Vec<u8>> {
        self.sent.borrow_mut().push(packet.to_vec());
        let key = (packet[0], packet[1]);
        self.responses
            .get(&key)
            .cloned()
            .ok_or_else(|| BmapError::Device { message: format!("No mock for {:?}", key), code: 4 })
    }

    fn send_recv_drain(&self, packet: &[u8]) -> BmapResult<Vec<u8>> {
        self.send_recv(packet)
    }
}

fn mock_qc_ultra2() -> BmapConnection<MockTransport> {
    let mut t = MockTransport::new();
    // Real capture data
    t.add(2, 2, 0x03, &[80, 0xff, 0xff, 0x00]); // battery 80%
    t.add(0, 5, 0x03, b"8.2.20+g34cf029"); // firmware
    t.add(1, 2, 0x03, b"\x00Fargo"); // name
    t.add(1, 5, 0x03, &[0x0b, 0x07, 0x03]); // cnc 7/10
    t.add(1, 7, 0x03, &[0xf6, 0x0a, 0x03, 0x00, 0xf6, 0x0a, 0xfe, 0x01, 0xf6, 0x0a, 0xfa, 0x02]); // eq
    t.add(1, 10, 0x03, &[0x07]); // multipoint on
    t.add(1, 11, 0x03, &[0x01, 0x02, 0x0f]); // sidetone medium
    t.add(1, 24, 0x03, &[0x01]); // auto_pause on
    t.add(1, 27, 0x03, &[0x01]); // auto_answer on
    t.add(1, 3, 0x03, &[0x21, 0, 0, 0x81, 2, 0, 0]); // prompts on, US English
    t.add(31, 3, 0x03, &[0x00]); // current mode: quiet
    t.add(1, 9, 0x03, &[0x80, 0x09, 0x0e, 0x00, 0x09, 0x40, 0x02]); // buttons
    BmapConnection::new(t, devices::qc_ultra2())
}

#[test]
fn test_battery() {
    assert_eq!(mock_qc_ultra2().battery().unwrap(), 80);
}

#[test]
fn test_firmware() {
    assert_eq!(mock_qc_ultra2().firmware().unwrap(), "8.2.20+g34cf029");
}

#[test]
fn test_name() {
    assert_eq!(mock_qc_ultra2().name().unwrap(), "Fargo");
}

#[test]
fn test_cnc() {
    let (cur, max) = mock_qc_ultra2().cnc().unwrap();
    assert_eq!(cur, 7);
    assert_eq!(max, 10);
}

#[test]
fn test_eq() {
    let bands = mock_qc_ultra2().eq().unwrap();
    assert_eq!(bands.len(), 3);
    assert_eq!(bands[0].name, "Bass");
    assert_eq!(bands[0].current, 3);
    assert_eq!(bands[1].current, -2);
    assert_eq!(bands[2].current, -6);
}

#[test]
fn test_multipoint() {
    assert!(mock_qc_ultra2().multipoint().unwrap());
}

#[test]
fn test_sidetone() {
    assert_eq!(mock_qc_ultra2().sidetone().unwrap(), "medium");
}

#[test]
fn test_auto_pause() {
    assert!(mock_qc_ultra2().auto_pause().unwrap());
}

#[test]
fn test_mode() {
    assert_eq!(mock_qc_ultra2().mode().unwrap(), "quiet");
}

#[test]
fn test_mode_idx() {
    assert_eq!(mock_qc_ultra2().mode_idx().unwrap(), 0);
}

#[test]
fn test_buttons() {
    let btn = mock_qc_ultra2().buttons().unwrap();
    assert_eq!(btn.button_name, "Shortcut");
    assert_eq!(btn.event_name, "long_press");
    assert_eq!(btn.action_name, "Disabled");
}

#[test]
fn test_status() {
    let s = mock_qc_ultra2().status().unwrap();
    assert_eq!(s.battery, 80);
    assert_eq!(s.mode, "quiet");
    assert_eq!(s.cnc_level, 7);
    assert_eq!(s.cnc_max, 10);
    assert_eq!(s.name, "Fargo");
    assert_eq!(s.firmware, "8.2.20+g34cf029");
    assert_eq!(s.sidetone, "medium");
    assert!(s.multipoint);
    assert!(s.auto_pause);
}

#[test]
fn test_config_access() {
    let dev = mock_qc_ultra2();
    assert_eq!(dev.config().info.name, "Bose QC Ultra Headphones 2");
    assert_eq!(dev.config().preset_modes.len(), 4);
}

#[test]
fn test_unsupported_feature() {
    // QC35 has no EQ
    let t = MockTransport::new();
    let mut dev = BmapConnection::new(t, devices::qc35());
    assert!(dev.eq().is_err());
}

#[test]
fn test_auth_error() {
    let mut t = MockTransport::new();
    t.add(1, 5, 0x04, &[5]); // ERROR: auth
    let mut dev = BmapConnection::new(t, devices::qc_ultra2());
    match dev.cnc() {
        Err(BmapError::Auth(_)) => (),
        other => panic!("Expected Auth error, got {:?}", other),
    }
}

#[test]
fn test_device_error() {
    let mut t = MockTransport::new();
    t.add(1, 5, 0x04, &[8]); // ERROR: runtime
    let mut dev = BmapConnection::new(t, devices::qc_ultra2());
    match dev.cnc() {
        Err(BmapError::Device { code, .. }) => assert_eq!(code, 8),
        other => panic!("Expected Device error, got {:?}", other),
    }
}

#[test]
fn test_status_tolerates_missing_features() {
    let mut t = MockTransport::new();
    t.add(2, 2, 0x03, &[50, 0xff, 0xff, 0x00]); // battery
    t.add(31, 3, 0x03, &[0x01]); // mode: aware
    // Everything else will error
    let mut dev = BmapConnection::new(t, devices::qc_ultra2());
    let s = dev.status().unwrap();
    assert_eq!(s.battery, 50);
    assert_eq!(s.mode, "aware");
    assert!(s.eq.is_empty());
    assert_eq!(s.name, "");
}

#[test]
fn test_has_feature() {
    let dev = mock_qc_ultra2();
    assert!(dev.has_feature("battery"));
    assert!(dev.has_feature("eq"));
    assert!(dev.has_feature("mode_config"));
    assert!(!dev.has_feature("nonexistent"));
}

#[test]
fn test_has_feature_qc35() {
    let t = MockTransport::new();
    let dev = BmapConnection::new(t, devices::qc35());
    assert!(dev.has_feature("battery"));
    assert!(!dev.has_feature("eq"));
    assert!(dev.has_feature("sidetone")); // QC35 has sidetone
    assert!(!dev.has_feature("mode_config"));
}

#[test]
fn test_set_prompts() {
    let mut t = MockTransport::new();
    // GET returns current: enabled=true, lang=US English (0x21)
    t.add(1, 3, 0x03, &[0x21, 0, 0, 0x81, 2, 0, 0]);
    let mut dev = BmapConnection::new(t, devices::qc_ultra2());
    // set_prompts reads current, then sends SETGET
    // Since our mock returns the same response for any op, this should succeed
    assert!(dev.set_prompts(false).is_ok());
}

#[test]
fn test_set_eq() {
    let mut t = MockTransport::new();
    t.add(1, 7, 0x03, &[0xf6, 0x0a, 0x03, 0x00]); // EQ response
    let mut dev = BmapConnection::new(t, devices::qc_ultra2());
    assert!(dev.set_eq(3, -2, 5).is_ok());
    // Verify 3 packets were sent (one per band)
    assert_eq!(dev.transport().sent.borrow().len(), 3);
}

#[test]
fn test_set_sidetone() {
    let mut t = MockTransport::new();
    t.add(1, 11, 0x03, &[0x01, 0x02, 0x0f]);
    let mut dev = BmapConnection::new(t, devices::qc_ultra2());
    assert!(dev.set_sidetone("low").is_ok());
}

#[test]
fn test_set_sidetone_invalid() {
    let t = MockTransport::new();
    let mut dev = BmapConnection::new(t, devices::qc_ultra2());
    assert!(dev.set_sidetone("loud").is_err());
}

#[test]
fn test_set_mode_preset() {
    let mut t = MockTransport::new();
    t.add(31, 3, 0x06, &[0x01]); // RESULT for mode switch
    let mut dev = BmapConnection::new(t, devices::qc_ultra2());
    assert!(dev.set_mode("aware", false).is_ok());
}

#[test]
fn test_set_mode_unknown() {
    let t = MockTransport::new();
    let mut dev = BmapConnection::new(t, devices::qc_ultra2());
    // "nonexistent" is not a preset, and modes() will fail (no mock for get_all_modes)
    assert!(dev.set_mode("nonexistent", false).is_err());
}

#[test]
fn test_prince_set_wind_uses_mode_config_fallback() {
    let music = vec![
        0x03, 0x00, 0x0c, 0x01, 0x01, 0x00, 0x4d, 0x75, 0x73, 0x69, 0x63, 0x00, 0x00, 0x00, 0x00, 0x00, 0x00,
        0x00, 0x00, 0x00, 0x00, 0x00, 0x00, 0x00, 0x00, 0x00, 0x00, 0x00, 0x00, 0x00, 0x00, 0x00, 0x00, 0x00,
        0x00, 0x00, 0x00, 0x00, 0x00, 0x00, 0x00, 0x09, 0x05, 0x00, 0x00, 0x00, 0x00,
    ];
    let mut t = MockTransport::new();
    t.add(31, 3, 0x03, &[3]); // current mode: Music
    let mut get_all = vec![31, 6, 0x03, music.len() as u8];
    get_all.extend_from_slice(&music);
    t.responses.insert((31, 1), get_all);
    t.add(31, 6, 0x03, &music);
    let mut dev = BmapConnection::new(t, devices::qc_prince());

    assert!(dev.set_wind(true).is_ok());

    let sent = dev.transport().sent.borrow();
    let last = sent.last().unwrap();
    assert_eq!(&last[..4], &[31, 6, 0x02, 39]);
    assert_eq!(last[4], 3);
    assert_eq!(last[4 + 35], 5);
    assert_eq!(last[4 + 38], 1);
}

#[test]
fn test_prince_set_anc_rejects_missing_toggle() {
    let t = MockTransport::new();
    let mut dev = BmapConnection::new(t, devices::qc_prince());
    assert!(dev.set_anc(false).is_err());
}

// ── Further dialogues ──────────────────────────────────────────────────────

#[test]
fn reads_send_one_get_each() {
    let mut dev = mock_qc_ultra2();
    dev.battery().unwrap();
    dev.firmware().unwrap();
    assert_eq!(*dev.transport().sent.borrow(), vec![vec![2, 2, 0x01, 0], vec![0, 5, 0x01, 0]]);
}

#[test]
fn unsupported_feature_sends_nothing_and_names_the_device() {
    let mut dev = BmapConnection::new(MockTransport::new(), devices::qc35());
    match dev.eq() {
        Err(BmapError::Unsupported(m)) => assert!(m.ends_with("does not support this feature")),
        other => panic!("Expected Unsupported, got {:?}", other),
    }
    assert!(dev.transport().sent.borrow().is_empty());
}

#[test]
fn empty_reply_is_a_timeout() {
    struct Silent;
    impl Transport for Silent {
        fn send_recv(&self, _packet: &[u8]) -> BmapResult<Vec<u8>> {
            Ok(Vec::new())
        }
        fn send_recv_drain(&self, packet: &[u8]) -> BmapResult<Vec<u8>> {
            self.send_recv(packet)
        }
    }
    let mut dev = BmapConnection::new(Silent, devices::qc_ultra2());
    match dev.battery() {
        Err(BmapError::Timeout(m)) => assert_eq!(m, "Empty response"),
        other => panic!("Expected Timeout, got {:?}", other),
    }
}

#[test]
fn set_eq_rejects_out_of_range_values_without_sending() {
    let mut dev = BmapConnection::new(MockTransport::new(), devices::qc_ultra2());
    match dev.set_eq(11, 0, 0) {
        Err(BmapError::InvalidArg(_)) => (),
        other => panic!("Expected InvalidArg, got {:?}", other),
    }
    assert!(dev.transport().sent.borrow().is_empty());
}

#[test]
fn set_mode_preset_sends_start_with_index() {
    let mut t = MockTransport::new();
    t.add(31, 3, 0x06, &[0x01]);
    let mut dev = BmapConnection::new(t, devices::qc_ultra2());
    dev.set_mode("aware", false).unwrap();
    let last = dev.transport().sent.borrow().last().unwrap().clone();
    assert_eq!(&last[..3], &[31, 3, 0x05]);
}

#[test]
fn set_name_and_multipoint_send_setget() {
    let mut t = MockTransport::new();
    t.add(1, 2, 0x03, b"\x00Bob");
    t.add(1, 10, 0x03, &[0x07]);
    let mut dev = BmapConnection::new(t, devices::qc_ultra2());
    dev.set_name("Bob").unwrap();
    dev.set_multipoint(true).unwrap();
    assert_eq!(dev.transport().sent.borrow()[0], vec![1, 2, 0x02, 3, b'B', b'o', b'b']);
    assert_eq!(dev.transport().sent.borrow()[1], vec![1, 10, 0x02, 1, 1]);
}

#[test]
fn source_and_prompts_and_auto_answer() {
    let mut dev = mock_qc_ultra2();
    assert_eq!(dev.prompts().unwrap(), (true, "US English"));
    assert!(dev.auto_answer().unwrap());
}

struct Scripted {
    replies: RefCell<Vec<BmapResult<Vec<u8>>>>,
    sent: RefCell<Vec<Vec<u8>>>,
}

impl Scripted {
    fn new(replies: Vec<BmapResult<Vec<u8>>>) -> Self {
        Self { replies: RefCell::new(replies), sent: RefCell::new(Vec::new()) }
    }
}

impl Transport for Scripted {
    fn send_recv(&self, packet: &[u8]) -> BmapResult<Vec<u8>> {
        self.sent.borrow_mut().push(packet.to_vec());
        self.replies.borrow_mut().remove(0)
    }
    fn send_recv_drain(&self, packet: &[u8]) -> BmapResult<Vec<u8>> {
        self.send_recv(packet)
    }
}

#[test]
fn init_and_probe_dialogues() {
    let mut dev = BmapConnection::new(Scripted::new(vec![]), devices::qc_ultra2());
    assert!(dev.send_init().is_ok());
    assert!(dev.transport().sent.borrow().is_empty());

    let replies = vec![Ok(vec![0, 1, 3, 0]), Ok(vec![0, 5, 0x03, 1, b'8'])];
    let mut dev = BmapConnection::new(Scripted::new(replies), devices::qc45());
    assert!(matches!(dev.config().init_packet, Some(Addr(0, 1))));
    assert!(dev.speaks_bmap());
    assert_eq!(*dev.transport().sent.borrow(), vec![vec![0, 1, 0x01, 0], vec![0, 5, 0x01, 0]]);

    let mut dev = BmapConnection::new(Scripted::new(vec![Ok(vec![0, 6, 0x03, 0])]), devices::qc_ultra2());
    assert!(!dev.speaks_bmap());

    let replies = vec![Err(BmapError::Timeout("x".to_string()))];
    let mut dev = BmapConnection::new(Scripted::new(replies), devices::qc45());
    assert!(!dev.speaks_bmap());
    assert_eq!(dev.transport().sent.borrow().len(), 1);
}

#[test]
fn features_reported_missing_are_refused_without_traffic() {
    for cfg in [devices::qc35(), devices::qc_prince(), devices::ultra_open()] {
        let mut dev = BmapConnection::new(MockTransport::new(), cfg);
        if !dev.has_feature("eq") {
            assert!(matches!(dev.eq(), Err(BmapError::Unsupported(_))));
        }
        if !dev.has_feature("anr") {
            assert!(matches!(dev.anr(), Err(BmapError::Unsupported(_))));
        }
        if !dev.has_feature("buttons") {
            assert!(matches!(dev.buttons(), Err(BmapError::Unsupported(_))));
        }
        if !dev.has_feature("source") {
            assert!(matches!(dev.source(), Err(BmapError::Unsupported(_))));
        }
        if !dev.has_feature("cnc") {
            assert!(matches!(dev.cnc(), Err(BmapError::Unsupported(_))));
        }
        assert!(dev.transport().sent.borrow().is_empty());
    }
}

#[test]
fn prince_mode_switch_acked_with_processing_succeeds() {
    let mut t = MockTransport::new();
    t.add(31, 3, 0x07, &[]); // PROCESSING
    let mut dev = BmapConnection::new(t, devices::qc_prince());
    assert!(dev.set_mode("quiet", false).is_ok());
    let mut t = MockTransport::new();
    t.add(31, 3, 0x03, &[0]); // STATUS is neither RESULT nor PROCESSING
    let mut dev = BmapConnection::new(t, devices::qc_prince());
    assert!(matches!(dev.set_mode("quiet", false), Err(BmapError::Device { code: 0, .. })));
}

#[test]
fn earbuds_write_cnc_directly() {
    let mut t = MockTransport::new();
    t.add(1, 5, 0x03, &[0x0b, 0x04, 0x03]);
    let mut dev = BmapConnection::new(t, devices::qc_earbuds());
    assert!(dev.set_cnc(4).is_ok());
    assert_eq!(*dev.transport().sent.borrow(), vec![vec![1, 5, 0x02, 2, 4, 1]]);
    let mut t = MockTransport::new();
    t.add(1, 5, 0x04, &[8]);
    let mut dev = BmapConnection::new(t, devices::qc_earbuds());
    assert!(matches!(dev.set_cnc(4), Err(BmapError::Device { code: 8, .. })));
    assert!(matches!(dev.set_cnc(11), Err(BmapError::InvalidArg(_))));
}

#[test]
fn set_prompts_keeps_language_and_sidetone_codes() {
    let mut t = MockTransport::new();
    t.add(1, 3, 0x03, &[0x21, 0, 0, 0x81, 2, 0, 0]);
    let mut dev = BmapConnection::new(t, devices::qc_ultra2());
    dev.set_prompts(false).unwrap();
    assert_eq!(dev.transport().sent.borrow()[1], vec![1, 3, 0x02, 1, 0x01]);
    let mut t = MockTransport::new();
    t.add(1, 11, 0x03, &[0x01, 0x02, 0x0f]);
    let mut dev = BmapConnection::new(t, devices::qc_ultra2());
    dev.set_sidetone("low").unwrap();
    dev.set_sidetone("med").unwrap();
    assert_eq!(dev.transport().sent.borrow()[0], vec![1, 11, 0x02, 2, 1, 3]);
    assert_eq!(dev.transport().sent.borrow()[1], vec![1, 11, 0x02, 2, 1, 2]);
}
