use bmap::devices::{qc35, qc_ultra2};
use bmap::error::BmapError;
use bmap::setup::{channel_candidates, resolve_target, ChannelProbe, FALLBACK_CHANNELS};

#[test]
fn explicit_mac_requires_device_type() {
    for device_type in [None, Some("")] {
        let result = resolve_target(Some("00:11:22:33:44:55"), device_type, None);
        assert!(matches!(result, Err(BmapError::InvalidArg(message))
            if message.contains("device_type is required")));
    }
}

#[test]
fn target_resolution_cases() {
    let (mac, cfg) = resolve_target(Some("00:11:22:33:44:55"), Some("qc35"), None).unwrap();
    assert_eq!(mac, "00:11:22:33:44:55");
    assert_eq!(cfg.info.name, qc35().info.name);

    let detected = Some(("AA:AA:AA:AA:AA:AA".to_string(), "qc_ultra2".to_string()));
    let (mac, cfg) = resolve_target(None, None, detected.clone()).unwrap();
    assert_eq!(mac, "AA:AA:AA:AA:AA:AA");
    assert_eq!(cfg.info.name, qc_ultra2().info.name);

    let (_, cfg) = resolve_target(Some(""), Some("qc35"), detected).unwrap();
    assert_eq!(cfg.info.name, qc35().info.name);

    match resolve_target(None, None, None) {
        Err(BmapError::NotFound(m)) => assert!(m.starts_with("No connected BMAP device found")),
        other => panic!("unexpected {:?}", other.map(|p| p.0)),
    }
    match resolve_target(Some("00:11:22:33:44:55"), Some("qc99"), None) {
        Err(BmapError::InvalidArg(m)) => assert_eq!(m, "Unknown device: qc99"),
        other => panic!("unexpected {:?}", other.map(|p| p.0)),
    }
}

#[test]
fn candidates_put_configured_channel_first_without_repeats() {
    assert_eq!(FALLBACK_CHANNELS, [2, 8, 9]);
    assert_eq!(channel_candidates(2), vec![2, 8, 9]);
    assert_eq!(channel_candidates(8), vec![8, 2, 9]);
    assert_eq!(channel_candidates(5), vec![5, 2, 8, 9]);
}

#[test]
fn probe_walks_candidates_and_keeps_first_error() {
    let mut p = ChannelProbe::new(8);
    assert_eq!(p.next_channel(), Some(8));
    assert!(p.is_configured());
    p.connect_failed(BmapError::Connection("refused".to_string()));
    assert_eq!(p.next_channel(), Some(2));
    assert!(!p.is_configured());
    p.probe_failed();
    p.connect_failed(BmapError::Timeout("late".to_string()));
    assert_eq!(p.next_channel(), None);
    match p.exhausted_error("AA:BB") {
        BmapError::Connection(m) => {
            assert_eq!(m, "No BMAP channel found on AA:BB (tried 8, 2, 9): Connection error: refused")
        },
        other => panic!("unexpected {:?}", other),
    }
    let q = ChannelProbe::new(2);
    match q.exhausted_error("X") {
        BmapError::Connection(m) => assert_eq!(m, "No BMAP channel found on X (tried 2, 8, 9): "),
        other => panic!("unexpected {:?}", other),
    }
}

#[test]
fn candidates_cover_every_fallback_once() {
    for ch in 0..=20u8 {
        let c = channel_candidates(ch);
        assert_eq!(c[0], ch);
        for f in FALLBACK_CHANNELS {
            assert_eq!(c.iter().filter(|&&x| x == f).count(), 1);
        }
        let mut sorted = c.clone();
        sorted.sort();
        sorted.dedup();
        assert_eq!(sorted.len(), c.len());
    }
}
