use bmap::discovery::{
    classify_device, describes_bmap_audio, detect_device_type, find_bmap_device, has_malformed_modalias,
    paired_device_mac, DiscoveredDevice,
};

#[test]
fn test_macos_discovery_returns_none() {
    let dev = find_bmap_device(&Vec::new());
    assert!(dev.is_none());
}

fn cand(mac: &str, ty: &str, connected: bool) -> DiscoveredDevice {
    DiscoveredDevice { mac: mac.to_string(), device_type: ty.to_string(), connected }
}

#[test]
fn find_prefers_connected_then_first() {
    let v = vec![cand("A", "qc35", false), cand("B", "qc45", true), cand("C", "qc45", true)];
    assert_eq!(find_bmap_device(&v), Some(("B".to_string(), "qc45".to_string())));
    let v = vec![cand("A", "qc35", false), cand("B", "qc45", false)];
    assert_eq!(find_bmap_device(&v), Some(("A".to_string(), "qc35".to_string())));
}

#[test]
fn paired_lines_give_their_mac() {
    assert_eq!(paired_device_mac("Device AA:BB:CC:DD:EE:FF Bose QC"), Some("AA:BB:CC:DD:EE:FF".to_string()));
    assert_eq!(paired_device_mac("Device"), None);
}

const INFO: &str = "Device AA:BB:CC:DD:EE:FF (public)\n\tName: Bose\n\tIcon: audio-headphones\n\tConnected: yes\n\tUUID: Vendor specific (00000000-deca-fade-deca-deafdecacaff)\n\tModalias: bluetooth:v009Ep4020d0106\n";

#[test]
fn modalias_selects_device_type() {
    assert_eq!(detect_device_type(INFO), "qc35");
    assert_eq!(detect_device_type("Modalias: bluetooth:v009Ep4082d0000"), "qc_ultra2");
    assert_eq!(detect_device_type("Modalias: bluetooth:v009Ep4024d0000"), "qc_ultra2");
    assert_eq!(detect_device_type("nothing here"), "qc_ultra2");
    assert_eq!(detect_device_type("Modalias: usb:v05A7p4020"), "qc_ultra2");
}

#[test]
fn classify_reads_candidates() {
    assert!(describes_bmap_audio(INFO));
    let d = classify_device("AA:BB:CC:DD:EE:FF", INFO).unwrap();
    assert_eq!(d.mac, "AA:BB:CC:DD:EE:FF");
    assert_eq!(d.device_type, "qc35");
    assert!(d.connected);
    assert!(classify_device("AA", "Icon: audio-headphones\n").is_none());
    assert!(!describes_bmap_audio("Icon: phone"));
}

#[test]
fn malformed_modalias_is_detected() {
    assert!(!has_malformed_modalias(INFO));
    assert!(has_malformed_modalias("Modalias: bluetooth:v000é020d0106"));
}
