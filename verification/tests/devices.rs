use bmap::device::Addr;
use bmap::devices::{get_device, qc35, qc45, qc_earbuds, qc_prince, qc_ultra2, ultra_open};

#[test]
fn test_qc_ultra2_has_all_features() {
    let dev = qc_ultra2();
    assert!(dev.battery.is_some());
    assert!(dev.eq.is_some());
    assert!(dev.mode_config.is_some());
    assert_eq!(dev.preset_modes.len(), 4);
    assert_eq!(dev.editable_slots.len(), 7);
    assert!(dev.build_mode_config.is_some());
}

#[test]
fn test_qc_prince_channel_and_mode_layout() {
    let dev = qc_prince();
    assert_eq!(dev.info.codename, "prince");
    assert_eq!(dev.rfcomm_channel, 8);
    assert!(dev.mode_config.is_some());
    assert!(dev.audio_settings.is_none());
    assert!(!dev.supports_anc_toggle);
    assert_eq!(dev.editable_slots, &[2, 3]);
}

#[test]
fn test_qc35_no_eq() {
    let dev = qc35();
    assert!(dev.eq.is_none());
    assert!(dev.mode_config.is_none());
    assert!(dev.editable_slots.is_empty());
}

#[test]
fn test_get_device() {
    assert!(get_device("qc_ultra2").is_some());
    assert!(get_device("qc35").is_some());
    assert!(get_device("qc_prince").is_some());
    assert!(get_device("qc_earbuds").is_some());
    assert!(get_device("qc45").is_some());
    assert!(get_device("ultra_open").is_some());
    assert!(get_device("nonexistent").is_none());
}

#[test]
fn test_qc_earbuds_direct_cnc_no_profile_editing() {
    let dev = qc_earbuds();
    assert!(dev.cnc_direct_setget);
    assert!(dev.build_mode_config.is_none());
    assert!(dev.editable_slots.is_empty());
    assert!(dev.audio_settings.is_none());
}

#[test]
fn test_qc45_shares_prince_mode_layout() {
    let dev = qc45();
    assert!(matches!(dev.init_packet, Some(Addr(0, 1))));
    assert!(dev.eq.is_some());
    assert!(!dev.supports_anc_toggle);
    assert_eq!(dev.editable_slots, &[2, 3]);
}

#[test]
fn get_device_returns_the_named_config() {
    assert_eq!(get_device("qc35").unwrap().rfcomm_channel, qc35().rfcomm_channel);
    assert_eq!(get_device("ultra_open").unwrap().info.name, ultra_open().info.name);
    assert!(get_device("QC35").is_none());
    assert!(get_device("").is_none());
}

#[test]
fn every_usage_device_name_is_accepted() {
    for name in ["qc_ultra2", "qc_ultra2_earbuds", "qc_prince", "qc35", "qc_earbuds", "qc45", "ultra_open"] {
        assert!(get_device(name).is_some(), "{}", name);
    }
    assert_eq!(get_device("qc_ultra2_earbuds").unwrap().info.name, qc_ultra2().info.name);
}
