use bmap::catalog::{is_supported, lookup_device, modalias, supported_devices, usb_ids, BOSE_USB_VID};
use bmap::devices::get_device;

#[test]
fn test_lookup_known() {
    let dev = lookup_device(0x4082).unwrap();
    assert_eq!(dev.codename, "wolverine");
    assert_eq!(dev.name, "QuietComfort Ultra Headphones (2nd Gen)");
    assert_eq!(dev.config, Some("qc_ultra2"));
}

#[test]
fn test_lookup_qc35_original() {
    let dev = lookup_device(0x400C).unwrap();
    assert_eq!(dev.codename, "wolfcastle");
    assert_eq!(dev.config, Some("qc35"));
}

#[test]
fn test_lookup_qc_ultra2_earbuds() {
    let dev = lookup_device(0x4062).unwrap();
    assert_eq!(dev.codename, "edith");
    assert_eq!(dev.config, Some("qc_ultra2"));
}

#[test]
fn test_lookup_qc_prince() {
    let dev = lookup_device(0x4075).unwrap();
    assert_eq!(dev.codename, "prince");
    assert_eq!(dev.config, Some("qc_prince"));
}

#[test]
fn test_lookup_unknown() {
    assert!(lookup_device(0xFFFF).is_none());
}

#[test]
fn test_is_supported() {
    assert!(is_supported(0x4082)); // wolverine
    assert!(is_supported(0x4062)); // edith
    assert!(is_supported(0x4075)); // prince
    assert!(is_supported(0x402F)); // lando
    assert!(is_supported(0x4039)); // duran
    assert!(is_supported(0x4020)); // baywolf
    assert!(is_supported(0x400C)); // wolfcastle
    assert!(!is_supported(0x4024)); // NCH 700, no config
    assert!(!is_supported(0xFFFF));
}

#[test]
fn test_supported_devices() {
    let devs = supported_devices();
    assert!(devs.len() >= 4); // wolfcastle, baywolf, edith, wolverine
    assert!(devs.iter().all(|d| d.config.is_some()));
}

#[test]
fn test_usb_ids() {
    let (vid, pid) = usb_ids(0x4082).unwrap();
    assert_eq!(vid, 0x05A7);
    assert_eq!(pid, 0x4082);
    assert!(usb_ids(0xFFFF).is_none());
}

#[test]
fn test_modalias() {
    let m = modalias(0x4082).unwrap();
    assert_eq!(m, "bluetooth:v05A7p4082d0000");
    assert!(modalias(0xFFFF).is_none());
}

#[test]
fn catalog_lookup_finds_every_supported_device() {
    for d in supported_devices() {
        let found = lookup_device(d.product_id).unwrap();
        assert_eq!(found.codename, d.codename);
        assert!(is_supported(d.product_id));
    }
}

#[test]
fn modalias_pads_small_product_ids_with_uppercase_hex() {
    assert_eq!(modalias(0x400C).unwrap(), "bluetooth:v05A7p400Cd0000");
    assert_eq!(BOSE_USB_VID, 0x05A7);
}

#[test]
fn every_catalog_config_key_has_a_feature_table() {
    for d in supported_devices() {
        assert!(get_device(d.config.unwrap()).is_some());
    }
}
