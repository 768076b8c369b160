use bmap::device::{
    action_id_from_name, build_buttons, build_mode_config_39, build_mode_config_40, build_routing,
    button_id_from_name, event_id_from_name, parse_anr, parse_battery, parse_bool, parse_buttons, parse_cnc,
    parse_eq, parse_firmware, parse_mode_config_44, parse_mode_config_prince, parse_mode_config_qc_ultra2,
    parse_multipoint, parse_product_name, parse_sidetone, parse_source, parse_voice_prompts,
};

#[test]
fn test_parse_battery() {
    assert_eq!(parse_battery(&[0x50, 0xff, 0xff, 0x00]), Some(0x50));
    assert_eq!(parse_battery(&[]), None);
}

#[test]
fn test_parse_firmware() {
    let payload = b"8.2.20+g34cf029";
    assert_eq!(parse_firmware(payload), "8.2.20+g34cf029");
}

#[test]
fn test_parse_product_name() {
    let payload = b"\x00Fargo";
    assert_eq!(parse_product_name(payload), "Fargo");
}

#[test]
fn test_parse_cnc() {
    assert_eq!(parse_cnc(&[0x0b, 0x07, 0x03]), (7, 10));
}

#[test]
fn test_parse_eq() {
    let payload = vec![0xf6, 0x0a, 0x03, 0x00, 0xf6, 0x0a, 0xfe, 0x01, 0xf6, 0x0a, 0xfa, 0x02];
    let bands = parse_eq(&payload);
    assert_eq!(bands.len(), 3);
    assert_eq!(bands[0].name, "Bass");
    assert_eq!(bands[0].current, 3);
    assert_eq!(bands[1].current, -2);
    assert_eq!(bands[2].current, -6);
}

#[test]
fn test_parse_multipoint() {
    assert!(parse_multipoint(&[0x07]));
    assert!(!parse_multipoint(&[0x01]));
    assert!(!parse_multipoint(&[]));
}

#[test]
fn test_parse_buttons() {
    let payload = vec![0x80, 0x09, 0x0e, 0x00, 0x09, 0x40, 0x02];
    let btn = parse_buttons(&payload).unwrap();
    assert_eq!(btn.button_name, "Shortcut");
    assert_eq!(btn.event_name, "long_press");
    assert_eq!(btn.action_name, "Disabled");
}

#[test]
fn test_parse_buttons_qc35_action() {
    let payload = vec![0x10, 0x04, 0x01, 0x07];
    let btn = parse_buttons(&payload).unwrap();
    assert_eq!(btn.button_name, "Action");
    assert_eq!(btn.event_name, "single_press");
    assert_eq!(btn.action_name, "VPA");
}

#[test]
fn test_build_buttons() {
    assert_eq!(build_buttons(0x10, 0x04, 0x02), vec![0x10, 0x04, 0x02]);
}

#[test]
fn test_button_name_resolution() {
    assert_eq!(button_id_from_name("Action"), Some(16));
    assert_eq!(button_id_from_name("Shortcut"), Some(128));
    assert_eq!(button_id_from_name("nope"), None);
    assert_eq!(event_id_from_name("single_press"), Some(4));
    assert_eq!(action_id_from_name("ANC"), Some(2));
    assert_eq!(action_id_from_name("VPA"), Some(1));
    assert_eq!(action_id_from_name("Disabled"), Some(14));
}

#[test]
fn test_build_buttons_roundtrip() {
    let payload = build_buttons(0x10, 0x04, 0x02);
    let btn = parse_buttons(&payload).unwrap();
    assert_eq!(btn.button_name, "Action");
    assert_eq!(btn.event_name, "single_press");
    assert_eq!(btn.action_name, "ANC");
}

#[test]
fn test_build_mode_config() {
    let payload = build_mode_config_40(5, "Custom", 7, 2, true, true, 0, 0);
    assert_eq!(payload.len(), 40);
    assert_eq!(payload[0], 5);
    assert_eq!(payload[35], 7); // cnc
    assert_eq!(payload[37], 2); // spatial
    assert_eq!(payload[38], 1); // wind_block
    assert_eq!(payload[39], 1); // anc_toggle
}

#[test]
fn test_build_mode_config_39() {
    let payload = build_mode_config_39(3, "Music", 5, 0, true, false, 0, 12);
    assert_eq!(payload.len(), 39);
    assert_eq!(payload[0], 3);
    assert_eq!(payload[1], 0);
    assert_eq!(payload[2], 12);
    assert_eq!(&payload[3..8], b"Music");
    assert_eq!(payload[35], 5);
    assert_eq!(payload[38], 1);
}

#[test]
fn test_parse_mode_config_prince_capture() {
    let payload = vec![
        0x03, 0x00, 0x0c, 0x01, 0x01, 0x00, 0x4d, 0x75, 0x73, 0x69, 0x63, 0x00, 0x00, 0x00, 0x00, 0x00, 0x00,
        0x00, 0x00, 0x00, 0x00, 0x00, 0x00, 0x00, 0x00, 0x00, 0x00, 0x00, 0x00, 0x00, 0x00, 0x00, 0x00, 0x00,
        0x00, 0x00, 0x00, 0x00, 0x00, 0x00, 0x00, 0x09, 0x05, 0x00, 0x00, 0x00, 0x00,
    ];
    let mc = parse_mode_config_prince(&payload).unwrap();
    assert_eq!(mc.mode_idx, 3);
    assert_eq!(mc.prompt_b2, 12);
    assert_eq!(mc.name, "Music");
    assert_eq!(mc.cnc_level, 5);
    assert!(!mc.wind_block);
    assert!(!mc.anc_toggle);
}

#[test]
fn mode_config_40_roundtrips_through_qc_ultra2_parser() {
    let payload = build_mode_config_40(6, "Gym", 4, 1, false, true, 7, 9);
    let mc = parse_mode_config_qc_ultra2(&payload).unwrap();
    assert_eq!(mc.mode_idx, 6);
    assert_eq!(mc.name, "Gym");
    assert_eq!(mc.cnc_level, 4);
    assert_eq!(mc.spatial, 1);
    assert!(!mc.wind_block);
    assert!(mc.anc_toggle);
    assert!(mc.editable && mc.configured);
    assert_eq!((mc.prompt_b1, mc.prompt_b2), (7, 9));
}

#[test]
fn mode_config_39_roundtrips_through_prince_parser() {
    let payload = build_mode_config_39(4, "Walk", 3, 2, true, true, 1, 2);
    let mc = parse_mode_config_prince(&payload).unwrap();
    assert_eq!(mc.mode_idx, 4);
    assert_eq!(mc.name, "Walk");
    assert_eq!(mc.cnc_level, 3);
    assert_eq!(mc.spatial, 2);
    assert!(mc.wind_block);
    assert!(!mc.anc_toggle);
    assert_eq!((mc.prompt_b1, mc.prompt_b2), (1, 2));
}

#[test]
fn short_payloads_give_defaults_or_nothing() {
    assert_eq!(parse_cnc(&[0x0b]), (0, 10));
    assert!(parse_eq(&[0xf6, 0x0a, 0x03]).is_empty());
    assert!(parse_buttons(&[0x10, 0x04]).is_none());
    assert!(parse_mode_config_prince(&[0; 10]).is_none());
    assert!(parse_mode_config_qc_ultra2(&[0; 10]).is_none());
    assert!(parse_mode_config_44(&[0; 5]).is_none());
    let mc = parse_mode_config_44(&[7, 1, 2, 0, 0, 0, b'H', b'i', 0, b'x']).unwrap();
    assert_eq!((mc.mode_idx, mc.name.as_str(), mc.editable, mc.configured), (7, "Hi", false, false));
    assert!(!parse_bool(&[]));
    assert!(parse_bool(&[1]));
}

#[test]
fn sidetone_anr_and_prompts_names() {
    assert_eq!(parse_sidetone(&[0x01, 0x02]), "medium");
    assert_eq!(parse_sidetone(&[0x01]), "off");
    assert_eq!(parse_sidetone(&[0x01, 0x09]), "unknown");
    assert_eq!(parse_voice_prompts(&[0x21]), (true, "US English"));
    assert_eq!(parse_voice_prompts(&[0x00]), (false, "UK English"));
    assert_eq!(parse_voice_prompts(&[]), (false, "Unknown"));
    assert_eq!(parse_anr(&[]), "unknown");
    assert_eq!(parse_anr(&[2]), "wind");
}

#[test]
fn routing_payload_and_source() {
    let p = build_routing("AA:BB:CC:DD:EE:FF").unwrap();
    assert_eq!(p, vec![0x82, 0xAA, 0xBB, 0xCC, 0xDD, 0xEE, 0xFF]);
    assert!(build_routing("AA:BB").is_err());
    let s = parse_source(&[]);
    assert_eq!(s.source_type, "none");
    assert!(s.source_mac.is_none());
    let s = parse_source(&[0, 0, 1, 0xAA, 0xBB, 0xCC, 0x0D, 0xEE, 0x0F]);
    assert_eq!(s.source_type, "bluetooth");
    assert_eq!(s.source_mac.as_deref(), Some("AA:BB:CC:0D:EE:0F"));
    assert_eq!(build_routing("AA:BB:CC:DD:EE:GG"), Err("Invalid MAC byte".to_string()));
}

#[test]
fn every_named_button_event_and_action_resolves_back() {
    for (id, name) in [(0u8, "DistalCnc"), (2, "Vpa"), (16, "Action"), (128, "Shortcut")] {
        let p = build_buttons(id, 4, 2);
        let b = parse_buttons(&p).unwrap();
        assert_eq!(b.button_name, name);
        assert_eq!(button_id_from_name(b.button_name), Some(id));
        assert_eq!(event_id_from_name(b.event_name), Some(4));
        assert_eq!(action_id_from_name(b.action_name), Some(2));
    }
    assert_eq!(button_id_from_name("action"), Some(16));
}

#[test]
fn battery_uses_the_combined_component_record() {
    let p = [0x3c, 0xff, 0xff, 0x01, 0x3c, 0xff, 0xff, 0x02, 0x50, 0xff, 0xff, 0x03, 0x46, 0xff, 0xff, 0x04];
    assert_eq!(parse_battery(&p), Some(0x46));
    assert_eq!(parse_battery(&[0x3c, 0xff, 0xff, 0x01, 0x50, 0xff, 0xff, 0x03]), Some(0x3c));
    assert_eq!(parse_battery(&[0x3c, 0xff, 0xff, 0x01, 0x46, 0xff, 0xff]), Some(0x3c));
    assert_eq!(parse_battery(&[0x50, 0xff, 0xff, 0x00]), Some(0x50));
    assert_eq!(parse_battery(&[]), None);
}

#[test]
fn mode_config_roundtrips_a_multibyte_name() {
    let payload = build_mode_config_40(2, "Café", 1, 0, true, false, 0, 0);
    let mc = parse_mode_config_qc_ultra2(&payload).unwrap();
    assert_eq!(mc.name, "Café");
}
