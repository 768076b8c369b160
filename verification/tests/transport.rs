use bmap::device::build_routing;
use bmap::error::BmapError;
use bmap::transport::parse_mac;

#[test]
fn test_parse_mac() {
    let addr = parse_mac("AA:BB:CC:DD:EE:FF").unwrap();
    // BlueZ stores MAC in reverse byte order
    assert_eq!(addr, [0xFF, 0xEE, 0xDD, 0xCC, 0xBB, 0xAA]);
}

#[test]
fn test_parse_mac_invalid() {
    assert!(parse_mac("not-a-mac").is_err());
    assert!(parse_mac("AA:BB:CC").is_err());
    assert!(parse_mac("GG:HH:II:JJ:KK:LL").is_err());
}

#[test]
fn parse_mac_errors_name_the_address_or_the_first_bad_byte() {
    match parse_mac("AA:BB:CC") {
        Err(BmapError::Connection(m)) => assert_eq!(m, "Invalid MAC address: AA:BB:CC"),
        other => panic!("unexpected {:?}", other),
    }
    match parse_mac("00:11:XY:33:ZZ:55") {
        Err(BmapError::Connection(m)) => assert_eq!(m, "Invalid MAC byte: XY"),
        other => panic!("unexpected {:?}", other),
    }
    assert_eq!(parse_mac("0:1:2:3:4:+5").unwrap(), [5, 4, 3, 2, 1, 0]);
    assert!(parse_mac("00:11:22:33:44:555").is_err());
}

#[test]
fn parse_mac_agrees_with_routing_payload() {
    for mac in ["AA:BB:CC:DD:EE:FF", "01:23:45:67:89:ab", "AA:BB", "AA:BB:CC:DD:EE:GG", ""] {
        match (parse_mac(mac), build_routing(mac)) {
            (Ok(addr), Ok(payload)) => {
                for i in 0..6 {
                    assert_eq!(payload[1 + i], addr[5 - i]);
                }
            },
            (Err(_), Err(_)) => (),
            _ => panic!("parse_mac and build_routing disagree on {}", mac),
        }
    }
}
