use bmap::cli::{cnc_bar, hex_to_bytes};
use bmap::protocol::{BmapResponse, Operator};

#[test]
fn hex_text_decodes_in_pairs() {
    assert_eq!(hex_to_bytes("1f0101"), vec![0x1f, 0x01, 0x01]);
    assert_eq!(hex_to_bytes("1f010"), vec![0x1f, 0x01]);
    assert_eq!(hex_to_bytes("zz01"), vec![0x01]);
    assert_eq!(hex_to_bytes("+a"), vec![0x0a]);
    assert_eq!(hex_to_bytes(""), Vec::<u8>::new());
    assert_eq!(hex_to_bytes("éAB"), vec![0xAB]);
}

#[test]
fn cnc_gauge() {
    assert_eq!(cnc_bar(3, 5), "███░░");
    assert_eq!(cnc_bar(0, 2), "░░");
    assert_eq!(cnc_bar(0, 0), "");
}

#[test]
fn rendered_payload_hex_decodes_back() {
    let payload = vec![0x00, 0x0f, 0xa5, 0xff, 0x10];
    let resp = BmapResponse { fblock: 1, func: 2, op: Operator::Status, payload: payload.clone() };
    let text = resp.fmt();
    let hex = text.rsplit(' ').next().unwrap();
    assert_eq!(hex, "000fa5ff10");
    assert_eq!(hex_to_bytes(hex), payload);
}
