use bmap::protocol::{
    bmap_packet, encode_mode_name, error_name, parse_all_responses, parse_response, BmapResponse, Operator,
};

#[test]
fn test_bmap_packet_get() {
    let pkt = bmap_packet(2, 2, Operator::Get, &[]);
    assert_eq!(pkt, vec![0x02, 0x02, 0x01, 0x00]);
}

#[test]
fn test_bmap_packet_start() {
    let pkt = bmap_packet(31, 3, Operator::Start, &[0, 0]);
    assert_eq!(pkt, vec![0x1f, 0x03, 0x05, 0x02, 0x00, 0x00]);
}

#[test]
fn test_parse_response() {
    let data = vec![31, 3, 0x06, 1, 0x00];
    let resp = parse_response(&data).unwrap();
    assert_eq!(resp.fblock, 31);
    assert_eq!(resp.func, 3);
    assert_eq!(resp.op, Operator::Result);
    assert_eq!(resp.payload, vec![0x00]);
}

#[test]
fn test_parse_response_too_short() {
    assert!(parse_response(&[1, 2]).is_none());
    assert!(parse_response(&[2, 2, 0x03, 4, 80, 0xff]).is_none());
    assert!(parse_response(&[2, 2, 0x08, 0]).is_none());
}

#[test]
fn test_parse_all_responses() {
    let mut data = vec![31, 6, 0x03, 2, 0xAA, 0xBB];
    data.extend_from_slice(&[31, 3, 0x06, 1, 0x00]);
    let responses = parse_all_responses(&data);
    assert_eq!(responses.len(), 2);
    assert_eq!(responses[0].func, 6);
    assert_eq!(responses[1].func, 3);
}

#[test]
fn test_parse_all_truncated() {
    // Length says 10 bytes but only 2 available
    let data = vec![31, 3, 0x06, 10, 0x00, 0x01];
    let responses = parse_all_responses(&data);
    assert_eq!(responses.len(), 0);
}

#[test]
fn test_encode_mode_name() {
    let buf = encode_mode_name("Custom");
    assert_eq!(buf.len(), 32);
    assert_eq!(&buf[..6], b"Custom");
    assert_eq!(buf[6], 0);
}

#[test]
fn test_encode_mode_name_truncation() {
    let long = "A".repeat(50);
    let buf = encode_mode_name(&long);
    assert_eq!(buf.len(), 32);
    assert_eq!(buf[31], 0);
}

#[test]
fn test_fmt_result() {
    let resp = BmapResponse { fblock: 31, func: 3, op: Operator::Result, payload: vec![0x00] };
    assert!(resp.fmt().contains("RESULT"));
}

#[test]
fn test_fmt_error() {
    let resp = BmapResponse { fblock: 1, func: 5, op: Operator::Error, payload: vec![5] };
    let s = resp.fmt();
    assert!(s.contains("ERROR"));
    assert!(s.contains("auth"));
}

#[test]
fn test_fmt_error_invalid_transition() {
    let resp = BmapResponse { fblock: 3, func: 2, op: Operator::Error, payload: vec![15] };
    let s = resp.fmt();
    assert!(s.contains("InvalidTransition"));
}

#[test]
fn operator_code_roundtrip_on_every_operator() {
    for op in [
        Operator::SetOp,
        Operator::Get,
        Operator::SetGet,
        Operator::Status,
        Operator::Error,
        Operator::Start,
        Operator::Result,
        Operator::Processing,
    ] {
        assert_eq!(Operator::from_u8(op.code()), Some(op));
    }
    assert_eq!(Operator::SetOp.name(), "SET");
    assert_eq!(Operator::from_u8(0x0F), None);
}

#[test]
fn parse_response_reads_back_a_built_packet() {
    let pkt = bmap_packet(31, 10, Operator::SetGet, &[1, 2, 3]);
    let resp = parse_response(&pkt).unwrap();
    assert_eq!(resp.fblock, 31);
    assert_eq!(resp.func, 10);
    assert_eq!(resp.op, Operator::SetGet);
    assert_eq!(resp.payload, vec![1, 2, 3]);
}

#[test]
fn parse_all_reads_back_concatenated_packets() {
    let mut data = bmap_packet(1, 2, Operator::Status, &[9]);
    data.extend_from_slice(&bmap_packet(3, 4, Operator::Result, &[]));
    data.extend_from_slice(&bmap_packet(5, 6, Operator::Processing, &[7, 8]));
    let rs = parse_all_responses(&data);
    assert_eq!(rs.len(), 3);
    assert_eq!((rs[0].fblock, rs[0].func, rs[0].payload.clone()), (1, 2, vec![9]));
    assert_eq!((rs[1].fblock, rs[1].func, rs[1].op), (3, 4, Operator::Result));
    assert_eq!(rs[2].payload, vec![7, 8]);
}

#[test]
fn parse_response_rejects_reserved_operator_and_keeps_trailing_bytes_out() {
    assert!(parse_response(&[1, 1, 0x0A, 0]).is_none());
    let r = parse_response(&[1, 1, 0x03, 1, 7, 99, 98]).unwrap();
    assert_eq!(r.payload, vec![7]);
}

#[test]
fn error_names_and_fmt_text() {
    assert_eq!(error_name(5), "OpNotSupp(auth)");
    assert_eq!(error_name(15), "InvalidTransition");
    let resp = BmapResponse { fblock: 31, func: 3, op: Operator::Status, payload: vec![0xAB, 0x01] };
    assert_eq!(resp.fmt(), "[31.3] STATUS: ab01");
    let err = BmapResponse { fblock: 1, func: 5, op: Operator::Error, payload: vec![5] };
    assert_eq!(err.fmt(), "[1.5] ERROR: OpNotSupp(auth) (05)");
}
