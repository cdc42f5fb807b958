use testbench::connection::Connection;
use testbench::packet::{
    extract_packet, packet_barcode, packet_status, split_packets, Status, PACKET_LENGTH,
};
use testbench::text::{decimal_string, hex_dump, hex_string, same_text};

fn wire(barcode: [u8; 6], status: u8) -> Vec<u8> {
    let mut p = vec![0x5A, 0xA5];
    p.extend_from_slice(&barcode);
    p.extend_from_slice(&[0x11, 0x22, 0x33, 0x44, status]);
    p
}

#[test]
fn a_packet_is_found_at_the_start() {
    let p = wire([1, 2, 3, 4, 5, 6], 2);
    assert_eq!(p.len(), PACKET_LENGTH);
    assert_eq!(extract_packet(&p), Some((&p[..], 13)));
}

#[test]
fn a_packet_is_found_behind_noise() {
    let mut data = vec![0x00, 0xA5, 0x5A];
    let p = wire([9; 6], 3);
    data.extend_from_slice(&p);
    data.push(0x77);
    assert_eq!(extract_packet(&data), Some((&p[..], 16)));
}

#[test]
fn without_opening_bytes_there_is_no_packet() {
    assert_eq!(extract_packet(&[]), None);
    assert_eq!(extract_packet(&[0x5A]), None);
    assert_eq!(extract_packet(&[0xA5, 0x5A, 0x00, 0x5A]), None);
}

#[test]
fn a_cut_packet_is_not_found() {
    let p = wire([1; 6], 2);
    assert_eq!(extract_packet(&p[..12]), None);
}

#[test]
fn the_first_opening_bytes_count() {
    let mut data = wire([1; 6], 2);
    data[4] = 0x5A;
    data[5] = 0xA5;
    let first = data.clone();
    data.extend_from_slice(&[0; 13]);
    assert_eq!(extract_packet(&data), Some((&first[..], 13)));
    let (packets, offset) = split_packets(&data);
    assert_eq!(packets, vec![&first[..]]);
    assert_eq!(offset, 13);
}

#[test]
fn sent_packets_are_read_in_order() {
    let a = wire([1; 6], 2);
    let b = wire([2; 6], 3);
    let c = wire([3; 6], 4);
    let mut data = Vec::new();
    data.extend_from_slice(&a);
    data.extend_from_slice(&b);
    data.extend_from_slice(&[0xFF, 0xFE]);
    data.extend_from_slice(&c);
    data.extend_from_slice(&[0x5A, 0xA5, 0x01]);
    let (packets, offset) = split_packets(&data);
    assert_eq!(packets, vec![&a[..], &b[..], &c[..]]);
    assert_eq!(offset, 41);
}

#[test]
fn no_packet_is_left_behind() {
    let mut data = vec![1, 2, 3];
    data.extend_from_slice(&wire([7; 6], 2));
    data.extend_from_slice(&wire([8; 6], 2)[..9]);
    let (packets, offset) = split_packets(&data);
    assert_eq!((packets.len(), offset), (1, 16));
    assert_eq!(extract_packet(&data[offset..]), None);
}

#[test]
fn statuses_are_read_from_the_last_byte() {
    assert_eq!(packet_status(&wire([0; 6], 2)), Status::Pass);
    assert_eq!(packet_status(&wire([0; 6], 3)), Status::Fail);
    assert_eq!(packet_status(&wire([0; 6], 4)), Status::Test);
    assert_eq!(packet_status(&wire([0; 6], 5)), Status::Unknown);
    assert_eq!(packet_status(&wire([0; 6], 2)[..12]), Status::TooShort);
}

#[test]
fn statuses_have_their_words() {
    assert_eq!(Status::Pass.label(), "OK");
    assert_eq!(Status::Fail.label(), "HATA");
    assert_eq!(Status::Test.label(), "TEST");
    assert_eq!(Status::Unknown.label(), "Unknown");
    assert_eq!(Status::TooShort.label(), "Invalid (too short)");
    assert!(Status::Pass.is_known() && Status::Fail.is_known() && Status::Test.is_known());
    assert!(!Status::Unknown.is_known() && !Status::TooShort.is_known());
    assert!(Status::Pass.is_concluding() && Status::Fail.is_concluding());
    assert!(!Status::Test.is_concluding() && !Status::Unknown.is_concluding());
    assert!(!Status::TooShort.is_concluding());
}

#[test]
fn barcodes_are_six_bytes_in_hexadecimal() {
    assert_eq!(packet_barcode(&wire([0x01, 0x9A, 0xBC, 0xDE, 0xF0, 0xFF], 2)), "019ABCDEF0FF");
    assert_eq!(packet_barcode(&wire([1, 2, 3, 4, 5, 7], 2)), "010203040507");
}

#[test]
fn bytes_are_written_in_hexadecimal() {
    assert_eq!(hex_string(&[]), "");
    assert_eq!(hex_string(&[0x00, 0x0F, 0xA0]), "000FA0");
    assert_eq!(hex_dump(&[]), "");
    assert_eq!(hex_dump(&[0x5A]), "5A");
    assert_eq!(hex_dump(&[0x5A, 0xA5, 0x0C]), "5A A5 0C");
    for b in 0..=255u8 {
        assert_eq!(hex_string(&[b]), format!("{:02X}", b));
    }
}

#[test]
fn integers_are_written_in_decimal() {
    for n in [0, 7, 10, 99, 100, 12345, -1, -10, i64::MAX, i64::MIN] {
        assert_eq!(decimal_string(n), n.to_string());
    }
}

#[test]
fn texts_are_compared_by_their_characters() {
    assert!(same_text("wal", "wal"));
    assert!(!same_text("wal", "WAL"));
    assert!(!same_text("", "a"));
}

#[test]
fn a_read_hands_out_all_packets() {
    let mut c = Connection::new();
    let a = wire([1; 6], 2);
    let b = wire([2; 6], 3);
    let mut data = a.clone();
    data.extend_from_slice(&b);
    assert_eq!(c.handle_read(Some(&data)), Some(vec![&a[..], &b[..]]));
}

#[test]
fn a_packet_cut_by_a_read_is_lost() {
    let mut c = Connection::new();
    let a = wire([1; 6], 2);
    assert_eq!(c.handle_read(Some(&a[..7])), Some(vec![]));
    assert_eq!(c.handle_read(Some(&a[7..])), Some(vec![]));
    assert_eq!(c.handle_read(Some(&a)), Some(vec![&a[..]]));
}

#[test]
fn an_end_or_an_error_ends_the_connection() {
    let mut c = Connection::new();
    assert_eq!(c.handle_read(Some(&[])), None);
    assert_eq!(c.handle_read(None), None);
}
