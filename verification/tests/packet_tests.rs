use rumble::encoding::{u_from_be_bytes, u_to_be_bytes};
use rumble::packet::{
    dest_of_packet, pi_family_value, prepend_packet_info, strip_packet_info, PI_HEADER_LEN,
};

fn ipv4_frame(dest: [u8; 4]) -> Vec<u8> {
    let mut frame = vec![0u8; 20];
    frame[0] = 0x45;
    frame[16..20].copy_from_slice(&dest);
    frame
}

fn ipv6_frame(last_byte: u8) -> Vec<u8> {
    let mut frame = vec![0u8; 40];
    frame[0] = 0x60;
    frame[24] = 0xfd;
    frame[39] = last_byte;
    frame
}

#[test]
fn be_bytes_round_trip() {
    let v: u128 = 0x0102030405060708090a0b0c0d0e0f10;
    let bytes = u_to_be_bytes(v, 16);
    assert_eq!(bytes.len(), 16);
    assert_eq!(bytes[0], 0x01);
    assert_eq!(u_from_be_bytes(&bytes, 0, 16), v);
    let four = u_to_be_bytes(0x0a080002, 4);
    assert_eq!(four, vec![10, 8, 0, 2]);
    assert_eq!(u_from_be_bytes(&four, 0, 4), 0x0a080002);
}

#[test]
fn ipv4_destination_is_bytes_16_to_20() {
    let frame = ipv4_frame([10, 8, 0, 2]);
    assert_eq!(dest_of_packet(&frame), Some((0x0a080002, true)));
}

#[test]
fn ipv6_destination_is_bytes_24_to_40() {
    let frame = ipv6_frame(0x42);
    let expected = (0xfdu128 << 120) | 0x42;
    assert_eq!(dest_of_packet(&frame), Some((expected, false)));
}

#[test]
fn malformed_frames_have_no_destination() {
    assert_eq!(dest_of_packet(&vec![]), None);
    assert_eq!(dest_of_packet(&vec![0x45; 10]), None);
    let mut junk = vec![0u8; 40];
    junk[0] = 0x15;
    assert_eq!(dest_of_packet(&junk), None);
}

#[test]
fn packet_info_header_round_trips() {
    let frame = ipv4_frame([10, 8, 0, 2]);
    let af = pi_family_value(&frame, 2, 30).unwrap();
    assert_eq!(af, 2);
    let framed = prepend_packet_info(af, &frame);
    assert_eq!(framed.len(), frame.len() + PI_HEADER_LEN);
    assert_eq!(&framed[..4], &[0, 0, 0, 2]);
    let stripped = strip_packet_info(&framed).unwrap();
    assert_eq!(stripped, frame);
}

#[test]
fn pi_family_follows_the_version_nibble() {
    assert_eq!(pi_family_value(&ipv6_frame(1), 2, 30), Some(30));
    assert_eq!(pi_family_value(&vec![], 2, 30), None);
    assert_eq!(pi_family_value(&vec![0x10], 2, 30), None);
}

#[test]
fn stripping_a_short_buffer_fails() {
    assert!(strip_packet_info(&vec![0, 0, 0]).is_none());
    assert_eq!(strip_packet_info(&vec![0, 0, 0, 2]).unwrap(), Vec::<u8>::new());
}
