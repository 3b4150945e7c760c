use phala_mq::{Message, Origin};

#[test]
fn a_short_byte_string_has_a_one_byte_length() {
    let origin = Origin::Pallet(vec![7; 63]);
    let out = origin.encode();
    assert_eq!(out.len(), 1 + 1 + 63);
    assert_eq!(out[0], 0);
    assert_eq!(out[1], 63 << 2);
    assert_eq!(&out[2..], &[7u8; 63][..]);
}

#[test]
fn an_empty_byte_string_is_one_zero_byte() {
    assert_eq!(Origin::Worker(vec![]).encode(), vec![1u8, 0]);
}

#[test]
fn a_length_of_64_takes_two_bytes() {
    let origin = Origin::Worker(vec![9; 64]);
    let out = origin.encode();
    assert_eq!(out.len(), 1 + 2 + 64);
    assert_eq!(&out[..3], &[1u8, 0x01, 0x01][..]);
    assert_eq!(out[3], 9);
}

#[test]
fn a_length_of_16383_takes_two_bytes() {
    let out = Origin::Pallet(vec![1; 16383]).encode();
    assert_eq!(out.len(), 1 + 2 + 16383);
    assert_eq!(&out[..3], &[0u8, 0xfd, 0xff][..]);
}

#[test]
fn a_length_of_16384_takes_four_bytes() {
    let out = Origin::Pallet(vec![1; 16384]).encode();
    assert_eq!(out.len(), 1 + 4 + 16384);
    assert_eq!(&out[..5], &[0u8, 0x02, 0x00, 0x01, 0x00][..]);
}

#[test]
fn a_message_is_sender_destination_payload() {
    let message = Message::new(Origin::Worker(b"k".to_vec()), b"to".to_vec(), b"hello".to_vec());
    assert!(message.is_encodable());
    assert_eq!(
        message.encode(),
        vec![1u8, 4, b'k', 8, b't', b'o', 20, b'h', b'e', b'l', b'l', b'o']
    );
}

#[test]
fn origins_are_equal_by_variant_and_bytes() {
    assert_eq!(Origin::Pallet(b"x".to_vec()), Origin::Pallet(b"x".to_vec()));
    assert_ne!(Origin::Pallet(b"x".to_vec()), Origin::Worker(b"x".to_vec()));
    assert_ne!(Origin::Pallet(b"x".to_vec()), Origin::Pallet(b"xy".to_vec()));
    assert_ne!(Origin::Worker(b"ab".to_vec()), Origin::Worker(b"ac".to_vec()));
    assert_eq!(Origin::Worker(b"ab".to_vec()).bytes(), b"ab");
}

#[test]
fn paths_match_exactly() {
    let path = phala_mq::Path::new(b"a/b".to_vec());
    assert!(path.matches(&phala_mq::Path::new(b"a/b".to_vec())));
    assert!(!path.matches(&phala_mq::Path::new(b"a/".to_vec())));
    assert!(!path.matches(&phala_mq::Path::new(b"a/bc".to_vec())));
    assert_eq!(path.clone().path(), b"a/b");
}
