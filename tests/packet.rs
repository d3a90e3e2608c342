use ssh_packet::{padding, ChecksumCipher, Error, NoneCipher, Packet, PACKET_MAX_SIZE};

fn toy(etm: bool) -> ChecksumCipher {
    ChecksumCipher::new(0x5a, etm)
}

#[test]
fn padding_of_empty_payload_for_block_size_eight() {
    // The padding aligns the frame and brings it to the 16-byte minimum.
    let p = padding(8, true, 0);
    assert_eq!(p, 15);
    assert_eq!((1 + 0 + p as usize) % 8, 0);
    let p = padding(8, false, 0);
    assert_eq!(p, 11);
    assert_eq!((4 + 1 + 0 + p as usize) % 8, 0);
}

#[test]
fn padding_aligns_and_bounds() {
    for bs in [0usize, 8, 16, 32, 252] {
        for etm in [false, true] {
            for len in 0..100usize {
                let p = padding(bs, etm, len) as usize;
                let header = if etm { 1 } else { 5 };
                let align = bs.max(8);
                assert!(p >= 4);
                assert_eq!((header + len + p) % align, 0);
                assert!(header + len + p >= bs.max(16));
            }
        }
    }
}

#[test]
fn padding_exact_values() {
    assert_eq!(padding(8, false, 3), 8);
    assert_eq!(padding(16, false, 0), 11);
    assert_eq!(padding(16, true, 0), 15);
    assert_eq!(padding(8, true, 3), 12);
    assert_eq!(padding(16, false, 11), 16);
}

#[test]
fn none_cipher_writes_exact_frame() {
    let packet = Packet { payload: vec![] };
    let wire = packet.to_bytes(&mut NoneCipher::new(), 0).unwrap();
    assert_eq!(wire, vec![0, 0, 0, 12, 11, 0, 0, 0, 0, 0, 0, 0, 0, 0, 0, 0]);
}

#[test]
fn none_cipher_frame_size_law() {
    for len in [0usize, 1, 3, 7, 100, 1000] {
        let packet = Packet { payload: vec![0xab; len] };
        let wire = packet.to_bytes(&mut NoneCipher::new(), 3).unwrap();
        let p = padding(8, false, len) as usize;
        assert_eq!(wire.len(), 4 + 1 + len + p);
        assert_eq!((4 + 1 + len + p) % 8, 0);
        assert_eq!(wire[4] as usize, p);
    }
}

#[test]
fn none_cipher_round_trip() {
    for len in [0usize, 1, 10, 255, 4096] {
        let payload: Vec<u8> = (0..len).map(|i| (i * 7 % 256) as u8).collect();
        let wire = Packet { payload: payload.clone() }.to_bytes(&mut NoneCipher::new(), 9).unwrap();
        let (packet, used) = Packet::from_bytes(&wire, &mut NoneCipher::new(), 9).unwrap();
        assert_eq!(packet.payload, payload);
        assert_eq!(used, wire.len());
    }
}

#[test]
fn toy_cipher_round_trip_both_modes() {
    for etm in [false, true] {
        let payload = b"hello, world".to_vec();
        let wire = Packet { payload: payload.clone() }.to_bytes(&mut toy(etm), 5).unwrap();
        assert_eq!(wire.len(), 4 + 1 + payload.len() + padding(8, etm, payload.len()) as usize + 1);
        let (packet, used) = Packet::from_bytes(&wire, &mut toy(etm), 5).unwrap();
        assert_eq!(packet.payload, payload);
        assert_eq!(used, wire.len());
    }
}

#[test]
fn tampered_mac_is_detected() {
    for etm in [false, true] {
        let wire = Packet { payload: b"payload".to_vec() }.to_bytes(&mut toy(etm), 1).unwrap();
        for i in wire.len() - 1..wire.len() {
            for bit in 0..8 {
                let mut bad = wire.clone();
                bad[i] ^= 1 << bit;
                assert!(matches!(Packet::from_bytes(&bad, &mut toy(etm), 1), Err(Error::MacMismatch)));
            }
        }
    }
}

#[test]
fn tampered_payload_is_detected() {
    for etm in [false, true] {
        let wire = Packet { payload: b"payload".to_vec() }.to_bytes(&mut toy(etm), 1).unwrap();
        for i in 5..12 {
            for bit in 0..8 {
                let mut bad = wire.clone();
                bad[i] ^= 1 << bit;
                assert!(matches!(Packet::from_bytes(&bad, &mut toy(etm), 1), Err(Error::MacMismatch)));
            }
        }
    }
}

#[test]
fn checksum_cipher_encrypts_the_frame() {
    let plain = Packet { payload: b"abc".to_vec() }.to_bytes(&mut NoneCipher::new(), 0).unwrap();
    let sealed = Packet { payload: b"abc".to_vec() }.to_bytes(&mut toy(false), 0).unwrap();
    assert_eq!(sealed.len(), plain.len() + 1);
    for i in 0..plain.len() {
        assert_eq!(sealed[i], plain[i] ^ 0x5a);
    }
    let sum = plain.iter().fold(0u8, |acc, b| acc.wrapping_add(*b));
    assert_eq!(sealed[plain.len()], sum);
    let etm = Packet { payload: b"abc".to_vec() }.to_bytes(&mut toy(true), 0).unwrap();
    let len = 1 + 3 + padding(8, true, 3) as u32;
    assert_eq!(&etm[..4], &len.to_be_bytes());
}

#[test]
fn wrong_sequence_number_is_detected() {
    let wire = Packet { payload: b"payload".to_vec() }.to_bytes(&mut toy(true), 1).unwrap();
    assert!(matches!(Packet::from_bytes(&wire, &mut toy(true), 2), Err(Error::MacMismatch)));
}

#[test]
fn oversized_length_is_rejected_from_the_first_block() {
    // 70000 = 0x00011170
    let mut input = vec![0x00, 0x01, 0x11, 0x70];
    input.extend_from_slice(&[0u8; 4]);
    assert!(matches!(Packet::from_bytes(&input, &mut NoneCipher::new(), 0), Err(Error::BadLength)));
    let mut block = input.clone();
    assert!(matches!(Packet::read_head(&mut NoneCipher::new(), &mut block), Err(Error::BadLength)));
}

#[test]
fn largest_length_is_accepted() {
    let mut block = vec![0x00, 0x00, 0xff, 0xff, 4, 0, 0, 0];
    assert_eq!(Packet::read_head(&mut NoneCipher::new(), &mut block).unwrap(), PACKET_MAX_SIZE + 4 - 8);
    let mut block = vec![0x00, 0x01, 0x00, 0x00, 4, 0, 0, 0];
    assert!(matches!(Packet::read_head(&mut NoneCipher::new(), &mut block), Err(Error::BadLength)));
}

#[test]
fn zero_length_is_rejected() {
    let input = [0u8; 16];
    assert!(matches!(Packet::from_bytes(&input, &mut NoneCipher::new(), 0), Err(Error::BadLength)));
}

#[test]
fn truncated_frames_are_reported() {
    let wire = Packet { payload: b"abc".to_vec() }.to_bytes(&mut NoneCipher::new(), 0).unwrap();
    assert!(matches!(Packet::from_bytes(&wire[..5], &mut NoneCipher::new(), 0), Err(Error::TruncatedInput)));
    assert!(matches!(Packet::from_bytes(&wire[..wire.len() - 1], &mut NoneCipher::new(), 0), Err(Error::TruncatedInput)));
}

#[test]
fn oversized_padding_is_rejected() {
    // packet_length 12, padding_length 12 > 11
    let input = [0, 0, 0, 12, 12, 0, 0, 0, 0, 0, 0, 0, 0, 0, 0, 0];
    assert!(matches!(Packet::from_bytes(&input, &mut NoneCipher::new(), 0), Err(Error::BadLength)));
}

#[test]
fn oversized_payload_is_refused_on_write() {
    let packet = Packet { payload: vec![0; PACKET_MAX_SIZE] };
    assert!(matches!(packet.to_bytes(&mut NoneCipher::new(), 0), Err(Error::BadLength)));
}

#[test]
fn streamed_read_matches_whole_read() {
    let wire = Packet { payload: b"streamed".to_vec() }.to_bytes(&mut toy(false), 4).unwrap();
    let mut cipher = toy(false);
    let mut frame = wire[..8].to_vec();
    let rest = Packet::read_head(&mut cipher, &mut frame).unwrap();
    frame.extend_from_slice(&wire[8..8 + rest]);
    let mac = wire[8 + rest..8 + rest + 1].to_vec();
    let packet = Packet::read_body(&mut cipher, frame, mac, 4).unwrap();
    assert_eq!(packet.payload, b"streamed".to_vec());
}
