use gridsync::codec::{DecodeError, Opcode};

fn all_samples() -> Vec<Opcode> {
    vec![
        Opcode::Welcome { id: 0 },
        Opcode::Welcome { id: 1 },
        Opcode::Welcome { id: u32::MAX },
        Opcode::Move { x: 5, y: 10, id: 2 },
        Opcode::Move { x: -5, y: -10, id: 7 },
        Opcode::Move { x: i32::MIN, y: i32::MAX, id: 0x0102_0304 },
        Opcode::Disconnect { id: 3 },
        Opcode::Disconnect { id: 0xdead_beef },
    ]
}

#[test]
fn round_trip_every_variant() {
    for o in all_samples() {
        let b = o.asbytes();
        assert_eq!(Opcode::from_bytes(&b), Ok(o));
    }
}

#[test]
fn encodes_welcome_little_endian() {
    let b = Opcode::Welcome { id: 0x0403_0201 }.asbytes();
    assert_eq!(b, vec![0, 1, 2, 3, 4]);
}

#[test]
fn encodes_move_little_endian() {
    let b = Opcode::Move { x: -1, y: 10, id: 258 }.asbytes();
    assert_eq!(b, vec![1, 0xff, 0xff, 0xff, 0xff, 10, 0, 0, 0, 2, 1, 0, 0]);
}

#[test]
fn encodes_disconnect_little_endian() {
    let b = Opcode::Disconnect { id: 5 }.asbytes();
    assert_eq!(b, vec![2, 5, 0, 0, 0]);
}

#[test]
fn decodes_known_bytes() {
    assert_eq!(
        Opcode::from_bytes(&[1, 5, 0, 0, 0, 0xf6, 0xff, 0xff, 0xff, 9, 0, 0, 0]),
        Ok(Opcode::Move { x: 5, y: -10, id: 9 })
    );
    assert_eq!(Opcode::from_bytes(&[0, 0, 1, 0, 0]), Ok(Opcode::Welcome { id: 256 }));
}

#[test]
fn unknown_tag_is_rejected() {
    for tag in 3u8..=255 {
        assert_eq!(Opcode::from_bytes(&[tag]), Err(DecodeError::UnknownTag));
        assert_eq!(Opcode::from_bytes(&[tag, 0, 0, 0, 0]), Err(DecodeError::UnknownTag));
        assert_eq!(Opcode::from_frame(tag, &[0; 12]), Err(DecodeError::UnknownTag));
    }
}

#[test]
fn wrong_length_is_rejected() {
    for o in all_samples() {
        let b = o.asbytes();
        let short = &b[..b.len() - 1];
        assert_eq!(Opcode::from_bytes(short), Err(DecodeError::LengthMismatch));
        let mut long = b.clone();
        long.push(0);
        assert_eq!(Opcode::from_bytes(&long), Err(DecodeError::LengthMismatch));
        assert_eq!(Opcode::from_bytes(&b[..1]), Err(DecodeError::LengthMismatch));
    }
}

#[test]
fn frame_lengths() {
    assert_eq!(Opcode::frame_len(0), Some(5));
    assert_eq!(Opcode::frame_len(1), Some(13));
    assert_eq!(Opcode::frame_len(2), Some(5));
    assert_eq!(Opcode::frame_len(3), None);
    assert_eq!(Opcode::frame_len(255), None);
}

#[test]
fn frame_from_tag_and_rest() {
    let b = Opcode::Move { x: 15, y: 20, id: 4 }.asbytes();
    assert_eq!(Opcode::from_frame(b[0], &b[1..]), Ok(Opcode::Move { x: 15, y: 20, id: 4 }));
    assert_eq!(Opcode::from_frame(1, &b[1..12]), Err(DecodeError::LengthMismatch));
    assert_eq!(Opcode::from_frame(2, &[]), Err(DecodeError::LengthMismatch));
}
