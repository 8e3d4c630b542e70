use pipe_dataflow::funs::State;
use pipe_dataflow::wire::Wire;

#[test]
fn i32_is_four_little_endian_bytes() {
    assert_eq!(1i32.encode(), vec![1, 0, 0, 0]);
    assert_eq!((-1i32).encode(), vec![255, 255, 255, 255]);
    assert_eq!(0x01020304i32.encode(), vec![4, 3, 2, 1]);
    assert_eq!(i32::MIN.encode(), vec![0, 0, 0, 128]);
}

#[test]
fn i32_decodes_the_front_of_a_buffer() {
    assert_eq!(<i32 as Wire>::decode(&[4, 3, 2, 1]), Some(0x01020304));
    assert_eq!(<i32 as Wire>::decode(&[255, 255, 255, 255, 9, 9]), Some(-1));
    assert_eq!(<i32 as Wire>::decode(&[1, 2, 3]), None);
    let mut buffer = [0u8; 1024];
    buffer[..4].copy_from_slice(&42i32.encode());
    assert_eq!(<i32 as Wire>::decode(&buffer), Some(42));
}

#[test]
fn state_travels_as_its_value() {
    let s = State::new(97);
    assert_eq!(s.encode(), 97i32.encode());
    assert_eq!(<State as Wire>::decode(&s.encode()), Some(s));
    assert_eq!(<State as Wire>::decode(&[0, 0]), None);
}

#[test]
fn control_message_is_flag_then_count() {
    let m: (bool, usize) = (true, 10);
    assert_eq!(m.encode(), vec![1, 10, 0, 0, 0, 0, 0, 0, 0]);
    let m2: (bool, usize) = (false, 0x0102);
    assert_eq!(m2.encode(), vec![0, 2, 1, 0, 0, 0, 0, 0, 0]);
    assert_eq!(<(bool, usize) as Wire>::decode(&m.encode()), Some(m));
    assert_eq!(<(bool, usize) as Wire>::decode(&m2.encode()), Some(m2));
}

#[test]
fn control_message_rejects_bad_bytes() {
    assert_eq!(<(bool, usize) as Wire>::decode(&[2, 1, 0, 0, 0, 0, 0, 0, 0]), None);
    assert_eq!(<(bool, usize) as Wire>::decode(&[1, 1, 0, 0]), None);
}

#[test]
fn decoding_undoes_encoding_with_trailing_bytes() {
    for v in [0i32, 1, -1, 23, i32::MAX, i32::MIN, 123456789] {
        let mut bytes = v.encode();
        bytes.extend_from_slice(&[7, 7, 7]);
        assert_eq!(<i32 as Wire>::decode(&bytes), Some(v));
    }
    for m in [(true, 0usize), (false, 1), (true, usize::MAX)] {
        let mut bytes = m.encode();
        bytes.push(1);
        assert_eq!(<(bool, usize) as Wire>::decode(&bytes), Some(m));
    }
}

#[test]
fn widths_match_encodings() {
    assert_eq!(<i32 as Wire>::width(), 4);
    assert_eq!(5i32.encode().len(), <i32 as Wire>::width());
    assert_eq!(<State as Wire>::width(), 4);
    assert_eq!(<(bool, usize) as Wire>::width(), 9);
    assert_eq!((false, 3usize).encode().len(), <(bool, usize) as Wire>::width());
}
