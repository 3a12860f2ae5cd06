use example_service::wire::{find_field, get_i32, get_text, get_u64, put_bytes, put_field, put_i32, put_text, put_u64};

#[test]
fn u64_is_written_most_significant_byte_first() {
    let mut out = Vec::new();
    put_u64(&mut out, 0x0102_0304_0506_0708);
    assert_eq!(out, vec![1, 2, 3, 4, 5, 6, 7, 8]);
}

#[test]
fn u64_is_appended_to_what_is_there() {
    let mut out = vec![9u8];
    put_u64(&mut out, 258);
    assert_eq!(out, vec![9, 0, 0, 0, 0, 0, 0, 1, 2]);
}

#[test]
fn u64_extremes_round_trip() {
    for x in [0u64, 1, 255, 256, u64::MAX - 1, u64::MAX] {
        let mut out = Vec::new();
        put_u64(&mut out, x);
        assert_eq!(out.len(), 8);
        assert_eq!(get_u64(&out, 0), x);
    }
}

#[test]
fn u64_is_read_at_an_offset() {
    let bytes = vec![0xaa, 0, 0, 0, 0, 0, 0, 0x12, 0x34, 0xbb];
    assert_eq!(get_u64(&bytes, 1), 0x1234);
}

#[test]
fn i32_is_written_in_twos_complement() {
    let mut out = Vec::new();
    put_i32(&mut out, -1);
    put_i32(&mut out, i32::MIN);
    put_i32(&mut out, i32::MAX);
    put_i32(&mut out, 5);
    assert_eq!(
        out,
        vec![0xff, 0xff, 0xff, 0xff, 0x80, 0, 0, 0, 0x7f, 0xff, 0xff, 0xff, 0, 0, 0, 5]
    );
}

#[test]
fn i32_extremes_round_trip() {
    for x in [0i32, 1, -1, 2, -2, 255, -256, 65536, i32::MIN, i32::MAX] {
        let mut out = vec![7u8];
        put_i32(&mut out, x);
        assert_eq!(out.len(), 5);
        assert_eq!(get_i32(&out, 1), x);
    }
}

#[test]
fn bytes_are_appended_unchanged() {
    let mut out = vec![1u8, 2];
    put_bytes(&mut out, &[3, 4, 5]);
    put_bytes(&mut out, &[]);
    assert_eq!(out, vec![1, 2, 3, 4, 5]);
}

#[test]
fn field_is_length_then_bytes() {
    let mut out = Vec::new();
    put_field(&mut out, b"abc");
    assert_eq!(out, vec![0, 0, 0, 0, 0, 0, 0, 3, b'a', b'b', b'c']);
}

#[test]
fn empty_field_is_eight_zero_bytes() {
    let mut out = Vec::new();
    put_field(&mut out, b"");
    assert_eq!(out, vec![0u8; 8]);
    assert_eq!(find_field(&out, 0), Some(8));
}

#[test]
fn field_is_found_where_it_is_whole() {
    let mut bytes = vec![0xeeu8];
    put_field(&mut bytes, b"abc");
    bytes.push(0xdd);
    assert_eq!(find_field(&bytes, 1), Some(12));
    assert_eq!(&bytes[9..12], b"abc");
}

#[test]
fn field_is_not_found_where_it_is_cut_short() {
    let mut bytes = Vec::new();
    put_field(&mut bytes, b"abc");
    for cut in 0..bytes.len() {
        assert_eq!(find_field(&bytes[..cut], 0), None);
    }
    assert_eq!(find_field(&bytes, 0), Some(bytes.len()));
}

#[test]
fn field_with_a_huge_length_is_not_found() {
    let bytes = vec![0xffu8; 12];
    assert_eq!(find_field(&bytes, 0), None);
    assert_eq!(find_field(&bytes, 12), None);
}

#[test]
fn text_is_written_as_utf8_field() {
    let mut out = Vec::new();
    put_text(&mut out, "hé");
    assert_eq!(out, vec![0, 0, 0, 0, 0, 0, 0, 3, b'h', 0xc3, 0xa9]);
}

#[test]
fn text_is_read_where_it_is_utf8() {
    let bytes = vec![b'x', b'h', 0xc3, 0xa9, b'y'];
    assert_eq!(get_text(&bytes, 1, 4), Some(String::from("hé")));
    assert_eq!(get_text(&bytes, 0, 0), Some(String::new()));
}

#[test]
fn text_is_refused_where_it_is_not_utf8() {
    let bytes = vec![b'h', 0xc3, 0xa9];
    assert_eq!(get_text(&bytes, 0, 2), None);
    assert_eq!(get_text(&[0xff], 0, 1), None);
}
