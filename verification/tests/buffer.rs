use styled_text::{ByteBuffer, CapacityError, InvalidUtf8};

#[test]
fn with_capacity_is_empty() {
    let buffer = ByteBuffer::with_capacity(10);
    assert_eq!(buffer.size(), 0);
    assert_eq!(buffer.capacity(), 10);
    assert!(buffer.is_empty());
}

#[test]
fn push_fills_reserved_room() {
    let mut buffer = ByteBuffer::with_capacity(3);
    buffer.push(1);
    buffer.push(2);
    buffer.push(3);
    assert_eq!(buffer.as_slice(), &[1, 2, 3]);
    assert_eq!(buffer.capacity(), 3);
    assert_eq!(buffer.size(), 3);
}

#[test]
fn push_safe_reserves_when_full() {
    let mut buffer = ByteBuffer::with_capacity(1);
    assert_eq!(buffer.push_safe(7), Ok(()));
    assert_eq!(buffer.capacity(), 1);
    assert_eq!(buffer.push_safe(8), Ok(()));
    assert_eq!(buffer.capacity(), 2);
    assert_eq!(buffer.to_vec(), vec![7, 8]);
}

#[test]
fn try_reserve_grows_to_what_is_needed() {
    let mut buffer = ByteBuffer::with_capacity(10);
    assert_eq!(buffer.try_reserve(10), Ok(()));
    assert_eq!(buffer.capacity(), 10);
    buffer.push(1);
    assert_eq!(buffer.try_reserve(10), Ok(()));
    assert_eq!(buffer.capacity(), 11);
    assert_eq!(buffer.size(), 1);
}

#[test]
fn try_reserve_reports_overflow() {
    let mut buffer = ByteBuffer::from(vec![1u8, 2, 3]);
    assert_eq!(buffer.try_reserve(usize::MAX), Err(CapacityError::Overflow));
    assert_eq!(buffer.capacity(), 3);
    assert_eq!(buffer.to_vec(), vec![1, 2, 3]);
}

#[test]
fn try_reserve_reports_refusal() {
    let mut buffer = ByteBuffer::from(vec![1u8, 2, 3]);
    assert_eq!(buffer.try_reserve(usize::MAX - 3), Err(CapacityError::Refused));
    assert_eq!(buffer.capacity(), 3);
}

#[test]
fn reservation_by_cases() {
    assert_eq!(ByteBuffer::reservation(3, 10, 7, false), Ok(10));
    assert_eq!(ByteBuffer::reservation(3, 10, 8, true), Ok(11));
    assert_eq!(ByteBuffer::reservation(3, 10, 8, false), Err(CapacityError::Refused));
    assert_eq!(ByteBuffer::reservation(3, 10, usize::MAX, true), Err(CapacityError::Overflow));
    assert_eq!(ByteBuffer::reservation(0, 0, 0, false), Ok(0));
}

#[test]
fn from_vec_has_no_room_to_spare() {
    let buffer = ByteBuffer::from(b"Hello".to_vec());
    assert_eq!(buffer.size(), 5);
    assert_eq!(buffer.capacity(), 5);
    assert_eq!(buffer.bytes(), &b"Hello".to_vec());
}

#[test]
fn filled_repeats_the_pattern() {
    let cut = ByteBuffer::filled(10, "Hello, World!");
    assert_eq!(cut.as_slice(), b"Hello, Wor");
    let run = ByteBuffer::filled(10, "a");
    assert_eq!(run.as_slice(), b"aaaaaaaaaa");
    let cycle = ByteBuffer::filled(7, "abc");
    assert_eq!(cycle.as_slice(), b"abcabca");
    let zeros = ByteBuffer::filled(4, "");
    assert_eq!(zeros.as_slice(), &[0, 0, 0, 0]);
    assert_eq!(zeros.capacity(), 4);
    assert!(ByteBuffer::filled(0, "abc").is_empty());
}

#[test]
fn count_and_byte_at() {
    let buffer = ByteBuffer::from(b"Hello, World!".to_vec());
    assert_eq!(buffer.count(b'l'), 3);
    assert_eq!(buffer.count(b'z'), 0);
    assert_eq!(buffer.byte_at(0), Some(72));
    assert_eq!(buffer.byte_at(1), Some(101));
    assert_eq!(buffer.byte_at(12), Some(33));
    assert_eq!(buffer.byte_at(13), None);
}

#[test]
fn clear_keeps_the_capacity() {
    let mut buffer = ByteBuffer::from(b"Hello".to_vec());
    buffer.clear();
    assert!(buffer.is_empty());
    assert_eq!(buffer.size(), 0);
    assert_eq!(buffer.capacity(), 5);
    buffer.push(b'x');
    assert_eq!(buffer.as_slice(), b"x");
}

#[test]
fn extend_grows_as_needed() {
    let mut buffer = ByteBuffer::from(b"Hello, ".to_vec());
    let other = ByteBuffer::from(b"World!".to_vec());
    buffer.extend_from(&other);
    assert_eq!(buffer.as_slice(), b"Hello, World!");
    assert_eq!(buffer.capacity(), 13);
    let mut roomy = ByteBuffer::with_capacity(20);
    roomy.extend_from_slice(b"abc");
    assert_eq!(roomy.capacity(), 20);
    assert_eq!(roomy.size(), 3);
}

#[test]
fn buffers_are_equal_by_their_bytes() {
    let mut roomy = ByteBuffer::with_capacity(20);
    roomy.extend_from_slice(b"abc");
    let tight = ByteBuffer::from(b"abc".to_vec());
    assert!(roomy == tight);
    assert!(roomy != ByteBuffer::from(b"abd".to_vec()));
    let copy = roomy.clone();
    assert_eq!(copy.capacity(), 20);
    assert!(copy == roomy);
    assert!(ByteBuffer::default().is_empty());
}

#[test]
fn buffer_text_needs_utf8() {
    let good = ByteBuffer::from("Hello, World!".as_bytes().to_vec());
    assert_eq!(good.text().unwrap().bytes(), &b"Hello, World!".to_vec());
    let bad = ByteBuffer::from(vec![0x48, 0xff, 0x49]);
    assert_eq!(bad.text().err(), Some(InvalidUtf8));
    assert!(ByteBuffer::default().text().unwrap().is_empty());
}
