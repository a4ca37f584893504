use simbuf::{Buffer, ALLOC_SIZE, INITIAL_SIZE};
use std::io::{Read, Write};

const REFDATA: [u8; 5] = [1, 2, 4, 8, 16];

#[test]
fn cmp_in_different_states() {
    let mut buffer = Buffer::new();
    buffer.append(&REFDATA[..]);
    assert_eq!(&buffer, &REFDATA);
    buffer.clear();
    buffer.append(&REFDATA[..3]);
    assert_eq!(&buffer, &REFDATA[..3]);
}

#[test]
fn from_and_cmp_with_slice() {
    let buffer = Buffer::from(REFDATA.as_slice());
    assert_eq!(&buffer, REFDATA.as_slice());
    let buffer = Buffer::from(REFDATA);
    assert_eq!(&buffer, &REFDATA.to_vec());
    let buffer = Buffer::from(REFDATA);
    assert_eq!(&buffer, &REFDATA);
}

#[test]
fn as_ref_and_seek() {
    let mut buffer = Buffer::from("Hello, world!".as_bytes());
    assert_eq!(buffer.as_ref(), "Hello, world!".as_bytes());
    buffer.seek(7);
    assert_eq!(buffer.as_ref(), "world!".as_bytes());
}

#[test]
fn std_io_write() {
    let mut buffer = Buffer::new();
    buffer.write(REFDATA.as_slice()).unwrap();
    assert_eq!(&buffer, REFDATA.as_slice());
}

#[test]
fn std_io_read() {
    let mut vbuf = vec![0u8; 256];
    let mut buffer = Buffer::from(REFDATA);
    buffer.read(&mut vbuf).unwrap();
    assert_eq!(&vbuf[..5], REFDATA.as_slice());
}

#[test]
fn push_append_seek_clear_scenario() {
    let mut buffer = Buffer::new();
    buffer.push(1);
    buffer.push(2);
    buffer.push(3);
    buffer.append(&[4, 5]);
    assert_eq!(buffer.len(), 5);
    assert_eq!(buffer.as_slice(), &[1, 2, 3, 4, 5]);
    buffer.seek(2);
    assert_eq!(buffer.as_ref(), &[3, 4, 5]);
    assert_eq!(buffer.as_slice(), &[1, 2, 3, 4, 5]);
    buffer.clear();
    assert_eq!(buffer.len(), 0);
    assert!(buffer.is_empty());
    buffer.append(&[9]);
    assert_eq!(buffer.as_ref(), &[9]);
    assert_eq!(buffer.as_slice(), &[9]);
}

#[test]
fn drain_into_sink_takes_unread_bytes() {
    let mut buffer = Buffer::from(vec![1u8, 2, 3, 4, 5]);
    buffer.seek(2);
    let mut sink: Vec<u8> = vec![7];
    let n = buffer.drain_into(&mut sink);
    assert_eq!(n, 3);
    assert_eq!(sink, vec![7, 3, 4, 5]);
    assert!(buffer.as_ref().is_empty());
    assert_eq!(buffer.len(), 5);
    assert_eq!(buffer.drain_into(&mut sink), 0);
}

#[test]
fn consume_all_reports_unread_count() {
    let mut buffer = Buffer::from([3u8, 4, 5]);
    assert_eq!(buffer.consume_all(), 3);
    assert_eq!(buffer.as_ref(), &[] as &[u8]);
    assert_eq!(buffer.len(), 3);
}

#[test]
fn writes_concatenate_in_order() {
    let mut buffer = Buffer::with_capacity(4);
    buffer.append(&[1, 2]);
    buffer.push(3);
    buffer.append(&[]);
    buffer.append(&[4, 5, 6]);
    assert_eq!(buffer.len(), 6);
    assert_eq!(buffer.as_slice(), &[1, 2, 3, 4, 5, 6]);
}

#[test]
fn clear_then_writes_match_fresh_buffer() {
    let mut used = Buffer::from(vec![9u8; 100]);
    used.seek(40);
    used.clear();
    let mut fresh = Buffer::new();
    for chunk in [&[1u8, 2][..], &[3][..], &[4, 5, 6][..]] {
        used.append(chunk);
        fresh.append(chunk);
    }
    assert_eq!(used.as_slice(), fresh.as_slice());
    assert_eq!(used.as_ref(), fresh.as_ref());
    assert_eq!(used.len(), fresh.len());
    assert!(used == fresh);
}

#[test]
fn seek_past_end_clamps() {
    let mut buffer = Buffer::from([1u8, 2, 3]);
    buffer.seek(1);
    buffer.seek(100);
    assert!(buffer.as_ref().is_empty());
    assert_eq!(buffer.len(), 3);
    buffer.seek(usize::MAX);
    assert!(buffer.as_ref().is_empty());
}

#[test]
fn seeded_round_trip() {
    let bytes: Vec<u8> = (0u8..=255).collect();
    let buffer = Buffer::from(bytes.clone());
    assert_eq!(buffer.as_slice(), bytes.as_slice());
    assert_eq!(buffer.as_ref(), bytes.as_slice());
    assert_eq!(buffer.capacity(), INITIAL_SIZE);
    let empty = Buffer::from(&[][..]);
    assert!(empty.is_empty());
    assert_eq!(empty.as_slice(), &[] as &[u8]);
}

#[test]
fn seeded_larger_than_default_capacity() {
    let bytes = vec![5u8; INITIAL_SIZE + 1];
    let buffer = Buffer::from(bytes.clone());
    assert_eq!(buffer.capacity(), INITIAL_SIZE + 1);
    assert_eq!(buffer.as_slice(), bytes.as_slice());
}

#[test]
fn growth_keeps_earlier_bytes() {
    let mut buffer = Buffer::new();
    buffer.append(&[1, 2, 3]);
    let big: Vec<u8> = (0..10000u32).map(|i| (i % 251) as u8).collect();
    buffer.append(&big);
    assert_eq!(buffer.capacity(), 8192 + 10240);
    assert_eq!(buffer.len(), 10003);
    assert_eq!(&buffer.as_slice()[..3], &[1, 2, 3]);
    assert_eq!(&buffer.as_slice()[3..], big.as_slice());
    for i in 0..3000u32 {
        buffer.push((i % 7) as u8);
    }
    assert_eq!(buffer.len(), 13003);
    assert_eq!(&buffer.as_slice()[..3], &[1, 2, 3]);
    assert_eq!(&buffer.as_slice()[3..10003], big.as_slice());
}

#[test]
fn growth_by_one_quantum_and_by_exact_multiple() {
    let mut buffer = Buffer::with_capacity(0);
    assert_eq!(buffer.capacity(), 0);
    buffer.push(1);
    assert_eq!(buffer.capacity(), ALLOC_SIZE);
    let mut other = Buffer::with_capacity(0);
    other.append(&vec![0u8; 2 * ALLOC_SIZE]);
    assert_eq!(other.capacity(), 2 * ALLOC_SIZE);
    let mut third = Buffer::with_capacity(0);
    third.append(&vec![0u8; ALLOC_SIZE]);
    assert_eq!(third.capacity(), ALLOC_SIZE);
    let mut fourth = Buffer::with_capacity(10);
    fourth.append(&vec![1u8; 10]);
    assert_eq!(fourth.capacity(), 10);
}

#[test]
fn last_n_bounds() {
    let buffer = Buffer::from([1u8, 2, 3, 4]);
    assert_eq!(buffer.last_n(5), None);
    assert_eq!(buffer.last_n(0), Some(&[] as &[u8]));
    assert_eq!(buffer.last_n(2), Some(&[3u8, 4][..]));
    assert_eq!(buffer.last_n(4), Some(&[1u8, 2, 3, 4][..]));
    let empty = Buffer::new();
    assert_eq!(empty.last_n(0), Some(&[] as &[u8]));
    assert_eq!(empty.last_n(1), None);
}

#[test]
fn first_and_last() {
    let mut buffer = Buffer::new();
    assert_eq!(buffer.last(), None);
    buffer.append(&[7, 8, 9]);
    buffer.seek(2);
    assert_eq!(buffer.first(), 7);
    assert_eq!(buffer.first_n(2), &[7, 8]);
    assert_eq!(buffer.first_n(0), &[] as &[u8]);
    assert_eq!(buffer.last(), Some(9));
}

#[test]
fn equality_compares_unread_bytes() {
    let mut a = Buffer::from([1u8, 2, 3]);
    let b = Buffer::from([3u8]);
    assert!(a != b);
    a.seek(2);
    assert!(a == b);
    assert!(a == vec![3u8]);
    assert!(a != vec![2u8, 3]);
    assert!(&a == &[3u8][..]);
    assert!(a != [1u8, 2, 3]);
}

#[test]
fn read_into_copies_what_fits() {
    let mut buffer = Buffer::from([1u8, 2, 3, 4, 5]);
    let mut out = [0u8; 3];
    assert_eq!(buffer.read_into(&mut out), 3);
    assert_eq!(out, [1, 2, 3]);
    assert_eq!(buffer.as_ref(), &[4, 5]);
    let mut out = [9u8; 4];
    assert_eq!(buffer.read_into(&mut out), 2);
    assert_eq!(out, [4, 5, 9, 9]);
    assert!(buffer.as_ref().is_empty());
    assert_eq!(buffer.read_into(&mut out), 0);
}

#[test]
fn std_io_read_consumes() {
    let mut buffer = Buffer::from([1u8, 2, 3]);
    let mut out = [0u8; 2];
    assert_eq!(buffer.read(&mut out).unwrap(), 2);
    assert_eq!(out, [1, 2]);
    assert_eq!(buffer.read(&mut out).unwrap(), 1);
    assert_eq!(out, [3, 2]);
    assert_eq!(buffer.read(&mut out).unwrap(), 0);
}

#[test]
fn std_io_write_reports_length() {
    let mut buffer = Buffer::with_capacity(2);
    assert_eq!(buffer.write(&[1, 2, 3]).unwrap(), 3);
    assert_eq!(buffer.as_slice(), &[1, 2, 3]);
    buffer.flush().unwrap();
    assert_eq!(buffer.capacity(), 2 + ALLOC_SIZE);
}

#[test]
fn fill_takes_only_spare_capacity() {
    let mut buffer = Buffer::with_capacity(4);
    buffer.append(&[1]);
    assert_eq!(buffer.spare_capacity(), 3);
    assert_eq!(buffer.fill_from(&[2, 3, 4, 5, 6]), 3);
    assert_eq!(buffer.as_slice(), &[1, 2, 3, 4]);
    assert_eq!(buffer.spare_capacity(), 0);
    assert_eq!(buffer.fill_from(&[7]), 0);
    assert_eq!(buffer.capacity(), 4);
    let mut roomy = Buffer::new();
    assert_eq!(roomy.fill_from(&[1, 2]), 2);
    assert_eq!(roomy.as_slice(), &[1, 2]);
}

#[test]
fn can_take_and_default() {
    let buffer = Buffer::default();
    assert!(buffer.is_empty());
    assert_eq!(buffer.capacity(), INITIAL_SIZE);
    assert!(buffer.can_take(0));
    assert!(buffer.can_take(1 << 20));
    assert!(!buffer.can_take(usize::MAX));
    assert!(buffer.is_well_formed());
}

#[test]
fn clone_is_deep() {
    let mut a = Buffer::from([1u8, 2, 3]);
    a.seek(1);
    let b = a.clone();
    a.append(&[4]);
    assert_eq!(b.as_slice(), &[1, 2, 3]);
    assert_eq!(b.as_ref(), &[2, 3]);
    assert_eq!(a.as_ref(), &[2, 3, 4]);
}

#[test]
fn push_on_full_buffer_grows_one_quantum() {
    let mut buffer = Buffer::with_capacity(3);
    buffer.append(&[1, 2, 3]);
    assert_eq!(buffer.spare_capacity(), 0);
    buffer.push(4);
    assert_eq!(buffer.capacity(), 3 + ALLOC_SIZE);
    assert_eq!(buffer.as_slice(), &[1, 2, 3, 4]);
}
