use std::borrow::Borrow;
use std::cmp::Ordering;
use std::collections::HashMap;
use str0m::rtp::MAX_BLANK_PADDING_PAYLOAD_SIZE;
use str0m::shared_bytes::SharedBytes;

#[test]
fn supports_common_byte_conversions() {
    let from_vec: SharedBytes = vec![1, 2, 3].into();
    let from_slice: SharedBytes = [4, 5, 6].as_slice().into();
    let from_array: SharedBytes = [7, 8, 9].into();

    assert_eq!(&*from_vec, &[1, 2, 3]);
    assert_eq!(&*from_slice, &[4, 5, 6]);
    assert_eq!(&*from_array, &[7, 8, 9]);
}

#[test]
fn every_conversion_gives_the_same_bytes() {
    let boxed: Box<[u8]> = vec![1, 2, 3].into_boxed_slice();
    let all = [
        SharedBytes::from(boxed),
        SharedBytes::from(vec![1, 2, 3]),
        SharedBytes::from(&[1u8, 2, 3]),
        SharedBytes::from([1u8, 2, 3]),
        SharedBytes::from([1u8, 2, 3].as_slice()),
        SharedBytes::copy_from_slice(&[1, 2, 3]),
    ];
    for shared in &all {
        assert_eq!(shared, &all[0]);
        assert_eq!(shared.as_slice(), &[1, 2, 3]);
        assert_eq!(shared.len(), 3);
        assert!(!shared.is_empty());
        let by_ref: &[u8] = shared.as_ref();
        let borrowed: &[u8] = shared.borrow();
        assert_eq!(by_ref, borrowed);
    }
}

#[test]
fn nothing_is_shared_by_default() {
    let shared = SharedBytes::default();
    assert!(shared.is_empty());
    assert_eq!(shared.len(), 0);
    assert_eq!(shared.as_slice(), &[] as &[u8]);
}

#[test]
fn clones_share_their_bytes() {
    let shared = SharedBytes::from(vec![9; 1_200]);
    let other = shared.clone();
    assert_eq!(shared, other);
    assert_eq!(shared.as_slice().as_ptr(), other.as_slice().as_ptr());
}

#[test]
fn buffers_are_ordered_like_their_bytes() {
    let rows: [&[u8]; 6] = [&[], &[0], &[0, 255], &[1], &[1, 0], &[255]];
    for (i, a) in rows.iter().enumerate() {
        for (j, b) in rows.iter().enumerate() {
            let x = SharedBytes::copy_from_slice(a);
            let y = SharedBytes::copy_from_slice(b);
            assert_eq!(x.partial_cmp(&y), Some(i.cmp(&j)));
            assert_eq!(x.cmp(&y), i.cmp(&j));
            assert_eq!(x == y, i == j);
            assert_eq!(x.cmp(&y) == Ordering::Equal, x == y);
        }
    }
}

#[test]
fn buffers_are_found_by_their_bytes() {
    let mut map = HashMap::new();
    map.insert(SharedBytes::from([1u8, 2]), 5);
    assert_eq!(map.get([1u8, 2].as_slice()), Some(&5));
    assert_eq!(map.get([2u8, 1].as_slice()), None);
}

#[test]
fn buffers_cross_threads() {
    fn sendable<T: Send + Sync>(value: T) -> T {
        value
    }
    assert_eq!(sendable(SharedBytes::from([5u8])).len(), 1);
}

#[test]
fn padding_payload_is_whole_blocks() {
    assert_eq!(MAX_BLANK_PADDING_PAYLOAD_SIZE, 240);
    assert_eq!(MAX_BLANK_PADDING_PAYLOAD_SIZE % 16, 0);
}
