use hostess::delta::{from_delta, rle_decode, rle_encode, to_delta};

#[test]
fn delta_of_run_against_empty() {
    assert_eq!(to_delta(b"AAAAA", b""), vec![0x05, 0x41]);
}

#[test]
fn decode_run_against_empty() {
    assert_eq!(from_delta(b"", &[0x05, 0x41]), b"AAAAA".to_vec());
}

#[test]
fn round_trip_same_length() {
    let old = vec![1u8, 2, 3, 250, 0, 7];
    let new = vec![1u8, 5, 3, 4, 255, 7];
    let d = to_delta(&new, &old);
    assert_eq!(from_delta(&old, &d), new);
}

#[test]
fn round_trip_new_longer() {
    let old = vec![9u8, 9];
    let new = vec![10u8, 8, 7, 7, 7];
    let d = to_delta(&new, &old);
    assert_eq!(d, vec![1, 1, 1, 255, 3, 7]);
    assert_eq!(from_delta(&old, &d), new);
}

#[test]
fn round_trip_old_longer_pads_with_zeros() {
    let old = vec![3u8, 4, 5, 6];
    let new = vec![3u8, 4];
    let d = to_delta(&new, &old);
    assert_eq!(d, vec![2, 0, 1, 251, 1, 250]);
    assert_eq!(from_delta(&old, &d), vec![3, 4, 0, 0]);
}

#[test]
fn identical_buffers_give_zero_runs() {
    let v = vec![42u8; 10];
    assert_eq!(to_delta(&v, &v), vec![10, 0]);
}

#[test]
fn empty_against_empty() {
    assert_eq!(to_delta(b"", b""), Vec::<u8>::new());
    assert_eq!(from_delta(b"", b""), Vec::<u8>::new());
}

#[test]
fn long_run_splits_at_255() {
    let d = vec![7u8; 300];
    let r = rle_encode(&d);
    assert_eq!(r, vec![255, 7, 45, 7]);
    assert_eq!(rle_decode(&r), d);
}

#[test]
fn run_of_exactly_255() {
    let d = vec![0u8; 255];
    assert_eq!(rle_encode(&d), vec![255, 0]);
}

#[test]
fn alternating_values() {
    let d = vec![1u8, 2, 1, 1, 0];
    let r = rle_encode(&d);
    assert_eq!(r, vec![1, 1, 1, 2, 2, 1, 1, 0]);
    assert_eq!(rle_decode(&r), d);
}

#[test]
fn decode_ignores_trailing_odd_byte() {
    assert_eq!(rle_decode(&[2, 9, 4]), vec![9, 9]);
    assert_eq!(rle_decode(&[5]), Vec::<u8>::new());
}

#[test]
fn decode_zero_count_pair() {
    assert_eq!(rle_decode(&[0, 9, 1, 3]), vec![3]);
}

#[test]
fn wrapping_difference() {
    let old = vec![200u8];
    let new = vec![10u8];
    let d = to_delta(&new, &old);
    assert_eq!(d, vec![1, 66]);
    assert_eq!(from_delta(&old, &d), new);
}
