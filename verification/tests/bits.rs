use frog::client::flow::secret_input;
use frog::utils::{binary_to_u64, u64_to_binary};

#[test]
fn u64_to_binary_is_little_endian() {
    assert_eq!(u64_to_binary::<4>(6), vec![false, true, true, false]);
    assert_eq!(u64_to_binary::<3>(1), vec![true, false, false]);
}

#[test]
fn u64_to_binary_of_zero_bits() {
    assert_eq!(u64_to_binary::<0>(0), Vec::<bool>::new());
}

#[test]
fn u64_to_binary_full_width() {
    let bits = u64_to_binary::<64>(u64::MAX);
    assert_eq!(bits.len(), 64);
    assert!(bits.iter().all(|b| *b));
    let top = u64_to_binary::<64>(1u64 << 63);
    assert!(top[63]);
    assert!(top[..63].iter().all(|b| !*b));
}

#[test]
fn binary_to_u64_values() {
    assert_eq!(binary_to_u64(vec![]), 0);
    assert_eq!(binary_to_u64(vec![false, true, true]), 6);
    assert_eq!(binary_to_u64(vec![true; 64]), u64::MAX);
    assert_eq!(binary_to_u64(vec![true, false, false, false, false]), 1);
}

#[test]
fn number_to_bits_and_back() {
    for v in [0u64, 1, 6, 255, 123_456_789, u64::MAX] {
        assert_eq!(binary_to_u64(u64_to_binary::<64>(v)), v);
    }
    assert_eq!(binary_to_u64(u64_to_binary::<8>(200)), 200);
}

#[test]
fn bits_to_number_and_back() {
    let bits = vec![true, false, true, true, false, false, true, false];
    assert_eq!(u64_to_binary::<8>(binary_to_u64(bits.clone())), bits);
}

#[test]
fn secret_input_encodes_six() {
    let bits = secret_input();
    assert_eq!(bits.len(), 64);
    assert_eq!(binary_to_u64(bits), 6);
}
