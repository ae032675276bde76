use delight::{
    binary_turn_off_rightmost_one, binary_turn_on_rightmost_zero, binary_turn_off_trailing_ones, binary_turn_on_trailing_zeros,
    binary_rightmost_zero_bitmask, binary_rightmost_one_bitmask, binary_trailing_zeros_bitmask, binary_trailing_ones_bitmask, binary_leading_ones_bitmask,
};

#[test]
fn test_binary_turn_off_rightmost_one() {
    let x = usize::from_str_radix("11001110", 2).unwrap();
    let y = binary_turn_off_rightmost_one(x);

    assert_eq!(format!("{:08b}", y), "11001100");
}

#[test]
fn test_binary_turn_on_rightmost_zero() {
    let x = usize::from_str_radix("11001111", 2).unwrap();
    let y = binary_turn_on_rightmost_zero(x);

    assert_eq!(format!("{:08b}", y), "11011111");
}

#[test]
fn test_binary_turn_off_trailing_ones() {
    let x = usize::from_str_radix("11011011", 2).unwrap();
    let y = binary_turn_off_trailing_ones(x);

    assert_eq!(format!("{:08b}", y), "11011000");
}

#[test]
fn test_binary_turn_on_trailing_zeros() {
    let x = usize::from_str_radix("11011000", 2).unwrap();
    let y = binary_turn_on_trailing_zeros(x);

    assert_eq!(format!("{:08b}", y), "11011111");
}

#[test]
fn test_binary_rightmost_zero_bitmask() {
    let x = usize::from_str_radix("11011011", 2).unwrap();
    let y = binary_rightmost_zero_bitmask(x);

    assert_eq!(format!("{:08b}", y), "00000100");
}

#[test]
fn test_binary_rightmost_one_bitmask() {
    let x = usize::from_str_radix("11011000", 2).unwrap();
    let y = binary_rightmost_one_bitmask(x);

    assert_eq!(format!("{:08b}", y), "00001000");
}

#[test]
fn test_binary_trailing_zeros_bitmask() {
    let x = usize::from_str_radix("11011000", 2).unwrap();
    let y = binary_trailing_zeros_bitmask(x);

    assert_eq!(format!("{:08b}", y), "00000111");
}

#[test]
fn test_binary_trailing_ones_bitmask() {
    let x = usize::from_str_radix("11011011", 2).unwrap();
    let y = binary_trailing_ones_bitmask(x);

    assert_eq!(format!("{:08b}", y), "00000011");
}

#[test]
fn test_binary_leading_ones_bitmask() {
    let x = usize::from_str_radix("11011110", 2).unwrap();
    let y = binary_leading_ones_bitmask(x);

    assert_eq!(format!("{:08b}", y), "11000000");
}
