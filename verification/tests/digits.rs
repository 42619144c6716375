use bbp_core::digits::{decimal_length, DigitLength};

#[test]
fn digit_length_of_small_numbers() {
    assert_eq!(0u64.length(), 1);
    assert_eq!(9u64.length(), 1);
    assert_eq!(10u64.length(), 2);
    assert_eq!(999u64.length(), 3);
    assert_eq!(1000u64.length(), 4);
}

#[test]
fn digit_length_of_usize() {
    assert_eq!(0usize.length(), 1);
    assert_eq!(9usize.length(), 1);
    assert_eq!(10usize.length(), 2);
    assert_eq!(999usize.length(), 3);
    assert_eq!(1000usize.length(), 4);
}

#[test]
fn digit_length_at_every_power_of_ten() {
    let mut power: u64 = 1;
    for digits in 1..20usize {
        assert_eq!(decimal_length(power), digits);
        assert_eq!(decimal_length(power * 10 - 1), digits);
        power *= 10;
    }
    assert_eq!(decimal_length(power), 20);
    assert_eq!(decimal_length(u64::MAX), 20);
}

#[test]
fn digit_length_matches_printed_length() {
    for &n in [0u64, 1, 5, 42, 100, 12_345, 99_999, 100_000, 4_294_967_295, u64::MAX].iter() {
        assert_eq!(n.length(), format!("{}", n).len());
    }
}

#[test]
fn digit_length_never_decreases() {
    let mut last = decimal_length(0);
    for n in 1..2_000u64 {
        let next = decimal_length(n);
        assert!(last <= next);
        last = next;
    }
}
