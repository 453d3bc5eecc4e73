use cfb::alignment::{align, align_after, check_power_of_two, padding, padding_after};

#[test]
fn test_align() {
    assert_eq!(0, align(0, 16));
    assert_eq!(16, align(1, 16));
    assert_eq!(16, align(15, 16));
    assert_eq!(16, align(16, 16));
    assert_eq!(32, align(17, 16));
}

#[test]
fn test_align_after() {
    assert_eq!(0, align_after(0, 0, 32));
    assert_eq!(24, align_after(0, 8, 32));
    assert_eq!(24, align_after(24, 8, 32));
    assert_eq!(56, align_after(25, 8, 32));
}

#[test]
fn align_is_the_least_multiple_at_or_above() {
    for d in 0u32..16 {
        let alignment = 1usize << d;
        for current_position in [0usize, 1, 2, 3, 7, 8, 9, 255, 256, 257, 65535, 1_000_003] {
            let result = align(current_position, alignment);
            assert!(result >= current_position);
            assert!(result - current_position < alignment);
            assert_eq!(0, result % alignment);
            assert_eq!(result - current_position, padding(current_position, alignment));
        }
    }
}

#[test]
fn align_after_leaves_the_end_on_a_multiple() {
    for l in 0u32..16 {
        for d in 0u32..16 {
            let len = 1usize << l;
            let alignment = 1usize << d;
            for current_position in [0usize, 1, 5, 24, 25, 4095, 4096, 999_999] {
                let result = align_after(current_position, len, alignment);
                assert!(result >= current_position);
                assert!(result - current_position < alignment.max(len));
                assert_eq!(0, (result + len) % alignment.max(len));
                assert_eq!(
                    result - current_position,
                    padding_after(current_position, len, alignment)
                );
            }
        }
    }
}

#[test]
fn align_works_at_the_top_of_the_range() {
    assert_eq!(usize::MAX - 15, align(usize::MAX - 15, 16));
    assert_eq!(usize::MAX - 15, align(usize::MAX - 30, 16));
    assert_eq!(0, padding(0, 1));
    assert_eq!(1, padding(usize::MAX, 2));
}

#[test]
fn powers_of_two_are_told_apart() {
    assert!(check_power_of_two(1));
    assert!(check_power_of_two(2));
    assert!(check_power_of_two(1 << 20));
    assert!(!check_power_of_two(0));
    assert!(!check_power_of_two(3));
    assert!(!check_power_of_two(24));
}
