use bob_bsp::divider::{compute, DividerError, DividerPair};

fn parts(pair: Result<DividerPair, DividerError>) -> (u8, u8) {
    let pair = pair.expect("a divider");
    (pair.integer(), pair.fraction())
}

#[test]
fn ratio_of_two_in_matching_units() {
    assert_eq!(parts(compute(130_000, 65_000)), (2, 0));
}

#[test]
fn ratio_of_two_thousand_does_not_fit() {
    assert_eq!(compute(130_000, 65), Err(DividerError::IntegerOverflow));
}

#[test]
fn far_faster_than_reference_is_degenerate() {
    assert_eq!(compute(1000, 1_000_000), Err(DividerError::Degenerate));
}

#[test]
fn faster_than_reference_keeps_fraction_only() {
    assert_eq!(parts(compute(1000, 2000)), (0, 8));
    assert_eq!(parts(compute(3, 4)), (0, 12));
}

#[test]
fn degenerate_starts_past_thirty_two_times_the_reference() {
    assert_eq!(parts(compute(1, 32)), (0, 1));
    assert_eq!(compute(1, 33), Err(DividerError::Degenerate));
    assert_eq!(parts(compute(1000, 32_000)), (0, 1));
    assert_eq!(compute(1000, 32_001), Err(DividerError::Degenerate));
}

#[test]
fn fraction_is_rounded_to_nearest() {
    assert_eq!(parts(compute(7, 4)), (1, 12));
    assert_eq!(parts(compute(10, 3)), (3, 5));
    assert_eq!(parts(compute(11, 3)), (3, 11));
    assert_eq!(parts(compute(130_000, 1000)), (130, 0));
    assert_eq!(parts(compute(130_000, 1024)), (126, 15));
}

#[test]
fn half_a_step_rounds_up() {
    assert_eq!(parts(compute(33, 32)), (1, 1));
    assert_eq!(parts(compute(35, 32)), (1, 2));
}

#[test]
fn fraction_is_held_at_fifteen() {
    assert_eq!(parts(compute(31, 32)), (0, 15));
    assert_eq!(parts(compute(63, 32)), (1, 15));
    assert_eq!(parts(compute(255 * 64 + 63, 64)), (255, 15));
}

#[test]
fn zero_rates_are_refused() {
    assert_eq!(compute(0, 5), Err(DividerError::ZeroRate));
    assert_eq!(compute(5, 0), Err(DividerError::ZeroRate));
    assert_eq!(compute(0, 0), Err(DividerError::ZeroRate));
}

#[test]
fn integer_part_is_bounded_by_the_register() {
    assert_eq!(parts(compute(255, 1)), (255, 0));
    assert_eq!(compute(256, 1), Err(DividerError::IntegerOverflow));
    assert_eq!(compute(u32::MAX, 1), Err(DividerError::IntegerOverflow));
    assert_eq!(parts(compute(u32::MAX, u32::MAX)), (1, 0));
    assert_eq!(parts(compute(u32::MAX - 1, u32::MAX)), (0, 15));
}

#[test]
fn desired_rate_lies_within_one_step() {
    let reference: u64 = 130_000;
    let mut desired: u64 = 508;
    while desired <= reference {
        let pair = compute(reference as u32, desired as u32).expect("a divider");
        let steps = u64::from(pair.steps());
        assert_eq!(u64::from(pair.integer()), reference / desired);
        assert!(steps >= 16);
        assert!((steps - 1) * desired < 16 * reference, "desired {desired}");
        assert!(16 * reference < (steps + 1) * desired, "desired {desired}");
        desired += 37;
    }
}

#[test]
fn same_rates_give_same_divider() {
    assert_eq!(compute(48_000, 1300), compute(48_000, 1300));
    assert_eq!(parts(compute(48_000, 1300)), (36, 15));
}

#[test]
fn pair_from_raw_parts() {
    let pair = DividerPair::new(3, 7).expect("a divider");
    assert_eq!((pair.integer(), pair.fraction(), pair.steps()), (3, 7, 55));
    let least = DividerPair::new(0, 1).expect("a divider");
    assert_eq!(least.steps(), 1);
    let most = DividerPair::new(255, 15).expect("a divider");
    assert_eq!(most.steps(), 4095);
}

#[test]
fn pair_of_zeros_is_refused() {
    assert_eq!(DividerPair::new(0, 0), Err(DividerError::Degenerate));
}

#[test]
fn fraction_above_fifteen_is_refused() {
    assert_eq!(DividerPair::new(1, 16), Err(DividerError::FractionOverflow));
    assert_eq!(DividerPair::new(0, 255), Err(DividerError::FractionOverflow));
}
