use fan_control::average::Average;

fn avg(total: i128, count: usize) -> Average {
    Average::new(total, count).unwrap()
}

#[test]
fn new_keeps_total_and_count() {
    let a = avg(7, 2);
    assert_eq!(a.total(), 7);
    assert_eq!(a.count(), 2);
}

#[test]
fn new_refuses_an_empty_count() {
    assert!(Average::new(0, 0).is_none());
    assert!(Average::new(5, 0).is_none());
}

#[test]
fn new_refuses_a_value_out_of_range() {
    let top = i32::MAX as i128;
    let bottom = i32::MIN as i128;
    assert!(Average::new(top, 1).is_some());
    assert!(Average::new(top + 1, 1).is_none());
    assert!(Average::new(bottom, 1).is_some());
    assert!(Average::new(bottom - 1, 1).is_none());
    assert!(Average::new(3 * top, 3).is_some());
    assert!(Average::new(3 * top + 1, 3).is_none());
    assert!(Average::new(3 * bottom, 3).is_some());
    assert!(Average::new(3 * bottom - 1, 3).is_none());
}

#[test]
fn new_accepts_the_largest_count() {
    let n = usize::MAX as i128;
    assert!(Average::new(n * i32::MAX as i128, usize::MAX).is_some());
    assert!(Average::new(n * i32::MAX as i128 + 1, usize::MAX).is_none());
    assert!(Average::new(n * i32::MIN as i128, usize::MAX).is_some());
    assert!(Average::new(n * i32::MIN as i128 - 1, usize::MAX).is_none());
}

#[test]
fn exceeds_is_strict() {
    // 21 / 2 = 10.5
    let a = avg(21, 2);
    assert!(a.exceeds(10));
    assert!(!a.exceeds(11));
    // 20 / 2 = 10 is not above 10
    let b = avg(20, 2);
    assert!(!b.exceeds(10));
    assert!(b.exceeds(9));
}

#[test]
fn exceeds_with_negative_values() {
    // -7 / 2 = -3.5
    let a = avg(-7, 2);
    assert!(a.exceeds(-4));
    assert!(!a.exceeds(-3));
    let zero = avg(0, 1);
    assert!(zero.exceeds(-1));
    assert!(!zero.exceeds(0));
}

#[test]
fn exceeds_at_the_ends_of_the_range() {
    let top = avg(i32::MAX as i128, 1);
    assert!(!top.exceeds(i32::MAX));
    assert!(top.exceeds(i32::MAX - 1));
    assert!(top.exceeds(i32::MIN));
    let bottom = avg(i32::MIN as i128, 1);
    assert!(!bottom.exceeds(i32::MIN));
    assert!(!bottom.exceeds(i32::MAX));
    let n = usize::MAX as i128;
    let wide = avg(n * i32::MIN as i128 + 1, usize::MAX);
    assert!(wide.exceeds(i32::MIN));
    assert!(!wide.exceeds(i32::MIN + 1));
}

#[test]
fn exceeds_half_compares_with_half_the_limit() {
    // half of 31 is 15.5
    assert!(avg(16, 1).exceeds_half(31));
    assert!(!avg(15, 1).exceeds_half(31));
    assert!(!avg(31, 2).exceeds_half(31));
    assert!(avg(32, 2).exceeds_half(31));
    assert!(avg(20, 1).exceeds_half(31));
    // half of -5 is -2.5
    assert!(avg(-2, 1).exceeds_half(-5));
    assert!(!avg(-3, 1).exceeds_half(-5));
    assert!(!avg(-5, 2).exceeds_half(-5));
}

#[test]
fn exceeds_half_at_the_ends_of_the_range() {
    let top = avg(i32::MAX as i128, 1);
    assert!(top.exceeds_half(i32::MAX));
    let n = usize::MAX as i128;
    let wide_top = avg(n * i32::MAX as i128, usize::MAX);
    assert!(wide_top.exceeds_half(i32::MAX));
    let wide_bottom = avg(n * i32::MIN as i128, usize::MAX);
    assert!(!wide_bottom.exceeds_half(i32::MIN));
    assert!(!wide_bottom.exceeds_half(i32::MAX));
}

#[test]
fn is_above_compares_fractions_exactly() {
    // 1/3 > 2/7 because 7 > 6
    assert!(avg(1, 3).is_above(&avg(2, 7)));
    assert!(!avg(2, 7).is_above(&avg(1, 3)));
    // equal values in different shapes
    assert!(!avg(2, 4).is_above(&avg(1, 2)));
    assert!(!avg(1, 2).is_above(&avg(2, 4)));
    // same whole part, different remainder: 7/2 = 3.5 and 10/3 = 3.33..
    assert!(avg(7, 2).is_above(&avg(10, 3)));
    assert!(!avg(10, 3).is_above(&avg(7, 2)));
    assert!(!avg(20, 1).is_above(&avg(25, 1)));
    assert!(avg(25, 1).is_above(&avg(20, 1)));
}

#[test]
fn is_above_with_negative_values() {
    // -1/3 > -1/2
    assert!(avg(-1, 3).is_above(&avg(-1, 2)));
    assert!(!avg(-1, 2).is_above(&avg(-1, 3)));
    // -7/2 = -3.5 and -10/3 = -3.33..
    assert!(avg(-10, 3).is_above(&avg(-7, 2)));
    assert!(!avg(-7, 2).is_above(&avg(-10, 3)));
    assert!(avg(1, 5).is_above(&avg(-1, 5)));
    assert!(avg(0, 1).is_above(&avg(-1, 1000)));
    assert!(!avg(-1, 1000).is_above(&avg(0, 1)));
}

#[test]
fn is_above_is_never_true_of_an_average_and_itself() {
    let values = [avg(0, 1), avg(-5, 3), avg(7, 2), avg(i32::MAX as i128, 1)];
    for a in values.iter() {
        assert!(!a.is_above(a));
    }
}

#[test]
fn is_above_with_the_largest_counts() {
    let n = usize::MAX as i128;
    let top = avg(n * i32::MAX as i128, usize::MAX);
    let just_below = avg(n * i32::MAX as i128 - 1, usize::MAX);
    assert!(top.is_above(&just_below));
    assert!(!just_below.is_above(&top));
    assert!(!top.is_above(&avg(i32::MAX as i128, 1)));
    assert!(avg(i32::MAX as i128, 1).is_above(&just_below));

    let bottom = avg(n * i32::MIN as i128, usize::MAX);
    let just_above = avg(n * i32::MIN as i128 + 1, usize::MAX);
    assert!(just_above.is_above(&bottom));
    assert!(!bottom.is_above(&just_above));
    assert!(top.is_above(&bottom));
    assert!(!bottom.is_above(&top));

    // (n - 1) / n against (n - 2) / (n - 1): the first is the greater
    let a = avg(n - 1, usize::MAX);
    let b = avg(n - 2, usize::MAX - 1);
    assert!(a.is_above(&b));
    assert!(!b.is_above(&a));
}
