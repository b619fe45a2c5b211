use rsgenetic::pheno::Fitness;

#[test]
fn integer_zero() {
    assert_eq!(<i8 as Fitness>::zero(), 0);
    assert_eq!(<u64 as Fitness>::zero(), 0);
    assert_eq!(<usize as Fitness>::zero(), 0);
}

#[test]
fn integer_abs_diff() {
    assert_eq!(Fitness::abs_diff(&3i32, &10i32), 7);
    assert_eq!(Fitness::abs_diff(&10i32, &3i32), 7);
    assert_eq!(Fitness::abs_diff(&-5i64, &5i64), 10);
    assert_eq!(Fitness::abs_diff(&3u8, &250u8), 247);
    assert_eq!(Fitness::abs_diff(&7usize, &7usize), 0);
    assert_eq!(Fitness::abs_diff(&1u16, &0u16), 1);
    assert_eq!(Fitness::abs_diff(&0u32, &9u32), 9);
    assert_eq!(Fitness::abs_diff(&-3i16, &4i16), 7);
}

#[test]
fn signed_abs_diff_saturates() {
    assert_eq!(Fitness::abs_diff(&i8::MIN, &i8::MAX), i8::MAX);
    assert_eq!(Fitness::abs_diff(&i64::MAX, &i64::MIN), i64::MAX);
    assert_eq!(Fitness::abs_diff(&i32::MIN, &0i32), i32::MAX);
    assert_eq!(Fitness::abs_diff(&i16::MIN, &-1i16), i16::MAX);
}

#[test]
fn integer_score_is_the_value() {
    assert_eq!(Fitness::score(&-7i64), -7);
    assert_eq!(Fitness::score(&u64::MAX), u64::MAX as i128);
    assert_eq!(Fitness::score(&200u8), 200);
}
