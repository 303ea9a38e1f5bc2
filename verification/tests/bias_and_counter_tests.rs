use std::cmp::Ordering;
use zed_util::bias::Bias;
use zed_util::post_inc;

#[test]
fn bias_left_orders_before_right() {
    assert!(Bias::Left < Bias::Right);
    assert!(Bias::Right > Bias::Left);
    assert_eq!(Bias::Left.partial_cmp(&Bias::Right), Some(Ordering::Less));
    assert_eq!(Bias::Right.partial_cmp(&Bias::Left), Some(Ordering::Greater));
    assert_eq!(Bias::Left.partial_cmp(&Bias::Left), Some(Ordering::Equal));
    assert_eq!(Bias::Right.partial_cmp(&Bias::Right), Some(Ordering::Equal));
}

#[test]
fn bias_total_order_agrees_with_partial() {
    assert_eq!(Bias::Left.cmp(&Bias::Right), Ordering::Less);
    assert_eq!(Bias::Right.cmp(&Bias::Left), Ordering::Greater);
    assert_eq!(Bias::Left.cmp(&Bias::Left), Ordering::Equal);
    assert_eq!(Bias::Right.cmp(&Bias::Right), Ordering::Equal);
    assert_eq!(Bias::Left, Bias::Left);
    assert_ne!(Bias::Left, Bias::Right);
}

#[test]
fn post_inc_returns_previous_and_bumps() {
    let mut value: usize = 41;
    assert_eq!(post_inc(&mut value), 41);
    assert_eq!(value, 42);
    assert_eq!(post_inc(&mut value), 42);
    assert_eq!(value, 43);
}
