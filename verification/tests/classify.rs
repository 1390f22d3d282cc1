use easy_rs::viz::classify::lee_ready_signed_volume;
use easy_rs::viz::palette::{color_delta_u64, heat_color, DeltaColor};

#[test]
fn lee_ready_above_mid_buy() {
    // mid = (100+198)/2 = 149; trade above mid => buy
    let (d, last) = lee_ready_signed_volume(150, 10, 100, 198, None);
    assert_eq!(d, 10);
    assert_eq!(last, Some(150));
}

#[test]
fn lee_ready_below_mid_sell() {
    let (d, last) = lee_ready_signed_volume(90, 5, 100, 200, None);
    assert_eq!(d, -5);
    assert_eq!(last, Some(90));
}

#[test]
fn lee_ready_at_mid_tick_up() {
    let (d, last) = lee_ready_signed_volume(150, 7, 100, 200, Some(140));
    assert_eq!(d, 7);
    assert_eq!(last, Some(150));
}

#[test]
fn lee_ready_at_mid_tick_down() {
    let (d, last) = lee_ready_signed_volume(150, 7, 100, 200, Some(160));
    assert_eq!(d, -7);
    assert_eq!(last, Some(150));
}

#[test]
fn lee_ready_at_mid_no_prev() {
    let (d, last) = lee_ready_signed_volume(150, 7, 100, 200, None);
    assert_eq!(d, 0);
    assert_eq!(last, Some(150));
}

#[test]
fn inverted_book_skips() {
    let (d, last) = lee_ready_signed_volume(150, 10, 200, 100, None);
    assert_eq!(d, 0);
    assert_eq!(last, None);
}

#[test]
fn zero_size_and_locked_quote_skip() {
    assert_eq!(lee_ready_signed_volume(150, 0, 100, 200, Some(7)), (0, Some(7)));
    assert_eq!(lee_ready_signed_volume(150, 3, 100, 100, Some(7)), (0, Some(7)));
}

#[test]
fn mid_saturates_on_huge_quotes() {
    // bid + ask overflows: mid = u64::MAX / 2
    let mid = u64::MAX / 2;
    let (d, _) = lee_ready_signed_volume(mid + 1, 4, u64::MAX - 10, u64::MAX, None);
    assert_eq!(d, 4);
    let (d, _) = lee_ready_signed_volume(mid, 4, u64::MAX - 10, u64::MAX, Some(mid + 1));
    assert_eq!(d, -4);
}

#[test]
fn at_mid_same_price_is_neutral() {
    assert_eq!(lee_ready_signed_volume(150, 7, 100, 200, Some(150)), (0, Some(150)));
}

#[test]
fn heat_ramp_endpoints() {
    assert_eq!(heat_color(0), (0, 0, 255));
    assert_eq!(heat_color(127), (0, 254, 1));
    assert_eq!(heat_color(128), (0, 255, 0));
    assert_eq!(heat_color(255), (254, 1, 0));
}

#[test]
fn delta_colors() {
    assert_eq!(color_delta_u64(1, 2, true, true), DeltaColor::Green);
    assert_eq!(color_delta_u64(2, 1, true, true), DeltaColor::Red);
    assert_eq!(color_delta_u64(2, 2, true, true), DeltaColor::White);
    assert_eq!(color_delta_u64(1, 2, false, true), DeltaColor::White);
    assert_eq!(color_delta_u64(1, 2, true, false), DeltaColor::DarkGray);
}

#[test]
fn lee_ready_huge_buy_saturates_positive() {
    let huge: u64 = (1u64 << 63) + 1;
    let (d, last) = lee_ready_signed_volume(150, huge, 100, 198, None);
    assert_eq!(d, i64::MAX);
    assert_eq!(last, Some(150));
    let (s, _) = lee_ready_signed_volume(90, u64::MAX, 100, 200, None);
    assert_eq!(s, -i64::MAX);
}
