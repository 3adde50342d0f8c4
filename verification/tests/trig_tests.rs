use involute::fixed::{FX_ONE, fx_div, fx_mul, isqrt_u128};
use involute::trig::{HALF_PI_FX, PI_FX, TWO_PI_FX, acos_fx, asin_fx, cos_fx, norm_angle, sin_fx};

#[test]
fn fixed_point_products_round_toward_negative_infinity() {
    assert_eq!(fx_mul(500_000, 500_000), 250_000);
    assert_eq!(fx_mul(-500_000, 500_000), -250_000);
    assert_eq!(fx_mul(1, 1), 0);
    assert_eq!(fx_mul(-1, 1), -1);
    assert_eq!(fx_mul(3_000_000, -2_000_000), -6_000_000);
}

#[test]
fn fixed_point_quotients_scale_up() {
    assert_eq!(fx_div(1_000_000, 12_000_000), 83_333);
    assert_eq!(fx_div(500_000, 1_000_000), 500_000);
    assert_eq!(fx_div(-1_000_000, 3_000_000), -333_334);
}

#[test]
fn integer_square_roots_are_exact() {
    assert_eq!(isqrt_u128(0), 0);
    assert_eq!(isqrt_u128(15), 3);
    assert_eq!(isqrt_u128(16), 4);
    assert_eq!(isqrt_u128(1_000_000_000_000), 1_000_000);
    assert_eq!(isqrt_u128(999_999_999_999), 999_999);
}

#[test]
fn sine_and_cosine_at_cardinal_angles() {
    assert_eq!(sin_fx(0), 0);
    assert_eq!(cos_fx(0), FX_ONE);
    assert_eq!(sin_fx(HALF_PI_FX), FX_ONE);
    assert_eq!(cos_fx(PI_FX), -FX_ONE);
    assert_eq!(sin_fx(TWO_PI_FX), 0);
    assert_eq!(cos_fx(TWO_PI_FX), FX_ONE);
}

#[test]
fn sine_of_thirty_degrees_is_one_half() {
    // pi/6 in fixed-point radians
    assert_eq!(sin_fx(523_599), 500_000);
}

#[test]
fn negative_angles_wrap_around_the_circle() {
    assert_eq!(norm_angle(-1), TWO_PI_FX - 1);
    assert_eq!(norm_angle(TWO_PI_FX + 7), 7);
    assert_eq!(norm_angle(0), 0);
    assert_eq!(sin_fx(-HALF_PI_FX), -FX_ONE);
    assert_eq!(cos_fx(-PI_FX), -FX_ONE);
}

#[test]
fn arcsine_values_and_monotonicity() {
    assert_eq!(asin_fx(0), 0);
    assert_eq!(asin_fx(500_000), 523_176);
    let mut prev = asin_fx(0);
    let mut x = 50_000;
    while x <= 1_000_000 {
        let cur = asin_fx(x);
        assert!(cur > prev);
        prev = cur;
        x += 50_000;
    }
}

#[test]
fn arccosine_is_exact_at_one_and_decreasing() {
    assert_eq!(acos_fx(FX_ONE), 0);
    assert_eq!(acos_fx(0), 1_532_064);
    assert!(acos_fx(999_888) < acos_fx(999_000));
    assert!(acos_fx(999_000) < acos_fx(0));
}
