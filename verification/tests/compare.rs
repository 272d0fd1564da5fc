use core::cmp::Ordering;
use tick_duration::{Duration, Helpers, Ratio};

type Seconds = Duration<1, 1>;
type Millis = Duration<1, 1000>;
type Micros = Duration<1, 1_000_000>;
type Mhz48 = Duration<1, 48_000_000>;

/// The order of `a * n1 / d1` and `b * n2 / d2`, by cross multiplication in 128 bits.
fn exact_order(a: u32, left: Ratio, b: u32, right: Ratio) -> Ordering {
    let l = a as u128 * left.nom as u128 * right.denom as u128;
    let r = b as u128 * right.nom as u128 * left.denom as u128;
    l.cmp(&r)
}

#[test]
fn milliseconds_equal_seconds() {
    let left = Millis::new(5000);
    let right = Seconds::new(5);
    assert!(left == right);
    assert!(!(left != right));
    assert_eq!(left.partial_cmp(&right), Some(Ordering::Equal));
    assert!(left <= right);
    assert!(left >= right);
    assert!(!(left < right));
    assert!(!(left > right));
}

#[test]
fn milliseconds_less_than_seconds() {
    let left = Millis::new(4999);
    let right = Seconds::new(5);
    assert_eq!(left.partial_cmp(&right), Some(Ordering::Less));
    assert!(left < right);
    assert!(left <= right);
    assert!(!(left > right));
    assert!(left != right);
    assert!(!(left == right));
}

#[test]
fn millisecond_greater_than_microseconds() {
    let left = Millis::new(1);
    let right = Micros::new(999);
    assert_eq!(left.partial_cmp(&right), Some(Ordering::Greater));
    assert!(left > right);
    assert!(left >= right);
    assert!(!(left < right));
    assert!(left != right);
}

#[test]
fn same_period_cmp_is_tick_order() {
    let a = Mhz48::new(100);
    let b = Mhz48::new(200);
    assert_eq!(a.cmp(&b), Ordering::Less);
    assert_eq!(b.cmp(&a), Ordering::Greater);
    assert_eq!(a.cmp(&a), Ordering::Equal);
    assert_eq!(100u32.cmp(&200u32), a.cmp(&b));
}

#[test]
fn same_period_matches_integers() {
    let values = [0u32, 1, 2, 99, 100, 101, 65_535, 65_536, u32::MAX - 1, u32::MAX];
    for &x in values.iter() {
        for &y in values.iter() {
            let a = Mhz48::new(x);
            let b = Mhz48::new(y);
            assert_eq!(a < b, x < y);
            assert_eq!(a <= b, x <= y);
            assert_eq!(a > b, x > y);
            assert_eq!(a >= b, x >= y);
            assert_eq!(a == b, x == y);
            assert_eq!(a != b, x != y);
            assert_eq!(a.partial_cmp(&b), Some(x.cmp(&y)));
            assert_eq!(a.cmp(&b), x.cmp(&y));
            assert_eq!(Ord::cmp(&a, &b), x.cmp(&y));
        }
    }
}

#[test]
fn same_period_is_reflexive() {
    for &x in [0u32, 1, 5000, u32::MAX].iter() {
        let a = Millis::new(x);
        assert!(a == a);
        assert_eq!(a.partial_cmp(&a), Some(Ordering::Equal));
        assert_eq!(a.cmp(&a), Ordering::Equal);
    }
}

#[test]
fn same_period_of_zero_seconds_orders_by_ticks() {
    let a = Duration::<0, 7>::new(1);
    let b = Duration::<0, 7>::new(2);
    assert!(a < b);
    assert!(a != b);
    assert_eq!(a.partial_cmp(&b), Some(Ordering::Less));
}

#[test]
fn sorting_uses_tick_order() {
    let mut v = vec![Millis::new(30), Millis::new(10), Millis::new(20), Millis::new(10)];
    v.sort();
    let ticks: Vec<u32> = v.iter().map(|d| d.ticks).collect();
    assert_eq!(ticks, vec![10, 10, 20, 30]);
    assert_eq!(v.iter().max().map(|d| d.ticks), Some(30));
}

#[test]
fn ratio_reports_the_type_parameters() {
    assert_eq!(Millis::ratio(), Ratio { nom: 1, denom: 1000 });
    assert_eq!(Mhz48::ratio(), Ratio { nom: 1, denom: 48_000_000 });
    assert_eq!(Duration::<3, 7>::ratio().nom, 3);
    assert_eq!(Duration::<3, 7>::ratio().denom, 7);
    assert_eq!(Duration::<{ u32::MAX }, 1>::ratio(), Ratio { nom: u32::MAX, denom: 1 });
}

#[test]
fn new_keeps_the_tick_count() {
    assert_eq!(Millis::new(0).ticks, 0);
    assert_eq!(Millis::new(5000).ticks, 5000);
    assert_eq!(Millis::new(u32::MAX).ticks, u32::MAX);
}

#[test]
fn cross_period_matches_exact_order() {
    let values = [0u32, 1, 2, 3, 7, 10, 999, 1000, 1001, 4999, 5000, 5001, 65_535];
    for &x in values.iter() {
        for &y in values.iter() {
            let a = Duration::<3, 10>::new(x);
            let b = Duration::<9, 20>::new(y);
            let want = exact_order(x, Duration::<3, 10>::ratio(), y, Duration::<9, 20>::ratio());
            assert_eq!(a.partial_cmp(&b), Some(want));
            assert_eq!(a == b, want == Ordering::Equal);
            assert_eq!(a < b, want == Ordering::Less);
            assert_eq!(a > b, want == Ordering::Greater);

            let c = Millis::new(x);
            let d = Micros::new(y);
            let want = exact_order(x, Millis::ratio(), y, Micros::ratio());
            assert_eq!(c.partial_cmp(&d), Some(want));
            assert_eq!(c == d, want == Ordering::Equal);
        }
    }
}

#[test]
fn equal_periods_written_differently_are_compared_across() {
    // 2/4 and 1/2 are different descriptors of one period.
    let a = Duration::<2, 4>::new(17);
    let b = Duration::<1, 2>::new(17);
    let c = Duration::<1, 2>::new(18);
    assert!(a == b);
    assert_eq!(a.partial_cmp(&b), Some(Ordering::Equal));
    assert_eq!(a.partial_cmp(&c), Some(Ordering::Less));
    let h = Helpers::new(Ratio { nom: 2, denom: 4 }, Ratio { nom: 1, denom: 2 });
    assert!(!h.same_base);
    assert_eq!(h.right_cross, 1);
    assert_eq!(h.left_cross, 1);
    assert_eq!(h.divisor, 4);
}

#[test]
fn overflow_makes_unequal_and_unordered() {
    // 5_000_000 s * 1000 does not fit in 32 bits.
    let left = Millis::new(1);
    let right = Seconds::new(5_000_000);
    assert_eq!(left.partial_cmp(&right), None);
    assert!(!(left == right));
    assert!(left != right);
    assert!(!(left < right));
    assert!(!(left <= right));
    assert!(!(left > right));
    assert!(!(left >= right));
}

#[test]
fn overflow_hides_true_equality() {
    // 2^31 ticks of 3 s and 3 * 2^30 ticks of 2 s last equally long, but
    // 2^31 * 3 does not fit in 32 bits.
    let left = Duration::<3, 1>::new(1 << 31);
    let right = Duration::<2, 1>::new(3 << 30);
    assert!(!(left == right));
    assert_eq!(left.partial_cmp(&right), None);
    assert!(!(right == left));
    assert_eq!(right.partial_cmp(&left), None);
}

#[test]
fn largest_product_that_fits_is_compared() {
    // 4_294_967 * 1000 = 4_294_967_000 fits, 4_294_968 * 1000 does not.
    let right = Seconds::new(4_294_967);
    assert_eq!(Millis::new(4_294_967_000).partial_cmp(&right), Some(Ordering::Equal));
    assert_eq!(Millis::new(u32::MAX).partial_cmp(&right), Some(Ordering::Greater));
    assert_eq!(Millis::new(0).partial_cmp(&right), Some(Ordering::Less));
    assert_eq!(Millis::new(u32::MAX).partial_cmp(&Seconds::new(4_294_968)), None);
}

#[test]
fn multiplier_beyond_32_bits() {
    // One tick of u32::MAX seconds against ticks of 1/u32::MAX seconds:
    // the left multiplier is (2^32 - 1)^2.
    let h = Helpers::new(Ratio { nom: u32::MAX, denom: 1 }, Ratio { nom: 1, denom: u32::MAX });
    assert_eq!(h.right_cross, 18_446_744_065_119_617_025);
    assert_eq!(h.left_cross, 1);
    assert_eq!(h.divisor, 1);
    let one = Duration::<{ u32::MAX }, 1>::new(1);
    let zero = Duration::<{ u32::MAX }, 1>::new(0);
    let small = Duration::<1, { u32::MAX }>::new(5);
    let none = Duration::<1, { u32::MAX }>::new(0);
    assert_eq!(one.partial_cmp(&small), None);
    assert!(one != small);
    assert_eq!(zero.partial_cmp(&small), Some(Ordering::Less));
    assert_eq!(zero.partial_cmp(&none), Some(Ordering::Equal));
    assert!(zero == none);
    assert_eq!(small.partial_cmp(&one), None);
    assert_eq!(small.partial_cmp(&zero), Some(Ordering::Greater));
}

#[test]
fn equality_is_symmetric_across_periods() {
    let values = [0u32, 1, 5, 4999, 5000, 5001, 4_294_967, 4_294_968, 5_000_000, u32::MAX];
    for &x in values.iter() {
        for &y in values.iter() {
            let a = Millis::new(x);
            let b = Seconds::new(y);
            assert_eq!(a == b, b == a);
            assert_eq!(a != b, b != a);
            let forth = a.partial_cmp(&b);
            let back = b.partial_cmp(&a);
            assert_eq!(forth, back.map(Ordering::reverse));
            assert_eq!(a == b, forth == Some(Ordering::Equal));
        }
    }
}

#[test]
fn periods_of_zero_seconds_are_all_equal_across() {
    let a = Duration::<0, 1>::new(3);
    let b = Duration::<0, 2>::new(900);
    assert!(a == b);
    assert_eq!(a.partial_cmp(&b), Some(Ordering::Equal));
    let h = Helpers::new(Ratio { nom: 0, denom: 1 }, Ratio { nom: 0, denom: 2 });
    assert_eq!(h.divisor, 0);
    assert_eq!(h.right_cross, 0);
    assert_eq!(h.left_cross, 0);
    assert!(!h.same_base);
}

#[test]
fn zero_period_against_positive_period() {
    // Any number of ticks of zero seconds lasts as long as zero ticks.
    let a = Duration::<0, 1>::new(77);
    assert!(a == Seconds::new(0));
    assert_eq!(a.partial_cmp(&Seconds::new(1)), Some(Ordering::Less));
    assert_eq!(Seconds::new(1).partial_cmp(&a), Some(Ordering::Greater));
    let h = Helpers::new(Ratio { nom: 0, denom: 1 }, Ratio { nom: 1, denom: 1 });
    assert_eq!((h.right_cross, h.left_cross, h.divisor), (0, 1, 1));
}

fn orders_exactly<const LN: u32, const LD: u32, const RN: u32, const RD: u32>() {
    let values = [0u32, 1, 2, 3, 5, 999, 1000, 1001, 4999, 5000, 65_535, 65_536, u32::MAX];
    let reduction = Helpers::new(Duration::<LN, LD>::ratio(), Duration::<RN, RD>::ratio());
    for &a in values.iter() {
        for &b in values.iter() {
            let left = Duration::<LN, LD>::new(a);
            let right = Duration::<RN, RD>::new(b);
            let fits = a as u128 * reduction.right_cross as u128 <= u32::MAX as u128
                && b as u128 * reduction.left_cross as u128 <= u32::MAX as u128;
            let want = exact_order(a, Duration::<LN, LD>::ratio(), b, Duration::<RN, RD>::ratio());
            if fits {
                assert_eq!(left.partial_cmp(&right), Some(want));
                assert_eq!(left == right, want == Ordering::Equal);
            } else {
                assert_eq!(left.partial_cmp(&right), None);
                assert!(left != right);
            }
        }
    }
}

#[test]
fn order_is_exact_wherever_the_products_fit() {
    orders_exactly::<1, 1000, 1, 1>();
    orders_exactly::<1, 1, 1, 1000>();
    orders_exactly::<1, 1000, 1, 1_000_000>();
    orders_exactly::<1, 48_000_000, 1, 1000>();
    orders_exactly::<3, 10, 9, 20>();
    orders_exactly::<2, 4, 1, 2>();
    orders_exactly::<7, 3, 5, 11>();
    orders_exactly::<{ u32::MAX }, 1, 1, { u32::MAX }>();
    orders_exactly::<{ u32::MAX }, { u32::MAX - 1 }, { u32::MAX - 1 }, { u32::MAX }>();
    orders_exactly::<0, 1, 1, 1>();
    orders_exactly::<0, 1, 0, 2>();
}
