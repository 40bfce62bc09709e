use mars_lander_ga::geometry::{Pos, do_intersect, find_intersection_point, line_det_nonzero};
use mars_lander_ga::nums::{isqrt, round_div_1000, clamp_i64};

fn p(x: i64, y: i64) -> Pos {
    Pos::from(x, y)
}

#[test]
fn crossing_segments_intersect() {
    let a0 = p(0, 0);
    let a1 = p(2000, 2000);
    let b0 = p(0, 2000);
    let b1 = p(2000, 0);
    assert!(do_intersect(&a0, &a1, &b0, &b1));
}

#[test]
fn disjoint_segments_do_not_intersect() {
    let a0 = p(0, 0);
    let a1 = p(1000, 0);
    let b0 = p(0, 500);
    let b1 = p(1000, 500);
    assert!(!do_intersect(&a0, &a1, &b0, &b1));
}

#[test]
fn touching_endpoint_counts_as_intersection() {
    let a0 = p(0, 0);
    let a1 = p(1000, 1000);
    let b0 = p(1000, 1000);
    let b1 = p(2000, 0);
    assert!(do_intersect(&a0, &a1, &b0, &b1));
}

#[test]
fn collinear_overlap_counts_as_intersection() {
    let a0 = p(0, 0);
    let a1 = p(2000, 0);
    let b0 = p(1000, 0);
    let b1 = p(3000, 0);
    assert!(do_intersect(&a0, &a1, &b0, &b1));
}

#[test]
fn intersection_is_symmetric_on_samples() {
    let cases = [
        (p(0, 0), p(2000, 2000), p(0, 2000), p(2000, 0)),
        (p(0, 0), p(1000, 0), p(0, 500), p(1000, 500)),
        (p(0, 0), p(2000, 0), p(1000, 0), p(3000, 0)),
        (p(-500, -500), p(500, 500), p(-500, 500), p(500, -500)),
    ];
    for (a0, a1, b0, b1) in cases {
        assert_eq!(
            do_intersect(&a0, &a1, &b0, &b1),
            do_intersect(&b0, &b1, &a0, &a1)
        );
    }
}

#[test]
fn intersection_point_of_diagonals() {
    let a = p(0, 0);
    let b = p(2000, 2000);
    let c = p(0, 2000);
    let d = p(2000, 0);
    assert!(line_det_nonzero(&a, &b, &c, &d));
    let r = find_intersection_point(&a, &b, &c, &d);
    assert_eq!(r.x, 1000);
    assert_eq!(r.y, 1000);
}

#[test]
fn intersection_point_with_a_vertical_segment() {
    let a = p(0, 0);
    let b = p(4000, 2000);
    let c = p(2000, 0);
    let d = p(2000, 2000);
    assert!(do_intersect(&a, &b, &c, &d));
    let r = find_intersection_point(&a, &b, &c, &d);
    assert_eq!(r.x, 2000);
    assert_eq!(r.y, 1000);
}

#[test]
fn intersection_point_truncates_toward_zero() {
    // the true crossing is at (1.5, 1.5): fixed point keeps the floor
    let a = p(0, 0);
    let b = p(3, 3);
    let c = p(0, 3);
    let d = p(3, 0);
    let r = find_intersection_point(&a, &b, &c, &d);
    assert_eq!(r.x, 1);
    assert_eq!(r.y, 1);
}

#[test]
fn parallel_lines_have_zero_determinant() {
    let a = p(0, 0);
    let b = p(1000, 0);
    let c = p(0, 500);
    let d = p(1000, 500);
    assert!(!line_det_nonzero(&a, &b, &c, &d));
}

#[test]
fn isqrt_exact_values() {
    assert_eq!(isqrt(0), 0);
    assert_eq!(isqrt(1), 1);
    assert_eq!(isqrt(3), 1);
    assert_eq!(isqrt(4), 2);
    assert_eq!(isqrt(11_840_000_000_000), 3_440_930);
    assert_eq!(isqrt(u64::MAX), 4_294_967_295);
}

#[test]
fn round_div_1000_rounds_half_away_from_zero() {
    assert_eq!(round_div_1000(250), 0);
    assert_eq!(round_div_1000(750), 1);
    assert_eq!(round_div_1000(500), 1);
    assert_eq!(round_div_1000(1500), 2);
    assert_eq!(round_div_1000(-1500), -2);
    assert_eq!(round_div_1000(-250), 0);
}

#[test]
fn clamp_works_on_both_edges() {
    assert_eq!(clamp_i64(-5, 0, 4), 0);
    assert_eq!(clamp_i64(7, 0, 4), 4);
    assert_eq!(clamp_i64(3, 0, 4), 3);
}
