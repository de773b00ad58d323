use guacamole_runner::hex::HEX_UNIT;
use guacamole_runner::{cube_round, cube_to_offset, offset_to_cube};

#[test]
fn cube_round_of_origin_is_origin() {
    assert_eq!(cube_round(0, 0, 0), (0, 0, 0));
}

#[test]
fn cube_round_corrects_component_with_largest_error() {
    // (0.397, 0.298, -0.694) rounds to (0, 0, -1); q is furthest off.
    assert_eq!(cube_round(400, 300, -700), (1, 0, -1));
}

#[test]
fn cube_round_tie_prefers_r_over_s() {
    // q and r are both exactly half way; q does not beat r, so r is fixed.
    assert_eq!(cube_round(504, -504, 0), (1, -1, 0));
}

#[test]
fn cube_round_tie_all_equal_fixes_s() {
    // 1/3 each way: every error is 336, so s is recomputed.
    assert_eq!(cube_round(336, 336, -672), (0, 0, 0));
}

#[test]
fn cube_round_rounds_halves_away_from_zero() {
    let (q, r, s) = cube_round(-504, 1008, -504);
    assert_eq!(q + r + s, 0);
    assert_eq!(r, 1);
}

#[test]
fn cube_round_sums_to_zero_on_many_inputs() {
    let mut q: i64 = -3000;
    while q <= 3000 {
        let mut r: i64 = -3000;
        while r <= 3000 {
            let (a, b, c) = cube_round(q, r, -q - r);
            assert_eq!(a + b + c, 0);
            r += 97;
        }
        q += 89;
    }
}

#[test]
fn cube_round_whole_coordinates_are_kept() {
    assert_eq!(cube_round(3 * HEX_UNIT, -5 * HEX_UNIT, 2 * HEX_UNIT), (3, -5, 2));
}

#[test]
fn cube_to_offset_odd_rows() {
    assert_eq!(cube_to_offset(3, 5), (5, 5));
    assert_eq!(cube_to_offset(3, 4), (5, 4));
    assert_eq!(cube_to_offset(3, -3), (1, -3));
    assert_eq!(cube_to_offset(0, 0), (0, 0));
}

#[test]
fn offset_to_cube_odd_rows() {
    assert_eq!(offset_to_cube(5, 5), (3, -8, 5));
    assert_eq!(offset_to_cube(1, -3), (3, 0, -3));
    assert_eq!(offset_to_cube(0, 0), (0, 0, 0));
}

#[test]
fn offset_and_cube_round_trip() {
    for col in -6..6 {
        for row in -6..6 {
            let (x, _, z) = offset_to_cube(col, row);
            assert_eq!(cube_to_offset(x, z), (col, row));
        }
    }
}
