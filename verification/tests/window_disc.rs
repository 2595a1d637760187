use mine_clone::chunk::ChunkCoordinate;
use mine_clone::window::{chunk_of, focus_of, is_within, render_disc_at, EVICT_MARGIN};

fn c(x: i32, z: i32) -> ChunkCoordinate {
    ChunkCoordinate { x, z }
}

#[test]
fn positions_are_divided_by_sixteen_rounding_down() {
    assert_eq!(chunk_of(0), 0);
    assert_eq!(chunk_of(15), 0);
    assert_eq!(chunk_of(16), 1);
    assert_eq!(chunk_of(2000), 125);
    assert_eq!(chunk_of(-1), -1);
    assert_eq!(chunk_of(-16), -1);
    assert_eq!(chunk_of(-17), -2);
    assert_eq!(chunk_of(i64::MAX), 0x07ff_ffff_ffff_ffff);
    assert_eq!(chunk_of(i64::MIN), -0x0800_0000_0000_0000);
}

#[test]
fn focus_takes_x_from_the_second_and_z_from_the_first_axis() {
    assert_eq!(focus_of((0, 0)), (0, 0));
    assert_eq!(focus_of((0, 2000)), (125, 0));
    assert_eq!(focus_of((-1, 31)), (1, -1));
}

#[test]
fn eviction_margin_is_five_chunks() {
    assert_eq!(EVICT_MARGIN, 5);
}

#[test]
fn distance_is_compared_by_squares() {
    assert!(is_within((0, 0), 1, c(0, 0)));
    assert!(is_within((0, 0), 1, c(1, 0)));
    assert!(is_within((0, 0), 1, c(0, -1)));
    assert!(!is_within((0, 0), 1, c(1, 1)));
    assert!(is_within((0, 0), 5, c(3, 4)));
    assert!(!is_within((0, 0), 5, c(4, 4)));
    assert!(is_within((10, -10), 2, c(10, -8)));
    assert!(!is_within((10, -10), 2, c(9, -8)));
    assert!(is_within((0, 0), 0, c(0, 0)));
    assert!(!is_within((0, 0), 0, c(0, 1)));
}

#[test]
fn distance_far_beyond_the_chunk_grid() {
    assert!(!is_within((0x0700_0000_0000_0000, 0), 0x2_0000_0000, c(i32::MAX, 0)));
    assert!(is_within((0x8000_0000, 0), 1, c(i32::MAX, 0)));
    assert!(is_within((0, 0), 0x2_0000_0000, c(i32::MIN, i32::MAX)));
}

#[test]
fn disc_of_radius_one_is_a_plus() {
    assert_eq!(render_disc_at((0, 0), 1), vec![c(-1, 0), c(0, -1), c(0, 0), c(0, 1), c(1, 0)]);
}

#[test]
fn disc_of_radius_zero_is_the_focus_chunk() {
    assert_eq!(render_disc_at((0, 0), 0), vec![c(0, 0)]);
    assert_eq!(render_disc_at((-1, 40), 0), vec![c(2, -1)]);
}

#[test]
fn disc_of_radius_two_is_round() {
    let disc = render_disc_at((0, 0), 2);
    assert_eq!(
        disc,
        vec![
            c(-2, 0),
            c(-1, -1),
            c(-1, 0),
            c(-1, 1),
            c(0, -2),
            c(0, -1),
            c(0, 0),
            c(0, 1),
            c(0, 2),
            c(1, -1),
            c(1, 0),
            c(1, 1),
            c(2, 0),
        ]
    );
}

#[test]
fn disc_follows_the_focus() {
    assert_eq!(
        render_disc_at((80, 95), 1),
        vec![c(4, 5), c(5, 4), c(5, 5), c(5, 6), c(6, 5)]
    );
    assert_eq!(
        render_disc_at((-16, -1), 1),
        vec![c(-2, -1), c(-1, -2), c(-1, -1), c(-1, 0), c(0, -1)]
    );
}

#[test]
fn disc_holds_each_chunk_within_the_radius_once() {
    let disc = render_disc_at((0, 0), 6);
    let mut expected = vec![];
    for x in -6..=6 {
        for z in -6..=6 {
            if x * x + z * z <= 36 {
                expected.push(c(x, z));
            }
        }
    }
    assert_eq!(disc, expected);
    assert_eq!(disc.len(), 113);
}

#[test]
fn disc_ends_at_the_edge_of_the_chunk_grid() {
    let edge = (i32::MAX as i64) * 16;
    assert_eq!(
        render_disc_at((edge, edge), 1),
        vec![c(i32::MAX - 1, i32::MAX), c(i32::MAX, i32::MAX - 1), c(i32::MAX, i32::MAX)]
    );
    let low = (i32::MIN as i64) * 16;
    assert_eq!(
        render_disc_at((low, low), 1),
        vec![c(i32::MIN, i32::MIN), c(i32::MIN, i32::MIN + 1), c(i32::MIN + 1, i32::MIN)]
    );
    assert_eq!(render_disc_at((i64::MAX, i64::MAX), 3), vec![]);
    assert_eq!(render_disc_at((i64::MIN, 0), 3), vec![]);
}
