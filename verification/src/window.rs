//! The streaming window: which chunk coordinates lie within the render
//! distance of the focus, in which order they are visited, and which lie so
//! far out that their chunks are dropped.

use vstd::prelude::*;
use crate::chunk::ChunkCoordinate;
use crate::seq_facts::{lemma_concat_contains, lemma_push_contains};

verus! {

/// Chunks stay resident this many chunks beyond the render distance, so that
/// a focus moving to and fro across a chunk edge does not drop and remake the
/// same chunks.
pub const EVICT_MARGIN: u32 = 5;

/// The chunk `(x, z)` that holds the world position `cam_pos`.
///
/// `cam_pos` is given along the first and the third axis of vertex positions.
/// The first vertex axis runs along chunk `z` and the third along chunk `x`,
/// sixteen blocks to the chunk.
pub open spec fn focus_chunk(cam_pos: (i64, i64)) -> (int, int) {
    (cam_pos.1 as int / 16, cam_pos.0 as int / 16)
}

/// Square of the distance from the focus to the chunk at `(x, z)`.
pub open spec fn distance_squared(focus: (int, int), x: int, z: int) -> int {
    (x - focus.0) * (x - focus.0) + (z - focus.1) * (z - focus.1)
}

/// `c` lies within `radius` chunks of the focus.
pub open spec fn within(focus: (int, int), radius: int, c: ChunkCoordinate) -> bool {
    distance_squared(focus, c.x as int, c.z as int) <= radius * radius
}

/// `c` lies in the disc of chunks that are rendered.
pub open spec fn in_render_disc(focus: (int, int), render_distance: u32, c: ChunkCoordinate) -> bool {
    within(focus, render_distance as int, c)
}

/// `c` lies near enough to stay resident.
pub open spec fn is_kept(focus: (int, int), render_distance: u32, c: ChunkCoordinate) -> bool {
    within(focus, render_distance + EVICT_MARGIN, c)
}

/// The least coordinate within `radius` of `center` that a chunk can have.
pub open spec fn range_start(center: int, radius: int) -> int {
    if center - radius < i32::MIN {
        i32::MIN as int
    } else {
        center - radius
    }
}

/// One past the greatest coordinate within `radius` of `center` that a chunk
/// can have.
pub open spec fn range_end(center: int, radius: int) -> int {
    if center + radius > i32::MAX {
        i32::MAX + 1
    } else {
        center + radius + 1
    }
}

/// The chunks of the render disc with the given `x` and with `z` below
/// `z_end`, by ascending `z`.
pub open spec fn disc_row(focus: (int, int), render_distance: u32, x: int, z_end: int) -> Seq<
    ChunkCoordinate,
>
    decreases z_end - range_start(focus.1, render_distance as int),
{
    if z_end <= range_start(focus.1, render_distance as int) {
        Seq::empty()
    } else {
        let before = disc_row(focus, render_distance, x, z_end - 1);
        let c = ChunkCoordinate { x: x as i32, z: (z_end - 1) as i32 };
        if in_render_disc(focus, render_distance, c) {
            before.push(c)
        } else {
            before
        }
    }
}

/// The chunks of the render disc with `x` below `x_end`, by ascending `x` and
/// then `z`.
pub open spec fn disc_rows(focus: (int, int), render_distance: u32, x_end: int) -> Seq<ChunkCoordinate>
    decreases x_end - range_start(focus.0, render_distance as int),
{
    if x_end <= range_start(focus.0, render_distance as int) {
        Seq::empty()
    } else {
        disc_rows(focus, render_distance, x_end - 1) + disc_row(
            focus,
            render_distance,
            x_end - 1,
            range_end(focus.1, render_distance as int),
        )
    }
}

/// The render disc: every chunk coordinate within `render_distance` of the
/// focus, in the order in which a streaming cycle visits them.
pub open spec fn render_disc(focus: (int, int), render_distance: u32) -> Seq<ChunkCoordinate> {
    disc_rows(focus, render_distance, range_end(focus.0, render_distance as int))
}

/// The chunk that holds a world position along one axis: the position
/// divided by sixteen, rounded down.
pub fn chunk_of(position: i64) -> (chunk: i64)
    ensures
        chunk == position as int / 16,
        -0x0800_0000_0000_0000 <= chunk < 0x0800_0000_0000_0000,
{
    if position >= 0 {
        position / 16
    } else {
        let below = -(position + 1);
        -(below / 16) - 1
    }
}

/// The chunk `(x, z)` that holds the world position `cam_pos`.
pub fn focus_of(cam_pos: (i64, i64)) -> (focus: (i64, i64))
    ensures
        (focus.0 as int, focus.1 as int) == focus_chunk(cam_pos),
        -0x0800_0000_0000_0000 <= focus.0 < 0x0800_0000_0000_0000,
        -0x0800_0000_0000_0000 <= focus.1 < 0x0800_0000_0000_0000,
{
    (chunk_of(cam_pos.1), chunk_of(cam_pos.0))
}

proof fn lemma_square_bounds(d: int, r: int)
    requires
        0 <= r,
    ensures
        -r <= d <= r ==> 0 <= d * d <= r * r,
        (d < -r || d > r) ==> d * d > r * r,
        0 <= d * d,
{
    assert(-r <= d <= r ==> 0 <= d * d <= r * r) by (nonlinear_arith)
        requires
            0 <= r,
    ;
    assert((d < -r || d > r) ==> d * d > r * r) by (nonlinear_arith)
        requires
            0 <= r,
    ;
    assert(0 <= d * d) by (nonlinear_arith);
}

/// Whether `c` lies within `radius` chunks of `focus`, by comparing squared
/// distances.
pub fn is_within(focus: (i64, i64), radius: u64, c: ChunkCoordinate) -> (inside: bool)
    ensures
        inside == within((focus.0 as int, focus.1 as int), radius as int, c),
{
    let dx: i128 = c.x as i128 - focus.0 as i128;
    let dz: i128 = c.z as i128 - focus.1 as i128;
    let ax: u128 = if dx < 0 { (-dx) as u128 } else { dx as u128 };
    let az: u128 = if dz < 0 { (-dz) as u128 } else { dz as u128 };
    let r: u128 = radius as u128;
    proof {
        lemma_square_bounds(dx as int, r as int);
        lemma_square_bounds(dz as int, r as int);
        assert(ax * ax == dx * dx) by (nonlinear_arith)
            requires
                ax == dx || ax == -dx,
        ;
        assert(az * az == dz * dz) by (nonlinear_arith)
            requires
                az == dz || az == -dz,
        ;
        assert(r * r <= 0xffff_ffff_ffff_ffff * 0xffff_ffff_ffff_ffff) by (nonlinear_arith)
            requires
                0 <= r <= 0xffff_ffff_ffff_ffff,
        ;
    }
    if ax > r || az > r {
        false
    } else {
        az * az <= r * r - ax * ax
    }
}

fn start_of_range(center: i64, radius: u32) -> (start: i64)
    requires
        -0x0800_0000_0000_0000 <= center < 0x0800_0000_0000_0000,
    ensures
        start == range_start(center as int, radius as int),
{
    if center - (radius as i64) < i32::MIN as i64 {
        i32::MIN as i64
    } else {
        center - (radius as i64)
    }
}

fn end_of_range(center: i64, radius: u32) -> (end: i64)
    requires
        -0x0800_0000_0000_0000 <= center < 0x0800_0000_0000_0000,
    ensures
        end == range_end(center as int, radius as int),
{
    if center + (radius as i64) > i32::MAX as i64 {
        i32::MAX as i64 + 1
    } else {
        center + (radius as i64) + 1
    }
}

/// Lists the render disc around the chunk that holds `cam_pos`.
pub fn render_disc_at(cam_pos: (i64, i64), render_distance: u32) -> (disc: Vec<ChunkCoordinate>)
    ensures
        disc@ == render_disc(focus_chunk(cam_pos), render_distance),
{
    let focus = focus_of(cam_pos);
    let ghost center = focus_chunk(cam_pos);
    let x_start = start_of_range(focus.0, render_distance);
    let x_end = end_of_range(focus.0, render_distance);
    let z_start = start_of_range(focus.1, render_distance);
    let z_end = end_of_range(focus.1, render_distance);
    let mut disc: Vec<ChunkCoordinate> = Vec::new();
    let mut x = x_start;
    while x < x_end
        invariant
            center == (focus.0 as int, focus.1 as int),
            x_start == range_start(center.0, render_distance as int),
            x_end == range_end(center.0, render_distance as int),
            z_start == range_start(center.1, render_distance as int),
            z_end == range_end(center.1, render_distance as int),
            x_start <= x,
            x <= x_end || x == x_start,
            disc@ == disc_rows(center, render_distance, x as int),
        decreases x_end - x,
    {
        let ghost rows = disc@;
        let mut z = z_start;
        assert(rows + disc_row(center, render_distance, x as int, z as int) =~= rows);
        while z < z_end
            invariant
                center == (focus.0 as int, focus.1 as int),
                z_start == range_start(center.1, render_distance as int),
                z_end == range_end(center.1, render_distance as int),
                i32::MIN <= x <= i32::MAX,
                z_start <= z,
                z <= z_end || z == z_start,
                disc@ == rows + disc_row(center, render_distance, x as int, z as int),
            decreases z_end - z,
        {
            let c = ChunkCoordinate { x: x as i32, z: z as i32 };
            let ghost row = disc_row(center, render_distance, x as int, z as int);
            if is_within(focus, render_distance as u64, c) {
                disc.push(c);
                assert(rows + row.push(c) =~= (rows + row).push(c));
            }
            z += 1;
        }
        proof {
            if z_end <= z_start {
                assert(disc_row(center, render_distance, x as int, z_end as int) =~= disc_row(
                    center,
                    render_distance,
                    x as int,
                    z as int,
                ));
            }
            assert(disc@ == rows + disc_row(center, render_distance, x as int, z_end as int));
            assert(disc_rows(center, render_distance, x + 1) == rows + disc_row(
                center,
                render_distance,
                x as int,
                z_end as int,
            ));
        }
        x += 1;
    }
    proof {
        if x_end <= x_start {
            assert(disc_rows(center, render_distance, x as int) =~= disc_rows(
                center,
                render_distance,
                x_end as int,
            ));
        }
    }
    disc
}

proof fn lemma_disc_row_contains(
    focus: (int, int),
    render_distance: u32,
    x: int,
    z_end: int,
    c: ChunkCoordinate,
)
    requires
        i32::MIN <= x <= i32::MAX,
        z_end <= range_end(focus.1, render_distance as int),
    ensures
        disc_row(focus, render_distance, x, z_end).contains(c) <==> {
            &&& c.x == x
            &&& range_start(focus.1, render_distance as int) <= c.z < z_end
            &&& in_render_disc(focus, render_distance, c)
        },
    decreases z_end - range_start(focus.1, render_distance as int),
{
    if z_end > range_start(focus.1, render_distance as int) {
        lemma_disc_row_contains(focus, render_distance, x, z_end - 1, c);
        lemma_push_contains(
            disc_row(focus, render_distance, x, z_end - 1),
            ChunkCoordinate { x: x as i32, z: (z_end - 1) as i32 },
            c,
        );
    }
}

proof fn lemma_disc_rows_contains(
    focus: (int, int),
    render_distance: u32,
    x_end: int,
    c: ChunkCoordinate,
)
    requires
        x_end <= range_end(focus.0, render_distance as int),
    ensures
        disc_rows(focus, render_distance, x_end).contains(c) <==> {
            &&& range_start(focus.0, render_distance as int) <= c.x < x_end
            &&& in_render_disc(focus, render_distance, c)
        },
    decreases x_end - range_start(focus.0, render_distance as int),
{
    if x_end > range_start(focus.0, render_distance as int) {
        lemma_disc_rows_contains(focus, render_distance, x_end - 1, c);
        lemma_disc_row_contains(
            focus,
            render_distance,
            x_end - 1,
            range_end(focus.1, render_distance as int),
            c,
        );
        lemma_concat_contains(
            disc_rows(focus, render_distance, x_end - 1),
            disc_row(focus, render_distance, x_end - 1, range_end(focus.1, render_distance as int)),
            c,
        );
        lemma_square_bounds(c.z - focus.1, render_distance as int);
        lemma_square_bounds(c.x - focus.0, render_distance as int);
    }
}

/// The render disc holds exactly the chunk coordinates whose squared
/// distance from the focus is at most the square of the render distance.
pub proof fn lemma_render_disc_contains(focus: (int, int), render_distance: u32, c: ChunkCoordinate)
    ensures
        render_disc(focus, render_distance).contains(c) <==> in_render_disc(focus, render_distance, c),
{
    lemma_disc_rows_contains(focus, render_distance, range_end(focus.0, render_distance as int), c);
    lemma_square_bounds(c.z - focus.1, render_distance as int);
    lemma_square_bounds(c.x - focus.0, render_distance as int);
}

proof fn lemma_disc_row_no_duplicates(focus: (int, int), render_distance: u32, x: int, z_end: int)
    requires
        i32::MIN <= x <= i32::MAX,
        z_end <= range_end(focus.1, render_distance as int),
    ensures
        disc_row(focus, render_distance, x, z_end).no_duplicates(),
    decreases z_end - range_start(focus.1, render_distance as int),
{
    if z_end > range_start(focus.1, render_distance as int) {
        let before = disc_row(focus, render_distance, x, z_end - 1);
        let c = ChunkCoordinate { x: x as i32, z: (z_end - 1) as i32 };
        lemma_disc_row_no_duplicates(focus, render_distance, x, z_end - 1);
        lemma_disc_row_contains(focus, render_distance, x, z_end - 1, c);
        assert forall|i: int| 0 <= i < before.len() implies before[i] != c by {
            assert(before.contains(before[i]));
        }
    }
}

proof fn lemma_disc_rows_no_duplicates(focus: (int, int), render_distance: u32, x_end: int)
    requires
        x_end <= range_end(focus.0, render_distance as int),
    ensures
        disc_rows(focus, render_distance, x_end).no_duplicates(),
    decreases x_end - range_start(focus.0, render_distance as int),
{
    if x_end > range_start(focus.0, render_distance as int) {
        let before = disc_rows(focus, render_distance, x_end - 1);
        let row = disc_row(focus, render_distance, x_end - 1, range_end(focus.1, render_distance as int));
        lemma_disc_rows_no_duplicates(focus, render_distance, x_end - 1);
        lemma_disc_row_no_duplicates(
            focus,
            render_distance,
            x_end - 1,
            range_end(focus.1, render_distance as int),
        );
        assert forall|i: int, j: int| 0 <= i < before.len() && 0 <= j < row.len() implies before[i]
            != row[j] by {
            assert(before.contains(before[i]));
            assert(row.contains(row[j]));
            lemma_disc_rows_contains(focus, render_distance, x_end - 1, before[i]);
            lemma_disc_row_contains(
                focus,
                render_distance,
                x_end - 1,
                range_end(focus.1, render_distance as int),
                row[j],
            );
        }
        assert forall|i: int, j: int|
            0 <= i < (before + row).len() && 0 <= j < (before + row).len() && i != j implies (before
            + row)[i] != (before + row)[j] by {
            if i < before.len() && j < before.len() {
                assert(before[i] != before[j]);
            } else if i >= before.len() && j >= before.len() {
                assert(row[i - before.len()] != row[j - before.len()]);
            } else if i < before.len() {
                assert(before[i] != row[j - before.len()]);
            } else {
                assert(before[j] != row[i - before.len()]);
            }
        }
    }
}

/// The render disc lists no chunk coordinate twice.
pub proof fn lemma_render_disc_no_duplicates(focus: (int, int), render_distance: u32)
    ensures
        render_disc(focus, render_distance).no_duplicates(),
{
    lemma_disc_rows_no_duplicates(focus, render_distance, range_end(focus.0, render_distance as int));
}

/// With a render distance of at least one, the render disc holds the focus
/// chunk and the four chunks next to it along the axes.
pub proof fn lemma_render_disc_holds_focus_and_neighbours(
    focus: ChunkCoordinate,
    render_distance: u32,
    c: ChunkCoordinate,
)
    requires
        render_distance >= 1,
        (c.x == focus.x && focus.z - 1 <= c.z <= focus.z + 1) || (c.z == focus.z && focus.x - 1
            <= c.x <= focus.x + 1),
    ensures
        render_disc((focus.x as int, focus.z as int), render_distance).contains(c),
{
    let center = (focus.x as int, focus.z as int);
    lemma_render_disc_contains(center, render_distance, c);
    assert(distance_squared(center, c.x as int, c.z as int) <= 1) by (nonlinear_arith)
        requires
            (c.x == center.0 && center.1 - 1 <= c.z <= center.1 + 1) || (c.z == center.1 && center.0
                - 1 <= c.x <= center.0 + 1),
    ;
    assert(render_distance * render_distance >= 1) by (nonlinear_arith)
        requires
            render_distance >= 1,
    ;
}

/// Everything in the render disc is near enough to stay resident, and so is
/// every chunk next to a chunk of the render disc.
pub proof fn lemma_disc_and_its_neighbours_are_kept(
    focus: (int, int),
    render_distance: u32,
    c: ChunkCoordinate,
    n: ChunkCoordinate,
)
    requires
        in_render_disc(focus, render_distance, c),
        (n.x == c.x && c.z - 1 <= n.z <= c.z + 1) || (n.z == c.z && c.x - 1 <= n.x <= c.x + 1),
    ensures
        is_kept(focus, render_distance, c),
        is_kept(focus, render_distance, n),
{
    let r = render_distance as int;
    let dx = c.x - focus.0;
    let dz = c.z - focus.1;
    lemma_square_bounds(dx, r);
    lemma_square_bounds(dz, r);
    assert(dx * dx + dz * dz <= (r + 5) * (r + 5)) by (nonlinear_arith)
        requires
            dx * dx + dz * dz <= r * r,
            0 <= r,
    ;
    let ex = n.x - focus.0;
    let ez = n.z - focus.1;
    assert(ex * ex + ez * ez <= (r + 5) * (r + 5)) by (nonlinear_arith)
        requires
            dx * dx + dz * dz <= r * r,
            -r <= dx <= r,
            -r <= dz <= r,
            0 <= r,
            (ex == dx && dz - 1 <= ez <= dz + 1) || (ez == dz && dx - 1 <= ex <= dx + 1),
    ;
}

/// Lagrange's identity in two dimensions.
proof fn lemma_lagrange(a: int, b: int, c: int, d: int)
    ensures
        (a * c + b * d) * (a * c + b * d) + (a * d - b * c) * (a * d - b * c) == (a * a + b * b) * (c
            * c + d * d),
{
    let p = a * c;
    let q = b * d;
    let u = a * d;
    let v = b * c;
    assert((p + q) * (p + q) == p * p + 2 * (p * q) + q * q) by (nonlinear_arith);
    assert((u - v) * (u - v) == u * u - 2 * (u * v) + v * v) by (nonlinear_arith);
    assert(p * q == u * v) by (nonlinear_arith)
        requires
            p == a * c,
            q == b * d,
            u == a * d,
            v == b * c,
    ;
    assert(p * p == (a * a) * (c * c)) by (nonlinear_arith)
        requires
            p == a * c,
    ;
    assert(q * q == (b * b) * (d * d)) by (nonlinear_arith)
        requires
            q == b * d,
    ;
    assert(u * u == (a * a) * (d * d)) by (nonlinear_arith)
        requires
            u == a * d,
    ;
    assert(v * v == (b * b) * (c * c)) by (nonlinear_arith)
        requires
            v == b * c,
    ;
    let aa = a * a;
    let bb = b * b;
    let cc = c * c;
    let dd = d * d;
    assert((aa + bb) * (cc + dd) == aa * cc + aa * dd + bb * cc + bb * dd) by (nonlinear_arith);
}

/// The margin gives hysteresis: a chunk of the render disc around one focus
/// stays resident through every cycle around a focus that lies no more than
/// the eviction margin away. A focus that moves to and fro by up to five
/// chunks drops nothing that it will want back.
pub proof fn lemma_margin_gives_hysteresis(
    focus: (int, int),
    moved: (int, int),
    render_distance: u32,
    c: ChunkCoordinate,
)
    requires
        in_render_disc(focus, render_distance, c),
        (moved.0 - focus.0) * (moved.0 - focus.0) + (moved.1 - focus.1) * (moved.1 - focus.1)
            <= EVICT_MARGIN * EVICT_MARGIN,
    ensures
        is_kept(moved, render_distance, c),
{
    let r = render_distance as int;
    let dx = c.x - focus.0;
    let dz = c.z - focus.1;
    let ex = focus.0 - moved.0;
    let ez = focus.1 - moved.1;
    let dot = dx * ex + dz * ez;
    let cross = dx * ez - dz * ex;
    let d2 = dx * dx + dz * dz;
    let e2 = ex * ex + ez * ez;
    assert(0 <= d2 && 0 <= e2 && 0 <= cross * cross) by (nonlinear_arith)
        requires
            d2 == dx * dx + dz * dz,
            e2 == ex * ex + ez * ez,
    ;
    assert(e2 <= 25) by (nonlinear_arith)
        requires
            e2 == ex * ex + ez * ez,
            ex == focus.0 - moved.0,
            ez == focus.1 - moved.1,
            (moved.0 - focus.0) * (moved.0 - focus.0) + (moved.1 - focus.1) * (moved.1 - focus.1)
                <= 25,
    ;
    lemma_lagrange(dx, dz, ex, ez);
    assert(d2 * e2 <= 25 * (r * r)) by (nonlinear_arith)
        requires
            0 <= d2 <= r * r,
            0 <= e2 <= 25,
    ;
    assert(dot <= 5 * r) by (nonlinear_arith)
        requires
            dot * dot <= 25 * (r * r),
            0 <= r,
    ;
    assert((dx + ex) * (dx + ex) + (dz + ez) * (dz + ez) == d2 + e2 + 2 * dot) by (nonlinear_arith)
        requires
            dot == dx * ex + dz * ez,
            d2 == dx * dx + dz * dz,
            e2 == ex * ex + ez * ez,
    ;
    assert((r + 5) * (r + 5) == r * r + 10 * r + 25) by (nonlinear_arith);
    assert(c.x - moved.0 == dx + ex);
    assert(c.z - moved.1 == dz + ez);
}

} // verus!
