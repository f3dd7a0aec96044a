use vstd::prelude::*;

verus! {

/// The number of zones along one side: the side length divided by the zone
/// size, rounded up.
pub open spec fn zone_count(size: u32, zone_size: u32) -> int {
    (size + zone_size - 1) / (zone_size as int)
}

/// The element at column `a`, row `b` of a grid stored column by column
/// with `rows` rows.
pub open spec fn grid_at<T>(s: Seq<T>, rows: int, a: int, b: int) -> T {
    s[a * rows + b]
}

/// Zone counts stay below `size` and within `i32`.
proof fn lemma_zone_count_bound(size: u32, zone_size: u32)
    requires
        zone_size >= 1,
        size <= i32::MAX,
    ensures
        0 <= zone_count(size, zone_size) <= size,
{
    assert(0 <= (size + zone_size - 1) / (zone_size as int) <= size) by (nonlinear_arith)
        requires
            zone_size >= 1,
            size >= 0,
    ;
}

/// Row-major position `a * cols + b` lies before the end of row `a`.
proof fn lemma_row_major_index(a: int, b: int, cols: int, rows: int)
    requires
        0 <= a < rows,
        0 <= b < cols,
    ensures
        0 <= a * cols + b < rows * cols,
        a * cols + b < (a + 1) * cols,
        a * cols <= a * cols + b,
{
    assert(0 <= a * cols + b < rows * cols) by (nonlinear_arith)
        requires
            0 <= a < rows,
            0 <= b < cols,
    ;
    assert((a + 1) * cols == a * cols + cols) by (nonlinear_arith);
}

/// The positions of all level-of-detail zones that cover a world of
/// `size` chunks, zone column by zone column: the zone at column `i` and
/// row `j` comes at index `i * rows + j`.
pub fn lod_zone_positions(size: (u32, u32), zone_size: u32) -> (positions: Vec<(i32, i32)>)
    requires
        zone_size >= 1,
        size.0 <= i32::MAX,
        size.1 <= i32::MAX,
        zone_count(size.0, zone_size) * zone_count(size.1, zone_size) <= usize::MAX,
    ensures
        positions@.len() == zone_count(size.0, zone_size) * zone_count(size.1, zone_size),
        forall|i: int, j: int|
            0 <= i < zone_count(size.0, zone_size) && 0 <= j < zone_count(size.1, zone_size) ==> #[trigger] grid_at(
                positions@,
                zone_count(size.1, zone_size),
                i,
                j,
            ) == (i as i32, j as i32),
{
    proof {
        lemma_zone_count_bound(size.0, zone_size);
        lemma_zone_count_bound(size.1, zone_size);
    }
    let cols: u32 = ((size.0 as u64 + zone_size as u64 - 1) / zone_size as u64) as u32;
    let rows: u32 = ((size.1 as u64 + zone_size as u64 - 1) / zone_size as u64) as u32;
    let ghost c = cols as int;
    let ghost r = rows as int;
    assert(c == zone_count(size.0, zone_size));
    assert(r == zone_count(size.1, zone_size));
    let mut positions: Vec<(i32, i32)> = Vec::new();
    let mut i: u32 = 0;
    while i < cols
        invariant
            i <= cols,
            c == cols,
            r == rows,
            cols <= i32::MAX,
            rows <= i32::MAX,
            c * r <= usize::MAX,
            positions@.len() == i * r,
            forall|a: int, b: int| 0 <= a < i && 0 <= b < r ==> #[trigger] grid_at(positions@, r, a, b) == (a as i32, b as i32),
        decreases cols - i,
    {
        let mut j: u32 = 0;
        assert(i * r + r <= c * r) by (nonlinear_arith)
            requires
                i < c,
                r >= 0,
        ;
        while j < rows
            invariant
                i < cols,
                j <= rows,
                c == cols,
                r == rows,
                cols <= i32::MAX,
                rows <= i32::MAX,
                c * r <= usize::MAX,
                i * r + r <= c * r,
                positions@.len() == i * r + j,
                forall|a: int, b: int| 0 <= a < i && 0 <= b < r ==> #[trigger] grid_at(positions@, r, a, b) == (a as i32, b as i32),
                forall|b: int| 0 <= b < j ==> #[trigger] grid_at(positions@, r, i as int, b) == (i as i32, b as i32),
            decreases rows - j,
        {
            let ghost before = positions@;
            positions.push((i as i32, j as i32));
            assert forall|a: int, b: int| 0 <= a < i && 0 <= b < r implies #[trigger] grid_at(positions@, r, a, b) == (a as i32, b as i32) by {
                lemma_row_major_index(a, b, r, i as int);
                assert(grid_at(positions@, r, a, b) == grid_at(before, r, a, b));
            }
            assert forall|b: int| 0 <= b < j + 1 implies #[trigger] grid_at(positions@, r, i as int, b) == (
            i as i32,
            b as i32,
            ) by {
                if b < j {
                    assert(grid_at(positions@, r, i as int, b) == grid_at(before, r, i as int, b));
                }
            }
            j = j + 1;
        }
        assert((i + 1) * r == i * r + r) by (nonlinear_arith);
        assert forall|a: int, b: int| 0 <= a < i + 1 && 0 <= b < r implies #[trigger] grid_at(positions@, r, a, b) == (a as i32, b as i32) by {
            if a == i {
            }
        }
        i = i + 1;
    }
    positions
}

} // verus!
