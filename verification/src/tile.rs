//! The image cut into tiles, each the work of one task.
//!
//! Tiles are laid out in columns and rows from the image's corner at (0, 0).
//! Every tile has the full tile size but those of the last column and the
//! last row, which end where the image ends.
use vstd::prelude::*;
use crate::math::{Extent2u, Vec2u};

verus! {

/// Number of pieces of length `size` that cover the length `extent`, the
/// last one possibly shorter.
pub open spec fn pieces(extent: usize, size: usize) -> int
    recommends
        size > 0,
{
    if extent % size == 0 {
        extent as int / size as int
    } else {
        extent as int / size as int + 1
    }
}

/// Where piece `k` starts.
pub open spec fn piece_start(size: usize, k: int) -> int {
    k * size
}

/// Where piece `k` ends: one piece further, or at `extent` if that is nearer.
pub open spec fn piece_end(extent: usize, size: usize, k: int) -> int {
    if (k + 1) * size < extent {
        (k + 1) * size
    } else {
        extent as int
    }
}

/// A rectangle of pixels: those from `min` up to, not including, `max`.
#[derive(Clone, Copy, Debug, PartialEq, Eq, Structural)]
pub struct Tile {
    pub min: Vec2u,
    pub max: Vec2u,
}

impl Tile {
    /// True when the pixel lies in the tile.
    pub open spec fn spec_contains(self, p: Vec2u) -> bool {
        self.min.x <= p.x < self.max.x && self.min.y <= p.y < self.max.y
    }

    /// Tests whether the pixel lies in the tile.
    #[verifier::when_used_as_spec(spec_contains)]
    pub fn contains(self, p: Vec2u) -> (r: bool)
        ensures
            r == self.contains(p),
    {
        self.min.x <= p.x && p.x < self.max.x && self.min.y <= p.y && p.y < self.max.y
    }

    /// True when `col` and `row` name a tile of the image.
    pub open spec fn exists_at(resolution: Extent2u, tile_size: Extent2u, col: int, row: int) -> bool {
        &&& tile_size.w > 0
        &&& tile_size.h > 0
        &&& 0 <= col < pieces(resolution.w, tile_size.w)
        &&& 0 <= row < pieces(resolution.h, tile_size.h)
    }

    /// The tile in column `col` and row `row`.
    pub open spec fn spec_at(resolution: Extent2u, tile_size: Extent2u, col: int, row: int) -> Tile {
        Tile {
            min: Vec2u {
                x: piece_start(tile_size.w, col) as usize,
                y: piece_start(tile_size.h, row) as usize,
            },
            max: Vec2u {
                x: piece_end(resolution.w, tile_size.w, col) as usize,
                y: piece_end(resolution.h, tile_size.h, row) as usize,
            },
        }
    }

    /// Number of tile columns; 0 where the tile size has no width.
    pub fn columns(resolution: Extent2u, tile_size: Extent2u) -> (n: usize)
        ensures
            tile_size.w > 0 ==> n == pieces(resolution.w, tile_size.w),
            tile_size.w == 0 ==> n == 0,
    {
        count_pieces(resolution.w, tile_size.w)
    }

    /// Number of tile rows; 0 where the tile size has no height.
    pub fn rows(resolution: Extent2u, tile_size: Extent2u) -> (n: usize)
        ensures
            tile_size.h > 0 ==> n == pieces(resolution.h, tile_size.h),
            tile_size.h == 0 ==> n == 0,
    {
        count_pieces(resolution.h, tile_size.h)
    }

    /// The tile in column `col` and row `row`, or `None` where the image has
    /// no such tile. A tile is never empty and never leaves the image.
    pub fn at(resolution: Extent2u, tile_size: Extent2u, col: usize, row: usize) -> (tile: Option<
        Tile,
    >)
        ensures
            tile is Some <==> Self::exists_at(resolution, tile_size, col as int, row as int),
            tile matches Some(t) ==> {
                &&& t == Self::spec_at(resolution, tile_size, col as int, row as int)
                &&& t.min.x == col * tile_size.w
                &&& t.min.y == row * tile_size.h
                &&& t.min.x < t.max.x <= resolution.w
                &&& t.min.y < t.max.y <= resolution.h
                &&& t.max.x - t.min.x <= tile_size.w
                &&& t.max.y - t.min.y <= tile_size.h
            },
    {
        if tile_size.w == 0 || tile_size.h == 0 {
            return None;
        }
        if col >= count_pieces(resolution.w, tile_size.w) || row >= count_pieces(
            resolution.h,
            tile_size.h,
        ) {
            return None;
        }
        let (x0, x1) = piece(resolution.w, tile_size.w, col);
        let (y0, y1) = piece(resolution.h, tile_size.h, row);
        Some(Tile { min: Vec2u { x: x0, y: y0 }, max: Vec2u { x: x1, y: y1 } })
    }
}

/// Counts the pieces of length `size` that cover `extent`; 0 where `size` is
/// 0.
fn count_pieces(extent: usize, size: usize) -> (n: usize)
    ensures
        size > 0 ==> n == pieces(extent, size),
        size == 0 ==> n == 0,
{
    if size == 0 {
        0
    } else if extent % size == 0 {
        extent / size
    } else {
        proof {
            let q = extent as int / size as int;
            lemma_piece_bounds(extent, size, q);
            assert(q <= q * size) by (nonlinear_arith)
                requires
                    0 <= q,
                    size >= 1,
            ;
        }
        extent / size + 1
    }
}

/// Start and end of piece `k`.
fn piece(extent: usize, size: usize, k: usize) -> (r: (usize, usize))
    requires
        size > 0,
        k < pieces(extent, size),
    ensures
        r.0 == piece_start(size, k as int),
        r.1 == piece_end(extent, size, k as int),
        r.0 < r.1 <= extent,
        r.1 - r.0 <= size,
{
    proof {
        lemma_piece_bounds(extent, size, k as int);
    }
    let start: usize = k * size;
    let end: usize = if extent - start > size {
        start + size
    } else {
        extent
    };
    assert((k + 1) * size == k * size + size) by (nonlinear_arith);
    (start, end)
}

/// A piece that exists starts inside the extent.
pub proof fn lemma_piece_bounds(extent: usize, size: usize, k: int)
    requires
        size > 0,
        0 <= k < pieces(extent, size),
    ensures
        0 <= piece_start(size, k) < extent,
        piece_start(size, k) < piece_end(extent, size, k) <= extent,
        piece_end(extent, size, k) - piece_start(size, k) <= size,
{
    let q = extent as int / size as int;
    let r = extent as int % size as int;
    vstd::arithmetic::div_mod::lemma_fundamental_div_mod(extent as int, size as int);
    vstd::arithmetic::div_mod::lemma_mod_bound(extent as int, size as int);
    assert(extent == size * q + r);
    assert(k * size < extent) by (nonlinear_arith)
        requires
            extent == size * q + r,
            0 <= r < size,
            0 <= k,
            r == 0 ==> k < q,
            r != 0 ==> k < q + 1,
    ;
    assert(0 <= k * size) by (nonlinear_arith)
        requires
            0 <= k,
            size > 0,
    ;
    assert((k + 1) * size == k * size + size) by (nonlinear_arith);
}

/// Along one axis every position of the extent lies in one piece and in no
/// other: the piece whose number is the position divided by the piece
/// length.
pub proof fn lemma_position_in_one_piece(extent: usize, size: usize, x: int, k: int)
    requires
        size > 0,
        0 <= x < extent,
    ensures
        0 <= x / (size as int) < pieces(extent, size),
        piece_start(size, x / (size as int)) <= x < piece_end(extent, size, x / (size as int)),
        0 <= k && piece_start(size, k) <= x < piece_end(extent, size, k) ==> k == x / (size as int),
{
    let d = size as int;
    let j = x / d;
    vstd::arithmetic::div_mod::lemma_fundamental_div_mod(x, d);
    vstd::arithmetic::div_mod::lemma_mod_bound(x, d);
    vstd::arithmetic::div_mod::lemma_div_pos_is_pos(x, d);
    vstd::arithmetic::div_mod::lemma_fundamental_div_mod(extent as int, d);
    vstd::arithmetic::div_mod::lemma_mod_bound(extent as int, d);
    let q = extent as int / d;
    let r = extent as int % d;
    assert(j * d == d * j) by (nonlinear_arith);
    assert((j + 1) * d == j * d + d) by (nonlinear_arith);
    assert(j < pieces(extent, size)) by (nonlinear_arith)
        requires
            extent == d * q + r,
            0 <= r < d,
            x == d * j + x % d,
            0 <= x % d < d,
            x < extent,
            pieces(extent, size) == if r == 0 {
                q
            } else {
                q + 1
            },
    ;
    if 0 <= k && piece_start(size, k) <= x < piece_end(extent, size, k) {
        assert(x < (k + 1) * d);
        assert((k + 1) * d == k * d + d) by (nonlinear_arith);
        vstd::arithmetic::div_mod::lemma_fundamental_div_mod_converse(x, d, k, x - k * d);
    }
}

/// Every pixel of the image lies in one tile and in no other: the tile whose
/// column and row are the pixel's coordinates divided by the tile size.
pub proof fn lemma_pixel_in_one_tile(
    resolution: Extent2u,
    tile_size: Extent2u,
    p: Vec2u,
    col: int,
    row: int,
)
    requires
        tile_size.w > 0,
        tile_size.h > 0,
        p.x < resolution.w,
        p.y < resolution.h,
    ensures
        Tile::exists_at(
            resolution,
            tile_size,
            p.x as int / tile_size.w as int,
            p.y as int / tile_size.h as int,
        ),
        Tile::spec_at(
            resolution,
            tile_size,
            p.x as int / tile_size.w as int,
            p.y as int / tile_size.h as int,
        ).contains(p),
        Tile::exists_at(resolution, tile_size, col, row) && Tile::spec_at(
            resolution,
            tile_size,
            col,
            row,
        ).contains(p) ==> col == p.x as int / tile_size.w as int && row == p.y as int
            / tile_size.h as int,
{
    lemma_position_in_one_piece(resolution.w, tile_size.w, p.x as int, col);
    lemma_position_in_one_piece(resolution.h, tile_size.h, p.y as int, row);
    let c = p.x as int / tile_size.w as int;
    let r = p.y as int / tile_size.h as int;
    lemma_piece_bounds(resolution.w, tile_size.w, c);
    lemma_piece_bounds(resolution.h, tile_size.h, r);
    if Tile::exists_at(resolution, tile_size, col, row) {
        lemma_piece_bounds(resolution.w, tile_size.w, col);
        lemma_piece_bounds(resolution.h, tile_size.h, row);
    }
}

/// Two different tiles of one image share no pixel.
pub proof fn lemma_tiles_disjoint(
    resolution: Extent2u,
    tile_size: Extent2u,
    col: int,
    row: int,
    other_col: int,
    other_row: int,
    p: Vec2u,
)
    requires
        Tile::exists_at(resolution, tile_size, col, row),
        Tile::exists_at(resolution, tile_size, other_col, other_row),
        col != other_col || row != other_row,
    ensures
        !(Tile::spec_at(resolution, tile_size, col, row).contains(p) && Tile::spec_at(
            resolution,
            tile_size,
            other_col,
            other_row,
        ).contains(p)),
{
    lemma_piece_bounds(resolution.w, tile_size.w, col);
    lemma_piece_bounds(resolution.h, tile_size.h, row);
    lemma_piece_bounds(resolution.w, tile_size.w, other_col);
    lemma_piece_bounds(resolution.h, tile_size.h, other_row);
    if Tile::spec_at(resolution, tile_size, col, row).contains(p) {
        lemma_pixel_in_one_tile(resolution, tile_size, p, col, row);
        lemma_pixel_in_one_tile(resolution, tile_size, p, other_col, other_row);
    }
}

} // verus!
