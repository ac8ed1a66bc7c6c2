//! Signed distance fields of rasterized glyphs.
//!
//! A glyph mask (one alpha byte per pixel) becomes an RGBA image whose colour
//! channels hold the signed distance to the glyph's edge, so that a shader can
//! draw the glyph sharply at any scale. Distances are measured in the city
//! block metric, in steps of one pixel, out to a spread of four pixels.
//!
//! The computation is exact: distances are kept in units of 1/255 pixel, the
//! precision of the alpha byte, so every quantity is an integer.

use vstd::prelude::*;

verus! {

/// One pixel, in distance units (1/255 pixel).
pub const STEP: u32 = 255;

/// Whether distance fields are generated (rather than the plain mask being
/// passed through as white pixels).
pub const USE_MSDF: bool = true;

/// Whether an alpha value lies inside the glyph (alpha above one half).
pub open spec fn is_inside(alpha: u8) -> bool {
    alpha >= 128
}

/// The starting distance to the inside of the glyph, in distance units: zero
/// inside, and for an outside pixel its transparency mapped onto the spread.
pub open spec fn initial_inside(alpha: u8) -> int {
    if is_inside(alpha) {
        0
    } else {
        1020 - 8 * alpha
    }
}

/// The starting distance to the outside of the glyph, in distance units.
pub open spec fn initial_outside(alpha: u8) -> int {
    if is_inside(alpha) {
        8 * alpha - 1020
    } else {
        0
    }
}

/// The value at column `x`, row `y` of a row-major image of width `w`.
pub open spec fn cell(s: Seq<u32>, w: int, x: int, y: int) -> int {
    s[y * w + x] as int
}

/// Whether `(x, y)` is a pixel of a `w` by `h` image.
pub open spec fn in_grid(w: int, h: int, x: int, y: int) -> bool {
    0 <= x < w && 0 <= y < h
}

/// The city block distance between two pixels.
pub open spec fn l1(px: int, py: int, qx: int, qy: int) -> int {
    (if px >= qx {
        px - qx
    } else {
        qx - px
    }) + (if py >= qy {
        py - qy
    } else {
        qy - py
    })
}

/// `d` is the distance transform of the starting values `i`: every pixel
/// holds the least, over all pixels `q`, of the starting value at `q` plus
/// the distance to `q`.
pub open spec fn is_distance_transform(d: Seq<u32>, i: Seq<u32>, w: int, h: int) -> bool {
    &&& d.len() == w * h
    &&& forall|px: int, py: int, qx: int, qy: int|
        in_grid(w, h, px, py) && in_grid(w, h, qx, qy) ==> #[trigger] cell(d, w, px, py) <= #[trigger] cell(
            i,
            w,
            qx,
            qy,
        ) + STEP * l1(px, py, qx, qy)
    &&& forall|px: int, py: int| in_grid(w, h, px, py) ==> #[trigger] attained(d, i, w, h, px, py)
}

/// Some pixel `q` attains the value at `(px, py)`: it equals the starting
/// value at `q` plus the distance to `q`.
pub open spec fn attained(d: Seq<u32>, i: Seq<u32>, w: int, h: int, px: int, py: int) -> bool {
    exists|qx: int, qy: int|
        in_grid(w, h, qx, qy) && #[trigger] cell(i, w, qx, qy) + STEP * l1(px, py, qx, qy) == cell(
            d,
            w,
            px,
            py,
        )
}

/// The distance transform of the starting values `i`.
pub open spec fn distance_transform(i: Seq<u32>, w: int, h: int) -> Seq<u32> {
    choose|d: Seq<u32>| is_distance_transform(d, i, w, h)
}

/// The starting inside distances of a mask.
pub open spec fn initial_inside_seq(data: Seq<u8>, n: int) -> Seq<u32> {
    Seq::new(n as nat, |p: int| initial_inside(data[p]) as u32)
}

/// The starting outside distances of a mask.
pub open spec fn initial_outside_seq(data: Seq<u8>, n: int) -> Seq<u32> {
    Seq::new(n as nat, |p: int| initial_outside(data[p]) as u32)
}

/// The byte that encodes a signed distance (positive inside), mapping the
/// spread `-4..=4` pixels onto `0..=255`.
pub open spec fn encode(signed: int) -> int {
    if signed + 1020 < 0 {
        0
    } else if signed + 1020 >= 2040 {
        255
    } else {
        (signed + 1020) / 8
    }
}

/// The byte of the field at pixel `(x, y)`.
pub open spec fn field_value(data: Seq<u8>, w: int, h: int, x: int, y: int) -> int {
    encode(
        cell(distance_transform(initial_outside_seq(data, w * h), w, h), w, x, y) - cell(
            distance_transform(initial_inside_seq(data, w * h), w, h),
            w,
            x,
            y,
        ),
    )
}

/// The flat index of a pixel lies inside the image.
proof fn lemma_index_bounds(w: int, h: int, x: int, y: int)
    requires
        in_grid(w, h, x, y),
    ensures
        0 <= y * w + x < w * h,
        0 <= y * w,
{
    assert(0 <= y * w) by (nonlinear_arith)
        requires
            0 <= y,
            0 <= w,
    ;
    assert(y * w + x < w * h) by (nonlinear_arith)
        requires
            0 <= x < w,
            0 <= y < h,
    ;
}

/// Distinct pixels have distinct flat indices.
proof fn lemma_index_injective(w: int, px: int, py: int, x: int, y: int)
    requires
        0 <= px < w,
        0 <= x < w,
        0 <= py,
        0 <= y,
        py * w + px == y * w + x,
    ensures
        px == x,
        py == y,
{
    if py < y {
        assert(py * w + px < y * w) by (nonlinear_arith)
            requires
                py < y,
                0 <= px < w,
        ;
    } else if py > y {
        assert(y * w + x < py * w) by (nonlinear_arith)
            requires
                y < py,
                0 <= x < w,
        ;
    }
}

/// The pixel above is one row width back.
proof fn lemma_index_row(w: int, x: int, y: int)
    ensures
        (y - 1) * w + x == y * w + x - w,
        (y + 1) * w + x == y * w + x + w,
{
    assert((y - 1) * w == y * w - w) by (nonlinear_arith);
    assert((y + 1) * w == y * w + w) by (nonlinear_arith);
}

/// Writing one pixel changes that pixel only.
proof fn lemma_cell_update(s: Seq<u32>, w: int, h: int, x: int, y: int, v: u32)
    requires
        s.len() == w * h,
        in_grid(w, h, x, y),
    ensures
        forall|px: int, py: int|
            in_grid(w, h, px, py) ==> #[trigger] cell(s.update(y * w + x, v), w, px, py) == if px
                == x && py == y {
                v as int
            } else {
                cell(s, w, px, py)
            },
{
    lemma_index_bounds(w, h, x, y);
    assert forall|px: int, py: int| in_grid(w, h, px, py) implies #[trigger] cell(
        s.update(y * w + x, v),
        w,
        px,
        py,
    ) == if px == x && py == y {
        v as int
    } else {
        cell(s, w, px, py)
    } by {
        lemma_index_bounds(w, h, px, py);
        if !(px == x && py == y) {
            if py * w + px == y * w + x {
                lemma_index_injective(w, px, py, x, y);
            }
        }
    }
}

/// The same, for ghost sequences of integers.
proof fn lemma_int_cell_update(s: Seq<int>, w: int, h: int, x: int, y: int, v: int)
    requires
        s.len() == w * h,
        in_grid(w, h, x, y),
    ensures
        forall|px: int, py: int|
            in_grid(w, h, px, py) ==> #[trigger] s.update(y * w + x, v)[py * w + px] == if px == x
                && py == y {
                v
            } else {
                s[py * w + px]
            },
{
    lemma_index_bounds(w, h, x, y);
    assert forall|px: int, py: int| in_grid(w, h, px, py) implies #[trigger] s.update(
        y * w + x,
        v,
    )[py * w + px] == if px == x && py == y {
        v
    } else {
        s[py * w + px]
    } by {
        lemma_index_bounds(w, h, px, py);
        if !(px == x && py == y) {
            if py * w + px == y * w + x {
                lemma_index_injective(w, px, py, x, y);
            }
        }
    }
}

/// Every pixel's distance is backed by a source pixel: it is at least the
/// source's starting value plus the distance to it.
pub open spec fn witnessed(
    i: Seq<u32>,
    d: Seq<u32>,
    ox: Seq<int>,
    oy: Seq<int>,
    w: int,
    h: int,
) -> bool {
    forall|px: int, py: int| in_grid(w, h, px, py) ==> #[trigger] backed(i, d, ox, oy, w, h, px, py)
}

/// The distance at `(px, py)` is backed by its recorded source pixel.
pub open spec fn backed(
    i: Seq<u32>,
    d: Seq<u32>,
    ox: Seq<int>,
    oy: Seq<int>,
    w: int,
    h: int,
    px: int,
    py: int,
) -> bool {
    let sx = ox[py * w + px];
    let sy = oy[py * w + px];
    &&& in_grid(w, h, sx, sy)
    &&& cell(d, w, px, py) >= cell(i, w, sx, sy) + STEP * l1(px, py, sx, sy)
}

/// Whether the forward pass, now at `(x, y)`, has already visited `(px, py)`.
pub open spec fn before(px: int, py: int, x: int, y: int) -> bool {
    py < y || (py == y && px < x)
}

/// What holds during the forward pass, at `(x, y)`: visited pixels hold at
/// most the starting value of any pixel above and to the left of them plus
/// the distance to it; the others still hold their starting value.
pub open spec fn forward_inv(
    i: Seq<u32>,
    d: Seq<u32>,
    ox: Seq<int>,
    oy: Seq<int>,
    w: int,
    h: int,
    x: int,
    y: int,
) -> bool {
    &&& i.len() == w * h
    &&& d.len() == w * h
    &&& ox.len() == w * h
    &&& oy.len() == w * h
    &&& forall|px: int, py: int| in_grid(w, h, px, py) ==> #[trigger] cell(i, w, px, py) <= 1020
    &&& forall|px: int, py: int|
        in_grid(w, h, px, py) ==> #[trigger] cell(d, w, px, py) <= cell(i, w, px, py)
    &&& forall|px: int, py: int|
        in_grid(w, h, px, py) && !before(px, py, x, y) ==> #[trigger] cell(d, w, px, py) == cell(
            i,
            w,
            px,
            py,
        )
    &&& witnessed(i, d, ox, oy, w, h)
    &&& forall|px: int, py: int, qx: int, qy: int|
        in_grid(w, h, px, py) && in_grid(w, h, qx, qy) && before(px, py, x, y) && qx <= px && qy
            <= py ==> #[trigger] cell(d, w, px, py) <= #[trigger] cell(i, w, qx, qy) + STEP * l1(
            px,
            py,
            qx,
            qy,
        )
}

/// One step of the forward pass keeps its invariant.
proof fn lemma_forward_step(
    i: Seq<u32>,
    d: Seq<u32>,
    ox: Seq<int>,
    oy: Seq<int>,
    w: int,
    h: int,
    x: int,
    y: int,
    v: u32,
    sx: int,
    sy: int,
)
    requires
        forward_inv(i, d, ox, oy, w, h, x, y),
        in_grid(w, h, x, y),
        v <= cell(d, w, x, y),
        x > 0 ==> v <= cell(d, w, x - 1, y) + STEP,
        y > 0 ==> v <= cell(d, w, x, y - 1) + STEP,
        (v == cell(d, w, x, y) && sx == ox[y * w + x] && sy == oy[y * w + x]) || (x > 0 && v
            == cell(d, w, x - 1, y) + STEP && sx == ox[y * w + x - 1] && sy == oy[y * w + x - 1])
            || (y > 0 && v == cell(d, w, x, y - 1) + STEP && sx == ox[(y - 1) * w + x] && sy == oy[(
        y - 1) * w + x]),
    ensures
        forward_inv(
            i,
            d.update(y * w + x, v),
            ox.update(y * w + x, sx),
            oy.update(y * w + x, sy),
            w,
            h,
            x + 1,
            y,
        ),
{
    let idx = y * w + x;
    let d2 = d.update(idx, v);
    let ox2 = ox.update(idx, sx);
    let oy2 = oy.update(idx, sy);
    lemma_index_bounds(w, h, x, y);
    lemma_cell_update(d, w, h, x, y, v);
    lemma_int_cell_update(ox, w, h, x, y, sx);
    lemma_int_cell_update(oy, w, h, x, y, sy);
    lemma_index_row(w, x, y);
    assert(cell(d, w, x, y) == cell(i, w, x, y));
    // The new value is backed by its source.
    assert(in_grid(w, h, sx, sy) && v >= cell(i, w, sx, sy) + STEP * l1(x, y, sx, sy)) by {
        if v == cell(d, w, x, y) && sx == ox[idx] && sy == oy[idx] {
            assert(backed(i, d, ox, oy, w, h, x, y));
        } else if x > 0 && v == cell(d, w, x - 1, y) + STEP && sx == ox[idx - 1] && sy == oy[idx
            - 1] {
            assert(in_grid(w, h, x - 1, y));
            assert(backed(i, d, ox, oy, w, h, x - 1, y));
        } else {
            assert(in_grid(w, h, x, y - 1));
            assert(backed(i, d, ox, oy, w, h, x, y - 1));
        }
    }
    assert(witnessed(i, d2, ox2, oy2, w, h)) by {
        assert forall|px: int, py: int| in_grid(w, h, px, py) implies #[trigger] backed(
            i,
            d2,
            ox2,
            oy2,
            w,
            h,
            px,
            py,
        ) by {
            assert(ox2[py * w + px] == if px == x && py == y { sx } else { ox[py * w + px] });
            assert(oy2[py * w + px] == if px == x && py == y { sy } else { oy[py * w + px] });
            if px == x && py == y {
            } else {
                assert(cell(d2, w, px, py) == cell(d, w, px, py));
                assert(backed(i, d, ox, oy, w, h, px, py));
            }
        }
    }
    // The visited region grows by the current pixel.
    assert forall|px: int, py: int, qx: int, qy: int|
        in_grid(w, h, px, py) && in_grid(w, h, qx, qy) && before(px, py, x + 1, y) && qx <= px
            && qy <= py implies #[trigger] cell(d2, w, px, py) <= #[trigger] cell(i, w, qx, qy)
        + STEP * l1(px, py, qx, qy) by {
        if px == x && py == y {
            if qx == x && qy == y {
            } else if qy == y {
                assert(in_grid(w, h, x - 1, y));
                assert(before(x - 1, y, x, y));
                assert(cell(d, w, x - 1, y) <= cell(i, w, qx, qy) + STEP * l1(x - 1, y, qx, qy));
            } else {
                assert(in_grid(w, h, x, y - 1));
                assert(before(x, y - 1, x, y));
                assert(cell(d, w, x, y - 1) <= cell(i, w, qx, qy) + STEP * l1(x, y - 1, qx, qy));
            }
        } else {
            assert(cell(d2, w, px, py) == cell(d, w, px, py));
        }
    }
    assert forall|px: int, py: int|
        in_grid(w, h, px, py) && !before(px, py, x + 1, y) implies #[trigger] cell(d2, w, px, py)
        == cell(i, w, px, py) by {
        assert(cell(d2, w, px, py) == cell(d, w, px, py));
    }
    assert forall|px: int, py: int| in_grid(w, h, px, py) implies #[trigger] cell(d2, w, px, py)
        <= cell(i, w, px, py) by {
        if px == x && py == y {
        } else {
            assert(cell(d2, w, px, py) == cell(d, w, px, py));
        }
    }
}

/// Whether the backward pass, now at `(x, y)`, has already visited `(px, py)`.
pub open spec fn after(px: int, py: int, x: int, y: int) -> bool {
    py > y || (py == y && px > x)
}

/// What holds during the backward pass over the forward result `f`, at
/// `(x, y)`: visited pixels hold at most the forward value of any pixel below
/// and to the right of them plus the distance to it; the others still hold
/// their forward value.
pub open spec fn backward_inv(
    i: Seq<u32>,
    f: Seq<u32>,
    d: Seq<u32>,
    ox: Seq<int>,
    oy: Seq<int>,
    w: int,
    h: int,
    x: int,
    y: int,
) -> bool {
    &&& i.len() == w * h
    &&& f.len() == w * h
    &&& d.len() == w * h
    &&& ox.len() == w * h
    &&& oy.len() == w * h
    &&& forall|px: int, py: int| in_grid(w, h, px, py) ==> #[trigger] cell(f, w, px, py) <= 1020
    &&& forall|px: int, py: int|
        in_grid(w, h, px, py) ==> #[trigger] cell(d, w, px, py) <= cell(f, w, px, py)
    &&& forall|px: int, py: int|
        in_grid(w, h, px, py) && !after(px, py, x, y) ==> #[trigger] cell(d, w, px, py) == cell(
            f,
            w,
            px,
            py,
        )
    &&& witnessed(i, d, ox, oy, w, h)
    &&& forall|px: int, py: int, qx: int, qy: int|
        in_grid(w, h, px, py) && in_grid(w, h, qx, qy) && after(px, py, x, y) && qx >= px && qy
            >= py ==> #[trigger] cell(d, w, px, py) <= #[trigger] cell(f, w, qx, qy) + STEP * l1(
            px,
            py,
            qx,
            qy,
        )
}

/// One step of the backward pass keeps its invariant.
proof fn lemma_backward_step(
    i: Seq<u32>,
    f: Seq<u32>,
    d: Seq<u32>,
    ox: Seq<int>,
    oy: Seq<int>,
    w: int,
    h: int,
    x: int,
    y: int,
    v: u32,
    sx: int,
    sy: int,
)
    requires
        backward_inv(i, f, d, ox, oy, w, h, x, y),
        in_grid(w, h, x, y),
        v <= cell(d, w, x, y),
        x < w - 1 ==> v <= cell(d, w, x + 1, y) + STEP,
        y < h - 1 ==> v <= cell(d, w, x, y + 1) + STEP,
        (v == cell(d, w, x, y) && sx == ox[y * w + x] && sy == oy[y * w + x]) || (x < w - 1 && v
            == cell(d, w, x + 1, y) + STEP && sx == ox[y * w + x + 1] && sy == oy[y * w + x + 1])
            || (y < h - 1 && v == cell(d, w, x, y + 1) + STEP && sx == ox[(y + 1) * w + x] && sy
            == oy[(y + 1) * w + x]),
    ensures
        backward_inv(
            i,
            f,
            d.update(y * w + x, v),
            ox.update(y * w + x, sx),
            oy.update(y * w + x, sy),
            w,
            h,
            x - 1,
            y,
        ),
{
    let idx = y * w + x;
    let d2 = d.update(idx, v);
    let ox2 = ox.update(idx, sx);
    let oy2 = oy.update(idx, sy);
    lemma_index_bounds(w, h, x, y);
    lemma_cell_update(d, w, h, x, y, v);
    lemma_int_cell_update(ox, w, h, x, y, sx);
    lemma_int_cell_update(oy, w, h, x, y, sy);
    lemma_index_row(w, x, y);
    assert(cell(d, w, x, y) == cell(f, w, x, y));
    assert(in_grid(w, h, sx, sy) && v >= cell(i, w, sx, sy) + STEP * l1(x, y, sx, sy)) by {
        if v == cell(d, w, x, y) && sx == ox[idx] && sy == oy[idx] {
            assert(backed(i, d, ox, oy, w, h, x, y));
        } else if x < w - 1 && v == cell(d, w, x + 1, y) + STEP && sx == ox[idx + 1] && sy
            == oy[idx + 1] {
            assert(in_grid(w, h, x + 1, y));
            assert(backed(i, d, ox, oy, w, h, x + 1, y));
        } else {
            assert(in_grid(w, h, x, y + 1));
            assert(backed(i, d, ox, oy, w, h, x, y + 1));
        }
    }
    assert(witnessed(i, d2, ox2, oy2, w, h)) by {
        assert forall|px: int, py: int| in_grid(w, h, px, py) implies #[trigger] backed(
            i,
            d2,
            ox2,
            oy2,
            w,
            h,
            px,
            py,
        ) by {
            assert(ox2[py * w + px] == if px == x && py == y { sx } else { ox[py * w + px] });
            assert(oy2[py * w + px] == if px == x && py == y { sy } else { oy[py * w + px] });
            if px == x && py == y {
            } else {
                assert(cell(d2, w, px, py) == cell(d, w, px, py));
                assert(backed(i, d, ox, oy, w, h, px, py));
            }
        }
    }
    assert forall|px: int, py: int, qx: int, qy: int|
        in_grid(w, h, px, py) && in_grid(w, h, qx, qy) && after(px, py, x - 1, y) && qx >= px
            && qy >= py implies #[trigger] cell(d2, w, px, py) <= #[trigger] cell(f, w, qx, qy)
        + STEP * l1(px, py, qx, qy) by {
        if px == x && py == y {
            if qx == x && qy == y {
            } else if qy == y {
                assert(in_grid(w, h, x + 1, y));
                assert(after(x + 1, y, x, y));
                assert(cell(d, w, x + 1, y) <= cell(f, w, qx, qy) + STEP * l1(x + 1, y, qx, qy));
            } else {
                assert(in_grid(w, h, x, y + 1));
                assert(after(x, y + 1, x, y));
                assert(cell(d, w, x, y + 1) <= cell(f, w, qx, qy) + STEP * l1(x, y + 1, qx, qy));
            }
        } else {
            assert(cell(d2, w, px, py) == cell(d, w, px, py));
        }
    }
    assert forall|px: int, py: int|
        in_grid(w, h, px, py) && !after(px, py, x - 1, y) implies #[trigger] cell(d2, w, px, py)
        == cell(f, w, px, py) by {
        assert(cell(d2, w, px, py) == cell(d, w, px, py));
    }
    assert forall|px: int, py: int| in_grid(w, h, px, py) implies #[trigger] cell(d2, w, px, py)
        <= cell(f, w, px, py) by {
        if px == x && py == y {
        } else {
            assert(cell(d2, w, px, py) == cell(d, w, px, py));
        }
    }
}

/// After both passes the result is the distance transform of the starting
/// values.
proof fn lemma_passes_give_transform(
    i: Seq<u32>,
    f: Seq<u32>,
    fox: Seq<int>,
    foy: Seq<int>,
    d: Seq<u32>,
    ox: Seq<int>,
    oy: Seq<int>,
    w: int,
    h: int,
)
    requires
        forward_inv(i, f, fox, foy, w, h, 0, h),
        backward_inv(i, f, d, ox, oy, w, h, w - 1, -1),
    ensures
        is_distance_transform(d, i, w, h),
{
    assert forall|px: int, py: int, qx: int, qy: int|
        in_grid(w, h, px, py) && in_grid(w, h, qx, qy) implies #[trigger] cell(d, w, px, py)
        <= #[trigger] cell(i, w, qx, qy) + STEP * l1(px, py, qx, qy) by {
        assert(before(px, py, 0, h));
        assert(after(px, py, w - 1, -1));
        if qx <= px && qy <= py {
            assert(cell(f, w, px, py) <= cell(i, w, qx, qy) + STEP * l1(px, py, qx, qy));
        } else if qx >= px && qy >= py {
            assert(cell(d, w, px, py) <= cell(f, w, qx, qy) + STEP * l1(px, py, qx, qy));
            assert(cell(f, w, qx, qy) <= cell(i, w, qx, qy));
        } else if qx < px {
            // The corner pixel below `p`, in the column of `p` and the row of `q`.
            assert(in_grid(w, h, px, qy));
            assert(before(px, qy, 0, h));
            assert(cell(d, w, px, py) <= cell(f, w, px, qy) + STEP * l1(px, py, px, qy));
            assert(cell(f, w, px, qy) <= cell(i, w, qx, qy) + STEP * l1(px, qy, qx, qy));
        } else {
            // The corner pixel to the right of `p`, in the row of `p` and the column of `q`.
            assert(in_grid(w, h, qx, py));
            assert(before(qx, py, 0, h));
            assert(cell(d, w, px, py) <= cell(f, w, qx, py) + STEP * l1(px, py, qx, py));
            assert(cell(f, w, qx, py) <= cell(i, w, qx, qy) + STEP * l1(qx, py, qx, qy));
        }
    }
    assert forall|px: int, py: int| in_grid(w, h, px, py) implies #[trigger] attained(
        d,
        i,
        w,
        h,
        px,
        py,
    ) by {
        assert(backed(i, d, ox, oy, w, h, px, py));
        let sx = ox[py * w + px];
        let sy = oy[py * w + px];
        assert(cell(d, w, px, py) <= cell(i, w, sx, sy) + STEP * l1(px, py, sx, sy));
        assert(cell(i, w, sx, sy) + STEP * l1(px, py, sx, sy) == cell(d, w, px, py));
    }
}

/// A flat index inside the image is the index of the pixel at its column and
/// row.
proof fn lemma_flat_index(k: int, w: int, h: int)
    requires
        0 <= k < w * h,
        0 < w,
    ensures
        in_grid(w, h, k % w, k / w),
        (k / w) * w + k % w == k,
{
    let px = k % w;
    let py = k / w;
    vstd::arithmetic::div_mod::lemma_fundamental_div_mod(k, w);
    assert(py * w + px == k) by (nonlinear_arith)
        requires
            k == w * (k / w) + k % w,
            px == k % w,
            py == k / w,
    ;
    vstd::arithmetic::div_mod::lemma_mod_bound(k, w);
    assert(py < h) by {
        vstd::arithmetic::div_mod::lemma_div_is_ordered(k, w * h, w);
        vstd::arithmetic::div_mod::lemma_div_multiples_vanish(h, w);
        assert(k / w < h) by (nonlinear_arith)
            requires
                k < w * h,
                0 < w,
                py == k / w,
                py * w + px == k,
                0 <= px,
        ;
    }
    vstd::arithmetic::div_mod::lemma_div_pos_is_pos(k, w);
}

/// The distance transform is unique, so the one computed is the one named.
proof fn lemma_transform_unique(d: Seq<u32>, i: Seq<u32>, w: int, h: int)
    requires
        is_distance_transform(d, i, w, h),
        0 <= w,
        0 <= h,
    ensures
        distance_transform(i, w, h) == d,
{
    let e = distance_transform(i, w, h);
    assert(is_distance_transform(e, i, w, h));
    assert forall|k: int| 0 <= k < d.len() implies e[k] == d[k] by {
        assert(w != 0) by (nonlinear_arith)
            requires
                0 <= k < w * h,
        ;
        lemma_flat_index(k, w, h);
        let px = k % w;
        let py = k / w;
        assert(attained(d, i, w, h, px, py));
        assert(attained(e, i, w, h, px, py));
        let (ax, ay) = choose|qx: int, qy: int|
            in_grid(w, h, qx, qy) && #[trigger] cell(i, w, qx, qy) + STEP * l1(px, py, qx, qy)
                == cell(d, w, px, py);
        let (bx, by) = choose|qx: int, qy: int|
            in_grid(w, h, qx, qy) && #[trigger] cell(i, w, qx, qy) + STEP * l1(px, py, qx, qy)
                == cell(e, w, px, py);
        assert(cell(e, w, px, py) <= cell(i, w, ax, ay) + STEP * l1(px, py, ax, ay));
        assert(cell(d, w, px, py) <= cell(i, w, bx, by) + STEP * l1(px, py, bx, by));
    }
    assert(e =~= d);
}

/// Before the forward pass every pixel holds its starting value, backed by
/// itself.
proof fn lemma_forward_start(i: Seq<u32>, w: int, h: int)
    requires
        0 <= w,
        0 <= h,
        i.len() == w * h,
        forall|px: int, py: int| in_grid(w, h, px, py) ==> #[trigger] cell(i, w, px, py) <= 1020,
    ensures
        forward_inv(
            i,
            i,
            Seq::new((w * h) as nat, |k: int| k % w),
            Seq::new((w * h) as nat, |k: int| k / w),
            w,
            h,
            0,
            0,
        ),
{
    let ox = Seq::new((w * h) as nat, |k: int| k % w);
    let oy = Seq::new((w * h) as nat, |k: int| k / w);
    assert forall|px: int, py: int| in_grid(w, h, px, py) implies #[trigger] backed(
        i,
        i,
        ox,
        oy,
        w,
        h,
        px,
        py,
    ) by {
        lemma_index_bounds(w, h, px, py);
        let k = py * w + px;
        vstd::arithmetic::div_mod::lemma_fundamental_div_mod_converse(k, w, py, px);
        assert(ox[k] == px);
        assert(oy[k] == py);
    }
}

/// The end of a row of the forward pass is the start of the next.
proof fn lemma_forward_next_row(
    i: Seq<u32>,
    d: Seq<u32>,
    ox: Seq<int>,
    oy: Seq<int>,
    w: int,
    h: int,
    y: int,
)
    requires
        forward_inv(i, d, ox, oy, w, h, w, y),
    ensures
        forward_inv(i, d, ox, oy, w, h, 0, y + 1),
{
    assert forall|px: int, py: int|
        in_grid(w, h, px, py) && !before(px, py, 0, y + 1) implies #[trigger] cell(d, w, px, py)
        == cell(i, w, px, py) by {
        assert(!before(px, py, w, y));
    }
    assert forall|px: int, py: int, qx: int, qy: int|
        in_grid(w, h, px, py) && in_grid(w, h, qx, qy) && before(px, py, 0, y + 1) && qx <= px
            && qy <= py implies #[trigger] cell(d, w, px, py) <= #[trigger] cell(i, w, qx, qy)
        + STEP * l1(px, py, qx, qy) by {
        assert(before(px, py, w, y));
    }
}

/// After the forward pass the backward pass starts with nothing visited.
proof fn lemma_backward_start(
    i: Seq<u32>,
    f: Seq<u32>,
    ox: Seq<int>,
    oy: Seq<int>,
    w: int,
    h: int,
)
    requires
        forward_inv(i, f, ox, oy, w, h, 0, h),
    ensures
        backward_inv(i, f, f, ox, oy, w, h, w - 1, h - 1),
{
    assert forall|px: int, py: int| in_grid(w, h, px, py) implies #[trigger] cell(f, w, px, py)
        <= 1020 by {
        assert(cell(f, w, px, py) <= cell(i, w, px, py));
    }
}

/// The end of a row of the backward pass is the start of the row above.
proof fn lemma_backward_next_row(
    i: Seq<u32>,
    f: Seq<u32>,
    d: Seq<u32>,
    ox: Seq<int>,
    oy: Seq<int>,
    w: int,
    h: int,
    y: int,
)
    requires
        backward_inv(i, f, d, ox, oy, w, h, -1, y),
    ensures
        backward_inv(i, f, d, ox, oy, w, h, w - 1, y - 1),
{
    assert forall|px: int, py: int|
        in_grid(w, h, px, py) && !after(px, py, w - 1, y - 1) implies #[trigger] cell(
        d,
        w,
        px,
        py,
    ) == cell(f, w, px, py) by {
        assert(!after(px, py, -1, y));
    }
    assert forall|px: int, py: int, qx: int, qy: int|
        in_grid(w, h, px, py) && in_grid(w, h, qx, qy) && after(px, py, w - 1, y - 1) && qx >= px
            && qy >= py implies #[trigger] cell(d, w, px, py) <= #[trigger] cell(f, w, qx, qy)
        + STEP * l1(px, py, qx, qy) by {
        assert(after(px, py, -1, y));
    }
}

/// Computes the distance transform of `d` in place, by a forward pass (from
/// the top-left corner, each pixel looking at its left and upper neighbours)
/// and a backward pass (from the bottom-right corner, each pixel looking at
/// its right and lower neighbours).
fn transform_in_place(d: &mut Vec<u32>, w: usize, h: usize)
    requires
        old(d)@.len() == w * h,
        w * h <= usize::MAX,
        forall|px: int, py: int|
            in_grid(w as int, h as int, px, py) ==> #[trigger] cell(old(d)@, w as int, px, py)
                <= 1020,
    ensures
        is_distance_transform(final(d)@, old(d)@, w as int, h as int),
        forall|k: int| 0 <= k < final(d)@.len() ==> final(d)@[k] <= 1020,
{
    let ghost i = d@;
    let ghost wi = w as int;
    let ghost hi = h as int;
    let ghost mut ox: Seq<int> = Seq::new((wi * hi) as nat, |k: int| k % wi);
    let ghost mut oy: Seq<int> = Seq::new((wi * hi) as nat, |k: int| k / wi);
    proof {
        lemma_forward_start(i, wi, hi);
    }
    let mut y: usize = 0;
    while y < h
        invariant
            0 <= y <= h,
            wi == w,
            hi == h,
            w * h <= usize::MAX,
            forward_inv(i, d@, ox, oy, wi, hi, 0, y as int),
        decreases h - y,
    {
        let mut x: usize = 0;
        while x < w
            invariant
                0 <= x <= w,
                0 <= y < h,
                wi == w,
                hi == h,
                w * h <= usize::MAX,
                forward_inv(i, d@, ox, oy, wi, hi, x as int, y as int),
            decreases w - x,
        {
            proof {
                lemma_index_bounds(wi, hi, x as int, y as int);
                lemma_index_row(wi, x as int, y as int);
            }
            let idx = y * w + x;
            let ghost dd = d@;
            let mut v = d[idx];
            let ghost mut sx = ox[idx as int];
            let ghost mut sy = oy[idx as int];
            if x > 0 {
                proof {
                    assert(in_grid(wi, hi, x - 1, y as int));
                    assert(cell(dd, wi, x - 1, y as int) <= cell(i, wi, x - 1, y as int));
                }
                let left = d[idx - 1] + STEP;
                if left < v {
                    v = left;
                    proof {
                        sx = ox[idx - 1];
                        sy = oy[idx - 1];
                    }
                }
            }
            if y > 0 {
                proof {
                    assert(in_grid(wi, hi, x as int, y - 1));
                    assert(cell(dd, wi, x as int, y - 1) <= cell(i, wi, x as int, y - 1));
                }
                let up = d[idx - w] + STEP;
                if up < v {
                    v = up;
                    proof {
                        sx = ox[idx - w];
                        sy = oy[idx - w];
                    }
                }
            }
            proof {
                lemma_forward_step(i, dd, ox, oy, wi, hi, x as int, y as int, v, sx, sy);
                ox = ox.update(idx as int, sx);
                oy = oy.update(idx as int, sy);
            }
            d.set(idx, v);
            x = x + 1;
        }
        proof {
            lemma_forward_next_row(i, d@, ox, oy, wi, hi, y as int);
        }
        y = y + 1;
    }
    let ghost f = d@;
    let ghost fox = ox;
    let ghost foy = oy;
    proof {
        lemma_backward_start(i, f, ox, oy, wi, hi);
    }
    let mut yy: usize = h;
    while yy > 0
        invariant
            0 <= yy <= h,
            wi == w,
            hi == h,
            w * h <= usize::MAX,
            forward_inv(i, f, fox, foy, wi, hi, 0, hi),
            backward_inv(i, f, d@, ox, oy, wi, hi, wi - 1, yy - 1),
        decreases yy,
    {
        let y = yy - 1;
        let mut xx: usize = w;
        while xx > 0
            invariant
                0 <= xx <= w,
                0 <= y < h,
                yy == y + 1,
                wi == w,
                hi == h,
                w * h <= usize::MAX,
                backward_inv(i, f, d@, ox, oy, wi, hi, xx - 1, y as int),
            decreases xx,
        {
            let x = xx - 1;
            proof {
                lemma_index_bounds(wi, hi, x as int, y as int);
                lemma_index_row(wi, x as int, y as int);
            }
            let idx = y * w + x;
            let ghost dd = d@;
            let mut v = d[idx];
            let ghost mut sx = ox[idx as int];
            let ghost mut sy = oy[idx as int];
            if x < w - 1 {
                proof {
                    assert(in_grid(wi, hi, x + 1, y as int));
                    assert(cell(dd, wi, x + 1, y as int) <= cell(f, wi, x + 1, y as int));
                    lemma_index_bounds(wi, hi, x + 1, y as int);
                }
                let right = d[idx + 1] + STEP;
                if right < v {
                    v = right;
                    proof {
                        sx = ox[idx + 1];
                        sy = oy[idx + 1];
                    }
                }
            }
            if y < h - 1 {
                proof {
                    assert(in_grid(wi, hi, x as int, y + 1));
                    assert(cell(dd, wi, x as int, y + 1) <= cell(f, wi, x as int, y + 1));
                    lemma_index_bounds(wi, hi, x as int, y + 1);
                }
                let down = d[idx + w] + STEP;
                if down < v {
                    v = down;
                    proof {
                        sx = ox[idx + w];
                        sy = oy[idx + w];
                    }
                }
            }
            proof {
                lemma_backward_step(i, f, dd, ox, oy, wi, hi, x as int, y as int, v, sx, sy);
                ox = ox.update(idx as int, sx);
                oy = oy.update(idx as int, sy);
            }
            d.set(idx, v);
            xx = xx - 1;
        }
        proof {
            lemma_backward_next_row(i, f, d@, ox, oy, wi, hi, y as int);
        }
        yy = yy - 1;
    }
    proof {
        lemma_passes_give_transform(i, f, fox, foy, d@, ox, oy, wi, hi);
        assert forall|k: int| 0 <= k < d@.len() implies d@[k] <= 1020 by {
            if wi > 0 {
                lemma_flat_index(k, wi, hi);
                assert(cell(d@, wi, k % wi, k / wi) <= cell(f, wi, k % wi, k / wi));
            } else {
                assert(false) by (nonlinear_arith)
                    requires
                        0 <= k < wi * hi,
                        wi <= 0,
                        0 <= hi,
                ;
            }
        }
    }
}

/// Generates a signed distance field from a rasterized glyph mask of
/// `width` by `height` alpha bytes, row by row.
///
/// Each output pixel is four bytes: the encoded signed distance (positive
/// inside the glyph) in the three colour channels, and full alpha. The
/// distance to the inside and to the outside are each the distance transform
/// of the mask's starting distances, computed by a two-pass scan.
pub fn generate_sdf_from_raster(data: &[u8], width: u32, height: u32) -> (sdf: Vec<u8>)
    requires
        data@.len() >= width * height,
        width * height * 4 <= usize::MAX,
    ensures
        sdf@.len() == 4 * width * height,
        forall|x: int, y: int|
            in_grid(width as int, height as int, x, y) ==> {
                let k = y * width + x;
                &&& sdf@[4 * k] == #[trigger] field_value(data@, width as int, height as int, x, y)
                &&& sdf@[4 * k + 1] == field_value(data@, width as int, height as int, x, y)
                &&& sdf@[4 * k + 2] == field_value(data@, width as int, height as int, x, y)
                &&& sdf@[4 * k + 3] == 255
            },
        forall|x: int, y: int|
            in_grid(width as int, height as int, x, y) ==> {
                &&& is_inside(data@[y * width + x]) ==> #[trigger] field_value(
                    data@,
                    width as int,
                    height as int,
                    x,
                    y,
                ) >= 127
                &&& !is_inside(data@[y * width + x]) ==> field_value(
                    data@,
                    width as int,
                    height as int,
                    x,
                    y,
                ) <= 127
            },
{
    let w = width as usize;
    let h = height as usize;
    let n = w * h;
    let ghost wi = w as int;
    let ghost hi = h as int;
    if !USE_MSDF {
        let mut result: Vec<u8> = Vec::new();
        let mut k: usize = 0;
        while k < data.len()
            invariant
                0 <= k <= data@.len(),
            decreases data@.len() - k,
        {
            result.push(255);
            result.push(255);
            result.push(255);
            result.push(data[k]);
            k = k + 1;
        }
        return result;
    }
    let mut dist_inside: Vec<u32> = Vec::new();
    let mut dist_outside: Vec<u32> = Vec::new();
    let mut k: usize = 0;
    while k < n
        invariant
            0 <= k <= n,
            n == w * h,
            data@.len() >= n,
            dist_inside@.len() == k,
            dist_outside@.len() == k,
            forall|j: int| 0 <= j < k ==> #[trigger] dist_inside@[j] == initial_inside(data@[j]),
            forall|j: int| 0 <= j < k ==> #[trigger] dist_outside@[j] == initial_outside(data@[j]),
        decreases n - k,
    {
        let alpha = data[k];
        if alpha >= 128 {
            dist_inside.push(0);
            dist_outside.push(8 * alpha as u32 - 1020);
        } else {
            dist_inside.push(1020 - 8 * alpha as u32);
            dist_outside.push(0);
        }
        k = k + 1;
    }
    let ghost init_in = dist_inside@;
    let ghost init_out = dist_outside@;
    proof {
        assert(init_in =~= initial_inside_seq(data@, wi * hi));
        assert(init_out =~= initial_outside_seq(data@, wi * hi));
        assert forall|px: int, py: int| in_grid(wi, hi, px, py) implies #[trigger] cell(
            init_in,
            wi,
            px,
            py,
        ) <= 1020 by {
            lemma_index_bounds(wi, hi, px, py);
        }
        assert forall|px: int, py: int| in_grid(wi, hi, px, py) implies #[trigger] cell(
            init_out,
            wi,
            px,
            py,
        ) <= 1020 by {
            lemma_index_bounds(wi, hi, px, py);
        }
    }
    transform_in_place(&mut dist_inside, w, h);
    transform_in_place(&mut dist_outside, w, h);
    proof {
        lemma_transform_unique(dist_inside@, init_in, wi, hi);
        lemma_transform_unique(dist_outside@, init_out, wi, hi);
    }
    let mut sdf: Vec<u8> = Vec::new();
    let mut k: usize = 0;
    while k < n
        invariant
            0 <= k <= n,
            n == w * h,
            n * 4 <= usize::MAX,
            dist_inside@.len() == n,
            dist_outside@.len() == n,
            forall|j: int| 0 <= j < n ==> dist_inside@[j] <= 1020,
            forall|j: int| 0 <= j < n ==> dist_outside@[j] <= 1020,
            sdf@.len() == 4 * k,
            forall|j: int|
                0 <= j < k ==> {
                    &&& #[trigger] sdf@[4 * j] == encode(dist_outside@[j] - dist_inside@[j])
                    &&& sdf@[4 * j + 1] == encode(dist_outside@[j] - dist_inside@[j])
                    &&& sdf@[4 * j + 2] == encode(dist_outside@[j] - dist_inside@[j])
                    &&& sdf@[4 * j + 3] == 255
                },
        decreases n - k,
    {
        let value = ((dist_outside[k] + 1020 - dist_inside[k]) / 8) as u8;
        let ghost before = sdf@;
        sdf.push(value);
        sdf.push(value);
        sdf.push(value);
        sdf.push(255);
        proof {
            assert(value == encode(dist_outside@[k as int] - dist_inside@[k as int]));
            assert forall|j: int| 0 <= j < k + 1 implies {
                &&& #[trigger] sdf@[4 * j] == encode(dist_outside@[j] - dist_inside@[j])
                &&& sdf@[4 * j + 1] == encode(dist_outside@[j] - dist_inside@[j])
                &&& sdf@[4 * j + 2] == encode(dist_outside@[j] - dist_inside@[j])
                &&& sdf@[4 * j + 3] == 255
            } by {
                if j < k {
                    assert(sdf@[4 * j] == before[4 * j]);
                    assert(sdf@[4 * j + 1] == before[4 * j + 1]);
                    assert(sdf@[4 * j + 2] == before[4 * j + 2]);
                    assert(sdf@[4 * j + 3] == before[4 * j + 3]);
                }
            }
        }
        k = k + 1;
    }
    proof {
        assert(4 * (wi * hi) == 4 * wi * hi) by (nonlinear_arith);
        assert forall|x: int, y: int| in_grid(wi, hi, x, y) implies {
            let k = y * width + x;
            &&& sdf@[4 * k] == #[trigger] field_value(data@, wi, hi, x, y)
            &&& sdf@[4 * k + 1] == field_value(data@, wi, hi, x, y)
            &&& sdf@[4 * k + 2] == field_value(data@, wi, hi, x, y)
            &&& sdf@[4 * k + 3] == 255
        } by {
            lemma_index_bounds(wi, hi, x, y);
            let k = y * wi + x;
            assert(sdf@[4 * k] == encode(dist_outside@[k] - dist_inside@[k]));
        }
        assert forall|x: int, y: int| in_grid(wi, hi, x, y) implies {
            &&& is_inside(data@[y * width + x]) ==> #[trigger] field_value(data@, wi, hi, x, y)
                >= 127
            &&& !is_inside(data@[y * width + x]) ==> field_value(data@, wi, hi, x, y) <= 127
        } by {
            lemma_index_bounds(wi, hi, x, y);
            let k = y * wi + x;
            assert(l1(x, y, x, y) == 0);
            assert(cell(dist_inside@, wi, x, y) <= cell(init_in, wi, x, y) + STEP * l1(x, y, x, y));
            assert(cell(dist_outside@, wi, x, y) <= cell(init_out, wi, x, y) + STEP * l1(
                x,
                y,
                x,
                y,
            ));
            assert(init_in[k] == initial_inside(data@[k]));
            assert(init_out[k] == initial_outside(data@[k]));
        }
    }
    sdf
}

} // verus!
