//! Cell grids: enumerating cells, the border ring, circular obstacles and
//! the free cells left between walls.
use vstd::prelude::*;
use vstd::arithmetic::div_mod::{lemma_fundamental_div_mod, lemma_fundamental_div_mod_converse};
use crate::board::{cell_index, lemma_cell_index_bounds, lemma_cell_index_injective, same_cell};

verus! {

/// Whether `p` lies on the outer ring of a `w` by `h` grid.
pub open spec fn border_cell(p: (usize, usize), w: usize, h: usize) -> bool {
    p.0 == 0 || p.1 == 0 || p.0 + 1 == w || p.1 + 1 == h
}

/// Number of places `i < k` strictly inside a line of `n` places
/// (`0 < i < n - 1`).
pub open spec fn inner_before(n: int, k: int) -> int {
    if k <= 1 {
        0
    } else if k >= n - 1 {
        if n >= 2 {
            n - 2
        } else {
            0
        }
    } else {
        k - 1
    }
}

/// Number of cells off the border ring of a `w` by `h` grid.
pub open spec fn interior_cells(w: usize, h: usize) -> int {
    inner_before(w as int, w as int) * inner_before(h as int, h as int)
}

/// The cell at row-major place `i` of a grid `w` cells wide.
pub open spec fn cell_at(i: int, w: usize) -> (usize, usize) {
    ((i % w as int) as usize, (i / w as int) as usize)
}

pub proof fn lemma_cell_at_index(p: (usize, usize), w: usize)
    requires
        p.0 < w,
    ensures
        cell_at(cell_index(p, w), w) == p,
{
    lemma_fundamental_div_mod_converse(cell_index(p, w), w as int, p.1 as int, p.0 as int);
}

pub proof fn lemma_index_of_cell_at(i: int, w: usize, h: usize)
    requires
        0 <= i < w as int * h as int,
        w as int * h as int <= usize::MAX,
    ensures
        cell_index(cell_at(i, w), w) == i,
        cell_at(i, w).0 < w,
        cell_at(i, w).1 < h,
{
    lemma_fundamental_div_mod(i, w as int);
    let q = i / w as int;
    let r = i % w as int;
    assert(0 <= q < h && q * w as int == w as int * q) by (nonlinear_arith)
        requires
            i == w as int * q + r,
            0 <= r < w,
            0 <= i < w as int * h as int,
    ;
}

/// A prefix one longer holds what the shorter one holds, and the new item.
pub proof fn lemma_take_one_more<T>(s: Seq<T>, k: int, x: T)
    requires
        0 <= k < s.len(),
    ensures
        s.take(k + 1).contains(x) == (s.take(k).contains(x) || s[k] == x),
{
    assert(s.take(k + 1) == s.take(k).push(s[k]));
    if s.take(k).contains(x) {
        let j = choose|j: int| 0 <= j < k && s.take(k)[j] == x;
        assert(s.take(k + 1)[j] == x);
    }
    if s[k] == x {
        assert(s.take(k + 1)[k] == x);
    }
}

/// Every cell of a `width` by `height` grid, row by row.
pub fn all_cells(width: usize, height: usize) -> (r: Vec<(usize, usize)>)
    requires
        width as int * height as int <= usize::MAX,
    ensures
        r@.len() == width as int * height as int,
        forall|j: int| 0 <= j < r@.len() ==> #[trigger] r@[j] == cell_at(j, width),
        r@.no_duplicates(),
        forall|k: int| 0 <= k < r@.len() ==> (#[trigger] r@[k]).0 < width && r@[k].1 < height,
{
    let mut r: Vec<(usize, usize)> = Vec::new();
    let mut y: usize = 0;
    while y < height
        invariant
            y <= height,
            width as int * height as int <= usize::MAX,
            r@.len() == y as int * width as int,
            forall|j: int| 0 <= j < r@.len() ==> #[trigger] r@[j] == cell_at(j, width),
        decreases height - y,
    {
        let mut x: usize = 0;
        while x < width
            invariant
                x <= width,
                y < height,
                width as int * height as int <= usize::MAX,
                r@.len() == y as int * width as int + x,
                forall|j: int| 0 <= j < r@.len() ==> #[trigger] r@[j] == cell_at(j, width),
            decreases width - x,
        {
            proof {
                lemma_cell_at_index((x, y), width);
                lemma_cell_index_bounds((x, y), width, height);
            }
            r.push((x, y));
            x += 1;
        }
        assert((y + 1) as int * width as int == y as int * width as int + width) by (nonlinear_arith);
        y += 1;
    }
    assert(height as int * width as int == width as int * height as int) by (nonlinear_arith);
    proof {
        assert forall|k: int| 0 <= k < r@.len() implies (#[trigger] r@[k]).0 < width && r@[k].1 < height by {
            lemma_index_of_cell_at(k, width, height);
        }
        assert forall|k1: int, k2: int| 0 <= k1 < r@.len() && 0 <= k2 < r@.len() && k1 != k2 implies r@[k1]
            != r@[k2] by {
            lemma_index_of_cell_at(k1, width, height);
            lemma_index_of_cell_at(k2, width, height);
        }
    }
    r
}

/// One flag per cell, row by row, set exactly on the border ring.
pub fn border_grid(width: usize, height: usize) -> (r: Vec<bool>)
    requires
        width as int * height as int <= usize::MAX,
    ensures
        r@.len() == width as int * height as int,
        count_open(r@) == interior_cells(width, height),
        forall|p: (usize, usize)|
            #![trigger cell_index(p, width)]
            p.0 < width && p.1 < height ==> r@[cell_index(p, width)] == border_cell(p, width, height),
{
    let mut r: Vec<bool> = Vec::new();
    let mut y: usize = 0;
    while y < height
        invariant
            y <= height,
            width as int * height as int <= usize::MAX,
            r@.len() == y as int * width as int,
            count_open(r@) == inner_before(height as int, y as int) * inner_before(width as int, width as int),
            forall|j: int|
                0 <= j < r@.len() ==> #[trigger] r@[j] == border_cell(cell_at(j, width), width, height),
        decreases height - y,
    {
        let mut x: usize = 0;
        while x < width
            invariant
                x <= width,
                y < height,
                width as int * height as int <= usize::MAX,
                r@.len() == y as int * width as int + x,
                count_open(r@) == inner_before(height as int, y as int) * inner_before(width as int, width as int)
                    + if 0 < y && y + 1 < height {
                    inner_before(width as int, x as int)
                } else {
                    0
                },
                forall|j: int|
                    0 <= j < r@.len() ==> #[trigger] r@[j] == border_cell(
                        cell_at(j, width),
                        width,
                        height,
                    ),
            decreases width - x,
        {
            proof {
                lemma_cell_at_index((x, y), width);
                lemma_cell_index_bounds((x, y), width, height);
            }
            let ghost before = r@;
            r.push(x == 0 || y == 0 || x + 1 == width || y + 1 == height);
            assert(r@.drop_last() == before);
            x += 1;
        }
        let ghost iw = inner_before(width as int, width as int);
        let ghost ih = inner_before(height as int, y as int);
        assert((ih + 1) * iw == ih * iw + iw) by (nonlinear_arith);
        assert((y + 1) as int * width as int == y as int * width as int + width) by (nonlinear_arith);
        y += 1;
    }
    assert(height as int * width as int == width as int * height as int) by (nonlinear_arith);
    proof {
        assert forall|p: (usize, usize)| p.0 < width && p.1 < height implies r@[cell_index(p, width)]
            == border_cell(p, width, height) by {
            lemma_cell_at_index(p, width);
            lemma_cell_index_bounds(p, width, height);
        }
    }
    assert(count_open(r@) == interior_cells(width, height)) by (nonlinear_arith)
        requires
            count_open(r@) == inner_before(height as int, height as int) * inner_before(width as int, width as int),
    ;
    r
}

/// Sets the flag of every listed cell that lies inside the grid.
pub fn mark_cells(grid: Vec<bool>, width: usize, height: usize, cells: &Vec<(usize, usize)>) -> (r: Vec<bool>)
    requires
        grid@.len() == width as int * height as int,
        width as int * height as int <= usize::MAX,
    ensures
        r@.len() == grid@.len(),
        forall|p: (usize, usize)|
            #![trigger cell_index(p, width)]
            p.0 < width && p.1 < height ==> r@[cell_index(p, width)] == (grid@[cell_index(p, width)]
                || cells@.contains(p)),
{
    let ghost w0 = grid@;
    let mut walls = grid;
    let n = cells.len();
    let mut k: usize = 0;
    while k < n
        invariant
            k <= n,
            n == cells@.len(),
            walls@.len() == w0.len(),
            walls@.len() == width as int * height as int,
            width as int * height as int <= usize::MAX,
            forall|p: (usize, usize)|
                #![trigger cell_index(p, width)]
                p.0 < width && p.1 < height ==> walls@[cell_index(p, width)] == (w0[cell_index(p, width)]
                    || cells@.take(k as int).contains(p)),
        decreases n - k,
    {
        let c = cells[k];
        let ghost prev = walls@;
        if c.0 < width && c.1 < height {
            proof {
                lemma_cell_index_bounds(c, width, height);
            }
            walls.set(c.1 * width + c.0, true);
            proof {
                assert forall|p: (usize, usize)| p.0 < width && p.1 < height implies walls@[cell_index(p, width)]
                    == (w0[cell_index(p, width)] || cells@.take(k + 1).contains(p)) by {
                    lemma_cell_index_bounds(p, width, height);
                    lemma_take_one_more(cells@, k as int, p);
                    if p != c {
                        if cell_index(p, width) == cell_index(c, width) {
                            lemma_cell_index_injective(p, c, width);
                        }
                        assert(walls@[cell_index(p, width)] == prev[cell_index(p, width)]);
                    }
                }
            }
        } else {
            proof {
                assert forall|p: (usize, usize)| p.0 < width && p.1 < height implies walls@[cell_index(p, width)]
                    == (w0[cell_index(p, width)] || cells@.take(k + 1).contains(p)) by {
                    lemma_take_one_more(cells@, k as int, p);
                }
            }
        }
        k += 1;
    }
    assert(cells@.take(n as int) == cells@);
    walls
}


/// First coordinate an obstacle can reach: `c - r`, floored at zero.
pub open spec fn span_lo(c: usize, r: usize) -> int {
    if c as int >= r as int {
        c as int - r as int
    } else {
        0
    }
}

/// End (exclusive) of an obstacle's reach: `c + r + 1`, capped at `dim - 1`
/// so that the far border line is left to the border ring.
pub open spec fn span_hi(c: usize, r: usize, dim: usize) -> int {
    if c as int + r as int + 1 <= dim as int - 1 {
        c as int + r as int + 1
    } else {
        dim as int - 1
    }
}

/// Whether `p` is covered by a round obstacle at `center` of `radius`: it
/// lies within Euclidean distance `radius` of the center, short of the far
/// border lines of a `w` by `h` grid.
pub open spec fn in_circle(p: (usize, usize), center: (usize, usize), radius: usize, w: usize, h: usize) -> bool {
    let dx = p.0 as int - center.0 as int;
    let dy = p.1 as int - center.1 as int;
    &&& p.0 + 1 < w
    &&& p.1 + 1 < h
    &&& dx * dx + dy * dy <= radius as int * radius as int
}

/// A covered cell lies in the obstacle's span on both axes.
proof fn lemma_circle_in_span(p: (usize, usize), center: (usize, usize), radius: usize, w: usize, h: usize)
    requires
        in_circle(p, center, radius, w, h),
    ensures
        span_lo(center.0, radius) <= p.0 < span_hi(center.0, radius, w),
        span_lo(center.1, radius) <= p.1 < span_hi(center.1, radius, h),
{
    let dx = p.0 as int - center.0 as int;
    let dy = p.1 as int - center.1 as int;
    let r = radius as int;
    assert(-r <= dx <= r && -r <= dy <= r) by (nonlinear_arith)
        requires
            dx * dx + dy * dy <= r * r,
            r >= 0,
    ;
}

/// `c - r`, floored at zero.
fn span_start(c: usize, r: usize) -> (s: usize)
    ensures
        s == span_lo(c, r),
{
    if c >= r {
        c - r
    } else {
        0
    }
}

/// `c + r + 1`, capped at `dim - 1`.
fn span_end(c: usize, r: usize, dim: usize) -> (e: usize)
    requires
        dim >= 1,
    ensures
        e == span_hi(c, r, dim),
{
    if c >= dim - 1 || r >= (dim - 1) - c {
        dim - 1
    } else {
        c + r + 1
    }
}

/// Distance between two coordinates, squared.
fn gap_squared(a: usize, b: usize) -> (r: u128)
    ensures
        r as int == (a as int - b as int) * (a as int - b as int),
{
    let d: u128 = if a >= b {
        (a - b) as u128
    } else {
        (b - a) as u128
    };
    assert(d * d <= u128::MAX) by (nonlinear_arith)
        requires
            d <= usize::MAX,
            usize::MAX <= u64::MAX,
    ;
    assert(d * d == (a as int - b as int) * (a as int - b as int)) by (nonlinear_arith)
        requires
            d == a - b || d == b - a,
    ;
    d * d
}

/// The cells covered by a round obstacle at `center` of `radius` (see
/// [`in_circle`]), row by row.
pub fn get_circle_indices(center: (usize, usize), radius: usize, width: usize, height: usize) -> (r: Vec<(usize, usize)>)
    requires
        radius >= 1,
        width >= 1,
        height >= 1,
    ensures
        forall|k: int| 0 <= k < r@.len() ==> in_circle(#[trigger] r@[k], center, radius, width, height),
        forall|p: (usize, usize)|
            #![trigger in_circle(p, center, radius, width, height)]
            in_circle(p, center, radius, width, height) ==> r@.contains(p),
{
    let mut indices: Vec<(usize, usize)> = Vec::new();
    let rr: u128 = radius as u128;
    assert(rr * rr <= u128::MAX) by (nonlinear_arith)
        requires
            rr <= usize::MAX,
            usize::MAX <= u64::MAX,
    ;
    let r2: u128 = rr * rr;
    let lo_x = span_start(center.0, radius);
    let hi_x = span_end(center.0, radius, width);
    let lo_y = span_start(center.1, radius);
    let hi_y = span_end(center.1, radius, height);
    let mut y: usize = lo_y;
    proof {
        assert forall|p: (usize, usize)|
            #![trigger in_circle(p, center, radius, width, height)]
            in_circle(p, center, radius, width, height) && p.1 < y implies indices@.contains(p) by {
            lemma_circle_in_span(p, center, radius, width, height);
        }
    }
    while y < hi_y
        invariant
            lo_x == span_lo(center.0, radius),
            hi_x == span_hi(center.0, radius, width),
            lo_y == span_lo(center.1, radius),
            hi_y == span_hi(center.1, radius, height),
            hi_x <= width - 1,
            r2 == radius as int * radius as int,
            forall|k: int|
                0 <= k < indices@.len() ==> in_circle(#[trigger] indices@[k], center, radius, width, height),
            forall|p: (usize, usize)|
                #![trigger in_circle(p, center, radius, width, height)]
                in_circle(p, center, radius, width, height) && p.1 < y ==> indices@.contains(p),
        decreases hi_y - y,
    {
        let mut x: usize = lo_x;
        proof {
            assert forall|p: (usize, usize)|
                #![trigger in_circle(p, center, radius, width, height)]
                in_circle(p, center, radius, width, height) && (p.1 < y || (p.1 == y && p.0 < x))
                    implies indices@.contains(p) by {
                lemma_circle_in_span(p, center, radius, width, height);
            }
        }
        while x < hi_x
            invariant
                y < hi_y,
                hi_y <= height - 1,
                lo_x == span_lo(center.0, radius),
                hi_x == span_hi(center.0, radius, width),
                lo_y == span_lo(center.1, radius),
                hi_y == span_hi(center.1, radius, height),
                hi_x <= width - 1,
                r2 == radius as int * radius as int,
                forall|k: int|
                    0 <= k < indices@.len() ==> in_circle(#[trigger] indices@[k], center, radius, width, height),
                forall|p: (usize, usize)|
                    #![trigger in_circle(p, center, radius, width, height)]
                    in_circle(p, center, radius, width, height) && (p.1 < y || (p.1 == y && p.0 < x))
                        ==> indices@.contains(p),
            decreases hi_x - x,
        {
            let dx2 = gap_squared(x, center.0);
            let dy2 = gap_squared(y, center.1);
            let ghost before = indices@;
            if dx2 <= r2 && dy2 <= r2 - dx2 {
                indices.push((x, y));
                proof {
                    assert(indices@[before.len() as int] == (x, y));
                    assert forall|p: (usize, usize)|
                        #![trigger in_circle(p, center, radius, width, height)]
                        in_circle(p, center, radius, width, height) && (p.1 < y || (p.1 == y && p.0 < x + 1))
                            implies indices@.contains(p) by {
                        if p != (x, y) {
                            assert(before.contains(p));
                            let i = choose|i: int| 0 <= i < before.len() && before[i] == p;
                            assert(indices@[i] == p);
                        }
                    }
                }
            }
            x += 1;
        }
        proof {
            assert forall|p: (usize, usize)|
                #![trigger in_circle(p, center, radius, width, height)]
                in_circle(p, center, radius, width, height) && p.1 < y + 1 implies indices@.contains(p) by {
                lemma_circle_in_span(p, center, radius, width, height);
            }
        }
        y += 1;
    }
    proof {
        assert forall|p: (usize, usize)|
            #![trigger in_circle(p, center, radius, width, height)]
            in_circle(p, center, radius, width, height) implies indices@.contains(p) by {
            lemma_circle_in_span(p, center, radius, width, height);
        }
    }
    indices
}

/// One flag per cell, set on the border ring and on every cell covered by
/// one of the `obstacles`, each a center and a radius.
pub fn wall_grid(width: usize, height: usize, obstacles: &Vec<((usize, usize), usize)>) -> (r: Vec<bool>)
    requires
        width >= 1,
        height >= 1,
        width as int * height as int <= usize::MAX,
        forall|i: int| 0 <= i < obstacles@.len() ==> (#[trigger] obstacles@[i]).1 >= 1,
    ensures
        r@.len() == width as int * height as int,
        obstacles@.len() == 0 ==> count_open(r@) == interior_cells(width, height),
        forall|p: (usize, usize)|
            #![trigger cell_index(p, width)]
            p.0 < width && p.1 < height ==> r@[cell_index(p, width)] == (border_cell(p, width, height)
                || exists|i: int|
                0 <= i < obstacles@.len() && in_circle(
                    p,
                    #[trigger] obstacles@[i].0,
                    obstacles@[i].1,
                    width,
                    height,
                )),
{
    let mut walls = border_grid(width, height);
    let n = obstacles.len();
    let mut k: usize = 0;
    while k < n
        invariant
            k <= n,
            n == obstacles@.len(),
            width >= 1,
            height >= 1,
            width as int * height as int <= usize::MAX,
            forall|i: int| 0 <= i < obstacles@.len() ==> (#[trigger] obstacles@[i]).1 >= 1,
            walls@.len() == width as int * height as int,
            n == 0 ==> count_open(walls@) == interior_cells(width, height),
            forall|p: (usize, usize)|
                #![trigger cell_index(p, width)]
                p.0 < width && p.1 < height ==> walls@[cell_index(p, width)] == (border_cell(p, width, height)
                    || exists|i: int|
                    0 <= i < k && in_circle(
                        p,
                        #[trigger] obstacles@[i].0,
                        obstacles@[i].1,
                        width,
                        height,
                    )),
        decreases n - k,
    {
        let (center, radius) = obstacles[k];
        let cells = get_circle_indices(center, radius, width, height);
        let ghost prev = walls@;
        walls = mark_cells(walls, width, height, &cells);
        proof {
            assert forall|p: (usize, usize)|
                #![trigger cell_index(p, width)]
                p.0 < width && p.1 < height implies walls@[cell_index(p, width)] == (border_cell(
                    p,
                    width,
                    height,
                ) || exists|i: int|
                    0 <= i < k + 1 && in_circle(
                        p,
                        #[trigger] obstacles@[i].0,
                        obstacles@[i].1,
                        width,
                        height,
                    )) by {
                if cells@.contains(p) {
                    let j = choose|j: int| 0 <= j < cells@.len() && cells@[j] == p;
                    assert(in_circle(cells@[j], center, radius, width, height));
                    assert(obstacles@[k as int].0 == center);
                }
                if in_circle(p, center, radius, width, height) {
                    assert(cells@.contains(p));
                }
                if exists|i: int|
                    0 <= i < k + 1 && in_circle(p, #[trigger] obstacles@[i].0, obstacles@[i].1, width, height) {
                    let i = choose|i: int|
                        0 <= i < k + 1 && in_circle(p, #[trigger] obstacles@[i].0, obstacles@[i].1, width, height);
                    if i < k {
                        assert(prev[cell_index(p, width)]);
                    } else {
                        assert(cells@.contains(p));
                    }
                }
            }
        }
        k += 1;
    }
    walls
}


/// Number of unset flags in `s`.
pub open spec fn count_open(s: Seq<bool>) -> nat
    decreases s.len(),
{
    if s.len() == 0 {
        0
    } else {
        count_open(s.drop_last()) + if s.last() {
            0nat
        } else {
            1nat
        }
    }
}

/// The cells whose flag is unset, row by row.
pub fn free_cells(walls: &Vec<bool>, width: usize, height: usize) -> (r: Vec<(usize, usize)>)
    requires
        width >= 1,
        walls@.len() == width as int * height as int,
        width as int * height as int <= usize::MAX,
    ensures
        r@.len() == count_open(walls@),
        r@.no_duplicates(),
        forall|k: int|
            0 <= k < r@.len() ==> {
                let c = #[trigger] r@[k];
                c.0 < width && c.1 < height && !walls@[cell_index(c, width)]
            },
        forall|p: (usize, usize)|
            #![trigger cell_index(p, width)]
            p.0 < width && p.1 < height && !walls@[cell_index(p, width)] ==> r@.contains(p),
{
    let mut r: Vec<(usize, usize)> = Vec::new();
    let n = walls.len();
    let mut i: usize = 0;
    while i < n
        invariant
            i <= n,
            n == walls@.len(),
            width >= 1,
            walls@.len() == width as int * height as int,
            width as int * height as int <= usize::MAX,
            r@.len() == count_open(walls@.take(i as int)),
            forall|k: int|
                0 <= k < r@.len() ==> {
                    let c = #[trigger] r@[k];
                    c.0 < width && c.1 < height && !walls@[cell_index(c, width)] && cell_index(c, width) < i
                },
            forall|k1: int, k2: int|
                0 <= k1 < k2 < r@.len() ==> cell_index(#[trigger] r@[k1], width) < cell_index(
                    #[trigger] r@[k2],
                    width,
                ),
            forall|p: (usize, usize)|
                #![trigger cell_index(p, width)]
                p.0 < width && p.1 < height && !walls@[cell_index(p, width)] && cell_index(p, width) < i
                    ==> r@.contains(p),
        decreases n - i,
    {
        assert(walls@.take(i + 1).drop_last() == walls@.take(i as int));
        proof {
            lemma_index_of_cell_at(i as int, width, height);
        }
        if !walls[i] {
            let c = (i % width, i / width);
            assert(c == cell_at(i as int, width));
            let ghost before = r@;
            r.push(c);
            proof {
                assert forall|p: (usize, usize)|
                    #![trigger cell_index(p, width)]
                    p.0 < width && p.1 < height && !walls@[cell_index(p, width)] && cell_index(p, width) < i + 1
                        implies r@.contains(p) by {
                    if cell_index(p, width) == i {
                        lemma_cell_index_injective(p, c, width);
                        assert(r@[before.len() as int] == c);
                    } else {
                        assert(before.contains(p));
                        let j = choose|j: int| 0 <= j < before.len() && before[j] == p;
                        assert(r@[j] == p);
                    }
                }
            }
        }
        i += 1;
    }
    assert(walls@.take(n as int) == walls@);
    proof {
        assert forall|p: (usize, usize)|
            #![trigger cell_index(p, width)]
            p.0 < width && p.1 < height && !walls@[cell_index(p, width)] implies r@.contains(p) by {
            lemma_cell_index_bounds(p, width, height);
        }
        assert forall|k1: int, k2: int| 0 <= k1 < r@.len() && 0 <= k2 < r@.len() && k1 != k2 implies r@[k1]
            != r@[k2] by {
            if k1 < k2 {
                assert(cell_index(r@[k1], width) < cell_index(r@[k2], width));
            } else {
                assert(cell_index(r@[k2], width) < cell_index(r@[k1], width));
            }
        }
    }
    r
}

/// `cells` without `c`.
pub fn without_cell(cells: &Vec<(usize, usize)>, c: (usize, usize)) -> (r: Vec<(usize, usize)>)
    requires
        cells@.no_duplicates(),
    ensures
        r@.no_duplicates(),
        r@.len() == cells@.len() - if cells@.contains(c) {
            1int
        } else {
            0int
        },
        forall|q: (usize, usize)| #[trigger] r@.contains(q) == (cells@.contains(q) && q != c),
{
    let mut r: Vec<(usize, usize)> = Vec::new();
    let n = cells.len();
    let mut i: usize = 0;
    while i < n
        invariant
            i <= n,
            n == cells@.len(),
            cells@.no_duplicates(),
            r@.no_duplicates(),
            r@.len() == i - if cells@.take(i as int).contains(c) {
                1int
            } else {
                0int
            },
            forall|q: (usize, usize)| #[trigger] r@.contains(q) == (cells@.take(i as int).contains(q) && q != c),
        decreases n - i,
    {
        let e = cells[i];
        proof {
            lemma_take_one_more(cells@, i as int, c);
            assert forall|q: (usize, usize)| #[trigger] cells@.take(i + 1).contains(q) == (cells@.take(
                i as int,
            ).contains(q) || cells@[i as int] == q) by {
                lemma_take_one_more(cells@, i as int, q);
            }
            if cells@.take(i as int).contains(e) {
                let j = choose|j: int| 0 <= j < i && cells@.take(i as int)[j] == e;
                assert(cells@[j] == cells@[i as int]);
            }
        }
        if !same_cell(e, c) {
            let ghost before = r@;
            r.push(e);
            proof {
                assert forall|q: (usize, usize)| #[trigger] r@.contains(q) == (before.contains(q) || q == e) by {
                    if before.contains(q) {
                        let j = choose|j: int| 0 <= j < before.len() && before[j] == q;
                        assert(r@[j] == q);
                    }
                    if q == e {
                        assert(r@[before.len() as int] == e);
                    }
                }
                assert forall|k1: int, k2: int| 0 <= k1 < r@.len() && 0 <= k2 < r@.len() && k1 != k2 implies r@[k1]
                    != r@[k2] by {
                    if k1 < before.len() && k2 < before.len() {
                        assert(before[k1] != before[k2]);
                    } else if k1 < before.len() {
                        assert(before.contains(before[k1]));
                    } else if k2 < before.len() {
                        assert(before.contains(before[k2]));
                    }
                }
            }
        }
        i += 1;
    }
    assert(cells@.take(n as int) == cells@);
    r
}

} // verus!
