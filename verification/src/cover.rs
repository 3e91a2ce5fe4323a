//! The colours of a cover, averaged into a small grid.

use vstd::prelude::*;

verus! {

/// Side of the grid.
pub const MATRIX_N: usize = 6;

/// Cells of the grid.
pub const MATRIX_CELLS: usize = 36;

/// Average colour and number of opaque pixels of each cell of a six by six grid
/// laid over a cover, row by row.
#[derive(Debug, Clone, Copy, PartialEq, Eq)]
pub struct CoverColorMatrix {
    pub cells: [[u8; 3]; 36],
    pub populations: [u32; 36],
}

/// The `p`-th pixel is opaque enough to count.
pub open spec fn opaque(rgba: Seq<u8>, p: int) -> bool {
    rgba[p * 4 + 3] >= 16
}

/// What a pixel adds: its red, green or blue for `k` below 3, one for `k` equal
/// to 3; nothing if it is not opaque.
pub open spec fn share(rgba: Seq<u8>, width: int, x: int, y: int, k: int) -> int {
    if !opaque(rgba, y * width + x) {
        0
    } else if k == 3 {
        1
    } else {
        rgba[(y * width + x) * 4 + k] as int
    }
}

/// What the pixels from `x0` to `x1` of row `y` add.
pub open spec fn row_total(rgba: Seq<u8>, width: int, y: int, x0: int, x1: int, k: int) -> int
    decreases x1 - x0,
{
    if x1 <= x0 {
        0
    } else {
        row_total(rgba, width, y, x0, x1 - 1, k) + share(rgba, width, x1 - 1, y, k)
    }
}

/// What the pixels of a rectangle add.
pub open spec fn area_total(
    rgba: Seq<u8>,
    width: int,
    x0: int,
    x1: int,
    y0: int,
    y1: int,
    k: int,
) -> int
    decreases y1 - y0,
{
    if y1 <= y0 {
        0
    } else {
        area_total(rgba, width, x0, x1, y0, y1 - 1, k) + row_total(
            rgba,
            width,
            y1 - 1,
            x0,
            x1,
            k,
        )
    }
}

/// What the pixels of cell `idx` add.
pub open spec fn cell_total(rgba: Seq<u8>, width: int, height: int, idx: int, k: int) -> int {
    let cx = idx % 6;
    let cy = idx / 6;
    area_total(
        rgba,
        width,
        cx * width / 6,
        (cx + 1) * width / 6,
        cy * height / 6,
        (cy + 1) * height / 6,
        k,
    )
}

/// A cell: the number of its opaque pixels and their average, or black if it
/// has none.
pub open spec fn cell_is(
    rgba: Seq<u8>,
    width: int,
    height: int,
    idx: int,
    color: [u8; 3],
    population: u32,
) -> bool {
    let count = cell_total(rgba, width, height, idx, 3);
    &&& population == count
    &&& forall|k: int|
        0 <= k < 3 ==> #[trigger] color@[k] == (if count > 0 {
            cell_total(rgba, width, height, idx, k) / count
        } else {
            0
        })
}

/// There is something to average: the image has a size, the bytes suffice for
/// it, and some pixel is opaque.
pub open spec fn has_colors(rgba: Seq<u8>, width: int, height: int) -> bool {
    &&& width > 0
    &&& height > 0
    &&& rgba.len() >= width * height * 4
    &&& exists|p: int| 0 <= p < width * height && #[trigger] opaque(rgba, p)
}

/// The matrix of an image.
pub open spec fn averages(rgba: Seq<u8>, width: int, height: int, m: CoverColorMatrix) -> bool {
    forall|idx: int|
        0 <= idx < 36 ==> cell_is(
            rgba,
            width,
            height,
            idx,
            #[trigger] m.cells@[idx],
            m.populations@[idx],
        )
}

/// The matrix of an image, if it has colours.
pub open spec fn is_matrix_of(
    rgba: Seq<u8>,
    width: int,
    height: int,
    r: Option<CoverColorMatrix>,
) -> bool {
    &&& r is Some <==> has_colors(rgba, width, height)
    &&& r is Some ==> averages(rgba, width, height, r->0)
}

proof fn lemma_row_bounds(rgba: Seq<u8>, width: int, y: int, x0: int, x1: int, k: int)
    requires
        0 <= k <= 3,
        x0 <= x1,
    ensures
        0 <= row_total(rgba, width, y, x0, x1, 3) <= x1 - x0,
        0 <= row_total(rgba, width, y, x0, x1, k) <= 255 * row_total(
            rgba,
            width,
            y,
            x0,
            x1,
            3,
        ),
    decreases x1 - x0,
{
    if x0 < x1 {
        lemma_row_bounds(rgba, width, y, x0, x1 - 1, k);
    }
}

proof fn lemma_area_bounds(
    rgba: Seq<u8>,
    width: int,
    x0: int,
    x1: int,
    y0: int,
    y1: int,
    k: int,
)
    requires
        0 <= k <= 3,
        x0 <= x1,
        y0 <= y1,
    ensures
        0 <= area_total(rgba, width, x0, x1, y0, y1, 3) <= (x1 - x0) * (y1 - y0),
        0 <= area_total(rgba, width, x0, x1, y0, y1, k) <= 255 * area_total(
            rgba,
            width,
            x0,
            x1,
            y0,
            y1,
            3,
        ),
    decreases y1 - y0,
{
    if y0 < y1 {
        lemma_area_bounds(rgba, width, x0, x1, y0, y1 - 1, k);
        lemma_row_bounds(rgba, width, y1 - 1, x0, x1, k);
        assert((x1 - x0) * (y1 - y0) == (x1 - x0) * (y1 - 1 - y0) + (x1 - x0)) by (nonlinear_arith);
    }
}

proof fn lemma_pixel_in_range(width: int, height: int, x: int, y: int)
    by (nonlinear_arith)
    requires
        0 <= x < width,
        0 <= y < height,
    ensures
        0 <= y * width,
        0 <= y * width + x < width * height,
        (y * width + x) * 4 + 3 < width * height * 4,
{
}

/// The totals of the pixels from `x0` to `x1` of row `y`, as red, green, blue
/// and count.
fn sum_row(rgba: &[u8], width: usize, y: usize, x0: usize, x1: usize, height: Ghost<int>) -> (r: (
    u64,
    u64,
    u64,
    u64,
))
    requires
        x0 <= x1 <= width,
        y < height@,
        width <= u32::MAX,
        width * height@ * 4 <= rgba@.len() <= usize::MAX,
    ensures
        r.0 == row_total(rgba@, width as int, y as int, x0 as int, x1 as int, 0),
        r.1 == row_total(rgba@, width as int, y as int, x0 as int, x1 as int, 1),
        r.2 == row_total(rgba@, width as int, y as int, x0 as int, x1 as int, 2),
        r.3 == row_total(rgba@, width as int, y as int, x0 as int, x1 as int, 3),
{
    let mut red: u64 = 0;
    let mut green: u64 = 0;
    let mut blue: u64 = 0;
    let mut count: u64 = 0;
    let mut x: usize = x0;
    while x < x1
        invariant
            x0 <= x <= x1 <= width,
            y < height@,
            width <= u32::MAX,
            width * height@ * 4 <= rgba@.len() <= usize::MAX,
            red == row_total(rgba@, width as int, y as int, x0 as int, x as int, 0),
            green == row_total(rgba@, width as int, y as int, x0 as int, x as int, 1),
            blue == row_total(rgba@, width as int, y as int, x0 as int, x as int, 2),
            count == row_total(rgba@, width as int, y as int, x0 as int, x as int, 3),
        decreases x1 - x,
    {
        proof {
            lemma_pixel_in_range(width as int, height@, x as int, y as int);
            lemma_row_bounds(rgba@, width as int, y as int, x0 as int, x as int, 0);
            lemma_row_bounds(rgba@, width as int, y as int, x0 as int, x as int, 1);
            lemma_row_bounds(rgba@, width as int, y as int, x0 as int, x as int, 2);
        }
        let o: usize = (y * width + x) * 4;
        if rgba[o + 3] >= 16 {
            red = red + rgba[o] as u64;
            green = green + rgba[o + 1] as u64;
            blue = blue + rgba[o + 2] as u64;
            count = count + 1;
        }
        x = x + 1;
    }
    (red, green, blue, count)
}

/// The totals of the pixels of a rectangle.
fn sum_area(
    rgba: &[u8],
    width: usize,
    height: usize,
    x0: usize,
    x1: usize,
    y0: usize,
    y1: usize,
) -> (r: (u64, u64, u64, u64))
    requires
        x0 <= x1 <= width,
        y0 <= y1 <= height,
        width <= u32::MAX,
        width * height * 4 <= rgba@.len() <= usize::MAX,
        (x1 - x0) * (y1 - y0) <= u32::MAX,
    ensures
        r.0 == area_total(rgba@, width as int, x0 as int, x1 as int, y0 as int, y1 as int, 0),
        r.1 == area_total(rgba@, width as int, x0 as int, x1 as int, y0 as int, y1 as int, 1),
        r.2 == area_total(rgba@, width as int, x0 as int, x1 as int, y0 as int, y1 as int, 2),
        r.3 == area_total(rgba@, width as int, x0 as int, x1 as int, y0 as int, y1 as int, 3),
{
    let mut red: u64 = 0;
    let mut green: u64 = 0;
    let mut blue: u64 = 0;
    let mut count: u64 = 0;
    let mut y: usize = y0;
    while y < y1
        invariant
            x0 <= x1 <= width,
            y0 <= y <= y1 <= height,
            width <= u32::MAX,
            width * height * 4 <= rgba@.len() <= usize::MAX,
            (x1 - x0) * (y1 - y0) <= u32::MAX,
            red == area_total(rgba@, width as int, x0 as int, x1 as int, y0 as int, y as int, 0),
            green == area_total(rgba@, width as int, x0 as int, x1 as int, y0 as int, y as int, 1),
            blue == area_total(rgba@, width as int, x0 as int, x1 as int, y0 as int, y as int, 2),
            count == area_total(rgba@, width as int, x0 as int, x1 as int, y0 as int, y as int, 3),
        decreases y1 - y,
    {
        let (r, g, b, n) = sum_row(rgba, width, y, x0, x1, Ghost(height as int));
        proof {
            let (w, a, b0) = (width as int, x0 as int, x1 as int);
            lemma_area_bounds(rgba@, w, a, b0, y0 as int, y as int + 1, 0);
            lemma_area_bounds(rgba@, w, a, b0, y0 as int, y as int + 1, 1);
            lemma_area_bounds(rgba@, w, a, b0, y0 as int, y as int + 1, 2);
            assert((x1 - x0) * (y + 1 - y0) <= (x1 - x0) * (y1 - y0)) by (nonlinear_arith)
                requires
                    x0 <= x1,
                    y + 1 <= y1,
            ;
        }
        red = red + r;
        green = green + g;
        blue = blue + b;
        count = count + n;
        y = y + 1;
    }
    (red, green, blue, count)
}

proof fn lemma_cell_edges(c: int, n: int)
    requires
        0 <= c < 6,
        0 <= n,
    ensures
        0 <= c * n / 6 <= (c + 1) * n / 6 <= n,
        (c + 1) * n / 6 - c * n / 6 <= n / 6 + 1,
{
    assert((c + 1) * n == c * n + n) by (nonlinear_arith);
    assert(0 <= c * n) by (nonlinear_arith)
        requires
            0 <= c,
            0 <= n,
    ;
    assert((c + 1) * n <= 6 * n) by (nonlinear_arith)
        requires
            c < 6,
            0 <= n,
    ;
}

impl CoverColorMatrix {
    /// Averages an image of `width` by `height` pixels, four bytes each. `None`
    /// if it has no size, the bytes do not suffice or no pixel is opaque.
    pub fn from_rgba(rgba: &[u8], width: u32, height: u32) -> (r: Option<CoverColorMatrix>)
        requires
            rgba@.len() >= width * height * 4 ==> (width / 6 + 1) * (height / 6 + 1) <= u32::MAX,
        ensures
            is_matrix_of(rgba@, width as int, height as int, r),
    {
        if width == 0 || height == 0 {
            return None;
        }
        proof {
            assert(0 <= width * height <= 0xffff_ffff * 0xffff_ffff) by (nonlinear_arith)
                requires
                    0 <= width <= 0xffff_ffff,
                    0 <= height <= 0xffff_ffff,
            ;
        }
        let needed: u128 = width as u128 * height as u128 * 4;
        let bytes: usize = rgba.len();
        assert(bytes == rgba@.len());
        if (bytes as u128) < needed {
            return None;
        }
        let w: usize = width as usize;
        let h: usize = height as usize;
        let mut cells: [[u8; 3]; 36] = [[0u8; 3]; 36];
        let mut populations: [u32; 36] = [0u32; 36];
        let mut any = false;
        let mut idx: usize = 0;
        while idx < 36
            invariant
                0 <= idx <= 36,
                w == width,
                h == height,
                width > 0,
                height > 0,
                (width / 6 + 1) * (height / 6 + 1) <= u32::MAX,
                width * height * 4 <= rgba@.len() <= usize::MAX,
                any <==> exists|i: int|
                    0 <= i < idx && #[trigger] cell_total(
                        rgba@,
                        width as int,
                        height as int,
                        i,
                        3,
                    ) > 0,
                forall|i: int|
                    0 <= i < idx ==> cell_is(
                        rgba@,
                        width as int,
                        height as int,
                        i,
                        #[trigger] cells@[i],
                        populations@[i],
                    ),
            decreases 36 - idx,
        {
            let cx: usize = idx % 6;
            let cy: usize = idx / 6;
            proof {
                lemma_cell_edges(cx as int, width as int);
                lemma_cell_edges(cy as int, height as int);
            }
            let x0: usize = (cx as u64 * width as u64 / 6) as usize;
            let x1: usize = ((cx as u64 + 1) * width as u64 / 6) as usize;
            let y0: usize = (cy as u64 * height as u64 / 6) as usize;
            let y1: usize = ((cy as u64 + 1) * height as u64 / 6) as usize;
            proof {
                assert((x1 - x0) * (y1 - y0) <= (width / 6 + 1) * (height / 6 + 1))
                    by (nonlinear_arith)
                    requires
                        0 <= x1 - x0 <= width / 6 + 1,
                        0 <= y1 - y0 <= height / 6 + 1,
                ;
            }
            let (red, green, blue, count) = sum_area(rgba, w, h, x0, x1, y0, y1);
            proof {
                let (wi, a, b, c, d) = (width as int, x0 as int, x1 as int, y0 as int, y1 as int);
                lemma_area_bounds(rgba@, wi, a, b, c, d, 0);
                lemma_area_bounds(rgba@, wi, a, b, c, d, 1);
                lemma_area_bounds(rgba@, wi, a, b, c, d, 2);
            }
            if count > 0 {
                proof {
                    lemma_average_fits(red as int, count as int);
                    lemma_average_fits(green as int, count as int);
                    lemma_average_fits(blue as int, count as int);
                }
                cells[idx] = [(red / count) as u8, (green / count) as u8, (blue / count) as u8];
                populations[idx] = count as u32;
                any = true;
            } else {
                cells[idx] = [0, 0, 0];
                populations[idx] = 0;
            }
            proof {
                assert(cell_total(rgba@, width as int, height as int, idx as int, 3) == count);
            }
            idx = idx + 1;
        }
        proof {
            lemma_some_cell_counts(rgba@, width as int, height as int);
        }
        if !any {
            return None;
        }
        Some(CoverColorMatrix { cells, populations })
    }
}

proof fn lemma_row_counts(rgba: Seq<u8>, width: int, y: int, x0: int, x1: int, x: int)
    requires
        x0 <= x1,
    ensures
        x0 <= x < x1 && opaque(rgba, y * width + x) ==> row_total(rgba, width, y, x0, x1, 3) > 0,
        row_total(rgba, width, y, x0, x1, 3) > 0 ==> exists|i: int|
            x0 <= i < x1 && #[trigger] opaque(rgba, y * width + i),
    decreases x1 - x0,
{
    if x0 < x1 {
        lemma_row_counts(rgba, width, y, x0, x1 - 1, x);
        lemma_row_bounds(rgba, width, y, x0, x1 - 1, 3);
        if row_total(rgba, width, y, x0, x1, 3) > 0 {
            if row_total(rgba, width, y, x0, x1 - 1, 3) > 0 {
                let i = choose|i: int|
                    x0 <= i < x1 - 1 && #[trigger] opaque(rgba, y * width + i);
                assert(opaque(rgba, y * width + i));
            } else {
                assert(opaque(rgba, y * width + (x1 - 1)));
            }
        }
    }
}

proof fn lemma_area_counts(
    rgba: Seq<u8>,
    width: int,
    x0: int,
    x1: int,
    y0: int,
    y1: int,
    x: int,
    y: int,
)
    requires
        x0 <= x1,
        y0 <= y1,
    ensures
        x0 <= x < x1 && y0 <= y < y1 && opaque(rgba, y * width + x) ==> area_total(
            rgba,
            width,
            x0,
            x1,
            y0,
            y1,
            3,
        ) > 0,
        area_total(rgba, width, x0, x1, y0, y1, 3) > 0 ==> exists|i: int, j: int|
            x0 <= i < x1 && y0 <= j < y1 && #[trigger] opaque(rgba, j * width + i),
    decreases y1 - y0,
{
    if y0 < y1 {
        lemma_area_counts(rgba, width, x0, x1, y0, y1 - 1, x, y);
        lemma_area_bounds(rgba, width, x0, x1, y0, y1 - 1, 3);
        lemma_row_counts(rgba, width, y1 - 1, x0, x1, x);
        lemma_row_bounds(rgba, width, y1 - 1, x0, x1, 3);
        if area_total(rgba, width, x0, x1, y0, y1, 3) > 0 {
            if area_total(rgba, width, x0, x1, y0, y1 - 1, 3) > 0 {
                let (i, j) = choose|i: int, j: int|
                    x0 <= i < x1 && y0 <= j < y1 - 1 && #[trigger] opaque(rgba, j * width + i);
                assert(opaque(rgba, j * width + i));
            } else {
                let i = choose|i: int|
                    x0 <= i < x1 && #[trigger] opaque(rgba, (y1 - 1) * width + i);
                assert(opaque(rgba, (y1 - 1) * width + i));
            }
        }
    }
}

/// The strip of six that a row or column belongs to.
proof fn lemma_strip(x: int, n: int) -> (c: int)
    requires
        0 <= x < n,
    ensures
        0 <= c < 6,
        c * n / 6 <= x < (c + 1) * n / 6,
{
    let c: int = if x < n / 6 {
        0
    } else if x < 2 * n / 6 {
        1
    } else if x < 3 * n / 6 {
        2
    } else if x < 4 * n / 6 {
        3
    } else if x < 5 * n / 6 {
        4
    } else {
        5
    };
    assert((c + 1) * n == c * n + n) by (nonlinear_arith);
    assert(c == 0 ==> c * n == 0) by (nonlinear_arith);
    assert(c == 1 ==> c * n == n) by (nonlinear_arith);
    assert(c == 2 ==> c * n == 2 * n) by (nonlinear_arith);
    assert(c == 3 ==> c * n == 3 * n) by (nonlinear_arith);
    assert(c == 4 ==> c * n == 4 * n) by (nonlinear_arith);
    assert(c == 5 ==> c * n == 5 * n) by (nonlinear_arith);
    c
}

/// Some cell has opaque pixels exactly if the image has.
proof fn lemma_some_cell_counts(rgba: Seq<u8>, width: int, height: int)
    requires
        width > 0,
        height > 0,
    ensures
        (exists|idx: int|
            0 <= idx < 36 && #[trigger] cell_total(rgba, width, height, idx, 3) > 0) <==> (exists|
            p: int,
        |
            0 <= p < width * height && #[trigger] opaque(rgba, p)),
{
    if exists|p: int| 0 <= p < width * height && #[trigger] opaque(rgba, p) {
        let p = choose|p: int| 0 <= p < width * height && #[trigger] opaque(rgba, p);
        let (x, y) = (p % width, p / width);
        assert(0 <= x < width && 0 <= y < height && y * width + x == p) by (nonlinear_arith)
            requires
                0 <= p < width * height,
                width > 0,
                x == p % width,
                y == p / width,
        ;
        let cx = lemma_strip(x, width);
        let cy = lemma_strip(y, height);
        let idx = cy * 6 + cx;
        assert(idx % 6 == cx && idx / 6 == cy);
        lemma_cell_edges(cx, width);
        lemma_cell_edges(cy, height);
        lemma_area_counts(
            rgba,
            width,
            cx * width / 6,
            (cx + 1) * width / 6,
            cy * height / 6,
            (cy + 1) * height / 6,
            x,
            y,
        );
        assert(cell_total(rgba, width, height, idx, 3) > 0);
    }
    if exists|idx: int| 0 <= idx < 36 && #[trigger] cell_total(rgba, width, height, idx, 3) > 0 {
        let idx = choose|idx: int|
            0 <= idx < 36 && #[trigger] cell_total(rgba, width, height, idx, 3) > 0;
        let (cx, cy) = (idx % 6, idx / 6);
        let (x0, x1) = (cx * width / 6, (cx + 1) * width / 6);
        let (y0, y1) = (cy * height / 6, (cy + 1) * height / 6);
        lemma_cell_edges(cx, width);
        lemma_cell_edges(cy, height);
        lemma_area_counts(rgba, width, x0, x1, y0, y1, 0, 0);
        let (i, j) = choose|i: int, j: int|
            x0 <= i < x1 && y0 <= j < y1 && #[trigger] opaque(rgba, j * width + i);
        lemma_pixel_in_range(width, height, i, j);
        assert(opaque(rgba, j * width + i));
    }
}

/// The two images have the same opaque pixels.
pub open spec fn same_opaque(a: Seq<u8>, b: Seq<u8>, width: int, height: int) -> bool {
    forall|p: int|
        0 <= p < width * height ==> {
            &&& #[trigger] opaque(a, p) == opaque(b, p)
            &&& opaque(a, p) ==> a[p * 4] == b[p * 4] && a[p * 4 + 1] == b[p * 4 + 1] && a[p * 4
                + 2] == b[p * 4 + 2]
        }
}

proof fn lemma_same_rows(
    a: Seq<u8>,
    b: Seq<u8>,
    width: int,
    height: int,
    y: int,
    x0: int,
    x1: int,
    k: int,
)
    requires
        same_opaque(a, b, width, height),
        0 <= x0 <= x1 <= width,
        0 <= y < height,
        0 <= k <= 3,
    ensures
        row_total(a, width, y, x0, x1, k) == row_total(b, width, y, x0, x1, k),
    decreases x1 - x0,
{
    if x0 < x1 {
        lemma_same_rows(a, b, width, height, y, x0, x1 - 1, k);
        lemma_pixel_in_range(width, height, x1 - 1, y);
        assert(opaque(a, y * width + (x1 - 1)) == opaque(b, y * width + (x1 - 1)));
    }
}

proof fn lemma_same_areas(
    a: Seq<u8>,
    b: Seq<u8>,
    width: int,
    height: int,
    x0: int,
    x1: int,
    y0: int,
    y1: int,
    k: int,
)
    requires
        same_opaque(a, b, width, height),
        0 <= x0 <= x1 <= width,
        0 <= y0 <= y1 <= height,
        0 <= k <= 3,
    ensures
        area_total(a, width, x0, x1, y0, y1, k) == area_total(b, width, x0, x1, y0, y1, k),
    decreases y1 - y0,
{
    if y0 < y1 {
        lemma_same_areas(a, b, width, height, x0, x1, y0, y1 - 1, k);
        lemma_same_rows(a, b, width, height, y1 - 1, x0, x1, k);
    }
}

proof fn lemma_same_cell(
    a: Seq<u8>,
    b: Seq<u8>,
    width: int,
    height: int,
    idx: int,
    k: int,
)
    requires
        same_opaque(a, b, width, height),
        width >= 0,
        height >= 0,
        0 <= idx < 36,
        0 <= k <= 3,
    ensures
        cell_total(a, width, height, idx, k) == cell_total(b, width, height, idx, k),
{
    let (cx, cy) = (idx % 6, idx / 6);
    lemma_cell_edges(cx, width);
    lemma_cell_edges(cy, height);
    lemma_same_areas(
        a,
        b,
        width,
        height,
        cx * width / 6,
        (cx + 1) * width / 6,
        cy * height / 6,
        (cy + 1) * height / 6,
        k,
    );
}

/// Only the colours of the opaque pixels count: what nearly transparent pixels
/// hold, how opaque the others are exactly, and bytes behind the last pixel have
/// no influence on the matrix.
pub proof fn law_only_opaque_pixels_count(
    a: Seq<u8>,
    b: Seq<u8>,
    width: int,
    height: int,
    ma: Option<CoverColorMatrix>,
    mb: Option<CoverColorMatrix>,
)
    requires
        width >= 0,
        height >= 0,
        a.len() >= width * height * 4 <==> b.len() >= width * height * 4,
        same_opaque(a, b, width, height),
        is_matrix_of(a, width, height, ma),
        is_matrix_of(b, width, height, mb),
    ensures
        ma == mb,
{
    if has_colors(a, width, height) {
        let p = choose|p: int| 0 <= p < width * height && #[trigger] opaque(a, p);
        assert(opaque(a, p) == opaque(b, p));
        assert(opaque(b, p));
    }
    if has_colors(b, width, height) {
        let p = choose|p: int| 0 <= p < width * height && #[trigger] opaque(b, p);
        assert(opaque(a, p) == opaque(b, p));
        assert(opaque(a, p));
    }
    if ma is Some {
        let (x, y) = (ma->0, mb->0);
        assert forall|idx: int| 0 <= idx < 36 implies #[trigger] x.cells@[idx] == y.cells@[idx]
            && x.populations@[idx] == y.populations@[idx] by {
            lemma_same_cell(a, b, width, height, idx, 0);
            lemma_same_cell(a, b, width, height, idx, 1);
            lemma_same_cell(a, b, width, height, idx, 2);
            lemma_same_cell(a, b, width, height, idx, 3);
            assert(cell_is(a, width, height, idx, x.cells@[idx], x.populations@[idx]));
            assert(cell_is(b, width, height, idx, y.cells@[idx], y.populations@[idx]));
            let (c, d) = (x.cells@[idx], y.cells@[idx]);
            assert(c@[0] == d@[0] && c@[1] == d@[1] && c@[2] == d@[2]);
            assert(c =~= d);
        }
        assert(x.cells =~= y.cells) by {
            assert forall|i: int| 0 <= i < 36 implies x.cells[i] == y.cells[i] by {
                assert(x.cells@[i] == y.cells@[i]);
            }
        }
        assert(x.populations =~= y.populations) by {
            assert forall|i: int| 0 <= i < 36 implies x.populations[i] == y.populations[i] by {
                assert(x.cells@[i] == y.cells@[i]);
            }
        }
    }
}

proof fn lemma_average_fits(sum: int, count: int)
    by (nonlinear_arith)
    requires
        0 < count,
        0 <= sum <= 255 * count,
    ensures
        0 <= sum / count <= 255,
{
}

/// Squared distance between two channel values.
pub open spec fn gap(a: u8, b: u8) -> int {
    (a - b) * (a - b)
}

/// Squared distance between two colours.
pub open spec fn dist_sq(a: Seq<u8>, b: Seq<u8>) -> int {
    gap(a[0], b[0]) + gap(a[1], b[1]) + gap(a[2], b[2])
}

fn gap_sq(a: u8, b: u8) -> (r: u64)
    ensures
        r == gap(a, b),
        r <= 65025,
{
    let d: i64 = a as i64 - b as i64;
    proof {
        assert(0 <= d * d <= 65025) by (nonlinear_arith)
            requires
                -255 <= d <= 255,
        ;
    }
    (d * d) as u64
}

/// Squared distance between two colours.
pub fn rgb_dist_sq(a: [u8; 3], b: [u8; 3]) -> (r: u64)
    ensures
        r == dist_sq(a@, b@),
        r <= 195_075,
{
    gap_sq(a[0], b[0]) + gap_sq(a[1], b[1]) + gap_sq(a[2], b[2])
}

/// Squared distance beyond which two colours count as distinct.
pub const DISTINCT_SQ: u64 = 3600;

/// The cell has pixels and is distinct from every colour picked so far.
pub open spec fn eligible(m: CoverColorMatrix, picked: Seq<[u8; 3]>, i: int) -> bool {
    &&& m.populations@[i] > 0
    &&& forall|k: int|
        0 <= k < picked.len() ==> dist_sq((#[trigger] picked[k])@, m.cells@[i]@) > DISTINCT_SQ
}

/// The most populous eligible cell among the first `n`, the earliest of equals,
/// or -1 if none is eligible.
pub open spec fn best_cell(m: CoverColorMatrix, picked: Seq<[u8; 3]>, n: int) -> int
    decreases n,
{
    if n <= 0 {
        -1
    } else {
        let b = best_cell(m, picked, n - 1);
        if eligible(m, picked, n - 1) && (b < 0 || m.populations@[n - 1] > m.populations@[b]) {
            n - 1
        } else {
            b
        }
    }
}

/// The three dominant colours: the most populous cell, then the most populous
/// one distinct from it, then the most populous one distinct from both. Where
/// there is none the last one is repeated.
pub open spec fn dominant_colors(m: CoverColorMatrix) -> ([u8; 3], [u8; 3], [u8; 3]) {
    let a = best_cell(m, seq![], 36);
    let ca = m.cells@[a];
    let b = best_cell(m, seq![ca], 36);
    let cb = m.cells@[b];
    let c = best_cell(m, seq![ca, cb], 36);
    if a < 0 {
        ([0, 0, 0], [0, 0, 0], [0, 0, 0])
    } else if b < 0 {
        (ca, ca, ca)
    } else if c < 0 {
        (ca, cb, cb)
    } else {
        (ca, cb, m.cells@[c])
    }
}

/// The most populous cell that is distinct from all of `picked`.
fn pick(m: &CoverColorMatrix, picked: &Vec<[u8; 3]>) -> (r: Option<usize>)
    ensures
        r is None ==> best_cell(*m, picked@, 36) < 0,
        r is Some ==> r->0 < 36 && best_cell(*m, picked@, 36) == r->0,
{
    let mut best: Option<usize> = None;
    let mut i: usize = 0;
    while i < 36
        invariant
            0 <= i <= 36,
            best is None ==> best_cell(*m, picked@, i as int) < 0,
            best is Some ==> best->0 < i && best_cell(*m, picked@, i as int) == best->0,
        decreases 36 - i,
    {
        let mut ok = m.populations[i] > 0;
        let mut k: usize = 0;
        while k < picked.len()
            invariant
                0 <= i < 36,
                0 <= k <= picked@.len(),
                ok <==> m.populations@[i as int] > 0 && forall|j: int|
                    0 <= j < k ==> dist_sq((#[trigger] picked@[j])@, m.cells@[i as int]@)
                        > DISTINCT_SQ,
            decreases picked@.len() - k,
        {
            if rgb_dist_sq(picked[k], m.cells[i]) <= DISTINCT_SQ {
                ok = false;
            }
            k = k + 1;
        }
        if ok {
            match best {
                None => {
                    best = Some(i);
                },
                Some(b) => {
                    if m.populations[i] > m.populations[b] {
                        best = Some(i);
                    }
                },
            }
        }
        i = i + 1;
    }
    best
}

impl CoverColorMatrix {
    /// A matrix made of three colours: eighteen cells of the first, twelve of
    /// the second, six of the third.
    pub fn from_dominants(d: [[u8; 3]; 3]) -> (r: CoverColorMatrix)
        ensures
            synthetic(d, r),
    {
        let mut cells: [[u8; 3]; 36] = [[0u8; 3]; 36];
        let mut populations: [u32; 36] = [0u32; 36];
        let mut i: usize = 0;
        while i < 36
            invariant
                0 <= i <= 36,
                forall|k: int| 0 <= k < i ==> #[trigger] cells@[k] == d@[tier(k)],
                forall|k: int| 0 <= k < i ==> #[trigger] populations@[k] == 18 - 6 * tier(k),
            decreases 36 - i,
        {
            if i < 18 {
                cells[i] = d[0];
                populations[i] = 18;
            } else if i < 30 {
                cells[i] = d[1];
                populations[i] = 12;
            } else {
                cells[i] = d[2];
                populations[i] = 6;
            }
            i = i + 1;
        }
        CoverColorMatrix { cells, populations }
    }

    /// The three dominant colours.
    pub fn dominants(&self) -> (r: [[u8; 3]; 3])
        ensures
            r@[0] == dominant_colors(*self).0,
            r@[1] == dominant_colors(*self).1,
            r@[2] == dominant_colors(*self).2,
    {
        let mut picked: Vec<[u8; 3]> = Vec::new();
        let a = match pick(self, &picked) {
            Some(i) => self.cells[i],
            None => {
                return [[0, 0, 0], [0, 0, 0], [0, 0, 0]];
            },
        };
        picked.push(a);
        assert(picked@ =~= seq![a]);
        let b = match pick(self, &picked) {
            Some(i) => self.cells[i],
            None => {
                return [a, a, a];
            },
        };
        picked.push(b);
        assert(picked@ =~= seq![a, b]);
        match pick(self, &picked) {
            Some(i) => [a, b, self.cells[i]],
            None => [a, b, b],
        }
    }
}

/// Which of three colours a cell of a matrix made of them has.
pub open spec fn tier(i: int) -> int {
    if i < 18 {
        0
    } else if i < 30 {
        1
    } else {
        2
    }
}

/// The matrix made of three colours.
pub open spec fn synthetic(d: [[u8; 3]; 3], m: CoverColorMatrix) -> bool {
    &&& forall|i: int| 0 <= i < 36 ==> #[trigger] m.cells@[i] == d@[tier(i)]
    &&& forall|i: int| 0 <= i < 36 ==> #[trigger] m.populations@[i] == 18 - 6 * tier(i)
}

proof fn lemma_first_is_best(m: CoverColorMatrix, picked: Seq<[u8; 3]>, f: int, n: int)
    requires
        0 <= f,
        n <= 36,
        forall|i: int, j: int|
            0 <= i <= j < 36 ==> #[trigger] m.populations@[i] >= #[trigger] m.populations@[j],
        forall|i: int| 0 <= i < f && i < 36 ==> !#[trigger] eligible(m, picked, i),
        f < 36 ==> eligible(m, picked, f),
    ensures
        best_cell(m, picked, n) == if f < n {
            f
        } else {
            -1
        },
    decreases n,
{
    if n > 0 {
        lemma_first_is_best(m, picked, f, n - 1);
    }
}

/// A matrix made of three pairwise distinct colours gives them back, in order.
pub proof fn law_dominants_are_recovered(d: [[u8; 3]; 3], m: CoverColorMatrix)
    requires
        synthetic(d, m),
        dist_sq(d@[0]@, d@[1]@) > DISTINCT_SQ,
        dist_sq(d@[0]@, d@[2]@) > DISTINCT_SQ,
        dist_sq(d@[1]@, d@[2]@) > DISTINCT_SQ,
    ensures
        dominant_colors(m) == (d@[0], d@[1], d@[2]),
{
    assert(dist_sq(d@[0]@, d@[0]@) == 0);
    assert(dist_sq(d@[1]@, d@[1]@) == 0);
    let none: Seq<[u8; 3]> = seq![];
    let one = seq![d@[0]];
    let two = seq![d@[0], d@[1]];
    assert(m.cells@[0] == d@[0]);
    assert(m.cells@[18] == d@[1]);
    assert(m.cells@[30] == d@[2]);
    assert(eligible(m, none, 0));
    lemma_first_is_best(m, none, 0, 36);
    assert forall|i: int| 0 <= i < 18 implies !#[trigger] eligible(m, one, i) by {
        assert(one[0] == d@[0]);
        assert(m.cells@[i] == d@[0]);
    }
    assert(eligible(m, one, 18));
    lemma_first_is_best(m, one, 18, 36);
    assert forall|i: int| 0 <= i < 30 implies !#[trigger] eligible(m, two, i) by {
        assert(two[0] == d@[0] && two[1] == d@[1]);
        assert(m.cells@[i] == d@[tier(i)]);
    }
    assert(eligible(m, two, 30));
    lemma_first_is_best(m, two, 30, 36);
}

proof fn lemma_best_is_best(m: CoverColorMatrix, picked: Seq<[u8; 3]>, n: int)
    ensures
        -1 <= best_cell(m, picked, n) < if n > 0 {
            n
        } else {
            0
        },
        best_cell(m, picked, n) >= 0 ==> eligible(m, picked, best_cell(m, picked, n)),
        forall|i: int|
            0 <= i < n && #[trigger] eligible(m, picked, i) ==> best_cell(m, picked, n) >= 0
                && m.populations@[best_cell(m, picked, n)] >= m.populations@[i],
    decreases n,
{
    if n > 0 {
        lemma_best_is_best(m, picked, n - 1);
    }
}

/// The first dominant colour is that of a most populous cell.
pub proof fn law_first_dominant_is_most_populous(m: CoverColorMatrix, i: int)
    requires
        0 <= i < 36,
        m.populations@[i] > 0,
    ensures
        exists|k: int|
            0 <= k < 36 && #[trigger] m.cells@[k] == dominant_colors(m).0 && m.populations@[k]
                >= m.populations@[i],
{
    let none: Seq<[u8; 3]> = seq![];
    lemma_best_is_best(m, none, 36);
    assert(eligible(m, none, i));
    let k = best_cell(m, none, 36);
    assert(m.cells@[k] == dominant_colors(m).0);
}

/// The dominant colours of a matrix made of dominant colours are those colours:
/// nothing is lost where only the three of them are kept.
pub proof fn law_dominants_suffice(m: CoverColorMatrix, d: [[u8; 3]; 3], kept: CoverColorMatrix)
    requires
        (d@[0], d@[1], d@[2]) == dominant_colors(m),
        synthetic(d, kept),
    ensures
        dominant_colors(kept) == dominant_colors(m),
{
    let none: Seq<[u8; 3]> = seq![];
    let a = best_cell(m, none, 36);
    let ones = seq![m.cells@[a]];
    let b = best_cell(m, ones, 36);
    let twos = seq![m.cells@[a], m.cells@[b]];
    let c = best_cell(m, twos, 36);
    lemma_best_is_best(m, ones, 36);
    lemma_best_is_best(m, twos, 36);
    assert(ones[0] == m.cells@[a]);
    assert(twos[0] == m.cells@[a] && twos[1] == m.cells@[b]);
    if a >= 0 && b >= 0 && c >= 0 {
        law_dominants_are_recovered(d, kept);
    } else {
        assert(dist_sq(d@[0]@, d@[0]@) == 0);
        assert(dist_sq(d@[1]@, d@[1]@) == 0);
        let one = seq![d@[0]];
        assert(one[0] == d@[0]);
        assert(kept.cells@[0] == d@[0]);
        assert(eligible(kept, none, 0));
        lemma_first_is_best(kept, none, 0, 36);
        if a < 0 || b < 0 {
            assert forall|i: int| 0 <= i < 36 implies !#[trigger] eligible(kept, one, i) by {
                assert(kept.cells@[i] == d@[tier(i)]);
            }
            lemma_first_is_best(kept, one, 36, 36);
        } else {
            let two = seq![d@[0], d@[1]];
            assert(two[0] == d@[0] && two[1] == d@[1]);
            assert(kept.cells@[18] == d@[1]);
            assert forall|i: int| 0 <= i < 18 implies !#[trigger] eligible(kept, one, i) by {
                assert(kept.cells@[i] == d@[0]);
            }
            assert(eligible(kept, one, 18));
            lemma_first_is_best(kept, one, 18, 36);
            assert forall|i: int| 0 <= i < 36 implies !#[trigger] eligible(kept, two, i) by {
                assert(kept.cells@[i] == d@[tier(i)]);
            }
            lemma_first_is_best(kept, two, 36, 36);
        }
    }
}

/// Two dominant colours are either the same or distinct.
pub proof fn law_dominants_are_distinct(m: CoverColorMatrix)
    ensures
        ({
            let (a, b, c) = dominant_colors(m);
            &&& a == b || dist_sq(a@, b@) > DISTINCT_SQ
            &&& b == c || dist_sq(b@, c@) > DISTINCT_SQ
            &&& a == c || dist_sq(a@, c@) > DISTINCT_SQ
        }),
{
    let none: Seq<[u8; 3]> = seq![];
    let a = best_cell(m, none, 36);
    let one = seq![m.cells@[a]];
    let b = best_cell(m, one, 36);
    let two = seq![m.cells@[a], m.cells@[b]];
    lemma_best_is_best(m, none, 36);
    lemma_best_is_best(m, one, 36);
    lemma_best_is_best(m, two, 36);
    assert(one[0] == m.cells@[a]);
    assert(two[0] == m.cells@[a] && two[1] == m.cells@[b]);
}

/// A pixel lies in a cell of the six by six: in its strip of columns and in its
/// strip of rows.
pub open spec fn lies_in_cell(width: int, height: int, idx: int, x: int, y: int) -> bool {
    let (cx, cy) = (idx % 6, idx / 6);
    &&& cx * width / 6 <= x < (cx + 1) * width / 6
    &&& cy * height / 6 <= y < (cy + 1) * height / 6
}

/// The colour of a cell is an average of its opaque pixels: where in a component
/// all of them lie between two bounds, so does the cell. A cell without opaque
/// pixels counts none, and one with nothing else counts them all.
pub proof fn law_cells_average_their_pixels(
    rgba: Seq<u8>,
    width: int,
    height: int,
    m: CoverColorMatrix,
    idx: int,
    k: int,
    lo: int,
    hi: int,
)
    requires
        width > 0,
        height > 0,
        rgba.len() >= width * height * 4,
        is_matrix_of(rgba, width, height, Some(m)),
        0 <= idx < 36,
        0 <= k < 3,
        forall|x: int, y: int|
            #[trigger] lies_in_cell(width, height, idx, x, y) && rgba[(y * width + x) * 4 + 3] >= 16
                ==> lo <= rgba[(y * width + x) * 4 + k] <= hi,
    ensures
        m.populations@[idx] > 0 ==> lo <= m.cells@[idx]@[k] <= hi,
        (forall|x: int, y: int|
            #[trigger] lies_in_cell(width, height, idx, x, y) ==> rgba[(y * width + x) * 4 + 3]
                < 16) ==> m.populations@[idx] == 0,
        (forall|x: int, y: int|
            #[trigger] lies_in_cell(width, height, idx, x, y) ==> rgba[(y * width + x) * 4 + 3]
                >= 16) ==> m.populations@[idx] == ((idx % 6 + 1) * width / 6 - idx % 6 * width / 6)
            * ((idx / 6 + 1) * height / 6 - idx / 6 * height / 6),
{
    let (cx, cy) = (idx % 6, idx / 6);
    let (x0, x1) = (cx * width / 6, (cx + 1) * width / 6);
    let (y0, y1) = (cy * height / 6, (cy + 1) * height / 6);
    lemma_cell_edges(cx, width);
    lemma_cell_edges(cy, height);
    assert(cell_is(rgba, width, height, idx, m.cells@[idx], m.populations@[idx]));
    let total = area_total(rgba, width, x0, x1, y0, y1, k);
    let count = area_total(rgba, width, x0, x1, y0, y1, 3);
    assert(forall|x: int, y: int|
        x0 <= x < x1 && y0 <= y < y1 ==> #[trigger] lies_in_cell(width, height, idx, x, y));
    assert forall|x: int, y: int|
        #![trigger share(rgba, width, x, y, k)]
        x0 <= x < x1 && y0 <= y < y1 implies lo * share(rgba, width, x, y, 3) <= share(
        rgba,
        width,
        x,
        y,
        k,
    ) <= hi * share(rgba, width, x, y, 3) by {
        assert(lies_in_cell(width, height, idx, x, y));
    }
    lemma_area_between(rgba, width, x0, x1, y0, y1, k, lo, hi);
    if count > 0 {
        let q = total / count;
        assert(m.cells@[idx]@[k] == q);
        assert(lo <= q <= hi) by (nonlinear_arith)
            requires
                q == total / count,
                lo * count <= total <= hi * count,
                count > 0,
        ;
    }
    if forall|x: int, y: int|
        #[trigger] lies_in_cell(width, height, idx, x, y) ==> rgba[(y * width + x) * 4 + 3] < 16 {
        assert forall|x: int, y: int|
            #![trigger share(rgba, width, x, y, 3)]
            x0 <= x < x1 && y0 <= y < y1 implies share(rgba, width, x, y, 3) == 0 by {
            assert(lies_in_cell(width, height, idx, x, y));
        }
        lemma_area_of(rgba, width, x0, x1, y0, y1, 0);
        assert(0 * ((x1 - x0) * (y1 - y0)) == 0);
    }
    if forall|x: int, y: int|
        #[trigger] lies_in_cell(width, height, idx, x, y) ==> rgba[(y * width + x) * 4 + 3] >= 16 {
        assert forall|x: int, y: int|
            #![trigger share(rgba, width, x, y, 3)]
            x0 <= x < x1 && y0 <= y < y1 implies share(rgba, width, x, y, 3) == 1 by {
            assert(lies_in_cell(width, height, idx, x, y));
        }
        lemma_area_of(rgba, width, x0, x1, y0, y1, 1);
    }
}

proof fn lemma_row_between(
    rgba: Seq<u8>,
    width: int,
    y: int,
    x0: int,
    x1: int,
    k: int,
    lo: int,
    hi: int,
)
    requires
        forall|x: int|
            #![trigger share(rgba, width, x, y, k)]
            x0 <= x < x1 ==> lo * share(rgba, width, x, y, 3) <= share(rgba, width, x, y, k) <= hi
                * share(rgba, width, x, y, 3),
    ensures
        lo * row_total(rgba, width, y, x0, x1, 3) <= row_total(rgba, width, y, x0, x1, k) <= hi
            * row_total(rgba, width, y, x0, x1, 3),
    decreases x1 - x0,
{
    if x1 > x0 {
        lemma_row_between(rgba, width, y, x0, x1 - 1, k, lo, hi);
        let (a, b) = (
            row_total(rgba, width, y, x0, x1 - 1, 3),
            share(rgba, width, x1 - 1, y, 3),
        );
        let v = share(rgba, width, x1 - 1, y, k);
        assert(lo * (a + b) == lo * a + lo * b && hi * (a + b) == hi * a + hi * b)
            by (nonlinear_arith);
    } else {
        assert(lo * 0 == 0 && hi * 0 == 0);
    }
}

proof fn lemma_area_between(
    rgba: Seq<u8>,
    width: int,
    x0: int,
    x1: int,
    y0: int,
    y1: int,
    k: int,
    lo: int,
    hi: int,
)
    requires
        forall|x: int, y: int|
            #![trigger share(rgba, width, x, y, k)]
            x0 <= x < x1 && y0 <= y < y1 ==> lo * share(rgba, width, x, y, 3) <= share(
                rgba,
                width,
                x,
                y,
                k,
            ) <= hi * share(rgba, width, x, y, 3),
    ensures
        lo * area_total(rgba, width, x0, x1, y0, y1, 3) <= area_total(
            rgba,
            width,
            x0,
            x1,
            y0,
            y1,
            k,
        ) <= hi * area_total(rgba, width, x0, x1, y0, y1, 3),
    decreases y1 - y0,
{
    if y1 > y0 {
        lemma_area_between(rgba, width, x0, x1, y0, y1 - 1, k, lo, hi);
        lemma_row_between(rgba, width, y1 - 1, x0, x1, k, lo, hi);
        let (a, b) = (
            area_total(rgba, width, x0, x1, y0, y1 - 1, 3),
            row_total(rgba, width, y1 - 1, x0, x1, 3),
        );
        assert(lo * (a + b) == lo * a + lo * b && hi * (a + b) == hi * a + hi * b)
            by (nonlinear_arith);
    } else {
        assert(lo * 0 == 0 && hi * 0 == 0);
    }
}

proof fn lemma_row_of(rgba: Seq<u8>, width: int, y: int, x0: int, x1: int, v: int)
    requires
        x0 <= x1,
        forall|x: int|
            #![trigger share(rgba, width, x, y, 3)]
            x0 <= x < x1 ==> share(rgba, width, x, y, 3) == v,
    ensures
        row_total(rgba, width, y, x0, x1, 3) == v * (x1 - x0),
    decreases x1 - x0,
{
    if x1 > x0 {
        lemma_row_of(rgba, width, y, x0, x1 - 1, v);
        assert(v * (x1 - x0) == v * (x1 - 1 - x0) + v) by (nonlinear_arith);
        assert(share(rgba, width, x1 - 1, y, 3) == v);
    } else {
        assert(v * 0 == 0);
    }
}

proof fn lemma_area_of(rgba: Seq<u8>, width: int, x0: int, x1: int, y0: int, y1: int, v: int)
    requires
        x0 <= x1,
        y0 <= y1,
        forall|x: int, y: int|
            #![trigger share(rgba, width, x, y, 3)]
            x0 <= x < x1 && y0 <= y < y1 ==> share(rgba, width, x, y, 3) == v,
    ensures
        area_total(rgba, width, x0, x1, y0, y1, 3) == v * ((x1 - x0) * (y1 - y0)),
    decreases y1 - y0,
{
    if y1 > y0 {
        lemma_area_of(rgba, width, x0, x1, y0, y1 - 1, v);
        lemma_row_of(rgba, width, y1 - 1, x0, x1, v);
        let w = x1 - x0;
        assert(v * (w * (y1 - y0)) == v * (w * (y1 - 1 - y0)) + v * w) by (nonlinear_arith);
    } else {
        assert(v * ((x1 - x0) * 0) == 0) by (nonlinear_arith);
    }
}

/// The second colour is the most populous of those that differ clearly from the
/// first, the third the most populous of those that differ clearly from both.
pub proof fn law_further_dominants_are_populous(m: CoverColorMatrix, i: int)
    requires
        0 <= i < 36,
        m.populations@[i] > 0,
    ensures
        ({
            let (a, b, c) = dominant_colors(m);
            &&& dist_sq(a@, m.cells@[i]@) > 3600 ==> dist_sq(a@, b@) > 3600 && exists|k: int|
                0 <= k < 36 && #[trigger] m.cells@[k] == b && m.populations@[k]
                    >= m.populations@[i]
            &&& dist_sq(a@, m.cells@[i]@) > 3600 && dist_sq(b@, m.cells@[i]@) > 3600 ==> dist_sq(
                a@,
                c@,
            ) > 3600 && dist_sq(b@, c@) > 3600 && exists|k: int|
                0 <= k < 36 && #[trigger] m.cells@[k] == c && m.populations@[k]
                    >= m.populations@[i]
        }),
{
    let first = best_cell(m, seq![], 36);
    lemma_best_is_best(m, seq![], 36);
    assert(eligible(m, seq![], i));
    let ca = m.cells@[first];
    let second = best_cell(m, seq![ca], 36);
    lemma_best_is_best(m, seq![ca], 36);
    let cb = m.cells@[second];
    let third = best_cell(m, seq![ca, cb], 36);
    lemma_best_is_best(m, seq![ca, cb], 36);
    assert(seq![ca][0] == ca);
    assert(seq![ca, cb][0] == ca && seq![ca, cb][1] == cb);
    if dist_sq(ca@, m.cells@[i]@) > 3600 {
        assert(eligible(m, seq![ca], i));
        if dist_sq(cb@, m.cells@[i]@) > 3600 {
            assert(eligible(m, seq![ca, cb], i));
        }
    }
}

/// The distance of two colours is zero between equal ones, the same in both
/// directions, and the sum of the squares of what the components differ by.
pub proof fn law_distance_of_colours(a: [u8; 3], b: [u8; 3], there: u64, back: u64)
    requires
        call_ensures(rgb_dist_sq, (a, b), there),
        call_ensures(rgb_dist_sq, (b, a), back),
    ensures
        there == back,
        a@ == b@ ==> there == 0,
        ({
            let (x, y, z) = (a@[0] - b@[0], a@[1] - b@[1], a@[2] - b@[2]);
            there == x * x + y * y + z * z
        }),
{
    let (x, y, z) = (a@[0] - b@[0], a@[1] - b@[1], a@[2] - b@[2]);
    assert((-x) * (-x) == x * x && (-y) * (-y) == y * y && (-z) * (-z) == z * z)
        by (nonlinear_arith);
    if a@ == b@ {
        assert(x * x == 0 && y * y == 0 && z * z == 0) by (nonlinear_arith)
            requires
                x == 0,
                y == 0,
                z == 0,
        ;
    }
}

/// The three colours of a cover are those of its cells.
pub proof fn law_dominants_are_cells(m: CoverColorMatrix, d: [[u8; 3]; 3], i: int, k: int)
    requires
        call_ensures(CoverColorMatrix::dominants, (&m,), d),
        0 <= i < 36,
        m.populations@[i] > 0,
        0 <= k < 3,
    ensures
        exists|j: int| 0 <= j < 36 && #[trigger] m.cells@[j] == d@[k] && m.populations@[j] > 0,
{
    let first = best_cell(m, seq![], 36);
    lemma_best_is_best(m, seq![], 36);
    assert(eligible(m, seq![], i));
    let ca = m.cells@[first];
    let second = best_cell(m, seq![ca], 36);
    lemma_best_is_best(m, seq![ca], 36);
    let cb = m.cells@[second];
    let third = best_cell(m, seq![ca, cb], 36);
    lemma_best_is_best(m, seq![ca, cb], 36);
    assert(m.cells@[first] == dominant_colors(m).0);
    assert(k == 0 || k == 1 || k == 2);
    if second >= 0 {
        assert(m.cells@[second] == dominant_colors(m).1);
        if third >= 0 {
            assert(m.cells@[third] == dominant_colors(m).2);
        }
    }
}

} // verus!
