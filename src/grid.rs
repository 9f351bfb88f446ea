//! Row-major 2D buffers (`grid[row][col]`): pixel buffers, depth buffers and
//! texture bitmaps.
use vstd::prelude::*;

verus! {

/// `g` has `height` rows of `width` cells each.
pub open spec fn has_shape<T>(g: Seq<Vec<T>>, width: nat, height: nat) -> bool {
    &&& g.len() == height
    &&& forall|h: int| 0 <= h < height ==> (#[trigger] g[h])@.len() == width
}

/// Which of the two colors of a checkerboard of `size`-wide squares lies at
/// row `h`, column `w`: the first one on the square at the origin.
pub open spec fn first_square(size: nat, h: nat, w: nat) -> bool {
    (w / size) % 2 == (h / size) % 2
}

fn row_filled<T: Copy>(width: usize, value: T) -> (r: Vec<T>)
    ensures
        r@.len() == width,
        forall|w: int| 0 <= w < width ==> r@[w] == value,
{
    let mut r: Vec<T> = Vec::new();
    let mut w: usize = 0;
    while w < width
        invariant
            w <= width,
            r@.len() == w,
            forall|i: int| 0 <= i < w ==> r@[i] == value,
        decreases width - w,
    {
        r.push(value);
        w += 1;
    }
    r
}

/// A buffer of `height` rows of `width` cells, each set to `value`.
pub fn filled<T: Copy>(width: usize, height: usize, value: T) -> (g: Vec<Vec<T>>)
    ensures
        has_shape(g@, width as nat, height as nat),
        forall|h: int, w: int| 0 <= h < height && 0 <= w < width ==> g@[h]@[w] == value,
{
    let mut g: Vec<Vec<T>> = Vec::new();
    let mut h: usize = 0;
    while h < height
        invariant
            h <= height,
            has_shape(g@, width as nat, h as nat),
            forall|i: int, w: int| 0 <= i < h && 0 <= w < width ==> g@[i]@[w] == value,
        decreases height - h,
    {
        let row = row_filled(width, value);
        let ghost prev = g@;
        g.push(row);
        assert forall|i: int| 0 <= i < h implies g@[i] == prev[i] by {}
        h += 1;
    }
    g
}

/// A checkerboard of `height` rows and `width` columns, in squares of `size`
/// cells a side: `first` on the square at the origin and on every square
/// diagonal to it, `second` on the others.
pub fn checkerboard<T: Copy>(width: usize, height: usize, size: usize, first: T, second: T) -> (g: Vec<
    Vec<T>,
>)
    requires
        size > 0,
    ensures
        has_shape(g@, width as nat, height as nat),
        forall|h: int, w: int|
            0 <= h < height && 0 <= w < width ==> g@[h]@[w] == if first_square(
                size as nat,
                h as nat,
                w as nat,
            ) {
                first
            } else {
                second
            },
{
    // the two kinds of row: one that starts with `first`, one with `second`
    let mut even: Vec<T> = Vec::new();
    let mut odd: Vec<T> = Vec::new();
    let mut w: usize = 0;
    while w < width
        invariant
            w <= width,
            size > 0,
            even@.len() == w,
            odd@.len() == w,
            forall|i: int|
                0 <= i < w ==> even@[i] == (if (i / size as int) % 2 == 0 { first } else { second })
                    && odd@[i] == (if (i / size as int) % 2 == 0 { second } else { first }),
        decreases width - w,
    {
        if (w / size) % 2 == 0 {
            even.push(first);
            odd.push(second);
        } else {
            even.push(second);
            odd.push(first);
        }
        w += 1;
    }
    let mut g: Vec<Vec<T>> = Vec::new();
    let mut h: usize = 0;
    while h < height
        invariant
            h <= height,
            size > 0,
            even@.len() == width,
            odd@.len() == width,
            forall|i: int|
                0 <= i < width ==> even@[i] == (if (i / size as int) % 2 == 0 { first } else { second })
                    && odd@[i] == (if (i / size as int) % 2 == 0 { second } else { first }),
            has_shape(g@, width as nat, h as nat),
            forall|i: int, j: int|
                0 <= i < h && 0 <= j < width ==> g@[i]@[j] == if first_square(
                    size as nat,
                    i as nat,
                    j as nat,
                ) {
                    first
                } else {
                    second
                },
        decreases height - h,
    {
        let row = if (h / size) % 2 == 0 {
            row_copy(&even)
        } else {
            row_copy(&odd)
        };
        let ghost prev = g@;
        g.push(row);
        proof {
            assert forall|i: int| 0 <= i < h implies g@[i] == prev[i] by {}
            assert forall|j: int| 0 <= j < width implies g@[h as int]@[j] == if first_square(
                size as nat,
                h as nat,
                j as nat,
            ) {
                first
            } else {
                second
            } by {
                let a = (j / size as int) % 2;
                let b = (h as int / size as int) % 2;
                assert(0 <= a < 2 && 0 <= b < 2);
            }
        }
        h += 1;
    }
    g
}

fn row_copy<T: Copy>(row: &Vec<T>) -> (r: Vec<T>)
    ensures
        r@ == row@,
{
    let mut r: Vec<T> = Vec::new();
    let mut w: usize = 0;
    while w < row.len()
        invariant
            w <= row.len(),
            r@ == row@.take(w as int),
        decreases row.len() - w,
    {
        r.push(row[w]);
        assert(row@.take(w as int + 1) =~= row@.take(w as int).push(row@[w as int]));
        w += 1;
    }
    assert(row@.take(w as int) =~= row@);
    r
}

/// Copies the top-left part of `src` that fits both buffers into `dst`,
/// leaving the rest of `dst` as it was.
pub fn copy_region<T: Copy>(
    dst: &mut Vec<Vec<T>>,
    dst_width: usize,
    dst_height: usize,
    src: &Vec<Vec<T>>,
    src_width: usize,
    src_height: usize,
)
    requires
        has_shape(old(dst)@, dst_width as nat, dst_height as nat),
        has_shape(src@, src_width as nat, src_height as nat),
    ensures
        has_shape(final(dst)@, dst_width as nat, dst_height as nat),
        forall|h: int, w: int|
            0 <= h < dst_height && 0 <= w < dst_width ==> final(dst)@[h]@[w] == if h < src_height && w
                < src_width {
                src@[h]@[w]
            } else {
                old(dst)@[h]@[w]
            },
{
    let rows = if src_height < dst_height {
        src_height
    } else {
        dst_height
    };
    let cols = if src_width < dst_width {
        src_width
    } else {
        dst_width
    };
    let mut h: usize = 0;
    while h < rows
        invariant
            rows <= dst_height,
            rows <= src_height,
            rows == dst_height || rows == src_height,
            cols <= dst_width,
            cols <= src_width,
            cols == dst_width || cols == src_width,
            h <= rows,
            has_shape(dst@, dst_width as nat, dst_height as nat),
            has_shape(src@, src_width as nat, src_height as nat),
            forall|i: int, w: int|
                0 <= i < dst_height && 0 <= w < dst_width ==> dst@[i]@[w] == if i < h && w < cols {
                    src@[i]@[w]
                } else {
                    old(dst)@[i]@[w]
                },
        decreases rows - h,
    {
        let mut row: Vec<T> = Vec::new();
        let mut w: usize = 0;
        while w < dst_width
            invariant
                cols <= dst_width,
                cols <= src_width,
                h < rows,
                rows <= dst_height,
                rows <= src_height,
                w <= dst_width,
                has_shape(dst@, dst_width as nat, dst_height as nat),
                has_shape(src@, src_width as nat, src_height as nat),
                row@.len() == w,
                forall|j: int| 0 <= j < w ==> row@[j] == if j < cols {
                    src@[h as int]@[j]
                } else {
                    dst@[h as int]@[j]
                },
            decreases dst_width - w,
        {
            if w < cols {
                row.push(src[h][w]);
            } else {
                row.push(dst[h][w]);
            }
            w += 1;
        }
        let ghost prev = dst@;
        dst.set(h, row);
        assert forall|i: int| 0 <= i < dst_height && i != h implies dst@[i] == prev[i] by {}
        h += 1;
    }
}

/// Groups a flat, row-major list of cells into rows of `width` cells; cells
/// after the last full row are left out.
pub fn rows_of<T: Copy>(items: &Vec<T>, width: usize) -> (g: Vec<Vec<T>>)
    requires
        width > 0,
    ensures
        has_shape(g@, width as nat, (items.len() / width) as nat),
        forall|h: int, w: int|
            0 <= h < g@.len() && 0 <= w < width ==> g@[h]@[w] == items@[h * width + w],
{
    let mut g: Vec<Vec<T>> = Vec::new();
    let mut row: Vec<T> = Vec::new();
    let mut start: usize = 0;
    let mut i: usize = 0;
    assert(g@.len() * width == 0) by (nonlinear_arith)
        requires
            g@.len() == 0,
    ;
    while i < items.len()
        invariant
            width > 0,
            i <= items.len(),
            start + row@.len() == i,
            row@.len() < width,
            start == g@.len() * width,
            row@ == items@.subrange(start as int, i as int),
            has_shape(g@, width as nat, g@.len()),
            forall|h: int, w: int|
                0 <= h < g@.len() && 0 <= w < width ==> g@[h]@[w] == items@[h * width + w],
        decreases items.len() - i,
    {
        row.push(items[i]);
        i += 1;
        assert(row@ =~= items@.subrange(start as int, i as int));
        if row.len() == width {
            let ghost prev = g@;
            let ghost full = row@;
            g.push(row);
            assert forall|h: int, w: int|
                0 <= h < g@.len() && 0 <= w < width implies g@[h]@[w] == items@[h * width + w] by {
                if h < prev.len() {
                    assert(g@[h] == prev[h]);
                } else {
                    assert(h == prev.len());
                    assert(g@[h]@ == full);
                    assert(h * width == start);
                }
            }
            start = i;
            assert(start == g@.len() * width) by (nonlinear_arith)
                requires
                    start == (g@.len() - 1) * width + width,
            ;
            row = Vec::new();
            assert(row@ =~= items@.subrange(start as int, i as int));
        }
    }
    proof {
        vstd::arithmetic::div_mod::lemma_fundamental_div_mod_converse(
            items.len() as int,
            width as int,
            g@.len() as int,
            row@.len() as int,
        );
    }
    g
}

} // verus!
