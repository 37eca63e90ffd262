//! How an image is sampled down: which block of it each new pixel is the average of,
//! and whether the sums over the blocks fit into 32 bits.
//!
//! The borders of the blocks are computed in single precision, for columns and for
//! rows alike.

use crate::pixels::{Picture, RgbaImage};
use crate::rounding;
use vstd::arithmetic::div_mod;
use vstd::prelude::*;

verus! {

/// Longest edge that an image is sampled down to, in pixels.
pub const MOST_BLOCKS: u32 = 256;

/// The largest number of pixels in a block for which a sum in 32 bits cannot
/// overflow, whatever the pixels are: 255 times that number, and half of it for the
/// rounding, stay below 2^32.
pub const MOST_PIXELS: u64 = 0x100_8040;

/// How many pixels of an edge go into one of the `blocks` blocks.
pub open spec fn ratio(edge: nat, blocks: nat) -> nat {
    rounding::single(rounding::single(edge * rounding::ONE as nat, 1), blocks)
}

/// Where a block starts.
pub open spec fn start(edge: nat, blocks: nat, i: nat) -> nat {
    rounding::single(i * ratio(edge, blocks), 1)
}

/// Where a block ends.
pub open spec fn end(edge: nat, blocks: nat, i: nat) -> nat {
    rounding::single(start(edge, blocks, i) + ratio(edge, blocks), 1)
}

/// The smallest number of whole pixels that is not below `n`.
pub open spec fn ceiling(n: nat) -> nat {
    (n + rounding::ONE as nat - 1) as nat / rounding::ONE as nat
}

/// The first pixel of a block.
pub open spec fn first(edge: nat, blocks: nat, i: nat) -> nat {
    let at = ceiling(start(edge, blocks, i));
    if at < edge {
        at
    } else {
        (edge - 1) as nat
    }
}

/// The first pixel past a block.
pub open spec fn past(edge: nat, blocks: nat, i: nat) -> nat {
    let at = ceiling(end(edge, blocks, i));
    if at < first(edge, blocks, i) {
        first(edge, blocks, i)
    } else if at > edge {
        edge
    } else {
        at
    }
}

/// How many pixels of the edge a block has.
pub open spec fn extent(edge: nat, blocks: nat, i: nat) -> nat {
    (past(edge, blocks, i) - first(edge, blocks, i)) as nat
}

/// How many pixels a block of an image has.
pub open spec fn block_pixels(
    width: nat,
    height: nat,
    across: nat,
    down: nat,
    i: nat,
    j: nat,
) -> nat {
    extent(width, across, i) * extent(height, down, j)
}

/// Whether every block has few enough pixels for any sum over it.
pub open spec fn blocks_are_small(width: nat, height: nat, across: nat, down: nat) -> bool {
    forall|i: nat, j: nat|
        i < across && j < down ==> #[trigger] block_pixels(width, height, across, down, i, j)
            <= MOST_PIXELS
}

/// A block lies on the edge.
pub proof fn blocks_lie_on_the_edge(edge: nat, blocks: nat, i: nat)
    requires
        edge > 0,
    ensures
        first(edge, blocks, i) < edge,
        first(edge, blocks, i) <= past(edge, blocks, i) <= edge,
        extent(edge, blocks, i) <= edge,
{
}

/// The first pixel of a block, and the first one past it.
pub fn block(edge: u32, blocks: u32, i: u32) -> (r: (u32, u32))
    requires
        0 < edge,
        0 < blocks <= MOST_BLOCKS,
        i < blocks,
    ensures
        r.0 == first(edge as nat, blocks as nat, i as nat),
        r.1 == past(edge as nat, blocks as nat, i as nat),
        r.0 < edge,
        r.0 <= r.1 <= edge,
{
    let exact: u128 = edge as u128 * rounding::ONE;
    let long: u128 = rounding::to_single(exact, 1);
    let ratio: u128 = rounding::to_single(long, blocks as u128);
    proof {
        div_mod::lemma_div_nonincreasing(long as int, blocks as int);
        assert(long <= 0x200_0000_0000_0000);
        assert(ratio <= 0x800_0000_0000_0000);
        assert(i * ratio <= 256 * 0x800_0000_0000_0000) by (nonlinear_arith)
            requires
                0 <= i <= 256,
                0 <= ratio <= 0x800_0000_0000_0000,
        ;
    }
    let start: u128 = rounding::to_single(i as u128 * ratio, 1);
    let end: u128 = rounding::to_single(start + ratio, 1);
    let at: u128 = (start + (rounding::ONE - 1)) / rounding::ONE;
    let first: u32 = if at < edge as u128 {
        at as u32
    } else {
        edge - 1
    };
    let at: u128 = (end + (rounding::ONE - 1)) / rounding::ONE;
    let past: u32 = if at < first as u128 {
        first
    } else if at > edge as u128 {
        edge
    } else {
        at as u32
    };
    (first, past)
}

/// All blocks of an edge.
fn blocks_of(edge: u32, blocks: u32) -> (r: Vec<(u32, u32)>)
    requires
        0 < edge,
        0 < blocks <= MOST_BLOCKS,
    ensures
        r@.len() == blocks,
        forall|i: int|
            0 <= i < blocks ==> {
                &&& (#[trigger] r@[i]).0 == first(edge as nat, blocks as nat, i as nat)
                &&& r@[i].1 == past(edge as nat, blocks as nat, i as nat)
                &&& r@[i].0 < edge
                &&& r@[i].0 <= r@[i].1 <= edge
            },
{
    let mut r: Vec<(u32, u32)> = Vec::new();
    for k in 0..blocks
        invariant
            0 < edge,
            0 < blocks <= MOST_BLOCKS,
            r@.len() == k,
            forall|i: int|
                0 <= i < k ==> {
                    &&& (#[trigger] r@[i]).0 == first(edge as nat, blocks as nat, i as nat)
                    &&& r@[i].1 == past(edge as nat, blocks as nat, i as nat)
                    &&& r@[i].0 < edge
                    &&& r@[i].0 <= r@[i].1 <= edge
                },
    {
        r.push(block(edge, blocks, k));
    }
    r
}

/// Whether every block has few enough pixels for any sum over it.
pub fn are_blocks_small(width: u32, height: u32, across: u32, down: u32) -> (r: bool)
    requires
        0 < width,
        0 < height,
        0 < across <= MOST_BLOCKS,
        0 < down <= MOST_BLOCKS,
    ensures
        r == blocks_are_small(width as nat, height as nat, across as nat, down as nat),
{
    let columns = blocks_of(width, across);
    let rows = blocks_of(height, down);
    for j in 0..down
        invariant
            columns@.len() == across,
            rows@.len() == down,
            forall|i: int|
                0 <= i < across ==> {
                    &&& (#[trigger] columns@[i]).0 == first(width as nat, across as nat, i as nat)
                    &&& columns@[i].1 == past(width as nat, across as nat, i as nat)
                    &&& columns@[i].0 <= columns@[i].1
                },
            forall|i: int|
                0 <= i < down ==> {
                    &&& (#[trigger] rows@[i]).0 == first(height as nat, down as nat, i as nat)
                    &&& rows@[i].1 == past(height as nat, down as nat, i as nat)
                    &&& rows@[i].0 <= rows@[i].1
                },
            forall|a: nat, b: nat|
                a < across && b < j ==> #[trigger] block_pixels(
                    width as nat,
                    height as nat,
                    across as nat,
                    down as nat,
                    a,
                    b,
                ) <= MOST_PIXELS,
    {
        let tall: u32 = rows[j as usize].1 - rows[j as usize].0;
        for i in 0..across
            invariant
                j < down,
                columns@.len() == across,
                tall == extent(height as nat, down as nat, j as nat),
                forall|i: int|
                    0 <= i < across ==> {
                        &&& (#[trigger] columns@[i]).0 == first(
                            width as nat,
                            across as nat,
                            i as nat,
                        )
                        &&& columns@[i].1 == past(width as nat, across as nat, i as nat)
                        &&& columns@[i].0 <= columns@[i].1
                    },
                forall|a: nat, b: nat|
                    a < across && b < j || a < i && b == j ==> #[trigger] block_pixels(
                        width as nat,
                        height as nat,
                        across as nat,
                        down as nat,
                        a,
                        b,
                    ) <= MOST_PIXELS,
        {
            let wide: u32 = columns[i as usize].1 - columns[i as usize].0;
            assert(wide * tall <= 0xffff_ffff * 0xffff_ffff) by (nonlinear_arith)
                requires
                    0 <= wide <= 0xffff_ffff,
                    0 <= tall <= 0xffff_ffff,
            ;
            let ghost n = block_pixels(
                width as nat,
                height as nat,
                across as nat,
                down as nat,
                i as nat,
                j as nat,
            );
            assert(n == wide * tall);
            if wide as u64 * tall as u64 > MOST_PIXELS {
                return false;
            }
        }
    }
    true
}

/// How far the numbers behind a block are from their exact values, in parts of 2^24.
proof fn borders_are_near(edge: nat, blocks: nat, i: nat)
    requires
        0 < edge <= u32::MAX,
        0 < blocks <= MOST_BLOCKS,
        i < blocks,
    ensures
        ({
            let whole = edge * rounding::ONE as nat;
            let r = ratio(edge, blocks);
            let l = start(edge, blocks, i);
            let t = end(edge, blocks, i);
            &&& 0x100_0000 * (r * blocks - whole) <= 3 * whole + 0x100_0000 * blocks + 0x200_0000
            &&& 0x100_0000 * (whole - r * blocks) <= 3 * whole + 0x100_0000 * blocks + 0x200_0000
            &&& 0x100_0000 * (t - l - r) <= 2 * whole + 0x400_0000
            &&& 0x100_0000 * (r - (t - l)) <= 2 * whole + 0x400_0000
        }),
{
    let whole = edge * rounding::ONE as nat;
    let e = rounding::single(whole, 1);
    let r = ratio(edge, blocks);
    let l = start(edge, blocks, i);
    let t = end(edge, blocks, i);
    assert(whole <= 0x80_0000 * 0xffff_ffff);
    rounding::single_is_near(whole, 1);
    rounding::single_is_near(e, blocks);
    rounding::single_is_near(i * r, 1);
    rounding::single_is_near(l + r, 1);
    assert(i * r + r <= r * blocks) by (nonlinear_arith)
        requires
            0 <= i < blocks,
            r >= 0,
    ;
}

/// No block is much longer than the others: the edge divided by the number of
/// blocks, with a few pixels on a long edge.
pub proof fn blocks_are_even(edge: nat, blocks: nat, i: nat)
    requires
        0 < edge <= u32::MAX,
        0 < blocks <= MOST_BLOCKS,
        i < blocks,
    ensures
        extent(edge, blocks, i) <= edge / blocks + edge / 0x40_0000 + 4,
{
    let whole = edge * rounding::ONE as nat;
    let one = rounding::ONE as nat;
    let r = ratio(edge, blocks);
    let l = start(edge, blocks, i);
    let t = end(edge, blocks, i);
    borders_are_near(edge, blocks, i);
    div_mod::lemma_fundamental_div_mod(edge as int, blocks as int);
    let q = edge / blocks;
    if blocks == 1 {
        assert(edge / blocks == edge) by (nonlinear_arith)
            requires
                blocks == 1,
        ;
    } else {
        let over = 3 * whole + 0x200_0000;
        assert(edge < blocks * (q + 1)) by (nonlinear_arith)
            requires
                edge < blocks * q + blocks,
        ;
        assert(0x200_0000 * r <= 0x200_0000 * (one * (q + 1)) + over + 0x200_0000)
            by (nonlinear_arith)
            requires
                0x100_0000 * (r * blocks - whole) <= over + 0x100_0000 * blocks,
                whole == edge * one,
                edge <= blocks * (q + 1),
                blocks >= 2,
                over >= 0,
                one == 0x80_0000,
        ;
        assert(t - l <= one * (q + edge / 0x40_0000 + 3));
        let a = ceiling(l);
        let b = ceiling(t);
        assert(b <= a + q + edge / 0x40_0000 + 4);
    }
}

/// An edge that keeps its length is cut into blocks of one pixel each.
pub proof fn blocks_of_the_same_edge_are_pixels(edge: nat, i: nat)
    requires
        i < edge <= MOST_BLOCKS,
    ensures
        first(edge, edge, i) == i,
        past(edge, edge, i) == i + 1,
{
    let one = rounding::ONE as nat;
    rounding::whole_numbers_are_exact(edge);
    rounding::whole_numbers_are_exact(1);
    rounding::whole_numbers_are_exact(i);
    rounding::whole_numbers_are_exact(i + 1);
    assert(edge * one == one * edge);
    div_mod::lemma_fundamental_div_mod_converse((edge * one) as int, edge as int, one as int, 0);
    rounding::unit_is_small(one);
    assert(edge * 1 == edge);
    assert(ratio(edge, edge) == one);
    assert(i * one + one == (i + 1) * one) by (nonlinear_arith);
}

/// Every block has a pixel when the edge is not stretched.
pub proof fn every_block_has_a_pixel(edge: nat, blocks: nat, i: nat)
    requires
        0 < edge <= u32::MAX,
        0 < blocks <= MOST_BLOCKS,
        blocks <= edge,
        i < blocks,
    ensures
        first(edge, blocks, i) < past(edge, blocks, i),
{
    if blocks == edge {
        blocks_of_the_same_edge_are_pixels(edge, i);
    } else {
        let one = rounding::ONE as nat;
        let whole = edge * one;
        let r = ratio(edge, blocks);
        let l = start(edge, blocks, i);
        let t = end(edge, blocks, i);
        borders_are_near(edge, blocks, i);
        assert(t - l >= one) by {
            let far = 2 * whole + 0x400_0000;
            let apart = 3 * whole + 0x100_0000 * blocks + 0x200_0000;
            let d = t - l;
            assert(0x100_0000 * (d * blocks) >= 0x100_0000 * whole - apart - far * blocks)
                by (nonlinear_arith)
                requires
                    0x100_0000 * (whole - r * blocks) <= apart,
                    0x100_0000 * (r - d) <= far,
                    blocks >= 0,
            ;
            assert(far * blocks <= far * 256) by (nonlinear_arith)
                requires
                    far >= 0,
                    blocks <= 256,
            ;
            assert(0x100_0000 * (d * blocks) >= 0x100_0000 * (one * blocks));
            assert(d >= one) by (nonlinear_arith)
                requires
                    d * blocks >= one * blocks,
                    blocks > 0,
            ;
        }
        assert(ceiling(t) >= ceiling(l) + 1);
    }
}

/// The sum of a channel over the pixels of a row from column `left` up to but not
/// including column `right`.
pub open spec fn row_sum(p: Picture, y: int, left: int, right: int, c: int) -> nat
    decreases right - left,
{
    if right <= left {
        0
    } else {
        row_sum(p, y, left, right - 1, c) + p.channel(right - 1, y, c) as nat
    }
}

/// The sum of a channel over the pixels of the rows from `bottom` up to but not
/// including `top`, each from column `left` up to but not including column `right`.
pub open spec fn rect_sum(
    p: Picture,
    left: int,
    right: int,
    bottom: int,
    top: int,
    c: int,
) -> nat
    decreases top - bottom,
{
    if top <= bottom {
        0
    } else {
        rect_sum(p, left, right, bottom, top - 1, c) + row_sum(p, top - 1, left, right, c)
    }
}

/// The sum of a channel over a block.
pub open spec fn block_sum(p: Picture, across: nat, down: nat, i: nat, j: nat, c: int) -> nat {
    rect_sum(
        p,
        first(p.width as nat, across, i) as int,
        past(p.width as nat, across, i) as int,
        first(p.height as nat, down, j) as int,
        past(p.height as nat, down, j) as int,
        c,
    )
}

/// Whether the number of the pixels of a block, and the sum of each channel over it
/// with half of that number for the rounding, fit into 32 bits.
pub open spec fn block_fits(p: Picture, across: nat, down: nat, i: nat, j: nat) -> bool {
    let n = block_pixels(p.width as nat, p.height as nat, across, down, i, j);
    &&& n <= u32::MAX
    &&& forall|c: int|
        0 <= c < 4 ==> #[trigger] block_sum(p, across, down, i, j, c) + n / 2 <= u32::MAX
}

/// Whether every block fits.
pub open spec fn sums_fit(p: Picture, across: nat, down: nat) -> bool {
    forall|i: nat, j: nat|
        i < across && j < down ==> #[trigger] block_fits(p, across, down, i, j)
}

/// A channel is at most 255, and so is its mean.
proof fn row_sum_is_bounded(p: Picture, y: int, left: int, right: int, c: int)
    requires
        left <= right,
    ensures
        row_sum(p, y, left, right, c) <= 255 * (right - left),
    decreases right - left,
{
    if left < right {
        row_sum_is_bounded(p, y, left, right - 1, c);
    }
}

/// A channel is at most 255, and so is its mean.
proof fn rect_sum_is_bounded(
    p: Picture,
    left: int,
    right: int,
    bottom: int,
    top: int,
    c: int,
)
    requires
        left <= right,
        bottom <= top,
    ensures
        rect_sum(p, left, right, bottom, top, c) <= 255 * ((right - left) * (top - bottom)),
    decreases top - bottom,
{
    if bottom < top {
        rect_sum_is_bounded(p, left, right, bottom, top - 1, c);
        row_sum_is_bounded(p, top - 1, left, right, c);
        assert((right - left) * (top - 1 - bottom) + (right - left) == (right - left) * (top
            - bottom)) by (nonlinear_arith);
    } else {
        assert((right - left) * (top - bottom) == 0) by (nonlinear_arith)
            requires
                top == bottom,
        ;
    }
}

/// A block of few pixels fits, whatever the pixels are.
proof fn small_block_fits(p: Picture, across: nat, down: nat, i: nat, j: nat)
    requires
        p.width > 0,
        p.height > 0,
        block_pixels(p.width as nat, p.height as nat, across, down, i, j) <= MOST_PIXELS,
    ensures
        block_fits(p, across, down, i, j),
{
    blocks_lie_on_the_edge(p.width as nat, across, i);
    blocks_lie_on_the_edge(p.height as nat, down, j);
    let n = block_pixels(p.width as nat, p.height as nat, across, down, i, j);
    assert forall|c: int| 0 <= c < 4 implies #[trigger] block_sum(p, across, down, i, j, c) + n / 2
        <= u32::MAX by {
        rect_sum_is_bounded(
            p,
            first(p.width as nat, across, i) as int,
            past(p.width as nat, across, i) as int,
            first(p.height as nat, down, j) as int,
            past(p.height as nat, down, j) as int,
            c,
        );
    }
}

/// Where all blocks are small, the sums fit whatever the pixels are.
pub proof fn small_blocks_fit(p: Picture, across: nat, down: nat)
    requires
        p.width > 0,
        p.height > 0,
        blocks_are_small(p.width as nat, p.height as nat, across, down),
    ensures
        sums_fit(p, across, down),
{
    assert forall|i: nat, j: nat| i < across && j < down implies #[trigger] block_fits(
        p,
        across,
        down,
        i,
        j,
    ) by {
        assert(block_pixels(p.width as nat, p.height as nat, across, down, i, j) <= MOST_PIXELS);
        small_block_fits(p, across, down, i, j);
    }
}

/// The sum of a channel over a rectangle.
fn sum_of(image: &RgbaImage, columns: (u32, u32), rows: (u32, u32), c: usize) -> (r: u64)
    requires
        columns.0 <= columns.1 <= image@.width,
        rows.0 <= rows.1 <= image@.height,
        c < 4,
        (columns.1 - columns.0) * (rows.1 - rows.0) <= u32::MAX,
    ensures
        r == rect_sum(
            image@,
            columns.0 as int,
            columns.1 as int,
            rows.0 as int,
            rows.1 as int,
            c as int,
        ),
{
    let raw = image.as_raw();
    let width: usize = image.width() as usize;
    let ghost p = image@;
    let (left, right) = columns;
    let (bottom, top) = rows;
    let mut sum: u64 = 0;
    for y in bottom..top
        invariant
            raw@ == p.pixels,
            p.wf(),
            width == p.width,
            left <= right <= p.width,
            bottom <= top <= p.height,
            c < 4,
            (right - left) * (top - bottom) <= u32::MAX,
            sum == rect_sum(p, left as int, right as int, bottom as int, y as int, c as int),
    {
        let ghost before = sum;
        proof {
            rect_sum_is_bounded(p, left as int, right as int, bottom as int, y as int, c as int);
            assert((right - left) * (y - bottom) + (right - left) <= (right - left) * (top
                - bottom)) by (nonlinear_arith)
                requires
                    bottom <= y < top,
                    left <= right,
            ;
        }
        for x in left..right
            invariant
                raw@ == p.pixels,
                p.wf(),
                width == p.width,
                left <= right <= p.width,
                y < p.height,
                c < 4,
                before <= 255 * (u32::MAX - (right - left)),
                sum == before + row_sum(p, y as int, left as int, x as int, c as int),
        {
            proof {
                row_sum_is_bounded(p, y as int, left as int, x as int, c as int);
                assert((y * width + x) * 4 + c < p.width * p.height * 4) by (nonlinear_arith)
                    requires
                        0 <= y < p.height,
                        0 <= x < p.width,
                        width == p.width,
                        0 <= c < 4,
                ;
                assert((y * width + x) * 4 + c < raw.len());
                assert(0 <= y * width) by (nonlinear_arith)
                    requires
                        0 <= y,
                        0 <= width,
                ;
            }
            sum = sum + raw[(y as usize * width + x as usize) * 4 + c] as u64;
        }
    }
    sum
}

/// Whether a block fits.
fn does_block_fit(
    image: &RgbaImage,
    across: u32,
    down: u32,
    i: u32,
    j: u32,
    columns: (u32, u32),
    rows: (u32, u32),
) -> (r: bool)
    requires
        image@.width > 0,
        image@.height > 0,
        columns.0 == first(image@.width as nat, across as nat, i as nat),
        columns.1 == past(image@.width as nat, across as nat, i as nat),
        rows.0 == first(image@.height as nat, down as nat, j as nat),
        rows.1 == past(image@.height as nat, down as nat, j as nat),
    ensures
        r == block_fits(image@, across as nat, down as nat, i as nat, j as nat),
{
    let ghost p = image@;
    proof {
        blocks_lie_on_the_edge(p.width as nat, across as nat, i as nat);
        blocks_lie_on_the_edge(p.height as nat, down as nat, j as nat);
    }
    let wide: u32 = columns.1 - columns.0;
    let tall: u32 = rows.1 - rows.0;
    assert(wide * tall <= 0xffff_ffff * 0xffff_ffff) by (nonlinear_arith)
        requires
            0 <= wide <= 0xffff_ffff,
            0 <= tall <= 0xffff_ffff,
    ;
    let n: u64 = wide as u64 * tall as u64;
    assert(n == block_pixels(
        p.width as nat,
        p.height as nat,
        across as nat,
        down as nat,
        i as nat,
        j as nat,
    ));
    if n <= MOST_PIXELS {
        proof {
            small_block_fits(p, across as nat, down as nat, i as nat, j as nat);
        }
        return true;
    }
    if n > u32::MAX as u64 {
        return false;
    }
    for c in 0..4usize
        invariant
            columns.0 <= columns.1 <= image@.width,
            rows.0 <= rows.1 <= image@.height,
            columns.0 == first(image@.width as nat, across as nat, i as nat),
            columns.1 == past(image@.width as nat, across as nat, i as nat),
            rows.0 == first(image@.height as nat, down as nat, j as nat),
            rows.1 == past(image@.height as nat, down as nat, j as nat),
            n == (columns.1 - columns.0) * (rows.1 - rows.0),
            n == block_pixels(
                image@.width as nat,
                image@.height as nat,
                across as nat,
                down as nat,
                i as nat,
                j as nat,
            ),
            n <= u32::MAX,
            forall|k: int|
                0 <= k < c ==> #[trigger] block_sum(
                    image@,
                    across as nat,
                    down as nat,
                    i as nat,
                    j as nat,
                    k,
                ) + n / 2 <= u32::MAX,
    {
        let sum: u64 = sum_of(image, columns, rows, c);
        assert(sum == block_sum(
            image@,
            across as nat,
            down as nat,
            i as nat,
            j as nat,
            c as int,
        ));
        if sum > u32::MAX as u64 - n / 2 {
            return false;
        }
    }
    true
}

/// Whether every block fits.
pub fn do_sums_fit(image: &RgbaImage, across: u32, down: u32) -> (r: bool)
    requires
        image@.width > 0,
        image@.height > 0,
        0 < across <= MOST_BLOCKS,
        0 < down <= MOST_BLOCKS,
    ensures
        r == sums_fit(image@, across as nat, down as nat),
{
    let columns = blocks_of(image.width(), across);
    let rows = blocks_of(image.height(), down);
    for j in 0..down
        invariant
            image@.width > 0,
            image@.height > 0,
            columns@.len() == across,
            rows@.len() == down,
            forall|i: int|
                0 <= i < across ==> {
                    &&& (#[trigger] columns@[i]).0 == first(
                        image@.width as nat,
                        across as nat,
                        i as nat,
                    )
                    &&& columns@[i].1 == past(image@.width as nat, across as nat, i as nat)
                },
            forall|i: int|
                0 <= i < down ==> {
                    &&& (#[trigger] rows@[i]).0 == first(
                        image@.height as nat,
                        down as nat,
                        i as nat,
                    )
                    &&& rows@[i].1 == past(image@.height as nat, down as nat, i as nat)
                },
            forall|a: nat, b: nat|
                a < across && b < j ==> #[trigger] block_fits(
                    image@,
                    across as nat,
                    down as nat,
                    a,
                    b,
                ),
    {
        for i in 0..across
            invariant
                image@.width > 0,
                image@.height > 0,
                j < down,
                columns@.len() == across,
                rows@.len() == down,
                rows@[j as int].0 == first(image@.height as nat, down as nat, j as nat),
                rows@[j as int].1 == past(image@.height as nat, down as nat, j as nat),
                forall|i: int|
                    0 <= i < across ==> {
                        &&& (#[trigger] columns@[i]).0 == first(
                            image@.width as nat,
                            across as nat,
                            i as nat,
                        )
                        &&& columns@[i].1 == past(image@.width as nat, across as nat, i as nat)
                    },
                forall|a: nat, b: nat|
                    a < across && b < j || a < i && b == j ==> #[trigger] block_fits(
                        image@,
                        across as nat,
                        down as nat,
                        a,
                        b,
                    ),
        {
            let fits = does_block_fit(
                image,
                across,
                down,
                i,
                j,
                columns[i as usize],
                rows[j as usize],
            );
            if !fits {
                return false;
            }
        }
    }
    true
}

/// The mean of a channel over a block, rounded to the nearest integer, and up where
/// two are equally near.
pub open spec fn mean(p: Picture, across: nat, down: nat, i: nat, j: nat, c: int) -> nat {
    let n = block_pixels(p.width as nat, p.height as nat, across, down, i, j);
    (block_sum(p, across, down, i, j, c) + n / 2) / n
}

/// The sum over a row lies between as many times the least and the greatest value.
proof fn row_sum_lies_between(
    p: Picture,
    y: int,
    left: int,
    right: int,
    c: int,
    lo: int,
    hi: int,
)
    requires
        left <= right,
        forall|x: int| left <= x < right ==> lo <= #[trigger] p.channel(x, y, c) <= hi,
    ensures
        lo * (right - left) <= row_sum(p, y, left, right, c) <= hi * (right - left),
    decreases right - left,
{
    if left < right {
        row_sum_lies_between(p, y, left, right - 1, c, lo, hi);
        assert(lo <= p.channel(right - 1, y, c) <= hi);
        assert(lo * (right - 1 - left) + lo == lo * (right - left)) by (nonlinear_arith);
        assert(hi * (right - 1 - left) + hi == hi * (right - left)) by (nonlinear_arith);
    } else {
        assert(lo * (right - left) == 0 && hi * (right - left) == 0) by (nonlinear_arith)
            requires
                right == left,
        ;
    }
}

/// The sum over a rectangle lies between as many times the least and the greatest
/// value.
proof fn rect_sum_lies_between(
    p: Picture,
    left: int,
    right: int,
    bottom: int,
    top: int,
    c: int,
    lo: int,
    hi: int,
)
    requires
        left <= right,
        bottom <= top,
        forall|x: int, y: int|
            left <= x < right && bottom <= y < top ==> lo <= #[trigger] p.channel(x, y, c) <= hi,
    ensures
        lo * ((right - left) * (top - bottom)) <= rect_sum(p, left, right, bottom, top, c) <= hi * (
        (right - left) * (top - bottom)),
    decreases top - bottom,
{
    let wide = right - left;
    if bottom < top {
        rect_sum_lies_between(p, left, right, bottom, top - 1, c, lo, hi);
        row_sum_lies_between(p, top - 1, left, right, c, lo, hi);
        assert(lo * (wide * (top - 1 - bottom)) + lo * wide == lo * (wide * (top - bottom)))
            by (nonlinear_arith);
        assert(hi * (wide * (top - 1 - bottom)) + hi * wide == hi * (wide * (top - bottom)))
            by (nonlinear_arith);
    } else {
        assert(lo * (wide * (top - bottom)) == 0 && hi * (wide * (top - bottom)) == 0)
            by (nonlinear_arith)
            requires
                top == bottom,
        ;
    }
}

/// The mean over a block lies between the least and the greatest value that the
/// channel has in the block.
pub proof fn means_lie_between(
    p: Picture,
    across: nat,
    down: nat,
    i: nat,
    j: nat,
    c: int,
    lo: int,
    hi: int,
)
    requires
        0 < across <= MOST_BLOCKS,
        0 < down <= MOST_BLOCKS,
        across <= p.width,
        down <= p.height,
        i < across,
        j < down,
        0 <= lo,
        forall|x: int, y: int|
            first(p.width as nat, across, i) <= x < past(p.width as nat, across, i) && first(
                p.height as nat,
                down,
                j,
            ) <= y < past(p.height as nat, down, j) ==> lo <= #[trigger] p.channel(x, y, c) <= hi,
    ensures
        lo <= mean(p, across, down, i, j, c) <= hi,
{
    let n = block_pixels(p.width as nat, p.height as nat, across, down, i, j);
    let wide = extent(p.width as nat, across, i);
    let tall = extent(p.height as nat, down, j);
    every_block_has_a_pixel(p.width as nat, across, i);
    every_block_has_a_pixel(p.height as nat, down, j);
    rect_sum_lies_between(
        p,
        first(p.width as nat, across, i) as int,
        past(p.width as nat, across, i) as int,
        first(p.height as nat, down, j) as int,
        past(p.height as nat, down, j) as int,
        c,
        lo,
        hi,
    );
    assert(n > 0) by (nonlinear_arith)
        requires
            n == wide * tall,
            wide > 0,
            tall > 0,
    ;
    let sum = block_sum(p, across, down, i, j, c);
    let m = mean(p, across, down, i, j, c);
    div_mod::lemma_fundamental_div_mod((sum + n / 2) as int, n as int);
    assert(lo <= m) by (nonlinear_arith)
        requires
            lo * n <= sum,
            sum + n / 2 < n * m + n,
            n > 0,
            n / 2 >= 0,
    ;
    assert(m <= hi) by (nonlinear_arith)
        requires
            sum <= hi * n,
            n * m <= sum + n / 2,
            n / 2 < n,
            n > 0,
    ;
}

/// How far a block can lie from its exact place, in pixels.
pub open spec fn slack(edge: nat) -> nat {
    edge / 0x10_0000 + 3
}

/// Block `i` of an edge lies where the `i`th of as many equal parts lies.
pub proof fn blocks_lie_in_place(edge: nat, blocks: nat, i: nat)
    requires
        0 < edge <= u32::MAX,
        0 < blocks <= MOST_BLOCKS,
        blocks <= edge,
        i < blocks,
    ensures
        i * edge <= (first(edge, blocks, i) + slack(edge)) * blocks,
        past(edge, blocks, i) * blocks <= (i + 1) * edge + slack(edge) * blocks,
{
    let one = rounding::ONE as nat;
    let whole = edge * one;
    let r = ratio(edge, blocks);
    let l = start(edge, blocks, i);
    let t = end(edge, blocks, i);
    let s = slack(edge);
    let f = first(edge, blocks, i);
    let g = past(edge, blocks, i);
    borders_are_near(edge, blocks, i);
    every_block_has_a_pixel(edge, blocks, i);
    rounding::single_is_near(i * r, 1);
    assert(i * r + r <= r * blocks) by (nonlinear_arith)
        requires
            0 <= i < blocks,
            r >= 0,
    ;
    let apart = 3 * whole + 0x100_0000 * blocks + 0x200_0000;
    assert(apart <= 3 * whole + 0x1_4000_0000);
    // What `i` parts are off, against what all of them are.
    assert(0x100_0000 * (i * (r * blocks) - i * whole) <= i * apart && 0x100_0000 * (i * whole - i
        * (r * blocks)) <= i * apart) by (nonlinear_arith)
        requires
            0x100_0000 * (r * blocks - whole) <= apart,
            0x100_0000 * (whole - r * blocks) <= apart,
            i >= 0,
    ;
    assert(i * apart <= blocks * apart) by (nonlinear_arith)
        requires
            i <= blocks,
            apart >= 0,
    ;
    assert(i * (r * blocks) == (i * r) * blocks) by (nonlinear_arith);
    // The place of the block, times the number of blocks.
    assert(0x100_0000 * (i * r - l) <= 2 * whole + 0x1000_0000);
    assert(0x100_0000 * (l - i * r) <= 2 * whole + 0x1000_0000);
    let near = 2 * whole + 0x1000_0000;
    assert(0x100_0000 * (i * whole) <= 0x100_0000 * (l * blocks) + blocks * apart + blocks * near)
        by (nonlinear_arith)
        requires
            0x100_0000 * (i * whole - (i * r) * blocks) <= blocks * apart,
            0x100_0000 * (i * r - l) <= near,
            blocks >= 0,
    ;
    assert(0x100_0000 * (l * blocks) <= 0x100_0000 * (i * whole) + blocks * apart + blocks * near)
        by (nonlinear_arith)
        requires
            0x100_0000 * ((i * r) * blocks - i * whole) <= blocks * apart,
            0x100_0000 * (l - i * r) <= near,
            blocks >= 0,
    ;
    let k = i * edge;
    assert(i * whole == one * k) by (nonlinear_arith)
        requires
            whole == edge * one,
            k == i * edge,
    ;
    assert(apart + near <= 0x100_0000 * (one * (s - 1)));
    if f == edge - 1 {
        assert(k <= (f + s) * blocks) by (nonlinear_arith)
            requires
                k == i * edge,
                i < blocks,
                f == edge - 1,
                s >= 1,
                edge >= 0,
        ;
    } else {
        assert(f * one >= l);
        assert(k <= (f + s) * blocks) by (nonlinear_arith)
            requires
                0x100_0000 * (one * k) <= 0x100_0000 * (l * blocks) + blocks * apart + blocks * near,
                apart + near <= 0x100_0000 * (one * (s - 1)),
                l <= f * one,
                blocks >= 0,
                one == 0x80_0000,
        ;
    }
    assert((i + 1) * edge == k + edge) by (nonlinear_arith)
        requires
            k == i * edge,
    ;
    assert(g * one <= t + one);
    let far = 3 * whole + 0x8000_0000;
    assert(0x100_0000 * (t - l - r) <= far);
    assert((l + r) * blocks == l * blocks + r * blocks) by (nonlinear_arith);
    assert(0x100_0000 * (t * blocks) <= 0x100_0000 * ((l + r) * blocks) + blocks * far)
        by (nonlinear_arith)
        requires
            0x100_0000 * (t - l - r) <= far,
            blocks >= 0,
    ;
    assert(blocks * (apart + near) == blocks * apart + blocks * near) by (nonlinear_arith);
    assert(one * (k + edge) == one * k + whole);
    assert(apart <= blocks * apart) by (nonlinear_arith)
        requires
            blocks >= 1,
            apart >= 0,
    ;
    assert(2 * apart + near + far <= 0x100_0000 * (one * (s - 1)));
    assert(g * blocks <= (i + 1) * edge + s * blocks) by (nonlinear_arith)
        requires
            (i + 1) * edge == k + edge,
            0x100_0000 * (t * blocks) <= 0x100_0000 * (one * (k + edge)) + blocks * (apart + near)
                + apart + blocks * far,
            apart <= blocks * apart,
            2 * apart + near + far <= 0x100_0000 * (one * (s - 1)),
            g * one <= t + one,
            blocks >= 0,
            one == 0x80_0000,
    ;
}

} // verus!
