//! Synthetic RGB24 test frames (ten solid colours with a tag strip on row 0),
//! and recognising which one a decoded frame shows.

use vstd::prelude::*;

verus! {

/// Number of distinct test-cycle frames.
pub const CYCLE_COUNT: u32 = 10;

/// Fill colour of test frame `cycle % 10`.
pub open spec fn palette(cycle: u32) -> (u8, u8, u8) {
    let c = cycle % 10;
    if c == 0 { (210, 20, 20) }
    else if c == 1 { (20, 210, 20) }
    else if c == 2 { (20, 20, 210) }
    else if c == 3 { (210, 210, 20) }
    else if c == 4 { (210, 20, 210) }
    else if c == 5 { (20, 210, 210) }
    else if c == 6 { (140, 60, 210) }
    else if c == 7 { (210, 140, 60) }
    else if c == 8 { (60, 210, 140) }
    else { (180, 180, 180) }
}

/// Fill colour of test frame `cycle % 10`.
pub fn cycle_palette(cycle: u32) -> (r: (u8, u8, u8))
    ensures
        r == palette(cycle),
{
    let c = cycle % CYCLE_COUNT;
    if c == 0 { (210, 20, 20) }
    else if c == 1 { (20, 210, 20) }
    else if c == 2 { (20, 20, 210) }
    else if c == 3 { (210, 210, 20) }
    else if c == 4 { (210, 20, 210) }
    else if c == 5 { (20, 210, 210) }
    else if c == 6 { (140, 60, 210) }
    else if c == 7 { (210, 140, 60) }
    else if c == 8 { (60, 210, 140) }
    else { (180, 180, 180) }
}

/// Colour of the tag strip of frame `c` (c < 10): `c * (23, 37, 53) + 40`, modulo 256.
pub open spec fn tag_colour(c: u32) -> (u8, u8, u8) {
    ((c * 23 + 40) as u8, (c * 37 + 40) as u8, (c * 53 + 40) as u8)
}

/// Channel `ch` (0 red, 1 green, 2 blue) of a colour.
pub open spec fn channel(col: (u8, u8, u8), ch: int) -> u8 {
    if ch == 0 { col.0 } else if ch == 1 { col.1 } else { col.2 }
}

/// Width of the tag strip of frame `c` in a frame `width` pixels wide.
pub open spec fn bar_width(width: u32, c: u32) -> int {
    if (width as int) < 40 + 4 * c { width as int } else { 40 + 4 * c }
}

/// Byte `k` of test frame `cycle`: the tag colour for the first pixels of
/// row 0, the fill colour elsewhere.
pub open spec fn cycle_frame_byte(width: u32, cycle: u32, k: int) -> u8 {
    let c = cycle % 10;
    let col = if k / 3 < bar_width(width, c) { tag_colour(c) } else { palette(c) };
    channel(col, k % 3)
}

/// Test frame `cycle % 10` of `width` x `height` pixels (RGB24): a solid fill
/// with a tag strip of `min(width, 40 + 4 * (cycle % 10))` pixels on row 0.
pub fn test_cycle_frame(width: u32, height: u32, cycle: u32) -> (buf: Vec<u8>)
    requires
        width as int * height as int * 3 <= usize::MAX,
        width == 0 || height > 0,
    ensures
        buf@.len() == width as int * height as int * 3,
        forall|k: int| 0 <= k < buf@.len() ==> #[trigger] buf@[k] == cycle_frame_byte(width, cycle, k),
{
    let c = cycle % CYCLE_COUNT;
    let pal = cycle_palette(c);
    let tag: (u8, u8, u8) = (((c * 23) + 40) as u8, ((c * 37) + 40) as u8, ((c * 53) + 40) as u8);
    let n: usize = (width as usize) * (height as usize);
    let bar: usize = if (width as usize) < 40 + 4 * (c as usize) { width as usize } else { 40 + 4 * (c as usize) };
    assert(c == cycle % 10);
    assert(bar == bar_width(width, c));
    let mut buf: Vec<u8> = Vec::new();
    let mut p: usize = 0;
    while p < n
        invariant
            n == width as int * height as int,
            n * 3 <= usize::MAX,
            c == cycle % 10,
            pal == palette(c),
            tag == tag_colour(c),
            bar == bar_width(width, c),
            p <= n,
            buf@.len() == p * 3,
            forall|k: int| 0 <= k < buf@.len() ==> #[trigger] buf@[k] == cycle_frame_byte(width, cycle, k),
        decreases n - p,
    {
        let col = if p < bar { tag } else { pal };
        let ghost base = buf@.len() as int;
        buf.push(col.0);
        buf.push(col.1);
        buf.push(col.2);
        assert forall|k: int| 0 <= k < buf@.len() implies #[trigger] buf@[k] == cycle_frame_byte(width, cycle, k) by {
            if k >= base {
                assert(k / 3 == p as int);
                assert(k % 3 == k - base);
            }
        }
        p += 1;
    }
    buf
}

/// Sum of channel `ch` over the first `npx` pixels.
pub open spec fn channel_sum(b: Seq<u8>, ch: int, npx: int) -> int
    decreases npx,
{
    if npx <= 0 {
        0
    } else {
        channel_sum(b, ch, npx - 1) + b[3 * (npx - 1) + ch]
    }
}

/// Mean colour of the whole pixels of an RGB24 buffer (each channel rounded down).
pub open spec fn mean_rgb(b: Seq<u8>) -> (u8, u8, u8) {
    let npx = b.len() / 3;
    let n: int = if npx < 1 { 1 } else { npx as int };
    ((channel_sum(b, 0, npx as int) / n) as u8, (channel_sum(b, 1, npx as int) / n) as u8, (channel_sum(b, 2, npx as int) / n) as u8)
}

proof fn lemma_channel_sum_bound(b: Seq<u8>, ch: int, npx: int)
    requires
        0 <= ch < 3,
        0 <= npx,
        3 * npx <= b.len(),
    ensures
        0 <= channel_sum(b, ch, npx) <= 255 * npx,
    decreases npx,
{
    if npx > 0 {
        lemma_channel_sum_bound(b, ch, npx - 1);
    }
}

proof fn lemma_mean_bound(s: int, n: int)
    requires
        n >= 1,
        0 <= s <= 255 * n,
    ensures
        0 <= s / n <= 255,
{
    assert(s / n <= 255) by (nonlinear_arith)
        requires n >= 1, 0 <= s <= 255 * n;
    assert(s / n >= 0) by (nonlinear_arith)
        requires n >= 1, 0 <= s;
}

/// Mean colour of an RGB24 buffer.
pub fn frame_mean_rgb(rgb: &[u8]) -> (r: (u8, u8, u8))
    ensures
        r == mean_rgb(rgb@),
{
    let total: usize = rgb.len();
    let npx: usize = total / 3;
    let mut r: u128 = 0;
    let mut g: u128 = 0;
    let mut b: u128 = 0;
    let mut p: usize = 0;
    while p < npx
        invariant
            npx == rgb@.len() / 3,
            rgb@.len() <= usize::MAX,
            p <= npx,
            r == channel_sum(rgb@, 0, p as int),
            g == channel_sum(rgb@, 1, p as int),
            b == channel_sum(rgb@, 2, p as int),
        decreases npx - p,
    {
        proof {
            lemma_channel_sum_bound(rgb@, 0, p as int);
            lemma_channel_sum_bound(rgb@, 1, p as int);
            lemma_channel_sum_bound(rgb@, 2, p as int);
        }
        assert(3 * p + 2 < rgb@.len());
        r = r + rgb[3 * p] as u128;
        g = g + rgb[3 * p + 1] as u128;
        b = b + rgb[3 * p + 2] as u128;
        p += 1;
    }
    let n: u128 = if npx < 1 { 1 } else { npx as u128 };
    proof {
        lemma_channel_sum_bound(rgb@, 0, npx as int);
        lemma_channel_sum_bound(rgb@, 1, npx as int);
        lemma_channel_sum_bound(rgb@, 2, npx as int);
        lemma_mean_bound(r as int, n as int);
        lemma_mean_bound(g as int, n as int);
        lemma_mean_bound(b as int, n as int);
    }
    ((r / n) as u8, (g / n) as u8, (b / n) as u8)
}

/// Squared distance between two colours.
pub open spec fn colour_distance(a: (u8, u8, u8), b: (u8, u8, u8)) -> int {
    (a.0 - b.0) * (a.0 - b.0) + (a.1 - b.1) * (a.1 - b.1) + (a.2 - b.2) * (a.2 - b.2)
}

/// Squared distance between two colours.
pub fn color_distance(a: (u8, u8, u8), b: (u8, u8, u8)) -> (r: u32)
    ensures
        r == colour_distance(a, b),
{
    let dr: i32 = a.0 as i32 - b.0 as i32;
    let dg: i32 = a.1 as i32 - b.1 as i32;
    let db: i32 = a.2 as i32 - b.2 as i32;
    assert(0 <= dr * dr <= 65025) by (nonlinear_arith)
        requires -255 <= dr <= 255;
    assert(0 <= dg * dg <= 65025) by (nonlinear_arith)
        requires -255 <= dg <= 255;
    assert(0 <= db * db <= 65025) by (nonlinear_arith)
        requires -255 <= db <= 255;
    (dr * dr + dg * dg + db * db) as u32
}

/// `c` is the first of the ten test colours nearest to `mean`.
pub open spec fn is_nearest_cycle(mean: (u8, u8, u8), c: u32) -> bool {
    &&& c < 10
    &&& forall|d: u32| d < 10 ==> colour_distance(mean, palette(c)) <= #[trigger] colour_distance(mean, palette(d))
    &&& forall|d: u32| d < c ==> colour_distance(mean, palette(c)) < #[trigger] colour_distance(mean, palette(d))
}

/// The test colour (first of the nearest) closest to a mean colour.
pub fn nearest_cycle(mean: (u8, u8, u8)) -> (r: u32)
    ensures
        is_nearest_cycle(mean, r),
{
    let mut best: u32 = 0;
    let mut best_d: u32 = color_distance(mean, cycle_palette(0));
    let mut c: u32 = 1;
    while c < CYCLE_COUNT
        invariant
            1 <= c <= 10,
            best < c,
            best_d == colour_distance(mean, palette(best)),
            forall|d: u32| d < c ==> best_d <= #[trigger] colour_distance(mean, palette(d)),
            forall|d: u32| d < best ==> best_d < #[trigger] colour_distance(mean, palette(d)),
        decreases 10 - c,
    {
        let d = color_distance(mean, cycle_palette(c));
        if d < best_d {
            best = c;
            best_d = d;
        }
        c += 1;
    }
    best
}

/// Row and column bounds of the interior of a frame: rows from
/// `max(1, h / 10)` to `max(h - h / 10, that + 1)`, columns from `w / 10` to
/// `max(w - w / 10, that + 1)`.
pub open spec fn interior_bounds(w: int, h: int) -> (int, int, int, int) {
    let y0 = if h / 10 < 1 { 1 } else { h / 10 };
    let y1a = h - h / 10;
    let y1 = if y1a < y0 + 1 { y0 + 1 } else { y1a };
    let x0 = w / 10;
    let x1a = w - w / 10;
    let x1 = if x1a < x0 + 1 { x0 + 1 } else { x1a };
    (y0, y1, x0, x1)
}

/// Sum of channel `ch` over columns `x0..x` of row `y` of a `w`-pixel-wide frame.
pub open spec fn row_sum(b: Seq<u8>, w: int, ch: int, y: int, x0: int, x: int) -> int
    decreases x - x0,
{
    if x <= x0 {
        0
    } else {
        row_sum(b, w, ch, y, x0, x - 1) + b[y * (w * 3) + (x - 1) * 3 + ch]
    }
}

/// Sum of channel `ch` over rows `y0..y`, columns `x0..x1`.
pub open spec fn block_sum(b: Seq<u8>, w: int, ch: int, y0: int, y: int, x0: int, x1: int) -> int
    decreases y - y0,
{
    if y <= y0 {
        0
    } else {
        block_sum(b, w, ch, y0, y - 1, x0, x1) + row_sum(b, w, ch, y - 1, x0, x1)
    }
}

/// The interior path of `interior_mean` applies: the frame is non-empty and
/// the buffer holds all of it.
pub open spec fn interior_applies(len: int, w: int, h: int) -> bool {
    !(w == 0 || h == 0 || len < w * h * 3)
}

/// Reading the interior stays inside the buffer (only a one-row frame can
/// reach past its end, to a second row).
pub open spec fn interior_in_bounds(len: int, w: int, h: int) -> bool {
    interior_applies(len, w, h) ==> interior_bounds(w, h).1 * (w * 3) <= len
}

/// Mean colour of the interior of a `w` x `h` frame (row 0's tag strip and
/// 10 % margins left out, each channel rounded down); the whole-buffer mean
/// when the frame is empty or the buffer shorter than the frame.
pub open spec fn interior_mean(b: Seq<u8>, w: int, h: int) -> (u8, u8, u8) {
    if !interior_applies(b.len() as int, w, h) {
        mean_rgb(b)
    } else {
        let (y0, y1, x0, x1) = interior_bounds(w, h);
        let n = (y1 - y0) * (x1 - x0);
        ((block_sum(b, w, 0, y0, y1, x0, x1) / n) as u8, (block_sum(b, w, 1, y0, y1, x0, x1) / n) as u8, (block_sum(b, w, 2, y0, y1, x0, x1) / n) as u8)
    }
}

proof fn lemma_row_sum_bound(b: Seq<u8>, w: int, ch: int, y: int, x0: int, x: int)
    requires
        0 <= ch < 3,
        0 <= y,
        0 <= x0 <= x <= w,
        (y + 1) * (w * 3) <= b.len(),
    ensures
        0 <= row_sum(b, w, ch, y, x0, x) <= 255 * (x - x0),
    decreases x - x0,
{
    if x > x0 {
        lemma_row_sum_bound(b, w, ch, y, x0, x - 1);
        assert(y * (w * 3) + (x - 1) * 3 + ch < (y + 1) * (w * 3)) by (nonlinear_arith)
            requires 0 <= ch < 3, x <= w, x >= 1, 0 <= y;
    }
}

proof fn lemma_block_sum_bound(b: Seq<u8>, w: int, ch: int, y0: int, y: int, x0: int, x1: int)
    requires
        0 <= ch < 3,
        0 <= y0 <= y,
        0 <= x0 <= x1 <= w,
        y * (w * 3) <= b.len(),
    ensures
        0 <= block_sum(b, w, ch, y0, y, x0, x1) <= 255 * (x1 - x0) * (y - y0),
    decreases y - y0,
{
    if y > y0 {
        assert((y - 1) * (w * 3) <= y * (w * 3)) by (nonlinear_arith)
            requires y >= 1, w >= 0;
        lemma_block_sum_bound(b, w, ch, y0, y - 1, x0, x1);
        lemma_row_sum_bound(b, w, ch, y - 1, x0, x1);
        assert(255 * (x1 - x0) * (y - 1 - y0) + 255 * (x1 - x0) == 255 * (x1 - x0) * (y - y0)) by (nonlinear_arith);
    }
}

/// Mean colour of the interior of a `width` x `height` RGB24 frame.
pub fn frame_mean_rgb_interior(rgb: &[u8], width: u32, height: u32) -> (r: (u8, u8, u8))
    requires
        width as int * height as int * 3 <= usize::MAX,
        interior_in_bounds(rgb@.len() as int, width as int, height as int),
    ensures
        r == interior_mean(rgb@, width as int, height as int),
{
    let w: usize = width as usize;
    let h: usize = height as usize;
    if w == 0 || h == 0 || rgb.len() < w * h * 3 {
        return frame_mean_rgb(rgb);
    }
    let total: usize = rgb.len();
    assert(w * 3 <= w * h * 3) by (nonlinear_arith)
        requires h >= 1, w >= 0;
    let rs: usize = w * 3;
    let y0: usize = if h / 10 < 1 { 1 } else { h / 10 };
    let y1: usize = if h - h / 10 < y0 + 1 { y0 + 1 } else { h - h / 10 };
    let x0: usize = w / 10;
    let x1: usize = if w - w / 10 < x0 + 1 { x0 + 1 } else { w - w / 10 };
    let ghost len = rgb@.len() as int;
    assert(interior_bounds(w as int, h as int) == (y0 as int, y1 as int, x0 as int, x1 as int));
    assert(y1 * rs <= len);
    assert(x1 <= w);
    let mut r: u128 = 0;
    let mut g: u128 = 0;
    let mut b: u128 = 0;
    let mut y: usize = y0;
    while y < y1
        invariant
            rs == w * 3,
            w >= 1,
            1 <= y0 <= y <= y1,
            x0 < x1 <= w,
            y1 * rs <= len,
            len == rgb@.len(),
            len <= usize::MAX,
            r == block_sum(rgb@, w as int, 0, y0 as int, y as int, x0 as int, x1 as int),
            g == block_sum(rgb@, w as int, 1, y0 as int, y as int, x0 as int, x1 as int),
            b == block_sum(rgb@, w as int, 2, y0 as int, y as int, x0 as int, x1 as int),
        decreases y1 - y,
    {
        assert((y + 1) * rs <= y1 * rs) by (nonlinear_arith)
            requires y + 1 <= y1, rs >= 0;
        assert(w * 3 <= len) by (nonlinear_arith)
            requires (y + 1) * rs <= len, rs == w * 3, y >= 0;
        assert(y * rs <= y1 * rs) by (nonlinear_arith)
            requires y <= y1, rs >= 0;
        proof {
            lemma_block_sum_bound(rgb@, w as int, 0, y0 as int, y as int, x0 as int, x1 as int);
            lemma_block_sum_bound(rgb@, w as int, 1, y0 as int, y as int, x0 as int, x1 as int);
            lemma_block_sum_bound(rgb@, w as int, 2, y0 as int, y as int, x0 as int, x1 as int);
            assert(255 * (x1 - x0) * (y - y0) <= 255 * len) by (nonlinear_arith)
                requires x1 - x0 <= w, y - y0 <= y1, y1 * (w * 3) <= len, x0 < x1, y0 <= y, y0 >= 1;
        }
        let row: usize = y * rs;
        let mut rr: u128 = 0;
        let mut rg: u128 = 0;
        let mut rb: u128 = 0;
        let mut x: usize = x0;
        while x < x1
            invariant
                rs == w * 3,
                row == y * rs,
                (y + 1) * rs <= len,
                len == rgb@.len(),
                len <= usize::MAX,
                x0 <= x <= x1,
                x1 <= w,
                rr == row_sum(rgb@, w as int, 0, y as int, x0 as int, x as int),
                rg == row_sum(rgb@, w as int, 1, y as int, x0 as int, x as int),
                rb == row_sum(rgb@, w as int, 2, y as int, x0 as int, x as int),
            decreases x1 - x,
        {
            assert(row + x * 3 + 2 < (y + 1) * rs) by (nonlinear_arith)
                requires row == y * rs, rs == w * 3, x < w;
            proof {
                lemma_row_sum_bound(rgb@, w as int, 0, y as int, x0 as int, x as int);
                lemma_row_sum_bound(rgb@, w as int, 1, y as int, x0 as int, x as int);
                lemma_row_sum_bound(rgb@, w as int, 2, y as int, x0 as int, x as int);
            }
            assert(w * 3 <= len) by (nonlinear_arith)
                requires (y + 1) * rs <= len, rs == w * 3, y >= 0;
            assert(rr <= 255 * len && rg <= 255 * len && rb <= 255 * len) by (nonlinear_arith)
                requires rr <= 255 * (x - x0), rg <= 255 * (x - x0), rb <= 255 * (x - x0), x - x0 <= w, w * 3 <= len;
            let o: usize = row + x * 3;
            rr = rr + rgb[o] as u128;
            rg = rg + rgb[o + 1] as u128;
            rb = rb + rgb[o + 2] as u128;
            x += 1;
        }
        proof {
            lemma_row_sum_bound(rgb@, w as int, 0, y as int, x0 as int, x1 as int);
            lemma_row_sum_bound(rgb@, w as int, 1, y as int, x0 as int, x1 as int);
            lemma_row_sum_bound(rgb@, w as int, 2, y as int, x0 as int, x1 as int);
            assert(rr <= 255 * len && rg <= 255 * len && rb <= 255 * len) by (nonlinear_arith)
                requires rr <= 255 * (x1 - x0), rg <= 255 * (x1 - x0), rb <= 255 * (x1 - x0), x1 - x0 <= w, w * 3 <= len;
        }
        r = r + rr;
        g = g + rg;
        b = b + rb;
        y += 1;
    }
    assert((y1 - y0) * (x1 - x0) <= len) by (nonlinear_arith)
        requires y1 * (w * 3) <= len, y0 >= 1, y1 > y0, x0 < x1, x1 <= w;
    let n: u128 = ((y1 - y0) as u128) * ((x1 - x0) as u128);
    proof {
        lemma_block_sum_bound(rgb@, w as int, 0, y0 as int, y1 as int, x0 as int, x1 as int);
        lemma_block_sum_bound(rgb@, w as int, 1, y0 as int, y1 as int, x0 as int, x1 as int);
        lemma_block_sum_bound(rgb@, w as int, 2, y0 as int, y1 as int, x0 as int, x1 as int);
        assert(n >= 1) by (nonlinear_arith)
            requires n == (y1 - y0) * (x1 - x0), y1 > y0, x1 > x0;
        assert(255 * (x1 - x0) * (y1 - y0) == 255 * n) by (nonlinear_arith)
            requires n == (y1 - y0) * (x1 - x0);
        lemma_mean_bound(r as int, n as int);
        lemma_mean_bound(g as int, n as int);
        lemma_mean_bound(b as int, n as int);
    }
    ((r / n) as u8, (g / n) as u8, (b / n) as u8)
}

/// Which test frame a decoded `width` x `height` RGB24 frame shows: the first
/// of the ten test colours nearest to its interior mean (robust to lossy coding).
pub fn decoded_cycle_from_rgb(rgb: &[u8], width: u32, height: u32) -> (r: u32)
    requires
        width as int * height as int * 3 <= usize::MAX,
        interior_in_bounds(rgb@.len() as int, width as int, height as int),
    ensures
        is_nearest_cycle(interior_mean(rgb@, width as int, height as int), r),
{
    let mean = frame_mean_rgb_interior(rgb, width, height);
    nearest_cycle(mean)
}

/// Every byte of test frame `cycle` is the byte of frame `cycle % 10`, and
/// every pixel past the tag strip of row 0 has the fill colour of the cycle.
pub proof fn lemma_cycle_frame_pixels(width: u32, cycle: u32, k: int)
    requires
        0 <= k,
    ensures
        cycle_frame_byte(width, cycle, k) == cycle_frame_byte(width, cycle % 10, k),
        k / 3 >= bar_width(width, cycle % 10) ==> cycle_frame_byte(width, cycle, k) == channel(palette(cycle), k % 3),
{
    assert((cycle % 10) % 10 == cycle % 10);
    assert(palette(cycle % 10) == palette(cycle));
}

/// Byte of channel `ch` of pixel (`x`, `y`) in a frame `w` pixels wide.
pub open spec fn pixel_byte(b: Seq<u8>, w: int, y: int, x: int, ch: int) -> int {
    b[y * (w * 3) + x * 3 + ch] as int
}

proof fn lemma_row_sum_const(b: Seq<u8>, w: int, ch: int, y: int, x0: int, x: int, v: int)
    requires
        x0 <= x,
        forall|xx: int| x0 <= xx < x ==> #[trigger] pixel_byte(b, w, y, xx, ch) == v,
    ensures
        row_sum(b, w, ch, y, x0, x) == v * (x - x0),
    decreases x - x0,
{
    if x > x0 {
        lemma_row_sum_const(b, w, ch, y, x0, x - 1, v);
        assert(pixel_byte(b, w, y, x - 1, ch) == v);
        assert(row_sum(b, w, ch, y, x0, x) == row_sum(b, w, ch, y, x0, x - 1) + pixel_byte(b, w, y, x - 1, ch));
        assert(v * (x - 1 - x0) + v == v * (x - x0)) by (nonlinear_arith);
    } else {
        assert(v * (x - x0) == 0) by (nonlinear_arith)
            requires x == x0;
    }
}

proof fn lemma_block_sum_const(b: Seq<u8>, w: int, ch: int, y0: int, y: int, x0: int, x1: int, v: int)
    requires
        y0 <= y,
        x0 <= x1,
        forall|yy: int, xx: int| y0 <= yy < y && x0 <= xx < x1 ==> #[trigger] pixel_byte(b, w, yy, xx, ch) == v,
    ensures
        block_sum(b, w, ch, y0, y, x0, x1) == v * (x1 - x0) * (y - y0),
    decreases y - y0,
{
    if y > y0 {
        lemma_block_sum_const(b, w, ch, y0, y - 1, x0, x1, v);
        assert forall|xx: int| x0 <= xx < x1 implies #[trigger] pixel_byte(b, w, y - 1, xx, ch) == v by {}
        lemma_row_sum_const(b, w, ch, y - 1, x0, x1, v);
        assert(block_sum(b, w, ch, y0, y, x0, x1) == block_sum(b, w, ch, y0, y - 1, x0, x1) + row_sum(b, w, ch, y - 1, x0, x1));
        assert(v * (x1 - x0) * (y - 1 - y0) + v * (x1 - x0) == v * (x1 - x0) * (y - y0)) by (nonlinear_arith);
    } else {
        assert(v * (x1 - x0) * (y - y0) == 0) by (nonlinear_arith)
            requires y == y0;
    }
}

proof fn lemma_test_frame_interior_byte(width: u32, height: u32, cycle: u32, b: Seq<u8>, y: int, x: int, ch: int)
    requires
        width >= 1,
        b.len() == width as int * height as int * 3,
        forall|k: int| 0 <= k < b.len() ==> #[trigger] b[k] == cycle_frame_byte(width, cycle, k),
        1 <= y < height,
        0 <= x < width,
        0 <= ch < 3,
    ensures
        pixel_byte(b, width as int, y, x, ch) == channel(palette(cycle), ch),
{
    let w = width as int;
    let h = height as int;
    let k = y * (w * 3) + x * 3 + ch;
    assert(0 <= k < w * h * 3) by (nonlinear_arith)
        requires 1 <= y < h, 0 <= x < w, 0 <= ch < 3, k == y * (w * 3) + x * 3 + ch;
    assert(k / 3 == y * w + x && k % 3 == ch) by (nonlinear_arith)
        requires k == y * (w * 3) + x * 3 + ch, 0 <= ch < 3, y >= 0, x >= 0, w >= 1;
    assert(y * w + x >= w) by (nonlinear_arith)
        requires y >= 1, x >= 0, w >= 1;
    lemma_cycle_frame_pixels(width, cycle, k);
    assert(b[k] == cycle_frame_byte(width, cycle, k));
}

proof fn lemma_interior_of_test_frame(width: u32, height: u32, cycle: u32, b: Seq<u8>, ch: int)
    requires
        width >= 1,
        height >= 2,
        b.len() == width as int * height as int * 3,
        forall|k: int| 0 <= k < b.len() ==> #[trigger] b[k] == cycle_frame_byte(width, cycle, k),
        0 <= ch < 3,
    ensures
        ({
            let (y0, y1, x0, x1) = interior_bounds(width as int, height as int);
            block_sum(b, width as int, ch, y0, y1, x0, x1) / ((y1 - y0) * (x1 - x0)) == channel(palette(cycle), ch)
        }),
{
    let w = width as int;
    let h = height as int;
    let (y0, y1, x0, x1) = interior_bounds(w, h);
    assert(1 <= y0 < y1 <= h);
    assert(0 <= x0 < x1 <= w);
    let v = channel(palette(cycle), ch) as int;
    assert forall|yy: int, xx: int| y0 <= yy < y1 && x0 <= xx < x1 implies #[trigger] pixel_byte(b, w, yy, xx, ch) == v by {
        lemma_test_frame_interior_byte(width, height, cycle, b, yy, xx, ch);
    }
    lemma_block_sum_const(b, w, ch, y0, y1, x0, x1, v);
    let n = (y1 - y0) * (x1 - x0);
    assert(v * (x1 - x0) * (y1 - y0) == v * n) by (nonlinear_arith)
        requires n == (y1 - y0) * (x1 - x0);
    assert(n > 0) by (nonlinear_arith)
        requires n == (y1 - y0) * (x1 - x0), y1 > y0, x1 > x0;
    assert((v * n) / n == v) by (nonlinear_arith)
        requires n > 0;
}

proof fn lemma_palette_distinct(c: u32, d: u32)
    requires
        c < 10,
        d < 10,
        palette(c) == palette(d),
    ensures
        c == d,
{
}

/// A test frame decodes to its cycle: the interior of test frame `cycle`
/// (at least 1 x 2 pixels) has the fill colour of the cycle as its mean, and
/// the only nearest cycle of that colour is `cycle % 10`. With the contracts
/// of `test_cycle_frame` and `decoded_cycle_from_rgb`, decoding the frame
/// gives `cycle % 10`.
pub proof fn lemma_test_frame_decodes(width: u32, height: u32, cycle: u32, b: Seq<u8>, r: u32)
    requires
        width >= 1,
        height >= 2,
        b.len() == width as int * height as int * 3,
        forall|k: int| 0 <= k < b.len() ==> #[trigger] b[k] == cycle_frame_byte(width, cycle, k),
    ensures
        interior_in_bounds(b.len() as int, width as int, height as int),
        interior_mean(b, width as int, height as int) == palette(cycle),
        is_nearest_cycle(interior_mean(b, width as int, height as int), r) ==> r == cycle % 10,
{
    let w = width as int;
    let h = height as int;
    let (y0, y1, x0, x1) = interior_bounds(w, h);
    assert(y1 <= h);
    assert(y1 * (w * 3) <= b.len()) by (nonlinear_arith)
        requires y1 <= h, w >= 1, b.len() == w * h * 3;
    lemma_interior_of_test_frame(width, height, cycle, b, 0);
    lemma_interior_of_test_frame(width, height, cycle, b, 1);
    lemma_interior_of_test_frame(width, height, cycle, b, 2);
    assert(interior_mean(b, w, h) == palette(cycle));
    if is_nearest_cycle(interior_mean(b, w, h), r) {
        let c = cycle % 10;
        assert(palette(c) == palette(cycle));
        assert(colour_distance(palette(cycle), palette(r)) <= colour_distance(palette(cycle), palette(c)));
        assert(colour_distance(palette(cycle), palette(c)) == 0);
        assert(palette(r) == palette(c)) by (nonlinear_arith)
            requires
                colour_distance(palette(cycle), palette(r)) <= 0,
                palette(c) == palette(cycle);
        lemma_palette_distinct(r, c);
    }
}

} // verus!
