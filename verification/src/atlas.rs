//! Packing the rasterized glyphs of printable ASCII side by side into one
//! single-channel texture.
use vstd::prelude::*;
use vstd::arithmetic::div_mod::{lemma_fundamental_div_mod, lemma_fundamental_div_mod_converse};

verus! {

/// Whether atlas column `ax` and row `ay` fall in the `w` by `h` rectangle
/// whose top left corner is (`left`, `top`).
pub open spec fn in_rect(ax: int, ay: int, left: int, top: int, w: int, h: int) -> bool {
    left <= ax < left + w && top <= ay < top + h
}

/// Whether the copy, which goes row by row and left to right within a row,
/// has reached cell (`ax`, `ay`) before row `row`, column `col` of the glyph.
pub open spec fn copied_before(
    ax: int,
    ay: int,
    left: int,
    top: int,
    w: int,
    row: int,
    col: int,
) -> bool {
    ay - top < row || (ay - top == row && ax - left < col)
}

/// The atlas image `img` (rows of `aw` bytes) once the cells of the glyph
/// rectangle copied before row `row`, column `col` hold the glyph's bitmap
/// `bm` (rows of `w` bytes).
pub open spec fn blit_partial(
    img: Seq<u8>,
    aw: int,
    left: int,
    top: int,
    w: int,
    h: int,
    bm: Seq<u8>,
    row: int,
    col: int,
) -> Seq<u8> {
    Seq::new(
        img.len(),
        |p: int|
            {
                let ax = p % aw;
                let ay = p / aw;
                if in_rect(ax, ay, left, top, w, h) && copied_before(ax, ay, left, top, w, row, col) {
                    bm[(ay - top) * w + (ax - left)]
                } else {
                    img[p]
                }
            },
    )
}

/// The atlas image `img` with the `w` by `h` bitmap `bm` copied in at
/// (`left`, `top`); the parts of the bitmap that fall outside the atlas are
/// dropped.
pub open spec fn blit_image(
    img: Seq<u8>,
    aw: int,
    left: int,
    top: int,
    w: int,
    h: int,
    bm: Seq<u8>,
) -> Seq<u8> {
    blit_partial(img, aw, left, top, w, h, bm, h, 0)
}

/// A pixel index splits into its column and row.
proof fn lemma_pixel_coords(p: int, aw: int, ah: int)
    requires
        0 <= p < aw * ah,
        aw > 0,
    ensures
        0 <= p % aw < aw,
        0 <= p / aw < ah,
        p == (p / aw) * aw + p % aw,
{
    lemma_fundamental_div_mod(p, aw);
    assert(0 <= p % aw < aw) by (nonlinear_arith)
        requires
            aw > 0,
    {
        vstd::arithmetic::div_mod::lemma_mod_bound(p, aw);
    }
    assert(p / aw >= 0) by (nonlinear_arith)
        requires
            aw > 0,
            p >= 0,
    {
        vstd::arithmetic::div_mod::lemma_div_pos_is_pos(p, aw);
    }
    assert(p / aw < ah) by (nonlinear_arith)
        requires
            aw > 0,
            p == aw * (p / aw) + p % aw,
            0 <= p % aw,
            p < aw * ah,
    {
    }
    assert((p / aw) * aw == aw * (p / aw)) by (nonlinear_arith);
}

/// A column and a row inside the atlas name one pixel index.
proof fn lemma_coords_pixel(ax: int, ay: int, aw: int, ah: int)
    requires
        0 <= ax < aw,
        0 <= ay < ah,
    ensures
        0 <= ay * aw + ax < aw * ah,
        (ay * aw + ax) % aw == ax,
        (ay * aw + ax) / aw == ay,
{
    lemma_fundamental_div_mod_converse(ay * aw + ax, aw, ay, ax);
    assert(0 <= ay * aw + ax < aw * ah) by (nonlinear_arith)
        requires
            0 <= ax < aw,
            0 <= ay < ah,
    {
        assert(ay * aw <= (ah - 1) * aw);
    }
}

/// A glyph cell's place in its bitmap.
proof fn lemma_bitmap_index(row: int, col: int, w: int, h: int)
    requires
        0 <= row < h,
        0 <= col < w,
    ensures
        0 <= row * w + col < w * h,
{
    assert(0 <= row * w + col < w * h) by (nonlinear_arith)
        requires
            0 <= row < h,
            0 <= col < w,
    {
        assert(row * w <= (h - 1) * w);
    }
}

/// Copies the `w` by `h` glyph bitmap `bitmap` into the atlas `pixels`
/// (`atlas_w` by `atlas_h`) with its top left corner at column
/// `cell_x + bearing_x` and row `top`, dropping what falls outside the atlas.
pub fn blit_glyph(
    pixels: &mut Vec<u8>,
    atlas_w: u32,
    atlas_h: u32,
    cell_x: u32,
    bearing_x: u32,
    top: u32,
    bitmap: &[u8],
    w: usize,
    h: usize,
)
    requires
        old(pixels).len() == atlas_w * atlas_h,
        atlas_w * atlas_h <= u32::MAX,
        bitmap.len() >= w * h,
        w > 0 && h > 0 ==> cell_x + bearing_x + w - 1 <= u32::MAX && top + h - 1 <= u32::MAX,
    ensures
        final(pixels)@ == blit_image(old(pixels)@, atlas_w as int, (cell_x + bearing_x), top as int, w as int, h as int, bitmap@),
{
    let ghost img0 = pixels@;
    let ghost aw = atlas_w as int;
    let ghost ah = atlas_h as int;
    proof {
        assert(blit_partial(img0, aw, (cell_x + bearing_x), top as int, w as int, h as int, bitmap@, 0, 0) =~= img0);
    }
    for row in 0..h
        invariant
            pixels.len() == atlas_w * atlas_h,
            atlas_w * atlas_h <= u32::MAX,
            bitmap.len() >= w * h,
            w > 0 && h > 0 ==> cell_x + bearing_x + w - 1 <= u32::MAX && top + h - 1 <= u32::MAX,
            aw == atlas_w,
            ah == atlas_h,
            img0.len() == pixels.len(),
            pixels@ == blit_partial(img0, aw, (cell_x + bearing_x), top as int, w as int, h as int, bitmap@, row as int, 0),
    {
        for col in 0..w
            invariant
                pixels.len() == atlas_w * atlas_h,
                atlas_w * atlas_h <= u32::MAX,
                bitmap.len() >= w * h,
                w > 0 && h > 0 ==> cell_x + bearing_x + w - 1 <= u32::MAX && top + h - 1 <= u32::MAX,
                row < h,
                aw == atlas_w,
                ah == atlas_h,
                img0.len() == pixels.len(),
                pixels@ == blit_partial(img0, aw, (cell_x + bearing_x), top as int, w as int, h as int, bitmap@, row as int, col as int),
        {
            let ax = cell_x + bearing_x + col as u32;
            let ay = top + row as u32;
            let ghost before = pixels@;
            if ax < atlas_w && ay < atlas_h {
                proof {
                    lemma_coords_pixel(ax as int, ay as int, aw, ah);
                    lemma_bitmap_index(row as int, col as int, w as int, h as int);
                }
                let idx = (ay * atlas_w + ax) as usize;
                let v = bitmap[row * w + col];
                pixels.set(idx, v);
                proof {
                    assert forall|p: int| 0 <= p < pixels.len() implies #[trigger] pixels@[p]
                        == blit_partial(img0, aw, (cell_x + bearing_x), top as int, w as int, h as int, bitmap@, row as int, col + 1)[p] by {
                        lemma_pixel_coords(p, aw, ah);
                        if p != idx {
                            assert(!(p % aw == ax && p / aw == ay));
                        }
                    }
                    assert(pixels@ =~= blit_partial(img0, aw, (cell_x + bearing_x), top as int, w as int, h as int, bitmap@, row as int, col + 1));
                }
            } else {
                proof {
                    assert forall|p: int| 0 <= p < pixels.len() implies #[trigger] pixels@[p]
                        == blit_partial(img0, aw, (cell_x + bearing_x), top as int, w as int, h as int, bitmap@, row as int, col + 1)[p] by {
                        lemma_pixel_coords(p, aw, ah);
                    }
                    assert(pixels@ =~= blit_partial(img0, aw, (cell_x + bearing_x), top as int, w as int, h as int, bitmap@, row as int, col + 1));
                }
            }
        }
        proof {
            assert(blit_partial(img0, aw, (cell_x + bearing_x), top as int, w as int, h as int, bitmap@, row as int, w as int)
                =~= blit_partial(img0, aw, (cell_x + bearing_x), top as int, w as int, h as int, bitmap@, row + 1, 0));
        }
    }
}

/// Number of glyphs in the atlas: the printable ASCII characters, from
/// `' '` to `'~'`.
pub const GLYPH_COUNT: usize = 95;

/// Width assumed for an atlas cell when there are no glyphs at all.
pub const DEFAULT_CELL_WIDTH: u32 = 16;

/// What the rasterizer reports of one glyph, in whole pixels:
/// `cell_advance` is its advance width rounded up.
#[derive(Clone, Copy)]
pub struct GlyphMetrics {
    pub xmin: i32,
    pub ymin: i32,
    pub width: usize,
    pub height: usize,
    pub cell_advance: u32,
}

/// Where a glyph went in the atlas: the left edge of its cell, the offset of
/// its bitmap within the cell, and how far it rises above the baseline.
#[derive(Clone, Copy)]
pub struct GlyphSlot {
    pub x_off: u32,
    pub bearing_x: u32,
    pub above_baseline: i32,
}

/// The packed atlas: its size, the tallest rise above and deepest drop below
/// the baseline over all glyphs, the cell width, the pixels (rows of `width`
/// bytes) and each glyph's slot.
pub struct Atlas {
    pub width: u32,
    pub height: u32,
    pub max_above: i32,
    pub max_below: i32,
    pub cell_w: u32,
    pub pixels: Vec<u8>,
    pub slots: Vec<GlyphSlot>,
}

/// How far a glyph rises above the baseline.
pub open spec fn glyph_above(m: GlyphMetrics) -> int {
    m.ymin + (m.height as i32)
}

/// How far a glyph drops below the baseline (zero if it does not).
pub open spec fn glyph_below(m: GlyphMetrics) -> int {
    if m.ymin < 0 {
        -m.ymin
    } else {
        0
    }
}

/// Horizontal offset of a glyph's bitmap within its cell (zero if the glyph
/// starts left of the pen).
pub open spec fn glyph_bearing(m: GlyphMetrics) -> int {
    if m.xmin > 0 {
        m.xmin as int
    } else {
        0
    }
}

/// The tallest rise above the baseline; 1 when there are no glyphs.
pub open spec fn max_above(ms: Seq<GlyphMetrics>) -> int
    decreases ms.len(),
{
    if ms.len() == 0 {
        1
    } else if ms.len() == 1 {
        glyph_above(ms[0])
    } else {
        let a = max_above(ms.drop_last());
        let b = glyph_above(ms.last());
        if b > a {
            b
        } else {
            a
        }
    }
}

/// The deepest drop below the baseline; 0 when there are no glyphs.
pub open spec fn max_below(ms: Seq<GlyphMetrics>) -> int
    decreases ms.len(),
{
    if ms.len() == 0 {
        0
    } else {
        let a = max_below(ms.drop_last());
        let b = glyph_below(ms.last());
        if b > a {
            b
        } else {
            a
        }
    }
}

/// The widest rounded-up advance; `DEFAULT_CELL_WIDTH` when there are no
/// glyphs.
pub open spec fn cell_width(ms: Seq<GlyphMetrics>) -> int
    decreases ms.len(),
{
    if ms.len() == 0 {
        DEFAULT_CELL_WIDTH as int
    } else if ms.len() == 1 {
        ms[0].cell_advance as int
    } else {
        let a = cell_width(ms.drop_last());
        let b = ms.last().cell_advance as int;
        if b > a {
            b
        } else {
            a
        }
    }
}

/// Atlas height: room for the tallest rise plus the deepest drop, at least 1.
pub open spec fn atlas_height(ms: Seq<GlyphMetrics>) -> int {
    let h = (max_above(ms) + max_below(ms)) as u32;
    if h >= 1 {
        h as int
    } else {
        1
    }
}

/// Atlas width: one cell per printable ASCII character, at least 1.
pub open spec fn atlas_width(ms: Seq<GlyphMetrics>) -> int {
    let w = cell_width(ms) * GLYPH_COUNT;
    if w >= 1 {
        w
    } else {
        1
    }
}

/// Left edge of glyph `i`'s cell.
pub open spec fn slot_x(ms: Seq<GlyphMetrics>, i: int) -> int {
    (i as u32) * cell_width(ms)
}

/// Top row of glyph `i`'s bitmap: glyphs are aligned on a common baseline.
pub open spec fn slot_top(ms: Seq<GlyphMetrics>, i: int) -> int {
    let d = max_above(ms) - glyph_above(ms[i]);
    if d > 0 {
        d
    } else {
        0
    }
}

/// The metrics are small enough for every step of the packing to stay within
/// its integer type.
pub open spec fn metrics_fit(ms: Seq<GlyphMetrics>) -> bool {
    &&& forall|i: int|
        0 <= i < ms.len() ==> i32::MIN <= #[trigger] glyph_above(ms[i]) <= i32::MAX
            && ms[i].ymin > i32::MIN && max_above(ms) - glyph_above(ms[i]) <= i32::MAX
            && slot_x(ms, i) <= u32::MAX
            && (ms[i].width > 0 && ms[i].height > 0 ==> slot_x(ms, i) + glyph_bearing(ms[i])
                + ms[i].width - 1 <= u32::MAX && slot_top(ms, i) + ms[i].height - 1 <= u32::MAX)
    &&& max_above(ms) + max_below(ms) <= i32::MAX
    &&& cell_width(ms) * GLYPH_COUNT <= u32::MAX
    &&& atlas_width(ms) * atlas_height(ms) <= u32::MAX
}

/// The atlas pixels once the first `n` glyphs are copied into a blank atlas.
pub open spec fn atlas_image(ms: Seq<GlyphMetrics>, bms: Seq<Seq<u8>>, n: int) -> Seq<u8>
    decreases n,
{
    if n <= 0 {
        Seq::new((atlas_width(ms) * atlas_height(ms)) as nat, |p: int| 0u8)
    } else {
        let i = n - 1;
        blit_image(
            atlas_image(ms, bms, i),
            atlas_width(ms),
            slot_x(ms, i) + glyph_bearing(ms[i]),
            slot_top(ms, i),
            ms[i].width as int,
            ms[i].height as int,
            bms[i],
        )
    }
}

/// The tallest rise is at least that of every glyph.
proof fn lemma_max_above_bounds(ms: Seq<GlyphMetrics>, i: int)
    requires
        0 <= i < ms.len(),
    ensures
        max_above(ms) >= glyph_above(ms[i]),
    decreases ms.len(),
{
    if ms.len() > 1 && i < ms.len() - 1 {
        lemma_max_above_bounds(ms.drop_last(), i);
    }
}

/// Copying glyphs in never changes the atlas size.
proof fn lemma_atlas_image_len(ms: Seq<GlyphMetrics>, bms: Seq<Seq<u8>>, n: int)
    ensures
        atlas_image(ms, bms, n).len() == atlas_width(ms) * atlas_height(ms),
    decreases n,
{
    assert(atlas_width(ms) * atlas_height(ms) >= 0) by (nonlinear_arith)
        requires
            atlas_width(ms) >= 1,
            atlas_height(ms) >= 1,
    ;
    if n > 0 {
        lemma_atlas_image_len(ms, bms, n - 1);
    }
}

/// The cells of two different glyphs do not share a column.
proof fn lemma_cells_apart(cw: int, i: int, j: int, xi: int, xj: int)
    requires
        cw >= 0,
        0 <= i,
        0 <= j,
        i != j,
        i * cw <= xi < i * cw + cw,
        j * cw <= xj < j * cw + cw,
    ensures
        xi != xj,
{
    if i < j {
        assert(i * cw + cw <= j * cw) by (nonlinear_arith)
            requires
                i < j,
                cw >= 0,
        ;
    } else {
        assert(j * cw + cw <= i * cw) by (nonlinear_arith)
            requires
                j < i,
                cw >= 0,
        ;
    }
}

/// When every glyph fits in its cell, each glyph's pixels end up in the
/// atlas untouched by the other glyphs: the atlas shows, inside the glyph's
/// rectangle, exactly its bitmap.
pub proof fn law_glyph_lands_in_its_cell(ms: Seq<GlyphMetrics>, bms: Seq<Seq<u8>>, i: int, p: int)
    requires
        ms.len() <= GLYPH_COUNT,
        forall|j: int|
            0 <= j < ms.len() ==> glyph_bearing(ms[j]) + #[trigger] ms[j].width <= cell_width(ms),
        0 <= i < ms.len(),
        0 <= p < atlas_width(ms) * atlas_height(ms),
        in_rect(
            p % atlas_width(ms),
            p / atlas_width(ms),
            slot_x(ms, i) + glyph_bearing(ms[i]),
            slot_top(ms, i),
            ms[i].width as int,
            ms[i].height as int,
        ),
    ensures
        atlas_image(ms, bms, ms.len() as int)[p] == bms[i][(p / atlas_width(ms) - slot_top(ms, i))
            * ms[i].width + (p % atlas_width(ms) - slot_x(ms, i) - glyph_bearing(ms[i]))],
{
    lemma_glyph_survives(ms, bms, i, p, ms.len() as int);
}

proof fn lemma_glyph_survives(ms: Seq<GlyphMetrics>, bms: Seq<Seq<u8>>, i: int, p: int, n: int)
    requires
        ms.len() <= GLYPH_COUNT,
        forall|j: int|
            0 <= j < ms.len() ==> glyph_bearing(ms[j]) + #[trigger] ms[j].width <= cell_width(ms),
        0 <= i < n <= ms.len(),
        0 <= p < atlas_width(ms) * atlas_height(ms),
        in_rect(
            p % atlas_width(ms),
            p / atlas_width(ms),
            slot_x(ms, i) + glyph_bearing(ms[i]),
            slot_top(ms, i),
            ms[i].width as int,
            ms[i].height as int,
        ),
    ensures
        atlas_image(ms, bms, n)[p] == bms[i][(p / atlas_width(ms) - slot_top(ms, i))
            * ms[i].width + (p % atlas_width(ms) - slot_x(ms, i) - glyph_bearing(ms[i]))],
    decreases n,
{
    let aw = atlas_width(ms);
    lemma_atlas_image_len(ms, bms, n - 1);
    let j = n - 1;
    if j != i {
        lemma_glyph_survives(ms, bms, i, p, n - 1);
        let cw = cell_width(ms);
        assert(cw >= 0) by {
            lemma_cell_width_nonneg(ms);
        }
        assert((i as u32) == i);
        assert((j as u32) == j);
        let x = p % aw;
        if in_rect(x, p / aw, slot_x(ms, j) + glyph_bearing(ms[j]), slot_top(ms, j), ms[j].width as int, ms[j].height as int) {
            lemma_cells_apart(cw, i, j, x, x);
        }
    }
}

proof fn lemma_cell_width_nonneg(ms: Seq<GlyphMetrics>)
    ensures
        cell_width(ms) >= 0,
    decreases ms.len(),
{
    if ms.len() > 1 {
        lemma_cell_width_nonneg(ms.drop_last());
    }
}

/// The deepest drop is at least each glyph's drop, and is the drop of one
/// of the glyphs (0 when there are none).
pub proof fn law_max_below_is_the_deepest(ms: Seq<GlyphMetrics>)
    ensures
        forall|i: int| 0 <= i < ms.len() ==> max_below(ms) >= #[trigger] glyph_below(ms[i]),
        ms.len() == 0 ==> max_below(ms) == 0,
        ms.len() > 0 ==> exists|i: int| 0 <= i < ms.len() && max_below(ms) == #[trigger] glyph_below(ms[i]),
    decreases ms.len(),
{
    if ms.len() > 0 {
        let p = ms.drop_last();
        law_max_below_is_the_deepest(p);
        assert forall|i: int| 0 <= i < ms.len() implies max_below(ms) >= #[trigger] glyph_below(ms[i]) by {
            if i < ms.len() - 1 {
                assert(ms[i] == p[i]);
            }
        }
        if max_below(ms) == glyph_below(ms.last()) {
            assert(glyph_below(ms[ms.len() - 1]) == max_below(ms));
        } else if p.len() == 0 {
            assert(glyph_below(ms[0]) == max_below(ms));
        } else {
            let j = choose|j: int| 0 <= j < p.len() && max_below(p) == #[trigger] glyph_below(p[j]);
            assert(ms[j] == p[j]);
            assert(glyph_below(ms[j]) == max_below(ms));
        }
    }
}

/// The tallest rise is at least each glyph's rise, and is the rise of one of
/// the glyphs (1 when there are none).
pub proof fn law_max_above_is_the_tallest(ms: Seq<GlyphMetrics>)
    ensures
        forall|i: int| 0 <= i < ms.len() ==> max_above(ms) >= #[trigger] glyph_above(ms[i]),
        ms.len() == 0 ==> max_above(ms) == 1,
        ms.len() > 0 ==> exists|i: int| 0 <= i < ms.len() && max_above(ms) == #[trigger] glyph_above(ms[i]),
    decreases ms.len(),
{
    assert forall|i: int| 0 <= i < ms.len() implies max_above(ms) >= #[trigger] glyph_above(ms[i]) by {
        lemma_max_above_bounds(ms, i);
    }
    if ms.len() == 1 {
        assert(glyph_above(ms[0]) == max_above(ms));
    } else if ms.len() > 1 {
        let p = ms.drop_last();
        law_max_above_is_the_tallest(p);
        if max_above(ms) == glyph_above(ms.last()) {
            assert(glyph_above(ms[ms.len() - 1]) == max_above(ms));
        } else {
            let j = choose|j: int| 0 <= j < p.len() && max_above(p) == #[trigger] glyph_above(p[j]);
            assert(ms[j] == p[j]);
            assert(glyph_above(ms[j]) == max_above(ms));
        }
    }
}

/// The cell width is at least each glyph's rounded-up advance, and is the
/// advance of one of the glyphs (`DEFAULT_CELL_WIDTH` when there are none).
pub proof fn law_cell_width_is_the_widest(ms: Seq<GlyphMetrics>)
    ensures
        forall|i: int| 0 <= i < ms.len() ==> cell_width(ms) >= #[trigger] ms[i].cell_advance,
        ms.len() == 0 ==> cell_width(ms) == DEFAULT_CELL_WIDTH,
        ms.len() > 0 ==> exists|i: int| 0 <= i < ms.len() && cell_width(ms) == #[trigger] ms[i].cell_advance,
    decreases ms.len(),
{
    if ms.len() == 1 {
        assert(ms[0].cell_advance == cell_width(ms));
    } else if ms.len() > 1 {
        let p = ms.drop_last();
        law_cell_width_is_the_widest(p);
        assert forall|i: int| 0 <= i < ms.len() implies cell_width(ms) >= #[trigger] ms[i].cell_advance by {
            if i < ms.len() - 1 {
                assert(ms[i] == p[i]);
            }
        }
        if cell_width(ms) == ms.last().cell_advance {
            assert(ms[ms.len() - 1].cell_advance == cell_width(ms));
        } else {
            let j = choose|j: int| 0 <= j < p.len() && cell_width(p) == #[trigger] p[j].cell_advance;
            assert(ms[j] == p[j]);
        }
    }
}

/// Every glyph's rows lie within the atlas: its bitmap, placed on the common
/// baseline, ends at or above the atlas's last row.
pub proof fn law_glyphs_fit_vertically(ms: Seq<GlyphMetrics>, i: int)
    requires
        metrics_fit(ms),
        0 <= i < ms.len(),
        ms[i].height <= i32::MAX,
    ensures
        0 <= slot_top(ms, i),
        slot_top(ms, i) + ms[i].height <= atlas_height(ms),
{
    law_max_above_is_the_tallest(ms);
    law_max_below_is_the_deepest(ms);
    assert(i32::MIN <= glyph_above(ms[i]) <= i32::MAX);
    assert((ms[i].height as i32) == ms[i].height);
    assert(max_above(ms) >= glyph_above(ms[i]));
    assert(max_below(ms) >= glyph_below(ms[i]));
    let sum = max_above(ms) + max_below(ms);
    assert(sum >= ms[i].height);
    assert(0 <= sum <= i32::MAX);
    assert((sum as u32) == sum);
}

fn fold_max_above(ms: &Vec<GlyphMetrics>) -> (r: i32)
    requires
        forall|i: int| 0 <= i < ms.len() ==> i32::MIN <= #[trigger] glyph_above(ms[i]) <= i32::MAX,
    ensures
        r == max_above(ms@),
{
    if ms.len() == 0 {
        return 1;
    }
    proof {
        assert(i32::MIN <= glyph_above(ms[0]) <= i32::MAX);
    }
    let mut best: i32 = ms[0].ymin + ms[0].height as i32;
    let mut i: usize = 1;
    proof {
        assert(ms@.take(1).drop_last() =~= Seq::<GlyphMetrics>::empty());
    }
    while i < ms.len()
        invariant
            1 <= i <= ms.len(),
            forall|j: int| 0 <= j < ms.len() ==> i32::MIN <= #[trigger] glyph_above(ms[j]) <= i32::MAX,
            best == max_above(ms@.take(i as int)),
        decreases ms.len() - i,
    {
        proof {
            assert(i32::MIN <= glyph_above(ms[i as int]) <= i32::MAX);
        }
        let a: i32 = ms[i].ymin + ms[i].height as i32;
        proof {
            assert(ms@.take(i + 1).drop_last() =~= ms@.take(i as int));
            assert(ms@.take(i + 1).last() == ms[i as int]);
            assert(glyph_above(ms[i as int]) == a);
        }
        if a > best {
            best = a;
        }
        i += 1;
    }
    proof {
        assert(ms@.take(ms.len() as int) =~= ms@);
    }
    best
}

fn fold_max_below(ms: &Vec<GlyphMetrics>) -> (r: i32)
    requires
        forall|i: int| 0 <= i < ms.len() ==> #[trigger] ms[i].ymin > i32::MIN,
    ensures
        r == max_below(ms@),
{
    let mut best: i32 = 0;
    let mut i: usize = 0;
    proof {
        assert(ms@.take(0) =~= Seq::<GlyphMetrics>::empty());
    }
    while i < ms.len()
        invariant
            0 <= i <= ms.len(),
            forall|j: int| 0 <= j < ms.len() ==> #[trigger] ms[j].ymin > i32::MIN,
            best == max_below(ms@.take(i as int)),
        decreases ms.len() - i,
    {
        let neg: i32 = -ms[i].ymin;
        let b: i32 = if neg > 0 {
            neg
        } else {
            0
        };
        proof {
            assert(ms@.take(i + 1).drop_last() =~= ms@.take(i as int));
            assert(ms@.take(i + 1).last() == ms[i as int]);
        }
        if b > best {
            best = b;
        }
        i += 1;
    }
    proof {
        assert(ms@.take(ms.len() as int) =~= ms@);
    }
    best
}

fn fold_cell_width(ms: &Vec<GlyphMetrics>) -> (r: u32)
    ensures
        r == cell_width(ms@),
{
    if ms.len() == 0 {
        return DEFAULT_CELL_WIDTH;
    }
    let mut best: u32 = ms[0].cell_advance;
    let mut i: usize = 1;
    proof {
        assert(ms@.take(1).drop_last() =~= Seq::<GlyphMetrics>::empty());
    }
    while i < ms.len()
        invariant
            1 <= i <= ms.len(),
            best == cell_width(ms@.take(i as int)),
        decreases ms.len() - i,
    {
        let a = ms[i].cell_advance;
        proof {
            assert(ms@.take(i + 1).drop_last() =~= ms@.take(i as int));
            assert(ms@.take(i + 1).last() == ms[i as int]);
        }
        if a > best {
            best = a;
        }
        i += 1;
    }
    proof {
        assert(ms@.take(ms.len() as int) =~= ms@);
    }
    best
}

proof fn lemma_u32_product_fits(a: u32, b: u32)
    ensures
        (a as int) * (b as int) <= u64::MAX,
{
    assert((a as int) * (b as int) <= u64::MAX) by (nonlinear_arith)
        requires
            a <= u32::MAX,
            b <= u32::MAX,
    {
        assert((a as int) * (b as int) <= (u32::MAX as int) * (u32::MAX as int));
    }
}

/// Whether `pack_atlas` can take these glyphs: one bitmap per glyph, each
/// big enough for its metrics, and metrics that keep every step of the
/// packing within its integer type.
pub fn atlas_fits(metrics: &Vec<GlyphMetrics>, bitmaps: &Vec<Vec<u8>>) -> (b: bool)
    ensures
        b == (metrics.len() == bitmaps.len() && metrics_fit(metrics@) && forall|i: int|
            0 <= i < metrics.len() ==> #[trigger] bitmaps[i].len() >= metrics[i].width
                * metrics[i].height),
{
    let ghost ms = metrics@;
    if metrics.len() != bitmaps.len() {
        return false;
    }
    let n = metrics.len();
    let mut i: usize = 0;
    while i < n
        invariant
            n == metrics.len(),
            n == bitmaps.len(),
            ms == metrics@,
            0 <= i <= n,
            forall|j: int|
                0 <= j < i ==> i32::MIN <= #[trigger] glyph_above(ms[j]) <= i32::MAX && ms[j].ymin
                    > i32::MIN && bitmaps[j].len() >= metrics[j].width * metrics[j].height,
        decreases n - i,
    {
        let m = metrics[i];
        let above: i64 = m.ymin as i64 + (m.height as i32) as i64;
        if above < -2147483648i64 || above > 2147483647i64 || m.ymin == -2147483648i32 {
            proof {
                assert(glyph_above(ms[i as int]) == above);
            }
            return false;
        }
        match m.width.checked_mul(m.height) {
            None => {
                proof {
                    assert(bitmaps[i as int].len() < metrics[i as int].width * metrics[i as int].height);
                }
                return false;
            },
            Some(area) => {
                if bitmaps[i].len() < area {
                    return false;
                }
            },
        }
        proof {
            assert(glyph_above(ms[i as int]) == above);
        }
        i += 1;
    }
    proof {
        assert forall|j: int| 0 <= j < metrics.len() implies #[trigger] metrics[j].ymin > i32::MIN by {
            assert(i32::MIN <= glyph_above(ms[j]) <= i32::MAX);
        }
    }
    let ascent = fold_max_above(metrics);
    let descent = fold_max_below(metrics);
    let cell_w = fold_cell_width(metrics);
    if ascent as i64 + descent as i64 > 2147483647i64 {
        return false;
    }
    let sum: i32 = ascent + descent;
    let h0 = sum as u32;
    let atlas_h: u32 = if h0 >= 1 {
        h0
    } else {
        1
    };
    if cell_w as u64 * (GLYPH_COUNT as u64) > 4294967295u64 {
        return false;
    }
    let w0 = cell_w * (GLYPH_COUNT as u32);
    let atlas_w: u32 = if w0 >= 1 {
        w0
    } else {
        1
    };
    proof {
        lemma_u32_product_fits(atlas_w, atlas_h);
    }
    if atlas_w as u64 * atlas_h as u64 > 4294967295u64 {
        return false;
    }
    let mut i: usize = 0;
    while i < n
        invariant
            n == metrics.len(),
            ms == metrics@,
            0 <= i <= n,
            ascent == max_above(ms),
            cell_w == cell_width(ms),
            forall|j: int|
                0 <= j < n ==> i32::MIN <= #[trigger] glyph_above(ms[j]) <= i32::MAX && ms[j].ymin
                    > i32::MIN,
            forall|j: int|
                0 <= j < i ==> max_above(ms) - #[trigger] glyph_above(ms[j]) <= i32::MAX && slot_x(
                    ms,
                    j,
                ) <= u32::MAX && (ms[j].width > 0 && ms[j].height > 0 ==> slot_x(ms, j)
                    + glyph_bearing(ms[j]) + ms[j].width - 1 <= u32::MAX && slot_top(ms, j)
                    + ms[j].height - 1 <= u32::MAX),
        decreases n - i,
    {
        let m = metrics[i];
        proof {
            assert(i32::MIN <= glyph_above(ms[i as int]) <= i32::MAX);
        }
        let above: i32 = m.ymin + m.height as i32;
        let d: i64 = ascent as i64 - above as i64;
        proof {
            lemma_u32_product_fits(i as u32, cell_w);
        }
        let x_off: u64 = (i as u32) as u64 * cell_w as u64;
        let bearing: u64 = if m.xmin > 0 {
            m.xmin as u64
        } else {
            0
        };
        let top: u64 = if d > 0 {
            d as u64
        } else {
            0
        };
        let bad = d > 2147483647i64 || x_off > 4294967295u64 || (m.width > 0 && m.height > 0 && (
        x_off as u128 + bearing as u128 + m.width as u128 - 1 > 4294967295u128 || top as u128
            + m.height as u128 - 1 > 4294967295u128));
        proof {
            assert(glyph_above(ms[i as int]) == above);
            assert(slot_x(ms, i as int) == x_off);
            assert(glyph_bearing(ms[i as int]) == bearing);
            assert(slot_top(ms, i as int) == top);
        }
        if bad {
            return false;
        }
        i += 1;
    }
    proof {
        assert forall|j: int| 0 <= j < metrics.len() implies #[trigger] bitmaps[j].len()
            >= metrics[j].width * metrics[j].height by {
            assert(i32::MIN <= glyph_above(ms[j]) <= i32::MAX);
        }
    }
    true
}

/// Packs the glyphs of printable ASCII, given by their metrics and their
/// bitmaps (rows of `width` bytes), into one atlas: one cell per glyph, all
/// on a common baseline.
pub fn pack_atlas(metrics: &Vec<GlyphMetrics>, bitmaps: &Vec<Vec<u8>>) -> (a: Atlas)
    requires
        metrics.len() == bitmaps.len(),
        metrics_fit(metrics@),
        forall|i: int|
            0 <= i < metrics.len() ==> #[trigger] bitmaps[i].len() >= metrics[i].width
                * metrics[i].height,
    ensures
        a.max_above == max_above(metrics@),
        a.max_below == max_below(metrics@),
        a.cell_w == cell_width(metrics@),
        a.width == atlas_width(metrics@),
        a.height == atlas_height(metrics@),
        a.pixels@ == atlas_image(metrics@, bitmaps@.map_values(|b: Vec<u8>| b@), metrics.len() as int),
        a.slots.len() == metrics.len(),
        forall|i: int|
            0 <= i < metrics.len() ==> (#[trigger] a.slots[i]).x_off == slot_x(metrics@, i)
                && a.slots[i].bearing_x == glyph_bearing(metrics[i])
                && a.slots[i].above_baseline == glyph_above(metrics[i]),
{
    let ghost ms = metrics@;
    let ghost bms = bitmaps@.map_values(|b: Vec<u8>| b@);
    proof {
        assert forall|i: int| 0 <= i < metrics.len() implies #[trigger] metrics[i].ymin > i32::MIN by {
            assert(i32::MIN <= glyph_above(ms[i]) <= i32::MAX);
        }
    }
    let ascent = fold_max_above(metrics);
    let descent = fold_max_below(metrics);
    let sum: i32 = ascent + descent;
    let h0 = sum as u32;
    let atlas_h: u32 = if h0 >= 1 {
        h0
    } else {
        1
    };
    let cell_w = fold_cell_width(metrics);
    let w0 = cell_w * (GLYPH_COUNT as u32);
    let atlas_w: u32 = if w0 >= 1 {
        w0
    } else {
        1
    };
    let mut pixels: Vec<u8> = vec![0u8; (atlas_w * atlas_h) as usize];
    let mut slots: Vec<GlyphSlot> = Vec::new();
    proof {
        assert(pixels@ =~= atlas_image(ms, bms, 0));
    }
    let mut i: usize = 0;
    while i < metrics.len()
        invariant
            ms == metrics@,
            bms == bitmaps@.map_values(|b: Vec<u8>| b@),
            metrics.len() == bitmaps.len(),
            metrics_fit(ms),
            forall|j: int|
                0 <= j < metrics.len() ==> #[trigger] bitmaps[j].len() >= metrics[j].width
                    * metrics[j].height,
            ascent == max_above(ms),
            cell_w == cell_width(ms),
            atlas_w == atlas_width(ms),
            atlas_h == atlas_height(ms),
            0 <= i <= metrics.len(),
            pixels@ == atlas_image(ms, bms, i as int),
            pixels.len() == atlas_w * atlas_h,
            slots.len() == i,
            forall|j: int|
                0 <= j < i ==> (#[trigger] slots[j]).x_off == slot_x(ms, j) && slots[j].bearing_x
                    == glyph_bearing(ms[j]) && slots[j].above_baseline == glyph_above(ms[j]),
        decreases metrics.len() - i,
    {
        let m = metrics[i];
        proof {
            assert(glyph_above(ms[i as int]) <= i32::MAX);
            lemma_max_above_bounds(ms, i as int);
            assert(bitmaps[i as int].len() >= metrics[i as int].width * metrics[i as int].height);
        }
        let above_this: i32 = m.ymin + m.height as i32;
        let d: i32 = ascent - above_this;
        let y_top: u32 = if d > 0 {
            d as u32
        } else {
            0
        };
        let x_off: u32 = i as u32 * cell_w;
        let bearing_x: u32 = if m.xmin > 0 {
            m.xmin as u32
        } else {
            0
        };
        proof {
            assert(bms[i as int] == bitmaps[i as int]@);
        }
        blit_glyph(&mut pixels, atlas_w, atlas_h, x_off, bearing_x, y_top, bitmaps[i].as_slice(), m.width, m.height);
        slots.push(GlyphSlot { x_off, bearing_x, above_baseline: above_this });
        i += 1;
    }
    Atlas { width: atlas_w, height: atlas_h, max_above: ascent, max_below: descent, cell_w, pixels, slots }
}

} // verus!
