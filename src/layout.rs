use vstd::prelude::*;

verus! {

/// An RGBA color, eight bits per channel.
#[derive(Clone, Copy, Debug, PartialEq, Eq, Structural)]
pub struct Color {
    pub r: u8,
    pub g: u8,
    pub b: u8,
    pub a: u8,
}

#[derive(Clone, Copy, Debug, PartialEq, Eq, Structural)]
pub enum TextAlignHorizontal {
    Left,
    Center,
    Right,
}

#[derive(Clone, Copy, Debug, PartialEq, Eq, Structural)]
pub enum TextAlignVertical {
    Top,
    Center,
    Bottom,
}

/// How a string is drawn: color, pixel size, alignment around the anchor point,
/// and an optional font family (the default font when `None`).
#[derive(Clone, Copy, Debug, PartialEq, Eq, Structural)]
pub struct FontParameters {
    pub color: Color,
    pub size: u32,
    pub align_horizontal: TextAlignHorizontal,
    pub align_vertical: TextAlignVertical,
    pub family: Option<u32>,
}

/// The metrics of one rasterized glyph, in logical units: how far the pen moves
/// after it, and how far it reaches above and below the baseline.
#[derive(Clone, Copy, Debug, PartialEq, Eq, Structural)]
pub struct GlyphMetrics {
    pub advance: u32,
    pub ascent: u32,
    pub descent: u32,
}

/// An axis-aligned box in logical units, `left <= right` and `top <= bottom`.
#[derive(Clone, Copy, Debug, PartialEq, Eq, Structural)]
pub struct TextBox {
    pub left: i64,
    pub top: i64,
    pub right: i64,
    pub bottom: i64,
}

/// The largest number of glyphs laid out in one string: with each advance
/// below 2^32, a string's width stays below 2^62, so that it and an `i32`
/// anchor fit together in `i64` coordinates.
pub const MAX_GLYPHS: usize = 0x4000_0000;

/// The total advance of a run of glyphs.
pub open spec fn total_advance(g: Seq<GlyphMetrics>) -> int
    decreases g.len(),
{
    if g.len() == 0 {
        0
    } else {
        total_advance(g.drop_last()) + g.last().advance
    }
}

/// The highest ascent of a run of glyphs (zero when empty).
pub open spec fn max_ascent(g: Seq<GlyphMetrics>) -> int
    decreases g.len(),
{
    if g.len() == 0 {
        0
    } else {
        let m = max_ascent(g.drop_last());
        if g.last().ascent > m { g.last().ascent as int } else { m }
    }
}

/// The deepest descent of a run of glyphs (zero when empty).
pub open spec fn max_descent(g: Seq<GlyphMetrics>) -> int
    decreases g.len(),
{
    if g.len() == 0 {
        0
    } else {
        let m = max_descent(g.drop_last());
        if g.last().descent > m { g.last().descent as int } else { m }
    }
}

/// How far the box starts left of the anchor: nothing, half the width, or all of it.
pub open spec fn offset_h(align: TextAlignHorizontal, w: int) -> int {
    match align {
        TextAlignHorizontal::Left => 0,
        TextAlignHorizontal::Center => w / 2,
        TextAlignHorizontal::Right => w,
    }
}

/// How far the box starts above the anchor: nothing, half the height, or all of it.
pub open spec fn offset_v(align: TextAlignVertical, h: int) -> int {
    match align {
        TextAlignVertical::Top => 0,
        TextAlignVertical::Center => h / 2,
        TextAlignVertical::Bottom => h,
    }
}

/// The box of a string of extent `w` by `h` anchored at `(x, y)`.
pub open spec fn aligned_box(
    x: int,
    y: int,
    w: int,
    h: int,
    ah: TextAlignHorizontal,
    av: TextAlignVertical,
) -> TextBox {
    TextBox {
        left: (x - offset_h(ah, w)) as i64,
        top: (y - offset_v(av, h)) as i64,
        right: (x - offset_h(ah, w) + w) as i64,
        bottom: (y - offset_v(av, h) + h) as i64,
    }
}

pub(crate) proof fn lemma_extent_bounds(g: Seq<GlyphMetrics>)
    ensures
        0 <= total_advance(g) <= g.len() * 0xffff_ffff,
        0 <= max_ascent(g) <= 0xffff_ffff,
        0 <= max_descent(g) <= 0xffff_ffff,
    decreases g.len(),
{
    if g.len() > 0 {
        lemma_extent_bounds(g.drop_last());
    }
}

/// The width (total advance), the height (highest ascent plus deepest
/// descent) and the highest ascent of a run of glyphs.
pub fn text_extent(glyphs: &[GlyphMetrics]) -> (r: (u64, u64, u32))
    requires
        glyphs@.len() <= MAX_GLYPHS,
    ensures
        r.0 == total_advance(glyphs@),
        r.1 == max_ascent(glyphs@) + max_descent(glyphs@),
        r.2 == max_ascent(glyphs@),
{
    let mut w: u64 = 0;
    let mut up: u32 = 0;
    let mut down: u32 = 0;
    let mut i: usize = 0;
    while i < glyphs.len()
        invariant
            i <= glyphs@.len() <= MAX_GLYPHS,
            w == total_advance(glyphs@.subrange(0, i as int)),
            up == max_ascent(glyphs@.subrange(0, i as int)),
            down == max_descent(glyphs@.subrange(0, i as int)),
        decreases glyphs.len() - i,
    {
        let g = glyphs[i];
        proof {
            let s = glyphs@.subrange(0, i as int + 1);
            assert(s.drop_last() =~= glyphs@.subrange(0, i as int));
            lemma_extent_bounds(glyphs@.subrange(0, i as int));
            assert(i * 0xffff_ffff <= MAX_GLYPHS * 0xffff_ffff) by (nonlinear_arith)
                requires
                    i <= MAX_GLYPHS,
            ;
        }
        w = w + g.advance as u64;
        if g.ascent > up {
            up = g.ascent;
        }
        if g.descent > down {
            down = g.descent;
        }
        i = i + 1;
    }
    assert(glyphs@.subrange(0, glyphs@.len() as int) =~= glyphs@);
    (w, up as u64 + down as u64, up)
}

/// The box that a string of extent `w` by `h` covers when anchored at `(x, y)`.
pub fn align_box(
    x: i32,
    y: i32,
    w: u64,
    h: u64,
    ah: TextAlignHorizontal,
    av: TextAlignVertical,
) -> (r: TextBox)
    requires
        w <= 0x4000_0000_0000_0000,
        h <= 0x4000_0000_0000_0000,
    ensures
        r == aligned_box(x as int, y as int, w as int, h as int, ah, av),
{
    let dx: i64 = match ah {
        TextAlignHorizontal::Left => 0,
        TextAlignHorizontal::Center => (w / 2) as i64,
        TextAlignHorizontal::Right => w as i64,
    };
    let dy: i64 = match av {
        TextAlignVertical::Top => 0,
        TextAlignVertical::Center => (h / 2) as i64,
        TextAlignVertical::Bottom => h as i64,
    };
    let left = x as i64 - dx;
    let top = y as i64 - dy;
    TextBox { left, top, right: left + w as i64, bottom: top + h as i64 }
}

/// Where a string's box lies for each alignment: centered, it spans half the
/// width (and height) on either side of the anchor; left/top, it starts at the
/// anchor; right/bottom, it ends there. A centered odd extent puts the extra unit
/// after the anchor.
pub proof fn alignment_places_box(x: int, y: int, w: int, h: int)
    requires
        -0x8000_0000 <= x < 0x8000_0000,
        -0x8000_0000 <= y < 0x8000_0000,
        0 <= w <= 0x4000_0000_0000_0000,
        0 <= h <= 0x4000_0000_0000_0000,
    ensures
        ({
            let b = aligned_box(x, y, w, h, TextAlignHorizontal::Center, TextAlignVertical::Center);
            b.left == x - w / 2 && b.right == x + (w - w / 2) && b.top == y - h / 2 && b.bottom
                == y + (h - h / 2)
        }),
        w % 2 == 0 && h % 2 == 0 ==> ({
            let b = aligned_box(x, y, w, h, TextAlignHorizontal::Center, TextAlignVertical::Center);
            2 * b.left == 2 * x - w && 2 * b.right == 2 * x + w && 2 * b.top == 2 * y - h && 2
                * b.bottom == 2 * y + h
        }),
        aligned_box(x, y, w, h, TextAlignHorizontal::Left, TextAlignVertical::Top) == (TextBox {
            left: x as i64,
            top: y as i64,
            right: (x + w) as i64,
            bottom: (y + h) as i64,
        }),
        aligned_box(x, y, w, h, TextAlignHorizontal::Right, TextAlignVertical::Bottom) == (TextBox {
            left: (x - w) as i64,
            top: (y - h) as i64,
            right: x as i64,
            bottom: y as i64,
        }),
{
}

} // verus!
