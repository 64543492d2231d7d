use vstd::prelude::*;
use crate::layout::{
    align_box, aligned_box, lemma_extent_bounds, max_ascent, max_descent, text_extent, total_advance, Color,
    FontParameters, GlyphMetrics, MAX_GLYPHS,
};
use crate::viewport::{NdcPoint, Viewport};

verus! {

/// One recorded draw call of a frame, in submission order.
#[derive(Clone, Copy, Debug, PartialEq, Eq, Structural)]
pub enum DrawCommand {
    /// Fill the whole target with a color and reset the depth buffer to `depth`,
    /// in fixed point from 0 (the near plane) to `u32::MAX` (the far plane).
    Clear { color: Color, depth: u32 },
    /// A filled quad between two projected corners.
    Rect { top_left: NdcPoint, bottom_right: NdcPoint, color: Color },
    /// One textured glyph quad: the pen position on the baseline, in logical units.
    Glyph { ch: char, pen_x: i64, baseline: i64, size: u32, family: Option<u32>, color: Color },
}

/// The color of the last clear among `cmds`, which the visible buffer shows
/// beneath whatever was drawn after it.
pub open spec fn background(cmds: Seq<DrawCommand>) -> Option<Color>
    decreases cmds.len(),
{
    if cmds.len() == 0 {
        None
    } else {
        match cmds.last() {
            DrawCommand::Clear { color, .. } => Some(color),
            _ => background(cmds.drop_last()),
        }
    }
}

/// The draw call of the `i`-th glyph of `s`: the pen has moved right by the
/// advances of the glyphs before it.
pub open spec fn glyph_at(
    s: Seq<char>,
    g: Seq<GlyphMetrics>,
    left: int,
    baseline: int,
    font: FontParameters,
    i: int,
) -> DrawCommand {
    DrawCommand::Glyph {
        ch: s[i],
        pen_x: (left + total_advance(g.subrange(0, i))) as i64,
        baseline: baseline as i64,
        size: font.size,
        family: font.family,
        color: font.color,
    }
}

/// The glyph draw calls for `s` with metrics `g`, the pen starting at `left` on
/// `baseline`.
pub open spec fn glyph_run(
    s: Seq<char>,
    g: Seq<GlyphMetrics>,
    left: int,
    baseline: int,
    font: FontParameters,
) -> Seq<DrawCommand> {
    Seq::new(s.len(), |i: int| glyph_at(s, g, left, baseline, font, i))
}

proof fn lemma_run_shape(
    s: Seq<char>,
    g: Seq<GlyphMetrics>,
    left: int,
    baseline: int,
    font: FontParameters,
    i: int,
)
    requires
        0 <= i < s.len(),
    ensures
        glyph_run(s, g, left, baseline, font).len() == s.len(),
        glyph_run(s, g, left, baseline, font)[i] == (DrawCommand::Glyph {
            ch: s[i],
            pen_x: (left + total_advance(g.subrange(0, i))) as i64,
            baseline: baseline as i64,
            size: font.size,
            family: font.family,
            color: font.color,
        }),
{
}

/// The drawing handle of one frame: it records draw calls against the viewport
/// that was current when the frame began.
pub struct Canvas {
    pub viewport: Viewport,
    pub commands: Vec<DrawCommand>,
}

impl Canvas {
    pub open spec fn wf(&self) -> bool {
        self.viewport.wf()
    }

    /// A canvas for a new frame, with nothing recorded yet.
    pub fn new(viewport: Viewport) -> (r: Canvas)
        requires
            viewport.wf(),
        ensures
            r.wf(),
            r.viewport == viewport,
            r.commands@.len() == 0,
    {
        Canvas { viewport, commands: Vec::new() }
    }

    /// The logical size of the frame, as `(width, height)`.
    pub fn dimensions(&self) -> (r: (u32, u32))
        ensures
            r == (self.viewport.width, self.viewport.height),
    {
        self.viewport.dimensions()
    }

    /// Clears the target; the latest clear decides the background.
    pub fn clear(&mut self, color: Color, depth: u32)
        ensures
            final(self).viewport == old(self).viewport,
            final(self).commands@ == old(self).commands@.push(
                DrawCommand::Clear { color, depth },
            ),
            background(final(self).commands@) == Some(color),
    {
        self.commands.push(DrawCommand::Clear { color, depth });
    }

    /// Draws a filled rectangle given by its top-left and bottom-right corners in
    /// logical units, projected by the frame's viewport.
    pub fn rect(&mut self, left: i32, top: i32, right: i32, bottom: i32, color: Color)
        requires
            old(self).wf(),
        ensures
            final(self).viewport == old(self).viewport,
            final(self).commands@ == old(self).commands@.push(
                DrawCommand::Rect {
                    top_left: old(self).viewport.projected(left as int, top as int),
                    bottom_right: old(self).viewport.projected(right as int, bottom as int),
                    color,
                },
            ),
            background(final(self).commands@) == background(old(self).commands@),
    {
        let top_left = self.viewport.project(left, top);
        let bottom_right = self.viewport.project(right, bottom);
        self.commands.push(DrawCommand::Rect { top_left, bottom_right, color });
        proof {
            assert(self.commands@.drop_last() =~= old(self).commands@);
        }
    }

    /// Lays out `s`, whose glyphs have the metrics `glyphs`, anchored at `(x, y)`
    /// by the font's alignment, and records one glyph draw call per character.
    /// The baseline lies the highest ascent below the top of the aligned box.
    pub fn text(
        &mut self,
        s: &[char],
        x: i32,
        y: i32,
        font: &FontParameters,
        glyphs: &[GlyphMetrics],
    )
        requires
            s@.len() == glyphs@.len(),
            glyphs@.len() <= MAX_GLYPHS,
        ensures
            ({
                let w = total_advance(glyphs@);
                let h = max_ascent(glyphs@) + max_descent(glyphs@);
                let b = aligned_box(
                    x as int,
                    y as int,
                    w,
                    h,
                    font.align_horizontal,
                    font.align_vertical,
                );
                final(self).commands@ == old(self).commands@ + glyph_run(
                    s@,
                    glyphs@,
                    b.left as int,
                    b.top + max_ascent(glyphs@),
                    *font,
                )
            }),
            final(self).viewport == old(self).viewport,
    {
        let (w, h, up) = text_extent(glyphs);
        proof {
            lemma_extent_bounds(glyphs@);
            assert(glyphs@.len() * 0xffff_ffff <= MAX_GLYPHS * 0xffff_ffff) by (nonlinear_arith)
                requires
                    glyphs@.len() <= MAX_GLYPHS,
            ;
        }
        let b = align_box(x, y, w, h, font.align_horizontal, font.align_vertical);
        let baseline: i64 = b.top + up as i64;
        let ghost run = glyph_run(s@, glyphs@, b.left as int, baseline as int, *font);
        let ghost start = self.commands@;
        assert(run.len() == s@.len()) by {
            if s@.len() > 0 {
                lemma_run_shape(s@, glyphs@, b.left as int, baseline as int, *font, 0);
            }
        }
        let mut pen: i64 = b.left;
        let mut i: usize = 0;
        while i < s.len()
            invariant
                i <= s@.len() == glyphs@.len() <= MAX_GLYPHS,
                run == glyph_run(s@, glyphs@, b.left as int, baseline as int, *font),
                run.len() == s@.len(),
                -0x4000_0000_0000_0000 - 0x8000_0000 <= b.left <= 0x8000_0000,
                pen == b.left + total_advance(glyphs@.subrange(0, i as int)),
                self.commands@ == start + run.subrange(0, i as int),
                self.viewport == old(self).viewport,
            decreases s.len() - i,
        {
            proof {
                let t = glyphs@.subrange(0, i as int + 1);
                assert(t.drop_last() =~= glyphs@.subrange(0, i as int));
                lemma_extent_bounds(glyphs@.subrange(0, i as int));
                assert(i * 0xffff_ffff <= MAX_GLYPHS * 0xffff_ffff) by (nonlinear_arith)
                    requires
                        i <= MAX_GLYPHS,
                ;
            }
            proof {
                lemma_run_shape(s@, glyphs@, b.left as int, baseline as int, *font, i as int);
            }
            let ghost before = self.commands@;
            self.commands.push(
                DrawCommand::Glyph {
                    ch: s[i],
                    pen_x: pen,
                    baseline,
                    size: font.size,
                    family: font.family,
                    color: font.color,
                },
            );
            pen = pen + glyphs[i].advance as i64;
            proof {
                assert(run.subrange(0, i as int + 1) =~= run.subrange(0, i as int).push(
                    run[i as int],
                ));
                assert(self.commands@ == before.push(run[i as int]));
                assert(start + run.subrange(0, i as int + 1) =~= before.push(run[i as int]));
            }
            i = i + 1;
        }
        assert(run.subrange(0, s@.len() as int) =~= run);
    }
}

/// Clearing twice in one frame leaves the second color visible: the last clear wins.
pub proof fn last_clear_wins(cmds: Seq<DrawCommand>, first: Color, second: Color, d1: u32, d2: u32)
    ensures
        background(
            cmds.push(DrawCommand::Clear { color: first, depth: d1 }).push(
                DrawCommand::Clear { color: second, depth: d2 },
            ),
        ) == Some(second),
{
}

} // verus!
