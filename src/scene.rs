use vstd::prelude::*;
use vstd::string::StrSliceExecFns;
use crate::canvas::{background, glyph_run, Canvas, DrawCommand};
use crate::glyph_cache::{lookup, GlyphCache, GlyphKey};
use crate::layout::{
    aligned_box, max_ascent, max_descent, total_advance,
    Color, FontParameters, GlyphMetrics, TextAlignHorizontal, TextAlignVertical, MAX_GLYPHS,
};
use crate::reader::{saturating_sum, FileState, Hover, Reader, PHASE_PER_WORD, SPEED_UNITS_PER_WORD};

verus! {

/// A string to draw, anchored at `(x, y)` in logical units.
pub struct TextItem {
    pub text: Vec<char>,
    pub x: i32,
    pub y: i32,
    pub font: FontParameters,
}

pub open spec fn item_view(t: TextItem) -> (Seq<char>, int, int, FontParameters) {
    (t.text@, t.x as int, t.y as int, t.font)
}

pub open spec fn items_view(v: Seq<TextItem>) -> Seq<(Seq<char>, int, int, FontParameters)> {
    v.map_values(|t: TextItem| item_view(t))
}

/// A fully opaque color.
pub open spec fn opaque(r: u8, g: u8, b: u8) -> Color {
    Color { r, g, b, a: 255 }
}

pub fn rgb(r: u8, g: u8, b: u8) -> (c: Color)
    ensures
        c == opaque(r, g, b),
{
    Color { r, g, b, a: 255 }
}

/// The depth that each frame clears to: the far plane.
pub const FAR_DEPTH: u32 = 0xffff_ffff;

/// The font family used when a string names none.
pub const DEFAULT_FAMILY: u32 = 0;

/// Metrics drawn for a glyph that the font could not give: a box as wide as
/// half the pixel size and as tall as the pixel size, standing on the baseline.
pub open spec fn missing_glyph(size: u32) -> GlyphMetrics {
    GlyphMetrics { advance: size / 2, ascent: size, descent: 0 }
}

/// A centered font of the given color and size.
pub open spec fn centered(color: Color, size: u32) -> FontParameters {
    FontParameters {
        color,
        size,
        align_horizontal: TextAlignHorizontal::Center,
        align_vertical: TextAlignVertical::Center,
        family: None,
    }
}

pub open spec fn accepted_message() -> Seq<char> {
    "Файл корректный!"@
}

pub open spec fn refused_message() -> Seq<char> {
    "Поддерживается только файл в формате .txt"@
}

pub open spec fn per_minute_suffix() -> Seq<char> {
    " слов в минуту"@
}

pub open spec fn digit_char(d: int) -> char {
    seq!['0', '1', '2', '3', '4', '5', '6', '7', '8', '9'][d]
}

/// The decimal digits of `n`, most significant first.
pub open spec fn decimal(n: nat) -> Seq<char>
    decreases n,
{
    if n < 10 {
        seq![digit_char(n as int)]
    } else {
        decimal(n / 10).push(digit_char((n % 10) as int))
    }
}

/// Whole words per minute at a speed given in units of `1 / SPEED_UNITS_PER_WORD`
/// word per second.
pub open spec fn words_per_minute(speed: int) -> int {
    speed * 60 / SPEED_UNITS_PER_WORD as int
}

fn chars_of(s: &str) -> (r: Vec<char>)
    ensures
        r@ == s@,
{
    let n = s.unicode_len();
    let mut r: Vec<char> = Vec::new();
    let mut i: usize = 0;
    while i < n
        invariant
            n == s@.len(),
            i <= n,
            r@ == s@.subrange(0, i as int),
        decreases n - i,
    {
        r.push(s.get_char(i));
        proof {
            assert(r@ =~= s@.subrange(0, i as int + 1));
        }
        i = i + 1;
    }
    proof {
        assert(r@ =~= s@);
    }
    r
}

fn push_decimal(n: u64, out: &mut Vec<char>)
    ensures
        final(out)@ == old(out)@ + decimal(n as nat),
    decreases n,
{
    let digits: Vec<char> = vec!['0', '1', '2', '3', '4', '5', '6', '7', '8', '9'];
    assert(digits@ =~= seq!['0', '1', '2', '3', '4', '5', '6', '7', '8', '9']);
    if n >= 10 {
        push_decimal(n / 10, out);
    }
    let d = (n % 10) as usize;
    out.push(digits[d]);
    proof {
        if n < 10 {
            assert(final(out)@ =~= old(out)@ + decimal(n as nat));
        }
    }
}

/// The label that tells the current speed in whole words per minute.
pub fn speed_label(speed: u32) -> (r: Vec<char>)
    ensures
        r@ == decimal(words_per_minute(speed as int) as nat) + per_minute_suffix(),
{
    let wpm = speed as u64 * 60 / SPEED_UNITS_PER_WORD;
    let mut r: Vec<char> = Vec::new();
    push_decimal(wpm, &mut r);
    let mut suffix = chars_of(" слов в минуту");
    r.append(&mut suffix);
    r
}

/// What a frame shows: while a file is dragged over the window, whether it
/// will be accepted; after a refused file, the reason; otherwise, after moving
/// through the words for `micros` microseconds, the speed and the current word.
pub fn draw_frame(reader: &mut Reader, micros: u32) -> (r: Vec<TextItem>)
    requires
        old(reader).wf(),
    ensures
        final(reader).wf(),
        ({
            let w = old(reader).viewport.width as int;
            let h = old(reader).viewport.height as int;
            let f = *final(reader);
            if old(reader).hover == Hover::TextFile {
                &&& items_view(r@) == seq![(accepted_message(), w / 2, h - 800, centered(opaque(0, 255, 0), 144))]
                &&& f == *old(reader)
            } else if old(reader).hover == Hover::OtherFile || old(reader).file == FileState::Rejected {
                &&& items_view(r@) == seq![(refused_message(), w / 2, h - 800, centered(opaque(255, 0, 0), 144))]
                &&& f == *old(reader)
            } else {
                &&& items_view(r@) == seq![
                    (
                        decimal(words_per_minute(f.speed as int) as nat) + per_minute_suffix(),
                        w - 1100,
                        h - 800,
                        centered(opaque(255, 255, 255), 144),
                    ),
                    (f.words@[f.shown_index()]@, w / 2, h - 350, centered(opaque(255, 255, 255), 200)),
                ]
                &&& {
                    let total = old(reader).phase + old(reader).speed * micros;
                    f == (Reader {
                        position: saturating_sum(
                            old(reader).position as int,
                            total / PHASE_PER_WORD as int,
                        ) as u64,
                        phase: (total % PHASE_PER_WORD as int) as u64,
                        ..*old(reader)
                    })
                }
            }
        }),
{
    let (w, h) = reader.dimensions();
    let cx = (w / 2) as i32;
    let top = h as i32 - 800;
    let mut items: Vec<TextItem> = Vec::new();
    if reader.hover == Hover::TextFile {
        let font = FontParameters {
            color: rgb(0, 255, 0),
            size: 144,
            align_horizontal: TextAlignHorizontal::Center,
            align_vertical: TextAlignVertical::Center,
            family: None,
        };
        items.push(TextItem { text: chars_of("Файл корректный!"), x: cx, y: top, font });
    } else if reader.hover == Hover::OtherFile || reader.file == FileState::Rejected {
        let font = FontParameters {
            color: rgb(255, 0, 0),
            size: 144,
            align_horizontal: TextAlignHorizontal::Center,
            align_vertical: TextAlignVertical::Center,
            family: None,
        };
        let text = chars_of("Поддерживается только файл в формате .txt");
        items.push(TextItem { text, x: cx, y: top, font });
    } else {
        reader.advance(micros);
        let label_font = FontParameters {
            color: rgb(255, 255, 255),
            size: 144,
            align_horizontal: TextAlignHorizontal::Center,
            align_vertical: TextAlignVertical::Center,
            family: None,
        };
        let word_font = FontParameters { size: 200, ..label_font };
        items.push(TextItem { text: speed_label(reader.speed), x: w as i32 - 1100, y: top, font: label_font });
        let word = reader.current_word().clone();
        assert(word@ =~= reader.words@[reader.shown_index()]@);
        items.push(TextItem { text: word, x: cx, y: h as i32 - 350, font: word_font });
    }
    proof {
        assert(items_view(items@) =~= items@.map_values(|t: TextItem| item_view(t)));
    }
    items
}

/// The cache key of character `c` drawn in `font`.
pub open spec fn key_of(font: FontParameters, c: char) -> GlyphKey {
    GlyphKey {
        font: match font.family {
            Some(f) => f,
            None => DEFAULT_FAMILY,
        },
        size: font.size,
        ch: c,
    }
}

/// The metrics drawn for `c` in `font`: the cached ones, or the missing-glyph box.
pub open spec fn resolved(
    entries: Seq<(GlyphKey, GlyphMetrics)>,
    font: FontParameters,
    c: char,
) -> GlyphMetrics {
    match lookup(entries, key_of(font, c)) {
        Some(m) => m,
        None => missing_glyph(font.size),
    }
}

pub open spec fn resolved_all(
    entries: Seq<(GlyphKey, GlyphMetrics)>,
    font: FontParameters,
    s: Seq<char>,
) -> Seq<GlyphMetrics> {
    Seq::new(s.len(), |i: int| resolved(entries, font, s[i]))
}

fn key_for(font: &FontParameters, c: char) -> (k: GlyphKey)
    ensures
        k == key_of(*font, c),
{
    let f = match font.family {
        Some(f) => f,
        None => DEFAULT_FAMILY,
    };
    GlyphKey { font: f, size: font.size, ch: c }
}

/// The keys of the characters of `text` that the cache does not hold yet, in
/// each once: the glyphs still to be rasterized.
pub fn missing_glyphs(cache: &GlyphCache, text: &[char], font: &FontParameters) -> (r: Vec<
    GlyphKey,
>)
    ensures
        forall|i: int| 0 <= i < r@.len() ==> lookup(cache.entries@, #[trigger] r@[i]).is_none(),
        forall|j: int|
            0 <= j < text@.len() && lookup(cache.entries@, key_of(*font, #[trigger] text@[j])).is_none()
                ==> r@.contains(key_of(*font, text@[j])),
        forall|i: int, k: int| 0 <= i < k < r@.len() ==> r@[i] != r@[k],
        forall|i: int|
            0 <= i < r@.len() ==> (#[trigger] r@[i]) == key_of(*font, r@[i].ch) && text@.contains(
                r@[i].ch,
            ),
{
    let mut r: Vec<GlyphKey> = Vec::new();
    let mut j: usize = 0;
    while j < text.len()
        invariant
            j <= text@.len(),
            forall|i: int| 0 <= i < r@.len() ==> lookup(cache.entries@, #[trigger] r@[i]).is_none(),
            forall|q: int|
                0 <= q < j && lookup(cache.entries@, key_of(*font, #[trigger] text@[q])).is_none()
                    ==> r@.contains(key_of(*font, text@[q])),
            forall|i: int, k: int| 0 <= i < k < r@.len() ==> r@[i] != r@[k],
            forall|i: int|
                0 <= i < r@.len() ==> (#[trigger] r@[i]) == key_of(*font, r@[i].ch)
                    && text@.contains(r@[i].ch),
        decreases text.len() - j,
    {
        let k = key_for(font, text[j]);
        if cache.get(k).is_none() {
            let mut seen = false;
            let mut i: usize = 0;
            while i < r.len()
                invariant
                    i <= r@.len(),
                    seen == r@.subrange(0, i as int).contains(k),
                decreases r.len() - i,
            {
                let ghost pre = r@.subrange(0, i as int);
                let ghost post = r@.subrange(0, i as int + 1);
                proof {
                    assert(post =~= pre.push(r@[i as int]));
                }
                if r[i] == k {
                    seen = true;
                    proof {
                        assert(post[i as int] == k);
                    }
                } else {
                    proof {
                        if post.contains(k) {
                            let t = choose|t: int| 0 <= t < post.len() && post[t] == k;
                            assert(pre[t] == k);
                        }
                        if pre.contains(k) {
                            let t = choose|t: int| 0 <= t < pre.len() && pre[t] == k;
                            assert(post[t] == k);
                        }
                    }
                }
                i = i + 1;
            }
            assert(r@.subrange(0, r@.len() as int) =~= r@);
            if !seen {
                let ghost before = r@;
                r.push(k);
                proof {
                    assert(text@[j as int] == k.ch);
                    assert forall|i: int| 0 <= i < r@.len() implies (#[trigger] r@[i]) == key_of(
                        *font,
                        r@[i].ch,
                    ) && text@.contains(r@[i].ch) by {
                        if i < before.len() {
                            assert(r@[i] == before[i]);
                        }
                    }
                    assert forall|q: int|
                        0 <= q < j + 1 && lookup(cache.entries@, key_of(*font, #[trigger] text@[q])).is_none()
                            implies r@.contains(key_of(*font, text@[q])) by {
                        if q < j {
                            let t = choose|t: int| 0 <= t < before.len() && before[t] == key_of(*font, text@[q]);
                            assert(r@[t] == before[t]);
                        } else {
                            assert(r@[before.len() as int] == k);
                        }
                    }
                }
            }
        }
        j = j + 1;
    }
    r
}

/// The metrics of each character of `text` in `font`, from the cache, with the
/// missing-glyph box for those it does not hold.
pub fn glyph_metrics(cache: &GlyphCache, text: &[char], font: &FontParameters) -> (r: Vec<
    GlyphMetrics,
>)
    ensures
        r@ == resolved_all(cache.entries@, *font, text@),
{
    let mut r: Vec<GlyphMetrics> = Vec::new();
    let mut j: usize = 0;
    while j < text.len()
        invariant
            j <= text@.len(),
            r@ == resolved_all(cache.entries@, *font, text@).subrange(0, j as int),
        decreases text.len() - j,
    {
        let k = key_for(font, text[j]);
        let m = match cache.get(k) {
            Some(m) => m,
            None => GlyphMetrics { advance: font.size / 2, ascent: font.size, descent: 0 },
        };
        r.push(m);
        proof {
            assert(r@ =~= resolved_all(cache.entries@, *font, text@).subrange(0, j as int + 1));
        }
        j = j + 1;
    }
    assert(r@ =~= resolved_all(cache.entries@, *font, text@));
    r
}

/// The glyph draw calls of one item, its glyphs resolved through the cache.
pub open spec fn item_run(
    entries: Seq<(GlyphKey, GlyphMetrics)>,
    t: (Seq<char>, int, int, FontParameters),
) -> Seq<DrawCommand> {
    let g = resolved_all(entries, t.3, t.0);
    let b = aligned_box(
        t.1,
        t.2,
        total_advance(g),
        max_ascent(g) + max_descent(g),
        t.3.align_horizontal,
        t.3.align_vertical,
    );
    glyph_run(t.0, g, b.left as int, b.top + max_ascent(g), t.3)
}

/// The glyph draw calls of all items, in order.
pub open spec fn items_run(
    entries: Seq<(GlyphKey, GlyphMetrics)>,
    items: Seq<(Seq<char>, int, int, FontParameters)>,
) -> Seq<DrawCommand>
    decreases items.len(),
{
    if items.len() == 0 {
        Seq::empty()
    } else {
        items_run(entries, items.drop_last()) + item_run(entries, items.last())
    }
}

/// Whether every command of `cmds` draws a glyph.
pub open spec fn all_glyphs(cmds: Seq<DrawCommand>) -> bool {
    forall|i: int| 0 <= i < cmds.len() ==> (#[trigger] cmds[i]) is Glyph
}

proof fn lemma_glyphs_keep_background(a: Seq<DrawCommand>, b: Seq<DrawCommand>)
    requires
        all_glyphs(b),
    ensures
        background(a + b) == background(a),
    decreases b.len(),
{
    if b.len() == 0 {
        assert(a + b =~= a);
    } else {
        assert((a + b).drop_last() =~= a + b.drop_last());
        assert((a + b).last() == b[b.len() - 1]);
        assert(all_glyphs(b.drop_last())) by {
            assert forall|i: int| 0 <= i < b.drop_last().len() implies (#[trigger] b.drop_last()[i]) is Glyph by {
                assert(b.drop_last()[i] == b[i]);
            }
        }
        lemma_glyphs_keep_background(a, b.drop_last());
    }
}

proof fn lemma_items_run_glyphs(
    entries: Seq<(GlyphKey, GlyphMetrics)>,
    items: Seq<(Seq<char>, int, int, FontParameters)>,
)
    ensures
        all_glyphs(items_run(entries, items)),
    decreases items.len(),
{
    if items.len() > 0 {
        lemma_items_run_glyphs(entries, items.drop_last());
        let a = items_run(entries, items.drop_last());
        let b = item_run(entries, items.last());
        assert forall|i: int| 0 <= i < (a + b).len() implies (#[trigger] (a + b)[i]) is Glyph by {
            if i >= a.len() {
                let k = i - a.len();
                assert(b[k] == (a + b)[i]);
            } else {
                assert(a[i] == (a + b)[i]);
            }
        }
    }
}

/// Draws a frame's items on `canvas`: first a clear to opaque black at the far
/// depth, then each item's glyphs, with the cached metrics or the
/// missing-glyph box.
pub fn render(canvas: &mut Canvas, cache: &GlyphCache, items: &[TextItem])
    requires
        forall|i: int| 0 <= i < items@.len() ==> (#[trigger] items@[i]).text@.len() <= MAX_GLYPHS,
    ensures
        final(canvas).viewport == old(canvas).viewport,
        final(canvas).commands@ == old(canvas).commands@.push(
            DrawCommand::Clear { color: opaque(0, 0, 0), depth: FAR_DEPTH },
        ) + items_run(cache.entries@, items_view(items@)),
        background(final(canvas).commands@) == Some(opaque(0, 0, 0)),
{
    canvas.clear(rgb(0, 0, 0), FAR_DEPTH);
    let ghost start = canvas.commands@;
    let mut i: usize = 0;
    proof {
        assert(items_view(items@).subrange(0, 0) =~= Seq::<(Seq<char>, int, int, FontParameters)>::empty());
        assert(start + Seq::<DrawCommand>::empty() =~= start);
    }
    while i < items.len()
        invariant
            i <= items@.len(),
            forall|q: int| 0 <= q < items@.len() ==> (#[trigger] items@[q]).text@.len() <= MAX_GLYPHS,
            canvas.viewport == old(canvas).viewport,
            canvas.commands@ == start + items_run(
                cache.entries@,
                items_view(items@).subrange(0, i as int),
            ),
        decreases items.len() - i,
    {
        let item = &items[i];
        let g = glyph_metrics(cache, item.text.as_slice(), &item.font);
        let ghost before = canvas.commands@;
        canvas.text(item.text.as_slice(), item.x, item.y, &item.font, g.as_slice());
        proof {
            let v = items_view(items@);
            let pre = v.subrange(0, i as int);
            let post = v.subrange(0, i as int + 1);
            assert(post.drop_last() =~= pre);
            assert(post.last() == item_view(items@[i as int]));
            assert(canvas.commands@ =~= start + items_run(cache.entries@, post));
        }
        i = i + 1;
    }
    proof {
        assert(items_view(items@).subrange(0, items@.len() as int) =~= items_view(items@));
        lemma_items_run_glyphs(cache.entries@, items_view(items@));
        lemma_glyphs_keep_background(start, items_run(cache.entries@, items_view(items@)));
    }
}

} // verus!
