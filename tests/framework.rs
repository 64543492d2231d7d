use speed_reader::canvas::{Canvas, DrawCommand};
use speed_reader::glyph_cache::{GlyphCache, GlyphKey};
use speed_reader::layout::{
    align_box, text_extent, Color, FontParameters, GlyphMetrics, TextAlignHorizontal,
    TextAlignVertical, TextBox,
};
use speed_reader::reader::is_text_file;
use speed_reader::scene::{glyph_metrics, missing_glyphs, render, speed_label, TextItem};
use speed_reader::tokens::{split_chars, split_words};
use speed_reader::viewport::Viewport;

fn chars(s: &str) -> Vec<char> {
    s.chars().collect()
}

fn strings(v: &[Vec<char>]) -> Vec<String> {
    v.iter().map(|w| w.iter().collect()).collect()
}

fn font(h: TextAlignHorizontal, v: TextAlignVertical) -> FontParameters {
    FontParameters {
        color: Color { r: 1, g: 2, b: 3, a: 4 },
        size: 16,
        align_horizontal: h,
        align_vertical: v,
        family: None,
    }
}

fn gm(advance: u32, ascent: u32, descent: u32) -> GlyphMetrics {
    GlyphMetrics { advance, ascent, descent }
}

#[test]
fn viewport_corners_project_to_ndc_corners() {
    let vp = Viewport::new(800, 600);
    let tl = vp.project(0, 0);
    assert_eq!((tl.x_num, tl.x_den, tl.y_num, tl.y_den), (-800, 800, 600, 600));
    let br = vp.project(800, 600);
    assert_eq!((br.x_num, br.x_den, br.y_num, br.y_den), (800, 800, -600, 600));
    let c = vp.project(400, 300);
    assert_eq!((c.x_num, c.y_num), (0, 0));
}

#[test]
fn resize_replaces_dimensions() {
    let mut vp = Viewport::new(800, 600);
    vp.resize(1, 1);
    assert_eq!(vp.dimensions(), (1, 1));
    vp.resize(1024, 768);
    assert_eq!(vp.dimensions(), (1024, 768));
    let p = vp.project(1024, 0);
    assert_eq!((p.x_num, p.x_den), (1024, 1024));
}

#[test]
fn extent_sums_advances_and_takes_extremes() {
    let g = vec![gm(10, 7, 2), gm(6, 9, 1), gm(4, 3, 3)];
    assert_eq!(text_extent(&g), (20, 12, 9));
    assert_eq!(text_extent(&[]), (0, 0, 0));
}

#[test]
fn alignment_places_boxes() {
    let c = align_box(100, 50, 40, 20, TextAlignHorizontal::Center, TextAlignVertical::Center);
    assert_eq!(c, TextBox { left: 80, top: 40, right: 120, bottom: 60 });
    let lt = align_box(100, 50, 40, 20, TextAlignHorizontal::Left, TextAlignVertical::Top);
    assert_eq!(lt, TextBox { left: 100, top: 50, right: 140, bottom: 70 });
    let rb = align_box(100, 50, 40, 20, TextAlignHorizontal::Right, TextAlignVertical::Bottom);
    assert_eq!(rb, TextBox { left: 60, top: 30, right: 100, bottom: 50 });
}

#[test]
fn second_clear_wins() {
    let mut c = Canvas::new(Viewport::new(10, 10));
    let a = Color { r: 255, g: 0, b: 0, a: 255 };
    let b = Color { r: 0, g: 0, b: 255, a: 255 };
    c.clear(a, 7);
    c.clear(b, 7);
    assert_eq!(c.commands.last(), Some(&DrawCommand::Clear { color: b, depth: 7 }));
    assert_eq!(c.commands.len(), 2);
}

#[test]
fn rect_uses_viewport_projection() {
    let mut c = Canvas::new(Viewport::new(200, 100));
    let col = Color { r: 0, g: 255, b: 0, a: 255 };
    c.rect(0, 0, 400, 10, col);
    match c.commands[0] {
        DrawCommand::Rect { top_left, bottom_right, color } => {
            assert_eq!((top_left.x_num, top_left.y_num), (-200, 100));
            assert_eq!((bottom_right.x_num, bottom_right.y_num), (600, 80));
            assert_eq!(color, col);
        }
        _ => panic!("expected a rectangle"),
    }
}

#[test]
fn centered_text_glyph_positions() {
    let mut c = Canvas::new(Viewport::new(800, 600));
    let s = chars("ab");
    let g = vec![gm(10, 8, 2), gm(6, 6, 4)];
    let f = font(TextAlignHorizontal::Center, TextAlignVertical::Center);
    c.text(&s, 100, 50, &f, &g);
    // width 16, height 8 + 4 = 12: box [92, 108] x [44, 56], baseline 44 + 8
    assert_eq!(c.commands.len(), 2);
    assert_eq!(
        c.commands[0],
        DrawCommand::Glyph { ch: 'a', pen_x: 92, baseline: 52, size: 16, family: None, color: f.color }
    );
    assert_eq!(
        c.commands[1],
        DrawCommand::Glyph { ch: 'b', pen_x: 102, baseline: 52, size: 16, family: None, color: f.color }
    );
}

#[test]
fn glyph_cache_rasterizes_once() {
    let mut cache = GlyphCache::new();
    let key = GlyphKey { font: 0, size: 144, ch: 'x' };
    assert_eq!(cache.get(key), None);
    cache.insert(key, gm(70, 100, 5));
    assert_eq!(cache.rasterized(), 1);
    assert_eq!(cache.get(key), Some(gm(70, 100, 5)));
    assert_eq!(cache.get(key), Some(gm(70, 100, 5)));
    assert_eq!(cache.rasterized(), 1);
    assert_eq!(cache.get(GlyphKey { font: 0, size: 200, ch: 'x' }), None);
}

#[test]
fn missing_glyphs_listed_once() {
    let mut cache = GlyphCache::new();
    let f = font(TextAlignHorizontal::Left, TextAlignVertical::Top);
    cache.insert(GlyphKey { font: 0, size: 16, ch: 'a' }, gm(5, 5, 0));
    let keys = missing_glyphs(&cache, &chars("abba c"), &f);
    let ch: Vec<char> = keys.iter().map(|k| k.ch).collect();
    assert_eq!(ch.len(), 3);
    assert!(ch.contains(&'b') && ch.contains(&' ') && ch.contains(&'c'));
    let m = glyph_metrics(&cache, &chars("ab"), &f);
    assert_eq!(m, vec![gm(5, 5, 0), gm(8, 16, 0)]);
}

#[test]
fn render_clears_then_draws_items() {
    let mut cache = GlyphCache::new();
    cache.insert(GlyphKey { font: 0, size: 16, ch: 'h' }, gm(4, 10, 2));
    let mut c = Canvas::new(Viewport::new(100, 100));
    let items = vec![TextItem {
        text: chars("hh"),
        x: 10,
        y: 20,
        font: font(TextAlignHorizontal::Left, TextAlignVertical::Top),
    }];
    render(&mut c, &cache, &items);
    assert_eq!(c.commands.len(), 3);
    assert_eq!(
        c.commands[0],
        DrawCommand::Clear { color: Color { r: 0, g: 0, b: 0, a: 255 }, depth: u32::MAX }
    );
    match c.commands[2] {
        DrawCommand::Glyph { ch, pen_x, baseline, .. } => assert_eq!((ch, pen_x, baseline), ('h', 14, 30)),
        _ => panic!("expected a glyph"),
    }
}

#[test]
fn split_keeps_empty_pieces() {
    assert_eq!(strings(&split_chars(&chars("a  b"), ' ')), vec!["a", "", "b"]);
    assert_eq!(strings(&split_chars(&[], ' ')), vec![""]);
}

#[test]
fn words_skip_empty_lines_and_carriage_returns() {
    assert_eq!(strings(&split_words(&chars("one two\nthree"))), vec!["one", "two", "three"]);
    assert_eq!(strings(&split_words(&chars("a b\r\n\r\n\nc\n"))), vec!["a", "b", "c"]);
    assert!(split_words(&chars("")).is_empty());
    // a carriage return with no line feed after it stays in the last word
    assert_eq!(strings(&split_words(&chars("a\r\nb\r"))), vec!["a", "b\r"]);
}

#[test]
fn text_file_by_suffix() {
    assert!(is_text_file(&chars("x/book.txt")));
    assert!(!is_text_file(&chars("x/book.pdf")));
    assert!(!is_text_file(&chars("txt")));
}

#[test]
fn speed_label_whole_words_per_minute() {
    assert_eq!(speed_label(3000).iter().collect::<String>(), "45 слов в минуту");
    assert_eq!(speed_label(0).iter().collect::<String>(), "0 слов в минуту");
    assert_eq!(speed_label(40_000).iter().collect::<String>(), "600 слов в минуту");
}
