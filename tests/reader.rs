use speed_reader::reader::{Action, ButtonState, FileState, Hover, Key, MouseButton, Reader};
use speed_reader::scene::draw_frame;

fn chars(s: &str) -> Vec<char> {
    s.chars().collect()
}

fn words(r: &Reader) -> Vec<String> {
    r.words.iter().map(|w| w.iter().collect()).collect()
}

#[test]
fn scroll_accumulates_and_clamps() {
    let mut r = Reader::new(800, 600);
    assert_eq!(r.speed, 0);
    for _ in 0..3 {
        r.on_mouse_scroll(1000);
    }
    // 0.75 words per second
    assert_eq!(r.speed, 3000);
    r.on_mouse_scroll(-1000);
    // 0.5 words per second
    assert_eq!(r.speed, 2000);
}

#[test]
fn scroll_clamps_at_both_ends() {
    let mut r = Reader::new(800, 600);
    r.on_mouse_scroll(-1000);
    assert_eq!(r.speed, 0);
    for _ in 0..50 {
        r.on_mouse_scroll(1000);
    }
    assert_eq!(r.speed, 40_000);
    r.on_mouse_scroll(i32::MIN);
    assert_eq!(r.speed, 0);
}

#[test]
fn dropping_text_file_loads_words() {
    let mut r = Reader::new(800, 600);
    assert_eq!(r.file, FileState::NoFile);
    let path = chars("/home/user/book.txt");
    r.on_file_hovered(&path);
    assert_eq!(r.hover, Hover::TextFile);
    assert_eq!(r.on_file_dropped(&path), Action::LoadFile);
    r.load_text(&chars("one two\nthree"));
    assert_eq!(words(&r), vec!["one", "two", "three"]);
    assert_eq!(r.file, FileState::Loaded);
    assert_eq!(r.hover, Hover::Idle);
}

#[test]
fn dropping_other_file_keeps_words_and_shows_error() {
    let mut r = Reader::new(800, 600);
    r.load_text(&chars("one two\nthree"));
    let path = chars("/home/user/paper.pdf");
    r.on_file_hovered(&path);
    assert_eq!(r.hover, Hover::OtherFile);
    assert_eq!(r.on_file_dropped(&path), Action::Nothing);
    assert_eq!(words(&r), vec!["one", "two", "three"]);
    assert_eq!(r.file, FileState::Rejected);
    let items = draw_frame(&mut r, 1000);
    assert_eq!(items.len(), 1);
    let text: String = items[0].text.iter().collect();
    assert_eq!(text, "Поддерживается только файл в формате .txt");
}

#[test]
fn empty_text_is_refused() {
    let mut r = Reader::new(800, 600);
    r.load_text(&chars("\n\n"));
    assert_eq!(words(&r), vec!["Ожидается файл"]);
    assert_eq!(r.file, FileState::Rejected);
}

#[test]
fn cancelled_drag_returns_to_idle() {
    let mut r = Reader::new(800, 600);
    r.on_file_hovered(&chars("a.txt"));
    r.on_file_cancelled();
    assert_eq!(r.hover, Hover::Idle);
    assert_eq!(r.file, FileState::NoFile);
}

#[test]
fn load_failure_shows_no_file() {
    let mut r = Reader::new(800, 600);
    r.load_text(&chars("a b"));
    r.load_failed();
    assert_eq!(r.file, FileState::NoFile);
    assert_eq!(words(&r), vec!["a", "b"]);
}

#[test]
fn resize_updates_dimensions_before_next_frame() {
    let mut r = Reader::new(800, 600);
    assert_eq!(r.dimensions(), (800, 600));
    r.on_resized(1024, 768);
    assert_eq!(r.dimensions(), (1024, 768));
    let items = draw_frame(&mut r, 0);
    assert_eq!(items.len(), 2);
    assert_eq!((items[0].x, items[0].y), (1024 - 1100, 768 - 800));
    assert_eq!((items[1].x, items[1].y), (512, 768 - 350));
}

#[test]
fn buttons_stop_and_ask_for_file() {
    let mut r = Reader::new(800, 600);
    r.on_mouse_scroll(2000);
    assert_eq!(r.on_mouse_button(ButtonState::Released, MouseButton::Left), Action::Nothing);
    assert_eq!(r.speed, 2000);
    assert_eq!(r.on_mouse_button(ButtonState::Pressed, MouseButton::Left), Action::Nothing);
    assert_eq!(r.speed, 0);
    r.on_mouse_scroll(2000);
    assert_eq!(r.on_mouse_button(ButtonState::Pressed, MouseButton::Right), Action::PickFile);
    assert_eq!(r.speed, 0);
}

#[test]
fn escape_exits() {
    let r = Reader::new(800, 600);
    assert_eq!(r.on_keyboard_input(Key::Escape, ButtonState::Pressed), Action::Exit);
    assert_eq!(r.on_keyboard_input(Key::Escape, ButtonState::Released), Action::Nothing);
    assert_eq!(r.on_keyboard_input(Key::Other, ButtonState::Pressed), Action::Nothing);
}

#[test]
fn mouse_move_is_recorded() {
    let mut r = Reader::new(800, 600);
    r.on_mouse_move(12, -3);
    assert_eq!(r.mouse, (12, -3));
}

#[test]
fn words_advance_with_time_and_wrap() {
    let mut r = Reader::new(800, 600);
    r.load_text(&chars("a b c"));
    r.on_mouse_scroll(4000); // one word per second
    r.advance(1_500_000);
    assert_eq!(r.position, 1);
    assert_eq!(r.phase, 2_000_000_000);
    r.advance(500_000);
    assert_eq!(r.position, 2);
    assert_eq!(r.phase, 0);
    r.advance(1_000_000);
    assert_eq!(r.position, 3);
    assert_eq!(r.current_word().iter().collect::<String>(), "a");
}

#[test]
fn frame_shows_speed_and_word() {
    let mut r = Reader::new(2000, 1000);
    r.load_text(&chars("alpha beta"));
    for _ in 0..3 {
        r.on_mouse_scroll(1000);
    }
    let items = draw_frame(&mut r, 2_000_000);
    let label: String = items[0].text.iter().collect();
    assert_eq!(label, "45 слов в минуту");
    let word: String = items[1].text.iter().collect();
    assert_eq!(word, "beta");
    assert_eq!(items[1].font.size, 200);
}

#[test]
fn hovering_text_file_shows_acceptance() {
    let mut r = Reader::new(800, 600);
    r.on_file_hovered(&chars("notes.txt"));
    let items = draw_frame(&mut r, 1_000_000);
    let text: String = items[0].text.iter().collect();
    assert_eq!(text, "Файл корректный!");
    assert_eq!(items[0].font.color.g, 255);
    assert_eq!(items[0].font.color.r, 0);
}

#[test]
fn loading_keeps_reading_position() {
    let mut r = Reader::new(800, 600);
    r.load_text(&chars("a b c"));
    r.on_mouse_scroll(4000);
    r.advance(1_000_000);
    assert_eq!(r.position, 1);
    r.load_text(&chars("x y"));
    assert_eq!(r.position, 1);
    assert_eq!(r.current_word().iter().collect::<String>(), "y");
    r.load_text(&chars("p q r s"));
    assert_eq!(r.current_word().iter().collect::<String>(), "q");
}

#[test]
fn events_keep_the_mouse_position() {
    let mut r = Reader::new(800, 600);
    r.on_mouse_move(5, 7);
    r.on_resized(1024, 768);
    r.on_mouse_scroll(1000);
    r.on_mouse_button(ButtonState::Pressed, MouseButton::Right);
    r.on_file_hovered(&chars("a.pdf"));
    r.on_file_cancelled();
    r.on_file_dropped(&chars("a.txt"));
    r.load_text(&chars("a b"));
    r.load_failed();
    draw_frame(&mut r, 1000);
    assert_eq!(r.mouse, (5, 7));
}
