use vstd::prelude::*;
use crate::tokens::{split_words, views, words_of};
use crate::viewport::{Viewport, MAX_SIDE};

verus! {

/// Speed is kept in units of 1/4000 word per second, so that one thousandth of
/// a scrolled line changes it by exactly one unit (four lines make one word per second).
pub const SPEED_UNITS_PER_WORD: u64 = 4000;

/// The highest speed: ten words per second.
pub const MAX_SPEED: u32 = 40_000;

pub const MICROS_PER_SECOND: u64 = 1_000_000;

/// Progress through the current word is counted in speed units times
/// microseconds; this many make one whole word.
pub const PHASE_PER_WORD: u64 = SPEED_UNITS_PER_WORD * MICROS_PER_SECOND;

#[derive(Clone, Copy, Debug, PartialEq, Eq, Structural)]
pub enum ButtonState {
    Pressed,
    Released,
}

#[derive(Clone, Copy, Debug, PartialEq, Eq, Structural)]
pub enum MouseButton {
    Left,
    Right,
    Middle,
    Other,
}

#[derive(Clone, Copy, Debug, PartialEq, Eq, Structural)]
pub enum Key {
    Escape,
    Other,
}

/// What the reader has made of the files offered to it.
#[derive(Clone, Copy, Debug, PartialEq, Eq, Structural)]
pub enum FileState {
    /// Nothing loaded yet, or the last file could not be read: the placeholder
    /// word is shown.
    NoFile,
    /// The words of a text file are shown.
    Loaded,
    /// The last file offered was not a text file, or held no words: an error is shown.
    Rejected,
}

/// A file being dragged over the window, judged by its name.
#[derive(Clone, Copy, Debug, PartialEq, Eq, Structural)]
pub enum Hover {
    Idle,
    TextFile,
    OtherFile,
}

/// What the surrounding program is asked to do after an event.
#[derive(Clone, Copy, Debug, PartialEq, Eq, Structural)]
pub enum Action {
    Nothing,
    /// Let the user pick a text file, then hand its contents to `load_text`.
    PickFile,
    /// Read the dropped file and hand its contents to `load_text`.
    LoadFile,
    /// End the program.
    Exit,
}

/// `speed + delta`, kept within `0..=MAX_SPEED`.
pub open spec fn clamped_speed(speed: int, delta: int) -> int {
    let s = speed + delta;
    if s < 0 {
        0
    } else if s > MAX_SPEED {
        MAX_SPEED as int
    } else {
        s
    }
}

/// Whether a path names a text file: it ends in ".txt".
pub open spec fn is_text_path(p: Seq<char>) -> bool {
    p.len() >= 4 && p.subrange(p.len() - 4, p.len() as int) == seq!['.', 't', 'x', 't']
}

/// The word shown before any file is loaded.
pub open spec fn placeholder_word() -> Seq<char> {
    seq!['О', 'ж', 'и', 'д', 'а', 'е', 'т', 'с', 'я', ' ', 'ф', 'а', 'й', 'л']
}

/// The application state of the trainer: the viewport, the loaded words, the
/// reading speed and position, the mouse, and the file state.
pub struct Reader {
    pub viewport: Viewport,
    pub words: Vec<Vec<char>>,
    /// Words per second, in units of `1 / SPEED_UNITS_PER_WORD`.
    pub speed: u32,
    /// How many whole words have been read since the start; the word shown is
    /// this count modulo the number of words, so it carries over when new words
    /// are loaded. It stops growing at `u64::MAX`.
    pub position: u64,
    /// Progress into the next word, out of `PHASE_PER_WORD`.
    pub phase: u64,
    pub mouse: (i32, i32),
    pub hover: Hover,
    pub file: FileState,
}

/// `a + b`, or `u64::MAX` where the sum would exceed it.
pub open spec fn saturating_sum(a: int, b: int) -> int {
    if a + b > u64::MAX {
        u64::MAX as int
    } else {
        a + b
    }
}

pub fn is_text_file(path: &[char]) -> (r: bool)
    ensures
        r == is_text_path(path@),
{
    let n = path.len();
    if n < 4 {
        return false;
    }
    let r = path[n - 4] == '.' && path[n - 3] == 't' && path[n - 2] == 'x' && path[n - 1] == 't';
    proof {
        let tail = path@.subrange(n - 4, n as int);
        if r {
            assert(tail =~= seq!['.', 't', 'x', 't']);
        } else {
            if tail == seq!['.', 't', 'x', 't'] {
                assert(tail[0] == path@[n - 4]);
                assert(tail[1] == path@[n - 3]);
                assert(tail[2] == path@[n - 2]);
                assert(tail[3] == path@[n - 1]);
            }
        }
    }
    r
}

impl Reader {
    pub open spec fn wf(&self) -> bool {
        &&& self.viewport.wf()
        &&& self.words@.len() > 0
        &&& self.speed <= MAX_SPEED
        &&& self.phase < PHASE_PER_WORD
    }

    /// The index of the word being shown.
    pub open spec fn shown_index(&self) -> int {
        self.position as int % self.words@.len() as int
    }

    /// A reader for a window of the given logical size: no file, speed zero,
    /// the placeholder word shown.
    pub fn new(width: u32, height: u32) -> (r: Reader)
        requires
            1 <= width <= MAX_SIDE,
            1 <= height <= MAX_SIDE,
        ensures
            r.wf(),
            r.viewport.width == width,
            r.viewport.height == height,
            views(r.words@) == seq![placeholder_word()],
            r.speed == 0,
            r.position == 0,
            r.phase == 0,
            r.mouse == (0i32, 0i32),
            r.hover == Hover::Idle,
            r.file == FileState::NoFile,
    {
        let placeholder: Vec<char> = vec!['О', 'ж', 'и', 'д', 'а', 'е', 'т', 'с', 'я', ' ', 'ф', 'а', 'й', 'л'];
        let words: Vec<Vec<char>> = vec![placeholder];
        proof {
            assert(views(words@) =~= seq![placeholder_word()]);
        }
        Reader {
            viewport: Viewport::new(width, height),
            words,
            speed: 0,
            position: 0,
            phase: 0,
            mouse: (0, 0),
            hover: Hover::Idle,
            file: FileState::NoFile,
        }
    }

    /// The current logical size of the window.
    pub fn dimensions(&self) -> (r: (u32, u32))
        ensures
            r == (self.viewport.width, self.viewport.height),
    {
        self.viewport.dimensions()
    }

    /// The window was resized to `width` by `height` logical units; nothing
    /// else changes.
    pub fn on_resized(&mut self, width: u32, height: u32)
        requires
            old(self).wf(),
            1 <= width <= MAX_SIDE,
            1 <= height <= MAX_SIDE,
        ensures
            final(self).wf(),
            *final(self) == (Reader { viewport: Viewport { width, height }, ..*old(self) }),
    {
        self.viewport.resize(width, height);
    }

    /// A scroll by `milli_lines` thousandths of a line (positive away from the
    /// user) changes the speed by as many units, kept within `0..=MAX_SPEED`;
    /// nothing else changes.
    pub fn on_mouse_scroll(&mut self, milli_lines: i32)
        requires
            old(self).wf(),
        ensures
            final(self).wf(),
            *final(self) == (Reader {
                speed: clamped_speed(old(self).speed as int, milli_lines as int) as u32,
                ..*old(self)
            }),
    {
        let s: i64 = self.speed as i64 + milli_lines as i64;
        self.speed = if s < 0 {
            0
        } else if s > MAX_SPEED as i64 {
            MAX_SPEED
        } else {
            s as u32
        };
    }

    /// A press of the left button stops the reader; a press of the right one
    /// stops it and asks for a file to be picked. Releases and other buttons
    /// change nothing.
    pub fn on_mouse_button(&mut self, state: ButtonState, button: MouseButton) -> (r: Action)
        requires
            old(self).wf(),
        ensures
            final(self).wf(),
            *final(self) == (if state == ButtonState::Pressed && (button == MouseButton::Left
                || button == MouseButton::Right) {
                Reader { speed: 0, ..*old(self) }
            } else {
                *old(self)
            }),
            r == (if state == ButtonState::Pressed && button == MouseButton::Right {
                Action::PickFile
            } else {
                Action::Nothing
            }),
    {
        if state == ButtonState::Pressed {
            match button {
                MouseButton::Left => {
                    self.speed = 0;
                    Action::Nothing
                },
                MouseButton::Right => {
                    self.speed = 0;
                    Action::PickFile
                },
                _ => Action::Nothing,
            }
        } else {
            Action::Nothing
        }
    }

    /// The pointer moved to `(x, y)` in logical units.
    pub fn on_mouse_move(&mut self, x: i32, y: i32)
        requires
            old(self).wf(),
        ensures
            final(self).wf(),
            *final(self) == (Reader { mouse: (x, y), ..*old(self) }),
    {
        self.mouse = (x, y);
    }

    /// Pressing Escape ends the program; every other key is ignored.
    pub fn on_keyboard_input(&self, key: Key, state: ButtonState) -> (r: Action)
        ensures
            r == (if key == Key::Escape && state == ButtonState::Pressed {
                Action::Exit
            } else {
                Action::Nothing
            }),
    {
        if key == Key::Escape && state == ButtonState::Pressed {
            Action::Exit
        } else {
            Action::Nothing
        }
    }

    /// A file is dragged over the window; it is judged by its name, and
    /// nothing else changes.
    pub fn on_file_hovered(&mut self, path: &[char])
        requires
            old(self).wf(),
        ensures
            final(self).wf(),
            *final(self) == (Reader {
                hover: if is_text_path(path@) {
                    Hover::TextFile
                } else {
                    Hover::OtherFile
                },
                ..*old(self)
            }),
    {
        self.hover = if is_text_file(path) {
            Hover::TextFile
        } else {
            Hover::OtherFile
        };
    }

    /// The drag left the window without a drop.
    pub fn on_file_cancelled(&mut self)
        requires
            old(self).wf(),
        ensures
            final(self).wf(),
            *final(self) == (Reader { hover: Hover::Idle, ..*old(self) }),
    {
        self.hover = Hover::Idle;
    }

    /// A file was dropped on the window. A text file is to be read and handed
    /// to `load_text`; any other file is refused, leaving the words as they were.
    pub fn on_file_dropped(&mut self, path: &[char]) -> (r: Action)
        requires
            old(self).wf(),
        ensures
            final(self).wf(),
            r == (if is_text_path(path@) {
                Action::LoadFile
            } else {
                Action::Nothing
            }),
            *final(self) == (if is_text_path(path@) {
                Reader { hover: Hover::Idle, ..*old(self) }
            } else {
                Reader { hover: Hover::Idle, file: FileState::Rejected, ..*old(self) }
            }),
    {
        self.hover = Hover::Idle;
        if is_text_file(path) {
            Action::LoadFile
        } else {
            self.file = FileState::Rejected;
            Action::Nothing
        }
    }

    /// The contents of a chosen text file: its words replace the current ones,
    /// and the reading position carries over (the word shown is the position
    /// modulo the new number of words). A text without words is refused and
    /// the words stay as they were.
    pub fn load_text(&mut self, text: &[char])
        requires
            old(self).wf(),
        ensures
            final(self).wf(),
            words_of(text@).len() > 0 ==> {
                &&& views(final(self).words@) == words_of(text@)
                &&& *final(self) == (Reader {
                    words: final(self).words,
                    file: FileState::Loaded,
                    ..*old(self)
                })
            },
            words_of(text@).len() == 0 ==> *final(self) == (Reader {
                file: FileState::Rejected,
                ..*old(self)
            }),
    {
        let words = split_words(text);
        if words.len() > 0 {
            self.words = words;
            self.file = FileState::Loaded;
        } else {
            self.file = FileState::Rejected;
        }
    }

    /// The chosen file could not be read: the reader goes back to showing that
    /// no file is loaded; the words stay as they were.
    pub fn load_failed(&mut self)
        requires
            old(self).wf(),
        ensures
            final(self).wf(),
            *final(self) == (Reader { file: FileState::NoFile, ..*old(self) }),
    {
        self.file = FileState::NoFile;
    }

    /// Moves through the words at the current speed for `micros` microseconds;
    /// nothing but the position and the progress into the next word changes.
    pub fn advance(&mut self, micros: u32)
        requires
            old(self).wf(),
        ensures
            final(self).wf(),
            ({
                let total = old(self).phase + old(self).speed * micros;
                *final(self) == (Reader {
                    position: saturating_sum(
                        old(self).position as int,
                        total / PHASE_PER_WORD as int,
                    ) as u64,
                    phase: (total % PHASE_PER_WORD as int) as u64,
                    ..*old(self)
                })
            }),
    {
        assert(self.speed as int * micros as int <= MAX_SPEED as int * 0xffff_ffff) by (nonlinear_arith)
            requires
                self.speed <= MAX_SPEED,
                micros <= 0xffff_ffff,
        ;
        let total: u64 = self.phase + self.speed as u64 * micros as u64;
        let steps: u64 = total / PHASE_PER_WORD;
        self.position = if steps > u64::MAX - self.position {
            u64::MAX
        } else {
            self.position + steps
        };
        self.phase = total % PHASE_PER_WORD;
    }

    /// The word being shown: the reading position modulo the number of words.
    pub fn current_word(&self) -> (r: &Vec<char>)
        requires
            self.wf(),
        ensures
            r@ == self.words@[self.shown_index()]@,
    {
        let i = (self.position % self.words.len() as u64) as usize;
        &self.words[i]
    }
}

} // verus!
