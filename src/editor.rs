//! The editing session: buffer, cursor, mode and the state around them, and
//! the state machine that turns keys into edits and motion.
use vstd::math::min;
use vstd::prelude::*;

use crate::cursor_actions::{after_pattern, before_pattern, capped, moved, CursorAction};
use crate::pattern::{compiles, CRegex};
use crate::position::{CursorDirection, Position};
use crate::syntax::{is_space, is_whitespace, lemma_leading_space, leading_space};
use crate::text::{chars_of, copy_span, line_at, line_span, offset_of, string_of};
use crate::text_actions::{inserted, offset_at, removed, removed_at, TextAction};

verus! {

/// How many keys the session remembers.
pub const KEY_HISTORY_LIMIT: usize = 64;

/// The pattern of word motion: one run of spaces, punctuation, digits,
/// letters or symbols.
pub const WORD_PATTERN: &'static str = r"(\p{Z}+|\p{P}+|\p{N}+|\p{L}+|\p{S}+)";

/// How keys are read.
#[derive(Clone, Copy, Debug, Default, PartialEq, Eq, Structural)]
pub enum EditorMode {
    #[default]
    Normal,
    Visual,
    Insert,
    Command,
}

/// A key press, as the session reads it.
#[derive(Clone, Copy, Debug, PartialEq, Eq, Structural)]
pub enum Key {
    Char(char),
    Enter,
    Esc,
    Backspace,
    Other,
}

/// Work a key asks of the world outside the session.
#[derive(Clone, Copy, Debug, PartialEq, Eq, Structural)]
pub enum Effect {
    Nothing,
    /// Write the buffer's text to its file.
    Save,
}

/// A rectangle of the screen.
#[derive(Clone, Copy, Debug, Default, PartialEq, Eq, Structural)]
pub struct Area {
    pub x: u16,
    pub y: u16,
    pub width: u16,
    pub height: u16,
}

/// The drawing state of the session; it holds nothing.
#[derive(Clone, Copy, Debug, Default, PartialEq, Eq, Structural)]
pub struct State;

/// A message shown to the user.
#[derive(Debug)]
pub enum LogMessage {
    Error(String),
    Warn(String),
    Info(String),
}

impl Default for LogMessage {
    fn default() -> (r: LogMessage)
        ensures
            r matches LogMessage::Info(m) && m@.len() == 0,
    {
        LogMessage::Info(String::new())
    }
}

/// The state of an editing session.
#[derive(Debug)]
pub struct Editor {
    pub cursor: Position,
    pub mode: EditorMode,
    pub file_text: Vec<char>,
    pub file_path: String,
    pub keyhistory: Vec<Key>,
    pub exit: bool,
    pub command: Vec<char>,
    pub frame_area: Area,
    pub scroll: Position,
    pub theme_path: String,
    pub message_queue: LogMessage,
    /// The compiled word-motion pattern, when it compiles.
    pub word: Option<CRegex>,
}

/// The path of the theme file named `name`.
pub open spec fn theme_file(name: Seq<char>) -> Seq<char> {
    seq!['t', 'h', 'e', 'm', 'e', '/'] + name + seq!['.', 't', 'o', 'm', 'l']
}

/// The number of whitespace characters that `s` ends with.
pub open spec fn trailing_space(s: Seq<char>) -> nat
    decreases s.len(),
{
    if s.len() == 0 {
        0
    } else if !is_space(s.last()) {
        0
    } else {
        1 + trailing_space(s.drop_last())
    }
}

/// `s` without leading and trailing whitespace.
pub open spec fn trimmed(s: Seq<char>) -> Seq<char> {
    let a = if leading_space(s) <= s.len() {
        leading_space(s)
    } else {
        s.len()
    };
    let rest = s.skip(a as int);
    let b = if trailing_space(rest) <= rest.len() {
        trailing_space(rest)
    } else {
        rest.len()
    };
    rest.take(rest.len() - b)
}

pub proof fn lemma_trailing_space(s: Seq<char>, w: nat)
    requires
        w <= s.len(),
        w < s.len() ==> !is_space(s[s.len() - 1 - w]),
        forall|i: int| s.len() - w <= i < s.len() ==> is_space(s[i]),
    ensures
        trailing_space(s) == w,
    decreases s.len(),
{
    if s.len() > 0 && is_space(s.last()) {
        assert forall|i: int| s.len() - 1 - (w - 1) <= i < s.len() - 1 implies is_space(
            s.drop_last()[i],
        ) by {
            assert(s.drop_last()[i] == s[i]);
        }
        if w > 0 && w - 1 < s.len() - 1 {
            assert(s.drop_last()[s.len() - 1 - 1 - (w - 1)] == s[s.len() - 1 - w]);
        }
        lemma_trailing_space(s.drop_last(), (w - 1) as nat);
    }
}

/// The key history after `key`: the last keys, at most the limit, ending in `key`.
pub open spec fn recorded(h: Seq<Key>, key: Key) -> Seq<Key> {
    if h.len() < KEY_HISTORY_LIMIT {
        h.push(key)
    } else {
        h.skip(h.len() - (KEY_HISTORY_LIMIT - 1)).push(key)
    }
}

/// `t` with a line feed at the end of line `y`: a new line below it.
pub open spec fn opened_below(t: Seq<char>, y: nat) -> Seq<char> {
    let o = offset_of(t, y, line_at(t, y as int).len());
    t.insert(
        if o <= t.len() {
            o
        } else {
            t.len()
        } as int,
        '\n',
    )
}

/// `t` with a new line above line `y`.
pub open spec fn opened_above(t: Seq<char>, y: nat) -> Seq<char> {
    if y == 0 {
        t.insert(0, '\n')
    } else {
        opened_below(t, (y - 1) as nat)
    }
}

/// `t` without the character before cursor `c`: the one left of it on its
/// line, or the line break before its line.
pub open spec fn backspaced(t: Seq<char>, c: Position) -> Seq<char> {
    if c.x > 0 {
        removed(t, Position { x: (c.x - 1) as u16, y: c.y })
    } else if c.y > 0 && offset_of(t, c.y as nat, 0) > 0 {
        removed_at(t, (offset_of(t, c.y as nat, 0) - 1) as nat)
    } else {
        t
    }
}

/// The fields no key changes are those of `o`.
pub open spec fn same_frame(o: &Editor, n: &Editor) -> bool {
    &&& n.file_path == o.file_path
    &&& n.scroll == o.scroll
    &&& n.frame_area == o.frame_area
    &&& n.word == o.word
}

/// What character key `c` does in Normal mode.
pub open spec fn normal_step(o: &Editor, n: &Editor, c: char) -> bool {
    let t = o.file_text@;
    let cur = o.cursor;
    &&& n.exit == (o.exit || c == 'q')
    &&& n.mode == (if c == 'i' || c == 'o' || c == 'O' || c == 'A' {
        EditorMode::Insert
    } else if c == 'v' {
        EditorMode::Visual
    } else if c == ':' {
        EditorMode::Command
    } else {
        o.mode
    })
    &&& n.file_text@ == (if c == 'd' {
        removed(t, cur)
    } else if c == 'o' {
        opened_below(t, cur.y as nat)
    } else if c == 'O' {
        opened_above(t, cur.y as nat)
    } else {
        t
    })
    &&& n.cursor == (if c == 'k' {
        moved(t, cur, CursorDirection::Up)
    } else if c == 'j' {
        moved(t, cur, CursorDirection::Down)
    } else if c == 'h' {
        moved(t, cur, CursorDirection::Left)
    } else if c == 'l' {
        moved(t, cur, CursorDirection::Right)
    } else if c == 'o' {
        moved(n.file_text@, cur, CursorDirection::Down)
    } else if c == 'A' {
        Position { x: capped(line_at(t, cur.y as int).len()), y: cur.y }
    } else if c == '0' {
        Position { x: 0, y: cur.y }
    } else if c == 'e' {
        match o.word {
            Some(p) => after_pattern(t, cur, p@),
            None => cur,
        }
    } else if c == 'b' {
        match o.word {
            Some(p) => before_pattern(t, cur, p@),
            None => cur,
        }
    } else if c == 'g' && o.keyhistory@.len() > 0 && o.keyhistory@.last() == Key::Char('g') {
        Position { x: 0, y: 0 }
    } else {
        cur
    })
    &&& n.command == o.command
    &&& n.theme_path == o.theme_path
    &&& n.message_queue == o.message_queue
}

/// What `key` does in Insert mode.
pub open spec fn insert_step(o: &Editor, n: &Editor, key: Key) -> bool {
    let t = o.file_text@;
    let cur = o.cursor;
    &&& n.exit == o.exit
    &&& n.command == o.command
    &&& n.theme_path == o.theme_path
    &&& n.message_queue == o.message_queue
    &&& n.mode == (if key == Key::Esc {
        EditorMode::Normal
    } else {
        o.mode
    })
    &&& n.file_text@ == match key {
        Key::Char(c) => inserted(t, cur, c),
        Key::Enter => inserted(t, cur, '\n'),
        Key::Backspace => backspaced(t, cur),
        _ => t,
    }
    &&& n.cursor == match key {
        Key::Char(c) => moved(n.file_text@, cur, CursorDirection::Right),
        Key::Enter => if cur.y < u16::MAX {
            Position { x: 0, y: (cur.y + 1) as u16 }
        } else {
            cur
        },
        Key::Backspace => moved(t, cur, CursorDirection::Left),
        _ => cur,
    }
}

/// What running the typed command does, with `r` the work it asks for:
/// `q` quits, `w` saves, `x` saves and quits, `theme <name>` picks a theme;
/// any other command is ignored. Either way the command is cleared and the
/// mode is Normal again.
pub open spec fn command_run(o: &Editor, n: &Editor, r: Effect) -> bool {
    let t = trimmed(o.command@);
    &&& n.file_text == o.file_text
    &&& n.cursor == o.cursor
    &&& n.mode == EditorMode::Normal
    &&& n.command@.len() == 0
    &&& n.exit == (o.exit || t == seq!['q'] || t == seq!['x'])
    &&& r == (if t == seq!['w'] || t == seq!['x'] {
        Effect::Save
    } else {
        Effect::Nothing
    })
    &&& if t == seq!['e'] {
        n.message_queue matches LogMessage::Error(m) && m@ == seq!['a', 'a', 'a', 'a']
    } else {
        n.message_queue == o.message_queue
    }
    &&& if t.len() >= 6 && t.take(6) == seq!['t', 'h', 'e', 'm', 'e', ' '] {
        n.theme_path@ == theme_file(t.skip(6))
    } else {
        n.theme_path == o.theme_path
    }
}

/// What `key` does in Command mode.
pub open spec fn command_step(o: &Editor, n: &Editor, key: Key, r: Effect) -> bool {
    match key {
        Key::Enter => command_run(o, n, r),
        _ => {
            &&& r == Effect::Nothing
            &&& n.file_text == o.file_text
            &&& n.cursor == o.cursor
            &&& n.exit == o.exit
            &&& n.theme_path == o.theme_path
            &&& n.message_queue == o.message_queue
            &&& n.mode == (if key == Key::Esc {
                EditorMode::Normal
            } else {
                o.mode
            })
            &&& n.command@ == match key {
                Key::Char(c) => o.command@.push(c),
                Key::Backspace => if o.command@.len() > 0 {
                    o.command@.drop_last()
                } else {
                    o.command@
                },
                Key::Esc => Seq::empty(),
                _ => o.command@,
            }
        },
    }
}

/// Nothing but the mode changes, to `m`.
pub open spec fn only_mode(o: &Editor, n: &Editor, m: EditorMode) -> bool {
    &&& n.file_text == o.file_text
    &&& n.cursor == o.cursor
    &&& n.exit == o.exit
    &&& n.command == o.command
    &&& n.theme_path == o.theme_path
    &&& n.message_queue == o.message_queue
    &&& n.mode == m
}

fn push_all(v: &mut Vec<char>, s: &[char])
    ensures
        final(v)@ == old(v)@ + s@,
{
    let mut i: usize = 0;
    while i < s.len()
        invariant
            i <= s@.len(),
            v@ == old(v)@ + s@.take(i as int),
        decreases s@.len() - i,
    {
        v.push(s[i]);
        i = i + 1;
        assert(v@ =~= old(v)@ + s@.take(i as int));
    }
    assert(s@.take(s@.len() as int) =~= s@);
}

/// `s` without leading and trailing whitespace.
pub fn trim(s: &Vec<char>) -> (r: Vec<char>)
    ensures
        r@ == trimmed(s@),
{
    let len = s.len();
    let mut a: usize = 0;
    while a < len && is_whitespace(s[a])
        invariant
            a <= len,
            len == s@.len(),
            forall|i: int| 0 <= i < a ==> is_space(s@[i]),
        decreases len - a,
    {
        a = a + 1;
    }
    proof {
        lemma_leading_space(s@, a as nat);
    }
    let ghost rest = s@.skip(a as int);
    let mut b: usize = len;
    while b > a && is_whitespace(s[b - 1])
        invariant
            a <= b <= len,
            len == s@.len(),
            forall|i: int| b <= i < len ==> is_space(s@[i]),
        decreases b,
    {
        b = b - 1;
    }
    proof {
        assert forall|i: int| rest.len() - (len - b) <= i < rest.len() implies is_space(rest[i]) by {
            assert(rest[i] == s@[a + i]);
        }
        if b > a {
            assert(rest[rest.len() - 1 - (len - b)] == s@[b - 1]);
        }
        lemma_trailing_space(rest, (len - b) as nat);
    }
    let mut r: Vec<char> = Vec::new();
    let mut i: usize = a;
    while i < b
        invariant
            a <= i <= b,
            b <= len,
            len == s@.len(),
            r@ == s@.subrange(a as int, i as int),
        decreases b - i,
    {
        r.push(s[i]);
        i = i + 1;
        assert(r@ =~= s@.subrange(a as int, i as int));
    }
    assert(r@ =~= trimmed(s@));
    r
}

/// The scroll offset that keeps line `cursor_y` in a view `height` lines
/// high: the number of lines above the view, at most `u16::MAX`.
pub fn scroll_offset(cursor_y: u16, height: u16) -> (r: u16)
    ensures
        r as int == (if cursor_y + 1 > height {
            min(cursor_y + 1 - height, u16::MAX as int)
        } else {
            0
        }),
{
    let below = cursor_y as u32 + 1;
    if below > height as u32 {
        let d = below - height as u32;
        if d > u16::MAX as u32 {
            u16::MAX
        } else {
            d as u16
        }
    } else {
        0
    }
}

/// The name of the theme used when none is given.
pub open spec fn default_theme_name() -> Seq<char> {
    seq!['d', 'e', 'f', 'a', 'u', 'l', 't']
}

impl Editor {
    /// A session on the file at `path`, whose text is `content`; `None` for
    /// `content` when the file could not be read, which gives an empty
    /// buffer. Without a path the buffer is a scratch buffer.
    pub fn new(path: Option<String>, content: Option<String>) -> (r: Editor)
        ensures
            r.cursor == (Position { x: 0, y: 0 }),
            r.mode == EditorMode::Normal,
            !r.exit,
            r.command@.len() == 0,
            r.keyhistory@.len() == 0,
            r.word is Some <==> compiles(WORD_PATTERN@),
            r.word matches Some(p) ==> p@ == WORD_PATTERN@,
            path is None ==> r.file_path@ == "[scratch]"@ && r.file_text@.len() == 0,
            path matches Some(p) ==> r.file_path == p,
            path is Some ==> r.file_text@ == match content {
                Some(c) => c@,
                None => Seq::empty(),
            },
    {
        let word = match CRegex::new(WORD_PATTERN) {
            Ok(p) => Some(p),
            Err(_) => None,
        };
        let mut e = Editor {
            cursor: Position { x: 0, y: 0 },
            mode: EditorMode::Normal,
            file_text: Vec::new(),
            file_path: String::new(),
            keyhistory: Vec::new(),
            exit: false,
            command: Vec::new(),
            frame_area: Area { x: 0, y: 0, width: 0, height: 0 },
            scroll: Position { x: 0, y: 0 },
            theme_path: String::new(),
            message_queue: LogMessage::Info(String::new()),
            word,
        };
        e.open_new_file(path, content);
        e
    }

    /// Opens the file at `path` with text `content` (`None` when it could not
    /// be read: the buffer is then empty), or a scratch buffer without a path.
    pub fn open_new_file(&mut self, path: Option<String>, content: Option<String>)
        ensures
            path is None ==> final(self).file_path@ == "[scratch]"@
                && final(self).file_text@.len() == 0,
            path matches Some(p) ==> final(self).file_path == p,
            path is Some ==> final(self).file_text@ == match content {
                Some(c) => c@,
                None => Seq::empty(),
            },
            final(self).cursor == old(self).cursor,
            final(self).mode == old(self).mode,
            final(self).exit == old(self).exit,
            final(self).command == old(self).command,
            final(self).keyhistory == old(self).keyhistory,
            final(self).word == old(self).word,
    {
        match path {
            None => {
                self.file_text = Vec::new();
                self.file_path = "[scratch]".to_owned();
            },
            Some(p) => {
                self.file_path = p;
                self.file_text = match content {
                    Some(c) => chars_of(c.as_str()),
                    None => Vec::new(),
                };
            },
        }
    }

    /// The buffer's text.
    pub fn text(&self) -> (r: String)
        ensures
            r@ == self.file_text@,
    {
        string_of(self.file_text.as_slice())
    }

    /// Records a new size of the screen.
    pub fn handle_resize(&mut self, x: u16, y: u16)
        ensures
            final(self).frame_area == (Area { x: 0, y: 0, width: x, height: y }),
            final(self).file_text == old(self).file_text,
            final(self).cursor == old(self).cursor,
    {
        self.frame_area = Area { x: 0, y: 0, width: x, height: y };
    }

    /// Asks the session to end.
    pub fn exit(&mut self)
        ensures
            final(self).exit,
            final(self).file_text == old(self).file_text,
            final(self).cursor == old(self).cursor,
            final(self).mode == old(self).mode,
            final(self).command == old(self).command,
            final(self).keyhistory == old(self).keyhistory,
            final(self).theme_path == old(self).theme_path,
            final(self).message_queue == old(self).message_queue,
            same_frame(old(self), final(self)),
    {
        self.exit = true;
    }

    /// Shows `msg`, in place of the message before.
    pub fn log(&mut self, msg: LogMessage)
        ensures
            final(self).message_queue == msg,
            final(self).file_text == old(self).file_text,
            final(self).cursor == old(self).cursor,
            final(self).mode == old(self).mode,
            final(self).exit == old(self).exit,
            final(self).command == old(self).command,
            final(self).keyhistory == old(self).keyhistory,
            final(self).theme_path == old(self).theme_path,
            same_frame(old(self), final(self)),
    {
        self.message_queue = msg;
    }

    /// Leaves Command mode, dropping the typed command.
    pub fn end_command(&mut self)
        ensures
            final(self).mode == EditorMode::Normal,
            final(self).command@.len() == 0,
            final(self).file_text == old(self).file_text,
            final(self).cursor == old(self).cursor,
            final(self).exit == old(self).exit,
            final(self).keyhistory == old(self).keyhistory,
            final(self).theme_path == old(self).theme_path,
            final(self).message_queue == old(self).message_queue,
            same_frame(old(self), final(self)),
    {
        self.mode = EditorMode::Normal;
        self.command = Vec::new();
    }

    fn set_theme_name(&mut self, name: &[char])
        ensures
            final(self).theme_path@ == theme_file(name@),
            final(self).file_text == old(self).file_text,
            final(self).cursor == old(self).cursor,
            final(self).mode == old(self).mode,
            final(self).exit == old(self).exit,
            final(self).command == old(self).command,
            final(self).keyhistory == old(self).keyhistory,
            final(self).message_queue == old(self).message_queue,
            same_frame(old(self), final(self)),
    {
        let mut p: Vec<char> = Vec::new();
        p.push('t');
        p.push('h');
        p.push('e');
        p.push('m');
        p.push('e');
        p.push('/');
        push_all(&mut p, name);
        p.push('.');
        p.push('t');
        p.push('o');
        p.push('m');
        p.push('l');
        assert(p@ =~= theme_file(name@));
        self.theme_path = string_of(p.as_slice());
    }

    /// Picks the theme file of theme `name`, or of the default theme.
    pub fn set_theme(&mut self, name: Option<&str>)
        ensures
            final(self).theme_path@ == theme_file(
                match name {
                    Some(s) => s@,
                    None => default_theme_name(),
                },
            ),
            final(self).file_text == old(self).file_text,
            final(self).cursor == old(self).cursor,
            final(self).mode == old(self).mode,
            final(self).exit == old(self).exit,
            final(self).command == old(self).command,
            final(self).keyhistory == old(self).keyhistory,
            final(self).message_queue == old(self).message_queue,
            same_frame(old(self), final(self)),
    {
        match name {
            Some(s) => {
                let v = chars_of(s);
                self.set_theme_name(v.as_slice());
            },
            None => {
                let mut v: Vec<char> = Vec::new();
                v.push('d');
                v.push('e');
                v.push('f');
                v.push('a');
                v.push('u');
                v.push('l');
                v.push('t');
                assert(v@ =~= default_theme_name());
                self.set_theme_name(v.as_slice());
            },
        }
    }

    /// Runs the typed command and returns to Normal mode.
    pub fn execute_command(&mut self) -> (r: Effect)
        ensures
            command_run(old(self), final(self), r),
            final(self).keyhistory == old(self).keyhistory,
            same_frame(old(self), final(self)),
    {
        let t = trim(&self.command);
        proof {
            if t@.len() == 1 {
                assert(t@ == seq!['q'] <==> t@[0] == 'q') by {
                    if t@[0] == 'q' {
                        assert(t@ =~= seq!['q']);
                    }
                }
                assert(t@ == seq!['w'] <==> t@[0] == 'w') by {
                    if t@[0] == 'w' {
                        assert(t@ =~= seq!['w']);
                    }
                }
                assert(t@ == seq!['x'] <==> t@[0] == 'x') by {
                    if t@[0] == 'x' {
                        assert(t@ =~= seq!['x']);
                    }
                }
                assert(t@ == seq!['e'] <==> t@[0] == 'e') by {
                    if t@[0] == 'e' {
                        assert(t@ =~= seq!['e']);
                    }
                }
            }
            if t@.len() >= 6 {
                let p = seq!['t', 'h', 'e', 'm', 'e', ' '];
                assert(t@.take(6) == p <==> (t@[0] == 't' && t@[1] == 'h' && t@[2] == 'e'
                    && t@[3] == 'm' && t@[4] == 'e' && t@[5] == ' ')) by {
                    if t@[0] == 't' && t@[1] == 'h' && t@[2] == 'e' && t@[3] == 'm' && t@[4] == 'e'
                        && t@[5] == ' ' {
                        assert(t@.take(6) =~= p);
                    } else if t@.take(6) == p {
                        assert(t@.take(6)[0] == t@[0]);
                        assert(t@.take(6)[1] == t@[1]);
                        assert(t@.take(6)[2] == t@[2]);
                        assert(t@.take(6)[3] == t@[3]);
                        assert(t@.take(6)[4] == t@[4]);
                        assert(t@.take(6)[5] == t@[5]);
                    }
                }
            }
        }
        let mut r = Effect::Nothing;
        let one = t.len() == 1;
        if one && t[0] == 'q' {
            self.exit();
        } else if one && t[0] == 'w' {
            r = Effect::Save;
        } else if one && t[0] == 'x' {
            r = Effect::Save;
            self.exit();
        } else if one && t[0] == 'e' {
            let mut m: Vec<char> = Vec::new();
            m.push('a');
            m.push('a');
            m.push('a');
            m.push('a');
            assert(m@ =~= seq!['a', 'a', 'a', 'a']);
            self.log(LogMessage::Error(string_of(m.as_slice())));
        } else if t.len() >= 6 && t[0] == 't' && t[1] == 'h' && t[2] == 'e' && t[3] == 'm' && t[4]
            == 'e' && t[5] == ' ' {
            let name = copy_span(&t, 6, t.len());
            assert(name@ =~= t@.skip(6));
            self.set_theme_name(name.as_slice());
        }
        self.end_command();
        r
    }

    /// Removes the character at offset `o`, or the last one when `o` is at
    /// or past the end.
    fn remove_offset(&mut self, o: usize)
        ensures
            final(self).file_text@ == removed_at(old(self).file_text@, o as nat),
            crate::text_actions::same_except_text(final(self), old(self)),
    {
        if o >= self.file_text.len() {
            self.file_text.pop();
        } else {
            self.file_text.remove(o);
        }
    }

    /// Inserts a line feed at the end of line `y`.
    fn open_below(&mut self, y: u16)
        requires
            old(self).file_text@.len() + 2 < usize::MAX,
        ensures
            final(self).file_text@ == opened_below(old(self).file_text@, y as nat),
            crate::text_actions::same_except_text(final(self), old(self)),
    {
        let (s, e, _) = line_span(&self.file_text, y as usize);
        let o = offset_at(&self.file_text, y, e - s);
        let len = self.file_text.len();
        let at = if o <= len {
            o
        } else {
            len
        };
        self.file_text.insert(at, '\n');
    }

    fn normal_key(&mut self, c: char)
        requires
            old(self).file_text@.len() + 2 < usize::MAX,
            old(self).mode == EditorMode::Normal,
        ensures
            normal_step(old(self), final(self), c),
            final(self).keyhistory == old(self).keyhistory,
            same_frame(old(self), final(self)),
    {
        if c == 'q' {
            self.exit();
        } else if c == 'i' {
            self.mode = EditorMode::Insert;
        } else if c == 'v' {
            self.mode = EditorMode::Visual;
        } else if c == ':' {
            self.mode = EditorMode::Command;
        } else if c == 'k' {
            self.move_cursor(CursorDirection::Up);
        } else if c == 'j' {
            self.move_cursor(CursorDirection::Down);
        } else if c == 'h' {
            self.move_cursor(CursorDirection::Left);
        } else if c == 'l' {
            self.move_cursor(CursorDirection::Right);
        } else if c == 'd' {
            let p = self.cursor;
            self.remove_char(p);
        } else if c == 'o' {
            let y = self.cursor.y;
            self.open_below(y);
            self.move_cursor(CursorDirection::Down);
            self.mode = EditorMode::Insert;
        } else if c == 'O' {
            let y = self.cursor.y;
            if y == 0 {
                self.file_text.insert(0, '\n');
            } else {
                self.open_below(y - 1);
            }
            self.mode = EditorMode::Insert;
        } else if c == 'A' {
            let (s, e, _) = line_span(&self.file_text, self.cursor.y as usize);
            let n = e - s;
            self.cursor.x = if n > u16::MAX as usize {
                u16::MAX
            } else {
                n as u16
            };
            self.mode = EditorMode::Insert;
        } else if c == '0' {
            self.cursor.x = 0;
        } else if c == 'e' || c == 'b' {
            let w = self.word.take();
            match &w {
                Some(p) => {
                    if c == 'e' {
                        self.move_to_end_of_pat(p);
                    } else {
                        self.move_to_start_of_pat(p);
                    }
                },
                None => {},
            }
            self.word = w;
        } else if c == 'g' {
            let n = self.keyhistory.len();
            if n > 0 && self.keyhistory[n - 1] == Key::Char('g') {
                self.cursor = Position { x: 0, y: 0 };
            }
        }
    }

    fn insert_key(&mut self, key: Key)
        requires
            old(self).file_text@.len() + 2 < usize::MAX,
        ensures
            insert_step(old(self), final(self), key),
            final(self).keyhistory == old(self).keyhistory,
            same_frame(old(self), final(self)),
    {
        match key {
            Key::Char(c) => {
                let p = self.cursor;
                self.insert_char(p, c);
                self.move_cursor(CursorDirection::Right);
            },
            Key::Enter => {
                let p = self.cursor;
                self.insert_char(p, '\n');
                if p.y < u16::MAX {
                    self.cursor = Position { x: 0, y: p.y + 1 };
                }
            },
            Key::Backspace => {
                let p = self.cursor;
                if p.x > 0 {
                    self.remove_char(Position { x: p.x - 1, y: p.y });
                    self.move_cursor(CursorDirection::Left);
                } else if p.y > 0 {
                    let o = offset_at(&self.file_text, p.y, 0);
                    self.move_cursor(CursorDirection::Left);
                    if o > 0 {
                        self.remove_offset(o - 1);
                    }
                }
            },
            Key::Esc => {
                self.mode = EditorMode::Normal;
            },
            Key::Other => {},
        }
    }

    fn command_key(&mut self, key: Key) -> (r: Effect)
        ensures
            command_step(old(self), final(self), key, r),
            final(self).keyhistory == old(self).keyhistory,
            same_frame(old(self), final(self)),
    {
        match key {
            Key::Enter => {
                let r = self.execute_command();
                assert(command_run(old(self), self, r));
                r
            },
            Key::Esc => {
                self.end_command();
                assert(self.command@ =~= Seq::<char>::empty());
                Effect::Nothing
            },
            Key::Char(c) => {
                self.command.push(c);
                Effect::Nothing
            },
            Key::Backspace => {
                if self.command.len() > 0 {
                    self.command.pop();
                }
                Effect::Nothing
            },
            Key::Other => Effect::Nothing,
        }
    }

    /// Adds `key` to the history, dropping the oldest keys past the limit.
    fn record_key(&mut self, key: Key)
        ensures
            final(self).keyhistory@ == recorded(old(self).keyhistory@, key),
            final(self).file_text == old(self).file_text,
            final(self).cursor == old(self).cursor,
            final(self).mode == old(self).mode,
            final(self).exit == old(self).exit,
            final(self).command == old(self).command,
            final(self).theme_path == old(self).theme_path,
            final(self).message_queue == old(self).message_queue,
            same_frame(old(self), final(self)),
    {
        let n = self.keyhistory.len();
        if n >= KEY_HISTORY_LIMIT {
            let from = n - (KEY_HISTORY_LIMIT - 1);
            let mut kept: Vec<Key> = Vec::new();
            let mut i: usize = from;
            while i < n
                invariant
                    from <= i <= n,
                    n == self.keyhistory@.len(),
                    kept@ == self.keyhistory@.subrange(from as int, i as int),
                decreases n - i,
            {
                kept.push(self.keyhistory[i]);
                i = i + 1;
                assert(kept@ =~= self.keyhistory@.subrange(from as int, i as int));
            }
            assert(kept@ =~= self.keyhistory@.skip(from as int));
            self.keyhistory = kept;
        }
        self.keyhistory.push(key);
    }

    /// Applies one key press in the current mode, then records it; returns
    /// the work the key asks of the outside world.
    pub fn handle_key_event(&mut self, key: Key) -> (r: Effect)
        requires
            old(self).file_text@.len() + 2 < usize::MAX,
        ensures
            same_frame(old(self), final(self)),
            final(self).keyhistory@ == recorded(old(self).keyhistory@, key),
            old(self).mode == EditorMode::Normal ==> r == Effect::Nothing && match key {
                Key::Char(c) => normal_step(old(self), final(self), c),
                _ => only_mode(old(self), final(self), EditorMode::Normal),
            },
            old(self).mode == EditorMode::Insert ==> r == Effect::Nothing && insert_step(
                old(self),
                final(self),
                key,
            ),
            old(self).mode == EditorMode::Visual ==> r == Effect::Nothing && only_mode(
                old(self),
                final(self),
                if key == Key::Char('v') || key == Key::Esc {
                    EditorMode::Normal
                } else {
                    EditorMode::Visual
                },
            ),
            old(self).mode == EditorMode::Command ==> command_step(old(self), final(self), key, r),
    {
        let r = match self.mode {
            EditorMode::Normal => {
                match key {
                    Key::Char(c) => self.normal_key(c),
                    _ => {},
                }
                Effect::Nothing
            },
            EditorMode::Visual => {
                if key == Key::Char('v') || key == Key::Esc {
                    self.mode = EditorMode::Normal;
                }
                Effect::Nothing
            },
            EditorMode::Insert => {
                self.insert_key(key);
                Effect::Nothing
            },
            EditorMode::Command => self.command_key(key),
        };
        self.record_key(key);
        r
    }
}

} // verus!
