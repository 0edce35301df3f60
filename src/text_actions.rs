//! Editing the buffer at a position.
use vstd::prelude::*;
use vstd::utf8::{encode_scalar, encode_utf8};

use crate::editor::Editor;
use crate::position::Position;
use crate::text::{
    lemma_line_end_bound, lemma_line_end_char, lemma_lines_step, line_at, line_end, lines_of,
    offset_of,
};

verus! {

/// Where a character typed at `p` goes: the offset `p` addresses, kept
/// within the text.
pub open spec fn insert_offset(t: Seq<char>, p: Position) -> nat {
    let o = offset_of(t, p.y as nat, p.x as nat);
    if o <= t.len() {
        o
    } else {
        t.len()
    }
}

/// `t` with `c` inserted at the offset `p` addresses.
pub open spec fn inserted(t: Seq<char>, p: Position, c: char) -> Seq<char> {
    t.insert(insert_offset(t, p) as int, c)
}

/// `t` without the character at offset `o`; when `o` is at or past the end,
/// without its last character instead.
pub open spec fn removed_at(t: Seq<char>, o: nat) -> Seq<char> {
    if o < t.len() {
        t.remove(o as int)
    } else if t.len() > 0 {
        t.drop_last()
    } else {
        t
    }
}

/// `t` without the character at the offset `p` addresses.
pub open spec fn removed(t: Seq<char>, p: Position) -> Seq<char> {
    removed_at(t, offset_of(t, p.y as nat, p.x as nat))
}

/// The offset that line `y`, column `x` addresses in `t`.
pub fn offset_at(t: &Vec<char>, y: u16, x: usize) -> (r: usize)
    requires
        t@.len() + 1 < usize::MAX,
    ensures
        r == offset_of(t@, y as nat, x as nat),
{
    let len = t.len();
    let mut start: usize = 0;
    let mut line: u16 = 0;
    assert(t@.skip(0) =~= t@);
    loop
        invariant
            start <= len,
            len == t@.len(),
            len + 1 < usize::MAX,
            line <= y,
            offset_of(t@, y as nat, x as nat) == start + offset_of(
                t@.skip(start as int),
                (y - line) as nat,
                x as nat,
            ),
        decreases len - start,
    {
        if start == len {
            assert(t@.skip(start as int).len() == 0);
            return start;
        }
        let mut e: usize = start;
        while e < len && t[e] != '\n'
            invariant
                start <= e <= len,
                len == t@.len(),
                forall|i: int| start <= i < e ==> t@[i] != '\n',
            decreases len - e,
        {
            e = e + 1;
        }
        let ghost rest = t@.skip(start as int);
        proof {
            assert forall|i: int| 0 <= i < e - start implies rest[i] != '\n' by {
                assert(rest[i] == t@[start + i]);
            }
            if e < len {
                assert(rest[e - start] == t@[e as int]);
            }
            lemma_line_end_char(rest, (e - start) as nat);
            assert(rest.len() > 0);
        }
        if line == y {
            if x <= e - start {
                return start + x;
            } else {
                return e;
            }
        }
        if e == len {
            return e + 1;
        }
        proof {
            assert(rest.skip(e - start + 1) =~= t@.skip(e + 1));
        }
        start = e + 1;
        line = line + 1;
    }
}


/// `line_end` is at least `m` when the first `m` characters hold no line feed.
proof fn lemma_line_end_at_least(s: Seq<char>, m: nat)
    requires
        m <= s.len(),
        forall|i: int| 0 <= i < m ==> s[i] != '\n',
    ensures
        line_end(s) >= m,
{
    lemma_line_end_bound(s);
}

/// Where position (`x`, `y`) points after a character went in where it
/// pointed: at that character when it went inside the text, and at or past
/// the old end when it went at the end.
proof fn lemma_offset_after_insert(t: Seq<char>, y: nat, x: nat, c: char)
    requires
        y >= lines_of(t).len() || x <= line_at(t, y as int).len(),
    ensures
        ({
            let o = offset_of(t, y, x);
            let k = if o <= t.len() {
                o
            } else {
                t.len()
            };
            let q = offset_of(t.insert(k as int, c), y, x);
            &&& k < t.len() ==> q == k
            &&& k == t.len() ==> q >= t.len()
        }),
    decreases t.len(),
{
    let o = offset_of(t, y, x);
    if t.len() == 0 {
        return;
    }
    lemma_line_end_bound(t);
    let n = line_end(t);
    if y == 0 {
        if n >= t.len() {
            assert(lines_of(t) == seq![t]);
        } else {
            lemma_lines_step(t);
        }
        assert(x <= n);
        let t2 = t.insert(x as int, c);
        assert forall|i: int| 0 <= i < x implies t2[i] != '\n' by {
            assert(t2[i] == t[i]);
        }
        lemma_line_end_at_least(t2, x);
    } else if n >= t.len() {
        let t2 = t.insert(t.len() as int, c);
        assert forall|i: int| 0 <= i < n implies t2[i] != '\n' by {
            assert(t2[i] == t[i]);
        }
        if c == '\n' {
            lemma_line_end_char(t2, n);
        } else {
            lemma_line_end_char(t2, n + 1);
        }
    } else {
        lemma_lines_step(t);
        let rest = t.skip(n + 1int);
        assert(line_at(t, y as int) == line_at(rest, y - 1));
        lemma_offset_after_insert(rest, (y - 1) as nat, x, c);
        let o1 = offset_of(rest, (y - 1) as nat, x);
        let k1 = if o1 <= rest.len() {
            o1
        } else {
            rest.len()
        };
        let k = n + 1 + k1;
        let t2 = t.insert(k as int, c);
        assert forall|i: int| 0 <= i < n implies t2[i] != '\n' by {
            assert(t2[i] == t[i]);
        }
        assert(t2[n as int] == t[n as int]);
        lemma_line_end_char(t2, n);
        assert(t2.skip(n + 1int) =~= rest.insert(k1 as int, c));
    }
}

/// Inserting a character at a position and then removing the character at
/// that same position gives back the text, wherever the position lies
/// within its line or below the last line.
pub proof fn lemma_insert_then_remove(t: Seq<char>, p: Position, c: char)
    requires
        p.y >= lines_of(t).len() || p.x <= line_at(t, p.y as int).len(),
    ensures
        removed(inserted(t, p, c), p) == t,
{
    lemma_offset_after_insert(t, p.y as nat, p.x as nat, c);
    let k = insert_offset(t, p);
    let t2 = inserted(t, p, c);
    assert(t2.remove(k as int) =~= t);
    if k == t.len() {
        assert(t2.drop_last() =~= t);
    }
}

/// The number of bytes of the UTF-8 encoding of `c`.
pub fn utf8_width(c: char) -> (r: usize)
    ensures
        r == encode_scalar(c as u32).len(),
{
    proof {
        vstd::utf8::char_is_scalar(c);
    }
    let u = c as u32;
    if u <= 0x7f {
        1
    } else if u <= 0x7ff {
        2
    } else if u <= 0xffff {
        3
    } else {
        4
    }
}

proof fn lemma_encode_push(s: Seq<char>, c: char)
    ensures
        encode_utf8(s.push(c)).len() == encode_utf8(s).len() + encode_scalar(c as u32).len(),
        encode_utf8(s).len() <= 4 * s.len(),
    decreases s.len(),
{
    let sc = s.push(c);
    if s.len() > 0 {
        assert(sc.drop_first() =~= s.drop_first().push(c));
        assert(sc[0] == s[0]);
        lemma_encode_push(s.drop_first(), c);
        assert(encode_utf8(sc) == encode_scalar(s[0] as u32) + encode_utf8(sc.drop_first()));
        assert(encode_utf8(s) == encode_scalar(s[0] as u32) + encode_utf8(s.drop_first()));
        assert(encode_scalar(s[0] as u32).len() <= 4);
    } else {
        assert(sc.drop_first() =~= Seq::<char>::empty());
        assert(sc[0] == c);
        assert(encode_utf8(sc) == encode_scalar(c as u32) + encode_utf8(sc.drop_first()));
    }
}

proof fn lemma_offset_bound(t: Seq<char>, y: nat, x: nat)
    ensures
        offset_of(t, y, x) <= t.len() + 1,
    decreases t.len(),
{
    if t.len() > 0 {
        lemma_line_end_bound(t);
        let n = line_end(t);
        if y > 0 && n < t.len() {
            lemma_offset_bound(t.skip(n + 1int), (y - 1) as nat, x);
        }
    }
}

/// The byte offset in `t` of character offset `o`; an offset past the end
/// counts one byte for each character it lies past.
pub open spec fn byte_offset(t: Seq<char>, o: nat) -> nat {
    if o <= t.len() {
        encode_utf8(t.take(o as int)).len()
    } else {
        encode_utf8(t).len() + (o - t.len()) as nat
    }
}

/// The byte offset in `t` of character offset `o`.
fn bytes_before(t: &Vec<char>, o: usize) -> (r: usize)
    requires
        4 * t@.len() + 1 < usize::MAX,
        o <= t@.len() + 1,
    ensures
        r == byte_offset(t@, o as nat),
{
    let len = t.len();
    let stop = if o <= len {
        o
    } else {
        len
    };
    let mut sum: usize = 0;
    let mut i: usize = 0;
    assert(t@.take(0) =~= Seq::<char>::empty());
    while i < stop
        invariant
            i <= stop <= len,
            len == t@.len(),
            4 * len + 1 < usize::MAX,
            sum == encode_utf8(t@.take(i as int)).len(),
            sum <= 4 * i,
        decreases stop - i,
    {
        proof {
            lemma_encode_push(t@.take(i as int), t@[i as int]);
            assert(t@.take(i as int).push(t@[i as int]) =~= t@.take(i + 1));
        }
        sum = sum + utf8_width(t[i]);
        i = i + 1;
    }
    if o > len {
        assert(t@.take(len as int) =~= t@);
        sum + (o - len)
    } else {
        sum
    }
}

/// Edits of a text addressed by positions.
pub trait TextAction {
    /// The text being edited.
    spec fn text_view(&self) -> Seq<char>;

    /// Inserts `c` where `pos` points; a line feed splits the line.
    fn insert_char(&mut self, pos: Position, c: char)
        requires
            old(self).text_view().len() + 1 < usize::MAX,
        ensures
            final(self).text_view() == inserted(old(self).text_view(), pos, c),
    ;

    /// Removes the character where `pos` points, or the last character of
    /// the text when `pos` points at or past its end.
    fn remove_char(&mut self, pos: Position)
        requires
            old(self).text_view().len() + 1 < usize::MAX,
        ensures
            final(self).text_view() == removed(old(self).text_view(), pos),
            offset_of(old(self).text_view(), pos.y as nat, pos.x as nat) >= old(
                self,
            ).text_view().len() ==> final(self).text_view() == if old(self).text_view().len()
                > 0 {
                old(self).text_view().drop_last()
            } else {
                old(self).text_view()
            },
    ;

    /// The offset, in bytes of the text's UTF-8 encoding, that `pos`
    /// addresses.
    fn get_byte_offset(&self, pos: Position) -> (r: usize)
        requires
            4 * self.text_view().len() + 1 < usize::MAX,
        ensures
            r == byte_offset(
                self.text_view(),
                offset_of(self.text_view(), pos.y as nat, pos.x as nat),
            ),
    ;
}

/// Every field of `a` but the text is that of `b`.
pub open spec fn same_except_text(a: &Editor, b: &Editor) -> bool {
    &&& a.cursor == b.cursor
    &&& a.mode == b.mode
    &&& a.file_path == b.file_path
    &&& a.keyhistory == b.keyhistory
    &&& a.exit == b.exit
    &&& a.command == b.command
    &&& a.frame_area == b.frame_area
    &&& a.scroll == b.scroll
    &&& a.theme_path == b.theme_path
    &&& a.message_queue == b.message_queue
    &&& a.word == b.word
}

impl TextAction for Editor {
    open spec fn text_view(&self) -> Seq<char> {
        self.file_text@
    }

    fn insert_char(&mut self, pos: Position, c: char)
        ensures
            same_except_text(final(self), old(self)),
    {
        let o = offset_at(&self.file_text, pos.y, pos.x as usize);
        let len = self.file_text.len();
        let at = if o <= len {
            o
        } else {
            len
        };
        self.file_text.insert(at, c);
    }

    fn remove_char(&mut self, pos: Position)
        ensures
            same_except_text(final(self), old(self)),
    {
        let o = offset_at(&self.file_text, pos.y, pos.x as usize);
        if o >= self.file_text.len() {
            self.file_text.pop();
        } else {
            self.file_text.remove(o);
        }
    }

    fn get_byte_offset(&self, pos: Position) -> (r: usize) {
        let o = offset_at(&self.file_text, pos.y, pos.x as usize);
        proof {
            lemma_offset_bound(self.file_text@, pos.y as nat, pos.x as nat);
        }
        bytes_before(&self.file_text, o)
    }
}

} // verus!
