//! The text model: a buffer is a sequence of characters, read as lines
//! separated by line feeds.
use vstd::prelude::*;

verus! {

/// Index of the first line feed of `t`, or `t.len()` when there is none:
/// the length of the first line.
pub open spec fn line_end(t: Seq<char>) -> nat
    decreases t.len(),
{
    if t.len() == 0 {
        0
    } else if t[0] == '\n' {
        0
    } else {
        1 + line_end(t.drop_first())
    }
}

/// The lines of `t`. A final line feed ends the last line instead of
/// starting an empty one, so an empty text has no lines.
pub open spec fn lines_of(t: Seq<char>) -> Seq<Seq<char>>
    decreases t.len(),
{
    if t.len() == 0 {
        Seq::empty()
    } else {
        let n = line_end(t);
        if n >= t.len() {
            seq![t]
        } else {
            seq![t.take(n as int)] + lines_of(t.skip(n + 1int))
        }
    }
}

/// The text of line `y`, or the empty text when `t` has no such line.
pub open spec fn line_at(t: Seq<char>, y: int) -> Seq<char> {
    if 0 <= y < lines_of(t).len() {
        lines_of(t)[y]
    } else {
        Seq::empty()
    }
}

/// The offset in `t` that position (`x`, `y`) addresses: the `x`-th character
/// of line `y`, or the end of that line when it is shorter. Each line before
/// it counts its length plus one; when `t` has no line `y` the offset is past
/// all lines.
pub open spec fn offset_of(t: Seq<char>, y: nat, x: nat) -> nat
    decreases t.len(),
{
    if t.len() == 0 {
        0
    } else {
        let n = line_end(t);
        if y == 0 {
            if x <= n {
                x
            } else {
                n
            }
        } else if n >= t.len() {
            n + 1
        } else {
            n + 1 + offset_of(t.skip(n + 1int), (y - 1) as nat, x)
        }
    }
}

pub proof fn lemma_line_end_bound(t: Seq<char>)
    ensures
        line_end(t) <= t.len(),
        line_end(t) < t.len() ==> t[line_end(t) as int] == '\n',
        forall|i: int| 0 <= i < line_end(t) ==> t[i] != '\n',
    decreases t.len(),
{
    if t.len() > 0 && t[0] != '\n' {
        lemma_line_end_bound(t.drop_first());
        assert forall|i: int| 0 <= i < line_end(t) implies t[i] != '\n' by {
            if i > 0 {
                assert(t[i] == t.drop_first()[i - 1]);
            }
        }
    }
}

/// `line_end` characterised directly: the position of the first line feed,
/// or the end of the text when it has none.
pub proof fn lemma_line_end_char(t: Seq<char>, n: nat)
    requires
        n <= t.len(),
        n < t.len() ==> t[n as int] == '\n',
        forall|i: int| 0 <= i < n ==> t[i] != '\n',
    ensures
        line_end(t) == n,
    decreases t.len(),
{
    if t.len() > 0 && t[0] != '\n' {
        assert forall|i: int| 0 <= i < n - 1 implies t.drop_first()[i] != '\n' by {
            assert(t.drop_first()[i] == t[i + 1]);
        }
        lemma_line_end_char(t.drop_first(), (n - 1) as nat);
    }
}


/// Unfolds `lines_of` past the first line of a text that has a line feed.
pub proof fn lemma_lines_step(t: Seq<char>)
    requires
        t.len() > 0,
        line_end(t) < t.len(),
    ensures
        lines_of(t).len() == 1 + lines_of(t.skip(line_end(t) + 1int)).len(),
        lines_of(t)[0] == t.take(line_end(t) as int),
        forall|k: int|
            0 < k ==> #[trigger] line_at(t, k) == line_at(t.skip(line_end(t) + 1int), k - 1),
{
    let rest = t.skip(line_end(t) + 1int);
    let ls = seq![t.take(line_end(t) as int)] + lines_of(rest);
    assert(lines_of(t) == ls);
    assert forall|k: int| 0 < k implies #[trigger] line_at(t, k) == line_at(rest, k - 1) by {
        if k < ls.len() {
            assert(ls[k] == lines_of(rest)[k - 1]);
        }
    }
}

/// Where line `y` of `t` starts and ends, and whether `t` has that line; a
/// line it lacks is an empty span at the end of the text.
pub fn line_span(t: &Vec<char>, y: usize) -> (r: (usize, usize, bool))
    ensures
        r.0 <= r.1 <= t@.len(),
        line_at(t@, y as int) == t@.subrange(r.0 as int, r.1 as int),
        r.2 == (y < lines_of(t@).len()),
{
    let len = t.len();
    let mut start: usize = 0;
    let mut line: usize = 0;
    assert(t@.skip(0) =~= t@);
    loop
        invariant
            start <= len,
            len == t@.len(),
            line <= y,
            line_at(t@, y as int) == line_at(t@.skip(start as int), (y - line) as int),
            lines_of(t@).len() == line + lines_of(t@.skip(start as int)).len(),
        decreases len - start,
    {
        let ghost rest = t@.skip(start as int);
        if start == len {
            assert(rest.len() == 0);
            assert(t@.subrange(start as int, start as int) =~= Seq::<char>::empty());
            return (start, start, false);
        }
        let mut e: usize = start;
        while e < len && t[e] != '\n'
            invariant
                start <= e <= len,
                len == t@.len(),
                forall|i: int| start <= i < e ==> t@[i] != '\n',
            decreases len - e,
        {
            e = e + 1;
        }
        proof {
            assert forall|i: int| 0 <= i < e - start implies rest[i] != '\n' by {
                assert(rest[i] == t@[start + i]);
            }
            if e < len {
                assert(rest[e - start] == t@[e as int]);
            }
            lemma_line_end_char(rest, (e - start) as nat);
        }
        if e == len {
            assert(lines_of(rest) == seq![rest]);
            assert(rest =~= t@.subrange(start as int, e as int));
            if line == y {
                return (start, e, true);
            }
            assert(t@.subrange(e as int, e as int) =~= Seq::<char>::empty());
            return (e, e, false);
        }
        proof {
            lemma_lines_step(rest);
            assert(rest.take(e - start) =~= t@.subrange(start as int, e as int));
            assert(rest.skip(e - start + 1) =~= t@.skip(e + 1));
        }
        if line == y {
            return (start, e, true);
        }
        start = e + 1;
        line = line + 1;
    }
}

/// The number of lines of `t`.
pub fn line_count(t: &Vec<char>) -> (r: usize)
    ensures
        r == lines_of(t@).len(),
{
    let len = t.len();
    let mut start: usize = 0;
    let mut count: usize = 0;
    assert(t@.skip(0) =~= t@);
    loop
        invariant
            start <= len,
            len == t@.len(),
            count <= start,
            lines_of(t@).len() == count + lines_of(t@.skip(start as int)).len(),
        decreases len - start,
    {
        let ghost rest = t@.skip(start as int);
        if start == len {
            assert(rest.len() == 0);
            return count;
        }
        let mut e: usize = start;
        while e < len && t[e] != '\n'
            invariant
                start <= e <= len,
                len == t@.len(),
                forall|i: int| start <= i < e ==> t@[i] != '\n',
            decreases len - e,
        {
            e = e + 1;
        }
        proof {
            assert forall|i: int| 0 <= i < e - start implies rest[i] != '\n' by {
                assert(rest[i] == t@[start + i]);
            }
            if e < len {
                assert(rest[e - start] == t@[e as int]);
            }
            lemma_line_end_char(rest, (e - start) as nat);
        }
        if e == len {
            assert(lines_of(rest) == seq![rest]);
            return count + 1;
        }
        proof {
            lemma_lines_step(rest);
            assert(rest.skip(e - start + 1) =~= t@.skip(e + 1));
        }
        start = e + 1;
        count = count + 1;
    }
}

/// A copy of `t[s..e]`.
pub fn copy_span(t: &Vec<char>, s: usize, e: usize) -> (r: Vec<char>)
    requires
        s <= e <= t@.len(),
    ensures
        r@ == t@.subrange(s as int, e as int),
{
    let mut r: Vec<char> = Vec::new();
    let mut i: usize = s;
    while i < e
        invariant
            s <= i <= e,
            e <= t@.len(),
            r@ == t@.subrange(s as int, i as int),
        decreases e - i,
    {
        r.push(t[i]);
        i = i + 1;
        assert(r@ =~= t@.subrange(s as int, i as int));
    }
    r
}

/// Relies on `str::chars` collected into a `Vec`: the characters of `s` in order.
#[verifier::external_body]
pub(crate) fn chars_of(s: &str) -> (r: Vec<char>)
    ensures
        r@ == s@,
{
    s.chars().collect()
}

/// Relies on collecting characters into a `String` (`FromIterator<&char>`):
/// the string of exactly these characters.
#[verifier::external_body]
pub(crate) fn string_of(v: &[char]) -> (r: String)
    ensures
        r@ == v@,
{
    v.iter().collect()
}

} // verus!
