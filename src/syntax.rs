//! The tokenizer: splits a line into classified tokens by an ordered rule set.
use vstd::prelude::*;

use crate::pattern::{compiles, match_at_start, CRegex, PatternError};
use crate::text::{chars_of, copy_span, string_of};

verus! {

/// The class of a token.
#[derive(Clone, Copy, Debug, PartialEq, Eq, PartialOrd, Ord, Hash, Structural)]
pub enum SyntaxKind {
    Keyword,
    Identifier,
    Delimiter,
    Literal,
    Function,
    Type,
    Extra,
    Whitespace,
    Comment,
    Unknown,
}

/// Whether `c` has the Unicode White_Space property.
pub open spec fn is_space(c: char) -> bool {
    let u = c as u32;
    (0x9 <= u <= 0xd) || u == 0x20 || u == 0x85 || u == 0xa0 || u == 0x1680 || (0x2000 <= u
        <= 0x200a) || u == 0x2028 || u == 0x2029 || u == 0x202f || u == 0x205f || u == 0x3000
}

/// Whether `c` has the Unicode White_Space property.
pub fn is_whitespace(c: char) -> (r: bool)
    ensures
        r == is_space(c),
{
    let u = c as u32;
    (0x9 <= u && u <= 0xd) || u == 0x20 || u == 0x85 || u == 0xa0 || u == 0x1680 || (0x2000 <= u
        && u <= 0x200a) || u == 0x2028 || u == 0x2029 || u == 0x202f || u == 0x205f || u == 0x3000
}

/// The number of whitespace characters that `s` starts with.
pub open spec fn leading_space(s: Seq<char>) -> nat
    decreases s.len(),
{
    if s.len() == 0 {
        0
    } else if !is_space(s[0]) {
        0
    } else {
        1 + leading_space(s.drop_first())
    }
}

pub proof fn lemma_leading_space(s: Seq<char>, w: nat)
    requires
        w <= s.len(),
        w < s.len() ==> !is_space(s[w as int]),
        forall|i: int| 0 <= i < w ==> is_space(s[i]),
    ensures
        leading_space(s) == w,
    decreases s.len(),
{
    if s.len() > 0 && is_space(s[0]) {
        assert forall|i: int| 0 <= i < w - 1 implies is_space(s.drop_first()[i]) by {
            assert(s.drop_first()[i] == s[i + 1]);
        }
        lemma_leading_space(s.drop_first(), (w - 1) as nat);
    }
}

/// Patterns and the classes they give, in the order they are tried.
pub type Rules = Seq<(Seq<char>, SyntaxKind)>;

/// The token the rules give, from what each rule's pattern matched at the
/// start of the text, in rule order (`None`: no match there): the first
/// match from `i` on gives its length and its rule's class; an empty match,
/// or none at all, gives one Unknown character.
pub open spec fn pick(found: Seq<Option<nat>>, kinds: Seq<SyntaxKind>, i: int) -> (nat, SyntaxKind)
    decreases found.len() - i,
{
    if i < 0 || i >= found.len() || i >= kinds.len() {
        (1, SyntaxKind::Unknown)
    } else {
        match found[i] {
            Some(n) => if n == 0 {
                (1, SyntaxKind::Unknown)
            } else {
                (n, kinds[i])
            },
            None => pick(found, kinds, i + 1),
        }
    }
}

/// The length and class of the token at the start of non-whitespace `s`,
/// as `pick` gives them from each rule's match at the start of `s`.
pub open spec fn rule_token(rules: Rules, s: Seq<char>) -> (nat, SyntaxKind) {
    pick(
        Seq::new(rules.len(), |i: int| match_at_start(rules[i].0, s)),
        Seq::new(rules.len(), |i: int| rules[i].1),
        0,
    )
}

/// `found` with lengths as mathematical integers.
pub open spec fn found_view(found: Seq<Option<usize>>) -> Seq<Option<nat>> {
    found.map_values(
        |o: Option<usize>|
            match o {
                Some(n) => Some(n as nat),
                None => None,
            },
    )
}

/// The token that the first rule to match gives; see `pick`.
pub fn pick_token(found: &[Option<usize>], kinds: &[SyntaxKind]) -> (r: (usize, SyntaxKind))
    requires
        found@.len() == kinds@.len(),
    ensures
        (r.0 as nat, r.1) == pick(found_view(found@), kinds@, 0),
{
    let mut i: usize = 0;
    while i < found.len()
        invariant
            i <= found@.len(),
            found@.len() == kinds@.len(),
            pick(found_view(found@), kinds@, 0) == pick(found_view(found@), kinds@, i as int),
        decreases found@.len() - i,
    {
        match found[i] {
            Some(n) => {
                if n == 0 {
                    return (1, SyntaxKind::Unknown);
                }
                return (n, kinds[i]);
            },
            None => {},
        }
        i = i + 1;
    }
    (1, SyntaxKind::Unknown)
}

/// A picked length is one, or the length of one of the matches.
proof fn lemma_pick_bound(found: Seq<Option<usize>>, kinds: Seq<SyntaxKind>, i: int, m: nat)
    requires
        m >= 1,
        forall|j: int| 0 <= j < found.len() ==> (#[trigger] found[j] matches Some(n) ==> n <= m),
    ensures
        1 <= pick(found_view(found), kinds, i).0 <= m,
    decreases found.len() - i,
{
    if 0 <= i < found.len() && i < kinds.len() {
        if found[i] is None {
            lemma_pick_bound(found, kinds, i + 1, m);
        }
    }
}

/// `n`, but no more than `m`.
pub open spec fn at_most(n: nat, m: nat) -> nat {
    if n <= m {
        n
    } else {
        m
    }
}

/// The tokens of `s`: a run of whitespace is one Whitespace token; anything
/// else is classified by `rule_token`.
pub open spec fn tokens_of(rules: Rules, s: Seq<char>) -> Seq<(Seq<char>, SyntaxKind)>
    decreases s.len(),
{
    if s.len() == 0 {
        Seq::empty()
    } else {
        let w = at_most(leading_space(s), s.len());
        if w > 0 {
            seq![(s.take(w as int), SyntaxKind::Whitespace)] + tokens_of(rules, s.skip(w as int))
        } else {
            let k = at_most(rule_token(rules, s).0, s.len());
            let k1 = if k == 0 {
                1
            } else {
                k
            };
            seq![(s.take(k1 as int), rule_token(rules, s).1)] + tokens_of(
                rules,
                s.skip(k1 as int),
            )
        }
    }
}

/// The texts of `ts` one after another.
pub open spec fn joined(ts: Seq<(Seq<char>, SyntaxKind)>) -> Seq<char>
    decreases ts.len(),
{
    if ts.len() == 0 {
        Seq::empty()
    } else {
        ts[0].0 + joined(ts.drop_first())
    }
}

pub proof fn lemma_joined_front(a: (Seq<char>, SyntaxKind), ts: Seq<(Seq<char>, SyntaxKind)>)
    ensures
        joined(seq![a] + ts) == a.0 + joined(ts),
{
    assert((seq![a] + ts).drop_first() =~= ts);
}

/// Tokenizing loses nothing: the tokens of `s`, joined, are `s`.
pub proof fn lemma_tokens_lossless(rules: Rules, s: Seq<char>)
    ensures
        joined(tokens_of(rules, s)) == s,
        forall|i: int|
            0 <= i < tokens_of(rules, s).len() ==> #[trigger] tokens_of(rules, s)[i].0.len() > 0,
    decreases s.len(),
{
    if s.len() > 0 {
        let w = at_most(leading_space(s), s.len());
        let k = at_most(rule_token(rules, s).0, s.len());
        let k1: nat = if w > 0 {
            w
        } else if k == 0 {
            1
        } else {
            k
        };
        let kind = if w > 0 {
            SyntaxKind::Whitespace
        } else {
            rule_token(rules, s).1
        };
        lemma_tokens_lossless(rules, s.skip(k1 as int));
        let rest = tokens_of(rules, s.skip(k1 as int));
        assert(tokens_of(rules, s) == seq![(s.take(k1 as int), kind)] + rest);
        lemma_joined_front((s.take(k1 as int), kind), rest);
        assert(s.take(k1 as int) + s.skip(k1 as int) =~= s);
        assert forall|i: int|
            0 <= i < tokens_of(rules, s).len() implies #[trigger] tokens_of(rules, s)[i].0.len()
            > 0 by {
            if i > 0 {
                assert(tokens_of(rules, s)[i] == rest[i - 1]);
            }
        }
    }
}

/// The token texts and classes of `ts`.
pub open spec fn token_view(ts: Seq<(String, SyntaxKind)>) -> Seq<(Seq<char>, SyntaxKind)> {
    ts.map_values(|p: (String, SyntaxKind)| (p.0@, p.1))
}

pub const RUST_KEYWORD: &'static str =
    r"^(fn|cfg|super|let|mut|mod|pub|const|impl|static|for|use|while|match|if|else|break|continue|struct|enum|self)\b";

pub const RUST_IDENTIFIER: &'static str = r"^[A-Za-z_][A-Za-z0-9_]*";

pub const RUST_DELIMITERS: &'static str = r"^(\(|\)|\||\{|\}|\[|\]|;|:|,|<|>|\?|\#)";

pub const RUST_LITERAL: &'static str = r#"^(r\#\".*\"\#|\".*\"|[0-9]+)"#;

pub const RUST_TYPES: &'static str = r"^([A-Z][A-Za-z0-9_]*|str)";

pub const RUST_EXTRA: &'static str = r"^(==|!=|<=|>=|=|\+|-|\*|/|\.\.|=>)";

pub const RUST_FUNCTION: &'static str = r"^([a-z][a-z_0-9]*)(?=\()";

pub const RUST_COMMENT: &'static str = r"^(\/\/.*|/\*([\s\S]*?)\*/)";

/// The eight classification patterns of a language.
#[derive(Debug)]
pub struct SyntaxRegex {
    pub keyword: CRegex,
    pub identifier: CRegex,
    pub function: CRegex,
    pub delimiters: CRegex,
    pub literal: CRegex,
    pub types: CRegex,
    pub comment: CRegex,
    pub extra: CRegex,
}

/// Whether every one of `ps` compiles.
pub open spec fn all_compile(ps: Seq<&str>) -> bool {
    forall|i: int| 0 <= i < ps.len() ==> compiles(#[trigger] ps[i]@)
}

/// `p` is the first of `ps` that does not compile.
pub open spec fn first_failing(ps: Seq<&str>, p: Seq<char>) -> bool {
    exists|i: int|
        0 <= i < ps.len() && #[trigger] ps[i]@ == p && !compiles(p) && forall|j: int|
            0 <= j < i ==> compiles(#[trigger] ps[j]@)
}

impl SyntaxRegex {
    /// Compiles the eight patterns; fails with the first, in parameter order,
    /// that does not compile.
    pub fn new(
        keyword: &str,
        identifier: &str,
        delimiters: &str,
        literal: &str,
        types: &str,
        extra: &str,
        function: &str,
        comment: &str,
    ) -> (r: Result<SyntaxRegex, PatternError>)
        ensures
            r is Ok <==> all_compile(
                seq![keyword, identifier, delimiters, literal, types, extra, function, comment],
            ),
            r matches Ok(x) ==> x.keyword@ == keyword@ && x.identifier@ == identifier@
                && x.delimiters@ == delimiters@ && x.literal@ == literal@ && x.types@ == types@
                && x.extra@ == extra@ && x.function@ == function@ && x.comment@ == comment@,
            r matches Err(e) ==> first_failing(
                seq![keyword, identifier, delimiters, literal, types, extra, function, comment],
                e.pattern@,
            ),
    {
        let ghost ps = seq![keyword, identifier, delimiters, literal, types, extra, function, comment];
        let keyword = CRegex::new(keyword)?;
        let identifier = CRegex::new(identifier)?;
        let delimiters = CRegex::new(delimiters)?;
        let literal = CRegex::new(literal)?;
        let types = CRegex::new(types)?;
        let extra = CRegex::new(extra)?;
        let function = CRegex::new(function)?;
        let comment = CRegex::new(comment)?;
        proof {
            assert forall|i: int| 0 <= i < ps.len() implies compiles(#[trigger] ps[i]@) by {
                if i == 0 {
                } else if i == 1 {
                } else if i == 2 {
                } else if i == 3 {
                } else if i == 4 {
                } else if i == 5 {
                } else if i == 6 {
                } else {
                }
            }
        }
        Ok(SyntaxRegex { keyword, identifier, function, delimiters, literal, types, comment, extra })
    }

    /// The built-in rules for Rust source, used when no other rule set loads.
    pub fn rust_syntax() -> (r: Result<SyntaxRegex, PatternError>)
        ensures
            r is Ok <==> all_compile(seq![
                RUST_KEYWORD, RUST_IDENTIFIER, RUST_DELIMITERS, RUST_LITERAL, RUST_TYPES,
                RUST_EXTRA, RUST_FUNCTION, RUST_COMMENT,
            ]),
            r matches Ok(x) ==> x.keyword@ == RUST_KEYWORD@ && x.identifier@ == RUST_IDENTIFIER@
                && x.delimiters@ == RUST_DELIMITERS@ && x.literal@ == RUST_LITERAL@ && x.types@
                == RUST_TYPES@ && x.extra@ == RUST_EXTRA@ && x.function@ == RUST_FUNCTION@
                && x.comment@ == RUST_COMMENT@,
    {
        SyntaxRegex::new(
            RUST_KEYWORD,
            RUST_IDENTIFIER,
            RUST_DELIMITERS,
            RUST_LITERAL,
            RUST_TYPES,
            RUST_EXTRA,
            RUST_FUNCTION,
            RUST_COMMENT,
        )
    }
    /// The rules in the order they are tried: comment, literal, keyword,
    /// function, type, identifier, extra, delimiter.
    pub open spec fn rules(&self) -> Rules {
        seq![
            (self.comment@, SyntaxKind::Comment),
            (self.literal@, SyntaxKind::Literal),
            (self.keyword@, SyntaxKind::Keyword),
            (self.function@, SyntaxKind::Function),
            (self.types@, SyntaxKind::Type),
            (self.identifier@, SyntaxKind::Identifier),
            (self.extra@, SyntaxKind::Extra),
            (self.delimiters@, SyntaxKind::Delimiter),
        ]
    }

    fn rule(&self, i: usize) -> (r: (&CRegex, SyntaxKind))
        requires
            i < 8,
        ensures
            r.0@ == self.rules()[i as int].0,
            r.1 == self.rules()[i as int].1,
    {
        if i == 0 {
            (&self.comment, SyntaxKind::Comment)
        } else if i == 1 {
            (&self.literal, SyntaxKind::Literal)
        } else if i == 2 {
            (&self.keyword, SyntaxKind::Keyword)
        } else if i == 3 {
            (&self.function, SyntaxKind::Function)
        } else if i == 4 {
            (&self.types, SyntaxKind::Type)
        } else if i == 5 {
            (&self.identifier, SyntaxKind::Identifier)
        } else if i == 6 {
            (&self.extra, SyntaxKind::Extra)
        } else {
            (&self.delimiters, SyntaxKind::Delimiter)
        }
    }

    /// The token at the start of `s`, as `rule_token` gives it.
    fn classify_start(&self, s: &[char]) -> (r: (usize, SyntaxKind))
        requires
            s@.len() > 0,
        ensures
            r.0 as nat == rule_token(self.rules(), s@).0,
            r.1 == rule_token(self.rules(), s@).1,
            1 <= r.0 <= s@.len(),
    {
        let ghost rules = self.rules();
        let mut found: Vec<Option<usize>> = Vec::new();
        let mut kinds: Vec<SyntaxKind> = Vec::new();
        let mut i: usize = 0;
        while i < 8
            invariant
                i <= 8,
                rules == self.rules(),
                found@.len() == i,
                kinds@.len() == i,
                forall|j: int|
                    0 <= j < i ==> found_view(found@)[j] == match_at_start(rules[j].0, s@),
                forall|j: int| 0 <= j < i ==> kinds@[j] == rules[j].1,
                forall|j: int| 0 <= j < i ==> (#[trigger] found@[j] matches Some(n) ==> n <= s@.len()),
            decreases 8 - i,
        {
            let (re, kind) = self.rule(i);
            let m = re.match_len_at_start(s);
            let ghost before = found@;
            found.push(m);
            kinds.push(kind);
            proof {
                assert forall|j: int| 0 <= j < i + 1 implies found_view(found@)[j] == match_at_start(
                    rules[j].0,
                    s@,
                ) by {
                    if j < i {
                        assert(found@[j] == before[j]);
                        assert(found_view(before)[j] == match_at_start(rules[j].0, s@));
                    }
                }
            }
            i = i + 1;
        }
        proof {
            assert(found_view(found@) =~= Seq::new(rules.len(), |j: int| match_at_start(rules[j].0, s@)));
            assert(kinds@ =~= Seq::new(rules.len(), |j: int| rules[j].1));
        }
        let r = pick_token(found.as_slice(), kinds.as_slice());
        proof {
            lemma_pick_bound(found@, kinds@, 0, s@.len());
        }
        r
    }

    /// Splits `text` into tokens: whitespace runs, then the first rule that
    /// matches at each point, with one Unknown character where none does.
    pub fn parse(&self, text: &str) -> (r: Vec<(String, SyntaxKind)>)
        ensures
            token_view(r@) == tokens_of(self.rules(), text@),
            joined(token_view(r@)) == text@,
            forall|i: int| 0 <= i < r@.len() ==> (#[trigger] r@[i]).0@.len() > 0,
    {
        let chars = chars_of(text);
        let len = chars.len();
        let mut tokens: Vec<(String, SyntaxKind)> = Vec::new();
        let mut pos: usize = 0;
        let ghost rules = self.rules();
        assert(chars@.skip(0) =~= chars@);
        while pos < len
            invariant
                pos <= len,
                len == chars@.len(),
                rules == self.rules(),
                token_view(tokens@) + tokens_of(rules, chars@.skip(pos as int)) == tokens_of(
                    rules,
                    chars@,
                ),
            decreases len - pos,
        {
            let ghost rest = chars@.skip(pos as int);
            let mut w: usize = 0;
            while pos + w < len && is_whitespace(chars[pos + w])
                invariant
                    pos + w <= len,
                    len == chars@.len(),
                    forall|i: int| pos <= i < pos + w ==> is_space(chars@[i]),
                decreases len - pos - w,
            {
                w = w + 1;
            }
            proof {
                assert forall|i: int| 0 <= i < w implies is_space(rest[i]) by {
                    assert(rest[i] == chars@[pos + i]);
                }
                if pos + w < len {
                    assert(rest[w as int] == chars@[pos + w]);
                }
                lemma_leading_space(rest, w as nat);
            }
            let (step, kind) = if w > 0 {
                (w, SyntaxKind::Whitespace)
            } else {
                let tail = copy_span(&chars, pos, len);
                assert(tail@ =~= rest);
                self.classify_start(tail.as_slice())
            };
            let piece = copy_span(&chars, pos, pos + step);
            let s = string_of(piece.as_slice());
            let ghost before = token_view(tokens@);
            let ghost old_tokens = tokens@;
            proof {
                assert(piece@ =~= rest.take(step as int));
            }
            tokens.push((s, kind));
            proof {
                assert(tokens@ == old_tokens.push((s, kind)));
                assert forall|i: int| 0 <= i < tokens@.len() implies token_view(tokens@)[i] == (before
                    + seq![(rest.take(step as int), kind)])[i] by {
                    if i < old_tokens.len() {
                        assert(tokens@[i] == old_tokens[i]);
                    }
                }
                assert(token_view(tokens@) =~= before + seq![(rest.take(step as int), kind)]);
                assert(rest.skip(step as int) =~= chars@.skip(pos + step));
                assert(tokens_of(rules, rest) == seq![(rest.take(step as int), kind)] + tokens_of(
                    rules,
                    rest.skip(step as int),
                ));
                assert(before + tokens_of(rules, rest) =~= token_view(tokens@) + tokens_of(
                    rules,
                    rest.skip(step as int),
                ));
            }
            pos = pos + step;
        }
        proof {
            assert(chars@.skip(pos as int).len() == 0);
            assert(token_view(tokens@) =~= tokens_of(rules, chars@));
            lemma_tokens_lossless(rules, text@);
            assert forall|i: int| 0 <= i < tokens@.len() implies (#[trigger] tokens@[i]).0@.len()
                > 0 by {
                assert(token_view(tokens@)[i].0 == tokens@[i].0@);
            }
        }
        tokens
    }
}

} // verus!
