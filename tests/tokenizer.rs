use modal_edit::pattern::CRegex;
use modal_edit::syntax::{is_whitespace, pick_token, SyntaxKind, SyntaxRegex};
use modal_edit::theme::{Colour, ColourTheme};

const NEVER: &str = "^thisshouldneverbematched";

fn keyword_ident_rules() -> SyntaxRegex {
    SyntaxRegex::new("fn|let", "[A-Za-z_]+", NEVER, NEVER, NEVER, NEVER, NEVER, NEVER).unwrap()
}

fn owned(v: &[(&str, SyntaxKind)]) -> Vec<(String, SyntaxKind)> {
    v.iter().map(|(t, k)| (t.to_string(), *k)).collect()
}

#[test]
fn keyword_wins_over_identifier() {
    let tokens = keyword_ident_rules().parse("fn foo");
    assert_eq!(
        tokens,
        owned(&[
            ("fn", SyntaxKind::Keyword),
            (" ", SyntaxKind::Whitespace),
            ("foo", SyntaxKind::Identifier),
        ])
    );
}

#[test]
fn joined_tokens_give_back_the_line() {
    let rules = SyntaxRegex::rust_syntax().unwrap();
    for line in [
        "",
        "   ",
        "let x = \"a b\"; // done",
        "fn main() { println!(\"é✓\"); }",
        "\t@ ~ 12 ñ",
    ] {
        let tokens = rules.parse(line);
        let joined: String = tokens.iter().map(|(t, _)| t.as_str()).collect();
        assert_eq!(joined, line);
        assert!(tokens.iter().all(|(t, _)| !t.is_empty()));
    }
}

#[test]
fn empty_line_has_no_tokens() {
    assert!(keyword_ident_rules().parse("").is_empty());
}

#[test]
fn whitespace_run_is_one_token() {
    let tokens = keyword_ident_rules().parse(" \t let");
    assert_eq!(
        tokens,
        owned(&[(" \t ", SyntaxKind::Whitespace), ("let", SyntaxKind::Keyword)])
    );
}

#[test]
fn empty_match_gives_one_unknown_character() {
    let rules = SyntaxRegex::new("x*", NEVER, NEVER, NEVER, NEVER, NEVER, NEVER, NEVER).unwrap();
    let tokens = rules.parse("éa");
    assert_eq!(
        tokens,
        owned(&[("é", SyntaxKind::Unknown), ("a", SyntaxKind::Unknown)])
    );
}

#[test]
fn comment_before_keyword() {
    let rules = SyntaxRegex::rust_syntax().unwrap();
    let tokens = rules.parse("// fn x");
    assert_eq!(tokens, owned(&[("// fn x", SyntaxKind::Comment)]));
}

#[test]
fn function_and_literal_rules() {
    let rules = SyntaxRegex::rust_syntax().unwrap();
    let tokens = rules.parse("go(42)");
    assert_eq!(
        tokens,
        owned(&[
            ("go", SyntaxKind::Function),
            ("(", SyntaxKind::Delimiter),
            ("42", SyntaxKind::Literal),
            (")", SyntaxKind::Delimiter),
        ])
    );
}

#[test]
fn bad_pattern_is_refused() {
    let e = SyntaxRegex::new("(", NEVER, NEVER, NEVER, NEVER, NEVER, NEVER, NEVER).unwrap_err();
    assert_eq!(e.pattern, "(");
    assert!(CRegex::new("[a-").is_err());
    assert_eq!(CRegex::new("ab+").unwrap().as_str(), "ab+");
}

#[test]
fn whitespace_matches_std() {
    for u in 0..=0x10FFFFu32 {
        if let Some(c) = char::from_u32(u) {
            assert_eq!(is_whitespace(c), c.is_whitespace(), "{u:x}");
        }
    }
}

#[test]
fn colours_parse_with_and_without_hash() {
    assert_eq!(Colour::parse("#ff8000").unwrap().rgb(), (255, 128, 0));
    assert_eq!(Colour::parse("0a0B0c").unwrap().rgb(), (10, 11, 12));
    assert_eq!(Colour::parse("#+f+a+1").unwrap().rgb(), (15, 10, 1));
    assert_eq!("102030xyz".parse::<Colour>().unwrap().rgb(), (16, 32, 48));
    assert!(Colour::parse("#12345").is_err());
    assert!(Colour::parse("zz0000").is_err());
    assert!(Colour::parse("").is_err());
}

#[test]
fn theme_colours_by_kind() {
    let c = |n: u8| Colour::new(n, n, n);
    let theme = ColourTheme {
        keyword: c(1),
        ident: c(2),
        lit: c(3),
        delim: c(4),
        types: c(5),
        extra: c(6),
        background: c(7),
        function: c(8),
        comment: c(9),
    };
    assert_eq!(theme.colour_for(SyntaxKind::Keyword), c(1));
    assert_eq!(theme.colour_for(SyntaxKind::Whitespace), c(4));
    assert_eq!(theme.colour_for(SyntaxKind::Unknown), c(6));
    assert_eq!(theme.colour_for(SyntaxKind::Comment), c(9));
    assert_eq!(theme.colour_for(SyntaxKind::Function), c(8));
}

#[test]
fn first_matching_rule_is_picked() {
    let kinds = [
        SyntaxKind::Comment,
        SyntaxKind::Literal,
        SyntaxKind::Keyword,
        SyntaxKind::Function,
        SyntaxKind::Type,
        SyntaxKind::Identifier,
        SyntaxKind::Extra,
        SyntaxKind::Delimiter,
    ];
    let found = [None, None, Some(2), None, None, Some(3), None, None];
    assert_eq!(pick_token(&found, &kinds), (2, SyntaxKind::Keyword));
    let found = [None, None, None, None, None, Some(3), None, Some(1)];
    assert_eq!(pick_token(&found, &kinds), (3, SyntaxKind::Identifier));
    let found = [None, Some(0), Some(4), None, None, None, None, None];
    assert_eq!(pick_token(&found, &kinds), (1, SyntaxKind::Unknown));
    let found = [None; 8];
    assert_eq!(pick_token(&found, &kinds), (1, SyntaxKind::Unknown));
}
