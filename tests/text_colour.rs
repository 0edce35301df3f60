use modal_edit::syntax::{SyntaxKind, SyntaxRegex};

fn test_syntax() -> SyntaxRegex {
    SyntaxRegex::new(
        r#"^(fn|let|mut|pub|const|static)\b"#,
        r#"^[A-Za-z_][A-Za-z0-9_]*"#,
        r#"^(\(|\)|\||\{|\}|\[|\]|;|:|,|<|>)"#,
        r#"^(\"\")"#,
        r#"^[A-Z][A-Za-z0-9_]*"#,
        r#"^(==|!=|<=|>=|=|\+|-|\*|/)"#,
        r#"^[98]"#,
        r#"^thisshouldneverbematched"#,
    )
    .unwrap()
}

fn non_ws(tokens: Vec<(String, SyntaxKind)>) -> Vec<(String, SyntaxKind)> {
    tokens
        .into_iter()
        .filter(|(t, _)| !t.trim().is_empty())
        .collect()
}

#[test]
fn test_keywords() {
    let input = "fn let mut pub const static";
    let tokens = non_ws(test_syntax().parse(input));

    for (_, kind) in tokens {
        assert_eq!(kind, SyntaxKind::Keyword);
    }
}

#[test]
fn test_split() {
    let input = "fn let thing = 3;";
    let tokens = test_syntax().parse(input);

    let dec_tok: String = tokens.iter().map(|(text, _)| text.to_owned()).collect();
    assert_eq!(dec_tok, input);
}

#[test]
fn test_identifiers() {
    let input = "hello world foo_bar x1 _hidden";
    let tokens = non_ws(test_syntax().parse(input));

    for (_, kind) in tokens {
        assert_eq!(kind, SyntaxKind::Identifier);
    }
}

#[test]
fn test_delimiters() {
    let input = "( ) { } [ ] ; : , < > |";
    let tokens = non_ws(test_syntax().parse(input));

    for (_, kind) in tokens {
        assert_eq!(kind, SyntaxKind::Delimiter);
    }
}

#[test]
fn test_types() {
    let input = "String MyType HTTPResponse";
    let tokens = non_ws(test_syntax().parse(input));

    for (_, kind) in tokens {
        assert_eq!(kind, SyntaxKind::Type);
    }
}

#[test]
fn test_extra() {
    let input = "+ - * / = == != <=";
    let tokens = non_ws(test_syntax().parse(input));

    for (_, kind) in tokens {
        assert_eq!(kind, SyntaxKind::Extra);
    }
}

#[test]
fn test_full_snippet() {
    let input = r#"pub fn greet(name: String) { let msg = name + 1; }"#;
    let tokens = test_syntax().parse(input);
    let has = |t: &str, k: SyntaxKind| tokens.contains(&(t.to_string(), k));

    assert!(has("pub", SyntaxKind::Keyword));
    assert!(has("fn", SyntaxKind::Keyword));
    assert!(has("greet", SyntaxKind::Identifier));
    assert!(has("name", SyntaxKind::Identifier));
    assert!(has("String", SyntaxKind::Type));
    assert!(has("=", SyntaxKind::Extra));
    assert!(has("+", SyntaxKind::Extra));
    assert!(has("{", SyntaxKind::Delimiter));
    assert!(has("}", SyntaxKind::Delimiter));
}

#[test]
fn test_unknown_tokens() {
    let input = "@$?";
    let tokens = non_ws(test_syntax().parse(input));

    for (_, kind) in tokens {
        assert_eq!(kind, SyntaxKind::Unknown);
    }
}
