use vulgata::lexer::{Lexer, SpannedToken, Token};

fn kinds(tokens: &[SpannedToken]) -> Vec<Token> {
    tokens.iter().map(|token| token.token.clone()).collect()
}

#[test]
fn lexes_keywords_operators_and_literals() {
    let source = "let value = 42 + 1.5\nexpect value != 0\n";
    let tokens = Lexer::new("test.vg", source).tokenize().expect("tokenize");
    assert!(kinds(&tokens).contains(&Token::Let));
    assert!(kinds(&tokens).contains(&Token::Expect));
    assert!(kinds(&tokens).contains(&Token::IntLiteral(42)));
    assert!(kinds(&tokens).contains(&Token::DecLiteral("1.5".to_string())));
    assert!(kinds(&tokens).contains(&Token::Plus));
    assert!(kinds(&tokens).contains(&Token::NotEqual));
}

#[test]
fn lexes_strings() {
    let source = "const APP: Text = \"vulgata\"\n";
    let tokens = Lexer::new("test.vg", source).tokenize().expect("tokenize");
    assert!(kinds(&tokens).contains(&Token::StringLiteral("vulgata".to_string())));
}

#[test]
fn emits_indent_and_dedent_transitions() {
    let source = "action main() -> None:\n  let x = 1\n  if true:\n    let y = 2\n  return\n";
    let tokens = Lexer::new("test.vg", source).tokenize().expect("tokenize");
    let kinds = kinds(&tokens);
    assert_eq!(kinds.iter().filter(|token| **token == Token::Indent).count(), 2);
    assert_eq!(kinds.iter().filter(|token| **token == Token::Dedent).count(), 2);
    assert!(matches!(kinds.last(), Some(Token::Eof)));
}

#[test]
fn closes_open_blocks_at_end_of_input() {
    let source = "a:\n  b:\n    c\n";
    let tokens = Lexer::new("t.vg", source).tokenize().expect("tokenize");
    let k = kinds(&tokens);
    let indents = k.iter().filter(|t| **t == Token::Indent).count();
    let dedents = k.iter().filter(|t| **t == Token::Dedent).count();
    assert_eq!(indents, 2);
    assert_eq!(indents, dedents);
    assert_eq!(k.last(), Some(&Token::Eof));
}

#[test]
fn lexes_escapes_and_colon_assign() {
    let tokens = Lexer::new("t.vg", "x := \"a\\n\\\"b\"\n").tokenize().expect("tokenize");
    let k = kinds(&tokens);
    assert_eq!(k[0], Token::Identifier("x".to_string()));
    assert_eq!(k[1], Token::ColonAssign);
    assert_eq!(k[2], Token::StringLiteral("a\n\"b".to_string()));
    assert_eq!(k[3], Token::Newline);
}

#[test]
fn reports_lex_errors() {
    let errors = Lexer::new("t.vg", "let x = \"open\n").tokenize().expect_err("unterminated");
    assert_eq!(errors[0].phase, vulgata::diagnostics::Phase::Lex);
    assert!(errors[0].message.contains("unterminated string literal"));
    let errors = Lexer::new("t.vg", "\tlet x = 1\n").tokenize().expect_err("tab");
    assert!(errors[0].message.contains("tab indentation"));
    let errors = Lexer::new("t.vg", "a:\n    b\n  c\n").tokenize().expect_err("mismatch");
    assert!(errors[0].message.contains("indentation does not match"));
    let errors = Lexer::new("t.vg", "let x = 99999999999999999999\n").tokenize().expect_err("big");
    assert_eq!(errors[0].span.column, 9);
    let errors = Lexer::new("t.vg", "let x = $\n").tokenize().expect_err("char");
    assert!(errors[0].message.contains("unexpected character `$`"));
}

#[test]
fn skips_comments_and_blank_lines_and_records_spans() {
    let tokens = Lexer::new("t.vg", "# comment\n\nlet a = 1 # tail\n").tokenize().expect("tokenize");
    assert_eq!(tokens[0].token, Token::Let);
    assert_eq!(tokens[0].span.line, 3);
    assert_eq!(tokens[0].span.column, 1);
    assert_eq!(tokens[0].span.path, "t.vg");
    assert_eq!(tokens[3].token, Token::IntLiteral(1));
    assert_eq!(tokens[3].span.column, 9);
    assert_eq!(tokens[4].token, Token::Newline);
    assert_eq!(tokens[4].span.column, 17);
}

#[test]
fn keywords_and_identifiers_are_distinguished() {
    let tokens = Lexer::new("t.vg", "match var input setx set\n").tokenize().expect("tokenize");
    let k = kinds(&tokens);
    assert_eq!(k[0], Token::Match);
    assert_eq!(k[1], Token::Var);
    assert_eq!(k[2], Token::Input);
    assert_eq!(k[3], Token::Identifier("setx".to_string()));
    assert_eq!(k[4], Token::Identifier("set".to_string()));
    assert!(Token::IntLiteral(1).same_variant(&Token::IntLiteral(2)));
    assert!(!Token::Less.same_variant(&Token::LessEqual));
}

#[test]
fn each_line_lexes_to_its_tokens_in_order() {
    let tokens = Lexer::new("test.vg", "x -> \"a\\tb\" 7 # note\n").tokenize().expect("tokenize");
    assert_eq!(
        kinds(&tokens),
        vec![
            Token::Identifier("x".to_string()),
            Token::Arrow,
            Token::StringLiteral("a\tb".to_string()),
            Token::IntLiteral(7),
            Token::Newline,
            Token::Eof,
        ]
    );
}

#[test]
fn lines_with_lexical_errors_are_refused() {
    assert!(Lexer::new("test.vg", "let x = 1\tend\n").tokenize().is_err());
    assert!(Lexer::new("test.vg", "let x = @\n").tokenize().is_err());
    assert!(Lexer::new("test.vg", "let x = \"open\n").tokenize().is_err());
    assert!(Lexer::new("test.vg", "let x = \"bad \\q escape\"\n").tokenize().is_err());
    assert!(Lexer::new("test.vg", "let x = 99999999999999999999\n").tokenize().is_err());
    assert!(Lexer::new("test.vg", "# only @ in a comment\n").tokenize().is_ok());
}
