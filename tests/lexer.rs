use noq::lexer::{Lexer, Loc, Token, TokenKind};

fn lex(src: &str) -> Vec<Token> {
    let mut lexer = Lexer::from_iter(src.chars().collect());
    let mut out = Vec::new();
    while let Some(t) = lexer.next() {
        out.push(t);
    }
    out
}

#[test]
fn tokenizes_rule_source() {
    let tokens = lex("swap(a, b) = pair(b, a)");
    let kinds: Vec<TokenKind> = tokens.iter().map(|t| t.kind).collect();
    assert_eq!(
        kinds,
        vec![
            TokenKind::Sym,
            TokenKind::OpenParen,
            TokenKind::Sym,
            TokenKind::Comma,
            TokenKind::Sym,
            TokenKind::CloseParen,
            TokenKind::Equals,
            TokenKind::Sym,
            TokenKind::OpenParen,
            TokenKind::Sym,
            TokenKind::Comma,
            TokenKind::Sym,
            TokenKind::CloseParen,
            TokenKind::End
        ]
    );
    let texts: Vec<&str> = tokens.iter().map(|t| t.text.as_str()).collect();
    assert_eq!(texts, vec!["swap", "(", "a", ",", "b", ")", "=", "pair", "(", "b", ",", "a", ")", ""]);
    assert_eq!(tokens[2].loc.col, 5);
    assert_eq!(tokens[13].loc.col, 23);
}

#[test]
fn invalid_character_ends_stream() {
    let mut lexer = Lexer::from_iter("a+b".chars().collect());
    let a = lexer.next().unwrap();
    assert_eq!((a.kind, a.text.as_str()), (TokenKind::Sym, "a"));
    let plus = lexer.next().unwrap();
    assert_eq!((plus.kind, plus.text.as_str()), (TokenKind::Invalid, "+"));
    assert_eq!(plus.loc.col, 1);
    assert!(lexer.next().is_none());
    assert!(lexer.next().is_none());
}

#[test]
fn tracks_rows_and_columns() {
    let tokens = lex("a\nb");
    assert_eq!((tokens[0].loc.row, tokens[0].loc.col), (0, 0));
    assert_eq!((tokens[1].loc.row, tokens[1].loc.col), (1, 0));
    assert_eq!(tokens[2].kind, TokenKind::End);
    assert_eq!((tokens[2].loc.row, tokens[2].loc.col), (1, 1));
}

#[test]
fn columns_restart_after_each_newline() {
    let tokens = lex("  f\n\n   gx :");
    assert_eq!((tokens[0].loc.row, tokens[0].loc.col), (0, 2));
    assert_eq!(tokens[1].text, "gx");
    assert_eq!((tokens[1].loc.row, tokens[1].loc.col), (2, 3));
    assert_eq!(tokens[2].kind, TokenKind::Colon);
    assert_eq!((tokens[2].loc.row, tokens[2].loc.col), (2, 6));
}

#[test]
fn recognizes_keywords() {
    let kinds: Vec<TokenKind> = lex("rule shape apply done rules Done").iter().map(|t| t.kind).collect();
    assert_eq!(
        kinds,
        vec![
            TokenKind::Rule,
            TokenKind::Shape,
            TokenKind::Apply,
            TokenKind::Done,
            TokenKind::Sym,
            TokenKind::Sym,
            TokenKind::End
        ]
    );
}

#[test]
fn empty_input_gives_one_end_token() {
    let mut lexer = Lexer::from_iter(Vec::new());
    let end = lexer.next().unwrap();
    assert_eq!(end.kind, TokenKind::End);
    assert_eq!(end.text, "");
    assert_eq!((end.loc.row, end.loc.col), (0, 0));
    assert!(lexer.next().is_none());
}

#[test]
fn whitespace_only_input_gives_end_token() {
    let tokens = lex(" \t\n ");
    assert_eq!(tokens.len(), 1);
    assert_eq!(tokens[0].kind, TokenKind::End);
    assert_eq!((tokens[0].loc.row, tokens[0].loc.col), (1, 1));
}

#[test]
fn digits_and_letters_form_one_word() {
    let tokens = lex("x1y2 3z");
    assert_eq!(tokens[0].text, "x1y2");
    assert_eq!(tokens[1].text, "3z");
    assert_eq!(tokens[1].kind, TokenKind::Sym);
}

#[test]
fn file_path_is_carried_into_locations() {
    let mut lexer = Lexer::from_iter("a\n  b".chars().collect());
    lexer.set_file_path("rules.noq");
    let a = lexer.next().unwrap();
    let b = lexer.next().unwrap();
    assert_eq!(a.loc.file_path.as_deref(), Some("rules.noq"));
    assert_eq!(b.loc.render(), "rules.noq:1:2");
}

#[test]
fn location_text() {
    let with_file = Loc { file_path: Some("main.noq".to_string()), row: 12, col: 7 };
    assert_eq!(with_file.render(), "main.noq:12:7");
    let without = Loc { file_path: None, row: 0, col: 105 };
    assert_eq!(without.render(), "0:105");
}

#[test]
fn token_kind_names() {
    assert_eq!(TokenKind::Sym.name(), "symbol");
    assert_eq!(TokenKind::Rule.name(), "rule keyword");
    assert_eq!(TokenKind::Shape.name(), "shape keyword");
    assert_eq!(TokenKind::Apply.name(), "apply keyword");
    assert_eq!(TokenKind::Done.name(), "done keyword");
    assert_eq!(TokenKind::OpenParen.name(), "open paren");
    assert_eq!(TokenKind::CloseParen.name(), "close paren");
    assert_eq!(TokenKind::Comma.name(), "comma");
    assert_eq!(TokenKind::Equals.name(), "equals");
    assert_eq!(TokenKind::Colon.name(), "colon");
    assert_eq!(TokenKind::Invalid.name(), "invalid token");
    assert_eq!(TokenKind::End.name(), "end of input");
}

#[test]
fn classification_flags_drive_scanning() {
    let chars: Vec<char> = "a+b c".chars().collect();
    let white = vec![false, false, false, true, false];
    let alnum = vec![true, true, true, false, true];
    let mut lexer = Lexer::from_classified(chars, white, alnum);
    let word = lexer.next().unwrap();
    assert_eq!((word.kind, word.text.as_str()), (TokenKind::Sym, "a+b"));
    let c = lexer.next().unwrap();
    assert_eq!((c.text.as_str(), c.loc.col), ("c", 4));
    assert_eq!(lexer.next().unwrap().kind, TokenKind::End);
    assert!(lexer.next().is_none());
}

#[test]
fn non_ascii_letters_form_words_and_symbols_are_invalid() {
    let tokens = lex("λx é→y");
    assert_eq!(tokens[0].text, "λx");
    assert_eq!(tokens[1].text, "é");
    assert_eq!(tokens[2].kind, TokenKind::Invalid);
    assert_eq!(tokens[2].text, "→");
    assert_eq!(tokens[2].loc.col, 4);
    assert_eq!(tokens.len(), 3);
}
