use lib::lox::scanner::Scanner;
use lib::lox::token::TokenType;

#[test]
fn scanner_run_arithmetic() {
    let source = "1.2 + 3.8 == 5";
    let mut sc = Scanner::new(source);

    let tok = sc.scan_token();
    assert_eq!(TokenType::Number, tok.typ());
}

fn kinds(source: &str) -> Vec<TokenType> {
    let mut sc = Scanner::new(source);
    let mut out = Vec::new();
    loop {
        let tok = sc.scan_token();
        out.push(tok.typ());
        if tok.typ() == TokenType::Eof {
            break;
        }
    }
    out
}

#[test]
fn scanner_whole_expression() {
    assert_eq!(
        kinds("1.2 + 3.8 == 5"),
        vec![
            TokenType::Number,
            TokenType::Plus,
            TokenType::Number,
            TokenType::EqualEqual,
            TokenType::Number,
            TokenType::Eof
        ]
    );
}

#[test]
fn scanner_number_text() {
    let mut sc = Scanner::new("  12.5;");
    let tok = sc.scan_token();
    assert_eq!(tok.typ(), TokenType::Number);
    assert_eq!(tok.source, "12.5");
    assert_eq!(sc.scan_token().typ(), TokenType::SemiColon);
}

#[test]
fn scanner_keywords_and_identifiers() {
    assert_eq!(
        kinds("var fun_x = nil; and for orchid"),
        vec![
            TokenType::Var,
            TokenType::Identifier,
            TokenType::Equal,
            TokenType::Nil,
            TokenType::SemiColon,
            TokenType::And,
            TokenType::For,
            TokenType::Identifier,
            TokenType::Eof
        ]
    );
}

#[test]
fn scanner_string_and_lines() {
    let mut sc = Scanner::new("\"a\nb\" // note\n!= <= >");
    let s = sc.scan_token();
    assert_eq!(s.typ(), TokenType::String);
    assert_eq!(s.source, "\"a\nb\"");
    let t = sc.scan_token();
    assert_eq!(t.typ(), TokenType::BangEqual);
    assert_eq!(t.line, 2);
    assert_eq!(sc.scan_token().typ(), TokenType::LessEqual);
    assert_eq!(sc.scan_token().typ(), TokenType::Greater);
    assert_eq!(sc.scan_token().typ(), TokenType::Eof);
}

#[test]
fn scanner_unterminated_string_is_error() {
    let mut sc = Scanner::new("\"abc");
    let t = sc.scan_token();
    assert_eq!(t.typ(), TokenType::Error);
}

#[test]
fn scanner_unexpected_character_is_error() {
    let mut sc = Scanner::new("@");
    assert_eq!(sc.scan_token().typ(), TokenType::Error);
}

#[test]
fn scanner_classifies_characters() {
    assert!(Scanner::is_digit('7'));
    assert!(!Scanner::is_digit('a'));
    assert!(Scanner::is_alpha('_'));
    assert!(Scanner::is_alpha('Z'));
    assert!(!Scanner::is_alpha('9'));
}

#[test]
fn scanner_loop_and_return_keywords() {
    assert_eq!(
        kinds("or return super while orr whiles"),
        vec![
            TokenType::Or,
            TokenType::Return,
            TokenType::Super,
            TokenType::While,
            TokenType::Identifier,
            TokenType::Identifier,
            TokenType::Eof
        ]
    );
}

#[test]
fn scan_tokens_reads_to_the_end() {
    let mut sc = Scanner::new("var a = 1;");
    let toks = sc.scan_tokens().unwrap().unwrap();
    let kinds: Vec<TokenType> = toks.iter().map(|t| t.typ()).collect();
    assert_eq!(
        kinds,
        vec![
            TokenType::Var,
            TokenType::Identifier,
            TokenType::Equal,
            TokenType::Number,
            TokenType::SemiColon,
            TokenType::Eof
        ]
    );
    assert_eq!(toks[1].source, "a");
}

#[test]
fn scan_tokens_stops_at_an_error_or_a_lone_slash() {
    let mut sc = Scanner::new("a # b");
    let err = sc.scan_tokens().unwrap().unwrap_err();
    assert_eq!(err.typ(), TokenType::Error);
    assert_eq!(err.source, "Unexpected character");
    let mut sc = Scanner::new("a / b");
    assert!(sc.scan_tokens().is_none());
    let sc = Scanner::new("// note\n  1");
    assert!(sc.can_scan());
    let sc = Scanner::new("  /");
    assert!(!sc.can_scan());
}
