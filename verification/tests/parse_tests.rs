use seq_expand::parse::{braced_body, parse_header, ErrKind};
use seq_expand::token::{Delim, Span, Token};

fn ident(name: &str, id: u32) -> Token {
    Token::Ident { name: String::from(name), span: Span { id } }
}

fn lit(text: &str, id: u32) -> Token {
    Token::Literal { text: String::from(text), span: Span { id } }
}

fn punct(ch: char, joint: bool, id: u32) -> Token {
    Token::Punct { ch, joint, span: Span { id } }
}

fn group(delim: Delim, tokens: Vec<Token>, id: u32) -> Token {
    Token::Group { delim, tokens, span: Span { id } }
}

fn site() -> Span {
    Span { id: 0 }
}

fn header_tokens(name: &str, start: &str, end: &str) -> Vec<Token> {
    vec![
        ident(name, 1),
        ident("in", 2),
        lit(start, 3),
        punct('.', true, 4),
        punct('.', false, 5),
        lit(end, 6),
    ]
}

#[test]
fn parses_well_formed_header() {
    let tokens = header_tokens("N", "0", "5");
    let h = parse_header(&tokens, site()).unwrap();
    assert_eq!(h.name, "N");
    assert_eq!(h.name_span, Span { id: 1 });
    assert_eq!(h.start, 0);
    assert_eq!(h.end, 5);
}

#[test]
fn accepts_leading_zeros() {
    let tokens = header_tokens("N", "007", "010");
    let h = parse_header(&tokens, site()).unwrap();
    assert_eq!(h.start, 7);
    assert_eq!(h.end, 10);
}

#[test]
fn accepts_largest_i32_bound() {
    let tokens = header_tokens("N", "0", "2147483647");
    let h = parse_header(&tokens, site()).unwrap();
    assert_eq!(h.end, 2147483647);
}

#[test]
fn missing_in_keyword_is_malformed_header() {
    // `X 0..5 { }` — the keyword `in` is missing.
    let tokens = vec![
        ident("X", 1),
        lit("0", 2),
        punct('.', true, 3),
        punct('.', false, 4),
        lit("5", 5),
        group(Delim::Brace, vec![], 6),
    ];
    let e = parse_header(&tokens, site()).unwrap_err();
    assert_eq!(e.kind, ErrKind::MalformedHeader);
    assert_eq!(e.span, Span { id: 2 });
}

#[test]
fn non_integer_bound_is_malformed_header() {
    // `N in five..10 {}` — the first bound is an identifier, not a literal.
    let tokens = vec![
        ident("N", 1),
        ident("in", 2),
        ident("five", 3),
        punct('.', true, 4),
        punct('.', false, 5),
        lit("10", 6),
        group(Delim::Brace, vec![], 7),
    ];
    let e = parse_header(&tokens, site()).unwrap_err();
    assert_eq!(e.kind, ErrKind::MalformedHeader);
    assert_eq!(e.span, Span { id: 3 });
}

#[test]
fn missing_body_after_header() {
    // `N in 0..5` with nothing after the header.
    let tokens = header_tokens("N", "0", "5");
    assert!(parse_header(&tokens, site()).is_ok());
    let e = braced_body(&tokens, 6, site()).unwrap_err();
    assert_eq!(e.kind, ErrKind::MissingBody);
    assert_eq!(e.span, site());
}

#[test]
fn non_brace_group_is_missing_body() {
    let mut tokens = header_tokens("N", "0", "5");
    tokens.push(group(Delim::Paren, vec![], 9));
    let e = braced_body(&tokens, 6, site()).unwrap_err();
    assert_eq!(e.kind, ErrKind::MissingBody);
    assert_eq!(e.span, Span { id: 9 });
}

#[test]
fn non_group_body_token_is_missing_body() {
    let mut tokens = header_tokens("N", "0", "5");
    tokens.push(ident("x", 9));
    let e = braced_body(&tokens, 6, site()).unwrap_err();
    assert_eq!(e.kind, ErrKind::MissingBody);
    assert_eq!(e.span, Span { id: 9 });
}

#[test]
fn brace_body_contents_are_returned() {
    let mut tokens = header_tokens("N", "0", "5");
    tokens.push(group(Delim::Brace, vec![ident("x", 10)], 9));
    let body = braced_body(&tokens, 6, site()).unwrap();
    assert_eq!(*body, vec![ident("x", 10)]);
}

#[test]
fn empty_input_is_unexpected_eof() {
    let tokens: Vec<Token> = vec![];
    let e = parse_header(&tokens, site()).unwrap_err();
    assert_eq!(e.kind, ErrKind::UnexpectedEof);
    assert_eq!(e.span, site());
}

#[test]
fn truncated_header_is_unexpected_eof() {
    let tokens = vec![ident("N", 1), ident("in", 2), lit("0", 3)];
    let e = parse_header(&tokens, site()).unwrap_err();
    assert_eq!(e.kind, ErrKind::UnexpectedEof);
}

#[test]
fn single_dot_then_wrong_token_is_malformed() {
    let tokens = vec![
        ident("N", 1),
        ident("in", 2),
        lit("0", 3),
        punct('.', true, 4),
        lit("5", 5),
        lit("9", 6),
    ];
    let e = parse_header(&tokens, site()).unwrap_err();
    assert_eq!(e.kind, ErrKind::MalformedHeader);
    assert_eq!(e.span, Span { id: 5 });
}

#[test]
fn out_of_range_bound_is_malformed_header() {
    let tokens = header_tokens("N", "0", "2147483648");
    let e = parse_header(&tokens, site()).unwrap_err();
    assert_eq!(e.kind, ErrKind::MalformedHeader);
    assert_eq!(e.span, Span { id: 6 });
}

#[test]
fn suffixed_literal_is_malformed_header() {
    let tokens = header_tokens("N", "0", "5i32");
    let e = parse_header(&tokens, site()).unwrap_err();
    assert_eq!(e.kind, ErrKind::MalformedHeader);
}

#[test]
fn hex_literal_is_malformed_header() {
    let tokens = header_tokens("N", "0x1F", "5");
    let e = parse_header(&tokens, site()).unwrap_err();
    assert_eq!(e.kind, ErrKind::MalformedHeader);
    assert_eq!(e.span, Span { id: 3 });
}
