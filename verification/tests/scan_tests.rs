use seq_expand::scan::{find_repeat_section, Segment};
use seq_expand::token::{Delim, Span, Token};

fn ident(name: &str, id: u32) -> Token {
    Token::Ident { name: String::from(name), span: Span { id } }
}

fn punct(ch: char, id: u32) -> Token {
    Token::Punct { ch, joint: false, span: Span { id } }
}

fn group(delim: Delim, tokens: Vec<Token>, id: u32) -> Token {
    Token::Group { delim, tokens, span: Span { id } }
}

#[test]
fn body_without_marker_is_one_verbatim_segment() {
    let body = vec![ident("a", 1), punct(';', 2), ident("b", 3)];
    let (found, segs) = find_repeat_section(&body);
    assert!(!found);
    assert_eq!(segs, vec![Segment::Normal(body)]);
}

#[test]
fn empty_body_yields_no_segments() {
    let body: Vec<Token> = vec![];
    let (found, segs) = find_repeat_section(&body);
    assert!(!found);
    assert_eq!(segs, vec![]);
}

#[test]
fn marker_with_prefix_and_suffix() {
    let body = vec![
        ident("a", 1),
        punct('#', 2),
        group(Delim::Paren, vec![ident("N", 3)], 4),
        punct('*', 5),
        ident("b", 6),
    ];
    let (found, segs) = find_repeat_section(&body);
    assert!(found);
    assert_eq!(
        segs,
        vec![
            Segment::Normal(vec![ident("a", 1)]),
            Segment::Repeat(vec![ident("N", 3)]),
            Segment::Normal(vec![ident("b", 6)]),
        ]
    );
}

#[test]
fn hash_then_brace_group_is_no_marker() {
    let body = vec![
        punct('#', 1),
        group(Delim::Brace, vec![ident("x", 2)], 3),
        punct('*', 4),
    ];
    let (found, segs) = find_repeat_section(&body);
    assert!(!found);
    assert_eq!(
        segs,
        vec![Segment::Normal(vec![
            punct('#', 1),
            group(Delim::Brace, vec![ident("x", 2)], 3),
            punct('*', 4),
        ])]
    );
}

#[test]
fn stale_candidate_is_flushed_without_parentheses() {
    let body = vec![
        punct('#', 1),
        group(Delim::Paren, vec![ident("a", 2), ident("b", 3)], 4),
        ident("c", 5),
    ];
    let (found, segs) = find_repeat_section(&body);
    assert!(!found);
    assert_eq!(
        segs,
        vec![Segment::Normal(vec![
            punct('#', 1),
            ident("a", 2),
            ident("b", 3),
            ident("c", 5),
        ])]
    );
}

#[test]
fn double_hash_keeps_first_and_forms_marker_with_second() {
    let body = vec![
        punct('#', 1),
        punct('#', 2),
        group(Delim::Paren, vec![ident("N", 3)], 4),
        punct('*', 5),
    ];
    let (found, segs) = find_repeat_section(&body);
    assert!(found);
    assert_eq!(
        segs,
        vec![
            Segment::Normal(vec![punct('#', 1)]),
            Segment::Repeat(vec![ident("N", 3)]),
        ]
    );
}

#[test]
fn marker_nested_in_group_is_spliced() {
    let body = vec![
        ident("x", 1),
        group(
            Delim::Bracket,
            vec![
                punct('#', 2),
                group(Delim::Paren, vec![ident("N", 3)], 4),
                punct('*', 5),
                ident("y", 6),
            ],
            7,
        ),
        ident("z", 8),
    ];
    let (found, segs) = find_repeat_section(&body);
    assert!(found);
    assert_eq!(
        segs,
        vec![
            Segment::Normal(vec![ident("x", 1)]),
            Segment::Repeat(vec![ident("N", 3)]),
            Segment::Normal(vec![ident("y", 6)]),
            Segment::Normal(vec![ident("z", 8)]),
        ]
    );
}

#[test]
fn star_without_pending_candidate_is_verbatim() {
    let body = vec![punct('*', 1), ident("a", 2)];
    let (found, segs) = find_repeat_section(&body);
    assert!(!found);
    assert_eq!(segs, vec![Segment::Normal(vec![punct('*', 1), ident("a", 2)])]);
}
