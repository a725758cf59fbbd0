use seq_expand::process::process;
use seq_expand::token::{Delim, Span, Token};

fn ident(name: &str, id: u32) -> Token {
    Token::Ident { name: String::from(name), span: Span { id } }
}

fn lit(text: &str, id: u32) -> Token {
    Token::Literal { text: String::from(text), span: Span { id } }
}

fn punct(ch: char, joint: bool, id: u32) -> Token {
    Token::Punct { ch, joint, span: Span { id } }
}

fn group(delim: Delim, tokens: Vec<Token>, id: u32) -> Token {
    Token::Group { delim, tokens, span: Span { id } }
}

fn site() -> Span {
    Span { id: 0 }
}

/// `name in start..end { body }`, with fixed span ids 1..=6 for the header
/// and 100 for the body group.
fn invocation(name: &str, start: &str, end: &str, body: Vec<Token>) -> Vec<Token> {
    vec![
        ident(name, 1),
        ident("in", 2),
        lit(start, 3),
        punct('.', true, 4),
        punct('.', false, 5),
        lit(end, 6),
        group(Delim::Brace, body, 100),
    ]
}

#[test]
fn empty_range_uniform_body_gives_empty_output() {
    let input = invocation(
        "N",
        "3",
        "3",
        vec![ident("fn", 10), ident("N", 11), lit("1", 12)],
    );
    let out = process(&input, site()).unwrap();
    assert_eq!(out, vec![]);
}

#[test]
fn uniform_mode_repeats_whole_body_per_value() {
    let input = invocation("N", "1", "3", vec![ident("N", 10), punct(',', false, 11)]);
    let out = process(&input, site()).unwrap();
    assert_eq!(
        out,
        vec![lit("1", 10), punct(',', false, 11), lit("2", 10), punct(',', false, 11)]
    );
}

#[test]
fn end_to_end_three_functions() {
    // `N in 0..3 { fn f#N() -> i32 { N } }`
    let body = vec![
        ident("fn", 10),
        ident("f", 11),
        punct('#', false, 12),
        ident("N", 13),
        group(Delim::Paren, vec![], 14),
        punct('-', true, 15),
        punct('>', false, 16),
        ident("i32", 17),
        group(Delim::Brace, vec![ident("N", 18)], 19),
    ];
    let input = invocation("N", "0", "3", body);
    let out = process(&input, site()).unwrap();
    let expected_for = |v: &str| {
        vec![
            ident("fn", 10),
            ident(&format!("f{}", v), 11),
            group(Delim::Paren, vec![], 14),
            punct('-', true, 15),
            punct('>', false, 16),
            ident("i32", 17),
            group(Delim::Brace, vec![lit(v, 18)], 19),
        ]
    };
    let mut expected = expected_for("0");
    expected.extend(expected_for("1"));
    expected.extend(expected_for("2"));
    assert_eq!(out, expected);
}

#[test]
fn marker_repeats_only_marked_section() {
    // `N in 0..2 { before #( N , )* after }`
    let body = vec![
        ident("before", 10),
        punct('#', false, 11),
        group(Delim::Paren, vec![ident("N", 12), punct(',', false, 13)], 14),
        punct('*', false, 15),
        ident("after", 16),
    ];
    let input = invocation("N", "0", "2", body);
    let out = process(&input, site()).unwrap();
    assert_eq!(
        out,
        vec![
            ident("before", 10),
            lit("0", 12),
            punct(',', false, 13),
            lit("1", 12),
            punct(',', false, 13),
            ident("after", 16),
        ]
    );
}

#[test]
fn verbatim_sections_are_emitted_once_even_for_empty_range() {
    let body = vec![
        ident("a", 10),
        punct('#', false, 11),
        group(Delim::Paren, vec![ident("N", 12)], 13),
        punct('*', false, 14),
        ident("b", 15),
    ];
    let input = invocation("N", "5", "5", body);
    let out = process(&input, site()).unwrap();
    assert_eq!(out, vec![ident("a", 10), ident("b", 15)]);
}

#[test]
fn two_markers_are_both_repeated() {
    let body = vec![
        punct('#', false, 10),
        group(Delim::Paren, vec![ident("N", 11)], 12),
        punct('*', false, 13),
        punct(';', false, 14),
        punct('#', false, 15),
        group(Delim::Paren, vec![ident("g", 16), punct('#', false, 17), ident("N", 18)], 19),
        punct('*', false, 20),
    ];
    let input = invocation("N", "0", "2", body);
    let out = process(&input, site()).unwrap();
    assert_eq!(
        out,
        vec![
            lit("0", 11),
            lit("1", 11),
            punct(';', false, 14),
            ident("g0", 16),
            ident("g1", 16),
        ]
    );
}

#[test]
fn marker_inside_group_is_found_and_spliced() {
    // The group around the marker is dropped when its segments are spliced.
    let body = vec![group(
        Delim::Bracket,
        vec![
            ident("x", 10),
            punct('#', false, 11),
            group(Delim::Paren, vec![ident("N", 12)], 13),
            punct('*', false, 14),
        ],
        15,
    )];
    let input = invocation("N", "0", "2", body);
    let out = process(&input, site()).unwrap();
    assert_eq!(out, vec![ident("x", 10), lit("0", 12), lit("1", 12)]);
}

#[test]
fn group_without_marker_stays_one_verbatim_token() {
    let body = vec![group(Delim::Bracket, vec![ident("N", 10)], 11)];
    let input = invocation("N", "0", "2", body);
    let out = process(&input, site()).unwrap();
    // Uniform mode: the group is expanded per value, nesting kept.
    assert_eq!(
        out,
        vec![
            group(Delim::Bracket, vec![lit("0", 10)], 11),
            group(Delim::Bracket, vec![lit("1", 10)], 11),
        ]
    );
}

#[test]
fn hash_without_group_and_star_is_verbatim() {
    // `# N` holds no marker: uniform mode substitutes the placeholder and
    // keeps the `#`.
    let body = vec![punct('#', false, 10), ident("N", 11)];
    let input = invocation("N", "0", "1", body);
    let out = process(&input, site()).unwrap();
    assert_eq!(out, vec![punct('#', false, 10), lit("0", 11)]);
}

#[test]
fn stale_hash_group_without_star_flushes_contents() {
    // `#(a) b` has no `*`: the scanner flushes the `#` and the group's
    // contents (the parentheses are dropped) and no marker is found, so the
    // body that reaches uniform mode is the flushed form... but a marker in
    // a later position still decides marked mode.
    let body = vec![
        punct('#', false, 10),
        group(Delim::Paren, vec![ident("a", 11)], 12),
        ident("b", 13),
        punct('#', false, 14),
        group(Delim::Paren, vec![ident("N", 15)], 16),
        punct('*', false, 17),
    ];
    let input = invocation("N", "0", "2", body);
    let out = process(&input, site()).unwrap();
    assert_eq!(
        out,
        vec![
            punct('#', false, 10),
            ident("a", 11),
            ident("b", 13),
            lit("0", 15),
            lit("1", 15),
        ]
    );
}

#[test]
fn empty_body_with_nonempty_range_gives_empty_output() {
    let input = invocation("N", "0", "5", vec![]);
    let out = process(&input, site()).unwrap();
    assert_eq!(out, vec![]);
}

#[test]
fn reversed_range_gives_empty_output() {
    let input = invocation("N", "5", "0", vec![ident("N", 10)]);
    let out = process(&input, site()).unwrap();
    assert_eq!(out, vec![]);
}

#[test]
fn tokens_after_body_are_ignored() {
    let mut input = invocation("N", "0", "1", vec![ident("N", 10)]);
    input.push(ident("trailing", 20));
    let out = process(&input, site()).unwrap();
    assert_eq!(out, vec![lit("0", 10)]);
}

#[test]
fn process_reports_header_error() {
    let input = vec![lit("1", 1)];
    let e = process(&input, site()).unwrap_err();
    assert_eq!(e.kind, seq_expand::parse::ErrKind::MalformedHeader);
    assert_eq!(e.span, Span { id: 1 });
}
