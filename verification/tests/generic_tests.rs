use seq_expand::generic::{try_extract_first_generic_param, try_extract_option, try_extract_vec};
use seq_expand::token::{Span, Token};

fn ident(name: &str, id: u32) -> Token {
    Token::Ident { name: String::from(name), span: Span { id } }
}

fn punct(ch: char, id: u32) -> Token {
    Token::Punct { ch, joint: false, span: Span { id } }
}

#[test]
fn unwraps_option_layer() {
    let tokens = vec![ident("Option", 1), punct('<', 2), ident("String", 3), punct('>', 4)];
    assert_eq!(try_extract_option(&tokens), Some(vec![ident("String", 3)]));
}

#[test]
fn unwraps_vec_layer() {
    let tokens = vec![ident("Vec", 1), punct('<', 2), ident("u8", 3), punct('>', 4)];
    assert_eq!(try_extract_vec(&tokens), Some(vec![ident("u8", 3)]));
}

#[test]
fn takes_first_argument_before_top_level_comma() {
    let name = String::from("Result");
    let tokens = vec![
        ident("Result", 1),
        punct('<', 2),
        ident("u8", 3),
        punct(',', 4),
        ident("String", 5),
        punct('>', 6),
    ];
    assert_eq!(
        try_extract_first_generic_param(&tokens, &name),
        Some(vec![ident("u8", 3)])
    );
}

#[test]
fn comma_inside_nested_angles_does_not_split() {
    let name = String::from("Option");
    // `Option<Result<u8, u16>>`
    let tokens = vec![
        ident("Option", 1),
        punct('<', 2),
        ident("Result", 3),
        punct('<', 4),
        ident("u8", 5),
        punct(',', 6),
        ident("u16", 7),
        punct('>', 8),
        punct('>', 9),
    ];
    assert_eq!(
        try_extract_first_generic_param(&tokens, &name),
        Some(vec![
            ident("Result", 3),
            punct('<', 4),
            ident("u8", 5),
            punct(',', 6),
            ident("u16", 7),
            punct('>', 8),
        ])
    );
}

#[test]
fn wrong_wrapper_name_gives_none() {
    let tokens = vec![ident("Option", 1), punct('<', 2), ident("u8", 3), punct('>', 4)];
    assert_eq!(try_extract_vec(&tokens), None);
}

#[test]
fn bare_type_gives_none() {
    let tokens = vec![ident("String", 1)];
    assert_eq!(try_extract_option(&tokens), None);
    assert_eq!(try_extract_vec(&tokens), None);
}

#[test]
fn missing_closing_angle_gives_none() {
    let tokens = vec![ident("Option", 1), punct('<', 2), ident("u8", 3), ident("x", 4)];
    assert_eq!(try_extract_option(&tokens), None);
}
