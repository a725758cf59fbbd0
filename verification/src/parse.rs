//! The header parser and the body locator. The header has the fixed shape
//! `<identifier> in <integer> . . <integer>` — six tokens, with the range
//! operator arriving as two separate `.` punctuation tokens — and the body is
//! the single brace-delimited group that follows it. Any deviation is a
//! structured diagnostic carrying the offending span and an expectation
//! message.

use vstd::prelude::*;

use crate::num::{dec_val, lit_ok, parse_dec_i32};
use crate::token::{
    lemma_toks_view_index, lemma_toks_view_len, tok_span, tok_view, toks_view, Delim, Span, Tok,
    Token,
};

verus! {

/// Why a parse failed: a header token out of shape, no brace-delimited body,
/// or input exhausted inside the header.
#[derive(Clone, Copy, Debug, PartialEq, Eq, Structural)]
pub enum ErrKind {
    MalformedHeader,
    MissingBody,
    UnexpectedEof,
}

/// A parse diagnostic: what went wrong, where, and what was expected.
#[derive(Clone, Copy, Debug, PartialEq, Eq)]
pub struct ParseError {
    pub kind: ErrKind,
    pub span: Span,
    pub msg: &'static str,
}

/// The model of a parse diagnostic.
pub struct ErrModel {
    pub kind: ErrKind,
    pub span: Span,
    pub msg: Seq<char>,
}

/// The model of one diagnostic.
pub open spec fn err_view(e: ParseError) -> ErrModel {
    ErrModel { kind: e.kind, span: e.span, msg: e.msg@ }
}

/// A parsed header: the placeholder identifier, its span, and the iteration
/// range, `start` inclusive and `end` exclusive. An empty range (`start` not
/// below `end`) is legal and yields zero iterations.
#[derive(Debug, PartialEq, Eq)]
pub struct Header {
    pub name: String,
    pub name_span: Span,
    pub start: i32,
    pub end: i32,
}

/// The model of a header.
pub struct HeaderModel {
    pub name: Seq<char>,
    pub name_span: Span,
    pub start: int,
    pub end: int,
}

/// The model of one header.
pub open spec fn header_view(h: Header) -> HeaderModel {
    HeaderModel { name: h.name@, name_span: h.name_span, start: h.start as int, end: h.end as int }
}

/// The diagnostic for input that ends inside the header.
pub open spec fn eof_err(site: Span) -> ErrModel {
    ErrModel { kind: ErrKind::UnexpectedEof, span: site, msg: "unexpected end of input"@ }
}

/// Whether `t` is the keyword `in`.
pub open spec fn is_kw_in(t: Tok) -> bool {
    t is Ident && t->Ident_name == "in"@
}

/// Whether `t` is a `.` punctuation token, joint or not.
pub open spec fn is_dot(t: Tok) -> bool {
    t is Punct && t->Punct_ch == '.'
}

/// Whether `t` is a literal accepted as a range bound: base-10 digits whose
/// value fits in `i32`.
pub open spec fn is_int_lit(t: Tok) -> bool {
    t is Literal && lit_ok(t->Literal_text)
}

/// The header parser: six tokens, checked left to right, each failure
/// reported at the first offending token. Exhausted input is
/// `UnexpectedEof` at the caller's site span; a token of the wrong shape is
/// `MalformedHeader` at that token's span.
pub open spec fn spec_parse_header(ts: Seq<Tok>, site: Span) -> Result<HeaderModel, ErrModel> {
    if ts.len() < 1 {
        Err(eof_err(site))
    } else if !(ts[0] is Ident) {
        Err(
            ErrModel {
                kind: ErrKind::MalformedHeader,
                span: tok_span(ts[0]),
                msg: "expected an identifier"@,
            },
        )
    } else if ts.len() < 2 {
        Err(eof_err(site))
    } else if !is_kw_in(ts[1]) {
        Err(
            ErrModel {
                kind: ErrKind::MalformedHeader,
                span: tok_span(ts[1]),
                msg: "expected the keyword `in`"@,
            },
        )
    } else if ts.len() < 3 {
        Err(eof_err(site))
    } else if !is_int_lit(ts[2]) {
        Err(
            ErrModel {
                kind: ErrKind::MalformedHeader,
                span: tok_span(ts[2]),
                msg: "expected a base-10 integer literal"@,
            },
        )
    } else if ts.len() < 4 {
        Err(eof_err(site))
    } else if !is_dot(ts[3]) {
        Err(
            ErrModel {
                kind: ErrKind::MalformedHeader,
                span: tok_span(ts[3]),
                msg: "expected `.`"@,
            },
        )
    } else if ts.len() < 5 {
        Err(eof_err(site))
    } else if !is_dot(ts[4]) {
        Err(
            ErrModel {
                kind: ErrKind::MalformedHeader,
                span: tok_span(ts[4]),
                msg: "expected `.`"@,
            },
        )
    } else if ts.len() < 6 {
        Err(eof_err(site))
    } else if !is_int_lit(ts[5]) {
        Err(
            ErrModel {
                kind: ErrKind::MalformedHeader,
                span: tok_span(ts[5]),
                msg: "expected a base-10 integer literal"@,
            },
        )
    } else {
        Ok(
            HeaderModel {
                name: ts[0]->Ident_name,
                name_span: tok_span(ts[0]),
                start: dec_val(ts[2]->Literal_text),
                end: dec_val(ts[5]->Literal_text),
            },
        )
    }
}

/// The body locator: the token at `i`, the first past the header, must be a
/// brace-delimited group; its contents are the body. Anything else — no
/// token, a non-group, a group with another delimiter — is `MissingBody`.
pub open spec fn spec_braced_body(ts: Seq<Tok>, i: int, site: Span) -> Result<Seq<Tok>, ErrModel> {
    if ts.len() <= i {
        Err(
            ErrModel {
                kind: ErrKind::MissingBody,
                span: site,
                msg: "expected a brace-delimited block"@,
            },
        )
    } else if ts[i] is Group && ts[i]->Group_delim == Delim::Brace {
        Ok(ts[i]->Group_tokens)
    } else {
        Err(
            ErrModel {
                kind: ErrKind::MissingBody,
                span: tok_span(ts[i]),
                msg: "expected a brace-delimited block"@,
            },
        )
    }
}

/// Reads the placeholder identifier at position `i`.
fn parse_header_name(tokens: &Vec<Token>, i: usize, site: Span) -> (r: Result<
    (String, Span),
    ParseError,
>)
    ensures
        ({
            let m = toks_view(tokens@);
            match r {
                Ok(p) => {
                    &&& i < m.len()
                    &&& m[i as int] is Ident
                    &&& p.0@ == m[i as int]->Ident_name
                    &&& p.1 == tok_span(m[i as int])
                },
                Err(e) => {
                    if i >= m.len() {
                        err_view(e) == eof_err(site)
                    } else {
                        &&& !(m[i as int] is Ident)
                        &&& err_view(e) == ErrModel {
                            kind: ErrKind::MalformedHeader,
                            span: tok_span(m[i as int]),
                            msg: "expected an identifier"@,
                        }
                    }
                },
            }
        }),
{
    broadcast use lemma_toks_view_len, lemma_toks_view_index;

    if i >= tokens.len() {
        return Err(
            ParseError { kind: ErrKind::UnexpectedEof, span: site, msg: "unexpected end of input" },
        );
    }
    match &tokens[i] {
        Token::Ident { name, span } => Ok((name.clone(), *span)),
        Token::Group { span, .. } => Err(
            ParseError { kind: ErrKind::MalformedHeader, span: *span, msg: "expected an identifier" },
        ),
        Token::Literal { span, .. } => Err(
            ParseError { kind: ErrKind::MalformedHeader, span: *span, msg: "expected an identifier" },
        ),
        Token::Punct { span, .. } => Err(
            ParseError { kind: ErrKind::MalformedHeader, span: *span, msg: "expected an identifier" },
        ),
    }
}

/// Reads the keyword `in` at position `i`.
fn parse_token_in(tokens: &Vec<Token>, i: usize, site: Span) -> (r: Result<(), ParseError>)
    ensures
        ({
            let m = toks_view(tokens@);
            match r {
                Ok(u) => i < m.len() && is_kw_in(m[i as int]),
                Err(e) => {
                    if i >= m.len() {
                        err_view(e) == eof_err(site)
                    } else {
                        &&& !is_kw_in(m[i as int])
                        &&& err_view(e) == ErrModel {
                            kind: ErrKind::MalformedHeader,
                            span: tok_span(m[i as int]),
                            msg: "expected the keyword `in`"@,
                        }
                    }
                },
            }
        }),
{
    broadcast use lemma_toks_view_len, lemma_toks_view_index;

    if i >= tokens.len() {
        return Err(
            ParseError { kind: ErrKind::UnexpectedEof, span: site, msg: "unexpected end of input" },
        );
    }
    let kw = String::from_str("in");
    match &tokens[i] {
        Token::Ident { name, span } => {
            if *name == kw {
                Ok(())
            } else {
                Err(
                    ParseError {
                        kind: ErrKind::MalformedHeader,
                        span: *span,
                        msg: "expected the keyword `in`",
                    },
                )
            }
        },
        Token::Group { span, .. } => Err(
            ParseError {
                kind: ErrKind::MalformedHeader,
                span: *span,
                msg: "expected the keyword `in`",
            },
        ),
        Token::Literal { span, .. } => Err(
            ParseError {
                kind: ErrKind::MalformedHeader,
                span: *span,
                msg: "expected the keyword `in`",
            },
        ),
        Token::Punct { span, .. } => Err(
            ParseError {
                kind: ErrKind::MalformedHeader,
                span: *span,
                msg: "expected the keyword `in`",
            },
        ),
    }
}

/// Reads one `.` of the range operator at position `i`. The host's lexer
/// hands `..` over as two adjacent `.` tokens, so each is read on its own,
/// joint or not.
fn parse_token_dot(tokens: &Vec<Token>, i: usize, site: Span) -> (r: Result<(), ParseError>)
    ensures
        ({
            let m = toks_view(tokens@);
            match r {
                Ok(u) => i < m.len() && is_dot(m[i as int]),
                Err(e) => {
                    if i >= m.len() {
                        err_view(e) == eof_err(site)
                    } else {
                        &&& !is_dot(m[i as int])
                        &&& err_view(e) == ErrModel {
                            kind: ErrKind::MalformedHeader,
                            span: tok_span(m[i as int]),
                            msg: "expected `.`"@,
                        }
                    }
                },
            }
        }),
{
    broadcast use lemma_toks_view_len, lemma_toks_view_index;

    if i >= tokens.len() {
        return Err(
            ParseError { kind: ErrKind::UnexpectedEof, span: site, msg: "unexpected end of input" },
        );
    }
    match &tokens[i] {
        Token::Punct { ch, span, .. } => {
            if *ch == '.' {
                Ok(())
            } else {
                Err(ParseError { kind: ErrKind::MalformedHeader, span: *span, msg: "expected `.`" })
            }
        },
        Token::Group { span, .. } => Err(
            ParseError { kind: ErrKind::MalformedHeader, span: *span, msg: "expected `.`" },
        ),
        Token::Ident { span, .. } => Err(
            ParseError { kind: ErrKind::MalformedHeader, span: *span, msg: "expected `.`" },
        ),
        Token::Literal { span, .. } => Err(
            ParseError { kind: ErrKind::MalformedHeader, span: *span, msg: "expected `.`" },
        ),
    }
}

/// Reads a range bound at position `i`: a literal of base-10 digits whose
/// value fits in `i32`.
fn parse_header_lit(tokens: &Vec<Token>, i: usize, site: Span) -> (r: Result<i32, ParseError>)
    ensures
        ({
            let m = toks_view(tokens@);
            match r {
                Ok(v) => {
                    &&& i < m.len()
                    &&& is_int_lit(m[i as int])
                    &&& v as int == dec_val(m[i as int]->Literal_text)
                },
                Err(e) => {
                    if i >= m.len() {
                        err_view(e) == eof_err(site)
                    } else {
                        &&& !is_int_lit(m[i as int])
                        &&& err_view(e) == ErrModel {
                            kind: ErrKind::MalformedHeader,
                            span: tok_span(m[i as int]),
                            msg: "expected a base-10 integer literal"@,
                        }
                    }
                },
            }
        }),
{
    broadcast use lemma_toks_view_len, lemma_toks_view_index;

    if i >= tokens.len() {
        return Err(
            ParseError { kind: ErrKind::UnexpectedEof, span: site, msg: "unexpected end of input" },
        );
    }
    match &tokens[i] {
        Token::Literal { text, span } => {
            match parse_dec_i32(text.as_str()) {
                Some(v) => Ok(v),
                None => Err(
                    ParseError {
                        kind: ErrKind::MalformedHeader,
                        span: *span,
                        msg: "expected a base-10 integer literal",
                    },
                ),
            }
        },
        Token::Group { span, .. } => Err(
            ParseError {
                kind: ErrKind::MalformedHeader,
                span: *span,
                msg: "expected a base-10 integer literal",
            },
        ),
        Token::Ident { span, .. } => Err(
            ParseError {
                kind: ErrKind::MalformedHeader,
                span: *span,
                msg: "expected a base-10 integer literal",
            },
        ),
        Token::Punct { span, .. } => Err(
            ParseError {
                kind: ErrKind::MalformedHeader,
                span: *span,
                msg: "expected a base-10 integer literal",
            },
        ),
    }
}

/// Parses the fixed-shape header at the front of `tokens`. On success the
/// first six tokens were the placeholder, `in`, and the two range bounds
/// around the two-token range operator; on failure the diagnostic points at
/// the first offending token, or carries `site` when the input ended early.
pub fn parse_header(tokens: &Vec<Token>, site: Span) -> (r: Result<Header, ParseError>)
    ensures
        ({
            let s = spec_parse_header(toks_view(tokens@), site);
            match r {
                Ok(h) => s is Ok && header_view(h) == s->Ok_0,
                Err(e) => s is Err && err_view(e) == s->Err_0,
            }
        }),
{
    broadcast use lemma_toks_view_len, lemma_toks_view_index;

    let (name, name_span) = match parse_header_name(tokens, 0, site) {
        Ok(p) => p,
        Err(e) => return Err(e),
    };
    match parse_token_in(tokens, 1, site) {
        Ok(u) => {},
        Err(e) => return Err(e),
    }
    let start = match parse_header_lit(tokens, 2, site) {
        Ok(v) => v,
        Err(e) => return Err(e),
    };
    match parse_token_dot(tokens, 3, site) {
        Ok(u) => {},
        Err(e) => return Err(e),
    }
    match parse_token_dot(tokens, 4, site) {
        Ok(u) => {},
        Err(e) => return Err(e),
    }
    let end = match parse_header_lit(tokens, 5, site) {
        Ok(v) => v,
        Err(e) => return Err(e),
    };
    Ok(Header { name, name_span, start, end })
}

/// Returns the contents of the brace-delimited body group at position `i`,
/// the first token past the header.
pub fn braced_body<'a>(tokens: &'a Vec<Token>, i: usize, site: Span) -> (r: Result<
    &'a Vec<Token>,
    ParseError,
>)
    ensures
        ({
            let s = spec_braced_body(toks_view(tokens@), i as int, site);
            match r {
                Ok(b) => s is Ok && toks_view(b@) == s->Ok_0,
                Err(e) => s is Err && err_view(e) == s->Err_0,
            }
        }),
{
    broadcast use lemma_toks_view_len, lemma_toks_view_index;

    if i >= tokens.len() {
        return Err(
            ParseError {
                kind: ErrKind::MissingBody,
                span: site,
                msg: "expected a brace-delimited block",
            },
        );
    }
    match &tokens[i] {
        Token::Group { delim, tokens: inner, span } => {
            if *delim == Delim::Brace {
                Ok(inner)
            } else {
                Err(
                    ParseError {
                        kind: ErrKind::MissingBody,
                        span: *span,
                        msg: "expected a brace-delimited block",
                    },
                )
            }
        },
        Token::Ident { span, .. } => Err(
            ParseError {
                kind: ErrKind::MissingBody,
                span: *span,
                msg: "expected a brace-delimited block",
            },
        ),
        Token::Literal { span, .. } => Err(
            ParseError {
                kind: ErrKind::MissingBody,
                span: *span,
                msg: "expected a brace-delimited block",
            },
        ),
        Token::Punct { span, .. } => Err(
            ParseError {
                kind: ErrKind::MissingBody,
                span: *span,
                msg: "expected a brace-delimited block",
            },
        ),
    }
}

} // verus!
