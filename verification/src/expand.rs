//! The substitution engine: one pass over a token sequence replaces every
//! free-standing occurrence of the placeholder identifier by the rendered
//! iteration value, fuses the paste form `prefix#placeholder` into a single
//! identifier, and rebuilds nested groups recursively, keeping every
//! delimiter and span. Recursion happens only when descending into a group,
//! so the stack depth is bounded by the nesting depth of the input.

use vstd::prelude::*;

use crate::num::{dec_str, render_int};
use crate::token::{
    clone_token, lemma_toks_view_index, lemma_toks_view_len, lemma_toks_view_push, tok_span,
    tok_view, toks_view, Tok, Token,
};

verus! {

/// Whether `t` is the placeholder identifier itself.
pub open spec fn is_placeholder(name: Seq<char>, t: Tok) -> bool {
    t is Ident && t->Ident_name == name
}

/// Whether the paste form stands at the front of `ts`: a prefix identifier
/// other than the placeholder, a `#`, and the placeholder.
pub open spec fn fusion_at(name: Seq<char>, ts: Seq<Tok>) -> bool {
    &&& ts.len() >= 3
    &&& ts[0] is Ident
    &&& ts[0]->Ident_name != name
    &&& ts[1] is Punct
    &&& ts[1]->Punct_ch == '#'
    &&& ts[2] is Ident
    &&& ts[2]->Ident_name == name
}

/// Whether the placeholder identifier occurs anywhere in `ts`, at any
/// nesting depth.
pub open spec fn contains_ident(name: Seq<char>, ts: Seq<Tok>) -> bool
    decreases ts,
{
    if ts.len() == 0 {
        false
    } else {
        (match ts[0] {
            Tok::Ident { name: n, .. } => n == name,
            Tok::Group { tokens: inner, .. } => contains_ident(name, inner),
            _ => false,
        }) || contains_ident(name, ts.drop_first())
    }
}

/// One substitution pass, applied left to right:
///  - the placeholder identifier becomes a literal holding the rendered
///    value, with the identifier's span;
///  - `prefix # placeholder` (three tokens) becomes one identifier, the
///    prefix text followed by the rendered value, with the prefix's span;
///  - a group is rebuilt around the expansion of its contents, keeping its
///    delimiter and span;
///  - every other token is passed through unchanged.
pub open spec fn spec_expand(name: Seq<char>, v: int, ts: Seq<Tok>) -> Seq<Tok>
    decreases ts,
{
    if ts.len() == 0 {
        Seq::empty()
    } else if is_placeholder(name, ts[0]) {
        seq![Tok::Literal { text: dec_str(v), span: tok_span(ts[0]) }] + spec_expand(
            name,
            v,
            ts.skip(1),
        )
    } else if fusion_at(name, ts) {
        seq![Tok::Ident { name: ts[0]->Ident_name + dec_str(v), span: tok_span(ts[0]) }]
            + spec_expand(name, v, ts.skip(3))
    } else if ts[0] is Group {
        seq![
            Tok::Group {
                delim: ts[0]->Group_delim,
                tokens: spec_expand(name, v, ts[0]->Group_tokens),
                span: tok_span(ts[0]),
            },
        ] + spec_expand(name, v, ts.skip(1))
    } else {
        seq![ts[0]] + spec_expand(name, v, ts.skip(1))
    }
}

/// The uniform expansion of a body: the concatenation of one pass per value
/// of the range, in order.
pub open spec fn spec_expand_all(name: Seq<char>, start: int, end: int, ts: Seq<Tok>) -> Seq<Tok>
    decreases end - start,
{
    if start >= end {
        Seq::empty()
    } else {
        spec_expand(name, start, ts) + spec_expand_all(name, start + 1, end, ts)
    }
}

/// Whether the paste form stands at positions `i`, `i + 1`, `i + 2`.
fn fusion_ahead(name: &String, tokens: &Vec<Token>, i: usize) -> (b: bool)
    requires
        i < tokens.len(),
    ensures
        b == fusion_at(name@, toks_view(tokens@).skip(i as int)),
{
    broadcast use lemma_toks_view_len, lemma_toks_view_index;

    let ghost suffix = toks_view(tokens@).skip(i as int);
    if tokens.len() - i < 3 {
        return false;
    }
    assert(suffix[0] == tok_view(tokens@[i as int]));
    assert(suffix[1] == tok_view(tokens@[i as int + 1]));
    assert(suffix[2] == tok_view(tokens@[i as int + 2]));
    let p_ok = match &tokens[i] {
        Token::Ident { name: n, .. } => !(*n == *name),
        _ => false,
    };
    let h_ok = match &tokens[i + 1] {
        Token::Punct { ch, .. } => *ch == '#',
        _ => false,
    };
    let q_ok = match &tokens[i + 2] {
        Token::Ident { name: n, .. } => *n == *name,
        _ => false,
    };
    p_ok && h_ok && q_ok
}

/// One substitution pass over a whole token sequence.
#[verifier::loop_isolation(false)]
pub fn expand(name: &String, value: i32, tokens: &Vec<Token>) -> (out: Vec<Token>)
    ensures
        toks_view(out@) == spec_expand(name@, value as int, toks_view(tokens@)),
    decreases tokens@,
{
    broadcast use lemma_toks_view_len, lemma_toks_view_index;

    let ghost whole = toks_view(tokens@);
    let mut out: Vec<Token> = Vec::new();
    let mut i: usize = 0;
    proof {
        assert(whole.skip(0) =~= whole);
        assert(toks_view(out@) + spec_expand(name@, value as int, whole) =~= spec_expand(
            name@,
            value as int,
            whole,
        ));
    }
    while i < tokens.len()
        invariant
            i <= tokens.len(),
            spec_expand(name@, value as int, whole) == toks_view(out@) + spec_expand(
                name@,
                value as int,
                whole.skip(i as int),
            ),
        decreases tokens.len() - i,
    {
        let ghost suffix = whole.skip(i as int);
        assert(suffix[0] == tok_view(tokens@[i as int]));
        let fuse = fusion_ahead(name, tokens, i);
        let ghost pre = out@;
        let t = &tokens[i];
        let mut step: usize = 1;
        match t {
            Token::Ident { name: tname, span } => {
                if *tname == *name {
                    out.push(Token::Literal { text: render_int(value), span: *span });
                    proof {
                        assert(is_placeholder(name@, suffix[0]));
                    }
                } else if fuse {
                    let mut fused = tname.clone();
                    let rendered = render_int(value);
                    fused.append(rendered.as_str());
                    out.push(Token::Ident { name: fused, span: *span });
                    step = 3;
                } else {
                    out.push(clone_token(t));
                    proof {
                        assert(!is_placeholder(name@, suffix[0]));
                        assert(!fusion_at(name@, suffix));
                        assert(!(suffix[0] is Group));
                    }
                }
            },
            Token::Group { delim, tokens: inner, span } => {
                proof {
                    assert(decreases_to!(tokens@ => tokens@[i as int]));
                    assert(decreases_to!(tokens@[i as int] => (tokens@[i as int])->Group_tokens));
                    assert((tokens@[i as int])->Group_tokens == *inner);
                    assert(decreases_to!(*inner => inner@));
                }
                let new_inner = expand(name, value, inner);
                out.push(Token::Group { delim: *delim, tokens: new_inner, span: *span });
                proof {
                    assert(suffix[0]->Group_tokens == toks_view(inner@));
                    assert(!is_placeholder(name@, suffix[0]));
                    assert(!fusion_at(name@, suffix));
                }
            },
            _ => {
                out.push(clone_token(t));
                proof {
                    assert(!is_placeholder(name@, suffix[0]));
                    assert(!fusion_at(name@, suffix));
                    assert(!(suffix[0] is Group));
                }
            },
        }
        proof {
            lemma_toks_view_push(pre, out@.last());
            assert(out@ =~= pre.push(out@.last()));
            assert(suffix.skip(step as int) =~= whole.skip(i as int + step));
            assert(spec_expand(name@, value as int, whole) =~= toks_view(out@) + spec_expand(
                name@,
                value as int,
                whole.skip(i as int + step),
            ));
        }
        i = i + step;
    }
    proof {
        assert(whole.skip(tokens.len() as int) =~= Seq::<Tok>::empty());
        assert(toks_view(out@) + Seq::<Tok>::empty() =~= toks_view(out@));
    }
    out
}

/// The uniform expansion: one pass per value of the range, concatenated in
/// order; empty when the range is empty.
#[verifier::loop_isolation(false)]
pub fn expand_all(name: &String, start: i32, end: i32, tokens: &Vec<Token>) -> (out: Vec<Token>)
    ensures
        toks_view(out@) == spec_expand_all(name@, start as int, end as int, toks_view(tokens@)),
{
    let ghost body = toks_view(tokens@);
    let mut out: Vec<Token> = Vec::new();
    let mut v = start;
    proof {
        assert(toks_view(out@) + spec_expand_all(name@, start as int, end as int, body)
            =~= spec_expand_all(name@, start as int, end as int, body));
    }
    while v < end
        invariant
            spec_expand_all(name@, start as int, end as int, body) == toks_view(out@)
                + spec_expand_all(name@, v as int, end as int, body),
        decreases end as int - v as int,
    {
        let mut pass = expand(name, v, tokens);
        let ghost pre = out@;
        let ghost passv = pass@;
        out.append(&mut pass);
        proof {
            crate::token::lemma_toks_view_concat(pre, passv);
            assert(spec_expand_all(name@, start as int, end as int, body) =~= toks_view(out@)
                + spec_expand_all(name@, v as int + 1, end as int, body));
        }
        v = v + 1;
    }
    proof {
        assert(spec_expand_all(name@, v as int, end as int, body) == Seq::<Tok>::empty());
        assert(toks_view(out@) + Seq::<Tok>::empty() =~= toks_view(out@));
    }
    out
}

} // verus!
