//! A secondary helper mirroring the lookup pattern of field-reflection code:
//! unwrapping one layer of a named generic wrapper. Over the token model, a
//! type such as `Option < T >` is an identifier, a `<`, the argument tokens,
//! and a closing `>`; the helper hands back the tokens of the first generic
//! argument, the ones before the first comma outside nested angle brackets.

use vstd::prelude::*;

use crate::token::{
    clone_token, lemma_toks_view_index, lemma_toks_view_len, lemma_toks_view_push, tok_view,
    toks_view, Tok, Token,
};

verus! {

/// Whether `ts` is one layer of the named wrapper: the wrapper identifier,
/// `<`, at least one argument token, and the closing `>` at the end.
pub open spec fn wrapped_by(name: Seq<char>, ts: Seq<Tok>) -> bool {
    &&& ts.len() >= 4
    &&& ts[0] is Ident
    &&& ts[0]->Ident_name == name
    &&& ts[1] is Punct
    &&& ts[1]->Punct_ch == '<'
    &&& ts[ts.len() - 1] is Punct
    &&& ts[ts.len() - 1]->Punct_ch == '>'
}

/// The end, relative to `inner`, of the first generic argument: the index of
/// the first comma at angle depth zero from position `i` on, or the length
/// when there is none.
pub open spec fn first_arg_end(inner: Seq<Tok>, i: int, depth: int) -> int
    decreases inner.len() - i,
{
    if i < 0 || i >= inner.len() {
        inner.len() as int
    } else if inner[i] is Punct && inner[i]->Punct_ch == ',' && depth == 0 {
        i
    } else if inner[i] is Punct && inner[i]->Punct_ch == '<' {
        first_arg_end(inner, i + 1, depth + 1)
    } else if inner[i] is Punct && inner[i]->Punct_ch == '>' {
        first_arg_end(inner, i + 1, depth - 1)
    } else {
        first_arg_end(inner, i + 1, depth)
    }
}

/// The tokens of the first generic argument of one wrapper layer.
pub open spec fn spec_first_arg(ts: Seq<Tok>) -> Seq<Tok> {
    let inner = ts.subrange(2, ts.len() - 1);
    inner.take(first_arg_end(inner, 0, 0))
}

/// Unwraps one layer of the named generic wrapper: for tokens shaped
/// `name < arguments >` the tokens of the first argument are returned, and
/// `None` for any other shape.
#[verifier::loop_isolation(false)]
pub fn try_extract_first_generic_param(tokens: &Vec<Token>, name: &String) -> (r: Option<
    Vec<Token>,
>)
    ensures
        ({
            let m = toks_view(tokens@);
            &&& wrapped_by(name@, m) ==> (r matches Some(arg) && toks_view(arg@)
                == spec_first_arg(m))
            &&& !wrapped_by(name@, m) ==> r is None
        }),
{
    broadcast use lemma_toks_view_len, lemma_toks_view_index;

    let ghost m = toks_view(tokens@);
    let n = tokens.len();
    if n < 4 {
        return None;
    }
    let head_ok = match &tokens[0] {
        Token::Ident { name: w, .. } => *w == *name,
        _ => false,
    };
    let open_ok = match &tokens[1] {
        Token::Punct { ch, .. } => *ch == '<',
        _ => false,
    };
    let close_ok = match &tokens[n - 1] {
        Token::Punct { ch, .. } => *ch == '>',
        _ => false,
    };
    if !(head_ok && open_ok && close_ok) {
        return None;
    }
    assert(wrapped_by(name@, m));
    let ghost inner = m.subrange(2, m.len() - 1);
    let mut out: Vec<Token> = Vec::new();
    let mut i: usize = 2;
    let mut depth: i128 = 0;
    proof {
        assert(inner.len() == n - 3);
    }
    while i < n - 1
        invariant
            2 <= i <= n - 1,
            -(i as int) <= depth <= i as int,
            first_arg_end(inner, 0, 0) == first_arg_end(inner, i as int - 2, depth as int),
            toks_view(out@) == inner.take(i as int - 2),
        decreases n - 1 - i,
    {
        let ghost j = i as int - 2;
        assert(inner[j] == m[j + 2]);
        assert(m[j + 2] == tok_view(tokens@[j + 2]));
        let is_comma = match &tokens[i] {
            Token::Punct { ch, .. } => *ch == ',',
            _ => false,
        };
        if is_comma && depth == 0 {
            assert(first_arg_end(inner, j, depth as int) == j);
            return Some(out);
        }
        match &tokens[i] {
            Token::Punct { ch, .. } => {
                if *ch == '<' {
                    depth = depth + 1;
                } else if *ch == '>' {
                    depth = depth - 1;
                }
            },
            _ => {},
        }
        let c = clone_token(&tokens[i]);
        let ghost pre = out@;
        out.push(c);
        proof {
            lemma_toks_view_push(pre, tokens@[j + 2]);
            assert(inner.take(j).push(inner[j]) =~= inner.take(j + 1));
        }
        i = i + 1;
    }
    proof {
        assert(first_arg_end(inner, i as int - 2, depth as int) == inner.len());
        assert(inner.take(inner.len() as int) =~= inner);
    }
    Some(out)
}

/// `Option < T >` gives the tokens of `T`.
pub fn try_extract_option(tokens: &Vec<Token>) -> (r: Option<Vec<Token>>)
    ensures
        ({
            let m = toks_view(tokens@);
            &&& wrapped_by("Option"@, m) ==> (r matches Some(arg) && toks_view(arg@)
                == spec_first_arg(m))
            &&& !wrapped_by("Option"@, m) ==> r is None
        }),
{
    let name = String::from_str("Option");
    try_extract_first_generic_param(tokens, &name)
}

/// `Vec < T >` gives the tokens of `T`.
pub fn try_extract_vec(tokens: &Vec<Token>) -> (r: Option<Vec<Token>>)
    ensures
        ({
            let m = toks_view(tokens@);
            &&& wrapped_by("Vec"@, m) ==> (r matches Some(arg) && toks_view(arg@)
                == spec_first_arg(m))
            &&& !wrapped_by("Vec"@, m) ==> r is None
        }),
{
    let name = String::from_str("Vec");
    try_extract_first_generic_param(tokens, &name)
}

} // verus!
