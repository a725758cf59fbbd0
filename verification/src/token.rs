//! The token data model: the atoms the transformer works on, together with
//! their mathematical model (`Tok`) and the view functions relating the two.

use vstd::prelude::*;

verus! {

/// An opaque handle to source-location data kept by the host that supplied
/// the tokens. It is carried through every transformation unchanged so that
/// diagnostics can point at the original source.
#[derive(Clone, Copy, Debug, PartialEq, Eq, Structural)]
pub struct Span {
    pub id: u32,
}

/// The delimiter kind of a group token.
#[derive(Clone, Copy, Debug, PartialEq, Eq, Structural)]
pub enum Delim {
    Paren,
    Brace,
    Bracket,
    Invisible,
}

/// One lexical atom: a nested group, an identifier, an already-rendered
/// literal, or a single punctuation character. The `joint` flag on
/// punctuation distinguishes a character glued to the next one (as in `..`)
/// from an isolated one.
#[derive(Debug, PartialEq, Eq)]
pub enum Token {
    Group { delim: Delim, tokens: Vec<Token>, span: Span },
    Ident { name: String, span: Span },
    Literal { text: String, span: Span },
    Punct { ch: char, joint: bool, span: Span },
}

/// The mathematical model of a token: the same tree, over `Seq` instead of
/// `Vec` and `String`. All contracts in this crate speak of this type.
pub enum Tok {
    Group { delim: Delim, tokens: Seq<Tok>, span: Span },
    Ident { name: Seq<char>, span: Span },
    Literal { text: Seq<char>, span: Span },
    Punct { ch: char, joint: bool, span: Span },
}

/// The model of one token.
pub open spec fn tok_view(t: Token) -> Tok
    decreases t,
{
    match t {
        Token::Group { delim, tokens, span } => Tok::Group {
            delim,
            tokens: toks_view(tokens@),
            span,
        },
        Token::Ident { name, span } => Tok::Ident { name: name@, span },
        Token::Literal { text, span } => Tok::Literal { text: text@, span },
        Token::Punct { ch, joint, span } => Tok::Punct { ch, joint, span },
    }
}

/// The model of a token sequence, element by element.
pub open spec fn toks_view(ts: Seq<Token>) -> Seq<Tok>
    decreases ts,
{
    if ts.len() == 0 {
        Seq::empty()
    } else {
        seq![tok_view(ts[0])] + toks_view(ts.drop_first())
    }
}

impl View for Token {
    type V = Tok;

    open spec fn view(&self) -> Tok {
        tok_view(*self)
    }
}

/// The span a token carries.
pub open spec fn tok_span(t: Tok) -> Span {
    match t {
        Tok::Group { span, .. } => span,
        Tok::Ident { span, .. } => span,
        Tok::Literal { span, .. } => span,
        Tok::Punct { span, .. } => span,
    }
}

pub broadcast proof fn lemma_toks_view_len(ts: Seq<Token>)
    ensures
        #[trigger] toks_view(ts).len() == ts.len(),
    decreases ts,
{
    if ts.len() > 0 {
        lemma_toks_view_len(ts.drop_first());
    }
}

pub broadcast proof fn lemma_toks_view_index(ts: Seq<Token>, i: int)
    requires
        0 <= i < ts.len(),
    ensures
        #[trigger] toks_view(ts)[i] == tok_view(ts[i]),
    decreases ts,
{
    broadcast use lemma_toks_view_len;

    if i > 0 {
        lemma_toks_view_index(ts.drop_first(), i - 1);
        assert(ts.drop_first()[i - 1] == ts[i]);
    }
}

pub proof fn lemma_toks_view_concat(a: Seq<Token>, b: Seq<Token>)
    ensures
        toks_view(a + b) == toks_view(a) + toks_view(b),
    decreases a,
{
    if a.len() == 0 {
        assert(a + b =~= b);
        assert(toks_view(a) + toks_view(b) =~= toks_view(b));
    } else {
        lemma_toks_view_concat(a.drop_first(), b);
        assert((a + b).drop_first() =~= a.drop_first() + b);
        assert((a + b)[0] == a[0]);
        assert(toks_view(a + b) =~= toks_view(a) + toks_view(b));
    }
}

pub proof fn lemma_toks_view_single(t: Token)
    ensures
        toks_view(seq![t]) == seq![tok_view(t)],
{
    assert(seq![t].drop_first() =~= Seq::<Token>::empty());
    assert(toks_view(seq![t].drop_first()) == toks_view(Seq::<Token>::empty()));
    assert(toks_view(Seq::<Token>::empty()) =~= Seq::<Tok>::empty());
    assert(toks_view(seq![t]) =~= seq![tok_view(t)]);
}

pub proof fn lemma_toks_view_push(ts: Seq<Token>, t: Token)
    ensures
        toks_view(ts.push(t)) == toks_view(ts) + seq![tok_view(t)],
{
    assert(ts.push(t) =~= ts + seq![t]);
    lemma_toks_view_concat(ts, seq![t]);
    lemma_toks_view_single(t);
}

/// A structural copy of one token; the model is preserved exactly.
#[verifier::loop_isolation(false)]
pub fn clone_token(t: &Token) -> (r: Token)
    ensures
        r@ == t@,
    decreases *t,
{
    match t {
        Token::Group { delim, tokens, span } => {
            let mut inner: Vec<Token> = Vec::new();
            let n = tokens.len();
            let mut i: usize = 0;
            while i < n
                invariant
                    n == tokens.len(),
                    i <= n,
                    toks_view(inner@) == toks_view(tokens@.take(i as int)),
                decreases n - i,
            {
                proof {
                    assert(decreases_to!(*t => (*t)->Group_tokens));
                    assert((*t)->Group_tokens == *tokens);
                    assert(decreases_to!(*tokens => tokens@));
                    assert(decreases_to!(tokens@ => tokens@[i as int]));
                }
                let c = clone_token(&tokens[i]);
                let ghost pre = inner@;
                inner.push(c);
                proof {
                    lemma_toks_view_push(pre, c);
                    lemma_toks_view_push(tokens@.take(i as int), tokens@[i as int]);
                    assert(tokens@.take(i as int).push(tokens@[i as int]) =~= tokens@.take(
                        i as int + 1,
                    ));
                }
                i = i + 1;
            }
            proof {
                assert(tokens@.take(n as int) =~= tokens@);
            }
            Token::Group { delim: *delim, tokens: inner, span: *span }
        },
        Token::Ident { name, span } => Token::Ident { name: name.clone(), span: *span },
        Token::Literal { text, span } => Token::Literal { text: text.clone(), span: *span },
        Token::Punct { ch, joint, span } => Token::Punct { ch: *ch, joint: *joint, span: *span },
    }
}

/// A structural copy of a token sequence; the model is preserved exactly.
pub fn clone_tokens(ts: &Vec<Token>) -> (r: Vec<Token>)
    ensures
        toks_view(r@) == toks_view(ts@),
{
    let mut out: Vec<Token> = Vec::new();
    let n = ts.len();
    let mut i: usize = 0;
    while i < n
        invariant
            n == ts.len(),
            i <= n,
            toks_view(out@) == toks_view(ts@.take(i as int)),
        decreases n - i,
    {
        let c = clone_token(&ts[i]);
        let ghost pre = out@;
        out.push(c);
        proof {
            lemma_toks_view_push(pre, c);
            lemma_toks_view_push(ts@.take(i as int), ts@[i as int]);
            assert(ts@.take(i as int).push(ts@[i as int]) =~= ts@.take(i as int + 1));
        }
        i = i + 1;
    }
    proof {
        assert(ts@.take(n as int) =~= ts@);
    }
    out
}

} // verus!
