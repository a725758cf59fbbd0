//! The top-level orchestration: parse the header, locate the body, scan it
//! for repetition markers, and emit the output. When a marker was found,
//! verbatim segments are emitted exactly once regardless of the range size
//! and each repeated segment once per iteration value; when none was found,
//! the whole body is expanded once per iteration value. A parse failure
//! anywhere aborts the whole expansion with a single diagnostic; tokens after
//! the body group are ignored.

use vstd::prelude::*;

use crate::expand::{expand_all, spec_expand_all};
use crate::parse::{
    braced_body, err_view, parse_header, spec_braced_body, spec_parse_header, ErrModel, ParseError,
};
use crate::scan::{
    find_repeat_section, lemma_segs_view_index, lemma_segs_view_len, seg_view, segs_view,
    spec_scan, SegModel, Segment,
};
use crate::token::{
    clone_tokens, lemma_toks_view_concat, lemma_toks_view_len, toks_view, Span, Tok, Token,
};

verus! {

/// The output for one segment list: a verbatim segment contributes its
/// tokens once, a repeated segment contributes one substitution pass per
/// value of the range, all in segment order.
pub open spec fn spec_emit(name: Seq<char>, start: int, end: int, segs: Seq<SegModel>) -> Seq<Tok>
    decreases segs,
{
    if segs.len() == 0 {
        Seq::empty()
    } else {
        (match segs[0] {
            SegModel::Normal(ts) => ts,
            SegModel::Repeat(ts) => spec_expand_all(name, start, end, ts),
        }) + spec_emit(name, start, end, segs.drop_first())
    }
}

/// The whole transformation, from the raw invocation tokens to the output
/// tokens or a single diagnostic.
pub open spec fn spec_process(ts: Seq<Tok>, site: Span) -> Result<Seq<Tok>, ErrModel> {
    match spec_parse_header(ts, site) {
        Err(e) => Err(e),
        Ok(h) => match spec_braced_body(ts, 6, site) {
            Err(e) => Err(e),
            Ok(body) => {
                let (found, segs) = spec_scan(body);
                if found {
                    Ok(spec_emit(h.name, h.start, h.end, segs))
                } else {
                    Ok(spec_expand_all(h.name, h.start, h.end, body))
                }
            },
        },
    }
}

/// Emits a whole segment list.
#[verifier::loop_isolation(false)]
fn emit_segments(name: &String, start: i32, end: i32, segs: &Vec<Segment>) -> (out: Vec<Token>)
    ensures
        toks_view(out@) == spec_emit(name@, start as int, end as int, segs_view(segs@)),
{
    broadcast use lemma_segs_view_len, lemma_segs_view_index, lemma_toks_view_len;

    let ghost sv = segs_view(segs@);
    let mut out: Vec<Token> = Vec::new();
    let mut i: usize = 0;
    proof {
        assert(sv.skip(0) =~= sv);
        assert(toks_view(out@) + spec_emit(name@, start as int, end as int, sv) =~= spec_emit(
            name@,
            start as int,
            end as int,
            sv,
        ));
    }
    while i < segs.len()
        invariant
            i <= segs.len(),
            spec_emit(name@, start as int, end as int, sv) == toks_view(out@) + spec_emit(
                name@,
                start as int,
                end as int,
                sv.skip(i as int),
            ),
        decreases segs.len() - i,
    {
        let ghost suffix = sv.skip(i as int);
        assert(suffix[0] == seg_view(segs@[i as int]));
        let mut head: Vec<Token> = match &segs[i] {
            Segment::Normal(ts) => clone_tokens(ts),
            Segment::Repeat(ts) => expand_all(name, start, end, ts),
        };
        let ghost pre = out@;
        let ghost headv = head@;
        out.append(&mut head);
        proof {
            assert(suffix.drop_first() =~= sv.skip(i as int + 1));
            lemma_toks_view_concat(pre, headv);
            assert(spec_emit(name@, start as int, end as int, sv) =~= toks_view(out@) + spec_emit(
                name@,
                start as int,
                end as int,
                sv.skip(i as int + 1),
            ));
        }
        i = i + 1;
    }
    proof {
        assert(sv.skip(segs.len() as int) =~= Seq::<SegModel>::empty());
        assert(toks_view(out@) + Seq::<Tok>::empty() =~= toks_view(out@));
    }
    out
}

/// Runs the whole pipeline: header, body, scan, and emission. `site` is the
/// span reported when the input ends before the header or the body is
/// complete. Tokens after the body group are ignored.
pub fn process(input: &Vec<Token>, site: Span) -> (r: Result<Vec<Token>, ParseError>)
    ensures
        ({
            let s = spec_process(toks_view(input@), site);
            match r {
                Ok(out) => s is Ok && toks_view(out@) == s->Ok_0,
                Err(e) => s is Err && err_view(e) == s->Err_0,
            }
        }),
{
    let header = match parse_header(input, site) {
        Ok(h) => h,
        Err(e) => return Err(e),
    };
    let body = match braced_body(input, 6, site) {
        Ok(b) => b,
        Err(e) => return Err(e),
    };
    let (found, segs) = find_repeat_section(body);
    if found {
        Ok(emit_segments(&header.name, header.start, header.end, &segs))
    } else {
        Ok(expand_all(&header.name, header.start, header.end, body))
    }
}

} // verus!
