//! The repetition-section scanner: one walk over the body splits it into an
//! ordered list of segments, each either verbatim text or the contents of a
//! `#( ... )*` marker to be repeated once per iteration value. The walk
//! descends into nested groups, so a marker buried inside a group is found
//! too; when that happens the segments found inside are spliced in place of
//! the group. A `#` that is not followed by a parenthesis group and a `*` is
//! a false alarm: it, and the contents of a pending parenthesis group, are
//! flushed as ordinary verbatim tokens.

use vstd::prelude::*;

use crate::token::{
    clone_token, clone_tokens, lemma_toks_view_concat, lemma_toks_view_index, lemma_toks_view_len,
    lemma_toks_view_push, tok_view, toks_view, Delim, Tok, Token,
};

verus! {

/// One resolved section of the body: emitted once (`Normal`) or once per
/// iteration value (`Repeat`).
#[derive(Debug, PartialEq, Eq)]
pub enum Segment {
    Normal(Vec<Token>),
    Repeat(Vec<Token>),
}

/// The mathematical model of a segment.
pub enum SegModel {
    Normal(Seq<Tok>),
    Repeat(Seq<Tok>),
}

/// The model of one segment.
pub open spec fn seg_view(s: Segment) -> SegModel {
    match s {
        Segment::Normal(ts) => SegModel::Normal(toks_view(ts@)),
        Segment::Repeat(ts) => SegModel::Repeat(toks_view(ts@)),
    }
}

/// The model of a segment list, element by element.
pub open spec fn segs_view(ss: Seq<Segment>) -> Seq<SegModel>
    decreases ss,
{
    if ss.len() == 0 {
        Seq::empty()
    } else {
        seq![seg_view(ss[0])] + segs_view(ss.drop_first())
    }
}

pub broadcast proof fn lemma_segs_view_len(ss: Seq<Segment>)
    ensures
        #[trigger] segs_view(ss).len() == ss.len(),
    decreases ss,
{
    if ss.len() > 0 {
        lemma_segs_view_len(ss.drop_first());
    }
}

pub broadcast proof fn lemma_segs_view_index(ss: Seq<Segment>, i: int)
    requires
        0 <= i < ss.len(),
    ensures
        #[trigger] segs_view(ss)[i] == seg_view(ss[i]),
    decreases ss,
{
    broadcast use lemma_segs_view_len;

    if i > 0 {
        lemma_segs_view_index(ss.drop_first(), i - 1);
        assert(ss.drop_first()[i - 1] == ss[i]);
    }
}

pub proof fn lemma_segs_view_concat(a: Seq<Segment>, b: Seq<Segment>)
    ensures
        segs_view(a + b) == segs_view(a) + segs_view(b),
    decreases a,
{
    if a.len() == 0 {
        assert(a + b =~= b);
        assert(segs_view(a) + segs_view(b) =~= segs_view(b));
    } else {
        lemma_segs_view_concat(a.drop_first(), b);
        assert((a + b).drop_first() =~= a.drop_first() + b);
        assert((a + b)[0] == a[0]);
        assert(segs_view(a + b) =~= segs_view(a) + segs_view(b));
    }
}

pub proof fn lemma_segs_view_single(s: Segment)
    ensures
        segs_view(seq![s]) == seq![seg_view(s)],
{
    assert(seq![s].drop_first() =~= Seq::<Segment>::empty());
    assert(segs_view(seq![s].drop_first()) == segs_view(Seq::<Segment>::empty()));
    assert(segs_view(Seq::<Segment>::empty()) =~= Seq::<SegModel>::empty());
    assert(segs_view(seq![s]) =~= seq![seg_view(s)]);
}

pub proof fn lemma_segs_view_push(ss: Seq<Segment>, s: Segment)
    ensures
        segs_view(ss.push(s)) == segs_view(ss) + seq![seg_view(s)],
{
    assert(ss.push(s) =~= ss + seq![s]);
    lemma_segs_view_concat(ss, seq![s]);
    lemma_segs_view_single(s);
}

/// The running result of a scan: whether a marker was found, the segments
/// closed so far, and the verbatim run still open at the end.
pub struct ScanState {
    pub found: bool,
    pub segs: Seq<SegModel>,
    pub run: Seq<Tok>,
}

/// Closes a verbatim run: an empty run contributes no segment.
pub open spec fn close_run(run: Seq<Tok>) -> Seq<SegModel> {
    if run.len() == 0 {
        Seq::empty()
    } else {
        seq![SegModel::Normal(run)]
    }
}

/// Whether the exact marker sequence `#`, parenthesis group, `*` stands at
/// the front of `ts`.
pub open spec fn marker_at(ts: Seq<Tok>) -> bool {
    &&& ts.len() >= 3
    &&& ts[0] is Punct
    &&& ts[0]->Punct_ch == '#'
    &&& ts[1] is Group
    &&& ts[1]->Group_delim == Delim::Paren
    &&& ts[2] is Punct
    &&& ts[2]->Punct_ch == '*'
}

/// Whether a `#` and a parenthesis group stand at the front of `ts` without
/// the closing `*`: the false-alarm lookahead.
pub open spec fn stale_at(ts: Seq<Tok>) -> bool {
    &&& ts.len() >= 2
    &&& ts[0] is Punct
    &&& ts[0]->Punct_ch == '#'
    &&& ts[1] is Group
    &&& ts[1]->Group_delim == Delim::Paren
    &&& !marker_at(ts)
}

/// Scans `ts` with `run` as the verbatim run open on entry. Returns the
/// segments closed while scanning `ts` and the run still open at its end:
///  - the marker `# ( T ) *` closes the open run, adds `Repeat(T)` and
///    reports a find;
///  - a `#` followed by a parenthesis group but no `*` flushes the `#` and
///    the group's contents into the run;
///  - any other group is scanned on its own: if a marker was found inside,
///    the open run is closed and the inner segments are spliced in place of
///    the group; otherwise the group stays one verbatim token;
///  - every other token joins the open run.
pub open spec fn spec_scan_acc(ts: Seq<Tok>, run: Seq<Tok>) -> ScanState
    decreases ts,
{
    if ts.len() == 0 {
        ScanState { found: false, segs: Seq::empty(), run }
    } else if marker_at(ts) {
        let rest = spec_scan_acc(ts.skip(3), Seq::empty());
        ScanState {
            found: true,
            segs: close_run(run) + seq![SegModel::Repeat(ts[1]->Group_tokens)] + rest.segs,
            run: rest.run,
        }
    } else if stale_at(ts) {
        spec_scan_acc(ts.skip(2), run + seq![ts[0]] + ts[1]->Group_tokens)
    } else if ts[0] is Group {
        let g = spec_scan_acc(ts[0]->Group_tokens, Seq::empty());
        if g.found {
            let rest = spec_scan_acc(ts.skip(1), Seq::empty());
            ScanState {
                found: true,
                segs: close_run(run) + g.segs + close_run(g.run) + rest.segs,
                run: rest.run,
            }
        } else {
            spec_scan_acc(ts.skip(1), run.push(ts[0]))
        }
    } else {
        spec_scan_acc(ts.skip(1), run.push(ts[0]))
    }
}

/// The scan of a whole body: whether any marker was found, and the ordered
/// segment list with the last verbatim run closed.
pub open spec fn spec_scan(ts: Seq<Tok>) -> (bool, Seq<SegModel>) {
    let r = spec_scan_acc(ts, Seq::empty());
    (r.found, r.segs + close_run(r.run))
}

/// Whether the marker stands at positions `i`, `i + 1`, `i + 2`.
fn marker_ahead(tokens: &Vec<Token>, i: usize) -> (b: bool)
    requires
        i <= tokens.len(),
    ensures
        b == marker_at(toks_view(tokens@).skip(i as int)),
{
    broadcast use lemma_toks_view_len, lemma_toks_view_index;

    let ghost suffix = toks_view(tokens@).skip(i as int);
    if tokens.len() - i < 3 {
        return false;
    }
    assert(suffix[0] == tok_view(tokens@[i as int]));
    assert(suffix[1] == tok_view(tokens@[i as int + 1]));
    assert(suffix[2] == tok_view(tokens@[i as int + 2]));
    let h_ok = match &tokens[i] {
        Token::Punct { ch, .. } => *ch == '#',
        _ => false,
    };
    let g_ok = match &tokens[i + 1] {
        Token::Group { delim, .. } => *delim == Delim::Paren,
        _ => false,
    };
    let s_ok = match &tokens[i + 2] {
        Token::Punct { ch, .. } => *ch == '*',
        _ => false,
    };
    h_ok && g_ok && s_ok
}

/// Whether the false-alarm lookahead stands at positions `i`, `i + 1`.
fn stale_ahead(tokens: &Vec<Token>, i: usize, is_marker: bool) -> (b: bool)
    requires
        i <= tokens.len(),
        is_marker == marker_at(toks_view(tokens@).skip(i as int)),
    ensures
        b == stale_at(toks_view(tokens@).skip(i as int)),
{
    broadcast use lemma_toks_view_len, lemma_toks_view_index;

    let ghost suffix = toks_view(tokens@).skip(i as int);
    if is_marker {
        return false;
    }
    if tokens.len() - i < 2 {
        return false;
    }
    assert(suffix[0] == tok_view(tokens@[i as int]));
    assert(suffix[1] == tok_view(tokens@[i as int + 1]));
    let h_ok = match &tokens[i] {
        Token::Punct { ch, .. } => *ch == '#',
        _ => false,
    };
    let g_ok = match &tokens[i + 1] {
        Token::Group { delim, .. } => *delim == Delim::Paren,
        _ => false,
    };
    h_ok && g_ok
}

/// Closes a verbatim run into its segment list.
fn close_run_exec(run: Vec<Token>) -> (segs: Vec<Segment>)
    ensures
        segs_view(segs@) == close_run(toks_view(run@)),
{
    broadcast use lemma_toks_view_len;

    if run.len() == 0 {
        let segs: Vec<Segment> = Vec::new();
        assert(segs_view(segs@) =~= close_run(toks_view(run@)));
        segs
    } else {
        let mut segs: Vec<Segment> = Vec::new();
        let ghost rv = toks_view(run@);
        segs.push(Segment::Normal(run));
        proof {
            lemma_segs_view_single(Segment::Normal(run));
            assert(segs@ =~= seq![Segment::Normal(run)]);
            assert(segs_view(segs@) =~= close_run(rv));
        }
        segs
    }
}

/// One scan over `tokens`, entered with an empty verbatim run. Recursion
/// happens only when descending into a group, so the stack depth is bounded
/// by the nesting depth of the input.
#[verifier::loop_isolation(false)]
fn scan_body(tokens: &Vec<Token>) -> (r: (bool, Vec<Segment>, Vec<Token>))
    ensures
        ({
            let s = spec_scan_acc(toks_view(tokens@), Seq::empty());
            &&& r.0 == s.found
            &&& segs_view(r.1@) == s.segs
            &&& toks_view(r.2@) == s.run
        }),
    decreases tokens@,
{
    broadcast use lemma_toks_view_len, lemma_toks_view_index, lemma_segs_view_len;

    let ghost whole = toks_view(tokens@);
    let ghost s0 = spec_scan_acc(whole, Seq::empty());
    let mut found = false;
    let mut segs: Vec<Segment> = Vec::new();
    let mut run: Vec<Token> = Vec::new();
    let mut i: usize = 0;
    proof {
        assert(whole.skip(0) =~= whole);
        assert(toks_view(run@) =~= Seq::<Tok>::empty());
        assert(segs_view(segs@) + s0.segs =~= s0.segs);
    }
    while i < tokens.len()
        invariant
            i <= tokens.len(),
            ({
                let rest = spec_scan_acc(whole.skip(i as int), toks_view(run@));
                &&& s0.found == (found || rest.found)
                &&& s0.segs == segs_view(segs@) + rest.segs
                &&& s0.run == rest.run
            }),
        decreases tokens.len() - i,
    {
        let ghost suffix = whole.skip(i as int);
        let ghost runv = toks_view(run@);
        assert(suffix[0] == tok_view(tokens@[i as int]));
        let is_marker = marker_ahead(tokens, i);
        let is_stale = stale_ahead(tokens, i, is_marker);
        if is_marker {
            let inner = match &tokens[i + 1] {
                Token::Group { tokens: g, .. } => clone_tokens(g),
                _ => unreached(),
            };
            let mut closed = close_run_exec(run);
            run = Vec::new();
            let ghost pre_segs = segs@;
            let ghost closed_v = closed@;
            segs.append(&mut closed);
            let ghost with_closed = segs@;
            segs.push(Segment::Repeat(inner));
            found = true;
            proof {
                assert(suffix[1] == tok_view(tokens@[i as int + 1]));
                assert(suffix.skip(3) =~= whole.skip(i as int + 3));
                assert(toks_view(run@) =~= Seq::<Tok>::empty());
                lemma_segs_view_concat(pre_segs, closed_v);
                lemma_segs_view_push(with_closed, Segment::Repeat(inner));
                assert(seg_view(Segment::Repeat(inner)) == SegModel::Repeat(
                    suffix[1]->Group_tokens,
                ));
                let rest = spec_scan_acc(whole.skip(i as int + 3), Seq::empty());
                assert(segs_view(segs@) + rest.segs =~= segs_view(pre_segs) + (close_run(runv)
                    + seq![SegModel::Repeat(suffix[1]->Group_tokens)] + rest.segs));
            }
            i = i + 3;
        } else if is_stale {
            let ghost run_pre = run@;
            run.push(clone_token(&tokens[i]));
            let ghost run_h = run@;
            match &tokens[i + 1] {
                Token::Group { tokens: g, .. } => {
                    let mut inner = clone_tokens(g);
                    let ghost inner_pre = inner@;
                    run.append(&mut inner);
                    proof {
                        assert(suffix[1] == tok_view(tokens@[i as int + 1]));
                        lemma_toks_view_push(run_pre, run_h.last());
                        assert(run_h =~= run_pre.push(run_h.last()));
                        lemma_toks_view_concat(run_h, inner_pre);
                        assert(run@ =~= run_h + inner_pre);
                        assert(toks_view(run@) =~= runv + seq![suffix[0]]
                            + suffix[1]->Group_tokens);
                    }
                },
                _ => unreached(),
            }
            proof {
                assert(suffix.skip(2) =~= whole.skip(i as int + 2));
            }
            i = i + 2;
        } else {
            let t = &tokens[i];
            match t {
                Token::Group { tokens: inner, .. } => {
                    proof {
                        assert(decreases_to!(tokens@ => tokens@[i as int]));
                        assert(decreases_to!(tokens@[i as int] => (
                        tokens@[i as int])->Group_tokens));
                        assert((tokens@[i as int])->Group_tokens == *inner);
                        assert(decreases_to!(*inner => inner@));
                    }
                    let (g_found, mut g_segs, g_run) = scan_body(inner);
                    proof {
                        assert(suffix[0]->Group_tokens == toks_view(inner@));
                    }
                    if g_found {
                        let mut closed = close_run_exec(run);
                        run = Vec::new();
                        let ghost pre_segs = segs@;
                        let ghost closed_v = closed@;
                        segs.append(&mut closed);
                        let ghost with_closed = segs@;
                        let ghost g_segs_v = g_segs@;
                        segs.append(&mut g_segs);
                        let ghost with_g = segs@;
                        let mut g_closed = close_run_exec(g_run);
                        let ghost g_closed_v = g_closed@;
                        segs.append(&mut g_closed);
                        found = true;
                        proof {
                            assert(suffix.skip(1) =~= whole.skip(i as int + 1));
                            assert(toks_view(run@) =~= Seq::<Tok>::empty());
                            lemma_segs_view_concat(pre_segs, closed_v);
                            lemma_segs_view_concat(with_closed, g_segs_v);
                            lemma_segs_view_concat(with_g, g_closed_v);
                            let g = spec_scan_acc(toks_view(inner@), Seq::empty());
                            let rest = spec_scan_acc(whole.skip(i as int + 1), Seq::empty());
                            assert(segs_view(segs@) + rest.segs =~= segs_view(pre_segs) + (
                            close_run(runv) + g.segs + close_run(g.run) + rest.segs));
                        }
                        i = i + 1;
                    } else {
                        let ghost run_pre = run@;
                        run.push(clone_token(t));
                        proof {
                            assert(suffix.skip(1) =~= whole.skip(i as int + 1));
                            lemma_toks_view_push(run_pre, run@.last());
                            assert(run@ =~= run_pre.push(run@.last()));
                            assert(toks_view(run@) =~= runv.push(suffix[0]));
                        }
                        i = i + 1;
                    }
                },
                _ => {
                    let ghost run_pre = run@;
                    run.push(clone_token(t));
                    proof {
                        assert(suffix.skip(1) =~= whole.skip(i as int + 1));
                        lemma_toks_view_push(run_pre, run@.last());
                        assert(run@ =~= run_pre.push(run@.last()));
                        assert(toks_view(run@) =~= runv.push(suffix[0]));
                    }
                    i = i + 1;
                },
            }
        }
    }
    proof {
        assert(whole.skip(tokens.len() as int) =~= Seq::<Tok>::empty());
        assert(segs_view(segs@) + Seq::<SegModel>::empty() =~= segs_view(segs@));
    }
    (found, segs, run)
}

/// Scans a body for repetition markers. Returns whether any was found and
/// the ordered segment list; when none was found the list is a single
/// verbatim segment holding the whole body (or nothing for an empty body).
pub fn find_repeat_section(tokens: &Vec<Token>) -> (r: (bool, Vec<Segment>))
    ensures
        ({
            let s = spec_scan(toks_view(tokens@));
            &&& r.0 == s.0
            &&& segs_view(r.1@) == s.1
        }),
{
    let (found, mut segs, run) = scan_body(tokens);
    let ghost segs_v = segs@;
    let mut tail = close_run_exec(run);
    let ghost tail_v = tail@;
    segs.append(&mut tail);
    proof {
        assert(toks_view(tokens@).skip(0) =~= toks_view(tokens@));
        assert(toks_view(Seq::<Token>::empty()) =~= Seq::<Tok>::empty());
        lemma_segs_view_concat(segs_v, tail_v);
    }
    (found, segs)
}

} // verus!
