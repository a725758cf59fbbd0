//! The library's general laws, stated over the same models that the
//! executable functions' contracts use and proved once and for all.

use vstd::prelude::*;

use crate::expand::{contains_ident, fusion_at, is_placeholder, spec_expand, spec_expand_all};
use crate::parse::{spec_braced_body, spec_parse_header, ErrModel};
use crate::process::{spec_emit, spec_process};
use crate::scan::{close_run, marker_at, spec_scan, spec_scan_acc, stale_at, SegModel};
use crate::token::{tok_span, Delim, Span, Tok};

verus! {

/// Whether `t` is plain verbatim material for the scanner: not a `#`, and
/// not a group with a repetition marker anywhere inside.
pub open spec fn plain_tok(t: Tok) -> bool {
    &&& !(t is Punct && t->Punct_ch == '#')
    &&& (t is Group ==> !spec_scan_acc(t->Group_tokens, Seq::empty()).found)
}

/// Whether every token of `ts` is plain verbatim material.
pub open spec fn verbatim_only(ts: Seq<Tok>) -> bool {
    forall|i: int| 0 <= i < ts.len() ==> plain_tok(#[trigger] ts[i])
}

/// Scanning verbatim material finds nothing, closes nothing, and appends the
/// whole of it to the open run.
pub proof fn lemma_scan_verbatim(ts: Seq<Tok>, run: Seq<Tok>)
    requires
        verbatim_only(ts),
    ensures
        !spec_scan_acc(ts, run).found,
        spec_scan_acc(ts, run).segs == Seq::<SegModel>::empty(),
        spec_scan_acc(ts, run).run == run + ts,
    decreases ts,
{
    if ts.len() == 0 {
        assert(run + ts =~= run);
    } else {
        assert(plain_tok(ts[0]));
        assert(!marker_at(ts));
        assert(!stale_at(ts));
        assert forall|i: int| 0 <= i < ts.skip(1).len() implies plain_tok(#[trigger] ts.skip(1)[i]) by {
            assert(ts.skip(1)[i] == ts[i + 1]);
        }
        lemma_scan_verbatim(ts.skip(1), run.push(ts[0]));
        assert(run.push(ts[0]) + ts.skip(1) =~= run + ts);
    }
}

/// Scanning a verbatim prefix, one well-formed marker, and a verbatim suffix
/// closes the prefix-run, records one repeated segment, and leaves the
/// suffix as the open run.
pub proof fn lemma_scan_marker_acc(
    pre: Seq<Tok>,
    hash: Tok,
    group: Tok,
    star: Tok,
    suf: Seq<Tok>,
    run: Seq<Tok>,
)
    requires
        verbatim_only(pre),
        verbatim_only(suf),
        hash is Punct && hash->Punct_ch == '#',
        group is Group && group->Group_delim == Delim::Paren,
        star is Punct && star->Punct_ch == '*',
    ensures
        ({
            let body = pre + seq![hash, group, star] + suf;
            &&& spec_scan_acc(body, run).found
            &&& spec_scan_acc(body, run).segs == close_run(run + pre) + seq![
                SegModel::Repeat(group->Group_tokens),
            ]
            &&& spec_scan_acc(body, run).run == suf
        }),
    decreases pre,
{
    let body = pre + seq![hash, group, star] + suf;
    if pre.len() == 0 {
        assert(body[0] == hash);
        assert(body[1] == group);
        assert(body[2] == star);
        assert(marker_at(body));
        assert(body.skip(3) =~= suf);
        lemma_scan_verbatim(suf, Seq::empty());
        assert(Seq::<Tok>::empty() + suf =~= suf);
        assert(run + pre =~= run);
        assert(close_run(run) + seq![SegModel::Repeat(group->Group_tokens)]
            + Seq::<SegModel>::empty() =~= close_run(run + pre) + seq![
            SegModel::Repeat(group->Group_tokens),
        ]);
    } else {
        assert(plain_tok(pre[0]));
        assert(body[0] == pre[0]);
        assert(!marker_at(body));
        assert(!stale_at(body));
        assert forall|i: int| 0 <= i < pre.skip(1).len() implies plain_tok(
            #[trigger] pre.skip(1)[i],
        ) by {
            assert(pre.skip(1)[i] == pre[i + 1]);
        }
        lemma_scan_marker_acc(pre.skip(1), hash, group, star, suf, run.push(pre[0]));
        assert(body.skip(1) =~= pre.skip(1) + seq![hash, group, star] + suf);
        assert(run.push(pre[0]) + pre.skip(1) =~= run + pre);
    }
}

/// The output for the segment list of a single-marker body: the verbatim
/// prefix once, the expansions of the marked section for each value in
/// order, then the verbatim suffix once.
proof fn lemma_emit_three(
    name: Seq<char>,
    start: int,
    end: int,
    pre: Seq<Tok>,
    rep: Seq<Tok>,
    suf: Seq<Tok>,
)
    ensures
        spec_emit(
            name,
            start,
            end,
            close_run(pre) + seq![SegModel::Repeat(rep)] + close_run(suf),
        ) == pre + spec_expand_all(name, start, end, rep) + suf,
{
    reveal_with_fuel(spec_emit, 4);
    let segs = close_run(pre) + seq![SegModel::Repeat(rep)] + close_run(suf);
    let middle = spec_expand_all(name, start, end, rep);
    if pre.len() == 0 && suf.len() == 0 {
        assert(segs =~= seq![SegModel::Repeat(rep)]);
        assert(seq![SegModel::Repeat(rep)].drop_first() =~= Seq::<SegModel>::empty());
        assert(spec_emit(name, start, end, segs) =~= pre + middle + suf);
    } else if pre.len() == 0 {
        assert(segs =~= seq![SegModel::Repeat(rep), SegModel::Normal(suf)]);
        let s1 = segs.drop_first();
        assert(s1 =~= seq![SegModel::Normal(suf)]);
        assert(s1.drop_first() =~= Seq::<SegModel>::empty());
        assert(spec_emit(name, start, end, segs) =~= pre + middle + suf);
    } else if suf.len() == 0 {
        assert(segs =~= seq![SegModel::Normal(pre), SegModel::Repeat(rep)]);
        let s1 = segs.drop_first();
        assert(s1 =~= seq![SegModel::Repeat(rep)]);
        assert(s1.drop_first() =~= Seq::<SegModel>::empty());
        assert(spec_emit(name, start, end, segs) =~= pre + middle + suf);
    } else {
        assert(segs =~= seq![
            SegModel::Normal(pre),
            SegModel::Repeat(rep),
            SegModel::Normal(suf),
        ]);
        let s1 = segs.drop_first();
        assert(s1 =~= seq![SegModel::Repeat(rep), SegModel::Normal(suf)]);
        let s2 = s1.drop_first();
        assert(s2 =~= seq![SegModel::Normal(suf)]);
        assert(s2.drop_first() =~= Seq::<SegModel>::empty());
        assert(spec_emit(name, start, end, segs) =~= pre + middle + suf);
    }
}

/// Single-marker mode: when the body is a verbatim prefix, one well-formed
/// `# ( ... ) *` marker, and a verbatim suffix, the output is the prefix
/// once, then the expansion of the marked section for each value of the
/// range in order, then the suffix once.
pub proof fn lemma_single_marker_mode(
    ts: Seq<Tok>,
    site: Span,
    pre: Seq<Tok>,
    hash: Tok,
    group: Tok,
    star: Tok,
    suf: Seq<Tok>,
)
    requires
        spec_parse_header(ts, site) is Ok,
        spec_braced_body(ts, 6, site) is Ok,
        spec_braced_body(ts, 6, site)->Ok_0 == pre + seq![hash, group, star] + suf,
        verbatim_only(pre),
        verbatim_only(suf),
        hash is Punct && hash->Punct_ch == '#',
        group is Group && group->Group_delim == Delim::Paren,
        star is Punct && star->Punct_ch == '*',
    ensures
        ({
            let h = spec_parse_header(ts, site)->Ok_0;
            spec_process(ts, site) == Ok::<Seq<Tok>, ErrModel>(
                pre + spec_expand_all(h.name, h.start, h.end, group->Group_tokens) + suf,
            )
        }),
{
    let h = spec_parse_header(ts, site)->Ok_0;
    let body = spec_braced_body(ts, 6, site)->Ok_0;
    lemma_scan_marker_acc(pre, hash, group, star, suf, Seq::empty());
    assert(Seq::<Tok>::empty() + pre =~= pre);
    assert(spec_scan(body).0);
    assert(spec_scan(body).1 =~= close_run(pre) + seq![SegModel::Repeat(group->Group_tokens)]
        + close_run(suf));
    lemma_emit_three(h.name, h.start, h.end, pre, group->Group_tokens, suf);
}

/// An empty range yields no output at all, whatever the body holds, as long
/// as the body carries no repetition marker: every verbatim segment of a
/// marked body would be emitted once even over an empty range.
pub proof fn lemma_empty_range(ts: Seq<Tok>, site: Span)
    requires
        spec_parse_header(ts, site) is Ok,
        spec_parse_header(ts, site)->Ok_0.start == spec_parse_header(ts, site)->Ok_0.end,
        spec_braced_body(ts, 6, site) is Ok,
        !spec_scan(spec_braced_body(ts, 6, site)->Ok_0).0,
    ensures
        spec_process(ts, site) == Ok::<Seq<Tok>, ErrModel>(Seq::<Tok>::empty()),
{
}

/// The verbatim text of a segment list: its `Normal` segments concatenated.
pub open spec fn verbatim_text(segs: Seq<SegModel>) -> Seq<Tok>
    decreases segs,
{
    if segs.len() == 0 {
        Seq::empty()
    } else {
        (match segs[0] {
            SegModel::Normal(ts) => ts,
            SegModel::Repeat(ts) => Seq::empty(),
        }) + verbatim_text(segs.drop_first())
    }
}

/// Over an empty range a segment list emits exactly its verbatim text: the
/// repeated sections contribute nothing, while each verbatim section still
/// appears once.
pub proof fn lemma_empty_range_marked(name: Seq<char>, s: int, segs: Seq<SegModel>)
    ensures
        spec_emit(name, s, s, segs) == verbatim_text(segs),
    decreases segs,
{
    if segs.len() > 0 {
        lemma_empty_range_marked(name, s, segs.drop_first());
        assert(spec_emit(name, s, s, segs) =~= verbatim_text(segs));
    }
}

/// Uniform mode: when the body holds no repetition marker, the output is the
/// concatenation, for each value of the range in order, of one substitution
/// pass over the whole body.
pub proof fn lemma_uniform_mode(ts: Seq<Tok>, site: Span)
    requires
        spec_parse_header(ts, site) is Ok,
        spec_parse_header(ts, site)->Ok_0.start < spec_parse_header(ts, site)->Ok_0.end,
        spec_braced_body(ts, 6, site) is Ok,
        !spec_scan(spec_braced_body(ts, 6, site)->Ok_0).0,
    ensures
        ({
            let h = spec_parse_header(ts, site)->Ok_0;
            let body = spec_braced_body(ts, 6, site)->Ok_0;
            spec_process(ts, site) == Ok::<Seq<Tok>, ErrModel>(
                spec_expand_all(h.name, h.start, h.end, body),
            )
        }),
{
}

/// Substitution is the identity on a sequence in which the placeholder does
/// not occur at any nesting depth: every token, span included, is kept.
pub proof fn lemma_expand_identity(name: Seq<char>, v: int, ts: Seq<Tok>)
    requires
        !contains_ident(name, ts),
    ensures
        spec_expand(name, v, ts) == ts,
    decreases ts,
{
    if ts.len() > 0 {
        assert(!contains_ident(name, ts.drop_first()));
        if fusion_at(name, ts) {
            assert(ts.drop_first().drop_first()[0] == ts[2]);
            assert(contains_ident(name, ts.drop_first().drop_first()));
            assert(contains_ident(name, ts.drop_first()));
            assert(false);
        }
        assert(ts.skip(1) =~= ts.drop_first());
        lemma_expand_identity(name, v, ts.drop_first());
        assert(!is_placeholder(name, ts[0]));
        if ts[0] is Group {
            assert(!contains_ident(name, ts[0]->Group_tokens));
            lemma_expand_identity(name, v, ts[0]->Group_tokens);
            assert(Tok::Group {
                delim: ts[0]->Group_delim,
                tokens: spec_expand(name, v, ts[0]->Group_tokens),
                span: tok_span(ts[0]),
            } == ts[0]);
        }
        assert(spec_expand(name, v, ts) =~= ts);
    }
}

/// A placeholder nested inside two levels of grouping is substituted exactly
/// as at top level: the result is the same two groups, with their delimiters
/// and spans unchanged, around the expansion of the innermost sequence.
pub proof fn lemma_expand_nested(
    name: Seq<char>,
    v: int,
    d1: Delim,
    d2: Delim,
    sp1: Span,
    sp2: Span,
    inner: Seq<Tok>,
)
    ensures
        spec_expand(
            name,
            v,
            seq![
                Tok::Group {
                    delim: d1,
                    tokens: seq![Tok::Group { delim: d2, tokens: inner, span: sp2 }],
                    span: sp1,
                },
            ],
        ) == seq![
            Tok::Group {
                delim: d1,
                tokens: seq![
                    Tok::Group { delim: d2, tokens: spec_expand(name, v, inner), span: sp2 },
                ],
                span: sp1,
            },
        ],
{
    let g2 = Tok::Group { delim: d2, tokens: inner, span: sp2 };
    let g1 = Tok::Group { delim: d1, tokens: seq![g2], span: sp1 };
    let outer = seq![g1];
    let mid = seq![g2];
    assert(outer.skip(1) =~= Seq::<Tok>::empty());
    assert(mid.skip(1) =~= Seq::<Tok>::empty());
    assert(spec_expand(name, v, outer.skip(1)) == Seq::<Tok>::empty());
    assert(spec_expand(name, v, mid.skip(1)) == Seq::<Tok>::empty());
    assert(spec_expand(name, v, mid) =~= seq![
        Tok::Group { delim: d2, tokens: spec_expand(name, v, inner), span: sp2 },
    ]);
    assert(spec_expand(name, v, outer) =~= seq![
        Tok::Group {
            delim: d1,
            tokens: seq![
                Tok::Group { delim: d2, tokens: spec_expand(name, v, inner), span: sp2 },
            ],
            span: sp1,
        },
    ]);
}

} // verus!
