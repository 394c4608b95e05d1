//! Wrapping of fragment sequences: `by_letters` breaks styled runs at
//! grapheme-cluster boundaries so that no line it starts grows wider than a
//! target width, and `by_newlines` replaces literal newline characters with
//! explicit line-break fragments. Both keep the input order and only ever
//! insert break markers and split runs; no content is dropped or reordered.
use vstd::prelude::*;
use vstd::string::{StrSliceExecFns, StringExecFns};
use crate::fragment::{
    frag_len, frags_len, frags_view, spec_measure, FragView, Fragment, Span, SpanOptions,
    SpanView,
};
use crate::unicode::{concat_all, display_width, grapheme_clusters, graphemes};

verus! {

/// The segments a run's grapheme clusters `gs` fall into when wrapped at
/// `width`, continuing a line that already holds `line` cells and a segment
/// already holding `cur`: a grapheme whose addition would pass `width` starts
/// a new segment, and becomes the whole line when it is wider than `width`
/// itself. Returns the segments and the width of the line the last one ends
/// on.
pub open spec fn wrap_span_segments(
    gs: Seq<Seq<char>>,
    opts: SpanOptions,
    width: u16,
    line: int,
    cur: Seq<char>,
) -> (Seq<Seq<char>>, int)
    decreases gs.len(),
{
    if gs.len() == 0 {
        (seq![cur], line)
    } else {
        let gw = spec_measure(gs[0], opts) as int;
        if line + gw <= width {
            wrap_span_segments(gs.drop_first(), opts, width, line + gw, cur + gs[0])
        } else {
            let (rest, l) = wrap_span_segments(gs.drop_first(), opts, width, gw, gs[0]);
            (seq![cur] + rest, l)
        }
    }
}

/// One span fragment per segment, with a line break between consecutive
/// segments (and none after the last).
pub open spec fn segments_frags(
    segs: Seq<Seq<char>>,
    style: tui::style::Style,
    opts: SpanOptions,
) -> Seq<FragView>
    decreases segs.len(),
{
    if segs.len() == 0 {
        seq![]
    } else if segs.len() == 1 {
        seq![FragView::Span(SpanView { text: segs[0], style }, opts)]
    } else {
        seq![FragView::Span(SpanView { text: segs[0], style }, opts), FragView::Line]
            + segments_frags(segs.drop_first(), style, opts)
    }
}

/// One span fragment per segment, each followed by a line break: the form the
/// completed segments take while a later segment is still growing.
pub open spec fn closed_frags(
    segs: Seq<Seq<char>>,
    style: tui::style::Style,
    opts: SpanOptions,
) -> Seq<FragView>
    decreases segs.len(),
{
    if segs.len() == 0 {
        seq![]
    } else {
        seq![FragView::Span(SpanView { text: segs[0], style }, opts), FragView::Line]
            + closed_frags(segs.drop_first(), style, opts)
    }
}

proof fn lemma_segments_frags_snoc(
    segs: Seq<Seq<char>>,
    last: Seq<char>,
    style: tui::style::Style,
    opts: SpanOptions,
)
    ensures
        segments_frags(segs + seq![last], style, opts) == closed_frags(segs, style, opts)
            + seq![FragView::Span(SpanView { text: last, style }, opts)],
    decreases segs.len(),
{
    if segs.len() == 0 {
        assert(segs + seq![last] =~= seq![last]);
        assert(segments_frags(seq![last], style, opts) =~= seq![
            FragView::Span(SpanView { text: last, style }, opts),
        ]);
        assert(closed_frags(segs, style, opts) + seq![
            FragView::Span(SpanView { text: last, style }, opts),
        ] =~= seq![FragView::Span(SpanView { text: last, style }, opts)]);
    } else {
        assert((segs + seq![last]).drop_first() =~= segs.drop_first() + seq![last]);
        lemma_segments_frags_snoc(segs.drop_first(), last, style, opts);
        assert(segments_frags(segs + seq![last], style, opts) =~= closed_frags(segs, style, opts)
            + seq![FragView::Span(SpanView { text: last, style }, opts)]);
    }
}

/// The fragments `by_letters` produces from `fs` at `width`, continuing a
/// line that already holds `line` cells, and the width of the open line it
/// ends on: runs are wrapped at grapheme boundaries, characters count one
/// cell each, and an explicit break resets the line.
pub open spec fn wrap_letters(fs: Seq<FragView>, width: u16, line: int) -> (Seq<FragView>, int)
    decreases fs.len(),
{
    if fs.len() == 0 {
        (seq![], line)
    } else {
        let tail = fs.drop_first();
        match fs[0] {
            FragView::Span(sv, opts) => {
                let (segs, l1) = wrap_span_segments(
                    graphemes(sv.text),
                    opts,
                    width,
                    line,
                    Seq::empty(),
                );
                let (rest, l2) = wrap_letters(tail, width, l1);
                (segments_frags(segs, sv.style, opts) + rest, l2)
            },
            FragView::Char(_, _) => {
                let (rest, l2) = wrap_letters(tail, width, line + 1);
                (seq![fs[0]] + rest, l2)
            },
            FragView::Line => {
                let (rest, l2) = wrap_letters(tail, width, 0);
                (seq![fs[0]] + rest, l2)
            },
        }
    }
}

/// How many cells one grapheme cluster takes under the given options.
fn grapheme_measure(g: &String, opts: SpanOptions) -> (r: usize)
    ensures
        r == spec_measure(g@, opts),
{
    if opts.unicode_aware {
        display_width(g.as_str())
    } else {
        g.as_str().as_bytes().len()
    }
}

/// Wrap one styled run at grapheme boundaries, pushing the resulting span and
/// break fragments onto `results` and carrying the running line width.
fn wrap_span_letters(
    span: &Span,
    opts: SpanOptions,
    area_width: u16,
    line_length: &mut u128,
    results: &mut Vec<Fragment>,
)
    requires
        *old(line_length) <= 2 * (usize::MAX as int),
    ensures
        ({
            let (segs, l) = wrap_span_segments(
                graphemes(span@.text),
                opts,
                area_width,
                *old(line_length) as int,
                Seq::empty(),
            );
            &&& frags_view(final(results)@) == frags_view(old(results)@) + segments_frags(
                segs,
                span@.style,
                opts,
            )
            &&& *final(line_length) == l
            &&& (*final(line_length) <= usize::MAX || *final(line_length) == *old(line_length))
        }),
{
    let gs = grapheme_clusters(span.content.as_str());
    let ghost gseq = graphemes(span.content@);
    let ghost line0 = *line_length as int;
    let ghost full = wrap_span_segments(gseq, opts, area_width, line0, Seq::empty());

    let mut seg: String = String::new();
    let mut k: usize = 0;
    let ghost mut completed: Seq<Seq<char>> = Seq::empty();

    proof {
        assert(gseq.skip(0) =~= gseq);
    }

    while k < gs.len()
        invariant
            gs@.map_values(|g: String| g@) == gseq,
            0 <= k <= gs@.len(),
            *line_length <= 2 * (usize::MAX as int),
            k > 0 ==> *line_length <= usize::MAX,
            full == wrap_span_segments(gseq, opts, area_width, line0, Seq::empty()),
            full.0 == completed + wrap_span_segments(
                gseq.skip(k as int),
                opts,
                area_width,
                *line_length as int,
                seg@,
            ).0,
            full.1 == wrap_span_segments(
                gseq.skip(k as int),
                opts,
                area_width,
                *line_length as int,
                seg@,
            ).1,
            frags_view(results@) == frags_view(old(results)@) + closed_frags(
                completed,
                span@.style,
                opts,
            ),
        decreases gs@.len() - k,
    {
        let ghost pre_state = wrap_span_segments(
            gseq.skip(k as int),
            opts,
            area_width,
            *line_length as int,
            seg@,
        );
        proof {
            assert(gseq.skip(k as int)[0] == gseq[k as int]);
            assert(gseq.skip(k as int).drop_first() =~= gseq.skip(k as int + 1));
            assert(gs@.map_values(|g: String| g@)[k as int] == gs@[k as int]@);
        }
        let gw = grapheme_measure(&gs[k], opts);
        if *line_length + gw as u128 <= area_width as u128 {
            *line_length = *line_length + gw as u128;
            seg.append(gs[k].as_str());
        } else {
            let ghost closed_seg = seg@;
            let ghost prev_frags = frags_view(results@);
            results.push(Fragment::Span(Span { content: seg, style: span.style }, opts));
            results.push(Fragment::Line);
            proof {
                let prev_completed = completed;
                completed = completed + seq![closed_seg];
                lemma_closed_frags_snoc(prev_completed, closed_seg, span@.style, opts);
                assert(frags_view(results@) =~= prev_frags + seq![
                    FragView::Span(SpanView { text: closed_seg, style: span@.style }, opts),
                    FragView::Line,
                ]);
                assert(frags_view(results@) =~= frags_view(old(results)@) + closed_frags(
                    completed,
                    span@.style,
                    opts,
                ));
            }
            seg = gs[k].clone();
            *line_length = gw as u128;
        }
        k = k + 1;
    }

    proof {
        assert(gseq.skip(k as int) =~= Seq::<Seq<char>>::empty());
        assert(full.0 == completed + seq![seg@]);
        assert(full.1 == *line_length as int);
    }
    let ghost last_seg = seg@;
    let ghost prev_frags = frags_view(results@);
    results.push(Fragment::Span(Span { content: seg, style: span.style }, opts));
    proof {
        lemma_segments_frags_snoc(completed, last_seg, span@.style, opts);
        assert(completed + seq![last_seg] =~= full.0);
        assert(frags_view(results@) =~= prev_frags + seq![
            FragView::Span(SpanView { text: last_seg, style: span@.style }, opts),
        ]);
        assert(frags_view(results@) =~= frags_view(old(results)@) + segments_frags(
            full.0,
            span@.style,
            opts,
        ));
    }
}

proof fn lemma_closed_frags_snoc(
    segs: Seq<Seq<char>>,
    last: Seq<char>,
    style: tui::style::Style,
    opts: SpanOptions,
)
    ensures
        closed_frags(segs + seq![last], style, opts) == closed_frags(segs, style, opts) + seq![
            FragView::Span(SpanView { text: last, style }, opts),
            FragView::Line,
        ],
    decreases segs.len(),
{
    if segs.len() == 0 {
        assert(segs + seq![last] =~= seq![last]);
        assert((seq![last]).drop_first() =~= Seq::<Seq<char>>::empty());
        assert(closed_frags(Seq::<Seq<char>>::empty(), style, opts) == Seq::<FragView>::empty());
        assert(closed_frags(segs + seq![last], style, opts) =~= closed_frags(segs, style, opts)
            + seq![FragView::Span(SpanView { text: last, style }, opts), FragView::Line]);
    } else {
        let s = segs + seq![last];
        assert(s[0] == segs[0]);
        assert(s.drop_first() =~= segs.drop_first() + seq![last]);
        lemma_closed_frags_snoc(segs.drop_first(), last, style, opts);
        assert(closed_frags(s, style, opts) == seq![
            FragView::Span(SpanView { text: s[0], style }, opts),
            FragView::Line,
        ] + closed_frags(s.drop_first(), style, opts));
        assert(closed_frags(segs, style, opts) == seq![
            FragView::Span(SpanView { text: segs[0], style }, opts),
            FragView::Line,
        ] + closed_frags(segs.drop_first(), style, opts));
        assert(closed_frags(s, style, opts) =~= closed_frags(segs, style, opts) + seq![
            FragView::Span(SpanView { text: last, style }, opts),
            FragView::Line,
        ]);
        assert(closed_frags(segs + seq![last], style, opts) == closed_frags(s, style, opts));
    }
}

/// Wrap the given `fragments` by their letters to fit within the given
/// `area_width`.
///
/// Returns a new vector containing the given fragments with line breaks
/// inserted at appropriate places. This only splits span fragments, so long
/// runs of character fragments may still overflow the given `area_width`.
pub fn by_letters(fragments: &[Fragment], area_width: u16) -> (r: Vec<Fragment>)
    ensures
        frags_view(r@) == wrap_letters(frags_view(fragments@), area_width, 0).0,
{
    let ghost views = frags_view(fragments@);
    let mut results: Vec<Fragment> = Vec::new();
    let mut line_length: u128 = 0;
    let mut i: usize = 0;

    proof {
        assert(views.skip(0) =~= views);
    }

    while i < fragments.len()
        invariant
            views == frags_view(fragments@),
            0 <= i <= fragments@.len(),
            line_length <= usize::MAX as int + i,
            wrap_letters(views, area_width, 0).0 == frags_view(results@) + wrap_letters(
                views.skip(i as int),
                area_width,
                line_length as int,
            ).0,
            wrap_letters(views, area_width, 0).1 == wrap_letters(
                views.skip(i as int),
                area_width,
                line_length as int,
            ).1,
        decreases fragments@.len() - i,
    {
        proof {
            assert(views.skip(i as int)[0] == views[i as int]);
            assert(views.skip(i as int).drop_first() =~= views.skip(i as int + 1));
        }
        match &fragments[i] {
            Fragment::Span(span, opts) => {
                wrap_span_letters(span, *opts, area_width, &mut line_length, &mut results);
            },
            Fragment::Line => {
                line_length = 0;
                results.push(Fragment::Line);
            },
            Fragment::Char(ch, style) => {
                line_length = line_length + 1;
                results.push(Fragment::Char(*ch, *style));
            },
        }
        i = i + 1;
    }
    proof {
        assert(views.skip(fragments@.len() as int) =~= Seq::<FragView>::empty());
    }
    results
}

/// The widths of a run's grapheme clusters, summed.
pub open spec fn graphemes_measure(gs: Seq<Seq<char>>, opts: SpanOptions) -> nat
    decreases gs.len(),
{
    if gs.len() == 0 {
        0
    } else {
        spec_measure(gs[0], opts) + graphemes_measure(gs.drop_first(), opts)
    }
}

/// A run's grapheme clusters all fit as they come: scanned with the running
/// line width, no cluster's addition ever passes `width`.
pub open spec fn fits_graphemes(
    gs: Seq<Seq<char>>,
    opts: SpanOptions,
    width: u16,
    line: int,
) -> bool
    decreases gs.len(),
{
    if gs.len() == 0 {
        true
    } else {
        let gw = spec_measure(gs[0], opts) as int;
        line + gw <= width && fits_graphemes(gs.drop_first(), opts, width, line + gw)
    }
}

/// A fragment sequence already fits within `width`: scanning it with the
/// running line width that `by_letters` uses, no span's grapheme cluster
/// ever passes `width`. Character fragments never cause a split, so they
/// carry no condition beyond advancing the counter.
pub open spec fn fits_letters(fs: Seq<FragView>, width: u16, line: int) -> bool
    decreases fs.len(),
{
    if fs.len() == 0 {
        true
    } else {
        match fs[0] {
            FragView::Span(sv, opts) => fits_graphemes(graphemes(sv.text), opts, width, line)
                && fits_letters(
                fs.drop_first(),
                width,
                line + graphemes_measure(graphemes(sv.text), opts),
            ),
            FragView::Char(_, _) => fits_letters(fs.drop_first(), width, line + 1),
            FragView::Line => fits_letters(fs.drop_first(), width, 0),
        }
    }
}

/// A run whose clusters all fit stays one segment: the whole text, with the
/// line width advanced by its full measure.
proof fn lemma_wrap_span_fits(
    gs: Seq<Seq<char>>,
    opts: SpanOptions,
    width: u16,
    line: int,
    cur: Seq<char>,
)
    requires
        fits_graphemes(gs, opts, width, line),
    ensures
        wrap_span_segments(gs, opts, width, line, cur) == (
            seq![cur + concat_all(gs)],
            line + graphemes_measure(gs, opts),
        ),
    decreases gs.len(),
{
    if gs.len() == 0 {
        assert(cur + concat_all(gs) =~= cur);
    } else {
        lemma_wrap_span_fits(
            gs.drop_first(),
            opts,
            width,
            line + spec_measure(gs[0], opts),
            cur + gs[0],
        );
        assert((cur + gs[0]) + concat_all(gs.drop_first()) =~= cur + concat_all(gs));
    }
}

/// Wrapping a fragment sequence that already fits within `width` returns
/// the same sequence: `by_letters` inserts no break and copies no run. The
/// segmentation hypothesis states, of each run, what the grapheme
/// segmentation of every real string satisfies: the clusters concatenate
/// back to the text.
pub proof fn lemma_by_letters_unchanged(fs: Seq<FragView>, width: u16, line: int)
    requires
        fits_letters(fs, width, line),
        forall|i: int|
            0 <= i < fs.len() ==> (match #[trigger] fs[i] {
                FragView::Span(sv, _) => concat_all(graphemes(sv.text)) == sv.text,
                _ => true,
            }),
    ensures
        wrap_letters(fs, width, line).0 == fs,
    decreases fs.len(),
{
    if fs.len() > 0 {
        let tail = fs.drop_first();
        assert(forall|i: int|
            0 <= i < tail.len() ==> tail[i] == fs[i + 1]);
        match fs[0] {
            FragView::Span(sv, opts) => {
                lemma_wrap_span_fits(graphemes(sv.text), opts, width, line, Seq::empty());
                assert(Seq::empty() + concat_all(graphemes(sv.text)) =~= sv.text);
                lemma_by_letters_unchanged(
                    tail,
                    width,
                    line + graphemes_measure(graphemes(sv.text), opts),
                );
                assert(segments_frags(seq![sv.text], sv.style, opts) =~= seq![fs[0]]);
                assert(wrap_letters(fs, width, line).0 =~= fs);
            },
            FragView::Char(_, _) => {
                lemma_by_letters_unchanged(tail, width, line + 1);
                assert(wrap_letters(fs, width, line).0 =~= fs);
            },
            FragView::Line => {
                lemma_by_letters_unchanged(tail, width, 0);
                assert(wrap_letters(fs, width, line).0 =~= fs);
            },
        }
    }
}

/// The encoding of a concatenation is the concatenation of the encodings.
proof fn lemma_encode_utf8_concat(a: Seq<char>, b: Seq<char>)
    ensures
        vstd::utf8::encode_utf8(a + b) == vstd::utf8::encode_utf8(a) + vstd::utf8::encode_utf8(b),
    decreases a.len(),
{
    if a.len() == 0 {
        assert(a + b =~= b);
        assert(vstd::utf8::encode_utf8(a) + vstd::utf8::encode_utf8(b) =~= vstd::utf8::encode_utf8(
            b,
        ));
    } else {
        assert((a + b)[0] == a[0]);
        assert((a + b).drop_first() =~= a.drop_first() + b);
        lemma_encode_utf8_concat(a.drop_first(), b);
        assert(vstd::utf8::encode_utf8(a + b) =~= vstd::utf8::encode_utf8(a)
            + vstd::utf8::encode_utf8(b));
    }
}

/// A span's measure distributes over concatenation, in both measurement
/// modes.
pub proof fn lemma_measure_concat(a: Seq<char>, b: Seq<char>, opts: SpanOptions)
    ensures
        spec_measure(a + b, opts) == spec_measure(a, opts) + spec_measure(b, opts),
{
    if opts.unicode_aware {
        crate::unicode::lemma_text_width_concat(a, b);
    } else {
        lemma_encode_utf8_concat(a, b);
    }
}

/// The segments of a wrapped run hold exactly the run's content, in order:
/// nothing is dropped or duplicated.
pub proof fn lemma_wrap_span_segments_concat(
    gs: Seq<Seq<char>>,
    opts: SpanOptions,
    width: u16,
    line: int,
    cur: Seq<char>,
)
    ensures
        concat_all(wrap_span_segments(gs, opts, width, line, cur).0) == cur + concat_all(gs),
    decreases gs.len(),
{
    if gs.len() == 0 {
        assert((seq![cur]).drop_first() =~= Seq::<Seq<char>>::empty());
        assert(concat_all(Seq::<Seq<char>>::empty()) == Seq::<char>::empty());
        assert(concat_all(seq![cur]) =~= cur + Seq::<char>::empty());
        assert(cur + Seq::<char>::empty() =~= cur);
        assert(cur + concat_all(gs) =~= cur);
    } else {
        let gw = spec_measure(gs[0], opts) as int;
        if line + gw <= width {
            lemma_wrap_span_segments_concat(gs.drop_first(), opts, width, line + gw, cur + gs[0]);
            assert((cur + gs[0]) + concat_all(gs.drop_first()) =~= cur + concat_all(gs));
        } else {
            lemma_wrap_span_segments_concat(gs.drop_first(), opts, width, gw, gs[0]);
            let rest = wrap_span_segments(gs.drop_first(), opts, width, gw, gs[0]).0;
            assert(concat_all(seq![cur] + rest) =~= cur + concat_all(rest)) by {
                assert((seq![cur] + rest)[0] == cur);
                assert((seq![cur] + rest).drop_first() =~= rest);
            }
            assert(cur + (gs[0] + concat_all(gs.drop_first())) =~= cur + concat_all(gs));
        }
    }
}

/// The fragments of a segment list measure exactly the concatenated
/// segments: the inserted breaks add nothing.
proof fn lemma_segments_frags_len(
    segs: Seq<Seq<char>>,
    style: tui::style::Style,
    opts: SpanOptions,
)
    ensures
        frags_len(segments_frags(segs, style, opts)) == spec_measure(concat_all(segs), opts),
    decreases segs.len(),
{
    if segs.len() == 0 {
        assert(concat_all(segs) =~= Seq::<char>::empty());
        if opts.unicode_aware {
        } else {
        }
    } else if segs.len() == 1 {
        let f = FragView::Span(SpanView { text: segs[0], style }, opts);
        assert(segments_frags(segs, style, opts) =~= seq![f]);
        assert(frags_len(seq![f]) == frag_len(f)) by {
            assert(seq![f].drop_last() =~= Seq::<FragView>::empty());
            assert(frags_len(Seq::<FragView>::empty()) == 0);
        }
        assert(segs.drop_first() =~= Seq::<Seq<char>>::empty());
        assert(concat_all(segs.drop_first()) == Seq::<char>::empty());
        assert(concat_all(segs) =~= segs[0] + Seq::<char>::empty());
        lemma_measure_concat(segs[0], Seq::empty(), opts);
        assert(spec_measure(Seq::<char>::empty(), opts) == 0);
        assert(segs[0] + Seq::<char>::empty() =~= segs[0]);
    } else {
        lemma_segments_frags_len(segs.drop_first(), style, opts);
        let f = FragView::Span(SpanView { text: segs[0], style }, opts);
        lemma_frags_len_concat(
            seq![f, FragView::Line],
            segments_frags(segs.drop_first(), style, opts),
        );
        assert(frags_len(seq![f, FragView::Line]) == frag_len(f)) by {
            assert(seq![f, FragView::Line].drop_last() =~= seq![f]);
            assert(seq![f].drop_last() =~= Seq::<FragView>::empty());
            assert(frags_len(Seq::<FragView>::empty()) == 0);
            assert(frags_len(seq![f]) == frag_len(f));
            assert(seq![f, FragView::Line].last() == FragView::Line);
        }
        lemma_measure_concat(segs[0], concat_all(segs.drop_first()), opts);
        assert(segs[0] + concat_all(segs.drop_first()) =~= concat_all(segs));
    }
}

/// Fragment length sums distribute over concatenation.
pub proof fn lemma_frags_len_concat(a: Seq<FragView>, b: Seq<FragView>)
    ensures
        frags_len(a + b) == frags_len(a) + frags_len(b),
    decreases b.len(),
{
    if b.len() == 0 {
        assert(a + b =~= a);
    } else {
        lemma_frags_len_concat(a, b.drop_last());
        assert((a + b).drop_last() =~= a + b.drop_last());
        assert((a + b).last() == b.last());
    }
}

/// Wrapping redistributes content but never drops or duplicates it: the
/// fragments `by_letters` returns have the same total length as its input,
/// the inserted breaks counting for nothing. The segmentation hypothesis
/// states, of each run, what the grapheme segmentation of every real string
/// satisfies: the clusters concatenate back to the text.
pub proof fn lemma_by_letters_coverage(fs: Seq<FragView>, width: u16, line: int)
    requires
        forall|i: int|
            0 <= i < fs.len() ==> (match #[trigger] fs[i] {
                FragView::Span(sv, _) => concat_all(graphemes(sv.text)) == sv.text,
                _ => true,
            }),
    ensures
        frags_len(wrap_letters(fs, width, line).0) == frags_len(fs),
    decreases fs.len(),
{
    if fs.len() > 0 {
        let tail = fs.drop_first();
        assert(forall|i: int| 0 <= i < tail.len() ==> tail[i] == fs[i + 1]);
        assert(fs =~= seq![fs[0]] + tail);
        lemma_frags_len_concat(seq![fs[0]], tail);
        assert(frags_len(seq![fs[0]]) == frag_len(fs[0])) by {
            assert(seq![fs[0]].drop_last() =~= Seq::<FragView>::empty());
            assert(frags_len(Seq::<FragView>::empty()) == 0);
        }
        match fs[0] {
            FragView::Span(sv, opts) => {
                let (segs, l1) = wrap_span_segments(
                    graphemes(sv.text),
                    opts,
                    width,
                    line,
                    Seq::empty(),
                );
                lemma_wrap_span_segments_concat(
                    graphemes(sv.text),
                    opts,
                    width,
                    line,
                    Seq::empty(),
                );
                assert(Seq::empty() + concat_all(graphemes(sv.text)) =~= sv.text);
                lemma_segments_frags_len(segs, sv.style, opts);
                lemma_by_letters_coverage(tail, width, l1);
                lemma_frags_len_concat(
                    segments_frags(segs, sv.style, opts),
                    wrap_letters(tail, width, l1).0,
                );
            },
            FragView::Char(_, _) => {
                lemma_by_letters_coverage(tail, width, line + 1);
                lemma_frags_len_concat(seq![fs[0]], wrap_letters(tail, width, line + 1).0);
            },
            FragView::Line => {
                lemma_by_letters_coverage(tail, width, 0);
                lemma_frags_len_concat(seq![fs[0]], wrap_letters(tail, width, 0).0);
            },
        }
    }
}

/// Segment `i` of a wrapped run is in order: it measures at most `width`,
/// or it is exactly one of the input clusters (placed alone when too wide),
/// or it is the still-open segment the wrap started from.
pub open spec fn segment_width_ok(
    segs: Seq<Seq<char>>,
    gs: Seq<Seq<char>>,
    cur: Seq<char>,
    opts: SpanOptions,
    width: u16,
    i: int,
) -> bool {
    ||| spec_measure(segs[i], opts) <= width
    ||| (exists|j: int| 0 <= j < gs.len() && segs[i] == gs[j])
    ||| (i == 0 && segs[0] == cur && spec_measure(cur, opts) > width)
}

proof fn lemma_wrap_span_segments_width(
    gs: Seq<Seq<char>>,
    opts: SpanOptions,
    width: u16,
    line: int,
    cur: Seq<char>,
)
    requires
        line == spec_measure(cur, opts),
    ensures
        forall|i: int|
            0 <= i < wrap_span_segments(gs, opts, width, line, cur).0.len()
                ==> #[trigger] segment_width_ok(
                wrap_span_segments(gs, opts, width, line, cur).0,
                gs,
                cur,
                opts,
                width,
                i,
            ),
    decreases gs.len(),
{
    if gs.len() > 0 {
        let gw = spec_measure(gs[0], opts) as int;
        let segs = wrap_span_segments(gs, opts, width, line, cur).0;
        if line + gw <= width {
            lemma_measure_concat(cur, gs[0], opts);
            lemma_wrap_span_segments_width(gs.drop_first(), opts, width, line + gw, cur + gs[0]);
            assert forall|i: int| 0 <= i < segs.len() implies segment_width_ok(
                segs,
                gs,
                cur,
                opts,
                width,
                i,
            ) by {
                let inner = wrap_span_segments(
                    gs.drop_first(),
                    opts,
                    width,
                    line + gw,
                    cur + gs[0],
                ).0;
                assert(segs == inner);
                assert(segment_width_ok(inner, gs.drop_first(), cur + gs[0], opts, width, i));
                if !(spec_measure(segs[i], opts) <= width) {
                    if exists|j: int| 0 <= j < gs.drop_first().len() && inner[i] == gs.drop_first()[j] {
                        let j = choose|j: int|
                            0 <= j < gs.drop_first().len() && inner[i] == gs.drop_first()[j];
                        assert(gs.drop_first()[j] == gs[j + 1]);
                    } else {
                        assert(i == 0 && inner[0] == cur + gs[0] && spec_measure(
                            cur + gs[0],
                            opts,
                        ) > width);
                        assert(spec_measure(cur + gs[0], opts) <= width);
                        assert(false);
                    }
                }
            }
        } else {
            lemma_wrap_span_segments_width(gs.drop_first(), opts, width, gw, gs[0]);
            let rest = wrap_span_segments(gs.drop_first(), opts, width, gw, gs[0]).0;
            assert(segs =~= seq![cur] + rest);
            assert forall|i: int| 0 <= i < segs.len() implies segment_width_ok(
                segs,
                gs,
                cur,
                opts,
                width,
                i,
            ) by {
                if i == 0 {
                    assert(segs[0] == cur);
                } else {
                    assert(segs[i] == rest[i - 1]);
                    assert(segment_width_ok(rest, gs.drop_first(), gs[0], opts, width, i - 1));
                    if !(spec_measure(segs[i], opts) <= width) {
                        if exists|j: int|
                            0 <= j < gs.drop_first().len() && rest[i - 1] == gs.drop_first()[j] {
                            let j = choose|j: int|
                                0 <= j < gs.drop_first().len() && rest[i - 1] == gs.drop_first()[j];
                            assert(gs.drop_first()[j] == gs[j + 1]);
                        } else {
                            assert(i - 1 == 0 && rest[0] == gs[0]);
                        }
                    }
                }
            }
        }
    }
}

/// The width bound: wrapping one run's grapheme clusters at `width`,
/// starting a fresh line, every produced line of it measures at most
/// `width`, except a line holding exactly one cluster that is wider than
/// `width` by itself, which is placed alone rather than dropped.
pub proof fn lemma_by_letters_width_bound(gs: Seq<Seq<char>>, opts: SpanOptions, width: u16)
    ensures
        forall|i: int|
            0 <= i < wrap_span_segments(gs, opts, width, 0, Seq::empty()).0.len()
                ==> #[trigger] segment_width_ok(
                wrap_span_segments(gs, opts, width, 0, Seq::empty()).0,
                gs,
                Seq::empty(),
                opts,
                width,
                i,
            ),
{
    assert(spec_measure(Seq::<char>::empty(), opts) == 0);
    lemma_wrap_span_segments_width(gs, opts, width, 0, Seq::empty());
}

/// The fragments one run yields when split at its literal newlines: maximal
/// non-empty stretches between newlines become spans, and every newline
/// becomes an explicit break, so consecutive newlines yield consecutive
/// breaks.
pub open spec fn newline_split(
    text: Seq<char>,
    cur: Seq<char>,
    style: tui::style::Style,
    opts: SpanOptions,
) -> Seq<FragView>
    decreases text.len(),
{
    if text.len() == 0 {
        if cur.len() == 0 {
            seq![]
        } else {
            seq![FragView::Span(SpanView { text: cur, style }, opts)]
        }
    } else if text[0] == '\n' {
        (if cur.len() == 0 {
            seq![]
        } else {
            seq![FragView::Span(SpanView { text: cur, style }, opts)]
        }) + seq![FragView::Line] + newline_split(text.drop_first(), Seq::empty(), style, opts)
    } else {
        newline_split(text.drop_first(), cur.push(text[0]), style, opts)
    }
}

/// Whether a run holds a literal newline.
pub open spec fn has_newline(text: Seq<char>) -> bool {
    exists|i: int| 0 <= i < text.len() && text[i] == '\n'
}

/// What one span fragment becomes under `by_newlines`: unchanged when it
/// holds no newline (even when empty), else split at its newlines.
pub open spec fn span_newline_frags(sv: SpanView, opts: SpanOptions) -> Seq<FragView> {
    if has_newline(sv.text) {
        newline_split(sv.text, Seq::empty(), sv.style, opts)
    } else {
        seq![FragView::Span(sv, opts)]
    }
}

/// The fragments `by_newlines` produces: spans split at their newlines,
/// newline characters replaced by breaks, everything else unchanged.
pub open spec fn wrap_newlines(fs: Seq<FragView>) -> Seq<FragView>
    decreases fs.len(),
{
    if fs.len() == 0 {
        seq![]
    } else {
        let rest = wrap_newlines(fs.drop_first());
        match fs[0] {
            FragView::Span(sv, opts) => span_newline_frags(sv, opts) + rest,
            FragView::Char(ch, _) => (if ch == '\n' {
                seq![FragView::Line]
            } else {
                seq![fs[0]]
            }) + rest,
            FragView::Line => seq![fs[0]] + rest,
        }
    }
}

/// Split one styled run at its literal newlines, pushing the resulting
/// fragments onto `results`. A run without newlines is pushed back whole.
fn wrap_span_newlines(span: &Span, opts: SpanOptions, results: &mut Vec<Fragment>)
    ensures
        frags_view(final(results)@) == frags_view(old(results)@) + span_newline_frags(
            span@,
            opts,
        ),
{
    let ghost text = span.content@;
    let len = span.content.as_str().unicode_len();
    let mut idx: usize = 0;
    let mut seg_start: usize = 0;
    let ghost mut emitted: Seq<FragView> = Seq::empty();

    proof {
        assert(text.skip(0) =~= text);
        assert(text.subrange(0, 0) =~= Seq::<char>::empty());
        assert(frags_view(results@) =~= frags_view(old(results)@) + emitted);
    }

    while idx < len
        invariant
            len == text.len(),
            text == span.content@,
            0 <= seg_start <= idx <= len,
            seg_start == 0 ==> forall|j: int| 0 <= j < idx ==> text[j] != '\n',
            seg_start == 0 ==> emitted == Seq::<FragView>::empty(),
            seg_start > 0 ==> has_newline(text),
            newline_split(text, Seq::empty(), span@.style, opts) == emitted + newline_split(
                text.skip(idx as int),
                text.subrange(seg_start as int, idx as int),
                span@.style,
                opts,
            ),
            frags_view(results@) == frags_view(old(results)@) + emitted,
        decreases len - idx,
    {
        proof {
            assert(text.skip(idx as int)[0] == text[idx as int]);
            assert(text.skip(idx as int).drop_first() =~= text.skip(idx as int + 1));
        }
        let c = span.content.as_str().get_char(idx);
        if c == '\n' {
            let ghost cur = text.subrange(seg_start as int, idx as int);
            let ghost prev_frags = frags_view(results@);
            if seg_start < idx {
                let sub = span.content.as_str().substring_char(seg_start, idx);
                results.push(
                    Fragment::Span(Span { content: sub.to_owned(), style: span.style }, opts),
                );
                results.push(Fragment::Line);
                proof {
                    assert(cur.len() > 0);
                    emitted = emitted + seq![
                        FragView::Span(SpanView { text: cur, style: span@.style }, opts),
                        FragView::Line,
                    ];
                    assert(frags_view(results@) =~= prev_frags + seq![
                        FragView::Span(SpanView { text: cur, style: span@.style }, opts),
                        FragView::Line,
                    ]);
                }
            } else {
                results.push(Fragment::Line);
                proof {
                    assert(cur =~= Seq::<char>::empty());
                    emitted = emitted + seq![FragView::Line];
                    assert(frags_view(results@) =~= prev_frags + seq![FragView::Line]);
                }
            }
            proof {
                assert(text.subrange(idx as int + 1, idx as int + 1) =~= Seq::<char>::empty());
            }
            seg_start = idx + 1;
        } else {
            proof {
                assert(text.subrange(seg_start as int, idx as int).push(text[idx as int])
                    =~= text.subrange(seg_start as int, idx as int + 1));
            }
        }
        idx = idx + 1;
    }

    proof {
        assert(text.skip(len as int) =~= Seq::<char>::empty());
    }
    if seg_start == 0 {
        let ghost prev_frags = frags_view(results@);
        results.push(Fragment::Span(span.clone(), opts));
        proof {
            assert(!has_newline(text)) by {
                if has_newline(text) {
                    let j = choose|j: int| 0 <= j < text.len() && text[j] == '\n';
                    assert(text[j] != '\n');
                }
            }
            assert(emitted =~= Seq::<FragView>::empty());
            assert(frags_view(results@) =~= prev_frags + seq![FragView::Span(span@, opts)]);
            assert(frags_view(results@) =~= frags_view(old(results)@) + span_newline_frags(
                span@,
                opts,
            ));
        }
    } else {
        let ghost cur = text.subrange(seg_start as int, len as int);
        if seg_start < len {
            let ghost prev_frags = frags_view(results@);
            let sub = span.content.as_str().substring_char(seg_start, len);
            results.push(
                Fragment::Span(Span { content: sub.to_owned(), style: span.style }, opts),
            );
            proof {
                assert(cur.len() > 0);
                emitted = emitted + seq![
                    FragView::Span(SpanView { text: cur, style: span@.style }, opts),
                ];
                assert(frags_view(results@) =~= prev_frags + seq![
                    FragView::Span(SpanView { text: cur, style: span@.style }, opts),
                ]);
            }
        } else {
            proof {
                assert(cur =~= Seq::<char>::empty());
            }
        }
        proof {
            assert(has_newline(text));
            assert(span_newline_frags(span@, opts) == emitted);
            assert(frags_view(results@) =~= frags_view(old(results)@) + span_newline_frags(
                span@,
                opts,
            ));
        }
    }
}

/// A fragment sequence with no literal newline anywhere returns unchanged
/// from `by_newlines`: no run is split and no break is inserted.
pub proof fn lemma_by_newlines_unchanged(fs: Seq<FragView>)
    requires
        forall|i: int|
            0 <= i < fs.len() ==> (match #[trigger] fs[i] {
                FragView::Span(sv, _) => !has_newline(sv.text),
                FragView::Char(ch, _) => ch != '\n',
                FragView::Line => true,
            }),
    ensures
        wrap_newlines(fs) == fs,
    decreases fs.len(),
{
    if fs.len() > 0 {
        let tail = fs.drop_first();
        assert(forall|i: int| 0 <= i < tail.len() ==> tail[i] == fs[i + 1]);
        lemma_by_newlines_unchanged(tail);
        match fs[0] {
            FragView::Span(sv, opts) => {
                assert(span_newline_frags(sv, opts) =~= seq![fs[0]]);
                assert(wrap_newlines(fs) =~= fs);
            },
            FragView::Char(_, _) => {
                assert(wrap_newlines(fs) =~= fs);
            },
            FragView::Line => {
                assert(wrap_newlines(fs) =~= fs);
            },
        }
    }
}

/// Wrap the given `fragments` by newline characters.
///
/// Returns a new vector containing the given fragments with every literal
/// newline replaced by an explicit line-break fragment.
pub fn by_newlines(fragments: &[Fragment]) -> (r: Vec<Fragment>)
    ensures
        frags_view(r@) == wrap_newlines(frags_view(fragments@)),
{
    let ghost views = frags_view(fragments@);
    let mut results: Vec<Fragment> = Vec::new();
    let mut i: usize = 0;

    proof {
        assert(views.skip(0) =~= views);
    }

    while i < fragments.len()
        invariant
            views == frags_view(fragments@),
            0 <= i <= fragments@.len(),
            wrap_newlines(views) == frags_view(results@) + wrap_newlines(views.skip(i as int)),
        decreases fragments@.len() - i,
    {
        proof {
            assert(views.skip(i as int)[0] == views[i as int]);
            assert(views.skip(i as int).drop_first() =~= views.skip(i as int + 1));
        }
        match &fragments[i] {
            Fragment::Span(span, opts) => {
                wrap_span_newlines(span, *opts, &mut results);
            },
            Fragment::Char(ch, style) => {
                if *ch == '\n' {
                    results.push(Fragment::Line);
                } else {
                    results.push(Fragment::Char(*ch, *style));
                }
            },
            Fragment::Line => {
                results.push(Fragment::Line);
            },
        }
        i = i + 1;
    }
    proof {
        assert(views.skip(fragments@.len() as int) =~= Seq::<FragView>::empty());
    }
    results
}

} // verus!
