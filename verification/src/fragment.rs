//! The text-fragment model: the smallest units of renderable content are a
//! styled run of text, a single styled character, and an explicit line
//! break. A sequence of fragments describes styled text across lines; the
//! queries here measure one line at a time and count lines.
use vstd::prelude::*;
use vstd::string::StringSliceAdditionalSpecFns;
use crate::cap16;
use crate::unicode::{display_width, text_width};

verus! {

/// A run of text drawn in one style.
#[derive(Debug)]
pub struct Span {
    pub content: String,
    pub style: tui::style::Style,
}

/// The mathematical image of a span: its characters and its style.
pub ghost struct SpanView {
    pub text: Seq<char>,
    pub style: tui::style::Style,
}

impl View for Span {
    type V = SpanView;

    open spec fn view(&self) -> SpanView {
        SpanView { text: self.content@, style: self.style }
    }
}

impl Span {
    /// A span of the given text in the default style.
    pub fn raw(content: &str) -> (s: Span)
        ensures
            s@.text == content@,
    {
        Span { content: content.to_owned(), style: tui::style::Style::default() }
    }

    /// A span of the given text in the given style.
    pub fn styled(content: &str, style: tui::style::Style) -> (s: Span)
        ensures
            s@.text == content@,
            s@.style == style,
    {
        Span { content: content.to_owned(), style }
    }

    /// The display width of the span's text.
    pub fn width(&self) -> (w: usize)
        ensures
            w == text_width(self@.text),
            w <= 2 * self@.text.len(),
    {
        display_width(self.content.as_str())
    }
}

impl Clone for Span {
    fn clone(&self) -> (r: Self)
        ensures
            r == *self,
    {
        Span { content: self.content.clone(), style: self.style }
    }
}

impl PartialEq for Span {
    fn eq(&self, other: &Self) -> (r: bool) {
        self.content == other.content && self.style == other.style
    }
}

impl vstd::std_specs::cmp::PartialEqSpecImpl for Span {
    open spec fn obeys_eq_spec() -> bool {
        true
    }

    open spec fn eq_spec(&self, other: &Self) -> bool {
        self@ == other@
    }
}

/// An action to perform on a span overflow.
#[derive(Clone, Copy, Debug, PartialEq, Eq, Structural)]
pub enum OverflowMode {
    /// Don't render the span at all.
    Hide,
    /// Render only the visible part of the span.
    Truncate,
}

impl Default for OverflowMode {
    fn default() -> (r: Self)
        ensures
            r == OverflowMode::Hide,
    {
        OverflowMode::Hide
    }
}

/// Options for a particular span of text.
#[derive(Clone, Copy, Debug, PartialEq, Eq, Structural)]
pub struct SpanOptions {
    /// Controls what happens when the span is larger than its render area.
    pub overflow: OverflowMode,
    /// Selects between display-width and byte-length measurement of the
    /// span's text.
    pub unicode_aware: bool,
}

/// The options a span carries when none are chosen: hide on overflow, and
/// measure by display width.
pub open spec fn spec_default_options() -> SpanOptions {
    SpanOptions { overflow: OverflowMode::Hide, unicode_aware: true }
}

impl SpanOptions {
    pub fn new() -> (r: Self)
        ensures
            r == spec_default_options(),
    {
        SpanOptions { overflow: OverflowMode::Hide, unicode_aware: true }
    }

    pub fn overflow(self, overflow: OverflowMode) -> (r: Self)
        ensures
            r == (SpanOptions { overflow, ..self }),
    {
        SpanOptions { overflow, ..self }
    }

    pub fn unicode_aware(self, unicode_aware: bool) -> (r: Self)
        ensures
            r == (SpanOptions { unicode_aware, ..self }),
    {
        SpanOptions { unicode_aware, ..self }
    }
}

impl Default for SpanOptions {
    fn default() -> (r: Self)
        ensures
            r == spec_default_options(),
    {
        SpanOptions::new()
    }
}

/// One atomic piece of renderable content.
#[derive(Debug)]
pub enum Fragment {
    /// A styled run of text with its options.
    Span(Span, SpanOptions),
    /// A single styled character, always one cell wide.
    Char(char, tui::style::Style),
    /// An explicit line break; it carries no content.
    Line,
}

/// The mathematical image of a fragment.
pub ghost enum FragView {
    Span(SpanView, SpanOptions),
    Char(char, tui::style::Style),
    Line,
}

impl View for Fragment {
    type V = FragView;

    open spec fn view(&self) -> FragView {
        match self {
            Fragment::Span(span, opts) => FragView::Span(span@, *opts),
            Fragment::Char(ch, style) => FragView::Char(*ch, *style),
            Fragment::Line => FragView::Line,
        }
    }
}

/// The views of a sequence of fragments.
pub open spec fn frags_view(s: Seq<Fragment>) -> Seq<FragView> {
    s.map_values(|f: Fragment| f@)
}

/// How many cells a span's text takes: its display width when it is
/// unicode-aware, else its length in bytes.
pub open spec fn spec_measure(text: Seq<char>, opts: SpanOptions) -> nat {
    if opts.unicode_aware {
        text_width(text)
    } else {
        vstd::utf8::encode_utf8(text).len()
    }
}

/// How many cells a fragment takes within its line: a span its measure, a
/// character one, a line break nothing.
pub open spec fn frag_len(f: FragView) -> nat {
    match f {
        FragView::Span(sv, opts) => spec_measure(sv.text, opts),
        FragView::Char(_, _) => 1,
        FragView::Line => 0,
    }
}

/// The cells a sequence of fragments takes, line breaks included at zero.
pub open spec fn frags_len(s: Seq<FragView>) -> nat
    decreases s.len(),
{
    if s.len() == 0 {
        0
    } else {
        frags_len(s.drop_last()) + frag_len(s.last())
    }
}

/// The number of explicit line breaks in a sequence of fragments.
pub open spec fn count_lines(s: Seq<FragView>) -> nat
    decreases s.len(),
{
    if s.len() == 0 {
        0
    } else {
        count_lines(s.drop_last()) + (if s.last() is Line {
            1nat
        } else {
            0nat
        })
    }
}

/// The index of the first explicit line break, or the length when there is
/// none.
pub open spec fn first_line_idx(s: Seq<FragView>) -> nat
    decreases s.len(),
{
    if s.len() == 0 {
        0
    } else if s[0] is Line {
        0
    } else {
        1 + first_line_idx(s.drop_first())
    }
}

/// The fragments of the current line: everything before the first explicit
/// line break.
pub open spec fn line_prefix(s: Seq<FragView>) -> Seq<FragView> {
    s.take(first_line_idx(s) as int)
}

pub proof fn lemma_first_line_idx_of_clean_prefix(s: Seq<FragView>, i: int)
    requires
        0 <= i <= s.len(),
        forall|j: int| 0 <= j < i ==> !(s[j] is Line),
        i < s.len() ==> s[i] is Line,
    ensures
        first_line_idx(s) == i,
    decreases i,
{
    if s.len() > 0 && i > 0 {
        lemma_first_line_idx_of_clean_prefix(s.drop_first(), i - 1);
    }
}

impl Clone for Fragment {
    fn clone(&self) -> (r: Self)
        ensures
            r == *self,
    {
        match self {
            Fragment::Span(span, opts) => Fragment::Span(span.clone(), *opts),
            Fragment::Char(ch, style) => Fragment::Char(*ch, *style),
            Fragment::Line => Fragment::Line,
        }
    }
}

impl PartialEq for Fragment {
    fn eq(&self, other: &Self) -> (r: bool) {
        match (self, other) {
            (Fragment::Span(a, ao), Fragment::Span(b, bo)) => *a == *b && *ao == *bo,
            (Fragment::Char(a, asty), Fragment::Char(b, bsty)) => *a == *b && *asty == *bsty,
            (Fragment::Line, Fragment::Line) => true,
            _ => false,
        }
    }
}

impl vstd::std_specs::cmp::PartialEqSpecImpl for Fragment {
    open spec fn obeys_eq_spec() -> bool {
        true
    }

    open spec fn eq_spec(&self, other: &Self) -> bool {
        self@ == other@
    }
}

impl Fragment {
    /// A span fragment of the given text in the default style, with the
    /// default options.
    pub fn span(content: &str) -> (f: Fragment)
        ensures
            ({
                match f@ {
                    FragView::Span(sv, opts) => sv.text == content@ && opts
                        == spec_default_options(),
                    _ => false,
                }
            }),
    {
        Fragment::Span(Span::raw(content), SpanOptions::new())
    }

    /// Returns how many cells this fragment takes within its line.
    pub fn len(&self) -> (r: u16)
        ensures
            r == cap16(frag_len(self@) as int),
    {
        match self {
            Fragment::Span(span, opts) => {
                if opts.unicode_aware {
                    crate::cap_u16(span.width())
                } else {
                    crate::cap_u16(span.content.as_str().as_bytes().len())
                }
            },
            Fragment::Char(_, _) => 1,
            Fragment::Line => 0,
        }
    }

    /// Calculate the total length of all the given items, line breaks
    /// included at length zero.
    pub fn total_len(items: &[Fragment]) -> (r: u16)
        ensures
            r == cap16(frags_len(frags_view(items@)) as int),
    {
        let ghost views = frags_view(items@);
        let mut acc: u16 = 0;
        let mut i: usize = 0;
        while i < items.len()
            invariant
                0 <= i <= items@.len(),
                views == frags_view(items@),
                acc == cap16(frags_len(views.take(i as int)) as int),
            decreases items@.len() - i,
        {
            proof {
                assert(views.take(i + 1).drop_last() =~= views.take(i as int));
                assert(views.take(i + 1).last() == items@[i as int]@);
            }
            acc = crate::sat_add_u16(acc, items[i].len());
            i = i + 1;
        }
        proof {
            assert(views.take(items@.len() as int) =~= views);
        }
        acc
    }

    /// Returns the items on the current line: everything before the first
    /// line-break fragment.
    pub fn line_items(items: &[Fragment]) -> (r: Vec<Fragment>)
        ensures
            frags_view(r@) == line_prefix(frags_view(items@)),
    {
        let ghost views = frags_view(items@);
        let mut r: Vec<Fragment> = Vec::new();
        let mut i: usize = 0;
        while i < items.len() && !items[i].is_line()
            invariant
                0 <= i <= items@.len(),
                views == frags_view(items@),
                forall|j: int| 0 <= j < i ==> !(#[trigger] views[j] is Line),
                r@ =~= items@.take(i as int),
            decreases items@.len() - i,
        {
            r.push(items[i].clone());
            proof {
                assert(r@ =~= items@.take(i + 1));
            }
            i = i + 1;
        }
        proof {
            lemma_first_line_idx_of_clean_prefix(views, i as int);
            assert(frags_view(items@.take(i as int)) =~= views.take(i as int));
        }
        r
    }

    /// Returns the total length of the current line of the given items.
    pub fn line_len(items: &[Fragment]) -> (r: u16)
        ensures
            r == cap16(frags_len(line_prefix(frags_view(items@))) as int),
    {
        let line = Fragment::line_items(items);
        Fragment::total_len(line.as_slice())
    }

    /// Returns the total number of lines in the given items: one more than
    /// the number of explicit line breaks, so an empty sequence is a single
    /// empty line.
    pub fn num_lines(items: &[Fragment]) -> (r: u16)
        ensures
            r == cap16(1 + count_lines(frags_view(items@)) as int),
    {
        let ghost views = frags_view(items@);
        let mut count: usize = 0;
        let mut i: usize = 0;
        while i < items.len()
            invariant
                0 <= i <= items@.len(),
                views == frags_view(items@),
                count == count_lines(views.take(i as int)),
                count <= i,
            decreases items@.len() - i,
        {
            proof {
                assert(views.take(i + 1).drop_last() =~= views.take(i as int));
                assert(views.take(i + 1).last() == items@[i as int]@);
            }
            if items[i].is_line() {
                count = count + 1;
            }
            i = i + 1;
        }
        proof {
            assert(views.take(items@.len() as int) =~= views);
        }
        if count >= u16::MAX as usize {
            u16::MAX
        } else {
            (count + 1) as u16
        }
    }

    /// Whether this fragment is an explicit line break.
    pub fn is_line(&self) -> (r: bool)
        ensures
            r == (self@ is Line),
    {
        matches!(self, Fragment::Line)
    }
}

} // verus!
