//! The languages that the editor highlights.

use vstd::prelude::*;

verus! {

/// A language with syntax highlighting.
#[derive(Clone, Copy, Debug, PartialEq, Eq, Structural)]
pub enum SupportedLanguage {
    Rust,
    Cpp,
    Python,
}

impl SupportedLanguage {
    /// The name of the language, as grammars and highlight queries refer to
    /// it.
    pub open spec fn name(self) -> Seq<char> {
        match self {
            SupportedLanguage::Rust => "rust"@,
            SupportedLanguage::Cpp => "cpp"@,
            SupportedLanguage::Python => "python"@,
        }
    }

    /// The name of the language.
    pub fn to_string(&self) -> (name: String)
        ensures
            name@ == self.name(),
    {
        match self {
            SupportedLanguage::Rust => "rust".to_owned(),
            SupportedLanguage::Cpp => "cpp".to_owned(),
            SupportedLanguage::Python => "python".to_owned(),
        }
    }
}

/// One step of a highlighter's walk through a text.
#[derive(Clone, Copy, Debug, PartialEq, Eq)]
pub enum HighlightEvent {
    /// The bytes from `start` up to `end` come next.
    Source { start: usize, end: usize },
    /// From here on the text has this highlight, until it ends.
    HighlightStart(usize),
    /// The highlight that started last ends here.
    HighlightEnd,
}

/// A stretch of text with the highlight that it has.
#[derive(Clone, Copy, Debug, PartialEq, Eq)]
pub struct Span {
    pub start: usize,
    pub end: usize,
    pub highlight: usize,
}

/// The highlights that are open after `events`, the innermost last. An end
/// without a start closes nothing.
pub open spec fn open_highlights(events: Seq<HighlightEvent>) -> Seq<usize>
    decreases events.len(),
{
    if events.len() == 0 {
        Seq::empty()
    } else {
        let before = open_highlights(events.drop_last());
        match events.last() {
            HighlightEvent::Source { start, end } => before,
            HighlightEvent::HighlightStart(h) => before.push(h),
            HighlightEvent::HighlightEnd => if before.len() > 0 {
                before.drop_last()
            } else {
                before
            },
        }
    }
}

/// The highlight of text that follows `events`: the innermost open one, or
/// highlight 0 where none is open.
pub open spec fn current_highlight(events: Seq<HighlightEvent>) -> usize {
    let open = open_highlights(events);
    if open.len() > 0 {
        open.last()
    } else {
        0
    }
}

/// The stretches of text in `events`, in order, each with the highlight
/// that is current where it stands.
pub open spec fn spans_of(events: Seq<HighlightEvent>) -> Seq<Span>
    decreases events.len(),
{
    if events.len() == 0 {
        Seq::empty()
    } else {
        let before = spans_of(events.drop_last());
        match events.last() {
            HighlightEvent::Source { start, end } => before.push(
                Span { start, end, highlight: current_highlight(events.drop_last()) },
            ),
            _ => before,
        }
    }
}

/// Turns a highlighter's events into stretches of text with one highlight
/// each.
pub fn highlight_spans(events: &[HighlightEvent]) -> (spans: Vec<Span>)
    ensures
        spans@ == spans_of(events@),
{
    let mut open: Vec<usize> = Vec::new();
    let mut spans: Vec<Span> = Vec::new();
    let mut i: usize = 0;
    while i < events.len()
        invariant
            i <= events.len(),
            open@ == open_highlights(events@.subrange(0, i as int)),
            spans@ == spans_of(events@.subrange(0, i as int)),
        decreases events.len() - i,
    {
        assert(events@.subrange(0, i + 1).drop_last() =~= events@.subrange(0, i as int));
        match events[i] {
            HighlightEvent::Source { start, end } => {
                let highlight: usize = if open.len() > 0 {
                    open[open.len() - 1]
                } else {
                    0
                };
                spans.push(Span { start, end, highlight });
            },
            HighlightEvent::HighlightStart(h) => {
                open.push(h);
            },
            HighlightEvent::HighlightEnd => {
                open.pop();
            },
        }
        i += 1;
    }
    assert(events@.subrange(0, i as int) =~= events@);
    spans
}

} // verus!
