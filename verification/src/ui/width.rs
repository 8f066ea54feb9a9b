//! How many columns a text takes on the terminal.
use crate::ui::cells::{spans_view, LineView, Span};
use vstd::prelude::*;

verus! {

/// The columns that `unicode_width` gives a text.
pub uninterp spec fn display_width(s: Seq<char>) -> usize;

/// `unicode_width::UnicodeWidthStr::width`: the number of columns of a text, a
/// function of its characters alone.
#[verifier::external_body]
pub(crate) fn text_width(s: &str) -> (r: usize)
    ensures
        r == display_width(s@),
{
    unicode_width::UnicodeWidthStr::width(s)
}

/// The columns of a line.
pub open spec fn line_width(line: LineView) -> nat
    decreases line.len(),
{
    if line.len() == 0 {
        0
    } else {
        line_width(line.drop_last()) + display_width(line.last().text) as nat
    }
}

/// The columns of a line, held to the largest size.
pub fn width_of(spans: &Vec<Span>) -> (r: usize)
    ensures
        r == if line_width(spans_view(spans@)) > usize::MAX {
            usize::MAX as nat
        } else {
            line_width(spans_view(spans@))
        },
{
    let ghost all = spans_view(spans@);
    let mut sum: usize = 0;
    let n: usize = spans.len();
    let mut i: usize = 0;
    assert(all.take(0) =~= Seq::empty());
    while i < n
        invariant
            i <= n,
            n == spans@.len(),
            all == spans_view(spans@),
            sum == if line_width(all.take(i as int)) > usize::MAX {
                usize::MAX as nat
            } else {
                line_width(all.take(i as int))
            },
        decreases n - i,
    {
        assert(all.take(i + 1).drop_last() =~= all.take(i as int));
        sum = sum.saturating_add(text_width(spans[i].content.as_str()));
        i += 1;
    }
    assert(all.take(n as int) =~= all);
    sum
}

/// The columns of a line, by the remainder that fits 16 bits.
pub fn width16_of(spans: &Vec<Span>) -> (r: u16)
    ensures
        r == line_width(spans_view(spans@)) % 0x1_0000,
{
    let ghost all = spans_view(spans@);
    let mut sum: u32 = 0;
    let n: usize = spans.len();
    let mut i: usize = 0;
    assert(all.take(0) =~= Seq::empty());
    while i < n
        invariant
            i <= n,
            n == spans@.len(),
            all == spans_view(spans@),
            sum == line_width(all.take(i as int)) % 0x1_0000,
        decreases n - i,
    {
        assert(all.take(i + 1).drop_last() =~= all.take(i as int));
        let w: usize = text_width(spans[i].content.as_str());
        sum = (sum + (w % 0x1_0000) as u32) % 0x1_0000;
        i += 1;
    }
    assert(all.take(n as int) =~= all);
    sum as u16
}

}
