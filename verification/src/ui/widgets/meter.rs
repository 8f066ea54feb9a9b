//! Meters: runs of blocks.
use crate::num::{ceiling, ceiling_spec, unit, unit_spec, Num};
use crate::ui::cells::{add_span, char_text, extend_spans, ink, sp, spans_view, Color, LineView, Span};
use crate::ui::theme::Theme;
use vstd::prelude::*;
use vstd::string::*;

verus! {

pub const BLOCK: char = '■';

/// How many cells of a meter are filled: those that the share covers, and the one
/// that it covers in part.
pub open spec fn filled<N: Num>(frac: N, width: u64) -> u64 {
    ceiling_spec(unit_spec(frac).times_spec(N::of_count_spec(width)), width)
}

/// The colour of cell `i` of a meter of which `n` cells are filled: the gradient runs
/// across the filled cells.
pub open spec fn meter_color(i: int, n: int, family: Seq<char>, th: Theme) -> Color {
    if i < n {
        th.shade(
            family,
            if n <= 1 {
                0
            } else {
                i * 100 / (n - 1)
            },
        )
    } else {
        th.color("meter_bg"@)
    }
}

/// A meter of `width` cells.
pub open spec fn meter_line<N: Num>(frac: N, width: nat, family: Seq<char>, th: Theme) -> LineView {
    Seq::new(
        width,
        |i: int|
            sp(seq![BLOCK], ink(meter_color(i, filled(frac, width as u64) as int, family, th))),
    )
}

/// A meter run: `width` cells of `■`, each filled cell taking the next colour from
/// the family's gradient. Unfilled cells sit in `meter_bg`. `frac` is held to 0..=1.
/// The partly filled cell is rendered filled.
pub fn meter_spans<N: Num>(frac: N, width: usize, family: &str, th: &Theme) -> (r: Vec<Span>)
    ensures
        spans_view(r@) == meter_line(frac, width as nat, family@, *th),
{
    let n: u64 = ceiling(unit(frac).times(N::of_count(width as u64)), width as u64);
    let ghost all = meter_line(frac, width as nat, family@, *th);
    let mut out: Vec<Span> = Vec::new();
    let mut i: usize = 0;
    assert(spans_view(out@) =~= all.take(0));
    while i < width
        invariant
            i <= width,
            all == meter_line(frac, width as nat, family@, *th),
            n == filled(frac, width as u64),
            spans_view(out@) == all.take(i as int),
        decreases width - i,
    {
        let color = if (i as u64) < n {
            let pct: usize = if n <= 1 {
                0
            } else {
                proof {
                    assert(i * 100 / (n - 1) <= 100) by (nonlinear_arith)
                        requires
                            0 <= i <= n - 1,
                            n > 1,
                    ;
                    assert(i * 100 / (n - 1) >= 0) by (nonlinear_arith)
                        requires
                            0 <= i,
                            n > 1,
                    ;
                }
                ((i as u128 * 100) / (n as u128 - 1)) as usize
            };
            th.grad(family, pct)
        } else {
            th.c("meter_bg")
        };
        add_span(&mut out, char_text(BLOCK).as_str(), ink(color));
        i += 1;
        assert(spans_view(out@) =~= all.take(i as int));
    }
    assert(all.take(width as int) =~= all);
    out
}

/// A meter between thin vertical caps.
pub open spec fn bar_line<N: Num>(frac: N, width: nat, family: Seq<char>, th: Theme) -> LineView {
    let cap = ink(th.color("meter_bg"@));
    seq![sp("▏"@, cap)] + meter_line(frac, width, family, th) + seq![sp("▕"@, cap)]
}

/// A meter run boxed in thin vertical caps. `width` is the run length *between* the
/// caps. Caps take `meter_bg` so the box reads as one unit whether or not the bar is
/// full.
pub fn meter_bar<N: Num>(frac: N, width: usize, family: &str, th: &Theme) -> (r: Vec<Span>)
    ensures
        spans_view(r@) == bar_line(frac, width as nat, family@, *th),
{
    let cap = ink(th.c("meter_bg"));
    let mut out: Vec<Span> = Vec::new();
    add_span(&mut out, "▏", cap);
    extend_spans(&mut out, meter_spans(frac, width, family, th));
    add_span(&mut out, "▕", cap);
    assert(spans_view(out@) =~= bar_line(frac, width as nat, family@, *th));
    out
}

/// A meter is exactly as wide as asked, whatever it shows.
pub proof fn meter_width_is_exact<N: Num>(frac: N, width: nat, family: Seq<char>, th: Theme)
    ensures
        meter_line(frac, width, family, th).len() == width,
        bar_line(frac, width, family, th).len() == width + 2,
{
}

}
