//! What stands out on the screen, and what is dimmed.
use crate::model::snapshot::Connection;
use crate::num::Num;
use crate::ui::panels::engine::coverage_color;
use crate::ui::panels::human::value_span;
use crate::ui::panels::kv::count_color;
use crate::ui::theme::Theme;
use crate::ui::widgets::meter::meter_color;
use vstd::prelude::*;

verus! {

/// Values are dimmed while they are stale, and only then.
pub proof fn stale_values_are_dimmed(c: Connection)
    ensures
        c.dimmed_spec() <==> (c is Degraded || c is Lost),
        c is Pending || c is Live || c is MetricsDisabled ==> !c.dimmed_spec(),
{
}

/// A known value is upright in the foreground colour, an unknown one italic and inactive;
/// either is dimmed where it is asked for, and a value changes no style.
pub proof fn unknown_values_are_italic(
    v: Seq<char>,
    u: Seq<char>,
    width: int,
    th: Theme,
    dimmed: bool,
)
    ensures
        ({
            let (known, other, unknown) = (
                value_span(Some(v), width, th, dimmed).style,
                value_span(Some(u), width, th, dimmed).style,
                value_span(None, width, th, dimmed).style,
            );
            &&& known == other
            &&& known.fg == Some(th.color("main_fg"@)) && !known.italic
            &&& unknown.fg == Some(th.color("inactive_fg"@)) && unknown.italic
            &&& known.dim == dimmed && unknown.dim == dimmed
        }),
{
}

/// A share of passes under graphs stands out below 95 in a hundred, unless it is dimmed.
pub proof fn low_coverage_stands_out<N: Num>(share: N, th: Theme)
    ensures
        coverage_color(share, th, true) == th.color("inactive_fg"@),
        share.less_spec(N::of_count_spec(95).over_spec(N::of_count_spec(100))) ==> coverage_color(
            share,
            th,
            false,
        ) == th.color("hi_fg"@),
        !share.less_spec(N::of_count_spec(95).over_spec(N::of_count_spec(100))) ==> coverage_color(
            share,
            th,
            false,
        ) == th.color("main_fg"@),
{
}

/// A count that should be nought stands out as soon as it is not; others never do.
pub proof fn alarms_stand_out(n: u64, th: Theme)
    ensures
        count_color(Some(n), true, th) == th.color(
            if n == 0 {
                "graph_text"@
            } else {
                "hi_fg"@
            },
        ),
        count_color(Some(n), false, th) == th.color("graph_text"@),
        forall|alarm: bool| #[trigger] count_color(None, alarm, th) == th.color("inactive_fg"@),
{
}

/// The filled cells of a meter run evenly through the gradient, from its first colour to its
/// last: cell `i` of `n` has the shade `100 i / (n - 1)`, rounded down. The empty ones have
/// the ground of a meter.
pub proof fn meters_run_through_the_gradient(n: int, i: int, family: Seq<char>, th: Theme)
    requires
        0 <= i,
    ensures
        i >= n ==> meter_color(i, n, family, th) == th.color("meter_bg"@),
        n >= 1 ==> meter_color(0, n, family, th) == th.shade(family, 0),
        n >= 2 ==> meter_color(n - 1, n, family, th) == th.shade(family, 100),
        i < n ==> exists|pct: int| 0 <= pct <= 100 && meter_color(i, n, family, th)
            == #[trigger] th.shade(family, pct) && pct * (n - 1) <= 100 * i && (n >= 2 ==> 100 * i < (
        pct + 1) * (n - 1)),
{
    if n >= 2 {
        assert((n - 1) * 100 / (n - 1) == 100) by (nonlinear_arith)
            requires
                n >= 2,
        ;
        assert(0int * 100 / (n - 1) == 0) by (nonlinear_arith)
            requires
                n >= 2,
        ;
    }
    if i < n {
        let pct: int = if n <= 1 {
            0
        } else {
            i * 100 / (n - 1)
        };
        if n >= 2 {
            assert(0 <= pct <= 100 && pct * (n - 1) <= 100 * i && 100 * i < (pct + 1) * (n - 1)) by (nonlinear_arith)
                requires
                    n >= 2,
                    0 <= i <= n - 1,
                    pct == i * 100 / (n - 1),
            ;
        }
        assert(meter_color(i, n, family, th) == th.shade(family, pct));
    }
}

} // verus!
