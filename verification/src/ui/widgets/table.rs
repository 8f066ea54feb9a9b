//! The table of ranks: its order, its rows, and one row in full.
use crate::model::snapshot::{RankGranularity, RankRow, Snapshot};
use crate::num::Num;
use crate::text::{cat, cat4, decimal, decimal_text, opt_view, pad_left, pad_right, padded_left,
    padded_right, run_of};
use crate::ui::cells::{add_span, bold, fits, ground, ink, italic, lines_view, mark_view, push_line,
    push_span, shaped, sp, spans_view, stamp, stamped, tint, tinted, Buffer, Grid, Line, LineView,
    Mark, Rect, Span, SpanView, Style};
use crate::ui::frame::{below, lines_written, rest_of, write_lines};
use crate::ui::panels::human::{count_text, human_count, human_pct, human_rate, pct_text, rate_text,
    value_cell, value_span};
use crate::ui::panels::rows::{add_known, add_title, add_value, fixed_if_known, fixed_known, known_sp,
    pct_if_known, pct_known, title_sp};
use crate::ui::terminal::{drawn_view, scroll_cells, scroll_drawn, Drawn};
use crate::ui::theme::Theme;
use crate::ui::widgets::block::{spark_drawn, sparkline};
use crate::ui::widgets::braille::{braille_drawn, draw};
use crate::ui::widgets::Gui;
use vstd::prelude::*;
use vstd::string::*;

verus! {

/// Sortable column of the table.
#[derive(Debug, Clone, Copy, PartialEq, Eq, Structural)]
pub enum SortCol {
    Rank,
    Run,
    Wait,
    Used,
    Usage,
    Gen,
    Hit,
    Util,
}

/// The place of a column from the left.
pub open spec fn place_of(c: SortCol) -> int {
    match c {
        SortCol::Rank => 0,
        SortCol::Run => 1,
        SortCol::Wait => 2,
        SortCol::Used => 3,
        SortCol::Usage => 4,
        SortCol::Gen => 5,
        SortCol::Hit => 6,
        SortCol::Util => 7,
    }
}

impl SortCol {
    /// The columns from the left.
    pub const ALL: [SortCol; 8] = [
        SortCol::Rank,
        SortCol::Run,
        SortCol::Wait,
        SortCol::Used,
        SortCol::Usage,
        SortCol::Gen,
        SortCol::Hit,
        SortCol::Util,
    ];

    /// The column to the right, the first behind the last.
    pub fn next(self) -> (r: SortCol)
        ensures
            r == SortCol::ALL@[(place_of(self) + 1) % 8],
    {
        match self {
            SortCol::Rank => SortCol::Run,
            SortCol::Run => SortCol::Wait,
            SortCol::Wait => SortCol::Used,
            SortCol::Used => SortCol::Usage,
            SortCol::Usage => SortCol::Gen,
            SortCol::Gen => SortCol::Hit,
            SortCol::Hit => SortCol::Util,
            SortCol::Util => SortCol::Rank,
        }
    }

    /// The column to the left, the last before the first.
    pub fn prev(self) -> (r: SortCol)
        ensures
            r == SortCol::ALL@[(place_of(self) + 7) % 8],
    {
        match self {
            SortCol::Rank => SortCol::Util,
            SortCol::Run => SortCol::Rank,
            SortCol::Wait => SortCol::Run,
            SortCol::Used => SortCol::Wait,
            SortCol::Usage => SortCol::Used,
            SortCol::Gen => SortCol::Usage,
            SortCol::Hit => SortCol::Gen,
            SortCol::Util => SortCol::Hit,
        }
    }

    pub open spec fn label_spec(self) -> Seq<char> {
        match self {
            SortCol::Rank => "rank"@,
            SortCol::Run => "run"@,
            SortCol::Wait => "wait"@,
            SortCol::Used => "used"@,
            SortCol::Usage => "usage"@,
            SortCol::Gen => "gen/s"@,
            SortCol::Hit => "hit"@,
            SortCol::Util => "util"@,
        }
    }

    pub fn label(self) -> (r: &'static str)
        ensures
            r@ == self.label_spec(),
    {
        match self {
            SortCol::Rank => "rank",
            SortCol::Run => "run",
            SortCol::Wait => "wait",
            SortCol::Used => "used",
            SortCol::Usage => "usage",
            SortCol::Gen => "gen/s",
            SortCol::Hit => "hit",
            SortCol::Util => "util",
        }
    }

    pub open spec fn width_spec(self) -> nat {
        match self {
            SortCol::Rank => 5,
            SortCol::Run | SortCol::Wait => 8,
            SortCol::Used => 9,
            SortCol::Usage | SortCol::Gen | SortCol::Hit | SortCol::Util => 7,
        }
    }

    /// Cell width this column occupies (shared by header and rows).
    pub fn width(self) -> (r: usize)
        ensures
            r == self.width_spec(),
    {
        match self {
            SortCol::Rank => 5,
            SortCol::Run | SortCol::Wait => 8,
            SortCol::Used => 9,
            SortCol::Usage | SortCol::Gen | SortCol::Hit | SortCol::Util => 7,
        }
    }

    /// What a row is sorted by; only the utilization can be missing.
    pub open spec fn value_spec<N: Num>(self, r: RankRow<N>) -> Option<N> {
        match self {
            SortCol::Rank => Some(N::of_count_spec(r.dp_rank as u64)),
            SortCol::Run => Some(N::of_count_spec(r.running)),
            SortCol::Wait => Some(N::of_count_spec(r.waiting)),
            SortCol::Used => Some(N::of_count_spec(r.used_tokens)),
            SortCol::Usage => Some(r.token_usage),
            SortCol::Gen => Some(r.gen_throughput),
            SortCol::Hit => Some(r.cache_hit_rate),
            SortCol::Util => r.utilization,
        }
    }

    fn value<N: Num>(self, r: &RankRow<N>) -> (v: Option<N>)
        ensures
            v == self.value_spec(*r),
    {
        match self {
            SortCol::Rank => Some(N::of_count(r.dp_rank as u64)),
            SortCol::Run => Some(N::of_count(r.running)),
            SortCol::Wait => Some(N::of_count(r.waiting)),
            SortCol::Used => Some(N::of_count(r.used_tokens)),
            SortCol::Usage => Some(r.token_usage),
            SortCol::Gen => Some(r.gen_throughput),
            SortCol::Hit => Some(r.cache_hit_rate),
            SortCol::Util => r.utilization,
        }
    }
}

/// Stepping right and then left comes back to the same column, and the other way
/// round.
pub proof fn column_steps_undo_each_other(c: SortCol)
    ensures
        SortCol::ALL@[(place_of(SortCol::ALL@[(place_of(c) + 1) % 8]) + 7) % 8] == c,
        SortCol::ALL@[(place_of(SortCol::ALL@[(place_of(c) + 7) % 8]) + 1) % 8] == c,
{
}

// ---- the order ----

/// Whether row `a` stands before row `b`: by the value of the column in the chosen
/// direction, rows of equal values by their number, rows without a value last.
pub open spec fn stands_before<N: Num>(
    ranks: Seq<RankRow<N>>,
    col: SortCol,
    reverse: bool,
    a: int,
    b: int,
) -> bool {
    match (col.value_spec(ranks[a]), col.value_spec(ranks[b])) {
        (Some(x), Some(y)) => if x.less_spec(y) {
            !reverse
        } else if y.less_spec(x) {
            reverse
        } else {
            a < b
        },
        (None, None) => a < b,
        (Some(_), None) => true,
        (None, Some(_)) => false,
    }
}

/// The order with row `e` put in: behind the last row that it does not stand before.
pub open spec fn put_in<N: Num>(
    ranks: Seq<RankRow<N>>,
    col: SortCol,
    reverse: bool,
    s: Seq<usize>,
    e: usize,
) -> Seq<usize>
    decreases s.len(),
{
    if s.len() > 0 && stands_before(ranks, col, reverse, e as int, s.last() as int) {
        put_in(ranks, col, reverse, s.drop_last(), e).push(s.last())
    } else {
        s.push(e)
    }
}

/// The rows `1..n` in order.
pub open spec fn ordered<N: Num>(
    ranks: Seq<RankRow<N>>,
    col: SortCol,
    reverse: bool,
    n: int,
) -> Seq<usize>
    decreases n,
{
    if n <= 1 {
        Seq::empty()
    } else {
        put_in(ranks, col, reverse, ordered(ranks, col, reverse, n - 1), (n - 1) as usize)
    }
}

/// The order in which the rows are shown: the aggregate row first, then the others
/// by the column.
pub open spec fn order_of<N: Num>(ranks: Seq<RankRow<N>>, col: SortCol, reverse: bool) -> Seq<usize> {
    if ranks.len() == 0 {
        Seq::empty()
    } else {
        seq![0usize] + ordered(ranks, col, reverse, ranks.len() as int)
    }
}

/// Whether row `a` stands before row `b`.
fn is_before<N: Num>(ranks: &Vec<RankRow<N>>, col: SortCol, reverse: bool, a: usize, b: usize) -> (r:
    bool)
    requires
        a < ranks@.len(),
        b < ranks@.len(),
    ensures
        r == stands_before(ranks@, col, reverse, a as int, b as int),
{
    match (col.value(&ranks[a]), col.value(&ranks[b])) {
        (Some(x), Some(y)) => {
            if x.less(y) {
                !reverse
            } else if y.less(x) {
                reverse
            } else {
                a < b
            }
        },
        (None, None) => a < b,
        (Some(_), None) => true,
        (None, Some(_)) => false,
    }
}

/// Putting in keeps the rows that are there and adds one.
proof fn put_in_adds<N: Num>(
    ranks: Seq<RankRow<N>>,
    col: SortCol,
    reverse: bool,
    s: Seq<usize>,
    e: usize,
)
    ensures
        put_in(ranks, col, reverse, s, e).len() == s.len() + 1,
        forall|x: usize| #[trigger]
            put_in(ranks, col, reverse, s, e).contains(x) <==> s.contains(x) || x == e,
    decreases s.len(),
{
    let r = put_in(ranks, col, reverse, s, e);
    if s.len() > 0 && stands_before(ranks, col, reverse, e as int, s.last() as int) {
        let d = s.drop_last();
        let q = put_in(ranks, col, reverse, d, e);
        put_in_adds(ranks, col, reverse, d, e);
        assert forall|x: usize| #[trigger] r.contains(x) <==> s.contains(x) || x == e by {
            assert(q.contains(x) <==> d.contains(x) || x == e);
            if r.contains(x) {
                let i = choose|i: int| 0 <= i < r.len() && r[i] == x;
                if i < q.len() {
                    assert(q[i] == x);
                    if d.contains(x) {
                        let j = choose|j: int| 0 <= j < d.len() && d[j] == x;
                        assert(s[j] == x);
                    }
                } else {
                    assert(s[s.len() - 1] == x);
                }
            }
            if s.contains(x) {
                let i = choose|i: int| 0 <= i < s.len() && s[i] == x;
                if i < d.len() {
                    assert(d[i] == x);
                    let j = choose|j: int| 0 <= j < q.len() && q[j] == x;
                    assert(r[j] == x);
                } else {
                    assert(r[q.len() as int] == x);
                }
            }
            if x == e {
                let j = choose|j: int| 0 <= j < q.len() && q[j] == x;
                assert(r[j] == x);
            }
        }
    } else {
        assert forall|x: usize| #[trigger] r.contains(x) <==> s.contains(x) || x == e by {
            if s.contains(x) {
                let i = choose|i: int| 0 <= i < s.len() && s[i] == x;
                assert(r[i] == x);
            }
            if x == e {
                assert(r[s.len() as int] == x);
            }
            if r.contains(x) {
                let i = choose|i: int| 0 <= i < r.len() && r[i] == x;
                if i < s.len() {
                    assert(s[i] == x);
                }
            }
        }
    }
}

/// Putting in a row that is not there yet keeps the rows distinct.
proof fn put_in_stays_distinct<N: Num>(
    ranks: Seq<RankRow<N>>,
    col: SortCol,
    reverse: bool,
    s: Seq<usize>,
    e: usize,
)
    requires
        s.no_duplicates(),
        !s.contains(e),
    ensures
        put_in(ranks, col, reverse, s, e).no_duplicates(),
    decreases s.len(),
{
    if s.len() > 0 && stands_before(ranks, col, reverse, e as int, s.last() as int) {
        let d = s.drop_last();
        let q = put_in(ranks, col, reverse, d, e);
        assert forall|i: int| 0 <= i < d.len() implies d[i] != e by {
            assert(s[i] == d[i]);
            assert(s.contains(s[i]));
        }
        put_in_stays_distinct(ranks, col, reverse, d, e);
        put_in_adds(ranks, col, reverse, d, e);
        assert(!q.contains(s.last())) by {
            if d.contains(s.last()) {
                let j = choose|j: int| 0 <= j < d.len() && d[j] == s.last();
                assert(s[j] == s[s.len() - 1]);
            }
            assert(s.contains(s[s.len() - 1]));
        }
        assert forall|i: int, j: int| 0 <= i < j < q.push(s.last()).len() implies q.push(
            s.last(),
        )[i] != q.push(s.last())[j] by {
            if j == q.len() {
                assert(q.contains(q[i]));
            }
        }
    } else {
        assert forall|i: int, j: int| 0 <= i < j < s.push(e).len() implies s.push(e)[i] != s.push(
            e,
        )[j] by {
            if j == s.len() {
                assert(s.contains(s[i]));
            }
        }
    }
}

/// What the rows in order are.
proof fn ordered_holds<N: Num>(ranks: Seq<RankRow<N>>, col: SortCol, reverse: bool, n: int)
    requires
        0 <= n <= ranks.len() <= usize::MAX,
    ensures
        ordered(ranks, col, reverse, n).len() == if n <= 1 {
            0
        } else {
            n - 1
        },
        ordered(ranks, col, reverse, n).no_duplicates(),
        forall|x: usize| #[trigger]
            ordered(ranks, col, reverse, n).contains(x) <==> 1 <= x < n,
    decreases n,
{
    if n > 1 {
        let q = ordered(ranks, col, reverse, n - 1);
        ordered_holds(ranks, col, reverse, n - 1);
        put_in_adds(ranks, col, reverse, q, (n - 1) as usize);
        put_in_stays_distinct(ranks, col, reverse, q, (n - 1) as usize);
    }
}

/// Every row is shown exactly once, the aggregate row in front.
pub proof fn order_shows_every_row_once<N: Num>(
    ranks: Seq<RankRow<N>>,
    col: SortCol,
    reverse: bool,
)
    requires
        ranks.len() <= usize::MAX,
    ensures
        order_of(ranks, col, reverse).len() == ranks.len(),
        order_of(ranks, col, reverse).no_duplicates(),
        forall|x: usize| #[trigger]
            order_of(ranks, col, reverse).contains(x) <==> x < ranks.len(),
        ranks.len() > 0 ==> order_of(ranks, col, reverse)[0] == 0,
{
    if ranks.len() > 0 {
        let q = ordered(ranks, col, reverse, ranks.len() as int);
        let r = order_of(ranks, col, reverse);
        ordered_holds(ranks, col, reverse, ranks.len() as int);
        assert forall|x: usize| #[trigger] r.contains(x) <==> x < ranks.len() by {
            if r.contains(x) {
                let i = choose|i: int| 0 <= i < r.len() && r[i] == x;
                if i > 0 {
                    assert(q[i - 1] == x);
                    assert(q.contains(x));
                }
            }
            if x < ranks.len() {
                if x == 0 {
                    assert(r[0] == x);
                } else {
                    assert(q.contains(x));
                    let j = choose|j: int| 0 <= j < q.len() && q[j] == x;
                    assert(r[j + 1] == x);
                }
            }
        }
        assert forall|i: int, j: int| 0 <= i < j < r.len() implies r[i] != r[j] by {
            assert(r[j] == q[j - 1]);
            assert(q.contains(q[j - 1]));
            if i > 0 {
                assert(r[i] == q[i - 1]);
            }
        }
    }
}

/// Whether the rows of `s` stand in order.
pub open spec fn in_order<N: Num>(
    ranks: Seq<RankRow<N>>,
    col: SortCol,
    reverse: bool,
    s: Seq<usize>,
) -> bool {
    forall|i: int, j: int|
        0 <= i < j < s.len() ==> stands_before(
            ranks,
            col,
            reverse,
            #[trigger] s[i] as int,
            #[trigger] s[j] as int,
        )
}

/// Whether every value of the column is a number.
pub open spec fn all_numbers<N: Num>(ranks: Seq<RankRow<N>>, col: SortCol) -> bool {
    forall|i: int|
        0 <= i < ranks.len() ==> (col.value_spec(#[trigger] ranks[i]) matches Some(v)
            ==> !v.is_nan_spec())
}

/// Among numbers, standing before is a strict order that leaves no two rows open.
proof fn before_is_an_order<N: Num>(
    ranks: Seq<RankRow<N>>,
    col: SortCol,
    reverse: bool,
    a: int,
    b: int,
    c: int,
)
    requires
        all_numbers(ranks, col),
        0 <= a < ranks.len(),
        0 <= b < ranks.len(),
        0 <= c < ranks.len(),
    ensures
        stands_before(ranks, col, reverse, a, b) && stands_before(ranks, col, reverse, b, c)
            ==> stands_before(ranks, col, reverse, a, c),
        a != b ==> stands_before(ranks, col, reverse, a, b) || stands_before(
            ranks,
            col,
            reverse,
            b,
            a,
        ),
{
    assert(col.value_spec(ranks[a]) matches Some(v) ==> !v.is_nan_spec());
    assert(col.value_spec(ranks[b]) matches Some(v) ==> !v.is_nan_spec());
    assert(col.value_spec(ranks[c]) matches Some(v) ==> !v.is_nan_spec());
    if let Some(x) = col.value_spec(ranks[a]) {
        if let Some(y) = col.value_spec(ranks[b]) {
            if x.less_spec(y) {
                N::less_asymmetric(x, y);
            }
            if y.less_spec(x) {
                N::less_asymmetric(y, x);
            }
            if let Some(z) = col.value_spec(ranks[c]) {
                if x.less_spec(z) {
                    N::less_asymmetric(x, z);
                    N::less_splits(x, y, z);
                }
                if z.less_spec(x) {
                    N::less_asymmetric(z, x);
                    N::less_splits(z, y, x);
                }
                if y.less_spec(z) {
                    N::less_asymmetric(y, z);
                    N::less_splits(y, x, z);
                }
                if z.less_spec(y) {
                    N::less_asymmetric(z, y);
                    N::less_splits(z, x, y);
                }
                if x.less_spec(y) {
                    N::less_splits(x, z, y);
                }
                if y.less_spec(x) {
                    N::less_splits(y, z, x);
                }
                if x.less_spec(y) && y.less_spec(z) {
                    N::less_transitive(x, y, z);
                }
                if z.less_spec(y) && y.less_spec(x) {
                    N::less_transitive(z, y, x);
                }
            }
        }
    }
}

/// Putting in keeps the rows in order.
proof fn put_in_keeps_order<N: Num>(
    ranks: Seq<RankRow<N>>,
    col: SortCol,
    reverse: bool,
    s: Seq<usize>,
    e: usize,
)
    requires
        all_numbers(ranks, col),
        in_order(ranks, col, reverse, s),
        forall|i: int| 0 <= i < s.len() ==> (#[trigger] s[i]) < ranks.len() && s[i] != e,
        e < ranks.len(),
    ensures
        in_order(ranks, col, reverse, put_in(ranks, col, reverse, s, e)),
    decreases s.len(),
{
    let r = put_in(ranks, col, reverse, s, e);
    if s.len() > 0 && stands_before(ranks, col, reverse, e as int, s.last() as int) {
        let d = s.drop_last();
        let q = put_in(ranks, col, reverse, d, e);
        put_in_keeps_order(ranks, col, reverse, d, e);
        put_in_adds(ranks, col, reverse, d, e);
        assert forall|i: int, j: int| 0 <= i < j < r.len() implies stands_before(
            ranks,
            col,
            reverse,
            #[trigger] r[i] as int,
            #[trigger] r[j] as int,
        ) by {
            if j == q.len() {
                assert(q.contains(q[i]));
                if q[i] != e {
                    assert(d.contains(q[i]));
                    let k = choose|k: int| 0 <= k < d.len() && d[k] == q[i];
                    assert(s[k] == q[i]);
                    assert(s[s.len() - 1] == s.last());
                }
            } else {
                assert(q[i] == r[i] && q[j] == r[j]);
            }
        }
    } else {
        assert forall|i: int, j: int| 0 <= i < j < r.len() implies stands_before(
            ranks,
            col,
            reverse,
            #[trigger] r[i] as int,
            #[trigger] r[j] as int,
        ) by {
            if j == s.len() {
                let last = s[s.len() - 1] as int;
                before_is_an_order(ranks, col, reverse, last, e as int, e as int);
                if i < s.len() - 1 {
                    assert(stands_before(ranks, col, reverse, s[i] as int, s[s.len() - 1] as int));
                    before_is_an_order(ranks, col, reverse, s[i] as int, last, e as int);
                }
            } else {
                assert(s[i] == r[i] && s[j] == r[j]);
            }
        }
    }
}

proof fn ordered_in_order<N: Num>(ranks: Seq<RankRow<N>>, col: SortCol, reverse: bool, n: int)
    requires
        all_numbers(ranks, col),
        0 <= n <= ranks.len() <= usize::MAX,
    ensures
        in_order(ranks, col, reverse, ordered(ranks, col, reverse, n)),
    decreases n,
{
    if n > 1 {
        let q = ordered(ranks, col, reverse, n - 1);
        ordered_holds(ranks, col, reverse, n - 1);
        ordered_in_order(ranks, col, reverse, n - 1);
        assert forall|i: int| 0 <= i < q.len() implies (#[trigger] q[i]) < ranks.len() && q[i] != (n
            - 1) as usize by {
            assert(q.contains(q[i]));
        }
        put_in_keeps_order(ranks, col, reverse, q, (n - 1) as usize);
    }
}

/// Where every value of the column is a number, the rows below the aggregate row are
/// sorted by it.
pub proof fn order_is_sorted<N: Num>(ranks: Seq<RankRow<N>>, col: SortCol, reverse: bool)
    requires
        all_numbers(ranks, col),
        0 < ranks.len() <= usize::MAX,
    ensures
        in_order(ranks, col, reverse, order_of(ranks, col, reverse).skip(1)),
{
    ordered_in_order(ranks, col, reverse, ranks.len() as int);
    assert(order_of(ranks, col, reverse).skip(1) =~= ordered(
        ranks,
        col,
        reverse,
        ranks.len() as int,
    ));
}

/// Whether no row with a value stands behind one without.
pub open spec fn missing_last<N: Num>(ranks: Seq<RankRow<N>>, col: SortCol, s: Seq<usize>) -> bool {
    forall|i: int, j: int|
        0 <= i < j < s.len() && col.value_spec(ranks[#[trigger] s[i] as int]) is None
            ==> col.value_spec(ranks[#[trigger] s[j] as int]) is None
}

proof fn put_in_keeps_missing_last<N: Num>(
    ranks: Seq<RankRow<N>>,
    col: SortCol,
    reverse: bool,
    s: Seq<usize>,
    e: usize,
)
    requires
        missing_last(ranks, col, s),
        forall|i: int| 0 <= i < s.len() ==> (#[trigger] s[i]) < e,
    ensures
        missing_last(ranks, col, put_in(ranks, col, reverse, s, e)),
    decreases s.len(),
{
    let r = put_in(ranks, col, reverse, s, e);
    if s.len() > 0 && stands_before(ranks, col, reverse, e as int, s.last() as int) {
        let d = s.drop_last();
        let q = put_in(ranks, col, reverse, d, e);
        put_in_keeps_missing_last(ranks, col, reverse, d, e);
        put_in_adds(ranks, col, reverse, d, e);
        assert forall|i: int, j: int|
            0 <= i < j < r.len() && col.value_spec(ranks[#[trigger] r[i] as int]) is None implies
            col.value_spec(ranks[#[trigger] r[j] as int]) is None by {
            if j == q.len() {
                assert(q.contains(q[i]));
                if q[i] != e {
                    let k = choose|k: int| 0 <= k < d.len() && d[k] == q[i];
                    assert(s[k] == q[i]);
                    assert(s[s.len() - 1] == s.last());
                } else {
                    assert(s[s.len() - 1] < e);
                }
            } else {
                assert(q[i] == r[i] && q[j] == r[j]);
            }
        }
    } else {
        assert forall|i: int, j: int|
            0 <= i < j < r.len() && col.value_spec(ranks[#[trigger] r[i] as int]) is None implies
            col.value_spec(ranks[#[trigger] r[j] as int]) is None by {
            if j == s.len() {
                if i < s.len() - 1 {
                    assert(col.value_spec(ranks[s[s.len() - 1] as int]) is None);
                }
                assert(col.value_spec(ranks[s.last() as int]) is None);
            } else {
                assert(s[i] == r[i] && s[j] == r[j]);
            }
        }
    }
}

/// Rows without a value of the column trail, whichever way the rows are sorted.
pub proof fn missing_values_trail<N: Num>(
    ranks: Seq<RankRow<N>>,
    col: SortCol,
    reverse: bool,
    n: int,
)
    requires
        0 <= n <= ranks.len() <= usize::MAX,
    ensures
        missing_last(ranks, col, ordered(ranks, col, reverse, n)),
        n == ranks.len() && n > 0 ==> missing_last(
            ranks,
            col,
            order_of(ranks, col, reverse).skip(1),
        ),
    decreases n,
{
    if n > 1 {
        let q = ordered(ranks, col, reverse, n - 1);
        missing_values_trail(ranks, col, reverse, n - 1);
        ordered_holds(ranks, col, reverse, n - 1);
        assert forall|i: int| 0 <= i < q.len() implies (#[trigger] q[i]) < (n - 1) as usize by {
            assert(q.contains(q[i]));
        }
        put_in_keeps_missing_last(ranks, col, reverse, q, (n - 1) as usize);
    }
    if n == ranks.len() && n > 0 {
        assert(order_of(ranks, col, reverse).skip(1) =~= ordered(ranks, col, reverse, n));
    }
}

/// Puts row `e` in.
fn insert_row<N: Num>(
    ranks: &Vec<RankRow<N>>,
    col: SortCol,
    reverse: bool,
    s: &mut Vec<usize>,
    e: usize,
)
    requires
        e < ranks@.len(),
        forall|i: int| 0 <= i < old(s)@.len() ==> (#[trigger] old(s)@[i]) < ranks@.len(),
    ensures
        final(s)@ == put_in(ranks@, col, reverse, old(s)@, e),
{
    let ghost all = s@;
    let n: usize = s.len();
    let mut at: usize = n;
    assert(all.take(n as int) =~= all);
    assert(put_in(ranks@, col, reverse, all, e) =~= put_in(
        ranks@,
        col,
        reverse,
        all.take(n as int),
        e,
    ) + all.skip(n as int));
    while at > 0 && is_before(ranks, col, reverse, e, s[at - 1])
        invariant
            at <= n,
            n == all.len(),
            s@ == all,
            e < ranks@.len(),
            forall|i: int| 0 <= i < all.len() ==> (#[trigger] all[i]) < ranks@.len(),
            put_in(ranks@, col, reverse, all, e) == put_in(
                ranks@,
                col,
                reverse,
                all.take(at as int),
                e,
            ) + all.skip(at as int),
        decreases at,
    {
        let ghost t = all.take(at as int);
        assert(t.drop_last() =~= all.take(at - 1));
        assert(t.last() == all[at - 1]);
        assert(put_in(ranks@, col, reverse, t.drop_last(), e).push(t.last()) + all.skip(at as int)
            =~= put_in(ranks@, col, reverse, t.drop_last(), e) + all.skip(at - 1));
        at -= 1;
    }
    proof {
        let t = all.take(at as int);
        if at > 0 {
            assert(t.last() == all[at - 1]);
        }
        assert(put_in(ranks@, col, reverse, t, e) == t.push(e));
        assert(t.push(e) + all.skip(at as int) =~= all.insert(at as int, e));
    }
    s.insert(at, e);
}

/// Display order: the aggregate row (index 0) pinned first, the rest sorted by
/// `col`; missing values trail in both directions. Returns indices into `s.ranks`.
pub fn order<N: Num>(s: &Snapshot<N>, col: SortCol, reverse: bool) -> (r: Vec<usize>)
    ensures
        r@ == order_of(s.ranks@, col, reverse),
        r@.len() == s.ranks@.len(),
        forall|i: int| 0 <= i < r@.len() ==> (#[trigger] r@[i]) < s.ranks@.len(),
{
    let n: usize = s.ranks.len();
    let mut rest: Vec<usize> = Vec::new();
    let mut i: usize = 1;
    while i < n
        invariant
            i == 1 || 1 < i <= n,
            n == s.ranks@.len(),
            rest@ == ordered(s.ranks@, col, reverse, i as int),
        decreases n - i,
    {
        proof {
            ordered_holds(s.ranks@, col, reverse, i as int);
            assert forall|j: int| 0 <= j < rest@.len() implies (#[trigger] rest@[j])
                < s.ranks@.len() by {
                assert(rest@.contains(rest@[j]));
            }
        }
        insert_row(&s.ranks, col, reverse, &mut rest, i);
        i += 1;
    }
    assert(rest@ =~= ordered(s.ranks@, col, reverse, n as int));
    let mut all: Vec<usize> = Vec::new();
    if n > 0 {
        all.push(0);
    }
    let ghost head = all@;
    let m: usize = rest.len();
    let mut k: usize = 0;
    assert(all@ =~= head + rest@.take(0));
    while k < m
        invariant
            k <= m,
            m == rest@.len(),
            all@ == head + rest@.take(k as int),
        decreases m - k,
    {
        all.push(rest[k]);
        k += 1;
        assert(all@ =~= head + rest@.take(k as int));
    }
    assert(rest@.take(m as int) =~= rest@);
    assert(all@ =~= order_of(s.ranks@, col, reverse));
    proof {
        order_shows_every_row_once(s.ranks@, col, reverse);
        assert forall|j: int| 0 <= j < all@.len() implies (#[trigger] all@[j]) < s.ranks@.len() by {
            assert(all@.contains(all@[j]));
        }
    }
    all
}

/// A selection held to `n` rows.
pub open spec fn clamped_sel(sel: int, n: int) -> int {
    if n == 0 {
        0
    } else if sel < n - 1 {
        sel
    } else {
        n - 1
    }
}

/// Clamp a selection index to the visible row set.
pub fn clamp_sel(sel: usize, n_ranks: usize) -> (r: usize)
    ensures
        r == clamped_sel(sel as int, n_ranks as int),
{
    if n_ranks == 0 {
        0
    } else if sel < n_ranks - 1 {
        sel
    } else {
        n_ranks - 1
    }
}

/// The place of the first `v` in `order` from `i` on.
pub open spec fn position_from(order: Seq<usize>, v: int, i: int) -> Option<int>
    decreases order.len() - i,
{
    if i < 0 || i >= order.len() {
        None
    } else if order[i] == v {
        Some(i)
    } else {
        position_from(order, v, i + 1)
    }
}

/// The place of a row in the order; the first where it is not in it.
pub open spec fn position(order: Seq<usize>, v: int) -> int {
    match position_from(order, v, 0) {
        Some(i) => i,
        None => 0,
    }
}

/// The place that a search finds.
pub(crate) proof fn position_is_found(order: Seq<usize>, v: int, i: int)
    requires
        0 <= i <= order.len(),
    ensures
        match position_from(order, v, i) {
            Some(p) => i <= p < order.len() && order[p] == v,
            None => forall|j: int| i <= j < order.len() ==> (#[trigger] order[j]) != v,
        },
    decreases order.len() - i,
{
    if i < order.len() && order[i] != v {
        position_is_found(order, v, i + 1);
    }
}

/// The place of a row in an order without duplicates.
pub(crate) proof fn position_is_unique(order: Seq<usize>, p: int)
    requires
        order.no_duplicates(),
        0 <= p < order.len(),
    ensures
        position(order, order[p] as int) == p,
{
    position_is_found(order, order[p] as int, 0);
    let q = position(order, order[p] as int);
    assert(order[q] == order[p]);
}

/// The place of a row in the order; the first where it is not in it.
pub fn find_position(order: &Vec<usize>, v: usize) -> (r: usize)
    ensures
        r == position(order@, v as int),
{
    let n: usize = order.len();
    let mut at: usize = 0;
    while at < n && order[at] != v
        invariant
            at <= n,
            n == order@.len(),
            position_from(order@, v as int, 0) == position_from(order@, v as int, at as int),
        decreases n - at,
    {
        at += 1;
    }
    if at == n {
        0
    } else {
        at
    }
}

/// The first row shown so that `sel` is among `rows_h` rows.
pub open spec fn scroll_of(sel: int, rows_h: int) -> int {
    if rows_h == 0 || sel < rows_h {
        0
    } else {
        sel - (rows_h - 1)
    }
}

/// Scroll offset (index into the order) that keeps `sel` visible inside `rows_h`
/// rows.
pub fn scroll_for(sel: usize, rows_h: usize) -> (r: usize)
    ensures
        r == scroll_of(sel as int, rows_h as int),
{
    if rows_h == 0 {
        return 0;
    }
    sel.saturating_sub(rows_h - 1)
}

/// The first place of the order that is shown so that the row `sel` is among `rows_h`
/// rows.
pub open spec fn first_shown(order: Seq<usize>, sel: int, rows_h: int) -> int {
    scroll_of(position(order, sel), rows_h)
}

/// The selected row is among those on screen, in whatever order they stand.
pub proof fn selection_stays_on_screen<N: Num>(
    ranks: Seq<RankRow<N>>,
    col: SortCol,
    reverse: bool,
    sel: int,
    rows_h: int,
)
    requires
        0 < ranks.len() <= usize::MAX,
        0 <= sel,
        0 < rows_h,
    ensures
        ({
            let order = order_of(ranks, col, reverse);
            let sel = clamped_sel(sel, ranks.len() as int);
            shown_rows(order, first_shown(order, sel, rows_h), rows_h).contains(sel as usize)
        }),
{
    let order = order_of(ranks, col, reverse);
    let sel = clamped_sel(sel, ranks.len() as int);
    order_shows_every_row_once(ranks, col, reverse);
    position_is_found(order, sel, 0);
    assert(order.contains(sel as usize));
    let p = position(order, sel);
    assert(order[p] == sel);
    let from = first_shown(order, sel, rows_h);
    let shown = shown_rows(order, from, rows_h);
    assert(shown[p - from] == sel as usize);
}

/// Width of the numeric column block.
pub const NUM_COLS: usize = 58;

/// The numeric block is as wide as its columns together.
pub proof fn columns_fill_the_block()
    ensures
        NUM_COLS == SortCol::Rank.width_spec() + SortCol::Run.width_spec()
            + SortCol::Wait.width_spec() + SortCol::Used.width_spec() + SortCol::Usage.width_spec()
            + SortCol::Gen.width_spec() + SortCol::Hit.width_spec() + SortCol::Util.width_spec(),
{
}

// ---- the rows ----

/// The title of a column; the one that is sorted by stands out and has an arrow.
pub open spec fn header_span(c: SortCol, col: SortCol, reverse: bool, th: Theme) -> SpanView {
    let arrow = if c == col {
        if reverse {
            "▼"@
        } else {
            "▲"@
        }
    } else {
        ""@
    };
    let style = bold(
        if c == col {
            th.color("hi_fg"@)
        } else {
            th.color("title"@)
        },
    );
    let text = c.label_spec() + arrow;
    if c == SortCol::Rank {
        sp(padded_right(text, 5), style)
    } else {
        sp(padded_left(text, c.width_spec()), style)
    }
}

/// The titles of the columns.
pub open spec fn header_line(col: SortCol, reverse: bool, th: Theme) -> LineView {
    Seq::new(8, |i: int| header_span(SortCol::ALL@[i], col, reverse, th))
}

/// Header row: column names right-aligned like their data, the sort column marked
/// with an arrow.
fn header_spans(col: SortCol, reverse: bool, th: &Theme) -> (r: Vec<Span>)
    ensures
        spans_view(r@) == header_line(col, reverse, *th),
{
    let ghost all = header_line(col, reverse, *th);
    let mut out: Vec<Span> = Vec::new();
    let mut i: usize = 0;
    assert(spans_view(out@) =~= all.take(0));
    while i < 8
        invariant
            i <= 8,
            all == header_line(col, reverse, *th),
            spans_view(out@) == all.take(i as int),
        decreases 8 - i,
    {
        let c = SortCol::ALL[i];
        let arrow = if c == col {
            if reverse {
                "▼"
            } else {
                "▲"
            }
        } else {
            ""
        };
        let style = bold(
            if c == col {
                th.c("hi_fg")
            } else {
                th.c("title")
            },
        );
        let text = cat(c.label(), arrow);
        let padded = if c == SortCol::Rank {
            pad_right(text.as_str(), 5)
        } else {
            pad_left(text.as_str(), c.width())
        };
        add_span(&mut out, padded.as_str(), style);
        i += 1;
        assert(spans_view(out@) =~= all.take(i as int));
    }
    assert(all.take(8) =~= all);
    out
}

/// The name of a row: its rank, or `agg`.
pub open spec fn row_name<N>(r: RankRow<N>, i: int) -> Seq<char> {
    if i == 0 {
        "agg"@
    } else {
        decimal_text(r.dp_rank as nat)
    }
}

/// The style of a row's name.
pub open spec fn name_style(i: int, selected: bool, th: Theme) -> Style {
    if selected {
        Style {
            fg: Some(th.color("selected_fg"@)),
            bg: Some(th.color("selected_bg"@)),
            bold: true,
            italic: false,
            dim: false,
        }
    } else if i == 0 {
        ink(th.color("proc_misc"@))
    } else {
        ink(th.color("main_fg"@))
    }
}

/// A value of a row; on the selected row it has the selection's colours.
pub open spec fn field_span(
    c: SortCol,
    v: Option<Seq<char>>,
    selected: bool,
    th: Theme,
    dim: bool,
) -> SpanView {
    let s = value_span(v, c.width_spec() as int, th, dim);
    if selected {
        sp(
            s.text,
            (Style {
                fg: Some(th.color("selected_fg"@)),
                bg: Some(th.color("selected_bg"@)),
                ..s.style
            }),
        )
    } else {
        s
    }
}

/// A row of the table.
pub open spec fn row_line<N: Num>(r: RankRow<N>, i: int, selected: bool, th: Theme, dim: bool) -> LineView {
    seq![
        sp(padded_right(row_name(r, i), 5), name_style(i, selected, th)),
        field_span(SortCol::Run, Some(count_text(r.running)), selected, th, dim),
        field_span(SortCol::Wait, Some(count_text(r.waiting)), selected, th, dim),
        field_span(SortCol::Used, Some(count_text(r.used_tokens)), selected, th, dim),
        field_span(SortCol::Usage, Some(pct_text(r.token_usage)), selected, th, dim),
        field_span(SortCol::Gen, Some(rate_text(r.gen_throughput)), selected, th, dim),
        field_span(SortCol::Hit, Some(pct_text(r.cache_hit_rate)), selected, th, dim),
        field_span(SortCol::Util, pct_known(r.utilization), selected, th, dim),
    ]
}

/// The name of a row.
fn name_of<N: Num>(r: &RankRow<N>, i: usize) -> (t: String)
    ensures
        t@ == row_name(*r, i as int),
{
    if i == 0 {
        "agg".to_owned()
    } else {
        decimal(r.dp_rank as u64)
    }
}

/// Adds a value to a row.
fn add_field(
    line: &mut Vec<Span>,
    c: SortCol,
    v: Option<String>,
    selected: bool,
    th: &Theme,
    dim: bool,
)
    ensures
        spans_view(final(line)@) == spans_view(old(line)@).push(
            field_span(c, opt_view(v), selected, *th, dim),
        ),
{
    let mut s = value_cell(v, c.width(), th, dim);
    if selected {
        s = Span {
            content: s.content,
            style: Style {
                fg: Some(th.c("selected_fg")),
                bg: Some(th.c("selected_bg")),
                bold: s.style.bold,
                italic: s.style.italic,
                dim: s.style.dim,
            },
        };
    }
    push_span(line, s);
}

/// A row of the table.
fn row_spans<N: Num>(r: &RankRow<N>, i: usize, selected: bool, th: &Theme, dim: bool) -> (l: Vec<Span>)
    ensures
        spans_view(l@) == row_line(*r, i as int, selected, *th, dim),
{
    let mut l: Vec<Span> = Vec::new();
    let style = if selected {
        Style {
            fg: Some(th.c("selected_fg")),
            bg: Some(th.c("selected_bg")),
            bold: true,
            italic: false,
            dim: false,
        }
    } else if i == 0 {
        ink(th.c("proc_misc"))
    } else {
        ink(th.c("main_fg"))
    };
    add_span(&mut l, pad_right(name_of(r, i).as_str(), 5).as_str(), style);
    add_field(&mut l, SortCol::Run, Some(human_count(r.running)), selected, th, dim);
    add_field(&mut l, SortCol::Wait, Some(human_count(r.waiting)), selected, th, dim);
    add_field(&mut l, SortCol::Used, Some(human_count(r.used_tokens)), selected, th, dim);
    add_field(&mut l, SortCol::Usage, Some(human_pct(r.token_usage)), selected, th, dim);
    add_field(&mut l, SortCol::Gen, Some(human_rate(r.gen_throughput)), selected, th, dim);
    add_field(&mut l, SortCol::Hit, Some(human_pct(r.cache_hit_rate)), selected, th, dim);
    add_field(&mut l, SortCol::Util, pct_if_known(r.utilization), selected, th, dim);
    assert(spans_view(l@) =~= row_line(*r, i as int, selected, *th, dim));
    l
}

// ---- the table ----

/// The rows on screen: at most `rows_h` of the order from `scroll` on.
pub open spec fn shown_rows(order: Seq<usize>, scroll: int, rows_h: int) -> Seq<usize> {
    if scroll >= order.len() {
        Seq::empty()
    } else if scroll + rows_h <= order.len() {
        order.subrange(scroll, scroll + rows_h)
    } else {
        order.skip(scroll)
    }
}

/// How many rows are shown of how many, and why the values are not by rank.
pub open spec fn footer_line(shown: nat, total: nat, why: RankGranularity, th: Theme) -> LineView {
    let count = sp(
        "┘"@ + decimal_text(shown) + "/"@ + decimal_text(total) + "└ "@,
        ink(th.color("graph_text"@)),
    );
    match why {
        RankGranularity::Aggregated(reason) => seq![
            count,
            sp("aggregated: "@ + reason@, italic(th.color("graph_text"@))),
        ],
        RankGranularity::PerRank => seq![count],
    }
}

/// The lines of the table: titles, a rule, `rows_h` rows and the footer.
pub open spec fn table_lines<N: Num>(
    s: Snapshot<N>,
    th: Theme,
    sel: int,
    col: SortCol,
    reverse: bool,
    rows_h: int,
) -> Seq<LineView> {
    let order = order_of(s.ranks@, col, reverse);
    let shown = shown_rows(order, first_shown(order, sel, rows_h), rows_h);
    let dim = s.conn.dimmed_spec();
    seq![
        header_line(col, reverse, th),
        seq![sp(Seq::new(NUM_COLS as nat, |i: int| '─'), ink(th.color("div_line"@)))],
    ] + Seq::new(
        rows_h as nat,
        |k: int|
            if k < shown.len() {
                row_line(s.ranks@[shown[k] as int], shown[k] as int, shown[k] == sel, th, dim)
            } else {
                Seq::empty()
            },
    ) + seq![footer_line(shown.len(), order.len(), s.rank_granularity, th)]
}

/// The grid with the small graph of a row on `area`; on the selected row the
/// selection's ground runs through it.
pub open spec fn mini_drawn<N: Num>(
    g: Grid,
    area: Rect,
    series: Seq<N>,
    th: Theme,
    gui: Gui,
    selected: bool,
) -> Grid {
    let drawn = if gui.braille_graphs {
        braille_drawn(g, area, series, th, "cpu"@, None, true)
    } else {
        spark_drawn(g, area, series, th, "cpu"@)
    };
    if selected {
        tinted(drawn, area, ground(th.color("selected_bg"@)))
    } else {
        drawn
    }
}

/// The part for the small graph of the row `k` on screen.
pub open spec fn mini_area(rect: Rect, k: int) -> Rect {
    Rect {
        x: (rect.x + 1 + NUM_COLS) as u16,
        y: (rect.y + 3 + k) as u16,
        width: (rect.width - NUM_COLS - 3) as u16,
        height: 1,
    }
}

/// The grid with the small graphs of the rows on screen.
pub open spec fn minis_drawn<N: Num>(
    g: Grid,
    rect: Rect,
    ranks: Seq<RankRow<N>>,
    shown: Seq<usize>,
    th: Theme,
    gui: Gui,
    sel: int,
) -> Grid
    decreases shown.len(),
{
    if shown.len() == 0 {
        g
    } else {
        let i = shown.last();
        mini_drawn(
            minis_drawn(g, rect, ranks, shown.drop_last(), th, gui, sel),
            mini_area(rect, shown.len() - 1),
            ranks[i as int].gen_series@,
            th,
            gui,
            i == sel,
        )
    }
}

/// What row `y` of the scrollbar shows.
pub open spec fn scroll_mark(cells: Seq<Drawn>, th: Theme, y: int) -> Mark {
    match cells[y] {
        Some((symbol, tag)) => Some(
            (
                symbol,
                ink(
                    if tag == 1 {
                        th.color("selected_fg"@)
                    } else {
                        th.color("div_line"@)
                    },
                ),
            ),
        ),
        None => None,
    }
}

/// The column of the scrollbar.
pub open spec fn scroll_area(rect: Rect) -> Rect {
    Rect {
        x: (if rect.width >= 2 {
            rect.x + rect.width - 2
        } else {
            rect.x as int
        }) as u16,
        y: (rect.y + 1) as u16,
        width: 1,
        height: (rect.height - 2) as u16,
    }
}

/// The grid with the table of ranks on the inside of `rect`. It takes four rows; a
/// small graph goes with each row where six columns are left, and a scrollbar stands
/// on the right where not all rows are shown.
pub open spec fn ranks_drawn<N: Num>(
    g: Grid,
    s: Snapshot<N>,
    th: Theme,
    gui: Gui,
    rect: Rect,
    sel: int,
    col: SortCol,
    reverse: bool,
) -> Grid {
    let rows_h = rect.height - 5;
    if rows_h < 1 {
        g
    } else {
        let sel = clamped_sel(sel, s.ranks@.len() as int);
        let order = order_of(s.ranks@, col, reverse);
        let scroll = first_shown(order, sel, rows_h);
        let lined = lines_written(g, rect, table_lines(s, th, sel, col, reverse, rows_h));
        let graphed = if rect.width - NUM_COLS - 3 >= 6 {
            minis_drawn(
                lined,
                rect,
                s.ranks@,
                shown_rows(order, scroll, rows_h),
                th,
                gui,
                sel,
            )
        } else {
            lined
        };
        if order.len() > rows_h {
            let cells = scroll_drawn(
                (rect.height - 2) as u16,
                order.len() as usize,
                rows_h as usize,
                scroll as usize,
                "█"@,
                (1, 2),
            );
            stamped(graphed, scroll_area(rect), |x: int, y: int| scroll_mark(cells, th, y))
        } else {
            graphed
        }
    }
}

/// The rows on screen.
fn visible_rows(order: &Vec<usize>, scroll: usize, rows_h: usize) -> (r: Vec<usize>)
    ensures
        r@ == shown_rows(order@, scroll as int, rows_h as int),
        r@.len() <= rows_h,
        forall|i: int|
            0 <= i < r@.len() ==> scroll + i < order@.len() && (#[trigger] r@[i]) == order@[scroll
                + i],
{
    let mut out: Vec<usize> = Vec::new();
    let n: usize = order.len();
    let ghost all = shown_rows(order@, scroll as int, rows_h as int);
    let mut k: usize = 0;
    assert(out@ =~= all.take(0));
    while k < rows_h && scroll < n && k < n - scroll
        invariant
            k <= rows_h,
            k == 0 || (scroll < n && k <= n - scroll),
            n == order@.len(),
            all == shown_rows(order@, scroll as int, rows_h as int),
            out@ == all.take(k as int),
        decreases rows_h - k,
    {
        out.push(order[scroll + k]);
        assert(all[k as int] == order@[scroll + k]);
        k += 1;
        assert(out@ =~= all.take(k as int));
    }
    assert(out@ =~= all);
    out
}

/// The lines of the table.
fn lines_of<N: Num>(
    s: &Snapshot<N>,
    th: &Theme,
    sel: usize,
    col: SortCol,
    reverse: bool,
    rows_h: usize,
    total: usize,
    shown: &Vec<usize>,
) -> (r: Vec<Line>)
    requires
        total == order_of(s.ranks@, col, reverse).len(),
        shown@ == shown_rows(
            order_of(s.ranks@, col, reverse),
            first_shown(order_of(s.ranks@, col, reverse), sel as int, rows_h as int),
            rows_h as int,
        ),
        shown@.len() <= rows_h,
        forall|i: int| 0 <= i < shown@.len() ==> (#[trigger] shown@[i]) < s.ranks@.len(),
    ensures
        lines_view(r@) == table_lines(*s, *th, sel as int, col, reverse, rows_h as int),
{
    let ghost all = table_lines(*s, *th, sel as int, col, reverse, rows_h as int);
    let dim = s.conn.dimmed();
    let mut lines: Vec<Line> = Vec::new();
    push_line(&mut lines, header_spans(col, reverse, th));
    let mut rule: Vec<Span> = Vec::new();
    add_span(&mut rule, run_of('─', NUM_COLS).as_str(), ink(th.c("div_line")));
    assert(spans_view(rule@) =~= all[1]);
    push_line(&mut lines, rule);
    let n: usize = shown.len();
    let mut k: usize = 0;
    assert(lines_view(lines@) =~= all.take(2));
    while k < rows_h
        invariant
            k <= rows_h,
            n == shown@.len(),
            dim == s.conn.dimmed_spec(),
            shown@.len() <= rows_h,
            shown@ == shown_rows(
                order_of(s.ranks@, col, reverse),
                first_shown(order_of(s.ranks@, col, reverse), sel as int, rows_h as int),
                rows_h as int,
            ),
            forall|i: int| 0 <= i < shown@.len() ==> (#[trigger] shown@[i]) < s.ranks@.len(),
            all == table_lines(*s, *th, sel as int, col, reverse, rows_h as int),
            lines_view(lines@) == all.take(2 + k),
        decreases rows_h - k,
    {
        if k < n {
            let i: usize = shown[k];
            push_line(&mut lines, row_spans(&s.ranks[i], i, i == sel, th, dim));
        } else {
            let none: Vec<Span> = Vec::new();
            assert(spans_view(none@) =~= Seq::empty());
            push_line(&mut lines, none);
        }
        k += 1;
        assert(lines_view(lines@) =~= all.take(2 + k));
    }
    let mut foot: Vec<Span> = Vec::new();
    let count = cat(
        cat4("┘", decimal(n as u64).as_str(), "/", decimal(total as u64).as_str()).as_str(),
        "└ ",
    );
    add_span(&mut foot, count.as_str(), ink(th.c("graph_text")));
    if let RankGranularity::Aggregated(reason) = &s.rank_granularity {
        add_span(
            &mut foot,
            cat("aggregated: ", reason.as_str()).as_str(),
            italic(th.c("graph_text")),
        );
    }
    assert(spans_view(foot@) =~= footer_line(n as nat, total as nat, s.rank_granularity, *th));
    push_line(&mut lines, foot);
    assert(lines_view(lines@) =~= all);
    lines
}

/// Draws the small graph of a row.
fn draw_mini<N: Num>(
    buf: &mut Buffer,
    area: Rect,
    series: &Vec<N>,
    th: &Theme,
    gui: Gui,
    selected: bool,
)
    requires
        fits(area, old(buf).w(), old(buf).h()),
    ensures
        final(buf).w() == old(buf).w(),
        final(buf).h() == old(buf).h(),
        shaped(old(buf)@, old(buf).w() as int, old(buf).h() as int),
        shaped(final(buf)@, old(buf).w() as int, old(buf).h() as int),
        final(buf)@ == mini_drawn(old(buf)@, area, series@, *th, gui, selected),
{
    if gui.braille_graphs {
        draw(buf, area, series, th, "cpu", None, true);
    } else {
        sparkline(buf, area, series, th, "cpu");
    }
    if selected {
        tint(buf, area, ground(th.c("selected_bg")));
    }
}

/// Draws the small graphs of the rows on screen.
fn draw_minis<N: Num>(
    buf: &mut Buffer,
    rect: Rect,
    ranks: &Vec<RankRow<N>>,
    shown: &Vec<usize>,
    th: &Theme,
    gui: Gui,
    sel: usize,
)
    requires
        fits(rect, old(buf).w(), old(buf).h()),
        rect.width >= NUM_COLS + 9,
        shown@.len() + 5 <= rect.height,
        forall|i: int| 0 <= i < shown@.len() ==> (#[trigger] shown@[i]) < ranks@.len(),
    ensures
        final(buf).w() == old(buf).w(),
        final(buf).h() == old(buf).h(),
        shaped(old(buf)@, old(buf).w() as int, old(buf).h() as int),
        shaped(final(buf)@, old(buf).w() as int, old(buf).h() as int),
        final(buf)@ == minis_drawn(old(buf)@, rect, ranks@, shown@, *th, gui, sel as int),
{
    let ghost g = buf@;
    let w: u16 = buf.width();
    let h: u16 = buf.height();
    let n: usize = shown.len();
    let mut k: usize = 0;
    assert(shown@.take(0) =~= Seq::empty());
    while k < n
        invariant
            k <= n,
            n == shown@.len(),
            n + 5 <= rect.height,
            fits(rect, w, h),
            rect.width >= NUM_COLS + 9,
            buf.w() == w,
            buf.h() == h,
            shaped(g, w as int, h as int),
            shaped(buf@, w as int, h as int),
            forall|i: int| 0 <= i < shown@.len() ==> (#[trigger] shown@[i]) < ranks@.len(),
            buf@ == minis_drawn(g, rect, ranks@, shown@.take(k as int), *th, gui, sel as int),
        decreases n - k,
    {
        assert(shown@.take(k + 1).drop_last() =~= shown@.take(k as int));
        let i: usize = shown[k];
        let area = Rect {
            x: rect.x + 1 + NUM_COLS as u16,
            y: rect.y + 3 + k as u16,
            width: rect.width - NUM_COLS as u16 - 3,
            height: 1,
        };
        assert(area == mini_area(rect, k as int));
        let series = ranks[i].gen_series.samples();
        draw_mini(buf, area, &series, th, gui, i == sel);
        k += 1;
    }
    assert(shown@.take(n as int) =~= shown@);
}

/// Puts the cells of a scrollbar on the column for it. A part without columns has it
/// where it starts, which may lie beyond the screen.
pub fn put_scrollbar(buf: &mut Buffer, rect: Rect, th: &Theme, cells: &Vec<Option<(String, u8)>>)
    requires
        fits(rect, old(buf).w(), old(buf).h()),
        rect.height > 2,
        cells@.len() == rect.height - 2,
    ensures
        final(buf).w() == old(buf).w(),
        final(buf).h() == old(buf).h(),
        shaped(old(buf)@, old(buf).w() as int, old(buf).h() as int),
        shaped(final(buf)@, old(buf).w() as int, old(buf).h() as int),
        final(buf)@ == stamped(
            old(buf)@,
            scroll_area(rect),
            |x: int, y: int| scroll_mark(drawn_view(cells@), *th, y),
        ),
{
    if rect.x + rect.width.saturating_sub(2) >= buf.width() {
        assert(buf@ =~~= stamped(
            buf@,
            scroll_area(rect),
            |x: int, y: int| scroll_mark(drawn_view(cells@), *th, y),
        ));
        return;
    }
    let thumb = ink(th.c("selected_fg"));
    let track = ink(th.c("div_line"));
    let ghost p = |x: int, y: int| scroll_mark(drawn_view(cells@), *th, y);
    let f = |x: u16, y: u16| -> (m: Option<(String, Style)>)
        requires
            y < cells@.len(),
        ensures
            mark_view(m) == p(x as int, y as int),
        {
            let c = &cells[y as usize];
            assert(drawn_view(cells@)[y as int] == match c {
                Some((symbol, tag)) => Some((symbol@, *tag)),
                None => None,
            });
            match c {
                Some((symbol, tag)) => Some(
                    (
                        symbol.clone(),
                        if *tag == 1 {
                            thumb
                        } else {
                            track
                        },
                    ),
                ),
                None => None,
            }
        };
    let area = Rect {
        x: rect.x + rect.width.saturating_sub(2),
        y: rect.y + 1,
        width: 1,
        height: rect.height - 2,
    };
    assert(area == scroll_area(rect));
    stamp(buf, area, f, Ghost(p));
}

/// The table of ranks: DP ranks are the subject, since the server has no per-request
/// introspection. Row 0 is the aggregate, pinned.
pub fn ranks<N: Num>(
    s: &Snapshot<N>,
    th: &Theme,
    gui: Gui,
    rect: Rect,
    buf: &mut Buffer,
    sel: usize,
    col: SortCol,
    reverse: bool,
)
    requires
        fits(rect, old(buf).w(), old(buf).h()),
    ensures
        final(buf).w() == old(buf).w(),
        final(buf).h() == old(buf).h(),
        shaped(old(buf)@, old(buf).w() as int, old(buf).h() as int),
        shaped(final(buf)@, old(buf).w() as int, old(buf).h() as int),
        final(buf)@ == ranks_drawn(old(buf)@, *s, *th, gui, rect, sel as int, col, reverse),
{
    let w0: u16 = buf.width();
    if rect.height < 6 {
        return;
    }
    let sel: usize = clamp_sel(sel, s.ranks.len());
    let order = order(s, col, reverse);
    let rows_h: usize = (rect.height - 5) as usize;
    let scroll: usize = scroll_for(find_position(&order, sel), rows_h);
    let shown = visible_rows(&order, scroll, rows_h);
    assert forall|i: int| 0 <= i < shown@.len() implies (#[trigger] shown@[i]) < s.ranks@.len() by {
        assert(shown@[i] == order@[scroll + i]);
    }
    let lines = lines_of(s, th, sel, col, reverse, rows_h, order.len(), &shown);
    write_lines(buf, rect, &lines);
    if rect.width as usize >= NUM_COLS + 9 {
        draw_minis(buf, rect, &s.ranks, &shown, th, gui, sel);
    }
    if order.len() > rows_h {
        let cells = scroll_cells(rect.height - 2, order.len(), rows_h, scroll, "█", (1, 2));
        put_scrollbar(buf, rect, th, &cells);
    }
}

// ---- one row in full ----

/// The name of a row in full.
pub open spec fn detail_name<N>(r: RankRow<N>, i: int) -> Seq<char> {
    if i == 0 {
        "agg"@
    } else {
        "rank "@ + decimal_text(r.dp_rank as nat)
    }
}

/// Everything that is known of a row.
pub open spec fn detail_lines<N: Num>(r: RankRow<N>, i: int, th: Theme, dim: bool) -> Seq<LineView> {
    seq![
        seq![
            sp(detail_name(r, i), bold(th.color("proc_misc"@))),
            sp("  (esc back)"@, italic(th.color("graph_text"@))),
        ],
        seq![
            title_sp("running "@, th),
            known_sp(count_text(r.running), 8, th, dim),
            title_sp("  waiting "@, th),
            known_sp(count_text(r.waiting), 8, th, dim),
        ],
        seq![
            title_sp("used    "@, th),
            known_sp(count_text(r.used_tokens), 8, th, dim),
            title_sp("  total  "@, th),
            known_sp(count_text(r.total_tokens), 8, th, dim),
            title_sp("  usage  "@, th),
            known_sp(pct_text(r.token_usage), 6, th, dim),
        ],
        seq![
            title_sp("gen/s   "@, th),
            known_sp(rate_text(r.gen_throughput), 8, th, dim),
            title_sp("  hit    "@, th),
            known_sp(pct_text(r.cache_hit_rate), 8, th, dim),
            title_sp("  util   "@, th),
            value_span(pct_known(r.utilization), 6, th, dim),
        ],
        seq![
            title_sp("spec    "@, th),
            value_span(fixed_known(r.spec_accept_length, 2, " tok/fwd"@), 10, th, dim),
            title_sp("  accept  "@, th),
            value_span(pct_known(r.spec_accept_rate), 8, th, dim),
        ],
    ]
}

/// The grid with the selected row in full on the inside of `rect`, its history below.
pub open spec fn detail_drawn<N: Num>(
    g: Grid,
    s: Snapshot<N>,
    th: Theme,
    rect: Rect,
    sel: int,
) -> Grid {
    if s.ranks@.len() == 0 {
        g
    } else {
        let i = clamped_sel(sel, s.ranks@.len() as int);
        let r = s.ranks@[i];
        braille_drawn(
            lines_written(g, rect, detail_lines(r, i, th, s.conn.dimmed_spec())),
            rest_of(rect, 5),
            r.gen_series@,
            th,
            "cpu"@,
            None,
            true,
        )
    }
}

/// The lines of a row in full.
fn lines_in_full<N: Num>(r: &RankRow<N>, i: usize, th: &Theme, dim: bool) -> (l: Vec<Line>)
    ensures
        lines_view(l@) == detail_lines(*r, i as int, *th, dim),
{
    let ghost all = detail_lines(*r, i as int, *th, dim);
    let mut lines: Vec<Line> = Vec::new();
    let mut l: Vec<Span> = Vec::new();
    let name = if i == 0 {
        "agg".to_owned()
    } else {
        cat("rank ", decimal(r.dp_rank as u64).as_str())
    };
    add_span(&mut l, name.as_str(), bold(th.c("proc_misc")));
    add_span(&mut l, "  (esc back)", italic(th.c("graph_text")));
    assert(spans_view(l@) =~= all[0]);
    push_line(&mut lines, l);

    let mut l: Vec<Span> = Vec::new();
    add_title(&mut l, "running ", th);
    add_known(&mut l, human_count(r.running), 8, th, dim);
    add_title(&mut l, "  waiting ", th);
    add_known(&mut l, human_count(r.waiting), 8, th, dim);
    assert(spans_view(l@) =~= all[1]);
    push_line(&mut lines, l);

    let mut l: Vec<Span> = Vec::new();
    add_title(&mut l, "used    ", th);
    add_known(&mut l, human_count(r.used_tokens), 8, th, dim);
    add_title(&mut l, "  total  ", th);
    add_known(&mut l, human_count(r.total_tokens), 8, th, dim);
    add_title(&mut l, "  usage  ", th);
    add_known(&mut l, human_pct(r.token_usage), 6, th, dim);
    assert(spans_view(l@) =~= all[2]);
    push_line(&mut lines, l);

    let mut l: Vec<Span> = Vec::new();
    add_title(&mut l, "gen/s   ", th);
    add_known(&mut l, human_rate(r.gen_throughput), 8, th, dim);
    add_title(&mut l, "  hit    ", th);
    add_known(&mut l, human_pct(r.cache_hit_rate), 8, th, dim);
    add_title(&mut l, "  util   ", th);
    add_value(&mut l, pct_if_known(r.utilization), 6, th, dim);
    assert(spans_view(l@) =~= all[3]);
    push_line(&mut lines, l);

    let mut l: Vec<Span> = Vec::new();
    add_title(&mut l, "spec    ", th);
    add_value(&mut l, fixed_if_known(r.spec_accept_length, 2, " tok/fwd"), 10, th, dim);
    add_title(&mut l, "  accept  ", th);
    add_value(&mut l, pct_if_known(r.spec_accept_rate), 8, th, dim);
    assert(spans_view(l@) =~= all[4]);
    push_line(&mut lines, l);
    assert(lines_view(lines@) =~= all);
    lines
}

/// Replaces the table's interior with the selected row's full readout and the graph
/// of its generation rate.
pub fn rank_detail<N: Num>(s: &Snapshot<N>, th: &Theme, rect: Rect, buf: &mut Buffer, sel: usize)
    requires
        fits(rect, old(buf).w(), old(buf).h()),
    ensures
        final(buf).w() == old(buf).w(),
        final(buf).h() == old(buf).h(),
        shaped(old(buf)@, old(buf).w() as int, old(buf).h() as int),
        shaped(final(buf)@, old(buf).w() as int, old(buf).h() as int),
        final(buf)@ == detail_drawn(old(buf)@, *s, *th, rect, sel as int),
{
    let w0: u16 = buf.width();
    let dim = s.conn.dimmed();
    let sel: usize = clamp_sel(sel, s.ranks.len());
    if s.ranks.len() == 0 {
        return;
    }
    let r = &s.ranks[sel];
    let lines = lines_in_full(r, sel, th, dim);
    write_lines(buf, rect, &lines);
    let graph = below(rect, 5, buf);
    let series = r.gen_series.samples();
    draw(buf, graph, &series, th, "cpu", None, true);
}

}
