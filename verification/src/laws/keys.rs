//! What the keys do.
use crate::app::{after_key, App, KeyCode, KeyEvent};
use crate::model::snapshot::RankRow;
use crate::num::Num;
use crate::ui::overlays::Overlay;
use crate::ui::widgets::table::{order_of, order_shows_every_row_once, position_is_unique, SortCol};
use vstd::prelude::*;

verus! {

/// The application after a key, where nothing is open over it.
pub open spec fn typed<N: Num>(a: App, code: KeyCode, ranks: Seq<RankRow<N>>) -> App {
    after_key(a, KeyEvent { code, control: false, press: true }, ranks).0
}

/// The number keys show and hide the boxes, each its own, and nothing else changes.
pub proof fn numbers_toggle_their_boxes<N: Num>(a: App, ranks: Seq<RankRow<N>>)
    requires
        a.overlay is None,
    ensures
        ({
            let one = typed(a, KeyCode::Char('1'), ranks);
            let two = typed(a, KeyCode::Char('2'), ranks);
            let three = typed(a, KeyCode::Char('3'), ranks);
            let four = typed(a, KeyCode::Char('4'), ranks);
            &&& one.boxes.engine == !a.boxes.engine
            &&& one.boxes.kv == a.boxes.kv
            &&& one.boxes.traffic == a.boxes.traffic
            &&& one.boxes.ranks == a.boxes.ranks
            &&& two.boxes.kv == !a.boxes.kv
            &&& two.boxes.engine == a.boxes.engine
            &&& two.boxes.traffic == a.boxes.traffic
            &&& two.boxes.ranks == a.boxes.ranks
            &&& three.boxes.traffic == !a.boxes.traffic
            &&& three.boxes.engine == a.boxes.engine
            &&& three.boxes.kv == a.boxes.kv
            &&& three.boxes.ranks == a.boxes.ranks
            &&& four.boxes.ranks == !a.boxes.ranks
            &&& four.boxes.engine == a.boxes.engine
            &&& four.boxes.kv == a.boxes.kv
            &&& four.boxes.traffic == a.boxes.traffic
            &&& typed(one, KeyCode::Char('1'), ranks) == a
            &&& typed(two, KeyCode::Char('2'), ranks) == a
            &&& typed(three, KeyCode::Char('3'), ranks) == a
            &&& typed(four, KeyCode::Char('4'), ranks) == a
        }),
{
}

/// Reversing the order and pausing undo themselves, and change nothing else.
pub proof fn switches_undo_themselves<N: Num>(a: App, ranks: Seq<RankRow<N>>)
    requires
        a.overlay is None,
    ensures
        ({
            let r = typed(a, KeyCode::Char('r'), ranks);
            let u = typed(a, KeyCode::Char('u'), ranks);
            &&& r.sort_reverse == !a.sort_reverse
            &&& r.sort_col == a.sort_col
            &&& r.rank_sel == a.rank_sel
            &&& r.control == a.control
            &&& u.control.paused == !a.control.paused
            &&& u.control.interval_ms == a.control.interval_ms
            &&& u.sort_reverse == a.sort_reverse
            &&& typed(r, KeyCode::Char('r'), ranks) == a
            &&& typed(u, KeyCode::Char('u'), ranks) == a
        }),
{
}

/// Plus and minus lengthen and shorten the interval by a tenth of a second within its range,
/// and undo each other.
pub proof fn plus_and_minus_pace<N: Num>(a: App, ranks: Seq<RankRow<N>>)
    requires
        a.overlay is None,
        100 <= a.control.interval_ms <= 10_000,
    ensures
        ({
            let v = a.control.interval_ms;
            let p = typed(a, KeyCode::Char('+'), ranks);
            let q = typed(a, KeyCode::Char('='), ranks);
            let m = typed(a, KeyCode::Char('-'), ranks);
            &&& p.control.interval_ms == if v <= 9900 {
                v + 100
            } else {
                10_000
            }
            &&& q == p
            &&& m.control.interval_ms == if v >= 200 {
                v - 100
            } else {
                100
            }
            &&& p.control.paused == a.control.paused
            &&& m.control.paused == a.control.paused
            &&& v <= 9900 ==> typed(p, KeyCode::Char('-'), ranks) == a
            &&& v >= 200 ==> typed(m, KeyCode::Char('+'), ranks) == a
        }),
{
}

/// The column to the right of another in the table.
pub open spec fn right_of(c: SortCol) -> SortCol {
    match c {
        SortCol::Rank => SortCol::Run,
        SortCol::Run => SortCol::Wait,
        SortCol::Wait => SortCol::Used,
        SortCol::Used => SortCol::Usage,
        SortCol::Usage => SortCol::Gen,
        SortCol::Gen => SortCol::Hit,
        SortCol::Hit => SortCol::Util,
        SortCol::Util => SortCol::Rank,
    }
}

/// The arrow keys go from column to column, around the ends, and undo each other.
pub proof fn arrows_choose_the_column<N: Num>(a: App, ranks: Seq<RankRow<N>>)
    requires
        a.overlay is None,
    ensures
        typed(a, KeyCode::Right, ranks).sort_col == right_of(a.sort_col),
        right_of(typed(a, KeyCode::Left, ranks).sort_col) == a.sort_col,
        typed(a, KeyCode::Right, ranks).sort_reverse == a.sort_reverse,
        typed(typed(a, KeyCode::Right, ranks), KeyCode::Left, ranks) == a,
        typed(typed(a, KeyCode::Left, ranks), KeyCode::Right, ranks) == a,
{
    match a.sort_col {
        SortCol::Rank => {},
        SortCol::Run => {},
        SortCol::Wait => {},
        SortCol::Used => {},
        SortCol::Usage => {},
        SortCol::Gen => {},
        SortCol::Hit => {},
        SortCol::Util => {},
    }
}

/// Down and `j` select the row that is shown below the selected one, up and `k` the one
/// above; at either end the selection stays. The first key and the last go to the aggregate
/// row and to the last one.
pub proof fn selection_follows_the_rows<N: Num>(a: App, ranks: Seq<RankRow<N>>, p: int)
    requires
        a.overlay is None,
        ranks.len() <= usize::MAX,
        0 <= p < order_of(ranks, a.sort_col, a.sort_reverse).len(),
        order_of(ranks, a.sort_col, a.sort_reverse)[p] == a.rank_sel,
    ensures
        ({
            let order = order_of(ranks, a.sort_col, a.sort_reverse);
            let below = if p + 1 < order.len() {
                order[p + 1]
            } else {
                a.rank_sel
            };
            let above = if p > 0 {
                order[p - 1]
            } else {
                a.rank_sel
            };
            &&& typed(a, KeyCode::Down, ranks) == (App { rank_sel: below, ..a })
            &&& typed(a, KeyCode::Char('j'), ranks) == (App { rank_sel: below, ..a })
            &&& typed(a, KeyCode::Up, ranks) == (App { rank_sel: above, ..a })
            &&& typed(a, KeyCode::Char('k'), ranks) == (App { rank_sel: above, ..a })
            &&& typed(a, KeyCode::Home, ranks) == (App { rank_sel: 0, ..a })
            &&& typed(a, KeyCode::End, ranks) == (App { rank_sel: (ranks.len() - 1) as usize, ..a })
        }),
{
    let order = order_of(ranks, a.sort_col, a.sort_reverse);
    order_shows_every_row_once(ranks, a.sort_col, a.sort_reverse);
    position_is_unique(order, p);
    assert(order.contains(order[p]));
}

/// Each overlay has a letter and a function key; the next key closes it and does nothing
/// else.
pub proof fn overlays_open_and_close<N: Num>(a: App, ranks: Seq<RankRow<N>>, code: KeyCode)
    requires
        a.overlay is None,
    ensures
        typed(a, KeyCode::Char('?'), ranks).overlay == Some(Overlay::Help),
        typed(a, KeyCode::F(1), ranks).overlay == Some(Overlay::Help),
        typed(a, KeyCode::Char('o'), ranks).overlay == Some(Overlay::Options),
        typed(a, KeyCode::F(2), ranks).overlay == Some(Overlay::Options),
        typed(a, KeyCode::Char('i'), ranks).overlay == Some(Overlay::ServerInfo),
        typed(a, KeyCode::F(9), ranks).overlay == Some(Overlay::ServerInfo),
        typed(typed(a, KeyCode::Char('?'), ranks), code, ranks) == a,
        typed(typed(a, KeyCode::Char('o'), ranks), code, ranks) == a,
        typed(typed(a, KeyCode::Char('i'), ranks), code, ranks) == a,
{
}

/// The detail of a row opens where the ranks are shown, and the escape key closes it.
pub proof fn detail_opens_and_closes<N: Num>(a: App, ranks: Seq<RankRow<N>>)
    requires
        a.overlay is None,
    ensures
        a.boxes.ranks ==> typed(a, KeyCode::Enter, ranks).detail_open,
        !a.boxes.ranks ==> typed(a, KeyCode::Enter, ranks) == a,
        !typed(a, KeyCode::Esc, ranks).detail_open,
        typed(a, KeyCode::Enter, ranks).rank_sel == a.rank_sel,
        typed(a, KeyCode::Home, ranks).rank_sel == 0,
        ranks.len() > 0 && ranks.len() <= usize::MAX ==> typed(a, KeyCode::End, ranks).rank_sel
            == ranks.len() - 1,
{
}

}
