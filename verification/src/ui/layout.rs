//! Where the four boxes stand.
use crate::ui::cells::Rect;
use vstd::prelude::*;

verus! {

/// The share of the screen that a box takes, in percent, and its smallest size.
#[derive(Debug, Clone, Copy, PartialEq, Eq, Structural)]
pub struct BoxSpec {
    pub width_p: u32,
    pub height_p: u32,
    pub min_width: u16,
    pub min_height: u16,
}

// The smallest widths are tuned so that the full four-box grid fits a 55-column
// terminal; rows clip at the frame edge rather than hiding data.

/// The engine box: a strip across the top.
#[verifier::allow_in_spec]
pub fn engine_box() -> BoxSpec
    returns
        (BoxSpec { width_p: 100, height_p: 32, min_width: 55, min_height: 8 }),
{
    BoxSpec { width_p: 100, height_p: 32, min_width: 55, min_height: 8 }
}

/// The token pool box: left, below the engine.
#[verifier::allow_in_spec]
pub fn kv_box() -> BoxSpec
    returns
        (BoxSpec { width_p: 45, height_p: 40, min_width: 24, min_height: 10 }),
{
    BoxSpec { width_p: 45, height_p: 40, min_width: 24, min_height: 10 }
}

/// The traffic box: left, at the bottom.
#[verifier::allow_in_spec]
pub fn traffic_box() -> BoxSpec
    returns
        (BoxSpec { width_p: 45, height_p: 28, min_width: 24, min_height: 6 }),
{
    BoxSpec { width_p: 45, height_p: 28, min_width: 24, min_height: 6 }
}

/// The ranks box: right, below the engine.
#[verifier::allow_in_spec]
pub fn ranks_box() -> BoxSpec
    returns
        (BoxSpec { width_p: 55, height_p: 68, min_width: 31, min_height: 16 }),
{
    BoxSpec { width_p: 55, height_p: 68, min_width: 31, min_height: 16 }
}

/// Which of the four boxes are currently shown.
#[derive(Debug, Clone, Copy, PartialEq, Eq, Structural)]
pub struct Boxes {
    pub engine: bool,
    pub kv: bool,
    pub traffic: bool,
    pub ranks: bool,
}

impl Default for Boxes {
    fn default() -> (r: Self)
        ensures
            r == (Boxes { engine: false, kv: false, traffic: false, ranks: false }),
    {
        Boxes { engine: false, kv: false, traffic: false, ranks: false }
    }
}

impl Boxes {
    pub fn all() -> (r: Boxes)
        ensures
            r == (Boxes { engine: true, kv: true, traffic: true, ranks: true }),
    {
        Boxes { engine: true, kv: true, traffic: true, ranks: true }
    }
}

/// The four solved parts of the screen. Each box is a complete independent frame;
/// they are stacked without a gap, so that adjacent borders sit on neighbouring
/// rows and columns as a double line.
#[derive(Debug, Clone, Copy, PartialEq, Eq, Structural)]
pub struct Layout {
    pub engine: Rect,
    pub kv: Rect,
    pub traffic: Rect,
    pub ranks: Rect,
}

impl Default for Layout {
    fn default() -> (r: Self)
        ensures
            ({
                let none = Rect { x: 0, y: 0, width: 0, height: 0 };
                r == Layout { engine: none, kv: none, traffic: none, ranks: none }
            }),
    {
        let none = Rect { x: 0, y: 0, width: 0, height: 0 };
        Layout { engine: none, kv: none, traffic: none, ranks: none }
    }
}

/// `v` where `on`, else nought.
pub open spec fn if_on(on: bool, v: int) -> int {
    if on {
        v
    } else {
        0
    }
}

/// The larger of two.
pub open spec fn at_least(a: int, b: int) -> int {
    if a < b {
        b
    } else {
        a
    }
}

/// The smaller of two.
pub open spec fn at_most(a: int, b: int) -> int {
    if a < b {
        a
    } else {
        b
    }
}

/// The smallest width that can hold the boxes.
pub open spec fn min_width_of(b: Boxes) -> int {
    at_least(
        at_least(
            if_on(b.engine, engine_box().min_width as int),
            if_on(b.kv || b.traffic, kv_box().min_width as int) + if_on(b.ranks, ranks_box().min_width as int),
        ),
        2,
    )
}

/// The smallest height that can hold the boxes.
pub open spec fn min_height_of(b: Boxes) -> int {
    at_least(
        if_on(b.engine, engine_box().min_height as int) + at_least(
            if_on(b.kv, kv_box().min_height as int) + if_on(b.traffic, traffic_box().min_height as int),
            if_on(b.ranks, ranks_box().min_height as int),
        ),
        2,
    )
}

/// Smallest terminal that can hold the given box set.
pub fn min_size(boxes: &Boxes) -> (r: (u16, u16))
    ensures
        r.0 == min_width_of(*boxes),
        r.1 == min_height_of(*boxes),
{
    let left_w: u16 = if boxes.kv || boxes.traffic {
        kv_box().min_width
    } else {
        0
    };
    let right_w: u16 = if boxes.ranks {
        ranks_box().min_width
    } else {
        0
    };
    let col_w: u16 = left_w + right_w;
    let engine_w: u16 = if boxes.engine {
        engine_box().min_width
    } else {
        0
    };
    let min_w: u16 = if engine_w < col_w {
        col_w
    } else {
        engine_w
    };
    let top_h: u16 = if boxes.engine {
        engine_box().min_height
    } else {
        0
    };
    let kv_h: u16 = if boxes.kv {
        kv_box().min_height
    } else {
        0
    };
    let traffic_h: u16 = if boxes.traffic {
        traffic_box().min_height
    } else {
        0
    };
    let right_h: u16 = if boxes.ranks {
        ranks_box().min_height
    } else {
        0
    };
    let below: u16 = if kv_h + traffic_h < right_h {
        right_h
    } else {
        kv_h + traffic_h
    };
    let min_h: u16 = top_h + below;
    (
        if min_w < 2 {
            2
        } else {
            min_w
        },
        if min_h < 2 {
            2
        } else {
            min_h
        },
    )
}

/// `p` percent of `n`, rounded to the nearest whole number.
pub open spec fn percent_round(n: int, p: int) -> int {
    (n * p + 50) / 100
}

/// `p` percent of `n`, rounded up.
pub open spec fn percent_up(n: int, p: int) -> int {
    (n * p + 99) / 100
}

/// `p` percent of `n`, rounded down.
pub open spec fn percent_down(n: int, p: int) -> int {
    (n * p) / 100
}

/// The width of the left column: full width where the ranks are hidden.
pub open spec fn left_width(w: int, b: Boxes) -> int {
    if_on(
        b.kv || b.traffic,
        at_least(
            percent_round(
                w,
                if b.ranks {
                    kv_box().width_p as int
                } else {
                    100
                },
            ),
            at_most(kv_box().min_width as int, w),
        ),
    )
}

/// The height of the engine box.
pub open spec fn engine_height(h: int, b: Boxes) -> int {
    if_on(
        b.engine,
        at_least(percent_up(h, engine_box().height_p as int), at_most(engine_box().min_height as int, h)),
    )
}

/// The height of the token pool box; `below` is what the engine box leaves.
pub open spec fn kv_height(h: int, below: int, b: Boxes) -> int {
    if_on(
        b.kv,
        if b.traffic {
            at_most(
                at_least(
                    percent_down(h, kv_box().height_p as int),
                    at_most(kv_box().min_height as int, below),
                ),
                below,
            )
        } else {
            below
        },
    )
}

/// The four parts that the boxes take of `area`.
pub open spec fn solved(area: Rect, b: Boxes) -> Layout {
    let w = area.width as int;
    let h = area.height as int;
    let left = left_width(w, b);
    let top = engine_height(h, b);
    let pool = kv_height(h, h - top, b);
    Layout {
        engine: Rect { x: area.x, y: area.y, width: area.width, height: top as u16 },
        kv: Rect {
            x: area.x,
            y: (area.y + top) as u16,
            width: left as u16,
            height: pool as u16,
        },
        traffic: Rect {
            x: area.x,
            y: (area.y + top + pool) as u16,
            width: left as u16,
            height: if_on(b.traffic, h - top - pool) as u16,
        },
        ranks: Rect {
            x: (area.x + left) as u16,
            y: (area.y + top) as u16,
            width: if_on(b.ranks, w - left) as u16,
            height: (h - top) as u16,
        },
    }
}

/// Splits `area` among the shown boxes: the columns at a rounded percentage, the
/// engine box rounded up, the token pool rounded down, and the traffic box takes
/// the rest, so that the grid exactly fills the area. A hidden box gets a part
/// without cells.
pub fn solve(area: Rect, boxes: &Boxes) -> (r: Layout)
    requires
        area.right_spec() <= u16::MAX,
        area.bottom_spec() <= u16::MAX,
    ensures
        r == solved(area, *boxes),
{
    let t_w: u32 = area.width as u32;
    let t_h: u32 = area.height as u32;
    let left_w: u32 = if boxes.kv || boxes.traffic {
        let wp: u32 = if boxes.ranks {
            kv_box().width_p
        } else {
            100
        };
        let share: u32 = (t_w * wp + 50) / 100;
        let least: u32 = if (kv_box().min_width as u32) < t_w {
            kv_box().min_width as u32
        } else {
            t_w
        };
        if share < least {
            least
        } else {
            share
        }
    } else {
        0
    };
    let engine_h: u32 = if boxes.engine {
        let share: u32 = (t_h * engine_box().height_p + 99) / 100;
        let least: u32 = if (engine_box().min_height as u32) < t_h {
            engine_box().min_height as u32
        } else {
            t_h
        };
        if share < least {
            least
        } else {
            share
        }
    } else {
        0
    };
    let below: u32 = t_h - engine_h;
    let kv_h: u32 = if boxes.kv {
        if boxes.traffic {
            let share: u32 = t_h * kv_box().height_p / 100;
            let least: u32 = if (kv_box().min_height as u32) < below {
                kv_box().min_height as u32
            } else {
                below
            };
            let want: u32 = if share < least {
                least
            } else {
                share
            };
            if want < below {
                want
            } else {
                below
            }
        } else {
            below
        }
    } else {
        0
    };
    let traffic_h: u32 = if boxes.traffic {
        below - kv_h
    } else {
        0
    };
    let ranks_w: u32 = if boxes.ranks {
        t_w - left_w
    } else {
        0
    };
    Layout {
        engine: Rect { x: area.x, y: area.y, width: area.width, height: engine_h as u16 },
        kv: Rect {
            x: area.x,
            y: area.y + engine_h as u16,
            width: left_w as u16,
            height: kv_h as u16,
        },
        traffic: Rect {
            x: area.x,
            y: area.y + engine_h as u16 + kv_h as u16,
            width: left_w as u16,
            height: traffic_h as u16,
        },
        ranks: Rect {
            x: area.x + left_w as u16,
            y: area.y + engine_h as u16,
            width: ranks_w as u16,
            height: below as u16,
        },
    }
}

/// Whether `r` lies inside `area`.
pub open spec fn inside(r: Rect, area: Rect) -> bool {
    &&& area.x <= r.x
    &&& area.y <= r.y
    &&& r.right_spec() <= area.right_spec()
    &&& r.bottom_spec() <= area.bottom_spec()
}

/// Whether `r` has no cells.
pub open spec fn no_cells(r: Rect) -> bool {
    r.width == 0 || r.height == 0
}

/// Every part lies inside the area, whatever the size and the shown boxes.
pub proof fn no_box_leaves_the_area(area: Rect, b: Boxes)
    requires
        area.right_spec() <= u16::MAX,
        area.bottom_spec() <= u16::MAX,
    ensures
        inside(solved(area, b).engine, area),
        inside(solved(area, b).kv, area),
        inside(solved(area, b).traffic, area),
        inside(solved(area, b).ranks, area),
{
}

/// A hidden box has no cells.
pub proof fn hidden_boxes_have_no_cells(area: Rect, b: Boxes)
    requires
        area.right_spec() <= u16::MAX,
        area.bottom_spec() <= u16::MAX,
    ensures
        !b.engine ==> no_cells(solved(area, b).engine),
        !b.kv ==> no_cells(solved(area, b).kv),
        !b.traffic ==> no_cells(solved(area, b).traffic),
        !b.ranks ==> no_cells(solved(area, b).ranks),
{
}

/// The boxes touch without a gap and without an overlap, and the grid reaches the
/// right and the bottom edge of the area.
pub proof fn boxes_tile_the_area(area: Rect, b: Boxes)
    requires
        area.right_spec() <= u16::MAX,
        area.bottom_spec() <= u16::MAX,
    ensures
        ({
            let l = solved(area, b);
            &&& l.engine.bottom_spec() == l.kv.y == l.ranks.y
            &&& l.kv.bottom_spec() == l.traffic.y
            &&& l.kv.right_spec() == l.ranks.x
            &&& l.traffic.right_spec() == l.ranks.x
            &&& (b.engine ==> l.engine.right_spec() == area.right_spec())
            &&& (b.traffic || b.kv ==> l.traffic.bottom_spec() == area.bottom_spec())
            &&& (b.ranks ==> l.ranks.right_spec() == area.right_spec())
            &&& (b.ranks ==> l.ranks.bottom_spec() == area.bottom_spec())
            &&& (!b.ranks && (b.kv || b.traffic) ==> l.kv.right_spec() == area.right_spec())
        }),
{
}

/// On a screen that is not too small, every shown box has room for a frame.
pub proof fn shown_boxes_have_room(area: Rect, b: Boxes)
    requires
        area.right_spec() <= u16::MAX,
        area.bottom_spec() <= u16::MAX,
        area.width >= min_width_of(b),
        area.height >= min_height_of(b),
    ensures
        b.engine ==> solved(area, b).engine.width >= 2 && solved(area, b).engine.height >= 2,
        b.kv ==> solved(area, b).kv.width >= 2 && solved(area, b).kv.height >= 2,
        b.ranks ==> solved(area, b).ranks.width >= 2 && solved(area, b).ranks.height >= 2,
{
}

}
