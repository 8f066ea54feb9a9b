//! How the screen is divided, and how its colours run.
use crate::binary::{coarsened, doubled_past, narrowed, nearest, refined};
use crate::ui::cells::{Color, Rect};
use crate::ui::layout::{solved, Boxes};
use crate::ui::theme::{color_of, gradient_of, mixed, ColorMode};
use vstd::prelude::*;

verus! {

// ---- boxes ----

/// With all boxes shown, the engine box takes a bit more than 32 percent of the height, the
/// left column 45 percent of the width to the nearest column, and the token pool a bit less
/// than 40 percent of the height, unless a least size or the room that is left says
/// otherwise; the engine box spans the width.
pub proof fn boxes_take_their_shares(area: Rect)
    requires
        area.right_spec() <= u16::MAX,
        area.bottom_spec() <= u16::MAX,
        area.width >= 55,
        area.height >= 24,
    ensures
        ({
            let l = solved(area, Boxes { engine: true, kv: true, traffic: true, ranks: true });
            let (w, h) = (area.width as int, area.height as int);
            &&& l.engine.width == w
            &&& l.engine.height >= 8
            &&& l.engine.height > 8 ==> 100 * (l.engine.height - 1) < 32 * h <= 100
                * l.engine.height
            &&& l.engine.height == 8 ==> 32 * h <= 800
            &&& l.kv.width >= 24
            &&& l.kv.width > 24 ==> 45 * w - 50 < 100 * l.kv.width <= 45 * w + 50
            &&& l.kv.width == 24 ==> 45 * w <= 2450
            &&& l.kv.height >= 10
            &&& l.kv.height > 10 && l.kv.height < h - l.engine.height ==> 100 * l.kv.height <= 40
                * h < 100 * (l.kv.height + 1)
            &&& l.traffic.width == l.kv.width
            &&& l.ranks.width == w - l.kv.width
            &&& l.ranks.height == h - l.engine.height
            &&& l.traffic.height == h - l.engine.height - l.kv.height
        }),
{
}

/// A hidden box leaves its room to those beside it: without the ranks the left column spans
/// the width, without the traffic the token pool reaches the bottom, and without the engine
/// the others start at the top.
pub proof fn hidden_boxes_leave_their_room(area: Rect, b: Boxes)
    requires
        area.right_spec() <= u16::MAX,
        area.bottom_spec() <= u16::MAX,
    ensures
        !b.ranks && b.kv ==> solved(area, b).kv.width == area.width,
        b.kv && !b.traffic ==> solved(area, b).kv.bottom_spec() == area.bottom_spec(),
        !b.kv && b.traffic ==> solved(area, b).traffic.y == solved(area, b).engine.bottom_spec(),
        !b.engine ==> solved(area, b).ranks.y == area.y && solved(area, b).kv.y == area.y,
        b.ranks && !b.kv && !b.traffic ==> solved(area, b).ranks.width == area.width,
{
}

// ---- gradients ----

proof fn eighths_are_exact(d: u8)
    ensures
        coarsened((d * 0x80_0000) as nat, 0x80_0000) == d * 0x80_0000,
{
    let a = (d * 0x80_0000) as nat;
    if a >= 0x100_0000 {
        assert(2 * 1 * 0x80_0000 == 0x100_0000);
        let k = doubled_past(a, 0x100_0000, 1);
        assert(k == if d < 4 {
            2nat
        } else if d < 8 {
            4
        } else if d < 16 {
            8
        } else if d < 32 {
            16
        } else if d < 64 {
            32
        } else if d < 128 {
            64
        } else {
            128
        }) by {
            reveal_with_fuel(doubled_past, 9);
        }
        assert(1 * k == k);
        assert(a % k == 0 && (a / k) * k == a) by (nonlinear_arith)
            requires
                a == d * 0x80_0000,
                k == 2 || k == 4 || k == 8 || k == 16 || k == 32 || k == 64 || k == 128,
        ;
        assert(nearest(a, k) == a / k);
    }
}

proof fn way_is_whole(span: nat)
    requires
        span == 50 || span == 100,
    ensures
        narrowed(span, span, 1, 0x80_0000) == (0x80_0000nat, 0x80_0000nat),
{
    reveal_with_fuel(refined, 25);
    if span == 50 {
        assert(nearest(50 * 0x80_0000, 50) == 0x80_0000);
    } else {
        assert(nearest(100 * 0x80_0000, 100) == 0x80_0000);
    }
}

/// A channel starts at the one end and arrives at the other.
proof fn channels_meet_their_ends(x: u8, y: u8, span: nat)
    requires
        span == 50 || span == 100,
    ensures
        mixed(x, y, 0, span) == x,
        mixed(x, y, span, span) == y,
{
    assert(narrowed(0, span, 1, 0x80_0000) == (0nat, 1nat)) by {
        assert(nearest(0, span) == 0);
    }
    let (none, one) = narrowed(0, span, 1, 0x80_0000);
    assert((y - x) * none == 0 && (x - y) * none == 0 && x * one == x) by (nonlinear_arith)
        requires
            none == 0,
            one == 1,
    ;
    assert(coarsened(0, 0x80_0000) == 0);
    assert(coarsened(x as nat, 0x80_0000) == x);
    assert((2 * x + 1) / 2int == x);
    way_is_whole(span);
    let d = if y >= x {
        (y - x) as u8
    } else {
        (x - y) as u8
    };
    eighths_are_exact(d);
    eighths_are_exact(y);
    assert((2 * (y * 0x80_0000) + 0x80_0000) / 0x100_0000int == y);
}

/// A gradient starts at its first colour, passes its middle colour half-way and ends at its
/// last colour; without a last colour it is the first throughout.
pub proof fn gradients_meet_their_stops(
    start: (u8, u8, u8),
    mid: (u8, u8, u8),
    end: (u8, u8, u8),
    mode: ColorMode,
    i: int,
)
    ensures
        ({
            let (s, m, e) = (
                (start.0 as int, start.1 as int, start.2 as int),
                (mid.0 as int, mid.1 as int, mid.2 as int),
                (end.0 as int, end.1 as int, end.2 as int),
            );
            let through = gradient_of(Some(s), Some(m), Some(e), mode);
            let straight = gradient_of(Some(s), None, Some(e), mode);
            let flat = gradient_of(Some(s), Some(m), None, mode);
            &&& through.len() == 101 && straight.len() == 101 && flat.len() == 101
            &&& through[0] == color_of(start.0, start.1, start.2, mode)
            &&& through[50] == color_of(mid.0, mid.1, mid.2, mode)
            &&& through[100] == color_of(end.0, end.1, end.2, mode)
            &&& straight[0] == color_of(start.0, start.1, start.2, mode)
            &&& straight[100] == color_of(end.0, end.1, end.2, mode)
            &&& 0 <= i < 101 ==> flat[i] == color_of(start.0, start.1, start.2, mode)
        }),
{
    channels_meet_their_ends(start.0, mid.0, 50);
    channels_meet_their_ends(start.1, mid.1, 50);
    channels_meet_their_ends(start.2, mid.2, 50);
    channels_meet_their_ends(mid.0, end.0, 50);
    channels_meet_their_ends(mid.1, end.1, 50);
    channels_meet_their_ends(mid.2, end.2, 50);
    channels_meet_their_ends(start.0, end.0, 100);
    channels_meet_their_ends(start.1, end.1, 100);
    channels_meet_their_ends(start.2, end.2, 100);
}

/// On a terminal of all colours a colour is shown as it is.
pub proof fn true_colours_are_kept(r: u8, g: u8, b: u8)
    ensures
        color_of(r, g, b, ColorMode::TrueColor) == Color::Rgb(r, g, b),
{
}

}
