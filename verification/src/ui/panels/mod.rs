//! The boxes of the screen.
use crate::model::snapshot::Snapshot;
use crate::num::Num;
use crate::ui::cells::{fits, shaped, Buffer, Rect};
use crate::ui::theme::Theme;
use crate::ui::widgets::table::{ranks_drawn, SortCol};
use vstd::prelude::*;

pub mod engine;
pub mod human;
pub mod kv;
pub mod rows;
pub mod traffic;

pub use self::engine::engine;
pub use self::kv::kv;
pub use self::traffic::traffic;
pub use crate::ui::widgets::Gui;

verus! {

/// The ranks box. Selection and sort state belong to the application.
pub fn ranks<N: Num>(
    s: &Snapshot<N>,
    th: &Theme,
    gui: Gui,
    rect: Rect,
    buf: &mut Buffer,
    sel: usize,
    col: SortCol,
    reverse: bool,
)
    requires
        fits(rect, old(buf).w(), old(buf).h()),
    ensures
        final(buf).w() == old(buf).w(),
        final(buf).h() == old(buf).h(),
        shaped(old(buf)@, old(buf).w() as int, old(buf).h() as int),
        shaped(final(buf)@, old(buf).w() as int, old(buf).h() as int),
        final(buf)@ == ranks_drawn(old(buf)@, *s, *th, gui, rect, sel as int, col, reverse),
{
    crate::ui::widgets::table::ranks(s, th, gui, rect, buf, sel, col, reverse);
}

}
