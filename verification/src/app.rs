//! The application: what is shown, and what the keys do.
use crate::config::Config;
use crate::error::SgtopError;
use crate::model::snapshot::{Connection, RankRow, Snapshot};
use crate::num::Num;
use crate::poll::{paced, signed_ms, PollControl};
use crate::text::{cat, cat3, cat4, decimal, decimal_text, small_text};
use crate::ui::cells::{add_span, bold, copy_cell, fits, ground, ink, italic, restyled, rework,
    reworked, shaped, sp, spans_view, styled, Buffer, Cell, CellView, Color, Grid, Line, LineView,
    Rect, Span};
use crate::ui::frame::{border_set, button_line, button_spans, buttons_view, centered, centered_put,
    copy_spans, pane_drawn, rounded, square, BorderSet, ButtonView, Pane};
use crate::ui::layout::{min_height_of, min_size, min_width_of, no_box_leaves_the_area, solve, solved,
    Boxes, Layout};
use crate::ui::overlays::{overlay_drawn, render, Live, Overlay};
use crate::ui::panels::engine::engine_drawn;
use crate::ui::panels::human::{duration_text, human_duration};
use crate::ui::panels::kv::kv_drawn;
use crate::ui::panels::traffic::traffic_drawn;
use crate::ui::theme::Theme;
use crate::ui::widgets::table::{clamp_sel, clamped_sel, detail_drawn, find_position, order,
    order_of, order_shows_every_row_once, place_of, position, position_is_found, position_is_unique,
    rank_detail, ranks_drawn, SortCol};
use crate::ui::widgets::Gui;
use crate::ui::width::{line_width, width16_of};
use vstd::prelude::*;
use vstd::string::*;

verus! {

// ---- keys ----

/// A key of the keyboard.
#[derive(Debug, Clone, Copy, PartialEq, Eq, Structural)]
pub enum KeyCode {
    Char(char),
    /// A function key, by its number.
    F(u8),
    Up,
    Down,
    Left,
    Right,
    Home,
    End,
    Enter,
    Esc,
    /// Any other key.
    Other,
}

/// What happened to a key.
#[derive(Debug, Clone, Copy, PartialEq, Eq, Structural)]
pub struct KeyEvent {
    pub code: KeyCode,
    /// Whether the control key was held.
    pub control: bool,
    /// Whether the key went down, rather than up or on.
    pub press: bool,
}

impl KeyEvent {
    /// The key went down, alone.
    pub fn new(code: KeyCode) -> (r: KeyEvent)
        ensures
            r == (KeyEvent { code, control: false, press: true }),
    {
        KeyEvent { code, control: false, press: true }
    }
}

// ---- state ----

/// Top-level application state: layout toggles, selection and what is open. The data
/// live in a snapshot that the poller writes.
pub struct App {
    /// What the user has asked of the poller.
    pub control: PollControl,
    pub config: Config,
    pub theme: Theme,
    pub boxes: Boxes,
    pub layout: Layout,
    pub bs: BorderSet,
    pub gui: Gui,
    pub quit: bool,
    /// Selected row of ranks (an index into the snapshot's ranks, 0 is the aggregate).
    pub rank_sel: usize,
    pub sort_col: SortCol,
    pub sort_reverse: bool,
    /// Whether the selected row is shown in full in place of the table.
    pub detail_open: bool,
    /// Full-screen help, options or server info.
    pub overlay: Option<Overlay>,
}

/// The layout before the first drawing.
pub open spec fn no_layout() -> Layout {
    let none = Rect { x: 0, y: 0, width: 0, height: 0 };
    Layout { engine: none, kv: none, traffic: none, ranks: none }
}

/// The selection one step up or down in the order that is shown.
pub open spec fn stepped(order: Seq<usize>, sel: int, up: bool) -> int {
    let sel = clamped_sel(sel, order.len() as int);
    if order.len() == 0 {
        sel
    } else {
        let at = position(order, sel);
        order[
            if up {
                if at > 0 {
                    at - 1
                } else {
                    0
                }
            } else if at + 1 < order.len() {
                at + 1
            } else {
                order.len() - 1
            }
        ] as int
    }
}

/// What a key does to the application, and whether it quits.
pub open spec fn after_key<N: Num>(a: App, key: KeyEvent, ranks: Seq<RankRow<N>>) -> (App, bool) {
    if !key.press {
        (a, false)
    } else if key.control && key.code == KeyCode::Char('c') {
        (a, true)
    } else if a.overlay is Some {
        (App { overlay: None, ..a }, false)
    } else {
        let order = order_of(ranks, a.sort_col, a.sort_reverse);
        match key.code {
            KeyCode::Char(c) => after_char(a, c, order),
            KeyCode::F(n) => (App { overlay: function_key(n), ..a }, false),
            KeyCode::Up => (App { rank_sel: stepped(order, a.rank_sel as int, true) as usize, ..a }, false),
            KeyCode::Down => (
                App { rank_sel: stepped(order, a.rank_sel as int, false) as usize, ..a },
                false,
            ),
            KeyCode::Left => (App { sort_col: SortCol::ALL@[(place_of(a.sort_col) + 7) % 8], ..a }, false),
            KeyCode::Right => (
                App { sort_col: SortCol::ALL@[(place_of(a.sort_col) + 1) % 8], ..a },
                false,
            ),
            KeyCode::Home => (App { rank_sel: 0, ..a }, false),
            KeyCode::End => (
                App { rank_sel: clamped_sel(usize::MAX as int, ranks.len() as int) as usize, ..a },
                false,
            ),
            KeyCode::Enter => (
                App {
                    detail_open: if a.boxes.ranks {
                        true
                    } else {
                        a.detail_open
                    },
                    ..a
                },
                false,
            ),
            KeyCode::Esc => (App { detail_open: false, ..a }, false),
            KeyCode::Other => (a, false),
        }
    }
}

/// The overlay that a function key opens.
pub open spec fn function_key(n: u8) -> Option<Overlay> {
    if n == 1 {
        Some(Overlay::Help)
    } else if n == 2 {
        Some(Overlay::Options)
    } else if n == 9 {
        Some(Overlay::ServerInfo)
    } else {
        None
    }
}

/// The controls with the interval changed by `delta` milliseconds.
pub open spec fn retimed(c: PollControl, delta: int) -> PollControl {
    PollControl { interval_ms: paced(signed_ms(c.interval_ms) + delta), ..c }
}

/// What a character does, where no overlay is open.
pub open spec fn after_char(a: App, c: char, order: Seq<usize>) -> (App, bool) {
    if c == 'q' {
        (a, true)
    } else if c == '?' {
        (App { overlay: Some(Overlay::Help), ..a }, false)
    } else if c == 'o' {
        (App { overlay: Some(Overlay::Options), ..a }, false)
    } else if c == 'i' {
        (App { overlay: Some(Overlay::ServerInfo), ..a }, false)
    } else if c == 'u' {
        (App { control: PollControl { paused: !a.control.paused, ..a.control }, ..a }, false)
    } else if c == '+' || c == '=' {
        (App { control: retimed(a.control, 100), ..a }, false)
    } else if c == '-' {
        (App { control: retimed(a.control, -100), ..a }, false)
    } else if c == '1' {
        (App { boxes: Boxes { engine: !a.boxes.engine, ..a.boxes }, ..a }, false)
    } else if c == '2' {
        (App { boxes: Boxes { kv: !a.boxes.kv, ..a.boxes }, ..a }, false)
    } else if c == '3' {
        (App { boxes: Boxes { traffic: !a.boxes.traffic, ..a.boxes }, ..a }, false)
    } else if c == '4' {
        (App { boxes: Boxes { ranks: !a.boxes.ranks, ..a.boxes }, ..a }, false)
    } else if c == 'k' {
        (App { rank_sel: stepped(order, a.rank_sel as int, true) as usize, ..a }, false)
    } else if c == 'j' {
        (App { rank_sel: stepped(order, a.rank_sel as int, false) as usize, ..a }, false)
    } else if c == 'r' {
        (App { sort_reverse: !a.sort_reverse, ..a }, false)
    } else {
        (a, false)
    }
}

impl App {
    /// The application at its start: all boxes shown, nothing open, the aggregate row
    /// selected, sorted by rank.
    pub fn new(config: Config, theme: Theme) -> (r: App)
        ensures
            r.control == (PollControl { paused: false, interval_ms: config.interval_ms }),
            r.config == config,
            r.theme == theme,
            r.boxes == (Boxes { engine: true, kv: true, traffic: true, ranks: true }),
            r.bs == if config.round_corners {
                rounded()
            } else {
                square()
            },
            r.gui.braille_graphs == (small_text(config.graph@) == small_text("btop"@)),
            r.layout == no_layout(),
            !r.quit,
            r.rank_sel == 0,
            r.sort_col == SortCol::Rank,
            !r.sort_reverse,
            !r.detail_open,
            r.overlay is None,
    {
        let bs = border_set(config.round_corners);
        let gui = Gui { braille_graphs: config.graph_braille() };
        App {
            control: PollControl { paused: false, interval_ms: config.interval_ms },
            boxes: Boxes::all(),
            layout: Layout::default(),
            bs,
            gui,
            quit: false,
            config,
            theme,
            rank_sel: 0,
            sort_col: SortCol::Rank,
            sort_reverse: false,
            detail_open: false,
            overlay: None,
        }
    }

    /// Splits the screen among the shown boxes.
    pub fn reflow(&mut self, area: Rect)
        requires
            area.right_spec() <= u16::MAX,
            area.bottom_spec() <= u16::MAX,
        ensures
            *final(self) == (App { layout: solved(area, old(self).boxes), ..*old(self) }),
    {
        self.layout = solve(area, &self.boxes);
    }

    /// Takes a key; tells whether the program ends. An open overlay owns the keyboard:
    /// any key closes it and is consumed.
    #[verifier::rlimit(40)]
    #[verifier::spinoff_prover]
    pub fn on_key<N: Num>(&mut self, key: KeyEvent, snap: &Snapshot<N>) -> (quits: bool)
        ensures
            (*final(self), quits) == after_key(*old(self), key, snap.ranks@),
    {
        if !key.press {
            return false;
        }
        if key.control && key.code == KeyCode::Char('c') {
            return true;
        }
        if self.overlay.is_some() {
            self.overlay = None;
            return false;
        }
        match key.code {
            KeyCode::Char(c) => {
                return self.on_char(c, snap);
            },
            KeyCode::F(n) => {
                if n == 1 {
                    self.overlay = Some(Overlay::Help);
                } else if n == 2 {
                    self.overlay = Some(Overlay::Options);
                } else if n == 9 {
                    self.overlay = Some(Overlay::ServerInfo);
                }
            },
            KeyCode::Up => {
                self.move_rank_sel(true, snap);
            },
            KeyCode::Down => {
                self.move_rank_sel(false, snap);
            },
            KeyCode::Left => {
                self.sort_col = self.sort_col.prev();
            },
            KeyCode::Right => {
                self.sort_col = self.sort_col.next();
            },
            KeyCode::Home => {
                self.rank_sel = 0;
            },
            KeyCode::End => {
                self.rank_sel = clamp_sel(usize::MAX, snap.ranks.len());
            },
            KeyCode::Enter => {
                if self.boxes.ranks {
                    self.detail_open = true;
                }
            },
            KeyCode::Esc => {
                self.detail_open = false;
            },
            KeyCode::Other => {},
        }
        false
    }

    /// Takes a character, where no overlay is open.
    fn on_char<N: Num>(&mut self, c: char, snap: &Snapshot<N>) -> (quits: bool)
        ensures
            (*final(self), quits) == after_char(
                *old(self),
                c,
                order_of(snap.ranks@, old(self).sort_col, old(self).sort_reverse),
            ),
    {
        if c == 'q' {
            return true;
        }
        if c == '?' {
            self.overlay = Some(Overlay::Help);
        } else if c == 'o' {
            self.overlay = Some(Overlay::Options);
        } else if c == 'i' {
            self.overlay = Some(Overlay::ServerInfo);
        } else if c == 'u' {
            self.control.paused = !self.control.paused;
        } else if c == '+' || c == '=' {
            self.control.step_interval(100);
        } else if c == '-' {
            self.control.step_interval(-100);
        } else if c == '1' {
            self.boxes.engine = !self.boxes.engine;
        } else if c == '2' {
            self.boxes.kv = !self.boxes.kv;
        } else if c == '3' {
            self.boxes.traffic = !self.boxes.traffic;
        } else if c == '4' {
            self.boxes.ranks = !self.boxes.ranks;
        } else if c == 'k' {
            self.move_rank_sel(true, snap);
        } else if c == 'j' {
            self.move_rank_sel(false, snap);
        } else if c == 'r' {
            self.sort_reverse = !self.sort_reverse;
        }
        false
    }

    /// Steps the selection through the order that is shown, so that the highlight
    /// follows what the user sees.
    fn move_rank_sel<N: Num>(&mut self, up: bool, snap: &Snapshot<N>)
        ensures
            *final(self) == (App {
                rank_sel: stepped(
                    order_of(snap.ranks@, old(self).sort_col, old(self).sort_reverse),
                    old(self).rank_sel as int,
                    up,
                ) as usize,
                ..*old(self)
            }),
    {
        let order = order(snap, self.sort_col, self.sort_reverse);
        let sel: usize = clamp_sel(self.rank_sel, snap.ranks.len());
        let n: usize = order.len();
        if n == 0 {
            self.rank_sel = sel;
            return;
        }
        let at: usize = find_position(&order, sel);
        proof {
            position_is_found(order@, sel as int, 0);
        }
        let next: usize = if up {
            at.saturating_sub(1)
        } else if at + 1 < n {
            at + 1
        } else {
            n - 1
        };
        self.rank_sel = order[next];
    }

    /// Whether polling has ended for good: the server runs without metrics.
    pub fn fatal_error<N: Num>(snap: &Snapshot<N>) -> (r: Option<SgtopError>)
        ensures
            r == if snap.conn is MetricsDisabled {
                Some(SgtopError::MetricsDisabled)
            } else {
                None
            },
    {
        match &snap.conn {
            Connection::MetricsDisabled => Some(SgtopError::MetricsDisabled),
            _ => None,
        }
    }
}

// ---- buttons ----

/// The buttons on the top border of the engine box: menus, the interval, the clock. A
/// distance of nought means "from the right".
pub open spec fn header_view(interval_ms: u64, clock: Seq<char>, th: Theme) -> Seq<ButtonView> {
    seq![
        (button_line('?', "?help"@, th), 12),
        (button_line('o', "options"@, th), 19),
        (button_line('i', "info"@, th), 28),
        (
            seq![
                sp("-"@, bold(th.color("hi_fg"@))),
                sp(
                    " "@ + decimal_text(interval_ms as nat) + "ms "@,
                    ink(th.color("title"@)),
                ),
                sp("+"@, bold(th.color("hi_fg"@))),
            ],
            0,
        ),
        (seq![sp(clock, ink(th.color("title"@)))], 0),
    ]
}

/// Adds a button.
fn add_button(out: &mut Vec<(Vec<Span>, u16)>, spans: Vec<Span>, off: u16)
    ensures
        buttons_view(final(out)@) == buttons_view(old(out)@).push((spans_view(spans@), off)),
        final(out)@ == old(out)@.push((spans, off)),
{
    let ghost b = (spans_view(spans@), off);
    out.push((spans, off));
    assert(buttons_view(out@) =~= buttons_view(old(out)@).push(b));
}

/// Menu, interval and clock buttons for the engine box's top border.
pub fn header_buttons(interval_ms: u64, clock: &str, th: &Theme) -> (r: Vec<(Vec<Span>, u16)>)
    ensures
        buttons_view(r@) == header_view(interval_ms, clock@, *th),
{
    proof {
        reveal_strlit("?help");
        reveal_strlit("options");
        reveal_strlit("info");
    }
    let mut out: Vec<(Vec<Span>, u16)> = Vec::new();
    add_button(&mut out, button_spans('?', "?help", th), 12);
    add_button(&mut out, button_spans('o', "options", th), 19);
    add_button(&mut out, button_spans('i', "info", th), 28);
    let mut step: Vec<Span> = Vec::new();
    add_span(&mut step, "-", bold(th.c("hi_fg")));
    add_span(
        &mut step,
        cat3(" ", decimal(interval_ms).as_str(), "ms ").as_str(),
        ink(th.c("title")),
    );
    add_span(&mut step, "+", bold(th.c("hi_fg")));
    assert(spans_view(step@) =~= header_view(interval_ms, clock@, *th)[3].0);
    add_button(&mut out, step, 0);
    let mut time: Vec<Span> = Vec::new();
    add_span(&mut time, clock, ink(th.c("title")));
    assert(spans_view(time@) =~= header_view(interval_ms, clock@, *th)[4].0);
    add_button(&mut out, time, 0);
    assert(buttons_view(out@) =~= header_view(interval_ms, clock@, *th));
    out
}

/// A hint with arrows for its keys.
pub open spec fn arrow_line(key: Seq<char>, label: Seq<char>, th: Theme) -> LineView {
    seq![sp(key, bold(th.color("hi_fg"@))), sp(label, ink(th.color("title"@)))]
}

/// The hints on the bottom border of the ranks box.
pub open spec fn footer_view(th: Theme) -> Seq<ButtonView> {
    seq![
        (arrow_line("↑↓"@, "select"@, th), 8),
        (arrow_line("←→"@, "sort"@, th), 18),
        (button_line('r', "r:rev"@, th), 26),
        (button_line('u', "u:pause"@, th), 33),
    ]
}

/// A hint with arrows for its keys.
fn arrow_spans(key: &str, label: &str, th: &Theme) -> (r: Vec<Span>)
    ensures
        spans_view(r@) == arrow_line(key@, label@, *th),
{
    let mut l: Vec<Span> = Vec::new();
    add_span(&mut l, key, bold(th.c("hi_fg")));
    add_span(&mut l, label, ink(th.c("title")));
    assert(spans_view(l@) =~= arrow_line(key@, label@, *th));
    l
}

/// Hotkey hints on the ranks box's bottom border.
pub fn footer_buttons(th: &Theme) -> (r: Vec<(Vec<Span>, u16)>)
    ensures
        buttons_view(r@) == footer_view(*th),
{
    proof {
        reveal_strlit("r:rev");
        reveal_strlit("u:pause");
    }
    let mut out: Vec<(Vec<Span>, u16)> = Vec::new();
    add_button(&mut out, arrow_spans("↑↓", "select", th), 8);
    add_button(&mut out, arrow_spans("←→", "sort", th), 18);
    add_button(&mut out, button_spans('r', "r:rev", th), 26);
    add_button(&mut out, button_spans('u', "u:pause", th), 33);
    assert(buttons_view(out@) =~= footer_view(*th));
    out
}

/// `a` less `b`, nought at least.
pub open spec fn less(a: int, b: int) -> int {
    if a > b {
        a - b
    } else {
        0
    }
}

/// The columns between buttons, on the top and on the bottom border.
pub open spec fn gap_of(top: bool) -> int {
    if top {
        2
    } else {
        1
    }
}

/// The columns of a button with its corners, by what fits 16 bits; `text` is the width
/// of its text.
pub open spec fn button_width(text: u16) -> int {
    (text + 2) % 0x1_0000
}

/// How far the buttons from the right leave the border free; `widths` are the widths of
/// the texts.
pub open spec fn right_edge(
    items: Seq<ButtonView>,
    widths: Seq<u16>,
    box_width: int,
    top: bool,
) -> int
    decreases items.len(),
{
    if items.len() == 0 {
        less(box_width, 2)
    } else {
        let e = right_edge(items.drop_last(), widths, box_width, top);
        if items.last().1 == 0 {
            less(less(e, gap_of(top)), button_width(widths[items.len() - 1]))
        } else {
            e
        }
    }
}

/// Where the buttons stand: those at nought from the right, each left of the one before
/// it; the others at their distance, but not beyond the border.
pub open spec fn buttons_placed(
    items: Seq<ButtonView>,
    widths: Seq<u16>,
    box_width: int,
    top: bool,
) -> Seq<ButtonView>
    decreases items.len(),
{
    if items.len() == 0 {
        Seq::empty()
    } else {
        let b = items.last();
        let w = button_width(widths[items.len() - 1]);
        let last = less(less(less(box_width, gap_of(top)), w), 2);
        let off = if b.1 == 0 {
            right_edge(items, widths, box_width, top)
        } else if b.1 < last {
            b.1 as int
        } else {
            last
        };
        buttons_placed(items.drop_last(), widths, box_width, top).push((b.0, off as u16))
    }
}

/// The widths of the texts of buttons, by what fits 16 bits.
pub open spec fn button_widths(items: Seq<ButtonView>) -> Seq<u16> {
    items.map_values(|b: ButtonView| (line_width(b.0) % 0x1_0000) as u16)
}

/// Gives buttons whose texts are `widths` wide their places.
pub fn place_buttons_at(
    items: &Vec<(Vec<Span>, u16)>,
    widths: &Vec<u16>,
    box_width: u16,
    top: bool,
) -> (r: Vec<(Vec<Span>, u16)>)
    requires
        widths@.len() == items@.len(),
    ensures
        buttons_view(r@) == buttons_placed(
            buttons_view(items@),
            widths@,
            box_width as int,
            top,
        ),
        forall|i: int| 0 <= i < r@.len() ==> (#[trigger] r@[i]).1 <= box_width,
{
    let gap: u16 = if top {
        2
    } else {
        1
    };
    let ghost all = buttons_view(items@);
    let mut out: Vec<(Vec<Span>, u16)> = Vec::new();
    let mut edge: u16 = box_width.saturating_sub(2);
    let n: usize = items.len();
    let mut i: usize = 0;
    assert(all.take(0) =~= Seq::empty());
    assert(buttons_view(out@) =~= Seq::empty());
    while i < n
        invariant
            i <= n,
            n == items@.len(),
            widths@.len() == n,
            all == buttons_view(items@),
            gap == gap_of(top),
            edge <= box_width,
            edge == right_edge(all.take(i as int), widths@, box_width as int, top),
            buttons_view(out@) == buttons_placed(
                all.take(i as int),
                widths@,
                box_width as int,
                top,
            ),
            forall|j: int| 0 <= j < out@.len() ==> (#[trigger] out@[j]).1 <= box_width,
        decreases n - i,
    {
        assert(all.take(i + 1).drop_last() =~= all.take(i as int));
        assert(all.take(i + 1).last() == all[i as int]);
        let b = &items[i];
        let w: u16 = ((widths[i] as u32 + 2) % 0x1_0000) as u16;
        let off: u16 = if b.1 == 0 {
            edge = edge.saturating_sub(gap).saturating_sub(w);
            edge
        } else {
            let last: u16 = box_width.saturating_sub(gap).saturating_sub(w).saturating_sub(2);
            if b.1 < last {
                b.1
            } else {
                last
            }
        };
        add_button(&mut out, copy_spans(&b.0), off);
        i += 1;
    }
    assert(all.take(n as int) =~= all);
    out
}

/// Assigns concrete distances to buttons: those at nought are aligned to the right edge
/// (an edge that walks left as more of them stack up, so that they never overlap); the
/// rest stay put, clamped so that they never overflow.
pub fn place_buttons(items: &Vec<(Vec<Span>, u16)>, box_width: u16, top: bool) -> (r: Vec<
    (Vec<Span>, u16),
>)
    ensures
        buttons_view(r@) == buttons_placed(
            buttons_view(items@),
            button_widths(buttons_view(items@)),
            box_width as int,
            top,
        ),
        forall|i: int| 0 <= i < r@.len() ==> (#[trigger] r@[i]).1 <= box_width,
{
    let mut widths: Vec<u16> = Vec::new();
    let n: usize = items.len();
    let mut i: usize = 0;
    while i < n
        invariant
            i <= n,
            n == items@.len(),
            widths@.len() == i,
            forall|j: int|
                0 <= j < i ==> #[trigger] widths@[j] == line_width(spans_view(items@[j].0@))
                    % 0x1_0000,
        decreases n - i,
    {
        widths.push(width16_of(&items[i].0));
        i += 1;
    }
    assert(widths@ =~= button_widths(buttons_view(items@)));
    place_buttons_at(items, &widths, box_width, top)
}

// ---- liveness ----

/// For how long the values have been stale.
pub open spec fn stale_text<N: Num>(since: u64, now: u64) -> Seq<char> {
    duration_text(
        N::of_nanos_spec(
            if since <= now {
                (now - since) as u64
            } else {
                0
            },
        ),
    )
}

/// What is said of the connection, or of a metrics body that was cut; nothing while all
/// is well. Stale values come with the time since the connection slipped.
pub open spec fn notice<N: Num>(conn: Connection, truncated: bool, th: Theme, now: u64) -> Option<
    LineView,
> {
    match conn {
        Connection::Pending => Some(
            seq![sp("connecting…"@, italic(th.color("graph_text"@)))],
        ),
        Connection::Degraded { since, last_err, consecutive } => Some(
            seq![
                sp(
                    "⚠ degraded ("@ + decimal_text(consecutive as nat) + "×, "@ + stale_text::<N>(
                        since,
                        now,
                    ) + "): "@ + last_err@ + " — holding last values"@,
                    ink(th.color("hi_fg"@)),
                ),
            ],
        ),
        Connection::Lost { since, last_err } => Some(
            seq![
                sp(
                    "⚠ connection lost ("@ + stale_text::<N>(since, now) + "): "@ + last_err@
                        + " — values frozen"@,
                    bold(th.color("hi_fg"@)),
                ),
            ],
        ),
        _ => if truncated {
            Some(
                seq![
                    sp(
                        "⚠ metrics body truncated at --max-metrics-bytes — absent values may be cut, not missing"@,
                        ink(th.color("hi_fg"@)),
                    ),
                ],
            )
        } else {
            None
        },
    }
}

/// The grid with the notice on the last row.
#[verifier::opaque]
pub open spec fn notice_drawn<N: Num>(
    g: Grid,
    s: Snapshot<N>,
    th: Theme,
    area: Rect,
    now: u64,
) -> Grid {
    match notice::<N>(s.conn, s.metrics_truncated, th, now) {
        Some(line) => centered_put(g, area, less(area.height as int, 1), line),
        None => g,
    }
}

/// Liveness messaging on the last row of the screen. Values stay frozen and dimmed (the
/// panels see to that), never zero-filled.
fn draw_connection<N: Num>(snap: &Snapshot<N>, th: &Theme, area: Rect, now: u64, buf: &mut Buffer)
    requires
        fits(area, old(buf).w(), old(buf).h()),
    ensures
        final(buf).w() == old(buf).w(),
        final(buf).h() == old(buf).h(),
        shaped(old(buf)@, old(buf).w() as int, old(buf).h() as int),
        shaped(final(buf)@, old(buf).w() as int, old(buf).h() as int),
        final(buf)@ == notice_drawn(old(buf)@, *snap, *th, area, now),
{
    reveal(notice_drawn);
    let w0: u16 = buf.width();
    let mut spans: Vec<Span> = Vec::new();
    match &snap.conn {
        Connection::Pending => {
            add_span(&mut spans, "connecting…", italic(th.c("graph_text")));
        },
        Connection::Degraded { since, last_err, consecutive } => {
            let stale = human_duration(N::of_nanos(now.saturating_sub(*since)));
            let text = cat4(
                cat4(
                    "⚠ degraded (",
                    decimal(*consecutive as u64).as_str(),
                    "×, ",
                    stale.as_str(),
                ).as_str(),
                "): ",
                last_err.as_str(),
                " — holding last values",
            );
            add_span(&mut spans, text.as_str(), ink(th.c("hi_fg")));
        },
        Connection::Lost { since, last_err } => {
            let stale = human_duration(N::of_nanos(now.saturating_sub(*since)));
            let text = cat4(
                cat("⚠ connection lost (", stale.as_str()).as_str(),
                "): ",
                last_err.as_str(),
                " — values frozen",
            );
            add_span(&mut spans, text.as_str(), bold(th.c("hi_fg")));
        },
        _ => {
            if !snap.metrics_truncated {
                return;
            }
            add_span(
                &mut spans,
                "⚠ metrics body truncated at --max-metrics-bytes — absent values may be cut, not missing",
                ink(th.c("hi_fg")),
            );
        },
    }
    let line = Line { spans };
    assert(line@ =~= notice::<N>(snap.conn, snap.metrics_truncated, *th, now)->0);
    centered(buf, area, area.height.saturating_sub(1), &line);
}

// ---- a screen that is too small ----

/// A size of the screen, the least that is needed, and whether it is there.
pub open spec fn size_line(label: Seq<char>, size: int, least: int, th: Theme) -> LineView {
    let ok = size >= least;
    seq![
        sp(label, ink(th.color("title"@))),
        sp(
            decimal_text(size as nat),
            ink(
                if ok {
                    th.color("free_mid"@)
                } else {
                    Color::Red
                },
            ),
        ),
        sp(
            "  (min "@ + decimal_text(least as nat) + ") "@ + if ok {
                "✓"@
            } else {
                "✗"@
            },
            ink(th.color("graph_text"@)),
        ),
    ]
}

fn size_spans(label: &str, size: u16, least: u16, th: &Theme) -> (r: Line)
    ensures
        r@ == size_line(label@, size as int, least as int, *th),
{
    let ok = size >= least;
    let color = if ok {
        th.c("free_mid")
    } else {
        Color::Red
    };
    let mark = if ok {
        "✓"
    } else {
        "✗"
    };
    let mut l: Vec<Span> = Vec::new();
    add_span(&mut l, label, ink(th.c("title")));
    add_span(&mut l, decimal(size as u64).as_str(), ink(color));
    add_span(
        &mut l,
        cat4("  (min ", decimal(least as u64).as_str(), ") ", mark).as_str(),
        ink(th.c("graph_text")),
    );
    assert(spans_view(l@) =~= size_line(label@, size as int, least as int, *th));
    Line { spans: l }
}

/// The grid with the notice that the screen is too small.
pub open spec fn toosmall_drawn(g: Grid, area: Rect, mw: int, mh: int, th: Theme) -> Grid {
    let y = less(area.height as int, 4) / 2;
    let head = seq![sp("Terminal size too small"@, bold(th.color("hi_fg"@)))];
    let hints = seq![sp("q: quit    1-4: toggle boxes"@, ink(th.color("inactive_fg"@)))];
    let g1 = centered_put(g, area, y, head);
    let g2 = centered_put(g1, area, y + 1, size_line("Width  "@, area.width as int, mw, th));
    let g3 = centered_put(g2, area, y + 2, size_line("Height "@, area.height as int, mh, th));
    centered_put(g3, area, y + 3, hints)
}

fn draw_toosmall(buf: &mut Buffer, area: Rect, mw: u16, mh: u16, th: &Theme)
    requires
        fits(area, old(buf).w(), old(buf).h()),
    ensures
        final(buf).w() == old(buf).w(),
        final(buf).h() == old(buf).h(),
        shaped(old(buf)@, old(buf).w() as int, old(buf).h() as int),
        shaped(final(buf)@, old(buf).w() as int, old(buf).h() as int),
        final(buf)@ == toosmall_drawn(old(buf)@, area, mw as int, mh as int, *th),
{
    let y: u16 = area.height.saturating_sub(4) / 2;
    let mut l: Vec<Span> = Vec::new();
    add_span(&mut l, "Terminal size too small", bold(th.c("hi_fg")));
    let head = Line { spans: l };
    assert(head@ =~= seq![sp("Terminal size too small"@, bold(th.color("hi_fg"@)))]);
    let mut l: Vec<Span> = Vec::new();
    add_span(&mut l, "q: quit    1-4: toggle boxes", ink(th.c("inactive_fg")));
    let hints = Line { spans: l };
    assert(hints@ =~= seq![sp("q: quit    1-4: toggle boxes"@, ink(th.color("inactive_fg"@)))]);
    centered(buf, area, y, &head);
    centered(buf, area, y + 1, &size_spans("Width  ", area.width, mw, th));
    centered(buf, area, y + 2, &size_spans("Height ", area.height, mh, th));
    centered(buf, area, y + 3, &hints);
}

// ---- the screen ----

/// The grid with the frame of a box, where it is shown.
pub open spec fn box_framed(
    g: Grid,
    on: bool,
    r: Rect,
    key: Seq<char>,
    title: Seq<char>,
    tops: Seq<ButtonView>,
    bottoms: Seq<ButtonView>,
    th: Theme,
    bs: BorderSet,
    w: int,
) -> Grid {
    if on {
        pane_drawn(
            g,
            r,
            key,
            Some(title),
            buttons_placed(tops, button_widths(tops), r.width as int, true),
            buttons_placed(bottoms, button_widths(bottoms), r.width as int, false),
            th,
            bs,
            w,
        )
    } else {
        g
    }
}

/// Draws the frame of a box, where it is shown.
fn frame_box(
    buf: &mut Buffer,
    on: bool,
    r: Rect,
    key: &str,
    title: &str,
    tops: &Vec<(Vec<Span>, u16)>,
    bottoms: &Vec<(Vec<Span>, u16)>,
    th: &Theme,
    bs: &BorderSet,
)
    requires
        fits(r, old(buf).w(), old(buf).h()),
    ensures
        final(buf).w() == old(buf).w(),
        final(buf).h() == old(buf).h(),
        shaped(old(buf)@, old(buf).w() as int, old(buf).h() as int),
        shaped(final(buf)@, old(buf).w() as int, old(buf).h() as int),
        final(buf)@ == box_framed(
            old(buf)@,
            on,
            r,
            key@,
            title@,
            buttons_view(tops@),
            buttons_view(bottoms@),
            *th,
            *bs,
            old(buf).w() as int,
        ),
{
    let w: u16 = buf.width();
    if !on {
        return;
    }
    let pane = Pane {
        rect: r,
        line_color_key: key,
        title: Some(title),
        top_buttons: place_buttons(tops, r.width, true),
        bottom_buttons: place_buttons(bottoms, r.width, false),
    };
    pane.render(buf, th, bs);
}

/// The grid with the frames of the shown boxes, in the order in which later ones lie
/// over earlier ones.
pub open spec fn frames_drawn(
    g: Grid,
    b: Boxes,
    l: Layout,
    interval_ms: u64,
    clock: Seq<char>,
    th: Theme,
    bs: BorderSet,
    w: int,
) -> Grid {
    let none = Seq::<ButtonView>::empty();
    let g1 = box_framed(
        g,
        b.engine,
        l.engine,
        "cpu_box"@,
        "¹engine"@,
        header_view(interval_ms, clock, th),
        none,
        th,
        bs,
        w,
    );
    let g2 = box_framed(g1, b.kv, l.kv, "mem_box"@, "²token pool"@, none, none, th, bs, w);
    let g3 = box_framed(g2, b.traffic, l.traffic, "net_box"@, "³traffic"@, none, none, th, bs, w);
    box_framed(g3, b.ranks, l.ranks, "proc_box"@, "⁴ranks"@, none, footer_view(th), th, bs, w)
}

/// The grid with what the boxes hold.
pub open spec fn bodies_drawn<N: Num>(g: Grid, a: App, s: Snapshot<N>, l: Layout) -> Grid {
    let th = a.theme;
    let b = a.boxes;
    let g1 = if b.engine && l.engine.height > 2 {
        engine_drawn(g, s, th, a.gui, l.engine)
    } else {
        g
    };
    let g2 = if b.kv && l.kv.height > 2 {
        kv_drawn(g1, s, th, a.gui, l.kv)
    } else {
        g1
    };
    let g3 = if b.traffic && l.traffic.height > 2 {
        traffic_drawn(g2, s, th, a.gui, l.traffic)
    } else {
        g2
    };
    if b.ranks && l.ranks.height > 2 {
        if a.detail_open {
            detail_drawn(g3, s, th, l.ranks, a.rank_sel as int)
        } else {
            ranks_drawn(
                g3,
                s,
                th,
                a.gui,
                l.ranks,
                a.rank_sel as int,
                a.sort_col,
                a.sort_reverse,
            )
        }
    } else {
        g3
    }
}

/// A cell on the ground of the theme, where it has none of its own.
pub open spec fn on_ground(c: CellView, bg: Color) -> CellView {
    if c.bg == Color::Reset {
        styled(c, ground(bg))
    } else {
        c
    }
}

/// The grid with the ground of the theme under every cell that has none of its own.
pub open spec fn grounded(g: Grid, area: Rect, bg: Color) -> Grid {
    reworked(g, area, |c: CellView| on_ground(c, bg))
}

/// A screen of `w` by `h` cells without anything on it.
pub open spec fn empty_screen(w: int, h: int) -> Grid {
    Seq::new(
        h as nat,
        |y: int| Seq::new(w as nat, |x: int| crate::ui::cells::blank_cell()),
    )
}

/// Whether a screen of `w` by `h` cells is too small for the shown boxes.
pub open spec fn too_small(b: Boxes, w: int, h: int) -> bool {
    w < min_width_of(b) || h < min_height_of(b)
}

/// What the screen shows.
pub open spec fn screen<N: Num>(
    a: App,
    s: Snapshot<N>,
    clock: Seq<char>,
    now: u64,
    w: u16,
    h: u16,
) -> Grid {
    let area = Rect { x: 0, y: 0, width: w, height: h };
    let blank = empty_screen(w as int, h as int);
    if too_small(a.boxes, w as int, h as int) {
        toosmall_drawn(blank, area, min_width_of(a.boxes), min_height_of(a.boxes), a.theme)
    } else {
        let l = solved(area, a.boxes);
        let framed = frames_drawn(
            blank,
            a.boxes,
            l,
            a.control.interval_ms,
            clock,
            a.theme,
            a.bs,
            w as int,
        );
        let filled = bodies_drawn(framed, a, s, l);
        let noted = notice_drawn(filled, s, a.theme, area, now);
        let covered = match a.overlay {
            Some(which) => overlay_drawn(
                noted,
                which,
                a.config,
                s,
                Live { paused: a.control.paused, interval_ms: a.control.interval_ms },
                a.theme,
                area,
            ),
            None => noted,
        };
        grounded(covered, area, a.theme.color("main_bg"@))
    }
}

/// Draws the frames of the shown boxes.
fn draw_frames(
    buf: &mut Buffer,
    b: Boxes,
    l: Layout,
    interval_ms: u64,
    clock: &str,
    th: &Theme,
    bs: &BorderSet,
)
    requires
        fits(l.engine, old(buf).w(), old(buf).h()),
        fits(l.kv, old(buf).w(), old(buf).h()),
        fits(l.traffic, old(buf).w(), old(buf).h()),
        fits(l.ranks, old(buf).w(), old(buf).h()),
    ensures
        final(buf).w() == old(buf).w(),
        final(buf).h() == old(buf).h(),
        shaped(old(buf)@, old(buf).w() as int, old(buf).h() as int),
        shaped(final(buf)@, old(buf).w() as int, old(buf).h() as int),
        final(buf)@ == frames_drawn(
            old(buf)@,
            b,
            l,
            interval_ms,
            clock@,
            *th,
            *bs,
            old(buf).w() as int,
        ),
{
    let none: Vec<(Vec<Span>, u16)> = Vec::new();
    assert(buttons_view(none@) =~= Seq::<ButtonView>::empty());
    let header = header_buttons(interval_ms, clock, th);
    let footer = footer_buttons(th);
    frame_box(buf, b.engine, l.engine, "cpu_box", "¹engine", &header, &none, th, bs);
    frame_box(buf, b.kv, l.kv, "mem_box", "²token pool", &none, &none, th, bs);
    frame_box(buf, b.traffic, l.traffic, "net_box", "³traffic", &none, &none, th, bs);
    frame_box(buf, b.ranks, l.ranks, "proc_box", "⁴ranks", &none, &footer, th, bs);
}

/// Puts the ground of the theme under every cell that has none of its own.
fn paint_ground(buf: &mut Buffer, area: Rect, bg: Color)
    requires
        fits(area, old(buf).w(), old(buf).h()),
    ensures
        final(buf).w() == old(buf).w(),
        final(buf).h() == old(buf).h(),
        shaped(old(buf)@, old(buf).w() as int, old(buf).h() as int),
        shaped(final(buf)@, old(buf).w() as int, old(buf).h() as int),
        final(buf)@ == grounded(old(buf)@, area, bg),
{
    let ghost p = |c: CellView| on_ground(c, bg);
    let f = |c: &Cell| -> (d: Cell)
        ensures
            d@ == p(c@),
        {
            if c.bg == Color::Reset {
                restyled(c, ground(bg))
            } else {
                copy_cell(c)
            }
        };
    rework(buf, area, f, Ghost(p));
}

impl App {
    /// Draws what the boxes hold.
    fn draw_bodies<N: Num>(&self, buf: &mut Buffer, snap: &Snapshot<N>, l: Layout)
        requires
            fits(l.engine, old(buf).w(), old(buf).h()),
            fits(l.kv, old(buf).w(), old(buf).h()),
            fits(l.traffic, old(buf).w(), old(buf).h()),
            fits(l.ranks, old(buf).w(), old(buf).h()),
        ensures
            final(buf).w() == old(buf).w(),
            final(buf).h() == old(buf).h(),
            shaped(old(buf)@, old(buf).w() as int, old(buf).h() as int),
            shaped(final(buf)@, old(buf).w() as int, old(buf).h() as int),
            final(buf)@ == bodies_drawn(old(buf)@, *self, *snap, l),
    {
        let w0: u16 = buf.width();
        let th = &self.theme;
        if self.boxes.engine && l.engine.height > 2 {
            crate::ui::panels::engine(snap, th, self.gui, l.engine, buf);
        }
        if self.boxes.kv && l.kv.height > 2 {
            crate::ui::panels::kv(snap, th, self.gui, l.kv, buf);
        }
        if self.boxes.traffic && l.traffic.height > 2 {
            crate::ui::panels::traffic(snap, th, self.gui, l.traffic, buf);
        }
        if self.boxes.ranks && l.ranks.height > 2 {
            if self.detail_open {
                rank_detail(snap, th, l.ranks, buf, self.rank_sel);
            } else {
                crate::ui::panels::ranks(
                    snap,
                    th,
                    self.gui,
                    l.ranks,
                    buf,
                    self.rank_sel,
                    self.sort_col,
                    self.sort_reverse,
                );
            }
        }
    }

    /// Draws a screen of `width` by `height` cells; `clock` is the local time, `now` the
    /// moment on the monotonic clock. Where the screen is too small for the shown boxes
    /// it says so instead.
    #[verifier::rlimit(60)]
    #[verifier::spinoff_prover]
    pub fn draw<N: Num>(
        &mut self,
        snap: &Snapshot<N>,
        clock: &str,
        now: u64,
        width: u16,
        height: u16,
    ) -> (r: Buffer)
        ensures
            r.w() == width,
            r.h() == height,
            shaped(r@, width as int, height as int),
            r@ == screen(*old(self), *snap, clock@, now, width, height),
            *final(self) == (if too_small(old(self).boxes, width as int, height as int) {
                *old(self)
            } else {
                App {
                    layout: solved(
                        Rect { x: 0, y: 0, width, height },
                        old(self).boxes,
                    ),
                    ..*old(self)
                }
            }),
    {
        let area = Rect { x: 0, y: 0, width, height };
        let mut buf = Buffer::empty(width, height);
        assert(buf@ =~= empty_screen(width as int, height as int));
        let (mw, mh) = min_size(&self.boxes);
        if width < mw || height < mh {
            draw_toosmall(&mut buf, area, mw, mh, &self.theme);
            return buf;
        }
        self.reflow(area);
        let l = self.layout;
        proof {
            no_box_leaves_the_area(area, self.boxes);
        }
        let th = &self.theme;
        draw_frames(&mut buf, self.boxes, l, self.control.interval_ms, clock, th, &self.bs);
        self.draw_bodies(&mut buf, snap, l);
        draw_connection(snap, th, area, now, &mut buf);
        if let Some(which) = self.overlay {
            let live = Live {
                paused: self.control.paused,
                interval_ms: self.control.interval_ms,
            };
            render(which, &self.config, snap, live, th, area, &mut buf);
        }
        paint_ground(&mut buf, area, th.c("main_bg"));
        buf
    }
}

// ---- laws ----

/// A key quits exactly where it is control-C, or `q` with no overlay open.
pub proof fn only_two_keys_quit<N: Num>(a: App, key: KeyEvent, ranks: Seq<RankRow<N>>)
    ensures
        after_key(a, key, ranks).1 == (key.press && ((key.control && key.code == KeyCode::Char('c'))
            || (a.overlay is None && key.code == KeyCode::Char('q')))),
{
}

/// While an overlay is open any key but control-C closes it, and does nothing else.
pub proof fn open_overlays_consume_the_key<N: Num>(a: App, key: KeyEvent, ranks: Seq<RankRow<N>>)
    requires
        a.overlay is Some,
        key.press,
        !(key.control && key.code == KeyCode::Char('c')),
    ensures
        after_key(a, key, ranks) == ((App { overlay: None, ..a }), false),
{
}

/// No key changes the configuration, the theme or the look.
pub proof fn keys_leave_the_settings<N: Num>(a: App, key: KeyEvent, ranks: Seq<RankRow<N>>)
    ensures
        ({
            let b = after_key(a, key, ranks).0;
            &&& b.config == a.config
            &&& b.theme == a.theme
            &&& b.bs == a.bs
            &&& b.gui == a.gui
            &&& b.layout == a.layout
        }),
{
}

/// Whatever the keys, the interval stays within 100 ms and 10 s once it is.
pub proof fn keys_keep_the_interval_in_range<N: Num>(a: App, key: KeyEvent, ranks: Seq<RankRow<N>>)
    requires
        100 <= a.control.interval_ms <= 10_000,
    ensures
        100 <= after_key(a, key, ranks).0.control.interval_ms <= 10_000,
{
}

/// Stepping down and then up comes back to the same row, from any row but the last
/// one; and the other way round from any but the first.
pub proof fn steps_undo_each_other<N: Num>(
    ranks: Seq<RankRow<N>>,
    col: SortCol,
    reverse: bool,
    sel: int,
)
    requires
        ranks.len() <= usize::MAX,
        0 <= sel < ranks.len(),
    ensures
        ({
            let order = order_of(ranks, col, reverse);
            &&& order.last() != sel ==> stepped(order, stepped(order, sel, false), true) == sel
            &&& order[0] != sel ==> stepped(order, stepped(order, sel, true), false) == sel
        }),
{
    let order = order_of(ranks, col, reverse);
    order_shows_every_row_once(ranks, col, reverse);
    assert(order.contains(sel as usize));
    let p = choose|p: int| 0 <= p < order.len() && order[p] == sel as usize;
    position_is_unique(order, p);
    assert(position(order, sel) == p);
    if order.last() != sel {
        assert(order.contains(order[p + 1]));
        position_is_unique(order, p + 1);
    }
    if order[0] != sel {
        assert(order.contains(order[p - 1]));
        position_is_unique(order, p - 1);
    }
}

/// The selection always stays on a row that is there.
pub proof fn steps_stay_on_rows<N: Num>(
    ranks: Seq<RankRow<N>>,
    col: SortCol,
    reverse: bool,
    sel: int,
    up: bool,
)
    requires
        0 < ranks.len() <= usize::MAX,
        0 <= sel,
    ensures
        0 <= stepped(order_of(ranks, col, reverse), sel, up) < ranks.len(),
{
    let order = order_of(ranks, col, reverse);
    order_shows_every_row_once(ranks, col, reverse);
    let c = clamped_sel(sel, order.len() as int);
    position_is_found(order, c, 0);
    let at = position(order, c);
    assert(0 <= at < order.len());
    let next = if up {
        if at > 0 {
            at - 1
        } else {
            0
        }
    } else if at + 1 < order.len() {
        at + 1
    } else {
        order.len() - 1
    };
    assert(order.contains(order[next]));
}

/// One notice at a time: a warning on the connection outranks the one on a cut body.
pub proof fn connection_outranks_truncation<N: Num>(conn: Connection, th: Theme, now: u64)
    requires
        conn is Pending || conn is Degraded || conn is Lost,
    ensures
        notice::<N>(conn, true, th, now) == notice::<N>(conn, false, th, now),
{
}

/// Buttons from the right never overlap: each ends where the gap before the one placed
/// before it begins, or further left, as long as there is room for it.
pub proof fn right_buttons_chain(
    items: Seq<ButtonView>,
    widths: Seq<u16>,
    box_width: int,
    top: bool,
)
    requires
        items.len() > 0,
        widths.len() == items.len(),
        items.last().1 == 0,
        0 <= box_width <= u16::MAX,
        gap_of(top) + button_width(widths[items.len() - 1]) <= right_edge(
            items.drop_last(),
            widths,
            box_width,
            top,
        ),
    ensures
        buttons_placed(items, widths, box_width, top).last().1 + button_width(
            widths[items.len() - 1],
        ) + gap_of(top) == right_edge(items.drop_last(), widths, box_width, top),
{
    edge_is_inside(items.drop_last(), widths, box_width, top);
}

proof fn edge_is_inside(items: Seq<ButtonView>, widths: Seq<u16>, box_width: int, top: bool)
    requires
        0 <= box_width,
    ensures
        0 <= right_edge(items, widths, box_width, top) <= box_width,
    decreases items.len(),
{
    if items.len() > 0 {
        edge_is_inside(items.drop_last(), widths, box_width, top);
    }
}

}
