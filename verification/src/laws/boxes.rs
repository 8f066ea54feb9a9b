//! What the boxes read, as they stand on the screen.
use crate::laws::texts::small_counts_are_written_out;
use crate::model::hist::newest;
use crate::model::snapshot::{EnginePanel, Snapshot};
use crate::num::{peak_from, Num};
use crate::text::{blanks, decimal_text};
use crate::ui::cells::{fits, glyphs, shaped, Grid, LineView, Rect};
use crate::ui::frame::{lines_written, rest_of};
use crate::ui::panels::engine::{busy_line, busy_readout, context_spans, cores_spans, engine_drawn, engine_lines,
    four_pct, internals_line, pair_text, peak_text, rates_line, requests_line, window_of};
use crate::ui::panels::human::{count_text, fill_of, hundredths_text, pct_text, rate_text,
    shown_text, value_span};
use crate::ui::panels::rows::fixed_known;
use crate::ui::theme::Theme;
use crate::ui::widgets::{area_drawn, Gui};
use crate::ui::width::display_width;
use vstd::prelude::*;

verus! {

// ---- texts ----

/// The text of a line, without its styles.
pub open spec fn plain_text(line: LineView) -> Seq<char>
    decreases line.len(),
{
    if line.len() == 0 {
        Seq::empty()
    } else {
        plain_text(line.drop_last()) + line.last().text
    }
}

/// Whether `t` has, from `i` on, the label, then `n` blanks, then the value.
pub open spec fn says_at(t: Seq<char>, label: Seq<char>, value: Seq<char>, i: int, n: int) -> bool {
    let (a, b) = (i + label.len(), i + label.len() + n);
    &&& 0 <= i
    &&& 0 <= n
    &&& b + value.len() <= t.len()
    &&& t.subrange(i, a) == label
    &&& forall|k: int| a <= k < b ==> #[trigger] t[k] == ' '
    &&& t.subrange(b, b + value.len()) == value
}

/// Whether the label stands in `t`, and behind it the value, with nothing but blanks between
/// the two.
#[verifier::opaque]
pub open spec fn says(t: Seq<char>, label: Seq<char>, value: Seq<char>) -> bool {
    exists|i: int, n: int| #[trigger] says_at(t, label, value, i, n)
}

/// A text where there is one, else `N/A`.
pub open spec fn or_na(v: Option<Seq<char>>) -> Seq<char> {
    match v {
        Some(t) => t,
        None => "N/A"@,
    }
}

/// A rate with the slash that its peak stands behind, or `N/A`.
pub open spec fn rate_or_na<N: Num>(v: Option<N>) -> Seq<char> {
    match v {
        Some(x) => rate_text(x) + "/"@,
        None => "N/A"@,
    }
}

/// A share in percent, or `N/A`.
pub open spec fn share_or_na<N: Num>(v: Option<N>) -> Seq<char> {
    match v {
        Some(x) => pct_text(x),
        None => "N/A"@,
    }
}

/// A value with `places` decimals and its unit, or `N/A`.
pub open spec fn fixed_or_na<N: Num>(v: Option<N>, places: u8, unit: Seq<char>) -> Seq<char> {
    match v {
        Some(x) => x.fixed_spec(places) + unit,
        None => "N/A"@,
    }
}

proof fn text_splits(line: LineView, i: int)
    requires
        0 <= i <= line.len(),
    ensures
        plain_text(line) == plain_text(line.take(i)) + plain_text(line.skip(i)),
    decreases line.len() - i,
{
    if i == line.len() {
        assert(line.take(i) =~= line);
        assert(line.skip(i) =~= Seq::empty());
        assert(plain_text(line) =~= plain_text(line.take(i)) + plain_text(line.skip(i)));
    } else {
        text_splits(line, i + 1);
        text_starts(line.skip(i));
        assert(line.skip(i).drop_first() =~= line.skip(i + 1));
        assert(line.take(i + 1).drop_last() =~= line.take(i));
        assert(plain_text(line) =~= plain_text(line.take(i)) + plain_text(line.skip(i)));
    }
}

proof fn text_starts(line: LineView)
    requires
        line.len() > 0,
    ensures
        plain_text(line) == line[0].text + plain_text(line.drop_first()),
    decreases line.len(),
{
    let (d, f) = (line.drop_last(), line.drop_first());
    if line.len() == 1 {
        assert(d =~= Seq::empty());
        assert(f =~= Seq::empty());
        assert(plain_text(line) =~= line[0].text + plain_text(f));
    } else {
        text_starts(d);
        assert(d.drop_first() =~= f.drop_last());
        assert(f.last() == line.last());
        assert(plain_text(line) =~= line[0].text + plain_text(f));
    }
}

/// A label and its value in the next part of the line.
pub(crate) proof fn says_behind(line: LineView, i: int, n: nat, value: Seq<char>, rest: Seq<char>)
    requires
        0 <= i < line.len() - 1,
        line[i + 1].text == blanks(n) + value + rest,
    ensures
        says(plain_text(line), line[i].text, value),
{
    reveal(says);
    text_splits(line, i);
    let tail = line.skip(i);
    text_starts(tail);
    let next = tail.drop_first();
    assert(next[0] == line[i + 1]);
    text_starts(next);
    let (t, head, label) = (plain_text(line), plain_text(line.take(i)), line[i].text);
    let after = rest + plain_text(next.drop_first());
    assert(t =~= head + (label + (blanks(n) + value + after)));
    assert(t.subrange(head.len() as int, (head.len() + label.len()) as int) =~= label);
    let b = head.len() + label.len() + n;
    assert(t.subrange(b as int, (b + value.len()) as int) =~= value);
    assert(says_at(t, label, value, head.len() as int, n as int));
}

/// A label and its value in one part of the line.
pub(crate) proof fn says_within(
    line: LineView,
    i: int,
    before: Seq<char>,
    label: Seq<char>,
    n: nat,
    value: Seq<char>,
    rest: Seq<char>,
)
    requires
        0 <= i < line.len(),
        line[i].text == before + label + blanks(n) + value + rest,
    ensures
        says(plain_text(line), label, value),
{
    reveal(says);
    text_splits(line, i);
    text_starts(line.skip(i));
    let t = plain_text(line);
    let head = plain_text(line.take(i)) + before;
    let after = rest + plain_text(line.skip(i).drop_first());
    assert(t =~= head + (label + (blanks(n) + value + after)));
    assert(t.subrange(head.len() as int, (head.len() + label.len()) as int) =~= label);
    let b = head.len() + label.len() + n;
    assert(t.subrange(b as int, (b + value.len()) as int) =~= value);
    assert(says_at(t, label, value, head.len() as int, n as int));
}

/// A label that is filled up with blanks, and its value in the next part of the line.
pub(crate) proof fn padded_says(
    line: LineView,
    i: int,
    label: Seq<char>,
    n: nat,
    value: Seq<char>,
    rest: Seq<char>,
)
    requires
        0 <= i < line.len() - 1,
        line[i].text == label + blanks(n),
        line[i + 1].text == value + rest,
    ensures
        says(plain_text(line), label, value),
{
    reveal(says);
    text_splits(line, i);
    let tail = line.skip(i);
    text_starts(tail);
    let next = tail.drop_first();
    assert(next[0] == line[i + 1]);
    text_starts(next);
    let t = plain_text(line);
    let head = plain_text(line.take(i));
    let after = rest + plain_text(next.drop_first());
    assert(t =~= head + (label + (blanks(n) + value + after)));
    assert(t.subrange(head.len() as int, (head.len() + label.len()) as int) =~= label);
    let b = head.len() + label.len() + n;
    assert(t.subrange(b as int, (b + value.len()) as int) =~= value);
    assert(says_at(t, label, value, head.len() as int, n as int));
}

/// A part of a line that is cut in two reads the same.
pub(crate) proof fn same_text(a: LineView, b: LineView, i: int)
    requires
        0 <= i < a.len(),
        b.len() == a.len() + 1,
        b.take(i) == a.take(i),
        b.skip(i + 2) == a.skip(i + 1),
        a[i].text == b[i].text + b[i + 1].text,
    ensures
        plain_text(a) == plain_text(b),
{
    text_splits(a, i);
    text_splits(b, i);
    text_starts(a.skip(i));
    text_starts(b.skip(i));
    let f = b.skip(i).drop_first();
    text_starts(f);
    assert(f.drop_first() =~= b.skip(i + 2));
    assert(a.skip(i).drop_first() =~= a.skip(i + 1));
    assert(plain_text(a) =~= plain_text(b));
}

/// What a part of the line ends with stands right before the next part.
pub(crate) proof fn ends_before(line: LineView, i: int, end: Seq<char>)
    requires
        0 <= i < line.len() - 1,
        exists|n: nat| line[i].text == #[trigger] blanks(n) + end,
    ensures
        says(plain_text(line), end, line[i + 1].text),
{
    reveal(says);
    let n = choose|n: nat| line[i].text == #[trigger] blanks(n) + end;
    text_splits(line, i);
    let tail = line.skip(i);
    text_starts(tail);
    let next = tail.drop_first();
    assert(next[0] == line[i + 1]);
    text_starts(next);
    let t = plain_text(line);
    let head = plain_text(line.take(i)) + blanks(n);
    let value = line[i + 1].text;
    assert(t =~= head + (end + (value + plain_text(next.drop_first()))));
    let b = (head.len() + end.len()) as int;
    assert(t.subrange(head.len() as int, b) =~= end);
    assert(t.subrange(b, b + value.len()) =~= value);
    assert(says_at(t, end, value, head.len() as int, 0));
}

/// A label and a value that is right-aligned in the next part of the line.
pub(crate) proof fn value_says(
    line: LineView,
    i: int,
    v: Option<Seq<char>>,
    width: int,
    th: Theme,
    dim: bool,
    value: Seq<char>,
    rest: Seq<char>,
)
    requires
        0 <= i < line.len() - 1,
        line[i + 1] == value_span(v, width, th, dim),
        or_na(v) == value + rest,
    ensures
        says(plain_text(line), line[i].text, value),
{
    let n = fill_of(display_width(shown_text(v)) as int, width);
    assert(line[i + 1].text =~= blanks(n) + value + rest);
    says_behind(line, i, n, value, rest);
}

/// A label and a known value that is right-aligned in the next part of the line.
pub(crate) proof fn known_says(line: LineView, i: int, t: Seq<char>, width: int, th: Theme, dim: bool)
    requires
        0 <= i < line.len() - 1,
        line[i + 1] == value_span(Some(t), width, th, dim),
    ensures
        says(plain_text(line), line[i].text, t),
{
    assert(t =~= t + Seq::empty());
    value_says(line, i, Some(t), width, th, dim, t, Seq::empty());
}

/// A label and a value that may be missing, right-aligned in the next part of the line.
pub(crate) proof fn maybe_says(
    line: LineView,
    i: int,
    v: Option<Seq<char>>,
    width: int,
    th: Theme,
    dim: bool,
)
    requires
        0 <= i < line.len() - 1,
        line[i + 1] == value_span(v, width, th, dim),
    ensures
        says(plain_text(line), line[i].text, or_na(v)),
{
    assert(or_na(v) =~= or_na(v) + Seq::empty());
    value_says(line, i, v, width, th, dim, or_na(v), Seq::empty());
}

// ---- rows of a box ----

/// Whether the inside of `r` reads `t` on its row `k`, cut at the frame and blank behind its
/// end.
#[verifier::opaque]
pub open spec fn row_reads(g: Grid, r: Rect, k: int, t: Seq<char>) -> bool {
    forall|x: int|
        0 <= x < r.width - 2 ==> (#[trigger] g[r.y + 1 + k][r.x + 1 + x]).symbol == if x < t.len() {
            seq![t[x]]
        } else {
            seq![' ']
        }
}

/// Whether the row `k` of the inside of `r` reads a text with the label and behind it the
/// value.
pub open spec fn box_says(g: Grid, r: Rect, k: int, label: Seq<char>, value: Seq<char>) -> bool {
    exists|t: Seq<char>| #[trigger] row_reads(g, r, k, t) && says(t, label, value)
}

pub(crate) proof fn glyphs_are_the_text(line: LineView)
    ensures
        glyphs(line).len() == plain_text(line).len(),
        forall|i: int| 0 <= i < glyphs(line).len() ==> (#[trigger] glyphs(line)[i]).0 == plain_text(
            line,
        )[i],
    decreases line.len(),
{
    if line.len() > 0 {
        glyphs_are_the_text(line.drop_last());
    }
}

/// Lines on the inside of a box read as they are.
pub(crate) proof fn lines_read(g: Grid, r: Rect, lines: Seq<LineView>, w: u16, h: u16, k: int)
    requires
        shaped(g, w as int, h as int),
        fits(r, w, h),
        0 <= k < lines.len(),
        k < r.height - 2,
    ensures
        row_reads(lines_written(g, r, lines), r, k, plain_text(lines[k])),
        shaped(lines_written(g, r, lines), w as int, h as int),
{
    reveal(row_reads);
    glyphs_are_the_text(lines[k]);
    let out = lines_written(g, r, lines);
    assert forall|x: int| 0 <= x < r.width - 2 implies (
    #[trigger] out[r.y + 1 + k][r.x + 1 + x]).symbol == if x < plain_text(lines[k]).len() {
        seq![plain_text(lines[k])[x]]
    } else {
        seq![' ']
    } by {
        assert(g[r.y + 1 + k].len() == w);
    }
}

/// A graph leaves what lies above its part alone.
pub(crate) proof fn graph_stays_below<N: Num>(
    g: Grid,
    area: Rect,
    series: Seq<N>,
    th: Theme,
    family: Seq<char>,
    dotted: bool,
    peak: Option<Seq<char>>,
    w: u16,
    h: u16,
    y: int,
)
    requires
        shaped(g, w as int, h as int),
        0 <= y < h,
        y < area.y || area.height == 0,
    ensures
        area_drawn(g, area, series, th, family, dotted, peak)[y] == g[y],
        shaped(area_drawn(g, area, series, th, family, dotted, peak), w as int, h as int),
{
    let out = area_drawn(g, area, series, th, family, dotted, peak);
    assert(g[y].len() == w);
    assert(out[y] =~= g[y]);
}

/// The rows of a box with a graph below its lines.
pub(crate) proof fn box_reads<N: Num>(
    g: Grid,
    r: Rect,
    lines: Seq<LineView>,
    series: Seq<N>,
    th: Theme,
    family: Seq<char>,
    dotted: bool,
    peak: Option<Seq<char>>,
    w: u16,
    h: u16,
)
    requires
        shaped(g, w as int, h as int),
        fits(r, w, h),
    ensures
        ({
            let out = area_drawn(
                lines_written(g, r, lines),
                rest_of(r, lines.len() as int),
                series,
                th,
                family,
                dotted,
                peak,
            );
            forall|k: int| #![trigger lines[k]]
                0 <= k < lines.len() && k < r.height - 2 ==> row_reads(out, r, k, plain_text(lines[k]))
        }),
{
    let lined = lines_written(g, r, lines);
    let rest = rest_of(r, lines.len() as int);
    let out = area_drawn(lined, rest, series, th, family, dotted, peak);
    assert forall|k: int| #![trigger lines[k]] 0 <= k < lines.len() && k < r.height - 2 implies row_reads(
        out,
        r,
        k,
        plain_text(lines[k]),
    ) by {
        reveal(row_reads);
        lines_read(g, r, lines, w, h, k);
        graph_stays_below(lined, rest, series, th, family, dotted, peak, w, h, r.y + 1 + k);
        assert(out[r.y + 1 + k] == lined[r.y + 1 + k]);
    }
}

/// Whether one of the lines starts with `head` and has the label and behind it the value.
#[verifier::opaque]
pub open spec fn lines_say(
    lines: Seq<LineView>,
    head: Seq<char>,
    label: Seq<char>,
    value: Seq<char>,
) -> bool {
    exists|k: int|
        0 <= k < lines.len() && head.is_prefix_of(#[trigger] plain_text(lines[k])) && says(
            plain_text(lines[k]),
            label,
            value,
        )
}

pub(crate) proof fn line_is_among(
    lines: Seq<LineView>,
    k: int,
    head: Seq<char>,
    label: Seq<char>,
    value: Seq<char>,
)
    requires
        0 <= k < lines.len(),
        lines[k].len() > 0,
        head.is_prefix_of(lines[k][0].text),
        says(plain_text(lines[k]), label, value),
    ensures
        lines_say(lines, head, label, value),
{
    reveal(lines_say);
    text_starts(lines[k]);
    let t = plain_text(lines[k]);
    assert(head =~= t.subrange(0, head.len() as int)) by {
        assert forall|i: int| 0 <= i < head.len() implies head[i] == t[i] by {
            assert(lines[k][0].text.subrange(0, head.len() as int)[i] == head[i]);
        }
    }
    assert(head.is_prefix_of(t));
}

// ---- the engine box ----

/// What stands behind each label of the engine box.
pub proof fn engine_box_says<N: Num>(
    g: Grid,
    s: Snapshot<N>,
    th: Theme,
    gui: Gui,
    rect: Rect,
    w: u16,
    h: u16,
)
    requires
        shaped(g, w as int, h as int),
        fits(rect, w, h),
        rect.height >= 7,
    ensures
        ({
            let out = engine_drawn(g, s, th, gui, rect);
            let e = s.engine;
            &&& box_says(out, rect, 0, "gen "@, rate_text(e.gen_throughput) + "/"@)
            &&& box_says(
                out,
                rect,
                0,
                "  prefill "@,
                rate_or_na(e.prefill_tps),
            )
            &&& box_says(
                out,
                rect,
                0,
                "  decode "@,
                rate_or_na(e.decode_tps),
            )
            &&& box_says(out, rect, 1, share_or_na(e.utilization), "  fwd "@)
            &&& box_says(
                out,
                rect,
                1,
                "  fwd "@,
                fixed_or_na(e.fwd_occupancy, 1, "%"@),
            )
            &&& box_says(out, rect, 2, "running "@, count_text(e.running_reqs))
            &&& box_says(out, rect, 2, "  waiting "@, count_text(e.waiting_reqs))
            &&& e.tokenizer_cores is Some || e.detokenizer_cores is Some ==> {
                &&& box_says(
                    out,
                    rect,
                    2,
                    "  tok "@,
                    fixed_or_na(e.tokenizer_cores, 1, "c"@),
                )
                &&& box_says(
                    out,
                    rect,
                    2,
                    "  detok "@,
                    fixed_or_na(e.detokenizer_cores, 1, "c"@),
                )
            }
            &&& e.decode_ctx_sum is Some && e.running_reqs > 0 ==> box_says(
                out,
                rect,
                2,
                "  ctx "@,
                count_text(
                    e.decode_ctx_sum->0.over_spec(
                        N::of_count_spec(e.running_reqs),
                    ).to_count_spec(),
                ),
            )
            &&& e.cg_decode_share matches Some(v) ==> box_says(out, rect, 3, "cg "@, pct_text(v))
            &&& e.new_token_ratio matches Some(v) ==> box_says(out, rect, 3, "admit "@, pct_text(v))
        }),
{
    let e = s.engine;
    let dim = s.conn.dimmed_spec();
    let window = window_of(rect.width, gui);
    let lines = engine_lines(s, th, window);
    let out = engine_drawn(g, s, th, gui, rect);
    box_reads(
        g,
        rect,
        lines,
        e.gen_series@,
        th,
        "cpu"@,
        gui.braille_graphs,
        peak_text(e.gen_series@, gui, " tok/s"@),
        w,
        h,
    );
    assert(lines[0] == rates_line(e, window, th, dim));
    assert(lines[1] == busy_line(e, th, dim));
    assert(lines[2] == requests_line(e, th, dim));
    assert(row_reads(out, rect, 0, plain_text(lines[0])));
    assert(row_reads(out, rect, 1, plain_text(lines[1])));
    assert(row_reads(out, rect, 2, plain_text(lines[2])));
    rates_line_says(e, window, th, dim);
    busy_line_says(e, th, dim);
    requests_line_says(e, th, dim);
    if e.cg_decode_share is Some || e.new_token_ratio is Some {
        assert(lines[3] == internals_line(e, th, dim));
        assert(row_reads(out, rect, 3, plain_text(lines[3])));
        internals_line_says(e, th, dim);
    }
}

proof fn rates_line_says<N: Num>(e: EnginePanel<N>, window: nat, th: Theme, dim: bool)
    ensures
        ({
            let t = plain_text(rates_line(e, window, th, dim));
            &&& says(t, "gen "@, rate_text(e.gen_throughput) + "/"@)
            &&& says(t, "  prefill "@, rate_or_na(e.prefill_tps))
            &&& says(t, "  decode "@, rate_or_na(e.decode_tps))
        }),
{
    let l = rates_line(e, window, th, dim);
    rate_pair_says(l, 0, Some(e.gen_throughput), e.gen_series@, window, th, dim);
    rate_pair_says(l, 2, e.prefill_tps, e.prefill_series@, window, th, dim);
    rate_pair_says(l, 4, e.decode_tps, e.token_rate_series@, window, th, dim);
}

proof fn busy_line_says<N: Num>(e: EnginePanel<N>, th: Theme, dim: bool)
    ensures
        says(plain_text(busy_line(e, th, dim)), "  fwd "@, fixed_or_na(e.fwd_occupancy, 1, "%"@)),
        says(plain_text(busy_line(e, th, dim)), share_or_na(e.utilization), "  fwd "@),
{
    let l = busy_line(e, th, dim);
    let k = l.len() - 3;
    assert(l[k] == busy_readout(e.utilization, th, dim));
    match e.utilization {
        Some(v) => {
            let t = hundredths_text(v);
            let n = if t.len() >= 4 {
                1
            } else {
                (5 - t.len()) as nat
            };
            reveal_strlit(" ");
            assert(l[k].text =~= blanks(n) + pct_text(v));
        },
        None => {
            let n = fill_of(display_width("N/A"@) as int, 6);
            assert(l[k].text == blanks(n) + "N/A"@);
        },
    }
    ends_before(l, k, share_or_na(e.utilization));
    maybe_says(l, l.len() - 2, fixed_known(e.fwd_occupancy, 1, "%"@), 8, th, dim);
}

proof fn requests_line_says<N: Num>(e: EnginePanel<N>, th: Theme, dim: bool)
    ensures
        ({
            let t = plain_text(requests_line(e, th, dim));
            &&& says(t, "running "@, count_text(e.running_reqs))
            &&& says(t, "  waiting "@, count_text(e.waiting_reqs))
            &&& e.tokenizer_cores is Some || e.detokenizer_cores is Some ==> says(
                t,
                "  tok "@,
                fixed_or_na(e.tokenizer_cores, 1, "c"@),
            ) && says(t, "  detok "@, fixed_or_na(e.detokenizer_cores, 1, "c"@))
            &&& e.decode_ctx_sum is Some && e.running_reqs > 0 ==> says(
                t,
                "  ctx "@,
                count_text(
                    e.decode_ctx_sum->0.over_spec(
                        N::of_count_spec(e.running_reqs),
                    ).to_count_spec(),
                ),
            )
        }),
{
    let l2 = requests_line(e, th, dim);
    known_says(l2, 0, count_text(e.running_reqs), 8, th, dim);
    known_says(l2, 2, count_text(e.waiting_reqs), 8, th, dim);
    let c = 4 + context_spans(e, th, dim).len() as int;
    if e.tokenizer_cores is Some || e.detokenizer_cores is Some {
        assert(l2[c] == cores_spans(e, th, dim)[0]);
        assert(l2[c + 1] == cores_spans(e, th, dim)[1]);
        assert(l2[c + 2] == cores_spans(e, th, dim)[2]);
        assert(l2[c + 3] == cores_spans(e, th, dim)[3]);
        maybe_says(l2, c, fixed_known(e.tokenizer_cores, 1, "c"@), 7, th, dim);
        maybe_says(l2, c + 2, fixed_known(e.detokenizer_cores, 1, "c"@), 7, th, dim);
    }
    if e.decode_ctx_sum is Some && e.running_reqs > 0 {
        let mean = e.decode_ctx_sum->0.over_spec(N::of_count_spec(e.running_reqs));
        assert(l2[4] == context_spans(e, th, dim)[0]);
        assert(l2[5] == context_spans(e, th, dim)[1]);
        known_says(l2, 4, count_text(mean.to_count_spec()), 8, th, dim);
    }
}

proof fn internals_line_says<N: Num>(e: EnginePanel<N>, th: Theme, dim: bool)
    ensures
        ({
            let t = plain_text(internals_line(e, th, dim));
            &&& e.cg_decode_share matches Some(v) ==> says(t, "cg "@, pct_text(v))
            &&& e.new_token_ratio matches Some(v) ==> says(t, "admit "@, pct_text(v))
        }),
{
    let l = internals_line(e, th, dim);
    if let Some(v) = e.cg_decode_share {
        four_pct_says(l, 0, v);
    }
    if let Some(v) = e.new_token_ratio {
        four_pct_says(l, l.len() - 2, v);
    }
}

proof fn rate_pair_says<N: Num>(
    line: LineView,
    i: int,
    cur: Option<N>,
    series: Seq<N>,
    window: nat,
    th: Theme,
    dim: bool,
)
    requires
        0 <= i < line.len() - 1,
        line[i + 1] == value_span(pair_text(cur, series, window), 18, th, dim),
    ensures
        says(
            plain_text(line),
            line[i].text,
            rate_or_na(cur),
        ),
{
    match cur {
        Some(v) => {
            let rest = rate_text(peak_from(newest(series, window), N::zero_spec())) + " tok/s"@;
            assert(pair_text(cur, series, window)->0 =~= rate_text(v) + "/"@ + rest);
            value_says(
                line,
                i,
                pair_text(cur, series, window),
                18,
                th,
                dim,
                rate_text(v) + "/"@,
                rest,
            );
        },
        None => {
            maybe_says(line, i, None, 18, th, dim);
        },
    }
}

pub(crate) proof fn four_pct_says<N: Num>(line: LineView, i: int, v: N)
    requires
        0 <= i < line.len() - 1,
        line[i + 1].text == four_pct(v),
    ensures
        says(plain_text(line), line[i].text, pct_text(v)),
{
    let t = hundredths_text(v);
    let n = if t.len() >= 4 {
        0
    } else {
        (4 - t.len()) as nat
    };
    assert(four_pct(v) =~= blanks(n) + pct_text(v) + Seq::empty());
    says_behind(line, i, n, pct_text(v), Seq::empty());
}

/// The readouts of the engine box do not depend on each other: whatever runs, the readout of
/// what waits is the same, and the other way round.
pub proof fn engine_readouts_stand_alone<N: Num>(
    a: EnginePanel<N>,
    b: EnginePanel<N>,
    th: Theme,
    dim: bool,
)
    ensures
        a.waiting_reqs == b.waiting_reqs ==> requests_line(a, th, dim)[3] == requests_line(
            b,
            th,
            dim,
        )[3],
        a.running_reqs == b.running_reqs ==> requests_line(a, th, dim)[1] == requests_line(
            b,
            th,
            dim,
        )[1],
        requests_line(a, th, dim)[0].text == "running "@,
        requests_line(a, th, dim)[2].text == "  waiting "@,
        a.running_reqs < 1000 ==> ends_with_count(requests_line(a, th, dim)[1].text, a.running_reqs),
        a.waiting_reqs < 1000 ==> ends_with_count(requests_line(a, th, dim)[3].text, a.waiting_reqs),
{
    if a.running_reqs < 1000 {
        small_counts_are_written_out(a.running_reqs);
        let n = fill_of(display_width(count_text(a.running_reqs)) as int, 8);
        assert(requests_line(a, th, dim)[1].text == blanks(n) + decimal_text(a.running_reqs as nat));
    }
    if a.waiting_reqs < 1000 {
        small_counts_are_written_out(a.waiting_reqs);
        let n = fill_of(display_width(count_text(a.waiting_reqs)) as int, 8);
        assert(requests_line(a, th, dim)[3].text == blanks(n) + decimal_text(a.waiting_reqs as nat));
    }
}

/// Whether a text is the decimal digits of a count behind blanks.
pub open spec fn ends_with_count(t: Seq<char>, v: u64) -> bool {
    exists|n: nat| t == #[trigger] blanks(n) + decimal_text(v as nat)
}

}
