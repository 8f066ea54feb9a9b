//! Humanizing of rates and counts, plus the `N/A` discipline: an unknown is
//! rendered dimmed `N/A` (a claim about our knowledge), never `0` (which would be
//! a false claim about the server).
use crate::binary::{in_units, narrow, narrowed, nearest};
use crate::num::Num;
use crate::text::{blank_run, blanks, cat, cat4, decimal, decimal_text, decimal_wide, digit,
    digit_char, has_suffix, opt_view};
use crate::ui::cells::{add_span, bold, ink, italic, push_span, sp, span, spans_view, Line, LineView,
    Span, SpanView, Style};
use crate::ui::theme::Theme;
use crate::ui::width::{display_width, text_width};
use vstd::prelude::*;
use vstd::string::*;

verus! {

// ---- counts ----

/// `m / p` divided by a thousand as often as it reaches one, at most three times;
/// every quotient holds 53 binary digits. With the number of divisions.
pub open spec fn thousands(m: nat, p: nat, u: nat) -> (nat, nat, nat)
    decreases 3 - u,
{
    if u < 3 && m >= 1000 * p {
        let q = narrowed(m, 1000, p, 0x10_0000_0000_0000);
        thousands(q.0, q.1, u + 1)
    } else {
        (m, p, u)
    }
}

/// `n` units of which `10^places` make one, in decimal; two places at most.
pub open spec fn places_text(n: nat, places: nat) -> Seq<char> {
    if places == 0 {
        decimal_text(n)
    } else if places == 1 {
        decimal_text(n / 10) + "."@ + seq![digit_char((n % 10) as int)]
    } else {
        decimal_text(n / 100) + "."@ + seq![
            digit_char((n / 10 % 10) as int),
            digit_char((n % 10) as int),
        ]
    }
}

/// The unit after so many divisions by a thousand.
pub open spec fn unit_text(u: nat) -> Seq<char> {
    if u == 1 {
        "k"@
    } else if u == 2 {
        "M"@
    } else {
        "G"@
    }
}

/// A count, or three significant digits of it with its unit.
pub open spec fn count_text(v: u64) -> Seq<char> {
    let start = narrowed(v as nat, 1, 1, 0x10_0000_0000_0000);
    let (m, p, u) = thousands(start.0, start.1, 0);
    if u == 0 {
        decimal_text(v as nat)
    } else if m < 10 * p {
        places_text(nearest(m * 100, p), 2) + unit_text(u)
    } else if m < 100 * p {
        places_text(nearest(m * 10, p), 1) + unit_text(u)
    } else {
        places_text(nearest(m, p), 0) + unit_text(u)
    }
}

/// `n` units of which `10^places` make one, in decimal.
fn with_places(n: u128, places: u64) -> (r: String)
    requires
        places <= 2,
    ensures
        r@ == places_text(n as nat, places as nat),
{
    if places == 0 {
        decimal_wide(n)
    } else if places == 1 {
        let mut s = cat(decimal_wide(n / 10).as_str(), ".");
        let ghost head = s@;
        s.push(digit((n % 10) as u64));
        assert(s@ =~= head + seq![digit_char((n % 10) as int)]);
        s
    } else {
        let mut s = cat(decimal_wide(n / 100).as_str(), ".");
        let ghost head = s@;
        s.push(digit((n / 10 % 10) as u64));
        s.push(digit((n % 10) as u64));
        assert(s@ =~= head + seq![digit_char((n / 10 % 10) as int), digit_char((n % 10) as int)]);
        s
    }
}

/// Counts to thousands, millions and billions: three significant digits from a
/// thousand on.
pub fn human_count(v: u64) -> (r: String)
    ensures
        r@ == count_text(v),
{
    let top: u128 = 0x10_0000_0000_0000;
    let mut f = narrow(v as u128, 1, 1, top);
    let mut u: usize = 0;
    let ghost start = f;
    while u < 3 && f.m >= 1000 * f.p
        invariant
            u <= 3,
            top == 0x10_0000_0000_0000,
            0 < f.p <= 0x1_0000_0000_0000_0000,
            u == 0 ==> f.m <= 0x2_0000_0000_0000_0000,
            u == 1 ==> f.m <= 0x4_0000_0000_0000_0000,
            u == 2 ==> f.m <= 0x8_0000_0000_0000_0000,
            u == 3 ==> f.m <= 0x10_0000_0000_0000_0000,
            thousands(start.m as nat, start.p as nat, 0) == thousands(
                f.m as nat,
                f.p as nat,
                u as nat,
            ),
        decreases 3 - u,
    {
        f = narrow(f.m, 1000, f.p, top);
        u += 1;
    }
    if u == 0 {
        return decimal(v);
    }
    let unit = if u == 1 {
        "k"
    } else if u == 2 {
        "M"
    } else {
        "G"
    };
    assert(thousands(start.m as nat, start.p as nat, 0) == (f.m as nat, f.p as nat, u as nat));
    let number = if f.m < 10 * f.p {
        with_places(in_units(f, 100), 2)
    } else if f.m < 100 * f.p {
        with_places(in_units(f, 10), 1)
    } else {
        with_places(in_units(f, 1), 0)
    };
    cat(number.as_str(), unit)
}

// ---- rates, spans of time, shares ----

/// A rate: its whole part as a count.
pub open spec fn rate_text<N: Num>(v: N) -> Seq<char> {
    count_text(v.to_count_spec())
}

/// A rate of tokens or requests, with three significant digits.
pub fn human_rate<N: Num>(v: N) -> (r: String)
    ensures
        r@ == rate_text(v),
{
    human_count(v.to_count())
}

/// A rate with one decimal below a hundred.
pub open spec fn rate_frac_text<N: Num>(v: N) -> Seq<char> {
    if v.less_spec(N::of_count_spec(100)) {
        v.fixed_spec(1)
    } else {
        rate_text(v)
    }
}

/// Requests per second where the fraction is the point: a health-check loop is
/// 0.2/s, which a whole number would render as a misleading `0`. One decimal below
/// 100, normal humanising above.
pub fn human_rate_frac<N: Num>(v: N) -> (r: String)
    ensures
        r@ == rate_frac_text(v),
{
    if v.less(N::of_count(100)) {
        v.fixed(1)
    } else {
        human_count(v.to_count())
    }
}

/// A number below a hundred with two digits.
pub open spec fn two_digits(n: int) -> Seq<char> {
    seq![digit_char(n / 10), digit_char(n % 10)]
}

/// A number below a hundred with two digits.
fn in_two_digits(n: u64) -> (r: String)
    requires
        n < 100,
    ensures
        r@ == two_digits(n as int),
{
    let mut s = String::new();
    s.push(digit(n / 10));
    s.push(digit(n % 10));
    assert(s@ =~= two_digits(n as int));
    s
}

/// A span of time in milliseconds below a second, else in seconds, minutes and
/// seconds, or hours and minutes.
pub open spec fn duration_text<N: Num>(secs: N) -> Seq<char> {
    if secs.less_spec(N::of_count_spec(1)) {
        secs.times_spec(N::of_count_spec(1000)).round_spec().shown_spec() + "ms"@
    } else {
        let s = secs.round_spec().to_count_spec() as int;
        if s < 60 {
            decimal_text(s as nat) + "s"@
        } else if s < 3600 {
            decimal_text((s / 60) as nat) + "m"@ + two_digits(s % 60) + "s"@
        } else {
            decimal_text((s / 3600) as nat) + "h"@ + two_digits(s % 3600 / 60) + "m"@
        }
    }
}

/// Seconds as "230ms", "9s", "1m15s" or "1h02m".
pub fn human_duration<N: Num>(secs: N) -> (r: String)
    ensures
        r@ == duration_text(secs),
{
    if secs.less(N::of_count(1)) {
        return cat(secs.times(N::of_count(1000)).round().shown().as_str(), "ms");
    }
    let s: u64 = secs.round().to_count();
    if s < 60 {
        cat(decimal(s).as_str(), "s")
    } else if s < 3600 {
        cat4(decimal(s / 60).as_str(), "m", in_two_digits(s % 60).as_str(), "s")
    } else {
        cat4(decimal(s / 3600).as_str(), "h", in_two_digits(s % 3600 / 60).as_str(), "m")
    }
}

/// A share in percent, without decimals.
pub open spec fn hundredths_text<N: Num>(frac: N) -> Seq<char> {
    frac.times_spec(N::of_count_spec(100)).fixed_spec(0)
}

/// A share in percent.
pub open spec fn pct_text<N: Num>(frac: N) -> Seq<char> {
    hundredths_text(frac) + "%"@
}

/// A fraction as "73%".
pub fn human_pct<N: Num>(frac: N) -> (r: String)
    ensures
        r@ == pct_text(frac),
{
    cat(frac.times(N::of_count(100)).fixed(0).as_str(), "%")
}

// ---- cells ----

/// The text of a value; an unknown one says `N/A`.
pub open spec fn shown_text(v: Option<Seq<char>>) -> Seq<char> {
    match v {
        Some(t) => t,
        None => "N/A"@,
    }
}

/// The blanks that fill a text of `taken` columns up to `width`.
pub open spec fn fill_of(taken: int, width: int) -> nat {
    if width > taken {
        (width - taken) as nat
    } else {
        0
    }
}

/// A right-aligned value whose text takes `taken` columns; an unknown one is an italic
/// `N/A`.
pub open spec fn value_span_at(
    v: Option<Seq<char>>,
    taken: int,
    width: int,
    th: Theme,
    dimmed: bool,
) -> SpanView {
    let style = match v {
        Some(_) => ink(th.color("main_fg"@)),
        None => italic(th.color("inactive_fg"@)),
    };
    sp(blanks(fill_of(taken, width)) + shown_text(v), (Style { dim: dimmed, ..style }))
}

/// A right-aligned value; an unknown one is an italic `N/A`.
pub open spec fn value_span(v: Option<Seq<char>>, width: int, th: Theme, dimmed: bool) -> SpanView {
    value_span_at(v, display_width(shown_text(v)) as int, width, th, dimmed)
}

/// A right-aligned value cell whose text takes `taken` columns.
pub fn value_cell_at(v: Option<String>, taken: usize, width: usize, th: &Theme, dimmed: bool) -> (r:
    Span)
    ensures
        r@ == value_span_at(opt_view(v), taken as int, width as int, *th, dimmed),
{
    let style = match &v {
        Some(_) => ink(th.c("main_fg")),
        None => italic(th.c("inactive_fg")),
    };
    let style = Style {
        fg: style.fg,
        bg: style.bg,
        bold: style.bold,
        italic: style.italic,
        dim: dimmed,
    };
    let text = match v {
        Some(s) => s,
        None => "N/A".to_owned(),
    };
    let pad: usize = width.saturating_sub(taken);
    span(cat(blank_run(pad).as_str(), text.as_str()).as_str(), style)
}

/// A right-aligned value cell; `None` becomes an italic `N/A`.
pub fn value_cell(v: Option<String>, width: usize, th: &Theme, dimmed: bool) -> (r: Span)
    ensures
        r@ == value_span(opt_view(v), width as int, *th, dimmed),
{
    let taken: usize = match &v {
        Some(s) => text_width(s.as_str()),
        None => text_width("N/A"),
    };
    value_cell_at(v, taken, width, th, dimmed)
}

/// A right-aligned value cell of a known text.
pub fn known_cell(text: String, width: usize, th: &Theme, dimmed: bool) -> (r: Span)
    ensures
        r@ == value_span(Some(text@), width as int, *th, dimmed),
{
    value_cell(Some(text), width, th, dimmed)
}

/// A row of a label and its right-aligned value.
pub open spec fn kv_line(
    label: Seq<char>,
    value: Option<Seq<char>>,
    width: int,
    th: Theme,
    dimmed: bool,
) -> LineView {
    seq![sp(label + ":"@, bold(th.color("title"@))), value_span(value, width, th, dimmed)]
}

/// `label: value` row with the value right-aligned at `width`.
pub fn kv_row(label: &str, value: Option<String>, width: usize, th: &Theme, dimmed: bool) -> (r:
    Line)
    ensures
        r@ == kv_line(label@, opt_view(value), width as int, *th, dimmed),
{
    let ghost v = opt_view(value);
    let mut spans: Vec<Span> = Vec::new();
    add_span(&mut spans, cat(label, ":").as_str(), bold(th.c("title")));
    push_span(&mut spans, value_cell(value, width, th, dimmed));
    assert(spans_view(spans@) =~= kv_line(label@, v, width as int, *th, dimmed));
    Line { spans }
}

/// Nothing that is unknown is shown as a number: the cell of an unknown value says
/// `N/A` in italics, whatever its width, and no cell of a known value is in italics.
pub proof fn unknown_is_never_a_number(
    v: Option<Seq<char>>,
    width: int,
    th: Theme,
    dimmed: bool,
)
    ensures
        v is None ==> has_suffix(value_span(v, width, th, dimmed).text, "N/A"@),
        value_span(v, width, th, dimmed).style.italic == v is None,
        v is Some ==> has_suffix(value_span(v, width, th, dimmed).text, v->0),
{
    let text = shown_text(v);
    let all = value_span(v, width, th, dimmed).text;
    assert(all.skip(all.len() - text.len()) =~= text);
    assert(all.subrange(all.len() - text.len(), all.len() as int) =~= text);
}

/// While the server is out of reach the last values stay, and are dimmed: a dimmed cell
/// differs from the live one in that alone.
pub proof fn held_values_are_dimmed(v: Option<Seq<char>>, width: int, th: Theme)
    ensures
        value_span(v, width, th, true).style.dim,
        !value_span(v, width, th, false).style.dim,
        value_span(v, width, th, true).text == value_span(v, width, th, false).text,
{
}

}
