//! The parts of a panel's rows: labels, notes and values.
use crate::num::Num;
use crate::text::{cat, opt_view};
use crate::ui::cells::{add_span, bold, ink, push_span, sp, spans_view, Span, SpanView};
use crate::ui::panels::human::{count_text, duration_text, human_count, human_duration, human_pct,
    human_rate, known_cell, pct_text, rate_text, value_cell, value_span};
use crate::ui::theme::Theme;
use vstd::prelude::*;
use vstd::string::*;

verus! {

/// A label.
pub open spec fn title_sp(text: Seq<char>, th: Theme) -> SpanView {
    sp(text, bold(th.color("title"@)))
}

/// A quiet label.
pub open spec fn note_sp(text: Seq<char>, th: Theme) -> SpanView {
    sp(text, ink(th.color("graph_text"@)))
}

/// Plain text.
pub open spec fn main_sp(text: Seq<char>, th: Theme) -> SpanView {
    sp(text, ink(th.color("main_fg"@)))
}

/// A known value, right-aligned.
pub open spec fn known_sp(text: Seq<char>, width: int, th: Theme, dim: bool) -> SpanView {
    value_span(Some(text), width, th, dim)
}

/// Adds a label to a row.
pub fn add_title(line: &mut Vec<Span>, text: &str, th: &Theme)
    ensures
        spans_view(final(line)@) == spans_view(old(line)@).push(title_sp(text@, *th)),
{
    add_span(line, text, bold(th.c("title")));
}

/// Adds a quiet label to a row.
pub fn add_note(line: &mut Vec<Span>, text: &str, th: &Theme)
    ensures
        spans_view(final(line)@) == spans_view(old(line)@).push(note_sp(text@, *th)),
{
    add_span(line, text, ink(th.c("graph_text")));
}

/// Adds plain text to a row.
pub fn add_main(line: &mut Vec<Span>, text: &str, th: &Theme)
    ensures
        spans_view(final(line)@) == spans_view(old(line)@).push(main_sp(text@, *th)),
{
    add_span(line, text, ink(th.c("main_fg")));
}

/// Adds a value to a row.
pub fn add_value(line: &mut Vec<Span>, v: Option<String>, width: usize, th: &Theme, dim: bool)
    ensures
        spans_view(final(line)@) == spans_view(old(line)@).push(
            value_span(opt_view(v), width as int, *th, dim),
        ),
{
    push_span(line, value_cell(v, width, th, dim));
}

/// Adds a known value to a row.
pub fn add_known(line: &mut Vec<Span>, text: String, width: usize, th: &Theme, dim: bool)
    ensures
        spans_view(final(line)@) == spans_view(old(line)@).push(
            known_sp(text@, width as int, *th, dim),
        ),
{
    push_span(line, known_cell(text, width, th, dim));
}

// ---- values that may be unknown ----

pub open spec fn count_known(v: Option<u64>) -> Option<Seq<char>> {
    match v {
        Some(x) => Some(count_text(x)),
        None => None,
    }
}

pub fn count_if_known(v: Option<u64>) -> (r: Option<String>)
    ensures
        opt_view(r) == count_known(v),
{
    match v {
        Some(x) => Some(human_count(x)),
        None => None,
    }
}

pub open spec fn rate_known<N: Num>(v: Option<N>) -> Option<Seq<char>> {
    match v {
        Some(x) => Some(rate_text(x)),
        None => None,
    }
}

pub fn rate_if_known<N: Num>(v: Option<N>) -> (r: Option<String>)
    ensures
        opt_view(r) == rate_known(v),
{
    match v {
        Some(x) => Some(human_rate(x)),
        None => None,
    }
}

pub open spec fn pct_known<N: Num>(v: Option<N>) -> Option<Seq<char>> {
    match v {
        Some(x) => Some(pct_text(x)),
        None => None,
    }
}

pub fn pct_if_known<N: Num>(v: Option<N>) -> (r: Option<String>)
    ensures
        opt_view(r) == pct_known(v),
{
    match v {
        Some(x) => Some(human_pct(x)),
        None => None,
    }
}

pub open spec fn duration_known<N: Num>(v: Option<N>) -> Option<Seq<char>> {
    match v {
        Some(x) => Some(duration_text(x)),
        None => None,
    }
}

pub fn duration_if_known<N: Num>(v: Option<N>) -> (r: Option<String>)
    ensures
        opt_view(r) == duration_known(v),
{
    match v {
        Some(x) => Some(human_duration(x)),
        None => None,
    }
}

/// With `places` decimals, and a unit.
pub open spec fn fixed_known<N: Num>(v: Option<N>, places: u8, unit: Seq<char>) -> Option<Seq<char>> {
    match v {
        Some(x) => Some(x.fixed_spec(places) + unit),
        None => None,
    }
}

/// With `places` decimals, and a unit.
pub fn fixed_if_known<N: Num>(v: Option<N>, places: u8, unit: &str) -> (r: Option<String>)
    ensures
        opt_view(r) == fixed_known(v, places, unit@),
{
    match v {
        Some(x) => Some(cat(x.fixed(places).as_str(), unit)),
        None => None,
    }
}

}
