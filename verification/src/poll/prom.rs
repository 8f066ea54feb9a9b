//! The Prometheus exposition format: `name{labels} value`, one sample per line.
use crate::num::Num;
use crate::text::{chars_of, comes_before, of_chars, same, skip_space, text_less,
    text_less_asymmetric, text_less_total, text_less_transitive, trimmed_start};
use vstd::prelude::*;
use vstd::string::*;

verus! {

/// A parsed exposition line.
pub struct Sample<N> {
    pub name: String,
    /// Sorted by key so the same label set always compares equal.
    pub labels: Vec<(String, String)>,
    pub value: N,
}

/// What a sample says: its name, its labels in order, its value.
#[verifier::ext_equal]
pub struct SampleView<N> {
    pub name: Seq<char>,
    pub labels: Seq<(Seq<char>, Seq<char>)>,
    pub value: N,
}

/// The texts of a list of labels.
pub open spec fn labels_view(v: Seq<(String, String)>) -> Seq<(Seq<char>, Seq<char>)> {
    v.map_values(|p: (String, String)| (p.0@, p.1@))
}

impl<N> View for Sample<N> {
    type V = SampleView<N>;

    open spec fn view(&self) -> SampleView<N> {
        SampleView { name: self.name@, labels: labels_view(self.labels@), value: self.value }
    }
}

/// The value of the first label called `key`.
pub open spec fn label_of(labels: Seq<(Seq<char>, Seq<char>)>, key: Seq<char>) -> Option<Seq<char>>
    decreases labels.len(),
{
    if labels.len() == 0 {
        None
    } else if labels[0].0 == key {
        Some(labels[0].1)
    } else {
        label_of(labels.drop_first(), key)
    }
}

/// `k1=v1,k2=v2` for the labels in their order.
pub open spec fn labels_text(labels: Seq<(Seq<char>, Seq<char>)>) -> Seq<char>
    decreases labels.len(),
{
    if labels.len() == 0 {
        Seq::empty()
    } else {
        let head = labels_text(labels.drop_last());
        let l = labels.last();
        (if labels.len() == 1 {
            head
        } else {
            head.push(',')
        }) + l.0 + seq!['='] + l.1
    }
}

impl<N> SampleView<N> {
    pub open spec fn label(self, key: Seq<char>) -> Option<Seq<char>> {
        label_of(self.labels, key)
    }

    pub open spec fn key(self) -> Seq<char> {
        self.name.push('|') + labels_text(self.labels)
    }
}

/// The view of an optional text.
pub open spec fn opt_str(o: Option<&str>) -> Option<Seq<char>> {
    match o {
        Some(s) => Some(s@),
        None => None,
    }
}

impl<N> Sample<N> {
    /// The value of the label called `key`.
    pub fn label(&self, key: &str) -> (r: Option<&str>)
        ensures
            opt_str(r) == self@.label(key@),
    {
        let mut i: usize = 0;
        let ghost all = self@.labels;
        assert(all.skip(0) =~= all);
        while i < self.labels.len()
            invariant
                i <= self.labels@.len(),
                all == labels_view(self.labels@),
                label_of(all, key@) == label_of(all.skip(i as int), key@),
            decreases self.labels@.len() - i,
        {
            assert(all.skip(i as int).drop_first() =~= all.skip(i + 1));
            if same(self.labels[i].0.as_str(), key) {
                return Some(self.labels[i].1.as_str());
            }
            i += 1;
        }
        None
    }

    /// Stable identity for per-label-set rate tracking: `name|k1=v1,k2=v2`.
    pub fn key(&self) -> (r: String)
        ensures
            r@ == self@.key(),
    {
        let mut s = self.name.clone();
        s.push('|');
        let ghost head = s@;
        let ghost all = self@.labels;
        let mut i: usize = 0;
        assert(s@ =~= head + labels_text(all.take(0)));
        while i < self.labels.len()
            invariant
                i <= self.labels@.len(),
                all == labels_view(self.labels@),
                s@ == head + labels_text(all.take(i as int)),
            decreases self.labels@.len() - i,
        {
            if i > 0 {
                s.push(',');
            }
            s.append(self.labels[i].0.as_str());
            s.push('=');
            s.append(self.labels[i].1.as_str());
            i += 1;
            assert(all.take(i as int).drop_last() =~= all.take(i - 1));
            assert(s@ =~= head + labels_text(all.take(i as int)));
        }
        assert(all.take(all.len() as int) =~= all);
        s
    }
}

/// The whole scrape: every numeric sample, comment lines skipped.
pub struct Metrics<N> {
    pub samples: Vec<Sample<N>>,
    /// The body ended before a complete line.
    pub truncated: bool,
}

/// The samples of a scrape, in order.
pub open spec fn samples_view<N>(v: Seq<Sample<N>>) -> Seq<SampleView<N>> {
    v.map_values(|x: Sample<N>| x@)
}

impl<N> View for Metrics<N> {
    type V = Seq<SampleView<N>>;

    open spec fn view(&self) -> Seq<SampleView<N>> {
        samples_view(self.samples@)
    }
}

/// The samples of `s` that are called `name`, in order.
pub open spec fn named<N>(s: Seq<SampleView<N>>, name: Seq<char>) -> Seq<SampleView<N>> {
    s.filter(|x: SampleView<N>| x.name == name)
}

/// The views of borrowed samples.
pub open spec fn refs_view<N>(v: Seq<&Sample<N>>) -> Seq<SampleView<N>> {
    v.map_values(|x: &Sample<N>| x@)
}

/// The labels that a lookup asks for.
pub open spec fn wants_view(w: Seq<(&str, &str)>) -> Seq<(Seq<char>, Seq<char>)> {
    w.map_values(|p: (&str, &str)| (p.0@, p.1@))
}

/// Whether `x` carries every label of `want`.
pub open spec fn carries<N>(x: SampleView<N>, want: Seq<(Seq<char>, Seq<char>)>) -> bool {
    forall|i: int| 0 <= i < want.len() ==> x.label((#[trigger] want[i]).0) == Some(want[i].1)
}

/// The first sample called `name` that carries `want`.
pub open spec fn found<N>(
    s: Seq<SampleView<N>>,
    name: Seq<char>,
    want: Seq<(Seq<char>, Seq<char>)>,
) -> Option<SampleView<N>>
    decreases s.len(),
{
    if s.len() == 0 {
        None
    } else if s[0].name == name && carries(s[0], want) {
        Some(s[0])
    } else {
        found(s.drop_first(), name, want)
    }
}

/// The value of a sample that may be missing.
pub open spec fn value_of<N>(x: Option<SampleView<N>>) -> Option<N> {
    match x {
        Some(x) => Some(x.value),
        None => None,
    }
}

/// Whether `x` carries every label of `want`.
fn carries_all<N>(x: &Sample<N>, want: &[(&str, &str)]) -> (r: bool)
    ensures
        r == carries(x@, wants_view(want@)),
{
    let ghost w = wants_view(want@);
    let mut i: usize = 0;
    while i < want.len()
        invariant
            i <= want@.len(),
            w == wants_view(want@),
            forall|j: int| 0 <= j < i ==> x@.label((#[trigger] w[j]).0) == Some(w[j].1),
        decreases want@.len() - i,
    {
        let ok = match x.label(want[i].0) {
            Some(v) => same(v, want[i].1),
            None => false,
        };
        if !ok {
            assert(w[i as int] == (want@[i as int].0@, want@[i as int].1@));
            return false;
        }
        i += 1;
    }
    true
}

impl<N> Metrics<N> {
    /// The samples called `name`, in the order of the scrape.
    pub fn get(&self, name: &str) -> (r: Vec<&Sample<N>>)
        ensures
            refs_view(r@) == named(self@, name@),
    {
        let mut out: Vec<&Sample<N>> = Vec::new();
        let ghost all = self@;
        let ghost p = |x: SampleView<N>| x.name == name@;
        let mut i: usize = 0;
        assert(refs_view(out@) =~= all.take(0).filter(p));
        while i < self.samples.len()
            invariant
                i <= self.samples@.len(),
                all == samples_view(self.samples@),
                p == |x: SampleView<N>| x.name == name@,
                refs_view(out@) == all.take(i as int).filter(p),
            decreases self.samples@.len() - i,
        {
            assert(all.take(i + 1) =~= all.take(i as int).push(all[i as int]));
            proof {
                all.take(i as int).lemma_filter_push(all[i as int], p);
            }
            let ghost before = out@;
            if same(self.samples[i].name.as_str(), name) {
                out.push(&self.samples[i]);
                assert(refs_view(out@) =~= refs_view(before).push(all[i as int]));
            }
            i += 1;
        }
        assert(all.take(all.len() as int) =~= all);
        out
    }

    /// First sample of `name` whose labels are a superset of `want`.
    pub fn find(&self, name: &str, want: &[(&str, &str)]) -> (r: Option<&Sample<N>>)
        ensures
            (match r {
                Some(x) => Some(x@),
                None => None,
            }) == found(self@, name@, wants_view(want@)),
    {
        let ghost all = self@;
        let ghost w = wants_view(want@);
        let mut i: usize = 0;
        assert(all.skip(0) =~= all);
        while i < self.samples.len()
            invariant
                i <= self.samples@.len(),
                all == samples_view(self.samples@),
                w == wants_view(want@),
                found(all, name@, w) == found(all.skip(i as int), name@, w),
            decreases self.samples@.len() - i,
        {
            assert(all.skip(i as int).drop_first() =~= all.skip(i + 1));
            if same(self.samples[i].name.as_str(), name) && carries_all(&self.samples[i], want) {
                return Some(&self.samples[i]);
            }
            i += 1;
        }
        None
    }
}

impl<N: Num> Metrics<N> {
    /// The value of the first sample of `name` whose labels are a superset of `want`.
    pub fn value(&self, name: &str, want: &[(&str, &str)]) -> (r: Option<N>)
        ensures
            r == value_of(found(self@, name@, wants_view(want@))),
    {
        match self.find(name, want) {
            Some(x) => Some(x.value),
            None => None,
        }
    }
}

/// A letter, a digit or `_`.
pub open spec fn label_name_char(c: char) -> bool {
    ||| 'a' <= c <= 'z'
    ||| 'A' <= c <= 'Z'
    ||| '0' <= c <= '9'
    ||| c == '_'
}

/// What a metric name is made of.
pub open spec fn name_char(c: char) -> bool {
    c == ':' || c == '.' || label_name_char(c)
}

/// Blank or tab.
pub open spec fn gap_char(c: char) -> bool {
    c == ' ' || c == '\t'
}

/// Whether `c` may stand in a label name.
pub fn is_label_name_char(c: char) -> (r: bool)
    ensures
        r == label_name_char(c),
{
    ('a' <= c && c <= 'z') || ('A' <= c && c <= 'Z') || ('0' <= c && c <= '9') || c == '_'
}

/// Whether `c` may stand in a metric name.
pub fn is_name_char(c: char) -> (r: bool)
    ensures
        r == name_char(c),
{
    c == ':' || c == '.' || is_label_name_char(c)
}

/// The end of the run of characters from `i` on that satisfy `p`.
pub open spec fn run_end(s: Seq<char>, i: int, p: spec_fn(char) -> bool) -> int
    decreases s.len() - i,
{
    if 0 <= i < s.len() && p(s[i]) {
        run_end(s, i + 1, p)
    } else {
        i
    }
}

/// The first place at or after `i` that is neither blank nor tab.
pub open spec fn gap_end(s: Seq<char>, i: int) -> int {
    run_end(s, i, |c: char| gap_char(c))
}

/// The first place at or after `i` that is neither blank nor tab.
pub fn skip_ws(b: &Vec<char>, from: usize) -> (r: usize)
    requires
        from <= b@.len(),
    ensures
        r == gap_end(b@, from as int),
        from <= r <= b@.len(),
{
    let ghost p = |c: char| gap_char(c);
    let mut i: usize = from;
    while i < b.len() && (b[i] == ' ' || b[i] == '\t')
        invariant
            from <= i <= b@.len(),
            p == |c: char| gap_char(c),
            run_end(b@, from as int, p) == run_end(b@, i as int, p),
        decreases b@.len() - i,
    {
        i += 1;
    }
    i
}

/// What stands for `c` after a backslash; nothing does for a character beyond ASCII.
pub open spec fn unescaped(c: char) -> Option<char> {
    if c == 'n' {
        Some('\n')
    } else if c <= '\u{7f}' {
        Some(c)
    } else {
        None
    }
}

/// A quoted label value from behind its opening quote: the text and the place
/// behind the closing quote.
pub open spec fn quoted(s: Seq<char>, i: int) -> Option<(Seq<char>, int)>
    decreases s.len() - i,
{
    if i < 0 || i >= s.len() {
        None
    } else if s[i] == '"' {
        Some((Seq::empty(), i + 1))
    } else if s[i] == '\\' {
        if i + 1 >= s.len() {
            None
        } else {
            match (unescaped(s[i + 1]), quoted(s, i + 2)) {
                (Some(c), Some((rest, e))) => Some((seq![c] + rest, e)),
                _ => None,
            }
        }
    } else {
        match quoted(s, i + 1) {
            Some((rest, e)) => Some((seq![s[i]] + rest, e)),
            None => None,
        }
    }
}

/// One label from the start of its name: the label and the place behind it.
pub open spec fn one_label(s: Seq<char>, i: int) -> Option<((Seq<char>, Seq<char>), int)> {
    let k = run_end(s, i, |c: char| label_name_char(c));
    let e = gap_end(s, k);
    let q = gap_end(s, e + 1);
    if k == i || e >= s.len() || s[e] != '=' || q >= s.len() || s[q] != '"' {
        None
    } else {
        match quoted(s, q + 1) {
            Some((text, n)) => Some(((s.subrange(i, k), text), n)),
            None => None,
        }
    }
}

/// The labels from behind the opening brace, in the order of the line, and the
/// place behind the closing brace.
pub open spec fn label_list(s: Seq<char>, i: int) -> Option<(Seq<(Seq<char>, Seq<char>)>, int)>
    decreases s.len() - i,
{
    let j = gap_end(s, i);
    if i < 0 || j >= s.len() || j < i {
        None
    } else if s[j] == '}' {
        Some((Seq::empty(), j + 1))
    } else {
        match one_label(s, j) {
            None => None,
            Some((l, n)) => {
                let c = gap_end(s, n);
                if c >= s.len() || c < j {
                    None
                } else if s[c] == '}' {
                    Some((seq![l], c + 1))
                } else if s[c] == ',' {
                    match label_list(s, c + 1) {
                        Some((rest, e)) => Some((seq![l] + rest, e)),
                        None => None,
                    }
                } else {
                    None
                }
            },
        }
    }
}

/// `ls`, sorted, with `l` added behind every label whose key is not larger.
pub open spec fn with_label(
    ls: Seq<(Seq<char>, Seq<char>)>,
    l: (Seq<char>, Seq<char>),
) -> Seq<(Seq<char>, Seq<char>)>
    decreases ls.len(),
{
    if ls.len() > 0 && text_less(l.0, ls.last().0) {
        with_label(ls.drop_last(), l).push(ls.last())
    } else {
        ls.push(l)
    }
}

/// The labels sorted by key; labels of one key keep their order.
pub open spec fn sorted_labels(ls: Seq<(Seq<char>, Seq<char>)>) -> Seq<(Seq<char>, Seq<char>)>
    decreases ls.len(),
{
    if ls.len() == 0 {
        ls
    } else {
        with_label(sorted_labels(ls.drop_last()), ls.last())
    }
}

/// No label's key comes before that of a label in front of it.
pub open spec fn in_key_order(ls: Seq<(Seq<char>, Seq<char>)>) -> bool {
    forall|i: int, j: int| 0 <= i < j < ls.len() ==> !text_less((#[trigger] ls[j]).0, (#[trigger] ls[i]).0)
}

proof fn with_label_keeps_order(ls: Seq<(Seq<char>, Seq<char>)>, l: (Seq<char>, Seq<char>))
    requires
        in_key_order(ls),
    ensures
        in_key_order(with_label(ls, l)),
        with_label(ls, l).to_multiset() == ls.to_multiset().insert(l),
        forall|i: int|
            0 <= i < with_label(ls, l).len() ==> (#[trigger] with_label(ls, l)[i] == l || exists|j: int|
                0 <= j < ls.len() && ls[j] == with_label(ls, l)[i]),
    decreases ls.len(),
{
    broadcast use vstd::seq_lib::group_to_multiset_ensures;

    let r = with_label(ls, l);
    if ls.len() > 0 && text_less(l.0, ls.last().0) {
        let d = ls.drop_last();
        let rd = with_label(d, l);
        with_label_keeps_order(d, l);
        assert(ls =~= d.push(ls.last()));
        assert forall|i: int| 0 <= i < r.len() implies (#[trigger] r[i] == l || exists|j: int|
            0 <= j < ls.len() && ls[j] == r[i]) by {
            if i < rd.len() {
                assert(r[i] == rd[i]);
                if rd[i] != l {
                    let j = choose|j: int| 0 <= j < d.len() && d[j] == rd[i];
                    assert(ls[j] == r[i]);
                }
            } else {
                assert(ls[ls.len() - 1] == r[i]);
            }
        }
        assert forall|i: int, j: int| 0 <= i < j < r.len() implies !text_less(
            (#[trigger] r[j]).0,
            (#[trigger] r[i]).0,
        ) by {
            if j < rd.len() {
                assert(r[i] == rd[i] && r[j] == rd[j]);
            } else {
                assert(r[i] == rd[i]);
                if rd[i] == l {
                    text_less_asymmetric(l.0, ls.last().0);
                } else {
                    let k = choose|k: int| 0 <= k < d.len() && d[k] == rd[i];
                    assert(ls[k] == rd[i]);
                }
            }
        }
    } else {
        assert forall|i: int, j: int| 0 <= i < j < r.len() implies !text_less(
            (#[trigger] r[j]).0,
            (#[trigger] r[i]).0,
        ) by {
            if j == ls.len() && text_less(l.0, ls[i].0) {
                if i < ls.len() - 1 {
                    text_less_total(ls[i].0, ls.last().0);
                    if text_less(ls[i].0, ls.last().0) {
                        text_less_transitive(l.0, ls[i].0, ls.last().0);
                    }
                }
            }
        }
    }
}

/// Sorting the labels orders their keys and neither adds nor loses a label.
pub proof fn sorted_labels_are_sorted(ls: Seq<(Seq<char>, Seq<char>)>)
    ensures
        in_key_order(sorted_labels(ls)),
        sorted_labels(ls).to_multiset() == ls.to_multiset(),
    decreases ls.len(),
{
    broadcast use vstd::seq_lib::group_to_multiset_ensures;

    if ls.len() > 0 {
        sorted_labels_are_sorted(ls.drop_last());
        with_label_keeps_order(sorted_labels(ls.drop_last()), ls.last());
        assert(ls =~= ls.drop_last().push(ls.last()));
    }
}

/// The value of a sample: `NaN` and the infinities by name, else a finite numeral
/// (or another spelling of NaN).
pub open spec fn prom_value<N: Num>(s: Seq<char>) -> Option<N> {
    if s.len() == 0 {
        None
    } else if s == "NaN"@ {
        Some(N::nan_spec())
    } else if s == "+Inf"@ || s == "Inf"@ || s == "inf"@ {
        Some(N::infinity_spec())
    } else if s == "-Inf"@ || s == "-inf"@ {
        Some(N::neg_infinity_spec())
    } else {
        match N::read_spec(s) {
            Some(v) => if v.is_finite_spec() || v.is_nan_spec() {
                Some(v)
            } else {
                None
            },
            None => None,
        }
    }
}

/// A sample line without its leading white space; nothing for malformed input.
pub open spec fn sample_line<N: Num>(s: Seq<char>) -> Option<SampleView<N>> {
    let e = run_end(s, 0, |c: char| name_char(c));
    let ls = if e < s.len() && s[e] == '{' {
        label_list(s, e + 1)
    } else {
        Some((Seq::empty(), e))
    };
    if e == 0 {
        None
    } else {
        match ls {
            None => None,
            Some((labels, n)) => {
                let v0 = gap_end(s, n);
                let v1 = run_end(s, v0, |c: char| !gap_char(c));
                match prom_value::<N>(s.subrange(v0, v1)) {
                    Some(value) => Some(
                        SampleView {
                            name: s.subrange(0, e),
                            labels: sorted_labels(labels),
                            value,
                        },
                    ),
                    None => None,
                }
            },
        }
    }
}

/// The end of the line that starts at `pos`.
pub open spec fn line_end(s: Seq<char>, pos: int) -> int {
    run_end(s, pos, |c: char| c != '\n')
}

/// The samples of the lines from `pos` on, and whether the last line is malformed.
pub open spec fn parsed_from<N: Num>(s: Seq<char>, pos: int) -> (Seq<SampleView<N>>, bool)
    decreases s.len() - pos,
{
    if pos < 0 || pos >= s.len() {
        (Seq::empty(), false)
    } else {
        let e = line_end(s, pos);
        let rest = if e < pos || e >= s.len() {
            (Seq::empty(), false)
        } else {
            parsed_from::<N>(s, e + 1)
        };
        let line = trimmed_start(s.subrange(pos, e));
        if line.len() == 0 || line[0] == '#' {
            rest
        } else {
            match sample_line::<N>(line) {
                Some(x) => (seq![x] + rest.0, rest.1),
                None => (rest.0, rest.1 || e + 1 >= s.len()),
            }
        }
    }
}

/// The value that a token stands for.
pub fn parse_prom_value<N: Num>(s: &str) -> (r: Option<N>)
    ensures
        r == prom_value::<N>(s@),
{
    if s.is_empty() {
        return None;
    }
    if same(s, "NaN") {
        return Some(N::nan());
    }
    if same(s, "+Inf") || same(s, "Inf") || same(s, "inf") {
        return Some(N::infinity());
    }
    if same(s, "-Inf") || same(s, "-inf") {
        return Some(N::neg_infinity());
    }
    match N::read(s) {
        Some(v) => if v.is_finite() || v.is_nan() {
            Some(v)
        } else {
            None
        },
        None => None,
    }
}

/// A quoted label value from behind its opening quote.
fn parse_quoted(b: &Vec<char>, from: usize) -> (r: Option<(String, usize)>)
    requires
        from <= b@.len(),
    ensures
        (match r {
            Some((v, e)) => quoted(b@, from as int) == Some((v@, e as int)) && from < e <= b@.len(),
            None => quoted(b@, from as int) is None,
        }),
{
    let mut val = String::new();
    let mut i: usize = from;
    loop
        invariant
            from <= i <= b@.len(),
            quoted(b@, from as int) == (match quoted(b@, i as int) {
                Some((rest, e)) => Some((val@ + rest, e)),
                None => None,
            }),
        decreases b@.len() - i,
    {
        if i >= b.len() {
            return None;
        }
        let c = b[i];
        let ghost before = val@;
        if c == '"' {
            assert(val@ + Seq::<char>::empty() =~= val@);
            return Some((val, i + 1));
        }
        if c == '\\' {
            if i + 1 >= b.len() {
                return None;
            }
            let e = b[i + 1];
            if e == 'n' {
                val.push('\n');
            } else if e <= '\u{7f}' {
                val.push(e);
            } else {
                return None;
            }
            proof {
                if let Some((rest, n)) = quoted(b@, i + 2) {
                    assert(before + (seq![val@.last()] + rest) =~= val@ + rest);
                }
            }
            i += 2;
        } else {
            val.push(c);
            proof {
                if let Some((rest, n)) = quoted(b@, i + 1) {
                    assert(before + (seq![c] + rest) =~= val@ + rest);
                }
            }
            i += 1;
        }
    }
}

/// One label from the start of its name.
fn parse_label(b: &Vec<char>, from: usize) -> (r: Option<((String, String), usize)>)
    requires
        from <= b@.len(),
    ensures
        (match r {
            Some((l, e)) => one_label(b@, from as int) == Some(((l.0@, l.1@), e as int)) && from < e
                <= b@.len(),
            None => one_label(b@, from as int) is None,
        }),
{
    let ghost p = |c: char| label_name_char(c);
    let mut k: usize = from;
    while k < b.len() && is_label_name_char(b[k])
        invariant
            from <= k <= b@.len(),
            p == |c: char| label_name_char(c),
            run_end(b@, from as int, p) == run_end(b@, k as int, p),
        decreases b@.len() - k,
    {
        k += 1;
    }
    if k == from {
        return None;
    }
    let e: usize = skip_ws(b, k);
    if e >= b.len() || b[e] != '=' {
        return None;
    }
    let q: usize = skip_ws(b, e + 1);
    if q >= b.len() || b[q] != '"' {
        return None;
    }
    match parse_quoted(b, q + 1) {
        Some((v, n)) => Some(((of_chars(b, from, k), v), n)),
        None => None,
    }
}

/// Adds a label to sorted labels, behind every label whose key is not larger.
fn add_label(ls: &mut Vec<(String, String)>, l: (String, String))
    ensures
        labels_view(final(ls)@) == with_label(labels_view(old(ls)@), (l.0@, l.1@)),
{
    let ghost all = labels_view(ls@);
    let ghost lv = (l.0@, l.1@);
    let mut at: usize = ls.len();
    assert(all.take(at as int) =~= all);
    assert(all.skip(at as int) =~= Seq::empty());
    assert(with_label(all, lv) =~= with_label(all.take(at as int), lv) + all.skip(at as int));
    while at > 0 && comes_before(l.0.as_str(), ls[at - 1].0.as_str())
        invariant
            at <= ls@.len(),
            all == labels_view(ls@),
            lv == (l.0@, l.1@),
            with_label(all, lv) == with_label(all.take(at as int), lv) + all.skip(at as int),
        decreases at,
    {
        let ghost head = all.take(at as int);
        assert(head.drop_last() =~= all.take(at - 1));
        assert(with_label(head, lv) == with_label(head.drop_last(), lv).push(all[at - 1]));
        assert(with_label(all.take(at - 1), lv).push(all[at - 1]) + all.skip(at as int)
            =~= with_label(all.take(at - 1), lv) + all.skip(at - 1));
        at -= 1;
    }
    assert(with_label(all.take(at as int), lv) == all.take(at as int).push(lv));
    ls.insert(at, l);
    assert(labels_view(ls@) =~= all.take(at as int).push(lv) + all.skip(at as int));
}

/// The labels from behind the opening brace, sorted by key.
fn parse_labels(b: &Vec<char>, from: usize) -> (r: Option<(Vec<(String, String)>, usize)>)
    requires
        from <= b@.len(),
    ensures
        (match r {
            Some((ls, e)) => label_list(b@, from as int) matches Some((list, n)) && n == e
                && labels_view(ls@) == sorted_labels(list) && e <= b@.len(),
            None => label_list(b@, from as int) is None,
        }),
{
    let mut out: Vec<(String, String)> = Vec::new();
    let mut i: usize = from;
    let ghost mut seen: Seq<(Seq<char>, Seq<char>)> = Seq::empty();
    assert(labels_view(out@) =~= sorted_labels(seen));
    proof {
        if let Some((rest, n)) = label_list(b@, i as int) {
            assert(seen + rest =~= rest);
        }
    }
    loop
        invariant
            from <= i <= b@.len(),
            labels_view(out@) == sorted_labels(seen),
            label_list(b@, from as int) == (match label_list(b@, i as int) {
                Some((rest, e)) => Some((seen + rest, e)),
                None => None,
            }),
        decreases b@.len() - i,
    {
        let j: usize = skip_ws(b, i);
        if j >= b.len() {
            return None;
        }
        if b[j] == '}' {
            assert(seen + Seq::<(Seq<char>, Seq<char>)>::empty() =~= seen);
            return Some((out, j + 1));
        }
        match parse_label(b, j) {
            None => {
                return None;
            },
            Some((l, n)) => {
                let ghost lv = (l.0@, l.1@);
                add_label(&mut out, l);
                proof {
                    assert(seen.push(lv).drop_last() =~= seen);
                }
                let c: usize = skip_ws(b, n);
                if c >= b.len() {
                    return None;
                }
                if b[c] == '}' {
                    assert(seen + seq![lv] =~= seen.push(lv));
                    return Some((out, c + 1));
                }
                if b[c] != ',' {
                    return None;
                }
                proof {
                    if let Some((rest, e)) = label_list(b@, c + 1) {
                        assert(seen + (seq![lv] + rest) =~= seen.push(lv) + rest);
                    }
                    seen = seen.push(lv);
                }
                i = c + 1;
            },
        }
    }
}

/// Parse one sample line. Returns None on malformed input.
pub fn parse_sample<N: Num>(b: &Vec<char>) -> (r: Option<Sample<N>>)
    ensures
        (match r {
            Some(x) => Some(x@),
            None => None,
        }) == sample_line::<N>(b@),
{
    let ghost p = |c: char| name_char(c);
    let mut e: usize = 0;
    while e < b.len() && is_name_char(b[e])
        invariant
            e <= b@.len(),
            p == |c: char| name_char(c),
            run_end(b@, 0, p) == run_end(b@, e as int, p),
        decreases b@.len() - e,
    {
        e += 1;
    }
    if e == 0 {
        return None;
    }
    let mut labels: Vec<(String, String)> = Vec::new();
    let mut n: usize = e;
    assert(labels_view(labels@) =~= sorted_labels(Seq::empty()));
    if e < b.len() && b[e] == '{' {
        match parse_labels(b, e + 1) {
            Some((ls, end)) => {
                labels = ls;
                n = end;
            },
            None => {
                return None;
            },
        }
    }
    let v0: usize = skip_ws(b, n);
    let ghost q = |c: char| !gap_char(c);
    let mut v1: usize = v0;
    while v1 < b.len() && b[v1] != ' ' && b[v1] != '\t'
        invariant
            v0 <= v1 <= b@.len(),
            q == |c: char| !gap_char(c),
            run_end(b@, v0 as int, q) == run_end(b@, v1 as int, q),
        decreases b@.len() - v1,
    {
        v1 += 1;
    }
    let token = of_chars(b, v0, v1);
    match parse_prom_value::<N>(token.as_str()) {
        Some(value) => Some(Sample { name: of_chars(b, 0, e), labels, value }),
        None => None,
    }
}

/// Parse the exposition format with a character scanner: label values may hold
/// escaped quotes, commas and braces, metric names may hold `:` and `.`.
///
/// Accepted per sample line: `name{a="1",b="x\"y"} 3.14 1699999999` and
/// `name 3.14`. Values may be `NaN`, `+Inf`, `-Inf`.
pub fn parse<N: Num>(input: &str) -> (r: Metrics<N>)
    ensures
        (r@, r.truncated) == parsed_from::<N>(input@, 0),
{
    let b = chars_of(input);
    let mut samples: Vec<Sample<N>> = Vec::new();
    let mut truncated = false;
    let mut pos: usize = 0;
    let ghost nl = |c: char| c != '\n';
    assert(samples_view(samples@) =~= Seq::empty());
    assert(parsed_from::<N>(b@, 0).0 =~= Seq::empty() + parsed_from::<N>(b@, 0).0);
    while pos < b.len()
        invariant
            b@ == input@,
            nl == |c: char| c != '\n',
            parsed_from::<N>(b@, 0) == (
                samples_view(samples@) + parsed_from::<N>(b@, pos as int).0,
                truncated || parsed_from::<N>(b@, pos as int).1,
            ),
            truncated ==> pos >= b@.len(),
        decreases b@.len() - pos,
    {
        let mut e: usize = pos;
        while e < b.len() && b[e] != '\n'
            invariant
                pos <= e <= b@.len(),
                nl == |c: char| c != '\n',
                run_end(b@, pos as int, nl) == run_end(b@, e as int, nl),
            decreases b@.len() - e,
        {
            e += 1;
        }
        let start: usize = skip_space(&b, pos, e);
        let ghost rest = if e >= b@.len() {
            (Seq::empty(), false)
        } else {
            parsed_from::<N>(b@, e + 1)
        };
        let ghost line = trimmed_start(b@.subrange(pos as int, e as int));
        assert(line =~= b@.subrange(start as int, e as int));
        let ghost before = samples@;
        if start < e && b[start] != '#' {
            let mut l: Vec<char> = Vec::new();
            let mut k: usize = start;
            while k < e
                invariant
                    start <= k <= e <= b@.len(),
                    l@ == b@.subrange(start as int, k as int),
                decreases e - k,
            {
                l.push(b[k]);
                k += 1;
                assert(l@ =~= b@.subrange(start as int, k as int));
            }
            assert(l@ == line);
            match parse_sample::<N>(&l) {
                Some(x) => {
                    samples.push(x);
                    assert(samples_view(samples@) =~= samples_view(before).push(x@));
                    assert(samples_view(before) + (seq![x@] + rest.0) =~= samples_view(samples@)
                        + rest.0);
                },
                None => {
                    if e >= b.len() || e + 1 >= b.len() {
                        truncated = true;
                    }
                },
            }
        }
        pos = if e < b.len() {
            e + 1
        } else {
            e
        };
    }
    assert(samples_view(samples@) + Seq::<SampleView<N>>::empty() =~= samples_view(samples@));
    Metrics { samples, truncated }
}

/// Candidate metric names per logical field, ordered by preference: the first
/// hit answers, and a missing field is `None`, never nought.
pub struct Selector<'a, N> {
    pub m: &'a Metrics<N>,
}

/// The value of the first candidate that has one.
pub open spec fn first_value<N>(
    s: Seq<SampleView<N>>,
    candidates: Seq<Seq<char>>,
    want: Seq<(Seq<char>, Seq<char>)>,
) -> Option<N>
    decreases candidates.len(),
{
    if candidates.len() == 0 {
        None
    } else {
        match found(s, candidates[0], want) {
            Some(x) => Some(x.value),
            None => first_value(s, candidates.drop_first(), want),
        }
    }
}

/// The texts of a list of names.
pub open spec fn names_view(v: Seq<&str>) -> Seq<Seq<char>> {
    v.map_values(|s: &str| s@)
}

impl<'a, N: Num> Selector<'a, N> {
    pub fn new(m: &'a Metrics<N>) -> (r: Self)
        ensures
            r.m == m,
    {
        Selector { m }
    }

    /// The value of the first candidate that has a sample with the labels `want`.
    pub fn value(&self, candidates: &[&str], want: &[(&str, &str)]) -> (r: Option<N>)
        ensures
            r == first_value(self.m@, names_view(candidates@), wants_view(want@)),
    {
        let ghost all = names_view(candidates@);
        let ghost w = wants_view(want@);
        let mut i: usize = 0;
        assert(all.skip(0) =~= all);
        while i < candidates.len()
            invariant
                i <= candidates@.len(),
                all == names_view(candidates@),
                w == wants_view(want@),
                first_value(self.m@, all, w) == first_value(self.m@, all.skip(i as int), w),
            decreases candidates@.len() - i,
        {
            assert(all.skip(i as int).drop_first() =~= all.skip(i + 1));
            if let Some(v) = self.m.value(candidates[i], want) {
                return Some(v);
            }
            i += 1;
        }
        None
    }
}

}
