//! What is written in the exposition format is read back as it was meant.
use crate::num::Num;
use crate::poll::prom::{gap_char, in_key_order, label_list, label_name_char, line_end,
    name_char, one_label, parsed_from, prom_value, quoted, run_end, sample_line, sorted_labels,
    with_label, SampleView};
use crate::text::{space_char, space_end, text_less, trimmed_start};
use vstd::prelude::*;
use vstd::string::*;

verus! {

// ---- writing ----

/// How a character is written inside quotes.
pub open spec fn escape(c: char) -> Seq<char> {
    if c == '\\' {
        seq!['\\', '\\']
    } else if c == '"' {
        seq!['\\', '"']
    } else if c == '\n' {
        seq!['\\', 'n']
    } else {
        seq![c]
    }
}

/// How a label value is written inside quotes.
pub open spec fn escaped(v: Seq<char>) -> Seq<char>
    decreases v.len(),
{
    if v.len() == 0 {
        Seq::empty()
    } else {
        escape(v[0]) + escaped(v.drop_first())
    }
}

/// `key="value"`.
pub open spec fn label_line(l: (Seq<char>, Seq<char>)) -> Seq<char> {
    l.0 + seq!['=', '"'] + escaped(l.1) + seq!['"']
}

/// Labels with commas between them, up to the closing brace.
pub open spec fn labels_line(ls: Seq<(Seq<char>, Seq<char>)>) -> Seq<char>
    decreases ls.len(),
{
    if ls.len() == 0 {
        seq!['}']
    } else if ls.len() == 1 {
        label_line(ls[0]) + seq!['}']
    } else {
        label_line(ls[0]) + seq![','] + labels_line(ls.drop_first())
    }
}

/// `name{key="value",..} value`, without braces where there are no labels.
pub open spec fn exposed(name: Seq<char>, ls: Seq<(Seq<char>, Seq<char>)>, value: Seq<char>) -> Seq<
    char,
> {
    (if ls.len() == 0 {
        name
    } else {
        name + seq!['{'] + labels_line(ls)
    }) + seq![' '] + value
}

/// `name{key="value",..} value`, with braces even where there are no labels.
pub open spec fn braced(name: Seq<char>, ls: Seq<(Seq<char>, Seq<char>)>, value: Seq<char>) -> Seq<
    char,
> {
    name + seq!['{'] + labels_line(ls) + seq![' '] + value
}

/// A metric name.
pub open spec fn is_name(s: Seq<char>) -> bool {
    s.len() > 0 && forall|i: int| 0 <= i < s.len() ==> name_char(#[trigger] s[i])
}

/// Labels that each have a name.
pub open spec fn are_labels(ls: Seq<(Seq<char>, Seq<char>)>) -> bool {
    forall|i: int| 0 <= i < ls.len() ==> is_label_name((#[trigger] ls[i]).0)
}

/// A label name.
pub open spec fn is_label_name(s: Seq<char>) -> bool {
    s.len() > 0 && forall|i: int| 0 <= i < s.len() ==> label_name_char(#[trigger] s[i])
}

/// A value without white space.
pub open spec fn is_token(s: Seq<char>) -> bool {
    s.len() > 0 && forall|i: int| 0 <= i < s.len() ==> !space_char(#[trigger] s[i])
}

// ---- reading back ----

/// Whether `t` stands in `s` from `i` on.
spec fn stands(s: Seq<char>, i: int, t: Seq<char>) -> bool {
    0 <= i && i + t.len() <= s.len() && s.subrange(i, i + t.len()) == t
}

proof fn stands_apart(s: Seq<char>, i: int, a: Seq<char>, b: Seq<char>)
    requires
        stands(s, i, a + b),
    ensures
        stands(s, i, a),
        stands(s, i + a.len(), b),
{
    let t = a + b;
    assert forall|j: int| 0 <= j < t.len() implies s[i + j] == t[j] by {
        assert(s.subrange(i, i + t.len())[j] == s[i + j]);
    }
    assert forall|j: int| 0 <= j < a.len() implies s.subrange(i, i + a.len())[j] == a[j] by {
        assert(t[j] == a[j]);
    }
    assert(s.subrange(i, i + a.len()) =~= a);
    let k = i + a.len();
    assert forall|j: int| 0 <= j < b.len() implies s.subrange(k, k + b.len())[j] == b[j] by {
        assert(t[a.len() + j] == b[j]);
        assert(s[i + (a.len() + j)] == t[a.len() + j]);
    }
    assert(s.subrange(k, k + b.len()) =~= b);
}

proof fn stands_char(s: Seq<char>, i: int, t: Seq<char>, j: int)
    requires
        stands(s, i, t),
        0 <= j < t.len(),
    ensures
        s[i + j] == t[j],
{
    assert(s.subrange(i, i + t.len())[j] == s[i + j]);
}

/// A run ends where its characters do.
proof fn run_stops(s: Seq<char>, i: int, p: spec_fn(char) -> bool, e: int)
    requires
        0 <= i <= e <= s.len(),
        forall|j: int| i <= j < e ==> p(#[trigger] s[j]),
        e < s.len() ==> !p(s[e]),
    ensures
        run_end(s, i, p) == e,
    decreases e - i,
{
    if i < e {
        assert(p(s[i]));
        run_stops(s, i + 1, p, e);
    }
}

proof fn quoted_back(s: Seq<char>, i: int, v: Seq<char>)
    requires
        stands(s, i, escaped(v) + seq!['"']),
    ensures
        quoted(s, i) == Some((v, i + escaped(v).len() + 1)),
    decreases v.len(),
{
    if v.len() == 0 {
        stands_char(s, i, escaped(v) + seq!['"'], 0);
    } else {
        let head = escape(v[0]);
        let rest = escaped(v.drop_first());
        assert(escaped(v) + seq!['"'] =~= head + (rest + seq!['"']));
        stands_apart(s, i, head, rest + seq!['"']);
        quoted_back(s, i + head.len(), v.drop_first());
        stands_char(s, i, head, 0);
        if head.len() == 2 {
            stands_char(s, i, head, 1);
        }
        assert(seq![v[0]] + v.drop_first() =~= v);
    }
}

proof fn label_back(s: Seq<char>, i: int, l: (Seq<char>, Seq<char>))
    requires
        stands(s, i, label_line(l)),
        is_label_name(l.0),
    ensures
        one_label(s, i) == Some((l, i + label_line(l).len())),
        label_name_char(s[i]),
        label_line(l).len() > 0,
{
    let tail = escaped(l.1) + seq!['"'];
    assert(label_line(l) =~= l.0 + (seq!['=', '"'] + tail));
    stands_apart(s, i, l.0, seq!['=', '"'] + tail);
    let k = i + l.0.len();
    stands_apart(s, k, seq!['=', '"'], tail);
    stands_char(s, k, seq!['=', '"'], 0);
    stands_char(s, k, seq!['=', '"'], 1);
    assert forall|j: int| i <= j < k implies label_name_char(#[trigger] s[j]) by {
        stands_char(s, i, l.0, j - i);
        assert(label_name_char(l.0[j - i]));
    }
    run_stops(s, i, |c: char| label_name_char(c), k);
    run_stops(s, k, |c: char| gap_char(c), k);
    run_stops(s, k + 1, |c: char| gap_char(c), k + 1);
    quoted_back(s, k + 2, l.1);
}

proof fn labels_back(s: Seq<char>, i: int, ls: Seq<(Seq<char>, Seq<char>)>)
    requires
        ls.len() > 0,
        stands(s, i, labels_line(ls)),
        are_labels(ls),
    ensures
        label_list(s, i) == Some((ls, i + labels_line(ls).len())),
    decreases ls.len(),
{
    let l = ls[0];
    let first = label_line(l);
    let n = i + first.len();
    if ls.len() == 1 {
        stands_apart(s, i, first, seq!['}']);
        stands_char(s, n, seq!['}'], 0);
        label_back(s, i, l);
        run_stops(s, i, |c: char| gap_char(c), i);
        run_stops(s, n, |c: char| gap_char(c), n);
        assert(seq![l] =~= ls);
    } else {
        let rest = ls.drop_first();
        assert(labels_line(ls) =~= first + (seq![','] + labels_line(rest)));
        stands_apart(s, i, first, seq![','] + labels_line(rest));
        stands_apart(s, n, seq![','], labels_line(rest));
        stands_char(s, n, seq![','], 0);
        label_back(s, i, l);
        run_stops(s, i, |c: char| gap_char(c), i);
        run_stops(s, n, |c: char| gap_char(c), n);
        assert(are_labels(rest)) by {
            assert forall|j: int| 0 <= j < rest.len() implies is_label_name((#[trigger] rest[j]).0) by {
                assert(rest[j] == ls[j + 1]);
            }
        }
        labels_back(s, n + 1, rest);
        assert(seq![l] + rest =~= ls);
    }
}

/// Labels in order are left as they are.
pub proof fn sorted_labels_stay(ls: Seq<(Seq<char>, Seq<char>)>)
    requires
        in_key_order(ls),
    ensures
        sorted_labels(ls) == ls,
    decreases ls.len(),
{
    if ls.len() > 0 {
        let d = ls.drop_last();
        assert(in_key_order(d)) by {
            assert forall|i: int, j: int| 0 <= i < j < d.len() implies !text_less(
                (#[trigger] d[j]).0,
                (#[trigger] d[i]).0,
            ) by {
                assert(d[j] == ls[j] && d[i] == ls[i]);
            }
        }
        sorted_labels_stay(d);
        if d.len() > 0 {
            assert(ls[d.len() - 1] == d.last());
        }
        assert(with_label(d, ls.last()) == d.push(ls.last()));
        assert(d.push(ls.last()) =~= ls);
    }
}

/// What stands behind the name and the labels is the value.
proof fn value_back<N: Num>(
    s: Seq<char>,
    name: Seq<char>,
    ls: Seq<(Seq<char>, Seq<char>)>,
    n: int,
    text: Seq<char>,
    value: N,
)
    requires
        is_name(name),
        is_token(text),
        prom_value::<N>(text) == Some(value),
        name.len() <= n,
        s.len() == n + 1 + text.len(),
        s.take(name.len() as int) == name,
        s[n] == ' ',
        s.skip(n + 1) == text,
        if s[name.len() as int] == '{' {
            label_list(s, name.len() as int + 1) == Some((ls, n))
        } else {
            n == name.len() && ls.len() == 0
        },
    ensures
        sample_line::<N>(s) == Some((SampleView { name, labels: sorted_labels(ls), value })),
{
    let e = name.len() as int;
    assert forall|j: int| 0 <= j < e implies name_char(#[trigger] s[j]) by {
        assert(s.take(e)[j] == name[j]);
        assert(name_char(name[j]));
    }
    run_stops(s, 0, |c: char| name_char(c), e);
    assert(s.subrange(0, e) =~= name) by {
        assert(s.subrange(0, e) =~= s.take(e));
    }
    assert forall|j: int| n + 1 <= j < s.len() implies s[j] == text[j - n - 1] by {
        assert(s.skip(n + 1)[j - n - 1] == s[j]);
    }
    assert(s[n + 1] == text[0]);
    assert(!space_char(text[0]));
    run_stops(s, n, |c: char| gap_char(c), n + 1);
    assert forall|j: int| n + 1 <= j < s.len() implies !gap_char(#[trigger] s[j]) by {
        assert(!space_char(text[j - n - 1]));
    }
    run_stops(s, n + 1, |c: char| !gap_char(c), s.len() as int);
    assert(s.subrange(n + 1, s.len() as int) =~= text);
    if ls.len() == 0 {
        assert(ls =~= Seq::empty());
    }
}

/// A sample line says what was written, with braces or without: the name, the labels
/// (sorted by key) with every character of their values, and the value that the token
/// stands for.
pub proof fn exposed_is_read_back<N: Num>(
    name: Seq<char>,
    ls: Seq<(Seq<char>, Seq<char>)>,
    text: Seq<char>,
    value: N,
)
    requires
        is_name(name),
        are_labels(ls),
        is_token(text),
        prom_value::<N>(text) == Some(value),
    ensures
        sample_line::<N>(exposed(name, ls, text)) == Some(
            (SampleView { name, labels: sorted_labels(ls), value }),
        ),
        sample_line::<N>(braced(name, ls, text)) == Some(
            (SampleView { name, labels: sorted_labels(ls), value }),
        ),
        in_key_order(ls) ==> sorted_labels(ls) == ls,
{
    let e = name.len() as int;
    if in_key_order(ls) {
        sorted_labels_stay(ls);
    }
    let s = braced(name, ls, text);
    let n = e + 1 + labels_line(ls).len();
    assert(s.take(e) =~= name);
    assert(s.skip(n + 1) =~= text);
    assert(s.subrange(e + 1, n) =~= labels_line(ls));
    if ls.len() > 0 {
        labels_back(s, e + 1, ls);
        assert(exposed(name, ls, text) =~= s);
    } else {
        stands_char(s, e + 1, labels_line(ls), 0);
        run_stops(s, e + 1, |c: char| gap_char(c), e + 1);
        assert(label_list(s, e + 1) == Some((Seq::<(Seq<char>, Seq<char>)>::empty(), n)));
        assert(ls =~= Seq::empty());
        let plain = exposed(name, ls, text);
        assert(plain.take(e) =~= name);
        assert(plain.skip(e + 1) =~= text);
        value_back::<N>(plain, name, ls, e, text, value);
    }
    value_back::<N>(s, name, ls, n, text, value);
}

/// A finite number stands for itself in its own text.
pub proof fn number_is_read_back<N: Num>(v: N)
    requires
        v.is_finite_spec(),
    ensures
        is_token(v.shown_spec()),
        prom_value::<N>(v.shown_spec()) == Some(v),
{
    let t = v.shown_spec();
    N::shown_is_read_back(v);
    reveal_strlit("NaN");
    reveal_strlit("+Inf");
    reveal_strlit("Inf");
    reveal_strlit("inf");
    reveal_strlit("-Inf");
    reveal_strlit("-inf");
    assert("NaN"@[0] == 'N' && "+Inf"@[0] == '+' && "Inf"@[0] == 'I' && "inf"@[0] == 'i');
    assert("-Inf"@[1] == 'I' && "-inf"@[1] == 'i');
    assert forall|i: int| 0 <= i < t.len() implies !space_char(#[trigger] t[i]) by {}
}

/// Parsing undoes writing: a sample with labels in key order and a finite value is read
/// back as it was, whatever characters the values of its labels hold.
pub proof fn written_sample_is_read_back<N: Num>(
    name: Seq<char>,
    ls: Seq<(Seq<char>, Seq<char>)>,
    v: N,
)
    requires
        is_name(name),
        are_labels(ls),
        in_key_order(ls),
        v.is_finite_spec(),
    ensures
        sample_line::<N>(braced(name, ls, v.shown_spec())) == Some(
            (SampleView { name, labels: ls, value: v }),
        ),
        sample_line::<N>(exposed(name, ls, v.shown_spec())) == Some(
            (SampleView { name, labels: ls, value: v }),
        ),
{
    number_is_read_back(v);
    exposed_is_read_back::<N>(name, ls, v.shown_spec(), v);
}

// ---- bodies ----

proof fn run_shifts(a: Seq<char>, b: Seq<char>, i: int, p: spec_fn(char) -> bool)
    requires
        0 <= i <= b.len(),
    ensures
        run_end(a + b, a.len() + i, p) == a.len() + run_end(b, i, p),
        i <= run_end(b, i, p) <= b.len(),
    decreases b.len() - i,
{
    if i < b.len() {
        assert((a + b)[a.len() + i] == b[i]);
        if p(b[i]) {
            run_shifts(a, b, i + 1, p);
        }
    }
}

/// What is read behind `a` is what is read of `b` alone.
proof fn parsed_shifts<N: Num>(a: Seq<char>, b: Seq<char>, i: int)
    requires
        0 <= i <= b.len(),
    ensures
        parsed_from::<N>(a + b, a.len() + i) == parsed_from::<N>(b, i),
    decreases b.len() - i,
{
    if i < b.len() {
        let e = line_end(b, i);
        run_shifts(a, b, i, |c: char| c != '\n');
        assert((a + b).subrange(a.len() + i, a.len() + e) =~= b.subrange(i, e));
        if e < b.len() {
            parsed_shifts::<N>(a, b, e + 1);
        }
    }
}

/// A line of `x` ends where it does in `x` with a line feed behind it.
proof fn line_ends_alike(x: Seq<char>, y: Seq<char>, i: int)
    requires
        0 <= i <= x.len(),
    ensures
        line_end(x + seq!['\n'] + y, i) == line_end(x, i),
        i <= line_end(x, i) <= x.len(),
        line_end(x, i) < x.len() ==> x[line_end(x, i)] == '\n',
    decreases x.len() - i,
{
    let s = x + seq!['\n'] + y;
    if i < x.len() {
        assert(s[i] == x[i]);
        if x[i] != '\n' {
            line_ends_alike(x, y, i + 1);
        }
    } else {
        assert(s[i] == '\n');
    }
}

proof fn joined_from<N: Num>(x: Seq<char>, y: Seq<char>, i: int)
    requires
        0 <= i <= x.len(),
    ensures
        ({
            let (all, cut) = parsed_from::<N>(x + seq!['\n'] + y, i);
            &&& all == parsed_from::<N>(x, i).0 + parsed_from::<N>(y, 0).0
            &&& y.len() > 0 ==> cut == parsed_from::<N>(y, 0).1
        }),
    decreases x.len() - i,
{
    let s = x + seq!['\n'] + y;
    let e = line_end(x, i);
    line_ends_alike(x, y, i);
    assert(s.subrange(i, e) =~= x.subrange(i, e));
    if e < x.len() {
        joined_from::<N>(x, y, e + 1);
    } else {
        parsed_shifts::<N>(x + seq!['\n'], y, 0);
    }
    let line = trimmed_start(x.subrange(i, e));
    let rest = parsed_from::<N>(s, e + 1).0;
    if i == x.len() {
        assert(x.subrange(i, e).len() == 0);
        assert(line.len() == 0);
        assert(parsed_from::<N>(x, i).0 =~= Seq::empty());
        assert(Seq::<SampleView<N>>::empty() + rest =~= rest);
    } else {
        let tail = if e < x.len() {
            parsed_from::<N>(x, e + 1).0
        } else {
            Seq::empty()
        };
        assert(rest =~= tail + parsed_from::<N>(y, 0).0);
        if !(line.len() == 0 || line[0] == '#') {
            if let Some(v) = sample_line::<N>(line) {
                assert(seq![v] + (tail + parsed_from::<N>(y, 0).0) =~= (seq![v] + tail)
                    + parsed_from::<N>(y, 0).0);
            }
        }
    }
}

/// Two bodies with a line feed between them hold the samples of the one and then those
/// of the other; whether the whole is cut short is told by the second.
pub proof fn joined_bodies_add_up<N: Num>(x: Seq<char>, y: Seq<char>)
    ensures
        ({
            let (all, cut) = parsed_from::<N>(x + seq!['\n'] + y, 0);
            &&& all == parsed_from::<N>(x, 0).0 + parsed_from::<N>(y, 0).0
            &&& y.len() > 0 ==> cut == parsed_from::<N>(y, 0).1
        }),
{
    joined_from::<N>(x, y, 0);
}

proof fn escaped_is_one_line(v: Seq<char>)
    ensures
        !escaped(v).contains('\n'),
    decreases v.len(),
{
    if v.len() > 0 {
        let rest = escaped(v.drop_first());
        escaped_is_one_line(v.drop_first());
        assert forall|i: int| 0 <= i < escaped(v).len() implies escaped(v)[i] != '\n' by {
            if i >= escape(v[0]).len() {
                assert(rest.contains(rest[i - escape(v[0]).len()]));
            }
        }
    }
}

proof fn labels_are_one_line(ls: Seq<(Seq<char>, Seq<char>)>)
    requires
        are_labels(ls),
    ensures
        !labels_line(ls).contains('\n'),
    decreases ls.len(),
{
    if ls.len() > 0 {
        let l = ls[0];
        let first = label_line(l);
        let tail = escaped(l.1);
        escaped_is_one_line(l.1);
        assert(is_label_name(l.0));
        assert forall|i: int| 0 <= i < first.len() implies first[i] != '\n' by {
            let k = l.0.len();
            if i < k {
                assert(label_name_char(l.0[i]));
            } else if k + 2 <= i < k + 2 + tail.len() {
                assert(tail.contains(tail[i - k - 2]));
            }
        }
        let rest = ls.drop_first();
        if ls.len() > 1 {
            assert forall|j: int| 0 <= j < rest.len() implies is_label_name((#[trigger] rest[j]).0) by {
                assert(rest[j] == ls[j + 1]);
            }
            labels_are_one_line(rest);
        }
        let all = labels_line(ls);
        assert forall|i: int| 0 <= i < all.len() implies all[i] != '\n' by {
            if i < first.len() {
                assert(all[i] == first[i]);
            } else if ls.len() > 1 && i > first.len() {
                let t = labels_line(rest);
                assert(t.contains(t[i - first.len() - 1]));
            }
        }
    }
}

/// A line that is a sample is a body of that sample alone, and is not cut short.
proof fn line_is_a_body<N: Num>(s: Seq<char>, x: SampleView<N>)
    requires
        s.len() > 0,
        name_char(s[0]),
        !s.contains('\n'),
        sample_line::<N>(s) == Some(x),
    ensures
        parsed_from::<N>(s, 0) == (seq![x], false),
{
    assert forall|i: int| 0 <= i < s.len() implies #[trigger] s[i] != '\n' by {
        assert(s.contains(s[i]));
    }
    run_stops(s, 0, |c: char| c != '\n', s.len() as int);
    assert(s.subrange(0, s.len() as int) =~= s);
    assert(space_end(s, 0) == 0);
    assert(s.skip(0) =~= s);
    assert(trimmed_start(s) == s);
    assert(seq![x] + Seq::empty() =~= seq![x]);
}

/// A sample is written in one line.
proof fn sample_is_one_line(name: Seq<char>, ls: Seq<(Seq<char>, Seq<char>)>, text: Seq<char>)
    requires
        is_name(name),
        are_labels(ls),
        is_token(text),
    ensures
        !exposed(name, ls, text).contains('\n'),
        !braced(name, ls, text).contains('\n'),
        name_char(exposed(name, ls, text)[0]),
        name_char(braced(name, ls, text)[0]),
{
    labels_are_one_line(ls);
    let head = name.len();
    let t = labels_line(ls);
    assert(name_char(name[0]));
    let s = braced(name, ls, text);
    let n = head + 1 + t.len();
    assert forall|i: int| 0 <= i < s.len() implies #[trigger] s[i] != '\n' by {
        if i < head {
            assert(s[i] == name[i]);
            assert(name_char(name[i]));
        } else if i > n {
            assert(s[i] == text[i - n - 1]);
            assert(!space_char(text[i - n - 1]));
        } else if head < i < n {
            assert(s[i] == t[i - head - 1]);
            assert(t.contains(t[i - head - 1]));
        }
    }
    let s = exposed(name, ls, text);
    if ls.len() > 0 {
        assert(s =~= braced(name, ls, text));
    } else {
        assert forall|i: int| 0 <= i < s.len() implies #[trigger] s[i] != '\n' by {
            if i < head {
                assert(s[i] == name[i]);
                assert(name_char(name[i]));
            } else if i > head {
                assert(s[i] == text[i - head - 1]);
                assert(!space_char(text[i - head - 1]));
            }
        }
    }
}

/// A body of one sample line holds that sample, and is not cut short.
pub proof fn exposed_body_is_read_back<N: Num>(
    name: Seq<char>,
    ls: Seq<(Seq<char>, Seq<char>)>,
    text: Seq<char>,
    value: N,
)
    requires
        is_name(name),
        are_labels(ls),
        is_token(text),
        prom_value::<N>(text) == Some(value),
    ensures
        parsed_from::<N>(exposed(name, ls, text), 0) == (
            seq![SampleView { name, labels: sorted_labels(ls), value }],
            false,
        ),
        parsed_from::<N>(braced(name, ls, text), 0) == (
            seq![SampleView { name, labels: sorted_labels(ls), value }],
            false,
        ),
{
    let x = SampleView { name, labels: sorted_labels(ls), value };
    exposed_is_read_back::<N>(name, ls, text, value);
    sample_is_one_line(name, ls, text);
    line_is_a_body::<N>(exposed(name, ls, text), x);
    line_is_a_body::<N>(braced(name, ls, text), x);
}

}
