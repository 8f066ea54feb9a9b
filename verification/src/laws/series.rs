//! What the samples of a histogram tell.
use crate::num::Num;
use crate::poll::history::grouped_once;
use crate::poll::prom::SampleView;
use crate::poll::quantile::{alive, base_of, group_ids, grouped, is_family, is_mean_only, part_of, place,
    place_misses, pruned, subject_key_of, EntryView, Kind, Part, ScrapedView, FAMILIES, MEAN_ONLY};
use crate::text::has_suffix;
use vstd::prelude::*;

verus! {

/// Whether the percentiles of a histogram are shown.
pub open spec fn shows_percentiles(base: Seq<char>) -> bool {
    ||| base == "sglang:queue_time_seconds"@
    ||| base == "sglang:time_to_first_token_seconds"@
    ||| base == "sglang:inter_token_latency_seconds"@
    ||| base == "sglang:e2e_request_latency_seconds"@
}

/// Whether the mean alone of a histogram is shown.
pub open spec fn shows_the_mean(base: Seq<char>) -> bool {
    ||| base == "sglang:prompt_tokens_histogram"@
    ||| base == "sglang:generation_tokens_histogram"@
    ||| base == "sglang:uncached_prompt_tokens_histogram"@
}

/// A series of which nothing was told.
pub open spec fn untold<N>() -> ScrapedView<N> {
    ScrapedView { buckets: Seq::empty(), sum: None, count: None }
}

/// Whether `said` is what the samples tell of the series `id`.
pub open spec fn tells<N: Num>(
    m: Seq<SampleView<N>>,
    id: (Seq<char>, Seq<char>),
    said: ScrapedView<N>,
) -> bool {
    if exists|i: int| 0 <= i < grouped(m).len() && (#[trigger] grouped(m)[i]).id == id {
        exists|i: int|
            0 <= i < grouped(m).len() && (#[trigger] grouped(m)[i]).id == id && grouped(m)[i].said
                == said
    } else {
        said == untold::<N>()
    }
}

proof fn shown_histograms_are_tracked(base: Seq<char>)
    ensures
        is_family(base) == shows_percentiles(base),
        is_mean_only(base) == shows_the_mean(base),
        !(is_family(base) && is_mean_only(base)),
{
    reveal_strlit("sglang:queue_time_seconds");
    reveal_strlit("sglang:time_to_first_token_seconds");
    reveal_strlit("sglang:inter_token_latency_seconds");
    reveal_strlit("sglang:e2e_request_latency_seconds");
    reveal_strlit("sglang:prompt_tokens_histogram");
    reveal_strlit("sglang:generation_tokens_histogram");
    reveal_strlit("sglang:uncached_prompt_tokens_histogram");
    assert(FAMILIES@[0]@ == "sglang:queue_time_seconds"@);
    assert(FAMILIES@[1]@ == "sglang:time_to_first_token_seconds"@);
    assert(FAMILIES@[2]@ == "sglang:inter_token_latency_seconds"@);
    assert(FAMILIES@[3]@ == "sglang:e2e_request_latency_seconds"@);
    assert(MEAN_ONLY@[0]@ == "sglang:prompt_tokens_histogram"@);
    assert(MEAN_ONLY@[1]@ == "sglang:generation_tokens_histogram"@);
    assert(MEAN_ONLY@[2]@ == "sglang:uncached_prompt_tokens_histogram"@);
    if shows_percentiles(base) && shows_the_mean(base) {
        assert(base[7] == 'q' || base[7] == 't' || base[7] == 'i' || base[7] == 'e');
        assert(base[7] == 'p' || base[7] == 'g' || base[7] == 'u');
    }
}

/// A suffix is split off; what a name ends in tells which of three it is.
proof fn suffixes_are_split_off(base: Seq<char>)
    ensures
        base_of(base + "_bucket"@) == Some((base, Kind::Bucket)),
        base_of(base + "_sum"@) == Some((base, Kind::Sum)),
        base_of(base + "_count"@) == Some((base, Kind::Count)),
{
    reveal_strlit("_bucket");
    reveal_strlit("_sum");
    reveal_strlit("_count");
    let (b, s, c) = (base + "_bucket"@, base + "_sum"@, base + "_count"@);
    assert(b.skip(b.len() - 7) =~= "_bucket"@ && b.take(b.len() - 7) =~= base);
    assert(s.skip(s.len() - 4) =~= "_sum"@ && s.take(s.len() - 4) =~= base);
    assert(c.skip(c.len() - 6) =~= "_count"@ && c.take(c.len() - 6) =~= base);
    assert(!has_suffix(s, "_bucket"@)) by {
        if has_suffix(s, "_bucket"@) {
            assert(s.skip(s.len() - 7)[6] == 't');
            assert(s[s.len() - 1] == 'm');
        }
    }
    assert(!has_suffix(c, "_bucket"@)) by {
        if has_suffix(c, "_bucket"@) {
            assert(c.skip(c.len() - 7)[5] == 'e');
            assert(c[c.len() - 2] == 'n');
        }
    }
    assert(!has_suffix(c, "_sum"@)) by {
        if has_suffix(c, "_sum"@) {
            assert(c.skip(c.len() - 4)[3] == 'm');
            assert(c[c.len() - 1] == 't');
        }
    }
}

/// One more part reaches the series that it is of, and no other.
proof fn part_reaches_its_series<N: Num>(
    m: Seq<SampleView<N>>,
    x: SampleView<N>,
    id: (Seq<char>, Seq<char>),
    said: ScrapedView<N>,
    p: Part<N>,
    to: (Seq<char>, Seq<char>),
)
    requires
        tells(m, id, said),
        part_of(x) == Some((to, p)),
    ensures
        id != to ==> tells(m.push(x), id, said),
        id == to ==> tells(
            m.push(x),
            id,
            match p {
                Part::Nothing => said,
                Part::Bucket(le, v) => ScrapedView { buckets: said.buckets.push((le, v)), ..said },
                Part::Sum(v) => ScrapedView { sum: Some(v), ..said },
                Part::Count(v) => ScrapedView { count: Some(v), ..said },
            },
        ),
{
    assert(m.push(x).drop_last() =~= m);
    let (before, after) = (grouped(m), grouped(m.push(x)));
    grouped_once(m);
    grouped_once(m.push(x));
    let ids = group_ids(before);
    place_misses(ids, to);
    let at = place(ids, to);
    assert forall|i: int| 0 <= i < before.len() implies ids[i] == #[trigger] before[i].id by {}
    assert forall|i: int, j: int|
        0 <= i < before.len() && 0 <= j < before.len() && before[i].id == before[j].id implies i
        == j by {
        assert(ids[i] == ids[j]);
    }
    if id == to {
        if at < 0 {
            assert forall|i: int| 0 <= i < before.len() implies (#[trigger] before[i]).id != to by {
                assert(ids[i] != to);
            }
            assert(after[before.len() as int].id == id);
        } else {
            assert(before[at].id == id);
            assert(after[at].id == id);
        }
    } else {
        if exists|i: int| 0 <= i < before.len() && (#[trigger] before[i]).id == id {
            let i = choose|i: int|
                0 <= i < before.len() && (#[trigger] before[i]).id == id && before[i].said == said;
            assert(after[i] == before[i]);
        } else {
            assert forall|i: int| 0 <= i < after.len() implies (#[trigger] after[i]).id != id by {
                if i < before.len() {
                    assert(before[i].id != id);
                }
            }
        }
    }
}

/// A sample of a shown histogram is told of the series of its base and its labels: one
/// whose name ends in `_sum` is the sum, in `_count` the count, in `_bucket` one more bucket
/// up to what its `le` says. It tells nothing of any other series.
pub proof fn samples_are_told_of_their_series<N: Num>(
    m: Seq<SampleView<N>>,
    x: SampleView<N>,
    base: Seq<char>,
    id: (Seq<char>, Seq<char>),
    said: ScrapedView<N>,
    le: N,
)
    requires
        shows_percentiles(base) || shows_the_mean(base),
        x.value.is_finite_spec(),
        !x.value.less_spec(N::zero_spec()),
        tells(m, id, said),
    ensures
        ({
            let own = id == (base, subject_key_of(x.labels));
            &&& x.name == base + "_sum"@ ==> tells(
                m.push(x),
                id,
                if own {
                    ScrapedView { sum: Some(x.value), ..said }
                } else {
                    said
                },
            )
            &&& x.name == base + "_count"@ ==> tells(
                m.push(x),
                id,
                if own {
                    ScrapedView { count: Some(x.value), ..said }
                } else {
                    said
                },
            )
            &&& x.name == base + "_bucket"@ && x.label("le"@) == Some("+Inf"@) ==> tells(
                m.push(x),
                id,
                if own && shows_percentiles(base) {
                    ScrapedView { buckets: said.buckets.push((N::infinity_spec(), x.value)), ..said }
                } else {
                    said
                },
            )
            &&& x.name == base + "_bucket"@ && x.label("le"@) is Some && x.label("le"@)->0 != "+Inf"@
                && N::read_spec(x.label("le"@)->0) == Some(le) && le.is_finite_spec() ==> tells(
                m.push(x),
                id,
                if own && shows_percentiles(base) {
                    ScrapedView { buckets: said.buckets.push((le, x.value)), ..said }
                } else {
                    said
                },
            )
        }),
{
    suffixes_are_split_off(base);
    shown_histograms_are_tracked(base);
    if let Some((to, p)) = part_of(x) {
        part_reaches_its_series(m, x, id, said, p, to);
    }
}

/// A sample below nought, one that is no finite number, and one of no shown histogram tell
/// nothing.
pub proof fn odd_samples_tell_nothing<N: Num>(
    m: Seq<SampleView<N>>,
    x: SampleView<N>,
    base: Seq<char>,
    id: (Seq<char>, Seq<char>),
    said: ScrapedView<N>,
)
    requires
        x.name == base + "_sum"@ || x.name == base + "_count"@ || x.name == base + "_bucket"@,
        !x.value.is_finite_spec() || x.value.less_spec(N::zero_spec()) || !(shows_percentiles(base)
            || shows_the_mean(base)),
        tells(m, id, said),
    ensures
        tells(m.push(x), id, said),
{
    suffixes_are_split_off(base);
    shown_histograms_are_tracked(base);
    assert(m.push(x).drop_last() =~= m);
    assert(grouped(m.push(x)) == grouped(m));
}

/// What was gathered of a series outlasts a scrape as long as the scrape has a bucket of it, or
/// a count where the mean alone is shown, and is forgotten once it has none.
pub proof fn vanished_series_are_forgotten<N: Num>(
    s: Seq<EntryView<N>>,
    m: Seq<SampleView<N>>,
    e: EntryView<N>,
)
    requires
        s.contains(e),
    ensures
        pruned(s, m).contains(e) <==> exists|i: int|
            0 <= i < m.len() && subject_key_of((#[trigger] m[i]).labels) == e.id.1 && ((
            shows_percentiles(e.id.0) && m[i].name == e.id.0 + "_bucket"@) || (shows_the_mean(
                e.id.0,
            ) && m[i].name == e.id.0 + "_count"@)),
{
    assert forall|q: spec_fn(EntryView<N>) -> bool| #[trigger]
        s.filter(q).contains(e) == q(e) by {
        let at = s.index_of(e);
        assert(s[at] == e);
        if s.filter(q).contains(e) {
            let i = s.filter(q).index_of(e);
            assert(s.filter(q)[i] == e);
        }
    }
    let base = e.id.0;
    suffixes_are_split_off(base);
    shown_histograms_are_tracked(base);
    assert(pruned(s, m).contains(e) == alive(m, e.id));
    if alive(m, e.id) {
        let i = choose|i: int|
            0 <= i < m.len() && subject_key_of((#[trigger] m[i]).labels) == e.id.1 && (
            match base_of(m[i].name) {
                Some((b, Kind::Bucket)) => b == base && is_family(b),
                Some((b, Kind::Count)) => b == base && is_mean_only(b),
                _ => false,
            });
        let name = m[i].name;
        assert(has_suffix(name, "_bucket"@) ==> name =~= name.take(name.len() - "_bucket"@.len())
            + "_bucket"@) by {
            if has_suffix(name, "_bucket"@) {
                assert(name =~= name.take(name.len() - "_bucket"@.len()) + name.skip(
                    name.len() - "_bucket"@.len(),
                ));
            }
        }
        assert(has_suffix(name, "_count"@) ==> name =~= name.take(name.len() - "_count"@.len())
            + "_count"@) by {
            if has_suffix(name, "_count"@) {
                assert(name =~= name.take(name.len() - "_count"@.len()) + name.skip(
                    name.len() - "_count"@.len(),
                ));
            }
        }
        assert(subject_key_of(m[i].labels) == e.id.1);
    }
}

/// Series are told apart by their labels but `le`: each other label counts with its value.
pub proof fn edges_do_not_tell_series_apart(
    labels: Seq<(Seq<char>, Seq<char>)>,
    more: (Seq<char>, Seq<char>),
)
    ensures
        more.0 == "le"@ ==> subject_key_of(labels.push(more)) == subject_key_of(labels),
        more.0 != "le"@ ==> subject_key_of(labels.push(more)) == subject_key_of(labels) + more.0
            + seq!['='] + more.1 + seq![','],
        subject_key_of(Seq::empty()) == Seq::<char>::empty(),
{
    assert(labels.push(more).drop_last() =~= labels);
    if more.0 != "le"@ {
        let head = subject_key_of(labels);
        assert((head + more.0).push('=') + more.1.push(',') =~= head + more.0 + seq!['='] + more.1
            + seq![',']);
    }
}

} // verus!
