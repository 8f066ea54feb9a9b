//! How the poller paces itself, and what the server says of itself.
use crate::model::snapshot::{Connection, ServerMeta};
use crate::num::Num;
use crate::poll::info::{field, meta_read, FieldsView, ScalarView};
use crate::poll::prom::SampleView;
use crate::poll::{collapses_ranks, paced, pause_reason, rung, served_model, signed_ms, slipped,
    BACKOFF_MS};
use vstd::prelude::*;

verus! {

// ---- failures ----

/// How long the poller waits after the failure that finds the ladder at step `i`.
pub open spec fn wait_at(i: usize) -> u64 {
    BACKOFF_MS@[rung(i)]
}

/// The step after a failure.
pub open spec fn step_after(i: usize) -> usize {
    if i < 4 {
        (i + 1) as usize
    } else {
        4
    }
}

/// The first wait is a second; each further failure doubles it, up to fifteen seconds.
pub proof fn waits_double(i: usize)
    ensures
        wait_at(0) == 1000,
        wait_at(step_after(i)) == if 2 * wait_at(i) > 15000 {
            15000
        } else {
            2 * wait_at(i)
        },
{
    if i == 0 {
    } else if i == 1 {
    } else if i == 2 {
    } else if i == 3 {
    }
}

/// The first failure degrades a live connection, the fourth in a row loses it; between them
/// it stays degraded since the first.
pub proof fn connection_slips_in_steps(
    c: Connection,
    was: Connection,
    n: u32,
    now: u64,
    err: Seq<char>,
)
    requires
        slipped(c, was, n, now, err),
    ensures
        n >= 4 ==> c is Lost && c->Lost_last_err@ == err,
        n >= 4 && (was is Live || was is Pending) ==> c->Lost_since == now,
        n >= 4 && was is Degraded ==> c->Lost_since == was->Degraded_since,
        n >= 4 && was is Lost ==> c->Lost_since == was->Lost_since,
        1 <= n < 4 && !(was is Degraded) ==> {
            &&& c is Degraded
            &&& c->Degraded_since == now
            &&& c->consecutive == n
            &&& c->Degraded_last_err@ == err
        },
        1 <= n < 4 && was is Degraded ==> c == was,
{
}

// ---- the interval ----

/// Within its range the interval changes by what is asked, and the opposite change undoes
/// it; at the ends of the range it stays.
pub proof fn interval_steps(v: u64, d: int)
    requires
        100 <= v <= 10_000,
    ensures
        signed_ms(v) == v,
        100 <= v + d <= 10_000 ==> paced(v + d) == v + d && paced(paced(v + d) - d) == v,
        v + d < 100 ==> paced(v + d) == 100,
        v + d > 10_000 ==> paced(v + d) == 10_000,
{
}

// ---- what the server says ----

/// Whether `f[i]` is the first field called `key`.
pub open spec fn is_field(f: FieldsView, key: Seq<char>, i: int) -> bool {
    &&& 0 <= i < f.len()
    &&& f[i].0 == key
    &&& forall|j: int| 0 <= j < i ==> (#[trigger] f[j]).0 != key
}

/// Whether no field is called `key`.
pub open spec fn lacks(f: FieldsView, key: Seq<char>) -> bool {
    forall|j: int| 0 <= j < f.len() ==> (#[trigger] f[j]).0 != key
}

proof fn field_is_first(f: FieldsView, key: Seq<char>)
    ensures
        forall|i: int| #[trigger] is_field(f, key, i) ==> field(f, key) == Some(f[i].1),
        lacks(f, key) ==> field(f, key) is None,
    decreases f.len(),
{
    if f.len() > 0 {
        let d = f.drop_first();
        field_is_first(d, key);
        assert forall|i: int| #[trigger] is_field(f, key, i) implies field(f, key) == Some(f[i].1) by {
            if i > 0 {
                assert(f[0].0 != key);
                assert(d[i - 1] == f[i]);
                assert forall|j: int| 0 <= j < i - 1 implies (#[trigger] d[j]).0 != key by {
                    assert(d[j] == f[j + 1]);
                }
                assert(is_field(d, key, i - 1));
            }
        }
        if lacks(f, key) {
            assert(f[0].0 != key);
            assert forall|j: int| 0 <= j < d.len() implies (#[trigger] d[j]).0 != key by {
                assert(d[j] == f[j + 1]);
            }
        }
    }
}

/// Whether a text is that of the field; empty without one.
pub open spec fn tells_text(v: Seq<char>, f: FieldsView, key: Seq<char>) -> bool {
    &&& forall|i: int| #[trigger]
        is_field(f, key, i) ==> (f[i].1 matches ScalarView::Text(t) ==> v == t)
    &&& lacks(f, key) ==> v.len() == 0
}

/// Whether a flag is that of the field; off without one.
pub open spec fn tells_flag(v: bool, f: FieldsView, key: Seq<char>) -> bool {
    &&& forall|i: int| #[trigger]
        is_field(f, key, i) ==> (f[i].1 matches ScalarView::Flag(t) ==> v == t)
    &&& lacks(f, key) ==> !v
}

/// Whether a size is that of the field; nought without one.
pub open spec fn tells_size(v: u32, f: FieldsView, key: Seq<char>) -> bool {
    &&& forall|i: int| #[trigger]
        is_field(f, key, i) ==> (f[i].1 matches ScalarView::Count(t) ==> t <= u32::MAX ==> v
            == t)
    &&& lacks(f, key) ==> v == 0
}

/// Each fact of the server's metadata is read from its own field.
pub proof fn metadata_is_read_from_its_fields<N: Num>(
    m: ServerMeta<N>,
    model: FieldsView,
    server: FieldsView,
)
    requires
        meta_read(m, model, server),
    ensures
        tells_text(m.model_path@, model, "model_path"@),
        tells_text(m.served_model_name@, model, "served_model_name"@),
        tells_text(m.version@, server, "version"@),
        tells_text(m.disaggregation_mode@, server, "disaggregation_mode"@),
        tells_size(m.tp_size, server, "tp_size"@),
        tells_size(m.pp_size, server, "pp_size"@),
        tells_size(m.dp_size, server, "dp_size"@),
        tells_flag(m.enable_dp_attention, server, "enable_dp_attention"@),
        tells_flag(
            m.enable_metrics_for_all_schedulers,
            server,
            "enable_metrics_for_all_schedulers"@,
        ),
        tells_flag(m.enable_hierarchical_cache, server, "enable_hierarchical_cache"@),
        forall|i: int| #[trigger]
            is_field(server, "context_length"@, i) ==> (server[i].1 matches ScalarView::Count(n)
                ==> m.context_len == Some(n)),
        lacks(server, "context_length"@) ==> m.context_len is None,
        m.loaded,
{
    reveal_strlit("");
    field_is_first(model, "model_path"@);
    field_is_first(model, "served_model_name"@);
    field_is_first(server, "version"@);
    field_is_first(server, "disaggregation_mode"@);
    field_is_first(server, "tp_size"@);
    field_is_first(server, "pp_size"@);
    field_is_first(server, "dp_size"@);
    field_is_first(server, "enable_dp_attention"@);
    field_is_first(server, "enable_metrics_for_all_schedulers"@);
    field_is_first(server, "enable_hierarchical_cache"@);
    field_is_first(server, "context_length"@);
}

/// Ranks are told apart unless a loaded server attends by data parallelism and exposes the
/// metrics of one scheduler only.
pub proof fn ranks_collapse_without_all_schedulers<N>(s: ServerMeta<N>)
    ensures
        collapses_ranks(s) <==> s.loaded && s.enable_dp_attention
            && !s.enable_metrics_for_all_schedulers,
{
}

/// The reason of a pause is that of the first sample of paused requests that counts any.
pub proof fn pause_reason_is_the_first<N: Num>(m: Seq<SampleView<N>>, i: int)
    requires
        0 <= i < m.len(),
        m[i].name == "sglang:num_paused_reqs"@,
        N::zero_spec().less_spec(m[i].value),
        m[i].label("pause_reason"@) is Some,
        forall|j: int| 0 <= j < i ==> (#[trigger] m[j]).name != "sglang:num_paused_reqs"@,
    ensures
        pause_reason(m) == m[i].label("pause_reason"@),
    decreases i,
{
    if i > 0 {
        let d = m.drop_first();
        assert(d[i - 1] == m[i]);
        assert(m[0].name != "sglang:num_paused_reqs"@);
        assert forall|j: int| 0 <= j < i - 1 implies (#[trigger] d[j]).name
            != "sglang:num_paused_reqs"@ by {
            assert(d[j] == m[j + 1]);
        }
        pause_reason_is_the_first(d, i - 1);
    }
}

/// A scrape without paused requests shows no pause.
pub proof fn no_pause_without_paused_requests<N: Num>(m: Seq<SampleView<N>>)
    requires
        forall|j: int|
            0 <= j < m.len() ==> (#[trigger] m[j]).name != "sglang:num_paused_reqs"@
                || !N::zero_spec().less_spec(m[j].value),
    ensures
        pause_reason(m) is None,
    decreases m.len(),
{
    if m.len() > 0 {
        let d = m.drop_first();
        assert(m[0].name != "sglang:num_paused_reqs"@ || !N::zero_spec().less_spec(m[0].value));
        assert forall|j: int| 0 <= j < d.len() implies (#[trigger] d[j]).name
            != "sglang:num_paused_reqs"@ || !N::zero_spec().less_spec(d[j].value) by {
            assert(d[j] == m[j + 1]);
        }
        no_pause_without_paused_requests(d);
    }
}

/// The model that is served is the one that the first sample with a model names.
pub proof fn served_model_is_the_first<N>(m: Seq<SampleView<N>>, i: int)
    requires
        0 <= i < m.len(),
        m[i].label("model_name"@) is Some,
        forall|j: int| 0 <= j < i ==> (#[trigger] m[j]).label("model_name"@) is None,
    ensures
        served_model(m) == m[i].label("model_name"@)->0,
    decreases i,
{
    if i > 0 {
        let d = m.drop_first();
        assert(d[i - 1] == m[i]);
        assert(m[0].label("model_name"@) is None);
        assert forall|j: int| 0 <= j < i - 1 implies (#[trigger] d[j]).label("model_name"@) is None by {
            assert(d[j] == m[j + 1]);
        }
        served_model_is_the_first(d, i - 1);
    }
}

}
