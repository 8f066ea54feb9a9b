//! What a scrape says of each panel.
use crate::model::hist::{newest, Ring};
use crate::model::snapshot::{EnginePanel, HiCache, KvPanel, ServerMeta};
use crate::num::{or_zero, unit, unit_spec, value_or_zero, Num};
use crate::poll::flow::{Flow, FlowView};
use crate::poll::prom::{named, refs_view, Metrics, Sample, SampleView};
use crate::poll::read::{across_ranks, choose_samples, chosen, count_if_present, count_if_there,
    count_of, count_samples, counted, first_val, hist_mean, is_present, largest, max_val, mean_of,
    present, read_count, read_first, sum_across_ranks, sum_if_present, sum_if_there, sum_of,
    sum_samples};
use crate::text::{contains, has_infix, has_prefix, starts_with};
use vstd::prelude::*;
use vstd::string::*;

verus! {

/// The history `new` is `old` with one more sample.
pub open spec fn grown<N>(new: Ring<N>, old: Ring<N>, v: N) -> bool {
    new.cap() == old.cap() && new@ == newest(old@.push(v), old.cap())
}

// ---- engine ----

/// Whether the sample counts decode passes.
pub open spec fn decode_pass<N>(x: SampleView<N>) -> bool {
    x.label("mode"@) matches Some(mode) && has_prefix(mode, "decode"@)
}

/// Whether the sample counts decode passes executed under a graph.
pub open spec fn graph_pass<N>(x: SampleView<N>) -> bool {
    decode_pass(x) && has_infix(x.label("mode"@)->0, "cuda_graph"@)
}

/// Decode passes executed under a graph over all decode passes, cumulative: the
/// honest long-run coverage.
pub open spec fn graph_share<N: Num>(m: Seq<SampleView<N>>) -> Option<N> {
    let name = "sglang:cuda_graph_passes_total"@;
    let all = sum_of(chosen(m, name, |x: SampleView<N>| decode_pass(x)));
    let graph = sum_of(chosen(m, name, |x: SampleView<N>| graph_pass(x)));
    if N::zero_spec().less_spec(all) {
        Some(unit_spec(graph.over_spec(all)))
    } else {
        None
    }
}

fn is_decode_pass<N>(x: &Sample<N>) -> (r: bool)
    ensures
        r == decode_pass(x@),
{
    match x.label("mode") {
        Some(mode) => starts_with(mode, "decode"),
        None => false,
    }
}

fn is_graph_pass<N>(x: &Sample<N>) -> (r: bool)
    ensures
        r == graph_pass(x@),
{
    match x.label("mode") {
        Some(mode) => starts_with(mode, "decode") && contains(mode, "cuda_graph"),
        None => false,
    }
}

fn read_graph_share<N: Num>(m: &Metrics<N>) -> (r: Option<N>)
    ensures
        r == graph_share(m@),
{
    let name = "sglang:cuda_graph_passes_total";
    let ghost p = |x: SampleView<N>| decode_pass(x);
    let decode = |x: &Sample<N>| -> (b: bool)
        ensures
            b == p(x@),
    {
        is_decode_pass(x)
    };
    let ghost q = |x: SampleView<N>| graph_pass(x);
    let graph = |x: &Sample<N>| -> (b: bool)
        ensures
            b == q(x@),
    {
        is_graph_pass(x)
    };
    let all = sum_samples(&choose_samples(m, name, decode, Ghost(p)));
    let under = sum_samples(&choose_samples(m, name, graph, Ghost(q)));
    if N::zero().less(all) {
        Some(unit(under.over(all)))
    } else {
        None
    }
}

/// The engine panel after a scrape.
pub open spec fn engine_built<N: Num>(
    e: EnginePanel<N>,
    was: EnginePanel<N>,
    m: Seq<SampleView<N>>,
    f: FlowView<N>,
) -> bool {
    &&& e.gen_throughput == across_ranks(m, "sglang:gen_throughput"@, false)
    &&& grown(e.gen_series, was.gen_series, e.gen_throughput)
    &&& e.prefill_tps == f.prefill
    &&& grown(e.prefill_series, was.prefill_series, or_zero(f.prefill))
    &&& e.decode_tps == f.decode
    &&& grown(e.token_rate_series, was.token_rate_series, or_zero(f.decode))
    &&& e.utilization == first_val(m, "sglang:utilization"@)
    &&& e.fwd_occupancy == first_val(m, "sglang:fwd_occupancy"@)
    &&& e.running_reqs == count_of(m, "sglang:num_running_reqs"@)
    &&& e.waiting_reqs == count_of(m, "sglang:num_queue_reqs"@)
    &&& e.tokenizer_cores == f.tokenizer
    &&& e.detokenizer_cores == f.detokenizer
    &&& e.cg_decode_share == graph_share(m)
    &&& e.decode_ctx_sum == sum_if_there(m, "sglang:decode_sum_seq_lens"@)
    &&& e.new_token_ratio == first_val(m, "sglang:new_token_ratio"@)
}

/// Folds a scrape into the engine panel.
pub fn build_engine<N: Num>(m: &Metrics<N>, f: &Flow<N>, e: &mut EnginePanel<N>)
    ensures
        engine_built(*final(e), *old(e), m@, f@),
{
    e.gen_throughput = sum_across_ranks(m, "sglang:gen_throughput", false);
    e.gen_series.push(e.gen_throughput);
    e.prefill_tps = f.prefill;
    e.prefill_series.push(value_or_zero(f.prefill));
    e.decode_tps = f.decode;
    e.token_rate_series.push(value_or_zero(f.decode));
    e.utilization = read_first(m, "sglang:utilization");
    e.fwd_occupancy = read_first(m, "sglang:fwd_occupancy");
    // Queue totals: the per-scheduler rank-scoped series, or the aggregate-only
    // series when ranks aren't attributed.
    e.running_reqs = read_count(m, "sglang:num_running_reqs");
    e.waiting_reqs = read_count(m, "sglang:num_queue_reqs");
    // Rate of cpu seconds: cores in use right now.
    e.tokenizer_cores = f.tokenizer;
    e.detokenizer_cores = f.detokenizer;
    e.cg_decode_share = read_graph_share(m);
    e.decode_ctx_sum = sum_if_present(m, "sglang:decode_sum_seq_lens");
    e.new_token_ratio = read_first(m, "sglang:new_token_ratio");
}

// ---- token pool ----

/// Bytes a second while transferring, where there was a transfer.
pub open spec fn bandwidth<N: Num>(bytes: Option<N>, secs: Option<N>) -> Option<N> {
    match (bytes, secs) {
        (Some(b), Some(s)) => if N::zero_spec().less_spec(s) {
            Some(b.over_spec(s))
        } else {
            None
        },
        _ => None,
    }
}

fn read_bandwidth<N: Num>(bytes: Option<N>, secs: Option<N>) -> (r: Option<N>)
    ensures
        r == bandwidth(bytes, secs),
{
    match (bytes, secs) {
        (Some(b), Some(s)) => if N::zero().less(s) {
            Some(b.over(s))
        } else {
            None
        },
        _ => None,
    }
}

/// The host tier after a scrape that shows it.
pub open spec fn hicache_built<N: Num>(
    h: HiCache<N>,
    was: Option<HiCache<N>>,
    m: Seq<SampleView<N>>,
    f: FlowView<N>,
) -> bool {
    &&& h.host_used == count_of(m, "sglang:hicache_host_used_tokens"@)
    &&& h.host_total == count_of(m, "sglang:hicache_host_total_tokens"@)
    &&& h.backuped_total == count_if_there(m, "sglang:hicache_backup_tokens_total"@)
    &&& h.dropped_total == count_if_there(m, "sglang:hicache_dropped_tokens_total"@)
    &&& h.load_back_total == count_if_there(m, "sglang:load_back_tokens_total"@)
    &&& h.backup_mean_secs == mean_of(
        m,
        "sglang:hicache_backup_duration_seconds_count"@,
        "sglang:hicache_backup_duration_seconds_sum"@,
    )
    &&& h.load_back_mean_secs == mean_of(
        m,
        "sglang:load_back_duration_seconds_count"@,
        "sglang:load_back_duration_seconds_sum"@,
    )
    &&& h.backup_gbps == bandwidth(f.backup_bytes, f.backup_secs)
    &&& h.load_back_gbps == (match was {
        Some(w) => w.load_back_gbps,
        None => None,
    })
    &&& h.prefetch_failed_total == count_if_there(
        m,
        "sglang:hicache_prefetch_aux_alloc_failed_tokens_total"@,
    )
    &&& h.storage_backuped_total == count_if_there(m, "sglang:backuped_tokens_total"@)
    &&& h.storage_prefetched_total == count_if_there(m, "sglang:prefetched_tokens_total"@)
}

/// Folds a scrape into the host tier.
fn build_hicache<N: Num>(m: &Metrics<N>, f: &Flow<N>, was: Option<HiCache<N>>) -> (r: HiCache<N>)
    ensures
        hicache_built(r, was, m@, f@),
{
    let load_back_gbps = match was {
        Some(w) => w.load_back_gbps,
        None => None,
    };
    HiCache {
        host_used: read_count(m, "sglang:hicache_host_used_tokens"),
        host_total: read_count(m, "sglang:hicache_host_total_tokens"),
        // Eviction destination split: backed up to host (recoverable) or destroyed.
        backuped_total: count_if_present(m, "sglang:hicache_backup_tokens_total"),
        dropped_total: count_if_present(m, "sglang:hicache_dropped_tokens_total"),
        // Backups that were actually re-used.
        load_back_total: count_if_present(m, "sglang:load_back_tokens_total"),
        backup_mean_secs: hist_mean(
            m,
            "sglang:hicache_backup_duration_seconds_count",
            "sglang:hicache_backup_duration_seconds_sum",
        ),
        load_back_mean_secs: hist_mean(
            m,
            "sglang:load_back_duration_seconds_count",
            "sglang:load_back_duration_seconds_sum",
        ),
        backup_gbps: read_bandwidth(f.backup_bytes, f.backup_secs),
        load_back_gbps,
        prefetch_failed_total: count_if_present(
            m,
            "sglang:hicache_prefetch_aux_alloc_failed_tokens_total",
        ),
        storage_backuped_total: count_if_present(m, "sglang:backuped_tokens_total"),
        storage_prefetched_total: count_if_present(m, "sglang:prefetched_tokens_total"),
    }
}

/// The lifetime count of a counter, where it appears at all.
pub open spec fn lifetime<N: Num>(m: Seq<SampleView<N>>, name: Seq<char>) -> Option<u64> {
    if present(m, name) {
        Some(counted(named(m, name)))
    } else {
        None
    }
}

/// The token pool panel after a scrape.
pub open spec fn kv_built<N: Num>(
    k: KvPanel<N>,
    was: KvPanel<N>,
    m: Seq<SampleView<N>>,
    f: FlowView<N>,
) -> bool {
    &&& k.used_tokens == count_of(m, "sglang:num_used_tokens"@)
    &&& k.total_tokens == count_of(m, "sglang:max_total_num_tokens"@)
    &&& k.token_usage == largest(m, "sglang:token_usage"@)
    &&& k.full_token_usage == first_val(m, "sglang:full_token_usage"@)
    &&& k.swa_token_usage == first_val(m, "sglang:swa_token_usage"@)
    &&& k.mamba_usage == first_val(m, "sglang:mamba_usage"@)
    &&& k.swa_used == count_if_there(m, "sglang:swa_used_tokens"@)
    &&& k.mamba_used == count_if_there(m, "sglang:mamba_used_tokens"@)
    &&& k.swa_available == was.swa_available
    &&& k.mamba_available == was.mamba_available
    &&& k.swa_evictable == was.swa_evictable
    &&& k.mamba_evictable == was.mamba_evictable
    &&& k.available_tokens == count_if_there(m, "sglang:kv_available_tokens"@)
    &&& k.evictable_tokens == count_if_there(m, "sglang:kv_evictable_tokens"@)
    &&& k.evicted_total == lifetime(m, "sglang:evicted_tokens_total"@)
    &&& k.evicted_tps == f.evicted
    &&& k.evict_pass_mean_secs == mean_of(
        m,
        "sglang:eviction_duration_seconds_count"@,
        "sglang:eviction_duration_seconds_sum"@,
    )
    &&& k.cache_hit_rate == or_zero(first_val(m, "sglang:cache_hit_rate"@))
    &&& grown(k.cache_hit_series, was.cache_hit_series, k.cache_hit_rate)
    &&& k.weight_gb == sum_if_there(m, "sglang:weight_memory_usage_gb"@)
    &&& k.kv_cache_gb == sum_if_there(m, "sglang:kv_cache_memory_usage_gb"@)
    &&& k.graph_gb == sum_if_there(m, "sglang:graph_memory_usage_gb"@)
    &&& if present(m, "sglang:hicache_host_total_tokens"@) {
        k.hicache matches Some(h) && hicache_built(h, was.hicache, m, f)
    } else {
        k.hicache is None
    }
}

/// Folds a scrape into the token pool panel.
pub fn build_kv<N: Num>(m: &Metrics<N>, f: &Flow<N>, k: &mut KvPanel<N>)
    ensures
        kv_built(*final(k), *old(k), m@, f@),
{
    k.used_tokens = read_count(m, "sglang:num_used_tokens");
    k.total_tokens = read_count(m, "sglang:max_total_num_tokens");
    // Each rank reports its bottleneck; the aggregate over ranks is the largest.
    k.token_usage = max_val(m, "sglang:token_usage");
    k.full_token_usage = read_first(m, "sglang:full_token_usage");
    k.swa_token_usage = read_first(m, "sglang:swa_token_usage");
    k.mamba_usage = read_first(m, "sglang:mamba_usage");
    k.swa_used = count_if_present(m, "sglang:swa_used_tokens");
    k.mamba_used = count_if_present(m, "sglang:mamba_used_tokens");
    k.available_tokens = count_if_present(m, "sglang:kv_available_tokens");
    k.evictable_tokens = count_if_present(m, "sglang:kv_evictable_tokens");
    // Lifetime eviction pressure: how many device slots have *ever* been freed.
    let evicted = m.get("sglang:evicted_tokens_total");
    assert(refs_view(evicted@).len() == evicted@.len());
    k.evicted_total = if evicted.len() > 0 {
        Some(count_samples(&evicted))
    } else {
        None
    };
    k.evicted_tps = f.evicted;
    k.evict_pass_mean_secs = hist_mean(
        m,
        "sglang:eviction_duration_seconds_count",
        "sglang:eviction_duration_seconds_sum",
    );
    k.cache_hit_rate = value_or_zero(read_first(m, "sglang:cache_hit_rate"));
    k.cache_hit_series.push(k.cache_hit_rate);
    k.weight_gb = sum_if_present(m, "sglang:weight_memory_usage_gb");
    k.kv_cache_gb = sum_if_present(m, "sglang:kv_cache_memory_usage_gb");
    k.graph_gb = sum_if_present(m, "sglang:graph_memory_usage_gb");
    // The host pool appears only with the hierarchical cache on.
    if is_present(m, "sglang:hicache_host_total_tokens") {
        let was = k.hicache.take();
        k.hicache = Some(build_hicache(m, f, was));
    } else {
        k.hicache = None;
    }
}

// ---- server ----

/// Names with a value each.
pub open spec fn timings_view<N>(v: Seq<(String, N)>) -> Seq<(Seq<char>, N)> {
    v.map_values(|p: (String, N)| (p.0@, p.1))
}

/// `s` with `t` behind every timing that is not smaller.
pub open spec fn with_timing<N: Num>(
    s: Seq<(Seq<char>, N)>,
    t: (Seq<char>, N),
) -> Seq<(Seq<char>, N)>
    decreases s.len(),
{
    if s.len() > 0 && s.last().1.below_spec(t.1) {
        with_timing(s.drop_last(), t).push(s.last())
    } else {
        s.push(t)
    }
}

/// The timings, largest first; equal ones keep their order.
pub open spec fn largest_first<N: Num>(s: Seq<(Seq<char>, N)>) -> Seq<(Seq<char>, N)>
    decreases s.len(),
{
    if s.len() == 0 {
        s
    } else {
        with_timing(largest_first(s.drop_last()), s.last())
    }
}

/// Adds a timing behind every one that is not smaller.
pub fn add_timing<N: Num>(v: &mut Vec<(String, N)>, t: (String, N))
    ensures
        timings_view(final(v)@) == with_timing(timings_view(old(v)@), (t.0@, t.1)),
{
    let ghost all = timings_view(v@);
    let ghost tv = (t.0@, t.1);
    let mut at: usize = v.len();
    assert(all.take(at as int) =~= all);
    assert(with_timing(all, tv) =~= with_timing(all.take(at as int), tv) + all.skip(at as int));
    while at > 0 && v[at - 1].1.below(t.1)
        invariant
            at <= v@.len(),
            all == timings_view(v@),
            tv == (t.0@, t.1),
            with_timing(all, tv) == with_timing(all.take(at as int), tv) + all.skip(at as int),
        decreases at,
    {
        assert(all.take(at as int).drop_last() =~= all.take(at - 1));
        assert(with_timing(all.take(at - 1), tv).push(all[at - 1]) + all.skip(at as int)
            =~= with_timing(all.take(at - 1), tv) + all.skip(at - 1));
        at -= 1;
    }
    assert(with_timing(all.take(at as int), tv) == all.take(at as int).push(tv));
    v.insert(at, t);
    assert(timings_view(v@) =~= all.take(at as int).push(tv) + all.skip(at as int));
}

/// The named startup phases with their duration, in the order of the scrape.
pub open spec fn startup_phases<N: Num>(m: Seq<SampleView<N>>) -> Seq<(Seq<char>, N)> {
    chosen(
        m,
        "sglang:startup_time_seconds"@,
        |x: SampleView<N>| !x.value.is_nan_spec() && x.label("phase"@) is Some,
    ).map_values(|x: SampleView<N>| (x.label("phase"@)->0, x.value))
}

/// The named startup phases, longest first.
fn read_startup_phases<N: Num>(m: &Metrics<N>) -> (r: Vec<(String, N)>)
    ensures
        timings_view(r@) == largest_first(startup_phases(m@)),
{
    let ghost p = |x: SampleView<N>| !x.value.is_nan_spec() && x.label("phase"@) is Some;
    let keep = |x: &Sample<N>| -> (b: bool)
        ensures
            b == p(x@),
    {
        !x.value.is_nan() && x.label("phase").is_some()
    };
    let v = choose_samples(m, "sglang:startup_time_seconds", keep, Ghost(p));
    let ghost own = refs_view(v@);
    let ghost all = startup_phases(m@);
    let mut out: Vec<(String, N)> = Vec::new();
    let n: usize = v.len();
    let mut i: usize = 0;
    assert(timings_view(out@) =~= largest_first(all.take(0)));
    while i < n
        invariant
            i <= n,
            n == v@.len(),
            own == refs_view(v@),
            p == |x: SampleView<N>| !x.value.is_nan_spec() && x.label("phase"@) is Some,
            own == named(m@, "sglang:startup_time_seconds"@).filter(p),
            all == own.map_values(|x: SampleView<N>| (x.label("phase"@)->0, x.value)),
            timings_view(out@) == largest_first(all.take(i as int)),
        decreases n - i,
    {
        assert(all.take(i + 1).drop_last() =~= all.take(i as int));
        let ghost x = own[i as int];
        assert(x == v@[i as int]@);
        proof {
            named(m@, "sglang:startup_time_seconds"@).lemma_filter_pred(p, i as int);
        }
        match v[i].label("phase") {
            Some(phase) => {
                add_timing(&mut out, (phase.to_owned(), v[i].value));
            },
            None => {},
        }
        i += 1;
    }
    assert(all.take(n as int) =~= all);
    out
}

/// The server's metadata after a scrape.
pub open spec fn server_built<N: Num>(
    s: ServerMeta<N>,
    was: ServerMeta<N>,
    m: Seq<SampleView<N>>,
) -> bool {
    let phases = startup_phases(m);
    &&& s.model_path == was.model_path
    &&& s.served_model_name == was.served_model_name
    &&& s.version == was.version
    &&& s.tp_size == was.tp_size
    &&& s.pp_size == was.pp_size
    &&& s.dp_size == was.dp_size
    &&& s.enable_dp_attention == was.enable_dp_attention
    &&& s.enable_metrics_for_all_schedulers == was.enable_metrics_for_all_schedulers
    &&& s.enable_hierarchical_cache == was.enable_hierarchical_cache
    &&& s.disaggregation_mode == was.disaggregation_mode
    &&& s.max_total_num_tokens == if present(m, "sglang:max_total_num_tokens"@) {
        Some(count_of(m, "sglang:max_total_num_tokens"@))
    } else {
        None
    }
    &&& s.context_len == match was.context_len {
        Some(n) => Some(n),
        None => match first_val(m, "sglang:context_len"@) {
            Some(v) => Some(v.to_count_spec()),
            None => None,
        },
    }
    &&& s.loaded == was.loaded
    &&& if phases.len() > 0 {
        &&& timings_view(s.startup_phases@) == largest_first(phases)
        &&& s.startup_graph_secs == if present(m, "sglang:startup_cuda_graph_time_seconds"@) {
            Some(sum_of(named(m, "sglang:startup_cuda_graph_time_seconds"@)))
        } else {
            None
        }
        &&& s.startup_free_gpu_gb == sum_if_there(m, "sglang:startup_available_gpu_memory_gb"@)
    } else {
        &&& s.startup_phases == was.startup_phases
        &&& s.startup_graph_secs == was.startup_graph_secs
        &&& s.startup_free_gpu_gb == was.startup_free_gpu_gb
    }
}

proof fn largest_first_keeps_len<N: Num>(s: Seq<(Seq<char>, N)>)
    ensures
        largest_first(s).len() == s.len(),
    decreases s.len(),
{
    if s.len() > 0 {
        largest_first_keeps_len(s.drop_last());
        with_timing_adds_one(largest_first(s.drop_last()), s.last());
    }
}

proof fn with_timing_adds_one<N: Num>(s: Seq<(Seq<char>, N)>, t: (Seq<char>, N))
    ensures
        with_timing(s, t).len() == s.len() + 1,
    decreases s.len(),
{
    if s.len() > 0 && s.last().1.below_spec(t.1) {
        with_timing_adds_one(s.drop_last(), t);
    }
}

/// Folds a scrape into the server's metadata: the pool size, the context window where
/// it was not told, and the startup timeline (constant after boot), longest phase
/// first.
pub fn build_server<N: Num>(m: &Metrics<N>, s: &mut ServerMeta<N>)
    ensures
        server_built(*final(s), *old(s), m@),
{
    // The token pool's own total, where its gauge is there.
    s.max_total_num_tokens = if is_present(m, "sglang:max_total_num_tokens") {
        Some(read_count(m, "sglang:max_total_num_tokens"))
    } else {
        None
    };
    if s.context_len.is_none() {
        s.context_len = match read_first(m, "sglang:context_len") {
            Some(v) => Some(v.to_count()),
            None => None,
        };
    }
    let phases = read_startup_phases(m);
    proof {
        largest_first_keeps_len(startup_phases(m@));
        assert(timings_view(phases@).len() == phases@.len());
    }
    if phases.len() > 0 {
        s.startup_phases = phases;
        s.startup_graph_secs = if is_present(m, "sglang:startup_cuda_graph_time_seconds") {
            Some(sum_samples(&m.get("sglang:startup_cuda_graph_time_seconds")))
        } else {
            None
        };
        s.startup_free_gpu_gb = sum_if_present(m, "sglang:startup_available_gpu_memory_gb");
    }
}

}
