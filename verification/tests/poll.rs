use sgtop::config::Config;
use sgtop::error::{PollError, SgtopError};
use sgtop::model::snapshot::{Connection, RankGranularity, ServerMeta, Snapshot};
use sgtop::num::{Num, Text};
use sgtop::poll::fetch::{self, Http, Step};
use sgtop::poll::info::{decode, meta_from, read_meta, Scalar};
use sgtop::poll::prom::{self, Metrics};
use sgtop::poll::{build, clip_utf8, read_metrics, served_name, Next, PollControl, PollState, Poller, Turn};

/// Double precision, as the monitor runs with it.
#[derive(Clone, Copy, Debug, PartialEq)]
struct F(f64);

impl std::fmt::Display for F {
    fn fmt(&self, out: &mut std::fmt::Formatter<'_>) -> std::fmt::Result {
        self.0.fmt(out)
    }
}

impl PartialEq<f64> for F {
    fn eq(&self, other: &f64) -> bool {
        self.0 == *other
    }
}

impl std::ops::Sub<f64> for F {
    type Output = f64;

    fn sub(self, other: f64) -> f64 {
        self.0 - other
    }
}

impl Num for F {
    fn zero() -> F {
        F(0.0)
    }

    fn lowest() -> F {
        F(f64::MIN)
    }

    fn epsilon() -> F {
        F(f64::EPSILON)
    }

    fn infinity() -> F {
        F(f64::INFINITY)
    }

    fn neg_infinity() -> F {
        F(f64::NEG_INFINITY)
    }

    fn nan() -> F {
        F(f64::NAN)
    }

    fn of_count(n: u64) -> F {
        F(n as f64)
    }

    fn of_nanos(n: u64) -> F {
        F(std::time::Duration::from_nanos(n).as_secs_f64())
    }

    fn read(text: &str) -> Option<F> {
        text.parse().ok().map(F)
    }

    fn plus(self, other: F) -> F {
        F(self.0 + other.0)
    }

    fn minus(self, other: F) -> F {
        F(self.0 - other.0)
    }

    fn times(self, other: F) -> F {
        F(self.0 * other.0)
    }

    fn over(self, other: F) -> F {
        F(self.0 / other.0)
    }

    fn round(self) -> F {
        F(self.0.round())
    }

    fn less(self, other: F) -> bool {
        self.0 < other.0
    }

    fn below(self, other: F) -> bool {
        self.0.total_cmp(&other.0).is_lt()
    }

    fn is_nan(self) -> bool {
        self.0.is_nan()
    }

    fn is_finite(self) -> bool {
        self.0.is_finite()
    }

    fn to_count(self) -> u64 {
        self.0 as u64
    }

    fn fixed(self, places: u8) -> String {
        format!("{:.*}", places as usize, self.0)
    }

    fn shown(self) -> String {
        format!("{}", self.0)
    }

    // The model of each operation is the operation itself; only proofs speak of it.

    fn zero_spec() -> F {
        F::zero()
    }

    fn lowest_spec() -> F {
        F::lowest()
    }

    fn epsilon_spec() -> F {
        F::epsilon()
    }

    fn infinity_spec() -> F {
        F::infinity()
    }

    fn neg_infinity_spec() -> F {
        F::neg_infinity()
    }

    fn nan_spec() -> F {
        F::nan()
    }

    fn of_count_spec(n: u64) -> F {
        F::of_count(n)
    }

    fn of_nanos_spec(n: u64) -> F {
        F::of_nanos(n)
    }

    fn read_spec(_: Text) -> Option<F> {
        unreachable!()
    }

    fn plus_spec(self, other: F) -> F {
        self.plus(other)
    }

    fn minus_spec(self, other: F) -> F {
        self.minus(other)
    }

    fn times_spec(self, other: F) -> F {
        self.times(other)
    }

    fn over_spec(self, other: F) -> F {
        self.over(other)
    }

    fn round_spec(self) -> F {
        self.round()
    }

    fn less_spec(self, other: F) -> bool {
        self.less(other)
    }

    fn below_spec(self, other: F) -> bool {
        self.below(other)
    }

    fn is_nan_spec(self) -> bool {
        self.is_nan()
    }

    fn is_finite_spec(self) -> bool {
        self.is_finite()
    }

    fn to_count_spec(self) -> u64 {
        self.to_count()
    }

    fn fixed_spec(self, _: u8) -> Text {
        unreachable!()
    }

    fn shown_spec(self) -> Text {
        unreachable!()
    }

    fn less_asymmetric(_: F, _: F) {}

    fn less_transitive(_: F, _: F, _: F) {}

    fn less_splits(_: F, _: F, _: F) {}

    fn less_excludes_nan(_: F, _: F) {}

    fn below_asymmetric(_: F, _: F) {}

    fn below_transitive(_: F, _: F, _: F) {}

    fn below_total(_: F, _: F) {}

    fn named_values() {}
    fn shown_is_read_back(_: F) {}
    fn no_growth(_: F) {}
}

type Snap = Snapshot<F>;

const SEC: u64 = 1_000_000_000;

const MS: u64 = 1_000_000;

/// A moment on the monotonic clock.
const T0: u64 = 5_000 * SEC;

fn parse(text: &str) -> Metrics<F> {
    prom::parse(text)
}

fn built(text: &str) -> Snap {
    let mut st = PollState::default();
    let mut s = Snap::default();
    build(&parse(text), &mut st, T0, 5 * MS, &mut s);
    s
}

/// A scrape and, two seconds later, another one.
fn built_twice(first: &str, second: &str) -> Snap {
    let mut st = PollState::default();
    let mut s = Snap::default();
    build(&parse(first), &mut st, T0, 5 * MS, &mut s);
    build(&parse(second), &mut st, T0 + 2 * SEC, 5 * MS, &mut s);
    s
}


const FIXTURE: &str = r#"# HELP sglang:num_running_reqs generated
# TYPE sglang:num_running_reqs gauge
sglang:num_running_reqs{model_name="qwen",engine_type="unified",tp_rank="0",pp_rank="0",moe_ep_rank="0",priority=""} 8
sglang:num_running_reqs{model_name="qwen",engine_type="unified",tp_rank="0",pp_rank="0",moe_ep_rank="0",dp_rank="0",priority=""} 3
sglang:num_running_reqs{model_name="qwen",engine_type="unified",tp_rank="0",pp_rank="0",moe_ep_rank="0",dp_rank="1",priority=""} 5
sglang:num_queue_reqs{model_name="qwen",engine_type="unified",tp_rank="0",pp_rank="0",moe_ep_rank="0",dp_rank="0",priority=""} 1
sglang:num_queue_reqs{model_name="qwen",engine_type="unified",tp_rank="0",pp_rank="0",moe_ep_rank="0",dp_rank="1",priority=""} 2
sglang:num_used_tokens{model_name="qwen",engine_type="unified",tp_rank="0",pp_rank="0",moe_ep_rank="0",dp_rank="0"} 1200
sglang:num_used_tokens{model_name="qwen",engine_type="unified",tp_rank="0",pp_rank="0",moe_ep_rank="0",dp_rank="1"} 800
sglang:max_total_num_tokens{model_name="qwen",engine_type="unified",tp_rank="0",pp_rank="0",moe_ep_rank="0",dp_rank="0"} 60000
sglang:max_total_num_tokens{model_name="qwen",engine_type="unified",tp_rank="0",pp_rank="0",moe_ep_rank="0",dp_rank="1"} 60000
sglang:token_usage{model_name="qwen",engine_type="unified",tp_rank="0",pp_rank="0",moe_ep_rank="0",dp_rank="0"} 0.02
sglang:token_usage{model_name="qwen",engine_type="unified",tp_rank="0",pp_rank="0",moe_ep_rank="0",dp_rank="1"} 0.05
sglang:gen_throughput{model_name="qwen",engine_type="unified",tp_rank="0",pp_rank="0",moe_ep_rank="0",dp_rank="0"} 210
sglang:gen_throughput{model_name="qwen",engine_type="unified",tp_rank="0",pp_rank="0",moe_ep_rank="0",dp_rank="1"} 190
sglang:cache_hit_rate{model_name="qwen",engine_type="unified",tp_rank="0",pp_rank="0",moe_ep_rank="0",dp_rank="0"} 0.73
sglang:utilization{model_name="qwen",engine_type="unified",tp_rank="0",pp_rank="0",moe_ep_rank="0"} 0.61
sglang:cuda_graph_passes_total{model_name="qwen",engine_type="unified",tp_rank="0",pp_rank="0",moe_ep_rank="0",mode="decode_cuda_graph"} 800
sglang:cuda_graph_passes_total{model_name="qwen",engine_type="unified",tp_rank="0",pp_rank="0",moe_ep_rank="0",mode="decode_none"} 200
sglang:cuda_graph_passes_total{model_name="qwen",engine_type="unified",tp_rank="0",pp_rank="0",moe_ep_rank="0",mode="prefill_none"} 50
sglang:new_token_ratio{model_name="qwen",engine_type="unified",tp_rank="0",pp_rank="0",moe_ep_rank="0"} 0.4
sglang:startup_time_seconds{model_name="qwen",engine_type="unified",phase="load_weight"} 193.1
sglang:startup_time_seconds{model_name="qwen",engine_type="unified",phase="scheduler_e2e"} 245.1
sglang:startup_cuda_graph_time_seconds{model_name="qwen",engine_type="unified",phase="target_verify"} 2.8
sglang:startup_available_gpu_memory_gb{model_name="qwen",engine_type="unified"} 7.5
sglang:fwd_occupancy{model_name="qwen",engine_type="unified",tp_rank="0",pp_rank="0",moe_ep_rank="0"} 92.5
sglang:generation_tokens_total{model_name="qwen",engine_type="unified",tp_rank="0",pp_rank="0",moe_ep_rank="0",dp_rank="0"} 500000
sglang:generation_tokens_total{model_name="qwen",engine_type="unified",tp_rank="0",pp_rank="0",moe_ep_rank="0",dp_rank="1"} 480000
sglang:prompt_tokens_total{model_name="qwen",engine_type="unified",tp_rank="0",pp_rank="0",moe_ep_rank="0",dp_rank="0"} 300000
sglang:num_requests_total{model_name="qwen",engine_type="unified",tp_rank="0",pp_rank="0",moe_ep_rank="0",dp_rank="0"} 1234
sglang:num_aborted_requests_total{model_name="qwen",engine_type="unified",tp_rank="0",pp_rank="0",moe_ep_rank="0",dp_rank="0"} 3
sglang:num_paused_reqs{model_name="qwen",engine_type="unified",tp_rank="0",pp_rank="0",moe_ep_rank="0",dp_rank="0"} 0
sglang:num_grammar_queue_reqs{model_name="qwen",engine_type="unified",tp_rank="0",pp_rank="0",moe_ep_rank="0",dp_rank="0"} 0
"#;

fn two_builds(bump_gen: u64) -> Snap {
    let m1 = parse(FIXTURE);
    let mut st = PollState::default();
    let mut s = Snap::default();
    let t0 = T0;
    build(&m1, &mut st, t0, 5 * MS, &mut s);
    let bumped = FIXTURE.replace(
        &format!(
            "sglang:generation_tokens_total{{model_name=\"qwen\",engine_type=\"unified\",tp_rank=\"0\",pp_rank=\"0\",moe_ep_rank=\"0\",dp_rank=\"0\"}} {}",
            500000
        ),
        &format!(
            "sglang:generation_tokens_total{{model_name=\"qwen\",engine_type=\"unified\",tp_rank=\"0\",pp_rank=\"0\",moe_ep_rank=\"0\",dp_rank=\"0\"}} {}",
            500000 + bump_gen
        ),
    );
    let m2 = parse(&bumped);
    build(
        &m2,
        &mut st,
        t0 + 2 * SEC,
        5 * MS,
        &mut s,
    );
    s
}

#[test]
fn running_reqs_from_default_priority_series() {
    let s = two_builds(0);
    assert_eq!(s.engine.running_reqs, 8);
}

#[test]
fn token_usage_is_bottleneck_max_not_sum() {
    let s = two_builds(0);
    assert!(
        (s.kv.token_usage - 0.05).abs() < 1e-9,
        "{}",
        s.kv.token_usage
    );
}

#[test]
fn used_and_total_tokens_sum_across_ranks() {
    let s = two_builds(0);
    assert_eq!(s.kv.used_tokens, 2000);
    assert_eq!(s.kv.total_tokens, 120000);
}

#[test]
fn startup_timeline_sorts_bottleneck_first() {
    let s = two_builds(0);
    let p = &s.server.startup_phases;
    assert_eq!(p.len(), 2);
    assert_eq!(p[0].0, "scheduler_e2e", "longest phase first");
    assert!((p[0].1 - 245.1).abs() < 1e-9);
    assert!((s.server.startup_graph_secs.unwrap() - 2.8).abs() < 1e-9);
    assert!((s.server.startup_free_gpu_gb.unwrap() - 7.5).abs() < 1e-9);
}

#[test]
fn cg_share_counts_only_decode_passes() {
    let s = two_builds(0);
    assert!(
        (s.engine.cg_decode_share.unwrap() - 0.8).abs() < 1e-9,
        "{:?}",
        s.engine.cg_decode_share
    );
    assert!(
        (s.engine.new_token_ratio.unwrap() - 0.4).abs() < 1e-9,
        "{:?}",
        s.engine.new_token_ratio
    );
}

#[test]
fn first_scrape_has_no_rates_second_does() {
    let mut st = PollState::default();
    let mut s = Snap::default();
    let m = parse(FIXTURE);
    let t0 = T0;
    build(&m, &mut st, t0, 0, &mut s);
    assert!(s.engine.decode_tps.is_none(), "no baseline → N/A, not 0");

    let s2 = two_builds(400);
    let dtps = s2.engine.decode_tps.unwrap();
    assert!((dtps - 200.0).abs() < 1.0, "decode rate {dtps}");
}

#[test]
fn history_accumulates_across_polls() {
    let s = two_builds(0);
    assert_eq!(s.engine.gen_series.len(), 2);
    assert_eq!(s.traffic.gen_series.len(), 2);
    assert_eq!(s.kv.cache_hit_series.len(), 2);
}

#[test]
fn rank_rows_aggregate_plus_per_rank() {
    let s = two_builds(0);
    assert!(matches!(s.rank_granularity, RankGranularity::PerRank));
    assert_eq!(s.ranks.len(), 3);
    assert_eq!(s.ranks[0].running, 8);
    assert_eq!(s.ranks[1].dp_rank, 0);
    assert_eq!(s.ranks[1].running, 3);
    assert_eq!(s.ranks[2].dp_rank, 1);
    assert_eq!(s.ranks[2].running, 5);
}

#[test]
fn rank_rings_survive_rebuild() {
    let s = two_builds(0);
    assert_eq!(s.ranks[2].gen_series.len(), 2, "per-rank ring carried over");
}

#[test]
fn nan_gauge_degrades_to_na_not_zero() {
    let m = parse(
        "sglang:utilization{dp_rank=\"0\"} NaN\nsglang:gen_throughput{dp_rank=\"0\"} 50\n",
    );
    let mut st = PollState::default();
    let mut s = Snap::default();
    build(&m, &mut st, T0, 0, &mut s);
    assert!(s.engine.utilization.is_none(), "NaN utilization -> N/A");
    assert_eq!(s.engine.gen_throughput, 50.0);
}

#[test]
fn missing_metrics_yield_defaults_and_live_conn() {
    let m = parse("");
    let mut st = PollState::default();
    let mut s = Snap::default();
    build(
        &m,
        &mut st,
        T0,
        3 * MS,
        &mut s,
    );
    assert_eq!(s.engine.running_reqs, 0);
    assert!(s.kv.available_tokens.is_none());
    assert_eq!(s.ranks.len(), 1, "aggregate row always exists");
    assert!(matches!(
        s.conn,
        Connection::Live {
            metrics_ok: true,
            ..
        }
    ));
}

#[test]
fn hicache_appears_only_when_present() {
    let mut st = PollState::default();
    let mut s = Snap::default();
    build(
        &parse(FIXTURE),
        &mut st,
        T0,
        0,
        &mut s,
    );
    assert!(s.kv.hicache.is_none(), "no hicache metrics → None");

    let with_hc = format!(
        "{FIXTURE}\nsglang:hicache_host_used_tokens{{dp_rank=\"0\"}} 100\nsglang:hicache_host_total_tokens{{dp_rank=\"0\"}} 400\nsglang:hicache_backup_tokens_total{{pool=\"kv\"}} 900\nsglang:hicache_dropped_tokens_total{{pool=\"kv\",reason=\"host_pressure\"}} 5\nsglang:load_back_tokens_total{{pool=\"kv\"}} 120\nsglang:hicache_prefetch_aux_alloc_failed_tokens_total{{storage_backend=\"nixl\"}} 30\nsglang:backuped_tokens_total{{storage_backend=\"nixl\",dp_rank=\"0\"}} 800\nsglang:prefetched_tokens_total{{storage_backend=\"nixl\",dp_rank=\"0\"}} 10\nsglang:hicache_backup_duration_seconds_sum{{cache_type=\"UnifiedRadixCache\"}} 20\nsglang:hicache_backup_duration_seconds_count{{cache_type=\"UnifiedRadixCache\"}} 100\nsglang:load_back_duration_seconds_sum{{cache_type=\"UnifiedRadixCache\"}} 5\nsglang:load_back_duration_seconds_count{{cache_type=\"UnifiedRadixCache\"}} 10\n"
    );
    let mut s2 = Snap::default();
    build(
        &parse(&with_hc),
        &mut st,
        T0,
        0,
        &mut s2,
    );
    let hc = s2.kv.hicache.expect("hicache present");
    assert_eq!(hc.host_used, 100);
    assert_eq!(hc.backuped_total, Some(900));
    assert_eq!(hc.dropped_total, Some(5));
    assert_eq!(hc.load_back_total, Some(120));
    assert_eq!(hc.host_total, 400);
    assert_eq!(hc.storage_backuped_total, Some(800));
    assert_eq!(hc.storage_prefetched_total, Some(10));
    assert_eq!(hc.backup_mean_secs, Some(F(0.2)));
    assert_eq!(hc.load_back_mean_secs, Some(F(0.5)));

    let no_hist = with_hc
        .lines()
        .filter(|l| !l.contains("duration_seconds"))
        .collect::<Vec<_>>()
        .join("\n");
    let mut s3 = Snap::default();
    build(
        &parse(&no_hist),
        &mut st,
        T0,
        0,
        &mut s3,
    );
    let hc3 = s3.kv.hicache.expect("hicache still present");
    assert_eq!(hc3.backup_mean_secs, None);
    assert_eq!(hc3.load_back_mean_secs, None);
}

#[test]
fn clip_respects_char_boundary() {
    assert_eq!(clip_utf8("héllo", 2), "h");
    assert_eq!(clip_utf8("héllo", 100), "héllo");
}

#[test]
fn build_records_truncation_from_the_scrape() {
    let mut st = PollState::default();
    let cut = "sglang:num_running_reqs{model_name=\"qwen\"} 2\nsglang:token_us";
    let mut s = Snap::default();
    build(
        &parse(cut),
        &mut st,
        T0,
        0,
        &mut s,
    );
    assert!(s.metrics_truncated, "severed tail must flag");

    let mut s2 = Snap {
        metrics_truncated: true,
        ..Snap::default()
    };
    let clean = "sglang:num_running_reqs{model_name=\"qwen\"} 2\n";
    build(
        &parse(clean),
        &mut st,
        T0,
        0,
        &mut s2,
    );
    assert!(
        !s2.metrics_truncated,
        "a clean scrape must clear a stale flag"
    );
}

const RT_FIXTURE: &str = r#"
sglang:realtime_tokens_total{engine_type="unified",mode="decode",model_name="qwen",tp_rank="0"} 1000
sglang:realtime_tokens_total{engine_type="unified",mode="prefill_compute",model_name="qwen",tp_rank="0"} 2000
sglang:generation_tokens_total{engine_type="unified",is_streaming="true",model_name="qwen"} 500
sglang:prompt_tokens_total{engine_type="unified",is_streaming="true",model_name="qwen"} 700
"#;

#[test]
fn realtime_mode_counters_prefer_over_request_scoped() {
    let mut st = PollState::default();
    let mut s = Snap::default();
    let t0 = T0;
    build(
        &parse(RT_FIXTURE),
        &mut st,
        t0,
        0,
        &mut s,
    );
    let bumped = RT_FIXTURE
        .replace(
            "mode=\"decode\",model_name=\"qwen\",tp_rank=\"0\"} 1000",
            "mode=\"decode\",model_name=\"qwen\",tp_rank=\"0\"} 1400",
        )
        .replace(
            "mode=\"prefill_compute\",model_name=\"qwen\",tp_rank=\"0\"} 2000",
            "mode=\"prefill_compute\",model_name=\"qwen\",tp_rank=\"0\"} 2600",
        )
        .replace(
            "is_streaming=\"true\",model_name=\"qwen\"} 500",
            "is_streaming=\"true\",model_name=\"qwen\"} 900",
        );
    build(
        &parse(&bumped),
        &mut st,
        t0 + 2 * SEC,
        0,
        &mut s,
    );
    assert!(
        (s.engine.decode_tps.unwrap() - 200.0).abs() < 1.0,
        "decode {}/s should come from realtime decode",
        s.engine.decode_tps.unwrap()
    );
    assert!(
        (s.engine.prefill_tps.unwrap() - 300.0).abs() < 1.0,
        "prefill {}/s should come from realtime prefill_compute",
        s.engine.prefill_tps.unwrap()
    );
}

#[test]
fn request_scoped_counters_are_the_fallback() {
    let without_rt = RT_FIXTURE
        .lines()
        .filter(|l| !l.contains("realtime_tokens_total"))
        .collect::<Vec<_>>()
        .join("\n")
        + "\n";
    let mut st = PollState::default();
    let mut s = Snap::default();
    let t0 = T0;
    build(
        &parse(&without_rt),
        &mut st,
        t0,
        0,
        &mut s,
    );
    assert!(s.engine.decode_tps.is_none(), "first scrape: no baseline");
    let bumped = without_rt.replace(
        "is_streaming=\"true\",model_name=\"qwen\"} 500",
        "is_streaming=\"true\",model_name=\"qwen\"} 1300",
    );
    build(
        &parse(&bumped),
        &mut st,
        t0 + 2 * SEC,
        0,
        &mut s,
    );
    assert!(
        (s.engine.decode_tps.unwrap() - 400.0).abs() < 1.0,
        "fallback decode rate {}/s from generation_tokens_total",
        s.engine.decode_tps.unwrap()
    );
}

#[test]
fn dp_attention_without_all_schedulers_collapses_ranks() {
    let mut st = PollState::default();
    let mut s = Snap::default();
    s.server.loaded = true;
    s.server.enable_dp_attention = true;
    s.server.enable_metrics_for_all_schedulers = false;
    build(
        &parse(FIXTURE),
        &mut st,
        T0,
        0,
        &mut s,
    );
    assert!(matches!(s.rank_granularity, RankGranularity::Aggregated(_)));
    assert_eq!(
        s.ranks.len(),
        1,
        "aggregate row only — no fake per-rank rows"
    );
}

const HTTP_FIXTURE: &str = r#"
sglang:num_retracted_reqs{engine_type="unified",tp_rank="0"} 4.0
sglang:http_requests_total{endpoint="/generate",method="POST"} 100.0
sglang:http_requests_total{endpoint="/metrics",method="GET"} 9000.0
sglang:http_responses_total{endpoint="/generate",method="POST",status_code="200"} 95.0
sglang:http_responses_total{endpoint="/generate",method="POST",status_code="500"} 5.0
sglang:http_requests_active{endpoint="/generate",method="POST"} 2.0
sglang:http_requests_active{endpoint="/metrics",method="GET"} 1.0
sglang:cached_tokens_total{cache_source="device",engine_type="unified"} 1000.0
sglang:cached_tokens_total{cache_source="host",engine_type="unified"} 500.0
sglang:cached_tokens_total{cache_source="storage_HiCacheNixl",engine_type="unified"} 30.0
sglang:prompt_tokens_histogram_sum{engine_type="unified"} 2000.0
sglang:prompt_tokens_histogram_count{engine_type="unified"} 10.0
sglang:generation_tokens_histogram_sum{engine_type="unified"} 500.0
sglang:generation_tokens_histogram_count{engine_type="unified"} 10.0
sglang:uncached_prompt_tokens_histogram_sum{engine_type="unified"} 100.0
sglang:uncached_prompt_tokens_histogram_count{engine_type="unified"} 10.0
sglang:evicted_tokens_total{cache_type="UnifiedRadixCache"} 7000.0
sglang:process_cpu_seconds_total{component="tokenizer"} 100.0
sglang:process_cpu_seconds_total{component="detokenizer"} 10.0
"#;

#[test]
fn http_and_cache_counters_use_real_names_and_exclude_our_polling() {
    let m1 = parse(HTTP_FIXTURE);
    let mut st = PollState::default();
    let mut s = Snap::default();
    let t0 = T0;
    build(&m1, &mut st, t0, 5 * MS, &mut s);

    assert_eq!(s.traffic.retracted, 4, "num_retracted_reqs (real name)");
    assert_eq!(
        s.traffic.http_active,
        Some(2),
        "/metrics excluded from active"
    );
    assert_eq!(s.traffic.cached_device_total, 1000, "device source only");
    assert_eq!(s.traffic.cached_host_total, 500);
    assert_eq!(
        s.traffic.cached_storage_total, 30,
        "storage_<backend> matched by prefix"
    );
    assert_eq!(s.traffic.avg_prompt_len, Some(F(200.0)), "sum/count");
    assert_eq!(s.traffic.avg_gen_len, Some(F(50.0)));
    assert_eq!(s.traffic.avg_uncached_len, Some(F(10.0)));
    assert_eq!(s.kv.evicted_total, Some(7000));
    assert!(s.traffic.http_rps.is_none(), "no baseline yet → N/A, not 0");
    assert!(
        s.engine.tokenizer_cores.is_none(),
        "cpu cores need a baseline"
    );

    let m2 = parse(
        &HTTP_FIXTURE
            .replace(
                "/generate\",method=\"POST\"} 100.0",
                "/generate\",method=\"POST\"} 110.0",
            )
            .replace(
                "/metrics\",method=\"GET\"} 9000.0",
                "/metrics\",method=\"GET\"} 9200.0",
            )
            .replace("status_code=\"500\"} 5.0", "status_code=\"500\"} 7.0")
            .replace(
                "cache_source=\"device\",engine_type=\"unified\"} 1000.0",
                "cache_source=\"device\",engine_type=\"unified\"} 1100.0",
            )
            .replace(
                "component=\"tokenizer\"} 100.0",
                "component=\"tokenizer\"} 106.0",
            )
            .replace(
                "component=\"detokenizer\"} 10.0",
                "component=\"detokenizer\"} 12.0",
            ),
    );
    build(
        &m2,
        &mut st,
        t0 + 2 * SEC,
        5 * MS,
        &mut s,
    );
    let rps = s.traffic.http_rps.unwrap();
    assert!(
        (rps - 5.0).abs() < 0.01,
        "/generate-only rate, our polling excluded: {rps}"
    );
    let err = s.traffic.http_err_rate.unwrap();
    assert!((err - 1.0).abs() < 0.01, "status>=400 rate: {err}");
    let cps = s.traffic.cached_device_tps.unwrap();
    assert!((cps - 50.0).abs() < 0.1, "device cache inflow: {cps}");
    let tk = s.engine.tokenizer_cores.unwrap();
    assert!((tk - 3.0).abs() < 0.05, "6 cpu-sec / 2s = 3 cores: {tk}");
    let dk = s.engine.detokenizer_cores.unwrap();
    assert!((dk - 1.0).abs() < 0.05, "detok cores: {dk}");
}

const EFFECTIVE_FIXTURE: &str = r#"
sglang:prefill_effective_tokens_total{engine_type="unified",mode="input"} 0.0
sglang:prefill_effective_tokens_total{engine_type="unified",mode="device_hit"} 0.0
sglang:prefill_effective_tokens_total{engine_type="unified",mode="host_hit"} 0.0
sglang:prefill_effective_tokens_total{engine_type="unified",mode="storage_hit"} 0.0
"#;

#[test]
fn cache_window_share_is_a_ratio_and_needs_a_full_baseline() {
    let m1 = parse(EFFECTIVE_FIXTURE);
    let mut st = PollState::default();
    let mut s = Snap::default();
    let t0 = T0;
    build(&m1, &mut st, t0, 5 * MS, &mut s);

    assert!(s.traffic.cache_window_known);
    assert!(
        s.traffic.cache_window_share.is_none(),
        "first scrape has no rate"
    );

    let m2 = parse(
        &EFFECTIVE_FIXTURE
            .replace("mode=\"input\"} 0.0", "mode=\"input\"} 100.0")
            .replace("mode=\"device_hit\"} 0.0", "mode=\"device_hit\"} 300.0")
            .replace("mode=\"host_hit\"} 0.0", "mode=\"host_hit\"} 60.0")
            .replace("mode=\"storage_hit\"} 0.0", "mode=\"storage_hit\"} 40.0"),
    );
    build(
        &m2,
        &mut st,
        t0 + 2 * SEC,
        5 * MS,
        &mut s,
    );
    let win = s.traffic.cache_window_share.unwrap();
    assert!((win - 0.8).abs() < 1e-6, "windowed hit share: {win}");
}

#[test]
fn cache_window_absent_family_stays_unknown() {
    let m = parse(HTTP_FIXTURE);
    let mut st = PollState::default();
    let mut s = Snap::default();
    build(
        &m,
        &mut st,
        T0,
        5 * MS,
        &mut s,
    );
    assert!(!s.traffic.cache_window_known);
    assert!(s.traffic.cache_window_share.is_none());
}

#[test]
fn pause_reason_and_context_come_from_the_scrape() {
    let s = built("sglang:num_paused_reqs{pause_reason=\"a\"} 0\nsglang:num_paused_reqs{pause_reason=\"b\"} 2\n");
    assert_eq!(s.paused, Some("b".to_string()));
    let s = built("sglang:context_len 4096\n");
    assert_eq!(s.server.context_len, Some(4096));
    assert_eq!(s.now, T0);
    assert!(matches!(s.conn, Connection::Live { rtt, metrics_ok: true } if rtt == 5 * MS));
    let mut st = PollState::default();
    let mut told = Snap::default();
    told.server.context_len = Some(8);
    build(&parse("sglang:context_len 4096\n"), &mut st, T0, 0, &mut told);
    assert_eq!(told.server.context_len, Some(8), "what the server told stands");
}

#[test]
fn a_family_has_no_rate_until_every_series_has_a_baseline() {
    let one = "sglang:num_requests_total{dp_rank=\"0\"} 10\n";
    let two = "sglang:num_requests_total{dp_rank=\"0\"} 20\nsglang:num_requests_total{dp_rank=\"1\"} 4\n";
    let three = "sglang:num_requests_total{dp_rank=\"0\"} 30\nsglang:num_requests_total{dp_rank=\"1\"} 8\n";
    let mut st = PollState::default();
    let mut s = Snap::default();
    build(&parse(one), &mut st, T0, 0, &mut s);
    build(&parse(two), &mut st, T0 + 2 * SEC, 0, &mut s);
    assert_eq!(s.traffic.req_rate_in, 0.0, "the second rank has no baseline yet");
    build(&parse(three), &mut st, T0 + 4 * SEC, 0, &mut s);
    assert_eq!(s.traffic.req_rate_in, 7.0);
}

#[test]
fn routes_are_listed_without_our_own_polling() {
    let two = HTTP_FIXTURE.replace(
        "/generate\",method=\"POST\"} 100.0",
        "/generate\",method=\"POST\"} 110.0",
    );
    let s = built_twice(HTTP_FIXTURE, &two);
    let paths: Vec<&str> = s.traffic.http_endpoints.iter().map(|e| e.path.as_str()).collect();
    assert_eq!(paths, vec!["/generate"]);
    let e = &s.traffic.http_endpoints[0];
    assert_eq!((e.rps, e.total, e.err), (Some(F(5.0)), 110, 5));
}

#[test]
fn metadata_is_projected_from_the_bodies() {
    let m: ServerMeta<F> = read_meta(
        r#"{"model_path": "/models/m", "served_model_name": "李模型"}"#,
        r#"{"version": "0.4.9", "tp_size": 8, "pp_size": 1, "dp_size": 4, "context_length": 4096,
            "disaggregation_mode": "null", "enable_dp_attention": true, "x": [1, 2]}"#,
    ).unwrap();
    assert_eq!(m.model_path, "/models/m");
    assert_eq!(m.served_model_name, "李模型");
    assert_eq!((m.tp_size, m.pp_size, m.dp_size), (8, 1, 4));
    assert_eq!(m.context_len, Some(4096));
    assert_eq!(m.disaggregation_mode, "null");
    assert!(m.enable_dp_attention && !m.enable_hierarchical_cache && m.loaded);
    let odd: ServerMeta<F> = read_meta("[]", r#"{"tp_size": -1, "version": 3}"#).unwrap();
    assert_eq!((odd.tp_size, odd.version.as_str()), (0, ""));
}

#[test]
fn bodies_that_are_no_json_are_decode_errors() {
    let bad: Result<ServerMeta<F>, PollError> = read_meta("<html>", "{}");
    assert!(bad.err().unwrap().to_text().starts_with("decode: model_info: expected value"));
    let bad: Result<ServerMeta<F>, PollError> = read_meta("{}", "");
    assert!(bad.err().unwrap().to_text().starts_with("decode: server_info: EOF"));
    let bad: Result<ServerMeta<F>, PollError> = decode(Err("x".to_string()), Err("y".to_string()));
    assert_eq!(bad.err().unwrap().to_text(), "decode: model_info: x");
}

fn text(key: &str, value: &str) -> (String, Scalar) {
    (key.to_string(), Scalar::Text(value.to_string()))
}

#[test]
fn projects_flat_server_args() {
    let server = vec![
        text("version", "0.4.9"),
        ("tp_size".to_string(), Scalar::Count(8)),
        ("pp_size".to_string(), Scalar::Count(1)),
        ("dp_size".to_string(), Scalar::Count(4)),
        ("enable_dp_attention".to_string(), Scalar::Flag(true)),
        ("enable_metrics_for_all_schedulers".to_string(), Scalar::Flag(false)),
        ("enable_hierarchical_cache".to_string(), Scalar::Flag(true)),
    ];
    let model = vec![text("model_path", "/models/m"), text("served_model_name", "李模型")];
    let m: ServerMeta<F> = meta_from(&model, &server);
    assert_eq!(m.tp_size, 8);
    assert_eq!(m.dp_size, 4);
    assert!(m.enable_dp_attention);
    assert!(!m.enable_metrics_for_all_schedulers);
    assert!(m.enable_hierarchical_cache);
    assert_eq!(m.served_model_name, "李模型");
    assert_eq!(m.version, "0.4.9");
}

#[test]
fn missing_keys_default_safely() {
    let m: ServerMeta<F> = meta_from(&Vec::new(), &Vec::new());
    assert_eq!(m.tp_size, 0);
    assert!(!m.enable_dp_attention);
    assert!(m.model_path.is_empty());
    assert!(m.loaded);
}

#[test]
fn failures_escalate_and_keep_the_first_slip() {
    let mut p = Poller::default();
    let mut conn = Connection::Pending;
    let err = PollError::Transport("refused".to_string());
    let mut waits = Vec::new();
    for i in 0..6 {
        if let Next::Sleep(ms) = p.failed(&err, T0 + i * SEC, &mut conn) {
            waits.push(ms);
        }
        assert_eq!(conn.lost_since(), Some(T0));
        assert!(conn.dimmed());
        assert_eq!(conn.frozen(), i >= 3, "lost from the fourth failure on");
    }
    assert_eq!(waits, vec![1000, 2000, 4000, 8000, 15000, 15000]);
    assert!(matches!(&conn, Connection::Lost { last_err, .. } if last_err == "transport: refused"));
    p.succeeded();
    assert_eq!((p.consecutive, p.backoff_idx), (0, 0));
}

#[test]
fn a_missing_metrics_route_ends_polling() {
    let mut p = Poller::default();
    let mut conn = Connection::Pending;
    let gone = PollError::Status { status: 404, path: "/metrics".to_string() };
    assert_eq!(p.failed(&gone, T0, &mut conn), Next::Stop);
    assert!(matches!(conn, Connection::MetricsDisabled));
    let other = PollError::Status { status: 404, path: "/model_info".to_string() };
    assert_eq!(p.failed(&other, T0, &mut conn), Next::Sleep(1000));
    let busy = PollError::Status { status: 503, path: "/metrics".to_string() };
    assert_eq!(p.failed(&busy, T0, &mut conn), Next::Sleep(2000));
}

#[test]
fn metadata_is_asked_once_per_identity() {
    let mut p = Poller::default();
    let mut meta: ServerMeta<F> = ServerMeta::default();
    let m = parse("sglang:num_running_reqs{model_name=\"qwen\"} 1\n");
    let served = served_name(&m);
    assert_eq!(served, "qwen");
    assert!(p.needs_meta(meta.loaded, &served));
    p.on_meta(true, None, &mut meta);
    assert!(p.needs_meta(meta.loaded, &served), "a failed fetch is tried again");
    let got: ServerMeta<F> = meta_from(&vec![text("served_model_name", "qwen")], &Vec::new());
    p.on_meta(true, Some(got), &mut meta);
    assert!(meta.loaded);
    assert!(!p.needs_meta(meta.loaded, &served));
    assert!(p.needs_meta(meta.loaded, "other"));
}

#[test]
fn turns_follow_the_controls() {
    let mut c = PollControl { paused: false, interval_ms: 1000 };
    assert_eq!(c.turn(), Turn::Scrape(1000));
    c.step_interval(-950);
    assert_eq!(c.interval_ms, 100);
    c.step_interval(50_000);
    assert_eq!(c.interval_ms, 10_000);
    c.paused = true;
    assert_eq!(c.turn(), Turn::Hold(150));
}

#[test]
fn bodies_are_cut_at_the_limit() {
    let body = "a 1\nb 2\n";
    let whole: Metrics<F> = read_metrics(body, 8);
    assert_eq!((whole.samples.len(), whole.truncated), (2, false));
    for max in [4, 5, 7] {
        let cut: Metrics<F> = read_metrics(body, max);
        assert!(cut.truncated, "cut at {max}");
    }
    let cut: Metrics<F> = read_metrics(body, 5);
    assert_eq!(cut.samples.len(), 1);
}

#[test]
fn requests_are_addressed_and_authorized() {
    let cfg = Config { url: "http://h:1//".to_string(), api_key: "k".to_string(), ..Config::default() };
    let http = Http::new(&cfg);
    assert_eq!(http.url("/metrics"), "http://h:1/metrics");
    assert_eq!(http.authorization(), Some("Bearer k".to_string()));
    assert_eq!(http.timeout_ms, 2000);
    assert_eq!(Http::new(&Config::default()).authorization(), None);
}

#[test]
fn answers_are_classified_by_status() {
    let ok = fetch::answered("/metrics", 200, "x 1\n".to_string(), 7).unwrap();
    assert_eq!((ok.status, ok.body.as_str(), ok.rtt), (200, "x 1\n", 7));
    let e = fetch::answered("/metrics", 500, String::new(), 7).err().unwrap();
    assert_eq!(e.to_text(), "http 500 on /metrics");
    assert!(fetch::answered("/m", 199, String::new(), 7).is_err());
    assert!(fetch::answered("/m", 299, String::new(), 7).is_ok());
    assert!(fetch::answered("/m", 300, String::new(), 7).is_err());
    assert_eq!(fetch::send_error("/m", true, "slow").to_text(), "transport: timeout /m");
    assert_eq!(fetch::send_error("/m", false, "refused").to_text(), "transport: refused");
    assert_eq!(fetch::read_error("/m", "eof").to_text(), "transport: read /m: eof");
}

#[test]
fn absent_routes_fall_through_to_the_next_candidate() {
    let absent = fetch::optional(fetch::answered("/model_info", 404, String::new(), 1));
    assert!(matches!(absent, Ok(None)));
    let broken = fetch::optional(fetch::answered("/model_info", 500, String::new(), 1));
    assert!(matches!(broken, Err(PollError::Status { status: 500, .. })));
    assert!(matches!(fetch::after_candidate(0, 2, Ok(Some("b".to_string()))), Step::Done(b) if b == "b"));
    assert!(matches!(fetch::after_candidate(0, 2, Ok(None)), Step::Ask(1)));
    assert!(matches!(fetch::after_candidate(0, 2, broken), Step::Ask(1)));
    let last = fetch::after_candidate(1, 2, Ok(None));
    assert!(matches!(last, Step::Fail(PollError::Disabled(_))));
    let last = fetch::after_candidate(1, 2, Err(PollError::Transport("x".to_string())));
    assert!(matches!(last, Step::Fail(PollError::Transport(_))));
}

#[test]
fn every_error_says_what_happened() {
    let status = PollError::Status { status: 404, path: "/metrics".to_string() };
    assert_eq!(status.to_text(), "http 404 on /metrics");
    assert_eq!(PollError::Transport("t".to_string()).to_text(), "transport: t");
    assert_eq!(PollError::Decode("d".to_string()).to_text(), "decode: d");
    assert_eq!(PollError::Disabled("off").to_text(), "disabled: off");
    assert_eq!(
        SgtopError::MetricsDisabled.to_text(),
        "server started without --enable-metrics (GET /metrics -> 404)"
    );
    assert_eq!(SgtopError::Poll(status).to_text(), "poll failed: http 404 on /metrics");
    assert_eq!(SgtopError::Io("i".to_string()).to_text(), "io: i");
    assert_eq!(SgtopError::Http("h".to_string()).to_text(), "http: h");
    assert_eq!(SgtopError::Other("o".to_string()).to_text(), "o");
}

#[test]
fn polling_is_a_live_connection_only_after_a_scrape() {
    assert!(Snap::default().conn.frozen());
    assert!(!Snap::default().conn.dimmed());
    let s = built("x 1\n");
    assert!(!s.conn.frozen() && !s.conn.dimmed());
    assert_eq!(s.conn.lost_since(), None);
}

#[test]
fn host_pool_that_leaves_the_scrape_leaves_the_panel() {
    let on = "sglang:hicache_host_total_tokens 100\nsglang:hicache_host_used_tokens 40\n";
    assert!(built_twice(on, on).kv.hicache.is_some());
    assert!(built_twice(on, "x 1\n").kv.hicache.is_none());
}

#[test]
fn absent_pool_size_is_not_known() {
    assert_eq!(built("x 1\n").server.max_total_num_tokens, None);
    assert_eq!(built("sglang:max_total_num_tokens 0\n").server.max_total_num_tokens, Some(0));
    assert_eq!(built_twice(FIXTURE, FIXTURE).server.max_total_num_tokens, Some(120000));
    assert_eq!(built_twice(FIXTURE, "x 1\n").server.max_total_num_tokens, None);
}

#[test]
fn rank_histories_follow_their_ranks() {
    let s = built_twice(FIXTURE, FIXTURE);
    let series = |i: usize| -> Vec<f64> { s.ranks[i].gen_series.samples().iter().map(|v| v.0).collect() };
    assert_eq!(s.ranks.len(), 3);
    assert_eq!(series(0), vec![400.0, 400.0]);
    assert_eq!(series(1), vec![210.0, 210.0]);
    assert_eq!(series(2), vec![190.0, 190.0]);
}

#[test]
fn a_gauge_that_is_not_a_number_is_not_known() {
    assert_eq!(built("sglang:utilization NaN\nx 1\n").engine.utilization.map(|v| v.0), None);
    assert_eq!(built("sglang:utilization 0.5\n").engine.utilization.map(|v| v.0), Some(0.5));
}

#[test]
fn interval_steps_hold_at_the_ends_of_the_range() {
    let mut c = PollControl { interval_ms: i64::MAX as u64, paused: false };
    c.step_interval(100);
    assert_eq!(c.interval_ms, 10_000);
    let mut c = PollControl { interval_ms: 100, paused: true };
    c.step_interval(i64::MIN);
    assert_eq!(c.interval_ms, 100);
    assert!(c.paused);
}

#[test]
fn pool_size_is_that_of_the_token_pool() {
    let s = built("sglang:max_total_num_tokens{priority=\"1\"} 5\n");
    assert_eq!(s.kv.total_tokens, 0);
    assert_eq!(s.server.max_total_num_tokens, Some(0));
    let s = built("sglang:max_total_num_tokens{priority=\"\"} 7\nsglang:max_total_num_tokens{priority=\"1\"} 5\n");
    assert_eq!(s.kv.total_tokens, 7);
    assert_eq!(s.server.max_total_num_tokens, Some(7));
}

#[test]
fn graph_capture_time_is_known_only_where_it_is_exposed() {
    let phases = "sglang:startup_time_seconds{phase=\"load_weight\"} 3\n";
    let s = built(phases);
    assert_eq!(s.server.startup_phases.len(), 1);
    assert_eq!(s.server.startup_graph_secs.map(|v| v.0), None);
    let both = format!("{phases}sglang:startup_cuda_graph_time_seconds 0\n");
    assert_eq!(built(&both).server.startup_graph_secs.map(|v| v.0), Some(0.0));
}
