//! What the UI reads: the last known state of the polled server.
use crate::model::hist::{Ring, HIST_CAP};
use crate::num::Num;
use vstd::prelude::*;

verus! {

/// Everything the UI reads. Single source of truth: the UI never touches the
/// poller, and the poller's `build` is the only writer.
///
/// Every `Option` here renders as a dimmed `N/A`, a claim about our knowledge, and
/// never as `0`, which would be a false claim about the server. Times are
/// nanoseconds on one monotonic clock.
pub struct Snapshot<N> {
    pub conn: Connection,
    pub server: ServerMeta<N>,
    pub engine: EnginePanel<N>,
    pub kv: KvPanel<N>,
    pub traffic: TrafficPanel<N>,
    pub ranks: Vec<RankRow<N>>,
    /// Whether per-rank rows are trustworthy, or collapsed to one aggregate row
    /// because the server can't attribute them.
    pub rank_granularity: RankGranularity,
    /// Server-level pause from the pause labels of the scrape, by its reason.
    pub paused: Option<String>,
    /// True when the last scrape was cut at the byte limit: absent fields may be
    /// missing because of the cut, not because the server lacks them.
    pub metrics_truncated: bool,
    pub now: u64,
}

/// Liveness of the polled server. Drives banner and staleness, never zero-fill.
#[derive(Debug, Clone)]
pub enum Connection {
    /// First successful poll not yet completed since launch.
    Pending,
    Live {
        rtt: u64,
        /// Metrics scrape succeeded; latency histograms and counters are available.
        metrics_ok: bool,
    },
    /// Some consecutive poll failures: keep last-known values, grey out
    /// sample-derived colour, but do not hide the shape of what was happening.
    Degraded { since: u64, consecutive: u32, last_err: String },
    /// Polling has failed past the staleness horizon: freeze graphs at the last
    /// sample, banner across each affected box's bottom border.
    Lost { since: u64, last_err: String },
    /// Server reachable but `/metrics` answers 404: started without
    /// `--enable-metrics`. The UI shows the message, then the program exits.
    MetricsDisabled,
}

impl Connection {
    pub open spec fn dimmed_spec(self) -> bool {
        self is Degraded || self is Lost
    }

    /// True when values should be greyed (sample colour off).
    pub fn dimmed(&self) -> (r: bool)
        ensures
            r == self.dimmed_spec(),
    {
        matches!(self, Connection::Degraded { .. } | Connection::Lost { .. })
    }

    /// True when we currently have no usable current sample (graphs freeze).
    pub fn frozen(&self) -> (r: bool)
        ensures
            r == (self is Lost || self is Pending),
    {
        matches!(self, Connection::Lost { .. } | Connection::Pending)
    }

    /// The moment liveness first slipped.
    pub open spec fn lost_since_spec(self) -> Option<u64> {
        match self {
            Connection::Degraded { since, .. } => Some(since),
            Connection::Lost { since, .. } => Some(since),
            _ => None,
        }
    }

    /// The moment liveness first slipped, if we're already degraded or lost, so
    /// that escalating preserves the original failure time instead of restarting
    /// the staleness clock on every retried error.
    pub fn lost_since(&self) -> (r: Option<u64>)
        ensures
            r == self.lost_since_spec(),
    {
        match self {
            Connection::Degraded { since, .. } => Some(*since),
            Connection::Lost { since, .. } => Some(*since),
            _ => None,
        }
    }
}

/// Static metadata from `/server_info` and `/model_info`. Empty until the first
/// successful fetch.
pub struct ServerMeta<N> {
    pub model_path: String,
    pub served_model_name: String,
    pub version: String,
    pub tp_size: u32,
    pub pp_size: u32,
    pub dp_size: u32,
    pub enable_dp_attention: bool,
    pub enable_metrics_for_all_schedulers: bool,
    pub enable_hierarchical_cache: bool,
    /// Disaggregation role: "null" when unified. Gates the queue row of the role: the
    /// gauges exist on every server but are meaningless zeros unless it is on.
    pub disaggregation_mode: String,
    pub max_total_num_tokens: Option<u64>,
    /// Context window in tokens (`context_length` of `/server_info`, or the
    /// `context_len` gauge): with the pool size it says how many max-length sequences
    /// the pool can actually host.
    pub context_len: Option<u64>,
    /// True once at least one info fetch has populated the above.
    pub loaded: bool,
    /// Engine startup duration by phase, longest phase first, plus graph-capture
    /// seconds and the GPU memory that was free when startup began. Empty on builds
    /// without the family.
    pub startup_phases: Vec<(String, N)>,
    pub startup_graph_secs: Option<N>,
    pub startup_free_gpu_gb: Option<N>,
}

impl<N: Num> ServerMeta<N> {
    /// Nothing is known yet.
    pub open spec fn blank(self) -> bool {
        &&& self.model_path@.len() == 0
        &&& self.served_model_name@.len() == 0
        &&& self.version@.len() == 0
        &&& self.tp_size == 0
        &&& self.pp_size == 0
        &&& self.dp_size == 0
        &&& !self.enable_dp_attention
        &&& !self.enable_metrics_for_all_schedulers
        &&& !self.enable_hierarchical_cache
        &&& self.disaggregation_mode@.len() == 0
        &&& self.max_total_num_tokens is None
        &&& self.context_len is None
        &&& !self.loaded
        &&& self.startup_phases@.len() == 0
        &&& self.startup_graph_secs is None
        &&& self.startup_free_gpu_gb is None
    }
}

impl<N: Num> Default for ServerMeta<N> {
    fn default() -> (r: Self)
        ensures
            r.blank(),
    {
        ServerMeta {
            model_path: String::new(),
            served_model_name: String::new(),
            version: String::new(),
            tp_size: 0,
            pp_size: 0,
            dp_size: 0,
            enable_dp_attention: false,
            enable_metrics_for_all_schedulers: false,
            enable_hierarchical_cache: false,
            disaggregation_mode: String::new(),
            max_total_num_tokens: None,
            context_len: None,
            loaded: false,
            startup_phases: Vec::new(),
            startup_graph_secs: None,
            startup_free_gpu_gb: None,
        }
    }
}

/// Top strip: headline time series, total meter, per-unit rows. `utilization` is a
/// *software* forward-pass wall-time ratio, so the panel is titled "engine".
pub struct EnginePanel<N> {
    pub gen_throughput: N,
    pub gen_series: Ring<N>,
    pub prefill_tps: Option<N>,
    /// Same-tick history of `prefill_tps` (N/A ticks push nought).
    pub prefill_series: Ring<N>,
    pub decode_tps: Option<N>,
    /// Same-tick history of `decode_tps` (N/A ticks push nought).
    pub token_rate_series: Ring<N>,
    /// Engine-software busy ratio (labelled "engine busy").
    pub utilization: Option<N>,
    /// Forward-pass occupancy in percent; a NaN gauge is N/A.
    pub fwd_occupancy: Option<N>,
    pub running_reqs: u64,
    pub waiting_reqs: u64,
    /// Live CPU cores (cpu-seconds per wall-second) of the tokenizer and detokenizer
    /// helper processes. None: `process_cpu_seconds_total` absent.
    pub tokenizer_cores: Option<N>,
    pub detokenizer_cores: Option<N>,
    /// Share of decode forward passes executed under a CUDA graph. Silent degradation
    /// detector. None: family absent.
    pub cg_decode_share: Option<N>,
    /// Sum of all sequence lengths currently in decode (`decode_sum_seq_lens`). None:
    /// family absent.
    pub decode_ctx_sum: Option<N>,
    /// Scheduler admission-pressure dial (`new_token_ratio`). None: family absent.
    pub new_token_ratio: Option<N>,
}

impl<N: Num> EnginePanel<N> {
    /// Nothing is known yet.
    pub open spec fn blank(self) -> bool {
        &&& self.gen_throughput == N::zero_spec()
        &&& self.gen_series@.len() == 0 && self.gen_series.cap() == HIST_CAP
        &&& self.prefill_tps is None
        &&& self.prefill_series@.len() == 0 && self.prefill_series.cap() == HIST_CAP
        &&& self.decode_tps is None
        &&& self.token_rate_series@.len() == 0 && self.token_rate_series.cap() == HIST_CAP
        &&& self.utilization is None
        &&& self.fwd_occupancy is None
        &&& self.running_reqs == 0
        &&& self.waiting_reqs == 0
        &&& self.tokenizer_cores is None
        &&& self.detokenizer_cores is None
        &&& self.cg_decode_share is None
        &&& self.decode_ctx_sum is None
        &&& self.new_token_ratio is None
    }
}

impl<N: Num> Default for EnginePanel<N> {
    fn default() -> (r: Self)
        ensures
            r.blank(),
    {
        EnginePanel {
            gen_throughput: N::zero(),
            gen_series: Ring::new(HIST_CAP),
            prefill_tps: None,
            prefill_series: Ring::new(HIST_CAP),
            decode_tps: None,
            token_rate_series: Ring::new(HIST_CAP),
            utilization: None,
            fwd_occupancy: None,
            running_reqs: 0,
            waiting_reqs: 0,
            tokenizer_cores: None,
            detokenizer_cores: None,
            cg_decode_share: None,
            decode_ctx_sum: None,
            new_token_ratio: None,
        }
    }
}

/// Host tier of the cache, present only with the hierarchical cache on.
pub struct HiCache<N> {
    pub host_used: u64,
    pub host_total: u64,
    /// Where evicted device tokens went: backed up to host or destroyed under host
    /// pressure. None: counters absent.
    pub backuped_total: Option<u64>,
    pub dropped_total: Option<u64>,
    /// Host to GPU reloads: backed-up tokens that were actually reused.
    pub load_back_total: Option<u64>,
    /// Mean per-op duration of the two copies (histogram sum over count). None: family
    /// absent or no ops yet.
    pub backup_mean_secs: Option<N>,
    pub load_back_mean_secs: Option<N>,
    /// Achieved copy bandwidth (bytes a second) while transferring: rate of
    /// `hicache_backup_bytes_total` over the rate of the duration histogram's sum.
    /// None: no transfer in the rate window, or the family is absent.
    pub backup_gbps: Option<N>,
    pub load_back_gbps: Option<N>,
    /// Storage-tier prefetch tokens that failed allocation on arrival. None: counter
    /// absent.
    pub prefetch_failed_total: Option<u64>,
    /// Storage-tier traffic pair. None: no storage backend configured.
    pub storage_backuped_total: Option<u64>,
    pub storage_prefetched_total: Option<u64>,
}

impl<N: Num> HiCache<N> {
    /// Nothing is known yet.
    pub open spec fn blank(self) -> bool {
        &&& self.host_used == 0
        &&& self.host_total == 0
        &&& self.backuped_total is None
        &&& self.dropped_total is None
        &&& self.load_back_total is None
        &&& self.backup_mean_secs is None
        &&& self.load_back_mean_secs is None
        &&& self.backup_gbps is None
        &&& self.load_back_gbps is None
        &&& self.prefetch_failed_total is None
        &&& self.storage_backuped_total is None
        &&& self.storage_prefetched_total is None
    }
}

impl<N: Num> Default for HiCache<N> {
    fn default() -> (r: Self)
        ensures
            r.blank(),
    {
        HiCache {
            host_used: 0,
            host_total: 0,
            backuped_total: None,
            dropped_total: None,
            load_back_total: None,
            backup_mean_secs: None,
            load_back_mean_secs: None,
            backup_gbps: None,
            load_back_gbps: None,
            prefetch_failed_total: None,
            storage_backuped_total: None,
            storage_prefetched_total: None,
        }
    }
}

/// Left top: a bounded pool with used, available and evictable slots.
pub struct KvPanel<N> {
    pub used_tokens: u64,
    pub total_tokens: u64,
    /// The bottleneck ratio (0..1).
    pub token_usage: N,
    pub full_token_usage: Option<N>,
    pub swa_token_usage: Option<N>,
    pub mamba_usage: Option<N>,
    /// Active slot counts for the hybrid sub-pools. None: family absent.
    pub swa_used: Option<u64>,
    pub mamba_used: Option<u64>,
    /// Truly free slots per sub-pool. None: family absent.
    pub swa_available: Option<u64>,
    pub mamba_available: Option<u64>,
    /// Cached slots per sub-pool, the free count's counterpart. None: family absent.
    pub swa_evictable: Option<u64>,
    pub mamba_evictable: Option<u64>,
    pub available_tokens: Option<u64>,
    pub evictable_tokens: Option<u64>,
    /// Lifetime tokens evicted from the device pool; None: family absent. The rate is
    /// over the rolling window.
    pub evicted_total: Option<u64>,
    pub evicted_tps: Option<N>,
    /// Mean duration of one device eviction pass (`eviction_duration_seconds` sum over
    /// count). None: family absent or no passes yet.
    pub evict_pass_mean_secs: Option<N>,
    pub cache_hit_rate: N,
    pub cache_hit_series: Ring<N>,
    pub weight_gb: Option<N>,
    pub kv_cache_gb: Option<N>,
    pub graph_gb: Option<N>,
    /// Hierarchical-cache host memory, present only with the flag on.
    pub hicache: Option<HiCache<N>>,
}

impl<N: Num> KvPanel<N> {
    /// Nothing is known yet.
    pub open spec fn blank(self) -> bool {
        &&& self.used_tokens == 0
        &&& self.total_tokens == 0
        &&& self.token_usage == N::zero_spec()
        &&& self.full_token_usage is None
        &&& self.swa_token_usage is None
        &&& self.mamba_usage is None
        &&& self.swa_used is None
        &&& self.mamba_used is None
        &&& self.swa_available is None
        &&& self.mamba_available is None
        &&& self.swa_evictable is None
        &&& self.mamba_evictable is None
        &&& self.available_tokens is None
        &&& self.evictable_tokens is None
        &&& self.evicted_total is None
        &&& self.evicted_tps is None
        &&& self.evict_pass_mean_secs is None
        &&& self.cache_hit_rate == N::zero_spec()
        &&& self.cache_hit_series@.len() == 0 && self.cache_hit_series.cap() == HIST_CAP
        &&& self.weight_gb is None
        &&& self.kv_cache_gb is None
        &&& self.graph_gb is None
        &&& self.hicache is None
    }
}

impl<N: Num> Default for KvPanel<N> {
    fn default() -> (r: Self)
        ensures
            r.blank(),
    {
        KvPanel {
            used_tokens: 0,
            total_tokens: 0,
            token_usage: N::zero(),
            full_token_usage: None,
            swa_token_usage: None,
            mamba_usage: None,
            swa_used: None,
            mamba_used: None,
            swa_available: None,
            mamba_available: None,
            swa_evictable: None,
            mamba_evictable: None,
            available_tokens: None,
            evictable_tokens: None,
            evicted_total: None,
            evicted_tps: None,
            evict_pass_mean_secs: None,
            cache_hit_rate: N::zero(),
            cache_hit_series: Ring::new(HIST_CAP),
            weight_gb: None,
            kv_cache_gb: None,
            graph_gb: None,
            hicache: None,
        }
    }
}

/// Left bottom: current, peak and total per direction, and what rides on it.
pub struct TrafficPanel<N> {
    pub gen_tps: N,
    pub gen_peak_tps: N,
    pub gen_total_tokens: u64,
    pub gen_series: Ring<N>,
    pub prompt_tps: N,
    pub prompt_peak_tps: N,
    pub prompt_total_tokens: u64,
    pub prompt_series: Ring<N>,
    /// The server's own HTTP counters, with the `/metrics` endpoint excluded: our own
    /// polling would otherwise dominate the rate.
    pub http_rps: Option<N>,
    pub http_err_rate: Option<N>,
    pub http_active: Option<u64>,
    /// Per-route breakdown behind `http_rps`, busiest first. Empty when the family is
    /// absent.
    pub http_endpoints: Vec<HttpEndpoint<N>>,
    /// Device prefix-cache inflow: rate and lifetime total.
    pub cached_device_tps: Option<N>,
    pub cached_device_total: u64,
    /// All-time totals of the other cache tiers. Nought: tier absent.
    pub cached_host_total: u64,
    pub cached_storage_total: u64,
    /// Window prefix-cache share: rate of the hits over the rate of all modes. None
    /// while the window is too quiet to say.
    pub cache_window_share: Option<N>,
    /// Whether the last scrape carried the family behind the window share.
    pub cache_window_known: bool,
    /// Mean request length (tokens) over all served requests.
    pub avg_prompt_len: Option<N>,
    pub avg_gen_len: Option<N>,
    /// Mean *computed* prompt length: what prefill processes after cache hits.
    pub avg_uncached_len: Option<N>,
    /// The same three means over the histogram window: prompt, generated, uncached.
    /// None: quiet window.
    pub len_window: [Option<N>; 3],
    /// Request-lifecycle stage latencies: (stage, mean seconds), slowest first. The
    /// stage set is server-defined, so it is read, never hardcoded. Empty: family
    /// absent.
    pub stage_means: Vec<(String, N)>,
    pub req_rate_in: N,
    pub req_rate_out: N,
    pub total_requests: u64,
    pub aborted: u64,
    pub retracted: u64,
    pub paused: u64,
    pub grammar_queue: u64,
    /// Disaggregation queues, rendered only where a role is on.
    pub pd_prefill_bootstrap: Option<u64>,
    pub pd_prefill_inflight: Option<u64>,
    pub pd_decode_prealloc: Option<u64>,
    pub pd_decode_transfer: Option<u64>,
    pub latency: LatencySet<N>,
}

impl<N: Num> TrafficPanel<N> {
    /// Nothing is known yet.
    pub open spec fn blank(self) -> bool {
        &&& self.gen_tps == N::zero_spec()
        &&& self.gen_peak_tps == N::zero_spec()
        &&& self.gen_total_tokens == 0
        &&& self.gen_series@.len() == 0 && self.gen_series.cap() == HIST_CAP
        &&& self.prompt_tps == N::zero_spec()
        &&& self.prompt_peak_tps == N::zero_spec()
        &&& self.prompt_total_tokens == 0
        &&& self.prompt_series@.len() == 0 && self.prompt_series.cap() == HIST_CAP
        &&& self.http_rps is None
        &&& self.http_err_rate is None
        &&& self.http_active is None
        &&& self.http_endpoints@.len() == 0
        &&& self.cached_device_tps is None
        &&& self.cached_device_total == 0
        &&& self.cached_host_total == 0
        &&& self.cached_storage_total == 0
        &&& self.cache_window_share is None
        &&& !self.cache_window_known
        &&& self.avg_prompt_len is None
        &&& self.avg_gen_len is None
        &&& self.avg_uncached_len is None
        &&& self.len_window@ == seq![None::<N>, None, None]
        &&& self.stage_means@.len() == 0
        &&& self.req_rate_in == N::zero_spec()
        &&& self.req_rate_out == N::zero_spec()
        &&& self.total_requests == 0
        &&& self.aborted == 0
        &&& self.retracted == 0
        &&& self.paused == 0
        &&& self.grammar_queue == 0
        &&& self.pd_prefill_bootstrap is None
        &&& self.pd_prefill_inflight is None
        &&& self.pd_decode_prealloc is None
        &&& self.pd_decode_transfer is None
        &&& self.latency.blank()
    }
}

impl<N: Num> Default for TrafficPanel<N> {
    fn default() -> (r: Self)
        ensures
            r.blank(),
    {
        TrafficPanel {
            gen_tps: N::zero(),
            gen_peak_tps: N::zero(),
            gen_total_tokens: 0,
            gen_series: Ring::new(HIST_CAP),
            prompt_tps: N::zero(),
            prompt_peak_tps: N::zero(),
            prompt_total_tokens: 0,
            prompt_series: Ring::new(HIST_CAP),
            http_rps: None,
            http_err_rate: None,
            http_active: None,
            http_endpoints: Vec::new(),
            cached_device_tps: None,
            cached_device_total: 0,
            cached_host_total: 0,
            cached_storage_total: 0,
            cache_window_share: None,
            cache_window_known: false,
            avg_prompt_len: None,
            avg_gen_len: None,
            avg_uncached_len: None,
            len_window: [None, None, None],
            stage_means: Vec::new(),
            req_rate_in: N::zero(),
            req_rate_out: N::zero(),
            total_requests: 0,
            aborted: 0,
            retracted: 0,
            paused: 0,
            grammar_queue: 0,
            pd_prefill_bootstrap: None,
            pd_prefill_inflight: None,
            pd_decode_prealloc: None,
            pd_decode_transfer: None,
            latency: LatencySet::default(),
        }
    }
}

/// Histogram-derived percentiles; None until the families are there with enough
/// samples to interpolate.
pub struct LatencySet<N> {
    pub queue: Option<Percentile<N>>,
    pub ttft: Option<Percentile<N>>,
    pub itl: Option<Percentile<N>>,
    pub e2e: Option<Percentile<N>>,
    /// Which of the four families the latest scrape carried, in the same order. A row
    /// renders when its flag is set and stays hidden when the family is absent.
    pub known: [bool; 4],
}

impl<N: Num> LatencySet<N> {
    /// Nothing is known yet.
    pub open spec fn blank(self) -> bool {
        &&& self.queue is None
        &&& self.ttft is None
        &&& self.itl is None
        &&& self.e2e is None
        &&& self.known@ == seq![false, false, false, false]
    }
}

impl<N: Num> Default for LatencySet<N> {
    fn default() -> (r: Self)
        ensures
            r.blank(),
    {
        LatencySet {
            queue: None,
            ttft: None,
            itl: None,
            e2e: None,
            known: [false, false, false, false],
        }
    }
}

/// One row in the RANKS box. Row 0 is the aggregate; the rest are per rank.
pub struct RankRow<N> {
    pub dp_rank: u32,
    pub running: u64,
    pub waiting: u64,
    pub used_tokens: u64,
    pub total_tokens: u64,
    pub token_usage: N,
    pub gen_throughput: N,
    pub cache_hit_rate: N,
    pub utilization: Option<N>,
    pub spec_accept_length: Option<N>,
    pub spec_accept_rate: Option<N>,
    pub gen_series: Ring<N>,
}

impl<N: Num> RankRow<N> {
    /// Nothing is known yet.
    pub open spec fn blank(self) -> bool {
        &&& self.dp_rank == 0
        &&& self.running == 0
        &&& self.waiting == 0
        &&& self.used_tokens == 0
        &&& self.total_tokens == 0
        &&& self.token_usage == N::zero_spec()
        &&& self.gen_throughput == N::zero_spec()
        &&& self.cache_hit_rate == N::zero_spec()
        &&& self.utilization is None
        &&& self.spec_accept_length is None
        &&& self.spec_accept_rate is None
        &&& self.gen_series@.len() == 0 && self.gen_series.cap() == HIST_CAP
    }
}

impl<N: Num> Default for RankRow<N> {
    fn default() -> (r: Self)
        ensures
            r.blank(),
    {
        RankRow {
            dp_rank: 0,
            running: 0,
            waiting: 0,
            used_tokens: 0,
            total_tokens: 0,
            token_usage: N::zero(),
            gen_throughput: N::zero(),
            cache_hit_rate: N::zero(),
            utilization: None,
            spec_accept_length: None,
            spec_accept_rate: None,
            gen_series: Ring::new(HIST_CAP),
        }
    }
}

/// One HTTP route the server serves. The lifetime count keeps quiet routes ordered
/// and distinguishes "never served" from "not serving right now".
pub struct HttpEndpoint<N> {
    pub path: String,
    /// Window rate (requests a second); None until this route has a baseline.
    pub rps: Option<N>,
    /// Lifetime count of requests served on this route.
    pub total: u64,
    /// Lifetime count of 4xx and 5xx responses on this route.
    pub err: u64,
}

#[derive(Debug, Clone, Copy)]
pub struct Percentile<N> {
    pub p50: N,
    pub p90: N,
    pub p99: N,
    pub mean: Option<N>,
}

#[derive(Debug, Clone)]
pub enum RankGranularity {
    PerRank,
    /// Every scheduler reported under one rank because the server attributes them
    /// to it; one aggregate row is shown, with the reason in the footer.
    Aggregated(String),
}

impl<N: Num> Snapshot<N> {
    /// Nothing is known yet.
    pub open spec fn blank(self) -> bool {
        &&& self.conn is Pending
        &&& self.server.blank()
        &&& self.engine.blank()
        &&& self.kv.blank()
        &&& self.traffic.blank()
        &&& self.ranks@.len() == 0
        &&& self.rank_granularity is PerRank
        &&& self.paused is None
        &&& !self.metrics_truncated
        &&& self.now == 0
    }
}

impl<N: Num> Default for Snapshot<N> {
    fn default() -> (r: Self)
        ensures
            r.blank(),
    {
        Snapshot {
            conn: Connection::Pending,
            server: ServerMeta::default(),
            engine: EnginePanel::default(),
            kv: KvPanel::default(),
            traffic: TrafficPanel::default(),
            ranks: Vec::new(),
            rank_granularity: RankGranularity::PerRank,
            paused: None,
            metrics_truncated: false,
            now: 0,
        }
    }
}

}
