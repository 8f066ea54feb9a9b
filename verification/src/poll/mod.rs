//! The poller: what is scraped, when, and what becomes of it.
pub mod exposition;
pub mod fetch;
pub mod flow;
pub mod history;
pub mod info;
pub mod ladder;
pub mod panels;
pub mod percentiles;
pub mod prom;
pub mod quantile;
pub mod ranks;
pub mod rate;
pub mod read;
pub mod steps;
pub mod traffic;
pub mod wholes;

use crate::error::PollError;
use crate::model::snapshot::{Connection, RankGranularity, ServerMeta, Snapshot};
use crate::num::Num;
use crate::poll::flow::{flow, read_flow, FlowView};
use crate::poll::panels::{build_engine, build_kv, build_server, engine_built, kv_built,
    server_built};
use crate::poll::prom::{parse, parsed_from, Metrics, SampleView};
use crate::poll::quantile::{all_recorded, grouped, pruned, EntryView, HistTracker};
use crate::poll::ranks::{build_ranks, rows_built};
use crate::poll::rate::{answers, one_rate_per_point, RateTracker, Series, RATE_WINDOW};
use crate::poll::read::points;
use crate::poll::traffic::{build_traffic, runs_a_role, traffic_built};
use crate::text::{before_char, ends_with, has_suffix, opt_view, same, upto};
use vstd::prelude::*;
use vstd::string::*;
use vstd::utf8::{decode_utf8, decode_utf8_encode_utf8, encode_utf8, encode_utf8_decode_utf8,
    encode_utf8_valid_utf8, is_char_boundary, is_char_boundary_start_end_of_seq, valid_utf8_split};

verus! {

/// Poller-owned conversion state: counter baselines and histogram windows. Both
/// live here, never in the UI.
pub struct PollState<N> {
    pub rates: RateTracker<N>,
    pub hist: HistTracker<N>,
}

impl<N: Num> Default for PollState<N> {
    fn default() -> (r: Self)
        ensures
            r.rates@ == Map::<Seq<char>, Seq<(u64, N)>>::empty(),
            r.rates.window() == RATE_WINDOW,
            r.hist@ == Seq::<EntryView<N>>::empty(),
    {
        PollState { rates: RateTracker::default(), hist: HistTracker::new() }
    }
}

// ---- runtime controls ----

/// UI to poller runtime controls, written by the UI (pause, interval) and read
/// once per turn by the poller. The draw tick is independent, so pausing stops
/// scraping, not drawing.
#[derive(Debug, Clone, Copy, PartialEq, Eq, Structural)]
pub struct PollControl {
    pub paused: bool,
    /// Healthy-scrape pacing in ms; the keys adjust it within 100 to 10000.
    pub interval_ms: u64,
}

impl Default for PollControl {
    fn default() -> (r: Self)
        ensures
            !r.paused,
            r.interval_ms == 0,
    {
        PollControl { paused: false, interval_ms: 0 }
    }
}

/// `v` held to the range of poll intervals.
pub open spec fn paced(v: int) -> u64 {
    if v < 100 {
        100
    } else if v > 10_000 {
        10_000
    } else {
        v as u64
    }
}

/// An interval as a signed number of the same width.
pub open spec fn signed_ms(v: u64) -> int {
    if v > i64::MAX {
        v - 0x1_0000_0000_0000_0000
    } else {
        v as int
    }
}

impl PollControl {
    /// Changes the interval by `delta_ms`, held to the range of intervals.
    pub fn step_interval(&mut self, delta_ms: i64)
        ensures
            final(self).paused == old(self).paused,
            final(self).interval_ms == paced(signed_ms(old(self).interval_ms) + delta_ms),
    {
        let top: u64 = 0x8000_0000_0000_0000;
        let now: i64 = if self.interval_ms >= top {
            (self.interval_ms - top) as i64 + i64::MIN
        } else {
            self.interval_ms as i64
        };
        let next: i128 = now as i128 + delta_ms as i128;
        self.interval_ms = if next < 100 {
            100
        } else if next > 10_000 {
            10_000
        } else {
            next as u64
        };
    }
}

/// A nudge to the UI: the poller has already written into the shared snapshot.
pub struct Tick;

// ---- pacing and liveness ----

/// Consecutive failures tolerated before the connection counts as degraded, and
/// before it counts as lost.
pub const DEGRADED_AFTER: u32 = 1;

pub const LOST_AFTER: u32 = 4;

/// The waits after consecutive failures; the last one repeats.
pub const BACKOFF_MS: [u64; 5] = [1000, 2000, 4000, 8000, 15000];

/// How long a paused poller sleeps before it looks at the controls again.
pub const HELD_MS: u64 = 150;

/// What a turn of the poller begins with.
#[derive(Debug, Clone, Copy, PartialEq, Eq, Structural)]
pub enum Turn {
    /// Held: no scrape and no tick, sleep and look again.
    Hold(u64),
    /// Scrape; after a healthy scrape sleep this long.
    Scrape(u64),
}

impl PollControl {
    /// What the next turn of the poller begins with.
    pub fn turn(&self) -> (r: Turn)
        ensures
            r == if self.paused {
                Turn::Hold(HELD_MS)
            } else {
                Turn::Scrape(self.interval_ms)
            },
    {
        if self.paused {
            Turn::Hold(HELD_MS)
        } else {
            Turn::Scrape(self.interval_ms)
        }
    }
}

/// What the poller does after a failure.
#[derive(Debug, Clone, Copy, PartialEq, Eq, Structural)]
pub enum Next {
    Sleep(u64),
    /// The server is up but metrics are off: polling ends.
    Stop,
}

/// How the polling has gone so far. The interval only paces healthy scrapes;
/// failures escalate their waits until a success returns to healthy.
pub struct Poller {
    pub consecutive: u32,
    pub backoff_idx: usize,
    /// Server identity gate: the metadata is fetched once per identity, so that a
    /// stable server isn't asked every tick.
    pub last_served_name: Option<String>,
}

impl Default for Poller {
    fn default() -> (r: Self)
        ensures
            r.consecutive == 0,
            r.backoff_idx == 0,
            r.last_served_name is None,
    {
        Poller { consecutive: 0, backoff_idx: 0, last_served_name: None }
    }
}

/// Whether the error says that the server has no metrics.
pub open spec fn metrics_are_off(e: PollError) -> bool {
    e matches PollError::Status { status, path } && status == 404 && has_suffix(
        path@,
        "/metrics"@,
    )
}

/// One more failure.
pub open spec fn one_more(n: u32) -> u32 {
    if n == u32::MAX {
        n
    } else {
        (n + 1) as u32
    }
}

/// Whether `c` is the connection after the `n`th failure in a row: lost past the
/// horizon, else degraded. The first slip sets the clock; a retried error does not
/// restart it.
pub open spec fn slipped(c: Connection, was: Connection, n: u32, now: u64, err: Seq<char>) -> bool {
    if n >= LOST_AFTER {
        c matches Connection::Lost { since, last_err } && last_err@ == err && since == (
        match was.lost_since_spec() {
            Some(t) => t,
            None => now,
        })
    } else if n >= DEGRADED_AFTER && !(was is Degraded) {
        c matches Connection::Degraded { since, consecutive, last_err } && last_err@ == err && since
            == now && consecutive == n
    } else {
        c == was
    }
}

/// The step on the ladder of waits that `i` stands for.
pub open spec fn rung(i: usize) -> int {
    if i < 4 {
        i as int
    } else {
        4
    }
}

impl Poller {
    /// A scrape succeeded.
    pub fn succeeded(&mut self)
        ensures
            final(self).consecutive == 0,
            final(self).backoff_idx == 0,
            final(self).last_served_name == old(self).last_served_name,
    {
        self.consecutive = 0;
        self.backoff_idx = 0;
    }

    /// A scrape failed: the connection slips, and the wait grows.
    pub fn failed(&mut self, err: &PollError, now: u64, conn: &mut Connection) -> (r: Next)
        ensures
            final(self).last_served_name == old(self).last_served_name,
            metrics_are_off(*err) ==> {
                &&& r == Next::Stop
                &&& *final(conn) is MetricsDisabled
                &&& final(self).consecutive == old(self).consecutive
                &&& final(self).backoff_idx == old(self).backoff_idx
            },
            !metrics_are_off(*err) ==> {
                &&& r == Next::Sleep(BACKOFF_MS@[rung(old(self).backoff_idx)])
                &&& slipped(
                    *final(conn),
                    *old(conn),
                    one_more(old(self).consecutive),
                    now,
                    err.text(),
                )
                &&& final(self).consecutive == one_more(old(self).consecutive)
                &&& final(self).backoff_idx == if old(self).backoff_idx < 4 {
                    old(self).backoff_idx + 1
                } else {
                    4
                }
            },
    {
        if let PollError::Status { status, path } = err {
            if *status == 404 && ends_with(path.as_str(), "/metrics") {
                // Fatal: the server is up but metrics are off.
                *conn = Connection::MetricsDisabled;
                return Next::Stop;
            }
        }
        let n: u32 = self.consecutive.saturating_add(1);
        self.consecutive = n;
        let degraded = matches!(*conn, Connection::Degraded { .. });
        if n >= LOST_AFTER {
            let since: u64 = match conn.lost_since() {
                Some(t) => t,
                None => now,
            };
            *conn = Connection::Lost { since, last_err: err.to_text() };
        } else if n >= DEGRADED_AFTER && !degraded {
            *conn = Connection::Degraded { since: now, consecutive: n, last_err: err.to_text() };
        }
        let at: usize = if self.backoff_idx < 4 {
            self.backoff_idx
        } else {
            4
        };
        self.backoff_idx = if at < 4 {
            at + 1
        } else {
            4
        };
        Next::Sleep(BACKOFF_MS[at])
    }

    /// Whether the metadata has to be fetched (again).
    pub open spec fn needs_meta_spec(self, loaded: bool, served: Seq<char>) -> bool {
        !loaded || opt_view(self.last_served_name) != Some(served)
    }

    /// Whether the metadata has to be fetched (again).
    pub fn needs_meta(&self, loaded: bool, served: &str) -> (r: bool)
        ensures
            r == self.needs_meta_spec(loaded, served@),
    {
        if !loaded {
            return true;
        }
        match &self.last_served_name {
            Some(name) => !same(name.as_str(), served),
            None => true,
        }
    }

    /// Takes the outcome of the metadata fetch. A failure doesn't degrade the
    /// numbers: it is tried again next turn.
    pub fn on_meta<N: Num>(&mut self, need: bool, meta: Option<ServerMeta<N>>, s: &mut ServerMeta<N>)
        ensures
            final(self).consecutive == old(self).consecutive,
            final(self).backoff_idx == old(self).backoff_idx,
            match meta {
                Some(meta) => *final(s) == meta && opt_view(final(self).last_served_name) == Some(
                    meta.served_model_name@,
                ),
                None => *final(s) == *old(s) && if need {
                    final(self).last_served_name is None
                } else {
                    final(self).last_served_name == old(self).last_served_name
                },
            },
    {
        match meta {
            Some(meta) => {
                self.last_served_name = Some(meta.served_model_name.clone());
                *s = meta;
            },
            None => if need {
                self.last_served_name = None;
            },
        }
    }
}

/// The model that the scrape names first, empty where it names none.
pub open spec fn served_model<N>(m: Seq<SampleView<N>>) -> Seq<char>
    decreases m.len(),
{
    if m.len() == 0 {
        Seq::empty()
    } else {
        match m[0].label("model_name"@) {
            Some(name) => name,
            None => served_model(m.drop_first()),
        }
    }
}

/// The model that the scrape names first, empty where it names none.
pub fn served_name<N: Num>(m: &Metrics<N>) -> (r: String)
    ensures
        r@ == served_model(m@),
{
    let n: usize = m.samples.len();
    let mut i: usize = 0;
    assert(m@.skip(0) =~= m@);
    while i < n
        invariant
            i <= n,
            n == m.samples@.len(),
            served_model(m@) == served_model(m@.skip(i as int)),
        decreases n - i,
    {
        assert(m@.skip(i as int).drop_first() =~= m@.skip(i + 1));
        assert(m@[i as int] == m.samples@[i as int]@);
        if let Some(name) = m.samples[i].label("model_name") {
            return name.to_owned();
        }
        i += 1;
    }
    String::new()
}

// ---- the body limit ----

/// The last character boundary at or before `at`.
pub open spec fn boundary_before(bytes: Seq<u8>, at: nat) -> nat
    decreases at,
{
    if at == 0 || is_char_boundary(bytes, at as int) {
        at
    } else {
        boundary_before(bytes, (at - 1) as nat)
    }
}

/// A text up to `max` bytes, cut on a character boundary.
pub open spec fn clipped(s: Seq<char>, max: nat) -> Seq<char> {
    let bytes = encode_utf8(s);
    if bytes.len() <= max {
        s
    } else {
        decode_utf8(bytes.take(boundary_before(bytes, max) as int))
    }
}

/// The body up to `max` bytes, cut on a character boundary.
pub fn clip_utf8(s: &str, max: usize) -> (r: &str)
    ensures
        r@ == clipped(s@, max as nat),
{
    let n: usize = s.as_bytes().len();
    if n <= max {
        return s;
    }
    proof {
        encode_utf8_valid_utf8(s@);
        is_char_boundary_start_end_of_seq(encode_utf8(s@));
    }
    let mut end: usize = max;
    while end > 0 && !s.is_char_boundary(end)
        invariant
            end <= max,
            boundary_before(encode_utf8(s@), max as nat) == boundary_before(
                encode_utf8(s@),
                end as nat,
            ),
        decreases end,
    {
        end -= 1;
    }
    let parts = s.split_at(end);
    let r = parts.0;
    proof {
        encode_utf8_decode_utf8(r@);
        assert(encode_utf8(r@) =~= encode_utf8(s@).take(end as int));
    }
    r
}

/// Whether more than `max` bytes were sent.
pub open spec fn is_cut(s: Seq<char>, max: nat) -> bool {
    encode_utf8(s).len() > max
}

/// The samples of a `/metrics` body of which at most `max` bytes are read. A body that
/// was cut is flagged, and so is a severed tail.
pub fn read_metrics<N: Num>(body: &str, max: u64) -> (r: Metrics<N>)
    ensures
        r@ == parsed_from::<N>(clipped(body@, max as nat), 0).0,
        r.truncated == (is_cut(body@, max as nat) || parsed_from::<N>(
            clipped(body@, max as nat),
            0,
        ).1),
{
    let max: usize = if max > usize::MAX as u64 {
        usize::MAX
    } else {
        max as usize
    };
    let cut = body.as_bytes().len() > max;
    let mut m = parse(clip_utf8(body, max));
    m.truncated = m.truncated || cut;
    m
}

// ---- the snapshot ----

/// The reason of the first pause that the scrape shows.
pub open spec fn pause_reason<N: Num>(m: Seq<SampleView<N>>) -> Option<Seq<char>>
    decreases m.len(),
{
    if m.len() == 0 {
        None
    } else if m[0].name == "sglang:num_paused_reqs"@ && N::zero_spec().less_spec(m[0].value)
        && m[0].label("pause_reason"@) is Some {
        m[0].label("pause_reason"@)
    } else {
        pause_reason(m.drop_first())
    }
}

/// The reason of the first pause that the scrape shows.
fn read_pause<N: Num>(m: &Metrics<N>) -> (r: Option<String>)
    ensures
        opt_view(r) == pause_reason(m@),
{
    let n: usize = m.samples.len();
    let mut i: usize = 0;
    assert(m@.skip(0) =~= m@);
    while i < n
        invariant
            i <= n,
            n == m.samples@.len(),
            pause_reason(m@) == pause_reason(m@.skip(i as int)),
        decreases n - i,
    {
        assert(m@.skip(i as int).drop_first() =~= m@.skip(i + 1));
        let x = &m.samples[i];
        assert(m@[i as int] == x@);
        if same(x.name.as_str(), "sglang:num_paused_reqs") && N::zero().less(x.value) {
            if let Some(reason) = x.label("pause_reason") {
                return Some(reason.to_owned());
            }
        }
        i += 1;
    }
    None
}

/// Whether the scrape has a sample of the metric that `key` belongs to.
pub open spec fn key_is_live<N>(m: Seq<SampleView<N>>, key: Seq<char>) -> bool {
    exists|i: int| 0 <= i < m.len() && (#[trigger] m[i]).name == upto(key, '|')
}

/// Whether the scrape has a sample of the metric that `key` belongs to.
fn is_live_key<N: Num>(m: &Metrics<N>, key: &str) -> (r: bool)
    ensures
        r == key_is_live(m@, key@),
{
    let name = before_char(key, '|');
    let n: usize = m.samples.len();
    let mut i: usize = 0;
    while i < n
        invariant
            i <= n,
            n == m.samples@.len(),
            name@ == upto(key@, '|'),
            forall|j: int| 0 <= j < i ==> (#[trigger] m@[j]).name != upto(key@, '|'),
        decreases n - i,
    {
        assert(m@[i as int] == m.samples@[i as int]@);
        if same(m.samples[i].name.as_str(), name.as_str()) {
            return true;
        }
        i += 1;
    }
    false
}

/// The series of the metrics that the scrape still has.
pub open spec fn retained<N>(s: Series<N>, m: Seq<SampleView<N>>) -> Series<N> {
    s.restrict(Set::new(|k: Seq<char>| key_is_live(m, k)))
}

/// The histogram windows after a scrape.
pub open spec fn hist_after<N: Num>(
    h: Seq<EntryView<N>>,
    m: Seq<SampleView<N>>,
    now: u64,
) -> Seq<EntryView<N>> {
    pruned(all_recorded(h, grouped(m), now), m)
}

/// Whether the server attributes every scheduler to one rank: per-rank rows would
/// be duplicates of a single attribution.
pub open spec fn collapses_ranks<N>(s: ServerMeta<N>) -> bool {
    s.loaded && s.enable_dp_attention && !s.enable_metrics_for_all_schedulers
}

/// How far rows can be told apart after a scrape.
pub open spec fn granularity_built(
    g: RankGranularity,
    was: RankGranularity,
    collapses: bool,
) -> bool {
    if collapses {
        g matches RankGranularity::Aggregated(why) && why@
            == "--enable-dp-attention without --enable-metrics-for-all-schedulers"@
    } else {
        g == was
    }
}

/// The snapshot after a scrape: its rates are `f`, and the histogram windows after
/// it are `hist`.
pub open spec fn snapshot_built<N: Num>(
    s: Snapshot<N>,
    was: Snapshot<N>,
    m: Metrics<N>,
    f: FlowView<N>,
    hist: Seq<EntryView<N>>,
    now: u64,
    rtt: u64,
) -> bool {
    &&& s.metrics_truncated == m.truncated
    &&& granularity_built(s.rank_granularity, was.rank_granularity, collapses_ranks(was.server))
    &&& server_built(s.server, was.server, m@)
    &&& engine_built(s.engine, was.engine, m@, f)
    &&& kv_built(s.kv, was.kv, m@, f)
    &&& traffic_built(
        s.traffic,
        was.traffic,
        m@,
        f,
        hist,
        now,
        runs_a_role(was.server.disaggregation_mode@),
    )
    &&& rows_built(
        s.ranks@,
        was.ranks@,
        m@,
        s.rank_granularity is PerRank,
        s.engine,
        s.kv,
    )
    &&& opt_view(s.paused) == pause_reason(m@)
    &&& s.conn == (Connection::Live { rtt, metrics_ok: true })
    &&& s.now == now
}

/// The single data-writing path: fold a fresh scrape into the live snapshot,
/// pushing exactly one history sample per ring (history lives *in* the snapshot so
/// it survives across ticks).
#[verifier::rlimit(30)]
#[verifier::spinoff_prover]
pub fn build<N: Num>(
    m: &Metrics<N>,
    st: &mut PollState<N>,
    now: u64,
    rtt: u64,
    s: &mut Snapshot<N>,
)
    ensures
        snapshot_built(
            *final(s),
            *old(s),
            *m,
            flow(m@, old(st).rates@, old(st).rates.window(), now).0,
            hist_after(old(st).hist@, m@, now),
            now,
            rtt,
        ),
        final(st).rates.window() == old(st).rates.window(),
        final(st).rates@ == retained(
            flow(m@, old(st).rates@, old(st).rates.window(), now).1,
            m@,
        ),
        final(st).hist@ == hist_after(old(st).hist@, m@, now),
{
    s.metrics_truncated = m.truncated;
    st.hist.update(m, now);
    st.hist.prune_to(m);
    // Every scheduler reports under one rank: collapse the rows to one aggregate
    // and a footer reason, rather than render rows that look distinct but aren't.
    if s.server.loaded && s.server.enable_dp_attention
        && !s.server.enable_metrics_for_all_schedulers {
        s.rank_granularity = RankGranularity::Aggregated(
            "--enable-dp-attention without --enable-metrics-for-all-schedulers".to_owned(),
        );
    }
    let role = same(s.server.disaggregation_mode.as_str(), "prefill") || same(
        s.server.disaggregation_mode.as_str(),
        "decode",
    ) || same(s.server.disaggregation_mode.as_str(), "both");

    let f = read_flow(m, &mut st.rates, now);
    proof {
        flow_lengths(m@, old(st).rates@, old(st).rates.window(), now);
    }
    build_server(m, &mut s.server);
    build_engine(m, &f, &mut s.engine);
    build_kv(m, &f, &mut s.kv);
    build_traffic(m, &f, &st.hist, now, role, &mut s.traffic);
    let per_rank = matches!(s.rank_granularity, RankGranularity::PerRank);
    s.ranks = build_ranks(m, per_rank, &s.engine, &s.kv, &s.ranks);
    s.paused = read_pause(m);

    // Drop the baselines of metrics this scrape no longer contains, so that stale
    // ones can't pin memory.
    let ghost before = st.rates@;
    let keep = |key: &str| -> (b: bool)
        ensures
            b == key_is_live(m@, key@),
    {
        is_live_key(m, key)
    };
    st.rates.retain(keep);
    proof {
        assert forall|k: Seq<char>| #[trigger]
            before.contains_key(k) implies st.rates@.contains_key(k) == key_is_live(m@, k) by {
            assert(answers(keep, k, st.rates@.contains_key(k)));
        }
        assert(st.rates@ =~= retained(before, m@));
    }

    s.conn = Connection::Live { rtt, metrics_ok: true };
    s.now = now;
}

proof fn flow_lengths<N: Num>(m: Seq<SampleView<N>>, s: Series<N>, window: u64, now: u64)
    ensures
        flow(m, s, window, now).0.http.len() == crate::poll::flow::http_requests(m).len(),
        flow(m, s, window, now).0.effective.len() == crate::poll::flow::effective_tokens(m).len(),
{
    assert forall|x: Series<N>, of: Seq<SampleView<N>>| #[trigger]
        crate::poll::rate::rates_of(x, window, now, points(of)).len() == of.len() by {
        one_rate_per_point(x, window, now, points(of));
    }
}

// ---- laws ----

proof fn boundary_is_found(bytes: Seq<u8>, at: nat)
    requires
        is_char_boundary(bytes, 0),
    ensures
        boundary_before(bytes, at) <= at,
        is_char_boundary(bytes, boundary_before(bytes, at) as int),
        forall|k: int|
            boundary_before(bytes, at) < k <= at ==> !(#[trigger] is_char_boundary(bytes, k)),
    decreases at,
{
    if at > 0 && !is_char_boundary(bytes, at as int) {
        boundary_is_found(bytes, (at - 1) as nat);
    }
}

/// A clipped body is the beginning of the body, within the limit; a body within the
/// limit is left alone, and no longer beginning that ends on a character fits.
pub proof fn clipping_keeps_the_beginning(s: Seq<char>, max: nat)
    ensures
        encode_utf8(clipped(s, max)).len() <= max,
        encode_utf8(clipped(s, max)).is_prefix_of(encode_utf8(s)),
        !is_cut(s, max) ==> clipped(s, max) == s,
        forall|k: int|
            encode_utf8(clipped(s, max)).len() < k <= max && k < encode_utf8(s).len()
                ==> !(#[trigger] is_char_boundary(encode_utf8(s), k)),
{
    let bytes = encode_utf8(s);
    if is_cut(s, max) {
        encode_utf8_valid_utf8(s);
        is_char_boundary_start_end_of_seq(bytes);
        boundary_is_found(bytes, max);
        let at = boundary_before(bytes, max) as int;
        valid_utf8_split(bytes, at);
        assert(bytes.take(at) =~= bytes.subrange(0, at));
        decode_utf8_encode_utf8(bytes.take(at));
    }
}

/// Once liveness has slipped, further failures keep the moment at which it first
/// slipped.
pub proof fn staleness_clock_is_kept(
    c: Connection,
    was: Connection,
    n: u32,
    now: u64,
    err: Seq<char>,
)
    requires
        was is Degraded || n >= LOST_AFTER,
        was.lost_since_spec() is Some,
        slipped(c, was, n, now, err),
    ensures
        c.lost_since_spec() == was.lost_since_spec(),
{
}

/// A failure always shows: after it the connection is degraded or lost.
pub proof fn failure_always_shows(c: Connection, was: Connection, n: u32, now: u64, err: Seq<char>)
    requires
        n >= DEGRADED_AFTER,
        slipped(c, was, n, now, err),
    ensures
        c is Degraded || c is Lost,
        c.lost_since_spec() is Some,
{
}

/// The waits never shrink while failures go on.
pub proof fn waits_never_shrink(i: usize)
    ensures
        BACKOFF_MS@[rung(i)] <= BACKOFF_MS@[rung(
            if i < 4 {
                (i + 1) as usize
            } else {
                4
            },
        )],
        1000 <= BACKOFF_MS@[rung(i)] <= 15000,
{
    if i == 0 {
    } else if i == 1 {
    } else if i == 2 {
    } else if i == 3 {
    }
}

/// A stepped interval lies within its range.
pub proof fn interval_stays_in_range(v: int)
    ensures
        100 <= paced(v) <= 10_000,
{
}

}
