//! The rates behind a snapshot, read from a scrape in one pass.
use crate::num::Num;
use crate::poll::prom::{named, refs_view, Metrics, Sample, SampleView};
use crate::poll::rate::{observed_all, rates_of, RateTracker, Series};
use crate::poll::read::{choose_samples, chosen, counts_errors, family_rate, is_error,
    is_own_polling, labelled_rate, mode_rate, own_polling, points, points_of, rate_labelled,
    rate_of, rate_of_mode, rate_over, read_rate};
use vstd::prelude::*;

verus! {

/// Every rate that a scrape yields.
#[verifier::ext_equal]
pub struct FlowView<N> {
    pub prefill: Option<N>,
    pub decode: Option<N>,
    pub tokenizer: Option<N>,
    pub detokenizer: Option<N>,
    pub evicted: Option<N>,
    pub backup_bytes: Option<N>,
    pub backup_secs: Option<N>,
    pub requests: Option<N>,
    /// One for each sample of [`http_requests`].
    pub http: Seq<Option<N>>,
    pub http_errors: Option<N>,
    pub cached_device: Option<N>,
    /// One for each sample of [`effective_tokens`].
    pub effective: Seq<Option<N>>,
}

/// The requests served, our own polling excluded.
pub open spec fn http_requests<N>(m: Seq<SampleView<N>>) -> Seq<SampleView<N>> {
    chosen(m, "sglang:http_requests_total"@, |x: SampleView<N>| !own_polling(x))
}

/// The responses with an error status, our own polling excluded.
pub open spec fn http_failures<N>(m: Seq<SampleView<N>>) -> Seq<SampleView<N>> {
    chosen(
        m,
        "sglang:http_responses_total"@,
        |x: SampleView<N>| !own_polling(x) && is_error(x),
    )
}

/// The prefill tokens by mode, where they are numbers.
pub open spec fn effective_tokens<N: Num>(m: Seq<SampleView<N>>) -> Seq<SampleView<N>> {
    chosen(
        m,
        "sglang:prefill_effective_tokens_total"@,
        |x: SampleView<N>| !x.value.is_nan_spec(),
    )
}

/// The rates of a scrape, read one after the other, and the tracked series behind
/// them.
pub open spec fn flow<N: Num>(
    m: Seq<SampleView<N>>,
    s: Series<N>,
    window: u64,
    now: u64,
) -> (FlowView<N>, Series<N>) {
    let prefill = mode_rate(
        s,
        window,
        now,
        m,
        "prefill_compute"@,
        "sglang:prompt_tokens_total"@,
    );
    let decode = mode_rate(
        prefill.after,
        window,
        now,
        m,
        "decode"@,
        "sglang:generation_tokens_total"@,
    );
    let tokenizer = labelled_rate(
        decode.after,
        window,
        now,
        m,
        "sglang:process_cpu_seconds_total"@,
        "component"@,
        "tokenizer"@,
    );
    let detokenizer = labelled_rate(
        tokenizer.after,
        window,
        now,
        m,
        "sglang:process_cpu_seconds_total"@,
        "component"@,
        "detokenizer"@,
    );
    let evicted = rate_over(
        detokenizer.after,
        window,
        now,
        named(m, "sglang:evicted_tokens_total"@),
    );
    let bytes = rate_over(
        evicted.after,
        window,
        now,
        named(m, "sglang:hicache_backup_bytes_total"@),
    );
    let secs = rate_over(
        bytes.after,
        window,
        now,
        named(m, "sglang:hicache_backup_duration_seconds_sum"@),
    );
    let requests = family_rate(secs.after, window, now, m, "sglang:num_requests_total"@);
    let after_http = observed_all(requests.after, window, now, points(http_requests(m)));
    let errors = rate_over(after_http, window, now, http_failures(m));
    let device = labelled_rate(
        errors.after,
        window,
        now,
        m,
        "sglang:cached_tokens_total"@,
        "cache_source"@,
        "device"@,
    );
    (
        FlowView {
            prefill: prefill.rate,
            decode: decode.rate,
            tokenizer: tokenizer.rate,
            detokenizer: detokenizer.rate,
            evicted: evicted.rate,
            backup_bytes: bytes.rate,
            backup_secs: secs.rate,
            requests: requests.rate,
            http: rates_of(requests.after, window, now, points(http_requests(m))),
            http_errors: errors.rate,
            cached_device: device.rate,
            effective: rates_of(device.after, window, now, points(effective_tokens(m))),
        },
        observed_all(device.after, window, now, points(effective_tokens(m))),
    )
}

/// Every rate that a scrape yields.
pub struct Flow<N> {
    pub prefill: Option<N>,
    pub decode: Option<N>,
    pub tokenizer: Option<N>,
    pub detokenizer: Option<N>,
    pub evicted: Option<N>,
    pub backup_bytes: Option<N>,
    pub backup_secs: Option<N>,
    pub requests: Option<N>,
    pub http: Vec<Option<N>>,
    pub http_errors: Option<N>,
    pub cached_device: Option<N>,
    pub effective: Vec<Option<N>>,
}

impl<N> View for Flow<N> {
    type V = FlowView<N>;

    open spec fn view(&self) -> FlowView<N> {
        FlowView {
            prefill: self.prefill,
            decode: self.decode,
            tokenizer: self.tokenizer,
            detokenizer: self.detokenizer,
            evicted: self.evicted,
            backup_bytes: self.backup_bytes,
            backup_secs: self.backup_secs,
            requests: self.requests,
            http: self.http@,
            http_errors: self.http_errors,
            cached_device: self.cached_device,
            effective: self.effective@,
        }
    }
}

/// The requests served, our own polling excluded.
pub fn read_http_requests<'a, N: Num>(m: &'a Metrics<N>) -> (r: Vec<&'a Sample<N>>)
    ensures
        refs_view(r@) == http_requests(m@),
{
    let ghost p = |x: SampleView<N>| !own_polling(x);
    let keep = |x: &Sample<N>| -> (b: bool)
        ensures
            b == p(x@),
    {
        !is_own_polling(x)
    };
    choose_samples(m, "sglang:http_requests_total", keep, Ghost(p))
}

/// The responses with an error status, our own polling excluded.
pub fn read_http_failures<'a, N: Num>(m: &'a Metrics<N>) -> (r: Vec<&'a Sample<N>>)
    ensures
        refs_view(r@) == http_failures(m@),
{
    let ghost p = |x: SampleView<N>| !own_polling(x) && is_error(x);
    let keep = |x: &Sample<N>| -> (b: bool)
        ensures
            b == p(x@),
    {
        !is_own_polling(x) && counts_errors(x)
    };
    choose_samples(m, "sglang:http_responses_total", keep, Ghost(p))
}

/// The prefill tokens by mode, where they are numbers.
pub fn read_effective<'a, N: Num>(m: &'a Metrics<N>) -> (r: Vec<&'a Sample<N>>)
    ensures
        refs_view(r@) == effective_tokens(m@),
{
    let ghost p = |x: SampleView<N>| !x.value.is_nan_spec();
    let keep = |x: &Sample<N>| -> (b: bool)
        ensures
            b == p(x@),
    {
        !x.value.is_nan()
    };
    choose_samples(m, "sglang:prefill_effective_tokens_total", keep, Ghost(p))
}

/// Reads every rate of a scrape.
pub fn read_flow<N: Num>(m: &Metrics<N>, rates: &mut RateTracker<N>, now: u64) -> (r: Flow<N>)
    ensures
        final(rates).window() == old(rates).window(),
        (r@, final(rates)@) == flow(m@, old(rates)@, old(rates).window(), now),
{
    let prefill = rate_of_mode(m, rates, "prefill_compute", "sglang:prompt_tokens_total", now);
    let decode = rate_of_mode(m, rates, "decode", "sglang:generation_tokens_total", now);
    let cpu = "sglang:process_cpu_seconds_total";
    let tokenizer = rate_labelled(m, rates, cpu, "component", "tokenizer", now);
    let detokenizer = rate_labelled(m, rates, cpu, "component", "detokenizer", now);
    let evicted = read_rate(rates, now, &m.get("sglang:evicted_tokens_total"));
    let backup_bytes = read_rate(rates, now, &m.get("sglang:hicache_backup_bytes_total"));
    let backup_secs = read_rate(
        rates,
        now,
        &m.get("sglang:hicache_backup_duration_seconds_sum"),
    );
    let requests = rate_of(m, rates, "sglang:num_requests_total", now);
    let http = rates.rate_each(now, &points_of(&read_http_requests(m)));
    let http_errors = read_rate(rates, now, &read_http_failures(m));
    let cached_device = rate_labelled(
        m,
        rates,
        "sglang:cached_tokens_total",
        "cache_source",
        "device",
        now,
    );
    let effective = rates.rate_each(now, &points_of(&read_effective(m)));
    Flow {
        prefill,
        decode,
        tokenizer,
        detokenizer,
        evicted,
        backup_bytes,
        backup_secs,
        requests,
        http,
        http_errors,
        cached_device,
        effective,
    }
}

}
