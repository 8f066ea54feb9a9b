use sgtop::num::{Num, Text};
use sgtop::poll::prom::{self, Metrics, Selector};
use sgtop::poll::quantile::HistTracker;
use sgtop::poll::rate::RateTracker;
use sgtop::model::hist::Ring;

/// Double precision, as the monitor runs with it.
#[derive(Clone, Copy, Debug, PartialEq)]
struct F(f64);

impl std::fmt::Display for F {
    fn fmt(&self, out: &mut std::fmt::Formatter<'_>) -> std::fmt::Result {
        self.0.fmt(out)
    }
}

impl PartialEq<f64> for F {
    fn eq(&self, other: &f64) -> bool {
        self.0 == *other
    }
}

impl std::ops::Sub<f64> for F {
    type Output = f64;

    fn sub(self, other: f64) -> f64 {
        self.0 - other
    }
}

impl Num for F {
    fn zero() -> F {
        F(0.0)
    }

    fn lowest() -> F {
        F(f64::MIN)
    }

    fn epsilon() -> F {
        F(f64::EPSILON)
    }

    fn infinity() -> F {
        F(f64::INFINITY)
    }

    fn neg_infinity() -> F {
        F(f64::NEG_INFINITY)
    }

    fn nan() -> F {
        F(f64::NAN)
    }

    fn of_count(n: u64) -> F {
        F(n as f64)
    }

    fn of_nanos(n: u64) -> F {
        F(std::time::Duration::from_nanos(n).as_secs_f64())
    }

    fn read(text: &str) -> Option<F> {
        text.parse().ok().map(F)
    }

    fn plus(self, other: F) -> F {
        F(self.0 + other.0)
    }

    fn minus(self, other: F) -> F {
        F(self.0 - other.0)
    }

    fn times(self, other: F) -> F {
        F(self.0 * other.0)
    }

    fn over(self, other: F) -> F {
        F(self.0 / other.0)
    }

    fn round(self) -> F {
        F(self.0.round())
    }

    fn less(self, other: F) -> bool {
        self.0 < other.0
    }

    fn below(self, other: F) -> bool {
        self.0.total_cmp(&other.0).is_lt()
    }

    fn is_nan(self) -> bool {
        self.0.is_nan()
    }

    fn is_finite(self) -> bool {
        self.0.is_finite()
    }

    fn to_count(self) -> u64 {
        self.0 as u64
    }

    fn fixed(self, places: u8) -> String {
        format!("{:.*}", places as usize, self.0)
    }

    fn shown(self) -> String {
        format!("{}", self.0)
    }

    // The model of each operation is the operation itself; only proofs speak of it.

    fn zero_spec() -> F {
        F::zero()
    }

    fn lowest_spec() -> F {
        F::lowest()
    }

    fn epsilon_spec() -> F {
        F::epsilon()
    }

    fn infinity_spec() -> F {
        F::infinity()
    }

    fn neg_infinity_spec() -> F {
        F::neg_infinity()
    }

    fn nan_spec() -> F {
        F::nan()
    }

    fn of_count_spec(n: u64) -> F {
        F::of_count(n)
    }

    fn of_nanos_spec(n: u64) -> F {
        F::of_nanos(n)
    }

    fn read_spec(_: Text) -> Option<F> {
        unreachable!()
    }

    fn plus_spec(self, other: F) -> F {
        self.plus(other)
    }

    fn minus_spec(self, other: F) -> F {
        self.minus(other)
    }

    fn times_spec(self, other: F) -> F {
        self.times(other)
    }

    fn over_spec(self, other: F) -> F {
        self.over(other)
    }

    fn round_spec(self) -> F {
        self.round()
    }

    fn less_spec(self, other: F) -> bool {
        self.less(other)
    }

    fn below_spec(self, other: F) -> bool {
        self.below(other)
    }

    fn is_nan_spec(self) -> bool {
        self.is_nan()
    }

    fn is_finite_spec(self) -> bool {
        self.is_finite()
    }

    fn to_count_spec(self) -> u64 {
        self.to_count()
    }

    fn fixed_spec(self, _: u8) -> Text {
        unreachable!()
    }

    fn shown_spec(self) -> Text {
        unreachable!()
    }

    fn less_asymmetric(_: F, _: F) {}

    fn less_transitive(_: F, _: F, _: F) {}

    fn less_splits(_: F, _: F, _: F) {}

    fn less_excludes_nan(_: F, _: F) {}

    fn below_asymmetric(_: F, _: F) {}

    fn below_transitive(_: F, _: F, _: F) {}

    fn below_total(_: F, _: F) {}

    fn named_values() {}
    fn shown_is_read_back(_: F) {}
    fn no_growth(_: F) {}
}

const SEC: u64 = 1_000_000_000;

/// A moment on the monotonic clock.
const T0: u64 = 5_000 * SEC;

fn parse(text: &str) -> Metrics<F> {
    prom::parse(text)
}

// ---- histories ----

#[test]
fn tail_window_is_newest_n_not_oldest_n() {
    let mut r = Ring::new(8);
    for i in 0..10 {
        r.push(F(i as f64));
    }
    assert_eq!(r.len(), 8, "ring full");
    let newest3 = r.tail_owned(3);
    assert_eq!(newest3, vec![F(7.0), F(8.0), F(9.0)], "window = newest 3, not oldest 3");
}

#[test]
fn window_peak_includes_the_current_sample() {
    let mut r = Ring::new(1024);
    for _ in 0..300 {
        r.push(F(100.0));
    }
    r.push(F(500.0));
    for _ in 0..150 {
        r.push(F(100.0));
    }
    r.push(F(1000.0));
    let window = 440;
    let mx = r.tail_owned(window).into_iter().map(|v| v.0).fold(0.0f64, f64::max);
    assert!(mx >= 1000.0, "window peak {mx} must cover current 1000 (cur<=peak)");
}

#[test]
fn a_full_ring_forgets_its_oldest_sample() {
    let mut r = Ring::new(2);
    assert!(r.is_empty());
    assert_eq!(r.last(), None);
    assert_eq!(r.max(), None);
    r.push(F(3.0));
    r.push(F(1.0));
    r.push(F(2.0));
    assert_eq!(r.samples(), vec![F(1.0), F(2.0)]);
    assert_eq!(r.last(), Some(F(2.0)));
    assert_eq!(r.max(), Some(F(2.0)));
    let mut out = vec![F(9.0)];
    r.tail(5, &mut out);
    assert_eq!(out, vec![F(1.0), F(2.0)]);
    assert_eq!(r.clone().samples(), r.samples());
}

// ---- the exposition format ----

#[test]
fn plain_and_labeled() {
    let m = parse("sglang:uptime_seconds 123.5\n# HELP x\n# TYPE x gauge\nfoo{a=\"1\"} 2\n");
    assert_eq!(m.samples.len(), 2);
    assert_eq!(m.value("sglang:uptime_seconds", &[]), Some(F(123.5)));
    assert_eq!(m.value("foo", &[("a", "1")]), Some(F(2.0)));
    assert_eq!(m.value("foo", &[("a", "2")]), None);
    assert!(!m.truncated);
}

#[test]
fn colon_and_dot_names() {
    let m = parse("sglang:num_running_reqs{model_name=\"x\"} 7\n");
    assert_eq!(m.value("sglang:num_running_reqs", &[("model_name", "x")]), Some(F(7.0)));
}

#[test]
fn escaped_labels() {
    let m = parse(r#"m{a="1,2",b="say \"hi\""} 9"#);
    let s = &m.samples[0];
    assert_eq!(s.label("a"), Some("1,2"));
    assert_eq!(s.label("b"), Some("say \"hi\""));
    assert_eq!(s.value, 9.0);
}

#[test]
fn cjk_label_values() {
    let m = parse("m{model_name=\"李模型-𝟚\"} 1\n");
    assert_eq!(m.samples[0].label("model_name"), Some("李模型-𝟚"));
}

#[test]
fn special_values() {
    let m = parse("a NaN\nb +Inf\nc -Inf\nd 1e3\n");
    let vals: Vec<_> = m.samples.iter().map(|s| s.value).collect();
    assert!(vals[0].is_nan());
    assert_eq!(vals[1], f64::INFINITY);
    assert_eq!(vals[2], f64::NEG_INFINITY);
    assert_eq!(vals[3], 1000.0);
}

#[test]
fn truncated_tail_flagged() {
    let m = parse("a 1\nb{c=\"unclosed");
    assert_eq!(m.samples.len(), 1);
    assert!(m.truncated);
}

#[test]
fn timestamp_ignored() {
    let m = parse("m 5 1699999999999\n");
    assert_eq!(m.value("m", &[]), Some(F(5.0)));
}

#[test]
fn selector_first_candidate_wins() {
    let m = parse("num_retractions 4\n");
    let sel = Selector::new(&m);
    assert_eq!(
        sel.value(&["sglang:num_retracted_requests_total", "num_retractions"], &[]),
        Some(F(4.0))
    );
    assert_eq!(sel.value(&["never:present"], &[]), None);
}

#[test]
fn labels_are_kept_in_order_and_make_the_key() {
    let m = parse("m{b=\"2\",a=\"1\"} 1\nplain 1\n");
    let names: Vec<&str> = m.samples[0].labels.iter().map(|l| l.0.as_str()).collect();
    assert_eq!(names, vec!["a", "b"]);
    let other = parse("m{a=\"1\",b=\"2\"} 7\n");
    assert_eq!(m.samples[0].key(), other.samples[0].key());
    assert_eq!(m.samples[1].key(), "plain|");
    assert_ne!(m.samples[0].key(), m.samples[1].key());
}

#[test]
fn broken_lines_are_left_out_and_only_the_last_one_is_flagged() {
    let m = parse("m{a=\"1\" 2\nok 1\nnovalue\nbad x\n m2 3\n");
    let names: Vec<&str> = m.samples.iter().map(|s| s.name.as_str()).collect();
    assert_eq!(names, vec!["ok", "m2"]);
    assert!(!m.truncated);
    assert!(parse("ok 1\nbad x\n").truncated);
    assert!(parse("").samples.is_empty());
    assert!(!parse("").truncated);
}

#[test]
fn get_keeps_the_order_of_the_scrape() {
    let m = parse("x{i=\"1\"} 1\ny 5\nx{i=\"2\"} 2\n");
    let vals: Vec<F> = m.get("x").iter().map(|s| s.value).collect();
    assert_eq!(vals, vec![F(1.0), F(2.0)]);
    assert_eq!(m.find("x", &[("i", "2")]).map(|s| s.value), Some(F(2.0)));
    assert!(m.get("z").is_empty());
}

// ---- rates ----

#[test]
fn first_observation_has_no_rate() {
    let mut rt = RateTracker::default();
    assert_eq!(rt.rate("c", T0, F(100.0)), None);
}

#[test]
fn second_observation_needs_time_separation() {
    let mut rt = RateTracker::default();
    rt.rate("c", T0, F(100.0));
    assert_eq!(rt.rate("c", T0, F(110.0)), None);
}

#[test]
fn delta_over_elapsed() {
    let mut rt = RateTracker::default();
    rt.rate("c", T0, F(100.0));
    let r = rt.rate("c", T0 + 2 * SEC, F(110.0)).unwrap();
    assert!((r - 5.0).abs() < 0.01, "{r}");
}

#[test]
fn sliding_baseline_smears_a_burst() {
    let mut rt = RateTracker::with_window(45 * SEC);
    rt.rate("c", T0, F(1000.0));
    assert!((rt.rate("c", T0 + 30 * SEC, F(1200.0)).unwrap() - 200.0 / 30.0).abs() < 1e-9);
    let t2 = T0 + 35 * SEC;
    rt.rate("c", t2, F(1200.0));
    let r = rt.rate("c", t2, F(1200.0)).unwrap();
    assert!((r - 200.0 / 35.0).abs() < 1e-9, "{r}");
}

#[test]
fn window_expiry_drops_old_baseline() {
    let mut rt = RateTracker::with_window(30 * SEC);
    rt.rate("c", T0, F(1000.0));
    let t1 = T0 + 40 * SEC;
    rt.rate("c", t1, F(1200.0));
    assert_eq!(rt.rate("c", t1, F(1200.0)), None);
}

#[test]
fn reset_clears_history_and_rebaselines() {
    let mut rt = RateTracker::default();
    rt.rate("c", T0, F(100.0));
    let t1 = T0 + SEC;
    assert_eq!(rt.rate("c", t1, F(3.0)), None);
    assert!((rt.rate("c", t1 + SEC, F(5.0)).unwrap() - 2.0).abs() < 1e-9);
}

#[test]
fn counters_do_not_disturb_each_other() {
    let mut rt = RateTracker::default();
    rt.rate("a", T0, F(0.0));
    rt.rate("b", T0, F(0.0));
    let pts = vec![("a".to_string(), F(4.0)), ("b".to_string(), F(8.0)), ("c".to_string(), F(1.0))];
    assert_eq!(rt.rate_each(T0 + 2 * SEC, &pts), vec![Some(F(2.0)), Some(F(4.0)), None]);
    let next = vec![("a".to_string(), F(8.0)), ("b".to_string(), F(8.0))];
    assert_eq!(rt.rate_sum(T0 + 4 * SEC, &next), Some(F(4.0)));
    rt.retain(|key| key == "b");
    assert_eq!(rt.rate("a", T0 + 6 * SEC, F(9.0)), None, "forgotten counters start anew");
    assert!(rt.rate("b", T0 + 6 * SEC, F(9.0)).is_some());
    let none: Vec<(String, F)> = Vec::new();
    assert_eq!(rt.rate_sum(T0 + 7 * SEC, &none), None);
}

// ---- histograms ----

fn scrape(v1: f64, v2: f64) -> String {
    format!(
        "sglang:time_to_first_token_seconds_bucket{{is_streaming=\"false\",le=\"1.0\"}} {v1}\n\
         sglang:time_to_first_token_seconds_bucket{{is_streaming=\"false\",le=\"2.0\"}} {v2}\n\
         sglang:time_to_first_token_seconds_bucket{{is_streaming=\"false\",le=\"+Inf\"}} {v2}\n"
    )
}

const TTFT: &str = "sglang:time_to_first_token_seconds";

#[test]
fn first_scrape_has_no_percentiles() {
    let mut t = HistTracker::new();
    t.update(&parse(&scrape(3.0, 5.0)), T0);
    assert!(t.latency(TTFT, T0).is_none(), "no delta → honest N/A");
}

#[test]
fn interpolates_inside_the_containing_bucket() {
    let mut t = HistTracker::new();
    t.update(&parse(&scrape(3.0, 5.0)), T0);
    t.update(&parse(&scrape(5.0, 7.0)), T0 + SEC);
    let p = t.latency(TTFT, T0 + 2 * SEC).unwrap();
    assert!((p.p50 - 0.5).abs() < 1e-9, "mid of the [0,1) mass: {}", p.p50);
}

#[test]
fn window_merges_across_scrapes() {
    let mut t = HistTracker::new();
    t.update(&parse(&scrape(0.0, 0.0)), T0);
    t.update(&parse(&scrape(4.0, 4.0)), T0 + SEC);
    t.update(&parse(&scrape(4.0, 8.0)), T0 + 2 * SEC);
    let p = t.latency(TTFT, T0 + 3 * SEC).unwrap();
    assert!((p.p50 - 1.0).abs() < 1e-9, "boundary edge: {}", p.p50);
    assert!((p.p90 - 1.8).abs() < 1e-9, "p90 inside [1,2): {}", p.p90);
}

#[test]
fn window_expiry_empties_percentiles_again() {
    let mut t = HistTracker::new();
    t.update(&parse(&scrape(0.0, 0.0)), T0);
    t.update(&parse(&scrape(10.0, 10.0)), T0 + SEC);
    assert!(t.latency(TTFT, T0 + 31 * SEC).is_some());
    assert!(t.latency(TTFT, T0 + 61 * SEC).is_none());
}

#[test]
fn mean_from_sum_count_window() {
    let mut t = HistTracker::new();
    let s = |a: f64, b: f64, sm: f64, ct: f64| {
        format!(
            "{}sglang:time_to_first_token_seconds_sum{{is_streaming=\"false\"}} {sm}\n\
             sglang:time_to_first_token_seconds_count{{is_streaming=\"false\"}} {ct}\n",
            scrape(a, b)
        )
    };
    t.update(&parse(&s(0.0, 0.0, 0.0, 0.0)), T0);
    t.update(&parse(&s(10.0, 10.0, 8.0, 10.0)), T0 + SEC);
    let p = t.latency(TTFT, T0 + 2 * SEC).unwrap();
    assert!((p.mean.unwrap() - 0.8).abs() < 1e-9, "mean: {:?}", p.mean);
    assert!((t.windowed_mean(TTFT, T0 + 2 * SEC).unwrap() - 0.8).abs() < 1e-9);
}

#[test]
fn plus_inf_mass_clamps_to_last_finite_edge() {
    let mut t = HistTracker::new();
    t.update(&parse(&scrape(0.0, 0.0)), T0);
    let b = "sglang:time_to_first_token_seconds_bucket{is_streaming=\"false\",le=\"+Inf\"} 7\n";
    let second = format!("{}{}", scrape(0.0, 0.0), b);
    t.update(&parse(&second), T0 + SEC);
    let p = t.latency(TTFT, T0 + 2 * SEC).unwrap();
    assert_eq!(p.p50, 2.0, "clamped to the last finite edge");
}

#[test]
fn counter_reset_clamps_to_zero_not_negative() {
    let mut t = HistTracker::new();
    t.update(&parse(&scrape(5.0, 9.0)), T0);
    t.update(&parse(&scrape(1.0, 1.0)), T0 + SEC);
    assert!(t.latency(TTFT, T0 + 2 * SEC).is_none());
}

#[test]
fn untracked_families_are_not_baselined() {
    let mut t = HistTracker::new();
    t.update(&parse("sglang:eviction_duration_seconds_bucket{le=\"1.0\"} 5\n"), T0);
    assert!(!t.known("sglang:eviction_duration_seconds"));
}

#[test]
fn families_that_leave_the_scrape_are_forgotten() {
    let mut t = HistTracker::new();
    t.update(&parse(&scrape(3.0, 5.0)), T0);
    assert!(t.known(TTFT));
    t.prune_to(&parse("x 1\n"));
    assert!(!t.known(TTFT));
    assert_eq!(t.windowed_mean(TTFT, T0), None);
}

#[test]
fn percentiles_are_ordered_and_inside_the_edges() {
    let mut t = HistTracker::new();
    t.update(&parse(&scrape(0.0, 0.0)), T0);
    t.update(&parse(&scrape(7.0, 10.0)), T0 + SEC);
    let p = t.latency(TTFT, T0 + 2 * SEC).unwrap();
    assert!(p.p50.0 <= p.p90.0 && p.p90.0 <= p.p99.0);
    assert!(0.0 <= p.p50.0 && p.p99.0 <= 2.0);
}

#[test]
fn written_samples_are_read_back() {
    let m = parse("up:x.y{b=\"a\\\\b \\\"q\\\" \\n 李}, \",a=\"\"} -1.5e3");
    assert!(!m.truncated);
    let s = &m.samples[0];
    assert_eq!(s.name, "up:x.y");
    assert_eq!(s.label("b"), Some("a\\b \"q\" \n 李}, "));
    assert_eq!(s.label("a"), Some(""));
    assert_eq!(s.labels[0].0, "a");
    assert_eq!(s.value, -1500.0);
}

#[test]
fn joined_bodies_hold_the_samples_of_both() {
    let (x, y) = ("a 1\nbroken{\n# b 2", "c{d=\"e\"} 3\nf");
    let both = parse(&format!("{x}\n{y}"));
    let mut names: Vec<String> = parse(x).samples.iter().map(|s| s.name.clone()).collect();
    names.extend(parse(y).samples.iter().map(|s| s.name.clone()));
    let all: Vec<String> = both.samples.iter().map(|s| s.name.clone()).collect();
    assert_eq!(all, names);
    assert_eq!(all, vec!["a", "c"]);
    assert!(both.truncated && parse(y).truncated);
}

#[test]
fn a_number_is_read_back_from_its_own_text() {
    for v in [0.0, -0.0, 0.1, 1e300, -2.5e-7, f64::MAX, f64::MIN_POSITIVE] {
        let m = parse(&format!("up{{}} {}", F(v).shown()));
        assert_eq!(m.samples[0].value.0.to_bits(), v.to_bits(), "{v}");
        assert!(m.samples[0].labels.is_empty());
    }
    for v in [0i64, 7, -7, i64::MAX - 1, i64::MIN + 2] {
        assert_eq!(<i64 as Num>::read(&Num::shown(v)), Some(v));
    }
    for t in ["", "-", "1-", "+1", "1.5", "9223372036854775807", "-9223372036854775807", "99999999999999999999"] {
        assert_eq!(<i64 as Num>::read(t), None, "{t}");
    }
}

#[test]
fn a_counter_reset_alone_is_no_growth() {
    let mut t = HistTracker::new();
    t.update(&parse(&scrape(7.0, 10.0)), T0);
    assert!(t.latency(TTFT, T0).is_none());
    t.update(&parse(&scrape(1.0, 2.0)), T0 + SEC);
    assert!(t.latency(TTFT, T0 + SEC).is_none());
    t.update(&parse(&scrape(2.0, 3.0)), T0 + 2 * SEC);
    let p = t.latency(TTFT, T0 + 32 * SEC).unwrap();
    assert!(0.0 <= p.p50.0 && p.p50.0 <= p.p90.0 && p.p90.0 <= p.p99.0 && p.p99.0 <= 2.0);
    assert!(t.latency(TTFT, T0 + 32 * SEC + 1).is_none());
}
