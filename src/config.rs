//! Metric definitions, the format-agnostic result of decoding a configuration document.

use vstd::prelude::*;

verus! {

/// The three kinds of metric a definition can declare. Each kind has its own namespace of titles.
#[derive(PartialEq, Eq, Structural, Clone, Copy, Debug)]
pub enum MetricKind {
    Counter,
    Gauge,
    Histogram,
}

/// One declared metric.
///
/// Histogram bucket bounds are held as the IEEE-754 bit patterns of their `f64` values
/// (`f64::to_bits`), so that they pass through this library unchanged.
#[derive(Debug)]
#[allow(inconsistent_fields)]
pub enum MetricConfig {
    Counter { title: String, description: String, initial_value: u64 },
    Gauge { title: String, description: String, initial_value: i64 },
    Histogram { title: String, description: String, buckets: Vec<u64> },
}

/// A whole configuration document: definitions in registration order.
pub type RegistryConfig = Vec<MetricConfig>;

impl MetricConfig {
    pub open spec fn kind(&self) -> MetricKind {
        match self {
            MetricConfig::Counter { .. } => MetricKind::Counter,
            MetricConfig::Gauge { .. } => MetricKind::Gauge,
            MetricConfig::Histogram { .. } => MetricKind::Histogram,
        }
    }

    pub open spec fn title_view(&self) -> Seq<char> {
        match self {
            MetricConfig::Counter { title, .. } => title@,
            MetricConfig::Gauge { title, .. } => title@,
            MetricConfig::Histogram { title, .. } => title@,
        }
    }

    pub open spec fn description_view(&self) -> Seq<char> {
        match self {
            MetricConfig::Counter { description, .. } => description@,
            MetricConfig::Gauge { description, .. } => description@,
            MetricConfig::Histogram { description, .. } => description@,
        }
    }
}

/// The titles of the definitions of kind `k` in `c`, in document order.
pub open spec fn titles_of(c: Seq<MetricConfig>, k: MetricKind) -> Seq<Seq<char>>
    decreases c.len(),
{
    if c.len() == 0 {
        seq![]
    } else if c.last().kind() == k {
        titles_of(c.drop_last(), k).push(c.last().title_view())
    } else {
        titles_of(c.drop_last(), k)
    }
}

/// The number of definitions of kind `k` in `c`.
pub open spec fn count_of(c: Seq<MetricConfig>, k: MetricKind) -> nat {
    titles_of(c, k).len()
}

/// The definition at `i` repeats the (kind, title) pair of an earlier definition.
pub open spec fn repeats_earlier(c: Seq<MetricConfig>, i: int) -> bool {
    exists|j: int|
        0 <= j < i && #[trigger] c[j].kind() == c[i].kind() && c[j].title_view() == c[i].title_view()
}

/// Some definition of `c` repeats the (kind, title) pair of an earlier one.
pub open spec fn has_duplicate(c: Seq<MetricConfig>) -> bool {
    exists|i: int| 0 <= i < c.len() && #[trigger] repeats_earlier(c, i)
}

/// `i` is the first position of `c` whose (kind, title) pair was seen before.
pub open spec fn first_duplicate_at(c: Seq<MetricConfig>, i: int) -> bool {
    0 <= i < c.len() && repeats_earlier(c, i) && !has_duplicate(c.take(i))
}

/// Counts the definitions of each kind, in the order counter, gauge, histogram.
pub fn count_kinds(config: &RegistryConfig) -> (r: (usize, usize, usize))
    ensures
        r.0 == count_of(config@, MetricKind::Counter),
        r.1 == count_of(config@, MetricKind::Gauge),
        r.2 == count_of(config@, MetricKind::Histogram),
{
    let mut counters: usize = 0;
    let mut gauges: usize = 0;
    let mut histograms: usize = 0;
    let mut i: usize = 0;
    while i < config.len()
        invariant
            i <= config@.len(),
            counters == count_of(config@.take(i as int), MetricKind::Counter),
            gauges == count_of(config@.take(i as int), MetricKind::Gauge),
            histograms == count_of(config@.take(i as int), MetricKind::Histogram),
            counters + gauges + histograms == i,
        decreases config@.len() - i,
    {
        proof {
            assert(config@.take(i + 1).drop_last() =~= config@.take(i as int));
        }
        match &config[i] {
            MetricConfig::Counter { .. } => counters = counters + 1,
            MetricConfig::Gauge { .. } => gauges = gauges + 1,
            MetricConfig::Histogram { .. } => histograms = histograms + 1,
        }
        i = i + 1;
    }
    proof {
        assert(config@.take(i as int) =~= config@);
    }
    (counters, gauges, histograms)
}

/// The latency bucket preset that a histogram definition without `buckets` gets, as `f64`
/// bit patterns: 0.005, 0.01, 0.025, 0.05, 0.1, 0.25, 0.5, 1, 2.5, 5 and 10 seconds.
pub open spec fn default_bucket_bits() -> Seq<u64> {
    seq![
        0x3F747AE147AE147Bu64,
        0x3F847AE147AE147Bu64,
        0x3F9999999999999Au64,
        0x3FA999999999999Au64,
        0x3FB999999999999Au64,
        0x3FD0000000000000u64,
        0x3FE0000000000000u64,
        0x3FF0000000000000u64,
        0x4004000000000000u64,
        0x4014000000000000u64,
        0x4024000000000000u64,
    ]
}

/// The default histogram buckets: see `default_bucket_bits`.
pub fn default_histogram_buckets() -> (r: Vec<u64>)
    ensures
        r@ == default_bucket_bits(),
{
    let r = vec![
        0x3F747AE147AE147Bu64,
        0x3F847AE147AE147Bu64,
        0x3F9999999999999Au64,
        0x3FA999999999999Au64,
        0x3FB999999999999Au64,
        0x3FD0000000000000u64,
        0x3FE0000000000000u64,
        0x3FF0000000000000u64,
        0x4004000000000000u64,
        0x4014000000000000u64,
        0x4024000000000000u64,
    ];
    assert(r@ =~= default_bucket_bits());
    r
}

/// `titles_of(s, k)` holds `t` exactly when some definition of kind `k` in `s` has title `t`.
pub proof fn lemma_titles_of_contains(s: Seq<MetricConfig>, k: MetricKind, t: Seq<char>)
    ensures
        titles_of(s, k).contains(t) <==> exists|j: int|
            0 <= j < s.len() && #[trigger] s[j].kind() == k && s[j].title_view() == t,
    decreases s.len(),
{
    if s.len() > 0 {
        let p = s.drop_last();
        lemma_titles_of_contains(p, k, t);
        if titles_of(s, k).contains(t) {
            if titles_of(p, k).contains(t) {
                let j = choose|j: int| 0 <= j < p.len() && #[trigger] p[j].kind() == k && p[j].title_view() == t;
                assert(s[j] == p[j]);
            } else {
                assert(titles_of(s, k) == titles_of(p, k).push(s.last().title_view()));
                assert(s[s.len() - 1].kind() == k);
            }
        }
        if exists|j: int| 0 <= j < s.len() && #[trigger] s[j].kind() == k && s[j].title_view() == t {
            let j = choose|j: int| 0 <= j < s.len() && #[trigger] s[j].kind() == k && s[j].title_view() == t;
            if j < s.len() - 1 {
                assert(p[j] == s[j]);
                assert(titles_of(p, k).contains(t));
                if s.last().kind() == k {
                    assert(titles_of(s, k).contains(t)) by {
                        let i = choose|i: int| 0 <= i < titles_of(p, k).len() && titles_of(p, k)[i] == t;
                        assert(titles_of(s, k)[i] == t);
                    }
                }
            } else {
                assert(titles_of(s, k) == titles_of(p, k).push(t));
                assert(titles_of(s, k)[titles_of(p, k).len() as int] == t);
            }
        }
    }
}

/// A prefix has a duplicate one definition later only if it had one already or the new
/// definition repeats an earlier one.
pub proof fn lemma_has_duplicate_step(c: Seq<MetricConfig>, i: int)
    requires
        0 <= i < c.len(),
    ensures
        has_duplicate(c.take(i + 1)) <==> (has_duplicate(c.take(i)) || repeats_earlier(c, i)),
{
    let a = c.take(i);
    let b = c.take(i + 1);
    assert forall|x: int| 0 <= x < i implies #[trigger] repeats_earlier(b, x) == repeats_earlier(a, x) by {
        if repeats_earlier(b, x) {
            let j = choose|j: int| 0 <= j < x && #[trigger] b[j].kind() == b[x].kind() && b[j].title_view() == b[x].title_view();
            assert(a[j] == b[j]);
        }
        if repeats_earlier(a, x) {
            let j = choose|j: int| 0 <= j < x && #[trigger] a[j].kind() == a[x].kind() && a[j].title_view() == a[x].title_view();
            assert(a[j] == b[j]);
        }
    }
    assert(repeats_earlier(b, i) == repeats_earlier(c, i)) by {
        if repeats_earlier(b, i) {
            let j = choose|j: int| 0 <= j < i && #[trigger] b[j].kind() == b[i].kind() && b[j].title_view() == b[i].title_view();
            assert(c[j] == b[j]);
        }
        if repeats_earlier(c, i) {
            let j = choose|j: int| 0 <= j < i && #[trigger] c[j].kind() == c[i].kind() && c[j].title_view() == c[i].title_view();
            assert(c[j] == b[j]);
        }
    }
    if has_duplicate(b) {
        let x = choose|x: int| 0 <= x < b.len() && #[trigger] repeats_earlier(b, x);
        if x < i {
            assert(repeats_earlier(a, x));
        }
    }
    if has_duplicate(a) {
        let x = choose|x: int| 0 <= x < a.len() && #[trigger] repeats_earlier(a, x);
        assert(repeats_earlier(b, x));
    }
}

/// Every definition lands in exactly one of the per-kind title lists.
pub proof fn lemma_counts_add_up(c: Seq<MetricConfig>)
    ensures
        count_of(c, MetricKind::Counter) + count_of(c, MetricKind::Gauge) + count_of(
            c,
            MetricKind::Histogram,
        ) == c.len(),
    decreases c.len(),
{
    if c.len() > 0 {
        lemma_counts_add_up(c.drop_last());
    }
}

/// Without repeats, the titles of each kind are distinct.
pub proof fn lemma_titles_distinct(c: Seq<MetricConfig>, k: MetricKind)
    requires
        !has_duplicate(c),
    ensures
        titles_of(c, k).no_duplicates(),
    decreases c.len(),
{
    if c.len() > 0 {
        let p = c.drop_last();
        let n = c.len() - 1;
        assert(c.take(n) =~= p);
        lemma_has_duplicate_step(c, n);
        assert(c.take(n + 1) =~= c);
        lemma_titles_distinct(p, k);
        if c.last().kind() == k {
            lemma_titles_of_contains(p, k, c.last().title_view());
            if titles_of(p, k).contains(c.last().title_view()) {
                let j = choose|j: int|
                    0 <= j < p.len() && #[trigger] p[j].kind() == k && p[j].title_view()
                        == c.last().title_view();
                assert(c[j].kind() == c[n].kind());
                assert(repeats_earlier(c, n));
            }
        }
    }
}

} // verus!
