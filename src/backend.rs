//! The seam to a concrete metrics client, and a registry that records what was asked of it.

use vstd::prelude::*;

verus! {

/// The capabilities that a metrics client offers to the registry builder.
///
/// An implementation decides on its own whether a name or description is acceptable;
/// a refusal is reported as `Err` with the client's message.
pub trait MetricBackend: Sized {
    type Counter;
    type Gauge;
    type Histogram;

    /// A fresh, empty registry of the client.
    fn new() -> Self;

    fn create_counter(&mut self, name: &str, help: &str) -> Result<Self::Counter, String>;

    fn create_gauge(&mut self, name: &str, help: &str) -> Result<Self::Gauge, String>;

    /// `buckets` holds the bucket upper bounds as `f64` bit patterns, in order.
    fn create_histogram(&mut self, name: &str, help: &str, buckets: Vec<u64>) -> Result<
        Self::Histogram,
        String,
    >;

    /// Adds `amount` to a counter that this client created.
    fn increment_counter(counter: &Self::Counter, amount: u64);

    /// Sets a gauge that this client created to `value`.
    fn set_gauge(gauge: &Self::Gauge, value: i64);

    /// The client's text exposition of everything registered so far.
    fn render(&self) -> Result<String, String>;
}

/// One request made of a metrics client, as recorded by `ObservabilityRegistry`. A creation
/// records the client's answer: `refused` holds the message of a refusal, `None` when the
/// metric was created.
pub enum RegistryCall {
    CreateCounter { name: Seq<char>, help: Seq<char>, refused: Option<Seq<char>> },
    CreateGauge { name: Seq<char>, help: Seq<char>, refused: Option<Seq<char>> },
    CreateHistogram {
        name: Seq<char>,
        help: Seq<char>,
        buckets: Seq<u64>,
        refused: Option<Seq<char>>,
    },
    IncrementCounter { amount: u64 },
    SetGauge { value: i64 },
}

/// The recorded form of a client's answer to a creation request.
pub open spec fn refusal_of<T>(r: Result<T, String>) -> Option<Seq<char>> {
    match r {
        Ok(_) => None,
        Err(message) => Some(message@),
    }
}

/// `made` with the created handle appended, when the creation succeeded.
pub open spec fn record_made<T>(made: Seq<T>, r: Result<T, String>) -> Seq<T> {
    match r {
        Ok(handle) => made.push(handle),
        Err(_) => made,
    }
}

/// A metrics client together with the record, in order, of every request made of it
/// through this registry and of every handle it created.
pub struct ObservabilityRegistry<B: MetricBackend> {
    backend: B,
    calls: Ghost<Seq<RegistryCall>>,
    counters_made: Ghost<Seq<B::Counter>>,
    gauges_made: Ghost<Seq<B::Gauge>>,
    histograms_made: Ghost<Seq<B::Histogram>>,
}

impl<B: MetricBackend> ObservabilityRegistry<B> {
    /// The requests made of the client so far, oldest first.
    pub closed spec fn calls(&self) -> Seq<RegistryCall> {
        self.calls@
    }

    /// The counter handles the client created so far, oldest first.
    pub closed spec fn counters_made(&self) -> Seq<B::Counter> {
        self.counters_made@
    }

    /// The gauge handles the client created so far, oldest first.
    pub closed spec fn gauges_made(&self) -> Seq<B::Gauge> {
        self.gauges_made@
    }

    /// The histogram handles the client created so far, oldest first.
    pub closed spec fn histograms_made(&self) -> Seq<B::Histogram> {
        self.histograms_made@
    }

    pub fn new() -> (r: Self)
        ensures
            r.calls() == Seq::<RegistryCall>::empty(),
            r.counters_made() == Seq::<B::Counter>::empty(),
            r.gauges_made() == Seq::<B::Gauge>::empty(),
            r.histograms_made() == Seq::<B::Histogram>::empty(),
    {
        ObservabilityRegistry {
            backend: B::new(),
            calls: Ghost(Seq::empty()),
            counters_made: Ghost(Seq::empty()),
            gauges_made: Ghost(Seq::empty()),
            histograms_made: Ghost(Seq::empty()),
        }
    }

    /// Registers a counter named `name` with the client.
    pub fn counter(&mut self, name: &str, help: &str) -> (r: Result<B::Counter, String>)
        ensures
            final(self).calls() == old(self).calls().push(
                RegistryCall::CreateCounter { name: name@, help: help@, refused: refusal_of(r) },
            ),
            final(self).counters_made() == record_made(old(self).counters_made(), r),
            final(self).gauges_made() == old(self).gauges_made(),
            final(self).histograms_made() == old(self).histograms_made(),
    {
        let r = self.backend.create_counter(name, help);
        self.calls = Ghost(
            self.calls@.push(
                RegistryCall::CreateCounter { name: name@, help: help@, refused: refusal_of(r) },
            ),
        );
        self.counters_made = Ghost(record_made(self.counters_made@, r));
        r
    }

    /// Registers a gauge named `name` with the client.
    pub fn gauge(&mut self, name: &str, help: &str) -> (r: Result<B::Gauge, String>)
        ensures
            final(self).calls() == old(self).calls().push(
                RegistryCall::CreateGauge { name: name@, help: help@, refused: refusal_of(r) },
            ),
            final(self).counters_made() == old(self).counters_made(),
            final(self).gauges_made() == record_made(old(self).gauges_made(), r),
            final(self).histograms_made() == old(self).histograms_made(),
    {
        let r = self.backend.create_gauge(name, help);
        self.calls = Ghost(
            self.calls@.push(
                RegistryCall::CreateGauge { name: name@, help: help@, refused: refusal_of(r) },
            ),
        );
        self.gauges_made = Ghost(record_made(self.gauges_made@, r));
        r
    }

    /// Registers a histogram named `name` with the given bucket bounds.
    pub fn histogram_with_buckets(&mut self, name: &str, help: &str, buckets: Vec<u64>) -> (r:
        Result<B::Histogram, String>)
        ensures
            final(self).calls() == old(self).calls().push(
                RegistryCall::CreateHistogram {
                    name: name@,
                    help: help@,
                    buckets: buckets@,
                    refused: refusal_of(r),
                },
            ),
            final(self).counters_made() == old(self).counters_made(),
            final(self).gauges_made() == old(self).gauges_made(),
            final(self).histograms_made() == record_made(old(self).histograms_made(), r),
    {
        let ghost bucket_view = buckets@;
        let r = self.backend.create_histogram(name, help, buckets);
        self.calls = Ghost(
            self.calls@.push(
                RegistryCall::CreateHistogram {
                    name: name@,
                    help: help@,
                    buckets: bucket_view,
                    refused: refusal_of(r),
                },
            ),
        );
        self.histograms_made = Ghost(record_made(self.histograms_made@, r));
        r
    }

    /// Adds `amount` to `counter`.
    pub fn increment_counter(&mut self, counter: &B::Counter, amount: u64)
        ensures
            final(self).calls() == old(self).calls().push(
                RegistryCall::IncrementCounter { amount },
            ),
            final(self).counters_made() == old(self).counters_made(),
            final(self).gauges_made() == old(self).gauges_made(),
            final(self).histograms_made() == old(self).histograms_made(),
    {
        B::increment_counter(counter, amount);
        self.calls = Ghost(self.calls@.push(RegistryCall::IncrementCounter { amount }));
    }

    /// Sets `gauge` to `value`.
    pub fn set_gauge(&mut self, gauge: &B::Gauge, value: i64)
        ensures
            final(self).calls() == old(self).calls().push(RegistryCall::SetGauge { value }),
            final(self).counters_made() == old(self).counters_made(),
            final(self).gauges_made() == old(self).gauges_made(),
            final(self).histograms_made() == old(self).histograms_made(),
    {
        B::set_gauge(gauge, value);
        self.calls = Ghost(self.calls@.push(RegistryCall::SetGauge { value }));
    }

    /// The client's text exposition of everything registered so far.
    pub fn render(&self) -> Result<String, String> {
        self.backend.render()
    }

    /// The underlying client.
    pub fn backend(&self) -> &B {
        &self.backend
    }
}

} // verus!
