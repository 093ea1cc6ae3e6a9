//! Builds a name-indexed registry from a list of metric definitions.

use vstd::prelude::*;

use crate::backend::{MetricBackend, ObservabilityRegistry, RegistryCall};
use crate::config::{
    count_kinds, first_duplicate_at, has_duplicate, lemma_counts_add_up, lemma_has_duplicate_step,
    lemma_titles_distinct, lemma_titles_of_contains, repeats_earlier, titles_of, MetricConfig,
    MetricKind, RegistryConfig,
};
use crate::errors::DeserializeError;
use crate::named::NamedMap;

verus! {

/// The request that creates the metric of `m`, recorded with the client's answer `refused`.
pub open spec fn creation_call(m: MetricConfig, refused: Option<Seq<char>>) -> RegistryCall {
    match m {
        MetricConfig::Counter { title, description, .. } => RegistryCall::CreateCounter {
            name: title@,
            help: description@,
            refused,
        },
        MetricConfig::Gauge { title, description, .. } => RegistryCall::CreateGauge {
            name: title@,
            help: description@,
            refused,
        },
        MetricConfig::Histogram { title, description, buckets } => RegistryCall::CreateHistogram {
            name: title@,
            help: description@,
            buckets: buckets@,
            refused,
        },
    }
}

/// The request is a creation that the client refused.
pub open spec fn is_refusal(call: RegistryCall) -> bool {
    match call {
        RegistryCall::CreateCounter { refused, .. } => refused is Some,
        RegistryCall::CreateGauge { refused, .. } => refused is Some,
        RegistryCall::CreateHistogram { refused, .. } => refused is Some,
        _ => false,
    }
}

/// The client refused none of the creations in `calls`.
pub open spec fn refuses_nothing(calls: Seq<RegistryCall>) -> bool {
    forall|i: int| 0 <= i < calls.len() ==> !is_refusal(#[trigger] calls[i])
}

/// The requests that registering `m` makes when the client creates its metric: the creation,
/// then its initial state, if any. A counter is incremented only by a positive initial value,
/// a gauge is set only to a non-zero one, and a histogram has no initial state.
pub open spec fn calls_for(m: MetricConfig) -> Seq<RegistryCall> {
    match m {
        MetricConfig::Counter { initial_value, .. } => if initial_value > 0 {
            seq![creation_call(m, None), RegistryCall::IncrementCounter { amount: initial_value }]
        } else {
            seq![creation_call(m, None)]
        },
        MetricConfig::Gauge { initial_value, .. } => if initial_value != 0 {
            seq![creation_call(m, None), RegistryCall::SetGauge { value: initial_value }]
        } else {
            seq![creation_call(m, None)]
        },
        MetricConfig::Histogram { .. } => seq![creation_call(m, None)],
    }
}

/// The requests that registering every definition of `c`, in order, makes.
pub open spec fn calls_for_all(c: Seq<MetricConfig>) -> Seq<RegistryCall>
    decreases c.len(),
{
    if c.len() == 0 {
        seq![]
    } else {
        calls_for_all(c.drop_last()) + calls_for(c.last())
    }
}

/// Definitions `0..i` of `c` were registered; definition `i` is next.
proof fn lemma_calls_step(c: Seq<MetricConfig>, i: int)
    requires
        0 <= i < c.len(),
    ensures
        calls_for_all(c.take(i + 1)) == calls_for_all(c.take(i)) + calls_for(c[i]),
        titles_of(c.take(i + 1), c[i].kind()) == titles_of(c.take(i), c[i].kind()).push(
            c[i].title_view(),
        ),
        forall|k: MetricKind| k != c[i].kind() ==> titles_of(c.take(i + 1), k) == titles_of(c.take(i), k),
{
    assert(c.take(i + 1).drop_last() =~= c.take(i));
    assert(c.take(i + 1).last() == c[i]);
}

/// What `ConfiguredRegistry::build` leaves behind when it registers `c` in the registry
/// `before`, turning it into `after`:
/// - success: `c` repeats no (kind, title) pair, the client created every metric, each map
///   holds the titles of its kind in document order with the handles that the client returned
///   for them, and every request was made;
/// - `DuplicateMetricName(t)`: `t` is the title at the first repeat, and only the definitions
///   before it were registered;
/// - `BackendError(m)`: the client refused, with message `m`, to create the metric of some
///   definition before any repeat, after registering every definition before it.
pub open spec fn build_outcome<B: MetricBackend>(
    c: Seq<MetricConfig>,
    before: ObservabilityRegistry<B>,
    after: ObservabilityRegistry<B>,
    r: Result<(NamedMap<B::Counter>, NamedMap<B::Gauge>, NamedMap<B::Histogram>), DeserializeError>,
) -> bool {
    match r {
        Ok((counters, gauges, histograms)) => {
            &&& !has_duplicate(c)
            &&& counters.keys() == titles_of(c, MetricKind::Counter)
            &&& gauges.keys() == titles_of(c, MetricKind::Gauge)
            &&& histograms.keys() == titles_of(c, MetricKind::Histogram)
            &&& after.calls() == before.calls() + calls_for_all(c)
            &&& after.counters_made() == before.counters_made() + counters.handles()
            &&& after.gauges_made() == before.gauges_made() + gauges.handles()
            &&& after.histograms_made() == before.histograms_made() + histograms.handles()
        },
        Err(DeserializeError::DuplicateMetricName(t)) => exists|i: int|
            {
                &&& first_duplicate_at(c, i)
                &&& t@ == c[i].title_view()
                &&& after.calls() == before.calls() + calls_for_all(#[trigger] c.take(i))
            },
        Err(DeserializeError::BackendError(message)) => exists|i: int|
            {
                &&& 0 <= i < c.len()
                &&& !has_duplicate(c.take(i + 1))
                &&& after.calls() == (before.calls() + calls_for_all(#[trigger] c.take(i))).push(
                    creation_call(c[i], Some(message@)),
                )
            },
        Err(_) => false,
    }
}

/// The handles that `map` gained in a step, when it started as `start`.
pub open spec fn added<V>(start: NamedMap<V>, map: NamedMap<V>) -> Seq<V> {
    map.handles().skip(start.handles().len() as int)
}

/// Registers one definition, after checking that its title is free in the map of its kind.
/// On success the handle stored is the one the client returned; on an error no map changes.
fn register_one<B: MetricBackend>(
    m: &MetricConfig,
    registry: &mut ObservabilityRegistry<B>,
    counters: &mut NamedMap<B::Counter>,
    gauges: &mut NamedMap<B::Gauge>,
    histograms: &mut NamedMap<B::Histogram>,
) -> (r: Result<(), DeserializeError>)
    ensures
        ({
            let taken = match m.kind() {
                MetricKind::Counter => old(counters).keys(),
                MetricKind::Gauge => old(gauges).keys(),
                MetricKind::Histogram => old(histograms).keys(),
            };
            match r {
                Ok(()) => {
                    &&& !taken.contains(m.title_view())
                    &&& final(registry).calls() == old(registry).calls() + calls_for(*m)
                    &&& final(counters).keys() == if m.kind() == MetricKind::Counter {
                        old(counters).keys().push(m.title_view())
                    } else {
                        old(counters).keys()
                    }
                    &&& final(gauges).keys() == if m.kind() == MetricKind::Gauge {
                        old(gauges).keys().push(m.title_view())
                    } else {
                        old(gauges).keys()
                    }
                    &&& final(histograms).keys() == if m.kind() == MetricKind::Histogram {
                        old(histograms).keys().push(m.title_view())
                    } else {
                        old(histograms).keys()
                    }
                    &&& final(counters).handles() == old(counters).handles() + added(*old(counters), *final(counters))
                    &&& final(gauges).handles() == old(gauges).handles() + added(*old(gauges), *final(gauges))
                    &&& final(histograms).handles() == old(histograms).handles() + added(*old(histograms), *final(histograms))
                    &&& final(registry).counters_made() == old(registry).counters_made() + added(*old(counters), *final(counters))
                    &&& final(registry).gauges_made() == old(registry).gauges_made() + added(*old(gauges), *final(gauges))
                    &&& final(registry).histograms_made() == old(registry).histograms_made() + added(*old(histograms), *final(histograms))
                },
                Err(DeserializeError::DuplicateMetricName(t)) => {
                    &&& taken.contains(m.title_view())
                    &&& t@ == m.title_view()
                    &&& final(registry).calls() == old(registry).calls()
                    &&& *final(counters) == *old(counters)
                    &&& *final(gauges) == *old(gauges)
                    &&& *final(histograms) == *old(histograms)
                },
                Err(DeserializeError::BackendError(message)) => {
                    &&& !taken.contains(m.title_view())
                    &&& final(registry).calls() == old(registry).calls().push(
                        creation_call(*m, Some(message@)),
                    )
                    &&& *final(counters) == *old(counters)
                    &&& *final(gauges) == *old(gauges)
                    &&& *final(histograms) == *old(histograms)
                },
                Err(_) => false,
            }
        }),
{
    match m {
        MetricConfig::Counter { title, description, initial_value } => {
            if counters.contains_key(title.as_str()) {
                return Err(DeserializeError::DuplicateMetricName(title.clone()));
            }
            let counter = match registry.counter(title.as_str(), description.as_str()) {
                Ok(handle) => handle,
                Err(message) => return Err(DeserializeError::BackendError(message)),
            };
            if *initial_value > 0 {
                registry.increment_counter(&counter, *initial_value);
            }
            counters.insert_new(title.clone(), counter);
        },
        MetricConfig::Gauge { title, description, initial_value } => {
            if gauges.contains_key(title.as_str()) {
                return Err(DeserializeError::DuplicateMetricName(title.clone()));
            }
            let gauge = match registry.gauge(title.as_str(), description.as_str()) {
                Ok(handle) => handle,
                Err(message) => return Err(DeserializeError::BackendError(message)),
            };
            if *initial_value != 0 {
                registry.set_gauge(&gauge, *initial_value);
            }
            gauges.insert_new(title.clone(), gauge);
        },
        MetricConfig::Histogram { title, description, buckets } => {
            if histograms.contains_key(title.as_str()) {
                return Err(DeserializeError::DuplicateMetricName(title.clone()));
            }
            let histogram = match registry.histogram_with_buckets(
                title.as_str(),
                description.as_str(),
                buckets.clone(),
            ) {
                Ok(handle) => handle,
                Err(message) => return Err(DeserializeError::BackendError(message)),
            };
            histograms.insert_new(title.clone(), histogram);
        },
    }
    assert(calls_for(*m) =~= seq![creation_call(*m, None)] + calls_for(*m).drop_first());
    assert(counters.handles() =~= old(counters).handles() + added(*old(counters), *counters));
    assert(gauges.handles() =~= old(gauges).handles() + added(*old(gauges), *gauges));
    assert(histograms.handles() =~= old(histograms).handles() + added(*old(histograms), *histograms));
    assert(registry.counters_made() =~= old(registry).counters_made() + added(*old(counters), *counters));
    assert(registry.gauges_made() =~= old(registry).gauges_made() + added(*old(gauges), *gauges));
    assert(registry.histograms_made() =~= old(registry).histograms_made() + added(*old(histograms), *histograms));
    Ok(())
}

/// A registry built from a configuration: the backend registry the metrics were registered
/// in, and their handles indexed by title, one map per metric kind.
pub struct ConfiguredRegistry<B: MetricBackend> {
    pub registry: ObservabilityRegistry<B>,
    pub counters: NamedMap<B::Counter>,
    pub gauges: NamedMap<B::Gauge>,
    pub histograms: NamedMap<B::Histogram>,
}

impl<B: MetricBackend> ConfiguredRegistry<B> {
    /// The titles held for metrics of kind `k`, in registration order.
    pub open spec fn titles(&self, k: MetricKind) -> Seq<Seq<char>> {
        match k {
            MetricKind::Counter => self.counters.keys(),
            MetricKind::Gauge => self.gauges.keys(),
            MetricKind::Histogram => self.histograms.keys(),
        }
    }

    /// Each map holds exactly the titles of the definitions of its kind in `c`, in order.
    pub open spec fn indexes(&self, c: Seq<MetricConfig>) -> bool {
        &&& self.counters.keys() == titles_of(c, MetricKind::Counter)
        &&& self.gauges.keys() == titles_of(c, MetricKind::Gauge)
        &&& self.histograms.keys() == titles_of(c, MetricKind::Histogram)
    }

    /// Registers each definition of `config` with `registry`, in order, and returns the
    /// handles indexed by title as (counters, gauges, histograms).
    ///
    /// A definition whose title is already taken by an earlier one of the same kind stops the
    /// build with `DuplicateMetricName` before anything is asked of the backend for it; a
    /// refusal by the backend stops it with `BackendError` and the backend's message. Nothing
    /// registered before the stop is undone. See `build_outcome`.
    pub fn build(config: &RegistryConfig, registry: &mut ObservabilityRegistry<B>) -> (r: Result<
        (NamedMap<B::Counter>, NamedMap<B::Gauge>, NamedMap<B::Histogram>),
        DeserializeError,
    >)
        ensures
            build_outcome(config@, *old(registry), *final(registry), r),
    {
        let ghost c = config@;
        let ghost start = registry.calls();
        let ghost origin = *registry;
        let (counter_count, gauge_count, histogram_count) = count_kinds(config);
        let mut counters: NamedMap<B::Counter> = NamedMap::with_capacity(counter_count);
        let mut gauges: NamedMap<B::Gauge> = NamedMap::with_capacity(gauge_count);
        let mut histograms: NamedMap<B::Histogram> = NamedMap::with_capacity(histogram_count);
        proof {
            assert(c.take(0) =~= Seq::<MetricConfig>::empty());
            assert(calls_for_all(c.take(0)) == Seq::<RegistryCall>::empty());
            assert(start + Seq::<RegistryCall>::empty() =~= start);
            assert(!has_duplicate(c.take(0)));
            assert(origin.counters_made() + counters.handles() =~= origin.counters_made());
            assert(origin.gauges_made() + gauges.handles() =~= origin.gauges_made());
            assert(origin.histograms_made() + histograms.handles() =~= origin.histograms_made());
        }
        let mut i: usize = 0;
        while i < config.len()
            invariant
                c == config@,
                i <= c.len(),
                !has_duplicate(c.take(i as int)),
                counters.keys() == titles_of(c.take(i as int), MetricKind::Counter),
                gauges.keys() == titles_of(c.take(i as int), MetricKind::Gauge),
                histograms.keys() == titles_of(c.take(i as int), MetricKind::Histogram),
                registry.calls() == start + calls_for_all(c.take(i as int)),
                start == old(registry).calls(),
                origin == *old(registry),
                registry.counters_made() == origin.counters_made() + counters.handles(),
                registry.gauges_made() == origin.gauges_made() + gauges.handles(),
                registry.histograms_made() == origin.histograms_made() + histograms.handles(),
            decreases c.len() - i,
        {
            let ghost before = registry.calls();
            proof {
                lemma_calls_step(c, i as int);
                lemma_has_duplicate_step(c, i as int);
                lemma_titles_of_contains(c.take(i as int), c[i as int].kind(), c[i as int].title_view());
                assert forall|j: int| 0 <= j < i implies #[trigger] c.take(i as int)[j] == c[j] by {}
                assert((before + calls_for(c[i as int])) =~= start + calls_for_all(c.take(i + 1)));
            }
            let ghost m = c[i as int];
            let ghost keys = match m.kind() {
                MetricKind::Counter => counters.keys(),
                MetricKind::Gauge => gauges.keys(),
                MetricKind::Histogram => histograms.keys(),
            };
            proof {
                let t = m.title_view();
                if repeats_earlier(c, i as int) {
                    let j = choose|j: int|
                        0 <= j < i && #[trigger] c[j].kind() == c[i as int].kind() && c[j].title_view()
                            == c[i as int].title_view();
                    assert(c.take(i as int)[j].kind() == m.kind());
                }
                if keys.contains(t) {
                    let j = choose|j: int|
                        0 <= j < i && #[trigger] c.take(i as int)[j].kind() == m.kind() && c.take(
                            i as int,
                        )[j].title_view() == t;
                    assert(c[j].kind() == m.kind());
                }
                assert(keys.contains(t) == repeats_earlier(c, i as int));
            }
            match register_one(&config[i], registry, &mut counters, &mut gauges, &mut histograms) {
                Ok(()) => {
                    assert(registry.counters_made() =~= origin.counters_made() + counters.handles());
                    assert(registry.gauges_made() =~= origin.gauges_made() + gauges.handles());
                    assert(registry.histograms_made() =~= origin.histograms_made() + histograms.handles());
                },
                Err(e) => {
                    proof {
                        if e is DuplicateMetricName {
                            assert(first_duplicate_at(c, i as int));
                        } else {
                            assert(!has_duplicate(c.take(i + 1)));
                        }
                    }
                    return Err(e);
                },
            }
            i = i + 1;
        }
        proof {
            assert(c.take(i as int) =~= c);
        }
        Ok((counters, gauges, histograms))
    }
    /// Builds a registry from `config` in a fresh backend registry. This is `build` on a
    /// registry that is dropped on an error; `build` states what is done with each of the
    /// backend's answers.
    pub fn from_config(config: RegistryConfig) -> (r: Result<Self, DeserializeError>)
        ensures
            match r {
                Ok(built) => {
                    &&& !has_duplicate(config@)
                    &&& built.indexes(config@)
                    &&& built.registry.calls() == calls_for_all(config@)
                    &&& built.counters.handles() == built.registry.counters_made()
                    &&& built.gauges.handles() == built.registry.gauges_made()
                    &&& built.histograms.handles() == built.registry.histograms_made()
                },
                Err(DeserializeError::DuplicateMetricName(t)) => exists|i: int|
                    first_duplicate_at(config@, i) && t@ == config@[i].title_view(),
                Err(DeserializeError::BackendError(_)) => exists|i: int|
                    0 <= i < config@.len() && !has_duplicate(#[trigger] config@.take(i + 1)),
                Err(_) => false,
            },
    {
        let mut registry: ObservabilityRegistry<B> = ObservabilityRegistry::new();
        proof {
            assert(Seq::<RegistryCall>::empty() + calls_for_all(config@) =~= calls_for_all(config@));
        }
        match Self::build(&config, &mut registry) {
            Ok((counters, gauges, histograms)) => {
                assert(registry.counters_made() =~= counters.handles());
                assert(registry.gauges_made() =~= gauges.handles());
                assert(registry.histograms_made() =~= histograms.handles());
                Ok(ConfiguredRegistry { registry, counters, gauges, histograms })
            },
            Err(e) => Err(e),
        }
    }

    /// Does the registration work of `from_config`, repeat check included, in a fresh backend
    /// registry and returns that registry alone, without the handles by title.
    pub fn registry_only(config: RegistryConfig) -> (r: Result<
        ObservabilityRegistry<B>,
        DeserializeError,
    >)
        ensures
            match r {
                Ok(registry) => !has_duplicate(config@) && registry.calls() == calls_for_all(config@),
                Err(DeserializeError::DuplicateMetricName(t)) => exists|i: int|
                    first_duplicate_at(config@, i) && t@ == config@[i].title_view(),
                Err(DeserializeError::BackendError(_)) => exists|i: int|
                    0 <= i < config@.len() && !has_duplicate(#[trigger] config@.take(i + 1)),
                Err(_) => false,
            },
    {
        let mut registry: ObservabilityRegistry<B> = ObservabilityRegistry::new();
        proof {
            assert(Seq::<RegistryCall>::empty() + calls_for_all(config@) =~= calls_for_all(config@));
        }
        match Self::build(&config, &mut registry) {
            Ok(_) => Ok(registry),
            Err(e) => Err(e),
        }
    }
}

/// A successful build from a document with N definitions and no repeated (kind, title) pair
/// holds N handles in all: each definition's title is found in the map of its own kind, each
/// map holds every title once, and a map holds no title that no definition of its kind has.
pub proof fn lemma_build_indexes_every_definition<B: MetricBackend>(
    c: Seq<MetricConfig>,
    built: ConfiguredRegistry<B>,
)
    requires
        !has_duplicate(c),
        built.indexes(c),
    ensures
        built.counters.keys().len() + built.gauges.keys().len() + built.histograms.keys().len()
            == c.len(),
        forall|i: int| 0 <= i < c.len() ==> #[trigger] built.titles(c[i].kind()).contains(c[i].title_view()),
        forall|k: MetricKind| #[trigger] built.titles(k).no_duplicates(),
        forall|k: MetricKind, t: Seq<char>|
            #[trigger] built.titles(k).contains(t) ==> exists|i: int|
                0 <= i < c.len() && #[trigger] c[i].kind() == k && c[i].title_view() == t,
{
    lemma_counts_add_up(c);
    assert forall|i: int| 0 <= i < c.len() implies #[trigger] built.titles(c[i].kind()).contains(
        c[i].title_view(),
    ) by {
        lemma_titles_of_contains(c, c[i].kind(), c[i].title_view());
    }
    assert forall|k: MetricKind| #[trigger] built.titles(k).no_duplicates() by {
        lemma_titles_distinct(c, k);
    }
    assert forall|k: MetricKind, t: Seq<char>| #[trigger] built.titles(k).contains(t) implies exists|i: int|
        0 <= i < c.len() && #[trigger] c[i].kind() == k && c[i].title_view() == t by {
        lemma_titles_of_contains(c, k, t);
    }
}

/// The requests that `after` holds beyond those of `before`.
pub open spec fn new_calls<B: MetricBackend>(
    before: ObservabilityRegistry<B>,
    after: ObservabilityRegistry<B>,
) -> Seq<RegistryCall> {
    after.calls().skip(before.calls().len() as int)
}

/// A stop on a refusal leaves that refusal among the new requests.
proof fn lemma_refusal_recorded<B: MetricBackend>(
    before: ObservabilityRegistry<B>,
    after: ObservabilityRegistry<B>,
    done: Seq<RegistryCall>,
    call: RegistryCall,
)
    requires
        after.calls() == (before.calls() + done).push(call),
        is_refusal(call),
    ensures
        !refuses_nothing(new_calls(before, after)),
{
    let fresh = new_calls(before, after);
    assert(fresh[done.len() as int] == call);
}

/// A build that repeats no (kind, title) pair, and whose every creation the client accepted,
/// succeeds.
pub proof fn lemma_build_succeeds_unless_refused<B: MetricBackend>(
    c: Seq<MetricConfig>,
    before: ObservabilityRegistry<B>,
    after: ObservabilityRegistry<B>,
    r: Result<(NamedMap<B::Counter>, NamedMap<B::Gauge>, NamedMap<B::Histogram>), DeserializeError>,
)
    requires
        !has_duplicate(c),
        refuses_nothing(new_calls(before, after)),
        build_outcome(c, before, after, r),
    ensures
        r is Ok,
{
    match r {
        Err(DeserializeError::DuplicateMetricName(t)) => {
            let i = choose|i: int|
                {
                    &&& first_duplicate_at(c, i)
                    &&& t@ == c[i].title_view()
                    &&& after.calls() == before.calls() + calls_for_all(#[trigger] c.take(i))
                };
            assert(repeats_earlier(c, i));
        },
        Err(DeserializeError::BackendError(message)) => {
            let i = choose|i: int|
                {
                    &&& 0 <= i < c.len()
                    &&& !has_duplicate(c.take(i + 1))
                    &&& after.calls() == (before.calls() + calls_for_all(#[trigger] c.take(i))).push(
                        creation_call(c[i], Some(message@)),
                    )
                };
            lemma_refusal_recorded(before, after, calls_for_all(c.take(i)), creation_call(c[i], Some(message@)));
        },
        _ => {},
    }
}

/// A document in which definitions `j < k` share kind and title cannot be built: the build
/// stops at or before `k`, so nothing from `k` on is registered. When the client accepted every
/// creation it was asked for and `k` is the first repeat, the error is `DuplicateMetricName`
/// with the title of `k`, and exactly the definitions before `k` were registered.
pub proof fn lemma_duplicate_stops_build<B: MetricBackend>(
    c: Seq<MetricConfig>,
    j: int,
    k: int,
    before: ObservabilityRegistry<B>,
    after: ObservabilityRegistry<B>,
    r: Result<(NamedMap<B::Counter>, NamedMap<B::Gauge>, NamedMap<B::Histogram>), DeserializeError>,
)
    requires
        0 <= j < k < c.len(),
        c[j].kind() == c[k].kind(),
        c[j].title_view() == c[k].title_view(),
        build_outcome(c, before, after, r),
    ensures
        r is Err,
        r->Err_0 is DuplicateMetricName || r->Err_0 is BackendError,
        exists|i: int|
            0 <= i <= k && (after.calls() == before.calls() + calls_for_all(#[trigger] c.take(i)) || (
            after.calls().len() > 0 && after.calls().drop_last() == before.calls() + calls_for_all(c.take(i))
                && is_refusal(after.calls().last()))),
        first_duplicate_at(c, k) && refuses_nothing(new_calls(before, after)) ==> {
            &&& r->Err_0 is DuplicateMetricName
            &&& r->Err_0->DuplicateMetricName_0@ == c[k].title_view()
            &&& after.calls() == before.calls() + calls_for_all(c.take(k))
        },
{
    assert(repeats_earlier(c, k));
    match r {
        Ok(_) => {
            assert(has_duplicate(c));
        },
        Err(DeserializeError::DuplicateMetricName(t)) => {
            let i = choose|i: int|
                {
                    &&& first_duplicate_at(c, i)
                    &&& t@ == c[i].title_view()
                    &&& after.calls() == before.calls() + calls_for_all(#[trigger] c.take(i))
                };
            if i > k {
                assert(c.take(i)[j] == c[j] && c.take(i)[k] == c[k]);
                assert(repeats_earlier(c.take(i), k));
            }
            if first_duplicate_at(c, k) && i < k {
                assert(c.take(k)[i] == c[i]);
                let w = choose|w: int|
                    0 <= w < i && #[trigger] c[w].kind() == c[i].kind() && c[w].title_view()
                        == c[i].title_view();
                assert(c.take(k)[w] == c[w]);
                assert(repeats_earlier(c.take(k), i));
            }
        },
        Err(DeserializeError::BackendError(message)) => {
            let i = choose|i: int|
                {
                    &&& 0 <= i < c.len()
                    &&& !has_duplicate(c.take(i + 1))
                    &&& after.calls() == (before.calls() + calls_for_all(#[trigger] c.take(i))).push(
                        creation_call(c[i], Some(message@)),
                    )
                };
            if i >= k {
                assert(c.take(i + 1)[j] == c[j] && c.take(i + 1)[k] == c[k]);
                assert(repeats_earlier(c.take(i + 1), k));
            }
            assert(after.calls().drop_last() =~= before.calls() + calls_for_all(c.take(i)));
            lemma_refusal_recorded(before, after, calls_for_all(c.take(i)), creation_call(c[i], Some(message@)));
        },
        Err(_) => {},
    }
}

/// A title may be used once per kind: a document whose only shared titles are between
/// definitions of different kinds never fails with `DuplicateMetricName`, so its build succeeds
/// unless the client refuses a creation, and then each title is held in the map of each kind
/// that declares it.
pub proof fn lemma_title_shared_across_kinds<B: MetricBackend>(
    c: Seq<MetricConfig>,
    before: ObservabilityRegistry<B>,
    after: ObservabilityRegistry<B>,
    r: Result<(NamedMap<B::Counter>, NamedMap<B::Gauge>, NamedMap<B::Histogram>), DeserializeError>,
)
    requires
        forall|a: int, b: int|
            0 <= a < b < c.len() && #[trigger] c[a].title_view() == #[trigger] c[b].title_view()
                ==> c[a].kind() != c[b].kind(),
        build_outcome(c, before, after, r),
    ensures
        !(r is Err && r->Err_0 is DuplicateMetricName),
        !(r is Err && r->Err_0 is BackendError) ==> r is Ok,
        refuses_nothing(new_calls(before, after)) ==> r is Ok,
        r is Ok ==> {
            let (counters, gauges, histograms) = r->Ok_0;
            forall|i: int|
                0 <= i < c.len() ==> match c[i].kind() {
                    MetricKind::Counter => counters.contains(#[trigger] c[i].title_view()),
                    MetricKind::Gauge => gauges.contains(c[i].title_view()),
                    MetricKind::Histogram => histograms.contains(c[i].title_view()),
                }
        },
{
    assert(!has_duplicate(c)) by {
        if has_duplicate(c) {
            let i = choose|i: int| 0 <= i < c.len() && #[trigger] repeats_earlier(c, i);
            let w = choose|w: int|
                0 <= w < i && #[trigger] c[w].kind() == c[i].kind() && c[w].title_view()
                    == c[i].title_view();
            assert(c[w].title_view() == c[i].title_view());
        }
    }
    match r {
        Err(DeserializeError::DuplicateMetricName(t)) => {
            let i = choose|i: int|
                {
                    &&& first_duplicate_at(c, i)
                    &&& t@ == c[i].title_view()
                    &&& after.calls() == before.calls() + calls_for_all(#[trigger] c.take(i))
                };
            assert(repeats_earlier(c, i));
        },
        _ => {},
    }
    if refuses_nothing(new_calls(before, after)) {
        lemma_build_succeeds_unless_refused(c, before, after, r);
    }
    assert forall|i: int| 0 <= i < c.len() implies #[trigger] titles_of(c, c[i].kind()).contains(
        c[i].title_view(),
    ) by {
        lemma_titles_of_contains(c, c[i].kind(), c[i].title_view());
    }
}

} // verus!
