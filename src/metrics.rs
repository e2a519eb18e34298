//! Counters, gauges and histograms that the runtime reports to the
//! metrics collaborator.
use vstd::prelude::*;
use crate::backends::{find_index, find_key, lemma_index_from};
use crate::codec::join_text;
use crate::config::MetricsConfig;

verus! {

/// `n + 1`, wrapping to zero past the largest value.
pub open spec fn wrapping_succ(n: u64) -> u64 {
    if n == u64::MAX { 0 } else { (n + 1) as u64 }
}

/// `a + b`, wrapping modulo 2^64.
pub open spec fn wrapping_sum(a: u64, b: u64) -> u64 {
    ((a as int + b as int) % 18446744073709551616) as u64
}

/// A monotonically increasing count.
#[derive(Debug, Clone)]
pub struct SimpleCounter {
    name: String,
    help: String,
    value: u64,
}

impl SimpleCounter {
    /// The current count.
    pub closed spec fn spec_value(&self) -> u64 {
        self.value
    }

    /// A counter at zero.
    pub fn new(name: &str, help: &str) -> (r: SimpleCounter)
        ensures
            r.spec_value() == 0,
    {
        SimpleCounter { name: name.to_owned(), help: help.to_owned(), value: 0 }
    }

    /// Count one more.
    pub fn inc(&mut self)
        ensures
            final(self).spec_value() == wrapping_succ(old(self).spec_value()),
    {
        self.value = if self.value == u64::MAX { 0 } else { self.value + 1 };
    }

    /// The current count.
    pub fn get(&self) -> (r: u64)
        ensures
            r == self.spec_value(),
    {
        self.value
    }
}

/// A value that is set outright.
#[derive(Debug, Clone)]
pub struct SimpleGauge {
    name: String,
    help: String,
    value: u64,
}

impl SimpleGauge {
    /// The current value.
    pub closed spec fn spec_value(&self) -> u64 {
        self.value
    }

    /// A gauge at zero.
    pub fn new(name: &str, help: &str) -> (r: SimpleGauge)
        ensures
            r.spec_value() == 0,
    {
        SimpleGauge { name: name.to_owned(), help: help.to_owned(), value: 0 }
    }

    /// Set the value.
    pub fn set(&mut self, value: u64)
        ensures
            final(self).spec_value() == value,
    {
        self.value = value;
    }

    /// The current value.
    pub fn get(&self) -> (r: u64)
        ensures
            r == self.spec_value(),
    {
        self.value
    }
}

/// The sum and number of observed values.
#[derive(Debug, Clone)]
pub struct SimpleHistogram {
    name: String,
    help: String,
    sum: u64,
    count: u64,
}

impl SimpleHistogram {
    /// The sum of the observations.
    pub closed spec fn spec_sum(&self) -> u64 {
        self.sum
    }

    /// The number of observations.
    pub closed spec fn spec_count(&self) -> u64 {
        self.count
    }

    /// A histogram with no observations.
    pub fn new(name: &str, help: &str) -> (r: SimpleHistogram)
        ensures
            r.spec_sum() == 0,
            r.spec_count() == 0,
    {
        SimpleHistogram { name: name.to_owned(), help: help.to_owned(), sum: 0, count: 0 }
    }

    /// Record one observation.
    pub fn observe(&mut self, value: u64)
        ensures
            final(self).spec_sum() == wrapping_sum(old(self).spec_sum(), value),
            final(self).spec_count() == wrapping_succ(old(self).spec_count()),
    {
        self.sum = if value > u64::MAX - self.sum {
            value - (u64::MAX - self.sum) - 1
        } else {
            self.sum + value
        };
        self.count = if self.count == u64::MAX { 0 } else { self.count + 1 };
    }

    /// The sum of the observations.
    pub fn sum(&self) -> (r: u64)
        ensures
            r == self.spec_sum(),
    {
        self.sum
    }

    /// The number of observations.
    pub fn count(&self) -> (r: u64)
        ensures
            r == self.spec_count(),
    {
        self.count
    }
}

/// Label values joined with underscores.
pub open spec fn label_key(values: Seq<Seq<char>>) -> Seq<char>
    decreases values.len(),
{
    if values.len() == 0 {
        Seq::empty()
    } else if values.len() == 1 {
        values[0]
    } else {
        label_key(values.drop_last()) + "_"@ + values.last()
    }
}

/// Counters kept apart by label values, one counter per distinct key.
#[derive(Debug, Clone)]
pub struct SimpleCounterVec {
    name: String,
    help: String,
    counters: Vec<(String, u64)>,
}

impl SimpleCounterVec {
    /// The count under each label key.
    pub closed spec fn spec_counts(&self) -> Seq<(Seq<char>, u64)> {
        self.counters@.map_values(|p: (String, u64)| (p.0@, p.1))
    }

    /// No counters yet.
    pub fn new(name: &str, help: &str) -> (r: SimpleCounterVec)
        ensures
            r.spec_counts() == Seq::<(Seq<char>, u64)>::empty(),
    {
        let r = SimpleCounterVec { name: name.to_owned(), help: help.to_owned(), counters: Vec::new() };
        assert(r.spec_counts() =~= Seq::<(Seq<char>, u64)>::empty());
        r
    }

    /// The key for a list of label values.
    fn key_of(values: &Vec<String>) -> (r: String)
        ensures
            r@ == label_key(values@.map_values(|v: String| v@)),
    {
        let ghost vs = values@.map_values(|v: String| v@);
        if values.len() == 0 {
            return String::new();
        }
        let mut key = values[0].clone();
        let mut i: usize = 1;
        while i < values.len()
            invariant
                1 <= i <= values@.len(),
                vs == values@.map_values(|v: String| v@),
                key@ == label_key(vs.take(i as int)),
            decreases values@.len() - i,
        {
            let head = join_text(key.as_str(), "_");
            key = join_text(head.as_str(), values[i].as_str());
            proof {
                assert(vs.take(i as int + 1).drop_last() =~= vs.take(i as int));
            }
            i = i + 1;
        }
        assert(vs.take(i as int) =~= vs);
        key
    }

    /// Count one more under the given label values.
    pub fn inc_with_labels(&mut self, values: &Vec<String>)
        ensures
            find_key(final(self).spec_counts(), label_key(values@.map_values(|v: String| v@)))
                == Some(wrapping_succ(count_or_zero(old(self).spec_counts(), label_key(values@.map_values(|v: String| v@))))),
    {
        let key = Self::key_of(values);
        let ghost s = self.spec_counts();
        let ghost k = key@;
        let found = find_index(&self.counters, &key);
        proof {
            assert forall|j: int| 0 <= j < s.len() implies #[trigger] s[j].0 == self.counters@[j].0@ by {}
            match found {
                Some(i) => lemma_index_from(s, k, 0, i as int),
                None => lemma_index_from(s, k, 0, s.len() as int),
            }
        }
        match found {
            Some(i) => {
                let n = self.counters[i].1;
                let next = if n == u64::MAX { 0 } else { n + 1 };
                self.counters.set(i, (key, next));
                proof {
                    let t = self.spec_counts();
                    assert(t =~= s.update(i as int, (k, next)));
                    lemma_index_from(t, k, 0, i as int);
                }
            },
            None => {
                self.counters.push((key, 1));
                proof {
                    let t = self.spec_counts();
                    assert(t =~= s.push((k, 1u64)));
                    lemma_index_from(t, k, 0, s.len() as int);
                }
            },
        }
    }

    /// The count under the given label values.
    pub fn count_with_labels(&self, values: &Vec<String>) -> (r: u64)
        ensures
            r == count_or_zero(self.spec_counts(), label_key(values@.map_values(|v: String| v@))),
    {
        let key = Self::key_of(values);
        let ghost s = self.spec_counts();
        let found = find_index(&self.counters, &key);
        proof {
            assert forall|j: int| 0 <= j < s.len() implies #[trigger] s[j].0 == self.counters@[j].0@ by {}
            match found {
                Some(i) => lemma_index_from(s, key@, 0, i as int),
                None => lemma_index_from(s, key@, 0, s.len() as int),
            }
        }
        match found {
            Some(i) => self.counters[i].1,
            None => 0,
        }
    }
}

/// The count under `key`, zero where there is none.
pub open spec fn count_or_zero(s: Seq<(Seq<char>, u64)>, key: Seq<char>) -> u64 {
    match find_key(s, key) {
        Some(n) => n,
        None => 0,
    }
}

/// The names of registered metrics.
#[derive(Debug, Clone)]
pub struct SimpleRegistry {
    metrics: Vec<String>,
}

impl SimpleRegistry {
    /// The registered names, in order.
    pub closed spec fn spec_metrics(&self) -> Seq<Seq<char>> {
        self.metrics@.map_values(|m: String| m@)
    }

    /// An empty registry.
    pub fn new() -> (r: SimpleRegistry)
        ensures
            r.spec_metrics() == Seq::<Seq<char>>::empty(),
    {
        let r = SimpleRegistry { metrics: Vec::new() };
        assert(r.spec_metrics() =~= Seq::<Seq<char>>::empty());
        r
    }

    /// Register a metric by name.
    pub fn register(&mut self, name: &str) -> (r: Result<(), String>)
        ensures
            r is Ok,
            final(self).spec_metrics() == old(self).spec_metrics().push(name@),
    {
        let ghost s = self.spec_metrics();
        self.metrics.push(name.to_owned());
        assert(self.spec_metrics() =~= s.push(name@));
        Ok(())
    }
}


/// The server's metrics: request counts, results by outcome, in-flight
/// requests, latency and uptime.
#[derive(Debug, Clone)]
pub struct MetricsCollector {
    prometheus_enabled: bool,
    registry: SimpleRegistry,
    auth_requests: SimpleCounter,
    auth_results: SimpleCounterVec,
    acct_requests: SimpleCounter,
    active_connections: SimpleGauge,
    request_latency: SimpleHistogram,
    uptime: SimpleGauge,
}

impl MetricsCollector {
    /// Authentication requests counted.
    pub closed spec fn spec_auth_requests(&self) -> u64 {
        self.auth_requests.spec_value()
    }

    /// Accounting requests counted.
    pub closed spec fn spec_acct_requests(&self) -> u64 {
        self.acct_requests.spec_value()
    }

    /// Requests in flight, as last set.
    pub closed spec fn spec_active_connections(&self) -> u64 {
        self.active_connections.spec_value()
    }

    /// Uptime in seconds, as last set.
    pub closed spec fn spec_uptime(&self) -> u64 {
        self.uptime.spec_value()
    }

    /// Latency observations recorded.
    pub closed spec fn spec_latency_count(&self) -> u64 {
        self.request_latency.spec_count()
    }

    /// A collector with every metric at zero.
    pub fn new(config: &MetricsConfig) -> (r: MetricsCollector)
        ensures
            r.spec_auth_requests() == 0,
            r.spec_acct_requests() == 0,
            r.spec_active_connections() == 0,
            r.spec_uptime() == 0,
            r.spec_latency_count() == 0,
    {
        let mut registry = SimpleRegistry::new();
        let _ = registry.register("radius_auth_requests_total");
        let _ = registry.register("radius_requests_total");
        let _ = registry.register("radius_acct_requests_total");
        let _ = registry.register("radius_active_connections");
        let _ = registry.register("radius_request_latency_ms");
        let _ = registry.register("radius_uptime_seconds");
        MetricsCollector {
            prometheus_enabled: config.prometheus_enabled,
            registry,
            auth_requests: SimpleCounter::new("radius_auth_requests_total", "Total number of authentication requests"),
            auth_results: SimpleCounterVec::new("radius_auth_results_total", "Authentication results by outcome"),
            acct_requests: SimpleCounter::new("radius_acct_requests_total", "Total number of accounting requests"),
            active_connections: SimpleGauge::new("radius_active_connections", "Current number of active connections"),
            request_latency: SimpleHistogram::new("radius_request_latency_ms", "Request latency in milliseconds"),
            uptime: SimpleGauge::new("radius_uptime_seconds", "Server uptime in seconds"),
        }
    }

    /// Count an authentication request.
    pub fn increment_auth_requests(&mut self)
        ensures
            final(self).spec_auth_requests() == wrapping_succ(old(self).spec_auth_requests()),
            final(self).spec_acct_requests() == old(self).spec_acct_requests(),
    {
        self.auth_requests.inc();
    }

    /// Count an authentication response.
    pub fn increment_auth_responses(&mut self)
        ensures
            final(self).spec_auth_requests() == old(self).spec_auth_requests(),
    {
        let mut labels: Vec<String> = Vec::new();
        labels.push("accept".to_owned());
        self.auth_results.inc_with_labels(&labels);
    }

    /// Count an accounting request.
    pub fn increment_acct_requests(&mut self)
        ensures
            final(self).spec_acct_requests() == wrapping_succ(old(self).spec_acct_requests()),
            final(self).spec_auth_requests() == old(self).spec_auth_requests(),
    {
        self.acct_requests.inc();
    }

    /// Record the number of requests in flight.
    pub fn set_active_connections(&mut self, count: u64)
        ensures
            final(self).spec_active_connections() == count,
    {
        self.active_connections.set(count);
    }

    /// Record one request's latency in milliseconds.
    pub fn record_request_latency(&mut self, latency_ms: u64)
        ensures
            final(self).spec_latency_count() == wrapping_succ(old(self).spec_latency_count()),
    {
        self.request_latency.observe(latency_ms);
    }

    /// Record the uptime in seconds.
    pub fn update_uptime(&mut self, uptime_secs: u64)
        ensures
            final(self).spec_uptime() == uptime_secs,
    {
        self.uptime.set(uptime_secs);
    }

    /// Whether reports go to the Prometheus endpoint.
    pub fn prometheus_enabled(&self) -> (r: bool) {
        self.prometheus_enabled
    }

    /// The values a report shows: authentication requests, accounting
    /// requests, requests in flight, uptime.
    pub fn snapshot(&self) -> (r: (u64, u64, u64, u64))
        ensures
            r == (self.spec_auth_requests(), self.spec_acct_requests(), self.spec_active_connections(), self.spec_uptime()),
    {
        (self.auth_requests.get(), self.acct_requests.get(), self.active_connections.get(), self.uptime.get())
    }
}

} // verus!
