//! Storage tiering and retention settings.
use vstd::prelude::*;
use vstd::string::*;

verus! {

/// Top-level settings.
pub struct WideConfig {
    pub storage: StorageConfig,
    pub retention: RetentionConfig,
}

/// Where parts are stored.
pub struct StorageConfig {
    pub s3: Option<S3Config>,
    pub tiering: TieringConfig,
}

/// Object-store credentials and location.
pub struct S3Config {
    pub endpoint: String,
    pub bucket: String,
    pub access_key_id: String,
    pub secret_access_key: String,
    pub region: String,
}

/// After how many days parts move to object storage (0: never).
pub struct TieringConfig {
    pub metrics_move_after_days: u32,
    pub traces_move_after_days: u32,
    pub logs_move_after_days: u32,
}

/// Retention defaults, per-signal rules and the enforcer's schedule.
pub struct RetentionConfig {
    pub defaults: RetentionDefaults,
    pub metrics: Vec<MetricRetentionRule>,
    pub traces: Vec<TraceRetentionRule>,
    pub enforcer: EnforcerConfig,
}

/// Days each signal is kept when no rule applies.
pub struct RetentionDefaults {
    pub metrics_days: u32,
    pub traces_days: u32,
    pub logs_days: u32,
}

/// Retention for the metrics that match a name glob, a name pattern and
/// attribute values.
pub struct MetricRetentionRule {
    pub name: Option<String>,
    pub name_regex: Option<String>,
    pub labels: Vec<(String, String)>,
    pub retain_days: u32,
}

/// Retention for the traces of a service or with an attribute value.
pub struct TraceRetentionRule {
    pub service_name: Option<String>,
    pub attribute: Option<AttributeMatch>,
    pub retain_days: u32,
}

/// An attribute key and the value it must have.
pub struct AttributeMatch {
    pub key: String,
    pub value: String,
}

/// Whether and how often retention is enforced.
pub struct EnforcerConfig {
    pub enabled: bool,
    pub interval_secs: u64,
    pub dry_run: bool,
}

/// The default object-store region.
pub fn default_region() -> (r: String)
    ensures
        r@ == "us-east-1"@,
{
    String::from_str("us-east-1")
}

/// The default number of days before parts move to object storage.
pub fn default_tiering_days() -> (r: u32)
    ensures
        r == 3,
{
    3
}

/// The default retention, in days.
pub fn default_30() -> (r: u32)
    ensures
        r == 30,
{
    30
}

pub fn default_true() -> (r: bool)
    ensures
        r,
{
    true
}

/// The default enforcement interval, in seconds.
pub fn default_3600() -> (r: u64)
    ensures
        r == 3600,
{
    3600
}

impl Default for TieringConfig {
    fn default() -> (r: TieringConfig)
        ensures
            r.metrics_move_after_days == 3,
            r.traces_move_after_days == 3,
            r.logs_move_after_days == 3,
    {
        TieringConfig {
            metrics_move_after_days: default_tiering_days(),
            traces_move_after_days: default_tiering_days(),
            logs_move_after_days: default_tiering_days(),
        }
    }
}

impl Default for RetentionDefaults {
    fn default() -> (r: RetentionDefaults)
        ensures
            r.metrics_days == 30,
            r.traces_days == 30,
            r.logs_days == 30,
    {
        RetentionDefaults { metrics_days: 30, traces_days: 30, logs_days: 30 }
    }
}

impl Default for EnforcerConfig {
    fn default() -> (r: EnforcerConfig)
        ensures
            r.enabled,
            r.interval_secs == 3600,
            !r.dry_run,
    {
        EnforcerConfig { enabled: true, interval_secs: 3600, dry_run: false }
    }
}

impl Default for StorageConfig {
    fn default() -> (r: StorageConfig)
        ensures
            r.s3 is None,
            r.tiering.metrics_move_after_days == 3,
            r.tiering.traces_move_after_days == 3,
            r.tiering.logs_move_after_days == 3,
    {
        StorageConfig { s3: None, tiering: TieringConfig::default() }
    }
}

impl Default for RetentionConfig {
    fn default() -> (r: RetentionConfig)
        ensures
            r.defaults.metrics_days == 30,
            r.defaults.traces_days == 30,
            r.defaults.logs_days == 30,
            r.metrics@.len() == 0,
            r.traces@.len() == 0,
            r.enforcer.enabled,
            r.enforcer.interval_secs == 3600,
            !r.enforcer.dry_run,
    {
        RetentionConfig {
            defaults: RetentionDefaults::default(),
            metrics: Vec::new(),
            traces: Vec::new(),
            enforcer: EnforcerConfig::default(),
        }
    }
}

impl Default for WideConfig {
    fn default() -> (r: WideConfig)
        ensures
            r.storage.s3 is None,
            r.storage.tiering.metrics_move_after_days == 3,
            r.storage.tiering.traces_move_after_days == 3,
            r.storage.tiering.logs_move_after_days == 3,
            r.retention.defaults.metrics_days == 30,
            r.retention.defaults.traces_days == 30,
            r.retention.defaults.logs_days == 30,
            r.retention.metrics@.len() == 0,
            r.retention.traces@.len() == 0,
            r.retention.enforcer.enabled,
            r.retention.enforcer.interval_secs == 3600,
            !r.retention.enforcer.dry_run,
    {
        WideConfig { storage: StorageConfig::default(), retention: RetentionConfig::default() }
    }
}

/// The largest of `base` and all of `days`.
pub open spec fn max_days(base: u32, days: Seq<u32>) -> u32
    decreases days.len(),
{
    if days.len() == 0 {
        base
    } else {
        let m = max_days(base, days.drop_last());
        if days.last() > m { days.last() } else { m }
    }
}

proof fn lemma_max_days_bounds(base: u32, days: Seq<u32>)
    ensures
        max_days(base, days) >= base,
        forall|i: int| 0 <= i < days.len() ==> max_days(base, days) >= #[trigger] days[i],
        max_days(base, days) == base || days.contains(max_days(base, days)),
    decreases days.len(),
{
    if days.len() > 0 {
        let w = days.drop_last();
        lemma_max_days_bounds(base, w);
        assert forall|i: int| 0 <= i < days.len() implies max_days(base, days) >= #[trigger] days[i] by {
            if i < days.len() - 1 {
                assert(days[i] == w[i]);
            }
        }
        let m = max_days(base, w);
        if days.last() > m {
            assert(days[days.len() - 1] == days.last());
        } else if m != base {
            let j = choose|j: int| 0 <= j < w.len() && w[j] == m;
            assert(days[j] == m);
        }
    }
}

impl WideConfig {
    /// The metrics table's time-to-live: the longest of the default
    /// retention and every metric rule's retention, so that no part is
    /// dropped before a rule allows it.
    pub fn effective_metrics_ttl_days(&self) -> (r: u32)
        ensures
            r == max_days(
                self.retention.defaults.metrics_days,
                self.retention.metrics@.map_values(|m: MetricRetentionRule| m.retain_days),
            ),
            r >= self.retention.defaults.metrics_days,
            forall|i: int| 0 <= i < self.retention.metrics@.len() ==> r >= #[trigger] self.retention.metrics@[i].retain_days,
    {
        let ghost days = self.retention.metrics@.map_values(|m: MetricRetentionRule| m.retain_days);
        let base = self.retention.defaults.metrics_days;
        let n = self.retention.metrics.len();
        let mut m = base;
        let mut i: usize = 0;
        while i < n
            invariant
                i <= n,
                n == self.retention.metrics@.len(),
                days == self.retention.metrics@.map_values(|m: MetricRetentionRule| m.retain_days),
                base == self.retention.defaults.metrics_days,
                m == max_days(base, days.subrange(0, i as int)),
            decreases n - i,
        {
            assert(days.subrange(0, i as int + 1).drop_last() =~= days.subrange(0, i as int));
            let d = self.retention.metrics[i].retain_days;
            if d > m {
                m = d;
            }
            i += 1;
        }
        assert(days.subrange(0, n as int) =~= days);
        proof {
            lemma_max_days_bounds(base, days);
            assert forall|i: int| 0 <= i < self.retention.metrics@.len() implies m >= #[trigger] self.retention.metrics@[i].retain_days by {
                assert(days[i] == self.retention.metrics@[i].retain_days);
            }
        }
        m
    }

    /// The traces table's time-to-live: the longest of the default
    /// retention and every trace rule's retention.
    pub fn effective_traces_ttl_days(&self) -> (r: u32)
        ensures
            r == max_days(
                self.retention.defaults.traces_days,
                self.retention.traces@.map_values(|t: TraceRetentionRule| t.retain_days),
            ),
            r >= self.retention.defaults.traces_days,
            forall|i: int| 0 <= i < self.retention.traces@.len() ==> r >= #[trigger] self.retention.traces@[i].retain_days,
    {
        let ghost days = self.retention.traces@.map_values(|t: TraceRetentionRule| t.retain_days);
        let base = self.retention.defaults.traces_days;
        let n = self.retention.traces.len();
        let mut m = base;
        let mut i: usize = 0;
        while i < n
            invariant
                i <= n,
                n == self.retention.traces@.len(),
                days == self.retention.traces@.map_values(|t: TraceRetentionRule| t.retain_days),
                base == self.retention.defaults.traces_days,
                m == max_days(base, days.subrange(0, i as int)),
            decreases n - i,
        {
            assert(days.subrange(0, i as int + 1).drop_last() =~= days.subrange(0, i as int));
            let d = self.retention.traces[i].retain_days;
            if d > m {
                m = d;
            }
            i += 1;
        }
        assert(days.subrange(0, n as int) =~= days);
        proof {
            lemma_max_days_bounds(base, days);
            assert forall|i: int| 0 <= i < self.retention.traces@.len() implies m >= #[trigger] self.retention.traces@[i].retain_days by {
                assert(days[i] == self.retention.traces@[i].retain_days);
            }
        }
        m
    }

    /// The logs table's time-to-live: the default log retention.
    pub fn effective_logs_ttl_days(&self) -> (r: u32)
        ensures
            r == self.retention.defaults.logs_days,
    {
        self.retention.defaults.logs_days
    }
}

} // verus!
