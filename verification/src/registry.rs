//! The collector registry and the scrape page.
//!
//! The registry holds the active collectors in registration order.  Reading
//! the backing files and timing each collector happen outside this crate;
//! [`Registry::collect_all`] takes the read results and measured durations
//! and produces one outcome per collector, in order, never letting one
//! collector's failure touch another's result.  [`render_scrape_page`] turns
//! the outcomes into the full response text: all successful collectors'
//! families first, then the five meta families.

use vstd::prelude::*;
use crate::cpu::{spec_cpu_collect, stat_path, CpuCollector};
use crate::disk::{diskstats_path, spec_disk_collect, DiskCollector};
use crate::error::{CollectorError, ErrorView};
use crate::memory::{meminfo_path, spec_memory_collect, MemoryCollector};
use crate::metric::{
    render_metrics, spec_render_metrics, Metric, MetricSample, MetricType, MetricView, SampleView,
};
use crate::network::{netdev_path, spec_network_collect, NetworkCollector};
use crate::value::MetricValue;

verus! {

/// One of the four collectors, behind a single dispatching type: the
/// homogeneous element the registry holds.
pub enum Collector {
    Cpu(CpuCollector),
    Memory(MemoryCollector),
    Disk(DiskCollector),
    Network(NetworkCollector),
}

/// The collector's stable name, used as a label value in the meta families.
pub open spec fn spec_collector_name(c: Collector) -> Seq<char> {
    match c {
        Collector::Cpu(_) => "cpu"@,
        Collector::Memory(_) => "memory"@,
        Collector::Disk(_) => "disk"@,
        Collector::Network(_) => "network"@,
    }
}

/// The fixed path of the collector's backing file.
pub open spec fn spec_collector_path(c: Collector) -> Seq<char> {
    match c {
        Collector::Cpu(_) => stat_path(),
        Collector::Memory(_) => meminfo_path(),
        Collector::Disk(_) => diskstats_path(),
        Collector::Network(_) => netdev_path(),
    }
}

/// What collecting from given file content returns, per collector kind.
pub open spec fn spec_collect(c: Collector, content: Seq<char>) -> Result<Seq<MetricView>, ErrorView> {
    match c {
        Collector::Cpu(_) => spec_cpu_collect(content),
        Collector::Memory(_) => spec_memory_collect(content),
        Collector::Disk(d) => spec_disk_collect(content, d@),
        Collector::Network(nw) => spec_network_collect(content, nw@),
    }
}

impl Collector {
    /// Stable identifier of this collector.
    pub fn name(&self) -> (r: &'static str)
        ensures
            r@ == spec_collector_name(*self),
    {
        match self {
            Collector::Cpu(c) => c.name(),
            Collector::Memory(c) => c.name(),
            Collector::Disk(c) => c.name(),
            Collector::Network(c) => c.name(),
        }
    }

    /// Path of the backing file a caller must read for
    /// [`Self::collect_from_string`].
    pub fn source_path(&self) -> (r: &'static str)
        ensures
            r@ == spec_collector_path(*self),
    {
        match self {
            Collector::Cpu(c) => c.source_path(),
            Collector::Memory(c) => c.source_path(),
            Collector::Disk(c) => c.source_path(),
            Collector::Network(c) => c.source_path(),
        }
    }

    /// Turn the backing file's content into metric families, as
    /// [`spec_collect`] describes.
    pub fn collect_from_string(&self, content: &str) -> (r: Result<Vec<Metric>, CollectorError>)
        ensures
            match r {
                Ok(v) => spec_collect(*self, content@) == Ok::<Seq<MetricView>, ErrorView>(
                    v.deep_view(),
                ),
                Err(e) => spec_collect(*self, content@) == Err::<Seq<MetricView>, ErrorView>(e@),
            },
    {
        match self {
            Collector::Cpu(c) => c.collect_from_string(content),
            Collector::Memory(c) => c.collect_from_string(content),
            Collector::Disk(c) => c.collect_from_string(content),
            Collector::Network(c) => c.collect_from_string(content),
        }
    }
}

/// Result of a single collector's scrape: its name, how long the scrape
/// took, and the families it produced or the error it failed with.
pub struct CollectorResult {
    pub name: String,
    pub duration_nanos: u64,
    pub result: Result<Vec<Metric>, CollectorError>,
}

/// Mathematical image of a scrape outcome.
#[verifier::ext_equal]
pub struct CollectorResultView {
    pub name: Seq<char>,
    pub duration_nanos: u64,
    pub result: Result<Seq<MetricView>, ErrorView>,
}

impl View for CollectorResult {
    type V = CollectorResultView;

    open spec fn view(&self) -> CollectorResultView {
        CollectorResultView {
            name: self.name@,
            duration_nanos: self.duration_nanos,
            result: match self.result {
                Ok(ms) => Ok(ms.deep_view()),
                Err(e) => Err(e@),
            },
        }
    }
}

impl DeepView for CollectorResult {
    type V = CollectorResultView;

    open spec fn deep_view(&self) -> CollectorResultView {
        self.view()
    }
}

/// The image of one read attempt: the file's content, or the
/// operating-system error text.
pub open spec fn read_result_view(r: Result<String, String>) -> Result<Seq<char>, Seq<char>> {
    match r {
        Ok(content) => Ok(content@),
        Err(message) => Err(message@),
    }
}

/// The outcome one collector owes for one read attempt: a failed read
/// becomes the file-read error with the collector's path; content is
/// collected from.
pub open spec fn spec_outcome(c: Collector, read: Result<Seq<char>, Seq<char>>) -> Result<
    Seq<MetricView>,
    ErrorView,
> {
    match read {
        Err(message) => Err(ErrorView::FileRead { path: spec_collector_path(c), message }),
        Ok(content) => spec_collect(c, content),
    }
}

/// Registry of collectors; registration order is output order.
pub struct Registry {
    collectors: Vec<Collector>,
}

impl View for Registry {
    type V = Seq<Collector>;

    closed spec fn view(&self) -> Seq<Collector> {
        self.collectors@
    }
}

impl Registry {
    /// An empty registry.
    pub fn new() -> (r: Registry)
        ensures
            r@.len() == 0,
    {
        Registry { collectors: Vec::new() }
    }

    /// Append a collector; it will be scraped after all earlier ones.
    pub fn register(&mut self, collector: Collector)
        ensures
            final(self)@ == old(self)@.push(collector),
    {
        self.collectors.push(collector);
    }

    /// Number of registered collectors.
    pub fn count(&self) -> (n: usize)
        ensures
            n == self@.len(),
    {
        self.collectors.len()
    }

    /// The backing file of collector `i`.
    pub fn source_path(&self, i: usize) -> (r: &'static str)
        requires
            i < self@.len(),
        ensures
            r@ == spec_collector_path(self@[i as int]),
    {
        self.collectors[i].source_path()
    }

    /// Produce every collector's outcome, in registration order, from the
    /// per-collector read results and measured durations the caller
    /// supplies.  Each outcome depends only on its own collector, read and
    /// duration: one collector's failure never suppresses another's result.
    #[verifier::loop_isolation(false)]
    pub fn collect_all(&self, reads: &Vec<Result<String, String>>, durations_nanos: &Vec<u64>) -> (r:
        Vec<CollectorResult>)
        requires
            reads@.len() == self@.len(),
            durations_nanos@.len() == self@.len(),
        ensures
            r@.len() == self@.len(),
            forall|i: int|
                0 <= i < r@.len() ==> (#[trigger] r@[i])@.name == spec_collector_name(
                    self@[i],
                ),
            forall|i: int|
                0 <= i < r@.len() ==> (#[trigger] r@[i])@.duration_nanos == durations_nanos@[i],
            forall|i: int|
                0 <= i < r@.len() ==> (#[trigger] r@[i])@.result == spec_outcome(
                    self@[i],
                    read_result_view(reads@[i]),
                ),
    {
        let n = self.collectors.len();
        let mut out: Vec<CollectorResult> = Vec::new();
        let mut i: usize = 0;
        while i < n
            invariant
                0 <= i <= n,
                out@.len() == i,
                forall|j: int|
                    0 <= j < i ==> (#[trigger] out@[j])@.name == spec_collector_name(self@[j]),
                forall|j: int|
                    0 <= j < i ==> (#[trigger] out@[j])@.duration_nanos == durations_nanos@[j],
                forall|j: int|
                    0 <= j < i ==> (#[trigger] out@[j])@.result == spec_outcome(
                        self@[j],
                        read_result_view(reads@[j]),
                    ),
            decreases n - i,
        {
            let c = &self.collectors[i];
            let name = c.name().to_owned();
            let result = match &reads[i] {
                Ok(content) => c.collect_from_string(content.as_str()),
                Err(message) => Err(
                    CollectorError::FileRead {
                        path: c.source_path().to_owned(),
                        message: message.clone(),
                    },
                ),
            };
            let outcome = CollectorResult {
                name,
                duration_nanos: durations_nanos[i],
                result,
            };
            proof {
                assert(outcome@.result == spec_outcome(self@[i as int], read_result_view(reads@[i as int])));
            }
            out.push(outcome);
            i = i + 1;
        }
        out
    }
}

// ---------------------------------------------------------------------------
// The scrape page
// ---------------------------------------------------------------------------

/// The families of the successful outcomes, concatenated in outcome order; a
/// failed collector contributes nothing.
pub open spec fn spec_all_metrics(outs: Seq<CollectorResultView>) -> Seq<MetricView>
    decreases outs.len(),
{
    if outs.len() == 0 {
        Seq::empty()
    } else {
        (match outs[0].result {
            Ok(ms) => ms,
            Err(_) => Seq::empty(),
        }) + spec_all_metrics(outs.drop_first())
    }
}

proof fn lemma_all_metrics_snoc(outs: Seq<CollectorResultView>, o: CollectorResultView)
    ensures
        spec_all_metrics(outs.push(o)) == spec_all_metrics(outs) + (match o.result {
            Ok(ms) => ms,
            Err(_) => Seq::empty(),
        }),
    decreases outs.len(),
{
    let tail = (match o.result {
        Ok(ms) => ms,
        Err(_) => Seq::<MetricView>::empty(),
    });
    if outs.len() == 0 {
        assert(outs.push(o)[0] == o);
        assert(outs.push(o).drop_first() =~= outs);
        assert(spec_all_metrics(outs.push(o)) =~= spec_all_metrics(outs) + tail);
    } else {
        assert(outs.push(o)[0] == outs[0]);
        assert(outs.push(o).drop_first() =~= outs.drop_first().push(o));
        lemma_all_metrics_snoc(outs.drop_first(), o);
        let head = (match outs[0].result {
            Ok(ms) => ms,
            Err(_) => Seq::<MetricView>::empty(),
        });
        assert(head + (spec_all_metrics(outs.drop_first()) + tail) =~= (head + spec_all_metrics(
            outs.drop_first(),
        )) + tail);
    }
}

/// The per-collector scrape-duration sample: nanoseconds rendered as
/// seconds, nine decimal places.
pub open spec fn duration_sample(o: CollectorResultView) -> SampleView {
    SampleView {
        labels: seq![("collector"@, o.name)],
        value: MetricValue::Finite { negative: false, mantissa: o.duration_nanos as u128, scale: 9 },
    }
}

/// The per-collector success flag: 1 on success, 0 on failure.
pub open spec fn success_sample(o: CollectorResultView) -> SampleView {
    SampleView {
        labels: seq![("collector"@, o.name)],
        value: MetricValue::Finite {
            negative: false,
            mantissa: if o.result is Ok {
                1
            } else {
                0
            },
            scale: 0,
        },
    }
}

/// The per-collector error count for this scrape: 0 on success, 1 on
/// failure.
pub open spec fn error_sample(o: CollectorResultView) -> SampleView {
    SampleView {
        labels: seq![("collector"@, o.name)],
        value: MetricValue::Finite {
            negative: false,
            mantissa: if o.result is Ok {
                0
            } else {
                1
            },
            scale: 0,
        },
    }
}

/// The five meta families appended after the collector families: the
/// per-collector scrape durations, the total scrape duration, the success
/// flags, the error counts, and the build-info gauge (always 1).
pub open spec fn spec_meta_metrics(
    outs: Seq<CollectorResultView>,
    total_nanos: u64,
    version: Seq<char>,
    rustc: Seq<char>,
) -> Seq<MetricView> {
    seq![
        MetricView {
            name: "sysmetrics_scrape_duration_seconds"@,
            help: "Duration of collector scrape in seconds."@,
            metric_type: MetricType::Gauge,
            samples: Seq::new(outs.len(), |i: int| duration_sample(outs[i])),
        },
        MetricView {
            name: "sysmetrics_scrape_duration_seconds_total"@,
            help: "Total scrape duration in seconds."@,
            metric_type: MetricType::Gauge,
            samples: seq![
                SampleView {
                    labels: Seq::empty(),
                    value: MetricValue::Finite {
                        negative: false,
                        mantissa: total_nanos as u128,
                        scale: 9,
                    },
                },
            ],
        },
        MetricView {
            name: "sysmetrics_collector_success"@,
            help: "Whether the collector succeeded (1) or failed (0)."@,
            metric_type: MetricType::Gauge,
            samples: Seq::new(outs.len(), |i: int| success_sample(outs[i])),
        },
        MetricView {
            name: "sysmetrics_collector_errors_total"@,
            help: "Total collector scrape errors."@,
            metric_type: MetricType::Counter,
            samples: Seq::new(outs.len(), |i: int| error_sample(outs[i])),
        },
        MetricView {
            name: "sysmetrics_build_info"@,
            help: "Build information for sysmetrics-rs."@,
            metric_type: MetricType::Gauge,
            samples: seq![
                SampleView {
                    labels: seq![("version"@, version), ("rustc"@, rustc)],
                    value: MetricValue::Finite { negative: false, mantissa: 1, scale: 0 },
                },
            ],
        },
    ]
}

/// The full scrape response text: every successful collector's families in
/// order, then the meta families, rendered in the exposition format.
pub open spec fn spec_scrape_page(
    outs: Seq<CollectorResultView>,
    total_nanos: u64,
    version: Seq<char>,
    rustc: Seq<char>,
) -> Seq<char> {
    spec_render_metrics(spec_all_metrics(outs) + spec_meta_metrics(outs, total_nanos, version, rustc))
}

/// One `collector=<name>` label list.
fn collector_labels(name: &String) -> (r: Vec<(String, String)>)
    ensures
        r.deep_view() =~= seq![("collector"@, name@)],
{
    let mut labels: Vec<(String, String)> = Vec::new();
    labels.push(("collector".to_owned(), name.clone()));
    proof {
        assert(labels.deep_view() =~= seq![("collector"@, name@)]);
    }
    labels
}

/// Render the full scrape page from the collectors' outcomes, the total
/// scrape duration, and the build information, as [`spec_scrape_page`]
/// describes.
#[verifier::loop_isolation(false)]
pub fn render_scrape_page(
    outcomes: Vec<CollectorResult>,
    total_duration_nanos: u64,
    version: &str,
    rustc_version: &str,
) -> (r: String)
    ensures
        r@ == spec_scrape_page(
            outcomes.deep_view(),
            total_duration_nanos,
            version@,
            rustc_version@,
        ),
{
    let ghost outs = outcomes.deep_view();
    let n = outcomes.len();
    let mut remaining = outcomes;
    let mut all: Vec<Metric> = Vec::new();
    let mut duration_samples: Vec<MetricSample> = Vec::new();
    let mut success_samples: Vec<MetricSample> = Vec::new();
    let mut error_samples: Vec<MetricSample> = Vec::new();
    let mut i: usize = 0;
    proof {
        assert(outs.len() == n);
        assert(remaining.deep_view() =~= outs.skip(0));
        assert(all.deep_view() =~= spec_all_metrics(outs.take(0)));
        assert(duration_samples.deep_view() =~= Seq::new(0, |k: int| duration_sample(outs[k])));
        assert(success_samples.deep_view() =~= Seq::new(0, |k: int| success_sample(outs[k])));
        assert(error_samples.deep_view() =~= Seq::new(0, |k: int| error_sample(outs[k])));
    }
    while i < n
        invariant
            0 <= i <= n,
            remaining@.len() == n - i,
            remaining.deep_view() == outs.skip(i as int),
            all.deep_view() == spec_all_metrics(outs.take(i as int)),
            duration_samples.deep_view() == Seq::new(i as nat, |k: int| duration_sample(outs[k])),
            success_samples.deep_view() == Seq::new(i as nat, |k: int| success_sample(outs[k])),
            error_samples.deep_view() == Seq::new(i as nat, |k: int| error_sample(outs[k])),
        decreases n - i,
    {
        proof {
            assert(remaining.deep_view()[0] == remaining@[0]@);
            assert(remaining.deep_view()[0] == outs[i as int]);
            assert(outs.take(i + 1) =~= outs.take(i as int).push(outs[i as int]));
            lemma_all_metrics_snoc(outs.take(i as int), outs[i as int]);
        }
        let ghost prev = remaining@;
        let o = remaining.remove(0);
        proof {
            assert(remaining@ =~= prev.subrange(1, prev.len() as int));
            assert forall|k: int|
                0 <= k < remaining@.len() implies remaining.deep_view()[k] == outs.skip(i + 1)[k] by {
                assert(remaining@[k] == prev[k + 1]);
                assert(remaining.deep_view()[k] == remaining@[k]@);
                assert(outs.skip(i as int)[k + 1] == outs[i + 1 + k]);
            }
            assert(remaining.deep_view() =~= outs.skip(i + 1));
            assert(o@ == outs[i as int]);
        }
        let ghost od = duration_samples.deep_view();
        duration_samples.push(
            MetricSample {
                labels: collector_labels(&o.name),
                value: MetricValue::Finite {
                    negative: false,
                    mantissa: o.duration_nanos as u128,
                    scale: 9,
                },
            },
        );
        proof {
            assert(duration_samples.deep_view().last() =~= duration_sample(outs[i as int]));
            assert(duration_samples.deep_view() =~= od.push(duration_sample(outs[i as int])));
            assert(duration_samples.deep_view() =~= Seq::new(
                (i + 1) as nat,
                |k: int| duration_sample(outs[k]),
            ));
        }
        let ghost osv = success_samples.deep_view();
        let ghost oev = error_samples.deep_view();
        match o.result {
            Ok(mut ms) => {
                success_samples.push(
                    MetricSample {
                        labels: collector_labels(&o.name),
                        value: MetricValue::Finite { negative: false, mantissa: 1, scale: 0 },
                    },
                );
                error_samples.push(
                    MetricSample {
                        labels: collector_labels(&o.name),
                        value: MetricValue::Finite { negative: false, mantissa: 0, scale: 0 },
                    },
                );
                let ghost av = all.deep_view();
                let ghost mv = ms.deep_view();
                all.append(&mut ms);
                proof {
                    assert(all.deep_view() =~= av + mv);
                    assert(outs[i as int].result == Ok::<Seq<MetricView>, ErrorView>(mv));
                }
            },
            Err(_) => {
                success_samples.push(
                    MetricSample {
                        labels: collector_labels(&o.name),
                        value: MetricValue::Finite { negative: false, mantissa: 0, scale: 0 },
                    },
                );
                error_samples.push(
                    MetricSample {
                        labels: collector_labels(&o.name),
                        value: MetricValue::Finite { negative: false, mantissa: 1, scale: 0 },
                    },
                );
                proof {
                    assert(all.deep_view() + Seq::<MetricView>::empty() =~= all.deep_view());
                }
            },
        }
        proof {
            assert(success_samples.deep_view().last() =~= success_sample(outs[i as int]));
            assert(success_samples.deep_view() =~= osv.push(success_sample(outs[i as int])));
            assert(success_samples.deep_view() =~= Seq::new(
                (i + 1) as nat,
                |k: int| success_sample(outs[k]),
            ));
            assert(error_samples.deep_view().last() =~= error_sample(outs[i as int]));
            assert(error_samples.deep_view() =~= oev.push(error_sample(outs[i as int])));
            assert(error_samples.deep_view() =~= Seq::new(
                (i + 1) as nat,
                |k: int| error_sample(outs[k]),
            ));
            assert(all.deep_view() == spec_all_metrics(outs.take(i + 1)));
        }
        i = i + 1;
    }
    proof {
        assert(outs.take(n as int) =~= outs);
    }
    let ghost collected = all.deep_view();
    let mut total_samples: Vec<MetricSample> = Vec::new();
    total_samples.push(
        MetricSample {
            labels: Vec::new(),
            value: MetricValue::Finite {
                negative: false,
                mantissa: total_duration_nanos as u128,
                scale: 9,
            },
        },
    );
    let mut build_labels: Vec<(String, String)> = Vec::new();
    build_labels.push(("version".to_owned(), version.to_owned()));
    build_labels.push(("rustc".to_owned(), rustc_version.to_owned()));
    let mut build_samples: Vec<MetricSample> = Vec::new();
    build_samples.push(
        MetricSample {
            labels: build_labels,
            value: MetricValue::Finite { negative: false, mantissa: 1, scale: 0 },
        },
    );
    let mut page = all;
    page.push(
        Metric {
            name: "sysmetrics_scrape_duration_seconds".to_owned(),
            help: "Duration of collector scrape in seconds.".to_owned(),
            metric_type: MetricType::Gauge,
            samples: duration_samples,
        },
    );
    page.push(
        Metric {
            name: "sysmetrics_scrape_duration_seconds_total".to_owned(),
            help: "Total scrape duration in seconds.".to_owned(),
            metric_type: MetricType::Gauge,
            samples: total_samples,
        },
    );
    page.push(
        Metric {
            name: "sysmetrics_collector_success".to_owned(),
            help: "Whether the collector succeeded (1) or failed (0).".to_owned(),
            metric_type: MetricType::Gauge,
            samples: success_samples,
        },
    );
    page.push(
        Metric {
            name: "sysmetrics_collector_errors_total".to_owned(),
            help: "Total collector scrape errors.".to_owned(),
            metric_type: MetricType::Counter,
            samples: error_samples,
        },
    );
    page.push(
        Metric {
            name: "sysmetrics_build_info".to_owned(),
            help: "Build information for sysmetrics-rs.".to_owned(),
            metric_type: MetricType::Gauge,
            samples: build_samples,
        },
    );
    proof {
        assert(page.deep_view() =~~= collected + spec_meta_metrics(
            outs,
            total_duration_nanos,
            version@,
            rustc_version@,
        ));
    }
    render_metrics(page.as_slice())
}

} // verus!
