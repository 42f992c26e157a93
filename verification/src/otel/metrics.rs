//! Metrics that guests export.
use vstd::prelude::*;

use crate::otel::types::key_value_pairs;
use crate::otel::types::KeyValue;
use crate::propagation::pairs;
use crate::text::decimal;
use crate::text::push_decimal;
use crate::text::push_text;
use crate::text::texts;

verus! {

/// A measured number. Floating-point numbers are given by their bits.
#[derive(Clone, Copy, Debug, PartialEq, Eq, Structural)]
pub enum MetricNumber {
    Float(u64),
    Signed(i64),
    Unsigned(u64),
}

/// A measurement, with what it is a measurement of.
#[derive(Debug, PartialEq, Eq)]
pub struct DataPoint {
    pub attributes: Vec<KeyValue>,
    pub value: MetricNumber,
}

/// The latest measurements of something.
#[derive(Debug, PartialEq, Eq)]
pub struct Gauge {
    pub data_points: Vec<DataPoint>,
}

/// Measurements that are added up.
#[derive(Debug, PartialEq, Eq)]
pub struct Sum {
    pub data_points: Vec<DataPoint>,
    /// Whether the sums never fall.
    pub is_monotonic: bool,
}

/// How measurements are distributed.
#[derive(Debug, PartialEq, Eq)]
pub struct HistogramDataPoint {
    pub attributes: Vec<KeyValue>,
    pub count: u64,
}

/// Distributions of measurements.
#[derive(Debug, PartialEq, Eq)]
pub struct Histogram {
    pub data_points: Vec<HistogramDataPoint>,
}

/// What a metric measured.
#[derive(Debug, PartialEq, Eq)]
pub enum MetricData {
    F64Gauge(Gauge),
    U64Gauge(Gauge),
    S64Gauge(Gauge),
    F64Sum(Sum),
    U64Sum(Sum),
    S64Sum(Sum),
    F64Histogram(Histogram),
    U64Histogram(Histogram),
    S64Histogram(Histogram),
    F64ExponentialHistogram(Histogram),
    U64ExponentialHistogram(Histogram),
    S64ExponentialHistogram(Histogram),
}

/// A metric.
#[derive(Debug, PartialEq, Eq)]
pub struct Metric {
    pub name: String,
    pub data: MetricData,
}

/// The metrics of one scope.
#[derive(Debug, PartialEq, Eq)]
pub struct ScopeMetrics {
    pub metrics: Vec<Metric>,
}

/// The metrics that a guest exports at once.
#[derive(Debug, PartialEq, Eq)]
pub struct ResourceMetrics {
    pub scope_metrics: Vec<ScopeMetrics>,
}

/// What metrics there are.
#[derive(Debug, PartialEq, Eq)]
pub struct MetricsSummary {
    pub total_scopes: usize,
    pub total_metrics: usize,
    pub metric_names: Vec<String>,
}

// ---------------------------------------------------------------------------
// Summaries
// ---------------------------------------------------------------------------

/// So many points of a sort, in words.
pub open spec fn points_text(sort: Seq<char>, n: nat, rest: Seq<char>) -> Seq<char> {
    sort + "("@ + decimal(n) + " points"@ + rest + ")"@
}

/// What a metric measured, in words.
pub open spec fn data_text(data: MetricData) -> Seq<char> {
    match data {
        MetricData::F64Gauge(g) => points_text("gauge"@, g.data_points@.len(), ""@),
        MetricData::U64Gauge(g) => points_text("gauge"@, g.data_points@.len(), ""@),
        MetricData::S64Gauge(g) => points_text("gauge"@, g.data_points@.len(), ""@),
        MetricData::F64Sum(s) => sum_text(s),
        MetricData::U64Sum(s) => sum_text(s),
        MetricData::S64Sum(s) => sum_text(s),
        MetricData::F64Histogram(h) => points_text("histogram"@, h.data_points@.len(), ""@),
        MetricData::U64Histogram(h) => points_text("histogram"@, h.data_points@.len(), ""@),
        MetricData::S64Histogram(h) => points_text("histogram"@, h.data_points@.len(), ""@),
        MetricData::F64ExponentialHistogram(h) => points_text(
            "exp_histogram"@,
            h.data_points@.len(),
            ""@,
        ),
        MetricData::U64ExponentialHistogram(h) => points_text(
            "exp_histogram"@,
            h.data_points@.len(),
            ""@,
        ),
        MetricData::S64ExponentialHistogram(h) => points_text(
            "exp_histogram"@,
            h.data_points@.len(),
            ""@,
        ),
    }
}

/// A sum, in words.
pub open spec fn sum_text(sum: Sum) -> Seq<char> {
    points_text(
        "sum"@,
        sum.data_points@.len(),
        if sum.is_monotonic {
            ", monotonic"@
        } else {
            ", non-monotonic"@
        },
    )
}

fn describe(sort: &str, n: usize, rest: &str) -> (text: String)
    ensures
        text@ == points_text(sort@, n as nat, rest@),
{
    let mut text = sort.to_string();
    push_text(&mut text, "(");
    push_decimal(&mut text, n as u64);
    push_text(&mut text, " points");
    push_text(&mut text, rest);
    push_text(&mut text, ")");
    text
}

fn describe_sum(sum: &Sum) -> (text: String)
    ensures
        text@ == sum_text(*sum),
{
    describe(
        "sum",
        sum.data_points.len(),
        if sum.is_monotonic {
            ", monotonic"
        } else {
            ", non-monotonic"
        },
    )
}

/// What a metric measured, in words.
pub fn metric_data_summary(data: &MetricData) -> (text: String)
    ensures
        text@ == data_text(*data),
{
    match data {
        MetricData::F64Gauge(g) => describe("gauge", g.data_points.len(), ""),
        MetricData::U64Gauge(g) => describe("gauge", g.data_points.len(), ""),
        MetricData::S64Gauge(g) => describe("gauge", g.data_points.len(), ""),
        MetricData::F64Sum(s) => describe_sum(s),
        MetricData::U64Sum(s) => describe_sum(s),
        MetricData::S64Sum(s) => describe_sum(s),
        MetricData::F64Histogram(h) => describe("histogram", h.data_points.len(), ""),
        MetricData::U64Histogram(h) => describe("histogram", h.data_points.len(), ""),
        MetricData::S64Histogram(h) => describe("histogram", h.data_points.len(), ""),
        MetricData::F64ExponentialHistogram(h) => describe(
            "exp_histogram",
            h.data_points.len(),
            "",
        ),
        MetricData::U64ExponentialHistogram(h) => describe(
            "exp_histogram",
            h.data_points.len(),
            "",
        ),
        MetricData::S64ExponentialHistogram(h) => describe(
            "exp_histogram",
            h.data_points.len(),
            "",
        ),
    }
}

/// A metric, in words: its name and what it measured.
pub open spec fn metric_text(metric: Metric) -> Seq<char> {
    metric.name@ + "["@ + data_text(metric.data) + "]"@
}

/// The metrics of all scopes, in order.
pub open spec fn all_metrics(scopes: Seq<ScopeMetrics>) -> Seq<Metric>
    decreases scopes.len(),
{
    if scopes.len() == 0 {
        Seq::empty()
    } else {
        all_metrics(scopes.drop_last()) + scopes.last().metrics@
    }
}

/// What metrics a guest exports.
pub fn summarize_resource_metrics(metrics: &ResourceMetrics) -> (summary: MetricsSummary)
    ensures
        summary.total_scopes == metrics.scope_metrics@.len(),
        summary.total_metrics == all_metrics(metrics.scope_metrics@).len(),
        texts(summary.metric_names@) == all_metrics(metrics.scope_metrics@).map_values(
            |metric: Metric| metric_text(metric),
        ),
{
    let n: usize = metrics.scope_metrics.len();
    let ghost scopes = metrics.scope_metrics@;
    let mut names: Vec<String> = Vec::new();
    assert(scopes.take(0) =~= Seq::empty());
    for i in 0..n
        invariant
            n == metrics.scope_metrics@.len(),
            scopes == metrics.scope_metrics@,
            names@.len() == all_metrics(scopes.take(i as int)).len(),
            forall|k: int|
                0 <= k < names@.len() ==> (#[trigger] names@[k])@ == metric_text(
                    all_metrics(scopes.take(i as int))[k],
                ),
    {
        let scope = &metrics.scope_metrics[i];
        let m: usize = scope.metrics.len();
        let ghost before = all_metrics(scopes.take(i as int));
        for j in 0..m
            invariant
                m == scope.metrics@.len(),
                names@.len() == before.len() + j,
                forall|k: int|
                    0 <= k < names@.len() ==> (#[trigger] names@[k])@ == metric_text(
                        (before + scope.metrics@)[k],
                    ),
        {
            let metric = &scope.metrics[j];
            let mut name = metric.name.clone();
            push_text(&mut name, "[");
            push_text(&mut name, metric_data_summary(&metric.data).as_str());
            push_text(&mut name, "]");
            assert((before + scope.metrics@)[before.len() + j] == scope.metrics@[j as int]);
            names.push(name);
        }
        proof {
            assert(scopes.take(i + 1).drop_last() =~= scopes.take(i as int));
            assert(all_metrics(scopes.take(i + 1)) == before + scope.metrics@);
        }
    }
    assert(scopes.take(n as int) =~= scopes);
    assert(texts(names@) =~= all_metrics(scopes).map_values(|metric: Metric| metric_text(metric)));
    MetricsSummary { total_scopes: n, total_metrics: names.len(), metric_names: names }
}

// ---------------------------------------------------------------------------
// Recordings
// ---------------------------------------------------------------------------

/// With which instrument a measurement is recorded.
#[derive(Clone, Copy, Debug, PartialEq, Eq, Structural)]
pub enum Instrument {
    Gauge,
    Counter,
    UpDownCounter,
}

/// A measurement to be recorded.
#[derive(Debug, PartialEq, Eq)]
pub struct Recording {
    pub instrument: Instrument,
    pub name: String,
    pub value: MetricNumber,
    pub attributes: Vec<(String, String)>,
}

/// What a [`Recording`] holds.
pub struct RecordingView {
    pub instrument: Instrument,
    pub name: Seq<char>,
    pub value: MetricNumber,
    pub attributes: Seq<(Seq<char>, Seq<char>)>,
}

impl View for Recording {
    type V = RecordingView;

    open spec fn view(&self) -> RecordingView {
        RecordingView {
            instrument: self.instrument,
            name: self.name@,
            value: self.value,
            attributes: pairs(self.attributes@),
        }
    }
}

/// What recordings hold.
pub open spec fn recording_views(list: Seq<Recording>) -> Seq<RecordingView> {
    list.map_values(|recording: Recording| recording@)
}

/// The points of a metric, each recorded under its name with one instrument.
pub open spec fn points_recorded(
    points: Seq<DataPoint>,
    name: Seq<char>,
    instrument: Instrument,
) -> Seq<RecordingView> {
    points.map_values(
        |point: DataPoint|
            RecordingView {
                instrument,
                name,
                value: point.value,
                attributes: key_value_pairs(point.attributes@),
            },
    )
}

/// The gauges of a metric, if it is one.
pub open spec fn gauge_recordings(metric: Metric) -> Seq<RecordingView> {
    match metric.data {
        MetricData::F64Gauge(g) => points_recorded(
            g.data_points@,
            metric.name@,
            Instrument::Gauge,
        ),
        MetricData::U64Gauge(g) => points_recorded(
            g.data_points@,
            metric.name@,
            Instrument::Gauge,
        ),
        MetricData::S64Gauge(g) => points_recorded(
            g.data_points@,
            metric.name@,
            Instrument::Gauge,
        ),
        _ => Seq::empty(),
    }
}

/// With which instrument the points of a sum are recorded: one that never falls with a counter.
pub open spec fn sum_instrument(sum: Sum) -> Instrument {
    if sum.is_monotonic {
        Instrument::Counter
    } else {
        Instrument::UpDownCounter
    }
}

/// The counts of a metric, if it is a sum.
pub open spec fn counter_recordings(metric: Metric) -> Seq<RecordingView> {
    match metric.data {
        MetricData::F64Sum(s) => points_recorded(s.data_points@, metric.name@, sum_instrument(s)),
        MetricData::U64Sum(s) => points_recorded(s.data_points@, metric.name@, sum_instrument(s)),
        MetricData::S64Sum(s) => points_recorded(s.data_points@, metric.name@, sum_instrument(s)),
        _ => Seq::empty(),
    }
}

/// The gauges of metrics, in order.
pub open spec fn all_gauges(metrics: Seq<Metric>) -> Seq<RecordingView>
    decreases metrics.len(),
{
    if metrics.len() == 0 {
        Seq::empty()
    } else {
        all_gauges(metrics.drop_last()) + gauge_recordings(metrics.last())
    }
}

/// The counts of metrics, in order.
pub open spec fn all_counters(metrics: Seq<Metric>) -> Seq<RecordingView>
    decreases metrics.len(),
{
    if metrics.len() == 0 {
        Seq::empty()
    } else {
        all_counters(metrics.drop_last()) + counter_recordings(metrics.last())
    }
}

/// The attributes of a measurement.
fn point_attributes(list: &Vec<KeyValue>) -> (out: Vec<(String, String)>)
    ensures
        pairs(out@) == key_value_pairs(list@),
{
    let n: usize = list.len();
    let mut out: Vec<(String, String)> = Vec::new();
    for i in 0..n
        invariant
            n == list@.len(),
            out@.len() == i,
            forall|j: int|
                0 <= j < i ==> (#[trigger] out@[j]).0@ == list@[j].key@ && out@[j].1@
                    == list@[j].value@,
    {
        out.push((list[i].key.clone(), list[i].value.clone()));
    }
    assert(pairs(out@) =~= key_value_pairs(list@));
    out
}

/// Puts the points of a metric at the end of a list.
fn push_points(
    list: &mut Vec<Recording>,
    points: &Vec<DataPoint>,
    name: &String,
    instrument: Instrument,
)
    ensures
        recording_views(final(list)@) == recording_views(old(list)@) + points_recorded(
            points@,
            name@,
            instrument,
        ),
{
    let n: usize = points.len();
    let ghost before = recording_views(list@);
    let ghost all = points_recorded(points@, name@, instrument);
    assert(before + all.take(0) =~= before);
    for i in 0..n
        invariant
            n == points@.len(),
            all == points_recorded(points@, name@, instrument),
            recording_views(list@) == before + all.take(i as int),
    {
        let ghost midway = recording_views(list@);
        let recording = Recording {
            instrument,
            name: name.clone(),
            value: points[i].value,
            attributes: point_attributes(&points[i].attributes),
        };
        list.push(recording);
        proof {
            assert(recording_views(list@) =~= midway.push(recording@));
            assert(all[i as int] == recording@);
            assert(before + all.take(i + 1) =~= midway.push(all[i as int]));
        }
    }
    assert(all.take(n as int) =~= all);
}

/// Puts the gauges of a metric at the end of a list.
fn push_gauges(list: &mut Vec<Recording>, metric: &Metric)
    ensures
        recording_views(final(list)@) == recording_views(old(list)@) + gauge_recordings(*metric),
{
    match &metric.data {
        MetricData::F64Gauge(g) => push_points(
            list,
            &g.data_points,
            &metric.name,
            Instrument::Gauge,
        ),
        MetricData::U64Gauge(g) => push_points(
            list,
            &g.data_points,
            &metric.name,
            Instrument::Gauge,
        ),
        MetricData::S64Gauge(g) => push_points(
            list,
            &g.data_points,
            &metric.name,
            Instrument::Gauge,
        ),
        _ => {
            assert(recording_views(list@) + Seq::empty() =~= recording_views(list@));
        },
    }
}

/// With which instrument the points of a sum are recorded.
fn instrument_of(sum: &Sum) -> (instrument: Instrument)
    ensures
        instrument == sum_instrument(*sum),
{
    if sum.is_monotonic {
        Instrument::Counter
    } else {
        Instrument::UpDownCounter
    }
}

/// Puts the counts of a metric at the end of a list.
fn push_counters(list: &mut Vec<Recording>, metric: &Metric)
    ensures
        recording_views(final(list)@) == recording_views(old(list)@) + counter_recordings(*metric),
{
    match &metric.data {
        MetricData::F64Sum(s) => push_points(list, &s.data_points, &metric.name, instrument_of(s)),
        MetricData::U64Sum(s) => push_points(list, &s.data_points, &metric.name, instrument_of(s)),
        MetricData::S64Sum(s) => push_points(list, &s.data_points, &metric.name, instrument_of(s)),
        _ => {
            assert(recording_views(list@) + Seq::empty() =~= recording_views(list@));
        },
    }
}

/// The gauges of two lists of metrics are those of one after those of the other.
proof fn lemma_gauges_split(first: Seq<Metric>, second: Seq<Metric>)
    ensures
        all_gauges(first + second) == all_gauges(first) + all_gauges(second),
    decreases second.len(),
{
    if second.len() == 0 {
        assert(first + second =~= first);
        assert(all_gauges(first) + all_gauges(second) =~= all_gauges(first));
    } else {
        lemma_gauges_split(first, second.drop_last());
        assert((first + second).drop_last() =~= first + second.drop_last());
        assert(all_gauges(first) + all_gauges(second) =~= all_gauges(first) + all_gauges(
            second.drop_last(),
        ) + gauge_recordings(second.last()));
    }
}

/// The counts of two lists of metrics are those of one after those of the other.
proof fn lemma_counters_split(first: Seq<Metric>, second: Seq<Metric>)
    ensures
        all_counters(first + second) == all_counters(first) + all_counters(second),
    decreases second.len(),
{
    if second.len() == 0 {
        assert(first + second =~= first);
        assert(all_counters(first) + all_counters(second) =~= all_counters(first));
    } else {
        lemma_counters_split(first, second.drop_last());
        assert((first + second).drop_last() =~= first + second.drop_last());
        assert(all_counters(first) + all_counters(second) =~= all_counters(first) + all_counters(
            second.drop_last(),
        ) + counter_recordings(second.last()));
    }
}

/// The gauges that a guest exports.
pub fn extract_gauge_values(metrics: &ResourceMetrics) -> (list: Vec<Recording>)
    ensures
        recording_views(list@) == all_gauges(all_metrics(metrics.scope_metrics@)),
{
    let n: usize = metrics.scope_metrics.len();
    let ghost scopes = metrics.scope_metrics@;
    let mut list: Vec<Recording> = Vec::new();
    assert(scopes.take(0) =~= Seq::empty());
    assert(recording_views(list@) =~= Seq::empty());
    for i in 0..n
        invariant
            n == metrics.scope_metrics@.len(),
            scopes == metrics.scope_metrics@,
            recording_views(list@) == all_gauges(all_metrics(scopes.take(i as int))),
    {
        let scope = &metrics.scope_metrics[i];
        let m: usize = scope.metrics.len();
        let ghost before = recording_views(list@);
        assert(scope.metrics@.take(0) =~= Seq::empty());
        assert(before + all_gauges(Seq::empty()) =~= before);
        for j in 0..m
            invariant
                m == scope.metrics@.len(),
                recording_views(list@) == before + all_gauges(scope.metrics@.take(j as int)),
        {
            let ghost midway = recording_views(list@);
            push_gauges(&mut list, &scope.metrics[j]);
            proof {
                let done = scope.metrics@.take(j as int);
                let more = scope.metrics@.take(j + 1);
                assert(more.drop_last() =~= done);
                assert(before + all_gauges(more) =~= midway + gauge_recordings(
                    scope.metrics@[j as int],
                ));
            }
        }
        proof {
            assert(scope.metrics@.take(m as int) =~= scope.metrics@);
            assert(scopes.take(i + 1).drop_last() =~= scopes.take(i as int));
            lemma_gauges_split(all_metrics(scopes.take(i as int)), scope.metrics@);
        }
    }
    assert(scopes.take(n as int) =~= scopes);
    list
}

/// The counts that a guest exports.
pub fn extract_counter_values(metrics: &ResourceMetrics) -> (list: Vec<Recording>)
    ensures
        recording_views(list@) == all_counters(all_metrics(metrics.scope_metrics@)),
{
    let n: usize = metrics.scope_metrics.len();
    let ghost scopes = metrics.scope_metrics@;
    let mut list: Vec<Recording> = Vec::new();
    assert(scopes.take(0) =~= Seq::empty());
    assert(recording_views(list@) =~= Seq::empty());
    for i in 0..n
        invariant
            n == metrics.scope_metrics@.len(),
            scopes == metrics.scope_metrics@,
            recording_views(list@) == all_counters(all_metrics(scopes.take(i as int))),
    {
        let scope = &metrics.scope_metrics[i];
        let m: usize = scope.metrics.len();
        let ghost before = recording_views(list@);
        assert(scope.metrics@.take(0) =~= Seq::empty());
        assert(before + all_counters(Seq::empty()) =~= before);
        for j in 0..m
            invariant
                m == scope.metrics@.len(),
                recording_views(list@) == before + all_counters(scope.metrics@.take(j as int)),
        {
            let ghost midway = recording_views(list@);
            push_counters(&mut list, &scope.metrics[j]);
            proof {
                let done = scope.metrics@.take(j as int);
                let more = scope.metrics@.take(j + 1);
                assert(more.drop_last() =~= done);
                assert(before + all_counters(more) =~= midway + counter_recordings(
                    scope.metrics@[j as int],
                ));
            }
        }
        proof {
            assert(scope.metrics@.take(m as int) =~= scope.metrics@);
            assert(scopes.take(i + 1).drop_last() =~= scopes.take(i as int));
            lemma_counters_split(all_metrics(scopes.take(i as int)), scope.metrics@);
        }
    }
    assert(scopes.take(n as int) =~= scopes);
    list
}

/// How the export of a guest's metrics stands.
#[derive(Debug, PartialEq, Eq)]
pub enum ExportState {
    /// There is nothing to record with.
    NoProvider,
    /// All is recorded and handed on.
    Flushed,
    /// All is recorded, but could not be handed on.
    FlushFailed(String),
}

/// What a guest is told of the export of its metrics.
pub fn export_result(state: ExportState) -> (result: Result<(), String>)
    ensures
        match state {
            ExportState::Flushed => result is Ok,
            ExportState::NoProvider => result matches Err(text) && text@
                == "Meter provider not initialized"@,
            ExportState::FlushFailed(error) => result matches Err(text) && text@
                == "Failed to flush metrics: "@ + error@,
        },
{
    match state {
        ExportState::Flushed => Ok(()),
        ExportState::NoProvider => Err("Meter provider not initialized".to_string()),
        ExportState::FlushFailed(error) => {
            let mut text = "Failed to flush metrics: ".to_string();
            push_text(&mut text, error.as_str());
            Err(text)
        },
    }
}

/// The points of a metric that is a gauge, of whichever of the three sorts of numbers.
pub open spec fn gauge_points(data: MetricData) -> Option<Seq<DataPoint>> {
    match data {
        MetricData::F64Gauge(gauge) => Some(gauge.data_points@),
        MetricData::U64Gauge(gauge) => Some(gauge.data_points@),
        MetricData::S64Gauge(gauge) => Some(gauge.data_points@),
        _ => None,
    }
}

/// The points of a metric that is a sum, of whichever of the three sorts of numbers, and whether
/// it never falls.
pub open spec fn sum_points(data: MetricData) -> Option<(Seq<DataPoint>, bool)> {
    match data {
        MetricData::F64Sum(sum) => Some((sum.data_points@, sum.is_monotonic)),
        MetricData::U64Sum(sum) => Some((sum.data_points@, sum.is_monotonic)),
        MetricData::S64Sum(sum) => Some((sum.data_points@, sum.is_monotonic)),
        _ => None,
    }
}

/// Whether a recording is that of a point, under a name and with an instrument.
pub open spec fn records(
    recording: RecordingView,
    point: DataPoint,
    name: Seq<char>,
    instrument: Instrument,
) -> bool {
    &&& recording.instrument == instrument
    &&& recording.name == name
    &&& recording.value == point.value
    &&& recording.attributes.len() == point.attributes@.len()
    &&& forall|i: int|
        0 <= i < point.attributes@.len() ==> (#[trigger] recording.attributes[i]).0
            == point.attributes@[i].key@ && recording.attributes[i].1 == point.attributes@[i].value@
}

/// Every point of a gauge or a sum, whatever sort of number it measures, is recorded once, in
/// order, under the name of its metric, with its own value and attributes: a gauge with a gauge, a
/// sum that never falls with a counter, any other sum with an up-down counter. Nothing else of a
/// metric is recorded.
pub proof fn law_every_point_is_recorded(metric: Metric)
    ensures
        match metric.data {
            MetricData::F64Gauge(g) => gauge_points(metric.data) == Some(g.data_points@),
            MetricData::U64Gauge(g) => gauge_points(metric.data) == Some(g.data_points@),
            MetricData::S64Gauge(g) => gauge_points(metric.data) == Some(g.data_points@),
            _ => gauge_points(metric.data) is None,
        },
        match metric.data {
            MetricData::F64Sum(s) => sum_points(metric.data) == Some(
                (s.data_points@, s.is_monotonic),
            ),
            MetricData::U64Sum(s) => sum_points(metric.data) == Some(
                (s.data_points@, s.is_monotonic),
            ),
            MetricData::S64Sum(s) => sum_points(metric.data) == Some(
                (s.data_points@, s.is_monotonic),
            ),
            _ => sum_points(metric.data) is None,
        },
        match gauge_points(metric.data) {
            Some(points) => {
                &&& gauge_recordings(metric).len() == points.len()
                &&& forall|i: int|
                    0 <= i < points.len() ==> records(
                        #[trigger] gauge_recordings(metric)[i],
                        points[i],
                        metric.name@,
                        Instrument::Gauge,
                    )
            },
            None => gauge_recordings(metric).len() == 0,
        },
        match sum_points(metric.data) {
            Some((points, monotonic)) => {
                &&& counter_recordings(metric).len() == points.len()
                &&& forall|i: int|
                    0 <= i < points.len() ==> records(
                        #[trigger] counter_recordings(metric)[i],
                        points[i],
                        metric.name@,
                        if monotonic {
                            Instrument::Counter
                        } else {
                            Instrument::UpDownCounter
                        },
                    )
            },
            None => counter_recordings(metric).len() == 0,
        },
{
}

/// What metrics are recorded of is that of each of them, in order, whatever scopes they are in:
/// none is left out and none comes twice.
pub proof fn law_metrics_are_recorded_in_order(
    scopes: Seq<ScopeMetrics>,
    scope: ScopeMetrics,
    metrics: Seq<Metric>,
    metric: Metric,
)
    ensures
        all_metrics(Seq::empty()).len() == 0,
        all_metrics(scopes.push(scope)) == all_metrics(scopes) + scope.metrics@,
        all_gauges(Seq::empty()).len() == 0,
        all_gauges(metrics.push(metric)) == all_gauges(metrics) + gauge_recordings(metric),
        all_counters(Seq::empty()).len() == 0,
        all_counters(metrics.push(metric)) == all_counters(metrics) + counter_recordings(metric),
{
    assert(scopes.push(scope).drop_last() =~= scopes);
    assert(metrics.push(metric).drop_last() =~= metrics);
}

/// How many points a metric has.
pub open spec fn point_count(data: MetricData) -> nat {
    match data {
        MetricData::F64Gauge(g) => g.data_points@.len(),
        MetricData::U64Gauge(g) => g.data_points@.len(),
        MetricData::S64Gauge(g) => g.data_points@.len(),
        MetricData::F64Sum(s) => s.data_points@.len(),
        MetricData::U64Sum(s) => s.data_points@.len(),
        MetricData::S64Sum(s) => s.data_points@.len(),
        MetricData::F64Histogram(h) => h.data_points@.len(),
        MetricData::U64Histogram(h) => h.data_points@.len(),
        MetricData::S64Histogram(h) => h.data_points@.len(),
        MetricData::F64ExponentialHistogram(h) => h.data_points@.len(),
        MetricData::U64ExponentialHistogram(h) => h.data_points@.len(),
        MetricData::S64ExponentialHistogram(h) => h.data_points@.len(),
    }
}

/// The words for a metric are its name and, in brackets, its sort and how many points it has, and
/// of a sum whether it never falls.
pub proof fn law_metrics_are_named_with_their_points(metric: Metric)
    ensures
        ({
            let start = metric.name@ + "["@;
            let count = "("@ + decimal(point_count(metric.data)) + " points"@;
            let end = ")"@ + "]"@;
            match metric.data {
                MetricData::F64Gauge(_) | MetricData::U64Gauge(_) | MetricData::S64Gauge(_) => {
                    metric_text(metric) == start + ("gauge"@ + count + end)
                },
                MetricData::F64Sum(s) | MetricData::U64Sum(s) | MetricData::S64Sum(s) => {
                    metric_text(metric) == start + ("sum"@ + count + (if s.is_monotonic {
                        ", monotonic"@
                    } else {
                        ", non-monotonic"@
                    }) + end)
                },
                MetricData::F64Histogram(_)
                | MetricData::U64Histogram(_)
                | MetricData::S64Histogram(_) => {
                    metric_text(metric) == start + ("histogram"@ + count + end)
                },
                _ => metric_text(metric) == start + ("exp_histogram"@ + count + end),
            }
        }),
{
    reveal_strlit("");
    let count = "("@ + decimal(point_count(metric.data)) + " points"@;
    let end = ")"@ + "]"@;
    let start = metric.name@ + "["@;
    match metric.data {
        MetricData::F64Gauge(_) | MetricData::U64Gauge(_) | MetricData::S64Gauge(_) => {
            assert(metric_text(metric) =~= start + ("gauge"@ + count + end));
        },
        MetricData::F64Sum(s) | MetricData::U64Sum(s) | MetricData::S64Sum(s) => {
            assert(metric_text(metric) =~= start + ("sum"@ + count + (if s.is_monotonic {
                ", monotonic"@
            } else {
                ", non-monotonic"@
            }) + end));
        },
        MetricData::F64Histogram(_)
        | MetricData::U64Histogram(_)
        | MetricData::S64Histogram(_) => {
            assert(metric_text(metric) =~= start + ("histogram"@ + count + end));
        },
        _ => {
            assert(metric_text(metric) =~= start + ("exp_histogram"@ + count + end));
        },
    }
}

/// No metric is both a gauge and a sum: what one function extracts of it the other does not.
pub proof fn law_metrics_are_recorded_once(metric: Metric)
    ensures
        gauge_recordings(metric).len() == 0 || counter_recordings(metric).len() == 0,
{
}

/// Sums that never fall are recorded with counters, and no others are.
pub proof fn law_monotonic_sums_are_counted(metric: Metric, i: int)
    requires
        0 <= i < counter_recordings(metric).len(),
    ensures
        (counter_recordings(metric)[i].instrument == Instrument::Counter) == (match metric.data {
            MetricData::F64Sum(s) => s.is_monotonic,
            MetricData::U64Sum(s) => s.is_monotonic,
            MetricData::S64Sum(s) => s.is_monotonic,
            _ => false,
        }),
{
}

/// The export of metrics succeeds exactly where all is handed on, and says else what went wrong.
pub proof fn law_exports_succeed_when_flushed(state: ExportState, result: Result<(), String>)
    requires
        call_ensures(export_result, (state,), result),
    ensures
        result is Ok <==> state is Flushed,
        state is NoProvider ==> (result matches Err(text) && text@
            == "Meter provider not initialized"@),
        state matches ExportState::FlushFailed(error) ==> (result matches Err(text) && text@
            == "Failed to flush metrics: "@ + error@),
{
}

} // verus!
