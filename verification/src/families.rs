//! Metric families: `prometheus` holds the series of a family and writes them as text.

use crate::text;
use prometheus::{IntCounterVec, IntGauge, IntGaugeVec, Opts, Registry, TextEncoder};
use vstd::prelude::*;

verus! {

#[verifier::external_type_specification]
#[verifier::external_body]
pub struct ExPrometheusError(prometheus::Error);

/// The views of a list of string slices.
pub open spec fn strs(list: Seq<&str>) -> Seq<Seq<char>> {
    list.map_values(|item: &str| item@)
}

/// A letter or an underscore.
pub open spec fn is_name_letter(c: char) -> bool {
    'a' <= c <= 'z' || 'A' <= c <= 'Z' || c == '_'
}

/// Whether `name` can name a label: letters, digits and underscores, no digit first.
pub open spec fn is_label_name(name: Seq<char>) -> bool {
    &&& name.len() > 0
    &&& is_name_letter(name[0])
    &&& forall|i: int|
        0 <= i < name.len() ==> is_name_letter(#[trigger] name[i]) || text::is_digit(name[i])
}

/// Whether `name` can name a metric: as a label's name, with colons.
pub open spec fn is_metric_name(name: Seq<char>) -> bool {
    &&& name.len() > 0
    &&& is_name_letter(name[0]) || name[0] == ':'
    &&& forall|i: int|
        0 <= i < name.len() ==> is_name_letter(#[trigger] name[i]) || name[i] == ':'
            || text::is_digit(name[i])
}

/// What a family is made with.
#[verifier::ext_equal]
pub struct Shape {
    pub name: Seq<char>,
    pub help: Seq<char>,
    pub labels: Seq<Seq<char>>,
}

impl Shape {
    /// Whether a family can be made so: with a proper name, some help, and distinct proper labels.
    pub open spec fn wf(self) -> bool {
        &&& is_metric_name(self.name)
        &&& self.help.len() > 0
        &&& self.labels.no_duplicates()
        &&& forall|i: int| 0 <= i < self.labels.len() ==> is_label_name(#[trigger] self.labels[i])
    }
}

/// The key under which a family holds the series with these label values. Nothing says that
/// different values have different keys: series whose keys agree are one series.
pub uninterp spec fn series_key(values: Seq<Seq<char>>) -> u64;

/// A family of integer gauges.
#[verifier::external_body]
pub struct GaugeFamily {
    inner: IntGaugeVec,
}

/// The series of a gauge family: its label values and its value, by its key.
pub uninterp spec fn gauge_series(family: GaugeFamily) -> Map<u64, (Seq<Seq<char>>, i64)>;

/// What a gauge family was made with.
pub uninterp spec fn gauge_shape(family: GaugeFamily) -> Shape;

/// Whether there is a series at all.
pub open spec fn has_series<N>(series: Map<u64, (Seq<Seq<char>>, N)>) -> bool {
    exists|key: u64| series.contains_key(key)
}

/// The text of a gauge family with these series.
pub uninterp spec fn gauge_family_text(
    name: Seq<char>,
    help: Seq<char>,
    labels: Seq<Seq<char>>,
    series: Map<u64, (Seq<Seq<char>>, i64)>,
) -> Seq<char>;

/// `series` after the series with these label values was set to `value`.
pub open spec fn series_set<N>(
    series: Map<u64, (Seq<Seq<char>>, N)>,
    values: Seq<Seq<char>>,
    value: N,
) -> Map<u64, (Seq<Seq<char>>, N)> {
    let key = series_key(values);
    let held = if series.contains_key(key) {
        series[key].0
    } else {
        values
    };
    series.insert(key, (held, value))
}

/// The number after `n` where the count wraps around at the end of `u64`.
pub open spec fn wrapping_next(n: u64) -> u64 {
    if n == u64::MAX {
        0
    } else {
        (n + 1) as u64
    }
}

/// The count of the series with these label values.
pub open spec fn count_of(
    series: Map<u64, (Seq<Seq<char>>, u64)>,
    values: Seq<Seq<char>>,
) -> u64 {
    if series.contains_key(series_key(values)) {
        series[series_key(values)].1
    } else {
        0
    }
}

impl GaugeFamily {
    /// `IntGaugeVec::new`: a family without series, where the names, the help and the labels are
    /// in order; an error otherwise.
    #[verifier::external_body]
    pub(crate) fn new(name: &str, help: &str, labels: &[&str]) -> (family: Result<
        GaugeFamily,
        prometheus::Error,
    >)
        ensures
            family is Ok <==> (Shape { name: name@, help: help@, labels: strs(labels@) }).wf(),
            family is Ok ==> gauge_shape(family->Ok_0).name == name@,
            family is Ok ==> gauge_shape(family->Ok_0).help == help@,
            family is Ok ==> gauge_shape(family->Ok_0).labels == strs(labels@),
            family is Ok ==> forall|key: u64| !gauge_series(family->Ok_0).contains_key(key),
    {
        IntGaugeVec::new(Opts::new(name, help), labels).map(|inner| GaugeFamily { inner })
    }

    /// `IntGaugeVec::with_label_values` and `IntGauge::set`: the series under the key of these
    /// label values, made with them where there is none yet, now has this value; the others are
    /// as they were. It panics where the labels are not as many as the family's.
    #[verifier::external_body]
    pub(crate) fn set(&mut self, values: &[&str], value: i64)
        requires
            values@.len() == gauge_shape(*old(self)).labels.len(),
        ensures
            gauge_shape(*final(self)) == gauge_shape(*old(self)),
            gauge_series(*final(self)) == series_set(
                gauge_series(*old(self)),
                strs(values@),
                value,
            ),
    {
        self.inner.with_label_values(values).set(value);
    }

    /// `IntGaugeVec::remove_label_values`: the series under the key of these label values is gone;
    /// the others are as they were. That there was none is an error, which is dropped.
    #[verifier::external_body]
    pub(crate) fn remove(&mut self, values: &[&str])
        requires
            values@.len() == gauge_shape(*old(self)).labels.len(),
        ensures
            gauge_shape(*final(self)) == gauge_shape(*old(self)),
            gauge_series(*final(self)) == gauge_series(*old(self)).remove(
                series_key(strs(values@)),
            ),
    {
        let _ = self.inner.remove_label_values(values);
    }

    /// `Registry::gather` and `TextEncoder::encode_to_string` of the family alone. A family without
    /// series is left out. Of another, the text depends on what the family was made with and on
    /// its series, which are sorted by their labels first.
    #[verifier::external_body]
    pub(crate) fn text(&self) -> (written: Result<String, prometheus::Error>)
        ensures
            written is Ok,
            !has_series(gauge_series(*self)) ==> written->Ok_0@ == Seq::<char>::empty(),
            has_series(gauge_series(*self)) ==> written->Ok_0@ == gauge_family_text(
                gauge_shape(*self).name,
                gauge_shape(*self).help,
                gauge_shape(*self).labels,
                gauge_series(*self),
            ),
    {
        let registry = Registry::new();
        registry.register(Box::new(self.inner.clone()))?;
        TextEncoder::new().encode_to_string(&registry.gather())
    }
}

/// A family of integer counters.
#[verifier::external_body]
pub struct CounterFamily {
    inner: IntCounterVec,
}

/// The series of a counter family: its label values and its count, by its key.
pub uninterp spec fn counter_series(family: CounterFamily) -> Map<u64, (Seq<Seq<char>>, u64)>;

/// What a counter family was made with.
pub uninterp spec fn counter_shape(family: CounterFamily) -> Shape;

/// The text of a counter family with these series.
pub uninterp spec fn counter_family_text(
    name: Seq<char>,
    help: Seq<char>,
    labels: Seq<Seq<char>>,
    series: Map<u64, (Seq<Seq<char>>, u64)>,
) -> Seq<char>;

impl CounterFamily {
    /// `IntCounterVec::new`: a family without series, where the names, the help and the labels
    /// are in order; an error otherwise.
    #[verifier::external_body]
    pub(crate) fn new(name: &str, help: &str, labels: &[&str]) -> (family: Result<
        CounterFamily,
        prometheus::Error,
    >)
        ensures
            family is Ok <==> (Shape { name: name@, help: help@, labels: strs(labels@) }).wf(),
            family is Ok ==> counter_shape(family->Ok_0).name == name@,
            family is Ok ==> counter_shape(family->Ok_0).help == help@,
            family is Ok ==> counter_shape(family->Ok_0).labels == strs(labels@),
            family is Ok ==> forall|key: u64| !counter_series(family->Ok_0).contains_key(key),
    {
        IntCounterVec::new(Opts::new(name, help), labels).map(|inner| CounterFamily { inner })
    }

    /// `IntCounterVec::with_label_values` and `IntCounter::inc`: the series under the key of these
    /// label values, made with them and a count of zero where there is none yet, counts one more,
    /// wrapping around; the others are as they were. It panics where the labels are not as many
    /// as the family's.
    #[verifier::external_body]
    pub(crate) fn inc(&mut self, values: &[&str])
        requires
            values@.len() == counter_shape(*old(self)).labels.len(),
        ensures
            counter_shape(*final(self)) == counter_shape(*old(self)),
            counter_series(*final(self)) == series_set(
                counter_series(*old(self)),
                strs(values@),
                wrapping_next(count_of(counter_series(*old(self)), strs(values@))),
            ),
    {
        self.inner.with_label_values(values).inc();
    }

    /// `IntCounterVec::remove_label_values`: the series under the key of these label values is
    /// gone; the others are as they were. That there was none is an error, which is dropped.
    #[verifier::external_body]
    pub(crate) fn remove(&mut self, values: &[&str])
        requires
            values@.len() == counter_shape(*old(self)).labels.len(),
        ensures
            counter_shape(*final(self)) == counter_shape(*old(self)),
            counter_series(*final(self)) == counter_series(*old(self)).remove(
                series_key(strs(values@)),
            ),
    {
        let _ = self.inner.remove_label_values(values);
    }

    /// `Registry::gather` and `TextEncoder::encode_to_string` of the family alone. A family without
    /// series is left out. Of another, the text depends on what the family was made with and on
    /// its series, which are sorted by their labels first.
    #[verifier::external_body]
    pub(crate) fn text(&self) -> (written: Result<String, prometheus::Error>)
        ensures
            written is Ok,
            !has_series(counter_series(*self)) ==> written->Ok_0@ == Seq::<char>::empty(),
            has_series(counter_series(*self)) ==> written->Ok_0@ == counter_family_text(
                counter_shape(*self).name,
                counter_shape(*self).help,
                counter_shape(*self).labels,
                counter_series(*self),
            ),
    {
        let registry = Registry::new();
        registry.register(Box::new(self.inner.clone()))?;
        TextEncoder::new().encode_to_string(&registry.gather())
    }
}

/// The text of a gauge without labels, where it is not written literally.
pub uninterp spec fn gauge_text(name: Seq<char>, help: Seq<char>, value: i64) -> Seq<char>;

/// Whether `help` is written as it is, without escapes.
pub open spec fn is_plain_help(help: Seq<char>) -> bool {
    forall|i: int| 0 <= i < help.len() ==> #[trigger] help[i] != '\\' && help[i] != '\n'
}

/// The lines that describe a gauge and give its value.
pub open spec fn gauge_lines(name: Seq<char>, help: Seq<char>, value: int) -> Seq<char> {
    "# HELP "@ + name + " "@ + help + "\n# TYPE "@ + name + " gauge\n"@ + name + " "@
        + text::decimal(value) + "\n"@
}

/// Integers up to this size are written exactly.
pub const EXACT_LIMIT: i64 = 9_007_199_254_740_992;

/// Whether a gauge with this help and value is written literally.
pub open spec fn is_exact(help: Seq<char>, value: i64) -> bool {
    is_plain_help(help) && -EXACT_LIMIT <= value <= EXACT_LIMIT
}

/// `IntGauge::new`, `IntGauge::set`, `Registry::gather` and `TextEncoder::encode_to_string`: the
/// text of a gauge with this value, where its name and help are in order; an error otherwise. The
/// value is written as a float, so that it is exact up to 53 bits; the help is escaped where it
/// holds a backslash or a line break.
#[verifier::external_body]
pub(crate) fn write_gauge(name: &str, help: &str, value: i64) -> (written: Result<
    String,
    prometheus::Error,
>)
    ensures
        written is Ok <==> (Shape { name: name@, help: help@, labels: Seq::empty() }).wf(),
        written is Ok ==> is_exact(help@, value) ==> written->Ok_0@ == gauge_lines(
            name@,
            help@,
            value as int,
        ),
        written is Ok ==> !is_exact(help@, value) ==> written->Ok_0@ == gauge_text(
            name@,
            help@,
            value,
        ),
{
    let gauge = IntGauge::new(name, help)?;
    gauge.set(value);
    let registry = Registry::new();
    registry.register(Box::new(gauge))?;
    TextEncoder::new().encode_to_string(&registry.gather())
}

/// What is written of a gauge without labels.
pub open spec fn written_gauge(name: Seq<char>, help: Seq<char>, value: i64) -> Seq<char> {
    if is_exact(help, value) {
        gauge_lines(name, help, value as int)
    } else {
        gauge_text(name, help, value)
    }
}

/// What is written of a gauge family: nothing where it has no series.
pub open spec fn written_gauges(
    shape: Shape,
    series: Map<u64, (Seq<Seq<char>>, i64)>,
) -> Seq<char> {
    if has_series(series) {
        gauge_family_text(shape.name, shape.help, shape.labels, series)
    } else {
        Seq::empty()
    }
}

/// What is written of a counter family: nothing where it has no series.
pub open spec fn written_counters(
    shape: Shape,
    series: Map<u64, (Seq<Seq<char>>, u64)>,
) -> Seq<char> {
    if has_series(series) {
        counter_family_text(shape.name, shape.help, shape.labels, series)
    } else {
        Seq::empty()
    }
}

/// `TextEncoder::format_type`: the content type of the text format.
#[verifier::external_body]
pub(crate) fn format_type() -> (content_type: String)
    ensures
        content_type@ == "text/plain; version=0.0.4"@,
{
    prometheus::Encoder::format_type(&TextEncoder::new()).to_string()
}

} // verus!
