use weaver_semconv::body::BodyType;
use weaver_semconv::metric::MetricValueTypeSpec;
use weaver_semconv::group::InstrumentSpec;
use weaver_semconv::group::InstrumentSpec::{Counter, Gauge, Histogram, UpDownCounter};
use weaver_semconv::signal_requirement_level::SignalRequirementLevel;
use weaver_semconv::stability::Stability;
use weaver_semconv::style::Style;
use weaver_semconv::v2::metric::InstrumentSpec as V2InstrumentSpec;
use weaver_semconv::v2::span::SpanKindSpec;

#[test]
fn test_instrumentation_spec() {
    assert_eq!(Counter.to_string(), "counter");
    assert_eq!(Gauge.to_string(), "gauge");
    assert_eq!(Histogram.to_string(), "histogram");
    assert_eq!(UpDownCounter.to_string(), "updowncounter");
    let _unused: InstrumentSpec = Counter;
}

#[test]
fn signal_requirement_level_test_display() {
    assert_eq!(SignalRequirementLevel::Recommended.to_string(), "recommended");
    assert_eq!(SignalRequirementLevel::OptIn.to_string(), "opt_in");
}

#[test]
fn test_default() {
    assert_eq!(SignalRequirementLevel::default(), SignalRequirementLevel::Recommended);
}

#[test]
fn stability_test_display() {
    assert_eq!(Stability::Stable.to_string(), "stable");
    assert_eq!(Stability::Development.to_string(), "development");
    assert_eq!(Stability::Alpha.to_string(), "alpha");
    assert_eq!(Stability::Beta.to_string(), "beta");
    assert_eq!(Stability::ReleaseCandidate.to_string(), "release_candidate");
}

#[test]
fn style_test_display() {
    assert_eq!(Style::Note.to_string(), "NOTE");
    assert_eq!(Style::Tip.to_string(), "TIP");
    assert_eq!(Style::Important.to_string(), "IMPORTANT");
    assert_eq!(Style::Warning.to_string(), "WARNING");
    assert_eq!(Style::Caution.to_string(), "CAUTION");
}

#[test]
fn test_instrument_spec_display() {
    assert_eq!(V2InstrumentSpec::Counter.to_string(), "counter");
    assert_eq!(V2InstrumentSpec::Gauge.to_string(), "gauge");
    assert_eq!(V2InstrumentSpec::Histogram.to_string(), "histogram");
    assert_eq!(V2InstrumentSpec::UpDownCounter.to_string(), "updowncounter");
}

#[test]
fn test_span_kind_spec_display() {
    assert_eq!(SpanKindSpec::Internal.to_string(), "internal");
    assert_eq!(SpanKindSpec::Server.to_string(), "server");
    assert_eq!(SpanKindSpec::Client.to_string(), "client");
    assert_eq!(SpanKindSpec::Producer.to_string(), "producer");
    assert_eq!(SpanKindSpec::Consumer.to_string(), "consumer");
}

#[test]
fn body_and_metric_value_type_names() {
    assert_eq!(BodyType::Mapping.to_string(), "map");
    assert_eq!(BodyType::String.to_string(), "string");
    assert_eq!(MetricValueTypeSpec::Int.to_string(), "int");
    assert_eq!(MetricValueTypeSpec::Double.to_string(), "double");
}
