use quakeml::decimal::Decimal;
use quakeml::errors::ResolutionError;
use quakeml::model::{
    CreationInfo, Event, EventParameters, Magnitude, Origin, QuakeML, RealQuantity, TimeQuantity,
};
use quakeml::summary::{summarize, CatalogSummary};

fn dec(text: &str) -> Decimal {
    quakeml::decimal::parse_decimal(text).unwrap()
}

fn origin(public_id: &str) -> Origin {
    Origin {
        public_id: public_id.to_string(),
        time: TimeQuantity {
            value: 0,
            uncertainty: None,
            lower_uncertainty: None,
            upper_uncertainty: None,
            confidence_level: None,
        },
        longitude: RealQuantity { value: dec("1.0") },
        latitude: RealQuantity { value: dec("2.0") },
        depth: RealQuantity { value: dec("3.0") },
        origin_uncertainty: None,
        quality: None,
        evaluation_mode: None,
        creation_info: None,
    }
}

fn magnitude(public_id: &str, value: &str) -> Magnitude {
    Magnitude {
        public_id: public_id.to_string(),
        mag: RealQuantity { value: dec(value) },
        creation_time: None,
        origin_id: None,
        method_id: None,
        magnitude_type: None,
    }
}

fn event(public_id: &str, magnitudes: Vec<Magnitude>) -> Event {
    Event {
        public_id: public_id.to_string(),
        origins: vec![origin("o1")],
        magnitudes,
        descriptions: Vec::new(),
        preferred_origin_id: None,
        preferred_magnitude_id: None,
    }
}

fn catalog(events: Vec<Event>) -> QuakeML {
    QuakeML {
        event_parameters: EventParameters {
            events,
            creation_info: CreationInfo {
                agency_id: None,
                agency_uri: None,
                creation_time: 1_624_247_791_219,
            },
        },
    }
}

#[test]
fn summary_of_single_event() {
    let c = catalog(vec![event("e1", vec![magnitude("m1", "4.2")])]);
    let s = summarize(&c).unwrap();
    assert_eq!(
        s,
        CatalogSummary {
            event_count: 1,
            min_magnitude: Some(dec("4.2")),
            max_magnitude: Some(dec("4.2")),
        },
    );
}

#[test]
fn summary_folds_min_and_max() {
    let c = catalog(vec![
        event("e1", vec![magnitude("m1", "4.2")]),
        event("e2", vec![magnitude("m2", "-0.3")]),
        event("e3", vec![]),
        event("e4", vec![magnitude("m4", "6.1")]),
    ]);
    let s = summarize(&c).unwrap();
    assert_eq!(s.event_count, 4);
    assert_eq!(s.min_magnitude, Some(dec("-0.3")));
    assert_eq!(s.max_magnitude, Some(dec("6.1")));
    assert_eq!(c.min_magnitude().unwrap(), Some(dec("-0.3")));
    assert_eq!(c.max_magnitude().unwrap(), Some(dec("6.1")));
}

#[test]
fn summary_without_magnitudes_is_empty_reduction() {
    // Events without magnitudes are counted, but min and max stay absent.
    let c = catalog(vec![event("e1", vec![]), event("e2", vec![])]);
    let s = summarize(&c).unwrap();
    assert_eq!(
        s,
        CatalogSummary { event_count: 2, min_magnitude: None, max_magnitude: None },
    );
}

#[test]
fn summary_with_equal_magnitudes_has_equal_bounds() {
    let c = catalog(vec![
        event("e1", vec![magnitude("m1", "4.2")]),
        event("e2", vec![magnitude("m2", "4.20")]),
    ]);
    let s = summarize(&c).unwrap();
    assert_eq!(s.min_magnitude, s.max_magnitude);
    assert_eq!(s.min_magnitude, Some(dec("4.2")));
}

#[test]
fn summary_fails_on_unresolvable_event() {
    // Two origins without a preferred-origin reference make the event's
    // preferred origin unresolvable; with two magnitudes and no
    // preferred-magnitude reference the whole summary fails the same way,
    // with an error rather than a panic.
    let mut e = event("e1", vec![magnitude("m1", "3.0"), magnitude("m2", "5.0")]);
    e.origins = vec![origin("o1"), origin("o2")];
    assert_eq!(
        e.preferred_origin().unwrap_err(),
        ResolutionError::NoPreferenceDeclared { entity: "Origin".to_string() },
    );
    let c = catalog(vec![event("e0", vec![magnitude("m0", "1.0")]), e]);
    assert_eq!(
        summarize(&c).unwrap_err(),
        ResolutionError::NoPreferenceDeclared { entity: "Magnitude".to_string() },
    );
}

#[test]
fn summary_fails_on_dangling_magnitude_reference() {
    let mut e = event("e1", vec![magnitude("m1", "3.0"), magnitude("m2", "5.0")]);
    e.preferred_magnitude_id = Some("m9".to_string());
    let c = catalog(vec![e]);
    assert_eq!(
        summarize(&c).unwrap_err(),
        ResolutionError::DanglingReference {
            entity: "Magnitude".to_string(),
            reference: "m9".to_string(),
        },
    );
}

#[test]
fn end_to_end_single_event_document() {
    // A whole document through decoding, resolution and aggregation.
    let pid = "quakeml:earthquake.usgs.gov/fdsnws/event/1/query?eventid=ci14517572&amp;format=quakeml";
    let text = format!(
        r#"<q:quakeml xmlns:q="http://quakeml.org/xmlns/quakeml/1.2">
  <eventParameters>
    <event publicID="{pid}">
      <origin publicID="{pid}">
        <time><value>2010-04-05T22:40:42.360Z</value></time>
        <longitude><value>-115.2895</value></longitude>
        <latitude><value>32.2862</value></latitude>
        <depth><value>9987.3</value></depth>
      </origin>
      <magnitude publicID="m1"><mag><value>4.2</value></mag></magnitude>
    </event>
    <creationInfo><creationTime>2021-06-21T03:56:31.219Z</creationTime></creationInfo>
  </eventParameters>
</q:quakeml>"#
    );
    let c = QuakeML::from_str(&text).unwrap();
    let e = &c.event_parameters.events[0];
    assert_eq!(
        e.preferred_origin().unwrap().public_id,
        "quakeml:earthquake.usgs.gov/fdsnws/event/1/query?eventid=ci14517572&format=quakeml",
    );
    let s = summarize(&c).unwrap();
    assert_eq!(s.event_count, 1);
    assert_eq!(s.min_magnitude, Some(dec("4.2")));
    assert_eq!(s.max_magnitude, Some(dec("4.2")));
}
