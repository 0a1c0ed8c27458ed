use quakeml::decimal::Decimal;
use quakeml::errors::DecodeError;
use quakeml::model::QuakeML;

const USGS_EVENT_ID: &str =
    "quakeml:earthquake.usgs.gov/fdsnws/event/1/query?eventid=ci14517572&format=quakeml";

fn single_event_doc() -> String {
    let pid = "quakeml:earthquake.usgs.gov/fdsnws/event/1/query?eventid=ci14517572&amp;format=quakeml";
    format!(
        r#"<?xml version="1.0" encoding="UTF-8"?>
<q:quakeml xmlns:q="http://quakeml.org/xmlns/quakeml/1.2" xmlns="http://quakeml.org/xmlns/bed/1.2">
  <eventParameters publicID="quakeml:earthquake.usgs.gov/fdsnws/event/1/query">
    <event publicID="{pid}">
      <origin publicID="{pid}">
        <time><value>2010-04-05T22:40:42.360Z</value></time>
        <longitude><value>-115.2895</value></longitude>
        <latitude><value>32.2862</value></latitude>
        <depth><value>9987.3</value></depth>
      </origin>
      <magnitude publicID="quakeml:earthquake.usgs.gov/product/origin/ci14517572/magnitude">
        <mag><value>4.2</value></mag>
        <type>Ml</type>
      </magnitude>
      <preferredOriginID>{pid}</preferredOriginID>
    </event>
    <creationInfo>
      <agencyID>us</agencyID>
      <creationTime>2021-06-21T03:56:31.219Z</creationTime>
    </creationInfo>
  </eventParameters>
</q:quakeml>"#
    )
}

#[test]
fn deserialize() {
    let catalog = QuakeML::from_str(&single_event_doc()).unwrap();
    assert_eq!(catalog.event_parameters.events[0].public_id, USGS_EVENT_ID);
}

#[test]
fn decode_fields_of_single_event() {
    let catalog = QuakeML::from_str(&single_event_doc()).unwrap();
    let ep = &catalog.event_parameters;
    assert_eq!(ep.events.len(), 1);
    assert_eq!(ep.creation_info.agency_id.as_deref(), Some("us"));
    assert_eq!(ep.creation_info.agency_uri, None);
    // 2021-06-21T03:56:31.219Z as milliseconds since the Unix epoch.
    assert_eq!(ep.creation_info.creation_time, 1_624_247_791_219);
    let event = &ep.events[0];
    assert_eq!(event.origins.len(), 1);
    assert_eq!(event.magnitudes.len(), 1);
    assert_eq!(event.descriptions.len(), 0);
    assert_eq!(event.preferred_origin_id.as_deref(), Some(USGS_EVENT_ID));
    assert_eq!(event.preferred_magnitude_id, None);
    let origin = &event.origins[0];
    assert_eq!(origin.public_id, USGS_EVENT_ID);
    // 2010-04-05T22:40:42.360Z as milliseconds since the Unix epoch.
    assert_eq!(origin.time.value, 1_270_507_242_360);
    assert_eq!(
        origin.longitude.value,
        Decimal { negative: true, int_part: 115, frac: vec![2, 8, 9, 5] },
    );
    assert_eq!(
        origin.latitude.value,
        Decimal { negative: false, int_part: 32, frac: vec![2, 8, 6, 2] },
    );
    assert_eq!(origin.depth.value, Decimal { negative: false, int_part: 9987, frac: vec![3] });
    assert_eq!(origin.quality, None);
    assert_eq!(origin.origin_uncertainty, None);
    let magnitude = &event.magnitudes[0];
    assert_eq!(magnitude.mag.value, Decimal { negative: false, int_part: 4, frac: vec![2] });
    assert_eq!(magnitude.magnitude_type.as_deref(), Some("Ml"));
    assert_eq!(magnitude.origin_id, None);
}

#[test]
fn decode_is_idempotent() {
    let text = single_event_doc();
    let first = QuakeML::from_str(&text).unwrap();
    let second = QuakeML::from_str(&text).unwrap();
    assert_eq!(first, second);
}

#[test]
fn decode_rejects_missing_time() {
    let text = r#"<?xml version="1.0"?>
<quakeml>
  <eventParameters>
    <event publicID="e1">
      <origin publicID="o1">
        <longitude><value>1.0</value></longitude>
        <latitude><value>2.0</value></latitude>
        <depth><value>3.0</value></depth>
      </origin>
    </event>
    <creationInfo><creationTime>2021-06-21T03:56:31Z</creationTime></creationInfo>
  </eventParameters>
</quakeml>"#
        .to_string();
    assert_eq!(
        QuakeML::from_str(&text),
        Err(DecodeError::MissingField { entity: "Origin".to_string(), field: "time".to_string() }),
    );
}

#[test]
fn decode_rejects_event_without_origin() {
    let text = r#"<quakeml>
  <eventParameters>
    <event publicID="e1"></event>
    <creationInfo><creationTime>2021-06-21T03:56:31Z</creationTime></creationInfo>
  </eventParameters>
</quakeml>"#
        .to_string();
    assert_eq!(
        QuakeML::from_str(&text),
        Err(DecodeError::MissingField { entity: "Event".to_string(), field: "origin".to_string() }),
    );
}

#[test]
fn decode_rejects_malformed_xml() {
    assert_eq!(QuakeML::from_str(&"<quakeml><event".to_string()), Err(DecodeError::MalformedXml));
    assert_eq!(QuakeML::from_str(&"".to_string()), Err(DecodeError::MalformedXml));
}

#[test]
fn decode_rejects_bad_number() {
    let text = r#"<quakeml>
  <eventParameters>
    <event publicID="e1">
      <origin publicID="o1">
        <time><value>2010-04-05T22:40:42Z</value></time>
        <longitude><value>east</value></longitude>
        <latitude><value>2.0</value></latitude>
        <depth><value>3.0</value></depth>
      </origin>
    </event>
    <creationInfo><creationTime>2021-06-21T03:56:31Z</creationTime></creationInfo>
  </eventParameters>
</quakeml>"#
        .to_string();
    assert_eq!(
        QuakeML::from_str(&text),
        Err(
            DecodeError::InvalidNumber {
                entity: "Origin".to_string(),
                field: "longitude".to_string(),
            },
        ),
    );
}

#[test]
fn decode_rejects_non_finite_number() {
    let text = r#"<quakeml>
  <eventParameters>
    <event publicID="e1">
      <origin publicID="o1">
        <time><value>2010-04-05T22:40:42Z</value></time>
        <longitude><value>1.0</value></longitude>
        <latitude><value>2.0</value></latitude>
        <depth><value>NaN</value></depth>
      </origin>
    </event>
    <creationInfo><creationTime>2021-06-21T03:56:31Z</creationTime></creationInfo>
  </eventParameters>
</quakeml>"#
        .to_string();
    assert_eq!(
        QuakeML::from_str(&text),
        Err(DecodeError::InvalidNumber { entity: "Origin".to_string(), field: "depth".to_string() }),
    );
}

#[test]
fn decode_rejects_bad_timestamp() {
    let text = r#"<quakeml>
  <eventParameters>
    <event publicID="e1">
      <origin publicID="o1">
        <time><value>yesterday</value></time>
        <longitude><value>1.0</value></longitude>
        <latitude><value>2.0</value></latitude>
        <depth><value>3.0</value></depth>
      </origin>
    </event>
    <creationInfo><creationTime>2021-06-21T03:56:31Z</creationTime></creationInfo>
  </eventParameters>
</quakeml>"#
        .to_string();
    assert_eq!(
        QuakeML::from_str(&text),
        Err(
            DecodeError::InvalidTimestamp { entity: "Origin".to_string(), field: "time".to_string() },
        ),
    );
}

#[test]
fn decode_rejects_repeated_singleton() {
    let text = r#"<quakeml>
  <eventParameters>
    <event publicID="e1">
      <origin publicID="o1">
        <time><value>2010-04-05T22:40:42Z</value></time>
        <time><value>2010-04-05T22:40:43Z</value></time>
        <longitude><value>1.0</value></longitude>
        <latitude><value>2.0</value></latitude>
        <depth><value>3.0</value></depth>
      </origin>
    </event>
    <creationInfo><creationTime>2021-06-21T03:56:31Z</creationTime></creationInfo>
  </eventParameters>
</quakeml>"#
        .to_string();
    assert_eq!(
        QuakeML::from_str(&text),
        Err(
            DecodeError::InvalidValue {
                entity: "Origin".to_string(),
                field: "time".to_string(),
                reason: "repeated element".to_string(),
            },
        ),
    );
}

#[test]
fn decode_rejects_empty_catalog() {
    let text = r#"<quakeml>
  <eventParameters>
    <creationInfo><creationTime>2021-06-21T03:56:31Z</creationTime></creationInfo>
  </eventParameters>
</quakeml>"#
        .to_string();
    assert_eq!(
        QuakeML::from_str(&text),
        Err(
            DecodeError::MissingField {
                entity: "EventParameters".to_string(),
                field: "event".to_string(),
            },
        ),
    );
}

#[test]
fn decode_rejects_missing_event_parameters() {
    let text = "<quakeml></quakeml>".to_string();
    assert_eq!(
        QuakeML::from_str(&text),
        Err(
            DecodeError::MissingField {
                entity: "QuakeML".to_string(),
                field: "eventParameters".to_string(),
            },
        ),
    );
}

#[test]
fn decode_rejects_missing_creation_info() {
    let text = r#"<quakeml>
  <eventParameters>
    <event publicID="e1">
      <origin publicID="o1">
        <time><value>2010-04-05T22:40:42Z</value></time>
        <longitude><value>1.0</value></longitude>
        <latitude><value>2.0</value></latitude>
        <depth><value>3.0</value></depth>
      </origin>
    </event>
  </eventParameters>
</quakeml>"#
        .to_string();
    assert_eq!(
        QuakeML::from_str(&text),
        Err(
            DecodeError::MissingField {
                entity: "EventParameters".to_string(),
                field: "creationInfo".to_string(),
            },
        ),
    );
}

#[test]
fn decode_defaults_and_optionals() {
    // Optional fields stay absent; magnitudes and descriptions default to
    // empty; uncertainty metadata and quality are read when present.
    let text = r#"<quakeml>
  <eventParameters>
    <event publicID="e1">
      <origin publicID="o1">
        <time>
          <value>2010-04-05T22:40:42Z</value>
          <uncertainty>0.12</uncertainty>
        </time>
        <longitude><value>1.0</value></longitude>
        <latitude><value>2.0</value></latitude>
        <depth><value>3.0</value></depth>
        <originUncertainty>
          <horizontalUncertainty>410.8</horizontalUncertainty>
          <preferredDescription>horizontal uncertainty</preferredDescription>
        </originUncertainty>
        <quality>
          <usedStationCount>29</usedStationCount>
          <azimuthalGap>129.0</azimuthalGap>
        </quality>
        <evaluationMode>manual</evaluationMode>
      </origin>
      <description>Baja California, Mexico</description>
    </event>
    <creationInfo><creationTime>2021-06-21T03:56:31Z</creationTime></creationInfo>
  </eventParameters>
</quakeml>"#
        .to_string();
    let catalog = QuakeML::from_str(&text).unwrap();
    let event = &catalog.event_parameters.events[0];
    let origin = &event.origins[0];
    assert_eq!(
        origin.time.uncertainty,
        Some(Decimal { negative: false, int_part: 0, frac: vec![1, 2] }),
    );
    assert_eq!(origin.time.lower_uncertainty, None);
    let ou = origin.origin_uncertainty.as_ref().unwrap();
    assert_eq!(
        ou.horizontal_uncertainty,
        Decimal { negative: false, int_part: 410, frac: vec![8] },
    );
    assert_eq!(ou.preferred_description.as_deref(), Some("horizontal uncertainty"));
    let quality = origin.quality.as_ref().unwrap();
    assert_eq!(quality.used_station_count, Some(29));
    assert_eq!(quality.used_phase_count, None);
    assert_eq!(quality.standard_error, None);
    assert_eq!(
        quality.azimuthal_gap,
        Some(Decimal { negative: false, int_part: 129, frac: vec![] }),
    );
    assert_eq!(origin.evaluation_mode.as_deref(), Some("manual"));
    assert_eq!(origin.creation_info, None);
    assert_eq!(event.magnitudes.len(), 0);
    assert_eq!(event.descriptions.len(), 1);
    assert_eq!(event.descriptions[0].text, "Baja California, Mexico");
    assert_eq!(event.descriptions[0].description_type, None);
}
