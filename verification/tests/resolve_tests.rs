use quakeml::decimal::Decimal;
use quakeml::errors::ResolutionError;
use quakeml::model::{Event, Magnitude, Origin, RealQuantity, TimeQuantity};

fn dec(text: &str) -> Decimal {
    quakeml::decimal::parse_decimal(text).unwrap()
}

fn origin(public_id: &str) -> Origin {
    Origin {
        public_id: public_id.to_string(),
        time: TimeQuantity {
            value: 1_270_507_242_360,
            uncertainty: None,
            lower_uncertainty: None,
            upper_uncertainty: None,
            confidence_level: None,
        },
        longitude: RealQuantity { value: dec("-115.2895") },
        latitude: RealQuantity { value: dec("32.2862") },
        depth: RealQuantity { value: dec("9987.3") },
        origin_uncertainty: None,
        quality: None,
        evaluation_mode: None,
        creation_info: None,
    }
}

fn magnitude(public_id: &str, value: &str) -> Magnitude {
    Magnitude {
        public_id: public_id.to_string(),
        mag: RealQuantity { value: dec(value) },
        creation_time: None,
        origin_id: None,
        method_id: None,
        magnitude_type: None,
    }
}

fn event(
    origins: Vec<Origin>,
    magnitudes: Vec<Magnitude>,
    preferred_origin_id: Option<&str>,
    preferred_magnitude_id: Option<&str>,
) -> Event {
    Event {
        public_id: "e1".to_string(),
        origins,
        magnitudes,
        descriptions: Vec::new(),
        preferred_origin_id: preferred_origin_id.map(|s| s.to_string()),
        preferred_magnitude_id: preferred_magnitude_id.map(|s| s.to_string()),
    }
}

#[test]
fn single_origin_is_preferred_without_reference() {
    let e = event(vec![origin("o1")], vec![], None, None);
    assert_eq!(e.preferred_origin().unwrap().public_id, "o1");
}

#[test]
fn single_origin_is_preferred_despite_dangling_reference() {
    // One origin wins even when the declared reference matches nothing.
    let e = event(vec![origin("o1")], vec![], Some("nowhere"), None);
    assert_eq!(e.preferred_origin().unwrap().public_id, "o1");
}

#[test]
fn matching_reference_picks_among_origins() {
    let e = event(vec![origin("o1"), origin("o2"), origin("o3")], vec![], Some("o2"), None);
    assert_eq!(e.preferred_origin().unwrap().public_id, "o2");
}

#[test]
fn no_reference_among_several_origins_fails() {
    let e = event(vec![origin("o1"), origin("o2")], vec![], None, None);
    assert_eq!(
        e.preferred_origin().unwrap_err(),
        ResolutionError::NoPreferenceDeclared { entity: "Origin".to_string() },
    );
}

#[test]
fn dangling_reference_among_several_origins_fails() {
    let e = event(vec![origin("o1"), origin("o2")], vec![], Some("o9"), None);
    assert_eq!(
        e.preferred_origin().unwrap_err(),
        ResolutionError::DanglingReference {
            entity: "Origin".to_string(),
            reference: "o9".to_string(),
        },
    );
}

#[test]
fn no_magnitudes_resolve_to_none() {
    let e = event(vec![origin("o1")], vec![], None, None);
    assert_eq!(e.preferred_magnitude().unwrap(), None);
}

#[test]
fn single_magnitude_is_preferred_without_reference() {
    let e = event(vec![origin("o1")], vec![magnitude("m1", "4.2")], None, None);
    assert_eq!(e.preferred_magnitude().unwrap(), Some(dec("4.2")));
}

#[test]
fn preferred_magnitude_follows_reference() {
    // Two magnitudes, 3.0 and 5.0; the declared preference picks 5.0.
    let e = event(
        vec![origin("o1")],
        vec![magnitude("m1", "3.0"), magnitude("m2", "5.0")],
        None,
        Some("m2"),
    );
    assert_eq!(e.preferred_magnitude().unwrap(), Some(dec("5.0")));
}

#[test]
fn magnitudes_without_reference_fail() {
    let e = event(
        vec![origin("o1")],
        vec![magnitude("m1", "3.0"), magnitude("m2", "5.0")],
        None,
        None,
    );
    assert_eq!(
        e.preferred_magnitude().unwrap_err(),
        ResolutionError::NoPreferenceDeclared { entity: "Magnitude".to_string() },
    );
}

#[test]
fn magnitude_dangling_reference_fails() {
    let e = event(
        vec![origin("o1")],
        vec![magnitude("m1", "3.0"), magnitude("m2", "5.0")],
        None,
        Some("m9"),
    );
    assert_eq!(
        e.preferred_magnitude().unwrap_err(),
        ResolutionError::DanglingReference {
            entity: "Magnitude".to_string(),
            reference: "m9".to_string(),
        },
    );
}

#[test]
fn first_match_wins_on_duplicate_ids() {
    // Public ids should be unique; when they are not, the first match in
    // document order is returned.
    let mut o2a = origin("o2");
    o2a.evaluation_mode = Some("manual".to_string());
    let mut o2b = origin("o2");
    o2b.evaluation_mode = Some("automatic".to_string());
    let e = event(vec![origin("o1"), o2a, o2b], vec![], Some("o2"), None);
    assert_eq!(e.preferred_origin().unwrap().evaluation_mode.as_deref(), Some("manual"));
}
