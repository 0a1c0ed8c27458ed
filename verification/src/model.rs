//! The typed schema model of an event catalog.
//!
//! Entities mirror the catalog schema: quantities with optional uncertainty,
//! origins (hypocenter estimates), magnitudes, events, and the catalog
//! envelope. All values are plain: numbers are [`Decimal`]s exactly as
//! written in the document, timestamps are milliseconds since the Unix
//! epoch, identifiers are strings. Everything is immutable after decoding.

use vstd::prelude::*;

use crate::decimal::{dec_wf, Decimal, DecimalView};

verus! {

/// Every magnitude value of every event is a decimal in normal form. The
/// decoder only ever constructs such values.
pub open spec fn mags_wf(events: Seq<EventView>) -> bool {
    forall|i: int, j: int|
        0 <= i < events.len() && 0 <= j < events[i].magnitudes.len() ==> dec_wf(
            #[trigger] events[i].magnitudes[j].mag.value,
        )
}

/// Model of an optional string field.
pub open spec fn opt_view(o: Option<String>) -> Option<Seq<char>> {
    match o {
        Some(s) => Some(s@),
        None => None,
    }
}

/// Model of an optional decimal field.
pub open spec fn opt_dec_view(o: Option<Decimal>) -> Option<DecimalView> {
    match o {
        Some(d) => Some(d@),
        None => None,
    }
}

/// One measured real value, kept exactly as written.
#[derive(Debug, Clone, PartialEq, Eq)]
pub struct RealQuantity {
    pub value: Decimal,
}

pub struct RealQuantityView {
    pub value: DecimalView,
}

impl View for RealQuantity {
    type V = RealQuantityView;

    open spec fn view(&self) -> RealQuantityView {
        RealQuantityView { value: self.value@ }
    }
}

/// One measured instant: milliseconds since the Unix epoch, with optional
/// uncertainty metadata.
#[derive(Debug, Clone, PartialEq, Eq)]
pub struct TimeQuantity {
    pub value: i64,
    pub uncertainty: Option<Decimal>,
    pub lower_uncertainty: Option<Decimal>,
    pub upper_uncertainty: Option<Decimal>,
    pub confidence_level: Option<Decimal>,
}

pub struct TimeQuantityView {
    pub value: i64,
    pub uncertainty: Option<DecimalView>,
    pub lower_uncertainty: Option<DecimalView>,
    pub upper_uncertainty: Option<DecimalView>,
    pub confidence_level: Option<DecimalView>,
}

impl View for TimeQuantity {
    type V = TimeQuantityView;

    open spec fn view(&self) -> TimeQuantityView {
        TimeQuantityView {
            value: self.value,
            uncertainty: opt_dec_view(self.uncertainty),
            lower_uncertainty: opt_dec_view(self.lower_uncertainty),
            upper_uncertainty: opt_dec_view(self.upper_uncertainty),
            confidence_level: opt_dec_view(self.confidence_level),
        }
    }
}

/// Provenance of an origin or of the catalog envelope.
#[derive(Debug, Clone, PartialEq, Eq)]
pub struct CreationInfo {
    pub agency_id: Option<String>,
    pub agency_uri: Option<String>,
    pub creation_time: i64,
}

pub struct CreationInfoView {
    pub agency_id: Option<Seq<char>>,
    pub agency_uri: Option<Seq<char>>,
    pub creation_time: i64,
}

impl View for CreationInfo {
    type V = CreationInfoView;

    open spec fn view(&self) -> CreationInfoView {
        CreationInfoView {
            agency_id: opt_view(self.agency_id),
            agency_uri: opt_view(self.agency_uri),
            creation_time: self.creation_time,
        }
    }
}

/// Diagnostic counts and spreads of an origin; not used in resolution.
#[derive(Debug, Clone, PartialEq, Eq)]
pub struct OriginQuality {
    pub used_station_count: Option<i32>,
    pub used_phase_count: Option<i32>,
    pub standard_error: Option<Decimal>,
    pub azimuthal_gap: Option<Decimal>,
}

pub struct OriginQualityView {
    pub used_station_count: Option<i32>,
    pub used_phase_count: Option<i32>,
    pub standard_error: Option<DecimalView>,
    pub azimuthal_gap: Option<DecimalView>,
}

impl View for OriginQuality {
    type V = OriginQualityView;

    open spec fn view(&self) -> OriginQualityView {
        OriginQualityView {
            used_station_count: self.used_station_count,
            used_phase_count: self.used_phase_count,
            standard_error: opt_dec_view(self.standard_error),
            azimuthal_gap: opt_dec_view(self.azimuthal_gap),
        }
    }
}

/// Location uncertainty of an origin.
#[derive(Debug, Clone, PartialEq, Eq)]
pub struct OriginUncertainty {
    pub horizontal_uncertainty: Decimal,
    pub preferred_description: Option<String>,
}

pub struct OriginUncertaintyView {
    pub horizontal_uncertainty: DecimalView,
    pub preferred_description: Option<Seq<char>>,
}

impl View for OriginUncertainty {
    type V = OriginUncertaintyView;

    open spec fn view(&self) -> OriginUncertaintyView {
        OriginUncertaintyView {
            horizontal_uncertainty: self.horizontal_uncertainty@,
            preferred_description: opt_view(self.preferred_description),
        }
    }
}

/// One hypocenter estimate of an event.
#[derive(Debug, Clone, PartialEq, Eq)]
pub struct Origin {
    pub public_id: String,
    pub time: TimeQuantity,
    pub longitude: RealQuantity,
    pub latitude: RealQuantity,
    pub depth: RealQuantity,
    pub origin_uncertainty: Option<OriginUncertainty>,
    pub quality: Option<OriginQuality>,
    pub evaluation_mode: Option<String>,
    pub creation_info: Option<CreationInfo>,
}

pub struct OriginView {
    pub public_id: Seq<char>,
    pub time: TimeQuantityView,
    pub longitude: RealQuantityView,
    pub latitude: RealQuantityView,
    pub depth: RealQuantityView,
    pub origin_uncertainty: Option<OriginUncertaintyView>,
    pub quality: Option<OriginQualityView>,
    pub evaluation_mode: Option<Seq<char>>,
    pub creation_info: Option<CreationInfoView>,
}

impl View for Origin {
    type V = OriginView;

    open spec fn view(&self) -> OriginView {
        OriginView {
            public_id: self.public_id@,
            time: self.time@,
            longitude: self.longitude@,
            latitude: self.latitude@,
            depth: self.depth@,
            origin_uncertainty: match self.origin_uncertainty {
                Some(u) => Some(u@),
                None => None,
            },
            quality: match self.quality {
                Some(q) => Some(q@),
                None => None,
            },
            evaluation_mode: opt_view(self.evaluation_mode),
            creation_info: match self.creation_info {
                Some(c) => Some(c@),
                None => None,
            },
        }
    }
}

/// One magnitude estimate of an event.
#[derive(Debug, Clone, PartialEq, Eq)]
pub struct Magnitude {
    pub public_id: String,
    pub mag: RealQuantity,
    pub creation_time: Option<i64>,
    pub origin_id: Option<String>,
    pub method_id: Option<String>,
    pub magnitude_type: Option<String>,
}

pub struct MagnitudeView {
    pub public_id: Seq<char>,
    pub mag: RealQuantityView,
    pub creation_time: Option<i64>,
    pub origin_id: Option<Seq<char>>,
    pub method_id: Option<Seq<char>>,
    pub magnitude_type: Option<Seq<char>>,
}

impl View for Magnitude {
    type V = MagnitudeView;

    open spec fn view(&self) -> MagnitudeView {
        MagnitudeView {
            public_id: self.public_id@,
            mag: self.mag@,
            creation_time: self.creation_time,
            origin_id: opt_view(self.origin_id),
            method_id: opt_view(self.method_id),
            magnitude_type: opt_view(self.magnitude_type),
        }
    }
}

/// A free-form annotation of an event.
#[derive(Debug, Clone, PartialEq, Eq)]
pub struct EventDescription {
    pub text: String,
    pub description_type: Option<String>,
}

pub struct EventDescriptionView {
    pub text: Seq<char>,
    pub description_type: Option<Seq<char>>,
}

impl View for EventDescription {
    type V = EventDescriptionView;

    open spec fn view(&self) -> EventDescriptionView {
        EventDescriptionView {
            text: self.text@,
            description_type: opt_view(self.description_type),
        }
    }
}

/// One seismic event with its candidate origins and magnitudes, in
/// document order, and its optional preferred references.
#[derive(Debug, Clone, PartialEq, Eq)]
pub struct Event {
    pub public_id: String,
    pub origins: Vec<Origin>,
    pub magnitudes: Vec<Magnitude>,
    pub descriptions: Vec<EventDescription>,
    pub preferred_origin_id: Option<String>,
    pub preferred_magnitude_id: Option<String>,
}

pub struct EventView {
    pub public_id: Seq<char>,
    pub origins: Seq<OriginView>,
    pub magnitudes: Seq<MagnitudeView>,
    pub descriptions: Seq<EventDescriptionView>,
    pub preferred_origin_id: Option<Seq<char>>,
    pub preferred_magnitude_id: Option<Seq<char>>,
}

impl View for Event {
    type V = EventView;

    open spec fn view(&self) -> EventView {
        EventView {
            public_id: self.public_id@,
            origins: Seq::new(self.origins@.len(), |i: int| self.origins@[i]@),
            magnitudes: Seq::new(self.magnitudes@.len(), |i: int| self.magnitudes@[i]@),
            descriptions: Seq::new(self.descriptions@.len(), |i: int| self.descriptions@[i]@),
            preferred_origin_id: opt_view(self.preferred_origin_id),
            preferred_magnitude_id: opt_view(self.preferred_magnitude_id),
        }
    }
}

/// The catalog envelope: the events and the catalog's provenance.
#[derive(Debug, Clone, PartialEq, Eq)]
pub struct EventParameters {
    pub events: Vec<Event>,
    pub creation_info: CreationInfo,
}

pub struct EventParametersView {
    pub events: Seq<EventView>,
    pub creation_info: CreationInfoView,
}

impl View for EventParameters {
    type V = EventParametersView;

    open spec fn view(&self) -> EventParametersView {
        EventParametersView {
            events: Seq::new(self.events@.len(), |i: int| self.events@[i]@),
            creation_info: self.creation_info@,
        }
    }
}

/// A decoded catalog document.
#[derive(Debug, Clone, PartialEq, Eq)]
pub struct QuakeML {
    pub event_parameters: EventParameters,
}

pub struct QuakeMLView {
    pub event_parameters: EventParametersView,
}

impl View for QuakeML {
    type V = QuakeMLView;

    open spec fn view(&self) -> QuakeMLView {
        QuakeMLView { event_parameters: self.event_parameters@ }
    }
}

} // verus!
