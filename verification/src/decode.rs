//! Decoding an XML element tree into the typed catalog model.
//!
//! An explicit, schema-aware pass: for each entity the decoder checks which
//! fields are present, with what cardinality, and of what shape, before it
//! constructs the value. Required fields absent fail with `MissingField`; a
//! field of the wrong shape fails with `InvalidValue`, `InvalidNumber` or
//! `InvalidTimestamp`; absent optional fields stay absent; absent repeatable
//! collections other than an event's origins decode to an empty sequence.
//! Document order of repeated elements is preserved, and the first failure
//! in document order is the one reported.

use vstd::prelude::*;
use vstd::string::StringExecFns;

use crate::decimal::{parse_decimal, spec_parse_decimal, DecimalView};
use crate::decimal::{parse_i32, spec_parse_i32};
use crate::errors::{DecodeError, DecodeErrorView};
use crate::model::{
    CreationInfo, CreationInfoView, Event, EventDescription, EventDescriptionView, EventParameters,
    EventParametersView, EventView, Magnitude, MagnitudeView, Origin, OriginQuality,
    OriginQualityView, OriginUncertainty, OriginUncertaintyView, OriginView, QuakeML, QuakeMLView,
    RealQuantity, RealQuantityView, TimeQuantity, TimeQuantityView,
};
use crate::resolve::res_view;
use crate::time::{parse_timestamp, timestamp_millis_of};
use crate::xml::{spec_attr, spec_children_named, XmlElem, XmlElemView};

verus! {

/// The children of `e` named `name`, in document order.
pub open spec fn kids(e: XmlElemView, name: Seq<char>) -> Seq<XmlElemView> {
    spec_children_named(e.children, name)
}

/// An optional simple-text field: the text of the child named `fname`,
/// absent when there is no such child, an error when it repeats.
pub open spec fn spec_opt_text_child(e: XmlElemView, ent: Seq<char>, fname: Seq<char>) -> Result<
    Option<Seq<char>>,
    DecodeErrorView,
> {
    let cs = kids(e, fname);
    if cs.len() == 0 {
        Ok(None)
    } else if cs.len() > 1 {
        Err(DecodeErrorView::InvalidValue { entity: ent, field: fname, reason: "repeated element"@ })
    } else {
        Ok(Some(cs[0].text))
    }
}

/// An optional decimal field: the text of the child named `fname` read as a
/// decimal, absent when there is no such child.
pub open spec fn spec_opt_decimal_child(e: XmlElemView, ent: Seq<char>, fname: Seq<char>) -> Result<
    Option<DecimalView>,
    DecodeErrorView,
> {
    let cs = kids(e, fname);
    if cs.len() == 0 {
        Ok(None)
    } else if cs.len() > 1 {
        Err(DecodeErrorView::InvalidValue { entity: ent, field: fname, reason: "repeated element"@ })
    } else {
        match spec_parse_decimal(cs[0].text) {
            Some(d) => Ok(Some(d)),
            None => Err(DecodeErrorView::InvalidNumber { entity: ent, field: fname }),
        }
    }
}

/// An optional integer field: the text of the child named `fname` read as an
/// `i32`, absent when there is no such child.
pub open spec fn spec_opt_i32_child(e: XmlElemView, ent: Seq<char>, fname: Seq<char>) -> Result<
    Option<i32>,
    DecodeErrorView,
> {
    let cs = kids(e, fname);
    if cs.len() == 0 {
        Ok(None)
    } else if cs.len() > 1 {
        Err(DecodeErrorView::InvalidValue { entity: ent, field: fname, reason: "repeated element"@ })
    } else {
        match spec_parse_i32(cs[0].text) {
            Some(v) => Ok(Some(v)),
            None => Err(DecodeErrorView::InvalidNumber { entity: ent, field: fname }),
        }
    }
}

/// An optional timestamp field: the text of the child named `fname` read as
/// an RFC 3339 instant, absent when there is no such child.
pub open spec fn spec_opt_timestamp_child(e: XmlElemView, ent: Seq<char>, fname: Seq<char>) -> Result<
    Option<i64>,
    DecodeErrorView,
> {
    let cs = kids(e, fname);
    if cs.len() == 0 {
        Ok(None)
    } else if cs.len() > 1 {
        Err(DecodeErrorView::InvalidValue { entity: ent, field: fname, reason: "repeated element"@ })
    } else {
        match timestamp_millis_of(cs[0].text) {
            Some(v) => Ok(Some(v)),
            None => Err(DecodeErrorView::InvalidTimestamp { entity: ent, field: fname }),
        }
    }
}

/// A real-valued quantity: one `value` child whose text is a decimal.
/// Errors blame the owning entity and field.
pub open spec fn spec_decode_real_quantity(q: XmlElemView, ent: Seq<char>, fld: Seq<char>) -> Result<
    RealQuantityView,
    DecodeErrorView,
> {
    let vs = kids(q, "value"@);
    if vs.len() == 0 {
        Err(
            DecodeErrorView::InvalidValue {
                entity: ent,
                field: fld,
                reason: "missing value element"@,
            },
        )
    } else if vs.len() > 1 {
        Err(
            DecodeErrorView::InvalidValue {
                entity: ent,
                field: fld,
                reason: "repeated value element"@,
            },
        )
    } else {
        match spec_parse_decimal(vs[0].text) {
            Some(d) => Ok(RealQuantityView { value: d }),
            None => Err(DecodeErrorView::InvalidNumber { entity: ent, field: fld }),
        }
    }
}

/// A time-valued quantity: one `value` child whose text is an RFC 3339
/// instant, and optional uncertainty fields. The value errors blame the
/// owning entity and field; the uncertainty fields blame `TimeQuantity`.
pub open spec fn spec_decode_time_quantity(q: XmlElemView, ent: Seq<char>, fld: Seq<char>) -> Result<
    TimeQuantityView,
    DecodeErrorView,
> {
    let vs = kids(q, "value"@);
    if vs.len() == 0 {
        Err(
            DecodeErrorView::InvalidValue {
                entity: ent,
                field: fld,
                reason: "missing value element"@,
            },
        )
    } else if vs.len() > 1 {
        Err(
            DecodeErrorView::InvalidValue {
                entity: ent,
                field: fld,
                reason: "repeated value element"@,
            },
        )
    } else {
        match timestamp_millis_of(vs[0].text) {
            None => Err(DecodeErrorView::InvalidTimestamp { entity: ent, field: fld }),
            Some(value) => match spec_opt_decimal_child(q, "TimeQuantity"@, "uncertainty"@) {
                Err(e) => Err(e),
                Ok(uncertainty) => match spec_opt_decimal_child(
                    q,
                    "TimeQuantity"@,
                    "lowerUncertainty"@,
                ) {
                    Err(e) => Err(e),
                    Ok(lower_uncertainty) => match spec_opt_decimal_child(
                        q,
                        "TimeQuantity"@,
                        "upperUncertainty"@,
                    ) {
                        Err(e) => Err(e),
                        Ok(upper_uncertainty) => match spec_opt_decimal_child(
                            q,
                            "TimeQuantity"@,
                            "confidenceLevel"@,
                        ) {
                            Err(e) => Err(e),
                            Ok(confidence_level) => Ok(
                                TimeQuantityView {
                                    value,
                                    uncertainty,
                                    lower_uncertainty,
                                    upper_uncertainty,
                                    confidence_level,
                                },
                            ),
                        },
                    },
                },
            },
        }
    }
}

/// Provenance: optional `agencyID` and `agencyURI` texts, one required
/// `creationTime` instant.
pub open spec fn spec_decode_creation_info(e: XmlElemView) -> Result<
    CreationInfoView,
    DecodeErrorView,
> {
    match spec_opt_text_child(e, "CreationInfo"@, "agencyID"@) {
        Err(err) => Err(err),
        Ok(agency_id) => match spec_opt_text_child(e, "CreationInfo"@, "agencyURI"@) {
            Err(err) => Err(err),
            Ok(agency_uri) => {
                let cs = kids(e, "creationTime"@);
                if cs.len() == 0 {
                    Err(
                        DecodeErrorView::MissingField {
                            entity: "CreationInfo"@,
                            field: "creationTime"@,
                        },
                    )
                } else if cs.len() > 1 {
                    Err(
                        DecodeErrorView::InvalidValue {
                            entity: "CreationInfo"@,
                            field: "creationTime"@,
                            reason: "repeated element"@,
                        },
                    )
                } else {
                    match timestamp_millis_of(cs[0].text) {
                        None => Err(
                            DecodeErrorView::InvalidTimestamp {
                                entity: "CreationInfo"@,
                                field: "creationTime"@,
                            },
                        ),
                        Some(creation_time) => Ok(
                            CreationInfoView { agency_id, agency_uri, creation_time },
                        ),
                    }
                }
            },
        },
    }
}

/// Diagnostic quality: four optional fields.
pub open spec fn spec_decode_origin_quality(e: XmlElemView) -> Result<
    OriginQualityView,
    DecodeErrorView,
> {
    match spec_opt_i32_child(e, "OriginQuality"@, "usedStationCount"@) {
        Err(err) => Err(err),
        Ok(used_station_count) => match spec_opt_i32_child(e, "OriginQuality"@, "usedPhaseCount"@) {
            Err(err) => Err(err),
            Ok(used_phase_count) => match spec_opt_decimal_child(
                e,
                "OriginQuality"@,
                "standardError"@,
            ) {
                Err(err) => Err(err),
                Ok(standard_error) => match spec_opt_decimal_child(
                    e,
                    "OriginQuality"@,
                    "azimuthalGap"@,
                ) {
                    Err(err) => Err(err),
                    Ok(azimuthal_gap) => Ok(
                        OriginQualityView {
                            used_station_count,
                            used_phase_count,
                            standard_error,
                            azimuthal_gap,
                        },
                    ),
                },
            },
        },
    }
}

/// Location uncertainty: one required `horizontalUncertainty` number and an
/// optional `preferredDescription` text.
pub open spec fn spec_decode_origin_uncertainty(e: XmlElemView) -> Result<
    OriginUncertaintyView,
    DecodeErrorView,
> {
    let cs = kids(e, "horizontalUncertainty"@);
    if cs.len() == 0 {
        Err(
            DecodeErrorView::MissingField {
                entity: "OriginUncertainty"@,
                field: "horizontalUncertainty"@,
            },
        )
    } else if cs.len() > 1 {
        Err(
            DecodeErrorView::InvalidValue {
                entity: "OriginUncertainty"@,
                field: "horizontalUncertainty"@,
                reason: "repeated element"@,
            },
        )
    } else {
        match spec_parse_decimal(cs[0].text) {
            None => Err(
                DecodeErrorView::InvalidNumber {
                    entity: "OriginUncertainty"@,
                    field: "horizontalUncertainty"@,
                },
            ),
            Some(horizontal_uncertainty) => match spec_opt_text_child(
                e,
                "OriginUncertainty"@,
                "preferredDescription"@,
            ) {
                Err(err) => Err(err),
                Ok(preferred_description) => Ok(
                    OriginUncertaintyView { horizontal_uncertainty, preferred_description },
                ),
            },
        }
    }
}

/// A required child entity that must occur exactly once: `Ok(None)` stands
/// for "absent", which the caller turns into its own `MissingField`.
pub open spec fn spec_unique_child(e: XmlElemView, ent: Seq<char>, fname: Seq<char>) -> Result<
    Option<XmlElemView>,
    DecodeErrorView,
> {
    let cs = kids(e, fname);
    if cs.len() == 0 {
        Ok(None)
    } else if cs.len() > 1 {
        Err(DecodeErrorView::InvalidValue { entity: ent, field: fname, reason: "repeated element"@ })
    } else {
        Ok(Some(cs[0]))
    }
}

/// One hypocenter estimate: required `publicID` attribute and `time`,
/// `longitude`, `latitude`, `depth` quantities; optional uncertainty,
/// quality, evaluation mode and provenance.
pub open spec fn spec_decode_origin(e: XmlElemView) -> Result<OriginView, DecodeErrorView> {
    match spec_attr(e.attrs, "publicID"@) {
        None => Err(DecodeErrorView::MissingField { entity: "Origin"@, field: "publicID"@ }),
        Some(public_id) => match spec_unique_child(e, "Origin"@, "time"@) {
            Err(err) => Err(err),
            Ok(None) => Err(DecodeErrorView::MissingField { entity: "Origin"@, field: "time"@ }),
            Ok(Some(tc)) => match spec_decode_time_quantity(tc, "Origin"@, "time"@) {
                Err(err) => Err(err),
                Ok(time) => match spec_req_real_quantity(e, "Origin"@, "longitude"@) {
                    Err(err) => Err(err),
                    Ok(longitude) => match spec_req_real_quantity(e, "Origin"@, "latitude"@) {
                        Err(err) => Err(err),
                        Ok(latitude) => match spec_req_real_quantity(e, "Origin"@, "depth"@) {
                            Err(err) => Err(err),
                            Ok(depth) => match spec_unique_child(
                                e,
                                "Origin"@,
                                "originUncertainty"@,
                            ) {
                                Err(err) => Err(err),
                                Ok(ouc) => match (match ouc {
                                    None => Ok(None),
                                    Some(c) => match spec_decode_origin_uncertainty(c) {
                                        Ok(u) => Ok(Some(u)),
                                        Err(err) => Err(err),
                                    },
                                }) {
                                    Err(err) => Err(err),
                                    Ok(origin_uncertainty) => match spec_unique_child(
                                        e,
                                        "Origin"@,
                                        "quality"@,
                                    ) {
                                        Err(err) => Err(err),
                                        Ok(qc) => match (match qc {
                                            None => Ok(None),
                                            Some(c) => match spec_decode_origin_quality(c) {
                                                Ok(q) => Ok(Some(q)),
                                                Err(err) => Err(err),
                                            },
                                        }) {
                                            Err(err) => Err(err),
                                            Ok(quality) => match spec_opt_text_child(
                                                e,
                                                "Origin"@,
                                                "evaluationMode"@,
                                            ) {
                                                Err(err) => Err(err),
                                                Ok(evaluation_mode) => match spec_unique_child(
                                                    e,
                                                    "Origin"@,
                                                    "creationInfo"@,
                                                ) {
                                                    Err(err) => Err(err),
                                                    Ok(cc) => match (match cc {
                                                        None => Ok(None),
                                                        Some(c) => match spec_decode_creation_info(
                                                            c,
                                                        ) {
                                                            Ok(ci) => Ok(Some(ci)),
                                                            Err(err) => Err(err),
                                                        },
                                                    }) {
                                                        Err(err) => Err(err),
                                                        Ok(creation_info) => Ok(
                                                            OriginView {
                                                                public_id,
                                                                time,
                                                                longitude,
                                                                latitude,
                                                                depth,
                                                                origin_uncertainty,
                                                                quality,
                                                                evaluation_mode,
                                                                creation_info,
                                                            },
                                                        ),
                                                    },
                                                },
                                            },
                                        },
                                    },
                                },
                            },
                        },
                    },
                },
            },
        },
    }
}

/// A required real quantity stored in the child named `fname`.
pub open spec fn spec_req_real_quantity(e: XmlElemView, ent: Seq<char>, fname: Seq<char>) -> Result<
    RealQuantityView,
    DecodeErrorView,
> {
    match spec_unique_child(e, ent, fname) {
        Err(err) => Err(err),
        Ok(None) => Err(DecodeErrorView::MissingField { entity: ent, field: fname }),
        Ok(Some(c)) => spec_decode_real_quantity(c, ent, fname),
    }
}

/// One magnitude estimate: required `publicID` attribute and `mag`
/// quantity; optional creation time, origin and method references, type.
pub open spec fn spec_decode_magnitude(e: XmlElemView) -> Result<MagnitudeView, DecodeErrorView> {
    match spec_attr(e.attrs, "publicID"@) {
        None => Err(DecodeErrorView::MissingField { entity: "Magnitude"@, field: "publicID"@ }),
        Some(public_id) => match spec_unique_child(e, "Magnitude"@, "mag"@) {
            Err(err) => Err(err),
            Ok(None) => Err(DecodeErrorView::MissingField { entity: "Magnitude"@, field: "mag"@ }),
            Ok(Some(mc)) => match spec_decode_real_quantity(mc, "Magnitude"@, "mag"@) {
                Err(err) => Err(err),
                Ok(mag) => match spec_opt_timestamp_child(e, "Magnitude"@, "creationTime"@) {
                    Err(err) => Err(err),
                    Ok(creation_time) => match spec_opt_text_child(e, "Magnitude"@, "originID"@) {
                        Err(err) => Err(err),
                        Ok(origin_id) => match spec_opt_text_child(e, "Magnitude"@, "methodID"@) {
                            Err(err) => Err(err),
                            Ok(method_id) => match spec_opt_text_child(e, "Magnitude"@, "type"@) {
                                Err(err) => Err(err),
                                Ok(magnitude_type) => Ok(
                                    MagnitudeView {
                                        public_id,
                                        mag,
                                        creation_time,
                                        origin_id,
                                        method_id,
                                        magnitude_type,
                                    },
                                ),
                            },
                        },
                    },
                },
            },
        },
    }
}

/// A free-form annotation: required body text, optional `type` attribute.
pub open spec fn spec_decode_event_description(e: XmlElemView) -> Result<
    EventDescriptionView,
    DecodeErrorView,
> {
    if e.text.len() == 0 {
        Err(DecodeErrorView::MissingField { entity: "EventDescription"@, field: "text"@ })
    } else {
        Ok(EventDescriptionView { text: e.text, description_type: spec_attr(e.attrs, "type"@) })
    }
}

fn opt_text_child(e: &XmlElem, ent: &str, fname: &str) -> (r: Result<Option<String>, DecodeError>)
    ensures
        match r {
            Ok(None) => spec_opt_text_child(e@, ent@, fname@) == Ok::<Option<Seq<char>>,
            DecodeErrorView>(None),
            Ok(Some(s)) => spec_opt_text_child(e@, ent@, fname@) == Ok::<_, DecodeErrorView>(
                Some(s@),
            ),
            Err(err) => spec_opt_text_child(e@, ent@, fname@) == Err::<Option<Seq<char>>, _>(err@),
        },
{
    let nm = String::from_str(fname);
    let cs = e.named_children(&nm);
    if cs.len() == 0 {
        Ok(None)
    } else if cs.len() > 1 {
        Err(
            DecodeError::InvalidValue {
                entity: String::from_str(ent),
                field: String::from_str(fname),
                reason: String::from_str("repeated element"),
            },
        )
    } else {
        Ok(Some(cs[0].text.clone()))
    }
}

fn opt_decimal_child(e: &XmlElem, ent: &str, fname: &str) -> (r: Result<
    Option<crate::decimal::Decimal>,
    DecodeError,
>)
    ensures
        match r {
            Ok(None) => spec_opt_decimal_child(e@, ent@, fname@) == Ok::<Option<DecimalView>,
            DecodeErrorView>(None),
            Ok(Some(d)) => spec_opt_decimal_child(e@, ent@, fname@) == Ok::<_, DecodeErrorView>(
                Some(d@),
            ),
            Err(err) => spec_opt_decimal_child(e@, ent@, fname@) == Err::<Option<DecimalView>, _>(
                err@,
            ),
        },
{
    let nm = String::from_str(fname);
    let cs = e.named_children(&nm);
    if cs.len() == 0 {
        Ok(None)
    } else if cs.len() > 1 {
        Err(
            DecodeError::InvalidValue {
                entity: String::from_str(ent),
                field: String::from_str(fname),
                reason: String::from_str("repeated element"),
            },
        )
    } else {
        match parse_decimal(cs[0].text.as_str()) {
            Some(d) => Ok(Some(d)),
            None => Err(
                DecodeError::InvalidNumber {
                    entity: String::from_str(ent),
                    field: String::from_str(fname),
                },
            ),
        }
    }
}

fn opt_i32_child(e: &XmlElem, ent: &str, fname: &str) -> (r: Result<Option<i32>, DecodeError>)
    ensures
        match r {
            Ok(v) => spec_opt_i32_child(e@, ent@, fname@) == Ok::<_, DecodeErrorView>(v),
            Err(err) => spec_opt_i32_child(e@, ent@, fname@) == Err::<Option<i32>, _>(err@),
        },
{
    let nm = String::from_str(fname);
    let cs = e.named_children(&nm);
    if cs.len() == 0 {
        Ok(None)
    } else if cs.len() > 1 {
        Err(
            DecodeError::InvalidValue {
                entity: String::from_str(ent),
                field: String::from_str(fname),
                reason: String::from_str("repeated element"),
            },
        )
    } else {
        match parse_i32(cs[0].text.as_str()) {
            Some(v) => Ok(Some(v)),
            None => Err(
                DecodeError::InvalidNumber {
                    entity: String::from_str(ent),
                    field: String::from_str(fname),
                },
            ),
        }
    }
}

fn opt_timestamp_child(e: &XmlElem, ent: &str, fname: &str) -> (r: Result<Option<i64>, DecodeError>)
    ensures
        match r {
            Ok(v) => spec_opt_timestamp_child(e@, ent@, fname@) == Ok::<_, DecodeErrorView>(v),
            Err(err) => spec_opt_timestamp_child(e@, ent@, fname@) == Err::<Option<i64>, _>(err@),
        },
{
    let nm = String::from_str(fname);
    let cs = e.named_children(&nm);
    if cs.len() == 0 {
        Ok(None)
    } else if cs.len() > 1 {
        Err(
            DecodeError::InvalidValue {
                entity: String::from_str(ent),
                field: String::from_str(fname),
                reason: String::from_str("repeated element"),
            },
        )
    } else {
        match parse_timestamp(cs[0].text.as_str()) {
            Some(v) => Ok(Some(v)),
            None => Err(
                DecodeError::InvalidTimestamp {
                    entity: String::from_str(ent),
                    field: String::from_str(fname),
                },
            ),
        }
    }
}

fn unique_child<'a>(e: &'a XmlElem, ent: &str, fname: &str) -> (r: Result<
    Option<&'a XmlElem>,
    DecodeError,
>)
    ensures
        match r {
            Ok(None) => spec_unique_child(e@, ent@, fname@) == Ok::<Option<XmlElemView>,
            DecodeErrorView>(None),
            Ok(Some(c)) => spec_unique_child(e@, ent@, fname@) == Ok::<_, DecodeErrorView>(
                Some(c@),
            ),
            Err(err) => spec_unique_child(e@, ent@, fname@) == Err::<Option<XmlElemView>, _>(err@),
        },
{
    let nm = String::from_str(fname);
    let cs = e.named_children(&nm);
    if cs.len() == 0 {
        Ok(None)
    } else if cs.len() > 1 {
        Err(
            DecodeError::InvalidValue {
                entity: String::from_str(ent),
                field: String::from_str(fname),
                reason: String::from_str("repeated element"),
            },
        )
    } else {
        Ok(Some(cs[0]))
    }
}

/// Decode a real-valued quantity element, blaming `ent`.`fld` on failure.
pub fn decode_real_quantity(q: &XmlElem, ent: &str, fld: &str) -> (r: Result<
    RealQuantity,
    DecodeError,
>)
    ensures
        res_view(r) == spec_decode_real_quantity(q@, ent@, fld@),
{
    let nm = String::from_str("value");
    let vs = q.named_children(&nm);
    if vs.len() == 0 {
        Err(
            DecodeError::InvalidValue {
                entity: String::from_str(ent),
                field: String::from_str(fld),
                reason: String::from_str("missing value element"),
            },
        )
    } else if vs.len() > 1 {
        Err(
            DecodeError::InvalidValue {
                entity: String::from_str(ent),
                field: String::from_str(fld),
                reason: String::from_str("repeated value element"),
            },
        )
    } else {
        match parse_decimal(vs[0].text.as_str()) {
            Some(d) => Ok(RealQuantity { value: d }),
            None => Err(
                DecodeError::InvalidNumber {
                    entity: String::from_str(ent),
                    field: String::from_str(fld),
                },
            ),
        }
    }
}

/// Decode a time-valued quantity element, blaming `ent`.`fld` on failure
/// of its value.
pub fn decode_time_quantity(q: &XmlElem, ent: &str, fld: &str) -> (r: Result<
    TimeQuantity,
    DecodeError,
>)
    ensures
        res_view(r) == spec_decode_time_quantity(q@, ent@, fld@),
{
    let nm = String::from_str("value");
    let vs = q.named_children(&nm);
    if vs.len() == 0 {
        return Err(
            DecodeError::InvalidValue {
                entity: String::from_str(ent),
                field: String::from_str(fld),
                reason: String::from_str("missing value element"),
            },
        );
    }
    if vs.len() > 1 {
        return Err(
            DecodeError::InvalidValue {
                entity: String::from_str(ent),
                field: String::from_str(fld),
                reason: String::from_str("repeated value element"),
            },
        );
    }
    let value = match parse_timestamp(vs[0].text.as_str()) {
        Some(v) => v,
        None => {
            return Err(
                DecodeError::InvalidTimestamp {
                    entity: String::from_str(ent),
                    field: String::from_str(fld),
                },
            );
        },
    };
    let uncertainty = match opt_decimal_child(q, "TimeQuantity", "uncertainty") {
        Ok(v) => v,
        Err(err) => {
            return Err(err);
        },
    };
    let lower_uncertainty = match opt_decimal_child(q, "TimeQuantity", "lowerUncertainty") {
        Ok(v) => v,
        Err(err) => {
            return Err(err);
        },
    };
    let upper_uncertainty = match opt_decimal_child(q, "TimeQuantity", "upperUncertainty") {
        Ok(v) => v,
        Err(err) => {
            return Err(err);
        },
    };
    let confidence_level = match opt_decimal_child(q, "TimeQuantity", "confidenceLevel") {
        Ok(v) => v,
        Err(err) => {
            return Err(err);
        },
    };
    Ok(TimeQuantity { value, uncertainty, lower_uncertainty, upper_uncertainty, confidence_level })
}

/// Decode a `creationInfo` element.
pub fn decode_creation_info(e: &XmlElem) -> (r: Result<CreationInfo, DecodeError>)
    ensures
        res_view(r) == spec_decode_creation_info(e@),
{
    let agency_id = match opt_text_child(e, "CreationInfo", "agencyID") {
        Ok(v) => v,
        Err(err) => {
            return Err(err);
        },
    };
    let agency_uri = match opt_text_child(e, "CreationInfo", "agencyURI") {
        Ok(v) => v,
        Err(err) => {
            return Err(err);
        },
    };
    let nm = String::from_str("creationTime");
    let cs = e.named_children(&nm);
    if cs.len() == 0 {
        return Err(
            DecodeError::MissingField {
                entity: String::from_str("CreationInfo"),
                field: String::from_str("creationTime"),
            },
        );
    }
    if cs.len() > 1 {
        return Err(
            DecodeError::InvalidValue {
                entity: String::from_str("CreationInfo"),
                field: String::from_str("creationTime"),
                reason: String::from_str("repeated element"),
            },
        );
    }
    match parse_timestamp(cs[0].text.as_str()) {
        None => Err(
            DecodeError::InvalidTimestamp {
                entity: String::from_str("CreationInfo"),
                field: String::from_str("creationTime"),
            },
        ),
        Some(creation_time) => Ok(CreationInfo { agency_id, agency_uri, creation_time }),
    }
}

/// Decode a `quality` element of an origin.
pub fn decode_origin_quality(e: &XmlElem) -> (r: Result<OriginQuality, DecodeError>)
    ensures
        res_view(r) == spec_decode_origin_quality(e@),
{
    let used_station_count = match opt_i32_child(e, "OriginQuality", "usedStationCount") {
        Ok(v) => v,
        Err(err) => {
            return Err(err);
        },
    };
    let used_phase_count = match opt_i32_child(e, "OriginQuality", "usedPhaseCount") {
        Ok(v) => v,
        Err(err) => {
            return Err(err);
        },
    };
    let standard_error = match opt_decimal_child(e, "OriginQuality", "standardError") {
        Ok(v) => v,
        Err(err) => {
            return Err(err);
        },
    };
    let azimuthal_gap = match opt_decimal_child(e, "OriginQuality", "azimuthalGap") {
        Ok(v) => v,
        Err(err) => {
            return Err(err);
        },
    };
    Ok(OriginQuality { used_station_count, used_phase_count, standard_error, azimuthal_gap })
}

/// Decode an `originUncertainty` element.
pub fn decode_origin_uncertainty(e: &XmlElem) -> (r: Result<OriginUncertainty, DecodeError>)
    ensures
        res_view(r) == spec_decode_origin_uncertainty(e@),
{
    let nm = String::from_str("horizontalUncertainty");
    let cs = e.named_children(&nm);
    if cs.len() == 0 {
        return Err(
            DecodeError::MissingField {
                entity: String::from_str("OriginUncertainty"),
                field: String::from_str("horizontalUncertainty"),
            },
        );
    }
    if cs.len() > 1 {
        return Err(
            DecodeError::InvalidValue {
                entity: String::from_str("OriginUncertainty"),
                field: String::from_str("horizontalUncertainty"),
                reason: String::from_str("repeated element"),
            },
        );
    }
    match parse_decimal(cs[0].text.as_str()) {
        None => Err(
            DecodeError::InvalidNumber {
                entity: String::from_str("OriginUncertainty"),
                field: String::from_str("horizontalUncertainty"),
            },
        ),
        Some(horizontal_uncertainty) => {
            match opt_text_child(e, "OriginUncertainty", "preferredDescription") {
                Err(err) => Err(err),
                Ok(preferred_description) => Ok(
                    OriginUncertainty { horizontal_uncertainty, preferred_description },
                ),
            }
        },
    }
}

/// Decode an `origin` element.
pub fn decode_origin(e: &XmlElem) -> (r: Result<Origin, DecodeError>)
    ensures
        res_view(r) == spec_decode_origin(e@),
{
    let pid = String::from_str("publicID");
    let public_id = match e.attr(&pid) {
        None => {
            return Err(
                DecodeError::MissingField {
                    entity: String::from_str("Origin"),
                    field: String::from_str("publicID"),
                },
            );
        },
        Some(v) => v.clone(),
    };
    let tc = match unique_child(e, "Origin", "time") {
        Err(err) => {
            return Err(err);
        },
        Ok(None) => {
            return Err(
                DecodeError::MissingField {
                    entity: String::from_str("Origin"),
                    field: String::from_str("time"),
                },
            );
        },
        Ok(Some(c)) => c,
    };
    let time = match decode_time_quantity(tc, "Origin", "time") {
        Err(err) => {
            return Err(err);
        },
        Ok(t) => t,
    };
    let longitude = match req_real_quantity(e, "Origin", "longitude") {
        Err(err) => {
            return Err(err);
        },
        Ok(v) => v,
    };
    let latitude = match req_real_quantity(e, "Origin", "latitude") {
        Err(err) => {
            return Err(err);
        },
        Ok(v) => v,
    };
    let depth = match req_real_quantity(e, "Origin", "depth") {
        Err(err) => {
            return Err(err);
        },
        Ok(v) => v,
    };
    let origin_uncertainty = match unique_child(e, "Origin", "originUncertainty") {
        Err(err) => {
            return Err(err);
        },
        Ok(None) => None,
        Ok(Some(c)) => match decode_origin_uncertainty(c) {
            Err(err) => {
                return Err(err);
            },
            Ok(u) => Some(u),
        },
    };
    let quality = match unique_child(e, "Origin", "quality") {
        Err(err) => {
            return Err(err);
        },
        Ok(None) => None,
        Ok(Some(c)) => match decode_origin_quality(c) {
            Err(err) => {
                return Err(err);
            },
            Ok(q) => Some(q),
        },
    };
    let evaluation_mode = match opt_text_child(e, "Origin", "evaluationMode") {
        Err(err) => {
            return Err(err);
        },
        Ok(v) => v,
    };
    let creation_info = match unique_child(e, "Origin", "creationInfo") {
        Err(err) => {
            return Err(err);
        },
        Ok(None) => None,
        Ok(Some(c)) => match decode_creation_info(c) {
            Err(err) => {
                return Err(err);
            },
            Ok(ci) => Some(ci),
        },
    };
    Ok(
        Origin {
            public_id,
            time,
            longitude,
            latitude,
            depth,
            origin_uncertainty,
            quality,
            evaluation_mode,
            creation_info,
        },
    )
}

/// Decode a real quantity held by the unique child named `fname`.
pub fn req_real_quantity(e: &XmlElem, ent: &str, fname: &str) -> (r: Result<
    RealQuantity,
    DecodeError,
>)
    ensures
        res_view(r) == spec_req_real_quantity(e@, ent@, fname@),
{
    match unique_child(e, ent, fname) {
        Err(err) => Err(err),
        Ok(None) => Err(
            DecodeError::MissingField {
                entity: String::from_str(ent),
                field: String::from_str(fname),
            },
        ),
        Ok(Some(c)) => decode_real_quantity(c, ent, fname),
    }
}

/// Decode a `magnitude` element.
pub fn decode_magnitude(e: &XmlElem) -> (r: Result<Magnitude, DecodeError>)
    ensures
        res_view(r) == spec_decode_magnitude(e@),
{
    let pid = String::from_str("publicID");
    let public_id = match e.attr(&pid) {
        None => {
            return Err(
                DecodeError::MissingField {
                    entity: String::from_str("Magnitude"),
                    field: String::from_str("publicID"),
                },
            );
        },
        Some(v) => v.clone(),
    };
    let mc = match unique_child(e, "Magnitude", "mag") {
        Err(err) => {
            return Err(err);
        },
        Ok(None) => {
            return Err(
                DecodeError::MissingField {
                    entity: String::from_str("Magnitude"),
                    field: String::from_str("mag"),
                },
            );
        },
        Ok(Some(c)) => c,
    };
    let mag = match decode_real_quantity(mc, "Magnitude", "mag") {
        Err(err) => {
            return Err(err);
        },
        Ok(m) => m,
    };
    let creation_time = match opt_timestamp_child(e, "Magnitude", "creationTime") {
        Err(err) => {
            return Err(err);
        },
        Ok(v) => v,
    };
    let origin_id = match opt_text_child(e, "Magnitude", "originID") {
        Err(err) => {
            return Err(err);
        },
        Ok(v) => v,
    };
    let method_id = match opt_text_child(e, "Magnitude", "methodID") {
        Err(err) => {
            return Err(err);
        },
        Ok(v) => v,
    };
    let magnitude_type = match opt_text_child(e, "Magnitude", "type") {
        Err(err) => {
            return Err(err);
        },
        Ok(v) => v,
    };
    Ok(Magnitude { public_id, mag, creation_time, origin_id, method_id, magnitude_type })
}

/// Decode a `description` element: its body text and `type` attribute.
pub fn decode_event_description(e: &XmlElem) -> (r: Result<EventDescription, DecodeError>)
    ensures
        res_view(r) == spec_decode_event_description(e@),
{
    if e.text.unicode_len() == 0 {
        return Err(
            DecodeError::MissingField {
                entity: String::from_str("EventDescription"),
                field: String::from_str("text"),
            },
        );
    }
    let tn = String::from_str("type");
    let description_type = match e.attr(&tn) {
        None => None,
        Some(v) => Some(v.clone()),
    };
    Ok(EventDescription { text: e.text.clone(), description_type })
}

/// The origins of an event, in document order; the first failure wins.
pub open spec fn spec_decode_origins(s: Seq<XmlElemView>) -> Result<Seq<OriginView>, DecodeErrorView>
    decreases s.len(),
{
    if s.len() == 0 {
        Ok(Seq::empty())
    } else {
        match spec_decode_origin(s[0]) {
            Err(err) => Err(err),
            Ok(o) => match spec_decode_origins(s.drop_first()) {
                Err(err) => Err(err),
                Ok(rest) => Ok(seq![o] + rest),
            },
        }
    }
}

/// The magnitudes of an event, in document order; the first failure wins.
pub open spec fn spec_decode_magnitudes(s: Seq<XmlElemView>) -> Result<
    Seq<MagnitudeView>,
    DecodeErrorView,
>
    decreases s.len(),
{
    if s.len() == 0 {
        Ok(Seq::empty())
    } else {
        match spec_decode_magnitude(s[0]) {
            Err(err) => Err(err),
            Ok(m) => match spec_decode_magnitudes(s.drop_first()) {
                Err(err) => Err(err),
                Ok(rest) => Ok(seq![m] + rest),
            },
        }
    }
}

/// The descriptions of an event, in document order; the first failure wins.
pub open spec fn spec_decode_descriptions(s: Seq<XmlElemView>) -> Result<
    Seq<EventDescriptionView>,
    DecodeErrorView,
>
    decreases s.len(),
{
    if s.len() == 0 {
        Ok(Seq::empty())
    } else {
        match spec_decode_event_description(s[0]) {
            Err(err) => Err(err),
            Ok(d) => match spec_decode_descriptions(s.drop_first()) {
                Err(err) => Err(err),
                Ok(rest) => Ok(seq![d] + rest),
            },
        }
    }
}

/// The events of a catalog, in document order; the first failure wins.
pub open spec fn spec_decode_events(s: Seq<XmlElemView>) -> Result<Seq<EventView>, DecodeErrorView>
    decreases s.len(),
{
    if s.len() == 0 {
        Ok(Seq::empty())
    } else {
        match spec_decode_event(s[0]) {
            Err(err) => Err(err),
            Ok(ev) => match spec_decode_events(s.drop_first()) {
                Err(err) => Err(err),
                Ok(rest) => Ok(seq![ev] + rest),
            },
        }
    }
}

/// One event: required `publicID` attribute and at least one `origin`
/// child; `magnitude` and `description` children default to empty when
/// wholly absent; optional preferred-origin and preferred-magnitude
/// references.
pub open spec fn spec_decode_event(e: XmlElemView) -> Result<EventView, DecodeErrorView> {
    match spec_attr(e.attrs, "publicID"@) {
        None => Err(DecodeErrorView::MissingField { entity: "Event"@, field: "publicID"@ }),
        Some(public_id) => match spec_decode_origins(kids(e, "origin"@)) {
            Err(err) => Err(err),
            Ok(origins) => if origins.len() == 0 {
                Err(DecodeErrorView::MissingField { entity: "Event"@, field: "origin"@ })
            } else {
                match spec_decode_magnitudes(kids(e, "magnitude"@)) {
                    Err(err) => Err(err),
                    Ok(magnitudes) => match spec_decode_descriptions(kids(e, "description"@)) {
                        Err(err) => Err(err),
                        Ok(descriptions) => match spec_opt_text_child(
                            e,
                            "Event"@,
                            "preferredOriginID"@,
                        ) {
                            Err(err) => Err(err),
                            Ok(preferred_origin_id) => match spec_opt_text_child(
                                e,
                                "Event"@,
                                "preferredMagnitudeID"@,
                            ) {
                                Err(err) => Err(err),
                                Ok(preferred_magnitude_id) => Ok(
                                    EventView {
                                        public_id,
                                        origins,
                                        magnitudes,
                                        descriptions,
                                        preferred_origin_id,
                                        preferred_magnitude_id,
                                    },
                                ),
                            },
                        },
                    },
                }
            },
        },
    }
}

/// The catalog envelope: at least one `event` child and one required
/// `creationInfo`.
pub open spec fn spec_decode_event_parameters(e: XmlElemView) -> Result<
    EventParametersView,
    DecodeErrorView,
> {
    match spec_decode_events(kids(e, "event"@)) {
        Err(err) => Err(err),
        Ok(events) => if events.len() == 0 {
            Err(DecodeErrorView::MissingField { entity: "EventParameters"@, field: "event"@ })
        } else {
            match spec_unique_child(e, "EventParameters"@, "creationInfo"@) {
                Err(err) => Err(err),
                Ok(None) => Err(
                    DecodeErrorView::MissingField {
                        entity: "EventParameters"@,
                        field: "creationInfo"@,
                    },
                ),
                Ok(Some(c)) => match spec_decode_creation_info(c) {
                    Err(err) => Err(err),
                    Ok(creation_info) => Ok(EventParametersView { events, creation_info }),
                },
            }
        },
    }
}

/// A whole document, from its root element: one required `eventParameters`
/// child.
pub open spec fn spec_decode_document(root: XmlElemView) -> Result<QuakeMLView, DecodeErrorView> {
    match spec_unique_child(root, "QuakeML"@, "eventParameters"@) {
        Err(err) => Err(err),
        Ok(None) => Err(
            DecodeErrorView::MissingField { entity: "QuakeML"@, field: "eventParameters"@ },
        ),
        Ok(Some(c)) => match spec_decode_event_parameters(c) {
            Err(err) => Err(err),
            Ok(event_parameters) => Ok(QuakeMLView { event_parameters }),
        },
    }
}

/// A whole document, from its text: what decoding yields for `text`,
/// through the outside XML parser's tree.
pub open spec fn spec_decode_text(text: Seq<char>) -> Result<QuakeMLView, DecodeErrorView> {
    match crate::xml::xml_doc_of(text) {
        None => Err(DecodeErrorView::MalformedXml),
        Some(root) => spec_decode_document(root),
    }
}

/// The models of a sequence of values, element-wise.
pub open spec fn deep_views<T: View>(s: Seq<T>) -> Seq<T::V> {
    Seq::new(s.len(), |i: int| s[i]@)
}

/// Prefix already decoded, glued to what remains.
pub open spec fn spec_combine<T>(pre: Seq<T>, r: Result<Seq<T>, DecodeErrorView>) -> Result<
    Seq<T>,
    DecodeErrorView,
> {
    match r {
        Ok(s) => Ok(pre + s),
        Err(err) => Err(err),
    }
}

proof fn lemma_origins_step(cn: Seq<XmlElemView>, i: int, pre: Seq<OriginView>, o: OriginView)
    requires
        0 <= i < cn.len(),
        spec_decode_origin(cn[i]) == Ok::<OriginView, DecodeErrorView>(o),
        spec_decode_origins(cn) == spec_combine(pre, spec_decode_origins(cn.skip(i))),
    ensures
        spec_decode_origins(cn) == spec_combine(pre.push(o), spec_decode_origins(cn.skip(i + 1))),
{
    let rest = cn.skip(i);
    assert(rest[0] == cn[i]);
    assert(rest.drop_first() =~= cn.skip(i + 1));
    match spec_decode_origins(cn.skip(i + 1)) {
        Err(err) => {},
        Ok(r) => {
            assert(pre + (seq![o] + r) =~= pre.push(o) + r);
        },
    }
}

proof fn lemma_origins_err(cn: Seq<XmlElemView>, i: int, pre: Seq<OriginView>, err: DecodeErrorView)
    requires
        0 <= i < cn.len(),
        spec_decode_origin(cn[i]) == Err::<OriginView, DecodeErrorView>(err),
        spec_decode_origins(cn) == spec_combine(pre, spec_decode_origins(cn.skip(i))),
    ensures
        spec_decode_origins(cn) == Err::<Seq<OriginView>, DecodeErrorView>(err),
{
    let rest = cn.skip(i);
    assert(rest[0] == cn[i]);
}

fn decode_origins_list(e: &XmlElem) -> (r: Result<Vec<Origin>, DecodeError>)
    ensures
        match r {
            Ok(v) => spec_decode_origins(kids(e@, "origin"@)) == Ok::<_, DecodeErrorView>(
                deep_views(v@),
            ),
            Err(err) => spec_decode_origins(kids(e@, "origin"@)) == Err::<Seq<OriginView>, _>(
                err@,
            ),
        },
{
    let nm = String::from_str("origin");
    let cs = e.named_children(&nm);
    let ghost cn = kids(e@, "origin"@);
    let mut out: Vec<Origin> = Vec::new();
    proof {
        assert(cn.skip(0) =~= cn);
        match spec_decode_origins(cn) {
            Ok(s) => {
                assert(deep_views(out@) + s =~= s);
            },
            Err(err) => {},
        }
    }
    let n = cs.len();
    for i in 0..n
        invariant
            n == cs.len(),
            cs@.len() == cn.len(),
            forall|k: int| 0 <= k < cn.len() ==> cs@[k]@ == cn[k],
            cn == kids(e@, "origin"@),
            spec_decode_origins(cn) == spec_combine(
                deep_views(out@),
                spec_decode_origins(cn.skip(i as int)),
            ),
    {
        let ghost pre = deep_views(out@);
        match decode_origin(cs[i]) {
            Err(err) => {
                proof {
                    lemma_origins_err(cn, i as int, pre, err@);
                }
                return Err(err);
            },
            Ok(o) => {
                proof {
                    lemma_origins_step(cn, i as int, pre, o@);
                }
                out.push(o);
                proof {
                    assert(deep_views(out@) =~= pre.push(o@));
                }
            },
        }
    }
    proof {
        assert(cn.skip(n as int) =~= Seq::<XmlElemView>::empty());
        assert(deep_views(out@) + Seq::<OriginView>::empty() =~= deep_views(out@));
    }
    Ok(out)
}

proof fn lemma_magnitudes_step(
    cn: Seq<XmlElemView>,
    i: int,
    pre: Seq<MagnitudeView>,
    m: MagnitudeView,
)
    requires
        0 <= i < cn.len(),
        spec_decode_magnitude(cn[i]) == Ok::<MagnitudeView, DecodeErrorView>(m),
        spec_decode_magnitudes(cn) == spec_combine(pre, spec_decode_magnitudes(cn.skip(i))),
    ensures
        spec_decode_magnitudes(cn) == spec_combine(
            pre.push(m),
            spec_decode_magnitudes(cn.skip(i + 1)),
        ),
{
    let rest = cn.skip(i);
    assert(rest[0] == cn[i]);
    assert(rest.drop_first() =~= cn.skip(i + 1));
    match spec_decode_magnitudes(cn.skip(i + 1)) {
        Err(err) => {},
        Ok(r) => {
            assert(pre + (seq![m] + r) =~= pre.push(m) + r);
        },
    }
}

proof fn lemma_magnitudes_err(
    cn: Seq<XmlElemView>,
    i: int,
    pre: Seq<MagnitudeView>,
    err: DecodeErrorView,
)
    requires
        0 <= i < cn.len(),
        spec_decode_magnitude(cn[i]) == Err::<MagnitudeView, DecodeErrorView>(err),
        spec_decode_magnitudes(cn) == spec_combine(pre, spec_decode_magnitudes(cn.skip(i))),
    ensures
        spec_decode_magnitudes(cn) == Err::<Seq<MagnitudeView>, DecodeErrorView>(err),
{
    let rest = cn.skip(i);
    assert(rest[0] == cn[i]);
}

fn decode_magnitudes_list(e: &XmlElem) -> (r: Result<Vec<Magnitude>, DecodeError>)
    ensures
        match r {
            Ok(v) => spec_decode_magnitudes(kids(e@, "magnitude"@)) == Ok::<_, DecodeErrorView>(
                deep_views(v@),
            ),
            Err(err) => spec_decode_magnitudes(kids(e@, "magnitude"@)) == Err::<
                Seq<MagnitudeView>,
                _,
            >(err@),
        },
{
    let nm = String::from_str("magnitude");
    let cs = e.named_children(&nm);
    let ghost cn = kids(e@, "magnitude"@);
    let mut out: Vec<Magnitude> = Vec::new();
    proof {
        assert(cn.skip(0) =~= cn);
        match spec_decode_magnitudes(cn) {
            Ok(s) => {
                assert(deep_views(out@) + s =~= s);
            },
            Err(err) => {},
        }
    }
    let n = cs.len();
    for i in 0..n
        invariant
            n == cs.len(),
            cs@.len() == cn.len(),
            forall|k: int| 0 <= k < cn.len() ==> cs@[k]@ == cn[k],
            cn == kids(e@, "magnitude"@),
            spec_decode_magnitudes(cn) == spec_combine(
                deep_views(out@),
                spec_decode_magnitudes(cn.skip(i as int)),
            ),
    {
        let ghost pre = deep_views(out@);
        match decode_magnitude(cs[i]) {
            Err(err) => {
                proof {
                    lemma_magnitudes_err(cn, i as int, pre, err@);
                }
                return Err(err);
            },
            Ok(m) => {
                proof {
                    lemma_magnitudes_step(cn, i as int, pre, m@);
                }
                out.push(m);
                proof {
                    assert(deep_views(out@) =~= pre.push(m@));
                }
            },
        }
    }
    proof {
        assert(cn.skip(n as int) =~= Seq::<XmlElemView>::empty());
        assert(deep_views(out@) + Seq::<MagnitudeView>::empty() =~= deep_views(out@));
    }
    Ok(out)
}

proof fn lemma_descriptions_step(
    cn: Seq<XmlElemView>,
    i: int,
    pre: Seq<EventDescriptionView>,
    d: EventDescriptionView,
)
    requires
        0 <= i < cn.len(),
        spec_decode_event_description(cn[i]) == Ok::<EventDescriptionView, DecodeErrorView>(d),
        spec_decode_descriptions(cn) == spec_combine(pre, spec_decode_descriptions(cn.skip(i))),
    ensures
        spec_decode_descriptions(cn) == spec_combine(
            pre.push(d),
            spec_decode_descriptions(cn.skip(i + 1)),
        ),
{
    let rest = cn.skip(i);
    assert(rest[0] == cn[i]);
    assert(rest.drop_first() =~= cn.skip(i + 1));
    match spec_decode_descriptions(cn.skip(i + 1)) {
        Err(err) => {},
        Ok(r) => {
            assert(pre + (seq![d] + r) =~= pre.push(d) + r);
        },
    }
}

proof fn lemma_descriptions_err(
    cn: Seq<XmlElemView>,
    i: int,
    pre: Seq<EventDescriptionView>,
    err: DecodeErrorView,
)
    requires
        0 <= i < cn.len(),
        spec_decode_event_description(cn[i]) == Err::<EventDescriptionView, DecodeErrorView>(err),
        spec_decode_descriptions(cn) == spec_combine(pre, spec_decode_descriptions(cn.skip(i))),
    ensures
        spec_decode_descriptions(cn) == Err::<Seq<EventDescriptionView>, DecodeErrorView>(err),
{
    let rest = cn.skip(i);
    assert(rest[0] == cn[i]);
}

fn decode_descriptions_list(e: &XmlElem) -> (r: Result<Vec<EventDescription>, DecodeError>)
    ensures
        match r {
            Ok(v) => spec_decode_descriptions(kids(e@, "description"@)) == Ok::<
                _,
                DecodeErrorView,
            >(deep_views(v@)),
            Err(err) => spec_decode_descriptions(kids(e@, "description"@)) == Err::<
                Seq<EventDescriptionView>,
                _,
            >(err@),
        },
{
    let nm = String::from_str("description");
    let cs = e.named_children(&nm);
    let ghost cn = kids(e@, "description"@);
    let mut out: Vec<EventDescription> = Vec::new();
    proof {
        assert(cn.skip(0) =~= cn);
        match spec_decode_descriptions(cn) {
            Ok(s) => {
                assert(deep_views(out@) + s =~= s);
            },
            Err(err) => {},
        }
    }
    let n = cs.len();
    for i in 0..n
        invariant
            n == cs.len(),
            cs@.len() == cn.len(),
            forall|k: int| 0 <= k < cn.len() ==> cs@[k]@ == cn[k],
            cn == kids(e@, "description"@),
            spec_decode_descriptions(cn) == spec_combine(
                deep_views(out@),
                spec_decode_descriptions(cn.skip(i as int)),
            ),
    {
        let ghost pre = deep_views(out@);
        match decode_event_description(cs[i]) {
            Err(err) => {
                proof {
                    lemma_descriptions_err(cn, i as int, pre, err@);
                }
                return Err(err);
            },
            Ok(d) => {
                proof {
                    lemma_descriptions_step(cn, i as int, pre, d@);
                }
                out.push(d);
                proof {
                    assert(deep_views(out@) =~= pre.push(d@));
                }
            },
        }
    }
    proof {
        assert(cn.skip(n as int) =~= Seq::<XmlElemView>::empty());
        assert(deep_views(out@) + Seq::<EventDescriptionView>::empty() =~= deep_views(out@));
    }
    Ok(out)
}

/// Decode an `event` element.
pub fn decode_event(e: &XmlElem) -> (r: Result<Event, DecodeError>)
    ensures
        res_view(r) == spec_decode_event(e@),
{
    let pid = String::from_str("publicID");
    let public_id = match e.attr(&pid) {
        None => {
            return Err(
                DecodeError::MissingField {
                    entity: String::from_str("Event"),
                    field: String::from_str("publicID"),
                },
            );
        },
        Some(v) => v.clone(),
    };
    let origins = match decode_origins_list(e) {
        Err(err) => {
            return Err(err);
        },
        Ok(v) => v,
    };
    if origins.len() == 0 {
        return Err(
            DecodeError::MissingField {
                entity: String::from_str("Event"),
                field: String::from_str("origin"),
            },
        );
    }
    let magnitudes = match decode_magnitudes_list(e) {
        Err(err) => {
            return Err(err);
        },
        Ok(v) => v,
    };
    let descriptions = match decode_descriptions_list(e) {
        Err(err) => {
            return Err(err);
        },
        Ok(v) => v,
    };
    let preferred_origin_id = match opt_text_child(e, "Event", "preferredOriginID") {
        Err(err) => {
            return Err(err);
        },
        Ok(v) => v,
    };
    let preferred_magnitude_id = match opt_text_child(e, "Event", "preferredMagnitudeID") {
        Err(err) => {
            return Err(err);
        },
        Ok(v) => v,
    };
    let ev = Event {
        public_id,
        origins,
        magnitudes,
        descriptions,
        preferred_origin_id,
        preferred_magnitude_id,
    };
    proof {
        assert(ev@.origins =~= deep_views(ev.origins@));
        assert(ev@.magnitudes =~= deep_views(ev.magnitudes@));
        assert(ev@.descriptions =~= deep_views(ev.descriptions@));
    }
    Ok(ev)
}

proof fn lemma_events_step(cn: Seq<XmlElemView>, i: int, pre: Seq<EventView>, ev: EventView)
    requires
        0 <= i < cn.len(),
        spec_decode_event(cn[i]) == Ok::<EventView, DecodeErrorView>(ev),
        spec_decode_events(cn) == spec_combine(pre, spec_decode_events(cn.skip(i))),
    ensures
        spec_decode_events(cn) == spec_combine(pre.push(ev), spec_decode_events(cn.skip(i + 1))),
{
    let rest = cn.skip(i);
    assert(rest[0] == cn[i]);
    assert(rest.drop_first() =~= cn.skip(i + 1));
    match spec_decode_events(cn.skip(i + 1)) {
        Err(err) => {},
        Ok(r) => {
            assert(pre + (seq![ev] + r) =~= pre.push(ev) + r);
        },
    }
}

proof fn lemma_events_err(cn: Seq<XmlElemView>, i: int, pre: Seq<EventView>, err: DecodeErrorView)
    requires
        0 <= i < cn.len(),
        spec_decode_event(cn[i]) == Err::<EventView, DecodeErrorView>(err),
        spec_decode_events(cn) == spec_combine(pre, spec_decode_events(cn.skip(i))),
    ensures
        spec_decode_events(cn) == Err::<Seq<EventView>, DecodeErrorView>(err),
{
    let rest = cn.skip(i);
    assert(rest[0] == cn[i]);
}

fn decode_events_list(e: &XmlElem) -> (r: Result<Vec<Event>, DecodeError>)
    ensures
        match r {
            Ok(v) => spec_decode_events(kids(e@, "event"@)) == Ok::<_, DecodeErrorView>(
                deep_views(v@),
            ),
            Err(err) => spec_decode_events(kids(e@, "event"@)) == Err::<Seq<EventView>, _>(err@),
        },
{
    let nm = String::from_str("event");
    let cs = e.named_children(&nm);
    let ghost cn = kids(e@, "event"@);
    let mut out: Vec<Event> = Vec::new();
    proof {
        assert(cn.skip(0) =~= cn);
        match spec_decode_events(cn) {
            Ok(s) => {
                assert(deep_views(out@) + s =~= s);
            },
            Err(err) => {},
        }
    }
    let n = cs.len();
    for i in 0..n
        invariant
            n == cs.len(),
            cs@.len() == cn.len(),
            forall|k: int| 0 <= k < cn.len() ==> cs@[k]@ == cn[k],
            cn == kids(e@, "event"@),
            spec_decode_events(cn) == spec_combine(
                deep_views(out@),
                spec_decode_events(cn.skip(i as int)),
            ),
    {
        let ghost pre = deep_views(out@);
        match decode_event(cs[i]) {
            Err(err) => {
                proof {
                    lemma_events_err(cn, i as int, pre, err@);
                }
                return Err(err);
            },
            Ok(ev) => {
                proof {
                    lemma_events_step(cn, i as int, pre, ev@);
                }
                out.push(ev);
                proof {
                    assert(deep_views(out@) =~= pre.push(ev@));
                }
            },
        }
    }
    proof {
        assert(cn.skip(n as int) =~= Seq::<XmlElemView>::empty());
        assert(deep_views(out@) + Seq::<EventView>::empty() =~= deep_views(out@));
    }
    Ok(out)
}

/// Decode an `eventParameters` element.
pub fn decode_event_parameters(e: &XmlElem) -> (r: Result<EventParameters, DecodeError>)
    ensures
        res_view(r) == spec_decode_event_parameters(e@),
{
    let events = match decode_events_list(e) {
        Err(err) => {
            return Err(err);
        },
        Ok(v) => v,
    };
    if events.len() == 0 {
        return Err(
            DecodeError::MissingField {
                entity: String::from_str("EventParameters"),
                field: String::from_str("event"),
            },
        );
    }
    let creation_info = match unique_child(e, "EventParameters", "creationInfo") {
        Err(err) => {
            return Err(err);
        },
        Ok(None) => {
            return Err(
                DecodeError::MissingField {
                    entity: String::from_str("EventParameters"),
                    field: String::from_str("creationInfo"),
                },
            );
        },
        Ok(Some(c)) => match decode_creation_info(c) {
            Err(err) => {
                return Err(err);
            },
            Ok(ci) => ci,
        },
    };
    let ep = EventParameters { events, creation_info };
    proof {
        assert(ep@.events =~= deep_views(ep.events@));
    }
    Ok(ep)
}

/// Decode a whole document from its root element.
pub fn decode_document(root: &XmlElem) -> (r: Result<QuakeML, DecodeError>)
    ensures
        res_view(r) == spec_decode_document(root@),
{
    match unique_child(root, "QuakeML", "eventParameters") {
        Err(err) => Err(err),
        Ok(None) => Err(
            DecodeError::MissingField {
                entity: String::from_str("QuakeML"),
                field: String::from_str("eventParameters"),
            },
        ),
        Ok(Some(c)) => match decode_event_parameters(c) {
            Err(err) => Err(err),
            Ok(event_parameters) => Ok(QuakeML { event_parameters }),
        },
    }
}

proof fn lemma_real_quantity_wf(q: XmlElemView, ent: Seq<char>, fld: Seq<char>)
    ensures
        spec_decode_real_quantity(q, ent, fld) matches Ok(rq) ==> crate::decimal::dec_wf(rq.value),
{
    if spec_decode_real_quantity(q, ent, fld) is Ok {
        crate::decimal::lemma_parse_decimal_wf(kids(q, "value"@)[0].text);
    }
}

proof fn lemma_magnitude_wf(e: XmlElemView)
    ensures
        spec_decode_magnitude(e) matches Ok(m) ==> crate::decimal::dec_wf(m.mag.value),
{
    if spec_decode_magnitude(e) is Ok {
        lemma_real_quantity_wf(kids(e, "mag"@)[0], "Magnitude"@, "mag"@);
    }
}

proof fn lemma_magnitudes_wf(s: Seq<XmlElemView>)
    ensures
        spec_decode_magnitudes(s) matches Ok(ms) ==> forall|j: int|
            0 <= j < ms.len() ==> crate::decimal::dec_wf(#[trigger] ms[j].mag.value),
    decreases s.len(),
{
    if s.len() > 0 {
        lemma_magnitude_wf(s[0]);
        lemma_magnitudes_wf(s.drop_first());
        match spec_decode_magnitudes(s) {
            Err(err) => {},
            Ok(ms) => {
                match spec_decode_magnitudes(s.drop_first()) {
                    Err(err) => {},
                    Ok(rest) => {
                        assert forall|j: int| 0 <= j < ms.len() implies crate::decimal::dec_wf(
                            #[trigger] ms[j].mag.value,
                        ) by {
                            if j > 0 {
                                assert(ms[j] == rest[j - 1]);
                            }
                        }
                    },
                }
            },
        }
    }
}

proof fn lemma_event_mags_wf(e: XmlElemView)
    ensures
        spec_decode_event(e) matches Ok(ev) ==> forall|j: int|
            0 <= j < ev.magnitudes.len() ==> crate::decimal::dec_wf(
                #[trigger] ev.magnitudes[j].mag.value,
            ),
{
    if spec_decode_event(e) is Ok {
        lemma_magnitudes_wf(kids(e, "magnitude"@));
    }
}

proof fn lemma_events_wf(s: Seq<XmlElemView>)
    ensures
        spec_decode_events(s) matches Ok(evs) ==> crate::model::mags_wf(evs),
    decreases s.len(),
{
    if s.len() > 0 {
        lemma_event_mags_wf(s[0]);
        lemma_events_wf(s.drop_first());
        match spec_decode_events(s) {
            Err(err) => {},
            Ok(evs) => {
                match spec_decode_events(s.drop_first()) {
                    Err(err) => {},
                    Ok(rest) => {
                        assert forall|i: int, j: int|
                            0 <= i < evs.len() && 0 <= j
                                < evs[i].magnitudes.len() implies crate::decimal::dec_wf(
                            #[trigger] evs[i].magnitudes[j].mag.value,
                        ) by {
                            if i > 0 {
                                assert(evs[i] == rest[i - 1]);
                                assert(crate::model::mags_wf(rest));
                                assert(crate::decimal::dec_wf(rest[i - 1].magnitudes[j].mag.value));
                            }
                        }
                    },
                }
            },
        }
    }
}

/// Whatever decoding accepts carries only decimals in normal form as its
/// magnitude values.
pub proof fn lemma_decoded_mags_wf(text: Seq<char>)
    ensures
        spec_decode_text(text) matches Ok(c) ==> crate::model::mags_wf(c.event_parameters.events),
{
    match crate::xml::xml_doc_of(text) {
        None => {},
        Some(root) => {
            if spec_decode_document(root) is Ok {
                lemma_events_wf(kids(kids(root, "eventParameters"@)[0], "event"@));
            }
        },
    }
}

/// Decoding is deterministic, hence idempotent: two decodings of the same
/// text yield the same outcome, equal field for field — the same catalog on
/// success, the same error on failure.
pub proof fn lemma_decode_deterministic(
    text: Seq<char>,
    r1: Result<QuakeMLView, DecodeErrorView>,
    r2: Result<QuakeMLView, DecodeErrorView>,
)
    requires
        r1 == spec_decode_text(text),
        r2 == spec_decode_text(text),
    ensures
        r1 == r2,
{
}

impl QuakeML {
    /// Decode a catalog from the text of a document.
    ///
    /// Fails with `MalformedXml` when the text is not well-formed XML, and
    /// with the decoder's error otherwise; never panics.
    pub fn from_str(data: &String) -> (r: Result<QuakeML, DecodeError>)
        ensures
            res_view(r) == spec_decode_text(data@),
    {
        match crate::xml::parse_xml(data.as_str()) {
            None => Err(DecodeError::MalformedXml),
            Some(root) => decode_document(&root),
        }
    }
}

} // verus!
