//! Catalog-wide aggregation.
//!
//! Folds a decoded catalog into summary statistics: the event count and the
//! minimum and maximum preferred magnitude. Events without a magnitude are
//! counted but excluded from the reduction; an event whose preference fails
//! to resolve fails the whole summary, so that a malformed catalog is
//! reported rather than silently degraded.

use vstd::prelude::*;

use crate::decimal::{dec_le, dec_lt, dec_wf, lemma_dec_lt_trans, lemma_dec_lt_trichotomy};
use crate::decimal::{Decimal, DecimalView};
use crate::errors::{ResolutionError, ResolutionErrorView};
use crate::model::{opt_dec_view, QuakeML};
use crate::model::{EventView, QuakeMLView};
use crate::resolve::spec_preferred_magnitude;

verus! {

/// Summary statistics of one catalog.
#[derive(Debug, Clone, PartialEq, Eq)]
pub struct CatalogSummary {
    pub event_count: usize,
    pub min_magnitude: Option<Decimal>,
    pub max_magnitude: Option<Decimal>,
}

/// Mathematical model of a [`CatalogSummary`].
pub struct CatalogSummaryView {
    pub event_count: usize,
    pub min_magnitude: Option<DecimalView>,
    pub max_magnitude: Option<DecimalView>,
}

impl View for CatalogSummary {
    type V = CatalogSummaryView;

    open spec fn view(&self) -> CatalogSummaryView {
        CatalogSummaryView {
            event_count: self.event_count,
            min_magnitude: opt_dec_view(self.min_magnitude),
            max_magnitude: opt_dec_view(self.max_magnitude),
        }
    }
}

/// The resolvable preferred magnitude values of a catalog's events, in
/// document order, events without a magnitude left out; or the first
/// resolution failure in document order.
pub open spec fn spec_resolved_mags(events: Seq<EventView>) -> Result<
    Seq<DecimalView>,
    ResolutionErrorView,
>
    decreases events.len(),
{
    if events.len() == 0 {
        Ok(Seq::empty())
    } else {
        match spec_preferred_magnitude(events[0]) {
            Err(err) => Err(err),
            Ok(None) => spec_resolved_mags(events.drop_first()),
            Ok(Some(d)) => match spec_resolved_mags(events.drop_first()) {
                Err(err) => Err(err),
                Ok(rest) => Ok(seq![d] + rest),
            },
        }
    }
}

/// The running minimum of a left-to-right fold: the first value wins a tie.
pub open spec fn spec_min_fold(vals: Seq<DecimalView>) -> Option<DecimalView>
    decreases vals.len(),
{
    if vals.len() == 0 {
        None
    } else {
        match spec_min_fold(vals.drop_last()) {
            None => Some(vals.last()),
            Some(m) => Some(
                if dec_lt(vals.last(), m) {
                    vals.last()
                } else {
                    m
                },
            ),
        }
    }
}

/// The running maximum of a left-to-right fold: the first value wins a tie.
pub open spec fn spec_max_fold(vals: Seq<DecimalView>) -> Option<DecimalView>
    decreases vals.len(),
{
    if vals.len() == 0 {
        None
    } else {
        match spec_max_fold(vals.drop_last()) {
            None => Some(vals.last()),
            Some(m) => Some(
                if dec_lt(m, vals.last()) {
                    vals.last()
                } else {
                    m
                },
            ),
        }
    }
}

/// Prefix already resolved, glued to what remains.
pub open spec fn spec_combine_mags(pre: Seq<DecimalView>, r: Result<
    Seq<DecimalView>,
    ResolutionErrorView,
>) -> Result<Seq<DecimalView>, ResolutionErrorView> {
    match r {
        Ok(s) => Ok(pre + s),
        Err(err) => Err(err),
    }
}

proof fn lemma_resolved_err(
    evs: Seq<EventView>,
    i: int,
    pre: Seq<DecimalView>,
    err: ResolutionErrorView,
)
    requires
        0 <= i < evs.len(),
        spec_preferred_magnitude(evs[i]) == Err::<Option<DecimalView>, ResolutionErrorView>(err),
        spec_resolved_mags(evs) == spec_combine_mags(pre, spec_resolved_mags(evs.skip(i))),
    ensures
        spec_resolved_mags(evs) == Err::<Seq<DecimalView>, ResolutionErrorView>(err),
{
    let rest = evs.skip(i);
    assert(rest[0] == evs[i]);
}

proof fn lemma_resolved_none(evs: Seq<EventView>, i: int, pre: Seq<DecimalView>)
    requires
        0 <= i < evs.len(),
        spec_preferred_magnitude(evs[i]) == Ok::<Option<DecimalView>, ResolutionErrorView>(
            None::<DecimalView>,
        ),
        spec_resolved_mags(evs) == spec_combine_mags(pre, spec_resolved_mags(evs.skip(i))),
    ensures
        spec_resolved_mags(evs) == spec_combine_mags(pre, spec_resolved_mags(evs.skip(i + 1))),
{
    let rest = evs.skip(i);
    assert(rest[0] == evs[i]);
    assert(rest.drop_first() =~= evs.skip(i + 1));
}

proof fn lemma_resolved_some(evs: Seq<EventView>, i: int, pre: Seq<DecimalView>, d: DecimalView)
    requires
        0 <= i < evs.len(),
        spec_preferred_magnitude(evs[i]) == Ok::<Option<DecimalView>, ResolutionErrorView>(
            Some(d),
        ),
        spec_resolved_mags(evs) == spec_combine_mags(pre, spec_resolved_mags(evs.skip(i))),
    ensures
        spec_resolved_mags(evs) == spec_combine_mags(
            pre.push(d),
            spec_resolved_mags(evs.skip(i + 1)),
        ),
{
    let rest = evs.skip(i);
    assert(rest[0] == evs[i]);
    assert(rest.drop_first() =~= evs.skip(i + 1));
    match spec_resolved_mags(evs.skip(i + 1)) {
        Err(err) => {},
        Ok(r) => {
            assert(pre + (seq![d] + r) =~= pre.push(d) + r);
        },
    }
}

/// Summarize a catalog: every event counted, the minimum and maximum over
/// the resolvable preferred magnitudes, `None` for both when no event has
/// one; the first resolution failure in document order fails the summary.
pub fn summarize(c: &QuakeML) -> (r: Result<CatalogSummary, ResolutionError>)
    ensures
        match r {
            Ok(s) => {
                &&& spec_resolved_mags(c@.event_parameters.events) matches Ok(vals)
                    && s@.min_magnitude == spec_min_fold(vals) && s@.max_magnitude
                    == spec_max_fold(vals)
                &&& s@.event_count == c@.event_parameters.events.len()
            },
            Err(err) => spec_resolved_mags(c@.event_parameters.events) == Err::<
                Seq<DecimalView>,
                _,
            >(err@),
        },
{
    let events = &c.event_parameters.events;
    let ghost evs = c@.event_parameters.events;
    let mut min_magnitude: Option<Decimal> = None;
    let mut max_magnitude: Option<Decimal> = None;
    let ghost mut gvals: Seq<DecimalView> = Seq::empty();
    proof {
        assert(evs.skip(0) =~= evs);
        match spec_resolved_mags(evs) {
            Ok(s) => {
                assert(gvals + s =~= s);
            },
            Err(err) => {},
        }
    }
    let n = events.len();
    for i in 0..n
        invariant
            n == events.len(),
            evs.len() == n,
            evs == c@.event_parameters.events,
            forall|k: int| 0 <= k < n ==> evs[k] == events@[k]@,
            spec_resolved_mags(evs) == spec_combine_mags(
                gvals,
                spec_resolved_mags(evs.skip(i as int)),
            ),
            opt_dec_view(min_magnitude) == spec_min_fold(gvals),
            opt_dec_view(max_magnitude) == spec_max_fold(gvals),
    {
        match events[i].preferred_magnitude() {
            Err(err) => {
                proof {
                    lemma_resolved_err(evs, i as int, gvals, err@);
                }
                return Err(err);
            },
            Ok(None) => {
                proof {
                    lemma_resolved_none(evs, i as int, gvals);
                }
            },
            Ok(Some(d)) => {
                proof {
                    lemma_resolved_some(evs, i as int, gvals, d@);
                    assert(gvals.push(d@).drop_last() =~= gvals);
                }
                min_magnitude = match min_magnitude {
                    None => Some(d.dup()),
                    Some(m) => if d.lt(&m) {
                        Some(d.dup())
                    } else {
                        Some(m)
                    },
                };
                max_magnitude = match max_magnitude {
                    None => Some(d),
                    Some(m) => if m.lt(&d) {
                        Some(d)
                    } else {
                        Some(m)
                    },
                };
                proof {
                    gvals = gvals.push(d@);
                }
            },
        }
    }
    proof {
        assert(evs.skip(n as int) =~= Seq::<EventView>::empty());
        assert(gvals + Seq::<DecimalView>::empty() =~= gvals);
    }
    Ok(CatalogSummary { event_count: events.len(), min_magnitude, max_magnitude })
}

impl QuakeML {
    /// The minimum preferred magnitude of the catalog, `None` when no event
    /// has a resolvable magnitude.
    pub fn min_magnitude(&self) -> (r: Result<Option<Decimal>, ResolutionError>)
        ensures
            match r {
                Ok(v) => spec_resolved_mags(self@.event_parameters.events) matches Ok(vals)
                    && opt_dec_view(v) == spec_min_fold(vals),
                Err(err) => spec_resolved_mags(self@.event_parameters.events) == Err::<
                    Seq<DecimalView>,
                    _,
                >(err@),
            },
    {
        match summarize(self) {
            Ok(s) => Ok(s.min_magnitude),
            Err(err) => Err(err),
        }
    }

    /// The maximum preferred magnitude of the catalog, `None` when no event
    /// has a resolvable magnitude.
    pub fn max_magnitude(&self) -> (r: Result<Option<Decimal>, ResolutionError>)
        ensures
            match r {
                Ok(v) => spec_resolved_mags(self@.event_parameters.events) matches Ok(vals)
                    && opt_dec_view(v) == spec_max_fold(vals),
                Err(err) => spec_resolved_mags(self@.event_parameters.events) == Err::<
                    Seq<DecimalView>,
                    _,
                >(err@),
            },
    {
        match summarize(self) {
            Ok(s) => Ok(s.max_magnitude),
            Err(err) => Err(err),
        }
    }
}

/// The fold's minimum is a least element: on values in normal form it is
/// one of them and is at most each of them, and it is absent exactly when
/// there is no value.
pub proof fn lemma_min_fold_is_min(vals: Seq<DecimalView>)
    requires
        forall|i: int| 0 <= i < vals.len() ==> dec_wf(#[trigger] vals[i]),
    ensures
        spec_min_fold(vals) is None <==> vals.len() == 0,
        spec_min_fold(vals) matches Some(m) ==> vals.contains(m) && forall|i: int|
            0 <= i < vals.len() ==> dec_le(m, #[trigger] vals[i]),
    decreases vals.len(),
{
    if vals.len() > 0 {
        let prefix = vals.drop_last();
        assert(forall|i: int| 0 <= i < prefix.len() ==> prefix[i] == vals[i]);
        lemma_min_fold_is_min(prefix);
        let x = vals.last();
        match spec_min_fold(prefix) {
            None => {
                assert(vals.contains(x));
            },
            Some(m) => {
                assert(prefix.contains(m));
                let j = choose|j: int| 0 <= j < prefix.len() && prefix[j] == m;
                assert(vals[j] == m);
                assert(vals.contains(m));
                assert(vals.contains(x));
                let w = if dec_lt(x, m) {
                    x
                } else {
                    m
                };
                assert forall|i: int| 0 <= i < vals.len() implies dec_le(w, #[trigger] vals[i]) by {
                    lemma_dec_lt_trichotomy(x, m);
                    if i < prefix.len() {
                        assert(dec_le(m, vals[i]));
                        if dec_lt(x, m) {
                            if m == vals[i] {
                            } else {
                                lemma_dec_lt_trans(x, m, vals[i]);
                            }
                        }
                    }
                }
            },
        }
    }
}

/// The fold's maximum is a greatest element: on values in normal form it is
/// one of them and is at least each of them, and it is absent exactly when
/// there is no value.
pub proof fn lemma_max_fold_is_max(vals: Seq<DecimalView>)
    requires
        forall|i: int| 0 <= i < vals.len() ==> dec_wf(#[trigger] vals[i]),
    ensures
        spec_max_fold(vals) is None <==> vals.len() == 0,
        spec_max_fold(vals) matches Some(m) ==> vals.contains(m) && forall|i: int|
            0 <= i < vals.len() ==> dec_le(#[trigger] vals[i], m),
    decreases vals.len(),
{
    if vals.len() > 0 {
        let prefix = vals.drop_last();
        assert(forall|i: int| 0 <= i < prefix.len() ==> prefix[i] == vals[i]);
        lemma_max_fold_is_max(prefix);
        let x = vals.last();
        match spec_max_fold(prefix) {
            None => {
                assert(vals.contains(x));
            },
            Some(m) => {
                assert(prefix.contains(m));
                let j = choose|j: int| 0 <= j < prefix.len() && prefix[j] == m;
                assert(vals[j] == m);
                assert(vals.contains(m));
                assert(vals.contains(x));
                let w = if dec_lt(m, x) {
                    x
                } else {
                    m
                };
                assert forall|i: int| 0 <= i < vals.len() implies dec_le(#[trigger] vals[i], w) by {
                    lemma_dec_lt_trichotomy(m, x);
                    if i < prefix.len() {
                        assert(dec_le(vals[i], m));
                        if dec_lt(m, x) {
                            if vals[i] == m {
                            } else {
                                lemma_dec_lt_trans(vals[i], m, x);
                            }
                        }
                    }
                }
            },
        }
    }
}

/// When every event's preferred magnitude resolves, the summary's bounds
/// are ordered: the minimum is at most the maximum whenever both are
/// present, and with exactly one resolvable magnitude they coincide.
pub proof fn lemma_summary_bounds(vals: Seq<DecimalView>)
    requires
        forall|i: int| 0 <= i < vals.len() ==> dec_wf(#[trigger] vals[i]),
    ensures
        spec_min_fold(vals) matches Some(m) ==> (spec_max_fold(vals) matches Some(x) && dec_le(
            m,
            x,
        )),
        vals.len() == 1 ==> spec_min_fold(vals) == Some(vals[0]) && spec_max_fold(vals) == Some(
            vals[0],
        ),
{
    lemma_min_fold_is_min(vals);
    lemma_max_fold_is_max(vals);
    if spec_min_fold(vals) is Some {
        let m = spec_min_fold(vals)->Some_0;
        let x = spec_max_fold(vals)->Some_0;
        let j = choose|j: int| 0 <= j < vals.len() && vals[j] == x;
        assert(dec_le(m, vals[j]));
    }
    if vals.len() == 1 {
        assert(vals.drop_last() =~= Seq::<DecimalView>::empty());
    }
}

/// The values that a successful resolution pass draws from events with
/// magnitude values in normal form are themselves in normal form.
pub proof fn lemma_resolved_mags_wf(events: Seq<EventView>, vals: Seq<DecimalView>)
    requires
        crate::model::mags_wf(events),
        spec_resolved_mags(events) == Ok::<Seq<DecimalView>, ResolutionErrorView>(vals),
    ensures
        forall|k: int| 0 <= k < vals.len() ==> dec_wf(#[trigger] vals[k]),
    decreases events.len(),
{
    if events.len() > 0 {
        let e0 = events[0];
        let rest_events = events.drop_first();
        assert(crate::model::mags_wf(rest_events)) by {
            assert forall|i: int, j: int|
                0 <= i < rest_events.len() && 0 <= j
                    < rest_events[i].magnitudes.len() implies dec_wf(
                #[trigger] rest_events[i].magnitudes[j].mag.value,
            ) by {
                assert(rest_events[i] == events[i + 1]);
                assert(dec_wf(events[i + 1].magnitudes[j].mag.value));
            }
        }
        crate::resolve::lemma_preferred_magnitude_from_candidates(e0);
        match spec_preferred_magnitude(e0) {
            Err(err) => {},
            Ok(None) => {
                lemma_resolved_mags_wf(rest_events, vals);
            },
            Ok(Some(d)) => {
                assert(dec_wf(d)) by {
                    let j = choose|j: int|
                        0 <= j < e0.magnitudes.len() && d == #[trigger] e0.magnitudes[j].mag.value;
                    assert(dec_wf(events[0].magnitudes[j].mag.value));
                }
                match spec_resolved_mags(rest_events) {
                    Err(err) => {},
                    Ok(rest) => {
                        lemma_resolved_mags_wf(rest_events, rest);
                        assert forall|k: int| 0 <= k < vals.len() implies dec_wf(
                            #[trigger] vals[k],
                        ) by {
                            if k > 0 {
                                assert(vals[k] == rest[k - 1]);
                            }
                        }
                    },
                }
            },
        }
    }
}

/// The summary bounds of a decoded catalog: when a catalog decoded from a
/// document resolves every event's preferred magnitude, the summary's
/// minimum is at most its maximum whenever both are present, and with
/// exactly one resolvable magnitude the two coincide.
pub proof fn lemma_decoded_summary_bounds(
    text: Seq<char>,
    c: QuakeMLView,
    vals: Seq<DecimalView>,
)
    requires
        crate::decode::spec_decode_text(text) == Ok::<QuakeMLView, crate::errors::DecodeErrorView>(
            c,
        ),
        spec_resolved_mags(c.event_parameters.events) == Ok::<
            Seq<DecimalView>,
            ResolutionErrorView,
        >(vals),
    ensures
        spec_min_fold(vals) matches Some(m) ==> (spec_max_fold(vals) matches Some(x) && dec_le(
            m,
            x,
        )),
        vals.len() == 1 ==> spec_min_fold(vals) == Some(vals[0]) && spec_max_fold(vals) == Some(
            vals[0],
        ),
{
    crate::decode::lemma_decoded_mags_wf(text);
    lemma_resolved_mags_wf(c.event_parameters.events, vals);
    lemma_summary_bounds(vals);
}

} // verus!
