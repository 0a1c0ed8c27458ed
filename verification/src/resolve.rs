//! Preferred-entity resolution.
//!
//! Per event, picks which of the candidate origins and magnitudes is the
//! preferred one. A single candidate is trivially preferred; among several,
//! the event's declared preferred reference decides, and resolution fails
//! when the reference is unset or matches no candidate. Resolution is a pure
//! function of the event's fields.

use vstd::prelude::*;
use vstd::string::StringExecFns;

use crate::decimal::{Decimal, DecimalView};
use crate::errors::{ResolutionError, ResolutionErrorView};
use crate::model::{Event, EventView, MagnitudeView, Origin, OriginView};

verus! {

/// Model of a `Result` whose sides both have models.
pub open spec fn res_view<A: View, B: View>(r: Result<A, B>) -> Result<A::V, B::V> {
    match r {
        Ok(a) => Ok(a@),
        Err(b) => Err(b@),
    }
}

/// Index of the first origin whose public id equals `id`, in document order.
pub open spec fn spec_find_origin(s: Seq<OriginView>, id: Seq<char>) -> Option<int>
    decreases s.len(),
{
    if s.len() == 0 {
        None
    } else if s[0].public_id == id {
        Some(0)
    } else {
        match spec_find_origin(s.drop_first(), id) {
            Some(i) => Some(i + 1),
            None => None,
        }
    }
}

/// Index of the first magnitude whose public id equals `id`, in document order.
pub open spec fn spec_find_magnitude(s: Seq<MagnitudeView>, id: Seq<char>) -> Option<int>
    decreases s.len(),
{
    if s.len() == 0 {
        None
    } else if s[0].public_id == id {
        Some(0)
    } else {
        match spec_find_magnitude(s.drop_first(), id) {
            Some(i) => Some(i + 1),
            None => None,
        }
    }
}

/// The preferred origin of an event: the sole origin when there is exactly
/// one; otherwise the first origin matching the declared preferred-origin
/// reference, failing when the reference is unset or dangling.
pub open spec fn spec_preferred_origin(e: EventView) -> Result<OriginView, ResolutionErrorView> {
    if e.origins.len() == 1 {
        Ok(e.origins[0])
    } else {
        match e.preferred_origin_id {
            None => Err(ResolutionErrorView::NoPreferenceDeclared { entity: "Origin"@ }),
            Some(id) => match spec_find_origin(e.origins, id) {
                Some(i) => Ok(e.origins[i]),
                None => Err(
                    ResolutionErrorView::DanglingReference { entity: "Origin"@, reference: id },
                ),
            },
        }
    }
}

/// The preferred magnitude value of an event: `None` when it has no
/// magnitude, the sole value when it has exactly one; otherwise the value of
/// the first magnitude matching the declared preferred-magnitude reference,
/// failing when the reference is unset or dangling.
pub open spec fn spec_preferred_magnitude(e: EventView) -> Result<
    Option<DecimalView>,
    ResolutionErrorView,
> {
    if e.magnitudes.len() == 0 {
        Ok(None)
    } else if e.magnitudes.len() == 1 {
        Ok(Some(e.magnitudes[0].mag.value))
    } else {
        match e.preferred_magnitude_id {
            None => Err(ResolutionErrorView::NoPreferenceDeclared { entity: "Magnitude"@ }),
            Some(id) => match spec_find_magnitude(e.magnitudes, id) {
                Some(i) => Ok(Some(e.magnitudes[i].mag.value)),
                None => Err(
                    ResolutionErrorView::DanglingReference { entity: "Magnitude"@, reference: id },
                ),
            },
        }
    }
}

proof fn lemma_find_origin_at(s: Seq<OriginView>, id: Seq<char>, i: int)
    requires
        0 <= i <= s.len(),
        forall|j: int| 0 <= j < i ==> s[j].public_id != id,
        i < s.len() ==> s[i].public_id == id,
    ensures
        i < s.len() ==> spec_find_origin(s, id) == Some(i),
        i == s.len() ==> spec_find_origin(s, id) is None,
    decreases i,
{
    if s.len() == 0 {
    } else if i == 0 {
    } else {
        let s1 = s.drop_first();
        assert forall|j: int| 0 <= j < i - 1 implies s1[j].public_id != id by {
            assert(s1[j] == s[j + 1]);
        }
        if i - 1 < s1.len() {
            assert(s1[i - 1] == s[i]);
        }
        lemma_find_origin_at(s1, id, i - 1);
    }
}

proof fn lemma_find_magnitude_at(s: Seq<MagnitudeView>, id: Seq<char>, i: int)
    requires
        0 <= i <= s.len(),
        forall|j: int| 0 <= j < i ==> s[j].public_id != id,
        i < s.len() ==> s[i].public_id == id,
    ensures
        i < s.len() ==> spec_find_magnitude(s, id) == Some(i),
        i == s.len() ==> spec_find_magnitude(s, id) is None,
    decreases i,
{
    if s.len() == 0 {
    } else if i == 0 {
    } else {
        let s1 = s.drop_first();
        assert forall|j: int| 0 <= j < i - 1 implies s1[j].public_id != id by {
            assert(s1[j] == s[j + 1]);
        }
        if i - 1 < s1.len() {
            assert(s1[i - 1] == s[i]);
        }
        lemma_find_magnitude_at(s1, id, i - 1);
    }
}

impl Event {
    /// The preferred origin of this event, or why none can be resolved.
    pub fn preferred_origin(&self) -> (r: Result<&Origin, ResolutionError>)
        ensures
            res_view(r) == spec_preferred_origin(self@),
    {
        if self.origins.len() == 1 {
            return Ok(&self.origins[0]);
        }
        match &self.preferred_origin_id {
            None => Err(
                ResolutionError::NoPreferenceDeclared { entity: String::from_str("Origin") },
            ),
            Some(id) => {
                let n = self.origins.len();
                for i in 0..n
                    invariant
                        n == self.origins.len(),
                        self@.origins.len() == n,
                        forall|k: int| 0 <= k < n ==> self@.origins[k] == self.origins@[k]@,
                        self.preferred_origin_id matches Some(p) && p@ == id@,
                        self@.preferred_origin_id == Some(id@),
                        forall|j: int| 0 <= j < i ==> self@.origins[j].public_id != id@,
                {
                    if self.origins[i].public_id == *id {
                        proof {
                            lemma_find_origin_at(self@.origins, id@, i as int);
                        }
                        return Ok(&self.origins[i]);
                    }
                }
                proof {
                    lemma_find_origin_at(self@.origins, id@, n as int);
                }
                Err(
                    ResolutionError::DanglingReference {
                        entity: String::from_str("Origin"),
                        reference: id.clone(),
                    },
                )
            },
        }
    }

    /// The preferred magnitude value of this event, `None` when it has no
    /// magnitude, or why none can be resolved.
    pub fn preferred_magnitude(&self) -> (r: Result<Option<Decimal>, ResolutionError>)
        ensures
            match r {
                Ok(Some(d)) => spec_preferred_magnitude(self@) == Ok::<_, ResolutionErrorView>(
                    Some(d@),
                ),
                Ok(None) => spec_preferred_magnitude(self@) == Ok::<_, ResolutionErrorView>(
                    None::<DecimalView>,
                ),
                Err(e) => spec_preferred_magnitude(self@) == Err::<Option<DecimalView>, _>(e@),
            },
    {
        if self.magnitudes.len() == 0 {
            return Ok(None);
        }
        if self.magnitudes.len() == 1 {
            return Ok(Some(self.magnitudes[0].mag.value.dup()));
        }
        match &self.preferred_magnitude_id {
            None => Err(
                ResolutionError::NoPreferenceDeclared { entity: String::from_str("Magnitude") },
            ),
            Some(id) => {
                let n = self.magnitudes.len();
                for i in 0..n
                    invariant
                        n == self.magnitudes.len(),
                        self@.magnitudes.len() == n,
                        forall|k: int| 0 <= k < n ==> self@.magnitudes[k] == self.magnitudes@[k]@,
                        self.preferred_magnitude_id matches Some(p) && p@ == id@,
                        self@.preferred_magnitude_id == Some(id@),
                        forall|j: int| 0 <= j < i ==> self@.magnitudes[j].public_id != id@,
                {
                    if self.magnitudes[i].public_id == *id {
                        proof {
                            lemma_find_magnitude_at(self@.magnitudes, id@, i as int);
                        }
                        return Ok(Some(self.magnitudes[i].mag.value.dup()));
                    }
                }
                proof {
                    lemma_find_magnitude_at(self@.magnitudes, id@, n as int);
                }
                Err(
                    ResolutionError::DanglingReference {
                        entity: String::from_str("Magnitude"),
                        reference: id.clone(),
                    },
                )
            },
        }
    }
}

proof fn lemma_find_magnitude_in_range(s: Seq<MagnitudeView>, id: Seq<char>)
    ensures
        spec_find_magnitude(s, id) matches Some(i) ==> 0 <= i < s.len(),
    decreases s.len(),
{
    if s.len() > 0 && s[0].public_id != id {
        lemma_find_magnitude_in_range(s.drop_first(), id);
    }
}

/// A resolved preferred magnitude value is one of the event's own
/// candidates' values.
pub proof fn lemma_preferred_magnitude_from_candidates(e: EventView)
    ensures
        spec_preferred_magnitude(e) matches Ok(Some(d)) ==> exists|j: int|
            0 <= j < e.magnitudes.len() && d == #[trigger] e.magnitudes[j].mag.value,
{
    if e.magnitudes.len() == 1 {
        assert(e.magnitudes[0].mag.value == e.magnitudes[0].mag.value);
    } else if e.magnitudes.len() > 1 {
        match e.preferred_magnitude_id {
            None => {},
            Some(id) => {
                lemma_find_magnitude_in_range(e.magnitudes, id);
                match spec_find_magnitude(e.magnitudes, id) {
                    None => {},
                    Some(i) => {
                        assert(e.magnitudes[i].mag.value == e.magnitudes[i].mag.value);
                    },
                }
            },
        }
    }
}

/// An event with exactly one origin resolves to that origin, whatever its
/// preferred-origin reference holds — set, unset or dangling.
pub proof fn lemma_single_origin_preferred(e: EventView)
    requires
        e.origins.len() == 1,
    ensures
        spec_preferred_origin(e) == Ok::<OriginView, ResolutionErrorView>(e.origins[0]),
{
}

/// An event with two or more origins whose preferred-origin reference
/// matches exactly one origin's public id resolves to that origin.
pub proof fn lemma_unique_match_preferred(e: EventView, id: Seq<char>, i: int)
    requires
        e.origins.len() >= 2,
        e.preferred_origin_id == Some(id),
        0 <= i < e.origins.len(),
        e.origins[i].public_id == id,
        forall|j: int| 0 <= j < e.origins.len() && j != i ==> e.origins[j].public_id != id,
    ensures
        spec_preferred_origin(e) == Ok::<OriginView, ResolutionErrorView>(e.origins[i]),
{
    lemma_find_origin_at(e.origins, id, i);
}

/// An event with two or more origins and no preferred-origin reference
/// fails to resolve, with `NoPreferenceDeclared`.
pub proof fn lemma_no_preference_fails(e: EventView)
    requires
        e.origins.len() >= 2,
        e.preferred_origin_id is None,
    ensures
        spec_preferred_origin(e) == Err::<OriginView, ResolutionErrorView>(
            ResolutionErrorView::NoPreferenceDeclared { entity: "Origin"@ },
        ),
{
}

/// An event with no magnitude at all has no preferred magnitude: the result
/// is `None`, never an error.
pub proof fn lemma_no_magnitude_is_none(e: EventView)
    requires
        e.magnitudes.len() == 0,
    ensures
        spec_preferred_magnitude(e) == Ok::<Option<DecimalView>, ResolutionErrorView>(
            None::<DecimalView>,
        ),
{
}

} // verus!
