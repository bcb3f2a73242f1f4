//! `/actuator/health` responses: Spring Boot 3.x reports the parts under
//! `components`, 2.x under `details`.

use vstd::prelude::*;
use crate::model::{HealthInfo, HealthStatus};
use crate::text::{ascii_upper, is_ascii_text, str_eq, to_upper, uppercase};

verus! {

/// The status of one health component.
#[derive(Debug, Clone)]
pub struct ComponentHealth {
    pub status: String,
}

/// A decoded `/actuator/health` response. Each component name occurs once
/// in each list (see [`HealthResponse::well_formed`]).
#[derive(Debug, Clone)]
pub struct HealthResponse {
    pub status: String,
    pub components: Vec<(String, ComponentHealth)>,
    /// Spring Boot 2.x: the same shape under another key.
    pub details: Vec<(String, ComponentHealth)>,
}

/// The status named by a (case-insensitive) status text.
pub open spec fn status_of(s: Seq<char>) -> HealthStatus {
    status_named(uppercase(s))
}

/// The status named by an upper-case status text.
pub open spec fn status_named(u: Seq<char>) -> HealthStatus {
    if u == "UP"@ {
        HealthStatus::Up
    } else if u == "DOWN"@ {
        HealthStatus::Down
    } else if u == "OUT_OF_SERVICE"@ {
        HealthStatus::OutOfService
    } else {
        HealthStatus::Unknown
    }
}

/// The status named by a status text, compared in upper case.
pub fn parse_status(s: &str) -> (r: HealthStatus)
    ensures
        r == status_of(s@),
        is_ascii_text(s@) ==> r == status_named(ascii_upper(s@)),
{
    let u = to_upper(s);
    if str_eq(u.as_str(), "UP") {
        HealthStatus::Up
    } else if str_eq(u.as_str(), "DOWN") {
        HealthStatus::Down
    } else if str_eq(u.as_str(), "OUT_OF_SERVICE") {
        HealthStatus::OutOfService
    } else {
        HealthStatus::Unknown
    }
}

pub open spec fn component_statuses(v: Seq<(String, ComponentHealth)>) -> Seq<(Seq<char>, HealthStatus)> {
    v.map_values(|p: (String, ComponentHealth)| (p.0@, status_of(p.1.status@)))
}

pub open spec fn health_components(v: Seq<(String, HealthStatus)>) -> Seq<(Seq<char>, HealthStatus)> {
    v.map_values(|p: (String, HealthStatus)| (p.0@, p.1))
}

/// No name occurs twice among the pairs (the keys of a JSON object).
pub open spec fn names_unique<V>(v: Seq<(String, V)>) -> bool {
    forall|i: int, j: int| 0 <= i < j < v.len() ==> (#[trigger] v[i]).0@ != (#[trigger] v[j]).0@
}

impl HealthResponse {
    /// Each component name occurs once in each list, as in the JSON
    /// objects the response is read from.
    pub open spec fn well_formed(&self) -> bool {
        names_unique(self.components@) && names_unique(self.details@)
    }

    /// The overall status and each component's status, taken from
    /// `components`, or from `details` when `components` is empty.
    pub fn to_health_info(&self) -> (r: HealthInfo)
        requires
            self.well_formed(),
        ensures
            names_unique(r.components@),
            r.status == status_of(self.status@),
            health_components(r.components@) == component_statuses(
                if self.components@.len() > 0 {
                    self.components@
                } else {
                    self.details@
                },
            ),
    {
        let raw = if self.components.len() > 0 {
            &self.components
        } else {
            &self.details
        };
        let mut components: Vec<(String, HealthStatus)> = Vec::new();
        let mut i: usize = 0;
        while i < raw.len()
            invariant
                i <= raw@.len(),
                names_unique(raw@),
                health_components(components@) == component_statuses(raw@.take(i as int)),
            decreases raw@.len() - i,
        {
            let ghost before = components@;
            let (k, v) = &raw[i];
            components.push((k.clone(), parse_status(v.status.as_str())));
            proof {
                assert(health_components(components@) =~= health_components(before).push(
                    (k@, status_of(v.status@)),
                ));
                assert(raw@.take(i + 1) =~= raw@.take(i as int).push(raw@[i as int]));
                assert(component_statuses(raw@.take(i + 1)) =~= component_statuses(
                    raw@.take(i as int),
                ).push((k@, status_of(v.status@))));
            }
            i += 1;
        }
        assert(raw@.take(raw@.len() as int) =~= raw@);
        proof {
            assert forall|i: int, j: int| 0 <= i < j < components@.len() implies (
            #[trigger] components@[i]).0@ != (#[trigger] components@[j]).0@ by {
                assert(health_components(components@)[i] == component_statuses(raw@)[i]);
                assert(health_components(components@)[j] == component_statuses(raw@)[j]);
            }
        }
        HealthInfo { status: parse_status(self.status.as_str()), components }
    }
}

} // verus!
