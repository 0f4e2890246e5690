//! The requests and responses of the compliance service.

pub mod server;

use crate::geo::{CoordinateFilter, Waypoint, Zone};
use vstd::prelude::*;

verus! {

/// Asks the authority to take note of a flight plan.
#[derive(Debug)]
pub struct FlightPlanRequest {
    /// The key of the flight plan.
    pub flight_plan_id: String,
    /// The flight plan as JSON text.
    pub data: String,
}

impl Clone for FlightPlanRequest {
    fn clone(&self) -> (copy: Self)
        ensures
            copy == *self,
    {
        FlightPlanRequest { flight_plan_id: self.flight_plan_id.clone(), data: self.data.clone() }
    }
}

/// The authority's answer to a [`FlightPlanRequest`].
#[derive(Debug)]
pub struct FlightPlanResponse {
    /// The key of the flight plan.
    pub flight_plan_id: String,
    /// Whether the plan was submitted.
    pub submitted: bool,
    /// A warning or an error message, if there is one.
    pub result: Option<String>,
}

/// Asks the authority to release a flight.
#[derive(Debug)]
pub struct FlightReleaseRequest {
    /// The key of the flight plan.
    pub flight_plan_id: String,
    /// The flight plan as JSON text.
    pub data: String,
}

/// The authority's answer to a [`FlightReleaseRequest`].
#[derive(Debug)]
pub struct FlightReleaseResponse {
    /// The key of the flight plan.
    pub flight_plan_id: String,
    /// Whether the flight was released.
    pub released: bool,
    /// A warning or an error message, if there is one.
    pub result: Option<String>,
}

/// Asks whether the service is up.
#[derive(Clone, Copy, Debug, PartialEq, Eq, Structural)]
pub struct ReadyRequest {}

/// Says whether the service is up.
#[derive(Clone, Copy, Debug, PartialEq, Eq, Structural)]
pub struct ReadyResponse {
    /// True when the service takes requests.
    pub ready: bool,
}

/// Asks for the waypoints inside a window.
#[derive(Clone, Copy, Debug, PartialEq, Eq, Structural)]
pub struct WaypointsRequest {
    /// The window; all waypoints when there is none.
    pub filter: Option<CoordinateFilter>,
}

/// The waypoints that were asked for.
#[derive(Debug)]
pub struct WaypointsResponse {
    /// The waypoints.
    pub waypoints: Vec<Waypoint>,
}

/// Asks for the restrictions that reach into a window.
#[derive(Clone, Copy, Debug, PartialEq, Eq, Structural)]
pub struct RestrictionsRequest {
    /// The window; all restrictions when there is none.
    pub filter: Option<CoordinateFilter>,
}

/// The restrictions that were asked for.
#[derive(Debug)]
pub struct RestrictionsResponse {
    /// The restrictions.
    pub restrictions: Vec<Zone>,
}

} // verus!
