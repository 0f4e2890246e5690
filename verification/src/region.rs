//! Regional authorities: the interface that the service talks to, and the
//! authority that is picked by its short code.

pub mod nl;
pub mod us;
pub mod utils;

use crate::cache::KeyedCache;
use crate::geo::{Coordinate, RestrictionDetails};
use crate::grpc::{
    FlightPlanRequest, FlightPlanResponse, FlightReleaseRequest, FlightReleaseResponse,
};
use crate::region::nl::NLImpl;
use crate::region::us::USImpl;
use crate::time::Timestamp;
use vstd::prelude::*;

verus! {

/// How far a request has come with the authority.
#[derive(Clone, Copy, Debug, PartialEq, Eq, Structural)]
pub enum RequestStatus {
    /// No decision yet.
    Pending,
    /// The authority allowed it.
    Approved,
    /// The authority refused it.
    Denied,
}

/// The authority's word on one request, and when it was given.
#[derive(Clone, Copy, Debug, PartialEq, Eq, Structural)]
pub struct StatusResponse {
    /// The state of the request.
    pub status: RequestStatus,
    /// The time of the decision, or of the answer while none is made.
    pub timestamp: Timestamp,
}

/// Why a call to the authority failed.
#[derive(Clone, Copy, Debug, PartialEq, Eq, Structural)]
pub enum RegionError {
    /// The authority could not be reached.
    Unavailable,
    /// The authority turned the request down.
    Rejected,
}

/// Interface to regional authorities.
pub trait RegionInterface {
    /// The short code of the region.
    fn get_region(&self) -> (code: &str);

    /// Submits a new flight plan to the authority. An answer is about the
    /// flight plan that was submitted.
    fn submit_flight_plan(&self, request: FlightPlanRequest) -> (response: Result<
        FlightPlanResponse,
        RegionError,
    >)
        ensures
            response matches Ok(answer) ==> answer.flight_plan_id@ == request.flight_plan_id@,
    ;

    /// Asks the authority to release a flight. An answer is about the flight
    /// plan that was named.
    fn request_flight_release(&self, request: FlightReleaseRequest) -> (response: Result<
        FlightReleaseResponse,
        RegionError,
    >)
        ensures
            response matches Ok(answer) ==> answer.flight_plan_id@ == request.flight_plan_id@,
    ;

    /// Asks how far the approval of a flight plan has come.
    fn get_flight_plan_status(&self, flight_plan_id: &String) -> (response: Result<
        StatusResponse,
        RegionError,
    >);

    /// Asks how far the release of a flight has come.
    fn get_flight_release_status(&self, flight_plan_id: &String) -> (response: Result<
        StatusResponse,
        RegionError,
    >);

    /// Replaces `restrictions` by the authority's current restrictions.
    fn acquire_restrictions(&self, restrictions: &mut KeyedCache<RestrictionDetails>)
        ensures
            final(restrictions).wf(),
    ;

    /// Replaces `waypoints` by the authority's current waypoints.
    fn acquire_waypoints(&self, waypoints: &mut KeyedCache<Coordinate>)
        ensures
            final(waypoints).wf(),
    ;
}

/// The answer of an authority that takes every flight plan.
pub fn accept_flight_plan(request: FlightPlanRequest) -> (response: FlightPlanResponse)
    ensures
        response.flight_plan_id@ == request.flight_plan_id@,
        response.submitted,
        response.result is None,
{
    FlightPlanResponse { flight_plan_id: request.flight_plan_id, submitted: true, result: None }
}

/// The answer of an authority that releases every flight.
pub fn accept_flight_release(request: FlightReleaseRequest) -> (response: FlightReleaseResponse)
    ensures
        response.flight_plan_id@ == request.flight_plan_id@,
        response.released,
        response.result is None,
{
    FlightReleaseResponse { flight_plan_id: request.flight_plan_id, released: true, result: None }
}

/// The authority of the region named by `region`: the United States for the
/// code `us`, the Netherlands for every other code.
#[derive(Debug)]
pub struct RegionImpl {
    /// The short code of the region.
    pub region: String,
}

impl RegionImpl {
    /// Whether this is the authority of the United States.
    pub open spec fn is_us(&self) -> bool {
        self.region@ == "us"@
    }

    /// The authority of the United States.
    pub fn us() -> (region: Self)
        ensures
            region.region@ == "us"@,
    {
        RegionImpl { region: "us".to_string() }
    }

    /// The authority of the Netherlands.
    pub fn nl() -> (region: Self)
        ensures
            region.region@ == "nl"@,
    {
        RegionImpl { region: "nl".to_string() }
    }

    /// Tests whether this is the authority of the United States.
    pub fn serves_us(&self) -> (us: bool)
        ensures
            us == self.is_us(),
    {
        let code = "us".to_string();
        self.region == code
    }
}

impl Clone for RegionImpl {
    fn clone(&self) -> (copy: Self)
        ensures
            copy.region@ == self.region@,
    {
        RegionImpl { region: self.region.clone() }
    }
}

impl Default for RegionImpl {
    fn default() -> (region: Self)
        ensures
            region.region@ == "nl"@,
    {
        RegionImpl::nl()
    }
}

impl RegionInterface for RegionImpl {
    fn get_region(&self) -> (code: &str)
        ensures
            code@ == self.region@,
    {
        self.region.as_str()
    }

    fn submit_flight_plan(&self, request: FlightPlanRequest) -> (response: Result<
        FlightPlanResponse,
        RegionError,
    >)
        ensures
            response matches Ok(answer) && answer.flight_plan_id@ == request.flight_plan_id@
                && answer.submitted && answer.result is None,
    {
        if self.serves_us() {
            (USImpl {  }).submit_flight_plan(request)
        } else {
            (NLImpl {  }).submit_flight_plan(request)
        }
    }

    fn request_flight_release(&self, request: FlightReleaseRequest) -> (response: Result<
        FlightReleaseResponse,
        RegionError,
    >)
        ensures
            response matches Ok(answer) && answer.flight_plan_id@ == request.flight_plan_id@
                && answer.released && answer.result is None,
    {
        if self.serves_us() {
            (USImpl {  }).request_flight_release(request)
        } else {
            (NLImpl {  }).request_flight_release(request)
        }
    }

    fn get_flight_plan_status(&self, flight_plan_id: &String) -> (response: Result<
        StatusResponse,
        RegionError,
    >)
        ensures
            response matches Ok(answer) && answer.status == RequestStatus::Approved,
    {
        if self.serves_us() {
            (USImpl {  }).get_flight_plan_status(flight_plan_id)
        } else {
            (NLImpl {  }).get_flight_plan_status(flight_plan_id)
        }
    }

    fn get_flight_release_status(&self, flight_plan_id: &String) -> (response: Result<
        StatusResponse,
        RegionError,
    >)
        ensures
            response matches Ok(answer) && answer.status == RequestStatus::Approved,
    {
        if self.serves_us() {
            (USImpl {  }).get_flight_release_status(flight_plan_id)
        } else {
            (NLImpl {  }).get_flight_release_status(flight_plan_id)
        }
    }

    fn acquire_restrictions(&self, restrictions: &mut KeyedCache<RestrictionDetails>)
        ensures
            self.is_us() ==> exists|now: Timestamp|
                final(restrictions)@ == us::us_restrictions(now),
            !self.is_us() ==> final(restrictions)@ == nl::nl_restrictions(),
    {
        if self.serves_us() {
            (USImpl {  }).acquire_restrictions(restrictions)
        } else {
            (NLImpl {  }).acquire_restrictions(restrictions)
        }
    }

    fn acquire_waypoints(&self, waypoints: &mut KeyedCache<Coordinate>)
        ensures
            self.is_us() ==> final(waypoints)@ == us::us_waypoints(),
            !self.is_us() ==> final(waypoints)@ == nl::nl_waypoints(),
    {
        if self.serves_us() {
            (USImpl {  }).acquire_waypoints(waypoints)
        } else {
            (NLImpl {  }).acquire_waypoints(waypoints)
        }
    }
}

} // verus!
