//! What the service answers to each request, and what it sends on.

use crate::amqp::{flight_plan_publication, tells_of, Publication};
use crate::cache::KeyedCache;
use crate::geo::{
    filter_waypoints, filter_zones, shown_waypoints, shown_zones, Coordinate, RestrictionDetails,
    Waypoint, Zone,
};
use crate::grpc::{
    FlightPlanRequest, FlightPlanResponse, FlightReleaseRequest, FlightReleaseResponse,
    ReadyRequest, ReadyResponse, RestrictionsRequest, RestrictionsResponse, WaypointsRequest,
    WaypointsResponse,
};
use crate::jobs::corridors::{waypoint_nodes, UpdateWaypointsRequest};
use crate::jobs::restrictions::{restriction_zones, UpdateZonesRequest};
use crate::region::{RegionError, RegionInterface};
use vstd::prelude::*;

verus! {

/// Results of updating restrictions.
#[derive(Clone, Copy, Debug, PartialEq, Eq, Structural)]
pub enum UpdateRestrictionsError {
    /// Restrictions were updated.
    Success,
    /// No restrictions were updated.
    NoRestrictions,
    /// The request to the geospatial service failed.
    RequestFailure,
}

/// Results of updating waypoints.
#[derive(Clone, Copy, Debug, PartialEq, Eq, Structural)]
pub enum UpdateWaypointsError {
    /// Waypoints were updated.
    Success,
    /// No waypoints were updated.
    NoWaypoints,
    /// The request to the geospatial service failed.
    RequestFailure,
}

/// Says what is sent to the geospatial service for the waypoints of a
/// cache: all of them; with none there is an error and nothing to send.
pub fn update_waypoints(waypoints: &KeyedCache<Coordinate>) -> (request: Result<
    UpdateWaypointsRequest,
    UpdateWaypointsError,
>)
    ensures
        waypoints@.len() == 0 <==> request is Err,
        request matches Err(e) ==> e == UpdateWaypointsError::NoWaypoints,
        request matches Ok(r) ==> r.waypoints.deep_view() == waypoints@,
{
    let nodes = waypoint_nodes(waypoints);
    if nodes.len() == 0 {
        return Err(UpdateWaypointsError::NoWaypoints);
    }
    Ok(UpdateWaypointsRequest { waypoints: nodes })
}

/// Says how the sending of waypoints ended, where `taken` says whether the
/// geospatial service took the request.
pub fn waypoints_sent(taken: bool) -> (result: Result<(), UpdateWaypointsError>)
    ensures
        taken <==> result is Ok,
        result matches Err(e) ==> e == UpdateWaypointsError::RequestFailure,
{
    if taken {
        Ok(())
    } else {
        Err(UpdateWaypointsError::RequestFailure)
    }
}

/// Says what is sent to the geospatial service for the restrictions of a
/// cache: all of them; with none there is an error and nothing to send.
pub fn update_restrictions(restrictions: &KeyedCache<RestrictionDetails>) -> (request: Result<
    UpdateZonesRequest,
    UpdateRestrictionsError,
>)
    ensures
        restrictions@.len() == 0 <==> request is Err,
        request matches Err(e) ==> e == UpdateRestrictionsError::NoRestrictions,
        request matches Ok(r) ==> r.zones.deep_view() == restrictions@,
{
    let zones = restriction_zones(restrictions);
    if zones.len() == 0 {
        return Err(UpdateRestrictionsError::NoRestrictions);
    }
    Ok(UpdateZonesRequest { zones })
}

/// Says how the sending of restrictions ended, where `taken` says whether
/// the geospatial service took the request.
pub fn restrictions_sent(taken: bool) -> (result: Result<(), UpdateRestrictionsError>)
    ensures
        taken <==> result is Ok,
        result matches Err(e) ==> e == UpdateRestrictionsError::RequestFailure,
{
    if taken {
        Ok(())
    } else {
        Err(UpdateRestrictionsError::RequestFailure)
    }
}

/// The answer to a flight plan request, with the message that goes to the
/// queue beside it.
#[derive(Debug)]
pub struct FlightPlanReply {
    /// What the caller is told.
    pub response: FlightPlanResponse,
    /// What is published, if anything. Whether publishing works has no
    /// bearing on `response`.
    pub telemetry: Option<Publication>,
}

/// Puts together the answer to `request` from what the authority said:
/// its error is passed on and nothing is published; its response is passed
/// on as it is, and where a queue is at hand (`publish`) the request is
/// published beside it.
pub fn flight_plan_reply(
    request: &FlightPlanRequest,
    submitted: Result<FlightPlanResponse, RegionError>,
    publish: bool,
) -> (reply: Result<FlightPlanReply, RegionError>)
    ensures
        reply_fits(*request, submitted, publish, reply),
{
    let response = match submitted {
        Ok(response) => response,
        Err(e) => {
            return Err(e);
        },
    };
    let telemetry = if publish {
        flight_plan_publication(request)
    } else {
        None
    };
    Ok(FlightPlanReply { response, telemetry })
}

/// The service: a regional authority, and a message queue or none.
pub struct ServerImpl<R: RegionInterface> {
    /// Set when a message queue is at hand.
    pub mq_channel: Option<()>,
    /// The regional authority.
    pub region: R,
}

impl<R: RegionInterface> ServerImpl<R> {
    /// Says that the service is ready.
    pub fn is_ready(&self, request: ReadyRequest) -> (response: ReadyResponse)
        ensures
            response.ready,
    {
        ReadyResponse { ready: true }
    }

    /// Takes a flight plan to the authority and says what it answered: the
    /// reply is made of an answer that the authority gives to this request.
    /// Where a queue is at hand, the request is published beside the
    /// answer.
    pub fn submit_flight_plan(&self, request: FlightPlanRequest) -> (reply: Result<
        FlightPlanReply,
        RegionError,
    >)
        ensures
            exists|submitted: Result<FlightPlanResponse, RegionError>| #[trigger]
                call_ensures(R::submit_flight_plan, (&self.region, request), submitted)
                    && reply_fits(request, submitted, self.mq_channel is Some, reply),
            reply matches Ok(r) ==> r.response.flight_plan_id@ == request.flight_plan_id@ && (
            self.mq_channel is Some <==> r.telemetry is Some) && (r.telemetry matches Some(m)
                ==> tells_of(m, request)),
    {
        let submitted = self.region.submit_flight_plan(request.clone());
        flight_plan_reply(&request, submitted, self.mq_channel.is_some())
    }

    /// Asks the authority to release a flight and hands on what it
    /// answered to this request.
    pub fn request_flight_release(&self, request: FlightReleaseRequest) -> (response: Result<
        FlightReleaseResponse,
        RegionError,
    >)
        ensures
            call_ensures(R::request_flight_release, (&self.region, request), response),
            response matches Ok(answer) ==> answer.flight_plan_id@ == request.flight_plan_id@,
    {
        self.region.request_flight_release(request)
    }

    /// Answers with the waypoints of a copy of the cache that lie inside
    /// the window of the request, in their order; with no window, with all.
    pub fn request_waypoints(
        &self,
        request: WaypointsRequest,
        snapshot: &Vec<Waypoint>,
    ) -> (response: WaypointsResponse)
        ensures
            response.waypoints.deep_view() == shown_waypoints(
                snapshot.deep_view(),
                request.filter,
            ),
            (request.filter matches Some(window) ==> window.min is None && window.max is None)
                ==> response.waypoints.deep_view() == snapshot.deep_view(),
    {
        WaypointsResponse { waypoints: filter_waypoints(snapshot, &request.filter) }
    }

    /// Answers with the restrictions of a copy of the cache that have a
    /// vertex inside the window of the request, in their order; with no
    /// window, with all.
    pub fn request_restrictions(
        &self,
        request: RestrictionsRequest,
        snapshot: &Vec<Zone>,
    ) -> (response: RestrictionsResponse)
        ensures
            response.restrictions.deep_view() == shown_zones(
                snapshot.deep_view(),
                request.filter,
            ),
            request.filter is None ==> response.restrictions.deep_view() == snapshot.deep_view(),
    {
        RestrictionsResponse { restrictions: filter_zones(snapshot, &request.filter) }
    }
}

/// Whether `reply` is the answer to `request` after the authority said
/// `submitted`: its error is passed on; its response is passed on as it is,
/// and beside it goes the message that tells the queue of the request where
/// a queue is at hand (`publish`), and nothing where none is.
pub open spec fn reply_fits(
    request: FlightPlanRequest,
    submitted: Result<FlightPlanResponse, RegionError>,
    publish: bool,
    reply: Result<FlightPlanReply, RegionError>,
) -> bool {
    match submitted {
        Err(e) => reply == Err::<FlightPlanReply, RegionError>(e),
        Ok(response) => reply matches Ok(r) && r.response == response && if publish {
            r.telemetry matches Some(m) && tells_of(m, request)
        } else {
            r.telemetry is None
        },
    }
}

} // verus!
