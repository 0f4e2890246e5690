//! Brings the waypoints of the regional authority to the geospatial
//! service.

use crate::cache::KeyedCache;
use crate::geo::{Coordinate, Waypoint};
use crate::region::RegionInterface;
use vstd::prelude::*;

verus! {

/// Results of updating waypoints.
#[derive(Clone, Copy, Debug, PartialEq, Eq, Structural)]
pub enum UpdateWaypointsStatus {
    /// Waypoints were updated.
    Success,
    /// No waypoints were updated.
    NoWaypoints,
    /// The request to the geospatial service failed.
    RequestFailure,
}

/// What is sent to the geospatial service to update its waypoints.
#[derive(Debug)]
pub struct UpdateWaypointsRequest {
    /// The waypoints.
    pub waypoints: Vec<Waypoint>,
}

/// Lists the waypoints of a cache, each with its key, in the order of the
/// cache.
pub fn waypoint_nodes(waypoints: &KeyedCache<Coordinate>) -> (nodes: Vec<Waypoint>)
    ensures
        nodes.deep_view() == waypoints@,
{
    let mut nodes: Vec<Waypoint> = Vec::new();
    let mut i: usize = 0;
    assert(nodes.deep_view() =~= waypoints@.take(0));
    while i < waypoints.len()
        invariant
            0 <= i <= waypoints@.len(),
            nodes.deep_view() == waypoints@.take(i as int),
        decreases waypoints@.len() - i,
    {
        let ghost before = nodes.deep_view();
        nodes.push(
            Waypoint { identifier: waypoints.key(i).clone(), location: *waypoints.value(i) },
        );
        assert(nodes.deep_view() =~= before.push(waypoints@[i as int]));
        assert(waypoints@.take(i + 1) =~= before.push(waypoints@[i as int]));
        i += 1;
    }
    assert(waypoints@.take(i as int) =~= waypoints@);
    nodes
}

/// Says what is sent to the geospatial service for the waypoints of a
/// cache: all of them, or nothing at all when there are none.
pub fn gis_update_waypoints(waypoints: &KeyedCache<Coordinate>) -> (request: Option<
    UpdateWaypointsRequest,
>)
    ensures
        request is None <==> waypoints@.len() == 0,
        request matches Some(r) ==> r.waypoints.deep_view() == waypoints@,
{
    let nodes = waypoint_nodes(waypoints);
    if nodes.len() == 0 {
        return None;
    }
    Some(UpdateWaypointsRequest { waypoints: nodes })
}

/// Says how an update went: `sent` is `None` when nothing was to be sent,
/// and otherwise says whether the geospatial service took the request.
pub fn update_waypoints_status(sent: Option<bool>) -> (status: UpdateWaypointsStatus)
    ensures
        sent is None <==> status == UpdateWaypointsStatus::NoWaypoints,
        sent == Some(true) <==> status == UpdateWaypointsStatus::Success,
        sent == Some(false) <==> status == UpdateWaypointsStatus::RequestFailure,
{
    match sent {
        None => UpdateWaypointsStatus::NoWaypoints,
        Some(true) => UpdateWaypointsStatus::Success,
        Some(false) => UpdateWaypointsStatus::RequestFailure,
    }
}

/// Takes in what was fetched from the authority: the cache is replaced by
/// it as a whole, also when nothing was fetched, and the fetched waypoints
/// are to be sent on unless there are none.
pub fn sync_waypoints(
    cache: &mut KeyedCache<Coordinate>,
    fetched: KeyedCache<Coordinate>,
) -> (request: Option<UpdateWaypointsRequest>)
    requires
        fetched.wf(),
    ensures
        final(cache).wf(),
        final(cache)@ == fetched@,
        request is None <==> fetched@.len() == 0,
        request matches Some(r) ==> r.waypoints.deep_view() == fetched@,
{
    *cache = fetched;
    gis_update_waypoints(cache)
}

/// Fetches the waypoints of the authority: it is asked with nothing in
/// hand, so that what comes back is its current answer as a whole.
pub fn fetch_waypoints<R: RegionInterface>(region: &R) -> (fetched: KeyedCache<Coordinate>)
    ensures
        fetched.wf(),
        exists|slot: &mut KeyedCache<Coordinate>|
            slot@ == Seq::<(Seq<char>, Coordinate)>::empty() && #[trigger] call_ensures(
                R::acquire_waypoints,
                (region, slot),
                (),
            ) && final(slot)@ == fetched@,
{
    let mut fetched: KeyedCache<Coordinate> = KeyedCache::new();
    region.acquire_waypoints(&mut fetched);
    fetched
}

/// One round of the waypoint loop up to the sending: fetches the waypoints
/// from the authority, with nothing in hand, replaces the cache by what the
/// authority left and says what is to be sent to the geospatial service, if
/// anything.
pub fn refresh_waypoints<R: RegionInterface>(
    region: &R,
    cache: &mut KeyedCache<Coordinate>,
) -> (request: Option<UpdateWaypointsRequest>)
    ensures
        final(cache).wf(),
        exists|slot: &mut KeyedCache<Coordinate>|
            slot@ == Seq::<(Seq<char>, Coordinate)>::empty() && #[trigger] call_ensures(
                R::acquire_waypoints,
                (region, slot),
                (),
            ) && final(slot)@ == final(cache)@,
        request is None <==> final(cache)@.len() == 0,
        request matches Some(r) ==> r.waypoints.deep_view() == final(cache)@,
{
    let fetched = fetch_waypoints(region);
    sync_waypoints(cache, fetched)
}

} // verus!
