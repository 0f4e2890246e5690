//! The regional authority of the United States (US).

use crate::cache::{lemma_upsert_next, KeyedCache};
use crate::geo::{Coordinate, RestrictionDetails, RestrictionModel, ZoneType};
use crate::grpc::{
    FlightPlanRequest, FlightPlanResponse, FlightReleaseRequest, FlightReleaseResponse,
};
use crate::region::utils::{
    numbered_cache, numbered_points, polygon, polygon_of,
};
use crate::region::{
    accept_flight_plan, accept_flight_release, RegionError, RegionInterface, RequestStatus,
    StatusResponse,
};
use crate::time::{utc_now, Timestamp};
use vstd::prelude::*;

verus! {

/// The boundary of the temporary flight restriction, as latitude and longitude.
pub const US_TFR_ZONE: [(i64, i64); 5] = [
    (309_310_000, -1_040_424_000),
    (309_316_000, -1_040_399_000),
    (309_301_000, -1_040_390_000),
    (309_299_000, -1_040_405_000),
    (309_310_000, -1_040_424_000),
];

/// The boundary of the standing restriction, as latitude and longitude.
pub const US_NOFLY_ZONE: [(i64, i64); 9] = [
    (309_321_000, -1_040_471_000),
    (309_313_000, -1_040_428_000),
    (309_316_000, -1_040_420_000),
    (309_332_000, -1_040_399_000),
    (309_319_000, -1_040_398_000),
    (309_326_000, -1_040_374_000),
    (309_352_000, -1_040_394_000),
    (309_341_000, -1_040_465_000),
    (309_321_000, -1_040_471_000),
];

/// The waypoints, as latitude and longitude.
pub const US_WAYPOINTS: [(i64, i64); 2] = [
    (-1_040_428_000, 309_311_000),
    (-1_040_412_000, 309_308_000),
];

/// How long the temporary flight restriction lasts, in seconds.
pub const US_TFR_SECONDS: u32 = 3600;

/// Processes for submission to the US authorities.
#[derive(Debug, Clone, Copy)]
pub struct USImpl {}

/// The restrictions of the region as they stand at `now`: a temporary one
/// that starts at `now` and lasts an hour, and a standing one.
pub open spec fn us_restrictions(now: Timestamp) -> Seq<(Seq<char>, RestrictionModel)> {
    seq![
        (
            "ARROW-USA-TFR-ZONE"@,
            RestrictionModel {
                vertices: polygon(US_TFR_ZONE@),
                timestamp_start: Some(now),
                timestamp_end: Some(now.later_by(US_TFR_SECONDS)),
                zone_type: ZoneType::Restriction,
                altitude_meters_max: 2000,
                altitude_meters_min: 0,
            },
        ),
        (
            "ARROW-USA-NOFLY-ZONE"@,
            RestrictionModel {
                vertices: polygon(US_NOFLY_ZONE@),
                timestamp_start: None,
                timestamp_end: None,
                zone_type: ZoneType::Restriction,
                altitude_meters_max: 200,
                altitude_meters_min: 0,
            },
        ),
    ]
}

/// The waypoints of the region, numbered from zero.
pub open spec fn us_waypoints() -> Seq<(Seq<char>, Coordinate)> {
    numbered_points("ARROW-WEG-"@, US_WAYPOINTS@)
}

/// The two restrictions of the region go by different names.
pub proof fn lemma_us_restrictions_distinct(now: Timestamp)
    ensures
        crate::cache::distinct_keys(us_restrictions(now)),
{
    reveal_strlit("ARROW-USA-TFR-ZONE");
    reveal_strlit("ARROW-USA-NOFLY-ZONE");
    let all = us_restrictions(now);
    assert(all[0].0[10] == 'T');
    assert(all[1].0[10] == 'N');
}

/// Builds the restrictions of the region as they stand at `now`.
pub fn restrictions_at(now: Timestamp) -> (cache: KeyedCache<RestrictionDetails>)
    ensures
        cache.wf(),
        cache@ == us_restrictions(now),
{
    let ghost all = us_restrictions(now);
    let mut cache: KeyedCache<RestrictionDetails> = KeyedCache::new();
    assert(cache@ =~= all.take(0));
    proof {
        lemma_us_restrictions_distinct(now);
        lemma_upsert_next(all, 0);
        lemma_upsert_next(all, 1);
    }
    cache.insert(
        "ARROW-USA-TFR-ZONE".to_string(),
        RestrictionDetails {
            vertices: polygon_of(&US_TFR_ZONE),
            timestamp_start: Some(now),
            timestamp_end: Some(now.plus_seconds(US_TFR_SECONDS)),
            zone_type: ZoneType::Restriction,
            altitude_meters_max: 2000,
            altitude_meters_min: 0,
        },
    );
    cache.insert(
        "ARROW-USA-NOFLY-ZONE".to_string(),
        RestrictionDetails {
            vertices: polygon_of(&US_NOFLY_ZONE),
            timestamp_start: None,
            timestamp_end: None,
            zone_type: ZoneType::Restriction,
            altitude_meters_max: 200,
            altitude_meters_min: 0,
        },
    );
    assert(all.take(2) =~= all);
    cache
}

/// Builds the waypoints of the region.
pub fn waypoints_fresh() -> (cache: KeyedCache<Coordinate>)
    ensures
        cache.wf(),
        cache@ == us_waypoints(),
{
    numbered_cache("ARROW-WEG-", &US_WAYPOINTS)
}

impl RegionInterface for USImpl {
    fn get_region(&self) -> (code: &str)
        ensures
            code@ == "us"@,
    {
        "us"
    }

    fn submit_flight_plan(&self, request: FlightPlanRequest) -> (response: Result<
        FlightPlanResponse,
        RegionError,
    >)
        ensures
            response matches Ok(answer) && answer.flight_plan_id@ == request.flight_plan_id@
                && answer.submitted && answer.result is None,
    {
        Ok(accept_flight_plan(request))
    }

    fn request_flight_release(&self, request: FlightReleaseRequest) -> (response: Result<
        FlightReleaseResponse,
        RegionError,
    >)
        ensures
            response matches Ok(answer) && answer.flight_plan_id@ == request.flight_plan_id@
                && answer.released && answer.result is None,
    {
        Ok(accept_flight_release(request))
    }

    fn get_flight_plan_status(&self, flight_plan_id: &String) -> (response: Result<
        StatusResponse,
        RegionError,
    >)
        ensures
            response matches Ok(answer) && answer.status == RequestStatus::Approved,
    {
        Ok(StatusResponse { status: RequestStatus::Approved, timestamp: utc_now() })
    }

    fn get_flight_release_status(&self, flight_plan_id: &String) -> (response: Result<
        StatusResponse,
        RegionError,
    >)
        ensures
            response matches Ok(answer) && answer.status == RequestStatus::Approved,
    {
        Ok(StatusResponse { status: RequestStatus::Approved, timestamp: utc_now() })
    }

    fn acquire_restrictions(&self, restrictions: &mut KeyedCache<RestrictionDetails>)
        ensures
            exists|now: Timestamp| final(restrictions)@ == us_restrictions(now),
    {
        let now = utc_now();
        *restrictions = restrictions_at(now);
    }

    fn acquire_waypoints(&self, waypoints: &mut KeyedCache<Coordinate>)
        ensures
            final(waypoints)@ == us_waypoints(),
    {
        *waypoints = waypoints_fresh();
    }
}

} // verus!
