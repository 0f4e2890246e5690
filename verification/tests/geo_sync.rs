use svc_compliance::cache::KeyedCache;
use svc_compliance::geo::{Coordinate, RestrictionDetails, ZoneType};
use svc_compliance::grpc::server::{
    restrictions_sent, update_restrictions, update_waypoints, waypoints_sent,
    UpdateRestrictionsError, UpdateWaypointsError,
};
use svc_compliance::jobs::corridors::{
    fetch_waypoints, gis_update_waypoints, refresh_waypoints, sync_waypoints,
    update_waypoints_status, waypoint_nodes, UpdateWaypointsStatus,
};
use svc_compliance::jobs::restrictions::{
    fetch_restrictions, refresh_restrictions, restriction_zones, sync_restrictions,
    update_restrictions_status, UpdateRestrictionsStatus,
};
use svc_compliance::jobs::{next_trigger, sleep_until};
use svc_compliance::region::RegionImpl;
use svc_compliance::time::{Pause, Timestamp};

fn restriction() -> RestrictionDetails {
    RestrictionDetails {
        vertices: vec![],
        timestamp_start: Some(Timestamp { seconds: 1_700_000_000, nanos: 0 }),
        timestamp_end: None,
        altitude_meters_max: 0,
        altitude_meters_min: 200,
        zone_type: ZoneType::Restriction,
    }
}

#[test]
fn test_update_restrictions() {
    let mut cache: KeyedCache<RestrictionDetails> = KeyedCache::new();
    let error = update_restrictions(&cache).unwrap_err();
    assert_eq!(error, UpdateRestrictionsError::NoRestrictions);

    cache.insert("test".to_string(), restriction());

    let request = update_restrictions(&cache).unwrap();
    assert_eq!(request.zones.len(), 1);
    assert_eq!(request.zones[0].identifier, "test");
    assert_eq!(request.zones[0].details.altitude_meters_min, 200);
    assert_eq!(request.zones[0].details.altitude_meters_max, 0);
    assert_eq!(
        request.zones[0].details.timestamp_start,
        Some(Timestamp { seconds: 1_700_000_000, nanos: 0 })
    );
    assert_eq!(restrictions_sent(true), Ok(()));
    assert_eq!(restrictions_sent(false), Err(UpdateRestrictionsError::RequestFailure));
}

#[test]
fn test_update_waypoints() {
    let mut cache: KeyedCache<Coordinate> = KeyedCache::new();
    let error = update_waypoints(&cache).unwrap_err();
    assert_eq!(error, UpdateWaypointsError::NoWaypoints);

    cache.insert("ARROW-WAY-1".to_string(), Coordinate { latitude: 0, longitude: 0 });

    let request = update_waypoints(&cache).unwrap();
    assert_eq!(request.waypoints.len(), 1);
    assert_eq!(request.waypoints[0].identifier, "ARROW-WAY-1");
    assert_eq!(request.waypoints[0].location, Coordinate { latitude: 0, longitude: 0 });
    assert_eq!(waypoints_sent(true), Ok(()));
    assert_eq!(waypoints_sent(false), Err(UpdateWaypointsError::RequestFailure));
}

#[test]
fn empty_fetch_empties_the_cache_and_sends_nothing() {
    let mut cache: KeyedCache<Coordinate> = KeyedCache::new();
    cache.insert("a".to_string(), Coordinate { latitude: 1, longitude: 2 });
    let request = sync_waypoints(&mut cache, KeyedCache::new());
    assert!(request.is_none());
    assert_eq!(cache.len(), 0);
    assert!(cache.is_empty());

    let mut zones: KeyedCache<RestrictionDetails> = KeyedCache::new();
    zones.insert("z".to_string(), restriction());
    let request = sync_restrictions(&mut zones, KeyedCache::new());
    assert!(request.is_none());
    assert_eq!(zones.len(), 0);
}

#[test]
fn fetched_waypoints_replace_the_cache_and_are_sent() {
    let mut cache: KeyedCache<Coordinate> = KeyedCache::new();
    cache.insert("stale".to_string(), Coordinate { latitude: 1, longitude: 2 });
    let mut fetched: KeyedCache<Coordinate> = KeyedCache::new();
    fetched.insert("b".to_string(), Coordinate { latitude: 3, longitude: 4 });
    fetched.insert("a".to_string(), Coordinate { latitude: 5, longitude: 6 });
    let request = sync_waypoints(&mut cache, fetched).unwrap();
    assert_eq!(cache.len(), 2);
    assert!(!cache.contains_key(&"stale".to_string()));
    let sent: Vec<(String, Coordinate)> =
        request.waypoints.iter().map(|w| (w.identifier.clone(), w.location)).collect();
    assert_eq!(
        sent,
        vec![
            ("b".to_string(), Coordinate { latitude: 3, longitude: 4 }),
            ("a".to_string(), Coordinate { latitude: 5, longitude: 6 })
        ]
    );
}

#[test]
fn fetched_restrictions_replace_the_cache_and_are_sent() {
    let mut cache: KeyedCache<RestrictionDetails> = KeyedCache::new();
    cache.insert("stale".to_string(), restriction());
    let mut fetched: KeyedCache<RestrictionDetails> = KeyedCache::new();
    let mut details = restriction();
    details.vertices = vec![Coordinate { latitude: 1, longitude: 2 }];
    fetched.insert("fresh".to_string(), details);
    let request = sync_restrictions(&mut cache, fetched).unwrap();
    assert_eq!(cache.len(), 1);
    assert_eq!(cache.key(0), "fresh");
    assert_eq!(request.zones.len(), 1);
    assert_eq!(request.zones[0].identifier, "fresh");
    assert_eq!(request.zones[0].details.vertices, vec![Coordinate { latitude: 1, longitude: 2 }]);
}

#[test]
fn refresh_from_the_built_in_authority() {
    let region = RegionImpl::default();
    let mut waypoints: KeyedCache<Coordinate> = KeyedCache::new();
    waypoints.insert("stale".to_string(), Coordinate { latitude: 1, longitude: 2 });
    let request = refresh_waypoints(&region, &mut waypoints).unwrap();
    assert_eq!(request.waypoints.len(), 76);
    assert_eq!(waypoints.len(), 76);
    assert!(!waypoints.contains_key(&"stale".to_string()));

    let mut restrictions: KeyedCache<RestrictionDetails> = KeyedCache::new();
    let request = refresh_restrictions(&RegionImpl::us(), &mut restrictions).unwrap();
    assert_eq!(request.zones.len(), 2);
    assert_eq!(restrictions.len(), 2);
    assert_eq!(request.zones[1].identifier, "ARROW-USA-NOFLY-ZONE");
}

#[test]
fn lists_follow_the_cache() {
    let mut cache: KeyedCache<Coordinate> = KeyedCache::new();
    assert_eq!(waypoint_nodes(&cache).len(), 0);
    assert!(gis_update_waypoints(&cache).is_none());
    cache.insert("x".to_string(), Coordinate { latitude: -1, longitude: -2 });
    let nodes = waypoint_nodes(&cache);
    assert_eq!(nodes.len(), 1);
    assert_eq!(nodes[0].identifier, "x");
    assert_eq!(gis_update_waypoints(&cache).unwrap().waypoints.len(), 1);

    let mut zones: KeyedCache<RestrictionDetails> = KeyedCache::new();
    assert_eq!(restriction_zones(&zones).len(), 0);
    zones.insert("z".to_string(), restriction());
    assert_eq!(restriction_zones(&zones)[0].identifier, "z");
    assert!(svc_compliance::jobs::restrictions::update_restrictions(&zones).is_some());
}

#[test]
fn statuses_of_an_update() {
    assert_eq!(update_waypoints_status(None), UpdateWaypointsStatus::NoWaypoints);
    assert_eq!(update_waypoints_status(Some(true)), UpdateWaypointsStatus::Success);
    assert_eq!(update_waypoints_status(Some(false)), UpdateWaypointsStatus::RequestFailure);
    assert_eq!(update_restrictions_status(None), UpdateRestrictionsStatus::NoRestrictions);
    assert_eq!(update_restrictions_status(Some(true)), UpdateRestrictionsStatus::Success);
    assert_eq!(update_restrictions_status(Some(false)), UpdateRestrictionsStatus::RequestFailure);
}

#[test]
fn no_sleep_when_the_trigger_has_passed() {
    assert_eq!(sleep_until(&Timestamp { seconds: 0, nanos: 0 }), None);
    let pause = sleep_until(&Timestamp { seconds: i64::MAX, nanos: 0 }).unwrap();
    assert!(pause.seconds > 1_000_000_000);
    assert!(pause.nanos < 1_000_000_000);
    let trigger = next_trigger(30);
    assert!(trigger.seconds > 1_600_000_000);
    let pause = sleep_until(&trigger).unwrap();
    assert!(pause.seconds <= 30);
}

#[test]
fn pauses_between_instants() {
    let start = Timestamp { seconds: 100, nanos: 900_000_000 };
    let trigger = Timestamp { seconds: 130, nanos: 100_000_000 };
    assert_eq!(start.until(&trigger), Some(Pause { seconds: 29, nanos: 200_000_000 }));
    assert_eq!(trigger.until(&start), None);
    assert_eq!(start.until(&start), None);
    assert!(start.is_before(&trigger));
    assert!(!trigger.is_before(&start));
    assert!(!start.is_before(&start));
    let far = Timestamp { seconds: i64::MAX, nanos: 999_999_999 };
    let early = Timestamp { seconds: i64::MIN, nanos: 0 };
    assert_eq!(early.until(&far), Some(Pause { seconds: u64::MAX, nanos: 999_999_999 }));
    assert!(Timestamp { seconds: 5, nanos: 2_000_000_000 }
        .is_before(&Timestamp { seconds: 7, nanos: 1 }));
    assert!(!Timestamp { seconds: 5, nanos: 2_000_000_000 }
        .is_before(&Timestamp { seconds: 7, nanos: 0 }));
}

#[test]
fn seconds_are_added_up_to_the_last_second() {
    let start = Timestamp { seconds: 100, nanos: 7 };
    assert_eq!(start.plus_seconds(0), start);
    assert_eq!(start.plus_seconds(3600), Timestamp { seconds: 3700, nanos: 7 });
    assert_eq!(
        Timestamp { seconds: -10, nanos: 0 }.plus_seconds(u32::MAX),
        Timestamp { seconds: 4_294_967_285, nanos: 0 }
    );
    let late = Timestamp { seconds: i64::MAX - 5, nanos: 3 };
    assert_eq!(late.plus_seconds(5), Timestamp { seconds: i64::MAX, nanos: 3 });
    assert_eq!(late.plus_seconds(6), Timestamp { seconds: i64::MAX, nanos: 3 });
}

#[test]
fn fetching_asks_for_the_whole_answer() {
    let waypoints = fetch_waypoints(&RegionImpl::us());
    assert_eq!(waypoints.len(), 2);
    assert_eq!(waypoints.key(0), "ARROW-WEG-0");
    let restrictions = fetch_restrictions(&RegionImpl::default());
    assert_eq!(restrictions.len(), 9);
    assert_eq!(restrictions.key(3), "ARROW-NL-NOFLY-paleis");

    let mut cache: KeyedCache<Coordinate> = KeyedCache::new();
    cache.insert("stale".to_string(), Coordinate { latitude: 1, longitude: 2 });
    let request = sync_waypoints(&mut cache, waypoints).unwrap();
    assert_eq!(request.waypoints.len(), 2);
    assert_eq!(cache.len(), 2);
    assert!(!cache.contains_key(&"stale".to_string()));
}
