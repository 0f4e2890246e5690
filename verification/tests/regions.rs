use svc_compliance::cache::KeyedCache;
use svc_compliance::geo::{Coordinate, RestrictionDetails, ZoneType};
use svc_compliance::grpc::{FlightPlanRequest, FlightReleaseRequest};
use svc_compliance::region::nl::NLImpl;
use svc_compliance::region::us::{restrictions_at, USImpl};
use svc_compliance::region::utils::{decimal_string, numbered_label, polygon_of, prefixed_label};
use svc_compliance::region::{RegionImpl, RegionInterface, RequestStatus};
use svc_compliance::time::Timestamp;

fn plan_request(id: &str) -> FlightPlanRequest {
    FlightPlanRequest { flight_plan_id: id.to_string(), data: "".to_string() }
}

fn release_request(id: &str) -> FlightReleaseRequest {
    FlightReleaseRequest { flight_plan_id: id.to_string(), data: "".to_string() }
}

#[test]
fn mod_test_region_code() {
    let region_impl = RegionImpl::default();
    assert_eq!(region_impl.region, "nl");
    assert_eq!(region_impl.get_region(), "nl");
}

#[test]
fn nl_test_region_code() {
    let region_impl = RegionImpl::default();
    assert_eq!(region_impl.region, "nl");
    assert_eq!(RegionImpl::nl().region, "nl");
    assert_eq!((NLImpl {}).get_region(), "nl");
}

#[test]
fn nl_test_submit_flight_plan() {
    let region = RegionImpl::default();
    let result = region.submit_flight_plan(plan_request(""));
    assert!(result.is_ok());
    let result = result.unwrap();
    assert_eq!(result.submitted, true);
    assert_eq!(result.flight_plan_id, "");
    assert_eq!(result.result, None);
}

#[test]
fn nl_test_request_flight_release() {
    let region = RegionImpl::default();
    let result = region.request_flight_release(release_request(""));
    assert!(result.is_ok());
    let result = result.unwrap();
    assert_eq!(result.released, true);
    assert_eq!(result.result, None);
}

#[test]
fn nl_test_acquire_restrictions() {
    let region = RegionImpl::default();
    let mut cache = KeyedCache::<RestrictionDetails>::new();
    region.acquire_restrictions(&mut cache);
    assert!(cache.len() > 0);
    assert_eq!(cache.len(), 9);
    assert_eq!(cache.key(0), "ARROW-NL-NOFLY-schiphol");
    assert_eq!(cache.key(8), "ARROW-NL-NOFLY-marken");
    let schiphol = cache.value(0);
    assert_eq!(schiphol.vertices.len(), 5);
    assert_eq!(schiphol.vertices[0], Coordinate { latitude: 523_827_247, longitude: 47_091_866 });
    assert_eq!(schiphol.vertices[4], schiphol.vertices[0]);
    assert_eq!(schiphol.altitude_meters_min, 0);
    assert_eq!(schiphol.altitude_meters_max, 1000);
    assert_eq!(schiphol.zone_type, ZoneType::Restriction);
    assert_eq!(schiphol.timestamp_start, None);
    assert_eq!(schiphol.timestamp_end, None);
    let hoorn = cache.get(&"ARROW-NL-NOFLY-hoorn".to_string()).unwrap();
    assert_eq!(hoorn.vertices.len(), 10);
    assert_eq!(hoorn.vertices[7], Coordinate { latitude: 526_393_135, longitude: 50_102_200 });
}

#[test]
fn nl_test_refresh_waypoints() {
    let region = RegionImpl::default();
    let mut cache = KeyedCache::<Coordinate>::new();
    region.acquire_waypoints(&mut cache);
    assert!(cache.len() > 0);
    assert_eq!(cache.len(), 76);
    assert_eq!(cache.key(0), "ARROW-WEG-0");
    assert_eq!(*cache.value(0), Coordinate { latitude: 523_745_000, longitude: 49_160_000 });
    assert_eq!(cache.key(75), "ARROW-WEG-75");
    assert_eq!(*cache.value(75), Coordinate { latitude: 526_134_719, longitude: 50_463_490 });
    assert_eq!(cache.position(&"ARROW-WEG-10".to_string()), Some(10));
}

#[test]
fn us_test_region_code() {
    let region_impl = RegionImpl::us();
    assert_eq!(region_impl.region, "us");
    assert_eq!(region_impl.get_region(), "us");
    assert_eq!((USImpl {}).get_region(), "us");
    assert!(region_impl.serves_us());
    assert!(!RegionImpl::default().serves_us());
}

#[test]
fn us_test_submit_flight_plan() {
    let region = RegionImpl::us();
    let result = region.submit_flight_plan(plan_request(""));
    assert!(result.is_ok());
    let result = result.unwrap();
    assert_eq!(result.submitted, true);
    let result = (USImpl {}).submit_flight_plan(plan_request("fp-7")).unwrap();
    assert_eq!(result.flight_plan_id, "fp-7");
    assert_eq!(result.result, None);
}

#[test]
fn us_test_request_flight_release() {
    let region = RegionImpl::us();
    let result = region.request_flight_release(release_request(""));
    assert!(result.is_ok());
    let result = result.unwrap();
    assert_eq!(result.released, true);
    let result = (USImpl {}).request_flight_release(release_request("fp-7")).unwrap();
    assert_eq!(result.flight_plan_id, "fp-7");
}

#[test]
fn us_test_acquire_restrictions() {
    let region = RegionImpl::us();
    let mut cache = KeyedCache::<RestrictionDetails>::new();
    region.acquire_restrictions(&mut cache);
    assert!(cache.len() > 0);
    assert_eq!(cache.len(), 2);
    assert_eq!(cache.key(0), "ARROW-USA-TFR-ZONE");
    assert_eq!(cache.key(1), "ARROW-USA-NOFLY-ZONE");
    let temporary = cache.value(0);
    let start = temporary.timestamp_start.unwrap();
    let end = temporary.timestamp_end.unwrap();
    assert_eq!(end.seconds - start.seconds, 3600);
    assert_eq!(end.nanos, start.nanos);
    assert_eq!(temporary.altitude_meters_max, 2000);
    let standing = cache.value(1);
    assert_eq!(standing.timestamp_start, None);
    assert_eq!(standing.altitude_meters_max, 200);
    assert_eq!(standing.vertices.len(), 9);
}

#[test]
fn us_restrictions_at_a_given_time() {
    let now = Timestamp { seconds: 1_700_000_000, nanos: 5 };
    let cache = restrictions_at(now);
    let temporary = cache.value(0);
    assert_eq!(temporary.timestamp_start, Some(now));
    assert_eq!(temporary.timestamp_end, Some(Timestamp { seconds: 1_700_003_600, nanos: 5 }));
    assert_eq!(temporary.vertices.len(), 5);
    assert_eq!(
        temporary.vertices[1],
        Coordinate { latitude: 309_316_000, longitude: -1_040_399_000 }
    );
    assert_eq!(temporary.zone_type, ZoneType::Restriction);
}

#[test]
fn us_test_refresh_waypoints() {
    let region = RegionImpl::us();
    let mut cache = KeyedCache::<Coordinate>::new();
    region.acquire_waypoints(&mut cache);
    assert!(cache.len() > 0);
    assert_eq!(cache.len(), 2);
    assert_eq!(cache.key(1), "ARROW-WEG-1");
    assert_eq!(*cache.value(0), Coordinate { latitude: -1_040_428_000, longitude: 309_311_000 });
    assert_eq!(*cache.value(1), Coordinate { latitude: -1_040_412_000, longitude: 309_308_000 });
}

#[test]
fn acquiring_replaces_what_the_cache_held() {
    let region = RegionImpl::us();
    let mut cache = KeyedCache::<Coordinate>::new();
    cache.insert("STALE".to_string(), Coordinate { latitude: 1, longitude: 2 });
    cache.insert("ARROW-WEG-1".to_string(), Coordinate { latitude: 3, longitude: 4 });
    region.acquire_waypoints(&mut cache);
    assert_eq!(cache.len(), 2);
    assert!(!cache.contains_key(&"STALE".to_string()));
    assert_eq!(
        cache.get(&"ARROW-WEG-1".to_string()),
        Some(&Coordinate { latitude: -1_040_412_000, longitude: 309_308_000 })
    );
}

#[test]
fn built_in_authorities_approve() {
    let id = "fp-1".to_string();
    for region in [RegionImpl::us(), RegionImpl::nl()] {
        assert_eq!(region.get_flight_plan_status(&id).unwrap().status, RequestStatus::Approved);
        assert_eq!(region.get_flight_release_status(&id).unwrap().status, RequestStatus::Approved);
    }
    assert_eq!((NLImpl {}).get_flight_plan_status(&id).unwrap().status, RequestStatus::Approved);
    let answer = (USImpl {}).get_flight_release_status(&id).unwrap();
    assert!(answer.timestamp.seconds > 1_600_000_000);
}

#[test]
fn unknown_code_is_served_as_the_netherlands() {
    let region = RegionImpl { region: "xx".to_string() };
    assert_eq!(region.get_region(), "xx");
    let mut cache = KeyedCache::<Coordinate>::new();
    region.acquire_waypoints(&mut cache);
    assert_eq!(cache.len(), 76);
}

#[test]
fn numbers_are_written_in_decimal() {
    assert_eq!(decimal_string(0), "0");
    assert_eq!(decimal_string(9), "9");
    assert_eq!(decimal_string(10), "10");
    assert_eq!(decimal_string(75), "75");
    assert_eq!(decimal_string(1_234_567_890), "1234567890");
    assert_eq!(decimal_string(usize::MAX), usize::MAX.to_string());
    assert_eq!(numbered_label("ARROW-WEG-", 42), "ARROW-WEG-42");
    assert_eq!(prefixed_label("ARROW-NL-NOFLY-", "marken"), "ARROW-NL-NOFLY-marken");
}

#[test]
fn tables_become_points() {
    let points = polygon_of(&[(1, 2), (-3, 4)]);
    assert_eq!(
        points,
        vec![
            Coordinate { latitude: 1, longitude: 2 },
            Coordinate { latitude: -3, longitude: 4 }
        ]
    );
    assert_eq!(polygon_of::<0>(&[]), vec![]);
}
