use svc_compliance::amqp::{
    flight_plan_publication, frame_flight_plan, pool_address, publication_of, AMQPError,
    SetupStep, EXCHANGE_NAME_FLIGHTPLAN, QUEUE_NAME_CARGO, ROUTING_KEY_CARGO,
};
use svc_compliance::cache::{Entry, KeyedCache};
use svc_compliance::geo::{Coordinate, CoordinateFilter, Waypoint};
use svc_compliance::grpc::server::{flight_plan_reply, ServerImpl};
use svc_compliance::grpc::{
    FlightPlanRequest, FlightPlanResponse, FlightReleaseRequest, ReadyRequest,
    RestrictionsRequest, WaypointsRequest,
};
use svc_compliance::jobs::corridors::waypoint_nodes;
use svc_compliance::jobs::restrictions::restriction_zones;
use svc_compliance::region::{RegionError, RegionImpl, RegionInterface};

fn get_server_impl() -> ServerImpl<RegionImpl> {
    ServerImpl { mq_channel: None, region: RegionImpl::default() }
}

#[test]
fn server_test_region_code() {
    let imp = get_server_impl();
    assert_eq!(imp.region.get_region(), "nl");
}

#[test]
fn test_grpc_server_is_ready() {
    let imp = get_server_impl();
    let result = imp.is_ready(ReadyRequest {});
    assert!(result.ready);
}

#[test]
fn test_grpc_submit_flight_plan() {
    let imp = get_server_impl();
    let result = imp.submit_flight_plan(FlightPlanRequest {
        flight_plan_id: "".to_string(),
        data: "".to_string(),
    });
    assert!(result.is_ok());
    let result = result.unwrap();
    assert_eq!(result.response.submitted, true);
    assert!(result.telemetry.is_none());
}

#[test]
fn server_test_grpc_request_flight_release() {
    let imp = get_server_impl();
    let result = imp.request_flight_release(FlightReleaseRequest {
        flight_plan_id: "".to_string(),
        data: "".to_string(),
    });
    assert!(result.is_ok());
    let result = result.unwrap();
    assert_eq!(result.released, true);
}

#[test]
fn accepted_flight_plan_is_answered_and_published_once() {
    let imp = ServerImpl { mq_channel: Some(()), region: RegionImpl::default() };
    let reply = imp
        .submit_flight_plan(FlightPlanRequest {
            flight_plan_id: "123".to_string(),
            data: "{}".to_string(),
        })
        .unwrap();
    assert_eq!(reply.response.flight_plan_id, "123");
    assert_eq!(reply.response.submitted, true);
    assert_eq!(reply.response.result, None);
    let message = reply.telemetry.unwrap();
    assert_eq!(message.exchange, "flightplan");
    assert_eq!(message.routing_key, "cargo");
    assert_eq!(message.payload, br#"{"flight_plan_id":"123","data":"{}"}"#.to_vec());
}

#[test]
fn payload_is_valid_json_with_escapes() {
    let request = FlightPlanRequest {
        flight_plan_id: "a\"b\\c\n".to_string(),
        data: "{\"k\":\"\u{e9}\"}".to_string(),
    };
    let message = flight_plan_publication(&request).unwrap();
    assert_eq!(
        String::from_utf8(message.payload.clone()).unwrap(),
        "{\"flight_plan_id\":\"a\\\"b\\\\c\\n\",\"data\":\"{\\\"k\\\":\\\"\u{e9}\\\"}\"}"
    );
    let parsed = serde_json::from_slice::<serde_json::Value>(&message.payload).unwrap();
    assert_eq!(parsed.get("flight_plan_id").unwrap().as_str().unwrap(), "a\"b\\c\n");
    assert_eq!(parsed.get("data").unwrap().as_str().unwrap(), "{\"k\":\"\u{e9}\"}");
    assert_eq!(message.exchange, EXCHANGE_NAME_FLIGHTPLAN);
    assert_eq!(message.routing_key, QUEUE_NAME_CARGO);
    assert_eq!(ROUTING_KEY_CARGO, "cargo");
}

#[test]
fn frame_joins_its_parts() {
    let framed = frame_flight_plan(b"\"x\"".to_vec(), b"\"y\"".to_vec());
    assert_eq!(framed, br#"{"flight_plan_id":"x","data":"y"}"#.to_vec());
}

#[test]
fn rejection_is_passed_on_and_nothing_is_published() {
    let request = FlightPlanRequest { flight_plan_id: "1".to_string(), data: "{}".to_string() };
    let reply = flight_plan_reply(&request, Err(RegionError::Rejected), true);
    assert_eq!(reply.unwrap_err(), RegionError::Rejected);
    let reply = flight_plan_reply(&request, Err(RegionError::Unavailable), false);
    assert_eq!(reply.unwrap_err(), RegionError::Unavailable);
}

#[test]
fn response_is_passed_on_as_it_is() {
    let request = FlightPlanRequest { flight_plan_id: "1".to_string(), data: "{}".to_string() };
    let declined = FlightPlanResponse {
        flight_plan_id: "1".to_string(),
        submitted: false,
        result: Some("window closed".to_string()),
    };
    let reply = flight_plan_reply(&request, Ok(declined), true).unwrap();
    assert_eq!(reply.response.flight_plan_id, "1");
    assert_eq!(reply.response.submitted, false);
    assert_eq!(reply.response.result, Some("window closed".to_string()));
    assert!(reply.telemetry.is_some());
    let accepted =
        FlightPlanResponse { flight_plan_id: "1".to_string(), submitted: true, result: None };
    let reply = flight_plan_reply(&request, Ok(accepted), false).unwrap();
    assert!(reply.telemetry.is_none());
    assert!(reply.response.submitted);
}

#[test]
fn waypoints_are_served_through_the_window() {
    let imp = get_server_impl();
    let mut cache: KeyedCache<Coordinate> = KeyedCache::new();
    imp.region.acquire_waypoints(&mut cache);
    let snapshot: Vec<Waypoint> = waypoint_nodes(&cache);
    let all = imp.request_waypoints(WaypointsRequest { filter: None }, &snapshot);
    assert_eq!(all.waypoints.len(), 76);
    let window = CoordinateFilter {
        min: Some(Coordinate { latitude: 523_745_000, longitude: 49_153_000 }),
        max: Some(Coordinate { latitude: 523_753_000, longitude: 49_161_000 }),
    };
    let some = imp.request_waypoints(WaypointsRequest { filter: Some(window) }, &snapshot);
    let names: Vec<&str> = some.waypoints.iter().map(|w| w.identifier.as_str()).collect();
    assert_eq!(
        names,
        vec!["ARROW-WEG-0", "ARROW-WEG-1", "ARROW-WEG-2", "ARROW-WEG-3", "ARROW-WEG-4"]
    );
}

#[test]
fn restrictions_are_served_through_the_window() {
    let imp = ServerImpl { mq_channel: None, region: RegionImpl::us() };
    let mut cache = KeyedCache::new();
    imp.region.acquire_restrictions(&mut cache);
    let snapshot = restriction_zones(&cache);
    let degree = 10_000_000;
    let window = CoordinateFilter {
        min: Some(Coordinate { latitude: 30 * degree, longitude: -105 * degree }),
        max: Some(Coordinate { latitude: 35 * degree, longitude: -100 * degree }),
    };
    let inside = imp.request_restrictions(RestrictionsRequest { filter: Some(window) }, &snapshot);
    assert_eq!(inside.restrictions.len(), 2);
    let elsewhere = CoordinateFilter {
        min: Some(Coordinate { latitude: 40 * degree, longitude: -105 * degree }),
        max: None,
    };
    let outside =
        imp.request_restrictions(RestrictionsRequest { filter: Some(elsewhere) }, &snapshot);
    assert_eq!(outside.restrictions.len(), 0);
    let all = imp.request_restrictions(RestrictionsRequest { filter: None }, &snapshot);
    assert_eq!(all.restrictions.len(), 2);
}

#[test]
fn errors_of_the_queue_in_words() {
    assert_eq!(AMQPError::CouldNotPublish.message(), "error: Could not publish to queue.");
    assert_eq!(AMQPError::CouldNotConnect.message(), "error: Could not connect to amqp pool.");
    assert_eq!(
        AMQPError::MissingConfiguration.message(),
        "error: Missing configuration for amqp pool connection."
    );
    assert_eq!(AMQPError::CouldNotCreateChannel.message(), "error: Could not create channel.");
    assert_eq!(AMQPError::CouldNotDeclareQueue.message(), "error: Could not declare queue.");
    assert_eq!(AMQPError::CouldNotDeclareExchange.message(), "error: Could not declare exchange.");
}

#[test]
fn queue_needs_an_address() {
    assert_eq!(pool_address(None), Err(AMQPError::MissingConfiguration));
    assert_eq!(
        pool_address(Some("amqp://localhost:5672".to_string())),
        Ok("amqp://localhost:5672".to_string())
    );
}

#[test]
fn setup_walks_its_steps_and_stops_at_a_failure() {
    let mut step = SetupStep::first();
    let mut walked = vec![step];
    while let Some(next) = step.advance(true).unwrap() {
        walked.push(next);
        step = next;
    }
    assert_eq!(
        walked,
        vec![
            SetupStep::Connect,
            SetupStep::CreateChannel,
            SetupStep::DeclareQueue,
            SetupStep::DeclareExchange,
            SetupStep::BindQueue
        ]
    );
    assert_eq!(SetupStep::Connect.advance(false), Err(AMQPError::CouldNotConnect));
    assert_eq!(SetupStep::CreateChannel.advance(false), Err(AMQPError::CouldNotCreateChannel));
    assert_eq!(SetupStep::DeclareQueue.advance(false), Err(AMQPError::CouldNotDeclareQueue));
    assert_eq!(SetupStep::DeclareExchange.advance(false), Err(AMQPError::CouldNotDeclareExchange));
    assert_eq!(SetupStep::BindQueue.advance(false), Err(AMQPError::CouldNotDeclareExchange));
}

#[test]
fn cache_keeps_one_entry_for_each_key() {
    let mut cache: KeyedCache<Coordinate> = KeyedCache::new();
    assert!(cache.is_empty());
    cache.insert("a".to_string(), Coordinate { latitude: 1, longitude: 1 });
    cache.insert("b".to_string(), Coordinate { latitude: 2, longitude: 2 });
    cache.insert("a".to_string(), Coordinate { latitude: 3, longitude: 3 });
    assert_eq!(cache.len(), 2);
    assert_eq!(cache.key(0), "a");
    assert_eq!(*cache.value(0), Coordinate { latitude: 3, longitude: 3 });
    assert_eq!(cache.position(&"b".to_string()), Some(1));
    assert_eq!(cache.position(&"c".to_string()), None);
    assert_eq!(cache.get(&"c".to_string()), None);
    assert_eq!(cache.remove(&"c".to_string()), None);
    assert_eq!(cache.remove(&"a".to_string()), Some(Coordinate { latitude: 3, longitude: 3 }));
    assert_eq!(cache.len(), 1);
    assert_eq!(cache.key(0), "b");
    let Entry { key, value } = cache.remove_at(0);
    assert_eq!(key, "b");
    assert_eq!(value, Coordinate { latitude: 2, longitude: 2 });
    assert!(cache.is_empty());
}

#[test]
fn cache_keeps_the_flagged_entries_in_order() {
    let mut cache: KeyedCache<Coordinate> = KeyedCache::new();
    for (i, key) in ["a", "b", "c", "d", "e"].iter().enumerate() {
        cache.insert(key.to_string(), Coordinate { latitude: i as i64, longitude: 0 });
    }
    cache.retain_flagged(&vec![false, true, false, true, true]);
    let keys: Vec<String> = (0..cache.len()).map(|i| cache.key(i).clone()).collect();
    assert_eq!(keys, vec!["b", "d", "e"]);
    assert_eq!(cache.value(2).latitude, 4);
    cache.retain_flagged(&vec![false, false, false]);
    assert!(cache.is_empty());
    cache.retain_flagged(&vec![]);
    assert!(cache.is_empty());
}

#[test]
fn cache_can_tell_that_its_keys_are_distinct() {
    let mut cache: KeyedCache<Coordinate> = KeyedCache::new();
    assert!(cache.well_formed());
    cache.insert("a".to_string(), Coordinate { latitude: 1, longitude: 1 });
    cache.insert("b".to_string(), Coordinate { latitude: 2, longitude: 2 });
    cache.insert("a".to_string(), Coordinate { latitude: 3, longitude: 3 });
    assert!(cache.well_formed());
    assert_eq!(cache.get(&"a".to_string()), Some(&Coordinate { latitude: 3, longitude: 3 }));
    assert_eq!(cache.get(&"b".to_string()), Some(&Coordinate { latitude: 2, longitude: 2 }));
    assert!(cache.contains_key(&"b".to_string()));
    assert!(!cache.contains_key(&"".to_string()));
}

#[test]
fn message_is_made_exactly_when_both_parts_were_written() {
    let failure = || serde_json::from_str::<u32>("x").unwrap_err();
    let key = || b"\"k\"".to_vec();
    let body = || b"\"d\"".to_vec();
    assert!(publication_of(Err(failure()), Ok(body())).is_none());
    assert!(publication_of(Ok(key()), Err(failure())).is_none());
    assert!(publication_of(Err(failure()), Err(failure())).is_none());
    let message = publication_of(Ok(key()), Ok(body())).unwrap();
    assert_eq!(message.exchange, "flightplan");
    assert_eq!(message.routing_key, "cargo");
    assert_eq!(message.payload, br#"{"flight_plan_id":"k","data":"d"}"#.to_vec());
}

#[test]
fn release_is_answered_by_the_authority() {
    let imp = ServerImpl { mq_channel: Some(()), region: RegionImpl::us() };
    let answer = imp
        .request_flight_release(FlightReleaseRequest {
            flight_plan_id: "fp-3".to_string(),
            data: "{}".to_string(),
        })
        .unwrap();
    assert_eq!(answer.flight_plan_id, "fp-3");
    assert!(answer.released);
    assert_eq!(answer.result, None);
}

#[test]
fn a_message_is_made_whenever_a_queue_is_at_hand() {
    for (id, data) in [("", ""), ("\u{0}\u{1f}", "\u{7f}\u{10ffff}"), ("a\tb", "\"\\/")] {
        let request = FlightPlanRequest { flight_plan_id: id.to_string(), data: data.to_string() };
        let message = flight_plan_publication(&request).unwrap();
        let parsed = serde_json::from_slice::<serde_json::Value>(&message.payload).unwrap();
        assert_eq!(parsed.get("flight_plan_id").unwrap().as_str().unwrap(), id);
        assert_eq!(parsed.get("data").unwrap().as_str().unwrap(), data);
        let imp = ServerImpl { mq_channel: Some(()), region: RegionImpl::us() };
        assert!(imp.submit_flight_plan(request).unwrap().telemetry.is_some());
    }
}
