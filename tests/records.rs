use std::collections::HashMap;
use vehicle_location::codec::encode;
use vehicle_location::parser::{parse_vehicle, Entry, FieldName, Node, ParseError};
use vehicle_location::pipeline::{handle_message, IngestAction};
use vehicle_location::query::{location_response, Lookup};

fn entry(key: &str, value: Node) -> Entry {
    Entry { key: key.to_string(), value }
}

fn num(x: f32) -> Node {
    Node::Number(x.to_bits())
}

fn message(id: &str, coords: Vec<Entry>) -> Node {
    Node::Object(vec![
        entry("id", Node::Text(id.to_string())),
        entry("location", Node::Object(coords)),
    ])
}

/// Carries out an action against an in-memory store, as the service does
/// against its database.
fn apply(store: &mut HashMap<String, Vec<u8>>, action: IngestAction) {
    if let IngestAction::Put { key, value } = action {
        store.insert(key, value);
    }
}

fn lookup(store: &HashMap<String, Vec<u8>>, id: &str) -> Lookup {
    match store.get(id) {
        Some(bytes) => Lookup::Found(bytes.clone()),
        None => Lookup::Absent,
    }
}

#[test]
fn parses_a_valid_record() {
    let v = parse_vehicle(&message("v1", vec![entry("lng", num(12.5)), entry("lat", num(45.25))])).unwrap();
    assert_eq!(v.id, "v1");
    assert_eq!(f32::from_bits(v.location.get_lng()), 12.5);
    assert_eq!(f32::from_bits(v.location.get_lat()), 45.25);
    assert_eq!(v.location.as_bytes(), &encode(12.5f32.to_bits(), 45.25f32.to_bits()));
}

#[test]
fn missing_lat_is_a_missing_field() {
    let r = parse_vehicle(&message("v1", vec![entry("lng", num(1.0))]));
    assert!(matches!(r, Err(ParseError::MissingField(FieldName::Lat))));
}

#[test]
fn missing_lng_is_a_missing_field() {
    let r = parse_vehicle(&message("v1", vec![entry("lat", num(1.0))]));
    assert!(matches!(r, Err(ParseError::MissingField(FieldName::Lng))));
}

#[test]
fn repeated_lng_is_a_duplicate_field() {
    let r = parse_vehicle(&message("v1", vec![entry("lng", num(1.0)), entry("lng", num(2.0)), entry("lat", num(3.0))]));
    assert!(matches!(r, Err(ParseError::DuplicateField(FieldName::Lng))));
}

#[test]
fn repeated_lat_is_a_duplicate_field() {
    let r = parse_vehicle(&message("v1", vec![entry("lat", num(1.0)), entry("lng", num(2.0)), entry("lat", num(3.0))]));
    assert!(matches!(r, Err(ParseError::DuplicateField(FieldName::Lat))));
}

#[test]
fn unknown_location_key_is_an_unknown_field() {
    let r = parse_vehicle(&message("v1", vec![entry("lng", num(1.0)), entry("alt", num(2.0))]));
    match r {
        Err(ParseError::UnknownField(k)) => assert_eq!(k, "alt"),
        other => panic!("unexpected {:?}", other),
    }
}

#[test]
fn missing_id_is_a_missing_field() {
    let root = Node::Object(vec![entry("location", Node::Object(vec![entry("lng", num(1.0)), entry("lat", num(2.0))]))]);
    assert!(matches!(parse_vehicle(&root), Err(ParseError::MissingField(FieldName::Id))));
}

#[test]
fn missing_location_is_a_missing_field() {
    let root = Node::Object(vec![entry("id", Node::Text("v1".to_string()))]);
    assert!(matches!(parse_vehicle(&root), Err(ParseError::MissingField(FieldName::Location))));
}

#[test]
fn repeated_id_is_a_duplicate_field() {
    let root = Node::Object(vec![entry("id", Node::Text("a".to_string())), entry("id", Node::Text("b".to_string()))]);
    assert!(matches!(parse_vehicle(&root), Err(ParseError::DuplicateField(FieldName::Id))));
}

#[test]
fn unknown_record_keys_are_skipped() {
    let root = Node::Object(vec![
        entry("speed", num(3.0)),
        entry("id", Node::Text("v9".to_string())),
        entry("location", Node::Object(vec![entry("lat", num(2.0)), entry("lng", num(1.0))])),
    ]);
    let v = parse_vehicle(&root).unwrap();
    assert_eq!(v.id, "v9");
    assert_eq!(f32::from_bits(v.location.get_lng()), 1.0);
}

#[test]
fn wrong_shapes_are_not_well_formed() {
    assert!(matches!(parse_vehicle(&Node::Other), Err(ParseError::NotWellFormed)));
    let bad_id = Node::Object(vec![entry("id", num(1.0))]);
    assert!(matches!(parse_vehicle(&bad_id), Err(ParseError::NotWellFormed)));
    let bad_lng = message("v1", vec![entry("lng", Node::Text("east".to_string()))]);
    assert!(matches!(parse_vehicle(&bad_lng), Err(ParseError::NotWellFormed)));
}

#[test]
fn malformed_message_is_discarded() {
    let action = handle_message(&message("v1", vec![entry("lng", num(1.0))]));
    assert!(matches!(action, IngestAction::Discard(ParseError::MissingField(FieldName::Lat))));
}

#[test]
fn same_write_twice_leaves_one_record() {
    let mut store = HashMap::new();
    let msg = message("v1", vec![entry("lng", num(1.0)), entry("lat", num(2.0))]);
    apply(&mut store, handle_message(&msg));
    apply(&mut store, handle_message(&msg));
    assert_eq!(store.len(), 1);
    assert_eq!(store["v1"], encode(1.0f32.to_bits(), 2.0f32.to_bits()));
}

#[test]
fn later_write_replaces_earlier() {
    let mut store = HashMap::new();
    apply(&mut store, handle_message(&message("v1", vec![entry("lng", num(1.0)), entry("lat", num(2.0))])));
    apply(&mut store, handle_message(&message("v1", vec![entry("lng", num(5.0)), entry("lat", num(6.0))])));
    assert_eq!(store.len(), 1);
    assert_eq!(store["v1"], encode(5.0f32.to_bits(), 6.0f32.to_bits()));
}

#[test]
fn ingested_location_is_served() {
    let mut store = HashMap::new();
    let msg = message("v1", vec![entry("lng", num(12.5)), entry("lat", num(45.25))]);
    apply(&mut store, handle_message(&msg));
    let r = location_response(&"v1".to_string(), lookup(&store, "v1"));
    assert!(r.success);
    assert_eq!(r.message, "");
    let loc = r.vehicle_location.expect("a location");
    assert_eq!(loc.vehicle_id, "v1");
    assert_eq!(f32::from_bits(loc.longitude), 12.5);
    assert_eq!(f32::from_bits(loc.latitude), 45.25);
}

#[test]
fn unknown_vehicle_is_not_found() {
    let store: HashMap<String, Vec<u8>> = HashMap::new();
    let r = location_response(&"unknown".to_string(), lookup(&store, "unknown"));
    assert!(!r.success);
    assert_eq!(r.message, "Vehicle unknown not found");
    assert!(r.vehicle_location.is_none());
}

#[test]
fn short_record_is_malformed_data() {
    let mut store = HashMap::new();
    store.insert("v2".to_string(), vec![1u8, 2, 3]);
    let r = location_response(&"v2".to_string(), lookup(&store, "v2"));
    assert!(!r.success);
    assert_eq!(r.message, "Malformed data");
    assert!(r.vehicle_location.is_none());
}

#[test]
fn store_failure_is_reported() {
    let r = location_response(&"v3".to_string(), Lookup::Failed("IO error: disk".to_string()));
    assert!(!r.success);
    assert_eq!(r.message, "IO error: disk");
    assert!(r.vehicle_location.is_none());
}
