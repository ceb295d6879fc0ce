//! Query decisions: the response to a location request, from what the store
//! lookup gave.
use vstd::prelude::*;
use crate::codec::{Location, decode_spec};

verus! {

/// What a store lookup for a vehicle id gave.
#[derive(Debug)]
pub enum Lookup {
    /// The stored bytes.
    Found(Vec<u8>),
    /// No record for the id.
    Absent,
    /// The store itself failed; the description of its error.
    Failed(String),
}

/// Location of a vehicle; coordinates are 32-bit float bit patterns.
#[derive(Debug)]
pub struct VehicleLocation {
    pub vehicle_id: String,
    pub longitude: u32,
    pub latitude: u32,
}

/// Response to a location request: either success with a location and an
/// empty message, or failure with a reason and no location.
#[derive(Debug)]
pub struct GetLocationResponse {
    pub success: bool,
    pub message: String,
    pub vehicle_location: Option<VehicleLocation>,
}

/// A failure response carrying `message`.
pub open spec fn is_failure(r: GetLocationResponse, message: Seq<char>) -> bool {
    &&& !r.success
    &&& r.message@ == message
    &&& r.vehicle_location is None
}

/// The message of the not-found outcome.
pub open spec fn not_found_message(vehicle_id: Seq<char>) -> Seq<char> {
    "Vehicle "@ + vehicle_id + " not found"@
}

fn not_found(vehicle_id: &String) -> (r: String)
    ensures
        r@ == not_found_message(vehicle_id@),
{
    let head = "Vehicle ".to_string();
    let with_id = head.concat(vehicle_id.as_str());
    with_id.concat(" not found")
}

/// Builds the response for `vehicle_id` from the lookup's outcome: the decoded
/// location when the bytes decode, else a failure saying why (the bytes are
/// malformed, the vehicle is unknown, or the store failed).
pub fn location_response(vehicle_id: &String, lookup: Lookup) -> (r: GetLocationResponse)
    ensures
        match lookup {
            Lookup::Found(bytes) => match decode_spec(bytes@) {
                Some((lng, lat)) => {
                    &&& r.success
                    &&& r.message@ == Seq::<char>::empty()
                    &&& r.vehicle_location matches Some(loc) && loc.vehicle_id@ == vehicle_id@
                        && loc.longitude == lng && loc.latitude == lat
                },
                None => is_failure(r, "Malformed data"@),
            },
            Lookup::Absent => is_failure(r, not_found_message(vehicle_id@)),
            Lookup::Failed(e) => is_failure(r, e@),
        },
{
    match lookup {
        Lookup::Found(bytes) => match Location::from_bytes(bytes) {
            Ok(location) => GetLocationResponse {
                success: true,
                message: String::new(),
                vehicle_location: Some(
                    VehicleLocation {
                        vehicle_id: vehicle_id.clone(),
                        longitude: location.get_lng(),
                        latitude: location.get_lat(),
                    },
                ),
            },
            Err(e) => GetLocationResponse {
                success: false,
                message: e.message,
                vehicle_location: None,
            },
        },
        Lookup::Absent => GetLocationResponse {
            success: false,
            message: not_found(vehicle_id),
            vehicle_location: None,
        },
        Lookup::Failed(e) => GetLocationResponse { success: false, message: e, vehicle_location: None },
    }
}

} // verus!
