//! Ingestion decisions: what one inbound message does to the store.
//!
//! The store is a durable map from vehicle id to the 8-byte encoded location;
//! a write replaces the previous value for its id (last write wins). The
//! decision for a message is a value, [`IngestAction`], which the caller
//! carries out against the store.
use vstd::prelude::*;
use crate::codec::{decode_spec, encode_spec, lemma_round_trip};
use crate::parser::{Node, ParseError, parse_vehicle, record_spec};

verus! {

/// What to do with one inbound message.
#[derive(Debug)]
pub enum IngestAction {
    /// Upsert `value` (an encoded location) under the raw bytes of `key`.
    Put { key: String, value: Vec<u8> },
    /// Log the error and drop the message; ingestion goes on.
    Discard(ParseError),
}

/// The store after an upsert of `value` under `id`.
pub open spec fn upsert(
    store: Map<Seq<char>, Seq<u8>>,
    id: Seq<char>,
    value: Seq<u8>,
) -> Map<Seq<char>, Seq<u8>> {
    store.insert(id, value)
}

/// The store after an action has been carried out.
pub open spec fn apply_action(store: Map<Seq<char>, Seq<u8>>, a: IngestAction) -> Map<
    Seq<char>,
    Seq<u8>,
> {
    match a {
        IngestAction::Put { key, value } => upsert(store, key@, value@),
        IngestAction::Discard(_) => store,
    }
}

/// Decides what a message does: a record that passes the schema check is
/// written under its id with its location encoded; any other is discarded
/// with the reason.
pub fn handle_message(payload: &Node) -> (r: IngestAction)
    ensures
        match (record_spec(*payload), r) {
            (Ok((id, (lng, lat))), IngestAction::Put { key, value }) => key@ == id && value@
                == encode_spec(lng, lat),
            (Err(f), IngestAction::Discard(e)) => e@ == f,
            _ => false,
        },
{
    match parse_vehicle(payload) {
        Ok(vehicle) => {
            let value = vehicle.location.as_bytes().clone();
            IngestAction::Put { key: vehicle.id, value }
        },
        Err(e) => IngestAction::Discard(e),
    }
}

/// Writing the same (id, location) twice leaves the store as writing it once:
/// exactly one record for the id, holding the value written.
pub proof fn lemma_upsert_idempotent(store: Map<Seq<char>, Seq<u8>>, id: Seq<char>, value: Seq<u8>)
    ensures
        upsert(upsert(store, id, value), id, value) == upsert(store, id, value),
        upsert(store, id, value).dom() == store.dom().insert(id),
        upsert(store, id, value)[id] == value,
{
    assert(upsert(upsert(store, id, value), id, value) =~= upsert(store, id, value));
}

/// Carrying out the action of one message twice (a redelivery) leaves the
/// store as carrying it out once.
pub proof fn lemma_redelivery_harmless(store: Map<Seq<char>, Seq<u8>>, a: IngestAction)
    ensures
        apply_action(apply_action(store, a), a) == apply_action(store, a),
{
    match a {
        IngestAction::Put { key, value } => lemma_upsert_idempotent(store, key@, value@),
        IngestAction::Discard(_) => {},
    }
}

/// Of two writes for one id, the later one is what the store keeps; records of
/// other ids are untouched.
pub proof fn lemma_last_write_wins(
    store: Map<Seq<char>, Seq<u8>>,
    id: Seq<char>,
    first: Seq<u8>,
    second: Seq<u8>,
)
    ensures
        upsert(upsert(store, id, first), id, second) == upsert(store, id, second),
        forall|other: Seq<char>|
            other != id ==> #[trigger] upsert(upsert(store, id, first), id, second).dom().contains(
                other,
            ) == store.dom().contains(other),
{
    assert(upsert(upsert(store, id, first), id, second) =~= upsert(store, id, second));
}

/// A location written under an id is read back from the store, decoded, as
/// the same pair of coordinates.
pub proof fn lemma_written_location_read_back(
    store: Map<Seq<char>, Seq<u8>>,
    id: Seq<char>,
    lng: u32,
    lat: u32,
)
    ensures
        upsert(store, id, encode_spec(lng, lat)).contains_key(id),
        decode_spec(upsert(store, id, encode_spec(lng, lat))[id]) == Some((lng, lat)),
{
    lemma_round_trip(lng, lat);
}

} // verus!
