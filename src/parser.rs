//! Schema check of an inbound vehicle record.
//!
//! A message is first read into an order-keeping tree ([`Node`]) in which an
//! object is the list of its entries exactly as written, repeated keys
//! included. The record is then checked against the schema
//! `{id: string, location: {lng: number, lat: number}}`: entries are read in
//! order and the first problem met is reported. In the location object an
//! unknown key or a repeated `lng` / `lat` is an error; in the outer object a
//! repeated `id` / `location` is an error and other keys are skipped.
use vstd::prelude::*;
use crate::codec::Location;

verus! {

/// A value of the message tree. Numbers are held as the bit pattern of the
/// 32-bit float they were read as.
#[derive(Debug)]
pub enum Node {
    Text(String),
    Number(u32),
    Object(Vec<Entry>),
    Other,
}

/// One `key: value` entry of an object.
#[derive(Debug)]
pub struct Entry {
    pub key: String,
    pub value: Node,
}

/// The fields that the schema names.
#[derive(Clone, Copy, PartialEq, Eq, Structural, Debug)]
pub enum FieldName {
    Id,
    Location,
    Lng,
    Lat,
}

/// Why a record was rejected.
#[derive(Debug)]
pub enum ParseError {
    MissingField(FieldName),
    DuplicateField(FieldName),
    UnknownField(String),
    /// A value of the wrong shape (a non-string id, a non-number coordinate,
    /// a location or a record that is not an object).
    NotWellFormed,
}

/// The mathematical form of a [`ParseError`].
pub enum ParseFault {
    MissingField(FieldName),
    DuplicateField(FieldName),
    UnknownField(Seq<char>),
    NotWellFormed,
}

impl View for ParseError {
    type V = ParseFault;

    open spec fn view(&self) -> ParseFault {
        match self {
            ParseError::MissingField(f) => ParseFault::MissingField(*f),
            ParseError::DuplicateField(f) => ParseFault::DuplicateField(*f),
            ParseError::UnknownField(k) => ParseFault::UnknownField(k@),
            ParseError::NotWellFormed => ParseFault::NotWellFormed,
        }
    }
}

/// A parsed vehicle record.
#[derive(Debug)]
pub struct Vehicle {
    pub id: String,
    pub location: Location,
}

/// Coordinates seen so far in a location object.
pub type CoordsSeen = (Option<u32>, Option<u32>);

/// Reads one entry of a location object.
pub open spec fn coord_step(seen: CoordsSeen, e: Entry) -> Result<CoordsSeen, ParseFault> {
    if e.key@ == "lng"@ {
        if seen.0 is Some {
            Err(ParseFault::DuplicateField(FieldName::Lng))
        } else {
            match e.value {
                Node::Number(b) => Ok((Some(b), seen.1)),
                _ => Err(ParseFault::NotWellFormed),
            }
        }
    } else if e.key@ == "lat"@ {
        if seen.1 is Some {
            Err(ParseFault::DuplicateField(FieldName::Lat))
        } else {
            match e.value {
                Node::Number(b) => Ok((seen.0, Some(b))),
                _ => Err(ParseFault::NotWellFormed),
            }
        }
    } else {
        Err(ParseFault::UnknownField(e.key@))
    }
}

/// Reads the entries of a location object in order, stopping at the first error.
pub open spec fn coord_scan(es: Seq<Entry>) -> Result<CoordsSeen, ParseFault>
    decreases es.len(),
{
    if es.len() == 0 {
        Ok((None, None))
    } else {
        match coord_scan(es.drop_last()) {
            Ok(seen) => coord_step(seen, es.last()),
            Err(f) => Err(f),
        }
    }
}

/// The (longitude, latitude) bit patterns that a location object gives, or why
/// it is rejected.
pub open spec fn location_spec(es: Seq<Entry>) -> Result<(u32, u32), ParseFault> {
    match coord_scan(es) {
        Err(f) => Err(f),
        Ok((None, _)) => Err(ParseFault::MissingField(FieldName::Lng)),
        Ok((Some(_), None)) => Err(ParseFault::MissingField(FieldName::Lat)),
        Ok((Some(lng), Some(lat))) => Ok((lng, lat)),
    }
}

/// Fields seen so far in a record object.
pub type RecordSeen = (Option<Seq<char>>, Option<(u32, u32)>);

/// Reads one entry of a record object; keys other than `id` and `location`
/// are skipped.
pub open spec fn record_step(seen: RecordSeen, e: Entry) -> Result<RecordSeen, ParseFault> {
    if e.key@ == "id"@ {
        if seen.0 is Some {
            Err(ParseFault::DuplicateField(FieldName::Id))
        } else {
            match e.value {
                Node::Text(s) => Ok((Some(s@), seen.1)),
                _ => Err(ParseFault::NotWellFormed),
            }
        }
    } else if e.key@ == "location"@ {
        if seen.1 is Some {
            Err(ParseFault::DuplicateField(FieldName::Location))
        } else {
            match e.value {
                Node::Object(es) => match location_spec(es@) {
                    Ok(p) => Ok((seen.0, Some(p))),
                    Err(f) => Err(f),
                },
                _ => Err(ParseFault::NotWellFormed),
            }
        }
    } else {
        Ok(seen)
    }
}

/// Reads the entries of a record object in order, stopping at the first error.
pub open spec fn record_scan(es: Seq<Entry>) -> Result<RecordSeen, ParseFault>
    decreases es.len(),
{
    if es.len() == 0 {
        Ok((None, None))
    } else {
        match record_scan(es.drop_last()) {
            Ok(seen) => record_step(seen, es.last()),
            Err(f) => Err(f),
        }
    }
}

/// The (id, (longitude, latitude)) that the entries of a record object give,
/// or why they are rejected.
pub open spec fn record_entries_spec(es: Seq<Entry>) -> Result<(Seq<char>, (u32, u32)), ParseFault> {
    match record_scan(es) {
        Err(f) => Err(f),
        Ok((None, _)) => Err(ParseFault::MissingField(FieldName::Id)),
        Ok((Some(_), None)) => Err(ParseFault::MissingField(FieldName::Location)),
        Ok((Some(id), Some(p))) => Ok((id, p)),
    }
}

/// The (id, (longitude, latitude)) that a message tree gives, or why it is
/// rejected.
pub open spec fn record_spec(root: Node) -> Result<(Seq<char>, (u32, u32)), ParseFault> {
    match root {
        Node::Object(es) => record_entries_spec(es@),
        _ => Err(ParseFault::NotWellFormed),
    }
}

/// Once the scan of a prefix fails, the scan of the whole fails the same way.
proof fn lemma_coord_error_kept(es: Seq<Entry>, n: int)
    requires
        0 <= n <= es.len(),
        coord_scan(es.subrange(0, n)) is Err,
    ensures
        coord_scan(es) == coord_scan(es.subrange(0, n)),
    decreases es.len(),
{
    if es.len() > n {
        assert(es.drop_last().subrange(0, n) =~= es.subrange(0, n));
        lemma_coord_error_kept(es.drop_last(), n);
    } else {
        assert(es.subrange(0, n) =~= es);
    }
}

/// Without a `lat` entry, a successful scan has seen no latitude.
proof fn lemma_lat_unseen(es: Seq<Entry>)
    requires
        forall|i: int| 0 <= i < es.len() ==> es[i].key@ != "lat"@,
    ensures
        coord_scan(es) matches Ok(seen) ==> seen.1 is None,
    decreases es.len(),
{
    if es.len() > 0 {
        lemma_lat_unseen(es.drop_last());
    }
}

/// A location object without a `lat` entry is never accepted; when nothing
/// else is wrong with it, the error is the missing `lat`.
pub proof fn lemma_missing_lat_rejected(es: Seq<Entry>)
    requires
        forall|i: int| 0 <= i < es.len() ==> es[i].key@ != "lat"@,
    ensures
        location_spec(es) is Err,
        coord_scan(es) matches Ok((Some(_), _)) ==> location_spec(es) == Err::<(u32, u32), ParseFault>(
            ParseFault::MissingField(FieldName::Lat),
        ),
{
    lemma_lat_unseen(es);
}

/// Once a `lng` entry has been read, a successful scan holds a longitude.
proof fn lemma_lng_seen(es: Seq<Entry>, i: int, k: int)
    requires
        0 <= i < k <= es.len(),
        es[i].key@ == "lng"@,
    ensures
        coord_scan(es.subrange(0, k)) matches Ok(seen) ==> seen.0 is Some,
    decreases k,
{
    let pre = es.subrange(0, k);
    assert(pre.drop_last() =~= es.subrange(0, k - 1));
    assert(pre.last() == es[k - 1]);
    if k > i + 1 {
        lemma_lng_seen(es, i, k - 1);
    }
}

/// A location object with two `lng` entries is never accepted; when nothing
/// is wrong before the second one, the error is the repeated `lng`.
pub proof fn lemma_repeated_lng_rejected(es: Seq<Entry>, i: int, j: int)
    requires
        0 <= i < j < es.len(),
        es[i].key@ == "lng"@,
        es[j].key@ == "lng"@,
    ensures
        location_spec(es) is Err,
        coord_scan(es.subrange(0, j)) is Ok ==> location_spec(es) == Err::<(u32, u32), ParseFault>(
            ParseFault::DuplicateField(FieldName::Lng),
        ),
{
    lemma_lng_seen(es, i, j);
    let pre = es.subrange(0, j + 1);
    assert(pre.drop_last() =~= es.subrange(0, j));
    assert(pre.last() == es[j]);
    lemma_coord_error_kept(es, j + 1);
}

/// Whether `key` is the text `name`.
fn key_is(key: &String, name: &str) -> (r: bool)
    ensures
        r == (key@ == name@),
{
    let owned = name.to_string();
    *key == owned
}

/// Checks a location object and encodes the pair it gives.
pub fn parse_location(entries: &Vec<Entry>) -> (r: Result<Location, ParseError>)
    ensures
        match r {
            Ok(loc) => location_spec(entries@) == Ok::<(u32, u32), ParseFault>(loc@),
            Err(e) => location_spec(entries@) == Err::<(u32, u32), ParseFault>(e@),
        },
{
    let mut lng: Option<u32> = None;
    let mut lat: Option<u32> = None;
    let mut i: usize = 0;
    while i < entries.len()
        invariant
            i <= entries@.len(),
            coord_scan(entries@.subrange(0, i as int)) == Ok::<CoordsSeen, ParseFault>((lng, lat)),
        decreases entries@.len() - i,
    {
        let e = &entries[i];
        proof {
            let pre = entries@.subrange(0, i as int + 1);
            assert(pre.drop_last() =~= entries@.subrange(0, i as int));
            assert(pre.last() == *e);
        }
        if key_is(&e.key, "lng") {
            if lng.is_some() {
                proof {
                    lemma_coord_error_kept(entries@, i + 1);
                }
                return Err(ParseError::DuplicateField(FieldName::Lng));
            }
            match &e.value {
                Node::Number(b) => {
                    lng = Some(*b);
                },
                _ => {
                    proof {
                        lemma_coord_error_kept(entries@, i + 1);
                    }
                    return Err(ParseError::NotWellFormed);
                },
            }
        } else if key_is(&e.key, "lat") {
            if lat.is_some() {
                proof {
                    lemma_coord_error_kept(entries@, i + 1);
                }
                return Err(ParseError::DuplicateField(FieldName::Lat));
            }
            match &e.value {
                Node::Number(b) => {
                    lat = Some(*b);
                },
                _ => {
                    proof {
                        lemma_coord_error_kept(entries@, i + 1);
                    }
                    return Err(ParseError::NotWellFormed);
                },
            }
        } else {
            proof {
                    lemma_coord_error_kept(entries@, i + 1);
                }
                return Err(ParseError::UnknownField(e.key.clone()));
        }
        i = i + 1;
    }
    proof {
        assert(entries@.subrange(0, i as int) =~= entries@);
    }
    match (lng, lat) {
        (None, _) => Err(ParseError::MissingField(FieldName::Lng)),
        (Some(_), None) => Err(ParseError::MissingField(FieldName::Lat)),
        (Some(x), Some(y)) => Ok(Location::new(x, y)),
    }
}

/// Once the scan of a prefix fails, the scan of the whole fails the same way.
proof fn lemma_record_error_kept(es: Seq<Entry>, n: int)
    requires
        0 <= n <= es.len(),
        record_scan(es.subrange(0, n)) is Err,
    ensures
        record_scan(es) == record_scan(es.subrange(0, n)),
    decreases es.len(),
{
    if es.len() > n {
        assert(es.drop_last().subrange(0, n) =~= es.subrange(0, n));
        lemma_record_error_kept(es.drop_last(), n);
    } else {
        assert(es.subrange(0, n) =~= es);
    }
}

/// Checks a message tree against the vehicle-record schema; on success the
/// location is already in its 8-byte form.
pub fn parse_vehicle(root: &Node) -> (r: Result<Vehicle, ParseError>)
    ensures
        match r {
            Ok(v) => record_spec(*root) == Ok::<(Seq<char>, (u32, u32)), ParseFault>(
                (v.id@, v.location@),
            ),
            Err(e) => record_spec(*root) == Err::<(Seq<char>, (u32, u32)), ParseFault>(e@),
        },
{
    match root {
        Node::Object(entries) => parse_record(entries),
        _ => Err(ParseError::NotWellFormed),
    }
}

/// Checks the entries of a record object.
fn parse_record(entries: &Vec<Entry>) -> (r: Result<Vehicle, ParseError>)
    ensures
        match r {
            Ok(v) => record_entries_spec(entries@) == Ok::<(Seq<char>, (u32, u32)), ParseFault>(
                (v.id@, v.location@),
            ),
            Err(e) => record_entries_spec(entries@) == Err::<(Seq<char>, (u32, u32)), ParseFault>(
                e@,
            ),
        },
{
    let mut id: Option<String> = None;
    let mut location: Option<Location> = None;
    let mut i: usize = 0;
    while i < entries.len()
        invariant
            i <= entries@.len(),
            record_scan(entries@.subrange(0, i as int)) == Ok::<RecordSeen, ParseFault>(
                (
                    match id {
                        Some(s) => Some(s@),
                        None => None,
                    },
                    match location {
                        Some(l) => Some(l@),
                        None => None,
                    },
                ),
            ),
        decreases entries@.len() - i,
    {
        let e = &entries[i];
        proof {
            let pre = entries@.subrange(0, i as int + 1);
            assert(pre.drop_last() =~= entries@.subrange(0, i as int));
            assert(pre.last() == *e);
        }
        if key_is(&e.key, "id") {
            if id.is_some() {
                proof {
                    lemma_record_error_kept(entries@, i + 1);
                }
                return Err(ParseError::DuplicateField(FieldName::Id));
            }
            match &e.value {
                Node::Text(s) => {
                    id = Some(s.clone());
                },
                _ => {
                    proof {
                        lemma_record_error_kept(entries@, i + 1);
                    }
                    return Err(ParseError::NotWellFormed);
                },
            }
        } else if key_is(&e.key, "location") {
            if location.is_some() {
                proof {
                    lemma_record_error_kept(entries@, i + 1);
                }
                return Err(ParseError::DuplicateField(FieldName::Location));
            }
            match &e.value {
                Node::Object(es) => match parse_location(es) {
                    Ok(loc) => {
                        location = Some(loc);
                    },
                    Err(err) => {
                        proof {
                            lemma_record_error_kept(entries@, i + 1);
                        }
                        return Err(err);
                    },
                },
                _ => {
                    proof {
                        lemma_record_error_kept(entries@, i + 1);
                    }
                    return Err(ParseError::NotWellFormed);
                },
            }
        }
        i = i + 1;
    }
    proof {
        assert(entries@.subrange(0, i as int) =~= entries@);
    }
    match (id, location) {
        (None, _) => Err(ParseError::MissingField(FieldName::Id)),
        (Some(_), None) => Err(ParseError::MissingField(FieldName::Location)),
        (Some(id), Some(location)) => Ok(Vehicle { id, location }),
    }
}

} // verus!
