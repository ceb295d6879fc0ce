//! Fixed 8-byte little-endian encoding of a (longitude, latitude) pair.
//!
//! Each coordinate is a 32-bit float; the library holds it as its IEEE-754 bit
//! pattern (`f32::to_bits`), so the encoding is a raw reinterpretation of bytes
//! and every pattern, NaN and the infinities included, round-trips exactly.
use vstd::prelude::*;

verus! {

/// The four little-endian bytes of a 32-bit word.
pub open spec fn le_bytes(x: u32) -> Seq<u8> {
    seq![
        (x & 0xff) as u8,
        ((x >> 8u32) & 0xff) as u8,
        ((x >> 16u32) & 0xff) as u8,
        ((x >> 24u32) & 0xff) as u8,
    ]
}

/// The 32-bit word whose little-endian bytes are `b[0..4]`.
pub open spec fn le_word(b: Seq<u8>) -> u32
    recommends
        b.len() >= 4,
{
    (b[0] as u32) | ((b[1] as u32) << 8u32) | ((b[2] as u32) << 16u32) | ((b[3] as u32) << 24u32)
}

/// The canonical encoding: longitude bytes [0, 4), latitude bytes [4, 8).
pub open spec fn encode_spec(lng: u32, lat: u32) -> Seq<u8> {
    le_bytes(lng) + le_bytes(lat)
}

/// What a byte string decodes to: nothing when it is shorter than 8 bytes,
/// else the pair held by its first 8 bytes (later bytes are not read).
pub open spec fn decode_spec(b: Seq<u8>) -> Option<(u32, u32)> {
    if b.len() < 8 {
        None
    } else {
        Some((le_word(b.subrange(0, 4)), le_word(b.subrange(4, 8))))
    }
}

/// Reading back the bytes of a word gives the word.
pub proof fn lemma_word_round_trip(x: u32)
    ensures
        le_word(le_bytes(x)) == x,
{
    let b0 = (x & 0xff) as u8;
    let b1 = ((x >> 8u32) & 0xff) as u8;
    let b2 = ((x >> 16u32) & 0xff) as u8;
    let b3 = ((x >> 24u32) & 0xff) as u8;
    assert((b0 as u32) | ((b1 as u32) << 8u32) | ((b2 as u32) << 16u32) | ((b3 as u32) << 24u32)
        == x) by (bit_vector)
        requires
            b0 == (x & 0xff) as u8,
            b1 == ((x >> 8u32) & 0xff) as u8,
            b2 == ((x >> 16u32) & 0xff) as u8,
            b3 == ((x >> 24u32) & 0xff) as u8,
    ;
}

/// Decoding an encoding gives back both coordinates bit for bit, for every
/// pair of bit patterns: finite values, NaN payloads and the infinities alike.
pub proof fn lemma_round_trip(lng: u32, lat: u32)
    ensures
        encode_spec(lng, lat).len() == 8,
        decode_spec(encode_spec(lng, lat)) == Some((lng, lat)),
{
    let e = encode_spec(lng, lat);
    assert(e.subrange(0, 4) =~= le_bytes(lng));
    assert(e.subrange(4, 8) =~= le_bytes(lat));
    lemma_word_round_trip(lng);
    lemma_word_round_trip(lat);
}

/// Appends the four little-endian bytes of `x`.
fn push_le(out: &mut Vec<u8>, x: u32)
    ensures
        final(out)@ == old(out)@ + le_bytes(x),
{
    out.push((x & 0xff) as u8);
    out.push(((x >> 8u32) & 0xff) as u8);
    out.push(((x >> 16u32) & 0xff) as u8);
    out.push(((x >> 24u32) & 0xff) as u8);
    assert(final(out)@ =~= old(out)@ + le_bytes(x));
}

/// Reads the little-endian word at `b[at..at + 4]`.
fn read_le(b: &Vec<u8>, at: usize) -> (r: u32)
    requires
        at <= 4,
        8 <= b@.len(),
    ensures
        r == le_word(b@.subrange(at as int, at + 4)),
{
    let b0 = b[at] as u32;
    let b1 = b[at + 1] as u32;
    let b2 = b[at + 2] as u32;
    let b3 = b[at + 3] as u32;
    b0 | (b1 << 8u32) | (b2 << 16u32) | (b3 << 24u32)
}

/// The 8-byte encoding of a pair of coordinate bit patterns; total.
pub fn encode(lng: u32, lat: u32) -> (r: Vec<u8>)
    ensures
        r@ == encode_spec(lng, lat),
{
    let mut r: Vec<u8> = Vec::with_capacity(8);
    push_le(&mut r, lng);
    push_le(&mut r, lat);
    assert(r@ =~= encode_spec(lng, lat));
    r
}

/// Error of the codec: the bytes are too short to hold a location.
#[derive(Debug)]
pub struct AppError {
    pub message: String,
}

/// A location: both coordinates and their encoding, which always agree.
#[derive(Debug)]
pub struct Location {
    lng: u32,
    lat: u32,
    encoded: Vec<u8>,
}

impl View for Location {
    /// The bit patterns of (longitude, latitude).
    type V = (u32, u32);

    closed spec fn view(&self) -> (u32, u32) {
        (self.lng, self.lat)
    }
}

impl Location {
    /// The encoded bytes held by this location.
    pub closed spec fn bytes(&self) -> Seq<u8> {
        self.encoded@
    }

    #[verifier::type_invariant]
    spec fn encoding_agrees(self) -> bool {
        self.encoded@ == encode_spec(self.lng, self.lat)
    }

    /// A location from the bit patterns of its two coordinates.
    pub fn new(lng: u32, lat: u32) -> (r: Location)
        ensures
            r@ == (lng, lat),
            r.bytes() == encode_spec(lng, lat),
    {
        Location { lng, lat, encoded: encode(lng, lat) }
    }

    /// Decodes the first 8 bytes; fails with "Malformed data" on fewer than 8.
    pub fn from_bytes(bytes: Vec<u8>) -> (r: Result<Location, AppError>)
        ensures
            match r {
                Ok(loc) => decode_spec(bytes@) == Some(loc@),
                Err(e) => decode_spec(bytes@) is None && e.message@ == "Malformed data"@,
            },
    {
        if bytes.len() < 8 {
            Err(AppError { message: "Malformed data".to_string() })
        } else {
            let lng = read_le(&bytes, 0);
            let lat = read_le(&bytes, 4);
            Ok(Location::new(lng, lat))
        }
    }

    /// The 8-byte encoding of this location.
    pub fn as_bytes(&self) -> (r: &Vec<u8>)
        ensures
            r@ == self.bytes(),
            r@ == encode_spec(self@.0, self@.1),
    {
        proof {
            use_type_invariant(self);
        }
        &self.encoded
    }

    /// Replaces the longitude and the bytes that encode it.
    pub fn set_lng(&mut self, lng: u32)
        ensures
            final(self)@ == (lng, old(self)@.1),
            final(self).bytes() == encode_spec(final(self)@.0, final(self)@.1),
            decode_spec(final(self).bytes()) == Some((lng, old(self)@.1)),
    {
        *self = Location::new(lng, self.lat);
        proof {
            lemma_round_trip(self@.0, self@.1);
        }
    }

    /// The bit pattern of the longitude.
    pub fn get_lng(&self) -> (r: u32)
        ensures
            r == self@.0,
    {
        self.lng
    }

    /// Replaces the latitude and the bytes that encode it.
    pub fn set_lat(&mut self, lat: u32)
        ensures
            final(self)@ == (old(self)@.0, lat),
            final(self).bytes() == encode_spec(final(self)@.0, final(self)@.1),
            decode_spec(final(self).bytes()) == Some((old(self)@.0, lat)),
    {
        *self = Location::new(self.lng, lat);
        proof {
            lemma_round_trip(self@.0, self@.1);
        }
    }

    /// The bit pattern of the latitude.
    pub fn get_lat(&self) -> (r: u32)
        ensures
            r == self@.1,
    {
        self.lat
    }
}

} // verus!
