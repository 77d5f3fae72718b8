//! Random, immutable identities of catalog tracks and playlists.

use vstd::prelude::*;

verus! {

/// The version and variant bits that every random (version 4, RFC 4122)
/// UUID carries, whatever its random payload.
pub open spec fn is_random_uuid(value: u128) -> bool {
    &&& (value >> 76u128) & 0xfu128 == 4u128
    &&& (value >> 62u128) & 0x3u128 == 2u128
}

/// Draws a fresh random UUID from `uuid::Uuid::new_v4`.
///
/// The contract claims only what holds of every outcome of that call: the
/// version nibble is 4 and the variant bits are `10`, which `new_v4` sets by
/// masking its random payload. Which UUID comes out is left unsaid: it rests
/// on the operating system's random source.
#[verifier::external_body]
fn random_uuid() -> (value: u128)
    ensures
        is_random_uuid(value),
{
    uuid::Uuid::new_v4().as_u128()
}

/// The lowercase hexadecimal digit for `d < 16`.
pub open spec fn hex_digit(d: u128) -> char {
    if d < 10 {
        (('0' as u128) + d) as char
    } else {
        (('a' as u128) + d - 10) as char
    }
}

/// Which of the 32 hexadecimal digits (most significant first) stands at
/// text position `i` of the hyphenated form.
pub open spec fn uuid_digit_position(i: int) -> int {
    if i < 8 {
        i
    } else if i < 13 {
        i - 1
    } else if i < 18 {
        i - 2
    } else if i < 23 {
        i - 3
    } else {
        i - 4
    }
}

/// The hyphenated lowercase form of a UUID, `xxxxxxxx-xxxx-xxxx-xxxx-xxxxxxxxxxxx`,
/// most significant digit first.
pub open spec fn uuid_text(value: u128) -> Seq<char> {
    Seq::new(
        36,
        |i: int|
            if i == 8 || i == 13 || i == 18 || i == 23 {
                '-'
            } else {
                hex_digit((value >> (4 * (31 - uuid_digit_position(i))) as u128) & 0xfu128)
            },
    )
}

/// The UUID that `uuid::Uuid::parse_str` reads from a text, if it accepts it.
pub uninterp spec fn parsed_uuid(text: Seq<char>) -> Option<u128>;

/// Formats a UUID with `uuid::Uuid`'s `Display`, which writes the
/// hyphenated lowercase form (as its documentation shows for `from_u128`).
#[verifier::external_body]
fn uuid_string(value: u128) -> (text: String)
    ensures
        text@ == uuid_text(value),
{
    uuid::Uuid::from_u128(value).to_string()
}

/// Parses a UUID with `uuid::Uuid::parse_str`.
///
/// The accepted forms (simple, hyphenated, braced, URN) are not spelled
/// out: the result is named. The contract states one fact the crate
/// documents: the hyphenated form that `Display` writes parses back to the
/// same value.
#[verifier::external_body]
fn parse_uuid(text: &str) -> (value: Option<u128>)
    ensures
        value == parsed_uuid(text@),
        forall|v: u128| text@ == uuid_text(v) ==> value == Some(v),
{
    uuid::Uuid::parse_str(text).ok().map(|u| u.as_u128())
}

/// A text that is no UUID.
#[derive(Debug, Clone, Copy, PartialEq, Eq, Structural)]
pub struct InvalidId;

/// Immutable identity of one catalog track record.
#[derive(Debug, Clone, Copy, PartialEq, Eq, Hash, Structural)]
pub struct TrackId(pub u128);

/// Immutable identity of one playlist.
#[derive(Debug, Clone, Copy, PartialEq, Eq, Hash, Structural)]
pub struct PlaylistId(pub u128);

impl TrackId {
    /// A new random identity.
    pub fn new() -> (id: TrackId)
        ensures
            is_random_uuid(id.0),
    {
        TrackId(random_uuid())
    }
}

impl TrackId {
    /// The hyphenated lowercase UUID text, as stored in the catalog.
    pub fn to_string(&self) -> (text: String)
        ensures
            text@ == uuid_text(self.0),
    {
        uuid_string(self.0)
    }

    /// Reads an identity from its UUID text; the text that `to_string`
    /// writes reads back as the same identity.
    pub fn from_str(text: &str) -> (id: Result<TrackId, InvalidId>)
        ensures
            match parsed_uuid(text@) {
                Some(v) => id == Ok::<TrackId, InvalidId>(TrackId(v)),
                None => id == Err::<TrackId, InvalidId>(InvalidId),
            },
            forall|v: u128| text@ == uuid_text(v) ==> id == Ok::<TrackId, InvalidId>(TrackId(v)),
    {
        match parse_uuid(text) {
            Some(v) => Ok(TrackId(v)),
            None => Err(InvalidId),
        }
    }
}

impl PlaylistId {
    /// The hyphenated lowercase UUID text, as stored in the catalog.
    pub fn to_string(&self) -> (text: String)
        ensures
            text@ == uuid_text(self.0),
    {
        uuid_string(self.0)
    }

    /// Reads an identity from its UUID text; the text that `to_string`
    /// writes reads back as the same identity.
    pub fn from_str(text: &str) -> (id: Result<PlaylistId, InvalidId>)
        ensures
            match parsed_uuid(text@) {
                Some(v) => id == Ok::<PlaylistId, InvalidId>(PlaylistId(v)),
                None => id == Err::<PlaylistId, InvalidId>(InvalidId),
            },
            forall|v: u128| text@ == uuid_text(v) ==> id == Ok::<PlaylistId, InvalidId>(PlaylistId(v)),
    {
        match parse_uuid(text) {
            Some(v) => Ok(PlaylistId(v)),
            None => Err(InvalidId),
        }
    }
}

impl PlaylistId {
    /// A new random identity.
    pub fn new() -> (id: PlaylistId)
        ensures
            is_random_uuid(id.0),
    {
        PlaylistId(random_uuid())
    }
}

impl Default for TrackId {
    fn default() -> (id: TrackId)
        ensures
            is_random_uuid(id.0),
    {
        TrackId::new()
    }
}

impl Default for PlaylistId {
    fn default() -> (id: PlaylistId)
        ensures
            is_random_uuid(id.0),
    {
        PlaylistId::new()
    }
}

} // verus!
