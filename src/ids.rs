//! Identities as `u128` values, and the calls into `uuid` that make, read
//! and print them.
use vstd::prelude::*;

use crate::messages::{GetPlayerDetails, RoomDetails};

verus! {

/// The version and variant bits that every random identity carries.
pub const V4_MASK: u128 = 0xF000_C000_0000_0000_0000;

pub const V4_BITS: u128 = 0x4000_8000_0000_0000_0000;

/// What `Uuid::from_str` makes of a text: the identity, or nothing when the
/// text is no UUID.
pub uninterp spec fn parsed_id(s: Seq<char>) -> Option<u128>;

/// The lower-case hex digit of a value below sixteen.
pub open spec fn hex_digit(n: u128) -> char {
    seq!['0', '1', '2', '3', '4', '5', '6', '7', '8', '9', 'a', 'b', 'c', 'd', 'e', 'f'][n as int]
}

/// Which of the 32 hex digits stands at position `i` of the hyphenated text.
pub open spec fn digit_index(i: int) -> int {
    if i < 8 {
        i
    } else if i < 13 {
        i - 1
    } else if i < 18 {
        i - 2
    } else if i < 23 {
        i - 3
    } else {
        i - 4
    }
}

/// The hyphenated lower-case text of an identity, most significant digit
/// first, in groups of 8, 4, 4, 4 and 12 digits.
pub open spec fn id_text_of(id: u128) -> Seq<char> {
    Seq::new(
        36,
        |i: int|
            if i == 8 || i == 13 || i == 18 || i == 23 {
                '-'
            } else {
                hex_digit((id >> ((4 * (31 - digit_index(i))) as u128)) & 0xF)
            },
    )
}

/// Relies on `uuid::Uuid::new_v4` (and `as_u128`): a random identity with
/// the version-4 and RFC variant bits set, as its source masks them in.
#[verifier::external_body]
pub(crate) fn fresh_id() -> (r: u128)
    ensures
        r & V4_MASK == V4_BITS,
{
    uuid::Uuid::new_v4().as_u128()
}

/// Relies on `uuid::Uuid::from_str` (and `as_u128`, the big-endian value of
/// the UUID's bytes): parses a UUID, failing on any other text.
#[verifier::external_body]
pub(crate) fn parse_id(s: &str) -> (r: Option<u128>)
    ensures
        r == parsed_id(s@),
{
    match <uuid::Uuid as std::str::FromStr>::from_str(s) {
        Ok(u) => Some(u.as_u128()),
        Err(_) => None,
    }
}

/// Relies on `uuid::Uuid::from_u128` and `Uuid`'s `to_string`, which writes
/// the big-endian bytes as hyphenated lower-case hex.
#[verifier::external_body]
pub(crate) fn id_text(id: u128) -> (r: String)
    ensures
        r@ == id_text_of(id),
{
    uuid::Uuid::from_u128(id).to_string()
}

/// Reads the room of a room lookup; `None` when the text is no identity.
pub fn parse_details_request(room_id: &str) -> (r: Option<RoomDetails>)
    ensures
        r == (match parsed_id(room_id@) {
            Some(id) => Some(RoomDetails(id)),
            None => None,
        }),
{
    match parse_id(room_id) {
        Some(id) => Some(RoomDetails(id)),
        None => None,
    }
}

/// Reads the room and user of a player lookup; `None` unless both texts
/// are identities.
pub fn parse_player_request(room_id: &str, user_id: &str) -> (r: Option<GetPlayerDetails>)
    ensures
        r == (match (parsed_id(room_id@), parsed_id(user_id@)) {
            (Some(room), Some(user)) => Some(GetPlayerDetails { user_id: user, room_id: room }),
            _ => None,
        }),
{
    let room = parse_id(room_id);
    let user = parse_id(user_id);
    match (room, user) {
        (Some(room), Some(user)) => Some(GetPlayerDetails { user_id: user, room_id: room }),
        _ => None,
    }
}

} // verus!
