//! Invites: the key that is handed over, and the talk with the relay about it.

use vstd::prelude::*;
use vstd::utf8;
use crate::bytes::{exact, ByteStream};
use crate::failure::Failure;
use crate::protocol;
use crate::protocol::{
    take_frame, write_request, FrameKind, Operation, RoomK, UserId, ROOMK_SIZE,
};

verus! {

broadcast use vstd::array::group_array_axioms;

/// Why a text is not hexadecimal.
#[derive(Clone, Copy, Debug, PartialEq, Eq)]
pub enum HexFault {
    /// Two digits make a byte, and one is left over.
    OddLength,
    /// This byte, read as a character, at this position is no digit.
    InvalidCharacter(char, usize),
    /// The digits do not fill a field of fixed size.
    InvalidLength,
}

/// The number below sixteen that a byte writes as a hexadecimal digit, in
/// either case.
pub open spec fn hex_value(byte: u8) -> Option<u8> {
    if 48 <= byte <= 57 {
        Some((byte - 48) as u8)
    } else if 65 <= byte <= 70 {
        Some((byte - 55) as u8)
    } else if 97 <= byte <= 102 {
        Some((byte - 87) as u8)
    } else {
        None
    }
}

/// The lower-case hexadecimal digit that writes a number below sixteen.
pub open spec fn hex_digit(number: int) -> char {
    if number < 10 {
        (48 + number) as char
    } else {
        (87 + number) as char
    }
}

/// The hexadecimal text of a byte string.
pub open spec fn hex_text(data: Seq<u8>) -> Seq<char> {
    Seq::new(
        2 * data.len(),
        |i: int|
            if i % 2 == 0 {
                hex_digit(data[i / 2] as int / 16)
            } else {
                hex_digit(data[i / 2] as int % 16)
            },
    )
}

/// Every byte of `text` is a hexadecimal digit.
pub open spec fn all_hex(text: Seq<u8>) -> bool {
    forall|i: int| 0 <= i < text.len() ==> #[trigger] hex_value(text[i]) is Some
}

/// The byte string that a hexadecimal text writes.
pub open spec fn hex_bytes(text: Seq<u8>) -> Seq<u8> {
    Seq::new(
        text.len() / 2,
        |i: int| (hex_value(text[2 * i])->0 * 16 + hex_value(text[2 * i + 1])->0) as u8,
    )
}

/// `index` is where the first byte that is no hexadecimal digit stands.
pub open spec fn first_non_hex(text: Seq<u8>, index: int) -> bool {
    &&& 0 <= index < text.len()
    &&& hex_value(text[index]) is None
    &&& forall|i: int| 0 <= i < index ==> #[trigger] hex_value(text[i]) is Some
}

/// Writes bytes with `hex::encode`: two lower-case digits each.
#[verifier::external_body]
fn hex_encode(data: &[u8]) -> (text: String)
    requires
        2 * data@.len() <= isize::MAX,
    ensures
        text@ == hex_text(data@),
{
    hex::encode(data)
}

/// Reads bytes with `hex::decode`: an odd number of digits is refused first,
/// then the first byte that is no digit; otherwise each pair of digits, in
/// either case, is a byte.
#[verifier::external_body]
fn hex_decode(text: &[u8]) -> (data: Result<Vec<u8>, HexFault>)
    ensures
        match data {
            Ok(data) => text@.len() % 2 == 0 && all_hex(text@) && data@ == hex_bytes(text@),
            Err(HexFault::OddLength) => text@.len() % 2 == 1,
            Err(HexFault::InvalidCharacter(character, index)) => text@.len() % 2 == 0
                && first_non_hex(text@, index as int) && character == text@[index as int] as char,
            Err(HexFault::InvalidLength) => false,
        },
{
    hex::decode(text).map_err(
        |error|
            match error {
                hex::FromHexError::OddLength => HexFault::OddLength,
                hex::FromHexError::InvalidHexCharacter { c, index } =>
                    HexFault::InvalidCharacter(c, index),
                hex::FromHexError::InvalidStringLength => HexFault::InvalidLength,
            },
    )
}

/// `outcome` is what becomes of an invite key that somebody typed.
pub open spec fn room_key_outcome(key: Seq<char>, outcome: Result<Seq<u8>, Failure>) -> bool {
    let text = utf8::encode_utf8(key);
    if text.len() % 2 == 1 {
        outcome == Err::<Seq<u8>, Failure>(Failure::OddInviteKey)
    } else if !all_hex(text) {
        exists|index: int|
            #[trigger] first_non_hex(text, index) && outcome == Err::<Seq<u8>, Failure>(
                Failure::InviteKeyCharacter(text[index] as char, index as usize),
            )
    } else if text.len() != 2 * ROOMK_SIZE {
        outcome == Err::<Seq<u8>, Failure>(Failure::InviteKeyLength)
    } else {
        outcome == Ok::<Seq<u8>, Failure>(hex_bytes(text))
    }
}

/// The room key that an invite key writes.
pub fn parse_room_key(key: &str) -> (room: Result<RoomK, Failure>)
    ensures
        match room {
            Ok(room) => room_key_outcome(key@, Ok(room@)),
            Err(failure) => room_key_outcome(key@, Err(failure)),
        },
{
    let text: &[u8] = key.as_bytes();
    match hex_decode(text) {
        Ok(data) => {
            if data.len() != ROOMK_SIZE {
                return Err(Failure::InviteKeyLength);
            }
            let bytes: [u8; ROOMK_SIZE] = exact(data.as_slice());
            Ok(RoomK::from(&bytes))
        },
        Err(HexFault::OddLength) => Err(Failure::OddInviteKey),
        Err(HexFault::InvalidCharacter(character, index)) => {
            proof {
                assert(first_non_hex(text@, index as int));
                assert(hex_value(text@[index as int]) is None);
            }
            Err(Failure::InviteKeyCharacter(character, index))
        },
        Err(HexFault::InvalidLength) => Err(Failure::InviteKeyLength),
    }
}

/// The invite key that stands for a room.
pub fn invite_code(key: &RoomK) -> (code: String)
    ensures
        code@ == hex_text(key@),
{
    proof {
        protocol::room_key_is_its_bytes(*key, *key);
    }
    hex_encode(key.bytes())
}

/// The invite key of a room leads back to that room, and to no other.
pub proof fn invite_code_round_trips(key: Seq<u8>, outcome: Result<Seq<u8>, Failure>)
    requires
        key.len() == ROOMK_SIZE,
        room_key_outcome(hex_text(key), outcome),
    ensures
        outcome == Ok::<Seq<u8>, Failure>(key),
{
    let code = hex_text(key);
    let text = utf8::encode_utf8(code);
    assert forall|i: int| 0 <= i < code.len() implies '\0' <= #[trigger] code[i] <= '\u{7f}' by {
        let byte = key[i / 2];
    }
    utf8::is_ascii_chars_encode_utf8(code);
    assert forall|i: int| 0 <= i < text.len() implies #[trigger] hex_value(text[i]) is Some by {
        assert(code[i] as u8 == text[i]);
        let byte = key[i / 2];
    }
    assert forall|i: int| 0 <= i < key.len() implies hex_bytes(text)[i] == key[i] by {
        assert(code[2 * i] as u8 == text[2 * i]);
        assert(code[2 * i + 1] as u8 == text[2 * i + 1]);
        assert((2 * i) / 2 == i && (2 * i + 1) / 2 == i);
        assert(code[2 * i] == hex_digit(key[i] as int / 16));
        assert(code[2 * i + 1] == hex_digit(key[i] as int % 16));
    }
    assert(hex_bytes(text) =~= key);
}

/// Appends the request to join a room.
pub fn accept_invite_notify(stream: &mut Vec<u8>, key: &RoomK, user_id: &UserId)
    ensures
        final(stream)@ == old(stream)@ + protocol::request_frame(
            Operation::Accept,
            user_id@,
            key@,
        ),
{
    write_request(stream, Operation::Accept, user_id, key);
}

/// Takes the relay's word off the stream that the invite was accepted, and by
/// whom.
pub fn check_if_op_accepted(stream: &mut ByteStream) -> (friend: Result<UserId, Failure>)
    ensures
        match friend {
            Ok(friend) => {
                &&& protocol::frame_length(FrameKind::Acceptance, old(stream)@) is Ok
                &&& friend@ == old(stream)@.subrange(1, 17)
            },
            Err(failure) => protocol::frame_length(FrameKind::Acceptance, old(stream)@) == Err::<
                nat,
                Failure,
            >(failure),
        },
        final(stream)@ == old(stream)@.skip(
            protocol::consumed_length(FrameKind::Acceptance, old(stream)@) as int,
        ),
{
    let frame: Vec<u8> = take_frame(FrameKind::Acceptance, stream)?;
    assert(frame@.subrange(1, 17) =~= old(stream)@.subrange(1, 17));
    Ok(UserId::from_bytes(exact(vstd::slice::slice_subrange(frame.as_slice(), 1, 17))))
}

/// Whether a byte is one of `0` to `9`, `a` to `f` and `A` to `F`.
pub open spec fn is_hex_digit(byte: u8) -> bool {
    48 <= byte <= 57 || 97 <= byte <= 102 || 65 <= byte <= 70
}

/// Exactly the ten figures and the six letters, in either case, are digits, and
/// a letter has the same value in both cases.
pub proof fn digits_have_their_values(byte: u8)
    ensures
        hex_value(byte) is Some <==> is_hex_digit(byte),
        48 <= byte <= 57 ==> hex_value(byte)->0 == byte - 48,
        97 <= byte <= 102 ==> hex_value(byte)->0 == byte - 97 + 10,
        97 <= byte <= 102 ==> hex_value((byte - 32) as u8) == hex_value(byte),
{
}

/// An invite key is accepted exactly where it has 32 hexadecimal digits, in
/// either case, and each pair of them is then a byte of the room key.
pub proof fn keys_of_thirty_two_digits_are_accepted(
    key: Seq<char>,
    outcome: Result<Seq<u8>, Failure>,
)
    requires
        room_key_outcome(key, outcome),
    ensures
        ({
            let text = utf8::encode_utf8(key);
            let digits = forall|i: int| 0 <= i < text.len() ==> is_hex_digit(#[trigger] text[i]);
            &&& outcome is Ok <==> text.len() == 32 && digits
            &&& outcome is Ok ==> outcome->Ok_0.len() == 16 && forall|i: int|
                0 <= i < 16 ==> #[trigger] outcome->Ok_0[i] == hex_value(text[2 * i])->0 * 16
                    + hex_value(text[2 * i + 1])->0
            &&& text.len() % 2 == 1 ==> outcome == Err::<Seq<u8>, Failure>(Failure::OddInviteKey)
            &&& text.len() % 2 == 0 && digits && text.len() != 32 ==> outcome == Err::<
                Seq<u8>,
                Failure,
            >(Failure::InviteKeyLength)
        }),
{
    let text = utf8::encode_utf8(key);
    assert forall|i: int| 0 <= i < text.len() implies (#[trigger] hex_value(text[i]) is Some
        <==> is_hex_digit(text[i])) by {
        digits_have_their_values(text[i]);
    }
    if all_hex(text) {
        assert forall|i: int| 0 <= i < text.len() implies is_hex_digit(#[trigger] text[i]) by {
            assert(hex_value(text[i]) is Some);
        }
    } else {
        let i = choose|i: int| 0 <= i < text.len() && !(#[trigger] hex_value(text[i]) is Some);
        assert(!is_hex_digit(text[i]));
    }
    if outcome is Ok {
        assert(all_hex(text) && text.len() == 32);
        assert forall|i: int| 0 <= i < 16 implies #[trigger] outcome->Ok_0[i] == hex_value(
            text[2 * i],
        )->0 * 16 + hex_value(text[2 * i + 1])->0 by {
            assert(hex_value(text[2 * i]) is Some);
            assert(hex_value(text[2 * i + 1]) is Some);
        }
    }
}

/// Of an invite key with an even number of bytes the first one that is no digit
/// is named, with its place.
pub proof fn the_first_wrong_digit_is_named(
    key: Seq<char>,
    outcome: Result<Seq<u8>, Failure>,
    index: int,
)
    requires
        room_key_outcome(key, outcome),
        utf8::encode_utf8(key).len() % 2 == 0,
        utf8::encode_utf8(key).len() <= usize::MAX,
        0 <= index < utf8::encode_utf8(key).len(),
        !is_hex_digit(utf8::encode_utf8(key)[index]),
        forall|i: int| 0 <= i < index ==> is_hex_digit(#[trigger] utf8::encode_utf8(key)[i]),
    ensures
        outcome == Err::<Seq<u8>, Failure>(
            Failure::InviteKeyCharacter(utf8::encode_utf8(key)[index] as char, index as usize),
        ),
{
    let text = utf8::encode_utf8(key);
    digits_have_their_values(text[index]);
    assert(hex_value(text[index]) is None);
    assert(!all_hex(text));
    let at = choose|at: int|
        #[trigger] first_non_hex(text, at) && outcome == Err::<Seq<u8>, Failure>(
            Failure::InviteKeyCharacter(text[at] as char, at as usize),
        );
    assert(first_non_hex(text, at));
    if at < index {
        digits_have_their_values(text[at]);
        assert(is_hex_digit(text[at]));
    } else if index < at {
        assert(hex_value(text[index]) is Some);
    }
}

/// The invite key of a room has two lower-case digits for every byte, and two
/// rooms never have the same.
pub proof fn invite_codes_are_written_in_lower_case(key: Seq<u8>, other: Seq<u8>)
    requires
        key.len() == 16,
        other.len() == 16,
    ensures
        hex_text(key).len() == 32,
        forall|i: int|
            0 <= i < 32 ==> '0' <= #[trigger] hex_text(key)[i] <= '9' || 'a' <= hex_text(key)[i]
                <= 'f',
        hex_text(key) == hex_text(other) ==> key == other,
{
    assert forall|i: int| 0 <= i < 32 implies '0' <= #[trigger] hex_text(key)[i] <= '9' || 'a'
        <= hex_text(key)[i] <= 'f' by {
        let byte = key[i / 2];
    }
    if hex_text(key) == hex_text(other) {
        let code = hex_text(key);
        assert forall|i: int| 0 <= i < 16 implies key[i] == other[i] by {
            assert((2 * i) / 2 == i && (2 * i + 1) / 2 == i);
            assert(code[2 * i] == hex_digit(key[i] as int / 16));
            assert(code[2 * i] == hex_digit(other[i] as int / 16));
            assert(code[2 * i + 1] == hex_digit(key[i] as int % 16));
            assert(code[2 * i + 1] == hex_digit(other[i] as int % 16));
        }
        assert(key =~= other);
    }
}

/// Whoever is given the invite key of a room has the key of that room.
pub proof fn shared_codes_lead_to_the_room(
    key: RoomK,
    code: String,
    copied: &str,
    room: Result<RoomK, Failure>,
)
    requires
        call_ensures(invite_code, (&key,), code),
        copied@ == code@,
        call_ensures(parse_room_key, (copied,), room),
    ensures
        room is Ok,
        room->Ok_0@ == key@,
{
    protocol::room_key_is_its_bytes(key, key);
    match room {
        Ok(found) => invite_code_round_trips(key@, Ok(found@)),
        Err(failure) => invite_code_round_trips(key@, Err(failure)),
    }
}

} // verus!
