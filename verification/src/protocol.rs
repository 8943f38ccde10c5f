//! The vocabulary of the wire: operations, user IDs, room keys, and how long
//! each kind of frame is.

use vstd::prelude::*;
use crate::bytes;
use crate::bytes::{exact, extend, from_big_endian, same_bytes, ByteStream};
use crate::failure::Failure;

verus! {

broadcast use vstd::array::group_array_axioms;

/// Where the relay listens.
pub const SERVE_IP: &'static str = "127.0.0.1:1278";

pub const ROOMK_SIZE: usize = 16;

pub const USER_ID_SIZE: usize = 16;

pub const MESSAGE_PUBLIC_KEY_SIZE: usize = 32;

pub const MESSAGE_NONCE_SIZE: usize = 24;

pub const MESSAGE_TAG_SIZE: usize = 16;

pub const MAX_MESSAGE_SIZE: u64 = 1024 * 1024;

pub const NAME_LEN: usize = 30;

pub const PIC_SIZE: usize = 120 * 64;

pub const BIO_LEN: usize = 250;

/// What the first byte of a frame asks for.
#[derive(Clone, Copy, Debug, PartialEq, Eq, Structural)]
pub enum Operation {
    WaitingForJoin,
    Accept,
    HandShake,
    ShowMyData,
    Message,
    Talk,
}

/// The byte that stands for an operation; these numbers never change.
pub open spec fn operation_code(operation: Operation) -> u8 {
    match operation {
        Operation::WaitingForJoin => 1,
        Operation::Accept => 2,
        Operation::HandShake => 3,
        Operation::ShowMyData => 4,
        Operation::Message => 5,
        Operation::Talk => 6,
    }
}

impl Operation {
    /// The byte that stands for this operation.
    pub fn code(self) -> (code: u8)
        ensures
            code == operation_code(self),
    {
        match self {
            Operation::WaitingForJoin => 1,
            Operation::Accept => 2,
            Operation::HandShake => 3,
            Operation::ShowMyData => 4,
            Operation::Message => 5,
            Operation::Talk => 6,
        }
    }
}

/// Different operations have different codes.
pub proof fn operation_codes_are_distinct(one: Operation, other: Operation)
    requires
        operation_code(one) == operation_code(other),
    ensures
        one == other,
{
}

/// Asks `getrandom::fill` for sixteen random bytes. Nothing is promised of
/// them; where the operating system gives none, its error comes back.
#[verifier::external_body]
fn random_bytes() -> (outcome: Result<[u8; 16], getrandom::Error>)
{
    let mut bytes = [0u8; 16];
    getrandom::fill(&mut bytes)?;
    Ok(bytes)
}

/// Who somebody is: a random number that stays the same.
#[derive(Clone, Copy, Debug, Hash)]
pub struct UserId([u8; USER_ID_SIZE]);

impl View for UserId {
    type V = Seq<u8>;

    closed spec fn view(&self) -> Seq<u8> {
        self.0@
    }
}

impl PartialEq for UserId {
    fn eq(&self, other: &Self) -> (same: bool) {
        same_bytes(&self.0, &other.0)
    }
}

impl Eq for UserId {

}

impl vstd::std_specs::cmp::PartialEqSpecImpl for UserId {
    open spec fn obeys_eq_spec() -> bool {
        true
    }

    open spec fn eq_spec(&self, other: &Self) -> bool {
        self@ == other@
    }
}

/// User IDs with the same bytes are the same.
pub proof fn user_id_is_its_bytes(one: UserId, other: UserId)
    ensures
        one@.len() == USER_ID_SIZE,
        one@ == other@ ==> one == other,
{
    if one@ == other@ {
        assert(one.0 =~= other.0);
    }
}

impl UserId {
    /// A fresh random user ID. Of its bytes nothing is known; only the random
    /// source can fail.
    pub fn new() -> (id: Result<Self, Failure>)
        ensures
            id matches Err(failure) ==> failure is Random,
    {
        Self::generated(random_bytes())
    }

    /// The user ID made of what the random source gave.
    pub fn generated(outcome: Result<[u8; USER_ID_SIZE], getrandom::Error>) -> (id: Result<
        Self,
        Failure,
    >)
        ensures
            match outcome {
                Ok(bytes) => id matches Ok(id) && id@ == bytes@,
                Err(error) => id == Err::<Self, Failure>(Failure::Random(error)),
            },
    {
        match outcome {
            Ok(bytes) => Ok(Self::from_bytes(bytes)),
            Err(error) => Err(Failure::Random(error)),
        }
    }

    /// The user ID with these bytes.
    pub fn from_bytes(bytes: [u8; USER_ID_SIZE]) -> (id: Self)
        ensures
            id@ == bytes@,
    {
        Self(bytes)
    }

    /// The bytes of this user ID.
    pub fn as_bytes(&self) -> (bytes: &[u8; USER_ID_SIZE])
        ensures
            bytes@ == self@,
    {
        &self.0
    }

    /// Takes a user ID off the stream.
    pub fn read_from(stream: &mut ByteStream) -> (id: Result<Self, Failure>)
        ensures
            match id {
                Ok(id) => {
                    &&& USER_ID_SIZE <= old(stream)@.len()
                    &&& id@ == old(stream)@.take(USER_ID_SIZE as int)
                    &&& final(stream)@ == old(stream)@.skip(USER_ID_SIZE as int)
                },
                Err(failure) => {
                    &&& old(stream)@.len() < USER_ID_SIZE
                    &&& failure == Failure::UnexpectedEnd
                    &&& final(stream)@ == Seq::<u8>::empty()
                },
            },
    {
        let bytes: Vec<u8> = stream.read_exact(USER_ID_SIZE)?;
        Ok(Self(exact(bytes.as_slice())))
    }

    /// Appends the bytes of this user ID.
    pub fn write_to(&self, stream: &mut Vec<u8>)
        ensures
            final(stream)@ == old(stream)@ + self@,
    {
        extend(stream, self.as_bytes());
    }
}

/// The name of a room: whoever knows it can join.
#[derive(Clone, Copy, Debug, Hash)]
pub struct RoomK([u8; ROOMK_SIZE]);

impl View for RoomK {
    type V = Seq<u8>;

    closed spec fn view(&self) -> Seq<u8> {
        self.0@
    }
}

impl PartialEq for RoomK {
    fn eq(&self, other: &Self) -> (same: bool) {
        same_bytes(&self.0, &other.0)
    }
}

impl Eq for RoomK {

}

impl vstd::std_specs::cmp::PartialEqSpecImpl for RoomK {
    open spec fn obeys_eq_spec() -> bool {
        true
    }

    open spec fn eq_spec(&self, other: &Self) -> bool {
        self@ == other@
    }
}

/// Room keys with the same bytes are the same.
pub proof fn room_key_is_its_bytes(one: RoomK, other: RoomK)
    ensures
        one@.len() == ROOMK_SIZE,
        one@ == other@ ==> one == other,
{
    if one@ == other@ {
        assert(one.0 =~= other.0);
    }
}

/// How a client asks something of the relay: what, who asks, and about which
/// room.
pub open spec fn request_frame(operation: Operation, user_id: Seq<u8>, key: Seq<u8>) -> Seq<u8> {
    seq![operation_code(operation)] + user_id + key
}

/// Appends a request to the relay.
pub fn write_request(stream: &mut Vec<u8>, operation: Operation, user_id: &UserId, key: &RoomK)
    ensures
        final(stream)@ == old(stream)@ + request_frame(operation, user_id@, key@),
{
    stream.push(operation.code());
    user_id.write_to(stream);
    extend(stream, key.bytes());
    assert(stream@ =~= old(stream)@ + request_frame(operation, user_id@, key@));
}

impl RoomK {
    /// A fresh random room key. Of its bytes nothing is known; only the random
    /// source can fail.
    pub fn new() -> (key: Result<Self, Failure>)
        ensures
            key matches Err(failure) ==> failure is Random,
    {
        Self::generated(random_bytes())
    }

    /// The room key made of what the random source gave.
    pub fn generated(outcome: Result<[u8; ROOMK_SIZE], getrandom::Error>) -> (key: Result<
        Self,
        Failure,
    >)
        ensures
            match outcome {
                Ok(bytes) => key matches Ok(key) && key@ == bytes@,
                Err(error) => key == Err::<Self, Failure>(Failure::Random(error)),
            },
    {
        match outcome {
            Ok(bytes) => Ok(Self::from(&bytes)),
            Err(error) => Err(Failure::Random(error)),
        }
    }

    /// The bytes of this room key.
    pub fn bytes(&self) -> (bytes: &[u8])
        ensures
            bytes@ == self@,
    {
        &self.0
    }

    /// Appends the announcement of this room by its creator.
    pub fn notify_server_of_room(&self, stream: &mut Vec<u8>, user_id: &UserId)
        ensures
            final(stream)@ == old(stream)@ + request_frame(
                Operation::WaitingForJoin,
                user_id@,
                self@,
            ),
    {
        write_request(stream, Operation::WaitingForJoin, user_id, self);
    }

    /// The room key with these bytes.
    pub fn from(key: &[u8; ROOMK_SIZE]) -> (room: Self)
        ensures
            room@ == key@,
    {
        RoomK(*key)
    }
}

/// Takes a room key off the stream.
pub fn read_room_key(stream: &mut ByteStream) -> (key: Result<RoomK, Failure>)
    ensures
        match key {
            Ok(key) => {
                &&& ROOMK_SIZE <= old(stream)@.len()
                &&& key@ == old(stream)@.take(ROOMK_SIZE as int)
                &&& final(stream)@ == old(stream)@.skip(ROOMK_SIZE as int)
            },
            Err(failure) => {
                &&& old(stream)@.len() < ROOMK_SIZE
                &&& failure == Failure::UnexpectedEnd
                &&& final(stream)@ == Seq::<u8>::empty()
            },
        },
{
    let bytes: Vec<u8> = stream.read_exact(ROOMK_SIZE)?;
    Ok(RoomK(exact(bytes.as_slice())))
}

/// The frames that can come in.
#[derive(Clone, Copy, Debug, PartialEq, Eq, Structural)]
pub enum FrameKind {
    /// To the relay: announce a room, join one, or talk in one.
    Request,
    /// From the relay: the invite was accepted.
    Acceptance,
    /// From the other client: a public key.
    HandShake,
    /// From the other client: an encrypted profile.
    Profile,
    /// An encrypted chat message.
    Message,
}

/// The length of a message frame before its ciphertext: operation, ephemeral
/// public key, nonce, and the length of the ciphertext.
pub const MESSAGE_HEADER_SIZE: usize = 65;

/// The length of an encrypted profile: operation, user ID, and the name, the
/// biography and the picture, each with its nonce and its tag.
pub const PROFILE_SIZE: usize = 8097;

/// The longest ciphertext that a message frame may announce.
pub const MAX_CIPHERTEXT_SIZE: u64 = 1048592;

/// The length of a frame, or of its part before the ciphertext.
pub open spec fn head_length(kind: FrameKind) -> nat {
    match kind {
        FrameKind::Request => 1 + USER_ID_SIZE as nat + ROOMK_SIZE as nat,
        FrameKind::Acceptance => 1 + USER_ID_SIZE as nat,
        FrameKind::HandShake => 1 + USER_ID_SIZE as nat + MESSAGE_PUBLIC_KEY_SIZE as nat,
        FrameKind::Profile => PROFILE_SIZE as nat,
        FrameKind::Message => MESSAGE_HEADER_SIZE as nat,
    }
}

/// Why a frame of this kind cannot start with this byte, if it cannot.
pub open spec fn operation_fault(kind: FrameKind, byte: u8) -> Option<Failure> {
    match kind {
        FrameKind::Request => if byte == operation_code(Operation::WaitingForJoin) || byte
            == operation_code(Operation::Accept) || byte == operation_code(Operation::Talk) {
            None
        } else {
            Some(Failure::UnknownOperation(byte))
        },
        FrameKind::Acceptance => if byte == operation_code(Operation::Accept) {
            None
        } else {
            Some(Failure::ExpectedAcceptance(byte))
        },
        FrameKind::HandShake => if byte == operation_code(Operation::HandShake) {
            None
        } else {
            Some(Failure::ExpectedHandshake(byte))
        },
        FrameKind::Profile => if byte == operation_code(Operation::ShowMyData) {
            None
        } else {
            Some(Failure::ExpectedProfile(byte))
        },
        FrameKind::Message => if byte == operation_code(Operation::Message) {
            None
        } else {
            Some(Failure::ExpectedMessage(byte))
        },
    }
}

/// The ciphertext length that the header of a message frame announces.
pub open spec fn announced_size(header: Seq<u8>) -> nat {
    bytes::big_endian_value(
        header.subrange(
            1 + MESSAGE_PUBLIC_KEY_SIZE as int + MESSAGE_NONCE_SIZE as int,
            MESSAGE_HEADER_SIZE as int,
        ),
    )
}

/// How an input fails that ends after `length` bytes in the middle of a frame.
/// The operation of a request and of a message, and the announced length of a
/// ciphertext, are read as numbers; everything else is read as bytes.
pub open spec fn end_fault(kind: FrameKind, length: nat) -> Failure {
    let number = match kind {
        FrameKind::Request => length == 0,
        FrameKind::Message => length == 0 || 1 + MESSAGE_PUBLIC_KEY_SIZE + MESSAGE_NONCE_SIZE
            <= length < MESSAGE_HEADER_SIZE,
        _ => false,
    };
    if number {
        Failure::EndInNumber
    } else {
        Failure::UnexpectedEnd
    }
}

/// The length of the frame at the front of `input`, or why there is none: the
/// operation is looked at before anything else, and the announced length of a
/// ciphertext before the ciphertext.
pub open spec fn frame_length(kind: FrameKind, input: Seq<u8>) -> Result<nat, Failure> {
    if input.len() == 0 {
        Err(end_fault(kind, 0))
    } else if operation_fault(kind, input[0]) is Some {
        Err(operation_fault(kind, input[0])->0)
    } else if input.len() < head_length(kind) {
        Err(end_fault(kind, input.len()))
    } else if kind == FrameKind::Message {
        if announced_size(input) > MAX_CIPHERTEXT_SIZE {
            Err(Failure::CiphertextTooLong)
        } else if input.len() < head_length(kind) + announced_size(input) {
            Err(end_fault(kind, input.len()))
        } else {
            Ok(head_length(kind) + announced_size(input))
        }
    } else {
        Ok(head_length(kind))
    }
}

/// How much of `input` is read on the way to the outcome of [`frame_length`].
pub open spec fn consumed_length(kind: FrameKind, input: Seq<u8>) -> nat {
    match frame_length(kind, input) {
        Ok(length) => length,
        Err(Failure::UnexpectedEnd) | Err(Failure::EndInNumber) => input.len(),
        Err(Failure::CiphertextTooLong) => head_length(kind),
        Err(_) => 1,
    }
}

/// How many bytes to read next when `buffered` has been read of a frame, none
/// where the frame is complete, or why the frame is refused.
pub open spec fn missing_length(kind: FrameKind, buffered: Seq<u8>) -> Result<nat, Failure> {
    if buffered.len() == 0 {
        Ok(1)
    } else if operation_fault(kind, buffered[0]) is Some {
        Err(operation_fault(kind, buffered[0])->0)
    } else if buffered.len() < head_length(kind) {
        Ok((head_length(kind) - buffered.len()) as nat)
    } else if kind == FrameKind::Message {
        if announced_size(buffered) > MAX_CIPHERTEXT_SIZE {
            Err(Failure::CiphertextTooLong)
        } else if buffered.len() < head_length(kind) + announced_size(buffered) {
            Ok((head_length(kind) + announced_size(buffered) - buffered.len()) as nat)
        } else {
            Ok(0)
        }
    } else {
        Ok(0)
    }
}

/// Why a frame of this kind cannot start with this byte, if it cannot.
fn check_operation(kind: FrameKind, byte: u8) -> (fault: Option<Failure>)
    ensures
        fault == operation_fault(kind, byte),
{
    match kind {
        FrameKind::Request => {
            if byte == Operation::WaitingForJoin.code() || byte == Operation::Accept.code() || byte
                == Operation::Talk.code() {
                None
            } else {
                Some(Failure::UnknownOperation(byte))
            }
        },
        FrameKind::Acceptance => {
            if byte == Operation::Accept.code() {
                None
            } else {
                Some(Failure::ExpectedAcceptance(byte))
            }
        },
        FrameKind::HandShake => {
            if byte == Operation::HandShake.code() {
                None
            } else {
                Some(Failure::ExpectedHandshake(byte))
            }
        },
        FrameKind::Profile => {
            if byte == Operation::ShowMyData.code() {
                None
            } else {
                Some(Failure::ExpectedProfile(byte))
            }
        },
        FrameKind::Message => {
            if byte == Operation::Message.code() {
                None
            } else {
                Some(Failure::ExpectedMessage(byte))
            }
        },
    }
}

/// The length of a frame, or of its part before the ciphertext.
fn head_size(kind: FrameKind) -> (size: usize)
    ensures
        size == head_length(kind),
{
    match kind {
        FrameKind::Request => 1 + USER_ID_SIZE + ROOMK_SIZE,
        FrameKind::Acceptance => 1 + USER_ID_SIZE,
        FrameKind::HandShake => 1 + USER_ID_SIZE + MESSAGE_PUBLIC_KEY_SIZE,
        FrameKind::Profile => PROFILE_SIZE,
        FrameKind::Message => MESSAGE_HEADER_SIZE,
    }
}

/// How an input fails that ends after `length` bytes in the middle of a frame.
pub fn stream_end(kind: FrameKind, length: usize) -> (failure: Failure)
    ensures
        failure == end_fault(kind, length as nat),
{
    let number: bool = match kind {
        FrameKind::Request => length == 0,
        FrameKind::Message => length == 0 || (1 + MESSAGE_PUBLIC_KEY_SIZE + MESSAGE_NONCE_SIZE
            <= length && length < MESSAGE_HEADER_SIZE),
        _ => false,
    };
    if number {
        Failure::EndInNumber
    } else {
        Failure::UnexpectedEnd
    }
}

/// Tells a reader how many bytes to read next when `buffered` has been read
/// of a frame, none where the frame is complete. A frame is refused as soon as
/// the bytes that show it are there, and no more is asked for than belongs to
/// the frame.
pub fn bytes_missing(kind: FrameKind, buffered: &[u8]) -> (missing: Result<usize, Failure>)
    ensures
        match missing {
            Ok(count) => missing_length(kind, buffered@) == Ok::<nat, Failure>(count as nat),
            Err(failure) => missing_length(kind, buffered@) == Err::<nat, Failure>(failure),
        },
{
    if buffered.len() == 0 {
        return Ok(1);
    }
    if let Some(failure) = check_operation(kind, buffered[0]) {
        return Err(failure);
    }
    let head: usize = head_size(kind);
    if buffered.len() < head {
        return Ok(head - buffered.len());
    }
    if kind != FrameKind::Message {
        return Ok(0);
    }
    let size: u128 = from_big_endian(
        vstd::slice::slice_subrange(
            buffered,
            1 + MESSAGE_PUBLIC_KEY_SIZE + MESSAGE_NONCE_SIZE,
            MESSAGE_HEADER_SIZE,
        ),
    );
    if size > MAX_CIPHERTEXT_SIZE as u128 {
        return Err(Failure::CiphertextTooLong);
    }
    let whole: usize = head + size as usize;
    if buffered.len() < whole {
        Ok(whole - buffered.len())
    } else {
        Ok(0)
    }
}

/// A plan that asks for bytes asks for no more than the frame needs: with
/// fewer no frame of this kind is complete.
pub proof fn reading_plan_never_overreads(kind: FrameKind, buffered: Seq<u8>, more: Seq<u8>)
    requires
        missing_length(kind, buffered) is Ok,
        more.len() < missing_length(kind, buffered)->Ok_0,
    ensures
        frame_length(kind, buffered + more) is Err,
{
    let input = buffered + more;
    if buffered.len() > 0 {
        assert(input[0] == buffered[0]);
        if buffered.len() >= head_length(kind) {
            same_announcement(buffered, more);
        }
    }
}

/// A refusal stands: whatever follows, the frame is refused for the same
/// reason.
pub proof fn refusal_is_final(kind: FrameKind, buffered: Seq<u8>, more: Seq<u8>)
    requires
        missing_length(kind, buffered) is Err,
    ensures
        frame_length(kind, buffered + more) == Err::<nat, Failure>(
            missing_length(kind, buffered)->Err_0,
        ),
{
    assert((buffered + more)[0] == buffered[0]);
    if buffered.len() >= head_length(kind) && kind == FrameKind::Message {
        same_announcement(buffered, more);
    }
}

/// A complete frame is found, and what follows it does not matter.
pub proof fn complete_frame_is_found(kind: FrameKind, buffered: Seq<u8>, more: Seq<u8>)
    requires
        missing_length(kind, buffered) == Ok::<nat, Failure>(0),
    ensures
        frame_length(kind, buffered) is Ok,
        frame_length(kind, buffered)->Ok_0 <= buffered.len(),
        frame_length(kind, buffered + more) == frame_length(kind, buffered),
{
    assert((buffered + more)[0] == buffered[0]);
    if kind == FrameKind::Message {
        same_announcement(buffered, more);
    }
}

proof fn same_announcement(buffered: Seq<u8>, more: Seq<u8>)
    requires
        buffered.len() >= MESSAGE_HEADER_SIZE,
    ensures
        announced_size(buffered + more) == announced_size(buffered),
{
    assert((buffered + more).subrange(57, 65) =~= buffered.subrange(57, 65));
}

/// Takes a frame off the stream, reading as [`bytes_missing`] plans.
pub fn take_frame(kind: FrameKind, stream: &mut ByteStream) -> (frame: Result<Vec<u8>, Failure>)
    ensures
        match frame {
            Ok(frame) => {
                &&& frame_length(kind, old(stream)@) == Ok::<nat, Failure>(frame@.len())
                &&& frame@ == old(stream)@.take(frame@.len() as int)
                &&& missing_length(kind, frame@) == Ok::<nat, Failure>(0)
            },
            Err(failure) => frame_length(kind, old(stream)@) == Err::<nat, Failure>(failure),
        },
        final(stream)@ == old(stream)@.skip(consumed_length(kind, old(stream)@) as int),
{
    let ghost input = stream@;
    let available: usize = stream.len();
    let mut frame: Vec<u8> = Vec::new();
    loop
        invariant
            frame@ + stream@ == input,
            input == old(stream)@,
            available == input.len(),
            frame@.len() == 0 || frame@.len() == 1 || (missing_length(kind, frame@) is Ok ==> {
                ||| frame@.len() == head_length(kind)
                ||| missing_length(kind, frame@) == Ok::<nat, Failure>(0)
            }),
            frame@.len() > 1 ==> frame@.len() >= head_length(kind) && operation_fault(
                kind,
                frame@[0],
            ) is None,
            frame@.len() > head_length(kind) ==> kind == FrameKind::Message && frame@.len()
                == head_length(kind) + announced_size(frame@) && announced_size(frame@)
                <= MAX_CIPHERTEXT_SIZE,
        decreases input.len() - frame@.len() + 1,
    {
        let missing: usize = match bytes_missing(kind, frame.as_slice()) {
            Ok(missing) => missing,
            Err(failure) => {
                proof {
                    refusal_is_final(kind, frame@, stream@);
                    assert(stream@ =~= input.skip(frame@.len() as int));
                }
                return Err(failure);
            },
        };
        if missing == 0 {
            proof {
                complete_frame_is_found(kind, frame@, stream@);
                assert(frame@ =~= input.take(frame@.len() as int));
                assert(stream@ =~= input.skip(frame@.len() as int));
            }
            return Ok(frame);
        }
        let ghost before = frame@;
        let ghost rest = stream@;
        match stream.read_exact(missing) {
            Ok(chunk) => {
                extend(&mut frame, chunk.as_slice());
                proof {
                    assert(frame@ + stream@ =~= input);
                    if before.len() > 0 {
                        assert(frame@[0] == before[0]);
                        if before.len() >= head_length(kind) {
                            same_announcement(before, chunk@);
                        }
                    }
                }
            },
            Err(_) => {
                proof {
                    reading_plan_never_overreads(kind, before, rest);
                    if before.len() > 0 {
                        assert(input[0] == before[0]);
                        if before.len() >= head_length(kind) {
                            same_announcement(before, rest);
                        }
                    }
                    assert(stream@ =~= input.skip(input.len() as int));
                }
                return Err(stream_end(kind, available));
            },
        }
    }
}

/// A frame is found exactly where its first byte is an operation of its kind and
/// all of it is there, and it is as long as its kind says: a message frame has
/// 65 bytes and the ciphertext that it announces, of at most 1048592 bytes;
/// what the other bytes are does not matter.
pub proof fn whole_frames_are_found(input: Seq<u8>)
    ensures
        frame_length(FrameKind::Request, input) is Ok <==> input.len() >= 33 && (input[0] == 1
            || input[0] == 2 || input[0] == 6),
        frame_length(FrameKind::Acceptance, input) is Ok <==> input.len() >= 17 && input[0] == 2,
        frame_length(FrameKind::HandShake, input) is Ok <==> input.len() >= 49 && input[0] == 3,
        frame_length(FrameKind::Profile, input) is Ok <==> input.len() >= 8097 && input[0] == 4,
        frame_length(FrameKind::Message, input) is Ok <==> input.len() >= 65 && input[0] == 5 && {
            let size = bytes::big_endian_value(input.subrange(57, 65));
            size <= 1048592 && 65 + size <= input.len()
        },
        frame_length(FrameKind::Request, input) matches Ok(length) ==> length == 33,
        frame_length(FrameKind::Acceptance, input) matches Ok(length) ==> length == 17,
        frame_length(FrameKind::HandShake, input) matches Ok(length) ==> length == 49,
        frame_length(FrameKind::Profile, input) matches Ok(length) ==> length == 8097,
        frame_length(FrameKind::Message, input) matches Ok(length) ==> length == 65
            + bytes::big_endian_value(input.subrange(57, 65)),
{
}

/// A frame that starts with an operation of another kind is refused with that
/// operation, whatever follows it, and nothing but that byte is taken.
pub proof fn other_operations_are_named(kind: FrameKind, input: Seq<u8>)
    requires
        input.len() > 0,
        match kind {
            FrameKind::Request => input[0] != 1 && input[0] != 2 && input[0] != 6,
            FrameKind::Acceptance => input[0] != 2,
            FrameKind::HandShake => input[0] != 3,
            FrameKind::Profile => input[0] != 4,
            FrameKind::Message => input[0] != 5,
        },
    ensures
        frame_length(kind, input) == Err::<nat, Failure>(
            match kind {
                FrameKind::Request => Failure::UnknownOperation(input[0]),
                FrameKind::Acceptance => Failure::ExpectedAcceptance(input[0]),
                FrameKind::HandShake => Failure::ExpectedHandshake(input[0]),
                FrameKind::Profile => Failure::ExpectedProfile(input[0]),
                FrameKind::Message => Failure::ExpectedMessage(input[0]),
            },
        ),
        consumed_length(kind, input) == 1,
{
}

/// A message frame that announces more than 1048592 bytes is refused as soon as
/// its header is there, whether or not the ciphertext is, and nothing of the
/// ciphertext is taken.
pub proof fn oversized_frames_are_refused(input: Seq<u8>)
    requires
        input.len() >= 65,
        input[0] == 5,
        bytes::big_endian_value(input.subrange(57, 65)) > 1048592,
    ensures
        frame_length(FrameKind::Message, input) == Err::<nat, Failure>(Failure::CiphertextTooLong),
        missing_length(FrameKind::Message, input) == Err::<nat, Failure>(
            Failure::CiphertextTooLong,
        ),
        consumed_length(FrameKind::Message, input) == 65,
{
}

/// A frame that breaks off is refused and all of it is taken. Where a number
/// breaks off (the operation of a request or a message, the announced length
/// of a ciphertext) the refusal says so.
pub proof fn broken_frames_are_refused(kind: FrameKind, frame: Seq<u8>, length: nat)
    requires
        frame_length(kind, frame) == Ok::<nat, Failure>(frame.len()),
        length < frame.len(),
    ensures
        ({
            let broken = frame.take(length as int);
            let number = kind == FrameKind::Message && (length == 0 || 57 <= length < 65) || kind
                == FrameKind::Request && length == 0;
            &&& frame_length(kind, broken) == Err::<nat, Failure>(
                if number {
                    Failure::EndInNumber
                } else {
                    Failure::UnexpectedEnd
                },
            )
            &&& consumed_length(kind, broken) == length
        }),
{
    let broken = frame.take(length as int);
    if length > 0 {
        assert(broken[0] == frame[0]);
        if kind == FrameKind::Message && length >= 65 {
            assert(broken.subrange(57, 65) =~= frame.subrange(57, 65));
        }
    }
}

/// A whole frame is taken and nothing behind it.
pub proof fn whole_frames_are_taken_alone(kind: FrameKind, frame: Seq<u8>, more: Seq<u8>)
    requires
        frame_length(kind, frame) == Ok::<nat, Failure>(frame.len()),
    ensures
        frame_length(kind, frame + more) == Ok::<nat, Failure>(frame.len()),
        consumed_length(kind, frame + more) == frame.len(),
{
    complete_frame_is_found(kind, frame, more);
}

/// Whoever reads as planned always gets on and ends with the whole frame: as
/// long as a part of a frame is missing, the plan asks for at least one byte
/// and for no byte behind the frame, and then for nothing more.
pub proof fn reading_plan_ends_with_the_frame(kind: FrameKind, frame: Seq<u8>, length: nat)
    requires
        frame_length(kind, frame) == Ok::<nat, Failure>(frame.len()),
        length <= frame.len(),
    ensures
        ({
            let missing = missing_length(kind, frame.take(length as int));
            &&& missing is Ok
            &&& length < frame.len() ==> 1 <= missing->Ok_0 <= frame.len() - length
            &&& length == frame.len() ==> missing->Ok_0 == 0
        }),
{
    let part = frame.take(length as int);
    if length > 0 {
        assert(part[0] == frame[0]);
        if kind == FrameKind::Message && length >= 65 {
            assert(part.subrange(57, 65) =~= frame.subrange(57, 65));
        }
    }
}

/// Each operation has its number.
pub proof fn operations_have_their_numbers()
    ensures
        operation_code(Operation::WaitingForJoin) == 1,
        operation_code(Operation::Accept) == 2,
        operation_code(Operation::HandShake) == 3,
        operation_code(Operation::ShowMyData) == 4,
        operation_code(Operation::Message) == 5,
        operation_code(Operation::Talk) == 6,
{
}

/// A text may have a mebibyte, and a ciphertext the tag more.
pub proof fn limits_leave_room_for_the_tag()
    ensures
        MAX_MESSAGE_SIZE == 1048576,
        MAX_CIPHERTEXT_SIZE == MAX_MESSAGE_SIZE + 16,
{
}

} // verus!
