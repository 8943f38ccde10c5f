//! What can go wrong, and how it is told to the user.

use vstd::prelude::*;
use crate::protocol::{MAX_MESSAGE_SIZE, ROOMK_SIZE};
use crate::text;
use crate::text::{debug_character, joined, push_decimal};

verus! {

/// Declares the error of the operating system's random source.
#[verifier::external_type_specification]
#[verifier::external_body]
pub struct ExRandomError(getrandom::Error);

/// Everything that the library refuses or cannot do.
#[derive(Clone, Copy, Debug, PartialEq, Eq)]
pub enum Failure {
    /// The incoming bytes ended before all bytes of a field were there.
    UnexpectedEnd,
    /// The incoming bytes ended before a number was complete.
    EndInNumber,
    /// The operating system gave no random bytes.
    Random(getrandom::Error),
    /// Another operation came where an accepted invite was expected.
    ExpectedAcceptance(u8),
    /// Another operation came where a public key was expected.
    ExpectedHandshake(u8),
    /// Another operation came where a profile was expected.
    ExpectedProfile(u8),
    /// Another operation came where a chat message was expected.
    ExpectedMessage(u8),
    /// The relay knows no such operation.
    UnknownOperation(u8),
    /// The text to send is over the limit.
    MessageTooLong,
    /// The announced ciphertext is over the limit.
    CiphertextTooLong,
    /// The message cipher refused to encrypt.
    EncryptionFailed,
    /// The ciphertext does not belong to the keys and the nonce.
    DecryptionFailed,
    /// A decrypted message is not valid UTF-8.
    MessageNotText,
    /// A decrypted name does not fill its field.
    NameLength,
    /// A decrypted biography does not fill its field.
    BioLength,
    /// A decrypted picture does not fill its field.
    PictureLength,
    /// An invite key with an odd number of digits.
    OddInviteKey,
    /// An invite key with something else than a hexadecimal digit.
    InviteKeyCharacter(char, usize),
    /// An invite key of another size.
    InviteKeyLength,
    /// The friend store does not start as an encrypted one does.
    StoreNotEncrypted,
    /// The encrypted friend store ends before its contents.
    StoreTruncated,
    /// The friend store does not open with this password.
    WrongPassword,
    /// The storage cipher refused to encrypt.
    StoreEncryptionFailed,
    /// The storage password is empty.
    EmptyPassword,
    /// The storage password is too long to derive a key from.
    PasswordTooLong,
    /// The storage password in the environment is empty.
    EmptyEnvironmentPassword,
    /// The storage password was repeated differently.
    PasswordsDiffer,
    /// A friend from before encrypted chats.
    NoChatKeys,
    /// A friend store without a key to encrypt it with.
    NoStorageKey,
    /// A profile that names somebody else than its key did.
    ProfileMismatch,
    /// A key that names somebody else than the relay did.
    HandshakeMismatch,
    /// The friend of an open chat is no longer stored.
    FriendRemoved,
    /// There is nobody to talk to yet.
    NoFriends,
    /// An invite to a room that the relay does not know.
    UnknownInvite,
    /// A room that somebody has joined already.
    RoomFull,
    /// A room whose creator has left.
    CreatorGone,
    /// A chat in a room that the relay does not know.
    UnknownChatRoom,
    /// A chat by somebody who is not in the room.
    NotParticipant,
    /// A room that vanished during a chat.
    RoomRemoved,
}

/// What the user is told about a failure; of a failure of the random source
/// the operating system decides it.
pub open spec fn failure_text(failure: Failure) -> Seq<char> {
    match failure {
        Failure::UnexpectedEnd => "early eof"@,
        Failure::EndInNumber => "unexpected end of file"@,
        Failure::Random(_) => arbitrary(),
        Failure::ExpectedAcceptance(received) =>
            "expected invite acceptance, received operation "@ + text::decimal(
            received as nat,
        ),
        Failure::ExpectedHandshake(received) =>
            "expected handshake operation, received "@ + text::decimal(received as nat),
        Failure::ExpectedProfile(received) =>
            "expected profile operation, received "@ + text::decimal(received as nat),
        Failure::ExpectedMessage(received) =>
            "expected message operation, received "@ + text::decimal(received as nat),
        Failure::UnknownOperation(received) =>
            "unknown operation "@ + text::decimal(received as nat),
        Failure::MessageTooLong =>
            "message is larger than the "@ + text::decimal(MAX_MESSAGE_SIZE as nat)
            + "-byte limit"@,
        Failure::CiphertextTooLong => "encrypted message is larger than the allowed limit"@,
        Failure::EncryptionFailed => "could not encrypt message"@,
        Failure::DecryptionFailed => "could not decrypt message"@,
        Failure::MessageNotText => "message is not valid UTF-8"@,
        Failure::NameLength => "decrypted name has an invalid length"@,
        Failure::BioLength => "decrypted bio has an invalid length"@,
        Failure::PictureLength => "decrypted picture has an invalid length"@,
        Failure::OddInviteKey => "Odd number of digits"@,
        Failure::InviteKeyCharacter(character, index) =>
            "Invalid character "@ + text::debug_text(character) + " at position "@
            + text::decimal(index as nat),
        Failure::InviteKeyLength =>
            "invite key must be "@ + text::decimal(ROOMK_SIZE as nat) + " bytes"@,
        Failure::StoreNotEncrypted => "friend store is not in the encrypted Ghostline format"@,
        Failure::StoreTruncated => "encrypted friend store is truncated"@,
        Failure::WrongPassword => "incorrect storage password or corrupted friend store"@,
        Failure::StoreEncryptionFailed => "could not encrypt friend store"@,
        Failure::EmptyPassword => "storage password cannot be empty"@,
        Failure::PasswordTooLong => "could not derive storage key: password is too long"@,
        Failure::EmptyEnvironmentPassword => "GHOSTLINE_STORAGE_PASSWORD cannot be empty"@,
        Failure::PasswordsDiffer => "storage passwords do not match"@,
        Failure::NoChatKeys =>
            "this friend predates encrypted chat support; create a new invite"@,
        Failure::NoStorageKey => "friend store has no encryption key"@,
        Failure::ProfileMismatch => "friend profile and handshake user IDs do not match"@,
        Failure::HandshakeMismatch => "server and handshake user IDs do not match"@,
        Failure::FriendRemoved => "friend was removed while the chat was open"@,
        Failure::NoFriends => "no friends are configured; create or join an invite first"@,
        Failure::UnknownInvite => "invite references an unknown room"@,
        Failure::RoomFull => "room already has two participants"@,
        Failure::CreatorGone => "room creator is no longer waiting"@,
        Failure::UnknownChatRoom => "chat references an unknown room"@,
        Failure::NotParticipant => "user is not a participant in this room"@,
        Failure::RoomRemoved => "room was removed"@,
    }
}

/// `before`, a decimal number, `after`.
fn numbered(before: &str, number: u64, after: &str) -> (text: String)
    ensures
        text@ == before@ + text::decimal(number as nat) + after@,
{
    let mut text: String = before.to_owned();
    push_decimal(&mut text, number);
    text.append(after);
    text
}

/// The description that the random source gives of its error.
#[verifier::external_body]
fn random_failure_text(error: getrandom::Error) -> (text: String)
{
    error.to_string()
}

/// `before` and a decimal number.
fn counted(before: &str, number: u8) -> (text: String)
    ensures
        text@ == before@ + text::decimal(number as nat),
{
    let mut text: String = before.to_owned();
    push_decimal(&mut text, number as u64);
    text
}

impl Failure {
    /// What the user is told about this failure.
    pub fn message(&self) -> (text: String)
        ensures
            !(self is Random) ==> text@ == failure_text(*self),
    {
        match *self {
            Failure::UnexpectedEnd => "early eof".to_owned(),
            Failure::EndInNumber => "unexpected end of file".to_owned(),
            Failure::Random(error) => random_failure_text(error),
            Failure::ExpectedAcceptance(received) =>
                counted("expected invite acceptance, received operation ", received),
            Failure::ExpectedHandshake(received) =>
                counted("expected handshake operation, received ", received),
            Failure::ExpectedProfile(received) =>
                counted("expected profile operation, received ", received),
            Failure::ExpectedMessage(received) =>
                counted("expected message operation, received ", received),
            Failure::UnknownOperation(received) => counted("unknown operation ", received),
            Failure::MessageTooLong =>
                numbered("message is larger than the ", MAX_MESSAGE_SIZE, "-byte limit"),
            Failure::CiphertextTooLong =>
                "encrypted message is larger than the allowed limit".to_owned(),
            Failure::EncryptionFailed => "could not encrypt message".to_owned(),
            Failure::DecryptionFailed => "could not decrypt message".to_owned(),
            Failure::MessageNotText => "message is not valid UTF-8".to_owned(),
            Failure::NameLength => "decrypted name has an invalid length".to_owned(),
            Failure::BioLength => "decrypted bio has an invalid length".to_owned(),
            Failure::PictureLength => "decrypted picture has an invalid length".to_owned(),
            Failure::OddInviteKey => "Odd number of digits".to_owned(),
            Failure::InviteKeyCharacter(character, index) => {
                let mut text: String = joined(
                    "Invalid character ",
                    debug_character(character).as_str(),
                );
                text.append(" at position ");
                push_decimal(&mut text, index as u64);
                text
            },
            Failure::InviteKeyLength =>
                numbered("invite key must be ", ROOMK_SIZE as u64, " bytes"),
            Failure::StoreNotEncrypted =>
                "friend store is not in the encrypted Ghostline format".to_owned(),
            Failure::StoreTruncated => "encrypted friend store is truncated".to_owned(),
            Failure::WrongPassword =>
                "incorrect storage password or corrupted friend store".to_owned(),
            Failure::StoreEncryptionFailed => "could not encrypt friend store".to_owned(),
            Failure::EmptyPassword => "storage password cannot be empty".to_owned(),
            Failure::PasswordTooLong =>
                "could not derive storage key: password is too long".to_owned(),
            Failure::EmptyEnvironmentPassword =>
                "GHOSTLINE_STORAGE_PASSWORD cannot be empty".to_owned(),
            Failure::PasswordsDiffer => "storage passwords do not match".to_owned(),
            Failure::NoChatKeys =>
                "this friend predates encrypted chat support; create a new invite".to_owned(),
            Failure::NoStorageKey => "friend store has no encryption key".to_owned(),
            Failure::ProfileMismatch =>
                "friend profile and handshake user IDs do not match".to_owned(),
            Failure::HandshakeMismatch =>
                "server and handshake user IDs do not match".to_owned(),
            Failure::FriendRemoved => "friend was removed while the chat was open".to_owned(),
            Failure::NoFriends =>
                "no friends are configured; create or join an invite first".to_owned(),
            Failure::UnknownInvite => "invite references an unknown room".to_owned(),
            Failure::RoomFull => "room already has two participants".to_owned(),
            Failure::CreatorGone => "room creator is no longer waiting".to_owned(),
            Failure::UnknownChatRoom => "chat references an unknown room".to_owned(),
            Failure::NotParticipant => "user is not a participant in this room".to_owned(),
            Failure::RoomRemoved => "room was removed".to_owned(),
        }
    }
}

/// What the user is told about an operation that was not expected ends with the
/// number of that operation, so that it can be told from every other.
pub proof fn refused_operations_are_told_by_number(one: u8, other: u8)
    ensures
        failure_text(Failure::UnknownOperation(one)) == "unknown operation "@ + text::decimal(
            one as nat,
        ),
        failure_text(Failure::ExpectedMessage(one)) == "expected message operation, received "@
            + text::decimal(one as nat),
        failure_text(Failure::ExpectedProfile(one)) == "expected profile operation, received "@
            + text::decimal(one as nat),
        failure_text(Failure::ExpectedHandshake(one)) == "expected handshake operation, received "@
            + text::decimal(one as nat),
        failure_text(Failure::ExpectedAcceptance(one))
            == "expected invite acceptance, received operation "@ + text::decimal(one as nat),
        text::decimal(one as nat) == text::decimal(other as nat) ==> one == other,
{
    text::decimals_read_as_their_numbers(one as nat);
    text::decimals_read_as_their_numbers(other as nat);
}

/// What the user is told about a wrong character in an invite key names the
/// character and its place.
pub proof fn wrong_characters_are_told_with_their_place(character: char, index: usize)
    ensures
        failure_text(Failure::InviteKeyCharacter(character, index)) == "Invalid character "@
            + text::debug_text(character) + " at position "@ + text::decimal(index as nat),
{
}

} // verus!
