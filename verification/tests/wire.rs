use ghostline::bytes::{
    exact, extend, fixed, from_big_endian, same_bytes, to_big_endian, ByteStream,
};
use ghostline::failure::Failure;
use ghostline::protocol::{
    bytes_missing, read_room_key, stream_end, take_frame, write_request, FrameKind, Operation, RoomK, UserId,
    MAX_MESSAGE_SIZE, MESSAGE_NONCE_SIZE, MESSAGE_PUBLIC_KEY_SIZE, MESSAGE_TAG_SIZE, PROFILE_SIZE,
    ROOMK_SIZE, SERVE_IP, USER_ID_SIZE,
};
use ghostline::talk_to_server::{
    accept_invite_notify, check_if_op_accepted, invite_code, parse_room_key,
};
use ghostline::text::{decoded, joined, push_decimal, same_text};

#[test]
fn generated_user_ids_are_not_reused() {
    let first = UserId::new().unwrap();
    let second = UserId::new().unwrap();
    assert_ne!(first, second);
}

#[test]
fn generated_room_key_contains_random_bytes() {
    let key = RoomK::new().unwrap();
    assert_ne!(key.bytes(), &[0; ROOMK_SIZE]);
}

#[test]
fn a_failing_random_source_is_reported() {
    let error = getrandom::Error::UNSUPPORTED;
    assert_eq!(UserId::generated(Err(error)), Err(Failure::Random(error)));
    assert_eq!(RoomK::generated(Err(error)), Err(Failure::Random(error)));
    assert_eq!(Failure::Random(error).message(), error.to_string());
    assert_eq!(UserId::generated(Ok([7; 16])).unwrap().as_bytes(), &[7; 16]);
    assert_eq!(RoomK::generated(Ok([8; 16])).unwrap().bytes(), &[8; 16]);
}

#[test]
fn operations_have_their_codes() {
    assert_eq!(Operation::WaitingForJoin.code(), 1);
    assert_eq!(Operation::Accept.code(), 2);
    assert_eq!(Operation::HandShake.code(), 3);
    assert_eq!(Operation::ShowMyData.code(), 4);
    assert_eq!(Operation::Message.code(), 5);
    assert_eq!(Operation::Talk.code(), 6);
    assert_eq!(SERVE_IP, "127.0.0.1:1278");
}

#[test]
fn big_endian_numbers_are_written_and_read() {
    assert_eq!(to_big_endian(0x0102030405060708), [1, 2, 3, 4, 5, 6, 7, 8]);
    assert_eq!(to_big_endian(17), 17u64.to_be_bytes());
    assert_eq!(from_big_endian(&[1, 2, 3]), 0x010203);
    assert_eq!(from_big_endian(&[]), 0);
    assert_eq!(from_big_endian(&[255; 16]), u128::MAX);
    assert_eq!(from_big_endian(&to_big_endian(u64::MAX)), u64::MAX as u128);
}

#[test]
fn byte_strings_are_compared_padded_and_joined() {
    assert!(same_bytes(b"abc", b"abc"));
    assert!(!same_bytes(b"abc", b"abd"));
    assert!(!same_bytes(b"abc", b"ab"));
    let padded: [u8; 5] = fixed(b"abc");
    assert_eq!(&padded, b"abc\0\0");
    let full: [u8; 3] = exact(b"abc");
    assert_eq!(&full, b"abc");
    let mut bytes = b"ab".to_vec();
    extend(&mut bytes, b"cd");
    assert_eq!(bytes, b"abcd");
}

#[test]
fn texts_are_decoded_compared_and_built() {
    assert_eq!(decoded("žluťoučký".as_bytes().to_vec()), Some("žluťoučký".to_owned()));
    assert_eq!(decoded(vec![0xff, 0xfe]), None);
    assert!(same_text("a", "a"));
    assert!(!same_text("a", "b"));
    assert_eq!(joined("ab", "cd"), "abcd");
    let mut text = String::from("n=");
    push_decimal(&mut text, 1048576);
    assert_eq!(text, "n=1048576");
    let mut zero = String::new();
    push_decimal(&mut zero, 0);
    assert_eq!(zero, "0");
}

#[test]
fn a_stream_that_ends_is_drained() {
    let mut stream = ByteStream::new(vec![1, 2, 3]);
    assert_eq!(stream.read_exact(2), Ok(vec![1, 2]));
    assert_eq!(stream.len(), 1);
    assert_eq!(stream.read_exact(2), Err(Failure::UnexpectedEnd));
    assert_eq!(stream.len(), 0);
    assert_eq!(stream.read_exact(0), Ok(vec![]));
}

#[test]
fn ids_and_keys_are_taken_off_a_stream() {
    let mut bytes = vec![];
    UserId::from_bytes([3; USER_ID_SIZE]).write_to(&mut bytes);
    bytes.extend_from_slice(&[4; ROOMK_SIZE]);
    bytes.push(9);
    let mut stream = ByteStream::new(bytes);
    assert_eq!(UserId::read_from(&mut stream).unwrap(), UserId::from_bytes([3; 16]));
    assert_eq!(read_room_key(&mut stream).unwrap(), RoomK::from(&[4; 16]));
    assert_eq!(stream.len(), 1);
    assert_eq!(UserId::read_from(&mut stream), Err(Failure::UnexpectedEnd));
    assert_eq!(read_room_key(&mut stream), Err(Failure::UnexpectedEnd));
}

#[test]
fn requests_name_the_user_and_the_room() {
    let id = UserId::from_bytes([1; 16]);
    let key = RoomK::from(&[2; 16]);
    let mut announced = vec![];
    key.notify_server_of_room(&mut announced, &id);
    let mut joined = vec![];
    accept_invite_notify(&mut joined, &key, &id);
    let mut talking = vec![];
    write_request(&mut talking, Operation::Talk, &id, &key);
    let mut expected = vec![0; 1];
    expected.extend_from_slice(&[1; 16]);
    expected.extend_from_slice(&[2; 16]);
    expected[0] = 1;
    assert_eq!(announced, expected);
    expected[0] = 2;
    assert_eq!(joined, expected);
    expected[0] = 6;
    assert_eq!(talking, expected);
}

#[test]
fn a_reader_is_told_what_to_read_next() {
    assert_eq!(bytes_missing(FrameKind::Message, &[]), Ok(1));
    assert_eq!(bytes_missing(FrameKind::Message, &[5]), Ok(64));
    let mut header = vec![5];
    header.extend_from_slice(&[0; 56]);
    header.extend_from_slice(&10u64.to_be_bytes());
    assert_eq!(bytes_missing(FrameKind::Message, &header), Ok(10));
    header.extend_from_slice(&[1; 10]);
    assert_eq!(bytes_missing(FrameKind::Message, &header), Ok(0));
    assert_eq!(bytes_missing(FrameKind::Profile, &[4]), Ok(PROFILE_SIZE - 1));
    assert_eq!(bytes_missing(FrameKind::HandShake, &[3]), Ok(48));
    assert_eq!(bytes_missing(FrameKind::Acceptance, &[2]), Ok(16));
    assert_eq!(bytes_missing(FrameKind::Request, &[6]), Ok(32));
}

#[test]
fn a_wrong_operation_is_refused_at_once() {
    assert_eq!(bytes_missing(FrameKind::Message, &[4]), Err(Failure::ExpectedMessage(4)));
    assert_eq!(bytes_missing(FrameKind::Profile, &[5]), Err(Failure::ExpectedProfile(5)));
    assert_eq!(bytes_missing(FrameKind::HandShake, &[1]), Err(Failure::ExpectedHandshake(1)));
    assert_eq!(bytes_missing(FrameKind::Acceptance, &[9]), Err(Failure::ExpectedAcceptance(9)));
    assert_eq!(bytes_missing(FrameKind::Request, &[3]), Err(Failure::UnknownOperation(3)));
}

#[test]
fn refused_frames_consume_only_what_showed_the_fault() {
    let mut wrong = ByteStream::new(vec![9, 1, 2]);
    assert_eq!(
        take_frame(FrameKind::Acceptance, &mut wrong),
        Err(Failure::ExpectedAcceptance(9))
    );
    assert_eq!(wrong.len(), 2);

    let mut long = vec![5];
    long.extend_from_slice(&[0; MESSAGE_PUBLIC_KEY_SIZE + MESSAGE_NONCE_SIZE]);
    long.extend_from_slice(&(MAX_MESSAGE_SIZE + MESSAGE_TAG_SIZE as u64 + 1).to_be_bytes());
    long.extend_from_slice(&[7; 3]);
    let mut long = ByteStream::new(long);
    assert_eq!(take_frame(FrameKind::Message, &mut long), Err(Failure::CiphertextTooLong));
    assert_eq!(long.len(), 3);

    let mut short = ByteStream::new(vec![2, 0, 0]);
    assert_eq!(take_frame(FrameKind::Acceptance, &mut short), Err(Failure::UnexpectedEnd));
    assert_eq!(short.len(), 0);
}

#[test]
fn streams_end_in_bytes_or_in_numbers() {
    assert_eq!(stream_end(FrameKind::Request, 0), Failure::EndInNumber);
    assert_eq!(stream_end(FrameKind::Request, 1), Failure::UnexpectedEnd);
    assert_eq!(stream_end(FrameKind::Message, 57), Failure::EndInNumber);
    assert_eq!(stream_end(FrameKind::Message, 65), Failure::UnexpectedEnd);
    assert_eq!(stream_end(FrameKind::Acceptance, 0), Failure::UnexpectedEnd);
    assert_eq!(stream_end(FrameKind::HandShake, 0), Failure::UnexpectedEnd);
    assert_eq!(stream_end(FrameKind::Profile, 60), Failure::UnexpectedEnd);
}

#[test]
fn the_largest_announced_ciphertext_is_accepted() {
    let size = MAX_MESSAGE_SIZE + MESSAGE_TAG_SIZE as u64;
    let mut input = vec![5];
    input.extend_from_slice(&[0; 56]);
    input.extend_from_slice(&size.to_be_bytes());
    assert_eq!(bytes_missing(FrameKind::Message, &input), Ok(size as usize));
}

#[test]
fn an_acceptance_names_the_friend() {
    let mut bytes = vec![2];
    bytes.extend_from_slice(&[6; 16]);
    let mut stream = ByteStream::new(bytes);
    assert_eq!(check_if_op_accepted(&mut stream), Ok(UserId::from_bytes([6; 16])));
    let mut other = ByteStream::new(vec![1]);
    assert_eq!(check_if_op_accepted(&mut other), Err(Failure::ExpectedAcceptance(1)));
    let mut nothing = ByteStream::new(vec![]);
    assert_eq!(check_if_op_accepted(&mut nothing), Err(Failure::UnexpectedEnd));
}

#[test]
fn invite_keys_round_trip() {
    let bytes = [0, 1, 15, 16, 127, 128, 254, 255, 0xab, 0xcd, 0xef, 9, 10, 11, 12, 13];
    let key = RoomK::from(&bytes);
    let code = invite_code(&key);
    assert_eq!(code, "00010f107f80feffabcdef090a0b0c0d");
    assert_eq!(parse_room_key(&code), Ok(key));
    assert_eq!(parse_room_key("00010F107F80FEFFABCDEF090A0B0C0D"), Ok(key));
    let random = RoomK::new().unwrap();
    assert_eq!(parse_room_key(&invite_code(&random)), Ok(random));
}

#[test]
fn invite_keys_with_faults_are_refused() {
    assert_eq!(parse_room_key("abc"), Err(Failure::OddInviteKey));
    assert_eq!(parse_room_key("xyz"), Err(Failure::OddInviteKey));
    assert_eq!(parse_room_key("0g1h"), Err(Failure::InviteKeyCharacter('g', 1)));
    assert_eq!(parse_room_key("é"), Err(Failure::InviteKeyCharacter('Ã', 0)));
    assert_eq!(parse_room_key(""), Err(Failure::InviteKeyLength));
    assert_eq!(parse_room_key("00"), Err(Failure::InviteKeyLength));
    assert_eq!(parse_room_key(&"00".repeat(17)), Err(Failure::InviteKeyLength));
}

#[test]
fn failures_are_told_in_words() {
    assert_eq!(Failure::UnexpectedEnd.message(), "early eof");
    assert_eq!(
        Failure::EndInNumber.message(),
        std::io::Error::from(std::io::ErrorKind::UnexpectedEof).to_string()
    );
    assert_eq!(
        Failure::ExpectedAcceptance(9).message(),
        "expected invite acceptance, received operation 9"
    );
    assert_eq!(
        Failure::ExpectedHandshake(10).message(),
        "expected handshake operation, received 10"
    );
    assert_eq!(
        Failure::ExpectedProfile(255).message(),
        "expected profile operation, received 255"
    );
    assert_eq!(
        Failure::ExpectedMessage(0).message(),
        "expected message operation, received 0"
    );
    assert_eq!(Failure::UnknownOperation(42).message(), "unknown operation 42");
    assert_eq!(
        Failure::MessageTooLong.message(),
        "message is larger than the 1048576-byte limit"
    );
    assert_eq!(
        Failure::CiphertextTooLong.message(),
        "encrypted message is larger than the allowed limit"
    );
    assert_eq!(Failure::EncryptionFailed.message(), "could not encrypt message");
    assert_eq!(Failure::DecryptionFailed.message(), "could not decrypt message");
    assert_eq!(Failure::MessageNotText.message(), "message is not valid UTF-8");
    assert_eq!(Failure::NameLength.message(), "decrypted name has an invalid length");
    assert_eq!(Failure::BioLength.message(), "decrypted bio has an invalid length");
    assert_eq!(Failure::PictureLength.message(), "decrypted picture has an invalid length");
    assert_eq!(Failure::InviteKeyLength.message(), "invite key must be 16 bytes");
    assert_eq!(
        Failure::StoreNotEncrypted.message(),
        "friend store is not in the encrypted Ghostline format"
    );
    assert_eq!(Failure::StoreTruncated.message(), "encrypted friend store is truncated");
    assert_eq!(
        Failure::WrongPassword.message(),
        "incorrect storage password or corrupted friend store"
    );
    assert_eq!(Failure::StoreEncryptionFailed.message(), "could not encrypt friend store");
    assert_eq!(Failure::EmptyPassword.message(), "storage password cannot be empty");
    assert_eq!(
        Failure::PasswordTooLong.message(),
        format!("could not derive storage key: {}", argon2::Error::PwdTooLong)
    );
    assert_eq!(
        Failure::EmptyEnvironmentPassword.message(),
        "GHOSTLINE_STORAGE_PASSWORD cannot be empty"
    );
    assert_eq!(Failure::PasswordsDiffer.message(), "storage passwords do not match");
    assert_eq!(
        Failure::NoChatKeys.message(),
        "this friend predates encrypted chat support; create a new invite"
    );
    assert_eq!(Failure::NoStorageKey.message(), "friend store has no encryption key");
    assert_eq!(
        Failure::ProfileMismatch.message(),
        "friend profile and handshake user IDs do not match"
    );
    assert_eq!(
        Failure::HandshakeMismatch.message(),
        "server and handshake user IDs do not match"
    );
    assert_eq!(
        Failure::FriendRemoved.message(),
        "friend was removed while the chat was open"
    );
    assert_eq!(
        Failure::NoFriends.message(),
        "no friends are configured; create or join an invite first"
    );
    assert_eq!(Failure::UnknownInvite.message(), "invite references an unknown room");
    assert_eq!(Failure::RoomFull.message(), "room already has two participants");
    assert_eq!(Failure::CreatorGone.message(), "room creator is no longer waiting");
    assert_eq!(Failure::UnknownChatRoom.message(), "chat references an unknown room");
    assert_eq!(Failure::NotParticipant.message(), "user is not a participant in this room");
    assert_eq!(Failure::RoomRemoved.message(), "room was removed");
}

#[test]
fn invite_key_faults_read_as_the_decoder_words_them() {
    assert_eq!(
        parse_room_key("abc").unwrap_err().message(),
        hex::decode("abc").unwrap_err().to_string()
    );
    assert_eq!(
        parse_room_key("0\n").unwrap_err().message(),
        hex::decode("0\n").unwrap_err().to_string()
    );
    assert_eq!(
        parse_room_key("zz").unwrap_err().message(),
        "Invalid character 'z' at position 0"
    );
}
