use ghostline::bytes::ByteStream;
use ghostline::client::Chat;
use ghostline::encryption::Keys;
use ghostline::failure::Failure;
use ghostline::message::{read, send};
use ghostline::protocol::{
    Operation, RoomK, UserId, MAX_MESSAGE_SIZE, MESSAGE_NONCE_SIZE, MESSAGE_PUBLIC_KEY_SIZE,
    MESSAGE_TAG_SIZE,
};
use ghostline::relay::{
    notify_invite_accepted, read_message_frame, read_request, Answer, ChatAction, ChatEvent, Room,
    Rooms,
};
use ghostline::talk_to_server::check_if_op_accepted;

fn request(operation: u8, user_id: &UserId, key: &RoomK) -> ByteStream {
    let mut bytes = vec![operation];
    bytes.extend_from_slice(user_id.as_bytes());
    bytes.extend_from_slice(key.bytes());
    ByteStream::new(bytes)
}

#[test]
fn message_frames_are_forwarded_without_modification() {
    let nonce = [7; MESSAGE_NONCE_SIZE];
    let ephemeral_public_key = [3; MESSAGE_PUBLIC_KEY_SIZE];
    let ciphertext = b"opaque ciphertext";
    let mut expected = vec![Operation::Message.code()];
    expected.extend_from_slice(&ephemeral_public_key);
    expected.extend_from_slice(&nonce);
    expected.extend_from_slice(&(ciphertext.len() as u64).to_be_bytes());
    expected.extend_from_slice(ciphertext);
    let mut input = ByteStream::new(expected.clone());

    let frame = read_message_frame(&mut input).unwrap();

    assert_eq!(frame, expected);
}

#[test]
fn oversized_message_frames_are_rejected_before_allocation() {
    let mut input = vec![Operation::Message.code()];
    input.extend_from_slice(&[0; MESSAGE_PUBLIC_KEY_SIZE]);
    input.extend_from_slice(&[0; MESSAGE_NONCE_SIZE]);
    input.extend_from_slice(&(MAX_MESSAGE_SIZE + MESSAGE_TAG_SIZE as u64 + 1).to_be_bytes());
    let mut input = ByteStream::new(input);

    assert!(read_message_frame(&mut input).is_err());
}

#[test]
fn registered_room_participants_receive_each_others_frames() {
    let creator_id = UserId::new().unwrap();
    let joiner_id = UserId::new().unwrap();
    let room_key = RoomK::new().unwrap();
    let mut rooms: Rooms<(), char> = Rooms::new();
    rooms.insert(
        &room_key,
        Room {
            creator_id: creator_id.clone(),
            creator_stream: None,
            creator_chat: None,
            joiner_id: Some(joiner_id.clone()),
            joiner_chat: None,
        },
    );

    rooms.register_chat(&room_key, &creator_id, 'c').unwrap();
    rooms.register_chat(&room_key, &joiner_id, 'j').unwrap();
    let room = rooms.get(&room_key).unwrap();
    assert!(room.creator_chat.is_some() && room.joiner_chat.is_some());

    let nonce = [9; MESSAGE_NONCE_SIZE];
    let ephemeral_public_key = [4; MESSAGE_PUBLIC_KEY_SIZE];
    let ciphertext = b"still opaque";
    let mut frame = vec![Operation::Message.code()];
    frame.extend_from_slice(&ephemeral_public_key);
    frame.extend_from_slice(&nonce);
    frame.extend_from_slice(&(ciphertext.len() as u64).to_be_bytes());
    frame.extend_from_slice(ciphertext);

    let sent = read_message_frame(&mut ByteStream::new(frame.clone()));
    let action = rooms.relay(&room_key, &creator_id, ChatEvent::Incoming(sent)).unwrap();
    let received = match action {
        ChatAction::Forward(recipient, frame) => {
            assert_eq!(*recipient, 'j');
            frame
        }
        _ => panic!("the frame goes to the joiner"),
    };
    assert_eq!(received, frame);
    match rooms.relay(&room_key, &joiner_id, ChatEvent::Outbound(Some(received))) {
        Ok(ChatAction::Write(written)) => assert_eq!(written, frame),
        _ => panic!("the frame is written to the joiner"),
    }
    match rooms.relay(&room_key, &joiner_id, ChatEvent::Incoming(Ok(frame.clone()))) {
        Ok(ChatAction::Forward(recipient, back)) => {
            assert_eq!(*recipient, 'c');
            assert_eq!(back, frame);
        }
        _ => panic!("the frame goes to the creator"),
    }
}

#[test]
fn an_invite_is_opened_joined_and_talked_over() {
    let creator = UserId::from_bytes([1; 16]);
    let joiner = UserId::from_bytes([2; 16]);
    let key = RoomK::from(&[3; 16]);
    let mut rooms: Rooms<&str, &str> = Rooms::new();

    let opened = rooms.handle_connection(&mut request(1, &creator, &key), "creator", "-");
    assert!(matches!(opened, Ok(Answer::Waiting)));
    match rooms.handle_connection(&mut request(2, &joiner, &key), "joiner", "-") {
        Ok(Answer::Paired { creator_stream, creator_notice, joiner_stream, joiner_notice }) => {
            assert_eq!(creator_stream, "creator");
            assert_eq!(joiner_stream, "joiner");
            assert_eq!(check_if_op_accepted(&mut ByteStream::new(creator_notice)), Ok(joiner));
            assert_eq!(check_if_op_accepted(&mut ByteStream::new(joiner_notice)), Ok(creator));
        }
        _ => panic!("the invite is accepted"),
    }
    match rooms.handle_connection(&mut request(6, &joiner, &key), "talk", "joiner's chat") {
        Ok(Answer::Chatting { stream, user_id, key: room }) => {
            assert_eq!(stream, "talk");
            assert_eq!(user_id, joiner);
            assert_eq!(room, key);
        }
        _ => panic!("the joiner chats"),
    }
    assert_eq!(rooms.recipient(&key, &creator), Ok(Some(&"joiner's chat")));
    assert_eq!(rooms.recipient(&key, &joiner), Ok(None));
    match rooms.relay(&key, &joiner, ChatEvent::Incoming(Ok(vec![5]))) {
        Ok(ChatAction::Discard) => {}
        _ => panic!("nobody is there to receive the frame"),
    }
    rooms.handle_connection(&mut request(6, &creator, &key), "talk", "creator's chat").unwrap();
    assert_eq!(rooms.recipient(&key, &joiner), Ok(Some(&"creator's chat")));
}

#[test]
fn refused_requests_change_nothing() {
    let creator = UserId::from_bytes([1; 16]);
    let joiner = UserId::from_bytes([2; 16]);
    let stranger = UserId::from_bytes([9; 16]);
    let key = RoomK::from(&[3; 16]);
    let other = RoomK::from(&[4; 16]);
    let mut rooms: Rooms<u8, u8> = Rooms::new();

    assert_eq!(rooms.pair_room(&key, joiner), Err(Failure::UnknownInvite));
    assert_eq!(rooms.register_chat(&key, &creator, 1), Err(Failure::UnknownChatRoom));
    assert_eq!(rooms.recipient(&key, &creator), Err(Failure::RoomRemoved));
    match rooms.relay(&key, &creator, ChatEvent::Incoming(Ok(vec![]))) {
        Err(failure) => assert_eq!(failure, Failure::RoomRemoved),
        Ok(_) => panic!("there is no such room"),
    }

    rooms.handle_connection(&mut request(1, &creator, &key), 10, 0).unwrap();
    assert_eq!(rooms.register_chat(&key, &stranger, 1), Err(Failure::NotParticipant));
    assert_eq!(rooms.register_chat(&key, &joiner, 1), Err(Failure::NotParticipant));
    assert_eq!(rooms.pair_room(&other, joiner), Err(Failure::UnknownInvite));
    assert_eq!(rooms.pair_room(&key, joiner), Ok((creator, 10)));
    assert_eq!(rooms.pair_room(&key, stranger), Err(Failure::RoomFull));
    assert_eq!(rooms.get(&key).unwrap().joiner_id, Some(joiner));

    rooms.insert(
        &other,
        Room {
            creator_id: creator,
            creator_stream: None,
            creator_chat: None,
            joiner_id: None,
            joiner_chat: None,
        },
    );
    assert_eq!(rooms.pair_room(&other, joiner), Err(Failure::CreatorGone));
    assert!(rooms.get(&RoomK::from(&[5; 16])).is_none());
}

#[test]
fn a_room_that_is_opened_again_starts_anew() {
    let creator = UserId::from_bytes([1; 16]);
    let joiner = UserId::from_bytes([2; 16]);
    let key = RoomK::from(&[3; 16]);
    let mut rooms: Rooms<u8, u8> = Rooms::new();
    rooms.handle_connection(&mut request(1, &creator, &key), 10, 0).unwrap();
    rooms.pair_room(&key, joiner).unwrap();
    rooms.handle_connection(&mut request(1, &joiner, &key), 11, 0).unwrap();
    assert_eq!(rooms.pair_room(&key, creator), Ok((joiner, 11)));
}

#[test]
fn unknown_and_broken_requests_are_refused() {
    let mut rooms: Rooms<u8, u8> = Rooms::new();
    let unknown = rooms.handle_connection(&mut ByteStream::new(vec![5]), 0, 0);
    assert_eq!(unknown.err(), Some(Failure::UnknownOperation(5)));
    let broken = rooms.handle_connection(&mut ByteStream::new(vec![1, 2]), 0, 0);
    assert_eq!(broken.err(), Some(Failure::UnexpectedEnd));
    let nothing = read_request(&mut ByteStream::new(vec![]));
    assert_eq!(nothing.err(), Some(Failure::EndInNumber));
    let frameless = read_message_frame(&mut ByteStream::new(vec![]));
    assert_eq!(frameless.err(), Some(Failure::EndInNumber));
}

#[test]
fn requests_are_read_as_they_were_made() {
    let id = UserId::from_bytes([7; 16]);
    let key = RoomK::from(&[8; 16]);
    let read = read_request(&mut request(6, &id, &key)).unwrap();
    assert_eq!(read.operation, Operation::Talk);
    assert_eq!(read.user_id, id);
    assert_eq!(read.key, key);
}

#[test]
fn a_chat_ends_with_its_channel_or_its_connection() {
    let rooms: Rooms<u8, u8> = Rooms::new();
    let id = UserId::from_bytes([7; 16]);
    let key = RoomK::from(&[8; 16]);
    let closed = rooms.relay(&key, &id, ChatEvent::Outbound(None));
    assert!(matches!(closed, Ok(ChatAction::Stop)));
    match rooms.relay(&key, &id, ChatEvent::Incoming(Err(Failure::UnexpectedEnd))) {
        Err(failure) => assert_eq!(failure, Failure::UnexpectedEnd),
        Ok(_) => panic!("the connection has ended"),
    }
}

#[test]
fn the_notice_names_the_friend() {
    let mut notice = vec![];
    notify_invite_accepted(&mut notice, &UserId::from_bytes([6; 16]));
    let mut expected = vec![2];
    expected.extend_from_slice(&[6; 16]);
    assert_eq!(notice, expected);
}

#[test]
fn relayed_messages_arrive_unchanged() {
    let bob = Keys::new();
    let mut input = vec![];
    send("over the relay", &mut input, bob.public_bytes()).unwrap();
    let sent = input.clone();
    input.extend_from_slice(&[5, 1, 2]);
    let relayed = read_message_frame(&mut ByteStream::new(input)).unwrap();
    assert_eq!(relayed, sent);
    assert_eq!(
        read(&mut ByteStream::new(relayed), bob.private_bytes()),
        Ok("over the relay".to_owned())
    );
}

#[test]
fn a_chat_asks_to_talk_in_its_room() {
    let chat = Chat {
        friend_id: UserId::from_bytes([1; 16]),
        room_key: RoomK::from(&[2; 16]),
        friend_name: "Alice".to_owned(),
        private_key: [3; 32],
        friend_public_key: [4; 32],
        messages: vec![],
        input: String::new(),
        status: String::new(),
    };
    let me = UserId::from_bytes([5; 16]);
    let read = read_request(&mut ByteStream::new(chat.request(&me))).unwrap();
    assert_eq!(read.operation, Operation::Talk);
    assert_eq!(read.user_id, me);
    assert_eq!(read.key, RoomK::from(&[2; 16]));
}

#[test]
fn requests_touch_only_their_room() {
    let one = UserId::from_bytes([1; 16]);
    let two = UserId::from_bytes([2; 16]);
    let first = RoomK::from(&[3; 16]);
    let mut second_key = [3; 16];
    second_key[15] = 4;
    let second = RoomK::from(&second_key);
    let mut rooms: Rooms<u8, u8> = Rooms::new();
    rooms.handle_connection(&mut request(1, &one, &first), 10, 0).unwrap();
    rooms.handle_connection(&mut request(1, &two, &second), 20, 0).unwrap();
    rooms.handle_connection(&mut request(2, &two, &first), 30, 0).unwrap();
    rooms.handle_connection(&mut request(6, &two, &first), 40, 5).unwrap();

    let joined = rooms.get(&first).unwrap();
    assert_eq!(joined.creator_stream, None);
    assert_eq!(joined.joiner_id, Some(two));
    assert_eq!(joined.joiner_chat, Some(5));
    assert_eq!(joined.creator_chat, None);
    let waiting = rooms.get(&second).unwrap();
    assert_eq!(waiting.creator_id, two);
    assert_eq!(waiting.creator_stream, Some(20));
    assert_eq!(waiting.joiner_id, None);
    assert_eq!(waiting.joiner_chat, None);
    assert_eq!(waiting.creator_chat, None);
}
