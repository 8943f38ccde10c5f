use ghostline::app_driven_storage::{FriendsStore, StoredFriend};
use ghostline::bytes::ByteStream;
use ghostline::client::{
    confirm_storage_password, invite_text, parse_args, read_storage_password, welcome_text,
    Accepted, Activity, ArgumentError, Chat, ChatStep, Connected, Meeting, PasswordStep, Role,
    Session, Task,
};
use ghostline::encryption::Keys;
use ghostline::failure::Failure;
use ghostline::protocol::{RoomK, UserId};
use ghostline::relay::{Answer, Rooms};
use ghostline::terminal::{Key, KeyKind, MenuAction, TerminalEvent};
use ghostline::user_driven_settings::{Friend, Mine, Settings};

fn args(texts: &[&str]) -> Vec<String> {
    texts.iter().map(|text| text.to_string()).collect()
}

fn press(key: Key) -> Option<TerminalEvent> {
    Some(TerminalEvent::Key(KeyKind::Press, key))
}

#[test]
fn the_command_line_names_a_task() {
    assert!(matches!(parse_args(&args(&[])), Ok(Task::Menu)));
    assert!(matches!(parse_args(&args(&["--invite"])), Ok(Task::GenerateInvite)));
    assert!(matches!(parse_args(&args(&["--talk"])), Ok(Task::Talk)));
    match parse_args(&args(&["--join", "abc"])) {
        Ok(Task::Join(key)) => assert_eq!(key, "abc"),
        _ => panic!("the key is there"),
    }
}

fn argument_fault(texts: &[&str]) -> String {
    match parse_args(&args(texts)) {
        Err(error) => error.message(),
        Ok(_) => panic!("these arguments are refused"),
    }
}

#[test]
fn faulty_command_lines_are_refused() {
    assert_eq!(argument_fault(&["--join"]), "--join requires an invite key");
    assert_eq!(argument_fault(&["--join", ""]), "--join requires an invite key");
    assert_eq!(argument_fault(&["--join", "", "x"]), "--join requires an invite key");
    assert_eq!(argument_fault(&["--join", "abc", "x"]), "too many arguments");
    assert_eq!(argument_fault(&["--invite", "x"]), "too many arguments");
    assert_eq!(argument_fault(&["--talk", "--talk"]), "too many arguments");
    assert_eq!(argument_fault(&["--help"]), "unknown argument --help");
    assert_eq!(argument_fault(&["", "x"]), "unknown argument ");
    assert!(matches!(parse_args(&args(&["--talk", "x"])), Err(ArgumentError::TooMany)));
}

#[test]
fn a_run_without_a_task_comes_back_to_the_menu() {
    let (session, first) = Session::begin(Task::Menu);
    assert!(matches!(first, Activity::Menu));
    assert!(matches!(session.chosen(MenuAction::GenerateInvite), Activity::CreateInvite));
    assert!(matches!(session.chosen(MenuAction::Join), Activity::AskKey));
    assert!(matches!(session.chosen(MenuAction::Talk), Activity::Talk));
    assert!(matches!(session.chosen(MenuAction::Exit), Activity::Leave));
    assert!(matches!(session.done(), Activity::Menu));
    assert!(matches!(session.answered(None), Activity::Menu));
    match session.answered(Some("key".to_owned())) {
        Activity::JoinInvite(key) => assert_eq!(key, "key"),
        _ => panic!("the key is used"),
    }
}

#[test]
fn a_run_with_a_task_ends_after_it() {
    let (session, first) = Session::begin(Task::GenerateInvite);
    assert!(matches!(first, Activity::CreateInvite));
    assert!(matches!(session.done(), Activity::Leave));
    let (session, first) = Session::begin(Task::Talk);
    assert!(matches!(first, Activity::Talk));
    assert!(matches!(session.done(), Activity::Leave));
    let (session, first) = Session::begin(Task::Join("key".to_owned()));
    assert!(matches!(first, Activity::JoinInvite(_)));
    assert!(matches!(session.done(), Activity::Leave));
}

#[test]
fn storage_passwords_are_checked_and_confirmed() {
    assert_eq!(read_storage_password(None, true), Ok(PasswordStep::Quit));
    assert_eq!(read_storage_password(Some(""), false), Err(Failure::EmptyPassword));
    assert_eq!(read_storage_password(Some("p"), false), Ok(PasswordStep::Accept));
    assert_eq!(read_storage_password(Some("p"), true), Ok(PasswordStep::Confirm));
    assert_eq!(confirm_storage_password("p", None), Ok(PasswordStep::Quit));
    assert_eq!(confirm_storage_password("p", Some("p")), Ok(PasswordStep::Accept));
    assert_eq!(confirm_storage_password("p", Some("q")), Err(Failure::PasswordsDiffer));
    assert_eq!(confirm_storage_password("p", Some("")), Err(Failure::PasswordsDiffer));
}

#[test]
fn notices_hold_the_key_and_the_name() {
    assert_eq!(
        invite_text("00ff"),
        "Share this invite key with your contact:\n\n00ff\n\nWaiting for them to accept…"
    );
    assert_eq!(welcome_text("Bob"), "Connected with Bob.\n\nPress Enter to continue.");
}

fn acceptance(id: u8) -> ByteStream {
    let mut bytes = vec![2];
    bytes.extend_from_slice(&[id; 16]);
    ByteStream::new(bytes)
}

fn meet() -> (Connected, Connected) {
    let key = RoomK::from(&[9; 16]);
    let (creator, opening) = Meeting::begin(Role::Creator, UserId::from_bytes([1; 16]), key);
    let (joiner, joining) = Meeting::begin(Role::Joiner, UserId::from_bytes([2; 16]), key);
    let mut rooms: Rooms<u8, u8> = Rooms::new();
    rooms.handle_connection(&mut ByteStream::new(opening), 1, 0).unwrap();
    let answer = rooms.handle_connection(&mut ByteStream::new(joining), 2, 0).unwrap();
    let (to_creator, to_joiner) = match answer {
        Answer::Paired { creator_notice, joiner_notice, .. } => (creator_notice, joiner_notice),
        _ => panic!("the two have met"),
    };
    let (creator, nothing) = creator.accepted(&mut ByteStream::new(to_creator)).unwrap();
    assert!(nothing.is_empty());
    let (joiner, shown) = joiner.accepted(&mut ByteStream::new(to_joiner)).unwrap();
    let (creator, reply) = creator.shaken(&mut ByteStream::new(shown)).unwrap();
    let (joiner, nothing) = joiner.shaken(&mut ByteStream::new(reply)).unwrap();
    assert!(nothing.is_empty());
    (creator, joiner)
}

#[test]
fn two_clients_meet_and_store_each_other() {
    let (mut creator, mut joiner) = meet();
    assert_eq!(creator.friend_key.as_bytes(), joiner.keys.public_bytes());
    assert_eq!(joiner.friend_key.as_bytes(), creator.keys.public_bytes());

    let mut alice = Settings::<Mine>::new(UserId::from_bytes([1; 16]), "Alice", "a.png", "hi");
    let mut bob = Settings::<Mine>::new(UserId::from_bytes([2; 16]), "Bob", "b.png", "ho");
    let to_bob = creator.introduce(&mut alice).unwrap();
    let to_alice = joiner.introduce(&mut bob).unwrap();
    let friend_of_alice = creator.introduced(&mut ByteStream::new(to_alice)).unwrap();
    let friend_of_bob = joiner.introduced(&mut ByteStream::new(to_bob)).unwrap();
    assert_eq!(friend_of_alice.name_to_string(), "Bob");
    assert_eq!(friend_of_bob.name_to_string(), "Alice");

    let mut alices = FriendsStore::default();
    let mut bobs = FriendsStore::default();
    creator.conclude(friend_of_alice, &mut alices).unwrap();
    joiner.conclude(friend_of_bob, &mut bobs).unwrap();

    let mut alices_chat = Chat::open(&alices, 0).unwrap();
    let mut bobs_chat = Chat::open(&bobs, 0).unwrap();
    assert_eq!(alices_chat.friend_name, "Bob");
    assert_eq!(alices_chat.status, "Esc or /quit to leave");
    for character in "hello".chars() {
        assert_eq!(alices_chat.on_event(press(Key::Char(character))), ChatStep::Edit);
    }
    assert_eq!(alices_chat.on_event(press(Key::Enter)), ChatStep::Send);
    let frame = alices_chat.outgoing().unwrap();
    alices_chat.sent(&mut alices).unwrap();
    let text = bobs_chat.incoming(&mut ByteStream::new(frame)).unwrap();
    assert_eq!(text, "hello");
    bobs_chat.received(&mut bobs, &text).unwrap();
    assert_eq!(alices_chat.messages, vec!["You: hello".to_owned()]);
    assert_eq!(alices_chat.input, "");
    assert_eq!(alices_chat.status, "");
    assert_eq!(bobs_chat.messages, vec!["Alice: hello".to_owned()]);
    assert_eq!(alices.friends[0].messages(), alices_chat.messages);
    assert_eq!(bobs.friends[0].messages(), bobs_chat.messages);
    assert_eq!(Chat::open(&bobs, 0).unwrap().messages, vec!["Alice: hello".to_owned()]);
}

#[test]
fn a_key_of_somebody_else_is_refused() {
    let key = RoomK::from(&[9; 16]);
    let (creator, _) = Meeting::begin(Role::Creator, UserId::from_bytes([1; 16]), key);
    let (accepted, _): (Accepted, Vec<u8>) = creator.accepted(&mut acceptance(2)).unwrap();
    let mut shown = vec![];
    Keys::new().share(&mut shown, &UserId::from_bytes([3; 16]));
    let refused = accepted.shaken(&mut ByteStream::new(shown));
    assert_eq!(refused.err(), Some(Failure::HandshakeMismatch));
}

#[test]
fn other_frames_end_a_meeting() {
    let key = RoomK::from(&[9; 16]);
    let id = UserId::from_bytes([1; 16]);
    let (joiner, _) = Meeting::begin(Role::Joiner, id, key);
    let refused = joiner.accepted(&mut ByteStream::new(vec![3]));
    assert_eq!(refused.err(), Some(Failure::ExpectedAcceptance(3)));
    let (joiner, _) = Meeting::begin(Role::Joiner, id, key);
    let (joiner, shown) = joiner.accepted(&mut acceptance(2)).unwrap();
    assert_eq!(shown.len(), 49);
    assert_eq!(&shown[..17], &[3, 1, 1, 1, 1, 1, 1, 1, 1, 1, 1, 1, 1, 1, 1, 1, 1]);
    let refused = joiner.shaken(&mut ByteStream::new(vec![4]));
    assert_eq!(refused.err(), Some(Failure::ExpectedHandshake(4)));
}

#[test]
fn a_profile_of_somebody_else_is_not_stored() {
    let (creator, _) = meet();
    let stranger =
        Settings::<Friend>::from_parts(UserId::from_bytes([7; 16]), b"Eve", b"", b"");
    let mut store = FriendsStore::default();
    assert_eq!(creator.conclude(stranger, &mut store), Err(Failure::ProfileMismatch));
    assert!(store.is_empty());
}

fn friend(private_key: Option<[u8; 32]>) -> StoredFriend {
    StoredFriend {
        room_key: RoomK::from(&[1; 16]),
        settings: Settings::<Friend>::from_parts(UserId::from_bytes([2; 16]), b"Bob", b"", b""),
        messages_history: Some(vec!["Bob: hi".to_owned()]),
        private_key,
        friend_public_key: Some([4; 32]),
    }
}

#[test]
fn friends_without_keys_cannot_be_talked_to() {
    let mut store = FriendsStore::default();
    store.friends.push(friend(None));
    assert_eq!(Chat::open(&store, 0).err(), Some(Failure::NoChatKeys));
}

#[test]
fn a_chat_is_left_by_key_or_word() {
    let mut store = FriendsStore::default();
    store.friends.push(friend(Some([3; 32])));
    let mut chat = Chat::open(&store, 0).unwrap();
    assert_eq!(chat.messages, vec!["Bob: hi".to_owned()]);
    assert_eq!(chat.on_event(press(Key::Esc)), ChatStep::Leave);
    assert_eq!(chat.on_event(None), ChatStep::Leave);
    assert_eq!(chat.on_event(press(Key::Enter)), ChatStep::Edit);
    assert_eq!(chat.on_event(Some(TerminalEvent::Other)), ChatStep::Edit);
    for character in "/quitx".chars() {
        chat.on_event(press(Key::Char(character)));
    }
    assert_eq!(chat.on_event(press(Key::Enter)), ChatStep::Send);
    assert_eq!(chat.on_event(press(Key::Backspace)), ChatStep::Edit);
    assert_eq!(chat.input, "/quit");
    assert_eq!(chat.on_event(press(Key::Enter)), ChatStep::Leave);
    assert_eq!(chat.on_event(press(Key::Up)), ChatStep::Edit);
}

#[test]
fn a_chat_notices_that_its_friend_was_removed() {
    let mut store = FriendsStore::default();
    store.friends.push(friend(Some([3; 32])));
    let mut chat = Chat::open(&store, 0).unwrap();
    chat.on_event(press(Key::Char('x')));
    store.remove(&UserId::from_bytes([2; 16]));
    assert_eq!(chat.sent(&mut store), Err(Failure::FriendRemoved));
    assert_eq!(chat.received(&mut store, "hi"), Err(Failure::FriendRemoved));
    assert_eq!(chat.messages, vec!["Bob: hi".to_owned()]);
    assert_eq!(chat.input, "x");
}

#[test]
fn a_whole_conversation_is_sent_and_stored() {
    let mut store = FriendsStore::default();
    let mut bob = friend(Some([3; 32]));
    bob.room_key = RoomK::from(&[7; 16]);
    bob.messages_history = None;
    store.friends.push(bob);
    let mut chat = Chat::open(&store, 0).unwrap();
    let mut sent = chat.request(&UserId::from_bytes([1; 16]));
    assert_eq!(chat.on_event(press(Key::Enter)), ChatStep::Edit);
    for character in "hi".chars() {
        chat.on_event(press(Key::Char(character)));
    }
    assert_eq!(chat.on_event(press(Key::Enter)), ChatStep::Send);
    sent.extend(chat.outgoing().unwrap());
    chat.sent(&mut store).unwrap();
    for character in "/quit".chars() {
        chat.on_event(press(Key::Char(character)));
    }
    assert_eq!(chat.on_event(press(Key::Enter)), ChatStep::Leave);
    assert_eq!(store.friends[0].messages_history, Some(vec!["You: hi".to_owned()]));
    assert_eq!(sent.len(), 116);
    assert_eq!(sent[0], 6);
    assert_eq!(sent[1..17], [1; 16]);
    assert_eq!(sent[17..33], [7; 16]);
    assert_eq!(sent[33], 5);
}

#[test]
fn overlong_input_is_not_sent() {
    let mut store = FriendsStore::default();
    store.friends.push(friend(Some([3; 32])));
    let mut chat = Chat::open(&store, 0).unwrap();
    chat.input = "a".repeat(1048577);
    assert_eq!(chat.outgoing(), Err(Failure::MessageTooLong));
}
