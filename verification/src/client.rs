//! The client: what the command line asks for, how two clients meet over an
//! invite, and what happens in a chat.

use vstd::prelude::*;
use vstd::utf8;
use crate::app_driven_storage;
use crate::app_driven_storage::{FriendsStore, StoredFriend};
use crate::bytes::ByteStream;
use crate::encryption;
use crate::encryption::{Encryption, FriendK, Keys, KEY_SIZE};
use crate::failure::Failure;
use crate::message;
use crate::protocol;
use crate::protocol::{write_request, FrameKind, Operation, RoomK, UserId, USER_ID_SIZE};
use crate::talk_to_server::check_if_op_accepted;
use crate::terminal;
use crate::terminal::{Key, MenuAction, TerminalEvent};
use crate::text::{joined, same_text};
use crate::user_driven_settings;
use crate::user_driven_settings::{Friend, Mine, Profile, Settings};

verus! {

broadcast use vstd::array::group_array_axioms;

/// What the command line asks for.
pub enum Task {
    GenerateInvite,
    Join(String),
    Talk,
    Menu,
}

/// What is wrong with a command line.
pub enum ArgumentError {
    MissingInviteKey,
    Unknown(String),
    TooMany,
}

impl ArgumentError {
    /// What the user is told about it.
    pub fn message(&self) -> (text: String)
        ensures
            text@ == match self {
                ArgumentError::MissingInviteKey => "--join requires an invite key"@,
                ArgumentError::Unknown(argument) => "unknown argument "@ + argument@,
                ArgumentError::TooMany => "too many arguments"@,
            },
    {
        match self {
            ArgumentError::MissingInviteKey => "--join requires an invite key".to_owned(),
            ArgumentError::Unknown(argument) => joined("unknown argument ", argument.as_str()),
            ArgumentError::TooMany => "too many arguments".to_owned(),
        }
    }
}

/// `outcome` is what the arguments after the program's name ask for.
pub open spec fn parsed_args(args: Seq<String>, outcome: Result<Task, ArgumentError>) -> bool {
    if args.len() == 0 {
        outcome matches Ok(Task::Menu)
    } else if args[0]@ == "--invite"@ {
        if args.len() == 1 {
            outcome matches Ok(Task::GenerateInvite)
        } else {
            outcome matches Err(ArgumentError::TooMany)
        }
    } else if args[0]@ == "--join"@ {
        if args.len() == 1 || args[1]@.len() == 0 {
            outcome matches Err(ArgumentError::MissingInviteKey)
        } else if args.len() == 2 {
            outcome matches Ok(Task::Join(key)) && key == args[1]
        } else {
            outcome matches Err(ArgumentError::TooMany)
        }
    } else if args[0]@ == "--talk"@ {
        if args.len() == 1 {
            outcome matches Ok(Task::Talk)
        } else {
            outcome matches Err(ArgumentError::TooMany)
        }
    } else {
        outcome matches Err(ArgumentError::Unknown(argument)) && argument == args[0]
    }
}

/// What the arguments after the program's name ask for.
pub fn parse_args(args: &[String]) -> (task: Result<Task, ArgumentError>)
    ensures
        parsed_args(args@, task),
{
    if args.len() == 0 {
        return Ok(Task::Menu);
    }
    let (task, used): (Task, usize) = if same_text(args[0].as_str(), "--invite") {
        (Task::GenerateInvite, 1)
    } else if same_text(args[0].as_str(), "--join") {
        if args.len() < 2 || args[1].as_str().is_empty() {
            return Err(ArgumentError::MissingInviteKey);
        }
        (Task::Join(args[1].clone()), 2)
    } else if same_text(args[0].as_str(), "--talk") {
        (Task::Talk, 1)
    } else {
        return Err(ArgumentError::Unknown(args[0].clone()));
    };
    if args.len() > used {
        return Err(ArgumentError::TooMany);
    }
    Ok(task)
}

/// What the client does next.
pub enum Activity {
    /// Show the menu.
    Menu,
    /// Create an invite and wait for somebody to accept it.
    CreateInvite,
    /// Ask for an invite key.
    AskKey,
    /// Join the invite with this key.
    JoinInvite(String),
    /// Open a conversation.
    Talk,
    /// End.
    Leave,
}

/// A run of the client. One that was started without a task comes back to the
/// menu after everything; one with a task ends when it is done.
pub struct Session {
    interactive: bool,
}

impl Session {
    /// Whether the menu is shown.
    pub closed spec fn interactive(&self) -> bool {
        self.interactive
    }

    /// Starts a run, and says what to do first.
    pub fn begin(task: Task) -> (started: (Session, Activity))
        ensures
            started.0.interactive() == (task is Menu),
            match task {
                Task::Menu => started.1 is Menu,
                Task::GenerateInvite => started.1 is CreateInvite,
                Task::Join(key) => started.1 == Activity::JoinInvite(key),
                Task::Talk => started.1 is Talk,
            },
    {
        match task {
            Task::Menu => (Session { interactive: true }, Activity::Menu),
            Task::GenerateInvite => (Session { interactive: false }, Activity::CreateInvite),
            Task::Join(key) => (Session { interactive: false }, Activity::JoinInvite(key)),
            Task::Talk => (Session { interactive: false }, Activity::Talk),
        }
    }

    /// What to do after the user chose something in the menu.
    pub fn chosen(&self, action: MenuAction) -> (next: Activity)
        ensures
            match action {
                MenuAction::GenerateInvite => next is CreateInvite,
                MenuAction::Join => next is AskKey,
                MenuAction::Talk => next is Talk,
                MenuAction::Exit => next is Leave,
            },
    {
        match action {
            MenuAction::GenerateInvite => Activity::CreateInvite,
            MenuAction::Join => Activity::AskKey,
            MenuAction::Talk => Activity::Talk,
            MenuAction::Exit => Activity::Leave,
        }
    }

    /// What to do after the user was asked for an invite key.
    pub fn answered(&self, key: Option<String>) -> (next: Activity)
        ensures
            match key {
                Some(key) => next == Activity::JoinInvite(key),
                None => if self.interactive() {
                    next is Menu
                } else {
                    next is Leave
                },
            },
    {
        match key {
            Some(key) => Activity::JoinInvite(key),
            None => self.done(),
        }
    }

    /// What to do after an invite or a conversation.
    pub fn done(&self) -> (next: Activity)
        ensures
            if self.interactive() {
                next is Menu
            } else {
                next is Leave
            },
    {
        if self.interactive {
            Activity::Menu
        } else {
            Activity::Leave
        }
    }
}

/// What comes of an answer to the password prompt.
#[derive(Clone, Copy, Debug, PartialEq, Eq, Structural)]
pub enum PasswordStep {
    /// The user left the prompt.
    Quit,
    /// The password has to be repeated.
    Confirm,
    /// The password is taken.
    Accept,
}

/// What comes of the answer to the first password prompt; `confirm` is set
/// where the store is new.
pub fn read_storage_password(answer: Option<&str>, confirm: bool) -> (step: Result<
    PasswordStep,
    Failure,
>)
    ensures
        step == match answer {
            None => Ok::<PasswordStep, Failure>(PasswordStep::Quit),
            Some(password) => if password@.len() == 0 {
                Err(Failure::EmptyPassword)
            } else if confirm {
                Ok(PasswordStep::Confirm)
            } else {
                Ok(PasswordStep::Accept)
            },
        },
{
    match answer {
        None => Ok(PasswordStep::Quit),
        Some(password) => {
            if password.is_empty() {
                Err(Failure::EmptyPassword)
            } else if confirm {
                Ok(PasswordStep::Confirm)
            } else {
                Ok(PasswordStep::Accept)
            }
        },
    }
}

/// What comes of the answer to the second password prompt.
pub fn confirm_storage_password(password: &str, answer: Option<&str>) -> (step: Result<
    PasswordStep,
    Failure,
>)
    ensures
        step == match answer {
            None => Ok::<PasswordStep, Failure>(PasswordStep::Quit),
            Some(confirmation) => if confirmation@ == password@ {
                Ok(PasswordStep::Accept)
            } else {
                Err(Failure::PasswordsDiffer)
            },
        },
{
    match answer {
        None => Ok(PasswordStep::Quit),
        Some(confirmation) => {
            if same_text(confirmation, password) {
                Ok(PasswordStep::Accept)
            } else {
                Err(Failure::PasswordsDiffer)
            }
        },
    }
}

/// What the user is shown while an invite waits.
pub fn invite_text(code: &str) -> (text: String)
    ensures
        text@ == "Share this invite key with your contact:\n\n"@ + code@
            + "\n\nWaiting for them to accept…"@,
{
    let mut text: String = joined("Share this invite key with your contact:\n\n", code);
    text.append("\n\nWaiting for them to accept…");
    text
}

/// What the user is shown once they have met somebody.
pub fn welcome_text(name: &str) -> (text: String)
    ensures
        text@ == "Connected with "@ + name@ + ".\n\nPress Enter to continue."@,
{
    let mut text: String = joined("Connected with ", name);
    text.append(".\n\nPress Enter to continue.");
    text
}

/// Which side of an invite a client is on.
#[derive(Clone, Copy, Debug, PartialEq, Eq, Structural)]
pub enum Role {
    Creator,
    Joiner,
}

/// What a client asks of the relay to meet somebody.
pub open spec fn opening_request(role: Role) -> Operation {
    match role {
        Role::Creator => Operation::WaitingForJoin,
        Role::Joiner => Operation::Accept,
    }
}

/// A client that has asked the relay for a meeting and waits for its word.
pub struct Meeting {
    pub role: Role,
    pub user_id: UserId,
    pub room_key: RoomK,
}

/// A client that knows from the relay whom it meets. A joiner has shown its
/// public key already.
pub struct Accepted {
    pub role: Role,
    pub user_id: UserId,
    pub room_key: RoomK,
    pub friend_id: UserId,
    pub keys: Option<Keys>,
}

/// A client that knows the other one's public key and has shown its own.
pub struct Connected {
    pub room_key: RoomK,
    pub friend_id: UserId,
    pub keys: Keys,
    pub friend_key: FriendK,
    pub encryption: Encryption,
}

impl Accepted {
    /// A joiner has a key pair and a creator has none yet.
    pub open spec fn well_formed(&self) -> bool {
        match self.keys {
            Some(keys) => self.role == Role::Joiner && keys.matched(),
            None => self.role == Role::Creator,
        }
    }
}

impl Connected {
    /// The cipher is the one between the own keys and the friend's.
    pub open spec fn well_formed(&self) -> bool {
        &&& self.keys.matched()
        &&& self.friend_key.owner() == self.friend_id@
        &&& self.encryption.private() == self.keys.private()
        &&& self.encryption.friend() == self.friend_key.key()
    }
}

/// The public key that is taken from the front of `input` when the relay has
/// named `friend_id`, or why there is none.
pub open spec fn handshake_outcome(input: Seq<u8>, friend_id: Seq<u8>) -> Result<
    Seq<u8>,
    Failure,
> {
    match protocol::frame_length(FrameKind::HandShake, input) {
        Err(failure) => Err(failure),
        Ok(_) => if input.subrange(1, 17) == friend_id {
            Ok(input.subrange(17, 49))
        } else {
            Err(Failure::HandshakeMismatch)
        },
    }
}

impl Meeting {
    /// Starts a meeting: what to send to the relay.
    pub fn begin(role: Role, user_id: UserId, room_key: RoomK) -> (started: (Meeting, Vec<u8>))
        ensures
            started.0 == (Meeting { role, user_id, room_key }),
            started.1@ == protocol::request_frame(opening_request(role), user_id@, room_key@),
    {
        let mut request: Vec<u8> = Vec::new();
        match role {
            Role::Creator => room_key.notify_server_of_room(&mut request, &user_id),
            Role::Joiner => crate::talk_to_server::accept_invite_notify(
                &mut request,
                &room_key,
                &user_id,
            ),
        }
        assert(request@ =~= protocol::request_frame(opening_request(role), user_id@, room_key@));
        (Meeting { role, user_id, room_key }, request)
    }

    /// Takes the relay's word, and says what to send to the other client: a
    /// joiner shows its public key, a creator waits for it.
    pub fn accepted(self, stream: &mut ByteStream) -> (outcome: Result<
        (Accepted, Vec<u8>),
        Failure,
    >)
        ensures
            match outcome {
                Ok((next, reply)) => {
                    &&& protocol::frame_length(FrameKind::Acceptance, old(stream)@) is Ok
                    &&& next.well_formed()
                    &&& next.role == self.role
                    &&& next.user_id == self.user_id
                    &&& next.room_key == self.room_key
                    &&& next.friend_id@ == old(stream)@.subrange(1, 17)
                    &&& reply@ == match next.keys {
                        Some(keys) => encryption::handshake_frame(self.user_id@, keys.public()),
                        None => Seq::<u8>::empty(),
                    }
                },
                Err(failure) => protocol::frame_length(FrameKind::Acceptance, old(stream)@)
                    == Err::<nat, Failure>(failure),
            },
            final(stream)@ == old(stream)@.skip(
                protocol::consumed_length(FrameKind::Acceptance, old(stream)@) as int,
            ),
    {
        let friend_id: UserId = check_if_op_accepted(stream)?;
        let mut reply: Vec<u8> = Vec::new();
        let keys: Option<Keys> = match self.role {
            Role::Creator => None,
            Role::Joiner => {
                let keys: Keys = Keys::new();
                keys.share(&mut reply, &self.user_id);
                assert(reply@ =~= encryption::handshake_frame(self.user_id@, keys.public()));
                Some(keys)
            },
        };
        Ok(
            (
                Accepted {
                    role: self.role,
                    user_id: self.user_id,
                    room_key: self.room_key,
                    friend_id,
                    keys,
                },
                reply,
            ),
        )
    }
}

impl Accepted {
    /// Takes the other client's public key, which must be of whom the relay
    /// named, and says what to send: a creator now shows its own.
    pub fn shaken(self, stream: &mut ByteStream) -> (outcome: Result<(Connected, Vec<u8>), Failure>)
        requires
            self.well_formed(),
        ensures
            match outcome {
                Ok((next, reply)) => {
                    &&& handshake_outcome(old(stream)@, self.friend_id@) == Ok::<Seq<u8>, Failure>(
                        next.friend_key.key(),
                    )
                    &&& next.well_formed()
                    &&& next.room_key == self.room_key
                    &&& next.friend_id == self.friend_id
                    &&& match self.keys {
                        Some(keys) => next.keys == keys && reply@ == Seq::<u8>::empty(),
                        None => reply@ == encryption::handshake_frame(
                            self.user_id@,
                            next.keys.public(),
                        ),
                    }
                },
                Err(failure) => handshake_outcome(old(stream)@, self.friend_id@) == Err::<
                    Seq<u8>,
                    Failure,
                >(failure),
            },
            final(stream)@ == old(stream)@.skip(
                protocol::consumed_length(FrameKind::HandShake, old(stream)@) as int,
            ),
    {
        let friend_key: FriendK = FriendK::read(stream)?;
        if *friend_key.user_id() != self.friend_id {
            return Err(Failure::HandshakeMismatch);
        }
        let mut reply: Vec<u8> = Vec::new();
        let keys: Keys = match self.keys {
            Some(keys) => keys,
            None => {
                let keys: Keys = Keys::new();
                keys.share(&mut reply, &self.user_id);
                assert(reply@ =~= encryption::handshake_frame(self.user_id@, keys.public()));
                keys
            },
        };
        let encryption: Encryption = Encryption::derive_real(&keys, &friend_key);
        Ok(
            (
                Connected {
                    room_key: self.room_key,
                    friend_id: self.friend_id,
                    keys,
                    friend_key,
                    encryption,
                },
                reply,
            ),
        )
    }
}

impl Connected {
    /// The user's profile, as it is sent to the other client, who reads the
    /// same profile from it.
    pub fn introduce(&mut self, me: &mut Settings<Mine>) -> (sent: Result<Vec<u8>, Failure>)
        ensures
            *final(self) == *old(self),
            *final(me) == *old(me),
            sent matches Ok(frame) && {
                &&& user_driven_settings::shows(
                    frame@,
                    old(self).encryption.private(),
                    old(self).encryption.friend(),
                    old(me)@,
                )
                &&& user_driven_settings::introduces(
                    frame@,
                    old(self).encryption.private(),
                    old(self).encryption.friend(),
                    old(me)@,
                )
            },
    {
        let mut frame: Vec<u8> = Vec::new();
        me.share(&mut frame, &mut self.encryption)?;
        assert(frame@.skip(0) =~= frame@);
        Ok(frame)
    }

    /// Takes the other client's profile.
    pub fn introduced(&mut self, stream: &mut ByteStream) -> (friend: Result<
        Settings<Friend>,
        Failure,
    >)
        ensures
            *final(self) == *old(self),
            match friend {
                Ok(friend) => user_driven_settings::profile_outcome(
                    old(stream)@,
                    old(self).encryption.private(),
                    old(self).encryption.friend(),
                ) == Ok::<Profile, Failure>(friend@),
                Err(failure) => user_driven_settings::profile_outcome(
                    old(stream)@,
                    old(self).encryption.private(),
                    old(self).encryption.friend(),
                ) == Err::<Profile, Failure>(failure),
            },
            final(stream)@ == old(stream)@.skip(
                protocol::consumed_length(FrameKind::Profile, old(stream)@) as int,
            ),
    {
        Settings::<Friend>::read_friend(stream, &mut self.encryption)
    }

    /// Stores the other client as a friend. A profile that names somebody else
    /// is refused and changes nothing.
    pub fn conclude(self, friend: Settings<Friend>, store: &mut FriendsStore) -> (stored: Result<
        (),
        Failure,
    >)
        ensures
            final(store).cipher == old(store).cipher,
            match stored {
                Ok(_) => {
                    let before = old(store).friends@;
                    let after = final(store).friends@;
                    &&& friend.user_id@ == self.friend_id@
                    &&& app_driven_storage::found(after, self.friend_id@) matches Some(entry)
                        && app_driven_storage::new_entry(
                        entry,
                        self.room_key,
                        friend,
                        self.keys,
                        self.friend_key,
                    ) && after == (if app_driven_storage::position(before, self.friend_id@)
                        < before.len() {
                        before.update(
                            app_driven_storage::position(before, self.friend_id@) as int,
                            entry,
                        )
                    } else {
                        before.push(entry)
                    })
                    &&& forall|other: Seq<u8>|
                        other != self.friend_id@ ==> #[trigger] app_driven_storage::found(
                            after,
                            other,
                        ) == app_driven_storage::found(before, other)
                    &&& app_driven_storage::distinct(before) ==> app_driven_storage::distinct(after)
                },
                Err(failure) => {
                    &&& friend.user_id@ != self.friend_id@
                    &&& failure == Failure::ProfileMismatch
                    &&& final(store).friends@ == old(store).friends@
                },
            },
    {
        store.remember(self.friend_id, self.room_key, friend, &self.keys, &self.friend_key)
    }
}

/// A public key that a client shows is accepted by a client to whom the relay
/// named it, whatever follows; one from anybody else is refused.
pub proof fn named_clients_shake_hands(
    user_id: Seq<u8>,
    public: Seq<u8>,
    named: Seq<u8>,
    more: Seq<u8>,
)
    requires
        user_id.len() == USER_ID_SIZE,
        public.len() == KEY_SIZE,
    ensures
        handshake_outcome(encryption::handshake_frame(user_id, public) + more, named) == (
        if user_id == named {
            Ok::<Seq<u8>, Failure>(public)
        } else {
            Err(Failure::HandshakeMismatch)
        }),
{
    encryption::handshakes_are_understood(user_id, public, more);
}

/// Two clients that hold each other's public keys understand each other: the
/// profile that one sends is the profile that the other reads.
pub proof fn met_clients_understand_each_other(
    one: Connected,
    other: Connected,
    frame: Seq<u8>,
    profile: Profile,
    more: Seq<u8>,
)
    requires
        one.well_formed(),
        other.well_formed(),
        one.friend_key.key() == other.keys.public(),
        other.friend_key.key() == one.keys.public(),
        user_driven_settings::introduces(
            frame,
            one.encryption.private(),
            one.encryption.friend(),
            profile,
        ),
    ensures
        user_driven_settings::profile_outcome(
            frame + more,
            other.encryption.private(),
            other.encryption.friend(),
        ) == Ok::<Profile, Failure>(profile),
{
}

/// Once two clients have stored each other, a message that one sends to the
/// public key that it stored is read by the other with the secret key that it
/// stored.
pub proof fn stored_friends_can_talk(
    one: Connected,
    other: Connected,
    sender: StoredFriend,
    recipient: StoredFriend,
    frame: Seq<u8>,
    contents: Seq<char>,
    more: Seq<u8>,
)
    requires
        one.well_formed(),
        other.well_formed(),
        one.friend_key.key() == other.keys.public(),
        app_driven_storage::new_entry(
            sender,
            one.room_key,
            sender.settings,
            one.keys,
            one.friend_key,
        ),
        app_driven_storage::new_entry(
            recipient,
            other.room_key,
            recipient.settings,
            other.keys,
            other.friend_key,
        ),
        message::delivers(frame, sender.friend_public_key->0@, contents),
    ensures
        message::message_outcome(frame + more, recipient.private_key->0@) == Ok::<
            Seq<char>,
            Failure,
        >(contents),
{
}

/// What comes of a key in a chat.
#[derive(Clone, Copy, Debug, PartialEq, Eq, Structural)]
pub enum ChatStep {
    /// The user is still typing.
    Edit,
    /// The text is to be sent.
    Send,
    /// The chat is over.
    Leave,
}

/// What an event does in a chat in which `input` has been typed; the terminal
/// may also have nothing more to report.
pub open spec fn chat_outcome(input: Seq<char>, event: Option<TerminalEvent>) -> ChatStep {
    match event {
        None => ChatStep::Leave,
        Some(event) => match event.press() {
            Some(Key::Esc) => ChatStep::Leave,
            Some(Key::Enter) => if input == "/quit"@ {
                ChatStep::Leave
            } else if input.len() == 0 {
                ChatStep::Edit
            } else {
                ChatStep::Send
            },
            _ => ChatStep::Edit,
        },
    }
}

/// An open chat with a friend.
pub struct Chat {
    pub friend_id: UserId,
    pub room_key: RoomK,
    pub friend_name: String,
    pub private_key: [u8; KEY_SIZE],
    pub friend_public_key: [u8; KEY_SIZE],
    /// What has been said, oldest first.
    pub messages: Vec<String>,
    /// What the user has typed.
    pub input: String,
    /// What the last line of the screen says.
    pub status: String,
}

/// `after` is `before` with one line more, spoken by `speaker`, and nothing
/// else that changed but the text being typed and the status.
pub open spec fn line_added(before: Chat, after: Chat, speaker: Seq<char>, contents: Seq<char>) -> bool {
    &&& after.friend_id == before.friend_id
    &&& after.room_key == before.room_key
    &&& after.friend_name == before.friend_name
    &&& after.private_key == before.private_key
    &&& after.friend_public_key == before.friend_public_key
    &&& after.messages@.len() == before.messages@.len() + 1
    &&& after.messages@.drop_last() == before.messages@
    &&& after.messages@.last()@ == speaker + ": "@ + contents
    &&& after.status@ == Seq::<char>::empty()
}

/// The store has one line more with the friend of a chat, the last one of that
/// chat, and nothing else changed.
pub open spec fn line_stored(before: FriendsStore, after: FriendsStore, chat: Chat) -> bool {
    let friend_id = chat.friend_id@;
    let at = app_driven_storage::position(before.friends@, friend_id) as int;
    &&& after.cipher == before.cipher
    &&& app_driven_storage::found(before.friends@, friend_id) matches Some(old_entry)
        && app_driven_storage::found(after.friends@, friend_id) matches Some(new_entry)
        && new_entry.same_but_history(&old_entry) && new_entry.history()
        == old_entry.history().push(chat.messages@.last())
    &&& after.friends@ == before.friends@.update(at, after.friends@[at])
    &&& app_driven_storage::found(after.friends@, friend_id) == Some(after.friends@[at])
    &&& forall|other: Seq<u8>|
        other != friend_id ==> #[trigger] app_driven_storage::found(after.friends@, other)
            == app_driven_storage::found(before.friends@, other)
}

/// The chat shows what the store holds.
pub open spec fn in_step(chat: Chat, store: FriendsStore) -> bool {
    app_driven_storage::found(store.friends@, chat.friend_id@) matches Some(entry)
        && entry.history() == chat.messages@
}

impl Chat {
    /// Opens the chat with a friend, whose name must be a text.
    pub fn open(store: &FriendsStore, index: usize) -> (chat: Result<Chat, Failure>)
        requires
            index < store.friends@.len(),
            utf8::valid_utf8(
                user_driven_settings::unpadded_part(store.friends@[index as int].settings.name@),
            ),
        ensures
            ({
                let friend = store.friends@[index as int];
                match chat {
                    Ok(chat) => {
                        &&& chat.friend_id == friend.settings.user_id
                        &&& chat.room_key == friend.room_key
                        &&& chat.friend_name@ == utf8::decode_utf8(
                            user_driven_settings::unpadded_part(friend.settings.name@),
                        )
                        &&& friend.private_key == Some(chat.private_key)
                        &&& friend.friend_public_key == Some(chat.friend_public_key)
                        &&& chat.input@ == Seq::<char>::empty()
                        &&& chat.status@ == "Esc or /quit to leave"@
                        &&& in_step(chat, *store)
                    },
                    Err(failure) => {
                        &&& friend.private_key is None || friend.friend_public_key is None
                        &&& failure == Failure::NoChatKeys
                    },
                }
            }),
    {
        let friend: &StoredFriend = &store.friends[index];
        let friend_id: UserId = *friend.user_id();
        let room_key: RoomK = *friend.room_key();
        let friend_name: String = friend.settings().name_to_string();
        let (private_key, friend_public_key): ([u8; KEY_SIZE], [u8; KEY_SIZE]) =
            friend.chat_key_bytes()?;
        let messages: Vec<String> = match store.get(&friend_id) {
            Some(entry) => entry.messages(),
            None => Vec::new(),
        };
        proof {
            app_driven_storage::stored_friends_are_found(store.friends@, index as int);
        }
        Ok(
            Chat {
                friend_id,
                room_key,
                friend_name,
                private_key,
                friend_public_key,
                messages,
                input: String::new(),
                status: "Esc or /quit to leave".to_owned(),
            },
        )
    }

    /// What to send to the relay to begin.
    pub fn request(&self, user_id: &UserId) -> (request: Vec<u8>)
        ensures
            request@ == protocol::request_frame(Operation::Talk, user_id@, self.room_key@),
    {
        let mut request: Vec<u8> = Vec::new();
        write_request(&mut request, Operation::Talk, user_id, &self.room_key);
        assert(request@ =~= protocol::request_frame(Operation::Talk, user_id@, self.room_key@));
        request
    }

    /// What an event of the terminal does, which may also have nothing more to
    /// report.
    pub fn on_event(&mut self, event: Option<TerminalEvent>) -> (step: ChatStep)
        ensures
            step == chat_outcome(old(self).input@, event),
            final(self).input@ == match event {
                Some(event) => terminal::edited(old(self).input@, event),
                None => old(self).input@,
            },
            final(self).friend_id == old(self).friend_id,
            final(self).room_key == old(self).room_key,
            final(self).friend_name == old(self).friend_name,
            final(self).private_key == old(self).private_key,
            final(self).friend_public_key == old(self).friend_public_key,
            final(self).messages == old(self).messages,
            final(self).status == old(self).status,
    {
        let event: TerminalEvent = match event {
            Some(event) => event,
            None => {
                return ChatStep::Leave;
            },
        };
        match event.pressed() {
            Some(Key::Esc) => ChatStep::Leave,
            Some(Key::Backspace) => {
                let _ = self.input.pop();
                ChatStep::Edit
            },
            Some(Key::Char(character)) => {
                self.input.push(character);
                ChatStep::Edit
            },
            Some(Key::Enter) => {
                if same_text(self.input.as_str(), "/quit") {
                    ChatStep::Leave
                } else if self.input.as_str().is_empty() {
                    ChatStep::Edit
                } else {
                    ChatStep::Send
                }
            },
            _ => ChatStep::Edit,
        }
    }

    /// The frame that carries what the user has typed to the friend.
    pub fn outgoing(&self) -> (sent: Result<Vec<u8>, Failure>)
        ensures
            match sent {
                Ok(frame) => {
                    &&& utf8::encode_utf8(self.input@).len() <= protocol::MAX_MESSAGE_SIZE
                    &&& protocol::frame_length(FrameKind::Message, frame@) == Ok::<nat, Failure>(
                        frame@.len(),
                    )
                    &&& frame@.len() == protocol::MESSAGE_HEADER_SIZE + utf8::encode_utf8(
                        self.input@,
                    ).len() + encryption::ENC_ADDED
                    &&& protocol::announced_size(frame@) == utf8::encode_utf8(self.input@).len()
                        + encryption::ENC_ADDED
                    &&& message::carries(frame@, self.friend_public_key@, self.input@)
                    &&& message::delivers(frame@, self.friend_public_key@, self.input@)
                },
                Err(failure) => {
                    &&& utf8::encode_utf8(self.input@).len() > protocol::MAX_MESSAGE_SIZE
                    &&& failure == Failure::MessageTooLong
                },
            },
    {
        let mut frame: Vec<u8> = Vec::new();
        message::send(self.input.as_str(), &mut frame, &self.friend_public_key)?;
        assert(frame@.skip(0) =~= frame@);
        Ok(frame)
    }

    /// Notes that what the user has typed was sent.
    pub fn sent(&mut self, store: &mut FriendsStore) -> (recorded: Result<(), Failure>)
        ensures
            match recorded {
                Ok(_) => {
                    &&& line_added(*old(self), *final(self), "You"@, old(self).input@)
                    &&& final(self).input@ == Seq::<char>::empty()
                    &&& line_stored(*old(store), *final(store), *final(self))
                    &&& in_step(*old(self), *old(store)) ==> in_step(*final(self), *final(store))
                },
                Err(failure) => {
                    &&& app_driven_storage::found(old(store).friends@, old(self).friend_id@) is None
                    &&& failure == Failure::FriendRemoved
                    &&& final(store).friends@ == old(store).friends@
                    &&& final(store).cipher == old(store).cipher
                    &&& *final(self) == *old(self)
                },
            },
    {
        let line: String = joined("You: ", self.input.as_str());
        proof {
            reveal_strlit("You: ");
            reveal_strlit("You");
            reveal_strlit(": ");
            assert("You: "@ =~= "You"@ + ": "@);
        }
        store.record_message(&self.friend_id, line.clone())?;
        self.messages.push(line);
        self.input = String::new();
        self.status = String::new();
        proof {
            assert(self.messages@.drop_last() =~= old(self).messages@);
        }
        Ok(())
    }

    /// Takes a message of the friend's off the stream.
    pub fn incoming(&self, stream: &mut ByteStream) -> (received: Result<String, Failure>)
        ensures
            match received {
                Ok(contents) => message::message_outcome(old(stream)@, self.private_key@) == Ok::<
                    Seq<char>,
                    Failure,
                >(contents@),
                Err(failure) => message::message_outcome(old(stream)@, self.private_key@) == Err::<
                    Seq<char>,
                    Failure,
                >(failure),
            },
            final(stream)@ == old(stream)@.skip(
                protocol::consumed_length(FrameKind::Message, old(stream)@) as int,
            ),
    {
        message::read(stream, &self.private_key)
    }

    /// Notes a message of the friend's.
    pub fn received(&mut self, store: &mut FriendsStore, contents: &str) -> (recorded: Result<
        (),
        Failure,
    >)
        ensures
            match recorded {
                Ok(_) => {
                    &&& line_added(*old(self), *final(self), old(self).friend_name@, contents@)
                    &&& final(self).input == old(self).input
                    &&& line_stored(*old(store), *final(store), *final(self))
                    &&& in_step(*old(self), *old(store)) ==> in_step(*final(self), *final(store))
                },
                Err(failure) => {
                    &&& app_driven_storage::found(old(store).friends@, old(self).friend_id@) is None
                    &&& failure == Failure::FriendRemoved
                    &&& final(store).friends@ == old(store).friends@
                    &&& final(store).cipher == old(store).cipher
                    &&& *final(self) == *old(self)
                },
            },
    {
        let mut line: String = joined(self.friend_name.as_str(), ": ");
        line.append(contents);
        store.record_message(&self.friend_id, line.clone())?;
        self.messages.push(line);
        self.status = String::new();
        proof {
            assert(self.messages@.drop_last() =~= old(self).messages@);
        }
        Ok(())
    }
}

/// When Enter is pressed, every text but the empty one and `/quit` is sent,
/// whatever its length and its characters; only `/quit` ends the chat, and only
/// the empty text does nothing.
pub proof fn enter_sends_every_text(input: Seq<char>)
    ensures
        ({
            let outcome = chat_outcome(
                input,
                Some(TerminalEvent::Key(terminal::KeyKind::Press, Key::Enter)),
            );
            let quit = seq!['/', 'q', 'u', 'i', 't'];
            &&& outcome is Send <==> input.len() > 0 && input != quit
            &&& outcome is Leave <==> input == quit
            &&& outcome is Edit <==> input.len() == 0
        }),
{
    reveal_strlit("/quit");
    assert("/quit"@ =~= seq!['/', 'q', 'u', 'i', 't']);
}

/// Nothing but Enter sends. Esc and the end of the terminal's reports end a
/// chat whatever has been typed, and everything else goes on with it.
pub proof fn only_enter_sends(input: Seq<char>, event: Option<TerminalEvent>)
    requires
        event != Some(TerminalEvent::Key(terminal::KeyKind::Press, Key::Enter)),
    ensures
        !(chat_outcome(input, event) is Send),
        chat_outcome(input, event) is Leave <==> event is None || event == Some(
            TerminalEvent::Key(terminal::KeyKind::Press, Key::Esc),
        ),
{
}

/// A line that is added to a chat stands last, says who spoke and every
/// character of what was said, and leaves all lines before it and the friend,
/// the room and the keys of the chat as they were.
pub proof fn lines_are_added_at_the_end(
    before: Chat,
    after: Chat,
    speaker: Seq<char>,
    contents: Seq<char>,
)
    requires
        line_added(before, after, speaker, contents),
    ensures
        after.messages@ == before.messages@.push(after.messages@.last()),
        after.messages@.last()@ == speaker + seq![':', ' '] + contents,
        after.friend_id == before.friend_id,
        after.room_key == before.room_key,
        after.friend_name == before.friend_name,
        after.private_key == before.private_key,
        after.friend_public_key == before.friend_public_key,
        after.status@.len() == 0,
{
    reveal_strlit(": ");
    assert(": "@ =~= seq![':', ' ']);
    assert(after.messages@ =~= after.messages@.drop_last().push(after.messages@.last()));
}

/// A line that is stored is the last one of the chat and stands last in the
/// history of its friend, whose entry is otherwise the same; nobody else's
/// entry changes, and no entry moves.
pub proof fn lines_are_stored_for_their_friend(
    before: FriendsStore,
    after: FriendsStore,
    chat: Chat,
    index: int,
)
    requires
        line_stored(before, after, chat),
        0 <= index < before.friends@.len(),
        before.friends@[index].id() == chat.friend_id@,
        forall|i: int| 0 <= i < index ==> (#[trigger] before.friends@[i]).id() != chat.friend_id@,
    ensures
        after.cipher == before.cipher,
        after.friends@.len() == before.friends@.len(),
        forall|i: int|
            0 <= i < before.friends@.len() && i != index ==> #[trigger] after.friends@[i]
                == before.friends@[i],
        after.friends@[index].id() == chat.friend_id@,
        after.friends@[index].history() == before.friends@[index].history().push(
            chat.messages@.last(),
        ),
        after.friends@[index].room_key == before.friends@[index].room_key,
        after.friends@[index].settings == before.friends@[index].settings,
        after.friends@[index].private_key == before.friends@[index].private_key,
        after.friends@[index].friend_public_key == before.friends@[index].friend_public_key,
{
    assert forall|i: int| 0 <= i < index implies (
    #[trigger] before.friends@[i]).settings.user_id@ != chat.friend_id@ by {
        assert(before.friends@[i].id() != chat.friend_id@);
    }
    app_driven_storage::lookups_give_the_first_entry(before.friends@, chat.friend_id@, index);
}

/// Every invite key that follows `--join` alone is taken as it is, whatever its
/// length and its characters, but an empty one.
pub proof fn every_invite_key_is_taken(args: Seq<String>, outcome: Result<Task, ArgumentError>)
    requires
        args.len() == 2,
        args[0]@ == seq!['-', '-', 'j', 'o', 'i', 'n'],
        parsed_args(args, outcome),
    ensures
        args[1]@.len() > 0 <==> outcome is Ok,
        outcome is Ok ==> outcome->Ok_0 is Join && outcome->Ok_0->Join_0 == args[1],
        outcome is Err ==> outcome->Err_0 is MissingInviteKey,
{
    reveal_strlit("--invite");
    reveal_strlit("--join");
    assert(args[0]@.len() == 6);
    assert("--invite"@.len() == 8);
    assert("--join"@ =~= seq!['-', '-', 'j', 'o', 'i', 'n']);
}

/// A first argument that is none of the three that are known is refused by
/// name, whatever follows it.
pub proof fn unknown_arguments_are_refused(args: Seq<String>, outcome: Result<Task, ArgumentError>)
    requires
        args.len() > 0,
        args[0]@ != seq!['-', '-', 'i', 'n', 'v', 'i', 't', 'e'],
        args[0]@ != seq!['-', '-', 'j', 'o', 'i', 'n'],
        args[0]@ != seq!['-', '-', 't', 'a', 'l', 'k'],
        parsed_args(args, outcome),
    ensures
        outcome is Err,
        outcome->Err_0 is Unknown,
        outcome->Err_0->Unknown_0 == args[0],
{
    reveal_strlit("--invite");
    reveal_strlit("--join");
    reveal_strlit("--talk");
    assert("--invite"@ =~= seq!['-', '-', 'i', 'n', 'v', 'i', 't', 'e']);
    assert("--join"@ =~= seq!['-', '-', 'j', 'o', 'i', 'n']);
    assert("--talk"@ =~= seq!['-', '-', 't', 'a', 'l', 'k']);
}

/// Without arguments there is no task, `--invite` and `--talk` name theirs, and
/// neither takes anything more; nor does `--join` after its key.
pub proof fn tasks_take_no_more_arguments(args: Seq<String>, outcome: Result<Task, ArgumentError>)
    requires
        parsed_args(args, outcome),
    ensures
        args.len() == 0 <==> outcome is Ok && outcome->Ok_0 is Menu,
        args.len() > 0 && args[0]@ == seq!['-', '-', 'i', 'n', 'v', 'i', 't', 'e'] ==> (
        args.len() == 1 <==> outcome is Ok) && (outcome is Ok ==> outcome->Ok_0 is GenerateInvite)
            && (outcome is Err ==> outcome->Err_0 is TooMany),
        args.len() > 0 && args[0]@ == seq!['-', '-', 't', 'a', 'l', 'k'] ==> (args.len() == 1
            <==> outcome is Ok) && (outcome is Ok ==> outcome->Ok_0 is Talk) && (outcome is Err
            ==> outcome->Err_0 is TooMany),
        args.len() > 2 && args[0]@ == seq!['-', '-', 'j', 'o', 'i', 'n'] && args[1]@.len() > 0
            ==> outcome is Err && outcome->Err_0 is TooMany,
        args.len() > 0 && args[0]@ == seq!['-', '-', 'j', 'o', 'i', 'n'] && (args.len() == 1
            || args[1]@.len() == 0) ==> outcome is Err && outcome->Err_0 is MissingInviteKey,
{
    reveal_strlit("--invite");
    reveal_strlit("--join");
    reveal_strlit("--talk");
    assert("--invite"@ =~= seq!['-', '-', 'i', 'n', 'v', 'i', 't', 'e']);
    assert("--join"@ =~= seq!['-', '-', 'j', 'o', 'i', 'n']);
    assert("--talk"@ =~= seq!['-', '-', 't', 'a', 'l', 'k']);
    assert("--join"@[2] == 'j' && "--talk"@[2] == 't');
}

/// Whoever creates an invite asks the relay to open the room, and whoever joins
/// it asks to join.
pub proof fn roles_ask_for_their_part(role: Role)
    ensures
        role is Creator <==> protocol::operation_code(opening_request(role)) == 1,
        role is Joiner <==> protocol::operation_code(opening_request(role)) == 2,
{
}

/// A public key is taken exactly from a whole handshake of whoever the relay
/// named, and it is the key that stands there.
pub proof fn only_the_named_client_is_taken(input: Seq<u8>, friend_id: Seq<u8>)
    ensures
        handshake_outcome(input, friend_id) is Ok <==> input.len() >= 49 && input[0] == 3
            && input.subrange(1, 17) == friend_id,
        handshake_outcome(input, friend_id) is Ok ==> handshake_outcome(input, friend_id)->Ok_0
            == input.subrange(17, 49),
        input.len() >= 49 && input[0] == 3 && input.subrange(1, 17) != friend_id
            ==> handshake_outcome(input, friend_id) == Err::<Seq<u8>, Failure>(
            Failure::HandshakeMismatch,
        ),
{
}

/// A chat that is in step with the store shows the history that is stored for
/// its friend, line by line.
pub proof fn chats_in_step_show_the_history(chat: Chat, store: FriendsStore)
    requires
        in_step(chat, store),
    ensures
        app_driven_storage::found(store.friends@, chat.friend_id@) is Some,
        app_driven_storage::found(store.friends@, chat.friend_id@)->0.history() == chat.messages@,
{
}

/// Every password that is not empty is taken, whatever its length and its
/// characters, once it has been repeated where that is asked for; leaving either
/// prompt quits, and nothing else does.
pub proof fn passwords_are_taken_once_repeated(
    answer: Option<&str>,
    confirm: bool,
    step: Result<PasswordStep, Failure>,
    repeated: Option<&str>,
    last: Result<PasswordStep, Failure>,
)
    requires
        call_ensures(read_storage_password, (answer, confirm), step),
        answer is Some ==> call_ensures(confirm_storage_password, (answer->0, repeated), last),
    ensures
        step == Ok::<PasswordStep, Failure>(PasswordStep::Quit) <==> answer is None,
        answer is Some ==> (step is Err <==> answer->0@.len() == 0),
        answer is Some && answer->0@.len() > 0 ==> (step == Ok::<PasswordStep, Failure>(
            PasswordStep::Confirm,
        ) <==> confirm) && (step == Ok::<PasswordStep, Failure>(PasswordStep::Accept)
            <==> !confirm),
        answer is Some ==> (last == Ok::<PasswordStep, Failure>(PasswordStep::Accept)
            <==> repeated is Some && repeated->0@ == answer->0@),
        answer is Some ==> (last == Ok::<PasswordStep, Failure>(PasswordStep::Quit)
            <==> repeated is None),
{
}

/// A run that was started without a task comes back to the menu after everything
/// that was done, and a run with a task ends after it.
pub proof fn runs_end_with_their_task(
    task: Task,
    started: (Session, Activity),
    next: Activity,
    unanswered: Activity,
)
    requires
        call_ensures(Session::begin, (task,), started),
        call_ensures(Session::done, (&started.0,), next),
        call_ensures(Session::answered, (&started.0, None), unanswered),
    ensures
        task is Menu <==> started.1 is Menu,
        task is Menu <==> next is Menu,
        !(task is Menu) <==> next is Leave,
        task is Menu <==> unanswered is Menu,
        task is Join ==> started.1 is JoinInvite && started.1->JoinInvite_0 == task->Join_0,
        task is GenerateInvite <==> started.1 is CreateInvite,
        task is Talk <==> started.1 is Talk,
{
}

/// What a chat sends is what has been typed, for its friend's key, whatever it
/// is up to 1048576 bytes; a chat asks to talk in its own room.
pub proof fn chats_send_what_was_typed(
    chat: Chat,
    user_id: UserId,
    request: Vec<u8>,
    sent: Result<Vec<u8>, Failure>,
    recipient: Seq<u8>,
    more: Seq<u8>,
)
    requires
        call_ensures(Chat::request, (&chat, &user_id), request),
        call_ensures(Chat::outgoing, (&chat,), sent),
        recipient.len() == 32,
        encryption::public_key_of(recipient) == chat.friend_public_key@,
    ensures
        request@ == seq![6u8] + user_id@ + chat.room_key@,
        sent is Ok <==> utf8::encode_utf8(chat.input@).len() <= 1048576,
        sent is Ok ==> message::message_outcome(sent->Ok_0@ + more, recipient) == Ok::<
            Seq<char>,
            Failure,
        >(chat.input@),
        sent is Ok ==> sent->Ok_0@.len() == 65 + utf8::encode_utf8(chat.input@).len() + 16,
{
}

/// In the menu every action leads to its activity, and an invite key that was
/// typed is joined as it is.
pub proof fn actions_lead_to_their_activities(
    session: Session,
    action: MenuAction,
    next: Activity,
    key: String,
    joining: Activity,
)
    requires
        call_ensures(Session::chosen, (&session, action), next),
        call_ensures(Session::answered, (&session, Some(key)), joining),
    ensures
        action is GenerateInvite <==> next is CreateInvite,
        action is Join <==> next is AskKey,
        action is Talk <==> next is Talk,
        action is Exit <==> next is Leave,
        joining is JoinInvite && joining->JoinInvite_0 == key,
{
}

} // verus!
