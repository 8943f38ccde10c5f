//! The relay: rooms, the two people in each, and whom a frame goes to. How a
//! connection is held (`S`) and how a frame reaches a chat (`C`) is left open.

use std::collections::HashMap;
use vstd::prelude::*;
use crate::bytes;
use crate::bytes::{exact, from_big_endian, ByteStream};
use crate::failure::Failure;
use crate::protocol;
use crate::protocol::{take_frame, FrameKind, Operation, RoomK, UserId, ROOMK_SIZE, USER_ID_SIZE};

verus! {

broadcast use {vstd::array::group_array_axioms, vstd::std_specs::hash::group_hash_axioms};

/// A room: who opened it, who joined it, and where each of them can be
/// reached.
#[verifier::reject_recursive_types(S)]
#[verifier::reject_recursive_types(C)]
pub struct Room<S, C> {
    pub creator_id: UserId,
    /// The connection of a creator who waits for somebody to join.
    pub creator_stream: Option<S>,
    pub creator_chat: Option<C>,
    pub joiner_id: Option<UserId>,
    pub joiner_chat: Option<C>,
}

/// A room that has just been opened.
pub open spec fn opened_room<S, C>(creator_id: UserId, stream: S) -> Room<S, C> {
    Room {
        creator_id,
        creator_stream: Some(stream),
        creator_chat: None,
        joiner_id: None,
        joiner_chat: None,
    }
}

/// Why nobody can join, if nobody can.
pub open spec fn pairing_fault<S, C>(rooms: Map<Seq<u8>, Room<S, C>>, key: Seq<u8>) -> Option<
    Failure,
> {
    if !rooms.contains_key(key) {
        Some(Failure::UnknownInvite)
    } else if rooms[key].joiner_id is Some {
        Some(Failure::RoomFull)
    } else if rooms[key].creator_stream is None {
        Some(Failure::CreatorGone)
    } else {
        None
    }
}

/// A room after somebody has joined.
pub open spec fn paired_room<S, C>(room: Room<S, C>, joiner_id: UserId) -> Room<S, C> {
    Room { creator_stream: None, joiner_id: Some(joiner_id), ..room }
}

/// Whether somebody is in a room.
pub open spec fn participates<S, C>(room: Room<S, C>, user_id: Seq<u8>) -> bool {
    room.creator_id@ == user_id || (room.joiner_id is Some && room.joiner_id->0@ == user_id)
}

/// Why somebody cannot chat, if they cannot.
pub open spec fn chat_fault<S, C>(
    rooms: Map<Seq<u8>, Room<S, C>>,
    key: Seq<u8>,
    user_id: Seq<u8>,
) -> Option<Failure> {
    if !rooms.contains_key(key) {
        Some(Failure::UnknownChatRoom)
    } else if !participates(rooms[key], user_id) {
        Some(Failure::NotParticipant)
    } else {
        None
    }
}

/// A room after one of its people has started to chat.
pub open spec fn chatting_room<S, C>(room: Room<S, C>, user_id: Seq<u8>, chat: C) -> Room<S, C> {
    if room.creator_id@ == user_id {
        Room { creator_chat: Some(chat), ..room }
    } else {
        Room { joiner_chat: Some(chat), ..room }
    }
}

/// Where the frames of somebody in a room go: to the other one, if they chat.
pub open spec fn recipient_of<S, C>(room: Room<S, C>, user_id: Seq<u8>) -> Option<C> {
    if room.creator_id@ == user_id {
        room.joiner_chat
    } else {
        room.creator_chat
    }
}

/// What a client asks of the relay.
#[derive(Clone, Copy, Debug)]
pub struct Request {
    pub operation: Operation,
    pub user_id: UserId,
    pub key: RoomK,
}

/// `request` is what the frame at the front of `input` asks.
pub open spec fn asks(input: Seq<u8>, request: Request) -> bool {
    &&& input[0] == protocol::operation_code(request.operation)
    &&& request.operation == Operation::WaitingForJoin || request.operation == Operation::Accept
        || request.operation == Operation::Talk
    &&& request.user_id@ == input.subrange(1, 17)
    &&& request.key@ == input.subrange(17, 33)
}

/// Takes a request off a connection.
pub fn read_request(stream: &mut ByteStream) -> (request: Result<Request, Failure>)
    ensures
        match request {
            Ok(request) => {
                &&& protocol::frame_length(FrameKind::Request, old(stream)@) is Ok
                &&& asks(old(stream)@, request)
            },
            Err(failure) => protocol::frame_length(FrameKind::Request, old(stream)@) == Err::<
                nat,
                Failure,
            >(failure),
        },
        final(stream)@ == old(stream)@.skip(
            protocol::consumed_length(FrameKind::Request, old(stream)@) as int,
        ),
{
    let frame: Vec<u8> = take_frame(FrameKind::Request, stream)?;
    let user_id: [u8; USER_ID_SIZE] = exact(
        vstd::slice::slice_subrange(frame.as_slice(), 1, 17),
    );
    let key: [u8; ROOMK_SIZE] = exact(vstd::slice::slice_subrange(frame.as_slice(), 17, 33));
    proof {
        assert(frame@.subrange(1, 17) =~= old(stream)@.subrange(1, 17));
        assert(frame@.subrange(17, 33) =~= old(stream)@.subrange(17, 33));
    }
    let operation: Operation = if frame[0] == Operation::WaitingForJoin.code() {
        Operation::WaitingForJoin
    } else if frame[0] == Operation::Accept.code() {
        Operation::Accept
    } else {
        Operation::Talk
    };
    Ok(Request { operation, user_id: UserId::from_bytes(user_id), key: RoomK::from(&key) })
}

/// How the relay says that an invite was accepted, and by whom.
pub open spec fn acceptance_notice(friend_id: Seq<u8>) -> Seq<u8> {
    seq![protocol::operation_code(Operation::Accept)] + friend_id
}

/// Appends the word that an invite was accepted.
pub fn notify_invite_accepted(stream: &mut Vec<u8>, friend_id: &UserId)
    ensures
        final(stream)@ == old(stream)@ + acceptance_notice(friend_id@),
{
    stream.push(Operation::Accept.code());
    friend_id.write_to(stream);
    assert(stream@ =~= old(stream)@ + acceptance_notice(friend_id@));
}

/// What the relay does about a request that it grants.
pub enum Answer<S> {
    /// The room is open, and its creator's connection waits in it.
    Waiting,
    /// Two people have met. Each gets its notice, and what either connection
    /// brings goes out on the other from then on.
    Paired { creator_stream: S, creator_notice: Vec<u8>, joiner_stream: S, joiner_notice: Vec<u8> },
    /// A chat has begun on this connection.
    Chatting { stream: S, user_id: UserId, key: RoomK },
}

/// `answer` and the rooms `after` it are what a request leads to.
pub open spec fn served<S, C>(
    before: Map<Seq<u8>, Room<S, C>>,
    request: Request,
    stream: S,
    chat: C,
    after: Map<Seq<u8>, Room<S, C>>,
    answer: Result<Answer<S>, Failure>,
) -> bool {
    let key = request.key@;
    let user_id = request.user_id;
    match request.operation {
        Operation::WaitingForJoin => {
            &&& answer matches Ok(Answer::Waiting)
            &&& after == before.insert(key, opened_room(user_id, stream))
        },
        Operation::Accept => match pairing_fault(before, key) {
            Some(failure) => answer == Err::<Answer<S>, Failure>(failure) && after == before,
            None => {
                &&& answer matches Ok(
                    Answer::Paired { creator_stream, creator_notice, joiner_stream, joiner_notice },
                ) && Some(creator_stream) == before[key].creator_stream && creator_notice@
                    == acceptance_notice(user_id@) && joiner_stream == stream && joiner_notice@
                    == acceptance_notice(before[key].creator_id@)
                &&& after == before.insert(key, paired_room(before[key], user_id))
            },
        },
        _ => match chat_fault(before, key, user_id@) {
            Some(failure) => answer == Err::<Answer<S>, Failure>(failure) && after == before,
            None => {
                &&& answer matches Ok(Answer::Chatting { stream: own, user_id: who, key: room })
                    && own == stream && who == user_id && room == request.key
                &&& after == before.insert(key, chatting_room(before[key], user_id@, chat))
            },
        },
    }
}

/// What happens to a chat.
pub enum ChatEvent {
    /// A frame for the user came from the other one; nothing where the relay
    /// has let go of this chat.
    Outbound(Option<Vec<u8>>),
    /// The user's connection brought a frame, or failed to.
    Incoming(Result<Vec<u8>, Failure>),
}

/// What the relay does about it.
pub enum ChatAction<'a, C> {
    /// Write the frame to the user.
    Write(Vec<u8>),
    /// Hand the frame to the other one.
    Forward(&'a C, Vec<u8>),
    /// The other one does not chat, and the frame is lost.
    Discard,
    /// The chat is over.
    Stop,
}

/// The rooms that are open.
#[verifier::reject_recursive_types(S)]
#[verifier::reject_recursive_types(C)]
pub struct Rooms<S, C> {
    rooms: HashMap<u128, Room<S, C>>,
}

/// The number under which a room is kept.
pub open spec fn room_number(key: Seq<u8>) -> u128 {
    bytes::big_endian_value(key) as u128
}

/// A room key can be told from its number.
proof fn room_numbers_are_distinct(one: Seq<u8>, other: Seq<u8>)
    requires
        one.len() == ROOMK_SIZE,
        other.len() == ROOMK_SIZE,
        room_number(one) == room_number(other),
    ensures
        one == other,
{
    bytes::big_endian_value_is_bounded(one);
    bytes::big_endian_value_is_bounded(other);
    reveal_with_fuel(bytes::byte_capacity, 17);
    bytes::big_endian_is_faithful(one);
    bytes::big_endian_is_faithful(other);
}

impl<S, C> View for Rooms<S, C> {
    type V = Map<Seq<u8>, Room<S, C>>;

    /// The room of each key.
    closed spec fn view(&self) -> Map<Seq<u8>, Room<S, C>> {
        Map::new(
            |key: Seq<u8>| key.len() == ROOMK_SIZE && self.rooms@.contains_key(room_number(key)),
            |key: Seq<u8>| self.rooms@[room_number(key)],
        )
    }
}

/// The number under which a room is kept.
fn number(key: &RoomK) -> (number: u128)
    ensures
        number == room_number(key@),
        key@.len() == ROOMK_SIZE,
{
    proof {
        protocol::room_key_is_its_bytes(*key, *key);
    }
    from_big_endian(key.bytes())
}

impl<S, C> Rooms<S, C> {
    /// No rooms.
    pub fn new() -> (rooms: Self)
        ensures
            rooms@ == Map::<Seq<u8>, Room<S, C>>::empty(),
    {
        let rooms = Self { rooms: HashMap::new() };
        assert(rooms@ =~= Map::<Seq<u8>, Room<S, C>>::empty());
        rooms
    }

    /// Keeps a room under a key, in place of the one that was there.
    pub fn insert(&mut self, key: &RoomK, room: Room<S, C>)
        ensures
            final(self)@ == old(self)@.insert(key@, room),
    {
        let number: u128 = number(key);
        self.rooms.insert(number, room);
        proof {
            assert forall|other: Seq<u8>| other.len() == ROOMK_SIZE && other != key@ implies (
            #[trigger] room_number(other)) != number by {
                if room_number(other) == number {
                    room_numbers_are_distinct(other, key@);
                }
            }
            assert(self@ =~= old(self)@.insert(key@, room));
        }
    }

    /// The room that a key names.
    pub fn get(&self, key: &RoomK) -> (room: Option<&Room<S, C>>)
        ensures
            match room {
                Some(room) => self@.contains_key(key@) && *room == self@[key@],
                None => !self@.contains_key(key@),
            },
    {
        let number: u128 = number(key);
        self.rooms.get(&number)
    }

    /// Lets go of the room that a key names.
    fn take(&mut self, key: &RoomK) -> (room: Option<Room<S, C>>)
        ensures
            final(self)@ == old(self)@.remove(key@),
            match room {
                Some(room) => old(self)@.contains_key(key@) && room == old(self)@[key@],
                None => !old(self)@.contains_key(key@),
            },
    {
        let number: u128 = number(key);
        let room: Option<Room<S, C>> = self.rooms.remove(&number);
        proof {
            assert forall|other: Seq<u8>| other.len() == ROOMK_SIZE && other != key@ implies (
            #[trigger] room_number(other)) != number by {
                if room_number(other) == number {
                    room_numbers_are_distinct(other, key@);
                }
            }
            assert(self@ =~= old(self)@.remove(key@));
        }
        room
    }

    /// Lets somebody join a room, and hands out the creator and the connection
    /// that they waited on.
    pub fn pair_room(&mut self, key: &RoomK, joiner_id: UserId) -> (paired: Result<
        (UserId, S),
        Failure,
    >)
        ensures
            match paired {
                Ok((creator_id, creator_stream)) => {
                    &&& pairing_fault(old(self)@, key@) is None
                    &&& creator_id == old(self)@[key@].creator_id
                    &&& Some(creator_stream) == old(self)@[key@].creator_stream
                    &&& final(self)@ == old(self)@.insert(
                        key@,
                        paired_room(old(self)@[key@], joiner_id),
                    )
                },
                Err(failure) => {
                    &&& pairing_fault(old(self)@, key@) == Some(failure)
                    &&& final(self)@ == old(self)@
                },
            },
            paired is Ok <==> old(self)@.contains_key(key@) && old(self)@[key@].joiner_id is None
                && old(self)@[key@].creator_stream is Some,
    {
        match self.get(key) {
            None => {
                return Err(Failure::UnknownInvite);
            },
            Some(room) => {
                if room.joiner_id.is_some() {
                    return Err(Failure::RoomFull);
                }
                if room.creator_stream.is_none() {
                    return Err(Failure::CreatorGone);
                }
            },
        }
        match self.take(key) {
            None => Err(Failure::UnknownInvite),
            Some(room) => {
                let Room { creator_id, creator_stream, creator_chat, joiner_id: _, joiner_chat } =
                    room;
                let joined: Room<S, C> = Room {
                    creator_id,
                    creator_stream: None,
                    creator_chat,
                    joiner_id: Some(joiner_id),
                    joiner_chat,
                };
                self.insert(key, joined);
                assert(self@ =~= old(self)@.insert(key@, paired_room(old(self)@[key@], joiner_id)));
                match creator_stream {
                    Some(creator_stream) => Ok((creator_id, creator_stream)),
                    None => Err(Failure::CreatorGone),
                }
            },
        }
    }

    /// Notes where somebody in a room can be reached from now on.
    pub fn register_chat(&mut self, key: &RoomK, user_id: &UserId, chat: C) -> (registered: Result<
        (),
        Failure,
    >)
        ensures
            match registered {
                Ok(_) => {
                    &&& chat_fault(old(self)@, key@, user_id@) is None
                    &&& final(self)@ == old(self)@.insert(
                        key@,
                        chatting_room(old(self)@[key@], user_id@, chat),
                    )
                },
                Err(failure) => {
                    &&& chat_fault(old(self)@, key@, user_id@) == Some(failure)
                    &&& final(self)@ == old(self)@
                },
            },
            registered is Ok <==> old(self)@.contains_key(key@) && (
            old(self)@[key@].creator_id@ == user_id@ || (old(self)@[key@].joiner_id is Some
                && old(self)@[key@].joiner_id->0@ == user_id@)),
    {
        let creates: bool = match self.get(key) {
            None => {
                return Err(Failure::UnknownChatRoom);
            },
            Some(room) => {
                let creates: bool = room.creator_id == *user_id;
                let joins: bool = match &room.joiner_id {
                    Some(joiner_id) => *joiner_id == *user_id,
                    None => false,
                };
                if !creates && !joins {
                    return Err(Failure::NotParticipant);
                }
                creates
            },
        };
        match self.take(key) {
            None => Err(Failure::UnknownChatRoom),
            Some(mut room) => {
                if creates {
                    room.creator_chat = Some(chat);
                } else {
                    room.joiner_chat = Some(chat);
                }
                self.insert(key, room);
                assert(self@ =~= old(self)@.insert(
                    key@,
                    chatting_room(old(self)@[key@], user_id@, chat),
                ));
                Ok(())
            },
        }
    }

    /// Where a frame of somebody in a room goes.
    pub fn recipient(&self, key: &RoomK, user_id: &UserId) -> (recipient: Result<
        Option<&C>,
        Failure,
    >)
        ensures
            match recipient {
                Ok(recipient) => {
                    &&& self@.contains_key(key@)
                    &&& match recipient {
                        Some(chat) => recipient_of(self@[key@], user_id@) == Some(*chat),
                        None => recipient_of(self@[key@], user_id@) is None,
                    }
                },
                Err(failure) => !self@.contains_key(key@) && failure == Failure::RoomRemoved,
            },
            recipient is Ok ==> (recipient->Ok_0 is Some <==> (if self@[key@].creator_id@
                == user_id@ {
                self@[key@].joiner_chat is Some
            } else {
                self@[key@].creator_chat is Some
            })),
    {
        match self.get(key) {
            None => Err(Failure::RoomRemoved),
            Some(room) => {
                if room.creator_id == *user_id {
                    Ok(room.joiner_chat.as_ref())
                } else {
                    Ok(room.creator_chat.as_ref())
                }
            },
        }
    }

    /// Serves a request that came on `stream`; `chat` reaches that connection
    /// should it be a chat. A request that is refused changes nothing.
    pub fn serve(&mut self, request: Request, stream: S, chat: C) -> (answer: Result<
        Answer<S>,
        Failure,
    >)
        requires
            request.operation == Operation::WaitingForJoin || request.operation
                == Operation::Accept || request.operation == Operation::Talk,
        ensures
            served(old(self)@, request, stream, chat, final(self)@, answer),
    {
        let Request { operation, user_id, key } = request;
        match operation {
            Operation::WaitingForJoin => {
                self.insert(
                    &key,
                    Room {
                        creator_id: user_id,
                        creator_stream: Some(stream),
                        creator_chat: None,
                        joiner_id: None,
                        joiner_chat: None,
                    },
                );
                Ok(Answer::Waiting)
            },
            Operation::Accept => {
                let (creator_id, creator_stream): (UserId, S) = self.pair_room(&key, user_id)?;
                let mut creator_notice: Vec<u8> = Vec::new();
                notify_invite_accepted(&mut creator_notice, &user_id);
                let mut joiner_notice: Vec<u8> = Vec::new();
                notify_invite_accepted(&mut joiner_notice, &creator_id);
                proof {
                    assert(creator_notice@ =~= acceptance_notice(user_id@));
                    assert(joiner_notice@ =~= acceptance_notice(creator_id@));
                }
                Ok(
                    Answer::Paired {
                        creator_stream,
                        creator_notice,
                        joiner_stream: stream,
                        joiner_notice,
                    },
                )
            },
            _ => {
                self.register_chat(&key, &user_id, chat)?;
                Ok(Answer::Chatting { stream, user_id, key })
            },
        }
    }

    /// Reads the request that a new connection brings and serves it.
    pub fn handle_connection(&mut self, incoming: &mut ByteStream, stream: S, chat: C) -> (answer:
        Result<Answer<S>, Failure>)
        ensures
            match protocol::frame_length(FrameKind::Request, old(incoming)@) {
                Err(failure) => {
                    &&& answer == Err::<Answer<S>, Failure>(failure)
                    &&& final(self)@ == old(self)@
                },
                Ok(_) => exists|request: Request| #[trigger]
                    asks(old(incoming)@, request) && served(
                        old(self)@,
                        request,
                        stream,
                        chat,
                        final(self)@,
                        answer,
                    ),
            },
            final(incoming)@ == old(incoming)@.skip(
                protocol::consumed_length(FrameKind::Request, old(incoming)@) as int,
            ),
    {
        let request: Request = read_request(incoming)?;
        assert(asks(old(incoming)@, request));
        self.serve(request, stream, chat)
    }

    /// One step of a chat: a frame for the user is written to them, a frame of
    /// theirs goes to the other one, unchanged.
    pub fn relay<'a>(&'a self, key: &RoomK, user_id: &UserId, event: ChatEvent) -> (action: Result<
        ChatAction<'a, C>,
        Failure,
    >)
        ensures
            match event {
                ChatEvent::Outbound(None) => action matches Ok(ChatAction::Stop),
                ChatEvent::Outbound(Some(frame)) => action matches Ok(ChatAction::Write(written))
                    && written == frame,
                ChatEvent::Incoming(Err(failure)) => action == Err::<ChatAction<'a, C>, Failure>(
                    failure,
                ),
                ChatEvent::Incoming(Ok(frame)) => if !self@.contains_key(key@) {
                    action == Err::<ChatAction<'a, C>, Failure>(Failure::RoomRemoved)
                } else {
                    match recipient_of(self@[key@], user_id@) {
                        Some(chat) => action matches Ok(ChatAction::Forward(recipient, sent))
                            && *recipient == chat && sent == frame,
                        None => action matches Ok(ChatAction::Discard),
                    }
                },
            },
    {
        match event {
            ChatEvent::Outbound(None) => Ok(ChatAction::Stop),
            ChatEvent::Outbound(Some(frame)) => Ok(ChatAction::Write(frame)),
            ChatEvent::Incoming(Err(failure)) => Err(failure),
            ChatEvent::Incoming(Ok(frame)) => match self.recipient(key, user_id) {
                Ok(Some(recipient)) => Ok(ChatAction::Forward(recipient, frame)),
                Ok(None) => Ok(ChatAction::Discard),
                Err(failure) => Err(failure),
            },
        }
    }
}

/// Takes a message frame off a chat connection, byte for byte as it came.
pub fn read_message_frame(stream: &mut ByteStream) -> (frame: Result<Vec<u8>, Failure>)
    ensures
        match frame {
            Ok(frame) => {
                &&& protocol::frame_length(FrameKind::Message, old(stream)@) == Ok::<nat, Failure>(
                    frame@.len(),
                )
                &&& frame@ == old(stream)@.take(frame@.len() as int)
            },
            Err(failure) => protocol::frame_length(FrameKind::Message, old(stream)@) == Err::<
                nat,
                Failure,
            >(failure),
        },
        final(stream)@ == old(stream)@.skip(
            protocol::consumed_length(FrameKind::Message, old(stream)@) as int,
        ),
{
    take_frame(FrameKind::Message, stream)
}

/// The relay understands every request as it was made, whatever follows it.
pub proof fn requests_are_understood(
    operation: Operation,
    user_id: Seq<u8>,
    key: Seq<u8>,
    more: Seq<u8>,
)
    requires
        operation == Operation::WaitingForJoin || operation == Operation::Accept || operation
            == Operation::Talk,
        user_id.len() == USER_ID_SIZE,
        key.len() == ROOMK_SIZE,
    ensures
        ({
            let input = protocol::request_frame(operation, user_id, key) + more;
            &&& protocol::frame_length(FrameKind::Request, input) == Ok::<nat, Failure>(33)
            &&& forall|request: Request| #[trigger]
                asks(input, request) ==> request.operation == operation && request.user_id@
                    == user_id && request.key@ == key
        }),
{
    let input = protocol::request_frame(operation, user_id, key) + more;
    assert(input.subrange(1, 17) =~= user_id);
    assert(input.subrange(17, 33) =~= key);
    assert(input[0] == protocol::operation_code(operation));
}

/// A client learns from the relay's notice who the other one is, whatever
/// follows it.
pub proof fn acceptances_are_understood(friend_id: Seq<u8>, more: Seq<u8>)
    requires
        friend_id.len() == USER_ID_SIZE,
    ensures
        ({
            let input = acceptance_notice(friend_id) + more;
            &&& protocol::frame_length(FrameKind::Acceptance, input) == Ok::<nat, Failure>(17)
            &&& input.subrange(1, 17) == friend_id
        }),
{
    let input = acceptance_notice(friend_id) + more;
    assert(input.subrange(1, 17) =~= friend_id);
}

/// Once both people of a room chat, in whichever order they started, the
/// frames of each go to the other. The room must hold two different people.
pub proof fn participants_reach_each_other<S, C>(
    room: Room<S, C>,
    creator_chat: C,
    joiner_chat: C,
)
    requires
        room.joiner_id is Some,
        room.joiner_id->0@ != room.creator_id@,
    ensures
        ({
            let creator = room.creator_id@;
            let joiner = room.joiner_id->0@;
            let one = chatting_room(
                chatting_room(room, creator, creator_chat),
                joiner,
                joiner_chat,
            );
            let other = chatting_room(
                chatting_room(room, joiner, joiner_chat),
                creator,
                creator_chat,
            );
            &&& one == other
            &&& recipient_of(one, creator) == Some(joiner_chat)
            &&& recipient_of(one, joiner) == Some(creator_chat)
        }),
{
}

/// A room that somebody has joined takes nobody else, and starting to chat in
/// it does not change that: a room has at most two participants.
pub proof fn joined_room_is_full<S, C>(
    rooms: Map<Seq<u8>, Room<S, C>>,
    key: Seq<u8>,
    joiner_id: UserId,
    user_id: Seq<u8>,
    chat: C,
)
    requires
        pairing_fault(rooms, key) is None,
    ensures
        ({
            let joined = paired_room(rooms[key], joiner_id);
            let chatting = chatting_room(joined, user_id, chat);
            &&& pairing_fault(rooms.insert(key, joined), key) == Some(Failure::RoomFull)
            &&& pairing_fault(rooms.insert(key, chatting), key) == Some(Failure::RoomFull)
            &&& forall|somebody: Seq<u8>| #[trigger]
                participates(chatting, somebody) <==> somebody == rooms[key].creator_id@
                    || somebody == joiner_id@
        }),
{
}

/// A room that has just been opened can be joined, and then holds its creator
/// and whoever joined; both may chat, and nobody else may.
pub proof fn opened_room_can_be_joined<S, C>(
    rooms: Map<Seq<u8>, Room<S, C>>,
    key: Seq<u8>,
    creator_id: UserId,
    stream: S,
    joiner_id: UserId,
)
    ensures
        ({
            let opened = rooms.insert(key, opened_room(creator_id, stream));
            let joined = opened.insert(key, paired_room(opened[key], joiner_id));
            &&& pairing_fault(opened, key) is None
            &&& forall|user_id: Seq<u8>| #[trigger]
                chat_fault(joined, key, user_id) is None <==> user_id == creator_id@ || user_id
                    == joiner_id@
        }),
{
}

/// Nobody waits in a room that is complete, and nobody chats as the second
/// person of a room that has but one.
pub open spec fn sound<S, C>(room: Room<S, C>) -> bool {
    &&& room.joiner_id is Some ==> room.creator_stream is None
    &&& room.joiner_chat is Some ==> room.joiner_id is Some
}

/// Serving requests keeps every room sound.
pub proof fn rooms_stay_sound<S, C>(
    before: Map<Seq<u8>, Room<S, C>>,
    request: Request,
    stream: S,
    chat: C,
    after: Map<Seq<u8>, Room<S, C>>,
    answer: Result<Answer<S>, Failure>,
)
    requires
        served(before, request, stream, chat, after, answer),
        forall|key: Seq<u8>| before.contains_key(key) ==> sound(#[trigger] before[key]),
    ensures
        forall|key: Seq<u8>| after.contains_key(key) ==> sound(#[trigger] after[key]),
{
    assert forall|key: Seq<u8>| after.contains_key(key) implies sound(#[trigger] after[key]) by {
        let named = request.key@;
        if before.contains_key(named) {
            assert(sound(before[named]));
        }
        if key != named {
            assert(after[key] == before[key]);
        }
    }
}

/// Two people who open and join a room and then both start to chat in it are
/// refused nothing, and the frames of each go to the other.
pub proof fn invited_pair_can_talk<S, C>(
    rooms: Seq<Map<Seq<u8>, Room<S, C>>>,
    requests: Seq<Request>,
    streams: Seq<S>,
    chats: Seq<C>,
    answers: Seq<Result<Answer<S>, Failure>>,
)
    requires
        rooms.len() == 5,
        requests.len() == 4,
        forall|i: int|
            0 <= i < 4 ==> served(
                #[trigger] rooms[i],
                requests[i],
                streams[i],
                chats[i],
                rooms[i + 1],
                answers[i],
            ),
        forall|i: int| 0 <= i < 4 ==> (#[trigger] requests[i]).key == requests[0].key,
        requests[0].operation == Operation::WaitingForJoin,
        requests[1].operation == Operation::Accept,
        requests[2].operation == Operation::Talk,
        requests[3].operation == Operation::Talk,
        requests[0].user_id@ != requests[1].user_id@,
        requests[2].user_id == requests[0].user_id && requests[3].user_id == requests[1].user_id
            || requests[2].user_id == requests[1].user_id && requests[3].user_id
            == requests[0].user_id,
    ensures
        forall|i: int| 0 <= i < 4 ==> #[trigger] answers[i] is Ok,
        ({
            let key = requests[0].key@;
            &&& rooms[4].contains_key(key)
            &&& recipient_of(rooms[4][key], requests[2].user_id@) == Some(chats[3])
            &&& recipient_of(rooms[4][key], requests[3].user_id@) == Some(chats[2])
        }),
{
    let key = requests[0].key@;
    assert(requests[1].key@ == key && requests[2].key@ == key && requests[3].key@ == key);
    assert(served(rooms[0], requests[0], streams[0], chats[0], rooms[1], answers[0]));
    assert(rooms[1][key] == opened_room::<S, C>(requests[0].user_id, streams[0]));
    assert(served(rooms[1], requests[1], streams[1], chats[1], rooms[2], answers[1]));
    assert(rooms[2][key] == paired_room(rooms[1][key], requests[1].user_id));
    assert(served(rooms[2], requests[2], streams[2], chats[2], rooms[3], answers[2]));
    assert(served(rooms[3], requests[3], streams[3], chats[3], rooms[4], answers[3]));
    assert forall|i: int| 0 <= i < 4 implies #[trigger] answers[i] is Ok by {
        assert(i == 0 || i == 1 || i == 2 || i == 3);
    }
}

/// Serving a request touches no room but the one that it names, and a refusal
/// touches none.
pub proof fn other_rooms_are_untouched<S, C>(
    before: Map<Seq<u8>, Room<S, C>>,
    request: Request,
    stream: S,
    chat: C,
    after: Map<Seq<u8>, Room<S, C>>,
    answer: Result<Answer<S>, Failure>,
    other: Seq<u8>,
)
    requires
        served(before, request, stream, chat, after, answer),
    ensures
        answer is Err ==> after == before,
        other != request.key@ ==> {
            &&& after.contains_key(other) == before.contains_key(other)
            &&& before.contains_key(other) ==> after[other] == before[other]
        },
{
}

/// In a room with two different people, whichever of them chat, the frames of
/// the creator go to the chat of the joiner and those of the joiner to the chat
/// of the creator; where the other one does not chat there is no recipient.
pub proof fn frames_go_to_the_other_one<S, C>(room: Room<S, C>)
    requires
        room.joiner_id is Some,
        room.joiner_id->0@ != room.creator_id@,
    ensures
        recipient_of(room, room.creator_id@) == room.joiner_chat,
        recipient_of(room, room.joiner_id->0@) == room.creator_chat,
{
}

/// Starting to chat changes where the frames of the other one go, to the chat
/// that was started last, and never where one's own frames go, whichever chats
/// there were.
pub proof fn chats_receive_from_the_other_one_only<S, C>(
    room: Room<S, C>,
    user_id: Seq<u8>,
    other_id: Seq<u8>,
    chat: C,
)
    requires
        room.joiner_id is Some,
        room.joiner_id->0@ != room.creator_id@,
        user_id == room.creator_id@ && other_id == room.joiner_id->0@ || user_id
            == room.joiner_id->0@ && other_id == room.creator_id@,
    ensures
        recipient_of(chatting_room(room, user_id, chat), other_id) == Some(chat),
        recipient_of(chatting_room(room, user_id, chat), user_id) == recipient_of(room, user_id),
{
}

/// While nobody has joined a sound room, the frames of its creator go to
/// nobody.
pub proof fn lone_creators_reach_nobody<S, C>(room: Room<S, C>)
    requires
        sound(room),
        room.joiner_id is None,
    ensures
        recipient_of(room, room.creator_id@) is None,
{
}

/// A request to talk is granted exactly to the creator and to the joiner of a
/// room that is there, whatever chats there are. Granting it sets the chat of
/// whoever asked and changes nothing else.
pub proof fn talk_is_granted_to_participants<S, C>(
    before: Map<Seq<u8>, Room<S, C>>,
    request: Request,
    stream: S,
    chat: C,
    after: Map<Seq<u8>, Room<S, C>>,
    answer: Result<Answer<S>, Failure>,
)
    requires
        request.operation == Operation::Talk,
        served(before, request, stream, chat, after, answer),
    ensures
        ({
            let key = request.key@;
            let user_id = request.user_id@;
            let room = before[key];
            let creates = room.creator_id@ == user_id;
            let joins = room.joiner_id is Some && room.joiner_id->0@ == user_id;
            &&& answer is Ok <==> before.contains_key(key) && (creates || joins)
            &&& !before.contains_key(key) ==> answer == Err::<Answer<S>, Failure>(
                Failure::UnknownChatRoom,
            )
            &&& before.contains_key(key) && !creates && !joins ==> answer == Err::<
                Answer<S>,
                Failure,
            >(Failure::NotParticipant)
            &&& answer is Err ==> after == before
            &&& answer is Ok ==> {
                let changed = after[key];
                &&& after.contains_key(key)
                &&& changed.creator_id == room.creator_id
                &&& changed.joiner_id == room.joiner_id
                &&& changed.creator_stream == room.creator_stream
                &&& creates ==> changed.creator_chat == Some(chat) && changed.joiner_chat
                    == room.joiner_chat
                &&& !creates ==> changed.joiner_chat == Some(chat) && changed.creator_chat
                    == room.creator_chat
                &&& answer->Ok_0 is Chatting
                &&& answer->Ok_0->stream == stream
                &&& answer->Ok_0->user_id == request.user_id
                &&& answer->Ok_0->key == request.key
            }
        }),
{
}

/// Whoever was let into a chat is let in again, any number of times, and the
/// other one's frames go to the chat that was opened last.
pub proof fn chats_can_be_reopened<S, C>(
    before: Map<Seq<u8>, Room<S, C>>,
    request: Request,
    streams: Seq<S>,
    chats: Seq<C>,
    between: Map<Seq<u8>, Room<S, C>>,
    first: Result<Answer<S>, Failure>,
    after: Map<Seq<u8>, Room<S, C>>,
    second: Result<Answer<S>, Failure>,
    other_id: Seq<u8>,
)
    requires
        request.operation == Operation::Talk,
        served(before, request, streams[0], chats[0], between, first),
        served(between, request, streams[1], chats[1], after, second),
        first is Ok,
    ensures
        second is Ok,
        ({
            let room = after[request.key@];
            room.joiner_id is Some && room.joiner_id->0@ != room.creator_id@ && participates(
                room,
                other_id,
            ) && other_id != request.user_id@ ==> recipient_of(room, other_id) == Some(chats[1])
        }),
{
}

/// A request to join is granted exactly where the room is there, nobody has
/// joined it and its creator waits. Each side is told who the other one is, the
/// connections are those that the two came on, and the room has lost its
/// waiting creator and gained its joiner.
pub proof fn joining_is_granted_while_the_creator_waits<S, C>(
    before: Map<Seq<u8>, Room<S, C>>,
    request: Request,
    stream: S,
    chat: C,
    after: Map<Seq<u8>, Room<S, C>>,
    answer: Result<Answer<S>, Failure>,
)
    requires
        request.operation == Operation::Accept,
        served(before, request, stream, chat, after, answer),
    ensures
        ({
            let key = request.key@;
            let room = before[key];
            &&& answer is Ok <==> before.contains_key(key) && room.joiner_id is None
                && room.creator_stream is Some
            &&& !before.contains_key(key) ==> answer == Err::<Answer<S>, Failure>(
                Failure::UnknownInvite,
            )
            &&& before.contains_key(key) && room.joiner_id is Some ==> answer == Err::<
                Answer<S>,
                Failure,
            >(Failure::RoomFull)
            &&& before.contains_key(key) && room.joiner_id is None && room.creator_stream is None
                ==> answer == Err::<Answer<S>, Failure>(Failure::CreatorGone)
            &&& answer is Err ==> after == before
            &&& answer is Ok ==> {
                let changed = after[key];
                &&& answer->Ok_0 is Paired
                &&& answer->Ok_0->creator_stream == room.creator_stream->0
                &&& answer->Ok_0->joiner_stream == stream
                &&& answer->Ok_0->creator_notice@ == seq![2u8] + request.user_id@
                &&& answer->Ok_0->joiner_notice@ == seq![2u8] + room.creator_id@
                &&& after.contains_key(key)
                &&& changed.creator_id == room.creator_id
                &&& changed.creator_stream is None
                &&& changed.joiner_id == Some(request.user_id)
                &&& changed.creator_chat == room.creator_chat
                &&& changed.joiner_chat == room.joiner_chat
            }
        }),
{
}

/// A request to open a room is always granted, whatever room the key named
/// before: the room has its creator, who waits on this connection, and nobody
/// else, and nobody chats in it.
pub proof fn opening_is_always_granted<S, C>(
    before: Map<Seq<u8>, Room<S, C>>,
    request: Request,
    stream: S,
    chat: C,
    after: Map<Seq<u8>, Room<S, C>>,
    answer: Result<Answer<S>, Failure>,
)
    requires
        request.operation == Operation::WaitingForJoin,
        served(before, request, stream, chat, after, answer),
    ensures
        answer is Ok,
        answer->Ok_0 is Waiting,
        after.contains_key(request.key@),
        ({
            let room = after[request.key@];
            &&& room.creator_id == request.user_id
            &&& room.creator_stream == Some(stream)
            &&& room.joiner_id is None
            &&& room.creator_chat is None
            &&& room.joiner_chat is None
        }),
{
}

/// Whoever asks where the frames of somebody go is told the chat of the other
/// one, or nobody, exactly where the room is there.
pub proof fn recipients_are_the_other_one<S, C>(
    rooms: Rooms<S, C>,
    key: RoomK,
    user_id: UserId,
    recipient: Result<Option<&C>, Failure>,
)
    requires
        call_ensures(Rooms::<S, C>::recipient, (&rooms, &key, &user_id), recipient),
    ensures
        recipient is Ok <==> rooms@.contains_key(key@),
        recipient is Ok ==> {
            let room = rooms@[key@];
            let chat = if room.creator_id@ == user_id@ {
                room.joiner_chat
            } else {
                room.creator_chat
            };
            &&& recipient->Ok_0 is Some <==> chat is Some
            &&& recipient->Ok_0 is Some ==> *recipient->Ok_0->0 == chat->0
        },
{
}

} // verus!
