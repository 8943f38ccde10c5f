//! The friend store: who the user can talk to, with which keys, and what has
//! been said.

use vstd::prelude::*;
use crate::app_data_encryption;
use crate::app_data_encryption::{StorageCipher, HEADER_SIZE, STORE_REFUSED};
use crate::encryption::{FriendK, Keys, ENC_ADDED, KEY_SIZE};
use crate::failure::Failure;
use crate::protocol::{RoomK, UserId};
use crate::user_driven_settings::{Friend, Settings};

verus! {

broadcast use vstd::array::group_array_axioms;

/// A friend: the room shared with them, their profile, what has been said, and
/// the keys of the chat, which friends from before encrypted chats lack.
pub struct StoredFriend {
    pub room_key: RoomK,
    pub settings: Settings<Friend>,
    pub messages_history: Option<Vec<String>>,
    pub private_key: Option<[u8; KEY_SIZE]>,
    pub friend_public_key: Option<[u8; KEY_SIZE]>,
}

impl Clone for StoredFriend {
    fn clone(&self) -> (copy: Self)
        ensures
            copy.room_key == self.room_key,
            copy.settings@ == self.settings@,
            copy.messages_history is Some == self.messages_history is Some,
            copy.history() == self.history(),
            copy.private_key == self.private_key,
            copy.friend_public_key == self.friend_public_key,
    {
        let messages_history: Option<Vec<String>> = match &self.messages_history {
            Some(_) => Some(self.messages()),
            None => None,
        };
        StoredFriend {
            room_key: self.room_key,
            settings: self.settings.clone(),
            messages_history,
            private_key: self.private_key,
            friend_public_key: self.friend_public_key,
        }
    }
}

impl StoredFriend {
    /// Whose entry it is.
    pub open spec fn id(&self) -> Seq<u8> {
        self.settings.user_id@
    }

    /// What has been said, oldest first.
    pub open spec fn history(&self) -> Seq<String> {
        match self.messages_history {
            Some(lines) => lines@,
            None => seq![],
        }
    }

    /// Everything but what has been said is the same.
    pub open spec fn same_but_history(&self, other: &StoredFriend) -> bool {
        &&& self.room_key == other.room_key
        &&& self.settings == other.settings
        &&& self.private_key == other.private_key
        &&& self.friend_public_key == other.friend_public_key
    }

    /// The room shared with this friend.
    pub fn room_key(&self) -> (key: &RoomK)
        ensures
            *key == self.room_key,
    {
        &self.room_key
    }

    /// This friend's profile.
    pub fn settings(&self) -> (settings: &Settings<Friend>)
        ensures
            *settings == self.settings,
    {
        &self.settings
    }

    /// Who this friend is.
    pub fn user_id(&self) -> (id: &UserId)
        ensures
            *id == self.settings.user_id,
            id@ == self.id(),
    {
        &self.settings.user_id
    }

    /// The room and the profile.
    pub fn into_parts(self) -> (parts: (RoomK, Settings<Friend>))
        ensures
            parts == (self.room_key, self.settings),
    {
        (self.room_key, self.settings)
    }

    /// The user's secret key and this friend's public key.
    pub fn chat_key_bytes(&self) -> (keys: Result<([u8; KEY_SIZE], [u8; KEY_SIZE]), Failure>)
        ensures
            match keys {
                Ok((private_key, friend_public_key)) => {
                    &&& self.private_key == Some(private_key)
                    &&& self.friend_public_key == Some(friend_public_key)
                },
                Err(failure) => {
                    &&& self.private_key is None || self.friend_public_key is None
                    &&& failure == Failure::NoChatKeys
                },
            },
    {
        match (self.private_key, self.friend_public_key) {
            (Some(private_key), Some(friend_public_key)) => Ok((private_key, friend_public_key)),
            _ => Err(Failure::NoChatKeys),
        }
    }

    /// A copy of what has been said.
    pub fn messages(&self) -> (lines: Vec<String>)
        ensures
            lines@ == self.history(),
    {
        match &self.messages_history {
            Some(lines) => {
                let copy: Vec<String> = lines.clone();
                assert(copy@ =~= lines@);
                copy
            },
            None => Vec::new(),
        }
    }
}

/// Where the first entry of somebody stands, or the number of entries where
/// there is none.
pub open spec fn position(friends: Seq<StoredFriend>, user_id: Seq<u8>) -> nat
    decreases friends.len(),
{
    if friends.len() == 0 || friends[0].id() == user_id {
        0
    } else {
        1 + position(friends.skip(1), user_id)
    }
}

/// The entry of somebody, if there is one.
pub open spec fn found(friends: Seq<StoredFriend>, user_id: Seq<u8>) -> Option<StoredFriend> {
    if position(friends, user_id) < friends.len() {
        Some(friends[position(friends, user_id) as int])
    } else {
        None
    }
}

/// Nobody has two entries.
pub open spec fn distinct(friends: Seq<StoredFriend>) -> bool {
    forall|i: int, j: int|
        0 <= i < j < friends.len() ==> (#[trigger] friends[i]).id() != (#[trigger] friends[j]).id()
}

/// The first entry of somebody is the only one with no entry of theirs before
/// it.
proof fn first_entry_is_unique(friends: Seq<StoredFriend>, user_id: Seq<u8>, index: nat)
    requires
        index <= friends.len(),
        forall|i: int| 0 <= i < index ==> (#[trigger] friends[i]).id() != user_id,
        index == friends.len() || friends[index as int].id() == user_id,
    ensures
        position(friends, user_id) == index,
    decreases friends.len(),
{
    if index > 0 {
        let rest = friends.skip(1);
        assert(friends[0].id() != user_id);
        assert forall|i: int| 0 <= i < index - 1 implies (#[trigger] rest[i]).id() != user_id by {
            assert(rest[i] == friends[i + 1]);
        }
        first_entry_is_unique(rest, user_id, (index - 1) as nat);
    }
}

/// What the position of somebody says of the entries.
proof fn position_is_first(friends: Seq<StoredFriend>, user_id: Seq<u8>)
    ensures
        position(friends, user_id) <= friends.len(),
        forall|i: int|
            0 <= i < position(friends, user_id) ==> (#[trigger] friends[i]).id() != user_id,
        position(friends, user_id) < friends.len() ==> friends[position(
            friends,
            user_id,
        ) as int].id() == user_id,
    decreases friends.len(),
{
    if friends.len() > 0 && friends[0].id() != user_id {
        let rest = friends.skip(1);
        position_is_first(rest, user_id);
        assert forall|i: int| 0 <= i < position(friends, user_id) implies (
        #[trigger] friends[i]).id() != user_id by {
            if i > 0 {
                assert(friends[i] == rest[i - 1]);
            }
        }
    }
}

/// Whoever has an entry is found.
pub proof fn stored_friends_are_found(friends: Seq<StoredFriend>, index: int)
    requires
        0 <= index < friends.len(),
    ensures
        found(friends, friends[index].id()) matches Some(entry) && entry.id()
            == friends[index].id(),
{
    position_is_first(friends, friends[index].id());
    if position(friends, friends[index].id()) == friends.len() {
        assert(friends[index].id() != friends[index].id());
    }
}

/// Replacing the first entry of somebody by another one of theirs moves no
/// entry.
proof fn replacing_moves_nothing(friends: Seq<StoredFriend>, entry: StoredFriend, other: Seq<u8>)
    requires
        position(friends, entry.id()) < friends.len(),
    ensures
        ({
            let after = friends.update(position(friends, entry.id()) as int, entry);
            &&& position(after, other) == position(friends, other)
            &&& other != entry.id() ==> found(after, other) == found(friends, other)
            &&& found(after, entry.id()) == Some(entry)
            &&& distinct(friends) ==> distinct(after)
        }),
{
    let at = position(friends, entry.id());
    let after = friends.update(at as int, entry);
    position_is_first(friends, entry.id());
    position_is_first(friends, other);
    let before = position(friends, other);
    assert forall|i: int| 0 <= i < before implies (#[trigger] after[i]).id() != other by {
        assert(friends[i].id() != other);
    }
    first_entry_is_unique(after, other, before);
    position_is_first(after, entry.id());
    assert forall|i: int| 0 <= i < at implies (#[trigger] after[i]).id() != entry.id() by {
        assert(friends[i].id() != entry.id());
    }
    first_entry_is_unique(after, entry.id(), at);
    if distinct(friends) {
        assert forall|i: int, j: int| 0 <= i < j < after.len() implies (#[trigger] after[i]).id()
            != (#[trigger] after[j]).id() by {
            assert(friends[i].id() != friends[j].id());
        }
    }
}

/// Adding an entry of somebody who had none moves no entry.
proof fn adding_moves_nothing(friends: Seq<StoredFriend>, entry: StoredFriend, other: Seq<u8>)
    requires
        position(friends, entry.id()) == friends.len(),
    ensures
        ({
            let after = friends.push(entry);
            &&& other != entry.id() ==> found(after, other) == found(friends, other)
            &&& found(after, entry.id()) == Some(entry)
            &&& distinct(friends) ==> distinct(after)
        }),
{
    let after = friends.push(entry);
    position_is_first(friends, entry.id());
    assert forall|i: int| 0 <= i < friends.len() implies (#[trigger] after[i]).id()
        != entry.id() by {
        assert(friends[i].id() != entry.id());
    }
    first_entry_is_unique(after, entry.id(), friends.len());
    if other != entry.id() {
        position_is_first(friends, other);
        let before = position(friends, other);
        assert forall|i: int| 0 <= i < before implies (#[trigger] after[i]).id() != other by {
            assert(friends[i].id() != other);
        }
        if before < friends.len() {
            first_entry_is_unique(after, other, before);
        } else {
            first_entry_is_unique(after, other, after.len());
        }
    }
    if distinct(friends) {
        assert forall|i: int, j: int| 0 <= i < j < after.len() implies (#[trigger] after[i]).id()
            != (#[trigger] after[j]).id() by {
            if j < friends.len() {
                assert(friends[i].id() != friends[j].id());
            } else {
                assert(friends[i].id() != entry.id());
            }
        }
    }
}

/// Taking out the first entry of somebody leaves everybody else's first entry,
/// and no entry of theirs where they had but one.
proof fn removing_keeps_others(friends: Seq<StoredFriend>, user_id: Seq<u8>, other: Seq<u8>)
    requires
        position(friends, user_id) < friends.len(),
    ensures
        ({
            let after = friends.remove(position(friends, user_id) as int);
            &&& other != user_id ==> found(after, other) == found(friends, other)
            &&& distinct(friends) ==> distinct(after) && found(after, user_id) is None
        }),
{
    let at = position(friends, user_id);
    let after = friends.remove(at as int);
    position_is_first(friends, user_id);
    if other != user_id {
        position_is_first(friends, other);
        let before = position(friends, other);
        if before < at {
            assert forall|i: int| 0 <= i < before implies (#[trigger] after[i]).id() != other by {
                assert(friends[i].id() != other);
            }
            first_entry_is_unique(after, other, before);
        } else {
            assert(before > at);
            assert forall|i: int| 0 <= i < before - 1 implies (#[trigger] after[i]).id()
                != other by {
                if i < at {
                    assert(friends[i].id() != other);
                } else {
                    assert(friends[i + 1].id() != other);
                }
            }
            first_entry_is_unique(after, other, (before - 1) as nat);
        }
    }
    if distinct(friends) {
        assert forall|i: int, j: int| 0 <= i < j < after.len() implies (#[trigger] after[i]).id()
            != (#[trigger] after[j]).id() by {
            let first: int = if i < at {
                i
            } else {
                i + 1
            };
            let second: int = if j < at {
                j
            } else {
                j + 1
            };
            assert(friends[first].id() != friends[second].id());
        }
        assert forall|i: int| 0 <= i < after.len() implies (#[trigger] after[i]).id()
            != user_id by {
            if i < at {
                assert(friends[i].id() != user_id);
            } else {
                assert(friends[at as int].id() != friends[i + 1].id());
            }
        }
        first_entry_is_unique(after, user_id, after.len());
    }
}

/// `entry` is what is stored of somebody whom the user has just met.
pub open spec fn new_entry(
    entry: StoredFriend,
    room_key: RoomK,
    settings: Settings<Friend>,
    keys: Keys,
    friend_key: FriendK,
) -> bool {
    &&& entry.room_key == room_key
    &&& entry.settings == settings
    &&& entry.messages_history is None
    &&& entry.private_key is Some
    &&& entry.private_key->0@ == keys.private()
    &&& entry.friend_public_key is Some
    &&& entry.friend_public_key->0@ == friend_key.key()
}

/// The friends, and the key that the store is written to disk with.
pub struct FriendsStore {
    pub friends: Vec<StoredFriend>,
    pub cipher: Option<StorageCipher>,
}

/// How far a friend store can be loaded before its contents are parsed.
pub enum Loading {
    /// There was none: this one is new and has to be saved.
    New(FriendsStore),
    /// These contents have to be parsed; they came with the cipher that opened
    /// them, or in plain text.
    Parse { contents: Vec<u8>, cipher: Option<StorageCipher> },
}

/// `loading` is how far the store in `file`, if there is one, is loaded with
/// `password`.
pub open spec fn load_begins(
    file: Option<Vec<u8>>,
    password: Seq<u8>,
    loading: Result<Loading, Failure>,
) -> bool {
    match file {
        None => match loading {
            Ok(Loading::New(store)) => {
                &&& app_data_encryption::password_fault(password) is None
                &&& store.friends@ == Seq::<StoredFriend>::empty()
                &&& store.cipher matches Some(cipher) && cipher.belongs_to(password)
            },
            Ok(_) => false,
            Err(failure) => app_data_encryption::password_fault(password) == Some(failure),
        },
        Some(data) => if app_data_encryption::marked_encrypted(data@) {
            match loading {
                Ok(Loading::Parse { contents, cipher }) => {
                    &&& app_data_encryption::store_outcome(data@, password) == Ok::<
                        Seq<u8>,
                        Failure,
                    >(contents@)
                    &&& cipher matches Some(cipher) && cipher.belongs_to(password)
                        && cipher.salt() == data@.subrange(8, 24)
                },
                Ok(_) => false,
                Err(failure) => app_data_encryption::store_outcome(data@, password) == Err::<
                    Seq<u8>,
                    Failure,
                >(failure),
            }
        } else {
            loading matches Ok(Loading::Parse { contents, cipher }) && contents@ == data@
                && cipher is None
        },
    }
}

/// `loaded` is the store with these friends, and whether it has to be saved.
/// It keeps the cipher that came with its contents; contents that came in
/// plain text get one of their own.
pub open spec fn load_finishes(
    friends: Vec<StoredFriend>,
    cipher: Option<StorageCipher>,
    password: Seq<u8>,
    loaded: Result<(FriendsStore, bool), Failure>,
) -> bool {
    match loaded {
        Ok((store, unsaved)) => {
            &&& store.friends == friends
            &&& unsaved == (cipher is None)
            &&& match cipher {
                Some(_) => store.cipher == cipher,
                None => {
                    &&& app_data_encryption::password_fault(password) is None
                    &&& store.cipher matches Some(new) && new.belongs_to(password)
                },
            }
        },
        Err(failure) => {
            &&& cipher is None
            &&& app_data_encryption::password_fault(password) == Some(failure)
        },
    }
}

/// `data` is `contents`, encrypted under the key of `store`.
pub open spec fn saves(store: FriendsStore, contents: Seq<u8>, data: Seq<u8>) -> bool {
    store.cipher matches Some(cipher) && {
        &&& contents.len() < STORE_REFUSED
        &&& data == app_data_encryption::store_image(
            cipher.key(),
            cipher.salt(),
            data.subrange(24, 48),
            contents,
        )
        &&& data.len() == HEADER_SIZE + contents.len() + ENC_ADDED
        &&& app_data_encryption::marked_encrypted(data)
        &&& data.subrange(8, 24) == cipher.salt()
        &&& app_data_encryption::reopens(data, cipher.key(), cipher.salt(), contents)
    }
}

/// The cipher of `store` was made with `password`, which a key can be derived
/// from.
pub open spec fn locked_with(store: FriendsStore, password: Seq<u8>) -> bool {
    &&& app_data_encryption::password_fault(password) is None
    &&& store.cipher matches Some(cipher) && cipher.belongs_to(password)
}

impl FriendsStore {
    /// Starts to load a store: from the contents of its file, if there is one.
    pub fn load(file: Option<Vec<u8>>, password: &[u8]) -> (loading: Result<Loading, Failure>)
        requires
            file matches Some(data) ==> app_data_encryption::marked_encrypted(data@)
                ==> app_data_encryption::store_answered(data@.len() - HEADER_SIZE - ENC_ADDED),
        ensures
            load_begins(file, password@, loading),
    {
        match file {
            Some(data) => {
                if StorageCipher::is_encrypted(data.as_slice()) {
                    let (cipher, plaintext): (StorageCipher, Vec<u8>) = StorageCipher::decrypt(
                        data.as_slice(),
                        password,
                    )?;
                    Ok(Loading::Parse { contents: plaintext, cipher: Some(cipher) })
                } else {
                    Ok(Loading::Parse { contents: data, cipher: None })
                }
            },
            None => {
                let cipher: StorageCipher = StorageCipher::new(password)?;
                Ok(
                    Loading::New(
                        FriendsStore { friends: Vec::new(), cipher: Some(cipher) },
                    ),
                )
            },
        }
    }

    /// Finishes loading once the contents have been parsed. Contents that came
    /// in plain text get a key, and have to be saved at once: the flag says so.
    pub fn finish_load(
        friends: Vec<StoredFriend>,
        cipher: Option<StorageCipher>,
        password: &[u8],
    ) -> (loaded: Result<(FriendsStore, bool), Failure>)
        ensures
            load_finishes(friends, cipher, password@, loaded),
    {
        match cipher {
            Some(cipher) => Ok((FriendsStore { friends, cipher: Some(cipher) }, false)),
            None => {
                let cipher: StorageCipher = StorageCipher::new(password)?;
                Ok((FriendsStore { friends, cipher: Some(cipher) }, true))
            },
        }
    }

    /// The key that the store is written to disk with.
    pub fn storage_cipher(&self) -> (cipher: Result<&StorageCipher, Failure>)
        ensures
            match cipher {
                Ok(cipher) => self.cipher == Some(*cipher),
                Err(failure) => self.cipher is None && failure == Failure::NoStorageKey,
            },
    {
        match &self.cipher {
            Some(cipher) => Ok(cipher),
            None => Err(Failure::NoStorageKey),
        }
    }

    /// What is written to disk, given the contents of the store as a text.
    /// Every password that gives the same key finds the text again.
    pub fn save(&self, contents: &[u8]) -> (saved: Result<Vec<u8>, Failure>)
        requires
            HEADER_SIZE + contents@.len() + ENC_ADDED <= isize::MAX,
            app_data_encryption::store_answered(contents@.len() as int),
        ensures
            match saved {
                Ok(data) => saves(*self, contents@, data@),
                Err(failure) => if self.cipher is None {
                    failure == Failure::NoStorageKey
                } else {
                    contents@.len() >= STORE_REFUSED && failure == Failure::StoreEncryptionFailed
                },
            },
    {
        let cipher: &StorageCipher = self.storage_cipher()?;
        cipher.encrypt(contents)
    }

    /// Where the first entry of somebody stands.
    fn find(&self, user_id: &UserId) -> (index: Option<usize>)
        ensures
            match index {
                Some(index) => index < self.friends@.len() && index == position(
                    self.friends@,
                    user_id@,
                ),
                None => position(self.friends@, user_id@) == self.friends@.len(),
            },
    {
        let mut index: usize = 0;
        while index < self.friends.len()
            invariant
                index <= self.friends@.len(),
                forall|i: int| 0 <= i < index ==> (#[trigger] self.friends@[i]).id() != user_id@,
            decreases self.friends@.len() - index,
        {
            if self.friends[index].settings.user_id == *user_id {
                proof {
                    first_entry_is_unique(self.friends@, user_id@, index as nat);
                }
                return Some(index);
            }
            index += 1;
        }
        proof {
            first_entry_is_unique(self.friends@, user_id@, index as nat);
        }
        None
    }

    /// Stores somebody whom the user has just met, in place of an earlier
    /// entry of theirs. A profile of somebody else is refused and changes
    /// nothing.
    pub fn remember(
        &mut self,
        user_id: UserId,
        room_key: RoomK,
        settings: Settings<Friend>,
        keys: &Keys,
        friend_key: &FriendK,
    ) -> (stored: Result<(), Failure>)
        ensures
            final(self).cipher == old(self).cipher,
            match stored {
                Ok(_) => {
                    let before = old(self).friends@;
                    let after = final(self).friends@;
                    &&& settings.user_id@ == user_id@
                    &&& found(after, user_id@) matches Some(entry) && new_entry(
                        entry,
                        room_key,
                        settings,
                        *keys,
                        *friend_key,
                    ) && after == (if position(before, user_id@) < before.len() {
                        before.update(position(before, user_id@) as int, entry)
                    } else {
                        before.push(entry)
                    })
                    &&& forall|other: Seq<u8>|
                        other != user_id@ ==> #[trigger] found(after, other) == found(
                            before,
                            other,
                        )
                    &&& distinct(before) ==> distinct(after)
                },
                Err(failure) => {
                    &&& settings.user_id@ != user_id@
                    &&& failure == Failure::ProfileMismatch
                    &&& final(self).friends@ == old(self).friends@
                },
            },
    {
        if settings.user_id != user_id {
            return Err(Failure::ProfileMismatch);
        }
        let stored: StoredFriend = StoredFriend {
            room_key,
            settings,
            messages_history: None,
            private_key: Some(*keys.private_bytes()),
            friend_public_key: Some(*friend_key.as_bytes()),
        };
        let ghost before = self.friends@;
        match self.find(&user_id) {
            Some(index) => {
                self.friends.set(index, stored);
                proof {
                    replacing_moves_nothing(before, stored, user_id@);
                    assert forall|other: Seq<u8>| other != user_id@ implies #[trigger] found(
                        self.friends@,
                        other,
                    ) == found(before, other) by {
                        replacing_moves_nothing(before, stored, other);
                    }
                }
            },
            None => {
                self.friends.push(stored);
                proof {
                    adding_moves_nothing(before, stored, user_id@);
                    assert forall|other: Seq<u8>| other != user_id@ implies #[trigger] found(
                        self.friends@,
                        other,
                    ) == found(before, other) by {
                        adding_moves_nothing(before, stored, other);
                    }
                }
            },
        }
        Ok(())
    }

    /// Adds a line to what has been said with somebody.
    pub fn record_message(&mut self, user_id: &UserId, message: String) -> (recorded: Result<
        (),
        Failure,
    >)
        ensures
            final(self).cipher == old(self).cipher,
            match recorded {
                Ok(_) => {
                    let before = old(self).friends@;
                    let after = final(self).friends@;
                    let at = position(before, user_id@) as int;
                    &&& at < before.len()
                    &&& after == before.update(at, after[at])
                    &&& after[at].same_but_history(&before[at])
                    &&& after[at].history() == before[at].history().push(message)
                    &&& found(after, user_id@) == Some(after[at])
                    &&& forall|other: Seq<u8>|
                        other != user_id@ ==> #[trigger] found(after, other) == found(
                            before,
                            other,
                        )
                    &&& distinct(before) ==> distinct(after)
                },
                Err(failure) => {
                    &&& found(old(self).friends@, user_id@) is None
                    &&& failure == Failure::FriendRemoved
                    &&& final(self).friends@ == old(self).friends@
                },
            },
    {
        let ghost before = self.friends@;
        proof {
            position_is_first(before, user_id@);
        }
        match self.get_mut(user_id) {
            None => Err(Failure::FriendRemoved),
            Some(friend) => {
                let mut lines: Vec<String> = match friend.messages_history.take() {
                    Some(lines) => lines,
                    None => Vec::new(),
                };
                lines.push(message);
                friend.messages_history = Some(lines);
                proof {
                    let entry = self.friends@[position(before, user_id@) as int];
                    replacing_moves_nothing(before, entry, user_id@);
                    assert forall|other: Seq<u8>| other != user_id@ implies #[trigger] found(
                        self.friends@,
                        other,
                    ) == found(before, other) by {
                        replacing_moves_nothing(before, entry, other);
                    }
                }
                Ok(())
            },
        }
    }

    /// The entry of somebody.
    pub fn get(&self, user_id: &UserId) -> (friend: Option<&StoredFriend>)
        ensures
            match friend {
                Some(friend) => found(self.friends@, user_id@) == Some(*friend) && friend.id()
                    == user_id@,
                None => found(self.friends@, user_id@) is None,
            },
    {
        proof {
            position_is_first(self.friends@, user_id@);
        }
        match self.find(user_id) {
            Some(index) => Some(&self.friends[index]),
            None => None,
        }
    }

    /// The entry of somebody, to be changed.
    pub fn get_mut<'a>(&'a mut self, user_id: &UserId) -> (friend: Option<&'a mut StoredFriend>)
        ensures
            final(self).cipher == old(self).cipher,
            match friend {
                Some(friend) => {
                    &&& found(old(self).friends@, user_id@) == Some(*friend)
                    &&& final(self).friends@ == old(self).friends@.update(
                        position(old(self).friends@, user_id@) as int,
                        *final(friend),
                    )
                },
                None => {
                    &&& found(old(self).friends@, user_id@) is None
                    &&& final(self).friends@ == old(self).friends@
                },
            },
    {
        match self.find(user_id) {
            Some(index) => Some(&mut self.friends[index]),
            None => None,
        }
    }

    /// The profile of somebody.
    pub fn settings_for(&self, user_id: &UserId) -> (settings: Option<&Settings<Friend>>)
        ensures
            match settings {
                Some(settings) => found(self.friends@, user_id@) matches Some(friend)
                    && friend.settings == *settings,
                None => found(self.friends@, user_id@) is None,
            },
    {
        match self.get(user_id) {
            Some(friend) => Some(friend.settings()),
            None => None,
        }
    }

    /// The room shared with somebody.
    pub fn room_key_for(&self, user_id: &UserId) -> (key: Option<&RoomK>)
        ensures
            match key {
                Some(key) => found(self.friends@, user_id@) matches Some(friend) && friend.room_key
                    == *key,
                None => found(self.friends@, user_id@) is None,
            },
    {
        match self.get(user_id) {
            Some(friend) => Some(friend.room_key()),
            None => None,
        }
    }

    /// All entries, in order.
    pub fn iter(&self) -> (friends: std::slice::Iter<'_, StoredFriend>)
        ensures
            vstd::std_specs::iter::IteratorSpec::remaining(&friends) == self.friends@.as_ref(),
    {
        broadcast use vstd::std_specs::slice::axiom_spec_slice_iter;

        self.friends.as_slice().iter()
    }

    /// Takes out the first entry of somebody and hands it out. The store has
    /// to be saved where there was one.
    pub fn remove(&mut self, user_id: &UserId) -> (removed: Option<StoredFriend>)
        ensures
            final(self).cipher == old(self).cipher,
            removed == found(old(self).friends@, user_id@),
            match removed {
                Some(_) => {
                    let before = old(self).friends@;
                    let after = final(self).friends@;
                    &&& after == before.remove(position(before, user_id@) as int)
                    &&& forall|other: Seq<u8>|
                        other != user_id@ ==> #[trigger] found(after, other) == found(
                            before,
                            other,
                        )
                    &&& distinct(before) ==> distinct(after) && found(after, user_id@) is None
                },
                None => final(self).friends@ == old(self).friends@,
            },
    {
        let ghost before = self.friends@;
        match self.find(user_id) {
            Some(index) => {
                let removed: StoredFriend = self.friends.remove(index);
                proof {
                    assert(self.friends@ =~= before.remove(index as int));
                    removing_keeps_others(before, user_id@, user_id@);
                    assert forall|other: Seq<u8>| other != user_id@ implies #[trigger] found(
                        self.friends@,
                        other,
                    ) == found(before, other) by {
                        removing_keeps_others(before, user_id@, other);
                    }
                }
                Some(removed)
            },
            None => None,
        }
    }

    /// The number of entries.
    pub fn len(&self) -> (length: usize)
        ensures
            length == self.friends@.len(),
    {
        self.friends.len()
    }

    /// Whether there are no entries.
    pub fn is_empty(&self) -> (empty: bool)
        ensures
            empty == (self.friends@.len() == 0),
    {
        self.friends.len() == 0
    }
}

impl Default for FriendsStore {
    fn default() -> (store: Self)
        ensures
            store.friends@ == Seq::<StoredFriend>::empty(),
            store.cipher is None,
    {
        FriendsStore { friends: Vec::new(), cipher: None }
    }
}

/// `loaded` is what becomes of `file`, from `loading` it to the friends that
/// `parse` reads from its contents. The flag says whether it has to be saved.
pub open spec fn loads(
    file: Option<Vec<u8>>,
    password: Seq<u8>,
    parse: spec_fn(Seq<u8>) -> Seq<StoredFriend>,
    loading: Result<Loading, Failure>,
    parsed: Vec<StoredFriend>,
    loaded: Result<(FriendsStore, bool), Failure>,
) -> bool {
    &&& load_begins(file, password, loading)
    &&& match loading {
        Ok(Loading::New(store)) => loaded == Ok::<(FriendsStore, bool), Failure>((store, true)),
        Ok(Loading::Parse { contents, cipher }) => parsed@ == parse(contents@) && load_finishes(
            parsed,
            cipher,
            password,
            loaded,
        ),
        Err(failure) => loaded == Err::<(FriendsStore, bool), Failure>(failure),
    }
}

/// A store that was saved is admitted for loading, and its password loads it
/// back: with the same friends, in the same order and in every field, where
/// `parse` reads from the contents the friends that they were written from. It
/// need not be saved then, and has the key and the salt that it was saved with,
/// so that it can be saved and loaded again.
pub proof fn saved_store_loads_back(
    store: FriendsStore,
    password: Seq<u8>,
    contents: Seq<u8>,
    data: Vec<u8>,
    parse: spec_fn(Seq<u8>) -> Seq<StoredFriend>,
    loading: Result<Loading, Failure>,
    parsed: Vec<StoredFriend>,
    loaded: Result<(FriendsStore, bool), Failure>,
)
    requires
        locked_with(store, password),
        app_data_encryption::store_answered(contents.len() as int),
        saves(store, contents, data@),
        parse(contents) == store.friends@,
        loads(Some(data), password, parse, loading, parsed, loaded),
    ensures
        app_data_encryption::store_answered(data@.len() - HEADER_SIZE - ENC_ADDED),
        loaded matches Ok((again, unsaved)) && {
            &&& again.friends@ == store.friends@
            &&& !unsaved
            &&& locked_with(again, password)
            &&& again.cipher->0.key() == store.cipher->0.key()
            &&& again.cipher->0.salt() == store.cipher->0.salt()
        },
{
    let cipher = store.cipher->0;
    assert(app_data_encryption::storage_key(password, cipher.salt()) == cipher.key());
    assert(app_data_encryption::store_outcome(data@, password) == Ok::<Seq<u8>, Failure>(contents));
}

/// With a password that a key can be derived from, a store that is not there
/// yet loads as an empty one, and a store in plain text as the friends that are
/// parsed from it. Either has to be saved, what is saved is encrypted, and its
/// password loads the same friends from it.
pub proof fn unencrypted_store_becomes_encrypted(
    file: Option<Vec<u8>>,
    password: Seq<u8>,
    parse: spec_fn(Seq<u8>) -> Seq<StoredFriend>,
    loading: Result<Loading, Failure>,
    parsed: Vec<StoredFriend>,
    loaded: Result<(FriendsStore, bool), Failure>,
    contents: Seq<u8>,
    data: Vec<u8>,
)
    requires
        app_data_encryption::password_fault(password) is None,
        file matches Some(plain) ==> !app_data_encryption::marked_encrypted(plain@),
        loads(file, password, parse, loading, parsed, loaded),
        loaded matches Ok((store, _)) ==> saves(store, contents, data@) && parse(contents)
            == store.friends@,
        app_data_encryption::store_answered(contents.len() as int),
    ensures
        loaded matches Ok((store, unsaved)) && {
            &&& unsaved
            &&& locked_with(store, password)
            &&& store.friends@ == match file {
                Some(plain) => parse(plain@),
                None => Seq::<StoredFriend>::empty(),
            }
        },
        app_data_encryption::marked_encrypted(data@),
        forall|
            begun: Result<Loading, Failure>,
            read: Vec<StoredFriend>,
            again: Result<(FriendsStore, bool), Failure>,
        | #[trigger]
            loads(Some(data), password, parse, begun, read, again) ==> again is Ok
                && again->Ok_0.0.friends@ == loaded->Ok_0.0.friends@ && !again->Ok_0.1,
{
    assert(loaded is Ok);
    let store = loaded->Ok_0.0;
    assert forall|
        begun: Result<Loading, Failure>,
        read: Vec<StoredFriend>,
        again: Result<(FriendsStore, bool), Failure>,
    | #[trigger]
        loads(Some(data), password, parse, begun, read, again) implies again is Ok
        && again->Ok_0.0.friends@ == loaded->Ok_0.0.friends@ && !again->Ok_0.1 by {
        saved_store_loads_back(store, password, contents, data, parse, begun, read, again);
    }
}

/// With every password of 1 to 4294967295 bytes a store that is not there yet is
/// created: empty, and with a key of that password. An empty password creates
/// none.
pub proof fn every_good_password_creates_a_store(
    password: Seq<u8>,
    loading: Result<Loading, Failure>,
)
    requires
        load_begins(None, password, loading),
    ensures
        1 <= password.len() <= 4294967295 <==> loading is Ok,
        password.len() == 0 ==> loading == Err::<Loading, Failure>(Failure::EmptyPassword),
        loading is Ok ==> {
            &&& loading->Ok_0 is New
            &&& loading->Ok_0->New_0.friends@.len() == 0
            &&& loading->Ok_0->New_0.cipher is Some
            &&& loading->Ok_0->New_0.cipher->0.key() == app_data_encryption::storage_key(
                password,
                loading->Ok_0->New_0.cipher->0.salt(),
            )
        },
{
}

/// With every password of 1 to 4294967295 bytes a plain store is migrated, with
/// exactly the friends that it held; an encrypted one keeps its friends and its
/// cipher with any password.
pub proof fn every_good_password_finishes_a_load(
    friends: Vec<StoredFriend>,
    cipher: Option<StorageCipher>,
    password: Seq<u8>,
    loaded: Result<(FriendsStore, bool), Failure>,
)
    requires
        load_finishes(friends, cipher, password, loaded),
    ensures
        loaded is Ok <==> cipher is Some || 1 <= password.len() <= 4294967295,
        loaded is Ok ==> {
            &&& loaded->Ok_0.0.friends@ == friends@
            &&& loaded->Ok_0.0.cipher is Some
            &&& loaded->Ok_0.1 <==> cipher is None
            &&& cipher is Some ==> loaded->Ok_0.0.cipher == cipher
            &&& cipher is None ==> loaded->Ok_0.0.cipher->0.key()
                == app_data_encryption::storage_key(password, loaded->Ok_0.0.cipher->0.salt())
        },
{
}

/// A file without the mark of an encrypted store is handed on for parsing as it
/// is, whatever the password; a file with the mark is handed on as its password
/// opens it.
pub proof fn files_are_handed_on_for_parsing(
    data: Vec<u8>,
    password: Seq<u8>,
    loading: Result<Loading, Failure>,
)
    requires
        load_begins(Some(data), password, loading),
    ensures
        !app_data_encryption::marked_encrypted(data@) ==> loading is Ok && loading->Ok_0 is Parse
            && loading->Ok_0->contents@ == data@ && loading->Ok_0->cipher is None,
        app_data_encryption::marked_encrypted(data@) ==> match app_data_encryption::store_outcome(
            data@,
            password,
        ) {
            Ok(contents) => loading is Ok && loading->Ok_0 is Parse && loading->Ok_0->contents@
                == contents && loading->Ok_0->cipher is Some
                && loading->Ok_0->cipher->0.key() == app_data_encryption::storage_key(
                password,
                data@.subrange(8, 24),
            ),
            Err(failure) => loading == Err::<Loading, Failure>(failure),
        },
{
}

/// A store that was saved under a password of 1 to 4294967295 bytes is found
/// with that password, contents of every length included.
pub proof fn every_good_password_finds_its_store(
    store: FriendsStore,
    password: Seq<u8>,
    contents: Seq<u8>,
    data: Seq<u8>,
)
    requires
        1 <= password.len() <= 4294967295,
        store.cipher is Some,
        store.cipher->0.key() == app_data_encryption::storage_key(
            password,
            store.cipher->0.salt(),
        ),
        saves(store, contents, data),
    ensures
        app_data_encryption::store_outcome(data, password) == Ok::<Seq<u8>, Failure>(contents),
        data.len() == 48 + contents.len() + 16,
{
    app_data_encryption::passwords_reopen_what_they_locked(
        data,
        password,
        store.cipher->0.salt(),
        contents,
    );
}

/// Looking somebody up gives the first entry of theirs, wherever in the store
/// it stands, and nothing exactly where no entry is theirs.
pub proof fn lookups_give_the_first_entry(friends: Seq<StoredFriend>, user_id: Seq<u8>, index: int)
    requires
        0 <= index < friends.len(),
        friends[index].settings.user_id@ == user_id,
        forall|i: int| 0 <= i < index ==> (#[trigger] friends[i]).settings.user_id@ != user_id,
    ensures
        found(friends, user_id) == Some(friends[index]),
        position(friends, user_id) == index,
{
    assert forall|i: int| 0 <= i < index implies (#[trigger] friends[i]).id() != user_id by {
        assert(friends[i].settings.user_id@ != user_id);
    }
    first_entry_is_unique(friends, user_id, index as nat);
}

/// Whoever is not in the store is not found.
pub proof fn strangers_are_not_found(friends: Seq<StoredFriend>, user_id: Seq<u8>)
    requires
        forall|i: int|
            0 <= i < friends.len() ==> (#[trigger] friends[i]).settings.user_id@ != user_id,
    ensures
        found(friends, user_id) is None,
        position(friends, user_id) == friends.len(),
{
    assert forall|i: int| 0 <= i < friends.len() implies (#[trigger] friends[i]).id()
        != user_id by {
        assert(friends[i].settings.user_id@ != user_id);
    }
    first_entry_is_unique(friends, user_id, friends.len());
}

/// A new entry is that of whoever the profile names; it holds the room, the
/// profile, the own secret key and the friend's public key, and nothing has
/// been said yet.
pub proof fn new_entries_hold_what_was_exchanged(
    entry: StoredFriend,
    room_key: RoomK,
    settings: Settings<Friend>,
    keys: Keys,
    friend_key: FriendK,
)
    requires
        new_entry(entry, room_key, settings, keys, friend_key),
    ensures
        entry.id() == settings.user_id@,
        entry.room_key == room_key,
        entry.settings == settings,
        entry.history().len() == 0,
        entry.messages_history is None,
        entry.private_key is Some && entry.private_key->0@ == keys.private(),
        entry.friend_public_key is Some && entry.friend_public_key->0@ == friend_key.key(),
{
}

/// Entries that differ in nothing but what has been said are of the same friend,
/// in the same room, with the same profile and the same keys.
pub proof fn only_the_history_may_differ(one: StoredFriend, other: StoredFriend)
    requires
        one.same_but_history(&other),
    ensures
        one.id() == other.id(),
        one == (StoredFriend { messages_history: one.messages_history, ..other }),
        one.messages_history == other.messages_history ==> one == other,
{
}

/// In a store in which nobody has two entries, every entry is the one that its
/// friend is found by.
pub proof fn distinct_entries_are_all_found(friends: Seq<StoredFriend>, index: int)
    requires
        distinct(friends),
        0 <= index < friends.len(),
    ensures
        found(friends, friends[index].id()) == Some(friends[index]),
{
    let user_id = friends[index].settings.user_id@;
    assert forall|i: int| 0 <= i < index implies (#[trigger] friends[i]).settings.user_id@
        != user_id by {
        assert(friends[i].id() != friends[index].id());
    }
    lookups_give_the_first_entry(friends, user_id, index);
}

} // verus!
