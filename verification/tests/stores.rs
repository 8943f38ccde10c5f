use argon2::Argon2;
use chacha20poly1305::{
    aead::{Aead, KeyInit, Payload},
    XChaCha20Poly1305, XNonce,
};
use ghostline::app_data_encryption::{storage_password_from_env, StorageCipher, HEADER_SIZE};
use ghostline::app_driven_storage::{FriendsStore, Loading, StoredFriend};
use ghostline::bytes::ByteStream;
use ghostline::encryption::{FriendK, Keys, KEY_SIZE};
use ghostline::failure::Failure;
use ghostline::protocol::{RoomK, UserId};
use ghostline::storage::{load_or_create_user_id, read_user_id, UserIdFailure};
use ghostline::user_driven_settings::{Friend, Settings};
use toml::{Table, Value};

#[test]
fn encrypted_data_round_trips() {
    let cipher = StorageCipher::new(b"correct horse battery staple").unwrap();
    let encrypted = cipher.encrypt(b"room key and profile").unwrap();
    assert!(!encrypted.windows(8).any(|part| part == b"room key"));

    let (_, decrypted) =
        StorageCipher::decrypt(&encrypted, b"correct horse battery staple").unwrap();
    assert_eq!(decrypted.as_slice(), b"room key and profile");
}

#[test]
fn wrong_password_is_rejected() {
    let cipher = StorageCipher::new(b"right password").unwrap();
    let encrypted = cipher.encrypt(b"secret").unwrap();

    assert!(StorageCipher::decrypt(&encrypted, b"wrong password").is_err());
}

#[test]
fn the_wrong_password_and_a_changed_store_look_the_same() {
    let cipher = StorageCipher::derive(b"right", [1; 16]).unwrap();
    let mut encrypted = cipher.encrypt(b"secret").unwrap();
    assert_eq!(
        StorageCipher::decrypt(&encrypted, b"wrong").err(),
        Some(Failure::WrongPassword)
    );
    encrypted[30] ^= 1;
    assert_eq!(
        StorageCipher::decrypt(&encrypted, b"right").err(),
        Some(Failure::WrongPassword)
    );
}

#[test]
fn encrypted_stores_are_laid_out_as_documented() {
    let salt = [7; 16];
    let nonce = [9; 24];
    let cipher = StorageCipher::derive(b"password", salt).unwrap();
    let image = cipher.encrypt_with_nonce(&nonce, b"contents").unwrap();

    let mut header = b"GHSTLN01".to_vec();
    header.extend_from_slice(&salt);
    header.extend_from_slice(&nonce);
    assert_eq!(header.len(), HEADER_SIZE);
    assert_eq!(&image[..HEADER_SIZE], header.as_slice());
    assert_eq!(image.len(), HEADER_SIZE + 8 + 16);

    let mut key = [0; 32];
    Argon2::default().hash_password_into(b"password", &salt, &mut key).unwrap();
    let contents = XChaCha20Poly1305::new_from_slice(&key)
        .unwrap()
        .decrypt(XNonce::from_slice(&nonce), Payload { msg: &image[HEADER_SIZE..], aad: &header })
        .unwrap();
    assert_eq!(contents, b"contents");
}

#[test]
fn every_encryption_draws_a_new_nonce_and_every_cipher_a_new_salt() {
    let one = StorageCipher::new(b"password").unwrap();
    let other = StorageCipher::new(b"password").unwrap();
    let first = one.encrypt(b"same").unwrap();
    let second = one.encrypt(b"same").unwrap();
    let third = other.encrypt(b"same").unwrap();
    assert_eq!(&first[..24], &second[..24]);
    assert_ne!(&first[24..48], &second[24..48]);
    assert_ne!(&first[8..24], &third[8..24]);
}

#[test]
fn a_reopened_cipher_writes_stores_that_open_again() {
    let image = StorageCipher::new(b"password").unwrap().encrypt(b"one").unwrap();
    let (cipher, contents) = StorageCipher::decrypt(&image, b"password").unwrap();
    assert_eq!(contents, b"one");
    let next = cipher.encrypt(b"two").unwrap();
    assert_eq!(&next[..24], &image[..24]);
    let (_, contents) = StorageCipher::decrypt(&next, b"password").unwrap();
    assert_eq!(contents, b"two");
}

#[test]
fn broken_stores_and_passwords_are_refused_in_order() {
    assert!(StorageCipher::is_encrypted(b"GHSTLN01"));
    assert!(!StorageCipher::is_encrypted(b"GHSTLN0"));
    assert!(!StorageCipher::is_encrypted(b"GHSTLN02 and more"));
    assert_eq!(
        StorageCipher::decrypt(b"friends = []", b"").err(),
        Some(Failure::StoreNotEncrypted)
    );
    let mut header = b"GHSTLN01".to_vec();
    header.extend_from_slice(&[0; 40]);
    assert_eq!(StorageCipher::decrypt(&header, b"").err(), Some(Failure::StoreTruncated));
    header.push(0);
    assert_eq!(StorageCipher::decrypt(&header, b"").err(), Some(Failure::EmptyPassword));
    assert_eq!(StorageCipher::decrypt(&header, b"p").err(), Some(Failure::WrongPassword));
    assert_eq!(StorageCipher::new(b"").err(), Some(Failure::EmptyPassword));
}

#[test]
fn an_empty_password_in_the_environment_is_refused() {
    assert_eq!(storage_password_from_env(None), Ok(None));
    assert_eq!(
        storage_password_from_env(Some("p".to_owned())),
        Ok(Some("p".to_owned()))
    );
    assert_eq!(
        storage_password_from_env(Some(String::new())),
        Err(Failure::EmptyEnvironmentPassword)
    );
}

#[test]
fn user_id_is_persistent() {
    let (created, unsaved) = load_or_create_user_id(None).unwrap();
    assert!(unsaved);
    let file = created.as_bytes().to_vec();
    let (loaded, unsaved) = load_or_create_user_id(Some(&file)).unwrap();
    assert!(!unsaved);

    assert_eq!(created, loaded);
}

#[test]
fn stored_user_ids_of_another_size_are_refused() {
    assert_eq!(load_or_create_user_id(Some(&[1; 15])), Err(UserIdFailure::InvalidLength));
    assert_eq!(load_or_create_user_id(Some(&[])), Err(UserIdFailure::InvalidLength));
    assert_eq!(read_user_id(&[1; 17]), Err(UserIdFailure::InvalidLength));
    assert_eq!(read_user_id(&[1; 16]), Ok(UserId::from_bytes([1; 16])));
}

#[test]
fn failures_of_the_user_id_are_told_in_words() {
    assert_eq!(
        UserIdFailure::InvalidLength.message("/home/ada/.ghostline/user_id"),
        "stored user ID at /home/ada/.ghostline/user_id has an invalid length"
    );
    let error = getrandom::Error::UNSUPPORTED;
    assert_eq!(
        UserIdFailure::NotDrawn(Failure::Random(error)).message("anywhere"),
        error.to_string()
    );
}

fn byte_array(bytes: &[u8]) -> Value {
    Value::Array(bytes.iter().map(|byte| Value::Integer(*byte as i64)).collect())
}

fn bytes_of(value: &Value) -> Vec<u8> {
    value.as_array().unwrap().iter().map(|item| item.as_integer().unwrap() as u8).collect()
}

fn written(store: &FriendsStore) -> String {
    let mut friends = vec![];
    for friend in store.iter() {
        let mut settings = Table::new();
        settings.insert("user_id".to_owned(), byte_array(friend.user_id().as_bytes()));
        settings.insert("name".to_owned(), byte_array(&friend.settings().name));
        settings.insert("picture".to_owned(), byte_array(&friend.settings().picture));
        settings.insert("bio".to_owned(), byte_array(&friend.settings().bio));
        let mut entry = Table::new();
        entry.insert("room_key".to_owned(), byte_array(friend.room_key().bytes()));
        entry.insert("settings".to_owned(), Value::Table(settings));
        friends.push(Value::Table(entry));
    }
    let mut table = Table::new();
    table.insert("friends".to_owned(), Value::Array(friends));
    toml::to_string_pretty(&table).unwrap()
}

fn parsed(contents: &[u8]) -> Vec<StoredFriend> {
    let table: Table = toml::from_str(std::str::from_utf8(contents).unwrap()).unwrap();
    let mut friends = vec![];
    for entry in table["friends"].as_array().unwrap() {
        let settings = &entry["settings"];
        let id: [u8; 16] = bytes_of(&settings["user_id"]).try_into().unwrap();
        let room: [u8; 16] = bytes_of(&entry["room_key"]).try_into().unwrap();
        friends.push(StoredFriend {
            room_key: RoomK::from(&room),
            settings: Settings::<Friend>::from_fields(
                UserId::from_bytes(id),
                bytes_of(&settings["name"]).try_into().unwrap(),
                bytes_of(&settings["picture"]).try_into().unwrap(),
                bytes_of(&settings["bio"]).try_into().unwrap(),
            ),
            messages_history: None,
            private_key: None,
            friend_public_key: None,
        });
    }
    friends
}

#[test]
fn friend_profile_and_room_key_are_persistent() {
    let user_id = UserId::new().unwrap();
    let room_key = RoomK::new().unwrap();
    let settings =
        Settings::<Friend>::from_parts(user_id.clone(), b"Alice", b"picture bytes", b"Hello");

    let mut store = FriendsStore {
        friends: Vec::new(),
        cipher: Some(StorageCipher::new(b"test password").unwrap()),
    };
    store.friends.push(StoredFriend {
        room_key: room_key.clone(),
        settings,
        messages_history: None,
        private_key: Some([1; KEY_SIZE]),
        friend_public_key: Some([2; KEY_SIZE]),
    });
    let on_disk = store.save(written(&store).as_bytes()).unwrap();

    let loaded = match FriendsStore::load(Some(on_disk.clone()), b"test password") {
        Ok(Loading::Parse { contents, cipher }) => {
            assert!(cipher.is_some());
            let (store, unsaved) =
                FriendsStore::finish_load(parsed(&contents), cipher, b"test password").unwrap();
            assert!(!unsaved);
            store
        }
        _ => panic!("the store was saved"),
    };
    let friend = loaded.get(&user_id).unwrap();
    assert_eq!(friend.room_key.bytes(), room_key.bytes());
    assert_eq!(friend.settings.name_to_string(), "Alice");
    assert_eq!(friend.settings.picture(), b"picture bytes");
    assert_eq!(friend.settings.bio(), b"Hello");
    assert!(StorageCipher::is_encrypted(&on_disk));
    assert!(!on_disk.windows(5).any(|part| part == b"Alice"));
}

#[test]
fn a_missing_store_is_created_empty() {
    match FriendsStore::load(None, b"password") {
        Ok(Loading::New(store)) => {
            assert!(store.is_empty());
            let saved = store.save(b"friends = []").unwrap();
            let (_, contents) = StorageCipher::decrypt(&saved, b"password").unwrap();
            assert_eq!(contents, b"friends = []");
        }
        _ => panic!("there is no store yet"),
    }
    assert_eq!(FriendsStore::load(None, b"").err(), Some(Failure::EmptyPassword));
}

#[test]
fn a_plain_store_is_migrated() {
    match FriendsStore::load(Some(b"friends = []".to_vec()), b"") {
        Ok(Loading::Parse { contents, cipher }) => {
            assert_eq!(contents, b"friends = []");
            assert!(cipher.is_none());
        }
        _ => panic!("a plain store is parsed as it is"),
    }
    assert_eq!(
        FriendsStore::finish_load(vec![], None, b"").err(),
        Some(Failure::EmptyPassword)
    );
    let (store, unsaved) = FriendsStore::finish_load(vec![], None, b"password").unwrap();
    assert!(unsaved);
    assert!(store.storage_cipher().is_ok());
}

#[test]
fn an_encrypted_store_needs_its_password() {
    let image = StorageCipher::new(b"right").unwrap().encrypt(b"friends = []").unwrap();
    assert_eq!(
        FriendsStore::load(Some(image), b"wrong").err(),
        Some(Failure::WrongPassword)
    );
    assert_eq!(
        FriendsStore::load(Some(b"GHSTLN01".to_vec()), b"p").err(),
        Some(Failure::StoreTruncated)
    );
}

#[test]
fn a_store_without_a_key_is_not_saved() {
    let store = FriendsStore::default();
    assert_eq!(store.save(b"friends = []"), Err(Failure::NoStorageKey));
    assert_eq!(store.storage_cipher().err(), Some(Failure::NoStorageKey));
}

fn profile(id: u8, name: &[u8]) -> Settings<Friend> {
    Settings::<Friend>::from_parts(UserId::from_bytes([id; 16]), name, b"", b"")
}

fn shown_key(keys: &Keys, id: u8) -> FriendK {
    let mut bytes = vec![];
    keys.share(&mut bytes, &UserId::from_bytes([id; 16]));
    FriendK::read(&mut ByteStream::new(bytes)).unwrap()
}

#[test]
fn friends_are_remembered_replaced_and_removed() {
    let mine = Keys::new();
    let theirs = Keys::new();
    let key = shown_key(&theirs, 1);
    let one = UserId::from_bytes([1; 16]);
    let two = UserId::from_bytes([2; 16]);
    let mut store = FriendsStore::default();
    store.remember(one, RoomK::from(&[1; 16]), profile(1, b"one"), &mine, &key).unwrap();
    store.remember(two, RoomK::from(&[2; 16]), profile(2, b"two"), &mine, &key).unwrap();
    store.record_message(&one, "You: hi".to_owned()).unwrap();
    assert_eq!(store.len(), 2);
    assert_eq!(store.get(&one).unwrap().messages(), vec!["You: hi".to_owned()]);

    store.remember(one, RoomK::from(&[3; 16]), profile(1, b"uno"), &mine, &key).unwrap();
    assert_eq!(store.len(), 2);
    let first = store.get(&one).unwrap();
    assert_eq!(first.settings().name_to_string(), "uno");
    assert_eq!(first.room_key(), &RoomK::from(&[3; 16]));
    assert!(first.messages_history.is_none());
    assert_eq!(
        first.chat_key_bytes(),
        Ok((*mine.private_bytes(), *theirs.public_bytes()))
    );
    assert_eq!(store.settings_for(&two).unwrap().name_to_string(), "two");
    assert_eq!(store.room_key_for(&two), Some(&RoomK::from(&[2; 16])));
    assert_eq!(store.iter().count(), 2);

    let removed = store.remove(&one).unwrap();
    assert_eq!(removed.user_id(), &one);
    let (room, settings) = removed.into_parts();
    assert_eq!(room, RoomK::from(&[3; 16]));
    assert_eq!(settings.name_to_string(), "uno");
    assert!(store.get(&one).is_none());
    assert!(store.get(&two).is_some());
    assert!(store.remove(&one).is_none());
    assert_eq!(store.len(), 1);
    assert!(store.settings_for(&one).is_none());
    assert!(store.room_key_for(&one).is_none());
}

#[test]
fn profiles_of_somebody_else_are_not_remembered() {
    let keys = Keys::new();
    let key = shown_key(&keys, 1);
    let mut store = FriendsStore::default();
    assert_eq!(
        store.remember(
            UserId::from_bytes([1; 16]),
            RoomK::from(&[1; 16]),
            profile(2, b"two"),
            &keys,
            &key
        ),
        Err(Failure::ProfileMismatch)
    );
    assert!(store.is_empty());
}

#[test]
fn lines_are_added_to_the_history_of_one_friend() {
    let keys = Keys::new();
    let key = shown_key(&keys, 1);
    let one = UserId::from_bytes([1; 16]);
    let two = UserId::from_bytes([2; 16]);
    let mut store = FriendsStore::default();
    store.remember(one, RoomK::from(&[1; 16]), profile(1, b"one"), &keys, &key).unwrap();
    store.remember(two, RoomK::from(&[2; 16]), profile(2, b"two"), &keys, &key).unwrap();
    store.record_message(&two, "a".to_owned()).unwrap();
    store.record_message(&two, "b".to_owned()).unwrap();
    assert_eq!(store.get(&two).unwrap().messages(), vec!["a".to_owned(), "b".to_owned()]);
    assert!(store.get(&one).unwrap().messages().is_empty());
    assert_eq!(
        store.record_message(&UserId::from_bytes([9; 16]), "c".to_owned()),
        Err(Failure::FriendRemoved)
    );
    store.get_mut(&one).unwrap().private_key = None;
    assert_eq!(store.get(&one).unwrap().chat_key_bytes(), Err(Failure::NoChatKeys));
    assert!(store.get(&two).unwrap().chat_key_bytes().is_ok());
    assert!(store.get_mut(&UserId::from_bytes([9; 16])).is_none());
}

#[test]
fn friends_are_copied_whole() {
    let friend = StoredFriend {
        room_key: RoomK::from(&[1; 16]),
        settings: profile(2, b"two"),
        messages_history: Some(vec!["a".to_owned()]),
        private_key: Some([3; 32]),
        friend_public_key: None,
    };
    let copy = friend.clone();
    assert_eq!(copy.room_key, friend.room_key);
    assert_eq!(copy.user_id(), friend.user_id());
    assert_eq!(copy.settings.name, friend.settings.name);
    assert_eq!(copy.settings.picture, friend.settings.picture);
    assert_eq!(copy.settings.bio, friend.settings.bio);
    assert_eq!(copy.messages_history, friend.messages_history);
    assert_eq!(copy.private_key, friend.private_key);
    assert_eq!(copy.friend_public_key, friend.friend_public_key);
    let silent = StoredFriend { messages_history: None, ..friend };
    assert_eq!(silent.clone().messages_history, None);
}

#[test]
fn unencrypted_stores_load_again_once_saved() {
    let (migrated, unsaved) = FriendsStore::finish_load(vec![], None, b"password").unwrap();
    assert!(unsaved);
    let created = match FriendsStore::load(None, b"password") {
        Ok(Loading::New(store)) => store,
        _ => panic!("there is no store yet"),
    };
    for store in [migrated, created] {
        let data = store.save(b"friends = []").unwrap();
        assert_eq!(data.len(), HEADER_SIZE + 12 + 16);
        assert!(StorageCipher::is_encrypted(&data));
        match FriendsStore::load(Some(data.clone()), b"password") {
            Ok(Loading::Parse { contents, cipher }) => {
                assert_eq!(contents, b"friends = []");
                let again = FriendsStore::finish_load(vec![], cipher, b"password");
                let (again, unsaved) = again.ok().unwrap();
                assert!(!unsaved);
                let next = again.save(b"more").unwrap();
                assert_eq!(next[..24], data[..24]);
            }
            _ => panic!("the store was saved"),
        }
    }
}
