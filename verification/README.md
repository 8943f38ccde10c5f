# Ghostline

Ghostline is a terminal chat. A relay pairs two clients by an invite key and
forwards the encrypted frames of their chat; it never decrypts them. This crate
holds the protocol, the ciphers' use, the relay's rooms, the friend store and
the decisions of the user interface, each verified with Verus against its
contract.

- `src/protocol.rs`: operations, user IDs, room keys, and how frames are read.
- `src/encryption.rs`, `src/message.rs`: chat keys, ciphers and messages.
- `src/user_driven_settings.rs`: profiles and how clients show them.
- `src/talk_to_server.rs`, `src/relay.rs`: invites, rooms and relaying.
- `src/app_data_encryption.rs`, `src/app_driven_storage.rs`, `src/storage.rs`:
  the encrypted friend store and the user's own ID.
- `src/client.rs`, `src/terminal.rs`: tasks, meetings, chats, keys and screens.
- `src/bytes.rs`, `src/text.rs`, `src/failure.rs`: byte strings, texts, and what
  can go wrong.
- `app/`: the terminal, the files and the connections around the library. The
  program is the client; under the name `ghostline-server` it is the relay.

## Use

The relay listens on `127.0.0.1:1278`. A client is started with `--invite`,
with `--join` and an invite key, with `--talk`, or without arguments for the
menu. Local data lies in `~/.ghostline`: `user_id` is the user's own random ID,
and `friend_ids.toml` holds friends, keys and message history, encrypted with
the storage password, which is asked for or taken from
`GHOSTLINE_STORAGE_PASSWORD`.
