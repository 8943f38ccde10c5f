use crypto_box::{aead::OsRng, SecretKey};
use ghostline::bytes::ByteStream;
use ghostline::encryption::{Encryption, FriendK, Keys, ENC_ADDED, NONCE_SIZE};
use ghostline::failure::Failure;
use ghostline::message::{read, send, write_frame};
use ghostline::protocol::{
    Operation, UserId, MAX_MESSAGE_SIZE, MESSAGE_NONCE_SIZE, MESSAGE_PUBLIC_KEY_SIZE,
};

#[test]
fn encrypted_message_frame_round_trips() {
    let bob_secret = SecretKey::generate(&mut OsRng);
    let mut sent = vec![];

    send("hello over the relay", &mut sent, bob_secret.public_key().as_bytes()).unwrap();
    let received = read(&mut ByteStream::new(sent), &bob_secret.to_bytes()).unwrap();

    assert_eq!(received, "hello over the relay");
}

#[test]
fn every_message_uses_a_new_ephemeral_key() {
    let recipient_secret = SecretKey::generate(&mut OsRng);
    let recipient_public = recipient_secret.public_key();

    let first = sent_ephemeral_public_key(recipient_public.as_bytes());
    let second = sent_ephemeral_public_key(recipient_public.as_bytes());

    assert_ne!(first, second);
}

fn sent_ephemeral_public_key(recipient_public_key: &[u8; 32]) -> [u8; MESSAGE_PUBLIC_KEY_SIZE] {
    let mut sent = vec![];
    send("message", &mut sent, recipient_public_key).unwrap();

    assert_eq!(sent[0], Operation::Message.code());
    sent[1..1 + MESSAGE_PUBLIC_KEY_SIZE].try_into().unwrap()
}

#[test]
fn frames_follow_what_is_in_the_stream() {
    let keys = Keys::new();
    let mut sent = vec![1, 2, 3];
    send("first", &mut sent, keys.public_bytes()).unwrap();
    send("", &mut sent, keys.public_bytes()).unwrap();
    assert_eq!(&sent[..3], &[1, 2, 3]);
    let mut stream = ByteStream::new(sent[3..].to_vec());
    assert_eq!(read(&mut stream, keys.private_bytes()), Ok("first".to_owned()));
    assert_eq!(read(&mut stream, keys.private_bytes()), Ok(String::new()));
    assert_eq!(read(&mut stream, keys.private_bytes()), Err(Failure::EndInNumber));
}

#[test]
fn only_texts_over_the_limit_are_refused() {
    let keys = Keys::new();
    let mut sent = vec![9];
    let largest = "a".repeat(MAX_MESSAGE_SIZE as usize);
    assert_eq!(
        send(&format!("{largest}a"), &mut sent, keys.public_bytes()),
        Err(Failure::MessageTooLong)
    );
    assert_eq!(sent, vec![9]);
    sent.clear();
    send(&largest, &mut sent, keys.public_bytes()).unwrap();
    assert_eq!(sent.len(), 65 + largest.len() + 16);
    assert_eq!(sent[57..65], (largest.len() as u64 + 16).to_be_bytes());
    assert_eq!(read(&mut ByteStream::new(sent), keys.private_bytes()), Ok(largest));
}

#[test]
fn messages_for_somebody_else_do_not_open() {
    let bob = Keys::new();
    let eve = Keys::new();
    let mut sent = vec![];
    send("for bob", &mut sent, bob.public_bytes()).unwrap();
    assert_eq!(
        read(&mut ByteStream::new(sent.clone()), eve.private_bytes()),
        Err(Failure::DecryptionFailed)
    );
    let last = sent.len() - 1;
    sent[last] ^= 1;
    assert_eq!(
        read(&mut ByteStream::new(sent), bob.private_bytes()),
        Err(Failure::DecryptionFailed)
    );
}

#[test]
fn messages_that_are_no_text_are_refused() {
    let bob = Keys::new();
    let ephemeral = Keys::new();
    let mut encryption = Encryption::from_key_bytes(ephemeral.private_bytes(), bob.public_bytes());
    let (nonce, ciphertext) = encryption.encrypt(&[0xff, 0xfe]).unwrap();
    let mut frame = vec![];
    write_frame(&mut frame, ephemeral.public_bytes(), &nonce, &ciphertext);
    assert_eq!(
        read(&mut ByteStream::new(frame), bob.private_bytes()),
        Err(Failure::MessageNotText)
    );
}

#[test]
fn other_frames_are_no_messages() {
    let keys = Keys::new();
    let mut stream = ByteStream::new(vec![6, 0, 0]);
    assert_eq!(read(&mut stream, keys.private_bytes()), Err(Failure::ExpectedMessage(6)));
}

#[test]
fn message_frames_are_laid_out_field_by_field() {
    let mut frame = vec![];
    write_frame(&mut frame, &[3; 32], &[7; MESSAGE_NONCE_SIZE], b"opaque");
    let mut expected = vec![5];
    expected.extend_from_slice(&[3; 32]);
    expected.extend_from_slice(&[7; 24]);
    expected.extend_from_slice(&6u64.to_be_bytes());
    expected.extend_from_slice(b"opaque");
    assert_eq!(frame, expected);
}

#[test]
fn key_pairs_belong_together() {
    let keys = Keys::new();
    let secret = SecretKey::from_bytes(*keys.private_bytes());
    assert_eq!(keys.public_bytes(), secret.public_key().as_bytes());
    let known = Keys::from_private([1; 32]);
    assert_eq!(known.private_bytes(), &[1; 32]);
    assert_eq!(
        known.public_bytes(),
        SecretKey::from_bytes([1; 32]).public_key().as_bytes()
    );
    assert_ne!(Keys::new().private_bytes(), keys.private_bytes());
}

#[test]
fn ciphers_are_the_ones_of_the_box() {
    let alice = Keys::from_private([1; 32]);
    let bob = Keys::from_private([2; 32]);
    let nonce = [5; NONCE_SIZE];
    let sealed = Encryption::from_key_bytes(alice.private_bytes(), bob.public_bytes())
        .encrypt_with_nonce(&nonce, b"attack at dawn")
        .unwrap();
    let direct = crypto_box::aead::Aead::encrypt(
        &crypto_box::ChaChaBox::new(
            &crypto_box::PublicKey::from_bytes(*bob.public_bytes()),
            &SecretKey::from_bytes([1; 32]),
        ),
        &crypto_box::Nonce::from(nonce),
        b"attack at dawn".as_slice(),
    )
    .unwrap();
    assert_eq!(sealed, direct);
    assert_eq!(sealed.len(), 14 + ENC_ADDED);
    let mut other = Encryption::from_key_bytes(bob.private_bytes(), alice.public_bytes());
    assert_eq!(other.decrypt(&nonce, &sealed), Ok(b"attack at dawn".to_vec()));
    assert_eq!(other.decrypt(&[6; NONCE_SIZE], &sealed), Err(Failure::DecryptionFailed));
    assert_eq!(other.decrypt(&nonce, b"short"), Err(Failure::DecryptionFailed));
}

#[test]
fn shown_keys_are_read_as_shown() {
    let keys = Keys::new();
    let id = UserId::from_bytes([4; 16]);
    let mut bytes = vec![];
    keys.share(&mut bytes, &id);
    assert_eq!(bytes.len(), 49);
    assert_eq!(bytes[0], 3);
    bytes.push(77);
    let mut stream = ByteStream::new(bytes);
    let friend = FriendK::read(&mut stream).unwrap();
    assert_eq!(friend.user_id(), &id);
    assert_eq!(friend.as_bytes(), keys.public_bytes());
    assert_eq!(stream.len(), 1);
    assert_eq!(
        FriendK::read(&mut stream).err(),
        Some(Failure::ExpectedHandshake(77))
    );
}

#[test]
fn both_sides_derive_the_same_cipher() {
    let alice = Keys::new();
    let bob = Keys::new();
    let mut to_bob = vec![];
    alice.share(&mut to_bob, &UserId::from_bytes([1; 16]));
    let mut to_alice = vec![];
    bob.share(&mut to_alice, &UserId::from_bytes([2; 16]));
    let alice_of_bob = FriendK::read(&mut ByteStream::new(to_alice)).unwrap();
    let bob_of_alice = FriendK::read(&mut ByteStream::new(to_bob)).unwrap();
    let (nonce, sealed) = Encryption::derive_real(&alice, &alice_of_bob).encrypt(b"hi").unwrap();
    assert_eq!(
        Encryption::derive_real(&bob, &bob_of_alice).decrypt(&nonce, &sealed),
        Ok(b"hi".to_vec())
    );
}

#[test]
fn a_message_that_ends_early_is_told_by_what_was_being_read() {
    let keys = Keys::new();
    let mut sent = vec![];
    send("hi", &mut sent, keys.public_bytes()).unwrap();
    assert_eq!(sent.len(), 83);
    for (length, failure) in [
        (0, Failure::EndInNumber),
        (1, Failure::UnexpectedEnd),
        (32, Failure::UnexpectedEnd),
        (33, Failure::UnexpectedEnd),
        (56, Failure::UnexpectedEnd),
        (57, Failure::EndInNumber),
        (64, Failure::EndInNumber),
        (65, Failure::UnexpectedEnd),
        (82, Failure::UnexpectedEnd),
    ] {
        let mut stream = ByteStream::new(sent[..length].to_vec());
        assert_eq!(read(&mut stream, keys.private_bytes()), Err(failure));
        assert_eq!(stream.len(), 0);
    }
}
