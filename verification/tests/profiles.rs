use ghostline::bytes::ByteStream;
use ghostline::encryption::{Encryption, Keys, ENC_ADDED, NONCE_SIZE};
use ghostline::failure::Failure;
use ghostline::protocol::{UserId, BIO_LEN, NAME_LEN, PIC_SIZE, PROFILE_SIZE};
use ghostline::user_driven_settings::{unpadded, Friend, Mine, Settings};

#[test]
fn padding_is_taken_off_at_the_first_zero() {
    assert_eq!(unpadded(b"abc\0\0"), b"abc");
    assert_eq!(unpadded(b"abc"), b"abc");
    assert_eq!(unpadded(b"\0abc"), b"");
    assert_eq!(unpadded(b""), b"");
    assert_eq!(unpadded(b"a\0b"), b"a");
}

#[test]
fn own_profiles_come_from_the_configuration() {
    let me = Settings::<Mine>::new(UserId::from_bytes([1; 16]), "Zoë", "cat.png", "hello there");
    assert_eq!(me.name_to_string(), "Zoë");
    assert_eq!(me.picture(), b"cat.png");
    assert_eq!(me.bio(), b"hello there");
    assert_eq!(me.name.len(), NAME_LEN);
    assert_eq!(me.picture.len(), PIC_SIZE);
    assert_eq!(me.bio.len(), BIO_LEN);
    let widest = "n".repeat(NAME_LEN);
    let full = Settings::<Mine>::new(UserId::from_bytes([1; 16]), &widest, "", "");
    assert_eq!(full.name_to_string(), widest);
    assert_eq!(full.clone().name_to_string(), widest);
}

#[test]
fn names_that_are_no_text_are_noticed() {
    let id = UserId::from_bytes([1; 16]);
    let broken = Settings::<Friend>::from_parts(id, &[0xff, 0xfe], b"", b"");
    assert_eq!(broken.checked_name(), None);
    let named = Settings::<Friend>::from_parts(id, b"Alice", b"", b"");
    assert_eq!(named.checked_name(), Some("Alice".to_owned()));
}

#[test]
fn a_shared_profile_is_read_as_it_was_shared() {
    let alice = Keys::new();
    let bob = Keys::new();
    let mut me =
        Settings::<Mine>::new(UserId::from_bytes([7; 16]), "Alice", "picture bytes", "Hello");
    let mut sent = vec![1, 2];
    let mut to_bob = Encryption::from_key_bytes(alice.private_bytes(), bob.public_bytes());
    me.share(&mut sent, &mut to_bob).unwrap();
    assert_eq!(sent.len(), 2 + PROFILE_SIZE);
    assert_eq!(sent[2], 4);
    assert_eq!(&sent[3..19], &[7; 16]);
    assert!(!sent.windows(5).any(|part| part == b"Alice"));

    let mut stream = ByteStream::new(sent[2..].to_vec());
    let mut to_alice = Encryption::from_key_bytes(bob.private_bytes(), alice.public_bytes());
    let friend = Settings::<Friend>::read_friend(&mut stream, &mut to_alice).unwrap();
    assert_eq!(friend.user_id, UserId::from_bytes([7; 16]));
    assert_eq!(friend.name, me.name);
    assert_eq!(friend.picture, me.picture);
    assert_eq!(friend.bio, me.bio);
    assert_eq!(stream.len(), 0);
}

#[test]
fn profiles_that_do_not_open_are_refused() {
    let alice = Keys::new();
    let bob = Keys::new();
    let eve = Keys::new();
    let mut me = Settings::<Mine>::new(UserId::from_bytes([7; 16]), "Alice", "p", "b");
    let mut sent = vec![];
    let mut to_bob = Encryption::from_key_bytes(alice.private_bytes(), bob.public_bytes());
    me.share(&mut sent, &mut to_bob).unwrap();

    let mut of_eve = Encryption::from_key_bytes(eve.private_bytes(), alice.public_bytes());
    let other = Settings::<Friend>::read_friend(&mut ByteStream::new(sent.clone()), &mut of_eve);
    assert_eq!(other.err(), Some(Failure::DecryptionFailed));

    let mut of_bob = Encryption::from_key_bytes(bob.private_bytes(), alice.public_bytes());
    let bio_start = 17 + NONCE_SIZE + NAME_LEN + ENC_ADDED + NONCE_SIZE;
    for position in [50, bio_start, PROFILE_SIZE - 1] {
        let mut changed = sent.clone();
        changed[position] ^= 1;
        let refused = Settings::<Friend>::read_friend(&mut ByteStream::new(changed), &mut of_bob);
        assert_eq!(refused.err(), Some(Failure::DecryptionFailed));
    }

    let mut short = ByteStream::new(sent[..PROFILE_SIZE - 1].to_vec());
    let refused = Settings::<Friend>::read_friend(&mut short, &mut of_bob);
    assert_eq!(refused.err(), Some(Failure::UnexpectedEnd));
    let mut wrong = ByteStream::new(vec![3]);
    let refused = Settings::<Friend>::read_friend(&mut wrong, &mut of_bob);
    assert_eq!(refused.err(), Some(Failure::ExpectedProfile(3)));
}
