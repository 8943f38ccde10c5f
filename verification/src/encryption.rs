//! The keys of a chat and the cipher that two of them make.

use crypto_box::aead::{Aead, AeadCore};
use vstd::prelude::*;
use crate::bytes::{exact, extend, ByteStream};
use crate::failure::Failure;
use crate::protocol;
use crate::protocol::{take_frame, FrameKind, Operation, UserId, USER_ID_SIZE};
use zeroize::Zeroize;

verus! {

broadcast use vstd::array::group_array_axioms;

pub const KEY_SIZE: usize = 32;

pub const NONCE_SIZE: usize = 24;

/// How many bytes a ciphertext is longer than its plaintext.
pub const ENC_ADDED: usize = 16;

/// The longest text that the keystream of one nonce covers.
pub const BOX_LIMIT: u64 = 274877906848;

/// Whether a text of this length can be encrypted at all: the keystream must
/// cover it, and the ciphertext must fit in memory.
pub open spec fn box_holds(length: nat) -> bool {
    length <= BOX_LIMIT && length + ENC_ADDED <= isize::MAX
}

/// Declares the error of the message cipher.
#[verifier::external_type_specification]
#[verifier::external_body]
pub struct ExBoxError(crypto_box::aead::Error);

/// The public key that belongs to a secret key.
pub uninterp spec fn public_key_of(secret: Seq<u8>) -> Seq<u8>;

/// What `ChaChaBox` makes of a text, given the sender's secret key, the
/// recipient's public key and a nonce.
pub uninterp spec fn box_sealed(
    secret: Seq<u8>,
    public: Seq<u8>,
    nonce: Seq<u8>,
    plaintext: Seq<u8>,
) -> Seq<u8>;

/// What `ChaChaBox` finds in a ciphertext, given the recipient's secret key,
/// the sender's public key and a nonce; nothing where its tag does not fit.
pub uninterp spec fn box_opened(
    secret: Seq<u8>,
    public: Seq<u8>,
    nonce: Seq<u8>,
    ciphertext: Seq<u8>,
) -> Option<Seq<u8>>;

/// Draws a secret key with `SecretKey::generate`. Nothing is promised of its
/// bytes. It panics where the operating system has no random bytes to give.
#[verifier::external_body]
fn random_secret() -> (secret: [u8; KEY_SIZE])
{
    crypto_box::SecretKey::generate(&mut crypto_box::aead::OsRng).to_bytes()
}

/// Computes a public key with `SecretKey::public_key`.
#[verifier::external_body]
fn derive_public(secret: &[u8; KEY_SIZE]) -> (public: [u8; KEY_SIZE])
    ensures
        public@ == public_key_of(secret@),
{
    crypto_box::SecretKey::from_bytes(*secret).public_key().to_bytes()
}

/// Draws a nonce with `ChaChaBox::generate_nonce`. Nothing is promised of its
/// bytes. It panics where the operating system has no random bytes to give.
#[verifier::external_body]
fn random_nonce() -> (nonce: [u8; NONCE_SIZE])
{
    crypto_box::ChaChaBox::generate_nonce(&mut crypto_box::aead::OsRng).into()
}

/// Encrypts with `ChaChaBox::new` and its `encrypt`. The cipher refuses no
/// text that its keystream covers; the ciphertext is [`box_sealed`], longer by
/// the tag, and whoever holds the secret key of `public` opens it with the
/// public key of `secret`.
#[verifier::external_body]
fn box_seal(
    secret: &[u8; KEY_SIZE],
    public: &[u8; KEY_SIZE],
    nonce: &[u8; NONCE_SIZE],
    plaintext: &[u8],
) -> (sealed: Result<Vec<u8>, crypto_box::aead::Error>)
    requires
        box_holds(plaintext@.len()),
    ensures
        sealed is Ok,
        sealed->Ok_0@ == box_sealed(secret@, public@, nonce@, plaintext@),
        sealed->Ok_0@.len() == plaintext@.len() + ENC_ADDED,
        forall|recipient: Seq<u8>|
            recipient.len() == KEY_SIZE && #[trigger] public_key_of(recipient) == public@
                ==> box_opened(recipient, public_key_of(secret@), nonce@, sealed->Ok_0@) == Some(
                plaintext@,
            ),
{
    crypto_box::ChaChaBox::new(
        &crypto_box::PublicKey::from_bytes(*public),
        &crypto_box::SecretKey::from_bytes(*secret),
    ).encrypt(&crypto_box::Nonce::from(*nonce), plaintext)
}

/// Decrypts with `ChaChaBox::new` and its `decrypt`. The outcome is
/// [`box_opened`]; a ciphertext without room for the tag never opens, and what
/// is found is shorter by the tag. That a changed ciphertext, or one made with
/// other keys, does not open rests on the strength of the cipher and is not
/// claimed.
#[verifier::external_body]
fn box_open(
    secret: &[u8; KEY_SIZE],
    public: &[u8; KEY_SIZE],
    nonce: &[u8; NONCE_SIZE],
    ciphertext: &[u8],
) -> (opened: Result<Vec<u8>, crypto_box::aead::Error>)
    requires
        ciphertext@.len() <= BOX_LIMIT + ENC_ADDED,
    ensures
        match opened {
            Ok(plaintext) => {
                &&& box_opened(secret@, public@, nonce@, ciphertext@) == Some(plaintext@)
                &&& plaintext@.len() + ENC_ADDED == ciphertext@.len()
            },
            Err(_) => box_opened(secret@, public@, nonce@, ciphertext@) is None,
        },
{
    crypto_box::ChaChaBox::new(
        &crypto_box::PublicKey::from_bytes(*public),
        &crypto_box::SecretKey::from_bytes(*secret),
    ).decrypt(&crypto_box::Nonce::from(*nonce), ciphertext)
}

/// Overwrites key material with `Zeroize::zeroize`, which leaves zeros.
#[verifier::external_body]
pub(crate) fn wipe(key: &mut [u8; KEY_SIZE])
    ensures
        final(key)@ == Seq::new(KEY_SIZE as nat, |i: int| 0u8),
    opens_invariants none
    no_unwind
{
    key.zeroize();
}

/// A secret key and its public key. The secret key is wiped when the pair is
/// dropped.
pub struct Keys {
    public: [u8; KEY_SIZE],
    private: [u8; KEY_SIZE],
}

/// How a client shows its public key.
pub open spec fn handshake_frame(user_id: Seq<u8>, public: Seq<u8>) -> Seq<u8> {
    seq![protocol::operation_code(Operation::HandShake)] + user_id + public
}

/// A shown public key is read as it was shown, whatever follows it.
pub proof fn handshakes_are_understood(user_id: Seq<u8>, public: Seq<u8>, more: Seq<u8>)
    requires
        user_id.len() == USER_ID_SIZE,
        public.len() == KEY_SIZE,
    ensures
        ({
            let input = handshake_frame(user_id, public) + more;
            &&& protocol::frame_length(FrameKind::HandShake, input) == Ok::<nat, Failure>(49)
            &&& input.subrange(1, 17) == user_id
            &&& input.subrange(17, 49) == public
        }),
{
    let input = handshake_frame(user_id, public) + more;
    assert(input.subrange(1, 17) =~= user_id);
    assert(input.subrange(17, 49) =~= public);
}

impl Keys {
    /// The public key.
    pub closed spec fn public(&self) -> Seq<u8> {
        self.public@
    }

    /// The secret key.
    pub closed spec fn private(&self) -> Seq<u8> {
        self.private@
    }

    /// The public key belongs to the secret key.
    pub open spec fn matched(&self) -> bool {
        &&& self.private().len() == KEY_SIZE
        &&& self.public().len() == KEY_SIZE
        &&& self.public() == public_key_of(self.private())
    }

    /// A fresh random key pair.
    pub fn new() -> (keys: Self)
        ensures
            keys.matched(),
    {
        Self::from_private(random_secret())
    }

    /// The key pair of this secret key.
    pub fn from_private(private: [u8; KEY_SIZE]) -> (keys: Self)
        ensures
            keys.matched(),
            keys.private() == private@,
    {
        let public: [u8; KEY_SIZE] = derive_public(&private);
        Self { public, private }
    }

    /// Appends the frame that shows the public key to the other client.
    pub fn share(&self, stream: &mut Vec<u8>, user_id: &UserId)
        ensures
            final(stream)@ == old(stream)@ + handshake_frame(user_id@, self.public()),
    {
        stream.push(Operation::HandShake.code());
        user_id.write_to(stream);
        extend(stream, &self.public);
        assert(stream@ =~= old(stream)@ + handshake_frame(user_id@, self.public()));
    }

    /// The secret key.
    pub fn private_bytes(&self) -> (private: &[u8; KEY_SIZE])
        ensures
            private@ == self.private(),
    {
        &self.private
    }

    /// The public key.
    pub fn public_bytes(&self) -> (public: &[u8; KEY_SIZE])
        ensures
            public@ == self.public(),
    {
        &self.public
    }
}

impl Drop for Keys {
    fn drop(&mut self)
        ensures
            final(self).private() == Seq::new(KEY_SIZE as nat, |i: int| 0u8),
        opens_invariants none
        no_unwind
    {
        wipe(&mut self.private);
    }
}

/// Somebody's public key.
#[derive(Clone, Copy, Debug)]
pub struct FriendK {
    user_id: UserId,
    key: [u8; KEY_SIZE],
}

impl FriendK {
    /// Whose key it is.
    pub closed spec fn owner(&self) -> Seq<u8> {
        self.user_id@
    }

    /// The public key.
    pub closed spec fn key(&self) -> Seq<u8> {
        self.key@
    }

    /// Takes a shown public key off the stream.
    pub fn read(stream: &mut ByteStream) -> (friend: Result<Self, Failure>)
        ensures
            match friend {
                Ok(friend) => {
                    &&& protocol::frame_length(FrameKind::HandShake, old(stream)@) is Ok
                    &&& old(stream)@.take(49) == handshake_frame(friend.owner(), friend.key())
                    &&& friend.owner() == old(stream)@.subrange(1, 17)
                    &&& friend.key() == old(stream)@.subrange(17, 49)
                },
                Err(failure) => protocol::frame_length(FrameKind::HandShake, old(stream)@)
                    == Err::<nat, Failure>(failure),
            },
            final(stream)@ == old(stream)@.skip(
                protocol::consumed_length(FrameKind::HandShake, old(stream)@) as int,
            ),
    {
        let frame: Vec<u8> = take_frame(FrameKind::HandShake, stream)?;
        let user_id: UserId = UserId::from_bytes(
            exact(vstd::slice::slice_subrange(frame.as_slice(), 1, 17)),
        );
        let key: [u8; KEY_SIZE] = exact(vstd::slice::slice_subrange(frame.as_slice(), 17, 49));
        proof {
            assert(frame@.subrange(1, 17) =~= old(stream)@.subrange(1, 17));
            assert(frame@.subrange(17, 49) =~= old(stream)@.subrange(17, 49));
            assert(frame@ =~= handshake_frame(user_id@, key@));
        }
        Ok(FriendK { user_id, key })
    }

    /// The public key.
    pub fn as_bytes(&self) -> (key: &[u8; KEY_SIZE])
        ensures
            key@ == self.key(),
    {
        &self.key
    }

    /// Whose key it is.
    pub fn user_id(&self) -> (id: &UserId)
        ensures
            id@ == self.owner(),
    {
        &self.user_id
    }
}

/// The cipher between the owner of a secret key and the owner of a public key.
/// The secret key is wiped when the cipher is dropped.
pub struct Encryption {
    private: [u8; KEY_SIZE],
    friend: [u8; KEY_SIZE],
}

impl Encryption {
    /// The secret key of this side.
    pub closed spec fn private(&self) -> Seq<u8> {
        self.private@
    }

    /// The public key of the other side.
    pub closed spec fn friend(&self) -> Seq<u8> {
        self.friend@
    }

    /// The cipher between these keys and a friend's.
    pub fn derive_real(private: &Keys, friend: &FriendK) -> (encryption: Self)
        ensures
            encryption.private() == private.private(),
            encryption.friend() == friend.key(),
    {
        Self::from_key_bytes(private.private_bytes(), friend.as_bytes())
    }

    /// The cipher between a secret key and a public key.
    pub fn from_key_bytes(
        private_key: &[u8; KEY_SIZE],
        friend_public_key: &[u8; KEY_SIZE],
    ) -> (encryption: Self)
        ensures
            encryption.private() == private_key@,
            encryption.friend() == friend_public_key@,
    {
        Self { private: *private_key, friend: *friend_public_key }
    }

    /// Encrypts under a fresh random nonce. The other side opens what comes
    /// out: see [`Self::encrypt_with_nonce`].
    pub fn encrypt(&mut self, plaintext: &[u8]) -> (sealed: Result<
        ([u8; NONCE_SIZE], Vec<u8>),
        Failure,
    >)
        requires
            box_holds(plaintext@.len()),
        ensures
            *final(self) == *old(self),
            sealed matches Ok((nonce, ciphertext)) && sealed_by(
                *old(self),
                nonce@,
                plaintext@,
                ciphertext@,
            ),
    {
        let nonce: [u8; NONCE_SIZE] = random_nonce();
        match self.encrypt_with_nonce(&nonce, plaintext) {
            Ok(ciphertext) => Ok((nonce, ciphertext)),
            Err(failure) => Err(failure),
        }
    }

    /// Encrypts under a given nonce. A cipher with the other secret key and
    /// the public key of this one gets the text back.
    pub fn encrypt_with_nonce(&self, nonce: &[u8; NONCE_SIZE], plaintext: &[u8]) -> (sealed: Result<
        Vec<u8>,
        Failure,
    >)
        requires
            box_holds(plaintext@.len()),
        ensures
            sealed matches Ok(ciphertext) && sealed_by(*self, nonce@, plaintext@, ciphertext@),
    {
        match box_seal(&self.private, &self.friend, nonce, plaintext) {
            Ok(ciphertext) => Ok(ciphertext),
            Err(_) => Err(Failure::EncryptionFailed),
        }
    }

    /// Decrypts what the other side encrypted under `nonce`.
    pub fn decrypt(&mut self, nonce: &[u8; NONCE_SIZE], data: &[u8]) -> (opened: Result<
        Vec<u8>,
        Failure,
    >)
        requires
            data@.len() <= BOX_LIMIT + ENC_ADDED,
        ensures
            *final(self) == *old(self),
            match opened {
                Ok(plaintext) => {
                    &&& box_opened(old(self).private(), old(self).friend(), nonce@, data@)
                        == Some(plaintext@)
                    &&& plaintext@.len() + ENC_ADDED == data@.len()
                },
                Err(failure) => {
                    &&& box_opened(old(self).private(), old(self).friend(), nonce@, data@) is None
                    &&& failure == Failure::DecryptionFailed
                },
            },
    {
        match box_open(&self.private, &self.friend, nonce, data) {
            Ok(plaintext) => Ok(plaintext),
            Err(_) => Err(Failure::DecryptionFailed),
        }
    }
}

impl Drop for Encryption {
    fn drop(&mut self)
        ensures
            final(self).private() == Seq::new(KEY_SIZE as nat, |i: int| 0u8),
        opens_invariants none
        no_unwind
    {
        wipe(&mut self.private);
    }
}

/// `ciphertext` is what `encryption` makes of `plaintext` under `nonce`, and
/// the owner of the other secret key gets the text back from it.
pub open spec fn sealed_by(
    encryption: Encryption,
    nonce: Seq<u8>,
    plaintext: Seq<u8>,
    ciphertext: Seq<u8>,
) -> bool {
    &&& ciphertext == box_sealed(encryption.private(), encryption.friend(), nonce, plaintext)
    &&& ciphertext.len() == plaintext.len() + ENC_ADDED
    &&& forall|recipient: Seq<u8>|
        recipient.len() == KEY_SIZE && #[trigger] public_key_of(recipient) == encryption.friend()
            ==> box_opened(
            recipient,
            public_key_of(encryption.private()),
            nonce,
            ciphertext,
        ) == Some(plaintext)
}

/// Two ciphers that hold each other's public keys open whatever either has
/// sealed, texts of every length included.
pub proof fn each_side_opens_what_the_other_seals(
    one: Encryption,
    other: Encryption,
    nonce: Seq<u8>,
    plaintext: Seq<u8>,
    ciphertext: Seq<u8>,
)
    requires
        other.private().len() == 32,
        one.friend() == public_key_of(other.private()),
        other.friend() == public_key_of(one.private()),
        sealed_by(one, nonce, plaintext, ciphertext),
    ensures
        ciphertext.len() == plaintext.len() + 16,
        ciphertext == box_sealed(one.private(), one.friend(), nonce, plaintext),
        box_opened(other.private(), other.friend(), nonce, ciphertext) == Some(plaintext),
{
}

/// Every shown key starts with its operation and is followed by who shows it and
/// the key, and nothing else.
pub proof fn handshakes_are_laid_out_in_order(user_id: Seq<u8>, public: Seq<u8>)
    requires
        user_id.len() == 16,
        public.len() == 32,
    ensures
        handshake_frame(user_id, public) == seq![3u8] + user_id + public,
        handshake_frame(user_id, public).len() == 49,
{
}

/// Every text that the keystream covers and whose ciphertext fits in memory can
/// be encrypted.
pub proof fn covered_texts_can_be_encrypted(length: nat)
    ensures
        length <= 274877906848 && length + 16 <= isize::MAX <==> box_holds(length),
{
}

} // verus!
