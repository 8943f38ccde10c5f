//! The friend store at rest: a password, the key that it gives, and the
//! encrypted image that is written to disk.

use argon2::Argon2;
use chacha20poly1305::aead::{rand_core::RngCore, Aead, AeadCore, KeyInit, Payload};
use vstd::prelude::*;
use crate::bytes::{exact, extend, same_bytes};
use crate::encryption::{wipe, ENC_ADDED, KEY_SIZE, NONCE_SIZE};
use crate::failure::Failure;

verus! {

broadcast use vstd::array::group_array_axioms;

pub const SALT_SIZE: usize = 16;

/// The mark, the salt and the nonce of an encrypted store.
pub const HEADER_SIZE: usize = 48;

/// The longest store that the keystream of one nonce covers.
pub const STORE_LIMIT: u64 = 274877906816;

/// The length from which the storage cipher refuses a store.
pub const STORE_REFUSED: u64 = 274877906880;

/// The longest password that a key can be derived from.
pub const MAX_PASSWORD_SIZE: u64 = 4294967295;

/// Whether the storage cipher has an answer for a store of this length. A few
/// lengths are neither refused nor covered by the keystream.
pub open spec fn store_answered(length: int) -> bool {
    length <= STORE_LIMIT || length >= STORE_REFUSED
}

/// The eight bytes that an encrypted store starts with: `GHSTLN01`.
pub open spec fn store_mark() -> Seq<u8> {
    seq![71u8, 72u8, 83u8, 84u8, 76u8, 78u8, 48u8, 49u8]
}

/// What an encrypted store starts with; the contents are bound to it.
pub open spec fn store_header(salt: Seq<u8>, nonce: Seq<u8>) -> Seq<u8> {
    store_mark() + salt + nonce
}

/// Declares the error of the key derivation.
#[verifier::external_type_specification]
#[verifier::external_body]
pub struct ExDerivationError(argon2::Error);

/// The key that `Argon2::default()` derives from a password and a salt.
pub uninterp spec fn storage_key(password: Seq<u8>, salt: Seq<u8>) -> Seq<u8>;

/// What `XChaCha20Poly1305` makes of a text, given a key, a nonce and a header
/// that is authenticated with it.
pub uninterp spec fn store_sealed(
    key: Seq<u8>,
    nonce: Seq<u8>,
    header: Seq<u8>,
    plaintext: Seq<u8>,
) -> Seq<u8>;

/// What `XChaCha20Poly1305` finds in a ciphertext, given a key, a nonce and
/// the header that was authenticated with it; nothing where the tag does not
/// fit.
pub uninterp spec fn store_opened(
    key: Seq<u8>,
    nonce: Seq<u8>,
    header: Seq<u8>,
    ciphertext: Seq<u8>,
) -> Option<Seq<u8>>;

/// Draws a salt with `OsRng::fill_bytes`. Nothing is promised of its bytes. It
/// panics where the operating system has no random bytes to give.
#[verifier::external_body]
fn random_salt() -> (salt: [u8; SALT_SIZE])
{
    let mut salt = [0u8; SALT_SIZE];
    chacha20poly1305::aead::OsRng.fill_bytes(&mut salt);
    salt
}

/// Draws a nonce with `XChaCha20Poly1305::generate_nonce`. Nothing is promised
/// of its bytes. It panics where the operating system has no random bytes to
/// give.
#[verifier::external_body]
fn random_store_nonce() -> (nonce: [u8; NONCE_SIZE])
{
    chacha20poly1305::XChaCha20Poly1305::generate_nonce(&mut chacha20poly1305::aead::OsRng).into()
}

/// Derives a key with `Argon2::hash_password_into` and the default parameters.
/// Only an overlong password is refused; the key is [`storage_key`].
#[verifier::external_body]
fn argon2_key(password: &[u8], salt: &[u8; SALT_SIZE]) -> (derived: Result<
    [u8; KEY_SIZE],
    argon2::Error,
>)
    ensures
        match derived {
            Ok(key) => password@.len() <= MAX_PASSWORD_SIZE && key@ == storage_key(
                password@,
                salt@,
            ),
            Err(_) => password@.len() > MAX_PASSWORD_SIZE,
        },
{
    let mut key = [0u8; KEY_SIZE];
    Argon2::default().hash_password_into(password, salt, &mut key)?;
    Ok(key)
}

/// Encrypts with `XChaCha20Poly1305` and its `encrypt`. Only an overlong text
/// is refused; the ciphertext is [`store_sealed`], longer by the tag, and the
/// same key, nonce and header open it.
#[verifier::external_body]
fn store_seal(
    key: &[u8; KEY_SIZE],
    nonce: &[u8; NONCE_SIZE],
    header: &[u8],
    plaintext: &[u8],
) -> (sealed: Result<Vec<u8>, chacha20poly1305::aead::Error>)
    requires
        header@.len() == HEADER_SIZE,
        plaintext@.len() + ENC_ADDED <= isize::MAX,
        store_answered(plaintext@.len() as int),
    ensures
        match sealed {
            Ok(ciphertext) => {
                &&& plaintext@.len() < STORE_REFUSED
                &&& ciphertext@ == store_sealed(key@, nonce@, header@, plaintext@)
                &&& ciphertext@.len() == plaintext@.len() + ENC_ADDED
                &&& store_opened(key@, nonce@, header@, ciphertext@) == Some(plaintext@)
            },
            Err(_) => plaintext@.len() >= STORE_REFUSED,
        },
{
    chacha20poly1305::XChaCha20Poly1305::new(key.into()).encrypt(
        nonce.into(),
        Payload { msg: plaintext, aad: header },
    )
}

/// Decrypts with `XChaCha20Poly1305` and its `decrypt`. The outcome is
/// [`store_opened`]; what is found is shorter by the tag. That a changed
/// ciphertext, or one made with another key, does not open rests on the
/// strength of the cipher and is not claimed.
#[verifier::external_body]
fn store_open(
    key: &[u8; KEY_SIZE],
    nonce: &[u8; NONCE_SIZE],
    header: &[u8],
    ciphertext: &[u8],
) -> (opened: Result<Vec<u8>, chacha20poly1305::aead::Error>)
    requires
        header@.len() == HEADER_SIZE,
        store_answered(ciphertext@.len() - ENC_ADDED),
    ensures
        match opened {
            Ok(plaintext) => {
                &&& store_opened(key@, nonce@, header@, ciphertext@) == Some(plaintext@)
                &&& plaintext@.len() + ENC_ADDED == ciphertext@.len()
            },
            Err(_) => store_opened(key@, nonce@, header@, ciphertext@) is None,
        },
{
    chacha20poly1305::XChaCha20Poly1305::new(key.into()).decrypt(
        nonce.into(),
        Payload { msg: ciphertext, aad: header },
    )
}

/// Why no key can be derived from this password, if none can.
pub open spec fn password_fault(password: Seq<u8>) -> Option<Failure> {
    if password.len() == 0 {
        Some(Failure::EmptyPassword)
    } else if password.len() > MAX_PASSWORD_SIZE {
        Some(Failure::PasswordTooLong)
    } else {
        None
    }
}

/// Whether `data` starts as an encrypted store does.
pub open spec fn marked_encrypted(data: Seq<u8>) -> bool {
    store_mark().is_prefix_of(data)
}

/// What `password` finds in `data`, or why it finds nothing.
pub open spec fn store_outcome(data: Seq<u8>, password: Seq<u8>) -> Result<Seq<u8>, Failure> {
    if !marked_encrypted(data) {
        Err(Failure::StoreNotEncrypted)
    } else if data.len() <= HEADER_SIZE {
        Err(Failure::StoreTruncated)
    } else if password_fault(password) is Some {
        Err(password_fault(password)->0)
    } else {
        match store_opened(
            storage_key(password, data.subrange(8, 24)),
            data.subrange(24, 48),
            data.take(48),
            data.skip(48),
        ) {
            Some(plaintext) => Ok(plaintext),
            None => Err(Failure::WrongPassword),
        }
    }
}

/// `data` is `plaintext`, encrypted under `nonce`, with everything that is
/// needed to open it but the password.
pub open spec fn store_image(
    key: Seq<u8>,
    salt: Seq<u8>,
    nonce: Seq<u8>,
    plaintext: Seq<u8>,
) -> Seq<u8> {
    store_header(salt, nonce) + store_sealed(key, nonce, store_header(salt, nonce), plaintext)
}

/// All that one cipher writes starts with the same mark and the same salt,
/// whatever the nonces and the contents.
pub proof fn images_share_mark_and_salt(
    key: Seq<u8>,
    salt: Seq<u8>,
    one_nonce: Seq<u8>,
    one: Seq<u8>,
    other_nonce: Seq<u8>,
    other: Seq<u8>,
)
    requires
        salt.len() == SALT_SIZE,
    ensures
        store_image(key, salt, one_nonce, one).take(24) == store_mark() + salt,
        store_image(key, salt, one_nonce, one).take(24) == store_image(
            key,
            salt,
            other_nonce,
            other,
        ).take(24),
{
    assert(store_image(key, salt, one_nonce, one).take(24) =~= store_mark() + salt);
    assert(store_image(key, salt, other_nonce, other).take(24) =~= store_mark() + salt);
}

/// Every password that gives `key` with `salt` finds `plaintext` in `data`.
pub open spec fn reopens(
    data: Seq<u8>,
    key: Seq<u8>,
    salt: Seq<u8>,
    plaintext: Seq<u8>,
) -> bool {
    forall|password: Seq<u8>|
        password_fault(password) is None && #[trigger] storage_key(password, salt) == key
            ==> store_outcome(data, password) == Ok::<Seq<u8>, Failure>(plaintext)
}

/// The mark of an encrypted store.
fn mark() -> (mark: [u8; 8])
    ensures
        mark@ == store_mark(),
{
    let mark: [u8; 8] = [71, 72, 83, 84, 76, 78, 48, 49];
    assert(mark@ =~= store_mark());
    mark
}

/// A key for the friend store and the salt that it was derived with. The key
/// is wiped when the cipher is dropped.
pub struct StorageCipher {
    key: [u8; KEY_SIZE],
    salt: [u8; SALT_SIZE],
}

impl StorageCipher {
    /// The key.
    pub closed spec fn key(&self) -> Seq<u8> {
        self.key@
    }

    /// The salt that the key was derived with.
    pub closed spec fn salt(&self) -> Seq<u8> {
        self.salt@
    }

    /// The key was derived from this password.
    pub open spec fn belongs_to(&self, password: Seq<u8>) -> bool {
        &&& self.salt().len() == SALT_SIZE
        &&& self.key() == storage_key(password, self.salt())
    }

    /// A key for this password, under a fresh random salt.
    pub fn new(password: &[u8]) -> (cipher: Result<Self, Failure>)
        ensures
            match cipher {
                Ok(cipher) => password_fault(password@) is None && cipher.belongs_to(password@),
                Err(failure) => password_fault(password@) == Some(failure),
            },
            cipher is Ok <==> 1 <= password@.len() <= 4294967295,
    {
        Self::derive(password, random_salt())
    }

    /// The key for this password under this salt.
    pub fn derive(password: &[u8], salt: [u8; SALT_SIZE]) -> (cipher: Result<Self, Failure>)
        ensures
            match cipher {
                Ok(cipher) => {
                    &&& password_fault(password@) is None
                    &&& cipher.belongs_to(password@)
                    &&& cipher.salt() == salt@
                },
                Err(failure) => password_fault(password@) == Some(failure),
            },
            cipher is Ok <==> 1 <= password@.len() <= 4294967295,
    {
        if password.len() == 0 {
            return Err(Failure::EmptyPassword);
        }
        match argon2_key(password, &salt) {
            Ok(key) => Ok(Self { key, salt }),
            Err(_) => Err(Failure::PasswordTooLong),
        }
    }

    /// Opens an encrypted store: the cipher to write it with again, and its
    /// contents.
    pub fn decrypt(data: &[u8], password: &[u8]) -> (opened: Result<(Self, Vec<u8>), Failure>)
        requires
            marked_encrypted(data@) ==> store_answered(data@.len() - HEADER_SIZE - ENC_ADDED),
        ensures
            match opened {
                Ok((cipher, plaintext)) => {
                    &&& store_outcome(data@, password@) == Ok::<Seq<u8>, Failure>(plaintext@)
                    &&& cipher.belongs_to(password@)
                    &&& cipher.salt() == data@.subrange(8, 24)
                },
                Err(failure) => store_outcome(data@, password@) == Err::<Seq<u8>, Failure>(
                    failure,
                ),
            },
    {
        if !Self::is_encrypted(data) {
            return Err(Failure::StoreNotEncrypted);
        }
        if data.len() <= HEADER_SIZE {
            return Err(Failure::StoreTruncated);
        }
        let salt: [u8; SALT_SIZE] = exact(vstd::slice::slice_subrange(data, 8, 24));
        let cipher: StorageCipher = Self::derive(password, salt)?;
        let nonce: [u8; NONCE_SIZE] = exact(vstd::slice::slice_subrange(data, 24, HEADER_SIZE));
        let header: &[u8] = vstd::slice::slice_subrange(data, 0, HEADER_SIZE);
        let sealed: &[u8] = vstd::slice::slice_subrange(data, HEADER_SIZE, data.len());
        proof {
            assert(header@ =~= data@.take(48));
            assert(sealed@ =~= data@.skip(48));
        }
        match store_open(&cipher.key, &nonce, header, sealed) {
            Ok(plaintext) => Ok((cipher, plaintext)),
            Err(_) => Err(Failure::WrongPassword),
        }
    }

    /// Encrypts the contents of a store under a fresh random nonce.
    pub fn encrypt(&self, plaintext: &[u8]) -> (sealed: Result<Vec<u8>, Failure>)
        requires
            HEADER_SIZE + plaintext@.len() + ENC_ADDED <= isize::MAX,
            store_answered(plaintext@.len() as int),
        ensures
            match sealed {
                Ok(data) => {
                    &&& plaintext@.len() < STORE_REFUSED
                    &&& data@ == store_image(
                        self.key(),
                        self.salt(),
                        data@.subrange(24, 48),
                        plaintext@,
                    )
                    &&& data@.len() == HEADER_SIZE + plaintext@.len() + ENC_ADDED
                    &&& marked_encrypted(data@)
                    &&& data@.subrange(8, 24) == self.salt()
                    &&& reopens(data@, self.key(), self.salt(), plaintext@)
                },
                Err(failure) => {
                    &&& plaintext@.len() >= STORE_REFUSED
                    &&& failure == Failure::StoreEncryptionFailed
                },
            },
    {
        let nonce: [u8; NONCE_SIZE] = random_store_nonce();
        let sealed: Result<Vec<u8>, Failure> = self.encrypt_with_nonce(&nonce, plaintext);
        proof {
            if sealed is Ok {
                assert(sealed->Ok_0@.subrange(24, 48) =~= nonce@);
            }
        }
        sealed
    }

    /// Encrypts the contents of a store under a given nonce.
    pub fn encrypt_with_nonce(&self, nonce: &[u8; NONCE_SIZE], plaintext: &[u8]) -> (sealed: Result<
        Vec<u8>,
        Failure,
    >)
        requires
            HEADER_SIZE + plaintext@.len() + ENC_ADDED <= isize::MAX,
            store_answered(plaintext@.len() as int),
        ensures
            match sealed {
                Ok(data) => {
                    &&& plaintext@.len() < STORE_REFUSED
                    &&& data@ == store_image(self.key(), self.salt(), nonce@, plaintext@)
                    &&& store_header(self.salt(), nonce@).len() == HEADER_SIZE
                    &&& data@.len() == HEADER_SIZE + plaintext@.len() + ENC_ADDED
                    &&& marked_encrypted(data@)
                    &&& data@.subrange(8, 24) == self.salt()
                    &&& reopens(data@, self.key(), self.salt(), plaintext@)
                },
                Err(failure) => {
                    &&& plaintext@.len() >= STORE_REFUSED
                    &&& failure == Failure::StoreEncryptionFailed
                },
            },
    {
        let mut output: Vec<u8> = Vec::with_capacity(HEADER_SIZE + plaintext.len() + ENC_ADDED);
        extend(&mut output, &mark());
        extend(&mut output, &self.salt);
        extend(&mut output, nonce);
        let ghost header = store_header(self.salt(), nonce@);
        assert(output@ =~= header);
        match store_seal(&self.key, nonce, output.as_slice(), plaintext) {
            Ok(ciphertext) => {
                extend(&mut output, ciphertext.as_slice());
                proof {
                    assert(output@.subrange(8, 24) =~= self.salt());
                    assert(output@.subrange(24, 48) =~= nonce@);
                    assert(output@.take(48) =~= header);
                    assert(output@.skip(48) =~= ciphertext@);
                }
                Ok(output)
            },
            Err(_) => Err(Failure::StoreEncryptionFailed),
        }
    }

    /// Whether `data` starts as an encrypted store does.
    pub fn is_encrypted(data: &[u8]) -> (encrypted: bool)
        ensures
            encrypted == marked_encrypted(data@),
    {
        if data.len() < 8 {
            return false;
        }
        let start: &[u8] = vstd::slice::slice_subrange(data, 0, 8);
        proof {
            if start@ == store_mark() {
                assert(marked_encrypted(data@));
            } else if marked_encrypted(data@) {
                assert(start@ =~= store_mark());
            }
        }
        same_bytes(start, &mark())
    }
}

impl Drop for StorageCipher {
    fn drop(&mut self)
        ensures
            final(self).key() == Seq::new(KEY_SIZE as nat, |i: int| 0u8),
        opens_invariants none
        no_unwind
    {
        wipe(&mut self.key);
    }
}

/// The storage password, given the value that the environment has for it, if
/// it has one. An empty one is refused.
pub fn storage_password_from_env(value: Option<String>) -> (password: Result<
    Option<String>,
    Failure,
>)
    ensures
        match value {
            Some(text) if text@.len() == 0 => password == Err::<Option<String>, Failure>(
                Failure::EmptyEnvironmentPassword,
            ),
            _ => password == Ok::<Option<String>, Failure>(value),
        },
{
    match value {
        Some(text) => {
            if text.as_str().unicode_len() == 0 {
                Err(Failure::EmptyEnvironmentPassword)
            } else {
                Ok(Some(text))
            }
        },
        None => Ok(None),
    }
}

/// A key can be derived from every password of 1 to 4294967295 bytes and from
/// no other: an empty one and a longer one are each refused by name.
pub proof fn passwords_are_judged_by_length(password: Seq<u8>)
    ensures
        1 <= password.len() <= 4294967295 <==> password_fault(password) is None,
        password.len() == 0 <==> password_fault(password) == Some(Failure::EmptyPassword),
        password.len() > 4294967295 <==> password_fault(password) == Some(
            Failure::PasswordTooLong,
        ),
{
}

/// An encrypted store is known by its first eight bytes, `GHSTLN01`, whatever
/// follows them.
pub proof fn stores_are_known_by_their_mark(data: Seq<u8>)
    ensures
        marked_encrypted(data) <==> data.len() >= 8 && data[0] == 71 && data[1] == 72 && data[2]
            == 83 && data[3] == 84 && data[4] == 76 && data[5] == 78 && data[6] == 48 && data[7]
            == 49,
{
    if data.len() >= 8 && data[0] == 71 && data[1] == 72 && data[2] == 83 && data[3] == 84
        && data[4] == 76 && data[5] == 78 && data[6] == 48 && data[7] == 49 {
        assert(store_mark() =~= data.take(8));
        assert(marked_encrypted(data));
    } else if marked_encrypted(data) {
        let mark = store_mark();
        assert(mark =~= data.take(8));
        assert(data[0] == mark[0] && data[1] == mark[1] && data[2] == mark[2] && data[3]
            == mark[3]);
        assert(data[4] == mark[4] && data[5] == mark[5] && data[6] == mark[6] && data[7]
            == mark[7]);
    }
}

/// Whatever the cipher finds in the part behind the header, under the key of
/// the password and the salt in the header, is what is found in the store: for
/// every password of an accepted length, and contents of every length. Where
/// the cipher finds nothing, the password is refused.
pub proof fn stores_open_as_the_cipher_opens_them(
    salt: Seq<u8>,
    nonce: Seq<u8>,
    sealed: Seq<u8>,
    password: Seq<u8>,
)
    requires
        salt.len() == 16,
        nonce.len() == 24,
        sealed.len() > 0,
        1 <= password.len() <= 4294967295,
    ensures
        ({
            let mark = seq![71u8, 72u8, 83u8, 84u8, 76u8, 78u8, 48u8, 49u8];
            let header = mark + salt + nonce;
            store_outcome(header + sealed, password) == match store_opened(
                storage_key(password, salt),
                nonce,
                header,
                sealed,
            ) {
                Some(contents) => Ok::<Seq<u8>, Failure>(contents),
                None => Err(Failure::WrongPassword),
            }
        }),
{
    let mark = seq![71u8, 72u8, 83u8, 84u8, 76u8, 78u8, 48u8, 49u8];
    let header = mark + salt + nonce;
    let data = header + sealed;
    stores_are_known_by_their_mark(data);
    assert(data[0] == 71 && data[1] == 72 && data[2] == 83 && data[3] == 84);
    assert(data[4] == 76 && data[5] == 78 && data[6] == 48 && data[7] == 49);
    assert(data.subrange(8, 24) =~= salt);
    assert(data.subrange(24, 48) =~= nonce);
    assert(data.take(48) =~= header);
    assert(data.skip(48) =~= sealed);
}

/// Data without the mark is refused whatever the password, data that ends with
/// its header before the password is looked at, and an empty password before
/// anything is opened.
pub proof fn stores_are_refused_in_order(data: Seq<u8>, password: Seq<u8>)
    ensures
        !marked_encrypted(data) <==> store_outcome(data, password) == Err::<Seq<u8>, Failure>(
            Failure::StoreNotEncrypted,
        ),
        marked_encrypted(data) && data.len() <= 48 <==> store_outcome(data, password) == Err::<
            Seq<u8>,
            Failure,
        >(Failure::StoreTruncated),
        marked_encrypted(data) && data.len() > 48 && password.len() == 0 <==> store_outcome(
            data,
            password,
        ) == Err::<Seq<u8>, Failure>(Failure::EmptyPassword),
{
}

/// What was encrypted under the key of a password of any accepted length is
/// found with that password.
pub proof fn passwords_reopen_what_they_locked(
    data: Seq<u8>,
    password: Seq<u8>,
    salt: Seq<u8>,
    contents: Seq<u8>,
)
    requires
        1 <= password.len() <= 4294967295,
        reopens(data, storage_key(password, salt), salt, contents),
    ensures
        store_outcome(data, password) == Ok::<Seq<u8>, Failure>(contents),
{
    assert(storage_key(password, salt) == storage_key(password, salt));
}

/// What a cipher writes is the mark, the salt, the nonce and what the message
/// cipher makes of the contents, bound to the three.
pub proof fn images_hold_what_opening_needs(
    key: Seq<u8>,
    salt: Seq<u8>,
    nonce: Seq<u8>,
    contents: Seq<u8>,
)
    requires
        salt.len() == 16,
        nonce.len() == 24,
    ensures
        ({
            let image = store_image(key, salt, nonce, contents);
            &&& image.take(8) == seq![71u8, 72u8, 83u8, 84u8, 76u8, 78u8, 48u8, 49u8]
            &&& image.subrange(8, 24) == salt
            &&& image.subrange(24, 48) == nonce
            &&& image.skip(48) == store_sealed(key, nonce, image.take(48), contents)
        }),
{
    let image = store_image(key, salt, nonce, contents);
    assert(image.take(48) =~= store_header(salt, nonce));
    assert(image.take(8) =~= seq![71u8, 72u8, 83u8, 84u8, 76u8, 78u8, 48u8, 49u8]);
    assert(image.subrange(8, 24) =~= salt);
    assert(image.subrange(24, 48) =~= nonce);
    assert(image.skip(48) =~= store_sealed(key, nonce, store_header(salt, nonce), contents));
}

/// The storage cipher answers for stores of all lengths but the 63 between what
/// its keystream covers and what it refuses.
pub proof fn stores_of_almost_every_length_are_answered(length: int)
    ensures
        store_answered(length) <==> !(274877906816 < length < 274877906880),
{
}

/// Contents that were encrypted under a password of 1 to 4294967295 bytes come
/// back whole with that password, whatever they are, and the cipher that comes
/// back has the same key and salt.
pub proof fn encrypted_contents_come_back(
    password: &[u8],
    made: Result<StorageCipher, Failure>,
    plaintext: &[u8],
    sealed: Result<Vec<u8>, Failure>,
    data: &[u8],
    opened: Result<(StorageCipher, Vec<u8>), Failure>,
)
    requires
        1 <= password@.len() <= 4294967295,
        plaintext@.len() <= 274877906816,
        call_ensures(StorageCipher::new, (password,), made),
        made is Ok ==> call_ensures(StorageCipher::encrypt, (&made->Ok_0, plaintext), sealed),
        sealed is Ok ==> data@ == sealed->Ok_0@,
        call_ensures(StorageCipher::decrypt, (data, password), opened),
    ensures
        made is Ok,
        sealed is Ok,
        opened is Ok,
        opened->Ok_0.1@ == plaintext@,
        opened->Ok_0.0.key() == made->Ok_0.key(),
        opened->Ok_0.0.salt() == made->Ok_0.salt(),
{
    let cipher = made->Ok_0;
    assert(storage_key(password@, cipher.salt()) == cipher.key());
}

/// A password from the environment is taken as it is, whatever it is, but an
/// empty one; without one there is none.
pub proof fn passwords_come_from_the_environment_as_they_are(
    value: Option<String>,
    password: Result<Option<String>, Failure>,
)
    requires
        call_ensures(storage_password_from_env, (value,), password),
    ensures
        password is Err <==> value is Some && value->0@.len() == 0,
        password is Ok ==> password->Ok_0 == value,
{
}

} // verus!
