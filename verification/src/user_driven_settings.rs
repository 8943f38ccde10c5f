//! Profiles: a name, a picture and a biography in fields of fixed size, and how
//! two clients show them to each other.

use std::marker::PhantomData;
use vstd::prelude::*;
use vstd::utf8;
use crate::bytes;
use crate::bytes::{exact, extend, fixed, ByteStream};
use crate::encryption;
use crate::encryption::{Encryption, KEY_SIZE, NONCE_SIZE};
use crate::failure::Failure;
use crate::protocol;
use crate::protocol::{
    take_frame, FrameKind, Operation, UserId, BIO_LEN, NAME_LEN, PIC_SIZE, PROFILE_SIZE,
    USER_ID_SIZE,
};
use crate::text::decoded;

verus! {

broadcast use vstd::array::group_array_axioms;

/// How many bytes stand before the first zero.
pub open spec fn unpadded_length(field: Seq<u8>) -> nat
    decreases field.len(),
{
    if field.len() == 0 || field[0] == 0 {
        0
    } else {
        1 + unpadded_length(field.skip(1))
    }
}

/// A field without the zero that ends it and what follows.
pub open spec fn unpadded_part(field: Seq<u8>) -> Seq<u8> {
    field.take(unpadded_length(field) as int)
}

/// The length before the first zero is the only one with nothing but other
/// bytes before it and with a zero or the end after it.
proof fn first_zero_is_unique(field: Seq<u8>, length: nat)
    requires
        length <= field.len(),
        forall|i: int| 0 <= i < length ==> field[i] != 0,
        length == field.len() || field[length as int] == 0,
    ensures
        unpadded_length(field) == length,
    decreases field.len(),
{
    if length > 0 {
        let rest = field.skip(1);
        assert forall|i: int| 0 <= i < length - 1 implies rest[i] != 0 by {
            assert(rest[i] == field[i + 1]);
        }
        first_zero_is_unique(rest, (length - 1) as nat);
    }
}

/// What was padded to fill a field comes out of it again, where it holds no
/// zero itself.
pub proof fn padding_round_trips(contents: Seq<u8>, width: nat)
    requires
        contents.len() <= width,
        forall|i: int| 0 <= i < contents.len() ==> contents[i] != 0,
    ensures
        unpadded_part(bytes::padded(contents, width)) == contents,
{
    let field = bytes::padded(contents, width);
    assert forall|i: int| 0 <= i < contents.len() implies field[i] != 0 by {
        assert(field[i] == contents[i]);
    }
    first_zero_is_unique(field, contents.len());
    assert(unpadded_part(field) =~= contents);
}

/// The part of a field before its first zero.
pub fn unpadded(field: &[u8]) -> (part: &[u8])
    ensures
        part@ == unpadded_part(field@),
{
    let mut length: usize = 0;
    while length < field.len() && field[length] != 0
        invariant
            length <= field.len(),
            forall|i: int| 0 <= i < length ==> field@[i] != 0,
        decreases field.len() - length,
    {
        length += 1;
    }
    proof {
        first_zero_is_unique(field@, length as nat);
        assert(field@.subrange(0, length as int) =~= field@.take(length as int));
    }
    vstd::slice::slice_subrange(field, 0, length)
}

/// Marks the user's own profile.
#[derive(Clone, Copy, Debug)]
pub struct Mine;

/// Marks somebody else's profile.
#[derive(Clone, Copy, Debug)]
pub struct Friend;

/// What a profile says, field by field.
pub struct Profile {
    pub user_id: Seq<u8>,
    pub name: Seq<u8>,
    pub picture: Seq<u8>,
    pub bio: Seq<u8>,
}

/// A profile: whose it is, and its fields, padded with zeros.
#[derive(Debug, Hash)]
pub struct Settings<Person> {
    pub user_id: UserId,
    pub name: [u8; NAME_LEN],
    pub picture: [u8; PIC_SIZE],
    pub bio: [u8; BIO_LEN],
    pub _person: PhantomData<Person>,
}

impl<Person> View for Settings<Person> {
    type V = Profile;

    open spec fn view(&self) -> Profile {
        Profile {
            user_id: self.user_id@,
            name: self.name@,
            picture: self.picture@,
            bio: self.bio@,
        }
    }
}

impl<Person> Clone for Settings<Person> {
    fn clone(&self) -> (copy: Self)
        ensures
            copy@ == self@,
    {
        Self::from_fields(self.user_id, self.name, self.picture, self.bio)
    }
}

impl<Person> Settings<Person> {
    /// The profile with these fields.
    pub fn from_fields(
        user_id: UserId,
        name: [u8; NAME_LEN],
        picture: [u8; PIC_SIZE],
        bio: [u8; BIO_LEN],
    ) -> (settings: Self)
        ensures
            settings.user_id == user_id,
            settings.name == name,
            settings.picture == picture,
            settings.bio == bio,
    {
        Self { user_id, name, picture, bio, _person: PhantomData }
    }

    /// The name as a text, or nothing where it is not valid UTF-8.
    pub fn checked_name(&self) -> (name: Option<String>)
        ensures
            match name {
                Some(name) => utf8::valid_utf8(unpadded_part(self.name@)) && name@
                    == utf8::decode_utf8(unpadded_part(self.name@)),
                None => !utf8::valid_utf8(unpadded_part(self.name@)),
            },
    {
        let mut name: Vec<u8> = Vec::new();
        extend(&mut name, unpadded(&self.name));
        assert(name@ =~= unpadded_part(self.name@));
        decoded(name)
    }

    /// The name as a text.
    pub fn name_to_string(&self) -> (name: String)
        requires
            utf8::valid_utf8(unpadded_part(self.name@)),
        ensures
            name@ == utf8::decode_utf8(unpadded_part(self.name@)),
    {
        match self.checked_name() {
            Some(name) => name,
            None => String::new(),
        }
    }

    /// The picture, without padding.
    pub fn picture(&self) -> (picture: &[u8])
        ensures
            picture@ == unpadded_part(self.picture@),
    {
        unpadded(&self.picture)
    }

    /// The biography, without padding.
    pub fn bio(&self) -> (bio: &[u8])
        ensures
            bio@ == unpadded_part(self.bio@),
    {
        unpadded(&self.bio)
    }
}

/// How a client shows its profile: whose it is, then the name, the biography
/// and the picture, each encrypted, after its nonce.
pub open spec fn profile_frame(
    user_id: Seq<u8>,
    name_nonce: Seq<u8>,
    name: Seq<u8>,
    bio_nonce: Seq<u8>,
    bio: Seq<u8>,
    picture_nonce: Seq<u8>,
    picture: Seq<u8>,
) -> Seq<u8> {
    seq![protocol::operation_code(Operation::ShowMyData)] + user_id + name_nonce + name + bio_nonce
        + bio + picture_nonce + picture
}

/// The profile that the owner of `private` reads from the front of `input`,
/// sent by the owner of `friend`, or why there is none.
pub open spec fn profile_outcome(input: Seq<u8>, private: Seq<u8>, friend: Seq<u8>) -> Result<
    Profile,
    Failure,
> {
    match protocol::frame_length(FrameKind::Profile, input) {
        Err(failure) => Err(failure),
        Ok(_) => opened_profile(
            input.subrange(1, 17),
            encryption::box_opened(
                private,
                friend,
                input.subrange(17, 41),
                input.subrange(41, 87),
            ),
            encryption::box_opened(
                private,
                friend,
                input.subrange(87, 111),
                input.subrange(111, 377),
            ),
            encryption::box_opened(
                private,
                friend,
                input.subrange(377, 401),
                input.subrange(401, 8097),
            ),
        ),
    }
}

/// What is made of the decrypted fields of a profile: they are looked at in
/// this order, and each must be there and fill its field.
pub open spec fn opened_profile(
    user_id: Seq<u8>,
    name: Option<Seq<u8>>,
    bio: Option<Seq<u8>>,
    picture: Option<Seq<u8>>,
) -> Result<Profile, Failure> {
    if name is None {
        Err(Failure::DecryptionFailed)
    } else if name->0.len() != NAME_LEN {
        Err(Failure::NameLength)
    } else if bio is None {
        Err(Failure::DecryptionFailed)
    } else if bio->0.len() != BIO_LEN {
        Err(Failure::BioLength)
    } else if picture is None {
        Err(Failure::DecryptionFailed)
    } else if picture->0.len() != PIC_SIZE {
        Err(Failure::PictureLength)
    } else {
        Ok(Profile { user_id, name: name->0, picture: picture->0, bio: bio->0 })
    }
}

/// `frame` shows `profile` from the owner of `private` to the owner of
/// `friend`: each field is encrypted between them under some nonce.
pub open spec fn shows(frame: Seq<u8>, private: Seq<u8>, friend: Seq<u8>, profile: Profile) -> bool {
    exists|name_nonce: Seq<u8>, bio_nonce: Seq<u8>, picture_nonce: Seq<u8>|
        name_nonce.len() == NONCE_SIZE && bio_nonce.len() == NONCE_SIZE && picture_nonce.len()
            == NONCE_SIZE && frame == profile_frame(
            profile.user_id,
            name_nonce,
            #[trigger] encryption::box_sealed(private, friend, name_nonce, profile.name),
            bio_nonce,
            #[trigger] encryption::box_sealed(private, friend, bio_nonce, profile.bio),
            picture_nonce,
            #[trigger] encryption::box_sealed(private, friend, picture_nonce, profile.picture),
        )
}

/// Whoever holds the secret key of `friend` reads `profile` from `frame`, sent
/// by the owner of `private`, whatever follows it.
pub open spec fn introduces(
    frame: Seq<u8>,
    private: Seq<u8>,
    friend: Seq<u8>,
    profile: Profile,
) -> bool {
    forall|recipient: Seq<u8>, more: Seq<u8>|
        recipient.len() == KEY_SIZE && encryption::public_key_of(recipient) == friend
            ==> #[trigger] profile_outcome(
            frame + more,
            recipient,
            encryption::public_key_of(private),
        ) == Ok::<Profile, Failure>(profile)
}

impl Settings<Mine> {
    /// The user's own profile, as it is configured.
    pub fn new(user_id: UserId, name: &str, picture: &str, bio: &str) -> (settings: Self)
        requires
            utf8::encode_utf8(name@).len() <= NAME_LEN,
            utf8::encode_utf8(picture@).len() <= PIC_SIZE,
            utf8::encode_utf8(bio@).len() <= BIO_LEN,
        ensures
            settings@ == (Profile {
                user_id: user_id@,
                name: bytes::padded(utf8::encode_utf8(name@), NAME_LEN as nat),
                picture: bytes::padded(utf8::encode_utf8(picture@), PIC_SIZE as nat),
                bio: bytes::padded(utf8::encode_utf8(bio@), BIO_LEN as nat),
            }),
    {
        let name: [u8; NAME_LEN] = fixed(name.as_bytes());
        let picture: [u8; PIC_SIZE] = fixed(picture.as_bytes());
        let bio: [u8; BIO_LEN] = fixed(bio.as_bytes());
        Self::from_fields(user_id, name, picture, bio)
    }

    /// Appends this profile, encrypted to the other side of `encryption`, who
    /// reads the same profile from it.
    pub fn share(&mut self, stream: &mut Vec<u8>, encryption: &mut Encryption) -> (shared: Result<
        (),
        Failure,
    >)
        ensures
            shared is Ok,
            *final(self) == *old(self),
            *final(encryption) == *old(encryption),
            ({
                let frame = final(stream)@.skip(old(stream)@.len() as int);
                &&& final(stream)@ == old(stream)@ + frame
                &&& frame.len() == PROFILE_SIZE
                &&& shows(frame, old(encryption).private(), old(encryption).friend(), old(self)@)
                &&& introduces(
                    frame,
                    old(encryption).private(),
                    old(encryption).friend(),
                    old(self)@,
                )
            }),
    {
        let (name_nonce, name): ([u8; NONCE_SIZE], Vec<u8>) = encryption.encrypt(&self.name)?;
        let (bio_nonce, bio): ([u8; NONCE_SIZE], Vec<u8>) = encryption.encrypt(&self.bio)?;
        let (picture_nonce, picture): ([u8; NONCE_SIZE], Vec<u8>) = encryption.encrypt(
            &self.picture,
        )?;

        stream.push(Operation::ShowMyData.code());
        self.user_id.write_to(stream);
        extend(stream, &name_nonce);
        extend(stream, name.as_slice());
        extend(stream, &bio_nonce);
        extend(stream, bio.as_slice());
        extend(stream, &picture_nonce);
        extend(stream, picture.as_slice());
        proof {
            let private = old(encryption).private();
            let friend = old(encryption).friend();
            let frame = profile_frame(
                self.user_id@,
                name_nonce@,
                name@,
                bio_nonce@,
                bio@,
                picture_nonce@,
                picture@,
            );
            protocol::user_id_is_its_bytes(self.user_id, self.user_id);
            assert(stream@.skip(old(stream)@.len() as int) =~= frame);
            assert(name@ == encryption::box_sealed(private, friend, name_nonce@, self@.name));
            assert(bio@ == encryption::box_sealed(private, friend, bio_nonce@, self@.bio));
            assert(picture@ == encryption::box_sealed(
                private,
                friend,
                picture_nonce@,
                self@.picture,
            ));
            assert(shows(frame, private, friend, self@));
            assert forall|recipient: Seq<u8>, more: Seq<u8>|
                recipient.len() == KEY_SIZE && encryption::public_key_of(recipient)
                    == friend implies #[trigger] profile_outcome(
                frame + more,
                recipient,
                encryption::public_key_of(private),
            ) == Ok::<Profile, Failure>(self@) by {
                let input = frame + more;
                assert(input.subrange(1, 17) =~= self.user_id@);
                assert(input.subrange(17, 41) =~= name_nonce@);
                assert(input.subrange(41, 87) =~= name@);
                assert(input.subrange(87, 111) =~= bio_nonce@);
                assert(input.subrange(111, 377) =~= bio@);
                assert(input.subrange(377, 401) =~= picture_nonce@);
                assert(input.subrange(401, 8097) =~= picture@);
            }
        }
        Ok(())
    }
}

impl Settings<Friend> {
    /// A friend's profile with these contents.
    pub fn from_parts(user_id: UserId, name: &[u8], picture: &[u8], bio: &[u8]) -> (settings: Self)
        requires
            name@.len() <= NAME_LEN,
            picture@.len() <= PIC_SIZE,
            bio@.len() <= BIO_LEN,
        ensures
            settings@ == (Profile {
                user_id: user_id@,
                name: bytes::padded(name@, NAME_LEN as nat),
                picture: bytes::padded(picture@, PIC_SIZE as nat),
                bio: bytes::padded(bio@, BIO_LEN as nat),
            }),
    {
        let name: [u8; NAME_LEN] = fixed(name);
        let picture: [u8; PIC_SIZE] = fixed(picture);
        let bio: [u8; BIO_LEN] = fixed(bio);
        Self::from_fields(user_id, name, picture, bio)
    }

    /// Takes the other side's profile off the stream.
    pub fn read_friend(stream: &mut ByteStream, encryption: &mut Encryption) -> (settings: Result<
        Self,
        Failure,
    >)
        ensures
            match settings {
                Ok(settings) => profile_outcome(
                    old(stream)@,
                    old(encryption).private(),
                    old(encryption).friend(),
                ) == Ok::<Profile, Failure>(settings@),
                Err(failure) => profile_outcome(
                    old(stream)@,
                    old(encryption).private(),
                    old(encryption).friend(),
                ) == Err::<Profile, Failure>(failure),
            },
            *final(encryption) == *old(encryption),
            final(stream)@ == old(stream)@.skip(
                protocol::consumed_length(FrameKind::Profile, old(stream)@) as int,
            ),
    {
        let frame: Vec<u8> = take_frame(FrameKind::Profile, stream)?;
        let bytes: &[u8] = frame.as_slice();
        proof {
            let input = old(stream)@;
            assert(bytes@.subrange(1, 17) =~= input.subrange(1, 17));
            assert(bytes@.subrange(17, 41) =~= input.subrange(17, 41));
            assert(bytes@.subrange(41, 87) =~= input.subrange(41, 87));
            assert(bytes@.subrange(87, 111) =~= input.subrange(87, 111));
            assert(bytes@.subrange(111, 377) =~= input.subrange(111, 377));
            assert(bytes@.subrange(377, 401) =~= input.subrange(377, 401));
            assert(bytes@.subrange(401, 8097) =~= input.subrange(401, 8097));
        }
        let user_id: [u8; USER_ID_SIZE] = exact(vstd::slice::slice_subrange(bytes, 1, 17));
        let name_nonce: [u8; NONCE_SIZE] = exact(vstd::slice::slice_subrange(bytes, 17, 41));
        let bio_nonce: [u8; NONCE_SIZE] = exact(vstd::slice::slice_subrange(bytes, 87, 111));
        let picture_nonce: [u8; NONCE_SIZE] = exact(vstd::slice::slice_subrange(bytes, 377, 401));

        let name: Vec<u8> = encryption.decrypt(
            &name_nonce,
            vstd::slice::slice_subrange(bytes, 41, 87),
        )?;
        if name.len() != NAME_LEN {
            return Err(Failure::NameLength);
        }
        let bio: Vec<u8> = encryption.decrypt(
            &bio_nonce,
            vstd::slice::slice_subrange(bytes, 111, 377),
        )?;
        if bio.len() != BIO_LEN {
            return Err(Failure::BioLength);
        }
        let picture: Vec<u8> = encryption.decrypt(
            &picture_nonce,
            vstd::slice::slice_subrange(bytes, 401, 8097),
        )?;
        if picture.len() != PIC_SIZE {
            return Err(Failure::PictureLength);
        }
        Ok(
            Self::from_fields(
                UserId::from_bytes(user_id),
                exact(name.as_slice()),
                exact(picture.as_slice()),
                exact(bio.as_slice()),
            ),
        )
    }
}

/// What is left of a field is the part before its first zero, and all of it
/// where it holds none: whatever the field holds, also behind a zero.
pub proof fn fields_end_at_their_first_zero(field: Seq<u8>)
    ensures
        unpadded_part(field).is_prefix_of(field),
        forall|i: int|
            0 <= i < unpadded_part(field).len() ==> #[trigger] unpadded_part(field)[i] != 0,
        unpadded_part(field).len() < field.len() ==> field[unpadded_part(field).len() as int] == 0,
{
    first_zero_is_found(field);
    let part = unpadded_part(field);
    assert(part =~= field.take(part.len() as int));
}

/// What the length before the first zero says of a field.
proof fn first_zero_is_found(field: Seq<u8>)
    ensures
        unpadded_length(field) <= field.len(),
        forall|i: int| 0 <= i < unpadded_length(field) ==> #[trigger] field[i] != 0,
        unpadded_length(field) < field.len() ==> field[unpadded_length(field) as int] == 0,
    decreases field.len(),
{
    if field.len() > 0 && field[0] != 0 {
        let rest = field.skip(1);
        first_zero_is_found(rest);
        assert forall|i: int| 0 <= i < unpadded_length(field) implies #[trigger] field[i] != 0 by {
            if i > 0 {
                assert(rest[i - 1] == field[i]);
            }
        }
    }
}

/// A profile is read exactly where the cipher finds all three fields, whatever
/// they hold, and says of each what was found; where it finds one of them not,
/// the profile is refused.
pub proof fn profiles_open_as_the_cipher_opens_them(
    user_id: Seq<u8>,
    nonces: Seq<Seq<u8>>,
    name: Seq<u8>,
    bio: Seq<u8>,
    picture: Seq<u8>,
    more: Seq<u8>,
    private: Seq<u8>,
    friend: Seq<u8>,
)
    requires
        user_id.len() == 16,
        nonces.len() == 3,
        nonces[0].len() == 24,
        nonces[1].len() == 24,
        nonces[2].len() == 24,
        name.len() == 46,
        bio.len() == 266,
        picture.len() == 7696,
    ensures
        ({
            let input = seq![4u8] + user_id + nonces[0] + name + nonces[1] + bio + nonces[2]
                + picture + more;
            let outcome = profile_outcome(input, private, friend);
            let found_name = encryption::box_opened(private, friend, nonces[0], name);
            let found_bio = encryption::box_opened(private, friend, nonces[1], bio);
            let found_picture = encryption::box_opened(private, friend, nonces[2], picture);
            &&& found_name is Some && found_name->0.len() == 30 && found_bio is Some
                && found_bio->0.len() == 250 && found_picture is Some && found_picture->0.len()
                == 7680 <==> outcome is Ok
            &&& outcome is Ok ==> outcome->Ok_0.user_id == user_id && outcome->Ok_0.name
                == found_name->0 && outcome->Ok_0.bio == found_bio->0 && outcome->Ok_0.picture
                == found_picture->0
            &&& found_name is None ==> outcome == Err::<Profile, Failure>(Failure::DecryptionFailed)
            &&& found_name is Some && found_name->0.len() == 30 && found_bio is None ==> outcome
                == Err::<Profile, Failure>(Failure::DecryptionFailed)
            &&& found_name is Some && found_name->0.len() == 30 && found_bio is Some
                && found_bio->0.len() == 250 && found_picture is None ==> outcome == Err::<
                Profile,
                Failure,
            >(Failure::DecryptionFailed)
        }),
{
    let input = seq![4u8] + user_id + nonces[0] + name + nonces[1] + bio + nonces[2] + picture
        + more;
    assert(input.subrange(1, 17) =~= user_id);
    assert(input.subrange(17, 41) =~= nonces[0]);
    assert(input.subrange(41, 87) =~= name);
    assert(input.subrange(87, 111) =~= nonces[1]);
    assert(input.subrange(111, 377) =~= bio);
    assert(input.subrange(377, 401) =~= nonces[2]);
    assert(input.subrange(401, 8097) =~= picture);
    assert(input[0] == 4);
}

/// A configured name without a zero character comes back from the profile as it
/// was configured, up to the full width of its field.
pub proof fn configured_names_come_back(
    user_id: UserId,
    name: &str,
    picture: &str,
    bio: &str,
    settings: Settings<Mine>,
    shown: String,
)
    requires
        utf8::encode_utf8(name@).len() <= 30,
        forall|i: int|
            0 <= i < utf8::encode_utf8(name@).len() ==> utf8::encode_utf8(name@)[i] != 0,
        call_ensures(Settings::<Mine>::new, (user_id, name, picture, bio), settings),
        call_ensures(Settings::<Mine>::name_to_string, (&settings,), shown),
    ensures
        settings.user_id@ == user_id@,
        shown@ == name@,
{
    let text = utf8::encode_utf8(name@);
    padding_round_trips(text, 30);
    utf8::encode_utf8_valid_utf8(name@);
    utf8::encode_utf8_decode_utf8(name@);
    assert(settings@.name == settings.name@);
    assert(settings@.user_id == settings.user_id@);
}

} // verus!
