//! The user's own ID, which is drawn once and then stays.

use vstd::prelude::*;
use crate::bytes::exact;
use crate::failure;
use crate::failure::Failure;
use crate::protocol;
use crate::protocol::{UserId, USER_ID_SIZE};
use crate::text::joined;

verus! {

broadcast use vstd::array::group_array_axioms;

/// Why there is no user ID.
#[derive(Clone, Copy, Debug, PartialEq, Eq)]
pub enum UserIdFailure {
    /// The file of the user ID is of another size.
    InvalidLength,
    /// A new user ID could not be drawn.
    NotDrawn(Failure),
}

impl UserIdFailure {
    /// What the user is told about it; `path` is where the user ID is stored.
    pub fn message(&self, path: &str) -> (text: String)
        ensures
            match self {
                UserIdFailure::InvalidLength => text@ == "stored user ID at "@ + path@
                    + " has an invalid length"@,
                UserIdFailure::NotDrawn(cause) => !(cause is Random) ==> text@
                    == failure::failure_text(*cause),
            },
    {
        match self {
            UserIdFailure::InvalidLength => {
                let mut text: String = joined("stored user ID at ", path);
                text.append(" has an invalid length");
                text
            },
            UserIdFailure::NotDrawn(cause) => cause.message(),
        }
    }
}

/// The user ID that a file holds: the file is its bytes and nothing else.
pub open spec fn stored_user_id(contents: Seq<u8>) -> Result<Seq<u8>, UserIdFailure> {
    if contents.len() == USER_ID_SIZE {
        Ok(contents)
    } else {
        Err(UserIdFailure::InvalidLength)
    }
}

/// The user ID that the contents of its file hold.
pub fn read_user_id(contents: &[u8]) -> (id: Result<UserId, UserIdFailure>)
    ensures
        match id {
            Ok(id) => stored_user_id(contents@) == Ok::<Seq<u8>, UserIdFailure>(id@),
            Err(failure) => stored_user_id(contents@) == Err::<Seq<u8>, UserIdFailure>(failure),
        },
{
    if contents.len() != USER_ID_SIZE {
        return Err(UserIdFailure::InvalidLength);
    }
    Ok(UserId::from_bytes(exact(contents)))
}

/// The user ID, given the contents of its file, if there is one. Without a
/// file a fresh one is drawn, whose bytes have to be written to the file: the
/// flag says so.
pub fn load_or_create_user_id(file: Option<&[u8]>) -> (loaded: Result<
    (UserId, bool),
    UserIdFailure,
>)
    ensures
        match file {
            Some(contents) => match loaded {
                Ok((id, unsaved)) => {
                    &&& stored_user_id(contents@) == Ok::<Seq<u8>, UserIdFailure>(id@)
                    &&& !unsaved
                },
                Err(failure) => stored_user_id(contents@) == Err::<Seq<u8>, UserIdFailure>(failure),
            },
            None => match loaded {
                Ok((_, unsaved)) => unsaved,
                Err(failure) => failure matches UserIdFailure::NotDrawn(cause) && cause is Random,
            },
        },
{
    match file {
        Some(contents) => {
            let id: UserId = read_user_id(contents)?;
            Ok((id, false))
        },
        None => {
            match UserId::new() {
                Ok(id) => Ok((id, true)),
                Err(cause) => Err(UserIdFailure::NotDrawn(cause)),
            }
        },
    }
}

/// A user ID that was written to its file is the one that is loaded from it.
pub proof fn user_id_persists(id: UserId)
    ensures
        stored_user_id(id@) == Ok::<Seq<u8>, UserIdFailure>(id@),
{
    protocol::user_id_is_its_bytes(id, id);
}

/// A file is read as a user ID exactly where it has sixteen bytes, whatever they
/// are, and the ID is those bytes.
pub proof fn sixteen_bytes_are_a_user_id(contents: Seq<u8>)
    ensures
        stored_user_id(contents) is Ok <==> contents.len() == 16,
        stored_user_id(contents) is Ok ==> stored_user_id(contents)->Ok_0 == contents,
        stored_user_id(contents) is Err ==> stored_user_id(contents)->Err_0 is InvalidLength,
{
}

} // verus!
