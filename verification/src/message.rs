//! Chat messages: each is encrypted under a key of its own and framed.

use vstd::prelude::*;
use vstd::utf8;
use crate::bytes;
use crate::bytes::{exact, extend, to_big_endian, ByteStream};
use crate::encryption;
use crate::encryption::{Encryption, Keys, ENC_ADDED, KEY_SIZE};
use crate::failure::Failure;
use crate::protocol;
use crate::protocol::{
    take_frame, FrameKind, Operation, MAX_CIPHERTEXT_SIZE, MAX_MESSAGE_SIZE, MESSAGE_HEADER_SIZE,
    MESSAGE_NONCE_SIZE, MESSAGE_PUBLIC_KEY_SIZE,
};
use crate::text::decoded;

verus! {

broadcast use vstd::array::group_array_axioms;

/// A message frame: operation, the sender's ephemeral public key, the nonce,
/// the length of the ciphertext, and the ciphertext.
pub open spec fn message_frame(public: Seq<u8>, nonce: Seq<u8>, ciphertext: Seq<u8>) -> Seq<u8> {
    seq![protocol::operation_code(Operation::Message)] + public + nonce
        + bytes::big_endian_bytes(ciphertext.len(), 8) + ciphertext
}

/// The text that the owner of `private` reads from the front of `input`, or
/// why there is none.
pub open spec fn message_outcome(input: Seq<u8>, private: Seq<u8>) -> Result<Seq<char>, Failure> {
    match protocol::frame_length(FrameKind::Message, input) {
        Err(failure) => Err(failure),
        Ok(length) => match encryption::box_opened(
            private,
            input.subrange(1, 33),
            input.subrange(33, 57),
            input.subrange(65, length as int),
        ) {
            None => Err(Failure::DecryptionFailed),
            Some(plaintext) => if utf8::valid_utf8(plaintext) {
                Ok(utf8::decode_utf8(plaintext))
            } else {
                Err(Failure::MessageNotText)
            },
        },
    }
}

/// `frame` carries `contents` to the owner of `public`: it is a message frame
/// that was encrypted under some ephemeral key and some nonce.
pub open spec fn carries(frame: Seq<u8>, public: Seq<u8>, contents: Seq<char>) -> bool {
    exists|secret: Seq<u8>, nonce: Seq<u8>|
        secret.len() == KEY_SIZE && nonce.len() == MESSAGE_NONCE_SIZE && frame == message_frame(
            encryption::public_key_of(secret),
            nonce,
            #[trigger] encryption::box_sealed(secret, public, nonce, utf8::encode_utf8(contents)),
        )
}

/// Whoever holds the secret key of `public` reads `contents` from `frame`,
/// whatever follows it.
pub open spec fn delivers(frame: Seq<u8>, public: Seq<u8>, contents: Seq<char>) -> bool {
    forall|recipient: Seq<u8>, more: Seq<u8>|
        recipient.len() == KEY_SIZE && encryption::public_key_of(recipient) == public
            ==> #[trigger] message_outcome(frame + more, recipient) == Ok::<Seq<char>, Failure>(
            contents,
        )
}

/// Every ciphertext within the limit makes a frame that is read whole, with
/// its key, its nonce and its ciphertext unchanged, whatever they are.
pub proof fn frames_are_opaque(
    public: Seq<u8>,
    nonce: Seq<u8>,
    ciphertext: Seq<u8>,
    more: Seq<u8>,
)
    requires
        public.len() == MESSAGE_PUBLIC_KEY_SIZE,
        nonce.len() == MESSAGE_NONCE_SIZE,
        ciphertext.len() <= MAX_CIPHERTEXT_SIZE,
    ensures
        ({
            let frame = message_frame(public, nonce, ciphertext);
            let input = frame + more;
            &&& frame.len() == MESSAGE_HEADER_SIZE + ciphertext.len()
            &&& protocol::frame_length(FrameKind::Message, input) == Ok::<nat, Failure>(
                frame.len(),
            )
            &&& input.take(frame.len() as int) == frame
            &&& input.subrange(1, 33) == public
            &&& input.subrange(33, 57) == nonce
            &&& input.subrange(65, frame.len() as int) == ciphertext
        }),
{
    let frame = message_frame(public, nonce, ciphertext);
    let input = frame + more;
    let size = bytes::big_endian_bytes(ciphertext.len(), 8);
    assert(ciphertext.len() < bytes::byte_capacity(8)) by {
        reveal_with_fuel(bytes::byte_capacity, 9);
    }
    bytes::big_endian_round_trip(ciphertext.len(), 8);
    assert(input.subrange(57, 65) =~= size);
    assert(input.take(frame.len() as int) =~= frame);
    assert(input.subrange(1, 33) =~= public);
    assert(input.subrange(33, 57) =~= nonce);
    assert(input.subrange(65, frame.len() as int) =~= ciphertext);
}

/// Appends a message frame.
pub fn write_frame(
    stream: &mut Vec<u8>,
    ephemeral_public_key: &[u8; MESSAGE_PUBLIC_KEY_SIZE],
    nonce: &[u8; MESSAGE_NONCE_SIZE],
    ciphertext: &[u8],
)
    ensures
        final(stream)@ == old(stream)@ + message_frame(
            ephemeral_public_key@,
            nonce@,
            ciphertext@,
        ),
{
    stream.push(Operation::Message.code());
    extend(stream, ephemeral_public_key);
    extend(stream, nonce);
    let size: [u8; 8] = to_big_endian(ciphertext.len() as u64);
    extend(stream, &size);
    extend(stream, ciphertext);
    assert(stream@ =~= old(stream)@ + message_frame(ephemeral_public_key@, nonce@, ciphertext@));
}

/// Appends `contents`, encrypted to the owner of `recipient_public_key` under
/// a fresh ephemeral key. Only a text over the limit is refused, and leaves
/// the stream as it was.
pub fn send(
    contents: &str,
    stream: &mut Vec<u8>,
    recipient_public_key: &[u8; KEY_SIZE],
) -> (sent: Result<(), Failure>)
    ensures
        match sent {
            Ok(_) => {
                let frame = final(stream)@.skip(old(stream)@.len() as int);
                &&& utf8::encode_utf8(contents@).len() <= MAX_MESSAGE_SIZE
                &&& final(stream)@ == old(stream)@ + frame
                &&& protocol::frame_length(FrameKind::Message, frame) == Ok::<nat, Failure>(
                    frame.len(),
                )
                &&& frame.len() == MESSAGE_HEADER_SIZE + utf8::encode_utf8(contents@).len()
                    + ENC_ADDED
                &&& protocol::announced_size(frame) == utf8::encode_utf8(contents@).len()
                    + ENC_ADDED
                &&& carries(frame, recipient_public_key@, contents@)
                &&& delivers(frame, recipient_public_key@, contents@)
            },
            Err(failure) => {
                &&& utf8::encode_utf8(contents@).len() > MAX_MESSAGE_SIZE
                &&& failure == Failure::MessageTooLong
                &&& final(stream)@ == old(stream)@
            },
        },
{
    let plaintext: &[u8] = contents.as_bytes();
    if plaintext.len() as u64 > MAX_MESSAGE_SIZE {
        return Err(Failure::MessageTooLong);
    }
    let ephemeral_keys: Keys = Keys::new();
    let mut encryption: Encryption = Encryption::from_key_bytes(
        ephemeral_keys.private_bytes(),
        recipient_public_key,
    );
    let (nonce, ciphertext): ([u8; MESSAGE_NONCE_SIZE], Vec<u8>) = encryption.encrypt(plaintext)?;
    write_frame(stream, ephemeral_keys.public_bytes(), &nonce, ciphertext.as_slice());
    proof {
        let frame = message_frame(ephemeral_keys.public(), nonce@, ciphertext@);
        assert(stream@.skip(old(stream)@.len() as int) =~= frame);
        assert(carries(frame, recipient_public_key@, contents@));
        frames_are_opaque(ephemeral_keys.public(), nonce@, ciphertext@, seq![]);
        assert(frame + seq![] =~= frame);
        assert forall|recipient: Seq<u8>, more: Seq<u8>|
            recipient.len() == KEY_SIZE && encryption::public_key_of(recipient)
                == recipient_public_key@ implies #[trigger] message_outcome(frame + more, recipient)
            == Ok::<Seq<char>, Failure>(contents@) by {
            frames_are_opaque(ephemeral_keys.public(), nonce@, ciphertext@, more);
            utf8::encode_utf8_valid_utf8(contents@);
            utf8::encode_utf8_decode_utf8(contents@);
        }
    }
    Ok(())
}

/// A sent message is read back by whoever it was sent to, and reading it takes
/// exactly its frame off the stream.
pub proof fn sent_messages_are_read(
    frame: Seq<u8>,
    public: Seq<u8>,
    contents: Seq<char>,
    recipient: Seq<u8>,
    more: Seq<u8>,
)
    requires
        protocol::frame_length(FrameKind::Message, frame) == Ok::<nat, Failure>(frame.len()),
        delivers(frame, public, contents),
        recipient.len() == KEY_SIZE,
        encryption::public_key_of(recipient) == public,
    ensures
        message_outcome(frame + more, recipient) == Ok::<Seq<char>, Failure>(contents),
        (frame + more).skip(
            protocol::consumed_length(FrameKind::Message, frame + more) as int,
        ) == more,
{
    protocol::complete_frame_is_found(FrameKind::Message, frame, more);
    assert((frame + more).skip(frame.len() as int) =~= more);
}

/// Whatever starts with another operation is no message.
pub proof fn only_messages_are_read(input: Seq<u8>, private: Seq<u8>)
    requires
        input.len() > 0,
        input[0] != protocol::operation_code(Operation::Message),
    ensures
        message_outcome(input, private) == Err::<Seq<char>, Failure>(
            Failure::ExpectedMessage(input[0]),
        ),
{
}

/// A sent message that goes through a relay, which takes the frame off its
/// input and hands on just that, is still read by whoever it was sent to.
pub proof fn relayed_messages_arrive(
    frame: Seq<u8>,
    public: Seq<u8>,
    contents: Seq<char>,
    recipient: Seq<u8>,
    more: Seq<u8>,
    later: Seq<u8>,
)
    requires
        protocol::frame_length(FrameKind::Message, frame) == Ok::<nat, Failure>(frame.len()),
        delivers(frame, public, contents),
        recipient.len() == KEY_SIZE,
        encryption::public_key_of(recipient) == public,
    ensures
        ({
            let input = frame + more;
            let relayed = input.take(frame.len() as int);
            &&& protocol::frame_length(FrameKind::Message, input) == Ok::<nat, Failure>(
                frame.len(),
            )
            &&& relayed == frame
            &&& message_outcome(relayed + later, recipient) == Ok::<Seq<char>, Failure>(contents)
        }),
{
    let input = frame + more;
    protocol::complete_frame_is_found(FrameKind::Message, frame, more);
    assert(input.take(frame.len() as int) =~= frame);
}

/// Takes a message off the stream and decrypts it.
pub fn read(stream: &mut ByteStream, recipient_private_key: &[u8; KEY_SIZE]) -> (received: Result<
    String,
    Failure,
>)
    ensures
        match received {
            Ok(contents) => message_outcome(old(stream)@, recipient_private_key@) == Ok::<
                Seq<char>,
                Failure,
            >(contents@),
            Err(failure) => message_outcome(old(stream)@, recipient_private_key@) == Err::<
                Seq<char>,
                Failure,
            >(failure),
        },
        final(stream)@ == old(stream)@.skip(
            protocol::consumed_length(FrameKind::Message, old(stream)@) as int,
        ),
{
    let frame: Vec<u8> = take_frame(FrameKind::Message, stream)?;
    let ephemeral_public_key: [u8; MESSAGE_PUBLIC_KEY_SIZE] = exact(
        vstd::slice::slice_subrange(frame.as_slice(), 1, 33),
    );
    let nonce: [u8; MESSAGE_NONCE_SIZE] = exact(
        vstd::slice::slice_subrange(frame.as_slice(), 33, 57),
    );
    let ciphertext: &[u8] = vstd::slice::slice_subrange(frame.as_slice(), 65, frame.len());
    proof {
        let input = old(stream)@;
        let length = frame@.len() as int;
        assert(frame@.subrange(1, 33) =~= input.subrange(1, 33));
        assert(frame@.subrange(33, 57) =~= input.subrange(33, 57));
        assert(frame@.subrange(65, length) =~= input.subrange(65, length));
    }
    let mut encryption: Encryption = Encryption::from_key_bytes(
        recipient_private_key,
        &ephemeral_public_key,
    );
    let plaintext: Vec<u8> = encryption.decrypt(&nonce, ciphertext)?;
    match decoded(plaintext) {
        Some(contents) => Ok(contents),
        None => Err(Failure::MessageNotText),
    }
}

/// Whatever the cipher finds in the ciphertext of a whole frame, between the key
/// and the nonce that stand in it and the reader's secret key, is the message,
/// where it is a text of any length; where it is no text, and where the cipher
/// finds nothing, the message is refused.
pub proof fn messages_open_as_the_cipher_opens_them(
    public: Seq<u8>,
    nonce: Seq<u8>,
    ciphertext: Seq<u8>,
    more: Seq<u8>,
    private: Seq<u8>,
)
    requires
        public.len() == 32,
        nonce.len() == 24,
        ciphertext.len() <= 1048592,
    ensures
        ({
            let size = bytes::big_endian_bytes(ciphertext.len(), 8);
            let input = seq![5u8] + public + nonce + size + ciphertext + more;
            message_outcome(input, private) == match encryption::box_opened(
                private,
                public,
                nonce,
                ciphertext,
            ) {
                Some(plaintext) => if utf8::valid_utf8(plaintext) {
                    Ok::<Seq<char>, Failure>(utf8::decode_utf8(plaintext))
                } else {
                    Err(Failure::MessageNotText)
                },
                None => Err(Failure::DecryptionFailed),
            }
        }),
{
    let size = bytes::big_endian_bytes(ciphertext.len(), 8);
    let input = seq![5u8] + public + nonce + size + ciphertext + more;
    frames_are_opaque(public, nonce, ciphertext, more);
    assert(input =~= message_frame(public, nonce, ciphertext) + more);
}

/// What carries a message is a message frame that the sender's cipher made for
/// the recipient out of the whole text.
pub proof fn carriers_are_sealed_for_the_recipient(
    frame: Seq<u8>,
    public: Seq<u8>,
    contents: Seq<char>,
)
    requires
        carries(frame, public, contents),
    ensures
        exists|secret: Seq<u8>, nonce: Seq<u8>|
            secret.len() == 32 && nonce.len() == 24 && frame == message_frame(
                encryption::public_key_of(secret),
                nonce,
                #[trigger] encryption::box_sealed(
                    secret,
                    public,
                    nonce,
                    utf8::encode_utf8(contents),
                ),
            ),
        frame.len() > 0 && frame[0] == 5,
{
    let (secret, nonce) = choose|secret: Seq<u8>, nonce: Seq<u8>|
        secret.len() == 32 && nonce.len() == 24 && frame == message_frame(
            encryption::public_key_of(secret),
            nonce,
            #[trigger] encryption::box_sealed(
                secret,
                public,
                nonce,
                utf8::encode_utf8(contents),
            ),
        );
    assert(frame[0] == 5);
}

} // verus!
