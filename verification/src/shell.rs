//! Messages and their wire form: one tag byte, twelve identifier bytes and the
//! payload's UTF-8 bytes, written as lower-case hexadecimal text.

use vstd::prelude::*;
use vstd::slice::slice_subrange;
use vstd::string::*;
use vstd::utf8::*;
use crate::hextext::{bytes_to_hex, digit_value, hex_to_bytes, is_hex_text, lemma_hex_round_trip};
use crate::hextext::{hex_decode, hex_encode, string_from_utf8};

verus! {

/// The number of bytes in a message identifier.
pub const ID_LEN: usize = 12;

/// The number of hexadecimal digits that the tag and the identifier take.
pub const HEADER_DIGITS: usize = 26;

/// What a message asks for or carries.
#[derive(Debug, Clone, Copy, PartialEq, Eq, PartialOrd, Ord, Hash, Structural)]
pub enum MessageType {
    Command,
    Output,
    Exit,
}

impl MessageType {
    /// The tag byte that stands for a kind on the wire.
    pub open spec fn tag_spec(self) -> u8 {
        match self {
            MessageType::Command => 1u8,
            MessageType::Output => 2u8,
            MessageType::Exit => 3u8,
        }
    }

    /// The kind that a tag byte stands for, `None` for an unknown tag.
    pub open spec fn of_tag(tag: u8) -> Option<MessageType> {
        if tag == 1 {
            Some(MessageType::Command)
        } else if tag == 2 {
            Some(MessageType::Output)
        } else if tag == 3 {
            Some(MessageType::Exit)
        } else {
            None
        }
    }

    /// The tag byte of this kind.
    pub fn tag(self) -> (t: u8)
        ensures
            t == self.tag_spec(),
    {
        match self {
            MessageType::Command => 1u8,
            MessageType::Output => 2u8,
            MessageType::Exit => 3u8,
        }
    }

    /// Reads a tag byte; an unknown tag is an error, never another kind.
    pub fn try_from(value: u8) -> (r: Result<MessageType, ()>)
        ensures
            r == match MessageType::of_tag(value) {
                Some(kind) => Ok::<MessageType, ()>(kind),
                None => Err::<MessageType, ()>(()),
            },
    {
        if value == 1 {
            Ok(MessageType::Command)
        } else if value == 2 {
            Ok(MessageType::Output)
        } else if value == 3 {
            Ok(MessageType::Exit)
        } else {
            Err(())
        }
    }
}

/// Why a text is not a message.
#[derive(Debug, Clone, Copy, PartialEq, Eq, Hash, Structural)]
pub enum DecodeError {
    /// The text has fewer characters than the tag and the identifier take.
    MalformedMessage,
    /// The text is not hexadecimal.
    InvalidEncoding,
    /// The tag byte stands for no kind.
    UnknownMessageKind,
    /// The payload bytes are not UTF-8.
    InvalidPayloadEncoding,
}

/// A message: its kind, the identifier that ties a request to its answer, and
/// the text it carries.
#[derive(Debug, PartialEq, Eq, PartialOrd, Ord, Hash)]
pub struct Message {
    pub message_type: MessageType,
    pub message_id: [u8; 12],
    pub message: String,
}

/// The mathematical value of a message.
pub ghost struct MessageView {
    pub kind: MessageType,
    pub id: Seq<u8>,
    pub payload: Seq<char>,
}

impl View for Message {
    type V = MessageView;

    open spec fn view(&self) -> MessageView {
        MessageView { kind: self.message_type, id: self.message_id@, payload: self.message@ }
    }
}

impl Clone for Message {
    fn clone(&self) -> (r: Self)
        ensures
            r == *self,
    {
        Message {
            message_type: self.message_type,
            message_id: self.message_id,
            message: self.message.clone(),
        }
    }
}

/// The bytes of a message on the wire, before they are written as text.
pub open spec fn wire_bytes(m: MessageView) -> Seq<u8> {
    seq![m.kind.tag_spec()] + m.id + encode_utf8(m.payload)
}

/// The wire text of a message.
pub open spec fn encode_spec(m: MessageView) -> Seq<char> {
    bytes_to_hex(wire_bytes(m))
}

/// What a text decodes to. The checks come in this order: the length, the
/// hexadecimal form of the whole text, the tag, the payload's UTF-8.
pub open spec fn decode_spec(s: Seq<char>) -> Result<MessageView, DecodeError> {
    if s.len() < 26 {
        Err(DecodeError::MalformedMessage)
    } else if !is_hex_text(s) {
        Err(DecodeError::InvalidEncoding)
    } else {
        let bytes = hex_to_bytes(s);
        let payload = bytes.subrange(13, bytes.len() as int);
        match MessageType::of_tag(bytes[0]) {
            None => Err(DecodeError::UnknownMessageKind),
            Some(kind) => if !valid_utf8(payload) {
                Err(DecodeError::InvalidPayloadEncoding)
            } else {
                Ok(MessageView { kind, id: bytes.subrange(1, 13), payload: decode_utf8(payload) })
            },
        }
    }
}

/// Appends the bytes of `src` to `dst`.
fn append_bytes(dst: &mut Vec<u8>, src: &[u8])
    ensures
        final(dst)@ == old(dst)@ + src@,
{
    let mut i: usize = 0;
    while i < src.len()
        invariant
            i <= src@.len(),
            dst@ == old(dst)@ + src@.subrange(0, i as int),
        decreases src@.len() - i,
    {
        dst.push(src[i]);
        i += 1;
        assert(dst@ =~= old(dst)@ + src@.subrange(0, i as int));
    }
    assert(src@.subrange(0, i as int) =~= src@);
}

impl core::str::FromStr for Message {
    type Err = DecodeError;

    fn from_str(s: &str) -> (r: Result<Message, DecodeError>)
        ensures
            match decode_spec(s@) {
                Ok(m) => r is Ok && r->Ok_0@ == m,
                Err(e) => r == Err::<Message, DecodeError>(e),
            },
    {
        Message::from_str(s)
    }
}

impl Message {
    /// The wire text of this message. Every message has one.
    pub fn to_string(&self) -> (text: String)
        ensures
            text@ == encode_spec(self@),
    {
        let mut bytes: Vec<u8> = Vec::new();
        bytes.push(self.message_type.tag());
        append_bytes(&mut bytes, self.message_id.as_slice());
        append_bytes(&mut bytes, self.message.as_str().as_bytes());
        assert(bytes@ =~= wire_bytes(self@));
        hex_encode(bytes.as_slice())
    }

    /// Decodes a wire text, or says why it is not a message.
    pub fn from_str(s: &str) -> (r: Result<Message, DecodeError>)
        ensures
            match decode_spec(s@) {
                Ok(m) => r is Ok && r->Ok_0@ == m,
                Err(e) => r == Err::<Message, DecodeError>(e),
            },
    {
        if s.unicode_len() < HEADER_DIGITS {
            return Err(DecodeError::MalformedMessage);
        }
        let bytes = match hex_decode(s) {
            Ok(bytes) => bytes,
            Err(_) => {
                return Err(DecodeError::InvalidEncoding);
            },
        };
        let message_type = match MessageType::try_from(bytes[0]) {
            Ok(kind) => kind,
            Err(_) => {
                return Err(DecodeError::UnknownMessageKind);
            },
        };
        let message_id: [u8; 12] = [
            bytes[1],
            bytes[2],
            bytes[3],
            bytes[4],
            bytes[5],
            bytes[6],
            bytes[7],
            bytes[8],
            bytes[9],
            bytes[10],
            bytes[11],
            bytes[12],
        ];
        let mut payload: Vec<u8> = Vec::new();
        append_bytes(&mut payload, slice_subrange(bytes.as_slice(), ID_LEN + 1, bytes.len()));
        assert(payload@ =~= bytes@.subrange(13, bytes@.len() as int));
        match string_from_utf8(payload) {
            None => Err(DecodeError::InvalidPayloadEncoding),
            Some(message) => {
                assert(message_id@ =~= bytes@.subrange(1, 13));
                Ok(Message { message_type, message_id, message })
            },
        }
    }
}

/// Decoding the wire text of a message gives the message back.
pub proof fn lemma_round_trip(m: MessageView)
    requires
        m.id.len() == 12,
    ensures
        decode_spec(encode_spec(m)) == Ok::<MessageView, DecodeError>(m),
{
    let bytes = wire_bytes(m);
    let text = encode_spec(m);
    lemma_hex_round_trip(bytes);
    encode_utf8_valid_utf8(m.payload);
    encode_utf8_decode_utf8(m.payload);
    assert(bytes.subrange(13, bytes.len() as int) =~= encode_utf8(m.payload));
    assert(bytes.subrange(1, 13) =~= m.id);
    assert(bytes[0] == m.kind.tag_spec());
}

/// What is turned away, and with which error. A text shorter than the tag
/// and the identifier is malformed. A longer hexadecimal text whose tag is
/// none of one, two and three has an unknown kind. A text of that length
/// whose payload part has an odd length, or holds a character that is no
/// hexadecimal digit, has an invalid encoding.
pub proof fn lemma_rejection(s: Seq<char>)
    ensures
        s.len() < 26 ==> decode_spec(s) == Err::<MessageView, DecodeError>(
            DecodeError::MalformedMessage,
        ),
        s.len() >= 26 && is_hex_text(s) && hex_to_bytes(s)[0] != 1 && hex_to_bytes(s)[0] != 2
            && hex_to_bytes(s)[0] != 3 ==> decode_spec(s) == Err::<MessageView, DecodeError>(
            DecodeError::UnknownMessageKind,
        ),
        s.len() >= 26 && !is_hex_text(s.subrange(26, s.len() as int)) ==> decode_spec(s) == Err::<
            MessageView,
            DecodeError,
        >(DecodeError::InvalidEncoding),
{
    if s.len() >= 26 && is_hex_text(s) {
        let payload = s.subrange(26, s.len() as int);
        assert forall|i: int| 0 <= i < payload.len() implies (#[trigger] digit_value(
            payload[i],
        )) is Some by {
            assert(payload[i] == s[26 + i]);
        }
        assert(is_hex_text(payload));
    }
}

/// A text decodes exactly when it is long enough and hexadecimal, its tag
/// stands for a kind and its payload bytes are UTF-8; the identifier of what
/// it decodes to has twelve bytes.
pub proof fn lemma_decodes_exactly_when_well_formed(s: Seq<char>)
    ensures
        decode_spec(s) is Ok <==> s.len() >= 26 && is_hex_text(s) && MessageType::of_tag(
            hex_to_bytes(s)[0],
        ) is Some && valid_utf8(hex_to_bytes(s).subrange(13, hex_to_bytes(s).len() as int)),
        decode_spec(s) is Ok ==> decode_spec(s)->Ok_0.id.len() == 12,
{
}

/// The round trip for a message in memory: the text that `to_string` writes
/// decodes to the same message.
pub proof fn lemma_message_round_trip(m: Message)
    ensures
        decode_spec(encode_spec(m@)) == Ok::<MessageView, DecodeError>(m@),
{
    lemma_round_trip(m@);
}

} // verus!
