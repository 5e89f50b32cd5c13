//! Why bytes are no message: where in the message the bytes go wrong, and what is wrong there.
//!
//! A message is read from the front. Where a part of it is a message itself, the part is read from the
//! same bytes, and what it took is held against the length that it was said to have.

use vstd::prelude::*;
use vstd::slice::slice_subrange;
use vstd::utf8::valid_utf8;

use crate::bytes::bytes_between;
use crate::protobuf::{
    cause_text, key_in, read_varint, sized, skip_value, skipped, take_key, take_sized, take_varint,
    varint_bounds, Cause, MAX_DEPTH,
};
use crate::text::{push_text, text_of_utf8};

verus! {

/// What bytes may be a message of.
#[derive(Clone, Copy, Debug, PartialEq, Eq, Structural)]
pub enum Shape {
    Operation,
    TextMessage,
    MembershipChange,
    CreateChannel,
    KeyRegistration,
    ContentKeyEnvelope,
    Attachment,
    MemberProfile,
    VoicePresence,
    TextInventory,
    EncryptedTextIdentity,
    VoiceFrame,
    VoicePresencePayload,
}

/// What a field holds.
#[derive(Clone, Copy, Debug, PartialEq, Eq, Structural)]
pub enum Content {
    Number,
    Bytes,
    Text,
    Message(Shape),
}

/// What a message is called.
pub open spec fn shape_name(shape: Shape) -> Seq<char> {
    match shape {
        Shape::Operation => "Operation"@,
        Shape::TextMessage => "TextMessage"@,
        Shape::MembershipChange => "MembershipChange"@,
        Shape::CreateChannel => "CreateChannel"@,
        Shape::KeyRegistration => "KeyRegistration"@,
        Shape::ContentKeyEnvelope => "ContentKeyEnvelope"@,
        Shape::Attachment => "Attachment"@,
        Shape::MemberProfile => "MemberProfile"@,
        Shape::VoicePresence => "VoicePresence"@,
        Shape::TextInventory => "TextInventory"@,
        Shape::EncryptedTextIdentity => "EncryptedTextIdentity"@,
        Shape::VoiceFrame => "VoiceFrame"@,
        Shape::VoicePresencePayload => "VoicePresencePayload"@,
    }
}

/// What a field of a message is called and what it holds; `None` where the message does not know it.
pub open spec fn field_in(shape: Shape, tag: u32) -> Option<(Seq<char>, Content)> {
    match shape {
        Shape::Operation => if tag == 1 {
            Some(("body"@, Content::Message(Shape::TextMessage)))
        } else if tag == 2 {
            Some(("body"@, Content::Message(Shape::MembershipChange)))
        } else if tag == 3 {
            Some(("body"@, Content::Message(Shape::CreateChannel)))
        } else if tag == 4 {
            Some(("body"@, Content::Message(Shape::KeyRegistration)))
        } else if tag == 5 {
            Some(("body"@, Content::Message(Shape::ContentKeyEnvelope)))
        } else if tag == 6 {
            Some(("body"@, Content::Message(Shape::Attachment)))
        } else if tag == 7 {
            Some(("body"@, Content::Message(Shape::MemberProfile)))
        } else if tag == 8 {
            Some(("body"@, Content::Message(Shape::VoicePresence)))
        } else if tag == 9 {
            Some(("body"@, Content::Message(Shape::TextInventory)))
        } else {
            None
        },
        Shape::TextMessage => if tag == 1 {
            Some(("id"@, Content::Bytes))
        } else if tag == 2 {
            Some(("body"@, Content::Text))
        } else if tag == 3 {
            Some(("author"@, Content::Bytes))
        } else if tag == 4 {
            Some(("signature"@, Content::Bytes))
        } else if tag == 5 {
            Some(("channel_id"@, Content::Bytes))
        } else if tag == 6 {
            Some(("epoch"@, Content::Number))
        } else if tag == 7 {
            Some(("membership_head"@, Content::Bytes))
        } else if tag == 8 {
            Some(("nonce"@, Content::Bytes))
        } else if tag == 9 {
            Some(("ciphertext"@, Content::Bytes))
        } else {
            None
        },
        Shape::MembershipChange => if tag == 1 {
            Some(("revision"@, Content::Number))
        } else if tag == 2 {
            Some(("member"@, Content::Bytes))
        } else if tag == 3 {
            Some(("admitted"@, Content::Number))
        } else if tag == 4 {
            Some(("signature"@, Content::Bytes))
        } else if tag == 5 {
            Some(("availability"@, Content::Number))
        } else {
            None
        },
        Shape::CreateChannel => if tag == 1 {
            Some(("id"@, Content::Bytes))
        } else if tag == 2 {
            Some(("name"@, Content::Text))
        } else if tag == 3 {
            Some(("kind"@, Content::Number))
        } else if tag == 4 {
            Some(("signature"@, Content::Bytes))
        } else {
            None
        },
        Shape::KeyRegistration => if tag == 1 {
            Some(("member"@, Content::Bytes))
        } else if tag == 2 {
            Some(("public_key"@, Content::Bytes))
        } else if tag == 3 {
            Some(("signature"@, Content::Bytes))
        } else {
            None
        },
        Shape::ContentKeyEnvelope => if tag == 1 {
            Some(("epoch"@, Content::Number))
        } else if tag == 2 {
            Some(("membership_head"@, Content::Bytes))
        } else if tag == 3 {
            Some(("recipient"@, Content::Bytes))
        } else if tag == 4 {
            Some(("encapsulated_key"@, Content::Bytes))
        } else if tag == 5 {
            Some(("ciphertext"@, Content::Bytes))
        } else if tag == 6 {
            Some(("signature"@, Content::Bytes))
        } else {
            None
        },
        Shape::Attachment => if tag == 1 {
            Some(("id"@, Content::Bytes))
        } else if tag == 2 {
            Some(("author"@, Content::Bytes))
        } else if tag == 3 {
            Some(("channel_id"@, Content::Bytes))
        } else if tag == 4 {
            Some(("epoch"@, Content::Number))
        } else if tag == 5 {
            Some(("membership_head"@, Content::Bytes))
        } else if tag == 6 {
            Some(("nonce"@, Content::Bytes))
        } else if tag == 7 {
            Some(("ciphertext"@, Content::Bytes))
        } else if tag == 8 {
            Some(("signature"@, Content::Bytes))
        } else {
            None
        },
        Shape::MemberProfile => if tag == 1 {
            Some(("member"@, Content::Bytes))
        } else if tag == 2 {
            Some(("revision"@, Content::Number))
        } else if tag == 3 {
            Some(("epoch"@, Content::Number))
        } else if tag == 4 {
            Some(("membership_head"@, Content::Bytes))
        } else if tag == 5 {
            Some(("nonce"@, Content::Bytes))
        } else if tag == 6 {
            Some(("ciphertext"@, Content::Bytes))
        } else if tag == 7 {
            Some(("signature"@, Content::Bytes))
        } else {
            None
        },
        Shape::VoicePresence => if tag == 1 {
            Some(("epoch"@, Content::Number))
        } else if tag == 2 {
            Some(("membership_head"@, Content::Bytes))
        } else if tag == 3 {
            Some(("nonce"@, Content::Bytes))
        } else if tag == 4 {
            Some(("ciphertext"@, Content::Bytes))
        } else {
            None
        },
        Shape::TextInventory => if tag == 1 {
            Some(("messages"@, Content::Message(Shape::EncryptedTextIdentity)))
        } else {
            None
        },
        Shape::EncryptedTextIdentity => if tag == 1 {
            Some(("author"@, Content::Bytes))
        } else if tag == 2 {
            Some(("id"@, Content::Bytes))
        } else {
            None
        },
        Shape::VoiceFrame => if tag == 1 {
            Some(("stream_id"@, Content::Bytes))
        } else if tag == 2 {
            Some(("sequence"@, Content::Number))
        } else if tag == 3 {
            Some(("payload"@, Content::Bytes))
        } else if tag == 4 {
            Some(("channel_id"@, Content::Bytes))
        } else if tag == 5 {
            Some(("epoch"@, Content::Number))
        } else if tag == 6 {
            Some(("membership_head"@, Content::Bytes))
        } else if tag == 7 {
            Some(("nonce"@, Content::Bytes))
        } else {
            None
        },
        Shape::VoicePresencePayload => if tag == 1 {
            Some(("channel_id"@, Content::Bytes))
        } else if tag == 2 {
            Some(("state"@, Content::Number))
        } else if tag == 3 {
            Some(("state"@, Content::Number))
        } else if tag == 4 {
            Some(("state"@, Content::Number))
        } else {
            None
        },
    }
}

impl Shape {
    fn name(self) -> (name: &'static str)
        ensures
            name@ == shape_name(self),
    {
        match self {
            Shape::Operation => "Operation",
            Shape::TextMessage => "TextMessage",
            Shape::MembershipChange => "MembershipChange",
            Shape::CreateChannel => "CreateChannel",
            Shape::KeyRegistration => "KeyRegistration",
            Shape::ContentKeyEnvelope => "ContentKeyEnvelope",
            Shape::Attachment => "Attachment",
            Shape::MemberProfile => "MemberProfile",
            Shape::VoicePresence => "VoicePresence",
            Shape::TextInventory => "TextInventory",
            Shape::EncryptedTextIdentity => "EncryptedTextIdentity",
            Shape::VoiceFrame => "VoiceFrame",
            Shape::VoicePresencePayload => "VoicePresencePayload",
        }
    }
}

fn find_field(shape: Shape, tag: u32) -> (field: Option<(&'static str, Content)>)
    ensures
        match field {
            Some((name, content)) => field_in(shape, tag) == Some((name@, content)),
            None => field_in(shape, tag) is None,
        },
{
    match shape {
        Shape::Operation => if tag == 1 {
            Some(("body", Content::Message(Shape::TextMessage)))
        } else if tag == 2 {
            Some(("body", Content::Message(Shape::MembershipChange)))
        } else if tag == 3 {
            Some(("body", Content::Message(Shape::CreateChannel)))
        } else if tag == 4 {
            Some(("body", Content::Message(Shape::KeyRegistration)))
        } else if tag == 5 {
            Some(("body", Content::Message(Shape::ContentKeyEnvelope)))
        } else if tag == 6 {
            Some(("body", Content::Message(Shape::Attachment)))
        } else if tag == 7 {
            Some(("body", Content::Message(Shape::MemberProfile)))
        } else if tag == 8 {
            Some(("body", Content::Message(Shape::VoicePresence)))
        } else if tag == 9 {
            Some(("body", Content::Message(Shape::TextInventory)))
        } else {
            None
        },
        Shape::TextMessage => if tag == 1 {
            Some(("id", Content::Bytes))
        } else if tag == 2 {
            Some(("body", Content::Text))
        } else if tag == 3 {
            Some(("author", Content::Bytes))
        } else if tag == 4 {
            Some(("signature", Content::Bytes))
        } else if tag == 5 {
            Some(("channel_id", Content::Bytes))
        } else if tag == 6 {
            Some(("epoch", Content::Number))
        } else if tag == 7 {
            Some(("membership_head", Content::Bytes))
        } else if tag == 8 {
            Some(("nonce", Content::Bytes))
        } else if tag == 9 {
            Some(("ciphertext", Content::Bytes))
        } else {
            None
        },
        Shape::MembershipChange => if tag == 1 {
            Some(("revision", Content::Number))
        } else if tag == 2 {
            Some(("member", Content::Bytes))
        } else if tag == 3 {
            Some(("admitted", Content::Number))
        } else if tag == 4 {
            Some(("signature", Content::Bytes))
        } else if tag == 5 {
            Some(("availability", Content::Number))
        } else {
            None
        },
        Shape::CreateChannel => if tag == 1 {
            Some(("id", Content::Bytes))
        } else if tag == 2 {
            Some(("name", Content::Text))
        } else if tag == 3 {
            Some(("kind", Content::Number))
        } else if tag == 4 {
            Some(("signature", Content::Bytes))
        } else {
            None
        },
        Shape::KeyRegistration => if tag == 1 {
            Some(("member", Content::Bytes))
        } else if tag == 2 {
            Some(("public_key", Content::Bytes))
        } else if tag == 3 {
            Some(("signature", Content::Bytes))
        } else {
            None
        },
        Shape::ContentKeyEnvelope => if tag == 1 {
            Some(("epoch", Content::Number))
        } else if tag == 2 {
            Some(("membership_head", Content::Bytes))
        } else if tag == 3 {
            Some(("recipient", Content::Bytes))
        } else if tag == 4 {
            Some(("encapsulated_key", Content::Bytes))
        } else if tag == 5 {
            Some(("ciphertext", Content::Bytes))
        } else if tag == 6 {
            Some(("signature", Content::Bytes))
        } else {
            None
        },
        Shape::Attachment => if tag == 1 {
            Some(("id", Content::Bytes))
        } else if tag == 2 {
            Some(("author", Content::Bytes))
        } else if tag == 3 {
            Some(("channel_id", Content::Bytes))
        } else if tag == 4 {
            Some(("epoch", Content::Number))
        } else if tag == 5 {
            Some(("membership_head", Content::Bytes))
        } else if tag == 6 {
            Some(("nonce", Content::Bytes))
        } else if tag == 7 {
            Some(("ciphertext", Content::Bytes))
        } else if tag == 8 {
            Some(("signature", Content::Bytes))
        } else {
            None
        },
        Shape::MemberProfile => if tag == 1 {
            Some(("member", Content::Bytes))
        } else if tag == 2 {
            Some(("revision", Content::Number))
        } else if tag == 3 {
            Some(("epoch", Content::Number))
        } else if tag == 4 {
            Some(("membership_head", Content::Bytes))
        } else if tag == 5 {
            Some(("nonce", Content::Bytes))
        } else if tag == 6 {
            Some(("ciphertext", Content::Bytes))
        } else if tag == 7 {
            Some(("signature", Content::Bytes))
        } else {
            None
        },
        Shape::VoicePresence => if tag == 1 {
            Some(("epoch", Content::Number))
        } else if tag == 2 {
            Some(("membership_head", Content::Bytes))
        } else if tag == 3 {
            Some(("nonce", Content::Bytes))
        } else if tag == 4 {
            Some(("ciphertext", Content::Bytes))
        } else {
            None
        },
        Shape::TextInventory => if tag == 1 {
            Some(("messages", Content::Message(Shape::EncryptedTextIdentity)))
        } else {
            None
        },
        Shape::EncryptedTextIdentity => if tag == 1 {
            Some(("author", Content::Bytes))
        } else if tag == 2 {
            Some(("id", Content::Bytes))
        } else {
            None
        },
        Shape::VoiceFrame => if tag == 1 {
            Some(("stream_id", Content::Bytes))
        } else if tag == 2 {
            Some(("sequence", Content::Number))
        } else if tag == 3 {
            Some(("payload", Content::Bytes))
        } else if tag == 4 {
            Some(("channel_id", Content::Bytes))
        } else if tag == 5 {
            Some(("epoch", Content::Number))
        } else if tag == 6 {
            Some(("membership_head", Content::Bytes))
        } else if tag == 7 {
            Some(("nonce", Content::Bytes))
        } else {
            None
        },
        Shape::VoicePresencePayload => if tag == 1 {
            Some(("channel_id", Content::Bytes))
        } else if tag == 2 {
            Some(("state", Content::Number))
        } else if tag == 3 {
            Some(("state", Content::Number))
        } else if tag == 4 {
            Some(("state", Content::Number))
        } else {
            None
        },
    }
}

/// Where bytes go wrong, from the inside out, and why.
pub struct Complaint {
    pub path: Seq<char>,
    pub cause: Cause,
}

/// A complaint with no place.
pub open spec fn bare(cause: Cause) -> Complaint {
    Complaint { path: Seq::empty(), cause }
}

/// How many bytes remain once a message was read off the front of `bytes`: fields, until no more than
/// `limit` bytes remain.
pub open spec fn merged(shape: Shape, bytes: Seq<u8>, limit: nat, depth: nat) -> Result<nat, Complaint>
    decreases bytes.len(), 2nat,
{
    if bytes.len() <= limit {
        Ok(bytes.len())
    } else {
        match key_in(bytes) {
            Err(cause) => Err(bare(cause)),
            Ok((tag, kind, used)) => {
                proof {
                    varint_bounds(bytes, 0);
                }
                match merged_field(shape, tag, kind, bytes.skip(used as int), depth) {
                    Err(complaint) => Err(complaint),
                    Ok(left) => if left < bytes.len() {
                        merged(shape, bytes.skip(bytes.len() - left), limit, depth)
                    } else {
                        Err(bare(Cause::Number))
                    },
                }
            },
        }
    }
}

/// How many bytes remain once a field was read whose key is known. What goes wrong inside a field that
/// the message knows goes wrong there.
pub open spec fn merged_field(
    shape: Shape,
    tag: u32,
    kind: u64,
    bytes: Seq<u8>,
    depth: nat,
) -> Result<nat, Complaint>
    decreases bytes.len(), 1nat,
{
    match field_in(shape, tag) {
        None => match skipped(kind, tag, bytes, depth) {
            Ok(left) => Ok(left),
            Err(cause) => Err(bare(cause)),
        },
        Some((name, content)) => match value_after(content, kind, bytes, depth) {
            Ok(left) => Ok(left),
            Err(complaint) => Err(
                Complaint {
                    path: complaint.path + shape_name(shape) + "."@ + name + ": "@,
                    cause: complaint.cause,
                },
            ),
        },
    }
}

/// How many bytes remain once a value was read.
pub open spec fn value_after(content: Content, kind: u64, bytes: Seq<u8>, depth: nat) -> Result<
    nat,
    Complaint,
>
    decreases bytes.len(), 0nat,
{
    match content {
        Content::Number => if kind != 0 {
            Err(bare(Cause::OtherKind { actual: kind, expected: 0 }))
        } else {
            match read_varint(bytes, 0) {
                Some((_, used)) => Ok((bytes.len() - used) as nat),
                None => Err(bare(Cause::Number)),
            }
        },
        Content::Bytes => if kind != 2 {
            Err(bare(Cause::OtherKind { actual: kind, expected: 2 }))
        } else {
            match sized(bytes) {
                Ok((_, end)) => Ok((bytes.len() - end) as nat),
                Err(cause) => Err(bare(cause)),
            }
        },
        Content::Text => if kind != 2 {
            Err(bare(Cause::OtherKind { actual: kind, expected: 2 }))
        } else {
            match sized(bytes) {
                Ok((start, end)) => if valid_utf8(bytes.subrange(start as int, end as int)) {
                    Ok((bytes.len() - end) as nat)
                } else {
                    Err(bare(Cause::Text))
                },
                Err(cause) => Err(bare(cause)),
            }
        },
        Content::Message(inner) => if kind != 2 {
            Err(bare(Cause::OtherKind { actual: kind, expected: 2 }))
        } else if depth == 0 {
            Err(bare(Cause::Depth))
        } else {
            match sized(bytes) {
                Ok((start, end)) => {
                    proof {
                        varint_bounds(bytes, 0);
                    }
                    let limit = (bytes.len() - end) as nat;
                    match merged(inner, bytes.skip(start as int), limit, (depth - 1) as nat) {
                        Ok(left) => if left == limit {
                            Ok(left)
                        } else {
                            Err(bare(Cause::Exceeded))
                        },
                        Err(complaint) => Err(complaint),
                    }
                },
                Err(cause) => Err(bare(cause)),
            }
        },
    }
}

/// What is said of bytes that are no message of a shape.
pub open spec fn decoding_text(shape: Shape, bytes: Seq<u8>) -> Seq<char> {
    "failed to decode Protobuf message: "@ + match merged(shape, bytes, 0, MAX_DEPTH as nat) {
        Err(complaint) => complaint.path + cause_text(complaint.cause),
        Ok(_) => Seq::empty(),
    }
}

/// Whether an answer is this one.
pub open spec fn reports(
    answer: Result<usize, (String, Cause)>,
    expected: Result<nat, Complaint>,
) -> bool {
    match (answer, expected) {
        (Ok(left), Ok(wanted)) => left == wanted,
        (Err((path, cause)), Err(complaint)) => path@ == complaint.path && cause == complaint.cause,
        _ => false,
    }
}

fn bare_answer(cause: Cause) -> (answer: Result<usize, (String, Cause)>)
    ensures
        reports(answer, Err(bare(cause))),
{
    let path: String = String::new();
    assert(path@ =~= Seq::empty());
    Err((path, cause))
}

fn merge(shape: Shape, bytes: &[u8], limit: usize, depth: u32) -> (answer: Result<
    usize,
    (String, Cause),
>)
    ensures
        reports(answer, merged(shape, bytes@, limit as nat, depth as nat)),
        answer matches Ok(left) ==> left <= bytes@.len(),
    decreases bytes@.len(), 2nat,
{
    let mut left: usize = bytes.len();
    assert(bytes@.skip(0) =~= bytes@);
    while left > limit
        invariant
            left <= bytes@.len(),
            merged(shape, bytes@, limit as nat, depth as nat) == merged(
                shape,
                bytes@.skip(bytes@.len() - left),
                limit as nat,
                depth as nat,
            ),
        decreases left,
    {
        let here: &[u8] = slice_subrange(bytes, bytes.len() - left, bytes.len());
        assert(here@ =~= bytes@.skip(bytes@.len() - left));
        let (tag, kind, behind): (u32, u64, usize) = match take_key(here) {
            Ok(key) => key,
            Err(cause) => {
                return bare_answer(cause);
            },
        };
        let rest: &[u8] = slice_subrange(here, here.len() - behind, here.len());
        assert(rest@ =~= here@.skip(here@.len() - behind));
        match merge_field(shape, tag, kind, rest, depth) {
            Ok(remaining) => {
                assert(here@.skip(here@.len() - remaining) =~= bytes@.skip(
                    bytes@.len() - remaining,
                ));
                left = remaining;
            },
            Err(complaint) => {
                return Err(complaint);
            },
        }
    }
    Ok(left)
}

fn merge_field(shape: Shape, tag: u32, kind: u64, bytes: &[u8], depth: u32) -> (answer: Result<
    usize,
    (String, Cause),
>)
    ensures
        reports(answer, merged_field(shape, tag, kind, bytes@, depth as nat)),
        answer matches Ok(left) ==> left <= bytes@.len(),
    decreases bytes@.len(), 1nat,
{
    match find_field(shape, tag) {
        None => match skip_value(kind, tag, bytes, depth) {
            Ok(left) => Ok(left),
            Err(cause) => bare_answer(cause),
        },
        Some((name, content)) => match take_value(content, kind, bytes, depth) {
            Ok(left) => Ok(left),
            Err((inner, cause)) => {
                let mut path: String = inner;
                push_text(&mut path, shape.name());
                push_text(&mut path, ".");
                push_text(&mut path, name);
                push_text(&mut path, ": ");
                Err((path, cause))
            },
        },
    }
}

fn take_value(content: Content, kind: u64, bytes: &[u8], depth: u32) -> (answer: Result<
    usize,
    (String, Cause),
>)
    ensures
        reports(answer, value_after(content, kind, bytes@, depth as nat)),
        answer matches Ok(left) ==> left <= bytes@.len(),
    decreases bytes@.len(), 0nat,
{
    match content {
        Content::Number => {
            if kind != 0 {
                return bare_answer(Cause::OtherKind { actual: kind, expected: 0 });
            }
            match take_varint(bytes) {
                Some((_, left)) => Ok(left),
                None => bare_answer(Cause::Number),
            }
        },
        Content::Bytes => {
            if kind != 2 {
                return bare_answer(Cause::OtherKind { actual: kind, expected: 2 });
            }
            match take_sized(bytes) {
                Ok((_, end)) => Ok(bytes.len() - end),
                Err(cause) => bare_answer(cause),
            }
        },
        Content::Text => {
            if kind != 2 {
                return bare_answer(Cause::OtherKind { actual: kind, expected: 2 });
            }
            match take_sized(bytes) {
                Ok((start, end)) => match text_of_utf8(bytes_between(bytes, start, end)) {
                    Ok(_) => Ok(bytes.len() - end),
                    Err(_) => bare_answer(Cause::Text),
                },
                Err(cause) => bare_answer(cause),
            }
        },
        Content::Message(inner) => {
            if kind != 2 {
                return bare_answer(Cause::OtherKind { actual: kind, expected: 2 });
            }
            if depth == 0 {
                return bare_answer(Cause::Depth);
            }
            match take_sized(bytes) {
                Ok((start, end)) => {
                    let inside: &[u8] = slice_subrange(bytes, start, bytes.len());
                    assert(inside@ =~= bytes@.skip(start as int));
                    let limit: usize = bytes.len() - end;
                    match merge(inner, inside, limit, depth - 1) {
                        Ok(left) => if left == limit {
                            Ok(left)
                        } else {
                            bare_answer(Cause::Exceeded)
                        },
                        Err(complaint) => Err(complaint),
                    }
                },
                Err(cause) => bare_answer(cause),
            }
        },
    }
}

/// What is said of bytes that are no message of a shape.
pub fn explain(shape: Shape, bytes: &[u8]) -> (text: String)
    ensures
        text@ == decoding_text(shape, bytes@),
{
    let mut text: String = "failed to decode Protobuf message: ".to_owned();
    match merge(shape, bytes, 0, MAX_DEPTH) {
        Err((path, cause)) => {
            push_text(&mut text, path.as_str());
            push_text(&mut text, cause.text().as_str());
        },
        Ok(_) => {},
    }
    assert(text@ =~= decoding_text(shape, bytes@));
    text
}

} // verus!
