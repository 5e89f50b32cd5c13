//! What holds of bytes that are no message: there is a place where they go wrong, and a cause.

use vstd::prelude::*;
use vstd::utf8::valid_utf8;

use crate::decoding::{field_in, merged, merged_field, value_after, Content, Shape};
use crate::protobuf::{group_after, key_in, read_varint, sized, skipped, varint_bounds, MAX_DEPTH};
use crate::wire::{
    attachment_of, body_at, body_of, bytes_at, content_key_envelope_of, create_channel_of,
    encrypted_text_identity_of, first_field, identity_in, key_registration_of, member_profile_of,
    membership_change_of, number_at, operation_in, parsed, state_at, text_at, text_inventory_of,
    text_message_of, voice_frame_in, voice_frame_of, voice_presence_of, voice_presence_payload_in,
    voice_presence_payload_of, FieldModel,
};

verus! {

/// Whether reading stops at the same place whether or not more bytes follow: what remains of the
/// longer bytes is what remains of the shorter ones and the `more` bytes behind them.
pub open spec fn stops_alike<E>(short: Result<nat, E>, long: Result<nat, E>, more: nat) -> bool {
    &&& short matches Ok(left) ==> (long matches Ok(other) && other == left + more)
    &&& long matches Ok(left) ==> (left >= more ==> (short matches Ok(other) && other == left - more))
}

proof fn varint_prefix(front: Seq<u8>, tail: Seq<u8>, count: nat)
    ensures
        read_varint(front, count) is Some ==> read_varint(front + tail, count) == read_varint(
            front,
            count,
        ),
        read_varint(front + tail, count) matches Some(pair) ==> (pair.1 <= front.len()
            ==> read_varint(front, count) == Some(pair)),
    decreases front.len(),
{
    let bytes = front + tail;
    if front.len() == 0 {
        varint_bounds(bytes, count);
    } else if count < 10 && front[0] >= 128 {
        assert(bytes.skip(1) =~= front.skip(1) + tail);
        varint_prefix(front.skip(1), tail, count + 1);
    }
}

proof fn skip_bounds(kind: u64, tag: u32, bytes: Seq<u8>, depth: nat)
    ensures
        skipped(kind, tag, bytes, depth) matches Ok(left) ==> left <= bytes.len(),
    decreases bytes.len(), 1nat,
{
    varint_bounds(bytes, 0);
    if kind == 3 {
        group_bounds(tag, bytes, depth);
    }
}

proof fn group_bounds(tag: u32, bytes: Seq<u8>, depth: nat)
    ensures
        group_after(tag, bytes, depth) matches Ok(left) ==> left < bytes.len(),
    decreases bytes.len(), 0nat,
{
    varint_bounds(bytes, 0);
    if let Ok((inner, kind, used)) = key_in(bytes) {
        if kind != 4 {
            if let Ok(left) = skipped(kind, inner, bytes.skip(used as int), (depth - 1) as nat) {
                if left < bytes.len() {
                    group_bounds(tag, bytes.skip(bytes.len() - left), depth);
                }
            }
        }
    }
}

proof fn skip_prefix(kind: u64, tag: u32, front: Seq<u8>, tail: Seq<u8>, depth: nat)
    ensures
        stops_alike(
            skipped(kind, tag, front, depth),
            skipped(kind, tag, front + tail, depth),
            tail.len(),
        ),
    decreases front.len(), 1nat,
{
    varint_prefix(front, tail, 0);
    varint_bounds(front, 0);
    varint_bounds(front + tail, 0);
    if kind == 3 {
        group_prefix(tag, front, tail, depth);
    }
}

proof fn group_prefix(tag: u32, front: Seq<u8>, tail: Seq<u8>, depth: nat)
    ensures
        stops_alike(
            group_after(tag, front, depth),
            group_after(tag, front + tail, depth),
            tail.len(),
        ),
    decreases front.len(), 0nat,
{
    let bytes = front + tail;
    varint_prefix(front, tail, 0);
    varint_bounds(front, 0);
    varint_bounds(bytes, 0);
    let below = (depth - 1) as nat;
    if let Ok((inner, kind, used)) = key_in(front) {
        assert(key_in(bytes) == key_in(front));
        if kind != 4 {
            let rest = front.skip(used as int);
            assert(bytes.skip(used as int) =~= rest + tail);
            skip_prefix(kind, inner, rest, tail, below);
            skip_bounds(kind, inner, rest, below);
            skip_bounds(kind, inner, rest + tail, below);
            if let Ok(left) = skipped(kind, inner, rest, below) {
                assert(bytes.skip(bytes.len() - (left + tail.len())) =~= front.skip(
                    front.len() - left,
                ) + tail);
                group_prefix(tag, front.skip(front.len() - left), tail, depth);
            } else if let Ok(left) = skipped(kind, inner, rest + tail, below) {
                group_bounds(tag, bytes.skip(bytes.len() - left), depth);
            }
        }
    } else if let Ok((inner, kind, used)) = key_in(bytes) {
        // The key takes more than the front.
        if kind != 4 {
            skip_bounds(kind, inner, bytes.skip(used as int), below);
            if let Ok(left) = skipped(kind, inner, bytes.skip(used as int), below) {
                group_bounds(tag, bytes.skip(bytes.len() - left), depth);
            }
        }
    }
}

proof fn merge_bounds(shape: Shape, bytes: Seq<u8>, limit: nat, depth: nat)
    ensures
        merged(shape, bytes, limit, depth) matches Ok(left) ==> left <= bytes.len(),
    decreases bytes.len(), 2nat,
{
    varint_bounds(bytes, 0);
    if bytes.len() > limit {
        if let Ok((tag, kind, used)) = key_in(bytes) {
            if let Ok(left) = merged_field(shape, tag, kind, bytes.skip(used as int), depth) {
                if left < bytes.len() {
                    merge_bounds(shape, bytes.skip(bytes.len() - left), limit, depth);
                }
            }
        }
    }
}

proof fn field_bounds(shape: Shape, tag: u32, kind: u64, bytes: Seq<u8>, depth: nat)
    ensures
        merged_field(shape, tag, kind, bytes, depth) matches Ok(left) ==> left <= bytes.len(),
{
    skip_bounds(kind, tag, bytes, depth);
    varint_bounds(bytes, 0);
}

proof fn merge_prefix(shape: Shape, front: Seq<u8>, tail: Seq<u8>, limit: nat, depth: nat)
    ensures
        stops_alike(
            merged(shape, front, limit, depth),
            merged(shape, front + tail, limit + tail.len(), depth),
            tail.len(),
        ),
    decreases front.len(), 2nat,
{
    let bytes = front + tail;
    varint_prefix(front, tail, 0);
    varint_bounds(front, 0);
    varint_bounds(bytes, 0);
    if front.len() > limit {
        if let Ok((tag, kind, used)) = key_in(front) {
            assert(key_in(bytes) == key_in(front));
            let rest = front.skip(used as int);
            assert(bytes.skip(used as int) =~= rest + tail);
            field_prefix(shape, tag, kind, rest, tail, depth);
            field_bounds(shape, tag, kind, rest, depth);
            field_bounds(shape, tag, kind, rest + tail, depth);
            if let Ok(left) = merged_field(shape, tag, kind, rest, depth) {
                assert(bytes.skip(bytes.len() - (left + tail.len())) =~= front.skip(
                    front.len() - left,
                ) + tail);
                merge_prefix(shape, front.skip(front.len() - left), tail, limit, depth);
            } else if let Ok(left) = merged_field(shape, tag, kind, rest + tail, depth) {
                merge_bounds(shape, bytes.skip(bytes.len() - left), limit + tail.len(), depth);
            }
        } else if let Ok((tag, kind, used)) = key_in(bytes) {
            field_bounds(shape, tag, kind, bytes.skip(used as int), depth);
            if let Ok(left) = merged_field(shape, tag, kind, bytes.skip(used as int), depth) {
                merge_bounds(shape, bytes.skip(bytes.len() - left), limit + tail.len(), depth);
            }
        }
    }
}

proof fn field_prefix(
    shape: Shape,
    tag: u32,
    kind: u64,
    front: Seq<u8>,
    tail: Seq<u8>,
    depth: nat,
)
    ensures
        stops_alike(
            merged_field(shape, tag, kind, front, depth),
            merged_field(shape, tag, kind, front + tail, depth),
            tail.len(),
        ),
    decreases front.len(), 1nat,
{
    match field_in(shape, tag) {
        None => {
            skip_prefix(kind, tag, front, tail, depth);
        },
        Some((_, content)) => {
            value_prefix(content, kind, front, tail, depth);
        },
    }
}

proof fn value_prefix(content: Content, kind: u64, front: Seq<u8>, tail: Seq<u8>, depth: nat)
    ensures
        stops_alike(
            value_after(content, kind, front, depth),
            value_after(content, kind, front + tail, depth),
            tail.len(),
        ),
    decreases front.len(), 0nat,
{
    let bytes = front + tail;
    varint_prefix(front, tail, 0);
    varint_bounds(front, 0);
    varint_bounds(bytes, 0);
    if let Ok((start, end)) = sized(front) {
        assert(sized(bytes) == sized(front));
        assert(bytes.subrange(start as int, end as int) =~= front.subrange(start as int, end as int));
        if let Content::Message(inner) = content {
            if depth > 0 {
                assert(bytes.skip(start as int) =~= front.skip(start as int) + tail);
                merge_prefix(
                    inner,
                    front.skip(start as int),
                    tail,
                    (front.len() - end) as nat,
                    (depth - 1) as nat,
                );
                assert((bytes.len() - end) as nat == (front.len() - end) as nat + tail.len());
            }
        }
    }
}

/// Whether a field holds what it should.
pub open spec fn holds(content: Content, field: FieldModel, depth: nat) -> bool {
    match content {
        Content::Number => field is Number,
        Content::Bytes => field is Bytes,
        Content::Text => field matches FieldModel::Bytes { bytes, .. } && valid_utf8(bytes),
        Content::Message(inner) => field matches FieldModel::Bytes { bytes, .. } && depth > 0
            && merged(inner, bytes, 0, (depth - 1) as nat) is Ok,
    }
}

/// Whether a field of a message holds what it should, should the message know it.
pub open spec fn fits(shape: Shape, field: FieldModel, depth: nat) -> bool {
    field_in(shape, field.tag()) matches Some(known) ==> holds(known.1, field, depth)
}

/// Whether all fields of a message hold what they should.
pub open spec fn all_fit(shape: Shape, fields: Seq<FieldModel>, depth: nat) -> bool {
    forall|i: int| 0 <= i < fields.len() ==> fits(shape, #[trigger] fields[i], depth)
}

proof fn first_field_merges(shape: Shape, bytes: Seq<u8>, depth: nat)
    requires
        bytes.len() > 0,
        depth > 0,
    ensures
        match key_in(bytes) {
            Err(_) => first_field(bytes, depth) is None,
            Ok((tag, kind, used)) => match merged_field(
                shape,
                tag,
                kind,
                bytes.skip(used as int),
                depth,
            ) {
                Ok(left) => left < bytes.len() && (first_field(bytes, depth) matches Some(pair)
                    && pair.1 == left && fits(shape, pair.0, depth)),
                Err(_) => !(first_field(bytes, depth) matches Some(pair) && fits(
                    shape,
                    pair.0,
                    depth,
                )),
            },
        },
{
    varint_bounds(bytes, 0);
    if let Ok((tag, kind, used)) = key_in(bytes) {
        let rest = bytes.skip(used as int);
        varint_bounds(rest, 0);
        skip_bounds(kind, tag, rest, depth);
        if let Some((_, Content::Message(inner))) = field_in(shape, tag) {
            if let Ok((start, end)) = sized(rest) {
                let part = rest.subrange(start as int, end as int);
                let tail = rest.skip(end as int);
                assert(rest.skip(start as int) =~= part + tail);
                merge_prefix(inner, part, tail, 0, (depth - 1) as nat);
                merge_bounds(inner, part, 0, (depth - 1) as nat);
                small_rest(inner, part, (depth - 1) as nat);
            }
        }
    }
}

proof fn small_rest(shape: Shape, bytes: Seq<u8>, depth: nat)
    ensures
        merged(shape, bytes, 0, depth) matches Ok(left) ==> left == 0,
    decreases bytes.len(),
{
    if bytes.len() > 0 {
        if let Ok((tag, kind, used)) = key_in(bytes) {
            if let Ok(left) = merged_field(shape, tag, kind, bytes.skip(used as int), depth) {
                if left < bytes.len() {
                    small_rest(shape, bytes.skip(bytes.len() - left), depth);
                }
            }
        }
    }
}

proof fn merging_is_parsing(shape: Shape, bytes: Seq<u8>, depth: nat)
    requires
        depth > 0,
    ensures
        merged(shape, bytes, 0, depth) is Ok <==> (parsed(bytes, depth) matches Some(fields)
            && all_fit(shape, fields, depth)),
    decreases bytes.len(),
{
    if bytes.len() > 0 {
        first_field_merges(shape, bytes, depth);
        varint_bounds(bytes, 0);
        if let Some((field, left)) = first_field(bytes, depth) {
            if left < bytes.len() {
                let rest = bytes.skip(bytes.len() - left);
                merging_is_parsing(shape, rest, depth);
                if let Some(fields) = parsed(rest, depth) {
                    let all = seq![field] + fields;
                    assert(all[0] == field);
                    assert forall|i: int| 0 <= i < fields.len() implies fields[i] == #[trigger] all[i
                        + 1] by {}
                    if all_fit(shape, all, depth) {
                        assert forall|i: int| 0 <= i < fields.len() implies fits(
                            shape,
                            #[trigger] fields[i],
                            depth,
                        ) by {
                            assert(all[i + 1] == fields[i]);
                        }
                    }
                    if fits(shape, field, depth) && all_fit(shape, fields, depth) {
                        assert forall|i: int| 0 <= i < all.len() implies fits(
                            shape,
                            #[trigger] all[i],
                            depth,
                        ) by {
                            if i > 0 {
                                assert(all[i] == fields[i - 1]);
                            }
                        }
                    }
                }
            }
        }
    }
}

proof fn numbers_fit(fields: Seq<FieldModel>, tag: u32)
    ensures
        number_at(fields, tag) is Some <==> forall|i: int|
            0 <= i < fields.len() && (#[trigger] fields[i]).tag() == tag ==> fields[i] is Number,
    decreases fields.len(),
{
    if fields.len() > 0 {
        let before = fields.drop_last();
        numbers_fit(before, tag);
        assert(fields[fields.len() - 1] == fields.last());
        assert forall|i: int| 0 <= i < before.len() implies before[i] == #[trigger] fields[i] by {}
        if number_at(before, tag) is None {
            let i = choose|i: int|
                0 <= i < before.len() && (#[trigger] before[i]).tag() == tag && !(before[i] is Number);
            assert(fields[i] == before[i]);
        }
    }
}

proof fn byte_strings_fit(fields: Seq<FieldModel>, tag: u32)
    ensures
        bytes_at(fields, tag) is Some <==> forall|i: int|
            0 <= i < fields.len() && (#[trigger] fields[i]).tag() == tag ==> fields[i] is Bytes,
    decreases fields.len(),
{
    if fields.len() > 0 {
        let before = fields.drop_last();
        byte_strings_fit(before, tag);
        assert(fields[fields.len() - 1] == fields.last());
        assert forall|i: int| 0 <= i < before.len() implies before[i] == #[trigger] fields[i] by {}
        if bytes_at(before, tag) is None {
            let i = choose|i: int|
                0 <= i < before.len() && (#[trigger] before[i]).tag() == tag && !(before[i] is Bytes);
            assert(fields[i] == before[i]);
        }
    }
}

/// Whether a field holds a text.
pub open spec fn is_text(field: FieldModel) -> bool {
    field matches FieldModel::Bytes { bytes, .. } && valid_utf8(bytes)
}

proof fn texts_fit(fields: Seq<FieldModel>, tag: u32)
    ensures
        text_at(fields, tag) is Some <==> forall|i: int|
            0 <= i < fields.len() && (#[trigger] fields[i]).tag() == tag ==> is_text(fields[i]),
    decreases fields.len(),
{
    if fields.len() > 0 {
        let before = fields.drop_last();
        texts_fit(before, tag);
        assert(fields[fields.len() - 1] == fields.last());
        assert forall|i: int| 0 <= i < before.len() implies before[i] == #[trigger] fields[i] by {}
        if text_at(before, tag) is None {
            let i = choose|i: int|
                0 <= i < before.len() && (#[trigger] before[i]).tag() == tag && !is_text(before[i]);
            assert(fields[i] == before[i]);
        }
    }
}

proof fn text_message_fits(fields: Seq<FieldModel>, depth: nat)
    ensures
        text_message_of(fields) is Some <==> all_fit(Shape::TextMessage, fields, depth),
{
    byte_strings_fit(fields, 1);
    texts_fit(fields, 2);
    byte_strings_fit(fields, 3);
    byte_strings_fit(fields, 4);
    byte_strings_fit(fields, 5);
    numbers_fit(fields, 6);
    byte_strings_fit(fields, 7);
    byte_strings_fit(fields, 8);
    byte_strings_fit(fields, 9);
}

proof fn membership_change_fits(fields: Seq<FieldModel>, depth: nat)
    ensures
        membership_change_of(fields) is Some <==> all_fit(Shape::MembershipChange, fields, depth),
{
    numbers_fit(fields, 1);
    byte_strings_fit(fields, 2);
    numbers_fit(fields, 3);
    byte_strings_fit(fields, 4);
    numbers_fit(fields, 5);
}

proof fn create_channel_fits(fields: Seq<FieldModel>, depth: nat)
    ensures
        create_channel_of(fields) is Some <==> all_fit(Shape::CreateChannel, fields, depth),
{
    byte_strings_fit(fields, 1);
    texts_fit(fields, 2);
    numbers_fit(fields, 3);
    byte_strings_fit(fields, 4);
}

proof fn key_registration_fits(fields: Seq<FieldModel>, depth: nat)
    ensures
        key_registration_of(fields) is Some <==> all_fit(Shape::KeyRegistration, fields, depth),
{
    byte_strings_fit(fields, 1);
    byte_strings_fit(fields, 2);
    byte_strings_fit(fields, 3);
}

proof fn content_key_envelope_fits(fields: Seq<FieldModel>, depth: nat)
    ensures
        content_key_envelope_of(fields) is Some <==> all_fit(Shape::ContentKeyEnvelope, fields, depth),
{
    numbers_fit(fields, 1);
    byte_strings_fit(fields, 2);
    byte_strings_fit(fields, 3);
    byte_strings_fit(fields, 4);
    byte_strings_fit(fields, 5);
    byte_strings_fit(fields, 6);
}

proof fn attachment_fits(fields: Seq<FieldModel>, depth: nat)
    ensures
        attachment_of(fields) is Some <==> all_fit(Shape::Attachment, fields, depth),
{
    byte_strings_fit(fields, 1);
    byte_strings_fit(fields, 2);
    byte_strings_fit(fields, 3);
    numbers_fit(fields, 4);
    byte_strings_fit(fields, 5);
    byte_strings_fit(fields, 6);
    byte_strings_fit(fields, 7);
    byte_strings_fit(fields, 8);
}

proof fn member_profile_fits(fields: Seq<FieldModel>, depth: nat)
    ensures
        member_profile_of(fields) is Some <==> all_fit(Shape::MemberProfile, fields, depth),
{
    byte_strings_fit(fields, 1);
    numbers_fit(fields, 2);
    numbers_fit(fields, 3);
    byte_strings_fit(fields, 4);
    byte_strings_fit(fields, 5);
    byte_strings_fit(fields, 6);
    byte_strings_fit(fields, 7);
}

proof fn voice_presence_fits(fields: Seq<FieldModel>, depth: nat)
    ensures
        voice_presence_of(fields) is Some <==> all_fit(Shape::VoicePresence, fields, depth),
{
    numbers_fit(fields, 1);
    byte_strings_fit(fields, 2);
    byte_strings_fit(fields, 3);
    byte_strings_fit(fields, 4);
}

proof fn encrypted_text_identity_fits(fields: Seq<FieldModel>, depth: nat)
    ensures
        encrypted_text_identity_of(fields) is Some <==> all_fit(Shape::EncryptedTextIdentity, fields, depth),
{
    byte_strings_fit(fields, 1);
    byte_strings_fit(fields, 2);
}

proof fn voice_frame_fits(fields: Seq<FieldModel>, depth: nat)
    ensures
        voice_frame_of(fields) is Some <==> all_fit(Shape::VoiceFrame, fields, depth),
{
    byte_strings_fit(fields, 1);
    numbers_fit(fields, 2);
    byte_strings_fit(fields, 3);
    byte_strings_fit(fields, 4);
    numbers_fit(fields, 5);
    byte_strings_fit(fields, 6);
    byte_strings_fit(fields, 7);
}

proof fn voice_presence_payload_fits(fields: Seq<FieldModel>, depth: nat)
    ensures
        voice_presence_payload_of(fields) is Some <==> all_fit(
            Shape::VoicePresencePayload,
            fields,
            depth,
        ),
{
    byte_strings_fit(fields, 1);
    states_fit(fields);
}

proof fn states_fit(fields: Seq<FieldModel>)
    ensures
        state_at(fields) is Some <==> forall|i: int|
            0 <= i < fields.len() && 2 <= (#[trigger] fields[i]).tag() <= 4 ==> fields[i] is Number,
    decreases fields.len(),
{
    if fields.len() > 0 {
        let before = fields.drop_last();
        states_fit(before);
        assert(fields[fields.len() - 1] == fields.last());
        assert forall|i: int| 0 <= i < before.len() implies before[i] == #[trigger] fields[i] by {}
        if state_at(before) is None {
            let i = choose|i: int|
                0 <= i < before.len() && 2 <= (#[trigger] before[i]).tag() <= 4 && !(
                before[i] is Number);
            assert(fields[i] == before[i]);
        }
    }
}

proof fn identities_merge(bytes: Seq<u8>)
    ensures
        identity_in(bytes) is Some <==> merged(
            Shape::EncryptedTextIdentity,
            bytes,
            0,
            (MAX_DEPTH - 2) as nat,
        ) is Ok,
{
    merging_is_parsing(Shape::EncryptedTextIdentity, bytes, (MAX_DEPTH - 2) as nat);
    if let Some(fields) = parsed(bytes, (MAX_DEPTH - 2) as nat) {
        encrypted_text_identity_fits(fields, (MAX_DEPTH - 2) as nat);
    }
}

proof fn text_inventory_fits(fields: Seq<FieldModel>)
    ensures
        text_inventory_of(fields) is Some <==> all_fit(
            Shape::TextInventory,
            fields,
            (MAX_DEPTH - 1) as nat,
        ),
    decreases fields.len(),
{
    let depth = (MAX_DEPTH - 1) as nat;
    if fields.len() > 0 {
        let before = fields.drop_last();
        let last = fields.last();
        text_inventory_fits(before);
        if let FieldModel::Bytes { bytes, .. } = last {
            identities_merge(bytes);
        }
        prefix_fits(Shape::TextInventory, fields, depth);
    }
}

proof fn prefix_fits(shape: Shape, fields: Seq<FieldModel>, depth: nat)
    requires
        fields.len() > 0,
    ensures
        all_fit(shape, fields, depth) <==> all_fit(shape, fields.drop_last(), depth) && fits(
            shape,
            fields.last(),
            depth,
        ),
{
    let before = fields.drop_last();
    assert(fields[fields.len() - 1] == fields.last());
    if all_fit(shape, fields, depth) {
        assert forall|i: int| 0 <= i < before.len() implies fits(
            shape,
            #[trigger] before[i],
            depth,
        ) by {
            assert(before[i] == fields[i]);
        }
    }
    if all_fit(shape, before, depth) && fits(shape, fields.last(), depth) {
        assert forall|i: int| 0 <= i < fields.len() implies fits(
            shape,
            #[trigger] fields[i],
            depth,
        ) by {
            if i < before.len() {
                assert(before[i] == fields[i]);
            }
        }
    }
}

/// The message that an operation holds under a tag.
pub open spec fn body_shape(tag: u32) -> Shape {
    if tag == 1 {
        Shape::TextMessage
    } else if tag == 2 {
        Shape::MembershipChange
    } else if tag == 3 {
        Shape::CreateChannel
    } else if tag == 4 {
        Shape::KeyRegistration
    } else if tag == 5 {
        Shape::ContentKeyEnvelope
    } else if tag == 6 {
        Shape::Attachment
    } else if tag == 7 {
        Shape::MemberProfile
    } else if tag == 8 {
        Shape::VoicePresence
    } else {
        Shape::TextInventory
    }
}

proof fn body_fits(tag: u32, fields: Seq<FieldModel>)
    requires
        1 <= tag <= 9,
    ensures
        body_of(tag, fields) is Some <==> all_fit(
            body_shape(tag),
            fields,
            (MAX_DEPTH - 1) as nat,
        ),
{
    let depth = (MAX_DEPTH - 1) as nat;
    text_message_fits(fields, depth);
    membership_change_fits(fields, depth);
    create_channel_fits(fields, depth);
    key_registration_fits(fields, depth);
    content_key_envelope_fits(fields, depth);
    attachment_fits(fields, depth);
    member_profile_fits(fields, depth);
    voice_presence_fits(fields, depth);
    text_inventory_fits(fields);
}

proof fn bodies_fit(fields: Seq<FieldModel>)
    ensures
        body_at(fields) is Some <==> all_fit(Shape::Operation, fields, MAX_DEPTH as nat),
        body_at(fields) matches Some(Some(held)) ==> 1 <= held.0 <= 9 && all_fit(
            body_shape(held.0),
            held.1,
            (MAX_DEPTH - 1) as nat,
        ),
    decreases fields.len(),
{
    let below = (MAX_DEPTH - 1) as nat;
    if fields.len() > 0 {
        let before = fields.drop_last();
        bodies_fit(before);
        prefix_fits(Shape::Operation, fields, MAX_DEPTH as nat);
        if let FieldModel::Bytes { tag, bytes } = fields.last() {
            if 1 <= tag <= 9 {
                merging_is_parsing(body_shape(tag), bytes, below);
                if let Some(inner) = parsed(bytes, below) {
                    body_fits(tag, inner);
                    if let Some(Some((held, kept))) = body_at(before) {
                        if held == tag && all_fit(body_shape(tag), inner, below) {
                            let joined = kept + inner;
                            assert forall|i: int| 0 <= i < joined.len() implies fits(
                                body_shape(tag),
                                #[trigger] joined[i],
                                below,
                            ) by {
                                if i < kept.len() {
                                    assert(joined[i] == kept[i]);
                                } else {
                                    assert(joined[i] == inner[i - kept.len()]);
                                }
                            }
                        }
                    }
                }
            }
        }
    }
}

/// Bytes are no operation exactly where there is a place at which they go wrong.
pub proof fn no_operation_without_a_cause(bytes: Seq<u8>)
    ensures
        operation_in(bytes) is None <==> merged(Shape::Operation, bytes, 0, MAX_DEPTH as nat) is Err,
{
    merging_is_parsing(Shape::Operation, bytes, MAX_DEPTH as nat);
    if let Some(fields) = parsed(bytes, MAX_DEPTH as nat) {
        bodies_fit(fields);
        if let Some(Some((tag, held))) = body_at(fields) {
            body_fits(tag, held);
        }
    }
}

/// Bytes are no voice frame exactly where there is a place at which they go wrong.
pub proof fn no_voice_frame_without_a_cause(bytes: Seq<u8>)
    ensures
        voice_frame_in(bytes) is None <==> merged(Shape::VoiceFrame, bytes, 0, MAX_DEPTH as nat) is Err,
{
    merging_is_parsing(Shape::VoiceFrame, bytes, MAX_DEPTH as nat);
    if let Some(fields) = parsed(bytes, MAX_DEPTH as nat) {
        voice_frame_fits(fields, MAX_DEPTH as nat);
    }
}

/// Bytes are no statement about a voice channel exactly where there is a place at which they go wrong.
pub proof fn no_presence_without_a_cause(bytes: Seq<u8>)
    ensures
        voice_presence_payload_in(bytes) is None <==> merged(
            Shape::VoicePresencePayload,
            bytes,
            0,
            MAX_DEPTH as nat,
        ) is Err,
{
    merging_is_parsing(Shape::VoicePresencePayload, bytes, MAX_DEPTH as nat);
    if let Some(fields) = parsed(bytes, MAX_DEPTH as nat) {
        voice_presence_payload_fits(fields, MAX_DEPTH as nat);
    }
}

} // verus!
