use grimoire::community::{Community, CommunityId, MemberId, MembershipChange, SignedMembership};
use grimoire::crypto::{
    hpke_public, member_of, ContentEpoch, ContentKeyEnvelope, EncryptedAttachment,
    EncryptedMemberProfile, EncryptedText, EncryptedVoicePresence, KeyRegistration,
};
use grimoire::fault::{Fault, FaultKind};
use grimoire::metrics::{Counter, Metrics};
use grimoire::model::{
    Attachment, Channel, ChannelId, ChannelKind, DisplayName, Event, MessageId,
    SignedCreateChannel, TextMessage, VoicePresence,
};
use grimoire::names::TextIdentity;
use grimoire::operations::{
    attachment_operation, channel_operation, check_acknowledgement, check_length,
    decode_text_inventory, encode_text_inventory,
    encrypted_messages_missing, envelope_operation, member_profile_operation,
    membership_operation, read_attachment, read_channel, read_envelope, read_inventory_answer,
    read_member_profile,
    read_membership, read_registration, read_text, read_voice, read_voice_presence,
    registration_operation, short_member, text_inventory, text_operation,
    transition_subject, voice_presence_operation, MAX_OPERATION_BYTES,
};
use grimoire::outcome::{finish_profile_refresh, ApplyOutcome};
use grimoire::sorted::SortedMap;
use grimoire::wire::{self, Body};

fn member(byte: u8) -> MemberId {
    MemberId::from_bytes([byte; 32])
}

fn community() -> CommunityId {
    CommunityId::from_bytes([1; 32])
}

fn epoch() -> ContentEpoch {
    ContentEpoch {
        number: 3,
        head: [2; 32],
        key: [3; 32],
    }
}

fn text(id: u8) -> EncryptedText {
    EncryptedText {
        id: MessageId::from_bytes([id; 32]),
        channel_id: ChannelId::general(),
        author: member(1),
        epoch: 1,
        head: [3; 32],
        nonce: [4; 24],
        ciphertext: vec![5],
        signature: [6; 64],
    }
}

#[test]
fn profile_refresh_failure_keeps_membership_applied() {
    let mut outcome = ApplyOutcome {
        events: vec![Event::MembershipChanged(Community::new(member(1)))],
        ..ApplyOutcome::default()
    };

    finish_profile_refresh(
        &mut outcome,
        Err(Fault::protocol("profile refresh failed")),
    );

    assert!(matches!(outcome.events[0], Event::MembershipChanged(_)));
    assert!(matches!(outcome.events[1], Event::Fault(_)));
}

#[test]
fn complete_text_inventory_selects_no_payloads() {
    let author = member(1);
    let id = MessageId::from_bytes([2; 32]);
    let message = EncryptedText {
        id,
        channel_id: ChannelId::general(),
        author,
        epoch: 1,
        head: [3; 32],
        nonce: [4; 24],
        ciphertext: vec![5],
        signature: [6; 64],
    };

    let mut inventory = SortedMap::new();
    inventory.insert(TextIdentity { author, id }, ());
    assert!(encrypted_messages_missing(vec![message], &inventory).is_empty());
}

#[test]
fn oversized_text_inventory_falls_back_to_full_replay() {
    let author = member(1);
    let mut inventory = SortedMap::new();
    for index in 0..150_000_u64 {
        let mut id = [0; 32];
        id[..8].copy_from_slice(&index.to_be_bytes());
        inventory.insert(
            TextIdentity {
                author,
                id: MessageId::from_bytes(id),
            },
            (),
        );
    }

    let operation = Body::decode(&encode_text_inventory(&inventory)).expect("inventory decodes");
    let Some(Body::TextInventory(inventory)) = operation else {
        panic!("fallback is a text inventory");
    };
    assert!(inventory.messages.is_empty());
}

#[test]
fn counters_flow_into_snapshot() {
    let mut metrics = Metrics::default();
    metrics.messages_sent.inc();
    metrics.messages_sent.inc();
    metrics.decrypt_failures.inc();
    let snapshot = metrics.snapshot();
    assert_eq!(snapshot.messages_sent, 2);
    assert_eq!(snapshot.messages_received, 0);
    assert_eq!(snapshot.decrypt_failures, 1);
}

#[test]
fn every_count_is_counted_once() {
    let mut counter = Counter::default();
    for times in 0..1000 {
        assert_eq!(counter.get(), times);
        counter.inc();
    }
    assert_eq!(counter.get(), 1000);
}

#[test]
fn missing_texts_are_those_that_the_peer_does_not_list() {
    let held = vec![text(2), text(3), text(4)];
    let mut listed = SortedMap::new();
    listed.insert(
        TextIdentity {
            author: member(1),
            id: MessageId::from_bytes([3; 32]),
        },
        (),
    );
    let missing = encrypted_messages_missing(held, &listed);
    let ids: Vec<MessageId> = missing.iter().map(|text| text.id).collect();
    assert_eq!(
        ids,
        vec![MessageId::from_bytes([2; 32]), MessageId::from_bytes([4; 32])]
    );
}

#[test]
fn inventories_read_back() {
    let inventory = text_inventory(&vec![text(7), text(2)]);
    let bytes = encode_text_inventory(&inventory);
    let Some(Some(Body::TextInventory(message))) = Body::decode(&bytes) else {
        panic!("an inventory is a text inventory");
    };
    assert_eq!(message.messages.len(), 2);
    assert_eq!(decode_text_inventory(&message).unwrap(), inventory);
    let wrong = wire::TextInventory {
        messages: vec![wire::EncryptedTextIdentity {
            author: vec![1],
            id: vec![2; 32],
        }],
    };
    assert_eq!(
        decode_text_inventory(&wrong).unwrap_err().kind(),
        FaultKind::Protocol
    );
}

/// The body that comes out of the bytes of another.
fn carried(body: Body) -> Body {
    Body::decode(&body.encode()).unwrap().unwrap()
}

#[test]
fn texts_cross_the_wire() {
    let message =
        TextMessage::in_channel(MessageId::from_bytes([4; 32]), ChannelId::general(), "secret")
            .unwrap();
    let sealed = EncryptedText::encrypt(&[7; 32], community(), epoch(), &message);
    let Body::Text(carried) = carried(text_operation(&sealed)) else {
        panic!("a text stays a text");
    };
    assert!(read_text(carried).unwrap().same(&sealed));
}

#[test]
fn attachments_and_names_cross_the_wire() {
    let attachment = Attachment::new(
        MessageId::from_bytes([4; 32]),
        ChannelId::general(),
        "signal.txt",
        vec![7; 300],
    )
    .unwrap();
    let sealed = EncryptedAttachment::encrypt(&[7; 32], community(), epoch(), &attachment);
    let Body::Attachment(message) = carried(attachment_operation(&sealed)) else {
        panic!("an attachment stays an attachment");
    };
    assert!(read_attachment(message).unwrap().same(&sealed));

    let name = DisplayName::new("maren").unwrap();
    let profile = EncryptedMemberProfile::encrypt(&[7; 32], community(), epoch(), 4, &name);
    let Body::MemberProfile(message) = carried(member_profile_operation(&profile)) else {
        panic!("a name stays a name");
    };
    assert!(read_member_profile(message).unwrap().same(&profile));
}

#[test]
fn keys_and_channels_cross_the_wire() {
    let registration = KeyRegistration::sign(&[9; 32], community(), hpke_public(&[6; 32]));
    let Body::KeyRegistration(message) = carried(registration_operation(&registration)) else {
        panic!("a registration stays a registration");
    };
    assert_eq!(read_registration(message).unwrap(), registration);

    let envelope =
        ContentKeyEnvelope::seal(&[8; 32], community(), epoch(), &registration).unwrap();
    let Body::ContentKeyEnvelope(message) = carried(envelope_operation(&envelope)) else {
        panic!("an envelope stays an envelope");
    };
    let read = read_envelope(message).unwrap();
    assert!(read.seals_alike(&envelope));
    assert_eq!(read.signature, envelope.signature);

    let channel = Channel::new(ChannelId::from_bytes([5; 32]), "notes", ChannelKind::Voice).unwrap();
    let signed = SignedCreateChannel::sign(&[8; 32], community(), channel.clone());
    let Body::CreateChannel(message) = carried(channel_operation(&signed)) else {
        panic!("a channel stays a channel");
    };
    let (read, signature) = read_channel(message).unwrap();
    assert!(read.same(&channel));
    assert_eq!(&signature, signed.signature());
}

#[test]
fn memberships_cross_the_wire() {
    for change in [
        MembershipChange::Admit(member(2)),
        MembershipChange::AdmitAvailability(member(2)),
        MembershipChange::Remove(member(2)),
    ] {
        let signed = SignedMembership::sign(&[8; 32], community(), 7, change);
        let Body::Membership(message) = carried(membership_operation(&signed)) else {
            panic!("a membership stays a membership");
        };
        assert_eq!(read_membership(message).unwrap(), signed);
    }
}

#[test]
fn presences_cross_the_wire() {
    let sealed = EncryptedVoicePresence::encrypt(
        community(),
        epoch(),
        member_of(&[7; 32]),
        ChannelId::voice_room(),
        VoicePresence::Joined,
    );
    let Body::VoicePresence(message) = carried(voice_presence_operation(&sealed)) else {
        panic!("a presence stays a presence");
    };
    let read = read_voice_presence(message).unwrap();
    assert_eq!(read.ciphertext, sealed.ciphertext);
    assert_eq!(read.nonce, sealed.nonce);
    assert_eq!(
        read.decrypt(community(), member_of(&[7; 32]), &epoch().key)
            .unwrap(),
        (ChannelId::voice_room(), VoicePresence::Joined)
    );
}

#[test]
fn malformed_fields_are_refused() {
    let wrong = wire::MembershipChange {
        revision: 1,
        member: vec![1; 31],
        admitted: true,
        signature: vec![0; 64],
        availability: false,
    };
    assert_eq!(
        read_membership(wrong).unwrap_err().kind(),
        FaultKind::Protocol
    );
    let short = wire::VoiceFrame {
        stream_id: vec![1; 16],
        sequence: 0,
        payload: vec![1],
        channel_id: vec![1; 32],
        epoch: 1,
        membership_head: vec![1; 32],
        nonce: vec![1; 23],
    };
    assert!(read_voice(&short).is_err());
    assert!(Body::decode(&[0x0a, 0x05]).is_none());
    assert!(Body::decode(&[]).unwrap().is_none());
}

#[test]
fn unknown_fields_are_passed_over() {
    let identity = wire::EncryptedTextIdentity {
        author: vec![1; 32],
        id: vec![2; 32],
    };
    let inventory = Body::TextInventory(wire::TextInventory {
        messages: vec![identity],
    });
    let mut bytes = inventory.encode();
    bytes.extend_from_slice(&[0xf8, 0x7f, 0x05]);
    bytes.extend_from_slice(&[0xfb, 0x7f, 0x08, 0x01, 0xfc, 0x7f]);
    let Some(Some(Body::TextInventory(read))) = Body::decode(&bytes) else {
        panic!("an inventory is a text inventory");
    };
    assert_eq!(read.messages.len(), 1);
    bytes.extend_from_slice(&[0xfb, 0x7f, 0x08]);
    assert!(Body::decode(&bytes).is_none());
}

#[test]
fn long_numbers_cross_the_wire() {
    for sequence in [0, 1, 127, 128, 300, u64::MAX] {
        let frame = wire::VoiceFrame {
            stream_id: vec![1; 16],
            sequence,
            payload: vec![1, 2],
            channel_id: vec![3; 32],
            epoch: sequence,
            membership_head: vec![4; 32],
            nonce: vec![5; 24],
        };
        let read = wire::VoiceFrame::decode(&frame.encode()).unwrap();
        assert_eq!(read.sequence, sequence);
        assert_eq!(read.epoch, sequence);
        assert_eq!(read.payload, vec![1, 2]);
    }
}

#[test]
fn members_are_shown_by_six_bytes() {
    assert_eq!(short_member(member(0xab)), "abababababab");
}

#[test]
fn membership_operations_name_their_subject() {
    let signed = SignedMembership::sign(
        &[7; 32],
        community(),
        1,
        MembershipChange::Remove(member(4)),
    );
    assert_eq!(
        transition_subject(&membership_operation(&signed)),
        Some(member(4))
    );
    assert_eq!(transition_subject(&text_operation(&text(2))), None);
    let Body::Membership(mut damaged) = membership_operation(&signed) else {
        panic!("a change of membership is sent as one");
    };
    damaged.member.pop();
    assert_eq!(transition_subject(&Body::Membership(damaged)), None);
}

#[test]
fn long_operations_are_not_sent() {
    assert_eq!(check_length(MAX_OPERATION_BYTES), Ok(()));
    assert_eq!(
        check_length(MAX_OPERATION_BYTES + 1).unwrap_err().message(),
        "operation exceeds transport limit"
    );
}

#[test]
fn only_the_agreed_byte_acknowledges() {
    assert_eq!(check_acknowledgement(&[1]), Ok(()));
    for answer in [&[][..], &[0], &[1, 1]] {
        assert_eq!(
            check_acknowledgement(answer).unwrap_err().message(),
            "peer did not acknowledge persistence"
        );
    }
}

#[test]
fn inventories_are_read_from_answers() {
    let mut inventory = SortedMap::new();
    inventory.insert(
        TextIdentity {
            author: member(1),
            id: MessageId::from_bytes([2; 32]),
        },
        (),
    );
    let answer = encode_text_inventory(&inventory);
    assert_eq!(read_inventory_answer(&answer).unwrap(), inventory);
    assert_eq!(
        read_inventory_answer(&text_operation(&text(2)).encode())
            .unwrap_err()
            .message(),
        "peer did not respond with a text inventory"
    );
    assert_eq!(
        read_inventory_answer(&[0xff]).unwrap_err().message(),
        "failed to decode Protobuf message: invalid varint"
    );
}
