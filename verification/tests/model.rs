use grimoire::community::{CommunityId, MemberId};
use grimoire::crypto::member_of;
use grimoire::model::{
    channel_signing_bytes, legacy_text_signing_bytes, millis_of, text_signing_bytes, Attachment,
    AttachmentError, AuthoredText, Channel, ChannelError, ChannelId, ChannelKind, DisplayName,
    DisplayNameError, MessageError, MessageId, SignedCreateChannel, SignedText, TextMessage,
    VoiceFrame, VoiceFrameError, VoiceStreamId, MAX_ATTACHMENT_BYTES, MAX_ATTACHMENT_NAME_BYTES,
    MAX_CHANNEL_NAME_BYTES, MAX_DISPLAY_NAME_BYTES, MAX_TEXT_BYTES, MAX_VOICE_FRAME_BYTES,
};

use ed25519_dalek::{Signer, SigningKey};

#[test]
fn text_signature_binds_the_channel() {
    let signed = SignedText::sign(
        &[7; 32],
        TextMessage::in_channel(MessageId::from_bytes([3; 32]), ChannelId::general(), "hello")
            .unwrap(),
    );
    let moved = AuthoredText::new(
        signed.authored().author(),
        TextMessage::in_channel(
            MessageId::from_bytes([3; 32]),
            ChannelId::voice_room(),
            "hello",
        )
        .unwrap(),
    );
    assert!(SignedText::verified(moved, *signed.signature()).is_err());
}

#[test]
fn legacy_text_signatures_migrate_only_to_general() {
    let key = SigningKey::from_bytes(&[8; 32]);
    let message = TextMessage::new(MessageId::from_bytes([4; 32]), "legacy").unwrap();
    let signature = key.sign(&legacy_text_signing_bytes(&message)).to_bytes();
    let author = MemberId::from_bytes(key.verifying_key().to_bytes());
    assert!(SignedText::verified(AuthoredText::new(author, message), signature).is_ok());

    let moved = TextMessage::in_channel(
        MessageId::from_bytes([4; 32]),
        ChannelId::voice_room(),
        "legacy",
    )
    .unwrap();
    assert!(SignedText::verified(AuthoredText::new(author, moved), signature).is_err());
}

#[test]
fn channel_names_are_bounded_and_clean() {
    assert!(Channel::new(ChannelId::general(), "", ChannelKind::Text).is_err());
    assert!(Channel::new(ChannelId::general(), " padded ", ChannelKind::Text).is_err());
    assert!(Channel::new(
        ChannelId::general(),
        &"x".repeat(MAX_CHANNEL_NAME_BYTES + 1),
        ChannelKind::Text,
    )
    .is_err());
}

#[test]
fn attachment_names_and_sizes_are_bounded() {
    let id = MessageId::from_bytes([5; 32]);
    assert!(Attachment::new(id, ChannelId::general(), "", vec![1]).is_err());
    assert!(Attachment::new(
        id,
        ChannelId::general(),
        &"x".repeat(MAX_ATTACHMENT_NAME_BYTES + 1),
        vec![1],
    )
    .is_err());
    assert!(Attachment::new(
        id,
        ChannelId::general(),
        "large.bin",
        vec![0; MAX_ATTACHMENT_BYTES + 1],
    )
    .is_err());
}

#[test]
fn display_names_are_bounded_and_clean() {
    assert_eq!(DisplayName::new(""), Err(DisplayNameError::Empty));
    assert_eq!(DisplayName::new(" padded "), Err(DisplayNameError::Invalid));
    assert_eq!(
        DisplayName::new("line\nbreak"),
        Err(DisplayNameError::Invalid)
    );
    assert_eq!(
        DisplayName::new(&"x".repeat(MAX_DISPLAY_NAME_BYTES + 1)),
        Err(DisplayNameError::TooLong)
    );
    assert_eq!(DisplayName::new("Alice").unwrap().as_str(), "Alice");
}

#[test]
fn names_at_their_limits_are_taken() {
    let widest = "x".repeat(MAX_DISPLAY_NAME_BYTES);
    assert_eq!(DisplayName::new(&widest).unwrap().as_str(), widest);
    let channel = Channel::new(
        ChannelId::general(),
        &"y".repeat(MAX_CHANNEL_NAME_BYTES),
        ChannelKind::Voice,
    )
    .unwrap();
    assert_eq!(channel.name().len(), MAX_CHANNEL_NAME_BYTES);
    assert_eq!(channel.kind(), ChannelKind::Voice);
    assert!(Attachment::validate_name(&"z".repeat(MAX_ATTACHMENT_NAME_BYTES)).is_ok());
}

#[test]
fn each_refusal_has_its_own_error() {
    let general = ChannelId::general();
    let id = MessageId::from_bytes([5; 32]);
    assert_eq!(
        Channel::new(general, "", ChannelKind::Text),
        Err(ChannelError::EmptyName)
    );
    assert_eq!(
        Channel::new(general, &"x".repeat(65), ChannelKind::Text),
        Err(ChannelError::NameTooLong)
    );
    assert_eq!(
        Channel::new(general, "tab\there", ChannelKind::Text),
        Err(ChannelError::InvalidName)
    );
    assert_eq!(TextMessage::new(id, ""), Err(MessageError::Empty));
    assert_eq!(
        TextMessage::new(id, &"x".repeat(MAX_TEXT_BYTES + 1)),
        Err(MessageError::TooLong)
    );
    assert_eq!(
        Attachment::new(id, general, "a.bin", vec![]),
        Err(AttachmentError::Empty)
    );
    assert_eq!(
        Attachment::new(id, general, "a.bin", vec![0; MAX_ATTACHMENT_BYTES + 1]),
        Err(AttachmentError::TooLarge)
    );
    assert_eq!(
        Attachment::new(id, general, " padded", vec![1]),
        Err(AttachmentError::InvalidName)
    );
    let stream = VoiceStreamId::from_bytes([1; 16]);
    assert_eq!(
        VoiceFrame::new(stream, 0, vec![]),
        Err(VoiceFrameError::Empty)
    );
    assert_eq!(
        VoiceFrame::new(stream, 0, vec![0; MAX_VOICE_FRAME_BYTES + 1]),
        Err(VoiceFrameError::TooLarge)
    );
    assert_eq!(
        VoiceFrame::new(stream, 0, vec![0; MAX_VOICE_FRAME_BYTES])
            .unwrap()
            .payload()
            .len(),
        MAX_VOICE_FRAME_BYTES
    );
}

#[test]
fn text_signing_bytes_spell_the_message() {
    let message = TextMessage::in_channel(
        MessageId::from_bytes([3; 32]),
        ChannelId::from_bytes([9; 32]),
        "hello",
    )
    .unwrap();
    let bytes = text_signing_bytes(&message);
    assert!(bytes.ends_with(b"hello"));
    assert!(bytes.windows(32).any(|part| part == [3; 32]));
    assert!(bytes.windows(32).any(|part| part == [9; 32]));
    let legacy = legacy_text_signing_bytes(&message);
    assert!(!legacy.windows(32).any(|part| part == [9; 32]));
}

#[test]
fn signed_texts_name_their_author() {
    let signed = SignedText::sign(
        &[7; 32],
        TextMessage::new(MessageId::from_bytes([3; 32]), "hello").unwrap(),
    );
    let key = SigningKey::from_bytes(&[7; 32]);
    assert_eq!(
        signed.authored().author().as_bytes(),
        &key.verifying_key().to_bytes()
    );
    assert_eq!(signed.authored().author(), member_of(&[7; 32]));
    assert_eq!(
        signed.signature(),
        &key.sign(&text_signing_bytes(signed.authored().message()))
            .to_bytes()
    );
    assert!(SignedText::verified(signed.authored().clone(), *signed.signature()).is_ok());
}

#[test]
fn channels_are_signed_for_one_community() {
    let owner = member_of(&[1; 32]);
    let here = CommunityId::from_bytes([2; 32]);
    let elsewhere = CommunityId::from_bytes([3; 32]);
    let channel = Channel::new(ChannelId::from_bytes([4; 32]), "notes", ChannelKind::Text).unwrap();
    let signed = SignedCreateChannel::sign(&[1; 32], here, channel.clone());
    assert_ne!(
        channel_signing_bytes(here, &channel),
        channel_signing_bytes(elsewhere, &channel)
    );
    assert!(
        SignedCreateChannel::verified(owner, here, channel.clone(), *signed.signature()).is_ok()
    );
    assert!(
        SignedCreateChannel::verified(owner, elsewhere, channel.clone(), *signed.signature())
            .is_err()
    );
    assert!(SignedCreateChannel::verified(
        member_of(&[9; 32]),
        here,
        channel,
        *signed.signature()
    )
    .is_err());
}

#[test]
fn message_ids_start_with_the_time() {
    let id = MessageId::stamped(0x0102_0304_0506_0708, [0xaa; 32]);
    assert_eq!(id.as_bytes()[..8], [1, 2, 3, 4, 5, 6, 7, 8]);
    assert_eq!(id.as_bytes()[8..], [0xaa; 24]);
    assert!(MessageId::stamped(5, [0xff; 32]) < MessageId::stamped(6, [0; 32]));
    assert_eq!(millis_of(None), 0);
    assert_eq!(millis_of(Some((12, 345_678_901))), 12_345);
    assert_eq!(millis_of(Some((u64::MAX, 0))), u64::MAX);
    assert_ne!(MessageId::generate(), MessageId::generate());
    assert_ne!(ChannelId::generate(), ChannelId::generate());
    assert_ne!(CommunityId::generate(), CommunityId::generate());
}

#[test]
fn every_community_starts_with_two_channels() {
    let [general, voice] = Channel::default_channels();
    assert_eq!(general.id(), ChannelId::general());
    assert_eq!(general.name(), "general");
    assert_eq!(general.kind(), ChannelKind::Text);
    assert_eq!(voice.id(), ChannelId::voice_room());
    assert_eq!(voice.name(), "Voice Room");
    assert_eq!(voice.kind(), ChannelKind::Voice);
    assert!(general.same(&general.clone()));
    assert!(!general.same(&voice));
}
