use grimoire::address::{CommunityInvite, PeerAddress};
use grimoire::community::{CommunityId, MemberId};
use grimoire::crypto::{
    decrypt_voice, encrypt_voice, genesis_head, hpke_public, member_of, read_attachment,
    read_presence, ContentEpoch, ContentKeyEnvelope, EncryptedAttachment, EncryptedMemberProfile,
    EncryptedText, EncryptedVoicePresence, KeyRegistration,
};
use grimoire::fault::FaultKind;
use grimoire::identity::{
    check_backup_size, decrypt, export, export_with, validate_passphrase, IdentityMaterial,
    BACKUP_BYTES,
};
use grimoire::model::{
    Attachment, ChannelId, DisplayName, MessageId, TextMessage, VoiceFrame, VoicePresence,
    VoiceStreamId,
};

fn community() -> CommunityId {
    CommunityId::from_bytes([1; 32])
}

fn epoch() -> ContentEpoch {
    ContentEpoch {
        number: 3,
        head: [2; 32],
        key: [3; 32],
    }
}

#[test]
fn encrypted_text_binds_ciphertext_and_community() {
    let community = CommunityId::from_bytes([1; 32]);
    let epoch = ContentEpoch {
        number: 3,
        head: [2; 32],
        key: [3; 32],
    };
    let message =
        TextMessage::in_channel(MessageId::from_bytes([4; 32]), ChannelId::general(), "secret")
            .unwrap();
    let encrypted = EncryptedText::encrypt(&[7; 32], community, epoch, &message);
    assert_eq!(
        encrypted.decrypt(community, &epoch.key).unwrap().message(),
        &message
    );
    assert!(encrypted
        .decrypt(CommunityId::from_bytes([9; 32]), &epoch.key)
        .is_err());
    let mut tampered = encrypted;
    tampered.ciphertext[0] ^= 1;
    assert!(tampered.decrypt(community, &epoch.key).is_err());
}

#[test]
fn hpke_envelope_opens_only_for_registered_recipient() {
    let community = CommunityId::from_bytes([5; 32]);
    let recipient_seed = [6; 32];
    let registration =
        KeyRegistration::sign(&[9; 32], community, hpke_public(&recipient_seed));
    let epoch = ContentEpoch {
        number: 1,
        head: [7; 32],
        key: [8; 32],
    };
    let envelope = ContentKeyEnvelope::seal(&[8; 32], community, epoch, &registration).unwrap();
    envelope.verify(member_of(&[8; 32]), community).unwrap();
    assert_eq!(
        envelope.open(community, &recipient_seed).unwrap().key,
        epoch.key
    );
    assert!(envelope.open(community, &[1; 32]).is_err());
}

#[test]
fn voice_presence_hides_channel_and_binds_the_connection_author() {
    let community = CommunityId::from_bytes([1; 32]);
    let author = MemberId::from_bytes([2; 32]);
    let epoch = ContentEpoch {
        number: 3,
        head: [4; 32],
        key: [5; 32],
    };
    let channel = ChannelId::from_bytes([6; 32]);
    let encrypted = EncryptedVoicePresence::encrypt(
        community,
        epoch,
        author,
        channel,
        VoicePresence::Muted(true),
    );

    assert!(!encrypted
        .ciphertext
        .windows(channel.as_bytes().len())
        .any(|window| window == channel.as_bytes()));
    assert_eq!(
        encrypted.decrypt(community, author, &epoch.key).unwrap(),
        (channel, VoicePresence::Muted(true))
    );
    assert!(encrypted
        .decrypt(community, MemberId::from_bytes([9; 32]), &epoch.key)
        .is_err());
    let mut tampered = encrypted;
    tampered.ciphertext[0] ^= 1;
    assert!(tampered.decrypt(community, author, &epoch.key).is_err());
}

#[test]
fn members_are_named_by_their_public_key() {
    let key = ed25519_dalek::SigningKey::from_bytes(&[7; 32]);
    assert_eq!(
        member_of(&[7; 32]).as_bytes(),
        &key.verifying_key().to_bytes()
    );
    assert_ne!(hpke_public(&[6; 32]), [6; 32]);
    assert_ne!(hpke_public(&[6; 32]), hpke_public(&[7; 32]));
}

#[test]
fn sealed_texts_carry_no_plain_text() {
    let message =
        TextMessage::in_channel(MessageId::from_bytes([4; 32]), ChannelId::general(), "secret")
            .unwrap();
    let sealed = EncryptedText::encrypt_with(&[7; 32], community(), epoch(), &message, [5; 24]);
    assert_eq!(sealed.ciphertext.len(), "secret".len() + 16);
    assert!(!sealed.ciphertext.windows(6).any(|part| part == b"secret"));
    assert_eq!(sealed.nonce, [5; 24]);
    assert_eq!(sealed.author, member_of(&[7; 32]));
    assert!(sealed.verify(community()).is_ok());

    let mut moved = sealed.clone();
    moved.channel_id = ChannelId::voice_room();
    assert!(moved.verify(community()).is_err());
    let mut renamed = sealed.clone();
    renamed.author = member_of(&[8; 32]);
    assert!(renamed.verify(community()).is_err());
    assert!(sealed.decrypt(community(), &[4; 32]).is_err());
    assert!(sealed.same(&sealed.clone()));
    assert!(!sealed.same(&moved));
}

#[test]
fn spoken_frames_open_in_their_place_only() {
    let frame = VoiceFrame::in_channel(
        VoiceStreamId::from_bytes([9; 16]),
        ChannelId::voice_room(),
        7,
        vec![1, 2, 3],
    )
    .unwrap();
    let author = member_of(&[7; 32]);
    let (nonce, payload) = encrypt_voice(community(), epoch(), author, &frame);
    assert_eq!(payload.len(), 3 + 16);
    let sealed = VoiceFrame::in_channel(
        VoiceStreamId::from_bytes([9; 16]),
        ChannelId::voice_room(),
        7,
        payload.clone(),
    )
    .unwrap();
    assert_eq!(
        decrypt_voice(community(), epoch(), author, &sealed, &nonce).unwrap(),
        vec![1, 2, 3]
    );
    let later = VoiceFrame::in_channel(
        VoiceStreamId::from_bytes([9; 16]),
        ChannelId::voice_room(),
        8,
        payload,
    )
    .unwrap();
    assert!(decrypt_voice(community(), epoch(), author, &later, &nonce).is_err());
    assert!(decrypt_voice(community(), epoch(), member_of(&[8; 32]), &sealed, &nonce).is_err());
}

#[test]
fn names_and_attachments_read_back() {
    let name = DisplayName::new("maren").unwrap();
    let profile = EncryptedMemberProfile::encrypt(&[7; 32], community(), epoch(), 4, &name);
    assert_eq!(profile.revision, 4);
    assert_eq!(
        profile.decrypt(community(), &epoch().key).unwrap().as_str(),
        "maren"
    );
    let mut later = profile.clone();
    later.revision = 5;
    assert!(later.verify(community()).is_err());
    assert!(!profile.same(&later));

    let attachment = Attachment::new(
        MessageId::from_bytes([4; 32]),
        ChannelId::general(),
        "signal.txt",
        b"signal".to_vec(),
    )
    .unwrap();
    let sealed = EncryptedAttachment::encrypt(&[7; 32], community(), epoch(), &attachment);
    let opened = sealed.decrypt(community(), &epoch().key).unwrap();
    assert_eq!(opened.attachment(), &attachment);
    assert_eq!(opened.author(), member_of(&[7; 32]));
    let mut tampered = sealed.clone();
    tampered.ciphertext[0] ^= 1;
    assert!(tampered.verify(community()).is_err());
    assert!(!sealed.same(&tampered));
}

#[test]
fn attachments_are_read_by_the_length_of_their_name() {
    let id = MessageId::from_bytes([4; 32]);
    let general = ChannelId::general();
    let read = read_attachment(id, general, &[0, 2, b'a', b'b', 9, 8]).unwrap();
    assert_eq!(read.name(), "ab");
    assert_eq!(read.bytes(), &[9, 8]);
    assert!(read_attachment(id, general, &[0]).is_err());
    assert!(read_attachment(id, general, &[0, 9, b'a']).is_err());
    assert!(read_attachment(id, general, &[0, 1, 0xff, 1]).is_err());
    assert!(read_attachment(id, general, &[0, 1, b'a']).is_err());
}

#[test]
fn presence_that_makes_no_sense_is_refused() {
    assert!(read_presence(&[]).is_err());
    assert!(read_presence(&[0xff]).is_err());
}

#[test]
fn registrations_belong_to_one_member_and_community() {
    let registration = KeyRegistration::sign(&[9; 32], community(), hpke_public(&[6; 32]));
    assert_eq!(registration.member(), member_of(&[9; 32]));
    assert!(KeyRegistration::verified(
        community(),
        registration.member(),
        *registration.public_key(),
        *registration.signature(),
    )
    .is_ok());
    assert!(KeyRegistration::verified(
        CommunityId::from_bytes([2; 32]),
        registration.member(),
        *registration.public_key(),
        *registration.signature(),
    )
    .is_err());
    assert!(KeyRegistration::verified(
        community(),
        registration.member(),
        hpke_public(&[7; 32]),
        *registration.signature(),
    )
    .is_err());
}

#[test]
fn envelopes_are_bound_to_their_owner() {
    let registration = KeyRegistration::sign(&[9; 32], community(), hpke_public(&[6; 32]));
    let envelope =
        ContentKeyEnvelope::seal(&[8; 32], community(), epoch(), &registration).unwrap();
    assert!(envelope.verify(member_of(&[7; 32]), community()).is_err());
    assert_eq!(envelope.ciphertext.len(), 48);
    assert_eq!(envelope.recipient, member_of(&[9; 32]));
    let opened = envelope.open(community(), &[6; 32]).unwrap();
    assert_eq!(opened, epoch());
    let mut tampered = envelope.clone();
    tampered.epoch = 4;
    assert!(tampered.verify(member_of(&[8; 32]), community()).is_err());
    assert!(envelope.seals_alike(&envelope.clone()));
    assert_ne!(
        genesis_head(community(), member_of(&[8; 32])),
        genesis_head(community(), member_of(&[9; 32]))
    );
}

fn material() -> IdentityMaterial {
    IdentityMaterial {
        identity_seed: [7; 32],
        hpke_seed: [6; 32],
        community_id: community(),
        owner: member_of(&[7; 32]),
        active_epoch: Some(epoch()),
    }
}

#[test]
fn backups_open_with_their_passphrase_only() {
    let backup = export("correct horse battery", &material()).unwrap();
    assert_eq!(backup.len(), BACKUP_BYTES);
    assert!(!backup.windows(32).any(|part| part == [7; 32]));
    assert_eq!(
        decrypt("correct horse battery", &backup).unwrap(),
        material()
    );
    let wrong = decrypt("incorrect horse battery", &backup).unwrap_err();
    assert_eq!(wrong.kind(), FaultKind::Protocol);
    let mut tampered = backup.clone();
    tampered[BACKUP_BYTES - 1] ^= 1;
    assert!(decrypt("correct horse battery", &tampered).is_err());
    assert!(decrypt("correct horse battery", &backup[..BACKUP_BYTES - 1]).is_err());
}

#[test]
fn backups_with_the_same_salt_and_nonce_are_the_same() {
    let without = IdentityMaterial {
        active_epoch: None,
        ..material()
    };
    let one = export_with("correct horse battery", &without, [1; 16], [2; 24]).unwrap();
    let two = export_with("correct horse battery", &without, [1; 16], [2; 24]).unwrap();
    let other = export_with("correct horse battery", &without, [3; 16], [2; 24]).unwrap();
    assert_eq!(one, two);
    assert_ne!(one, other);
    assert_eq!(decrypt("correct horse battery", &one).unwrap(), without);
}

#[test]
fn passphrases_have_a_shortest_length() {
    assert!(validate_passphrase("eleven char").is_err());
    assert!(validate_passphrase("twelve chars").is_ok());
    assert!(export("short", &material()).is_err());
}

#[test]
fn wiped_material_holds_no_secret() {
    let before = material();
    let mut wiped = before.clone();
    assert_eq!(wiped, before);
    wiped.wipe();
    assert_eq!(wiped.identity_seed, [0; 32]);
    assert_eq!(wiped.hpke_seed, [0; 32]);
    let (epoch, kept) = (wiped.active_epoch.unwrap(), before.active_epoch.unwrap());
    assert_ne!(kept.key, [0; 32]);
    assert_eq!(epoch.key, [0; 32]);
    assert_eq!((epoch.number, epoch.head), (kept.number, kept.head));
    assert_eq!((wiped.community_id, wiped.owner), (before.community_id, before.owner));
    let mut without = IdentityMaterial {
        active_epoch: None,
        ..material()
    };
    without.wipe();
    assert_eq!(without.active_epoch, None);
}

fn address() -> PeerAddress {
    let key = ed25519_dalek::SigningKey::from_bytes(&[7; 32]);
    let id = iroh::EndpointId::from_bytes(&key.verifying_key().to_bytes()).unwrap();
    let text = serde_json::to_string(&iroh::EndpointAddr::new(id)).unwrap();
    PeerAddress::from_text(&text).unwrap()
}

#[test]
fn addresses_name_their_member() {
    let address = address();
    assert_eq!(address.member_id(), member_of(&[7; 32]));
    assert_eq!(
        PeerAddress::from_text(address.as_text()).unwrap(),
        address
    );
    let error = PeerAddress::from_text("not an address").unwrap_err();
    assert!(error.to_text().contains(error.message()));
}

fn relayed(relay: &str) -> PeerAddress {
    let text = address()
        .as_text()
        .replace("[]", &format!("[{{\"Relay\":\"{relay}\"}}]"));
    PeerAddress::from_text(&text).unwrap()
}

#[test]
fn addresses_read_back_but_for_odd_relays() {
    assert!(address().reads_back());
    let ordinary = relayed("https://relay.example:443");
    assert!(ordinary.reads_back());
    assert!(ordinary.as_text().contains("https://relay.example/"));
    let invite = CommunityInvite::new(community(), ordinary);
    assert_eq!(CommunityInvite::from_text(&invite.to_text()).unwrap(), invite);

    let odd = relayed("file://h//C:/x");
    assert!(odd.as_text().contains("file://h/C:/x"));
    assert!(!odd.reads_back());
    let read = PeerAddress::from_text(odd.as_text()).unwrap();
    assert!(read.as_text().contains("file:///C:/x"));
    assert!(read.reads_back());
    assert_eq!(read.member_id(), odd.member_id());
}

#[test]
fn invites_read_back() {
    let invite = CommunityInvite::new(community(), address());
    let text = invite.to_text();
    assert_ne!(text, address().as_text());
    let read = CommunityInvite::from_text(&text).unwrap();
    assert_eq!(read, invite);
    assert_eq!(read.community_id(), community());
    assert_eq!(read.owner_address(), &address());
    assert!(CommunityInvite::from_text("grimoire").is_err());
    assert!(CommunityInvite::from_text(&text[1..]).is_err());
    assert!(CommunityInvite::from_text(&text.replace("01", "zz")).is_err());
}

#[test]
fn backups_have_one_size() {
    assert_eq!(check_backup_size(284), Ok(()));
    for size in [0, 283, 285] {
        assert_eq!(
            check_backup_size(size).unwrap_err().message(),
            "identity backup has an invalid size"
        );
    }
}

#[test]
fn nothing_is_sealed_for_keys_of_small_order() {
    let mut one = [0; 32];
    one[0] = 1;
    let mut minus_one = [0xff; 32];
    minus_one[0] = 0xec;
    minus_one[31] = 0x7f;
    for key in [[0; 32], one, minus_one] {
        let registration = KeyRegistration::sign(&[9; 32], community(), key);
        for _ in 0..8 {
            let fault = ContentKeyEnvelope::seal(&[8; 32], community(), epoch(), &registration)
                .unwrap_err();
            assert_eq!(fault.kind(), FaultKind::Protocol);
            assert_eq!(fault.message(), "Encapsulation failed");
        }
    }
    for seed in 0..16 {
        let registration = KeyRegistration::sign(&[9; 32], community(), hpke_public(&[seed; 32]));
        assert!(
            ContentKeyEnvelope::seal(&[8; 32], community(), epoch(), &registration).is_ok()
        );
    }
}
