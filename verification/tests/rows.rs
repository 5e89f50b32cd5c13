use grimoire::bytes::{byte_order, from_be64, same_bytes, to_array, to_be64, ByteOrder};
use grimoire::community::{CommunityId, MemberId, MembershipChange, SignedMembership};
use grimoire::crypto::{hpke_public, member_of, ContentEpoch, EncryptedText, KeyRegistration};
use grimoire::fault::{Fault, FaultKind};
use grimoire::model::{
    Channel, ChannelId, ChannelKind, MessageId, SignedCreateChannel, SignedText, TextMessage,
};
use grimoire::rows::{
    channel_from_row, channel_kind, community_id_from_row, cursor_from_row, encrypted_from_row,
    epoch_from_row, hpke_seed_from_row, identity_seed_from_row, member_from_row,
    membership_from_row, message_id_from_row, registration_from_row, signed_channel_from_row,
    signed_text_from_row, MembershipRow, TextRow,
};
use grimoire::sorted::SortedMap;
use grimoire::text::{push_decimal, read_hex_32, to_hex};

fn community() -> CommunityId {
    CommunityId::from_bytes([2; 32])
}

fn row(change: MembershipChange) -> MembershipRow {
    let signed = SignedMembership::sign(&[1; 32], community(), 7, change);
    MembershipRow {
        revision: 7,
        member: change.member().as_bytes().to_vec(),
        admitted: change.is_admission() as i64,
        availability: change.is_availability() as i64,
        signature: signed.signature().to_vec(),
        conflict_key: signed.conflict_key(),
    }
}

fn read(row: &MembershipRow) -> Result<SignedMembership, Fault> {
    membership_from_row(member_of(&[1; 32]), community(), row)
}

#[test]
fn stored_memberships_keep_their_role() {
    let member = MemberId::from_bytes([3; 32]);
    for change in [
        MembershipChange::Admit(member),
        MembershipChange::AdmitAvailability(member),
        MembershipChange::Remove(member),
    ] {
        let signed = read(&row(change)).unwrap();
        assert_eq!(signed.update().change(), change);
        assert_eq!(signed.update().revision(), 7);
    }
}

#[test]
fn damaged_memberships_are_refused() {
    let good = || row(MembershipChange::Admit(MemberId::from_bytes([3; 32])));
    let mut wrong = good();
    wrong.availability = 1;
    assert!(read(&wrong).is_err());
    let mut wrong = good();
    wrong.admitted = 0;
    wrong.availability = 1;
    assert_eq!(
        read(&wrong).unwrap_err().message(),
        "stored membership role is invalid"
    );
    let mut wrong = good();
    wrong.revision = -1;
    assert_eq!(
        read(&wrong).unwrap_err().message(),
        "stored membership revision is invalid"
    );
    let mut wrong = good();
    wrong.conflict_key[0] ^= 1;
    assert_eq!(
        read(&wrong).unwrap_err().message(),
        "stored membership conflict key is invalid"
    );
    let mut wrong = good();
    wrong.signature.pop();
    assert_eq!(
        read(&wrong).unwrap_err().message(),
        "stored membership signature is not 64 bytes"
    );
    let mut wrong = good();
    wrong.revision = 8;
    assert_eq!(read(&wrong).unwrap_err().kind(), FaultKind::Protocol);
}

#[test]
fn stored_texts_are_verified() {
    let signed = SignedText::sign(
        &[7; 32],
        TextMessage::new(MessageId::from_bytes([4; 32]), "hello").unwrap(),
    );
    let mut stored = TextRow {
        id: vec![4; 32],
        body: "hello".to_owned(),
        author: signed.authored().author().as_bytes().to_vec(),
        signature: signed.signature().to_vec(),
        channel_id: ChannelId::general().as_bytes().to_vec(),
    };
    assert_eq!(signed_text_from_row(&stored).unwrap(), signed);
    stored.body = "hullo".to_owned();
    assert!(signed_text_from_row(&stored).is_err());
}

#[test]
fn stored_channels_are_verified() {
    let owner = member_of(&[1; 32]);
    let channel = Channel::new(ChannelId::from_bytes([5; 32]), "notes", ChannelKind::Voice).unwrap();
    let signed = SignedCreateChannel::sign(&[1; 32], community(), channel.clone());
    let kind = channel_kind(ChannelKind::Voice);
    let read = signed_channel_from_row(
        owner,
        community(),
        &vec![5; 32],
        "notes",
        kind,
        &signed.signature().to_vec(),
    );
    assert_eq!(read.unwrap(), signed);
    assert_eq!(
        channel_from_row(channel.id(), "notes", kind).unwrap(),
        channel
    );
    assert_eq!(
        channel_from_row(channel.id(), "notes", 9).unwrap_err().message(),
        "stored channel kind is invalid"
    );
    assert!(channel_from_row(channel.id(), "", kind).is_err());
}

#[test]
fn stored_keys_have_their_lengths() {
    assert_eq!(
        epoch_from_row(3, &vec![1; 32], &vec![2; 32]).unwrap(),
        ContentEpoch {
            number: 3,
            head: [1; 32],
            key: [2; 32],
        }
    );
    assert_eq!(
        epoch_from_row(-1, &vec![1; 32], &vec![2; 32])
            .unwrap_err()
            .message(),
        "stored content epoch is invalid"
    );
    assert_eq!(
        epoch_from_row(3, &vec![1; 31], &vec![2; 32])
            .unwrap_err()
            .message(),
        "stored membership head is not 32 bytes"
    );
    assert!(identity_seed_from_row(&vec![1; 31]).is_err());
    assert_eq!(hpke_seed_from_row(&vec![9; 32]).unwrap(), [9; 32]);
    assert_eq!(
        community_id_from_row(&vec![2; 32]).unwrap(),
        community()
    );
    assert!(message_id_from_row(&vec![]).is_err());
    assert!(cursor_from_row(&vec![1; 33]).is_err());
    assert!(member_from_row(&vec![1; 31], "stored owner").is_err());
    let registration = KeyRegistration::sign(&[9; 32], community(), hpke_public(&[6; 32]));
    let read = registration_from_row(
        community(),
        registration.member(),
        &registration.public_key().to_vec(),
        &registration.signature().to_vec(),
    );
    assert_eq!(read.unwrap(), registration);
}

#[test]
fn stored_ciphertexts_read_back() {
    let message = TextMessage::new(MessageId::from_bytes([4; 32]), "hello").unwrap();
    let epoch = ContentEpoch {
        number: 3,
        head: [1; 32],
        key: [2; 32],
    };
    let sealed = EncryptedText::encrypt(&[7; 32], community(), epoch, &message);
    let read = |epoch: i64| {
        encrypted_from_row(
            sealed.id,
            &sealed.channel_id.as_bytes().to_vec(),
            &sealed.author.as_bytes().to_vec(),
            epoch,
            &sealed.head.to_vec(),
            &sealed.nonce.to_vec(),
            sealed.ciphertext.clone(),
            &sealed.signature.to_vec(),
        )
    };
    assert!(read(3).unwrap().same(&sealed));
    assert!(read(-3).is_err());
}

#[test]
fn bytes_are_compared_and_spelled() {
    assert_eq!(to_be64(0x0102), [0, 0, 0, 0, 0, 0, 1, 2]);
    assert_eq!(from_be64(&[9, 0, 0, 0, 0, 0, 0, 1, 2], 1), 0x0102);
    assert_eq!(byte_order(&[1, 2], &[1, 3]), ByteOrder::Before);
    assert_eq!(byte_order(&[2, 2], &[1, 3]), ByteOrder::After);
    assert!(same_bytes(&[1], &[1]) && !same_bytes(&[1], &[1, 2]));
    assert_eq!(to_array::<2>(&[1, 2]), Some([1, 2]));
    assert_eq!(to_array::<3>(&[1, 2]), None);
    let hex = to_hex(&[0x0f; 32]);
    assert_eq!(hex, "0f".repeat(32));
    assert_eq!(read_hex_32(hex.as_bytes()), Some([0x0f; 32]));
    let mut text = String::new();
    push_decimal(&mut text, u64::MAX);
    push_decimal(&mut text, 0);
    assert_eq!(text, "184467440737095516150");
}

#[test]
fn sorted_maps_keep_their_keys_in_order() {
    let mut map = SortedMap::new();
    for byte in [5, 1, 3] {
        assert_eq!(map.insert(MemberId::from_bytes([byte; 32]), byte), None);
    }
    assert_eq!(map.insert(MemberId::from_bytes([3; 32]), 9), Some(3));
    let keys: Vec<u8> = map.to_keys().iter().map(|key| key.as_bytes()[0]).collect();
    assert_eq!(keys, vec![1, 3, 5]);
    assert_eq!(map.get(MemberId::from_bytes([3; 32])), Some(&9));
    assert_eq!(map.remove(MemberId::from_bytes([1; 32])), Some(1));
    assert_eq!(map.remove(MemberId::from_bytes([1; 32])), None);
    assert_eq!(map.len(), 2);
}
