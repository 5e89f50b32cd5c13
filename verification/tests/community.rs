use grimoire::community::{
    legacy_membership_signing_bytes, membership_signing_bytes, replay, Community, CommunityError,
    CommunityId, MemberId, MemberRole, MembershipChange, MembershipUpdate, SignedMembership,
};
use grimoire::crypto::member_of;

use ed25519_dalek::SigningKey;

fn member(id: u8) -> MemberId {
    MemberId::from_bytes([id; 32])
}

#[test]
fn owner_controls_idempotent_membership_changes() {
    let owner = member(1);
    let alice = member(2);
    let mut community = Community::new(owner);

    assert_eq!(
        community.authorize_exchange(owner, alice),
        Err(CommunityError::MemberNotAdmitted)
    );

    assert_eq!(
        community.change_membership(owner, MembershipChange::Admit(alice)),
        Ok(true)
    );
    assert_eq!(community.authorize_exchange(owner, alice), Ok(()));
    assert_eq!(
        community.change_membership(owner, MembershipChange::Admit(alice)),
        Ok(false)
    );
    assert_eq!(
        community.change_membership(alice, MembershipChange::Remove(owner)),
        Err(CommunityError::OnlyOwnerMayChangeMembership)
    );
    assert_eq!(
        community.change_membership(owner, MembershipChange::Remove(owner)),
        Err(CommunityError::OwnerCannotBeRemoved)
    );
    assert_eq!(
        community.change_membership(owner, MembershipChange::Remove(alice)),
        Ok(true)
    );
    assert!(!community.contains(alice));
    assert_eq!(
        community.authorize_participant(alice),
        Err(CommunityError::MemberNotAdmitted)
    );
    assert_eq!(community.member_count(), 1);
}

#[test]
fn availability_role_is_authenticated_and_cannot_participate() {
    let owner_key = SigningKey::from_bytes(&[9; 32]);
    let owner = MemberId::from_bytes(owner_key.verifying_key().to_bytes());
    let availability = member(2);
    let community_id = CommunityId::from_bytes([7; 32]);
    let signed = SignedMembership::sign(
        &[9; 32],
        community_id,
        1,
        MembershipChange::AdmitAvailability(availability),
    );

    assert!(SignedMembership::verified(
        owner,
        community_id,
        MembershipUpdate::new(1, MembershipChange::Admit(availability)),
        *signed.signature(),
    )
    .is_err());
    assert!(SignedMembership::verified(
        owner,
        CommunityId::from_bytes([8; 32]),
        signed.update(),
        *signed.signature(),
    )
    .is_err());

    let mut community = Community::new(owner);
    assert_eq!(
        community.change_membership(owner, MembershipChange::AdmitAvailability(availability)),
        Ok(true)
    );
    assert_eq!(community.role(availability), Some(MemberRole::Availability));
    assert_eq!(community.authorize_exchange(owner, availability), Ok(()));
    assert_eq!(
        community.authorize_participant(availability),
        Err(CommunityError::MemberNotAdmitted)
    );
    assert_eq!(
        community.change_membership(owner, MembershipChange::AdmitAvailability(owner)),
        Err(CommunityError::OwnerCannotBeAvailability)
    );

    let participant = member(3);
    assert_eq!(
        community.change_membership(owner, MembershipChange::Admit(participant)),
        Ok(true)
    );
    assert_eq!(
        community.change_membership(owner, MembershipChange::AdmitAvailability(participant)),
        Err(CommunityError::ParticipantCannotBecomeAvailability)
    );
    assert_eq!(
        community.change_membership(owner, MembershipChange::Remove(participant)),
        Ok(true)
    );
    assert_eq!(
        community.change_membership(owner, MembershipChange::AdmitAvailability(participant)),
        Err(CommunityError::ParticipantCannotBecomeAvailability)
    );
}

#[test]
fn signed_changes_verify_under_the_owner_only() {
    let id = CommunityId::from_bytes([7; 32]);
    let signed =
        SignedMembership::sign(&[9; 32], id, 4, MembershipChange::Remove(member(2)));
    assert_eq!(signed.update().revision(), 4);
    assert_eq!(signed.update().change(), MembershipChange::Remove(member(2)));
    let again =
        SignedMembership::verified(member_of(&[9; 32]), id, signed.update(), *signed.signature());
    assert_eq!(again.unwrap(), signed);
    assert!(SignedMembership::verified(
        member_of(&[8; 32]),
        id,
        signed.update(),
        *signed.signature()
    )
    .is_err());
}

#[test]
fn signing_bytes_bind_every_part_of_a_change() {
    let id = CommunityId::from_bytes([7; 32]);
    let update = MembershipUpdate::new(1, MembershipChange::Admit(member(2)));
    let bytes = membership_signing_bytes(id, update);
    let others = [
        membership_signing_bytes(CommunityId::from_bytes([8; 32]), update),
        membership_signing_bytes(id, MembershipUpdate::new(2, update.change())),
        membership_signing_bytes(
            id,
            MembershipUpdate::new(1, MembershipChange::Admit(member(3))),
        ),
        membership_signing_bytes(
            id,
            MembershipUpdate::new(1, MembershipChange::Remove(member(2))),
        ),
        membership_signing_bytes(
            id,
            MembershipUpdate::new(1, MembershipChange::AdmitAvailability(member(2))),
        ),
        legacy_membership_signing_bytes(update),
    ];
    for other in &others {
        assert_ne!(&bytes, other);
    }
}

#[test]
fn heads_and_conflict_keys_tell_changes_apart() {
    let id = CommunityId::from_bytes([7; 32]);
    let first = SignedMembership::sign(&[9; 32], id, 1, MembershipChange::Admit(member(2)));
    let second = SignedMembership::sign(&[9; 32], id, 1, MembershipChange::Admit(member(3)));
    assert_ne!(first.conflict_key(), second.conflict_key());
    assert_eq!(first.conflict_key(), first.conflict_key());
    assert_ne!(first.head(id), second.head(id));
    assert_ne!(first.head(id), first.head(CommunityId::from_bytes([8; 32])));
}

#[test]
fn replay_applies_the_history_in_order() {
    let owner = member_of(&[9; 32]);
    let id = CommunityId::from_bytes([7; 32]);
    let history = vec![
        SignedMembership::sign(&[9; 32], id, 1, MembershipChange::Admit(member(2))),
        SignedMembership::sign(&[9; 32], id, 2, MembershipChange::AdmitAvailability(member(3))),
        SignedMembership::sign(&[9; 32], id, 3, MembershipChange::Remove(member(2))),
    ];
    let community = replay(owner, &history).unwrap();
    assert_eq!(community.owner(), owner);
    assert!(community.contains(owner));
    assert!(!community.contains(member(2)));
    assert_eq!(community.role(member(3)), Some(MemberRole::Availability));
    assert_eq!(community.member_count(), 2);

    let refused = vec![SignedMembership::sign(
        &[9; 32],
        id,
        1,
        MembershipChange::Remove(owner),
    )];
    assert_eq!(
        replay(owner, &refused),
        Err(CommunityError::OwnerCannotBeRemoved)
    );
}

#[test]
fn members_are_listed_in_order() {
    let owner = member(5);
    let mut community = Community::new(owner);
    for id in [9, 1, 7] {
        assert_eq!(
            community.change_membership(owner, MembershipChange::Admit(member(id))),
            Ok(true)
        );
    }
    assert_eq!(
        community.members(),
        vec![member(1), member(5), member(7), member(9)]
    );
    let before = community.clone();
    assert_eq!(
        community.change_membership(owner, MembershipChange::Remove(member(2))),
        Ok(false)
    );
    assert_eq!(community, before);
}

#[test]
fn exchange_is_allowed_both_ways_or_not_at_all() {
    let owner = member(1);
    let mut community = Community::new(owner);
    community
        .change_membership(owner, MembershipChange::Admit(member(2)))
        .unwrap();
    community
        .change_membership(owner, MembershipChange::AdmitAvailability(member(3)))
        .unwrap();
    for a in 1..=4 {
        for b in 1..=4 {
            assert_eq!(
                community.authorize_exchange(member(a), member(b)),
                community.authorize_exchange(member(b), member(a))
            );
        }
    }
    assert_eq!(community.authorize_exchange(member(2), member(3)), Ok(()));
    assert_eq!(
        community.authorize_exchange(member(2), member(4)),
        Err(CommunityError::MemberNotAdmitted)
    );
}

#[test]
fn errors_say_what_was_wrong() {
    assert_eq!(
        CommunityError::MemberNotAdmitted.text(),
        "communication requires admitted community members"
    );
    assert_eq!(
        CommunityError::OwnerCannotBeRemoved.text(),
        "the community owner cannot be removed"
    );
    assert_eq!(
        CommunityError::OnlyOwnerMayChangeMembership.text(),
        "only the community owner may change membership"
    );
    assert_eq!(
        CommunityError::OwnerCannotBeAvailability.text(),
        "the community owner cannot be an availability peer"
    );
    assert_eq!(
        CommunityError::ParticipantCannotBecomeAvailability.text(),
        "an identity that held participant keys cannot become an availability peer"
    );
}

#[test]
fn identities_from_before_community_ids_come_from_the_owner() {
    let one = CommunityId::legacy(member(1));
    assert_eq!(one, CommunityId::legacy(member(1)));
    assert_ne!(one, CommunityId::legacy(member(2)));
    let mut input = b"peer-community/legacy-community/v1\0".to_vec();
    input.extend_from_slice(member(1).as_bytes());
    assert_eq!(one.as_bytes(), blake3::hash(&input).as_bytes());
}

#[test]
fn community_ids_are_ordered_as_their_bytes() {
    let mut early = [7; 32];
    early[3] = 6;
    early[31] = 0xff;
    let late = [7; 32];
    assert!(CommunityId::from_bytes(early) < CommunityId::from_bytes(late));
    assert!(CommunityId::from_bytes(late) > CommunityId::from_bytes(early));
    assert!(CommunityId::from_bytes(late) <= CommunityId::from_bytes(late));
    assert_eq!(CommunityId::from_bytes(late).as_bytes(), &late);
    assert!(MemberId::from_bytes(early) < MemberId::from_bytes(late));
}
