use grimoire::community::{Community, CommunityId, MemberId, MemberRole, MembershipChange};
use grimoire::connection::{delivery, Delivery};
use grimoire::crypto::{member_of, ContentKeyEnvelope, EncryptedText, KeyRegistration};
use grimoire::egregore::{Egregore, MAX_PENDING_REGISTRATIONS};
use grimoire::fault::{Fault, FaultKind};
use grimoire::handler::{OperationHandler, Reaction, Reply};
use grimoire::identity::{decrypt, export};
use grimoire::model::{
    Attachment, Channel, ChannelId, ChannelKind, Command, DisplayName, Event, MessageId,
    SignedText, Snapshot, TextMessage, VoiceFrame, VoicePresence, VoiceStreamId,
};
use grimoire::opening::{mark_history_read, restore_identity, StoredCommunity, Vault};
use grimoire::operations::{
    decode_text_inventory, encrypted_messages_missing, registration_operation, text_operation,
};
use grimoire::replica::Replica;
use grimoire::snapshot::{identity_material, snapshot};
use grimoire::state::{CommunityAccess, CommunityState};
use grimoire::wire::Body;

const OWNER: [u8; 32] = [1; 32];

fn community() -> CommunityId {
    CommunityId::from_bytes([2; 32])
}

fn hpke_seed(seed: [u8; 32]) -> [u8; 32] {
    let mut hpke = seed;
    hpke[31] ^= 0x55;
    hpke
}

/// A node of the community that keeps its data in memory.
fn node(seed: [u8; 32]) -> OperationHandler {
    let replica = Replica::new(community(), member_of(&OWNER), false);
    OperationHandler::new(Egregore::open(replica, seed, hpke_seed(seed)).unwrap())
}

fn name_of(node: &OperationHandler) -> MemberId {
    node.egregore().local_member()
}

fn seen(node: &OperationHandler) -> Snapshot {
    snapshot(node.egregore().replica()).unwrap()
}

/// Hands the operations to a node, and gathers what it tells.
fn deliver(from: MemberId, to: &mut OperationHandler, bodies: &Vec<Body>) -> Vec<Event> {
    let mut events = Vec::new();
    for body in bodies {
        if let Ok(Reply::Applied(outcome)) = to.receive_operation(from, &body.encode()) {
            events.extend(outcome.events);
        }
    }
    events
}

/// Sends a node what another has, as a fresh connection does.
fn sync(from: &OperationHandler, to: &mut OperationHandler) -> Vec<Event> {
    let sender = name_of(from);
    let mut events = deliver(sender, to, &vec![from.introduction().unwrap()]);
    if let Some(plan) = from.sync_plan(name_of(to)).unwrap() {
        events.extend(deliver(sender, to, &plan.first));
        if let Ok(Reply::Inventory(bytes)) = to.receive_operation(sender, &plan.inventory) {
            let Some(Some(Body::TextInventory(listed))) = Body::decode(&bytes) else {
                panic!("an inventory is answered by an inventory");
            };
            let listed = decode_text_inventory(&listed).unwrap();
            let missing: Vec<EncryptedText> = encrypted_messages_missing(plan.messages, &listed);
            let bodies = missing.iter().map(text_operation).collect();
            events.extend(deliver(sender, to, &bodies));
        }
        events.extend(deliver(sender, to, &plan.operations));
    }
    events
}

fn connect(a: &mut OperationHandler, b: &mut OperationHandler) {
    sync(a, b);
    sync(b, a);
}

/// Runs a command and sends what comes of it to the peers.
fn execute(
    from: &mut OperationHandler,
    command: Command,
    peers: &mut [&mut OperationHandler],
) -> Result<Vec<Event>, Fault> {
    let sender = name_of(from);
    match from.execute(command)? {
        Reaction::Applied(outcome) => {
            let community = from.egregore().community().clone();
            for peer in peers.iter_mut() {
                let to = name_of(peer);
                let subject = outcome.removed_member;
                if delivery(&community, outcome.removed_member, subject, to) != Delivery::Skip {
                    deliver(sender, peer, &outcome.outbound);
                }
                if outcome.sync_member == Some(to) {
                    sync(from, peer);
                }
            }
            Ok(outcome.events)
        }
        Reaction::Voice(datagram) => {
            for peer in peers.iter_mut() {
                peer.receive_voice(sender, &datagram)?;
            }
            Ok(vec![])
        }
        Reaction::Presence(events, body) => {
            for peer in peers.iter_mut() {
                peer.receive_operation(sender, &body.encode())?;
            }
            Ok(events)
        }
    }
}

fn admission(member: MemberId) -> Command {
    Command::ChangeMembership(MembershipChange::Admit(member))
}

fn post(id: u8, body: &str) -> Command {
    Command::PostText(TextMessage::new(MessageId::from_bytes([id; 32]), body).unwrap())
}

/// The owner and one admitted member.
fn pair() -> (OperationHandler, OperationHandler) {
    let mut owner = node(OWNER);
    let mut member = node([3; 32]);
    connect(&mut owner, &mut member);
    let name = name_of(&member);
    execute(&mut owner, admission(name), &mut [&mut member]).unwrap();
    (owner, member)
}

fn bodies(snapshot: &Snapshot) -> Vec<&str> {
    snapshot
        .messages()
        .iter()
        .map(|authored| authored.message().body())
        .collect()
}

#[test]
fn posted_texts_reach_the_other_node() {
    let (mut owner, mut member) = pair();
    let events = execute(&mut owner, post(10, "hello"), &mut [&mut member]).unwrap();
    assert!(matches!(&events[..], [Event::TextStored(_)]));
    let there = seen(&member);
    assert_eq!(bodies(&there), vec!["hello"]);
    assert_eq!(there.messages()[0].author(), name_of(&owner));
    assert_eq!(bodies(&seen(&owner)), vec!["hello"]);
    assert_eq!(owner.egregore().metrics().messages_sent.get(), 1);
    assert_eq!(member.egregore().metrics().messages_received.get(), 1);
}

#[test]
fn texts_written_meanwhile_arrive_on_reconnect() {
    let (mut owner, mut member) = pair();
    execute(&mut owner, post(10, "while away"), &mut []).unwrap();
    assert!(bodies(&seen(&member)).is_empty());
    let events = sync(&owner, &mut member);
    assert!(events
        .iter()
        .any(|event| matches!(event, Event::TextStored(_))));
    assert_eq!(bodies(&seen(&member)), vec!["while away"]);
    assert!(!sync(&owner, &mut member)
        .iter()
        .any(|event| matches!(event, Event::TextStored(_))));
}

#[test]
fn owner_channels_are_persisted_and_synced_before_their_messages() {
    let mut owner = node(OWNER);
    let custom_id = ChannelId::from_bytes([8; 32]);
    let custom = Channel::new(custom_id, "projects", ChannelKind::Text).unwrap();
    execute(&mut owner, Command::CreateChannel(custom.clone()), &mut []).unwrap();
    assert_eq!(seen(&owner).channels().len(), 3);

    let mut member = node([3; 32]);
    connect(&mut member, &mut owner);
    let name = name_of(&member);
    execute(&mut owner, admission(name), &mut [&mut member]).unwrap();

    let message =
        TextMessage::in_channel(MessageId::from_bytes([31; 32]), custom_id, "on topic").unwrap();
    execute(
        &mut owner,
        Command::PostText(message.clone()),
        &mut [&mut member],
    )
    .unwrap();
    let snapshot = seen(&member);
    assert_eq!(snapshot.messages()[0].message(), &message);
    assert_eq!(snapshot.channels().len(), 3);
    assert!(snapshot.channels().contains(&custom));
}

#[test]
fn only_owner_can_create_channels() {
    let mut member = node([3; 32]);
    let result = execute(
        &mut member,
        Command::CreateChannel(
            Channel::new(ChannelId::from_bytes([9; 32]), "forged", ChannelKind::Text).unwrap(),
        ),
        &mut [],
    );
    assert_eq!(result.unwrap_err().kind(), FaultKind::Authorization);
    assert!(seen(&member).channels().is_empty());
}

#[test]
fn operations_require_a_channel_of_the_right_kind() {
    let mut node = node(OWNER);
    let text_in_voice = TextMessage::in_channel(
        MessageId::from_bytes([32; 32]),
        ChannelId::voice_room(),
        "wrong room",
    )
    .unwrap();
    assert_eq!(
        execute(&mut node, Command::PostText(text_in_voice), &mut [])
            .unwrap_err()
            .kind(),
        FaultKind::Authorization
    );
    let voice_in_text = VoiceFrame::in_channel(
        VoiceStreamId::from_bytes([5; 16]),
        ChannelId::general(),
        0,
        vec![1],
    )
    .unwrap();
    assert_eq!(
        execute(&mut node, Command::SendVoice(voice_in_text), &mut [])
            .unwrap_err()
            .kind(),
        FaultKind::Authorization
    );
}

#[test]
fn independently_written_histories_converge_in_message_id_order() {
    let (mut owner, mut member) = pair();
    execute(&mut member, post(1, "from member"), &mut []).unwrap();
    execute(&mut owner, post(9, "from owner"), &mut []).unwrap();
    connect(&mut member, &mut owner);
    assert_eq!(bodies(&seen(&owner)), vec!["from member", "from owner"]);
    assert_eq!(bodies(&seen(&member)), vec!["from member", "from owner"]);
}

#[test]
fn message_ids_cannot_replace_existing_operations() {
    let (mut owner, mut member) = pair();
    execute(&mut owner, post(42, "original"), &mut [&mut member]).unwrap();
    let error = execute(&mut owner, post(42, "replacement"), &mut [&mut member]).unwrap_err();
    assert_eq!(error.kind(), FaultKind::Protocol);
    execute(
        &mut member,
        post(42, "independent author"),
        &mut [&mut owner],
    )
    .unwrap();
    assert_eq!(seen(&owner).messages().len(), 2);
    let there = seen(&member);
    assert_eq!(there.messages().len(), 2);
    assert!(bodies(&there).contains(&"original"));
    assert!(!bodies(&there).contains(&"replacement"));
}

#[test]
fn texts_reach_members_only() {
    let (mut owner, mut member) = pair();
    let mut outsider = node([4; 32]);
    connect(&mut owner, &mut outsider);
    execute(
        &mut owner,
        post(10, "members only"),
        &mut [&mut member, &mut outsider],
    )
    .unwrap();
    assert_eq!(bodies(&seen(&member)), vec!["members only"]);
    assert!(seen(&outsider).messages().is_empty());
    assert!(execute(&mut outsider, post(11, "intrusion"), &mut []).is_err());
}

#[test]
fn removed_members_keep_what_they_had() {
    let (mut owner, mut member) = pair();
    execute(&mut owner, post(10, "before"), &mut [&mut member]).unwrap();
    let name = name_of(&member);
    let removal = Command::ChangeMembership(MembershipChange::Remove(name));
    execute(&mut owner, removal, &mut [&mut member]).unwrap();
    execute(&mut owner, post(11, "after"), &mut [&mut member]).unwrap();
    sync(&owner, &mut member);
    assert_eq!(bodies(&seen(&member)), vec!["before"]);
    assert_eq!(seen(&owner).members(), &vec![name_of(&owner)]);
    let text = TextMessage::new(MessageId::from_bytes([12; 32]), "late").unwrap();
    let refused = execute(&mut member, Command::PostText(text), &mut [&mut owner]).unwrap_err();
    assert_eq!(refused.kind(), FaultKind::Authorization);
    assert_eq!(bodies(&seen(&owner)), vec!["before", "after"]);
}

#[test]
fn attachments_arrive_and_can_be_forgotten() {
    let (mut owner, mut member) = pair();
    let attachment = Attachment::new(
        MessageId::from_bytes([10; 32]),
        ChannelId::general(),
        "signal.txt",
        b"signal".to_vec(),
    )
    .unwrap();
    execute(
        &mut owner,
        Command::ShareAttachment(attachment.clone()),
        &mut [&mut member],
    )
    .unwrap();
    let there = seen(&member);
    assert_eq!(there.attachments()[0].attachment(), &attachment);
    let forget = Command::ForgetAttachment {
        author: name_of(&owner),
        id: attachment.id(),
    };
    execute(&mut member, forget, &mut [&mut owner]).unwrap();
    assert!(seen(&member).attachments().is_empty());
    assert_eq!(seen(&owner).attachments().len(), 1);
    sync(&owner, &mut member);
    assert!(seen(&member).attachments().is_empty());
}

#[test]
fn names_are_shown_to_members_only() {
    let (mut owner, mut member) = pair();
    let mut outsider = node([4; 32]);
    connect(&mut owner, &mut outsider);
    execute(
        &mut owner,
        Command::SetDisplayName(DisplayName::new("maren").unwrap()),
        &mut [&mut outsider],
    )
    .unwrap();
    let name = name_of(&owner);
    assert!(seen(&outsider).display_names().get(name).is_none());
    assert!(seen(&member).display_names().get(name).is_none());
    sync(&owner, &mut member);
    assert_eq!(
        seen(&member).display_names().get(name).unwrap().as_str(),
        "maren"
    );
}

#[test]
fn frames_are_heard_under_their_author() {
    let (mut owner, mut member) = pair();
    let frame = VoiceFrame::in_channel(
        VoiceStreamId::from_bytes([5; 16]),
        ChannelId::voice_room(),
        7,
        vec![1, 2, 3],
    )
    .unwrap();
    let early = owner
        .execute(Command::SendVoice(frame.clone()))
        .unwrap_err();
    assert_eq!(
        early.message(),
        "voice transmission requires active channel presence"
    );
    execute(
        &mut owner,
        Command::SetVoicePresence {
            channel: ChannelId::voice_room(),
            state: VoicePresence::Joined,
        },
        &mut [&mut member],
    )
    .unwrap();
    let Reaction::Voice(datagram) = owner
        .execute(Command::SendVoice(frame.clone()))
        .unwrap()
    else {
        panic!("a frame is sent as a datagram");
    };
    let Event::VoiceReceived(heard) = member.receive_voice(name_of(&owner), &datagram).unwrap()
    else {
        panic!("a datagram is heard as a frame");
    };
    assert_eq!(heard.frame(), &frame);
    assert_eq!(heard.author(), name_of(&owner));
    let forged = member.receive_voice(name_of(&member), &datagram);
    assert!(forged.is_err());
    assert_eq!(member.egregore().metrics().voice_frames_received.get(), 1);
}

#[test]
fn presence_reaches_present_and_late_members() {
    let (mut owner, mut member) = pair();
    let channel = ChannelId::voice_room();
    for state in [VoicePresence::Joined, VoicePresence::Muted(true)] {
        execute(
            &mut owner,
            Command::SetVoicePresence { channel, state },
            &mut [&mut member],
        )
        .unwrap();
    }
    let there = member.voice_presence().get(name_of(&owner)).unwrap();
    assert_eq!(there.channel, channel);
    assert!(there.muted);

    let mut late = node([4; 32]);
    connect(&mut owner, &mut late);
    let name = name_of(&late);
    execute(&mut owner, admission(name), &mut [&mut late, &mut member]).unwrap();
    for body in owner.local_presence(name).unwrap() {
        late.receive_operation(name_of(&owner), &body.encode())
            .unwrap();
    }
    assert!(late.voice_presence().get(name_of(&owner)).unwrap().muted);
}

#[test]
fn presence_ends_with_the_connection() {
    let (mut owner, mut member) = pair();
    let channel = ChannelId::voice_room();
    execute(
        &mut owner,
        Command::SetVoicePresence {
            channel,
            state: VoicePresence::Joined,
        },
        &mut [&mut member],
    )
    .unwrap();
    assert!(member.untrack(name_of(&owner), true).is_none());
    assert!(matches!(
        member.untrack(name_of(&owner), false),
        Some(Event::VoicePresence {
            state: VoicePresence::Left,
            ..
        })
    ));
    let mut outsider = node([4; 32]);
    assert!(outsider
        .execute(Command::SetVoicePresence {
            channel,
            state: VoicePresence::Joined,
        })
        .is_err());
    assert!(owner.local_presence(name_of(&outsider)).unwrap().is_empty());
}

#[test]
fn keepers_serve_what_they_cannot_read() {
    let (mut owner, mut member) = pair();
    let mut keeper = node([5; 32]);
    connect(&mut owner, &mut keeper);
    let keeper_name = name_of(&keeper);
    execute(
        &mut owner,
        Command::ChangeMembership(MembershipChange::AdmitAvailability(keeper_name)),
        &mut [&mut keeper],
    )
    .unwrap();
    execute(&mut owner, post(10, "kept"), &mut [&mut keeper]).unwrap();
    assert_eq!(
        owner.egregore().community().role(keeper_name),
        Some(MemberRole::Availability)
    );
    assert_eq!(keeper.egregore().replica().encrypted_messages().len(), 1);
    assert!(seen(&keeper).messages().is_empty());
    assert!(!keeper.egregore().replica().has_content_keys());
    assert!(execute(&mut keeper, post(11, "no"), &mut []).is_err());

    assert!(bodies(&seen(&member)).is_empty());
    sync(&keeper, &mut member);
    assert_eq!(bodies(&seen(&member)), vec!["kept"]);
}

#[test]
fn registrations_wait_for_admission() {
    let mut owner = node(OWNER);
    let mut stranger = node([4; 32]);
    let name = name_of(&stranger);
    assert!(owner
        .egregore()
        .awaits_registration(MembershipChange::Admit(name)));
    sync(&stranger, &mut owner);
    assert!(!owner
        .egregore()
        .awaits_registration(MembershipChange::Admit(name)));
    assert!(owner.egregore().replica().key_registration(name).is_none());
    execute(&mut owner, admission(name), &mut [&mut stranger]).unwrap();
    assert!(owner.egregore().replica().key_registration(name).is_some());
}

#[test]
fn strangers_cannot_fill_the_memory() {
    let mut owner = node(OWNER);
    for index in 0..=MAX_PENDING_REGISTRATIONS {
        let mut seed = [9; 32];
        seed[0] = index as u8;
        sync(&node(seed), &mut owner);
        assert_eq!(
            owner
                .egregore()
                .awaits_registration(MembershipChange::Admit(member_of(&seed))),
            index == MAX_PENDING_REGISTRATIONS
        );
    }
}

#[test]
fn strangers_are_sent_no_history() {
    let mut owner = node(OWNER);
    execute(&mut owner, post(10, "history"), &mut []).unwrap();
    let mut stranger = node([4; 32]);
    connect(&mut owner, &mut stranger);
    assert!(matches!(owner.introduction(), Ok(Body::KeyRegistration(_))));
    assert!(owner.sync_plan(name_of(&stranger)).unwrap().is_none());
    assert!(seen(&stranger).messages().is_empty());
    assert!(seen(&stranger).channels().is_empty());
}

#[test]
fn forged_texts_are_refused() {
    let (mut owner, mut member) = pair();
    let Reaction::Applied(outcome) = owner.execute(post(10, "genuine")).unwrap() else {
        panic!("a text is applied");
    };
    let Body::Text(mut forged) =
        Body::decode(&outcome.outbound[0].encode()).unwrap().unwrap()
    else {
        panic!("a text is sent");
    };
    forged.signature[0] ^= 1;
    let error = member
        .receive_operation(name_of(&owner), &Body::Text(forged).encode())
        .unwrap_err();
    assert_eq!(error.kind(), FaultKind::Protocol);
    assert!(seen(&member).messages().is_empty());
}

#[test]
fn read_cursor_is_validated_monotonic_durable_and_local() {
    let (mut owner, member) = pair();
    let first = MessageId::from_bytes([10; 32]);
    let second = MessageId::from_bytes([20; 32]);
    execute(&mut owner, post(10, "first"), &mut []).unwrap();
    execute(
        &mut owner,
        Command::ShareAttachment(
            Attachment::new(second, ChannelId::general(), "second.txt", b"second".to_vec())
                .unwrap(),
        ),
        &mut [],
    )
    .unwrap();
    let general = ChannelId::general();
    assert_eq!(owner.egregore().last_read(general).unwrap(), None);
    owner.set_last_read(general, second).unwrap();
    owner.set_last_read(general, first).unwrap();
    assert_eq!(owner.egregore().last_read(general).unwrap(), Some(second));
    assert_eq!(member.egregore().last_read(general).unwrap(), None);
    let missing = owner
        .set_last_read(general, MessageId::from_bytes([30; 32]))
        .unwrap_err();
    assert_eq!(missing.kind(), FaultKind::Protocol);
    assert!(owner
        .egregore()
        .last_read(ChannelId::from_bytes([40; 32]))
        .is_err());
    assert!(owner
        .egregore()
        .last_read(ChannelId::voice_room())
        .is_err());
}

#[test]
fn read_cursor_rejects_an_item_from_another_channel() {
    let mut node = node(OWNER);
    let channel = Channel::new(
        ChannelId::from_bytes([2; 32]),
        "elsewhere",
        ChannelKind::Text,
    )
    .unwrap();
    execute(&mut node, Command::CreateChannel(channel.clone()), &mut []).unwrap();
    let id = MessageId::from_bytes([3; 32]);
    execute(
        &mut node,
        Command::PostText(TextMessage::in_channel(id, channel.id(), "elsewhere").unwrap()),
        &mut [],
    )
    .unwrap();
    assert!(node.set_last_read(ChannelId::general(), id).is_err());
}

#[test]
fn rejects_owner_equivocation_at_one_revision() {
    let owner = member_of(&OWNER);
    let id = community();
    let mut replica = Replica::new(id, owner, false);
    let first = grimoire::community::SignedMembership::sign(
        &OWNER,
        id,
        1,
        MembershipChange::Admit(MemberId::from_bytes([3; 32])),
    );
    let conflict = grimoire::community::SignedMembership::sign(
        &OWNER,
        id,
        1,
        MembershipChange::Admit(MemberId::from_bytes([4; 32])),
    );
    assert!(replica.insert_membership(&first).unwrap());
    assert!(replica.insert_membership(&first).is_ok());
    assert_eq!(
        replica.insert_membership(&conflict).unwrap_err().kind(),
        FaultKind::Protocol
    );
}

#[test]
fn existing_mode_rejects_an_uninitialized_database() {
    let mut vault = Vault::empty();
    let error = vault.prepare(None, true).unwrap_err();
    assert_eq!(error.kind(), FaultKind::Protocol);
    assert!(error.to_text().contains("community is not initialized"));
}

#[test]
fn first_opening_founds_a_community_and_the_next_finds_it() {
    let mut vault = Vault::empty();
    let first = vault.prepare(None, false).unwrap();
    assert_eq!(first.owner, member_of(&first.identity_seed));
    let again = vault.prepare(None, true).unwrap();
    assert_eq!(first, again);
    let configured = Some((first.community_id, first.owner));
    assert_eq!(vault.prepare(configured, false).unwrap(), first);
    assert_eq!(vault.prepare(configured, true).unwrap(), first);
    let before = vault;
    for elsewhere in [
        (CommunityId::from_bytes([9; 32]), first.owner),
        (first.community_id, MemberId::from_bytes([9; 32])),
    ] {
        let fault = vault.prepare(Some(elsewhere), false).unwrap_err();
        assert_eq!(fault.kind(), FaultKind::Authorization);
        assert_eq!(
            fault.message(),
            "configured identity does not match the stored community"
        );
        assert_eq!(vault, before);
    }
}

#[test]
fn unnamed_communities_get_their_name_from_their_owner() {
    let owner = member_of(&OWNER);
    let unnamed = Vault {
        identity: None,
        community: Some(StoredCommunity {
            owner,
            id: None,
            recovered: false,
        }),
    };
    let mut vault = unnamed;
    let fault = vault.prepare(None, true).unwrap_err();
    assert_eq!(fault.kind(), FaultKind::Storage);
    assert_eq!(fault.message(), "community id is not stored");
    assert_eq!(vault, unnamed);

    let fault = vault
        .prepare(Some((CommunityId::from_bytes([9; 32]), owner)), false)
        .unwrap_err();
    assert_eq!(fault.kind(), FaultKind::Authorization);
    let drawn = vault.identity.unwrap();
    assert_eq!(drawn.hpke_seed, None);
    let name = CommunityId::legacy(owner);
    assert_eq!(vault.community.unwrap().id, Some(name));

    let opening = vault.prepare(Some((name, owner)), true).unwrap();
    assert_eq!(opening.identity_seed, drawn.seed);
    assert_eq!(opening.community_id, name);
}

#[test]
fn members_with_unusable_keys_are_not_admitted() {
    let mut owner = node(OWNER);
    let stranger = member_of(&[4; 32]);
    let registration = KeyRegistration::sign(&[4; 32], community(), [0; 32]);
    let body = registration_operation(&registration);
    owner.receive_operation(stranger, &body.encode()).unwrap();
    let change = MembershipChange::Admit(stranger);
    assert_eq!(owner.egregore().registration_pause(change, 0), None);
    let fault = execute(&mut owner, admission(stranger), &mut []).unwrap_err();
    assert_eq!(fault.kind(), FaultKind::Protocol);
    assert_eq!(fault.message(), "Encapsulation failed");
    assert!(!owner.egregore().community().contains(stranger));
    let keeper = Command::ChangeMembership(MembershipChange::AdmitAvailability(stranger));
    execute(&mut owner, keeper, &mut []).unwrap();
    assert_eq!(
        owner.egregore().community().role(stranger),
        Some(MemberRole::Availability)
    );
}

#[test]
fn changes_wait_for_registrations_a_hundred_times() {
    let owner = node(OWNER);
    let change = MembershipChange::Admit(MemberId::from_bytes([4; 32]));
    assert_eq!(owner.egregore().registration_pause(change, 0), Some(10));
    assert_eq!(owner.egregore().registration_pause(change, 99), Some(10));
    assert_eq!(owner.egregore().registration_pause(change, 100), None);
    let removal = MembershipChange::Remove(MemberId::from_bytes([4; 32]));
    assert_eq!(owner.egregore().registration_pause(removal, 0), None);
}

#[test]
fn a_first_key_is_kept_once() {
    let replica = Replica::new(community(), member_of(&OWNER), false);
    let founded = Egregore::open(replica, OWNER, hpke_seed(OWNER)).unwrap();
    let epoch = founded.replica().active_content_epoch().unwrap();
    let registration = founded
        .replica()
        .key_registration(founded.local_member())
        .unwrap();
    let other = ContentKeyEnvelope::seal(&OWNER, community(), epoch, &registration).unwrap();
    let fault = founded.found(epoch, other).unwrap_err();
    assert_eq!(
        fault.message(),
        "content epoch identifies a different recipient envelope"
    );
}

#[test]
fn restored_members_catch_up_with_a_new_key() {
    let (mut owner, mut member) = pair();
    execute(&mut owner, post(10, "before"), &mut [&mut member]).unwrap();
    let material = identity_material(
        member.egregore().replica(),
        [3; 32],
        hpke_seed([3; 32]),
    );
    let backup = export("correct horse battery", &material).unwrap();

    let mut third = node([4; 32]);
    connect(&mut owner, &mut third);
    let name = name_of(&third);
    execute(&mut owner, admission(name), &mut [&mut third]).unwrap();
    execute(&mut owner, post(11, "after"), &mut [&mut third]).unwrap();

    let read = decrypt("correct horse battery", &backup).unwrap();
    assert!(restore_identity(1, &read).is_err());
    let (_, replica) = restore_identity(0, &read).unwrap();
    assert!(replica.is_recovered());
    let opened = Egregore::open(replica, read.identity_seed, read.hpke_seed).unwrap();
    let mut recovered = OperationHandler::new(opened);
    sync(&owner, &mut recovered);
    assert_eq!(bodies(&seen(&recovered)), vec!["before", "after"]);
}

#[test]
fn restored_owners_get_their_history_back() {
    let (mut owner, mut member) = pair();
    execute(&mut owner, post(10, "history"), &mut [&mut member]).unwrap();
    let material = identity_material(owner.egregore().replica(), OWNER, hpke_seed(OWNER));
    let (_, replica) = restore_identity(0, &material).unwrap();
    let opened = Egregore::open(replica, OWNER, hpke_seed(OWNER)).unwrap();
    let mut recovered = OperationHandler::new(opened);
    let early = recovered.execute(admission(MemberId::from_bytes([8; 32])));
    assert!(early.is_err());
    sync(&member, &mut recovered);
    assert_eq!(bodies(&seen(&recovered)), vec!["history"]);
    assert!(recovered.egregore().community().contains(name_of(&member)));
}

#[test]
fn snapshot_projection_exposes_real_chat_data() {
    let mut node = node(OWNER);
    execute(
        &mut node,
        Command::SetDisplayName(DisplayName::new("maren").unwrap()),
        &mut [],
    )
    .unwrap();
    execute(
        &mut node,
        Command::PostText(TextMessage::new(MessageId::generate(), "hello from gpui").unwrap()),
        &mut [],
    )
    .unwrap();
    let state = CommunityState::from_snapshot(&seen(&node), name_of(&node));
    assert_eq!(state.channels[0].name, "general");
    assert_eq!(state.messages[0].author, "maren");
    assert_eq!(state.messages[0].body, "hello from gpui");
    assert_eq!(state.members[0].name, "maren");
    assert!(state.members[0].is_owner);
    assert!(state.members[0].is_local);
}

#[test]
fn node_events_update_one_community_projection() {
    let mut node = node(OWNER);
    let mut state = CommunityState::from_snapshot(&seen(&node), name_of(&node));
    let channel = Channel::new(
        ChannelId::from_bytes([7; 32]),
        "field-notes",
        ChannelKind::Text,
    )
    .unwrap();
    let commands = vec![
        Command::SetDisplayName(DisplayName::new("maren").unwrap()),
        Command::CreateChannel(channel.clone()),
        Command::ShareAttachment(
            Attachment::new(
                MessageId::generate(),
                channel.id(),
                "signal.txt",
                b"signal".to_vec(),
            )
            .unwrap(),
        ),
        Command::PostText(
            TextMessage::in_channel(MessageId::generate(), channel.id(), "signal").unwrap(),
        ),
    ];
    for command in commands {
        for event in execute(&mut node, command, &mut []).unwrap() {
            state.apply(event, 0);
        }
    }
    assert_eq!(state.members[0].name, "maren");
    assert!(state
        .channels
        .iter()
        .any(|stored| stored.id == channel.id()));
    assert_eq!(state.messages.last().unwrap().body, "signal");
    assert_eq!(state.attachments.last().unwrap().name, "signal.txt");
}

#[test]
fn snapshot_refresh_preserves_passive_presence() {
    let node = node(OWNER);
    let snapshot = seen(&node);
    let member = name_of(&node);
    let pending = MemberId::from_bytes([8; 32]);
    let channel = ChannelId::general();
    let mut state = CommunityState::from_snapshot(&snapshot, member);

    state.apply(Event::PeerConnected(pending), 0);
    state.apply(Event::PeerConnected(member), 0);
    for presence in [VoicePresence::Joined, VoicePresence::Muted(true)] {
        state.apply(
            Event::VoicePresence {
                channel,
                member,
                state: presence,
            },
            0,
        );
    }
    state.replace_snapshot(&snapshot);

    assert!(state.is_online(member));
    assert_eq!(state.pending_members(), vec![pending]);
    assert_eq!(
        state.voice_members(channel),
        vec![(state.members[0].clone(), true)]
    );
}

#[test]
fn members_see_their_admission_and_removal() {
    let (mut owner, mut member) = pair();
    let name = name_of(&member);
    let mut state = CommunityState::from_snapshot(&seen(&member), name);
    assert_eq!(state.access(), CommunityAccess::Active);
    let removal = Command::ChangeMembership(MembershipChange::Remove(name));
    execute(&mut owner, removal, &mut [&mut member]).unwrap();
    let community: Community = member.egregore().community().clone();
    assert!(!community.contains(name));
    state.apply(Event::MembershipChanged(community), 0);
    assert_eq!(state.access(), CommunityAccess::Removed);
}

#[test]
fn history_from_before_reading_was_kept_is_read() {
    let mut replica = Replica::new(community(), member_of(&OWNER), false);
    for byte in [3, 5, 4] {
        let text = TextMessage::new(MessageId::from_bytes([byte; 32]), "old").unwrap();
        replica.insert_legacy_text(SignedText::sign(&OWNER, text));
    }
    assert_eq!(replica.last_read(ChannelId::general()), None);
    mark_history_read(&mut replica);
    assert_eq!(
        replica.last_read(ChannelId::general()),
        Some(MessageId::from_bytes([5; 32]))
    );
    assert_eq!(replica.last_read(ChannelId::voice_room()), None);
    assert_eq!(replica.signed_messages().len(), 3);
}
