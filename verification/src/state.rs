//! What a user sees of a community: its channels, texts, attachments and members, and who is there.

use vstd::prelude::*;

use crate::bytes::to_vec;
use crate::community::{Community, CommunityModel, MemberId, MemberRole};
use crate::connection::{
    is_listed, ConnectionPathDiagnostic, ConnectionPathKind, DiagnosticModel, NodeConfig,
    PeerDiagnostic,
};
use crate::filing::{
    in_order, keeps_places, order_carries_over, sort, Filed, Placed,
};
use crate::model::{
    general_channel, Attachment, AttachmentModel, AuthoredAttachment, AuthoredText, Channel,
    ChannelId, ChannelKind, ChannelModel, DisplayName, Event, MessageId, Snapshot, TextMessage,
    TextModel, VoicePresence, MAX_VOICE_PARTICIPANTS,
};
use crate::names::Seat;
use crate::operations::short_member;
use crate::outcome::EventModel;
use crate::sorted::{
    ascending, lists_are_sorted, rank, rank_injective, sorted_keys, sorted_keys_are, ByteKey, SortedMap,
};
use crate::text::{hex, push_decimal, push_text};

verus! {

/// A channel as it is shown.
#[derive(Clone, Debug, PartialEq, Eq)]
pub struct ChannelState {
    pub id: ChannelId,
    pub name: String,
    pub kind: ChannelKind,
}

impl View for ChannelState {
    type V = ChannelModel;

    open spec fn view(&self) -> ChannelModel {
        ChannelModel { id: self.id, name: self.name@, kind: self.kind }
    }
}

/// A text as it is shown.
#[derive(Clone, Debug, PartialEq, Eq)]
pub struct MessageState {
    pub id: MessageId,
    pub channel: ChannelId,
    pub author_id: MemberId,
    pub author: String,
    pub body: String,
}

/// What is shown of a text.
pub struct MessageView {
    pub id: MessageId,
    pub channel: ChannelId,
    pub author_id: MemberId,
    pub author: Seq<char>,
    pub body: Seq<char>,
}

impl View for MessageState {
    type V = MessageView;

    open spec fn view(&self) -> MessageView {
        MessageView {
            id: self.id,
            channel: self.channel,
            author_id: self.author_id,
            author: self.author@,
            body: self.body@,
        }
    }
}

impl Placed for MessageView {
    open spec fn place(&self) -> nat {
        rank(self.id)
    }
}

impl Placed for MessageState {
    open spec fn place(&self) -> nat {
        rank(self.id)
    }
}

impl Filed for MessageState {
    fn behind(&self, other: &Self) -> (behind: bool) {
        other.id.stands_before(&self.id)
    }
}

/// An attachment as it is shown.
#[derive(Clone, Debug, PartialEq, Eq)]
pub struct AttachmentState {
    pub id: MessageId,
    pub channel: ChannelId,
    pub author_id: MemberId,
    pub author: String,
    pub name: String,
    pub bytes: Vec<u8>,
}

/// What is shown of an attachment.
pub struct AttachmentView {
    pub id: MessageId,
    pub channel: ChannelId,
    pub author_id: MemberId,
    pub author: Seq<char>,
    pub name: Seq<char>,
    pub bytes: Seq<u8>,
}

impl View for AttachmentState {
    type V = AttachmentView;

    open spec fn view(&self) -> AttachmentView {
        AttachmentView {
            id: self.id,
            channel: self.channel,
            author_id: self.author_id,
            author: self.author@,
            name: self.name@,
            bytes: self.bytes@,
        }
    }
}

impl Placed for AttachmentView {
    open spec fn place(&self) -> nat {
        rank(self.id)
    }
}

impl Placed for AttachmentState {
    open spec fn place(&self) -> nat {
        rank(self.id)
    }
}

impl Filed for AttachmentState {
    fn behind(&self, other: &Self) -> (behind: bool) {
        other.id.stands_before(&self.id)
    }
}

/// A member as it is shown.
#[derive(Debug, PartialEq, Eq)]
pub struct MemberState {
    pub id: MemberId,
    pub name: String,
    pub is_owner: bool,
    pub is_local: bool,
    pub role: MemberRole,
}

/// What is shown of a member.
pub struct MemberView {
    pub id: MemberId,
    pub name: Seq<char>,
    pub is_owner: bool,
    pub is_local: bool,
    pub role: MemberRole,
}

impl View for MemberState {
    type V = MemberView;

    open spec fn view(&self) -> MemberView {
        MemberView {
            id: self.id,
            name: self.name@,
            is_owner: self.is_owner,
            is_local: self.is_local,
            role: self.role,
        }
    }
}

impl Clone for MemberState {
    fn clone(&self) -> (copy: Self)
        ensures
            copy@ == self@,
    {
        MemberState {
            id: self.id,
            name: self.name.clone(),
            is_owner: self.is_owner,
            is_local: self.is_local,
            role: self.role,
        }
    }
}

/// How the local member stands to the community.
#[derive(Clone, Copy, Debug, PartialEq, Eq, Structural)]
pub enum CommunityAccess {
    Waiting,
    Active,
    Removed,
}

/// What a user sees. Times are in nanoseconds, round trips in milliseconds.
#[derive(Clone, Debug, PartialEq, Eq)]
pub struct CommunityState {
    pub channels: Vec<ChannelState>,
    pub messages: Vec<MessageState>,
    pub attachments: Vec<AttachmentState>,
    pub members: Vec<MemberState>,
    pub selected_channel: ChannelId,
    pub owner: MemberId,
    pub local_member: MemberId,
    pub access: CommunityAccess,
    pub online: SortedMap<MemberId, ()>,
    pub pending_members: SortedMap<MemberId, ()>,
    pub voice: SortedMap<Seat, bool>,
    pub speaking: SortedMap<Seat, u64>,
    pub last_read: SortedMap<ChannelId, MessageId>,
    pub local_address: String,
    pub connection: Option<(ConnectionPathKind, u64)>,
    pub diagnostics: Vec<PeerDiagnostic>,
}

/// What is shown: `voice` says who is in which voice channel, and whether it is muted; `speaking`
/// says when a member was last heard.
#[verifier::ext_equal]
pub struct CommunityView {
    pub channels: Seq<ChannelModel>,
    pub messages: Seq<MessageView>,
    pub attachments: Seq<AttachmentView>,
    pub members: Seq<MemberView>,
    pub selected_channel: ChannelId,
    pub owner: MemberId,
    pub local_member: MemberId,
    pub access: CommunityAccess,
    pub online: Set<MemberId>,
    pub pending_members: Set<MemberId>,
    pub voice: Map<Seat, bool>,
    pub speaking: Map<Seat, u64>,
    pub last_read: Map<ChannelId, MessageId>,
    pub local_address: Seq<char>,
    pub connection: Option<(ConnectionPathKind, u64)>,
    pub diagnostics: Seq<DiagnosticModel>,
}

/// Channels as they are shown.
pub open spec fn channel_views(list: Seq<ChannelState>) -> Seq<ChannelModel> {
    list.map_values(|c: ChannelState| c@)
}

/// Texts as they are shown.
pub open spec fn message_views(list: Seq<MessageState>) -> Seq<MessageView> {
    list.map_values(|m: MessageState| m@)
}

/// Attachments as they are shown.
pub open spec fn attachment_views(list: Seq<AttachmentState>) -> Seq<AttachmentView> {
    list.map_values(|a: AttachmentState| a@)
}

/// Members as they are shown.
pub open spec fn member_views(list: Seq<MemberState>) -> Seq<MemberView> {
    list.map_values(|m: MemberState| m@)
}

/// Diagnostics as they are shown.
pub open spec fn diagnostic_views(list: Seq<PeerDiagnostic>) -> Seq<DiagnosticModel> {
    list.map_values(|d: PeerDiagnostic| d@)
}

impl View for CommunityState {
    type V = CommunityView;

    open spec fn view(&self) -> CommunityView {
        CommunityView {
            channels: channel_views(self.channels@),
            messages: message_views(self.messages@),
            attachments: attachment_views(self.attachments@),
            members: member_views(self.members@),
            selected_channel: self.selected_channel,
            owner: self.owner,
            local_member: self.local_member,
            access: self.access,
            online: self.online@.dom(),
            pending_members: self.pending_members@.dom(),
            voice: self.voice@,
            speaking: self.speaking@,
            last_read: self.last_read@,
            local_address: self.local_address@,
            connection: self.connection,
            diagnostics: diagnostic_views(self.diagnostics@),
        }
    }
}

/// How the local member stands to a community that it opens.
pub open spec fn access_at_first(has_history: bool, admitted: bool) -> CommunityAccess {
    if admitted {
        CommunityAccess::Active
    } else if has_history {
        CommunityAccess::Removed
    } else {
        CommunityAccess::Waiting
    }
}

/// How the local member stands to the community after a change.
pub open spec fn access_after(previous: CommunityAccess, admitted: bool) -> CommunityAccess {
    if admitted {
        CommunityAccess::Active
    } else if previous is Waiting {
        CommunityAccess::Waiting
    } else {
        CommunityAccess::Removed
    }
}

/// How the local member stands to a community that it opens.
pub fn initial_access(has_history: bool, admitted: bool) -> (access: CommunityAccess)
    ensures
        access == access_at_first(has_history, admitted),
{
    if admitted {
        CommunityAccess::Active
    } else if has_history {
        CommunityAccess::Removed
    } else {
        CommunityAccess::Waiting
    }
}

/// How the local member stands to the community after a change.
pub fn next_access(previous: CommunityAccess, admitted: bool) -> (access: CommunityAccess)
    ensures
        access == access_after(previous, admitted),
{
    if admitted {
        CommunityAccess::Active
    } else if previous == CommunityAccess::Waiting {
        CommunityAccess::Waiting
    } else {
        CommunityAccess::Removed
    }
}

/// Nobody waits twice: whoever was admitted is active or removed from there on.
pub proof fn admission_ends_waiting(previous: CommunityAccess, admitted: bool)
    requires
        !(previous is Waiting),
    ensures
        !(access_after(previous, admitted) is Waiting),
        access_after(previous, admitted) is Active <==> admitted,
{
}

/// How long somebody who was heard speaks, in nanoseconds: 700 milliseconds.
pub const SPEAKING_NANOS: u64 = 700_000_000;

/// Whether somebody who was heard this many nanoseconds ago still speaks.
pub fn speaking_recent(elapsed: u64) -> (recent: bool)
    ensures
        recent == (elapsed < SPEAKING_NANOS),
{
    elapsed < SPEAKING_NANOS
}

/// What a path to a peer is called.
pub open spec fn path_name(kind: ConnectionPathKind) -> Seq<char> {
    match kind {
        ConnectionPathKind::Direct => "DIRECT "@,
        ConnectionPathKind::Relay => "RELAY "@,
        ConnectionPathKind::Custom => "CUSTOM "@,
    }
}

/// What the connection is called.
pub fn connection_label(connection: Option<(ConnectionPathKind, u64)>) -> (label: String)
    ensures
        label@ == (match connection {
            Some((kind, rtt)) => path_name(kind) + crate::text::decimal(rtt as nat) + "ms"@,
            None => "OFFLINE"@,
        }),
{
    match connection {
        Some((kind, rtt)) => {
            let mut label: String = match kind {
                ConnectionPathKind::Direct => "DIRECT ".to_owned(),
                ConnectionPathKind::Relay => "RELAY ".to_owned(),
                ConnectionPathKind::Custom => "CUSTOM ".to_owned(),
            };
            push_decimal(&mut label, rtt);
            push_text(&mut label, "ms");
            label
        },
        None => "OFFLINE".to_owned(),
    }
}

/// Whether a voice channel takes the local member.
pub fn voice_room_available(occupancy: usize, local_is_present: bool) -> (available: bool)
    ensures
        available == (occupancy < MAX_VOICE_PARTICIPANTS || local_is_present),
{
    occupancy < MAX_VOICE_PARTICIPANTS || local_is_present
}

/// How a node is reached, as a user chooses.
#[derive(Clone, Copy, Debug, PartialEq, Eq, Structural)]
pub enum ConnectivityMode {
    Wan,
    RelayOnly,
}

impl Default for ConnectivityMode {
    fn default() -> (mode: Self)
        ensures
            mode is Wan,
    {
        ConnectivityMode::Wan
    }
}

impl ConnectivityMode {
    /// The configuration with this choice.
    pub fn configure(self, config: NodeConfig) -> (configured: NodeConfig)
        ensures
            configured == (NodeConfig {
                connectivity: match self {
                    ConnectivityMode::Wan => crate::connection::Connectivity::Wan,
                    ConnectivityMode::RelayOnly => crate::connection::Connectivity::RelayOnly,
                },
                ..config
            }),
    {
        match self {
            ConnectivityMode::Wan => config.wan(),
            ConnectivityMode::RelayOnly => config.relay_only(),
        }
    }
}

/// How far a path is from the best.
pub open spec fn path_rank(kind: ConnectionPathKind) -> int {
    match kind {
        ConnectionPathKind::Direct => 0,
        ConnectionPathKind::Relay => 1,
        ConnectionPathKind::Custom => 2,
    }
}

/// How far a path is from the best.
pub fn path_priority(kind: ConnectionPathKind) -> (priority: u8)
    ensures
        priority == path_rank(kind),
{
    match kind {
        ConnectionPathKind::Direct => 0,
        ConnectionPathKind::Relay => 1,
        ConnectionPathKind::Custom => 2,
    }
}

/// Whether an item is news: somebody else made it, after the last one that was read.
pub open spec fn is_news(
    last_read: Option<MessageId>,
    local_member: MemberId,
    author: MemberId,
    id: MessageId,
) -> bool {
    author != local_member && match last_read {
        Some(read) => rank(id) > rank(read),
        None => true,
    }
}

/// Whether an item is news.
pub fn is_unread(
    last_read: Option<MessageId>,
    local_member: MemberId,
    author: MemberId,
    id: MessageId,
) -> (unread: bool)
    ensures
        unread == is_news(last_read, local_member, author, id),
{
    author != local_member && match last_read {
        Some(read) => read.stands_before(&id),
        None => true,
    }
}

/// What a member is called that has no name.
pub open spec fn nameless(member: MemberId) -> Seq<char> {
    hex(member@.take(6))
}

/// The place of the first member with this name in a list.
pub open spec fn first_member(members: Seq<MemberView>, member: MemberId) -> Option<int>
    decreases members.len(),
{
    if members.len() == 0 {
        None
    } else {
        match first_member(members.drop_last(), member) {
            Some(i) => Some(i),
            None => if members.last().id == member {
                Some(members.len() - 1)
            } else {
                None
            },
        }
    }
}

/// What a member is called in a list.
pub open spec fn called(members: Seq<MemberView>, member: MemberId) -> Seq<char> {
    match first_member(members, member) {
        Some(i) => members[i].name,
        None => nameless(member),
    }
}

/// The channel that is shown first: the first text channel, or else the first one.
pub open spec fn first_shown(channels: Seq<ChannelModel>) -> ChannelId {
    match first_text(channels) {
        Some(id) => id,
        None => if channels.len() > 0 {
            channels[0].id
        } else {
            general_channel()
        },
    }
}

/// The first text channel.
pub open spec fn first_text(channels: Seq<ChannelModel>) -> Option<ChannelId>
    decreases channels.len(),
{
    if channels.len() == 0 {
        None
    } else {
        match first_text(channels.drop_last()) {
            Some(id) => Some(id),
            None => if channels.last().kind is Text {
                Some(channels.last().id)
            } else {
                None
            },
        }
    }
}

/// What a member goes by in a snapshot.
pub open spec fn goes_by(names: Map<MemberId, DisplayName>, member: MemberId) -> Seq<char> {
    if names.dom().contains(member) {
        names[member]@
    } else {
        nameless(member)
    }
}

/// A text of a snapshot, as it is shown.
pub open spec fn shown_text(
    names: Map<MemberId, DisplayName>,
    authored: AuthoredText,
) -> MessageView {
    MessageView {
        id: authored.message@.id,
        channel: authored.message@.channel_id,
        author_id: authored.author,
        author: goes_by(names, authored.author),
        body: authored.message@.body,
    }
}

/// An attachment of a snapshot, as it is shown.
pub open spec fn shown_attachment(
    names: Map<MemberId, DisplayName>,
    authored: AuthoredAttachment,
) -> AttachmentView {
    AttachmentView {
        id: authored.attachment@.id,
        channel: authored.attachment@.channel_id,
        author_id: authored.author,
        author: goes_by(names, authored.author),
        name: authored.attachment@.name,
        bytes: authored.attachment@.bytes,
    }
}

/// The role of a member, as it is shown.
pub open spec fn shown_role(community: CommunityModel, member: MemberId) -> MemberRole {
    match community.role(member) {
        Some(role) => role,
        None => MemberRole::Participant,
    }
}

/// The members of a snapshot, as they are shown.
pub open spec fn shown_members(snapshot: Snapshot, local_member: MemberId) -> Seq<MemberView> {
    Seq::new(
        snapshot.members@.len(),
        |i: int|
            MemberView {
                id: snapshot.members@[i],
                name: goes_by(snapshot.display_names@, snapshot.members@[i]),
                is_owner: snapshot.members@[i] == snapshot.community@.owner,
                is_local: snapshot.members@[i] == local_member,
                role: shown_role(snapshot.community@, snapshot.members@[i]),
            },
    )
}

/// What is shown of a snapshot.
pub open spec fn projected(snapshot: Snapshot, local_member: MemberId) -> CommunityView {
    let names = snapshot.display_names@;
    let channels = Seq::new(snapshot.channels@.len(), |i: int| snapshot.channels@[i]@);
    CommunityView {
        channels,
        messages: Seq::new(
            snapshot.messages@.len(),
            |i: int| shown_text(names, snapshot.messages@[i]),
        ),
        attachments: Seq::new(
            snapshot.attachments@.len(),
            |i: int| shown_attachment(names, snapshot.attachments@[i]),
        ),
        members: shown_members(snapshot, local_member),
        selected_channel: first_shown(channels),
        owner: snapshot.community@.owner,
        local_member,
        access: access_at_first(
            snapshot.channels@.len() > 0,
            snapshot.members@.contains(local_member),
        ),
        online: Set::empty(),
        pending_members: Set::empty(),
        voice: Map::empty(),
        speaking: Map::empty(),
        last_read: Map::empty(),
        local_address: Seq::empty(),
        connection: None,
        diagnostics: Seq::empty(),
    }
}

/// Whether a list has a channel with this name.
pub open spec fn has_channel(channels: Seq<ChannelModel>, id: ChannelId) -> bool {
    exists|i: int| 0 <= i < channels.len() && (#[trigger] channels[i]).id == id
}

/// The seats whose member is in a list, and whose channel is in another where one is given.
pub open spec fn seats_kept<V>(
    seats: Map<Seat, V>,
    members: Seq<MemberId>,
    channels: Option<Seq<ChannelModel>>,
) -> Map<Seat, V> {
    seats.restrict(
        Set::new(
            |seat: Seat|
                members.contains(seat.member) && match channels {
                    Some(channels) => has_channel(channels, seat.channel),
                    None => true,
                },
        ),
    )
}

impl CommunityView {
    /// What is shown when a channel is selected; one that is not there is not.
    pub open spec fn selecting(self, channel: ChannelId) -> Self {
        if has_channel(self.channels, channel) {
            CommunityView { selected_channel: channel, ..self }
        } else {
            self
        }
    }

    /// What is shown when a snapshot takes the place of what was there: who is online, who speaks and
    /// what was read stays, as far as the snapshot has the members and the channels.
    pub open spec fn replaced(self, snapshot: Snapshot) -> Self {
        let fresh = projected(snapshot, self.local_member);
        let members = snapshot.members@;
        CommunityView {
            access: access_after(self.access, members.contains(self.local_member)),
            online: self.online.intersect(members.to_set()),
            pending_members: self.pending_members.difference(members.to_set()),
            voice: seats_kept(self.voice, members, Some(fresh.channels)),
            speaking: seats_kept(self.speaking, members, Some(fresh.channels)),
            last_read: self.last_read,
            local_address: self.local_address,
            connection: self.connection,
            diagnostics: self.diagnostics,
            ..fresh
        }.selecting(self.selected_channel)
    }

    /// What is shown when a member changes its name: in the list of members the first one with that
    /// name, and every item of the member's.
    pub open spec fn renamed(self, member: MemberId, name: Seq<char>) -> Self {
        let first = first_member(self.members, member);
        CommunityView {
            members: match first {
                Some(i) => self.members.update(i, MemberView { name, ..self.members[i] }),
                None => self.members,
            },
            messages: Seq::new(
                self.messages.len(),
                |i: int|
                    if self.messages[i].author_id == member {
                        MessageView { author: name, ..self.messages[i] }
                    } else {
                        self.messages[i]
                    },
            ),
            attachments: Seq::new(
                self.attachments.len(),
                |i: int|
                    if self.attachments[i].author_id == member {
                        AttachmentView { author: name, ..self.attachments[i] }
                    } else {
                        self.attachments[i]
                    },
            ),
            ..self
        }
    }

    /// What is shown when a channel is created.
    pub open spec fn with_channel(self, channel: ChannelModel) -> Self {
        if has_channel(self.channels, channel.id) {
            self
        } else {
            CommunityView { channels: self.channels.push(channel), ..self }
        }
    }

    /// Whether a text is shown.
    pub open spec fn has_text(self, author: MemberId, id: MessageId) -> bool {
        exists|i: int|
            0 <= i < self.messages.len() && (#[trigger] self.messages[i]).author_id == author
                && self.messages[i].id == id
    }

    /// What is shown when a text comes in: once, in the order of the texts' names.
    pub open spec fn with_text(self, author: MemberId, text: TextModel) -> Self {
        if self.has_text(author, text.id) {
            self
        } else {
            CommunityView {
                messages: in_order(
                    self.messages.push(
                        MessageView {
                            id: text.id,
                            channel: text.channel_id,
                            author_id: author,
                            author: called(self.members, author),
                            body: text.body,
                        },
                    ),
                ),
                ..self
            }
        }
    }

    /// Whether an attachment is shown.
    pub open spec fn has_attachment(self, author: MemberId, id: MessageId) -> bool {
        exists|i: int|
            0 <= i < self.attachments.len() && (#[trigger] self.attachments[i]).author_id == author
                && self.attachments[i].id == id
    }

    /// What is shown when an attachment comes in: once, in the order of the attachments' names.
    pub open spec fn with_attachment(self, author: MemberId, attachment: AttachmentModel) -> Self {
        if self.has_attachment(author, attachment.id) {
            self
        } else {
            CommunityView {
                attachments: in_order(
                    self.attachments.push(
                        AttachmentView {
                            id: attachment.id,
                            channel: attachment.channel_id,
                            author_id: author,
                            author: called(self.members, author),
                            name: attachment.name,
                            bytes: attachment.bytes,
                        },
                    ),
                ),
                ..self
            }
        }
    }

    /// What is shown when an attachment is forgotten.
    pub open spec fn without_attachment(self, author: MemberId, id: MessageId) -> Self {
        CommunityView {
            attachments: self.attachments.filter(
                |a: AttachmentView| a.author_id != author || a.id != id,
            ),
            ..self
        }
    }

    /// What is shown when a peer connects: to the owner somebody who is no member waits, everybody
    /// else is online.
    pub open spec fn with_peer(self, member: MemberId) -> Self {
        if self.local_member == self.owner && first_member(self.members, member) is None {
            CommunityView { pending_members: self.pending_members.insert(member), ..self }
        } else {
            CommunityView { online: self.online.insert(member), ..self }
        }
    }

    /// What is shown when the membership changes.
    pub open spec fn with_community(self, community: CommunityModel) -> Self {
        let members = sorted_keys(community.members);
        CommunityView {
            owner: community.owner,
            members: Seq::new(
                members.len(),
                |i: int|
                    MemberView {
                        id: members[i],
                        name: latest_called(self.members, members[i]),
                        is_owner: members[i] == community.owner,
                        is_local: members[i] == self.local_member,
                        role: shown_role(community, members[i]),
                    },
            ),
            access: access_after(
                self.access,
                community.members.dom().contains(self.local_member),
            ),
            online: self.online.intersect(members.to_set()),
            pending_members: self.pending_members.difference(members.to_set()),
            voice: seats_kept(self.voice, members, None),
            speaking: seats_kept(self.speaking, members, None),
            ..self
        }
    }

    /// What is shown when a member is heard.
    pub open spec fn with_voice(self, channel: ChannelId, member: MemberId, now: u64) -> Self {
        CommunityView { speaking: self.speaking.insert(Seat { channel, member }, now), ..self }
    }

    /// What is shown when a member says where it is.
    pub open spec fn with_presence(
        self,
        channel: ChannelId,
        member: MemberId,
        state: VoicePresence,
    ) -> Self {
        let seat = Seat { channel, member };
        match state {
            VoicePresence::Joined => CommunityView {
                voice: self.voice.restrict(
                    Set::new(|other: Seat| other.member != member),
                ).insert(seat, false),
                ..self
            },
            VoicePresence::Left => CommunityView {
                voice: self.voice.remove(seat),
                speaking: self.speaking.remove(seat),
                ..self
            },
            VoicePresence::Muted(muted) => if self.voice.dom().contains(seat) {
                CommunityView { voice: self.voice.insert(seat, muted), ..self }
            } else {
                self
            },
        }
    }

    /// What is shown after an event.
    pub open spec fn applied(self, event: EventModel, now: u64) -> Self {
        match event {
            EventModel::DisplayNameChanged { member, name } => self.renamed(member, name),
            EventModel::ChannelCreated(channel) => self.with_channel(channel),
            EventModel::TextStored { author, text } => self.with_text(author, text),
            EventModel::AttachmentStored { author, attachment } => self.with_attachment(
                author,
                attachment,
            ),
            EventModel::AttachmentForgotten { author, id } => self.without_attachment(author, id),
            EventModel::PeerConnected(member) => self.with_peer(member),
            EventModel::MembershipChanged(community) => self.with_community(community),
            EventModel::VoiceReceived { author, frame } => self.with_voice(
                frame.channel_id,
                author,
                now,
            ),
            EventModel::VoicePresence { channel, member, state } => self.with_presence(
                channel,
                member,
                state,
            ),
            EventModel::Fault(_) => self,
        }
    }

    /// What is shown of how peers are connected.
    pub open spec fn diagnosed(self, peers: Seq<DiagnosticModel>) -> Self {
        CommunityView {
            diagnostics: peers,
            online: members_among(peers, self.members),
            connection: worst_of(peers, self.members),
            ..self
        }
    }

    /// Whether somebody speaks in a voice channel: it was heard there not long ago.
    pub open spec fn speaks(self, seat: Seat, now: u64) -> bool {
        self.speaking.dom().contains(seat) && now - self.speaking[seat] < SPEAKING_NANOS
    }

    /// What is shown once an item of a channel was read.
    pub open spec fn reading(self, channel: ChannelId, item: MessageId) -> Self {
        CommunityView { last_read: read_after(self.last_read, channel, item), ..self }
    }

    /// The news in a channel.
    pub open spec fn unread(self, channel: ChannelId) -> int {
        let read = if self.last_read.dom().contains(channel) {
            Some(self.last_read[channel])
        } else {
            None
        };
        unread_texts(self.messages, channel, read, self.local_member) + unread_attachments(
            self.attachments,
            channel,
            read,
            self.local_member,
        )
    }
}

/// What the last member with this name in a list is called.
pub open spec fn latest_called(members: Seq<MemberView>, member: MemberId) -> Seq<char>
    decreases members.len(),
{
    if members.len() == 0 {
        nameless(member)
    } else if members.last().id == member {
        members.last().name
    } else {
        latest_called(members.drop_last(), member)
    }
}

/// A number as far as a `usize` counts.
pub open spec fn counted(number: int) -> int {
    if number > usize::MAX {
        usize::MAX as int
    } else {
        number
    }
}

/// How many texts of a channel are news.
pub open spec fn unread_texts(
    messages: Seq<MessageView>,
    channel: ChannelId,
    read: Option<MessageId>,
    local_member: MemberId,
) -> int
    decreases messages.len(),
{
    if messages.len() == 0 {
        0
    } else {
        unread_texts(messages.drop_last(), channel, read, local_member) + if messages.last().channel
            == channel && is_news(
            read,
            local_member,
            messages.last().author_id,
            messages.last().id,
        ) {
            1int
        } else {
            0
        }
    }
}

/// How many attachments of a channel are news.
pub open spec fn unread_attachments(
    attachments: Seq<AttachmentView>,
    channel: ChannelId,
    read: Option<MessageId>,
    local_member: MemberId,
) -> int
    decreases attachments.len(),
{
    if attachments.len() == 0 {
        0
    } else {
        unread_attachments(attachments.drop_last(), channel, read, local_member)
            + if attachments.last().channel == channel && is_news(
            read,
            local_member,
            attachments.last().author_id,
            attachments.last().id,
        ) {
            1int
        } else {
            0
        }
    }
}

proof fn first_member_facts(members: Seq<MemberView>, member: MemberId)
    ensures
        match first_member(members, member) {
            Some(i) => 0 <= i < members.len() && members[i].id == member && forall|j: int|
                0 <= j < i ==> (#[trigger] members[j]).id != member,
            None => forall|j: int|
                0 <= j < members.len() ==> (#[trigger] members[j]).id != member,
        },
    decreases members.len(),
{
    if members.len() > 0 {
        let before = members.drop_last();
        first_member_facts(before, member);
        assert(forall|j: int| 0 <= j < before.len() ==> before[j] == members[j]);
    }
}

pub(crate) fn find_member(members: &Vec<MemberState>, member: MemberId) -> (found: Option<usize>)
    ensures
        match found {
            Some(i) => i < members@.len() && first_member(member_views(members@), member) == Some(
                i as int,
            ),
            None => first_member(member_views(members@), member) is None,
        },
{
    let ghost views = member_views(members@);
    let mut i: usize = 0;
    while i < members.len()
        invariant
            i <= members@.len(),
            views == member_views(members@),
            forall|j: int| 0 <= j < i ==> (#[trigger] views[j]).id != member,
        decreases members@.len() - i,
    {
        assert(views[i as int] == members@[i as int]@);
        if members[i].id == member {
            proof {
                first_member_facts(views, member);
            }
            return Some(i);
        }
        i += 1;
    }
    proof {
        first_member_facts(views, member);
    }
    None
}

fn called_among(members: &Vec<MemberState>, member: MemberId) -> (name: String)
    ensures
        name@ == called(member_views(members@), member),
{
    match find_member(members, member) {
        Some(i) => {
            assert(member_views(members@)[i as int] == members@[i as int]@);
            members[i].name.clone()
        },
        None => short_member(member),
    }
}

fn latest_name(members: &Vec<MemberState>, member: MemberId) -> (name: String)
    ensures
        name@ == latest_called(member_views(members@), member),
{
    let ghost views = member_views(members@);
    let mut i: usize = members.len();
    assert(views.take(i as int) =~= views);
    while i > 0
        invariant
            i <= members@.len(),
            views == member_views(members@),
            latest_called(views, member) == latest_called(views.take(i as int), member),
        decreases i,
    {
        assert(views[i - 1] == members@[i - 1]@);
        assert(views.take(i as int).last() == views[i - 1]);
        assert(views.take(i as int).drop_last() =~= views.take(i - 1));
        if members[i - 1].id == member {
            return members[i - 1].name.clone();
        }
        i -= 1;
    }
    short_member(member)
}

fn has_channel_state(channels: &Vec<ChannelState>, id: ChannelId) -> (has: bool)
    ensures
        has == has_channel(channel_views(channels@), id),
{
    let ghost views = channel_views(channels@);
    let mut i: usize = 0;
    while i < channels.len()
        invariant
            i <= channels@.len(),
            views == channel_views(channels@),
            forall|j: int| 0 <= j < i ==> (#[trigger] views[j]).id != id,
        decreases channels@.len() - i,
    {
        assert(views[i as int] == channels@[i as int]@);
        if channels[i].id == id {
            return true;
        }
        i += 1;
    }
    false
}

fn kept_members(members: &SortedMap<MemberId, ()>, listed: &Vec<MemberId>, inside: bool) -> (kept:
    SortedMap<MemberId, ()>)
    ensures
        inside ==> kept@.dom() == members@.dom().intersect(listed@.to_set()),
        !inside ==> kept@.dom() == members@.dom().difference(listed@.to_set()),
{
    let mut kept: SortedMap<MemberId, ()> = SortedMap::new();
    let length: usize = members.len();
    let mut i: usize = 0;
    while i < length
        invariant
            i <= length,
            length == members.keys().len(),
            members.consistent(),
            forall|m: MemberId| #[trigger]
                kept@.dom().contains(m) <==> (members.keys().take(i as int).contains(m)
                    && listed@.contains(m) == inside),
        decreases length - i,
    {
        let member: MemberId = members.key_at(i);
        let ghost before = kept@;
        assert(members.keys().take(i + 1) =~= members.keys().take(i as int).push(member));
        if is_listed(listed, member) == inside {
            kept.insert(member, ());
        }
        assert forall|m: MemberId| #[trigger]
            kept@.dom().contains(m) <==> (members.keys().take(i + 1).contains(m)
                && listed@.contains(m) == inside) by {
            if members.keys().take(i as int).contains(m) {
                let j = members.keys().take(i as int).index_of(m);
                assert(members.keys().take(i + 1)[j] == m);
            }
            assert(members.keys().take(i + 1)[i as int] == member);
            if members.keys().take(i + 1).contains(m) && m != member {
                let j = members.keys().take(i + 1).index_of(m);
                assert(members.keys().take(i as int)[j] == m);
            }
            assert(before.dom().contains(m) <==> (members.keys().take(i as int).contains(m)
                && listed@.contains(m) == inside));
        }
        i += 1;
    }
    assert(members.keys().take(length as int) =~= members.keys());
    proof {
        assert forall|m: MemberId| #[trigger]
            kept@.dom().contains(m) <==> (members@.dom().contains(m) && listed@.to_set().contains(m)
                == inside) by {
            assert(members@.dom().contains(m) <==> members.keys().contains(m));
        }
        if inside {
            assert(kept@.dom() =~= members@.dom().intersect(listed@.to_set()));
        } else {
            assert(kept@.dom() =~= members@.dom().difference(listed@.to_set()));
        }
    }
    kept
}

spec fn seat_stays(
    seat: Seat,
    members: Seq<MemberId>,
    channels: Option<Seq<ChannelModel>>,
) -> bool {
    members.contains(seat.member) && match channels {
        Some(channels) => has_channel(channels, seat.channel),
        None => true,
    }
}

fn kept_seats<V: Copy>(
    seats: &SortedMap<Seat, V>,
    members: &Vec<MemberId>,
    channels: Option<&Vec<ChannelState>>,
) -> (kept: SortedMap<Seat, V>)
    ensures
        kept@ == seats_kept(
            seats@,
            members@,
            match channels {
                Some(channels) => Some(channel_views(channels@)),
                None => None,
            },
        ),
{
    let ghost views = match channels {
        Some(channels) => Some(channel_views(channels@)),
        None => None,
    };
    let mut kept: SortedMap<Seat, V> = SortedMap::new();
    let length: usize = seats.len();
    let mut i: usize = 0;
    while i < length
        invariant
            i <= length,
            length == seats.keys().len(),
            seats.consistent(),
            views == (match channels {
                Some(channels) => Some(channel_views(channels@)),
                None => None,
            }),
            forall|seat: Seat| #[trigger]
                kept@.dom().contains(seat) <==> (seats.keys().take(i as int).contains(seat)
                    && seat_stays(seat, members@, views)),
            forall|seat: Seat| #[trigger]
                kept@.dom().contains(seat) ==> kept@[seat] == seats@[seat],
        decreases length - i,
    {
        let seat: Seat = seats.key_at(i);
        let value: V = *seats.value_at(i);
        let ghost before = kept@;
        let stays: bool = is_listed(members, seat.member) && match channels {
            Some(channels) => has_channel_state(channels, seat.channel),
            None => true,
        };
        assert(stays == seat_stays(seat, members@, views));
        if stays {
            kept.insert(seat, value);
        }
        assert(seats@[seats.keys()[i as int]] == value);
        let ghost earlier = seats.keys().take(i as int);
        let ghost later = seats.keys().take(i + 1);
        assert forall|other: Seat| #[trigger]
            kept@.dom().contains(other) <==> (later.contains(other) && seat_stays(
                other,
                members@,
                views,
            )) by {
            if earlier.contains(other) {
                let j = earlier.index_of(other);
                assert(later[j] == other);
            }
            assert(later[i as int] == seat);
            if later.contains(other) && other != seat {
                let j = later.index_of(other);
                assert(earlier[j] == other);
            }
            assert(before.dom().contains(other) <==> (earlier.contains(other) && seat_stays(
                other,
                members@,
                views,
            )));
        }
        assert forall|other: Seat| #[trigger] kept@.dom().contains(other) implies kept@[other]
            == seats@[other] by {
            if other != seat {
                assert(before.dom().contains(other));
            }
        }
        i += 1;
    }
    assert(seats.keys().take(length as int) =~= seats.keys());
    proof {
        assert forall|seat: Seat| #[trigger]
            kept@.dom().contains(seat) <==> seats_kept(seats@, members@, views).dom().contains(
                seat,
            ) by {
            assert(seats@.dom().contains(seat) <==> seats.keys().contains(seat));
        }
        assert(kept@ =~= seats_kept(seats@, members@, views));
    }
    kept
}

fn goes_by_name(names: &SortedMap<MemberId, DisplayName>, member: MemberId) -> (name: String)
    ensures
        name@ == goes_by(names@, member),
{
    match names.get(member) {
        Some(name) => name.as_str().to_owned(),
        None => short_member(member),
    }
}

fn project_channels(channels: &Vec<Channel>) -> (list: Vec<ChannelState>)
    ensures
        channel_views(list@) == Seq::new(channels@.len(), |i: int| channels@[i]@),
{
    let mut list: Vec<ChannelState> = Vec::new();
    let mut i: usize = 0;
    while i < channels.len()
        invariant
            i <= channels@.len(),
            list@.len() == i,
            forall|j: int| 0 <= j < i ==> (#[trigger] list@[j])@ == channels@[j]@,
        decreases channels@.len() - i,
    {
        let channel: &Channel = &channels[i];
        list.push(
            ChannelState {
                id: channel.id(),
                name: channel.name().to_owned(),
                kind: channel.kind(),
            },
        );
        i += 1;
    }
    assert(channel_views(list@) =~= Seq::new(channels@.len(), |i: int| channels@[i]@));
    list
}

fn project_messages(
    messages: &Vec<AuthoredText>,
    names: &SortedMap<MemberId, DisplayName>,
) -> (list:
    Vec<MessageState>)
    ensures
        message_views(list@) == Seq::new(
            messages@.len(),
            |i: int| shown_text(names@, messages@[i]),
        ),
{
    let mut list: Vec<MessageState> = Vec::new();
    let mut i: usize = 0;
    while i < messages.len()
        invariant
            i <= messages@.len(),
            list@.len() == i,
            forall|j: int|
                0 <= j < i ==> (#[trigger] list@[j])@ == shown_text(names@, messages@[j]),
        decreases messages@.len() - i,
    {
        let authored: &AuthoredText = &messages[i];
        list.push(
            MessageState {
                id: authored.message().id(),
                channel: authored.message().channel_id(),
                author_id: authored.author(),
                author: goes_by_name(names, authored.author()),
                body: authored.message().body().to_owned(),
            },
        );
        i += 1;
    }
    assert(message_views(list@) =~= Seq::new(
        messages@.len(),
        |i: int| shown_text(names@, messages@[i]),
    ));
    list
}

fn project_attachments(
    attachments: &Vec<AuthoredAttachment>,
    names: &SortedMap<MemberId, DisplayName>,
) -> (list: Vec<AttachmentState>)
    ensures
        attachment_views(list@) == Seq::new(
            attachments@.len(),
            |i: int| shown_attachment(names@, attachments@[i]),
        ),
{
    let mut list: Vec<AttachmentState> = Vec::new();
    let mut i: usize = 0;
    while i < attachments.len()
        invariant
            i <= attachments@.len(),
            list@.len() == i,
            forall|j: int|
                0 <= j < i ==> (#[trigger] list@[j])@ == shown_attachment(names@, attachments@[j]),
        decreases attachments@.len() - i,
    {
        let authored: &AuthoredAttachment = &attachments[i];
        list.push(
            AttachmentState {
                id: authored.attachment().id(),
                channel: authored.attachment().channel_id(),
                author_id: authored.author(),
                author: goes_by_name(names, authored.author()),
                name: authored.attachment().name().to_owned(),
                bytes: to_vec(authored.attachment().bytes()),
            },
        );
        i += 1;
    }
    assert(attachment_views(list@) =~= Seq::new(
        attachments@.len(),
        |i: int| shown_attachment(names@, attachments@[i]),
    ));
    list
}

fn project_members(snapshot: &Snapshot, local_member: MemberId) -> (list: Vec<MemberState>)
    ensures
        member_views(list@) == shown_members(*snapshot, local_member),
{
    let members: &Vec<MemberId> = snapshot.members();
    let mut list: Vec<MemberState> = Vec::new();
    let mut i: usize = 0;
    while i < members.len()
        invariant
            i <= members@.len(),
            *members == snapshot.members,
            list@.len() == i,
            forall|j: int|
                0 <= j < i ==> (#[trigger] list@[j])@ == shown_members(*snapshot, local_member)[j],
        decreases members@.len() - i,
    {
        let member: MemberId = members[i];
        let role: MemberRole = match snapshot.role(member) {
            Some(role) => role,
            None => MemberRole::Participant,
        };
        list.push(
            MemberState {
                id: member,
                name: goes_by_name(snapshot.display_names(), member),
                is_owner: member == snapshot.owner(),
                is_local: member == local_member,
                role,
            },
        );
        i += 1;
    }
    assert(member_views(list@) =~= shown_members(*snapshot, local_member));
    list
}

fn channel_shown_first(channels: &Vec<ChannelState>) -> (id: ChannelId)
    ensures
        id == first_shown(channel_views(channels@)),
{
    let ghost views = channel_views(channels@);
    let mut i: usize = 0;
    while i < channels.len()
        invariant
            i <= channels@.len(),
            views == channel_views(channels@),
            first_text(views.take(i as int)) is None,
        decreases channels@.len() - i,
    {
        assert(views[i as int] == channels@[i as int]@);
        assert(views.take(i + 1).drop_last() =~= views.take(i as int));
        assert(views.take(i + 1).last() == views[i as int]);
        if channels[i].kind == ChannelKind::Text {
            proof {
                first_text_stays(views, i + 1);
            }
            return channels[i].id;
        }
        i += 1;
    }
    assert(views.take(i as int) =~= views);
    if channels.len() > 0 {
        assert(views[0] == channels@[0]@);
        channels[0].id
    } else {
        ChannelId::general()
    }
}

proof fn first_text_stays(channels: Seq<ChannelModel>, n: int)
    requires
        0 <= n <= channels.len(),
        first_text(channels.take(n)) is Some,
    ensures
        first_text(channels) == first_text(channels.take(n)),
    decreases channels.len(),
{
    if n < channels.len() {
        assert(channels.drop_last().take(n) =~= channels.take(n));
        first_text_stays(channels.drop_last(), n);
    } else {
        assert(channels.take(n) =~= channels);
    }
}

impl CommunityState {
    /// What is shown of a snapshot.
    pub fn from_snapshot(snapshot: &Snapshot, local_member: MemberId) -> (state: Self)
        ensures
            state@ == projected(*snapshot, local_member),
    {
        let access: CommunityAccess = initial_access(
            snapshot.channels().len() > 0,
            is_listed(snapshot.members(), local_member),
        );
        let channels: Vec<ChannelState> = project_channels(snapshot.channels());
        let selected_channel: ChannelId = channel_shown_first(&channels);
        let messages: Vec<MessageState> = project_messages(
            snapshot.messages(),
            snapshot.display_names(),
        );
        let attachments: Vec<AttachmentState> = project_attachments(
            snapshot.attachments(),
            snapshot.display_names(),
        );
        let members: Vec<MemberState> = project_members(snapshot, local_member);
        let state: CommunityState = CommunityState {
            channels,
            messages,
            attachments,
            members,
            selected_channel,
            owner: snapshot.owner(),
            local_member,
            access,
            online: SortedMap::new(),
            pending_members: SortedMap::new(),
            voice: SortedMap::new(),
            speaking: SortedMap::new(),
            last_read: SortedMap::new(),
            local_address: String::new(),
            connection: None,
            diagnostics: Vec::new(),
        };
        assert(state@ =~= projected(*snapshot, local_member));
        state
    }

    /// Shows another snapshot.
    pub fn replace_snapshot(&mut self, snapshot: &Snapshot)
        ensures
            final(self)@ == old(self)@.replaced(*snapshot),
    {
        let selected: ChannelId = self.selected_channel;
        let fresh: CommunityState = CommunityState::from_snapshot(snapshot, self.local_member);
        let access: CommunityAccess = next_access(
            self.access,
            is_listed(snapshot.members(), self.local_member),
        );
        let online: SortedMap<MemberId, ()> = kept_members(&self.online, snapshot.members(), true);
        let pending_members: SortedMap<MemberId, ()> = kept_members(
            &self.pending_members,
            snapshot.members(),
            false,
        );
        let voice: SortedMap<Seat, bool> = kept_seats(
            &self.voice,
            snapshot.members(),
            Some(&fresh.channels),
        );
        let speaking: SortedMap<Seat, u64> = kept_seats(
            &self.speaking,
            snapshot.members(),
            Some(&fresh.channels),
        );
        self.channels = fresh.channels;
        self.messages = fresh.messages;
        self.attachments = fresh.attachments;
        self.members = fresh.members;
        self.selected_channel = fresh.selected_channel;
        self.owner = fresh.owner;
        self.access = access;
        self.online = online;
        self.pending_members = pending_members;
        self.voice = voice;
        self.speaking = speaking;
        self.select_channel(selected);
    }

    /// Selects a channel, if it is there.
    pub fn select_channel(&mut self, channel: ChannelId)
        ensures
            final(self)@ == old(self)@.selecting(channel),
    {
        if has_channel_state(&self.channels, channel) {
            self.selected_channel = channel;
        }
    }
}

impl CommunityState {
    fn rename(&mut self, member: MemberId, name: &str)
        ensures
            final(self)@ == old(self)@.renamed(member, name@),
    {
        let ghost before = *self;
        match find_member(&self.members, member) {
            Some(i) => {
                let role: MemberRole = self.members[i].role;
                let is_owner: bool = self.members[i].is_owner;
                let is_local: bool = self.members[i].is_local;
                assert(member_views(self.members@)[i as int] == self.members@[i as int]@);
                proof {
                    first_member_facts(member_views(self.members@), member);
                }
                self.members.set(
                    i,
                    MemberState { id: member, name: name.to_owned(), is_owner, is_local, role },
                );
            },
            None => {},
        }
        let ghost shown = before@.renamed(member, name@);
        assert(member_views(self.members@) =~= shown.members);
        let mut i: usize = 0;
        while i < self.messages.len()
            invariant
                i <= self.messages@.len(),
                self.messages@.len() == before.messages@.len(),
                forall|j: int|
                    0 <= j < i ==> (#[trigger] self.messages@[j])@ == before@.renamed(
                        member,
                        name@,
                    ).messages[j],
                forall|j: int|
                    i <= j < self.messages@.len() ==> (#[trigger] self.messages@[j])
                        == before.messages@[j],
                member_views(self.members@) == before@.renamed(member, name@).members,
                (CommunityState {
                    messages: before.messages,
                    members: before.members,
                    ..*self
                }) == before,
            decreases self.messages@.len() - i,
        {
            assert(self.messages@[i as int] == before.messages@[i as int]);
            assert(before@.messages[i as int] == before.messages@[i as int]@);
            if self.messages[i].author_id == member {
                self.messages[i].author = name.to_owned();
            }
            i += 1;
        }
        assert(message_views(self.messages@) =~= shown.messages);
        let mut k: usize = 0;
        while k < self.attachments.len()
            invariant
                k <= self.attachments@.len(),
                self.attachments@.len() == before.attachments@.len(),
                forall|j: int|
                    0 <= j < k ==> (#[trigger] self.attachments@[j])@ == before@.renamed(
                        member,
                        name@,
                    ).attachments[j],
                forall|j: int|
                    k <= j < self.attachments@.len() ==> (#[trigger] self.attachments@[j])
                        == before.attachments@[j],
                member_views(self.members@) == before@.renamed(member, name@).members,
                message_views(self.messages@) == before@.renamed(member, name@).messages,
                (CommunityState {
                    messages: before.messages,
                    members: before.members,
                    attachments: before.attachments,
                    ..*self
                }) == before,
            decreases self.attachments@.len() - k,
        {
            assert(self.attachments@[k as int] == before.attachments@[k as int]);
            assert(before@.attachments[k as int] == before.attachments@[k as int]@);
            if self.attachments[k].author_id == member {
                self.attachments[k].author = name.to_owned();
            }
            k += 1;
        }
        assert(attachment_views(self.attachments@) =~= shown.attachments);
    }

    fn add_channel(&mut self, channel: &Channel)
        ensures
            final(self)@ == old(self)@.with_channel(channel@),
    {
        if !has_channel_state(&self.channels, channel.id()) {
            let ghost before = channel_views(self.channels@);
            let shown: ChannelState = ChannelState {
                id: channel.id(),
                name: channel.name().to_owned(),
                kind: channel.kind(),
            };
            assert(shown@ == channel@);
            self.channels.push(shown);
            assert(channel_views(self.channels@) =~= before.push(channel@));
        }
    }

    fn shows_text(&self, author: MemberId, id: MessageId) -> (shows: bool)
        ensures
            shows == self@.has_text(author, id),
    {
        let mut i: usize = 0;
        while i < self.messages.len()
            invariant
                i <= self.messages@.len(),
                forall|j: int|
                    0 <= j < i ==> !((#[trigger] self@.messages[j]).author_id == author
                        && self@.messages[j].id == id),
            decreases self.messages@.len() - i,
        {
            assert(self@.messages[i as int] == self.messages@[i as int]@);
            if self.messages[i].author_id == author && self.messages[i].id == id {
                return true;
            }
            i += 1;
        }
        false
    }

    fn add_text(&mut self, authored: &AuthoredText)
        ensures
            final(self)@ == old(self)@.with_text(authored.author, authored.message@),
    {
        let author: MemberId = authored.author();
        let message: &TextMessage = authored.message();
        if !self.shows_text(author, message.id()) {
            let shown: MessageState = MessageState {
                id: message.id(),
                channel: message.channel_id(),
                author_id: author,
                author: called_among(&self.members, author),
                body: message.body().to_owned(),
            };
            let mut messages: Vec<MessageState> = Vec::new();
            std::mem::swap(&mut messages, &mut self.messages);
            let ghost before = messages@;
            messages.push(shown);
            proof {
                let f = |m: MessageState| m@;
                assert(keeps_places(f));
                order_carries_over(messages@, f);
                assert(messages@.map_values(f) =~= message_views(before).push(shown@));
            }
            self.messages = sort(messages);
            assert(message_views(self.messages@) == in_order(message_views(before).push(shown@)));
        }
    }

    fn shows_attachment(&self, author: MemberId, id: MessageId) -> (shows: bool)
        ensures
            shows == self@.has_attachment(author, id),
    {
        let mut i: usize = 0;
        while i < self.attachments.len()
            invariant
                i <= self.attachments@.len(),
                forall|j: int|
                    0 <= j < i ==> !((#[trigger] self@.attachments[j]).author_id == author
                        && self@.attachments[j].id == id),
            decreases self.attachments@.len() - i,
        {
            assert(self@.attachments[i as int] == self.attachments@[i as int]@);
            if self.attachments[i].author_id == author && self.attachments[i].id == id {
                return true;
            }
            i += 1;
        }
        false
    }

    fn add_attachment(&mut self, authored: &AuthoredAttachment)
        ensures
            final(self)@ == old(self)@.with_attachment(authored.author, authored.attachment@),
    {
        let author: MemberId = authored.author();
        let attachment: &Attachment = authored.attachment();
        if !self.shows_attachment(author, attachment.id()) {
            let shown: AttachmentState = AttachmentState {
                id: attachment.id(),
                channel: attachment.channel_id(),
                author_id: author,
                author: called_among(&self.members, author),
                name: attachment.name().to_owned(),
                bytes: to_vec(attachment.bytes()),
            };
            let mut attachments: Vec<AttachmentState> = Vec::new();
            std::mem::swap(&mut attachments, &mut self.attachments);
            let ghost before = attachments@;
            attachments.push(shown);
            proof {
                let f = |a: AttachmentState| a@;
                assert(keeps_places(f));
                order_carries_over(attachments@, f);
                assert(attachments@.map_values(f) =~= attachment_views(before).push(shown@));
            }
            self.attachments = sort(attachments);
            assert(attachment_views(self.attachments@) == in_order(
                attachment_views(before).push(shown@),
            ));
        }
    }

    fn forget(&mut self, author: MemberId, id: MessageId)
        ensures
            final(self)@ == old(self)@.without_attachment(author, id),
    {
        let mut rest: Vec<AttachmentState> = Vec::new();
        std::mem::swap(&mut rest, &mut self.attachments);
        let ghost all = attachment_views(rest@);
        let ghost stays = |a: AttachmentView| a.author_id != author || a.id != id;
        let mut reversed: Vec<AttachmentState> = Vec::new();
        assert(all.skip(all.len() as int) =~= Seq::<AttachmentView>::empty());
        assert(kept_backwards(all.skip(all.len() as int), stays) =~= Seq::<AttachmentView>::empty());
        assert(attachment_views(reversed@) =~= Seq::<AttachmentView>::empty());
        while rest.len() > 0
            invariant
                rest@.len() <= all.len(),
                attachment_views(rest@) == all.take(rest@.len() as int),
                attachment_views(reversed@) == kept_backwards(
                    all.skip(rest@.len() as int),
                    stays,
                ),
                stays == (|a: AttachmentView| a.author_id != author || a.id != id),
            decreases rest@.len(),
        {
            let ghost n = rest@.len() as int;
            let ghost before = rest@;
            let ghost earlier = reversed@;
            match rest.pop() {
                Some(attachment) => {
                    assert(attachment_views(before)[n - 1] == attachment@);
                    assert(all[n - 1] == attachment@);
                    assert(all.skip(n - 1).drop_first() =~= all.skip(n));
                    assert(all.skip(n - 1)[0] == all[n - 1]);
                    if attachment.author_id != author || attachment.id != id {
                        reversed.push(attachment);
                        assert(attachment_views(reversed@) =~= attachment_views(earlier).push(
                            attachment@,
                        ));
                    }
                },
                None => {},
            }
            assert(attachment_views(rest@) =~= all.take(n - 1));
        }
        assert(all.skip(0) =~= all);
        let mut kept: Vec<AttachmentState> = Vec::new();
        let ghost backwards = attachment_views(reversed@);
        assert(backwards.skip(backwards.len() as int).reverse() =~= Seq::<AttachmentView>::empty());
        assert(attachment_views(kept@) =~= Seq::<AttachmentView>::empty());
        while reversed.len() > 0
            invariant
                reversed@.len() <= backwards.len(),
                attachment_views(reversed@) == backwards.take(reversed@.len() as int),
                attachment_views(kept@) == backwards.skip(reversed@.len() as int).reverse(),
            decreases reversed@.len(),
        {
            let ghost n = reversed@.len() as int;
            let ghost before = reversed@;
            let ghost earlier = kept@;
            match reversed.pop() {
                Some(attachment) => {
                    assert(attachment_views(before)[n - 1] == attachment@);
                    kept.push(attachment);
                    assert(attachment_views(kept@) =~= attachment_views(earlier).push(attachment@));
                },
                None => {},
            }
            assert(attachment_views(reversed@) =~= backwards.take(n - 1));
            assert(attachment_views(kept@) =~= backwards.skip(n - 1).reverse());
        }
        assert(backwards.skip(0) =~= backwards);
        proof {
            backwards_is_filter(all, stays);
        }
        self.attachments = kept;
    }

    fn connect_peer(&mut self, member: MemberId)
        ensures
            final(self)@ == old(self)@.with_peer(member),
    {
        if self.local_member == self.owner && find_member(&self.members, member).is_none() {
            self.pending_members.insert(member, ());
            assert(self.pending_members@.dom() =~= old(self).pending_members@.dom().insert(member));
        } else {
            self.online.insert(member, ());
            assert(self.online@.dom() =~= old(self).online@.dom().insert(member));
        }
    }

    fn change_community(&mut self, community: &Community)
        ensures
            final(self)@ == old(self)@.with_community(community@),
    {
        let ghost shown = self@.with_community(community@);
        let owner: MemberId = community.owner();
        let listed: Vec<MemberId> = community.members();
        proof {
            sorted_keys_are(community@.members, listed@);
        }
        let mut members: Vec<MemberState> = Vec::new();
        let mut i: usize = 0;
        while i < listed.len()
            invariant
                i <= listed@.len(),
                members@.len() == i,
                owner == community@.owner,
                listed@ == sorted_keys(community@.members),
                shown == self@.with_community(community@),
                forall|j: int| 0 <= j < i ==> (#[trigger] members@[j])@ == shown.members[j],
            decreases listed@.len() - i,
        {
            let member: MemberId = listed[i];
            let role: MemberRole = match community.role(member) {
                Some(role) => role,
                None => MemberRole::Participant,
            };
            members.push(
                MemberState {
                    id: member,
                    name: latest_name(&self.members, member),
                    is_owner: member == owner,
                    is_local: member == self.local_member,
                    role,
                },
            );
            i += 1;
        }
        assert(member_views(members@) =~= shown.members);
        self.owner = owner;
        self.members = members;
        self.access = next_access(self.access, community.contains(self.local_member));
        self.online = kept_members(&self.online, &listed, true);
        self.pending_members = kept_members(&self.pending_members, &listed, false);
        self.voice = kept_seats(&self.voice, &listed, None);
        self.speaking = kept_seats(&self.speaking, &listed, None);
    }

    fn leave_seats(&mut self, member: MemberId)
        ensures
            final(self)@ == (CommunityView {
                voice: old(self)@.voice.restrict(Set::new(|other: Seat| other.member != member)),
                ..old(self)@
            }),
    {
        let mut kept: SortedMap<Seat, bool> = SortedMap::new();
        let length: usize = self.voice.len();
        let mut i: usize = 0;
        while i < length
            invariant
                i <= length,
                length == self.voice.keys().len(),
                self.voice.consistent(),
                forall|seat: Seat| #[trigger]
                    kept@.dom().contains(seat) <==> (self.voice.keys().take(i as int).contains(seat)
                        && seat.member != member),
                forall|seat: Seat| #[trigger]
                    kept@.dom().contains(seat) ==> kept@[seat] == self.voice@[seat],
                *self == *old(self),
            decreases length - i,
        {
            let seat: Seat = self.voice.key_at(i);
            let muted: bool = *self.voice.value_at(i);
            let ghost before = kept@;
            if seat.member != member {
                kept.insert(seat, muted);
            }
            assert(self.voice@[self.voice.keys()[i as int]] == muted);
            let ghost earlier = self.voice.keys().take(i as int);
            let ghost later = self.voice.keys().take(i + 1);
            assert forall|other: Seat| #[trigger]
                kept@.dom().contains(other) <==> (later.contains(other) && other.member
                    != member) by {
                if earlier.contains(other) {
                    let j = earlier.index_of(other);
                    assert(later[j] == other);
                }
                assert(later[i as int] == seat);
                if later.contains(other) && other != seat {
                    let j = later.index_of(other);
                    assert(earlier[j] == other);
                }
                assert(before.dom().contains(other) <==> (earlier.contains(other) && other.member
                    != member));
            }
            assert forall|other: Seat| #[trigger] kept@.dom().contains(other) implies kept@[other]
                == self.voice@[other] by {
                if other != seat {
                    assert(before.dom().contains(other));
                }
            }
            i += 1;
        }
        assert(self.voice.keys().take(length as int) =~= self.voice.keys());
        proof {
            let left = self.voice@.restrict(Set::new(|other: Seat| other.member != member));
            assert forall|seat: Seat| #[trigger]
                kept@.dom().contains(seat) <==> left.dom().contains(seat) by {
                assert(self.voice@.dom().contains(seat) <==> self.voice.keys().contains(seat));
            }
            assert(kept@ =~= left);
        }
        self.voice = kept;
    }

    fn change_presence(&mut self, channel: ChannelId, member: MemberId, state: VoicePresence)
        ensures
            final(self)@ == old(self)@.with_presence(channel, member, state),
    {
        let seat: Seat = Seat { channel, member };
        match state {
            VoicePresence::Joined => {
                self.leave_seats(member);
                self.voice.insert(seat, false);
            },
            VoicePresence::Left => {
                self.voice.remove(seat);
                self.speaking.remove(seat);
            },
            VoicePresence::Muted(muted) => {
                if self.voice.contains_key(seat) {
                    self.voice.insert(seat, muted);
                }
            },
        }
    }

    /// Shows what an event says; `now` is the time.
    pub fn apply(&mut self, event: Event, now: u64)
        ensures
            final(self)@ == old(self)@.applied(event@, now),
    {
        match event {
            Event::DisplayNameChanged { member, name } => self.rename(member, name.as_str()),
            Event::ChannelCreated(channel) => self.add_channel(&channel),
            Event::TextStored(authored) => self.add_text(&authored),
            Event::AttachmentStored(authored) => self.add_attachment(&authored),
            Event::AttachmentForgotten { author, id } => self.forget(author, id),
            Event::PeerConnected(member) => self.connect_peer(member),
            Event::MembershipChanged(community) => self.change_community(&community),
            Event::VoiceReceived(authored) => {
                let seat: Seat = Seat {
                    channel: authored.frame().channel_id(),
                    member: authored.author(),
                };
                self.speaking.insert(seat, now);
            },
            Event::VoicePresence { channel, member, state } => self.change_presence(
                channel,
                member,
                state,
            ),
            Event::Fault(_) => {},
        }
    }
}

spec fn kept_backwards(
    list: Seq<AttachmentView>,
    stays: spec_fn(AttachmentView) -> bool,
) -> Seq<AttachmentView>
    decreases list.len(),
{
    if list.len() == 0 {
        list
    } else {
        let rest = kept_backwards(list.drop_first(), stays);
        if stays(list[0]) {
            rest.push(list[0])
        } else {
            rest
        }
    }
}

proof fn backwards_is_filter(list: Seq<AttachmentView>, stays: spec_fn(AttachmentView) -> bool)
    ensures
        kept_backwards(list, stays).reverse() == list.filter(stays),
    decreases list.len(),
{
    reveal(Seq::filter);
    if list.len() > 0 {
        backwards_is_filter(list.drop_first(), stays);
        assert(list =~= seq![list[0]] + list.drop_first());
        Seq::filter_distributes_over_add(seq![list[0]], list.drop_first(), stays);
        assert(seq![list[0]].drop_last() =~= Seq::<AttachmentView>::empty());
        reveal_with_fuel(Seq::filter, 2);
        assert(seq![list[0]].filter(stays) =~= if stays(list[0]) {
            seq![list[0]]
        } else {
            Seq::empty()
        });
        let rest = kept_backwards(list.drop_first(), stays);
        if stays(list[0]) {
            assert(rest.push(list[0]).reverse() =~= seq![list[0]] + rest.reverse());
        } else {
            assert(list.filter(stays) =~= list.drop_first().filter(stays));
        }
    } else {
        assert(kept_backwards(list, stays).reverse() =~= list.filter(stays));
    }
}

/// Who is in a voice channel, as a list of seats in order tells: only members are shown.
pub open spec fn seated(
    members: Seq<MemberView>,
    voice: Map<Seat, bool>,
    seats: Seq<Seat>,
    channel: ChannelId,
) -> Seq<(MemberView, bool)>
    decreases seats.len(),
{
    if seats.len() == 0 {
        Seq::empty()
    } else {
        let before = seated(members, voice, seats.drop_last(), channel);
        let seat = seats.last();
        match first_member(members, seat.member) {
            Some(i) => if seat.channel == channel {
                before.push((members[i], voice[seat]))
            } else {
                before
            },
            None => before,
        }
    }
}

/// Seats as they are shown.
pub open spec fn seat_views(list: Seq<(MemberState, bool)>) -> Seq<(MemberView, bool)> {
    list.map_values(|seat: (MemberState, bool)| (seat.0@, seat.1))
}

/// Whether an item with this name is shown in a channel.
pub open spec fn shows_item(state: CommunityView, channel: ChannelId, id: MessageId) -> bool {
    (exists|i: int|
        0 <= i < state.messages.len() && (#[trigger] state.messages[i]).channel == channel
            && state.messages[i].id == id) || (exists|i: int|
        0 <= i < state.attachments.len() && (#[trigger] state.attachments[i]).channel == channel
            && state.attachments[i].id == id)
}

/// Whether an item is the latest of a channel, or there is none.
pub open spec fn is_latest_item(
    state: CommunityView,
    channel: ChannelId,
    latest: Option<MessageId>,
) -> bool {
    match latest {
        Some(latest) => shows_item(state, channel, latest) && forall|id: MessageId| #[trigger]
            shows_item(state, channel, id) ==> rank(id) <= rank(latest),
        None => forall|id: MessageId| !#[trigger] shows_item(state, channel, id),
    }
}

/// The latest item of a channel.
pub open spec fn latest_of(state: CommunityView, channel: ChannelId) -> Option<MessageId> {
    choose|latest: Option<MessageId>| is_latest_item(state, channel, latest)
}

/// There is one latest item.
pub proof fn latest_is(state: CommunityView, channel: ChannelId, latest: Option<MessageId>)
    requires
        is_latest_item(state, channel, latest),
    ensures
        latest_of(state, channel) == latest,
{
    let chosen = latest_of(state, channel);
    assert(is_latest_item(state, channel, chosen));
    match (chosen, latest) {
        (Some(a), Some(b)) => {
            assert(shows_item(state, channel, a));
            assert(shows_item(state, channel, b));
            rank_injective(a, b);
        },
        (Some(a), None) => {
            assert(shows_item(state, channel, a));
        },
        (None, Some(b)) => {
            assert(shows_item(state, channel, b));
        },
        (None, None) => {},
    }
}

/// The later of two items.
pub open spec fn later_item(a: MessageId, b: MessageId) -> MessageId {
    if rank(a) < rank(b) {
        b
    } else {
        a
    }
}

/// What was read in a channel, once this item was.
pub open spec fn read_after(
    last_read: Map<ChannelId, MessageId>,
    channel: ChannelId,
    item: MessageId,
) -> Map<ChannelId, MessageId> {
    if last_read.dom().contains(channel) {
        last_read.insert(channel, later_item(last_read[channel], item))
    } else {
        last_read.insert(channel, item)
    }
}

/// Whether a member has a path of this kind that is in use and takes this long.
pub open spec fn in_use(
    peers: Seq<DiagnosticModel>,
    members: Seq<MemberView>,
    path: (ConnectionPathKind, u64),
) -> bool {
    exists|p: int, i: int|
        0 <= p < peers.len() && 0 <= i < peers[p].paths.len() && first_member(
            members,
            peers[p].member,
        ) is Some && carries(#[trigger] peers[p].paths[i], path)
}

/// Whether a path is in use, is of this kind and takes this many milliseconds.
pub open spec fn carries(
    diagnostic: ConnectionPathDiagnostic,
    path: (ConnectionPathKind, u64),
) -> bool {
    diagnostic.selected && diagnostic.kind == path.0 && diagnostic.rtt_ms() == path.1
}

/// Whether a path is no better than another: further from direct, or as far and no faster.
pub open spec fn no_better(
    path: (ConnectionPathKind, u64),
    other: (ConnectionPathKind, u64),
) -> bool {
    path_rank(path.0) > path_rank(other.0) || (path_rank(path.0) == path_rank(other.0) && path.1
        >= other.1)
}

/// Whether a path is the worst of those in use, or there is none.
pub open spec fn is_worst(
    connection: Option<(ConnectionPathKind, u64)>,
    peers: Seq<DiagnosticModel>,
    members: Seq<MemberView>,
) -> bool {
    match connection {
        Some(path) => in_use(peers, members, path) && forall|other: (ConnectionPathKind, u64)|
            #[trigger] in_use(peers, members, other) ==> no_better(path, other),
        None => forall|other: (ConnectionPathKind, u64)| !#[trigger] in_use(peers, members, other),
    }
}

/// The worst path of those in use.
pub open spec fn worst_of(peers: Seq<DiagnosticModel>, members: Seq<MemberView>) -> Option<
    (ConnectionPathKind, u64),
> {
    choose|connection: Option<(ConnectionPathKind, u64)>| is_worst(connection, peers, members)
}

/// There is one worst path.
pub proof fn worst_is(
    connection: Option<(ConnectionPathKind, u64)>,
    peers: Seq<DiagnosticModel>,
    members: Seq<MemberView>,
)
    requires
        is_worst(connection, peers, members),
    ensures
        worst_of(peers, members) == connection,
{
    let chosen = worst_of(peers, members);
    assert(is_worst(chosen, peers, members));
    match (chosen, connection) {
        (Some(a), Some(b)) => {
            assert(in_use(peers, members, a));
            assert(in_use(peers, members, b));
            assert(path_rank(a.0) == path_rank(b.0));
        },
        (Some(a), None) => {
            assert(in_use(peers, members, a));
        },
        (None, Some(b)) => {
            assert(in_use(peers, members, b));
        },
        (None, None) => {},
    }
}

/// The members among the peers.
pub open spec fn members_among(
    peers: Seq<DiagnosticModel>,
    members: Seq<MemberView>,
) -> Set<MemberId> {
    Set::new(
        |member: MemberId|
            first_member(members, member) is Some && exists|p: int|
                0 <= p < peers.len() && (#[trigger] peers[p]).member == member,
    )
}

/// The paths to a peer: those of the first diagnostic of it.
pub open spec fn paths_to(diagnostics: Seq<DiagnosticModel>, member: MemberId) -> Seq<
    ConnectionPathDiagnostic,
>
    decreases diagnostics.len(),
{
    if diagnostics.len() == 0 {
        Seq::empty()
    } else if diagnostics[0].member == member {
        diagnostics[0].paths
    } else {
        paths_to(diagnostics.drop_first(), member)
    }
}

/// How many members are there.
pub open spec fn online_among(
    members: Seq<MemberView>,
    online: Set<MemberId>,
    local_member: MemberId,
) -> nat
    decreases members.len(),
{
    if members.len() == 0 {
        0
    } else {
        online_among(members.drop_last(), online, local_member) + if members.last().id
            == local_member || online.contains(members.last().id) {
            1nat
        } else {
            0
        }
    }
}

fn worse_of(
    current: Option<(ConnectionPathKind, u64)>,
    path: (ConnectionPathKind, u64),
) -> (worse: (ConnectionPathKind, u64))
    ensures
        worse == path || current == Some(worse),
        no_better(worse, path),
        current is Some ==> no_better(worse, current->0),
{
    match current {
        Some(other) => {
            let a: u8 = path_priority(path.0);
            let b: u8 = path_priority(other.0);
            if a > b || (a == b && path.1 >= other.1) {
                path
            } else {
                other
            }
        },
        None => path,
    }
}

impl CommunityState {
    /// Who is in a voice channel, and whether it is muted.
    pub fn voice_members(&self, channel: ChannelId) -> (seats: Vec<(MemberState, bool)>)
        ensures
            seat_views(seats@) == seated(
                self@.members,
                self@.voice,
                sorted_keys(self@.voice),
                channel,
            ),
    {
        let mut seats: Vec<(MemberState, bool)> = Vec::new();
        let length: usize = self.voice.len();
        let ghost keys = self.voice.keys();
        assert(keys.take(0) =~= Seq::<Seat>::empty());
        assert(seat_views(seats@) =~= Seq::<(MemberView, bool)>::empty());
        let mut i: usize = 0;
        while i < length
            invariant
                i <= length,
                length == keys.len(),
                keys == self.voice.keys(),
                self.voice.consistent(),
                seat_views(seats@) == seated(
                    self@.members,
                    self@.voice,
                    keys.take(i as int),
                    channel,
                ),
            decreases length - i,
        {
            let seat: Seat = self.voice.key_at(i);
            let muted: bool = *self.voice.value_at(i);
            assert(keys.take(i + 1).drop_last() =~= keys.take(i as int));
            assert(keys.take(i + 1).last() == keys[i as int]);
            assert(self.voice@[keys[i as int]] == muted);
            match find_member(&self.members, seat.member) {
                Some(at) => {
                    if seat.channel == channel {
                        let ghost before = seats@;
                        let shown: MemberState = self.members[at].clone();
                        assert(self@.members[at as int] == self.members@[at as int]@);
                        seats.push((shown, muted));
                        assert(seat_views(seats@) =~= seat_views(before).push((shown@, muted)));
                    }
                },
                None => {},
            }
            i += 1;
        }
        assert(keys.take(length as int) =~= keys);
        proof {
            lists_are_sorted(self.voice);
        }
        seats
    }

    /// Whether a member speaks in a channel at a time.
    pub fn is_speaking(&self, channel: ChannelId, member: MemberId, now: u64) -> (speaking: bool)
        ensures
            speaking == self@.speaks(Seat { channel, member }, now),
    {
        match self.speaking.get(Seat { channel, member }) {
            Some(last) => speaking_recent(now.saturating_sub(*last)),
            None => false,
        }
    }

    /// Whether a member is there: the local one always is.
    pub fn is_online(&self, member: MemberId) -> (online: bool)
        ensures
            online == (member == self@.local_member || self@.online.contains(member)),
    {
        member == self.local_member || self.online.contains_key(member)
    }

    /// How the local member stands to the community.
    pub fn access(&self) -> (access: CommunityAccess)
        ensures
            access == self@.access,
    {
        self.access
    }

    /// The local member.
    pub fn local_member(&self) -> (member: MemberId)
        ensures
            member == self@.local_member,
    {
        self.local_member
    }

    /// Who waits to be admitted, each once, in the order of their names.
    pub fn pending_members(&self) -> (members: Vec<MemberId>)
        ensures
            ascending(members@),
            forall|m: MemberId|
                members@.contains(m) <==> #[trigger] self@.pending_members.contains(m),
    {
        let members: Vec<MemberId> = self.pending_members.to_keys();
        assert forall|m: MemberId|
            members@.contains(m) <==> #[trigger] self@.pending_members.contains(m) by {
            assert(self.pending_members@.dom().contains(m) <==> self.pending_members.keys().contains(
                m,
            ));
        }
        members
    }

    /// Shows a member no longer as waiting.
    pub fn dismiss_pending(&mut self, member: MemberId)
        ensures
            final(self)@ == (CommunityView {
                pending_members: old(self)@.pending_members.remove(member),
                ..old(self)@
            }),
    {
        self.pending_members.remove(member);
        assert(self.pending_members@.dom() =~= old(self).pending_members@.dom().remove(member));
    }

    /// The latest item of a channel.
    pub fn latest_item(&self, channel: ChannelId) -> (latest: Option<MessageId>)
        ensures
            is_latest_item(self@, channel, latest),
            latest == latest_of(self@, channel),
    {
        let mut latest: Option<MessageId> = None;
        let mut i: usize = 0;
        while i < self.messages.len()
            invariant
                i <= self.messages@.len(),
                latest is Some ==> shows_item(self@, channel, latest->0),
                forall|j: int|
                    0 <= j < i && (#[trigger] self@.messages[j]).channel == channel ==> latest
                        is Some && rank(self@.messages[j].id) <= rank(latest->0),
            decreases self.messages@.len() - i,
        {
            assert(self@.messages[i as int] == self.messages@[i as int]@);
            if self.messages[i].channel == channel {
                let id: MessageId = self.messages[i].id;
                latest = match latest {
                    Some(other) => if id.stands_before(&other) {
                        Some(other)
                    } else {
                        Some(id)
                    },
                    None => Some(id),
                };
            }
            i += 1;
        }
        let mut k: usize = 0;
        while k < self.attachments.len()
            invariant
                k <= self.attachments@.len(),
                latest is Some ==> shows_item(self@, channel, latest->0),
                forall|j: int|
                    0 <= j < self@.messages.len() && (#[trigger] self@.messages[j]).channel
                        == channel ==> latest is Some && rank(self@.messages[j].id) <= rank(
                        latest->0,
                    ),
                forall|j: int|
                    0 <= j < k && (#[trigger] self@.attachments[j]).channel == channel ==> latest
                        is Some && rank(self@.attachments[j].id) <= rank(latest->0),
            decreases self.attachments@.len() - k,
        {
            assert(self@.attachments[k as int] == self.attachments@[k as int]@);
            if self.attachments[k].channel == channel {
                let id: MessageId = self.attachments[k].id;
                latest = match latest {
                    Some(other) => if id.stands_before(&other) {
                        Some(other)
                    } else {
                        Some(id)
                    },
                    None => Some(id),
                };
            }
            k += 1;
        }
        proof {
            assert(is_latest_item(self@, channel, latest));
            latest_is(self@, channel, latest);
        }
        latest
    }

    /// Remembers that an item of a channel was read.
    pub fn record_read(&mut self, channel: ChannelId, message: MessageId)
        ensures
            final(self)@ == old(self)@.reading(channel, message),
    {
        let later: MessageId = match self.last_read.get(channel) {
            Some(stored) => if stored.stands_before(&message) {
                message
            } else {
                *stored
            },
            None => message,
        };
        self.last_read.insert(channel, later);
    }

    /// How many items of a channel are news, as far as a `usize` counts.
    pub fn unread_count(&self, channel: ChannelId) -> (count: usize)
        ensures
            count == counted(self@.unread(channel)),
    {
        let last_read: Option<MessageId> = match self.last_read.get(channel) {
            Some(read) => Some(*read),
            None => None,
        };
        let ghost texts = self@.messages;
        let ghost attached = self@.attachments;
        let mut count: usize = 0;
        let mut i: usize = 0;
        assert(texts.take(0) =~= Seq::<MessageView>::empty());
        while i < self.messages.len()
            invariant
                i <= self.messages@.len(),
                texts == self@.messages,
                count <= i,
                count == unread_texts(
                    texts.take(i as int),
                    channel,
                    last_read,
                    self@.local_member,
                ),
            decreases self.messages@.len() - i,
        {
            assert(texts[i as int] == self.messages@[i as int]@);
            assert(texts.take(i + 1).drop_last() =~= texts.take(i as int));
            assert(texts.take(i + 1).last() == texts[i as int]);
            if self.messages[i].channel == channel && is_unread(
                last_read,
                self.local_member,
                self.messages[i].author_id,
                self.messages[i].id,
            ) {
                count += 1;
            }
            i += 1;
        }
        assert(texts.take(i as int) =~= texts);
        let ghost first = count as int;
        let mut k: usize = 0;
        assert(attached.take(0) =~= Seq::<AttachmentView>::empty());
        while k < self.attachments.len()
            invariant
                k <= self.attachments@.len(),
                attached == self@.attachments,
                count == counted(
                    first + unread_attachments(
                        attached.take(k as int),
                        channel,
                        last_read,
                        self@.local_member,
                    ),
                ),
            decreases self.attachments@.len() - k,
        {
            assert(attached[k as int] == self.attachments@[k as int]@);
            assert(attached.take(k + 1).drop_last() =~= attached.take(k as int));
            assert(attached.take(k + 1).last() == attached[k as int]);
            if self.attachments[k].channel == channel && is_unread(
                last_read,
                self.local_member,
                self.attachments[k].author_id,
                self.attachments[k].id,
            ) {
                count = count.saturating_add(1);
            }
            k += 1;
        }
        assert(attached.take(k as int) =~= attached);
        count
    }

    /// Shows where the local node is reached.
    pub fn set_local_address(&mut self, address: String)
        ensures
            final(self)@ == (CommunityView { local_address: address@, ..old(self)@ }),
    {
        self.local_address = address;
    }

    /// Where the local node is reached.
    pub fn local_address(&self) -> (address: &str)
        ensures
            address@ == self@.local_address,
    {
        self.local_address.as_str()
    }

    /// Shows how peers are connected: the members among them are online, and the worst path in use
    /// to a member is the connection.
    pub fn apply_diagnostics(&mut self, peers: &Vec<PeerDiagnostic>)
        ensures
            final(self)@ == old(self)@.diagnosed(diagnostic_views(peers@)),
            is_worst(final(self)@.connection, diagnostic_views(peers@), old(self)@.members),
    {
        let ghost views = diagnostic_views(peers@);
        let ghost members = self@.members;
        let mut diagnostics: Vec<PeerDiagnostic> = Vec::new();
        let mut online: SortedMap<MemberId, ()> = SortedMap::new();
        let mut worst: Option<(ConnectionPathKind, u64)> = None;
        let mut p: usize = 0;
        while p < peers.len()
            invariant
                p <= peers@.len(),
                views == diagnostic_views(peers@),
                members == self@.members,
                *self == *old(self),
                diagnostics@.len() == p,
                forall|j: int| 0 <= j < p ==> (#[trigger] diagnostics@[j])@ == views[j],
                forall|m: MemberId| #[trigger]
                    online@.dom().contains(m) <==> members_among(
                        views.take(p as int),
                        members,
                    ).contains(m),
                is_worst(worst, views.take(p as int), members),
            decreases peers@.len() - p,
        {
            let peer: &PeerDiagnostic = &peers[p];
            let ghost earlier = views.take(p as int);
            let ghost later = views.take(p + 1);
            let ghost before = online@;
            assert(views[p as int] == peers@[p as int]@);
            assert(later =~= earlier.push(peer@));
            diagnostics.push(peer.clone());
            let member: MemberId = peer.member();
            if find_member(&self.members, member).is_some() {
                online.insert(member, ());
                let paths: &Vec<ConnectionPathDiagnostic> = peer.paths();
                let mut i: usize = 0;
                proof {
                    partly_none(worst, earlier, members, peer@);
                }
                while i < paths.len()
                    invariant
                        i <= paths@.len(),
                        paths@ == peer@.paths,
                        first_member(members, peer@.member) is Some,
                        is_worst_so_far(worst, earlier, members, peer@, i as int),
                    decreases paths@.len() - i,
                {
                    let path: ConnectionPathDiagnostic = paths[i];
                    let ghost previous = worst;
                    if path.is_selected() {
                        worst = Some(worse_of(worst, (path.kind(), path.rtt_millis())));
                    }
                    proof {
                        partly_more(previous, worst, earlier, members, peer@, i as int);
                    }
                    i += 1;
                }
                proof {
                    wholly(worst, earlier, members, peer@);
                }
            } else {
                proof {
                    outsiders_do_not_count(worst, earlier, members, peer@);
                }
            }
            proof {
                assert forall|m: MemberId| #[trigger]
                    online@.dom().contains(m) <==> members_among(later, members).contains(m) by {
                    assert(before.dom().contains(m) <==> members_among(earlier, members).contains(
                        m,
                    ));
                    if members_among(earlier, members).contains(m) {
                        let q = choose|q: int|
                            0 <= q < earlier.len() && (#[trigger] earlier[q]).member == m;
                        assert(later[q].member == m);
                    }
                    assert(later[p as int].member == member);
                    if members_among(later, members).contains(m) && m != member {
                        let q = choose|q: int|
                            0 <= q < later.len() && (#[trigger] later[q]).member == m;
                        assert(earlier[q].member == m);
                    }
                }
            }
            p += 1;
        }
        assert(views.take(p as int) =~= views);
        assert(diagnostic_views(diagnostics@) =~= views);
        assert(online@.dom() =~= members_among(views, members));
        proof {
            worst_is(worst, views, members);
        }
        self.diagnostics = diagnostics;
        self.online = online;
        self.connection = worst;
    }

    /// How the members are connected.
    pub fn connection(&self) -> (connection: Option<(ConnectionPathKind, u64)>)
        ensures
            connection == self@.connection,
    {
        self.connection
    }

    /// The paths to a peer: of what kind, whether in use, and how many milliseconds a round trip takes.
    pub fn peer_paths(&self, member: MemberId) -> (paths: Vec<(ConnectionPathKind, bool, u64)>)
        ensures
            paths@ == paths_to(self@.diagnostics, member).map_values(
                |path: ConnectionPathDiagnostic| (path.kind, path.selected, path.rtt_ms()),
            ),
    {
        let ghost shown = |path: ConnectionPathDiagnostic| (path.kind, path.selected, path.rtt_ms());
        let mut paths: Vec<(ConnectionPathKind, bool, u64)> = Vec::new();
        let ghost views = self@.diagnostics;
        let mut i: usize = 0;
        assert(views.skip(0) =~= views);
        while i < self.diagnostics.len()
            invariant
                i <= self.diagnostics@.len(),
                views == self@.diagnostics,
                shown == (|path: ConnectionPathDiagnostic| (path.kind, path.selected, path.rtt_ms())),
                paths@.len() == 0,
                paths_to(views, member) == paths_to(views.skip(i as int), member),
            decreases self.diagnostics@.len() - i,
        {
            assert(views[i as int] == self.diagnostics@[i as int]@);
            assert(views.skip(i as int).drop_first() =~= views.skip(i + 1));
            assert(views.skip(i as int)[0] == views[i as int]);
            if self.diagnostics[i].member() == member {
                let found: &Vec<ConnectionPathDiagnostic> = self.diagnostics[i].paths();
                let mut k: usize = 0;
                while k < found.len()
                    invariant
                        k <= found@.len(),
                        paths@.len() == k,
                        shown == (|path: ConnectionPathDiagnostic|
                            (path.kind, path.selected, path.rtt_ms())),
                        forall|j: int| 0 <= j < k ==> #[trigger] paths@[j] == shown(found@[j]),
                    decreases found@.len() - k,
                {
                    paths.push((found[k].kind(), found[k].is_selected(), found[k].rtt_millis()));
                    k += 1;
                }
                assert(paths@ =~= found@.map_values(shown));
                return paths;
            }
            i += 1;
        }
        assert(paths@ =~= paths_to(views, member).map_values(shown));
        paths
    }

    /// How many members are there.
    pub fn online_count(&self) -> (count: usize)
        ensures
            count == online_among(self@.members, self@.online, self@.local_member),
    {
        let ghost views = self@.members;
        let mut count: usize = 0;
        let mut i: usize = 0;
        assert(views.take(0) =~= Seq::<MemberView>::empty());
        while i < self.members.len()
            invariant
                i <= self.members@.len(),
                views == self@.members,
                count <= i,
                count == online_among(views.take(i as int), self@.online, self@.local_member),
            decreases self.members@.len() - i,
        {
            assert(views[i as int] == self.members@[i as int]@);
            assert(views.take(i + 1).drop_last() =~= views.take(i as int));
            assert(views.take(i + 1).last() == views[i as int]);
            if self.is_online(self.members[i].id) {
                count += 1;
            }
            i += 1;
        }
        assert(views.take(i as int) =~= views);
        count
    }
}

/// Whether a path is the worst in use of some peers and of the first paths of one more.
spec fn is_worst_so_far(
    connection: Option<(ConnectionPathKind, u64)>,
    earlier: Seq<DiagnosticModel>,
    members: Seq<MemberView>,
    peer: DiagnosticModel,
    n: int,
) -> bool {
    is_worst(
        connection,
        earlier.push(DiagnosticModel { paths: peer.paths.take(n), ..peer }),
        members,
    )
}

proof fn in_use_with(
    earlier: Seq<DiagnosticModel>,
    members: Seq<MemberView>,
    peer: DiagnosticModel,
    path: (ConnectionPathKind, u64),
)
    ensures
        in_use(earlier.push(peer), members, path) <==> in_use(earlier, members, path) || (
        first_member(members, peer.member) is Some && exists|i: int|
            0 <= i < peer.paths.len() && carries(#[trigger] peer.paths[i], path)),
{
    let all = earlier.push(peer);
    if in_use(earlier, members, path) {
        let (p, i) = choose|p: int, i: int|
            0 <= p < earlier.len() && 0 <= i < earlier[p].paths.len() && first_member(
                members,
                earlier[p].member,
            ) is Some && carries(#[trigger] earlier[p].paths[i], path);
        assert(carries(all[p].paths[i], path));
    }
    if first_member(members, peer.member) is Some && exists|i: int|
        0 <= i < peer.paths.len() && carries(#[trigger] peer.paths[i], path) {
        let i = choose|i: int| 0 <= i < peer.paths.len() && carries(#[trigger] peer.paths[i], path);
        assert(carries(all[earlier.len() as int].paths[i], path));
    }
    if in_use(all, members, path) {
        let (p, i) = choose|p: int, i: int|
            0 <= p < all.len() && 0 <= i < all[p].paths.len() && first_member(
                members,
                all[p].member,
            ) is Some && carries(#[trigger] all[p].paths[i], path);
        if p < earlier.len() {
            assert(carries(earlier[p].paths[i], path));
        } else {
            assert(carries(peer.paths[i], path));
        }
    }
}

proof fn partly_none(
    worst: Option<(ConnectionPathKind, u64)>,
    earlier: Seq<DiagnosticModel>,
    members: Seq<MemberView>,
    peer: DiagnosticModel,
)
    requires
        is_worst(worst, earlier, members),
    ensures
        is_worst_so_far(worst, earlier, members, peer, 0),
{
    let part = DiagnosticModel { paths: peer.paths.take(0), ..peer };
    assert forall|path: (ConnectionPathKind, u64)| #[trigger]
        in_use(earlier.push(part), members, path) <==> in_use(earlier, members, path) by {
        in_use_with(earlier, members, part, path);
    }
}

proof fn partly_more(
    previous: Option<(ConnectionPathKind, u64)>,
    worst: Option<(ConnectionPathKind, u64)>,
    earlier: Seq<DiagnosticModel>,
    members: Seq<MemberView>,
    peer: DiagnosticModel,
    n: int,
)
    requires
        0 <= n < peer.paths.len(),
        first_member(members, peer.member) is Some,
        is_worst_so_far(previous, earlier, members, peer, n),
        peer.paths[n].selected ==> worst is Some && (worst == previous || worst->0 == (
            peer.paths[n].kind,
            peer.paths[n].rtt_ms(),
        )) && no_better(worst->0, (peer.paths[n].kind, peer.paths[n].rtt_ms())) && (previous is Some
            ==> no_better(worst->0, previous->0)),
        !peer.paths[n].selected ==> worst == previous,
    ensures
        is_worst_so_far(worst, earlier, members, peer, n + 1),
{
    let part = DiagnosticModel { paths: peer.paths.take(n), ..peer };
    let more = DiagnosticModel { paths: peer.paths.take(n + 1), ..peer };
    let added = (peer.paths[n].kind, peer.paths[n].rtt_ms());
    assert forall|path: (ConnectionPathKind, u64)| #[trigger]
        in_use(earlier.push(more), members, path) <==> in_use(earlier.push(part), members, path)
            || carries(peer.paths[n], path) by {
        in_use_with(earlier, members, part, path);
        in_use_with(earlier, members, more, path);
        if carries(peer.paths[n], path) {
            assert(carries(more.paths[n], path));
        }
        if exists|i: int| 0 <= i < part.paths.len() && carries(#[trigger] part.paths[i], path) {
            let i = choose|i: int|
                0 <= i < part.paths.len() && carries(#[trigger] part.paths[i], path);
            assert(carries(more.paths[i], path));
        }
        if exists|i: int| 0 <= i < more.paths.len() && carries(#[trigger] more.paths[i], path) {
            let i = choose|i: int|
                0 <= i < more.paths.len() && carries(#[trigger] more.paths[i], path);
            if i < n {
                assert(carries(part.paths[i], path));
            }
        }
    }
    if peer.paths[n].selected {
        assert(carries(peer.paths[n], added));
        assert(in_use(earlier.push(more), members, worst->0));
    }
}

proof fn wholly(
    worst: Option<(ConnectionPathKind, u64)>,
    earlier: Seq<DiagnosticModel>,
    members: Seq<MemberView>,
    peer: DiagnosticModel,
)
    requires
        is_worst_so_far(worst, earlier, members, peer, peer.paths.len() as int),
    ensures
        is_worst(worst, earlier.push(peer), members),
{
    assert(peer.paths.take(peer.paths.len() as int) =~= peer.paths);
}

proof fn outsiders_do_not_count(
    worst: Option<(ConnectionPathKind, u64)>,
    earlier: Seq<DiagnosticModel>,
    members: Seq<MemberView>,
    peer: DiagnosticModel,
)
    requires
        is_worst(worst, earlier, members),
        first_member(members, peer.member) is None,
    ensures
        is_worst(worst, earlier.push(peer), members),
{
    assert forall|path: (ConnectionPathKind, u64)| #[trigger]
        in_use(earlier.push(peer), members, path) <==> in_use(earlier, members, path) by {
        in_use_with(earlier, members, peer, path);
    }
}

} // verus!
