//! Who is in which voice channel.

use vstd::prelude::*;

use crate::community::MemberId;
use crate::fault::{authorization_fault, protocol_fault, Fault, FaultModel};
use crate::model::{ChannelId, Event, VoicePresence, MAX_VOICE_PARTICIPANTS};
use crate::sorted::{ascending, rank, rank_injective, ByteKey, SortedMap};

verus! {

/// Where a member is, and whether it is muted.
#[derive(Clone, Copy, Debug, PartialEq, Eq)]
pub struct ActiveVoicePresence {
    pub channel: ChannelId,
    pub muted: bool,
}

/// The members of a voice channel.
pub open spec fn room(active: Map<MemberId, ActiveVoicePresence>, channel: ChannelId) -> Set<
    MemberId,
> {
    Set::new(|m: MemberId| active.dom().contains(m) && active[m].channel == channel)
}

/// The member of a voice channel with the highest name.
pub open spec fn highest(
    active: Map<MemberId, ActiveVoicePresence>,
    channel: ChannelId,
) -> MemberId {
    choose|m: MemberId| is_highest(active, channel, m)
}

/// Whether `member` is in a voice channel and has the highest name there.
pub open spec fn is_highest(
    active: Map<MemberId, ActiveVoicePresence>,
    channel: ChannelId,
    member: MemberId,
) -> bool {
    &&& room(active, channel).contains(member)
    &&& forall|n: MemberId| #[trigger] room(active, channel).contains(n) ==> rank(n) <= rank(member)
}

/// Whether a channel has no place left.
pub open spec fn is_full(active: Map<MemberId, ActiveVoicePresence>, channel: ChannelId) -> bool {
    room(active, channel).len() >= MAX_VOICE_PARTICIPANTS
}

/// Whether `member` is in `channel`.
pub open spec fn is_in(
    active: Map<MemberId, ActiveVoicePresence>,
    member: MemberId,
    channel: ChannelId,
) -> bool {
    active.dom().contains(member) && active[member].channel == channel
}

/// Why a statement is refused; `None` where it is not.
pub open spec fn presence_refusal(
    active: Map<MemberId, ActiveVoicePresence>,
    member: MemberId,
    channel: ChannelId,
    state: VoicePresence,
) -> Option<FaultModel> {
    match state {
        VoicePresence::Joined => if !is_in(active, member, channel) && is_full(active, channel)
            && rank(member) > rank(highest(active, channel)) {
            Some(authorization_fault("voice channel is full"@))
        } else {
            None
        },
        VoicePresence::Left => None,
        VoicePresence::Muted(_) => if !active.dom().contains(member) {
            Some(protocol_fault("voice mute requires an active voice presence"@))
        } else if active[member].channel != channel {
            Some(protocol_fault("voice mute references a different channel"@))
        } else {
            None
        },
    }
}

/// Who is where after a statement; a refused one changes nothing. Whoever joins a full channel and
/// has a lower name than its highest member takes that member's place.
pub open spec fn presence_after(
    active: Map<MemberId, ActiveVoicePresence>,
    member: MemberId,
    channel: ChannelId,
    state: VoicePresence,
) -> Map<MemberId, ActiveVoicePresence> {
    if presence_refusal(active, member, channel, state) is Some {
        active
    } else {
        match state {
            VoicePresence::Joined => if is_in(active, member, channel) {
                active
            } else {
                let made_room = if is_full(active, channel) {
                    active.remove(highest(active, channel))
                } else {
                    active
                };
                made_room.insert(member, ActiveVoicePresence { channel, muted: false })
            },
            VoicePresence::Left => if is_in(active, member, channel) {
                active.remove(member)
            } else {
                active
            },
            VoicePresence::Muted(muted) => active.insert(
                member,
                ActiveVoicePresence { channel, muted },
            ),
        }
    }
}

/// The event that tells of a change.
pub open spec fn presence_event(
    channel: ChannelId,
    member: MemberId,
    state: VoicePresence,
) -> Event {
    Event::VoicePresence { channel, member, state }
}

/// The events that tell of a statement: first that a member loses its place, then that the member
/// leaves the channel where it was, then the change itself.
pub open spec fn presence_events(
    active: Map<MemberId, ActiveVoicePresence>,
    member: MemberId,
    channel: ChannelId,
    state: VoicePresence,
) -> Seq<Event> {
    match state {
        VoicePresence::Joined => if is_in(active, member, channel) {
            Seq::empty()
        } else {
            let displaced = if is_full(active, channel) {
                seq![presence_event(channel, highest(active, channel), VoicePresence::Left)]
            } else {
                Seq::empty()
            };
            let left = if active.dom().contains(member) {
                seq![presence_event(active[member].channel, member, VoicePresence::Left)]
            } else {
                Seq::empty()
            };
            displaced + left + seq![presence_event(channel, member, VoicePresence::Joined)]
        },
        VoicePresence::Left => if is_in(active, member, channel) {
            seq![presence_event(channel, member, VoicePresence::Left)]
        } else {
            Seq::empty()
        },
        VoicePresence::Muted(muted) => if active[member].muted != muted {
            seq![presence_event(channel, member, VoicePresence::Muted(muted))]
        } else {
            Seq::empty()
        },
    }
}

/// The members of a voice channel, in the order of their names.
fn room_list(active: &SortedMap<MemberId, ActiveVoicePresence>, channel: ChannelId) -> (members:
    Vec<MemberId>)
    ensures
        ascending(members@),
        forall|m: MemberId|
            members@.contains(m) <==> #[trigger] room(active@, channel).contains(m),
        members@.len() == room(active@, channel).len(),
        members@.len() > 0 ==> members@.last() == highest(active@, channel) && is_highest(
            active@,
            channel,
            members@.last(),
        ),
{
    let length: usize = active.len();
    let mut members: Vec<MemberId> = Vec::new();
    let mut i: usize = 0;
    while i < length
        invariant
            i <= length,
            length == active.keys().len(),
            active.consistent(),
            ascending(members@),
            forall|j: int, k: int|
                0 <= j < members@.len() && i <= k < active.keys().len() ==> rank(members@[j])
                    < rank(active.keys()[k]),
            forall|j: int|
                0 <= j < members@.len() ==> room(active@, channel).contains(
                    #[trigger] members@[j],
                ),
            forall|k: int|
                0 <= k < i && room(active@, channel).contains(#[trigger] active.keys()[k])
                    ==> members@.contains(active.keys()[k]),
        decreases length - i,
    {
        let member: MemberId = active.key_at(i);
        let presence: &ActiveVoicePresence = active.value_at(i);
        let ghost before = members@;
        assert(active@[active.keys()[i as int]] == *presence);
        if presence.channel == channel {
            members.push(member);
            proof {
                assert(members@.last() == member);
                assert forall|k: int|
                    0 <= k < i + 1 && room(active@, channel).contains(
                        #[trigger] active.keys()[k],
                    ) implies members@.contains(active.keys()[k]) by {
                    if k < i {
                        let j = before.index_of(active.keys()[k]);
                        assert(members@[j] == active.keys()[k]);
                    }
                }
            }
        }
        i += 1;
    }
    proof {
        let there = room(active@, channel);
        assert forall|m: MemberId| members@.contains(m) <==> #[trigger] there.contains(m) by {
            if there.contains(m) {
                assert(active.keys().contains(m));
                let k = active.keys().index_of(m);
                assert(active.keys()[k] == m);
            }
        }
        assert(members@.no_duplicates());
        members@.unique_seq_to_set();
        assert(members@.to_set() =~= there);
        if members@.len() > 0 {
            let last = members@.last();
            assert(members@.contains(last));
            assert forall|n: MemberId| #[trigger] there.contains(n) implies rank(n) <= rank(
                last,
            ) by {
                assert(members@.contains(n));
                let j = members@.index_of(n);
                assert(members@[j] == n);
            }
            assert(is_highest(active@, channel, last));
            highest_is(active@, channel, last);
        }
    }
    members
}

proof fn highest_is(
    active: Map<MemberId, ActiveVoicePresence>,
    channel: ChannelId,
    member: MemberId,
)
    requires
        is_highest(active, channel, member),
    ensures
        highest(active, channel) == member,
{
    let other = highest(active, channel);
    assert(is_highest(active, channel, other));
    assert(rank(other) == rank(member));
    rank_injective(other, member);
}

/// Takes note of what `member` says about `channel`, or refuses it. The answer lists the events
/// that tell of the change.
pub fn apply_voice_presence(
    active: &mut SortedMap<MemberId, ActiveVoicePresence>,
    member: MemberId,
    channel: ChannelId,
    state: VoicePresence,
) -> (events: Result<Vec<Event>, Fault>)
    ensures
        final(active)@ == presence_after(old(active)@, member, channel, state),
        match events {
            Ok(events) => presence_refusal(old(active)@, member, channel, state) is None
                && events@ == presence_events(old(active)@, member, channel, state),
            Err(fault) => presence_refusal(old(active)@, member, channel, state) == Some(fault@),
        },
{
    let current: Option<ActiveVoicePresence> = match active.get(member) {
        Some(presence) => Some(*presence),
        None => None,
    };
    let mut events: Vec<Event> = Vec::new();
    match state {
        VoicePresence::Joined => {
            if let Some(presence) = current {
                if presence.channel == channel {
                    assert(events@ =~= presence_events(old(active)@, member, channel, state));
                    return Ok(events);
                }
            }
            let present: Vec<MemberId> = room_list(active, channel);
            if present.len() >= MAX_VOICE_PARTICIPANTS {
                let displaced: MemberId = present[present.len() - 1];
                if displaced.stands_before(&member) {
                    return Err(Fault::authorization("voice channel is full"));
                }
                proof {
                    assert(is_highest(active@, channel, displaced));
                    assert(displaced != member);
                }
                active.remove(displaced);
                events.push(
                    Event::VoicePresence { channel, member: displaced, state: VoicePresence::Left },
                );
            }
            if let Some(presence) = current {
                events.push(
                    Event::VoicePresence {
                        channel: presence.channel,
                        member,
                        state: VoicePresence::Left,
                    },
                );
            }
            active.insert(member, ActiveVoicePresence { channel, muted: false });
            events.push(Event::VoicePresence { channel, member, state: VoicePresence::Joined });
            assert(events@ =~= presence_events(old(active)@, member, channel, state));
        },
        VoicePresence::Left => {
            if let Some(presence) = current {
                if presence.channel == channel {
                    active.remove(member);
                    events.push(
                        Event::VoicePresence { channel, member, state: VoicePresence::Left },
                    );
                }
            }
            assert(events@ =~= presence_events(old(active)@, member, channel, state));
        },
        VoicePresence::Muted(muted) => {
            let presence: ActiveVoicePresence = match current {
                Some(presence) => presence,
                None => {
                    return Err(Fault::protocol("voice mute requires an active voice presence"));
                },
            };
            if presence.channel != channel {
                return Err(Fault::protocol("voice mute references a different channel"));
            }
            if presence.muted != muted {
                active.insert(member, ActiveVoicePresence { channel, muted });
                events.push(
                    Event::VoicePresence { channel, member, state: VoicePresence::Muted(muted) },
                );
            } else {
                assert(old(active)@.insert(member, ActiveVoicePresence { channel, muted })
                    =~= old(active)@);
            }
            assert(events@ =~= presence_events(old(active)@, member, channel, state));
        },
    }
    Ok(events)
}

/// Who is where once a member was taken out of whatever channel it was in.
pub open spec fn taken_out(
    active: Map<MemberId, ActiveVoicePresence>,
    member: MemberId,
) -> Map<MemberId, ActiveVoicePresence> {
    active.remove(member)
}

/// Takes `member` out of whatever channel it is in. The answer is the event that tells of it.
pub fn clear_voice_presence(
    active: &mut SortedMap<MemberId, ActiveVoicePresence>,
    member: MemberId,
) -> (event: Option<Event>)
    ensures
        final(active)@ == taken_out(old(active)@, member),
        event == (if old(active)@.dom().contains(member) {
            Some(presence_event(old(active)@[member].channel, member, VoicePresence::Left))
        } else {
            None
        }),
{
    match active.remove(member) {
        Some(presence) => Some(
            Event::VoicePresence {
                channel: presence.channel,
                member,
                state: VoicePresence::Left,
            },
        ),
        None => None,
    }
}

/// Whether no voice channel holds more members than there are places.
pub open spec fn rooms_bounded(active: Map<MemberId, ActiveVoicePresence>) -> bool {
    active.dom().finite() && forall|c: ChannelId| #[trigger]
        room(active, c).len() <= MAX_VOICE_PARTICIPANTS
}

proof fn room_is_finite(active: Map<MemberId, ActiveVoicePresence>, channel: ChannelId)
    requires
        active.dom().finite(),
    ensures
        room(active, channel).finite(),
        room(active, channel).len() > 0 ==> is_highest(active, channel, highest(active, channel)),
{
    assert(room(active, channel).subset_of(active.dom()));
    vstd::set_lib::lemma_len_subset(room(active, channel), active.dom());
    if room(active, channel).len() > 0 {
        top_exists(active, channel, room(active, channel));
    }
}

proof fn top_exists(
    active: Map<MemberId, ActiveVoicePresence>,
    channel: ChannelId,
    part: Set<MemberId>,
) -> (top: MemberId)
    requires
        part.finite(),
        part.len() > 0,
        part.subset_of(room(active, channel)),
    ensures
        part.contains(top),
        forall|n: MemberId| #[trigger] part.contains(n) ==> rank(n) <= rank(top),
        part == room(active, channel) ==> is_highest(active, channel, top) && is_highest(
            active,
            channel,
            highest(active, channel),
        ),
    decreases part.len(),
{
    let one = part.choose();
    let rest = part.remove(one);
    if rest.len() == 0 {
        assert(rest =~= Set::empty());
        assert forall|n: MemberId| #[trigger] part.contains(n) implies rank(n) <= rank(one) by {
            if n != one {
                assert(rest.contains(n));
            }
        }
        assert(part == room(active, channel) ==> is_highest(active, channel, one));
        one
    } else {
        let top = top_exists(active, channel, rest);
        let best = if rank(top) < rank(one) {
            one
        } else {
            top
        };
        assert forall|n: MemberId| #[trigger] part.contains(n) implies rank(n) <= rank(best) by {
            if n != one {
                assert(rest.contains(n));
            }
        }
        assert(part == room(active, channel) ==> is_highest(active, channel, best));
        best
    }
}

/// However members come and go, no voice channel ever holds more members than there are places,
/// and a member is in one channel at a time.
pub proof fn rooms_stay_bounded(
    active: Map<MemberId, ActiveVoicePresence>,
    member: MemberId,
    channel: ChannelId,
    state: VoicePresence,
)
    requires
        rooms_bounded(active),
    ensures
        rooms_bounded(presence_after(active, member, channel, state)),
{
    let after = presence_after(active, member, channel, state);
    room_is_finite(active, channel);
    assert forall|c: ChannelId| #[trigger] room(after, c).len() <= MAX_VOICE_PARTICIPANTS by {
        room_is_finite(active, c);
        if presence_refusal(active, member, channel, state) is None && state is Joined && !is_in(
            active,
            member,
            channel,
        ) && c == channel {
            let there = room(active, channel);
            if is_full(active, channel) {
                let top = highest(active, channel);
                assert(room(after, c) =~= there.remove(top).insert(member));
            } else {
                assert(room(after, c) =~= there.insert(member));
            }
        } else {
            assert(room(after, c).subset_of(room(active, c)));
            vstd::set_lib::lemma_len_subset(room(after, c), room(active, c));
        }
    }
}

/// Whoever leaves a voice channel is in no channel, and nobody else moves. A statement about a channel
/// where the member is not changes nothing, and leaving is never refused.
pub proof fn leaving_gives_the_place_back(
    active: Map<MemberId, ActiveVoicePresence>,
    member: MemberId,
    channel: ChannelId,
)
    ensures
        ({
            let after = presence_after(active, member, channel, VoicePresence::Left);
            &&& presence_refusal(active, member, channel, VoicePresence::Left) is None
            &&& active.dom().contains(member) && active[member].channel == channel
                ==> !after.dom().contains(member)
            &&& active.dom().contains(member) && active[member].channel != channel
                ==> after.dom().contains(member) && after[member] == active[member]
            &&& !active.dom().contains(member) ==> !after.dom().contains(member)
            &&& forall|other: MemberId|
                other != member ==> (#[trigger] after.dom().contains(other)
                    <==> active.dom().contains(other)) && (active.dom().contains(other)
                    ==> after[other] == active[other])
        }),
{
}

/// A full voice channel has a place again once one of its members left, and whoever asks for it then gets
/// it without anybody losing a place.
pub proof fn a_place_that_was_left_is_free(
    active: Map<MemberId, ActiveVoicePresence>,
    member: MemberId,
    channel: ChannelId,
    newcomer: MemberId,
)
    requires
        rooms_bounded(active),
        active.dom().contains(member),
        active[member].channel == channel,
        !active.dom().contains(newcomer),
    ensures
        ({
            let left = presence_after(active, member, channel, VoicePresence::Left);
            let after = presence_after(left, newcomer, channel, VoicePresence::Joined);
            &&& presence_refusal(left, newcomer, channel, VoicePresence::Joined) is None
            &&& after.dom().contains(newcomer) && after[newcomer].channel == channel
            &&& !after.dom().contains(member)
            &&& forall|other: MemberId|
                other != member && other != newcomer ==> (#[trigger] after.dom().contains(other)
                    <==> active.dom().contains(other)) && (active.dom().contains(other)
                    ==> after[other] == active[other])
        }),
{
    let left = presence_after(active, member, channel, VoicePresence::Left);
    room_is_finite(active, channel);
    assert(room(active, channel).contains(member));
    assert(room(left, channel) =~= room(active, channel).remove(member));
}

/// Whoever joins and is not refused is in the channel from there on, unmuted where it was not there
/// before, and in no other. Nobody else comes or changes, and at most one member loses its place: one of a
/// channel with four members, with the highest name there, higher than the newcomer's.
pub proof fn joining_takes_a_place(
    active: Map<MemberId, ActiveVoicePresence>,
    member: MemberId,
    channel: ChannelId,
)
    requires
        rooms_bounded(active),
        presence_refusal(active, member, channel, VoicePresence::Joined) is None,
    ensures
        ({
            let after = presence_after(active, member, channel, VoicePresence::Joined);
            let was_there = active.dom().contains(member) && active[member].channel == channel;
            &&& after.dom().contains(member) && after[member].channel == channel
            &&& !was_there ==> !after[member].muted
            &&& was_there ==> after == active
            &&& forall|other: MemberId|
                other != member && #[trigger] after.dom().contains(other) ==> active.dom().contains(
                    other,
                ) && after[other] == active[other]
            &&& forall|lost: MemberId|
                #[trigger] active.dom().contains(lost) && !after.dom().contains(lost) ==> {
                    &&& active[lost].channel == channel
                    &&& rank(member) < rank(lost)
                    &&& room(active, channel).len() == 4
                    &&& forall|stays: MemberId|
                        #[trigger] active.dom().contains(stays) && active[stays].channel == channel
                            && stays != lost ==> rank(stays) < rank(lost) && after.dom().contains(
                            stays,
                        )
                }
        }),
{
    room_is_finite(active, channel);
    let there = room(active, channel);
    let after = presence_after(active, member, channel, VoicePresence::Joined);
    if there.len() > 0 {
        let top = highest(active, channel);
        assert(there.contains(top));
        if top != member && rank(top) == rank(member) {
            rank_injective(top, member);
        }
        assert forall|lost: MemberId|
            #[trigger] active.dom().contains(lost) && !after.dom().contains(lost) implies {
            &&& active[lost].channel == channel
            &&& rank(member) < rank(lost)
            &&& there.len() == 4
            &&& forall|stays: MemberId|
                #[trigger] active.dom().contains(stays) && active[stays].channel == channel && stays
                    != lost ==> rank(stays) < rank(lost) && after.dom().contains(stays)
        } by {
            assert(lost == top);
            assert forall|stays: MemberId|
                #[trigger] active.dom().contains(stays) && active[stays].channel == channel && stays
                    != lost implies rank(stays) < rank(lost) && after.dom().contains(stays) by {
                assert(there.contains(stays));
                if rank(stays) == rank(lost) {
                    rank_injective(stays, lost);
                }
            }
        }
    }
}

/// Whoever is refused a place finds four members in the channel, all with lower names than its own, and a
/// refusal changes nothing. With fewer members there is a place for everybody.
pub proof fn a_place_is_refused_where_there_is_none(
    active: Map<MemberId, ActiveVoicePresence>,
    member: MemberId,
    channel: ChannelId,
)
    requires
        rooms_bounded(active),
    ensures
        presence_refusal(active, member, channel, VoicePresence::Joined) is Some ==> {
            &&& presence_after(active, member, channel, VoicePresence::Joined) == active
            &&& room(active, channel).len() == 4
            &&& !(active.dom().contains(member) && active[member].channel == channel)
            &&& forall|other: MemberId|
                #[trigger] active.dom().contains(other) && active[other].channel == channel
                    ==> rank(other) < rank(member)
        },
        presence_refusal(active, member, channel, VoicePresence::Joined) is None ==> room(
            active,
            channel,
        ).len() < 4 || (active.dom().contains(member) && active[member].channel == channel)
            || exists|other: MemberId| #[trigger]
            active.dom().contains(other) && active[other].channel == channel && rank(member) < rank(
                other,
            ),
{
    room_is_finite(active, channel);
    let there = room(active, channel);
    if there.len() > 0 {
        let top = highest(active, channel);
        assert(there.contains(top));
        assert(active.dom().contains(top) && active[top].channel == channel);
        if rank(top) == rank(member) {
            rank_injective(top, member);
        }
        assert forall|other: MemberId|
            #[trigger] active.dom().contains(other) && active[other].channel
                == channel implies rank(other) <= rank(top) by {
            assert(there.contains(other));
        }
    }
}

/// Whoever is in a channel is muted or not as it says, and nobody else is touched; whoever is not there is
/// refused, and nothing changes.
pub proof fn muting_is_the_members_own(
    active: Map<MemberId, ActiveVoicePresence>,
    member: MemberId,
    channel: ChannelId,
    muted: bool,
)
    ensures
        ({
            let state = VoicePresence::Muted(muted);
            let after = presence_after(active, member, channel, state);
            let there = active.dom().contains(member) && active[member].channel == channel;
            &&& presence_refusal(active, member, channel, state) is None <==> there
            &&& !there ==> after == active
            &&& there ==> after.dom().contains(member) && after[member].channel == channel
                && after[member].muted == muted
            &&& forall|other: MemberId|
                other != member ==> (#[trigger] after.dom().contains(other)
                    <==> active.dom().contains(other)) && (active.dom().contains(other)
                    ==> after[other] == active[other])
        }),
{
}

/// The events tell what changed, and nothing else: that a member left its channel, that it came into one,
/// and that it was muted or not. Where nothing changes nothing is told.
pub proof fn events_tell_who_moved(
    active: Map<MemberId, ActiveVoicePresence>,
    member: MemberId,
    channel: ChannelId,
    state: VoicePresence,
    other: MemberId,
    place: ChannelId,
    muted: bool,
)
    requires
        rooms_bounded(active),
        presence_refusal(active, member, channel, state) is None,
    ensures
        ({
            let after = presence_after(active, member, channel, state);
            let events = presence_events(active, member, channel, state);
            let before_there = active.dom().contains(other) && active[other].channel == place;
            let after_there = after.dom().contains(other) && after[other].channel == place;
            &&& events.contains(
                Event::VoicePresence { channel: place, member: other, state: VoicePresence::Left },
            ) <==> before_there && !after_there
            &&& events.contains(
                Event::VoicePresence { channel: place, member: other, state: VoicePresence::Joined },
            ) <==> !before_there && after_there
            &&& events.contains(
                Event::VoicePresence {
                    channel: place,
                    member: other,
                    state: VoicePresence::Muted(muted),
                },
            ) <==> before_there && after_there && active[other].muted != muted
                && after[other].muted == muted
            &&& after == active ==> events.len() == 0
        }),
{
    room_is_finite(active, channel);
    let there = room(active, channel);
    let after = presence_after(active, member, channel, state);
    let events = presence_events(active, member, channel, state);
    if there.len() > 0 {
        let top = highest(active, channel);
        assert(there.contains(top));
        assert(active.dom().contains(top) && active[top].channel == channel);
    }
    let left = Event::VoicePresence { channel: place, member: other, state: VoicePresence::Left };
    let joined = Event::VoicePresence {
        channel: place,
        member: other,
        state: VoicePresence::Joined,
    };
    let quiet = Event::VoicePresence {
        channel: place,
        member: other,
        state: VoicePresence::Muted(muted),
    };
    if events.len() > 0 {
        assert(events.contains(events[0]));
    }
    if events.len() > 1 {
        assert(events.contains(events[1]));
    }
    if events.len() > 2 {
        assert(events.contains(events[2]));
    }
    assert(events.len() <= 3);
    assert(events.contains(left) ==> left == events[0] || (events.len() > 1 && left == events[1])
        || (events.len() > 2 && left == events[2]));
    assert(events.contains(joined) ==> joined == events[0] || (events.len() > 1 && joined
        == events[1]) || (events.len() > 2 && joined == events[2]));
    assert(events.contains(quiet) ==> quiet == events[0] || (events.len() > 1 && quiet == events[1])
        || (events.len() > 2 && quiet == events[2]));
    assert(after == active ==> events.len() == 0) by {
        if after == active && events.len() > 0 {
            match state {
                VoicePresence::Joined => {
                    assert(after[member].channel == channel);
                },
                VoicePresence::Left => {
                    assert(!after.dom().contains(member));
                },
                VoicePresence::Muted(said) => {
                    assert(after[member].muted == said);
                },
            }
        }
    }
}

/// Whoever is taken out is in no channel, and nobody else moves.
pub proof fn whoever_is_taken_out_is_nowhere(
    active: Map<MemberId, ActiveVoicePresence>,
    member: MemberId,
    other: MemberId,
)
    requires
        other != member,
    ensures
        !taken_out(active, member).dom().contains(member),
        taken_out(active, member).dom().contains(other) <==> active.dom().contains(other),
        active.dom().contains(other) ==> taken_out(active, member)[other] == active[other],
{
}

/// Who is in a channel after a member that was nowhere asks to join.
pub open spec fn joined(
    active: Map<MemberId, ActiveVoicePresence>,
    member: MemberId,
    channel: ChannelId,
) -> Map<MemberId, ActiveVoicePresence> {
    presence_after(active, member, channel, VoicePresence::Joined)
}

proof fn room_after_join(
    active: Map<MemberId, ActiveVoicePresence>,
    member: MemberId,
    channel: ChannelId,
)
    requires
        rooms_bounded(active),
        !active.dom().contains(member),
    ensures
        ({
            let there = room(active, channel);
            let after = joined(active, member, channel);
            &&& there.finite()
            &&& there.len() < MAX_VOICE_PARTICIPANTS ==> room(after, channel) == there.insert(
                member,
            ) && after == active.insert(member, ActiveVoicePresence { channel, muted: false })
            &&& there.len() == MAX_VOICE_PARTICIPANTS ==> {
                let top = highest(active, channel);
                &&& is_highest(active, channel, top)
                &&& rank(member) != rank(top)
                &&& rank(member) > rank(top) ==> after == active
                &&& rank(member) < rank(top) ==> room(after, channel) == there.remove(top).insert(
                    member,
                ) && after == active.remove(top).insert(
                    member,
                    ActiveVoicePresence { channel, muted: false },
                )
            }
        }),
{
    room_is_finite(active, channel);
    let there = room(active, channel);
    let after = joined(active, member, channel);
    if there.len() < MAX_VOICE_PARTICIPANTS {
        assert(room(after, channel) =~= there.insert(member));
    } else {
        let top = highest(active, channel);
        if rank(member) == rank(top) {
            rank_injective(member, top);
        }
        if rank(member) < rank(top) {
            assert(room(after, channel) =~= there.remove(top).insert(member));
        }
    }
}

/// Peers that hear of two joins in different orders agree on who is where: of the members of a
/// channel and two that join it from nowhere, those with the lowest names stay.
pub proof fn joins_commute(
    active: Map<MemberId, ActiveVoicePresence>,
    a: MemberId,
    b: MemberId,
    channel: ChannelId,
)
    requires
        rooms_bounded(active),
        a != b,
        !active.dom().contains(a),
        !active.dom().contains(b),
    ensures
        joined(joined(active, a, channel), b, channel) == joined(
            joined(active, b, channel),
            a,
            channel,
        ),
{
    if rank(a) == rank(b) {
        rank_injective(a, b);
    }
    if rank(a) < rank(b) {
        joins_commute_ordered(active, a, b, channel);
    } else {
        joins_commute_ordered(active, b, a, channel);
    }
}

proof fn joins_commute_ordered(
    active: Map<MemberId, ActiveVoicePresence>,
    a: MemberId,
    b: MemberId,
    channel: ChannelId,
)
    requires
        rooms_bounded(active),
        rank(a) < rank(b),
        !active.dom().contains(a),
        !active.dom().contains(b),
    ensures
        joined(joined(active, a, channel), b, channel) == joined(
            joined(active, b, channel),
            a,
            channel,
        ),
{
    let there = room(active, channel);
    let with_a = joined(active, a, channel);
    let with_b = joined(active, b, channel);
    let ab = joined(with_a, b, channel);
    let ba = joined(with_b, a, channel);
    room_after_join(active, a, channel);
    room_after_join(active, b, channel);
    rooms_stay_bounded(active, a, channel, VoicePresence::Joined);
    rooms_stay_bounded(active, b, channel, VoicePresence::Joined);
    room_after_join(with_a, b, channel);
    room_after_join(with_b, a, channel);
    let top = highest(active, channel);
    if there.len() < 3 {
        assert(ab =~= ba);
    } else if there.len() == 3 {
        room_is_finite(active, channel);
        let top_a = highest(with_a, channel);
        let top_b = highest(with_b, channel);
        assert(room(with_a, channel).contains(top_a));
        assert(room(with_b, channel).contains(top_b));
        assert(room(with_b, channel).contains(b));
        assert(room(with_a, channel).contains(a));
        assert(room(with_b, channel).contains(top));
        assert(room(with_a, channel).contains(top));
        if rank(b) > rank(top_a) {
            assert(top_b == b) by {
                if top_b != b {
                    assert(there.contains(top_b));
                    assert(room(with_a, channel).contains(top_b));
                }
            }
            assert(ab =~= ba);
        } else {
            assert(top_a != a);
            assert(there.contains(top_a));
            assert(room(with_b, channel).contains(top_a));
            assert(top_b == top_a) by {
                if top_b == b {
                    assert(rank(top_a) <= rank(b));
                    rank_injective(top_a, b);
                } else {
                    assert(there.contains(top_b));
                    assert(room(with_a, channel).contains(top_b));
                    assert(rank(top_b) == rank(top_a));
                    rank_injective(top_a, top_b);
                }
            }
            assert(ab =~= ba);
        }
    } else {
        if rank(a) > rank(top) {
            assert(ab =~= ba);
        } else if rank(b) > rank(top) {
            let top_a = highest(with_a, channel);
            assert(room(with_a, channel).contains(top_a));
            assert(rank(top_a) <= rank(top)) by {
                if top_a != a {
                    assert(there.contains(top_a));
                }
            }
            assert(ab =~= ba);
        } else {
            let top_a = highest(with_a, channel);
            let top_b = highest(with_b, channel);
            assert(room(with_a, channel).contains(top_a));
            assert(room(with_b, channel).contains(top_b));
            assert(room(with_b, channel).contains(b));
            assert(room(with_a, channel).contains(a));
            if rank(b) > rank(top_a) {
                assert(top_b == b) by {
                    if top_b != b {
                        assert(there.contains(top_b));
                        assert(room(with_a, channel).contains(top_b));
                    }
                }
                assert(ab =~= ba);
            } else {
                assert(top_a != a);
                assert(there.contains(top_a));
                assert(room(with_b, channel).contains(top_a));
                assert(top_b == top_a) by {
                    if top_b == b {
                        assert(rank(top_a) <= rank(b));
                        rank_injective(top_a, b);
                    } else {
                        assert(there.contains(top_b));
                        assert(room(with_a, channel).contains(top_b));
                        assert(rank(top_b) == rank(top_a));
                        rank_injective(top_a, top_b);
                    }
                }
                assert(ab =~= ba);
            }
        }
    }
}

} // verus!
