//! What holds of everything that a user sees.

use vstd::prelude::*;

use crate::community::{CommunityModel, MemberId};
use crate::connection::{ConnectionPathKind, DiagnosticModel};
use crate::fault::FaultModel;
use crate::filing::{
    filed, filters_keep_what_passes, in_order, in_order_is_sorted, never_falls, slot, sorted_stays,
    Placed,
};
use crate::model::{
    AttachmentModel, ChannelId, ChannelModel, MessageId, Snapshot, TextModel, VoiceFrameModel,
    VoicePresence,
};
use crate::names::Seat;
use crate::outcome::EventModel;
use crate::sorted::{finite_maps_are_listed, rank, rank_injective, sorted_keys};
use crate::state::{
    called, carries, first_member, first_text, in_use, is_news, is_worst, latest_called,
    online_among, paths_to, projected, read_after, seated, shows_item, unread_attachments,
    unread_texts, worst_is, AttachmentView, CommunityView, MemberView, MessageView,
};
use crate::text::hex;

verus! {

/// Whether no two texts have one author and one name.
pub open spec fn texts_once(list: Seq<MessageView>) -> bool {
    forall|i: int, j: int|
        0 <= i < j < list.len() ==> !((#[trigger] list[i]).author_id == (
        #[trigger] list[j]).author_id && list[i].id == list[j].id)
}

/// Whether no two attachments have one author and one name.
pub open spec fn attachments_once(list: Seq<AttachmentView>) -> bool {
    forall|i: int, j: int|
        0 <= i < j < list.len() ==> !((#[trigger] list[i]).author_id == (
        #[trigger] list[j]).author_id && list[i].id == list[j].id)
}

/// Whether nobody has two seats.
pub open spec fn seats_once(voice: Map<Seat, bool>) -> bool {
    forall|a: Seat, b: Seat| #[trigger]
        voice.dom().contains(a) && #[trigger] voice.dom().contains(b) && a.member == b.member
            ==> a == b
}

/// Whether what is shown is in order: texts and attachments ascend by name and occur once, and
/// nobody is in two voice channels.
pub open spec fn orderly(state: CommunityView) -> bool {
    &&& never_falls(state.messages)
    &&& texts_once(state.messages)
    &&& never_falls(state.attachments)
    &&& attachments_once(state.attachments)
    &&& seats_once(state.voice)
}

proof fn slot_in_sorted<T: Placed>(list: Seq<T>, item: T)
    requires
        never_falls(list),
    ensures
        0 <= slot(list, item) <= list.len(),
        forall|i: int|
            0 <= i < slot(list, item) ==> (#[trigger] list[i]).place() <= item.place(),
        forall|i: int|
            slot(list, item) <= i < list.len() ==> (#[trigger] list[i]).place() > item.place(),
    decreases list.len(),
{
    if list.len() > 0 && list.last().place() > item.place() {
        let before = list.drop_last();
        assert forall|i: int, j: int| 0 <= i < j < before.len() implies before[i].place()
            <= before[j].place() by {
            assert(list[i].place() <= list[j].place());
        }
        slot_in_sorted(before, item);
        assert forall|i: int| 0 <= i < slot(list, item) implies (#[trigger] list[i]).place()
            <= item.place() by {
            assert(before[i] == list[i]);
        }
        assert forall|i: int| slot(list, item) <= i < list.len() implies (
        #[trigger] list[i]).place() > item.place() by {
            if i < before.len() {
                assert(before[i] == list[i]);
            }
        }
    } else if list.len() > 0 {
        assert forall|i: int| 0 <= i < slot(list, item) implies (#[trigger] list[i]).place()
            <= item.place() by {
            if i < list.len() - 1 {
                assert(list[i].place() <= list[list.len() - 1].place());
            }
        }
    }
}

proof fn filing_keeps_order<T: Placed>(list: Seq<T>, item: T)
    requires
        never_falls(list),
    ensures
        in_order(list.push(item)) == filed(list, item),
        never_falls(filed(list, item)),
{
    sorted_stays(list);
    assert(list.push(item).drop_last() =~= list);
    slot_in_sorted(list, item);
    let s = slot(list, item);
    let all = filed(list, item);
    assert forall|i: int, j: int| 0 <= i < j < all.len() implies all[i].place()
        <= all[j].place() by {
        let a = if i < s { i } else { i - 1 };
        let b = if j < s { j } else { j - 1 };
        if i != s && j != s {
            assert(all[i] == list[a]);
            assert(all[j] == list[b]);
        } else if i == s {
            assert(all[j] == list[b]);
        } else {
            assert(all[i] == list[a]);
        }
    }
}

proof fn slot_where<T: Placed>(list: Seq<T>, item: T, s: int)
    requires
        0 <= s <= list.len(),
        forall|i: int| 0 <= i < s ==> (#[trigger] list[i]).place() <= item.place(),
        forall|i: int| s <= i < list.len() ==> (#[trigger] list[i]).place() > item.place(),
    ensures
        slot(list, item) == s,
    decreases list.len(),
{
    if list.len() > 0 {
        if s < list.len() {
            let before = list.drop_last();
            assert(list[list.len() - 1].place() > item.place());
            assert forall|i: int| 0 <= i < s implies (#[trigger] before[i]).place()
                <= item.place() by {
                assert(before[i] == list[i]);
            }
            assert forall|i: int| s <= i < before.len() implies (#[trigger] before[i]).place()
                > item.place() by {
                assert(before[i] == list[i]);
            }
            slot_where(before, item, s);
        } else {
            assert(list[list.len() - 1].place() <= item.place());
        }
    }
}

proof fn filing_commutes<T: Placed>(list: Seq<T>, a: T, b: T)
    requires
        never_falls(list),
        a.place() < b.place(),
    ensures
        filed(filed(list, a), b) == filed(filed(list, b), a),
{
    slot_in_sorted(list, a);
    slot_in_sorted(list, b);
    let s = slot(list, a);
    let t = slot(list, b);
    assert(s <= t) by {
        if t < s {
            assert(list[t].place() <= a.place());
            assert(list[t].place() > b.place());
        }
    }
    let with_a = filed(list, a);
    assert forall|i: int| 0 <= i < t + 1 implies (#[trigger] with_a[i]).place() <= b.place() by {
        if i < s {
            assert(with_a[i] == list[i]);
        } else if i > s {
            assert(with_a[i] == list[i - 1]);
        }
    }
    assert forall|i: int| t + 1 <= i < with_a.len() implies (#[trigger] with_a[i]).place()
        > b.place() by {
        assert(with_a[i] == list[i - 1]);
    }
    slot_where(with_a, b, t + 1);
    let with_b = filed(list, b);
    assert forall|i: int| 0 <= i < s implies (#[trigger] with_b[i]).place() <= a.place() by {
        assert(with_b[i] == list[i]);
    }
    assert forall|i: int| s <= i < with_b.len() implies (#[trigger] with_b[i]).place()
        > a.place() by {
        if i < t {
            assert(with_b[i] == list[i]);
        } else if i > t {
            assert(with_b[i] == list[i - 1]);
        }
    }
    slot_where(with_b, a, s);
    assert(filed(with_a, b) =~= filed(with_b, a));
}

proof fn text_keeps_order(state: CommunityView, author: MemberId, text: TextModel)
    requires
        orderly(state),
    ensures
        orderly(state.with_text(author, text)),
{
    if !state.has_text(author, text.id) {
        let list = state.messages;
        let shown = MessageView {
            id: text.id,
            channel: text.channel_id,
            author_id: author,
            author: called(state.members, author),
            body: text.body,
        };
        filing_keeps_order(list, shown);
        slot_in_sorted(list, shown);
        let s = slot(list, shown);
        let all = filed(list, shown);
        assert forall|i: int, j: int| 0 <= i < j < all.len() implies !((
        #[trigger] all[i]).author_id == (#[trigger] all[j]).author_id && all[i].id
            == all[j].id) by {
            let a = if i < s { i } else { i - 1 };
            let b = if j < s { j } else { j - 1 };
            if i != s && j != s {
                assert(all[i] == list[a]);
                assert(all[j] == list[b]);
            } else if i == s {
                assert(all[j] == list[b]);
            } else {
                assert(all[i] == list[a]);
            }
        }
    }
}

proof fn attachment_keeps_order(state: CommunityView, author: MemberId, attachment: AttachmentModel)
    requires
        orderly(state),
    ensures
        orderly(state.with_attachment(author, attachment)),
{
    if !state.has_attachment(author, attachment.id) {
        let list = state.attachments;
        let shown = AttachmentView {
            id: attachment.id,
            channel: attachment.channel_id,
            author_id: author,
            author: called(state.members, author),
            name: attachment.name,
            bytes: attachment.bytes,
        };
        filing_keeps_order(list, shown);
        slot_in_sorted(list, shown);
        let s = slot(list, shown);
        let all = filed(list, shown);
        assert forall|i: int, j: int| 0 <= i < j < all.len() implies !((
        #[trigger] all[i]).author_id == (#[trigger] all[j]).author_id && all[i].id
            == all[j].id) by {
            let a = if i < s { i } else { i - 1 };
            let b = if j < s { j } else { j - 1 };
            if i != s && j != s {
                assert(all[i] == list[a]);
                assert(all[j] == list[b]);
            } else if i == s {
                assert(all[j] == list[b]);
            } else {
                assert(all[i] == list[a]);
            }
        }
    }
}

proof fn filter_keeps_order(list: Seq<AttachmentView>, stays: spec_fn(AttachmentView) -> bool)
    requires
        never_falls(list),
        attachments_once(list),
    ensures
        never_falls(list.filter(stays)),
        attachments_once(list.filter(stays)),
        forall|i: int|
            0 <= i < list.filter(stays).len() ==> list.contains(#[trigger] list.filter(stays)[i]),
    decreases list.len(),
{
    reveal(Seq::filter);
    if list.len() > 0 {
        let before = list.drop_last();
        assert forall|i: int, j: int| 0 <= i < j < before.len() implies before[i].place()
            <= before[j].place() by {
            assert(list[i].place() <= list[j].place());
        }
        assert forall|i: int, j: int| 0 <= i < j < before.len() implies !((
        #[trigger] before[i]).author_id == (#[trigger] before[j]).author_id && before[i].id
            == before[j].id) by {
            assert(before[i] == list[i] && before[j] == list[j]);
        }
        filter_keeps_order(before, stays);
        let kept = before.filter(stays);
        let all = list.filter(stays);
        let last = list.last();
        assert forall|i: int| 0 <= i < kept.len() implies kept[i].place() <= last.place() && !((
        #[trigger] kept[i]).author_id == last.author_id && kept[i].id == last.id)
            && list.contains(kept[i]) by {
            let k = before.index_of(kept[i]);
            assert(before[k] == kept[i]);
            assert(list[k] == kept[i]);
            assert(list[k].place() <= list[list.len() - 1].place());
            assert(!(list[k].author_id == list[list.len() - 1].author_id && list[k].id
                == list[list.len() - 1].id));
        }
        assert(list[list.len() - 1] == last);
        if stays(last) {
            assert(all =~= kept.push(last));
            assert forall|i: int, j: int| 0 <= i < j < all.len() implies all[i].place()
                <= all[j].place() by {
                assert(all[i] == kept[i]);
                if j < kept.len() {
                    assert(kept[i].place() <= kept[j].place());
                }
            }
            assert forall|i: int, j: int| 0 <= i < j < all.len() implies !((
            #[trigger] all[i]).author_id == (#[trigger] all[j]).author_id && all[i].id
                == all[j].id) by {
                assert(all[i] == kept[i]);
                if j < kept.len() {
                    assert(all[j] == kept[j]);
                }
            }
            assert forall|i: int| 0 <= i < all.len() implies list.contains(#[trigger] all[i]) by {
                if i < kept.len() {
                    assert(all[i] == kept[i]);
                }
            }
        } else {
            assert(all =~= kept);
        }
    }
}

proof fn rename_keeps_order(state: CommunityView, member: MemberId, name: Seq<char>)
    requires
        orderly(state),
    ensures
        orderly(state.renamed(member, name)),
{
    let after = state.renamed(member, name);
    assert forall|i: int, j: int| 0 <= i < j < after.messages.len() implies after.messages[i].place()
        <= after.messages[j].place() by {
        assert(state.messages[i].place() <= state.messages[j].place());
    }
    assert forall|i: int, j: int| 0 <= i < j < after.messages.len() implies !((
    #[trigger] after.messages[i]).author_id == (#[trigger] after.messages[j]).author_id
        && after.messages[i].id == after.messages[j].id) by {
        assert(!(state.messages[i].author_id == state.messages[j].author_id && state.messages[i].id
            == state.messages[j].id));
    }
    assert forall|i: int, j: int|
        0 <= i < j < after.attachments.len() implies after.attachments[i].place()
        <= after.attachments[j].place() by {
        assert(state.attachments[i].place() <= state.attachments[j].place());
    }
    assert forall|i: int, j: int| 0 <= i < j < after.attachments.len() implies !((
    #[trigger] after.attachments[i]).author_id == (#[trigger] after.attachments[j]).author_id
        && after.attachments[i].id == after.attachments[j].id) by {
        assert(!(state.attachments[i].author_id == state.attachments[j].author_id
            && state.attachments[i].id == state.attachments[j].id));
    }
}

/// Every event keeps what is shown in order: texts and attachments stay ascending and without
/// doubles, and nobody comes to be in two voice channels.
pub proof fn events_keep_order(state: CommunityView, event: EventModel, now: u64)
    requires
        orderly(state),
    ensures
        orderly(state.applied(event, now)),
{
    match event {
        EventModel::DisplayNameChanged { member, name } => {
            rename_keeps_order(state, member, name);
        },
        EventModel::TextStored { author, text } => {
            text_keeps_order(state, author, text);
        },
        EventModel::AttachmentStored { author, attachment } => {
            attachment_keeps_order(state, author, attachment);
        },
        EventModel::AttachmentForgotten { author, id } => {
            filter_keeps_order(
                state.attachments,
                |a: AttachmentView| a.author_id != author || a.id != id,
            );
        },
        _ => {},
    }
}

/// A text that comes in again changes nothing.
pub proof fn texts_are_shown_once(
    state: CommunityView,
    author: MemberId,
    text: TextModel,
    again: TextModel,
)
    requires
        again.id == text.id,
    ensures
        state.with_text(author, text).has_text(author, text.id),
        state.with_text(author, text).with_text(author, again) == state.with_text(author, text),
{
    if !state.has_text(author, text.id) {
        let shown = MessageView {
            id: text.id,
            channel: text.channel_id,
            author_id: author,
            author: called(state.members, author),
            body: text.body,
        };
        let list = state.messages.push(shown);
        assert(list.drop_last() =~= state.messages);
        let before = in_order(state.messages);
        slot_bounds(before, shown);
        let after = state.with_text(author, text);
        assert(after.messages == before.insert(slot(before, shown), shown));
        assert(after.messages[slot(before, shown)] == shown);
    }
}

proof fn slot_bounds<T: Placed>(list: Seq<T>, item: T)
    ensures
        0 <= slot(list, item) <= list.len(),
    decreases list.len(),
{
    if list.len() > 0 {
        slot_bounds(list.drop_last(), item);
    }
}

proof fn text_filed(state: CommunityView, author: MemberId, text: TextModel)
    requires
        never_falls(state.messages),
        !state.has_text(author, text.id),
    ensures
        state.with_text(author, text) == (CommunityView {
            messages: filed(
                state.messages,
                MessageView {
                    id: text.id,
                    channel: text.channel_id,
                    author_id: author,
                    author: called(state.members, author),
                    body: text.body,
                },
            ),
            ..state
        }),
        never_falls(state.with_text(author, text).messages),
        forall|a: MemberId, id: MessageId| #[trigger]
            state.with_text(author, text).has_text(a, id) <==> state.has_text(a, id) || (a == author
                && id == text.id),
{
    let shown = MessageView {
        id: text.id,
        channel: text.channel_id,
        author_id: author,
        author: called(state.members, author),
        body: text.body,
    };
    filing_keeps_order(state.messages, shown);
    slot_in_sorted(state.messages, shown);
    let s = slot(state.messages, shown);
    let after = state.with_text(author, text);
    assert forall|a: MemberId, id: MessageId| #[trigger]
        after.has_text(a, id) <==> state.has_text(a, id) || (a == author && id == text.id) by {
        if state.has_text(a, id) {
            let i = choose|i: int|
                0 <= i < state.messages.len() && (#[trigger] state.messages[i]).author_id == a
                    && state.messages[i].id == id;
            let k = if i < s { i } else { i + 1 };
            assert(after.messages[k] == state.messages[i]);
        }
        assert(after.messages[s] == shown);
        if after.has_text(a, id) {
            let k = choose|k: int|
                0 <= k < after.messages.len() && (#[trigger] after.messages[k]).author_id == a
                    && after.messages[k].id == id;
            if k != s {
                let i = if k < s { k } else { k - 1 };
                assert(after.messages[k] == state.messages[i]);
            }
        }
    }
}

/// In which order texts with different names come in makes no difference.
pub proof fn arrival_does_not_matter(
    state: CommunityView,
    author: MemberId,
    text: TextModel,
    other_author: MemberId,
    other: TextModel,
)
    requires
        orderly(state),
        text.id != other.id,
    ensures
        state.with_text(author, text).with_text(other_author, other) == state.with_text(
            other_author,
            other,
        ).with_text(author, text),
{
    let shown = MessageView {
        id: text.id,
        channel: text.channel_id,
        author_id: author,
        author: called(state.members, author),
        body: text.body,
    };
    let shown_other = MessageView {
        id: other.id,
        channel: other.channel_id,
        author_id: other_author,
        author: called(state.members, other_author),
        body: other.body,
    };
    if !state.has_text(author, text.id) && !state.has_text(other_author, other.id) {
        text_filed(state, author, text);
        text_filed(state, other_author, other);
        text_filed(state.with_text(author, text), other_author, other);
        text_filed(state.with_text(other_author, other), author, text);
        if rank(text.id) == rank(other.id) {
            rank_injective(text.id, other.id);
        }
        if rank(text.id) < rank(other.id) {
            filing_commutes(state.messages, shown, shown_other);
        } else {
            filing_commutes(state.messages, shown_other, shown);
        }
    } else if !state.has_text(author, text.id) {
        text_filed(state, author, text);
    } else if !state.has_text(other_author, other.id) {
        text_filed(state, other_author, other);
    }
}

/// What was read in a channel never goes back, and other channels are left alone.
pub proof fn reading_never_goes_back(
    last_read: Map<ChannelId, MessageId>,
    channel: ChannelId,
    item: MessageId,
)
    ensures
        read_after(last_read, channel, item).dom().contains(channel),
        rank(item) <= rank(read_after(last_read, channel, item)[channel]),
        last_read.dom().contains(channel) ==> rank(last_read[channel]) <= rank(
            read_after(last_read, channel, item)[channel],
        ),
        forall|other: ChannelId|
            other != channel ==> (read_after(last_read, channel, item).dom().contains(other)
                <==> #[trigger] last_read.dom().contains(other)) && (last_read.dom().contains(other)
                ==> read_after(last_read, channel, item)[other] == last_read[other]),
{
}

/// In which order two items of a channel are read makes no difference.
pub proof fn reading_order_does_not_matter(
    last_read: Map<ChannelId, MessageId>,
    channel: ChannelId,
    a: MessageId,
    b: MessageId,
)
    ensures
        read_after(read_after(last_read, channel, a), channel, b) == read_after(
            read_after(last_read, channel, b),
            channel,
            a,
        ),
{
    let x = read_after(read_after(last_read, channel, a), channel, b);
    let y = read_after(read_after(last_read, channel, b), channel, a);
    assert(rank(x[channel]) == rank(y[channel]));
    rank_injective(x[channel], y[channel]);
    assert(x =~= y);
}

proof fn read_texts_are_no_news(
    messages: Seq<MessageView>,
    channel: ChannelId,
    read: MessageId,
    local_member: MemberId,
)
    requires
        forall|i: int|
            0 <= i < messages.len() && (#[trigger] messages[i]).channel == channel ==> rank(
                messages[i].id,
            ) <= rank(read),
    ensures
        unread_texts(messages, channel, Some(read), local_member) == 0,
    decreases messages.len(),
{
    if messages.len() > 0 {
        let before = messages.drop_last();
        assert forall|i: int|
            0 <= i < before.len() && (#[trigger] before[i]).channel == channel implies rank(
            before[i].id,
        ) <= rank(read) by {
            assert(before[i] == messages[i]);
        }
        assert(messages[messages.len() - 1] == messages.last());
        read_texts_are_no_news(before, channel, read, local_member);
    }
}

proof fn read_attachments_are_no_news(
    attachments: Seq<AttachmentView>,
    channel: ChannelId,
    read: MessageId,
    local_member: MemberId,
)
    requires
        forall|i: int|
            0 <= i < attachments.len() && (#[trigger] attachments[i]).channel == channel ==> rank(
                attachments[i].id,
            ) <= rank(read),
    ensures
        unread_attachments(attachments, channel, Some(read), local_member) == 0,
    decreases attachments.len(),
{
    if attachments.len() > 0 {
        let before = attachments.drop_last();
        assert forall|i: int|
            0 <= i < before.len() && (#[trigger] before[i]).channel == channel implies rank(
            before[i].id,
        ) <= rank(read) by {
            assert(before[i] == attachments[i]);
        }
        assert(attachments[attachments.len() - 1] == attachments.last());
        read_attachments_are_no_news(before, channel, read, local_member);
    }
}

/// Once the latest item of a channel was read, nothing in the channel is news.
pub proof fn nothing_stays_unread(state: CommunityView, channel: ChannelId, latest: MessageId)
    requires
        forall|id: MessageId| #[trigger]
            shows_item(state, channel, id) ==> rank(id) <= rank(latest),
    ensures
        state.reading(channel, latest).unread(channel) == 0,
{
    let after = state.reading(channel, latest);
    let read = after.last_read[channel];
    reading_never_goes_back(state.last_read, channel, latest);
    assert forall|i: int|
        0 <= i < state.messages.len() && (#[trigger] state.messages[i]).channel
            == channel implies rank(state.messages[i].id) <= rank(read) by {
        assert(shows_item(state, channel, state.messages[i].id));
    }
    assert forall|i: int|
        0 <= i < state.attachments.len() && (#[trigger] state.attachments[i]).channel
            == channel implies rank(state.attachments[i].id) <= rank(read) by {
        assert(shows_item(state, channel, state.attachments[i].id));
    }
    read_texts_are_no_news(state.messages, channel, read, state.local_member);
    read_attachments_are_no_news(state.attachments, channel, read, state.local_member);
}

/// How far a channel was read.
pub open spec fn cursor(state: CommunityView, channel: ChannelId) -> Option<MessageId> {
    if state.last_read.dom().contains(channel) {
        Some(state.last_read[channel])
    } else {
        None
    }
}

/// Whether a text is news in a channel.
pub open spec fn text_is_news(state: CommunityView, channel: ChannelId) -> spec_fn(MessageView) -> bool {
    |m: MessageView|
        m.channel == channel && is_news(cursor(state, channel), state.local_member, m.author_id, m.id)
}

/// Whether an attachment is news in a channel.
pub open spec fn attachment_is_news(state: CommunityView, channel: ChannelId) -> spec_fn(
    AttachmentView,
) -> bool {
    |a: AttachmentView|
        a.channel == channel && is_news(cursor(state, channel), state.local_member, a.author_id, a.id)
}

proof fn news_among_texts(state: CommunityView, channel: ChannelId, messages: Seq<MessageView>)
    ensures
        unread_texts(messages, channel, cursor(state, channel), state.local_member)
            == messages.filter(text_is_news(state, channel)).len(),
    decreases messages.len(),
{
    reveal_with_fuel(Seq::filter, 2);
    if messages.len() > 0 {
        news_among_texts(state, channel, messages.drop_last());
    }
}

proof fn news_among_attachments(
    state: CommunityView,
    channel: ChannelId,
    attachments: Seq<AttachmentView>,
)
    ensures
        unread_attachments(attachments, channel, cursor(state, channel), state.local_member)
            == attachments.filter(attachment_is_news(state, channel)).len(),
    decreases attachments.len(),
{
    reveal_with_fuel(Seq::filter, 2);
    if attachments.len() > 0 {
        news_among_attachments(state, channel, attachments.drop_last());
    }
}

/// What is unread in a channel are the texts and the attachments in it by others that come after the
/// cursor, or all of them where there is none.
pub proof fn unread_counts_the_news(state: CommunityView, channel: ChannelId)
    ensures
        state.unread(channel) == state.messages.filter(text_is_news(state, channel)).len()
            + state.attachments.filter(attachment_is_news(state, channel)).len(),
{
    news_among_texts(state, channel, state.messages);
    news_among_attachments(state, channel, state.attachments);
}

/// What is shown once items of a channel were read, one after the other.
pub open spec fn reading_all(
    state: CommunityView,
    channel: ChannelId,
    items: Seq<MessageId>,
) -> CommunityView
    decreases items.len(),
{
    if items.len() == 0 {
        state
    } else {
        reading_all(state, channel, items.drop_last()).reading(channel, items.last())
    }
}

/// Wherever a user read in a channel that was never read, the cursor stands at the greatest of the
/// items, and nothing but the cursor moved.
pub proof fn the_greatest_item_is_the_cursor(
    state: CommunityView,
    channel: ChannelId,
    items: Seq<MessageId>,
)
    requires
        cursor(state, channel) is None,
    ensures
        match cursor(reading_all(state, channel, items), channel) {
            Some(read) => items.contains(read) && forall|i: int|
                0 <= i < items.len() ==> rank(#[trigger] items[i]) <= rank(read),
            None => items.len() == 0,
        },
        reading_all(state, channel, items) == (CommunityView {
            last_read: reading_all(state, channel, items).last_read,
            ..state
        }),
    decreases items.len(),
{
    if items.len() > 0 {
        let shorter = items.drop_last();
        the_greatest_item_is_the_cursor(state, channel, shorter);
        let read = cursor(reading_all(state, channel, items), channel);
        reading_never_goes_back(
            reading_all(state, channel, shorter).last_read,
            channel,
            items.last(),
        );
        assert(items[items.len() - 1] == items.last());
        if read == cursor(reading_all(state, channel, shorter), channel) && read is Some
            && shorter.contains(read->0) {
            let k = shorter.index_of(read->0);
            assert(items[k] == read->0);
        }
        assert forall|i: int| 0 <= i < items.len() implies rank(#[trigger] items[i]) <= rank(
            read->0,
        ) by {
            if i < shorter.len() {
                assert(shorter[i] == items[i]);
            }
        }
    }
}

/// What the local member made is no news to it, whatever was read.
pub proof fn own_items_are_no_news(
    last_read: Option<MessageId>,
    local_member: MemberId,
    id: MessageId,
)
    ensures
        !is_news(last_read, local_member, local_member, id),
{
}

/// Once an attachment was forgotten, none with its author and its name is shown. Every other one
/// is shown as before and as often, by the same author or by another one, and nothing else changed.
pub proof fn forgetting_takes_one_away(
    state: CommunityView,
    author: MemberId,
    id: MessageId,
    now: u64,
    other: AttachmentView,
)
    ensures
        ({
            let after = state.applied(EventModel::AttachmentForgotten { author, id }, now);
            &&& other.author_id == author && other.id == id ==> !after.attachments.contains(other)
            &&& other.author_id != author || other.id != id ==> (after.attachments.contains(other)
                <==> state.attachments.contains(other)) && after.attachments.to_multiset().count(
                other,
            ) == state.attachments.to_multiset().count(other)
            &&& after == (CommunityView { attachments: after.attachments, ..state })
        }),
{
    filters_keep_what_passes(
        state.attachments,
        |a: AttachmentView| a.author_id != author || a.id != id,
        other,
    );
}

/// Where nothing was shown of what is forgotten, nothing changes.
pub proof fn forgetting_what_is_not_there_changes_nothing(
    state: CommunityView,
    author: MemberId,
    id: MessageId,
    now: u64,
)
    requires
        forall|i: int|
            0 <= i < state.attachments.len() ==> (#[trigger] state.attachments[i]).author_id
                != author || state.attachments[i].id != id,
    ensures
        state.applied(EventModel::AttachmentForgotten { author, id }, now) == state,
{
    all_stay(state.attachments, |a: AttachmentView| a.author_id != author || a.id != id);
}

proof fn all_stay<T>(list: Seq<T>, stays: spec_fn(T) -> bool)
    requires
        forall|i: int| 0 <= i < list.len() ==> stays(#[trigger] list[i]),
    ensures
        list.filter(stays) == list,
    decreases list.len(),
{
    reveal(Seq::filter);
    if list.len() > 0 {
        let before = list.drop_last();
        assert forall|i: int| 0 <= i < before.len() implies stays(#[trigger] before[i]) by {
            assert(before[i] == list[i]);
        }
        all_stay(before, stays);
        assert(stays(list[list.len() - 1]));
        assert(list.filter(stays) =~= list);
    }
}

proof fn first_is(members: Seq<MemberView>, member: MemberId, i: int)
    requires
        0 <= i < members.len(),
        members[i].id == member,
        forall|j: int| 0 <= j < i ==> (#[trigger] members[j]).id != member,
    ensures
        first_member(members, member) == Some(i),
    decreases members.len(),
{
    let before = members.drop_last();
    if i < before.len() {
        assert forall|j: int| 0 <= j < i implies (#[trigger] before[j]).id != member by {
            assert(before[j] == members[j]);
        }
        first_is(before, member, i);
    } else {
        assert forall|j: int| 0 <= j < before.len() implies (#[trigger] before[j]).id
            != member by {
            assert(before[j] == members[j]);
        }
        nobody_is_first(before, member);
    }
}

proof fn nobody_is_first(members: Seq<MemberView>, member: MemberId)
    requires
        forall|j: int| 0 <= j < members.len() ==> (#[trigger] members[j]).id != member,
    ensures
        first_member(members, member) is None,
    decreases members.len(),
{
    if members.len() > 0 {
        let before = members.drop_last();
        assert forall|j: int| 0 <= j < before.len() implies (#[trigger] before[j]).id
            != member by {
            assert(before[j] == members[j]);
        }
        nobody_is_first(before, member);
        assert(members[members.len() - 1].id != member);
    }
}

/// Whether somebody is listed among members.
pub open spec fn is_member(members: Seq<MemberView>, member: MemberId) -> bool {
    exists|i: int| 0 <= i < members.len() && (#[trigger] members[i]).id == member
}

proof fn first_where_listed(members: Seq<MemberView>, member: MemberId)
    ensures
        first_member(members, member) is Some <==> is_member(members, member),
        first_member(members, member) matches Some(i) ==> 0 <= i < members.len() && members[i].id
            == member && forall|j: int| 0 <= j < i ==> (#[trigger] members[j]).id != member,
    decreases members.len(),
{
    if members.len() > 0 {
        let before = members.drop_last();
        first_where_listed(before, member);
        assert(members[members.len() - 1] == members.last());
        if is_member(before, member) {
            let i = choose|i: int|
                0 <= i < before.len() && (#[trigger] before[i]).id == member;
            assert(members[i].id == member);
        }
        if is_member(members, member) && members.last().id != member {
            let i = choose|i: int|
                0 <= i < members.len() && (#[trigger] members[i]).id == member;
            assert(before[i].id == member);
        }
        match first_member(before, member) {
            Some(i) => {
                assert(before[i] == members[i]);
                assert forall|j: int| 0 <= j < i implies (#[trigger] members[j]).id != member by {
                    assert(before[j] == members[j]);
                }
            },
            None => {
                assert forall|j: int| 0 <= j < before.len() implies (#[trigger] members[j]).id
                    != member by {
                    assert(before[j] == members[j]);
                }
            },
        }
    }
}

/// Whoever is listed goes by the name of its first entry, everybody else by the first six bytes of
/// its key.
pub proof fn authors_go_by_their_names(members: Seq<MemberView>, member: MemberId, i: int)
    ensures
        0 <= i < members.len() && members[i].id == member && (forall|j: int|
            0 <= j < i ==> (#[trigger] members[j]).id != member) ==> called(members, member)
            == members[i].name,
        !is_member(members, member) ==> called(members, member) == hex(member@.take(6)),
{
    if 0 <= i < members.len() && members[i].id == member && (forall|j: int|
        0 <= j < i ==> (#[trigger] members[j]).id != member) {
        first_is(members, member, i);
    }
    if !is_member(members, member) {
        nobody_is_first(members, member);
    }
}

/// A text that was not shown is shown from then on, with its name, its channel, its author and its
/// words. Whatever else was shown stays, in order, and nothing else changed.
pub proof fn texts_come_to_be_shown(
    state: CommunityView,
    author: MemberId,
    text: TextModel,
    now: u64,
    shown: MessageView,
)
    requires
        forall|i: int|
            0 <= i < state.messages.len() ==> (#[trigger] state.messages[i]).author_id != author
                || state.messages[i].id != text.id,
        shown.id == text.id,
        shown.channel == text.channel_id,
        shown.author_id == author,
        shown.author == called(state.members, author),
        shown.body == text.body,
    ensures
        ({
            let after = state.applied(EventModel::TextStored { author, text }, now);
            &&& after.messages.to_multiset() == state.messages.to_multiset().insert(shown)
            &&& after.messages.contains(shown)
            &&& never_falls(after.messages)
            &&& after == (CommunityView { messages: after.messages, ..state })
        }),
{
    broadcast use vstd::seq_lib::group_to_multiset_ensures;

    let list = state.messages.push(shown);
    assert(!state.has_text(author, text.id));
    in_order_is_sorted(list);
    let after = state.applied(EventModel::TextStored { author, text }, now);
    assert(after.messages == in_order(list));
    assert(in_order(list).to_multiset().count(shown) > 0);
}

/// A text that is shown already is not shown twice, and what is shown of it does not change.
pub proof fn texts_stay_as_they_were_shown(
    state: CommunityView,
    author: MemberId,
    text: TextModel,
    now: u64,
    i: int,
)
    requires
        0 <= i < state.messages.len(),
        state.messages[i].author_id == author,
        state.messages[i].id == text.id,
    ensures
        state.applied(EventModel::TextStored { author, text }, now) == state,
{
}

/// An attachment that was not shown is shown from then on, with its name, its channel, its author
/// and its bytes. Whatever else was shown stays, in order, and nothing else changed.
pub proof fn attachments_come_to_be_shown(
    state: CommunityView,
    author: MemberId,
    attachment: AttachmentModel,
    now: u64,
    shown: AttachmentView,
)
    requires
        forall|i: int|
            0 <= i < state.attachments.len() ==> (#[trigger] state.attachments[i]).author_id
                != author || state.attachments[i].id != attachment.id,
        shown.id == attachment.id,
        shown.channel == attachment.channel_id,
        shown.author_id == author,
        shown.author == called(state.members, author),
        shown.name == attachment.name,
        shown.bytes == attachment.bytes,
    ensures
        ({
            let after = state.applied(EventModel::AttachmentStored { author, attachment }, now);
            &&& after.attachments.to_multiset() == state.attachments.to_multiset().insert(shown)
            &&& after.attachments.contains(shown)
            &&& never_falls(after.attachments)
            &&& after == (CommunityView { attachments: after.attachments, ..state })
        }),
{
    broadcast use vstd::seq_lib::group_to_multiset_ensures;

    let list = state.attachments.push(shown);
    assert(!state.has_attachment(author, attachment.id));
    in_order_is_sorted(list);
    let after = state.applied(EventModel::AttachmentStored { author, attachment }, now);
    assert(after.attachments == in_order(list));
    assert(in_order(list).to_multiset().count(shown) > 0);
}

/// An attachment that is shown already is not shown twice, and what is shown of it does not change.
pub proof fn attachments_stay_as_they_were_shown(
    state: CommunityView,
    author: MemberId,
    attachment: AttachmentModel,
    now: u64,
    i: int,
)
    requires
        0 <= i < state.attachments.len(),
        state.attachments[i].author_id == author,
        state.attachments[i].id == attachment.id,
    ensures
        state.applied(EventModel::AttachmentStored { author, attachment }, now) == state,
{
}

/// What was stored and then forgotten leaves what is shown as it was, where it was in order.
pub proof fn forgetting_undoes_storing(
    state: CommunityView,
    author: MemberId,
    attachment: AttachmentModel,
    now: u64,
    other: AttachmentView,
)
    requires
        forall|i: int|
            0 <= i < state.attachments.len() ==> (#[trigger] state.attachments[i]).author_id
                != author || state.attachments[i].id != attachment.id,
    ensures
        ({
            let after = state.applied(
                EventModel::AttachmentStored { author, attachment },
                now,
            ).applied(EventModel::AttachmentForgotten { author, id: attachment.id }, now);
            &&& after.attachments.to_multiset().count(other)
                == state.attachments.to_multiset().count(other)
            &&& after == (CommunityView { attachments: after.attachments, ..state })
        }),
{
    broadcast use vstd::seq_lib::group_to_multiset_ensures;

    let shown = AttachmentView {
        id: attachment.id,
        channel: attachment.channel_id,
        author_id: author,
        author: called(state.members, author),
        name: attachment.name,
        bytes: attachment.bytes,
    };
    let stored = state.applied(EventModel::AttachmentStored { author, attachment }, now);
    attachments_come_to_be_shown(state, author, attachment, now, shown);
    forgetting_takes_one_away(stored, author, attachment.id, now, other);
    let after = stored.applied(
        EventModel::AttachmentForgotten { author, id: attachment.id },
        now,
    );
    if other.author_id == author && other.id == attachment.id {
        assert(!after.attachments.contains(other));
        assert(!state.attachments.contains(other)) by {
            if state.attachments.contains(other) {
                let i = state.attachments.index_of(other);
                assert(state.attachments[i] == other);
            }
        }
        assert(after.attachments.to_multiset().count(other) == 0);
        assert(state.attachments.to_multiset().count(other) == 0);
    }
}

/// A new display name stands with the member's entry, its texts and its attachments. Nothing else
/// of them changes, and nothing of anybody else.
pub proof fn names_change_everywhere(
    state: CommunityView,
    member: MemberId,
    name: Seq<char>,
    now: u64,
)
    ensures
        ({
            let after = state.applied(EventModel::DisplayNameChanged { member, name }, now);
            &&& after.messages.len() == state.messages.len()
            &&& forall|i: int|
                0 <= i < state.messages.len() ==> {
                    let shown = #[trigger] after.messages[i];
                    &&& shown.id == state.messages[i].id
                    &&& shown.channel == state.messages[i].channel
                    &&& shown.author_id == state.messages[i].author_id
                    &&& shown.body == state.messages[i].body
                    &&& shown.author_id == member ==> shown.author == name
                    &&& shown.author_id != member ==> shown.author == state.messages[i].author
                }
            &&& after.attachments.len() == state.attachments.len()
            &&& forall|i: int|
                0 <= i < state.attachments.len() ==> {
                    let shown = #[trigger] after.attachments[i];
                    &&& shown.id == state.attachments[i].id
                    &&& shown.channel == state.attachments[i].channel
                    &&& shown.author_id == state.attachments[i].author_id
                    &&& shown.name == state.attachments[i].name
                    &&& shown.bytes == state.attachments[i].bytes
                    &&& shown.author_id == member ==> shown.author == name
                    &&& shown.author_id != member ==> shown.author == state.attachments[i].author
                }
            &&& after.members.len() == state.members.len()
            &&& forall|i: int|
                0 <= i < state.members.len() ==> {
                    let shown = #[trigger] after.members[i];
                    &&& shown.id == state.members[i].id
                    &&& shown.role == state.members[i].role
                    &&& shown.is_owner == state.members[i].is_owner
                    &&& shown.is_local == state.members[i].is_local
                    &&& shown.id != member ==> shown.name == state.members[i].name
                }
            &&& is_member(state.members, member) ==> called(after.members, member) == name
            &&& after == (CommunityView {
                messages: after.messages,
                attachments: after.attachments,
                members: after.members,
                ..state
            })
        }),
{
    let after = state.applied(EventModel::DisplayNameChanged { member, name }, now);
    first_where_listed(state.members, member);
    if is_member(state.members, member) {
        let i = first_member(state.members, member)->0;
        assert forall|j: int| 0 <= j < i implies (#[trigger] after.members[j]).id != member by {
            assert(after.members[j] == state.members[j]);
        }
        first_is(after.members, member, i);
    }
}

/// A channel that was not there comes last, and the others stay; one that is there already stays as
/// it was.
pub proof fn channels_come_last(state: CommunityView, channel: ChannelModel, now: u64)
    ensures
        ({
            let after = state.applied(EventModel::ChannelCreated(channel), now);
            &&& (forall|i: int|
                0 <= i < state.channels.len() ==> (#[trigger] state.channels[i]).id != channel.id)
                ==> after.channels == state.channels + seq![channel]
            &&& (exists|i: int|
                0 <= i < state.channels.len() && (#[trigger] state.channels[i]).id == channel.id)
                ==> after == state
            &&& after == (CommunityView { channels: after.channels, ..state })
        }),
{
}

/// Whoever connects to the owner and is no member waits to be admitted; whoever else connects is
/// online. Nobody else comes to be either, and nothing else changes.
pub proof fn peers_wait_or_are_online(
    state: CommunityView,
    member: MemberId,
    now: u64,
    other: MemberId,
)
    ensures
        ({
            let after = state.applied(EventModel::PeerConnected(member), now);
            let waits = state.local_member == state.owner && !is_member(state.members, member);
            &&& waits ==> after.pending_members.contains(member) && after.online == state.online
            &&& !waits ==> after.online.contains(member) && after.pending_members
                == state.pending_members
            &&& other != member ==> (after.online.contains(other) <==> state.online.contains(
                other,
            )) && (after.pending_members.contains(other) <==> state.pending_members.contains(
                other,
            ))
            &&& after == (CommunityView {
                online: after.online,
                pending_members: after.pending_members,
                ..state
            })
        }),
{
    first_where_listed(state.members, member);
}

/// Whoever joins a voice channel has a seat there, not muted, and none anywhere else; the seats of
/// the others stay as they are.
pub proof fn joining_takes_one_seat(
    state: CommunityView,
    channel: ChannelId,
    member: MemberId,
    now: u64,
    seat: Seat,
)
    ensures
        ({
            let after = state.applied(
                EventModel::VoicePresence { channel, member, state: VoicePresence::Joined },
                now,
            );
            &&& seat.member == member ==> (after.voice.dom().contains(seat) <==> seat.channel
                == channel)
            &&& seat.member == member && seat.channel == channel ==> after.voice[seat] == false
            &&& seat.member != member ==> (after.voice.dom().contains(seat)
                <==> state.voice.dom().contains(seat)) && (state.voice.dom().contains(seat)
                ==> after.voice[seat] == state.voice[seat])
            &&& after == (CommunityView { voice: after.voice, ..state })
        }),
{
}

/// Whoever leaves a voice channel has no seat there and does not speak there; every other seat
/// stays as it is.
pub proof fn leaving_frees_the_seat(
    state: CommunityView,
    channel: ChannelId,
    member: MemberId,
    now: u64,
    seat: Seat,
)
    ensures
        ({
            let after = state.applied(
                EventModel::VoicePresence { channel, member, state: VoicePresence::Left },
                now,
            );
            let left = seat.channel == channel && seat.member == member;
            &&& left ==> !after.voice.dom().contains(seat) && !after.speaking.dom().contains(seat)
            &&& !left ==> (after.voice.dom().contains(seat) <==> state.voice.dom().contains(seat))
                && (state.voice.dom().contains(seat) ==> after.voice[seat] == state.voice[seat])
            &&& !left ==> (after.speaking.dom().contains(seat) <==> state.speaking.dom().contains(
                seat,
            )) && (state.speaking.dom().contains(seat) ==> after.speaking[seat]
                == state.speaking[seat])
            &&& after == (CommunityView { voice: after.voice, speaking: after.speaking, ..state })
        }),
{
}

/// Whoever has a seat is muted there, or not, as it says; nobody gets a seat by it, and every other
/// seat stays as it is.
pub proof fn muting_needs_a_seat(
    state: CommunityView,
    channel: ChannelId,
    member: MemberId,
    muted: bool,
    now: u64,
    seat: Seat,
)
    ensures
        ({
            let after = state.applied(
                EventModel::VoicePresence { channel, member, state: VoicePresence::Muted(muted) },
                now,
            );
            let own = seat.channel == channel && seat.member == member;
            &&& after.voice.dom().contains(seat) <==> state.voice.dom().contains(seat)
            &&& state.voice.dom().contains(seat) ==> after.voice[seat] == if own {
                muted
            } else {
                state.voice[seat]
            }
            &&& after == (CommunityView { voice: after.voice, ..state })
        }),
{
}

/// Whoever was heard in a channel was heard there just now; when the others were heard does not
/// change.
pub proof fn speakers_were_heard_now(
    state: CommunityView,
    author: MemberId,
    frame: VoiceFrameModel,
    now: u64,
    seat: Seat,
)
    ensures
        ({
            let after = state.applied(EventModel::VoiceReceived { author, frame }, now);
            let own = seat.channel == frame.channel_id && seat.member == author;
            &&& own ==> after.speaking.dom().contains(seat) && after.speaking[seat] == now
            &&& !own ==> (after.speaking.dom().contains(seat) <==> state.speaking.dom().contains(
                seat,
            )) && (state.speaking.dom().contains(seat) ==> after.speaking[seat]
                == state.speaking[seat])
            &&& after == (CommunityView { speaking: after.speaking, ..state })
        }),
{
}

/// A fault changes nothing that is shown.
pub proof fn faults_change_nothing(state: CommunityView, fault: FaultModel, now: u64)
    ensures
        state.applied(EventModel::Fault(fault), now) == state,
{
}

proof fn latest_names(members: Seq<MemberView>, member: MemberId)
    ensures
        !is_member(members, member) ==> latest_called(members, member) == hex(member@.take(6)),
        is_member(members, member) ==> exists|i: int|
            0 <= i < members.len() && (#[trigger] members[i]).id == member && members[i].name
                == latest_called(members, member),
    decreases members.len(),
{
    if members.len() > 0 {
        let before = members.drop_last();
        latest_names(before, member);
        assert(members[members.len() - 1] == members.last());
        if members.last().id != member {
            if is_member(members, member) {
                let i = choose|i: int|
                    0 <= i < members.len() && (#[trigger] members[i]).id == member;
                assert(before[i].id == member);
            }
            if is_member(before, member) {
                let i = choose|i: int|
                    0 <= i < before.len() && (#[trigger] before[i]).id == member
                        && before[i].name == latest_called(before, member);
                assert(members[i].id == member && members[i].name == before[i].name);
            }
        }
    }
}

/// After a change of the membership exactly the members are listed, each with its role and the
/// name that it had, or the first six bytes of its key. Whoever is no member is neither online nor
/// in a voice channel, whoever is one does not wait, and for everybody else both stay as they were.
/// Channels, texts, attachments and what was read stay.
pub proof fn memberships_show_their_members(
    state: CommunityView,
    community: CommunityModel,
    now: u64,
    member: MemberId,
    seat: Seat,
)
    requires
        community.members.dom().finite(),
    ensures
        ({
            let after = state.applied(EventModel::MembershipChanged(community), now);
            &&& is_member(after.members, member) <==> community.members.dom().contains(member)
            &&& after.members.len() == community.members.dom().len()
            &&& forall|i: int|
                0 <= i < after.members.len() ==> {
                    let shown = #[trigger] after.members[i];
                    &&& community.members.dom().contains(shown.id)
                    &&& shown.role == community.members[shown.id]
                    &&& shown.is_owner <==> shown.id == community.owner
                    &&& shown.is_local <==> shown.id == state.local_member
                    &&& !is_member(state.members, shown.id) ==> shown.name == hex(
                        shown.id@.take(6),
                    )
                    &&& is_member(state.members, shown.id) ==> exists|j: int|
                        0 <= j < state.members.len() && (#[trigger] state.members[j]).id == shown.id
                            && state.members[j].name == shown.name
                }
            &&& forall|i: int, j: int|
                0 <= i < j < after.members.len() ==> rank((#[trigger] after.members[i]).id) < rank(
                    (#[trigger] after.members[j]).id,
                )
            &&& after.owner == community.owner
            &&& after.access is Active <==> community.members.dom().contains(state.local_member)
            &&& after.access is Waiting <==> state.access is Waiting
                && !community.members.dom().contains(state.local_member)
            &&& after.online.contains(member) <==> state.online.contains(member)
                && community.members.dom().contains(member)
            &&& after.pending_members.contains(member) <==> state.pending_members.contains(member)
                && !community.members.dom().contains(member)
            &&& after.voice.dom().contains(seat) <==> state.voice.dom().contains(seat)
                && community.members.dom().contains(seat.member)
            &&& after.voice.dom().contains(seat) ==> after.voice[seat] == state.voice[seat]
            &&& after.speaking.dom().contains(seat) <==> state.speaking.dom().contains(seat)
                && community.members.dom().contains(seat.member)
            &&& after.speaking.dom().contains(seat) ==> after.speaking[seat]
                == state.speaking[seat]
            &&& after == (CommunityView {
                members: after.members,
                owner: after.owner,
                access: after.access,
                online: after.online,
                pending_members: after.pending_members,
                voice: after.voice,
                speaking: after.speaking,
                ..state
            })
        }),
{
    let after = state.applied(EventModel::MembershipChanged(community), now);
    let keys = sorted_keys(community.members);
    finite_maps_are_listed(community.members);
    assert(keys.contains(member) <==> community.members.dom().contains(member));
    assert(keys.contains(seat.member) <==> community.members.dom().contains(seat.member));
    if is_member(after.members, member) {
        let i = choose|i: int|
            0 <= i < after.members.len() && (#[trigger] after.members[i]).id == member;
        assert(keys[i] == member);
    }
    if keys.contains(member) {
        let i = keys.index_of(member);
        assert(after.members[i].id == member);
    }
    assert forall|i: int| 0 <= i < after.members.len() implies {
        let shown = #[trigger] after.members[i];
        &&& community.members.dom().contains(shown.id)
        &&& shown.role == community.members[shown.id]
        &&& shown.is_owner <==> shown.id == community.owner
        &&& shown.is_local <==> shown.id == state.local_member
        &&& !is_member(state.members, shown.id) ==> shown.name == hex(shown.id@.take(6))
        &&& is_member(state.members, shown.id) ==> exists|j: int|
            0 <= j < state.members.len() && (#[trigger] state.members[j]).id == shown.id
                && state.members[j].name == shown.name
    } by {
        assert(keys.contains(keys[i]));
        latest_names(state.members, keys[i]);
    }
    assert forall|i: int, j: int| 0 <= i < j < after.members.len() implies rank(
        (#[trigger] after.members[i]).id,
    ) < rank((#[trigger] after.members[j]).id) by {
        assert(rank(keys[i]) < rank(keys[j]));
    }
}

/// A channel that is there can be selected, and no other one; nothing else changes.
pub proof fn channels_that_are_there_are_selected(state: CommunityView, channel: ChannelId)
    ensures
        (exists|i: int| 0 <= i < state.channels.len() && (#[trigger] state.channels[i]).id
            == channel) ==> state.selecting(channel).selected_channel == channel,
        (forall|i: int| 0 <= i < state.channels.len() ==> (#[trigger] state.channels[i]).id
            != channel) ==> state.selecting(channel).selected_channel == state.selected_channel,
        state.selecting(channel) == (CommunityView {
            selected_channel: state.selecting(channel).selected_channel,
            ..state
        }),
{
}

/// What others made after the item that was read last is news, and so is all that they made where
/// nothing was read; what was made up to that item is none.
pub proof fn later_items_by_others_are_news(
    local_member: MemberId,
    author: MemberId,
    read: MessageId,
    id: MessageId,
)
    requires
        author != local_member,
    ensures
        is_news(None, local_member, author, id),
        rank(id) > rank(read) ==> is_news(Some(read), local_member, author, id),
        rank(id) <= rank(read) ==> !is_news(Some(read), local_member, author, id),
{
}

/// What a user sees at first of a community is what its snapshot holds: its channels, its texts and
/// its attachments in their order, each with its author's name, and its members with their roles.
/// Nobody is online, and nothing was read.
pub proof fn communities_open_as_they_are(snapshot: Snapshot, local_member: MemberId)
    ensures
        ({
            let shown = projected(snapshot, local_member);
            let names = snapshot.display_names@;
            &&& shown.channels.len() == snapshot.channels@.len()
            &&& forall|i: int|
                0 <= i < shown.channels.len() ==> (#[trigger] shown.channels[i])
                    == snapshot.channels@[i]@
            &&& shown.messages.len() == snapshot.messages@.len()
            &&& forall|i: int|
                0 <= i < shown.messages.len() ==> {
                    let text = #[trigger] shown.messages[i];
                    let authored = snapshot.messages@[i];
                    &&& text.id == authored.message@.id
                    &&& text.channel == authored.message@.channel_id
                    &&& text.body == authored.message@.body
                    &&& text.author_id == authored.author
                    &&& names.dom().contains(authored.author) ==> text.author
                        == names[authored.author]@
                    &&& !names.dom().contains(authored.author) ==> text.author == hex(
                        authored.author@.take(6),
                    )
                }
            &&& shown.attachments.len() == snapshot.attachments@.len()
            &&& forall|i: int|
                0 <= i < shown.attachments.len() ==> {
                    let attachment = #[trigger] shown.attachments[i];
                    let authored = snapshot.attachments@[i];
                    &&& attachment.id == authored.attachment@.id
                    &&& attachment.channel == authored.attachment@.channel_id
                    &&& attachment.name == authored.attachment@.name
                    &&& attachment.bytes == authored.attachment@.bytes
                    &&& attachment.author_id == authored.author
                    &&& names.dom().contains(authored.author) ==> attachment.author
                        == names[authored.author]@
                    &&& !names.dom().contains(authored.author) ==> attachment.author == hex(
                        authored.author@.take(6),
                    )
                }
            &&& shown.members.len() == snapshot.members@.len()
            &&& forall|i: int|
                0 <= i < shown.members.len() ==> {
                    let member = #[trigger] shown.members[i];
                    let id = snapshot.members@[i];
                    &&& member.id == id
                    &&& member.is_owner <==> id == snapshot.community@.owner
                    &&& member.is_local <==> id == local_member
                    &&& snapshot.community@.members.dom().contains(id) ==> member.role
                        == snapshot.community@.members[id]
                    &&& names.dom().contains(id) ==> member.name == names[id]@
                    &&& !names.dom().contains(id) ==> member.name == hex(id@.take(6))
                }
            &&& shown.owner == snapshot.community@.owner
            &&& shown.local_member == local_member
            &&& shown.access is Active <==> snapshot.members@.contains(local_member)
            &&& shown.access is Waiting <==> !snapshot.members@.contains(local_member)
                && snapshot.channels@.len() == 0
            &&& forall|m: MemberId|
                !(#[trigger] shown.online.contains(m)) && !shown.pending_members.contains(m)
            &&& forall|s: Seat|
                !(#[trigger] shown.voice.dom().contains(s)) && !shown.speaking.dom().contains(s)
            &&& forall|c: ChannelId| !#[trigger] shown.last_read.dom().contains(c)
            &&& shown.connection is None && shown.diagnostics.len() == 0
        }),
{
}

proof fn text_comes_first(channels: Seq<ChannelModel>)
    ensures
        match first_text(channels) {
            Some(id) => exists|i: int|
                0 <= i < channels.len() && (#[trigger] channels[i]).id == id && channels[i].kind
                    is Text && forall|j: int|
                    0 <= j < i ==> !((#[trigger] channels[j]).kind is Text),
            None => forall|j: int| 0 <= j < channels.len() ==> !((#[trigger] channels[j]).kind is Text),
        },
    decreases channels.len(),
{
    if channels.len() > 0 {
        let before = channels.drop_last();
        text_comes_first(before);
        assert(channels[channels.len() - 1] == channels.last());
        match first_text(before) {
            Some(id) => {
                let i = choose|i: int|
                    0 <= i < before.len() && (#[trigger] before[i]).id == id && before[i].kind
                        is Text && forall|j: int|
                        0 <= j < i ==> !((#[trigger] before[j]).kind is Text);
                assert(channels[i] == before[i]);
                assert forall|j: int| 0 <= j < i implies !((#[trigger] channels[j]).kind
                    is Text) by {
                    assert(before[j] == channels[j]);
                }
            },
            None => {
                assert forall|j: int| 0 <= j < before.len() implies !((#[trigger] channels[j]).kind
                    is Text) by {
                    assert(before[j] == channels[j]);
                }
            },
        }
    }
}

/// A community opens at its first text channel, where it has one.
pub proof fn the_first_text_channel_is_selected(snapshot: Snapshot, local_member: MemberId)
    ensures
        ({
            let shown = projected(snapshot, local_member);
            let list = shown.channels;
            (exists|i: int| 0 <= i < list.len() && (#[trigger] list[i]).kind is Text) ==> exists|
                i: int,
            |
                0 <= i < list.len() && (#[trigger] list[i]).id == shown.selected_channel
                    && list[i].kind is Text && forall|j: int|
                    0 <= j < i ==> !((#[trigger] list[j]).kind is Text)
        }),
{
    text_comes_first(projected(snapshot, local_member).channels);
}

/// A later snapshot shows what it holds, and keeps what a snapshot does not say: who of the members
/// is online, who of the others waits, who sits in a voice channel that is still there, what was
/// read, and the channel that is selected, as long as it is there.
pub proof fn later_snapshots_keep_the_rest(
    state: CommunityView,
    snapshot: Snapshot,
    member: MemberId,
    seat: Seat,
)
    ensures
        ({
            let after = state.replaced(snapshot);
            let fresh = projected(snapshot, state.local_member);
            let stays = snapshot.members@.contains(seat.member) && exists|i: int|
                0 <= i < fresh.channels.len() && (#[trigger] fresh.channels[i]).id == seat.channel;
            &&& after.channels == fresh.channels
            &&& after.messages == fresh.messages
            &&& after.attachments == fresh.attachments
            &&& after.members == fresh.members
            &&& after.owner == fresh.owner
            &&& after.local_member == state.local_member
            &&& after.online.contains(member) <==> state.online.contains(member)
                && snapshot.members@.contains(member)
            &&& after.pending_members.contains(member) <==> state.pending_members.contains(member)
                && !snapshot.members@.contains(member)
            &&& after.voice.dom().contains(seat) <==> state.voice.dom().contains(seat) && stays
            &&& after.voice.dom().contains(seat) ==> after.voice[seat] == state.voice[seat]
            &&& after.speaking.dom().contains(seat) <==> state.speaking.dom().contains(seat)
                && stays
            &&& after.speaking.dom().contains(seat) ==> after.speaking[seat]
                == state.speaking[seat]
            &&& after.last_read == state.last_read
            &&& after.local_address == state.local_address
            &&& after.connection == state.connection
            &&& after.diagnostics == state.diagnostics
            &&& after.access is Active <==> snapshot.members@.contains(state.local_member)
            &&& after.access is Waiting <==> state.access is Waiting
                && !snapshot.members@.contains(state.local_member)
            &&& (exists|i: int|
                0 <= i < fresh.channels.len() && (#[trigger] fresh.channels[i]).id
                    == state.selected_channel) ==> after.selected_channel == state.selected_channel
            &&& (forall|i: int|
                0 <= i < fresh.channels.len() ==> (#[trigger] fresh.channels[i]).id
                    != state.selected_channel) ==> after.selected_channel == fresh.selected_channel
        }),
{
    assert(snapshot.members@.to_set().contains(member) <==> snapshot.members@.contains(member));
}

/// Diagnostics say which members are online: exactly those that a connection leads to. The
/// connection that is shown is one that is in use with a member, and none in use is worse: a relay
/// is worse than a direct path, and of one kind the slower one is.
pub proof fn diagnostics_show_the_worst_path(
    state: CommunityView,
    peers: Seq<DiagnosticModel>,
    member: MemberId,
    p: int,
    i: int,
    found: Option<(ConnectionPathKind, u64)>,
)
    requires
        is_worst(found, peers, state.members),
    ensures
        ({
            let after = state.diagnosed(peers);
            &&& after.online.contains(member) <==> is_member(state.members, member) && exists|k: int|
                0 <= k < peers.len() && (#[trigger] peers[k]).member == member
            &&& after.diagnostics == peers
            &&& 0 <= p < peers.len() && 0 <= i < peers[p].paths.len() && is_member(
                state.members,
                peers[p].member,
            ) && peers[p].paths[i].selected ==> match after.connection {
                Some((kind, millis)) => match (kind, peers[p].paths[i].kind) {
                    (ConnectionPathKind::Direct, ConnectionPathKind::Relay) => false,
                    (ConnectionPathKind::Direct, ConnectionPathKind::Custom) => false,
                    (ConnectionPathKind::Relay, ConnectionPathKind::Custom) => false,
                    (a, b) => a == b ==> millis >= peers[p].paths[i].rtt / 1_000_000,
                },
                None => false,
            }
            &&& after.connection matches Some((kind, millis)) ==> exists|q: int, k: int|
                0 <= q < peers.len() && 0 <= k < peers[q].paths.len() && is_member(
                    state.members,
                    peers[q].member,
                ) && (#[trigger] peers[q].paths[k]).selected && peers[q].paths[k].kind == kind
                    && peers[q].paths[k].rtt / 1_000_000 == millis
            &&& after == (CommunityView {
                online: after.online,
                diagnostics: after.diagnostics,
                connection: after.connection,
                ..state
            })
        }),
{
    first_where_listed(state.members, member);
    let after = state.diagnosed(peers);
    worst_is(found, peers, state.members);
    if 0 <= p < peers.len() && 0 <= i < peers[p].paths.len() && is_member(
        state.members,
        peers[p].member,
    ) && peers[p].paths[i].selected {
        first_where_listed(state.members, peers[p].member);
        let path = (peers[p].paths[i].kind, peers[p].paths[i].rtt_ms());
        assert(carries(peers[p].paths[i], path));
        assert(in_use(peers, state.members, path));
    }
    if after.connection is Some {
        let path = after.connection->0;
        assert(in_use(peers, state.members, path));
        let (q, k) = choose|q: int, k: int|
            0 <= q < peers.len() && 0 <= k < peers[q].paths.len() && first_member(
                state.members,
                peers[q].member,
            ) is Some && carries(#[trigger] peers[q].paths[k], path);
        first_where_listed(state.members, peers[q].member);
        assert(peers[q].paths[k].selected);
    }
}

proof fn seated_are(
    members: Seq<MemberView>,
    voice: Map<Seat, bool>,
    seats: Seq<Seat>,
    channel: ChannelId,
    entry: (MemberView, bool),
)
    ensures
        seated(members, voice, seats, channel).contains(entry) <==> exists|k: int|
            0 <= k < seats.len() && (#[trigger] seats[k]).channel == channel && first_member(
                members,
                seats[k].member,
            ) is Some && members[first_member(members, seats[k].member)->0] == entry.0
                && voice[seats[k]] == entry.1,
    decreases seats.len(),
{
    if seats.len() > 0 {
        let before = seats.drop_last();
        seated_are(members, voice, before, channel, entry);
        let some = seated(members, voice, before, channel);
        let all = seated(members, voice, seats, channel);
        let last = seats.last();
        let first = first_member(members, last.member);
        assert(seats[seats.len() - 1] == last);
        if some.contains(entry) {
            let k = choose|k: int|
                0 <= k < before.len() && (#[trigger] before[k]).channel == channel && first_member(
                    members,
                    before[k].member,
                ) is Some && members[first_member(members, before[k].member)->0] == entry.0
                    && voice[before[k]] == entry.1;
            assert(seats[k] == before[k]);
            let i = some.index_of(entry);
            assert(all[i] == entry);
        }
        if first is Some && last.channel == channel {
            assert(all == some.push((members[first->0], voice[last])));
            assert(all[all.len() - 1] == (members[first->0], voice[last]));
            if all.contains(entry) && !some.contains(entry) {
                let i = all.index_of(entry);
                if i < some.len() {
                    assert(some[i] == entry);
                }
            }
        }
        if exists|k: int|
            0 <= k < seats.len() && (#[trigger] seats[k]).channel == channel && first_member(
                members,
                seats[k].member,
            ) is Some && members[first_member(members, seats[k].member)->0] == entry.0
                && voice[seats[k]] == entry.1 {
            let k = choose|k: int|
                0 <= k < seats.len() && (#[trigger] seats[k]).channel == channel && first_member(
                    members,
                    seats[k].member,
                ) is Some && members[first_member(members, seats[k].member)->0] == entry.0
                    && voice[seats[k]] == entry.1;
            if k < before.len() {
                assert(before[k] == seats[k]);
            }
        }
    }
}

/// In a voice channel exactly those members are shown that have a seat there, each muted or not as
/// it is.
pub proof fn voice_channels_show_who_is_there(
    state: CommunityView,
    channel: ChannelId,
    i: int,
    muted: bool,
)
    requires
        state.voice.dom().finite(),
        0 <= i < state.members.len(),
        forall|j: int, k: int|
            0 <= j < k < state.members.len() ==> (#[trigger] state.members[j]).id != (
            #[trigger] state.members[k]).id,
    ensures
        ({
            let seat = Seat { channel, member: state.members[i].id };
            seated(state.members, state.voice, sorted_keys(state.voice), channel).contains(
                (state.members[i], muted),
            ) <==> state.voice.dom().contains(seat) && state.voice[seat] == muted
        }),
{
    let keys = sorted_keys(state.voice);
    let entry = (state.members[i], muted);
    let seat = Seat { channel, member: state.members[i].id };
    finite_maps_are_listed(state.voice);
    seated_are(state.members, state.voice, keys, channel, entry);
    first_is(state.members, state.members[i].id, i);
    assert(keys.contains(seat) <==> state.voice.dom().contains(seat));
    if state.voice.dom().contains(seat) && state.voice[seat] == muted {
        let k = keys.index_of(seat);
        assert(keys[k] == seat);
    }
    if exists|k: int|
        0 <= k < keys.len() && (#[trigger] keys[k]).channel == channel && first_member(
            state.members,
            keys[k].member,
        ) is Some && state.members[first_member(state.members, keys[k].member)->0] == entry.0
            && state.voice[keys[k]] == entry.1 {
        let k = choose|k: int|
            0 <= k < keys.len() && (#[trigger] keys[k]).channel == channel && first_member(
                state.members,
                keys[k].member,
            ) is Some && state.members[first_member(state.members, keys[k].member)->0] == entry.0
                && state.voice[keys[k]] == entry.1;
        first_where_listed(state.members, keys[k].member);
        assert(keys[k] == seat);
        assert(keys.contains(keys[k]));
    }
}

/// As many members are online as there are members that are the local one or are connected.
pub proof fn online_members_are_counted(
    members: Seq<MemberView>,
    online: Set<MemberId>,
    local_member: MemberId,
)
    ensures
        online_among(members, online, local_member) == members.filter(
            |m: MemberView| m.id == local_member || online.contains(m.id),
        ).len(),
    decreases members.len(),
{
    reveal(Seq::filter);
    if members.len() > 0 {
        online_members_are_counted(members.drop_last(), online, local_member);
    }
}

/// The paths that are shown for a member are those of its diagnostic, and none where there is none.
pub proof fn paths_are_those_of_the_member(
    diagnostics: Seq<DiagnosticModel>,
    member: MemberId,
    i: int,
)
    ensures
        (forall|j: int|
            0 <= j < diagnostics.len() ==> (#[trigger] diagnostics[j]).member != member)
            ==> paths_to(diagnostics, member).len() == 0,
        0 <= i < diagnostics.len() && diagnostics[i].member == member && (forall|j: int|
            0 <= j < i ==> (#[trigger] diagnostics[j]).member != member) ==> paths_to(
            diagnostics,
            member,
        ) == diagnostics[i].paths,
    decreases diagnostics.len(),
{
    if diagnostics.len() > 0 {
        let rest = diagnostics.drop_first();
        paths_are_those_of_the_member(rest, member, i - 1);
        assert(forall|j: int|
            0 <= j < rest.len() ==> (#[trigger] rest[j]) == diagnostics[j + 1]);
    }
}

/// Whoever was heard speaks for seven tenths of a second, and not any longer.
pub proof fn speakers_fall_silent(
    state: CommunityView,
    seat: Seat,
    heard: u64,
    now: u64,
)
    requires
        heard <= now,
    ensures
        ({
            let after = CommunityView { speaking: state.speaking.insert(seat, heard), ..state };
            after.speaks(seat, now) <==> now - heard < 700_000_000
        }),
        !state.speaking.dom().contains(seat) ==> !state.speaks(seat, now),
{
}

} // verus!
