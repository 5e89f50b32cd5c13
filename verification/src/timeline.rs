//! The items of a channel in order, and what is said of them.

use vstd::arithmetic::div_mod::lemma_fundamental_div_mod_converse;
use vstd::prelude::*;

use crate::bytes::{from_be64, of_be64};
use crate::community::MemberId;
use crate::filing::{in_order, sort, Filed, Placed};
use crate::model::{ChannelId, MessageId};
use crate::sorted::{rank, ByteKey};
use crate::state::{AttachmentView, CommunityState, CommunityView, MessageView};
use crate::text::hex_digit;

verus! {

/// Milliseconds within which a member's next text is shown together with the one before.
pub const GROUP_MILLIS: u64 = 300_000;

/// An item of a channel: its name, whether it is a text, and its place in the list of texts or of
/// attachments.
#[derive(Clone, Copy, Debug, PartialEq, Eq)]
pub struct Item {
    pub id: MessageId,
    pub is_text: bool,
    pub index: usize,
}

impl Placed for Item {
    open spec fn place(&self) -> nat {
        rank(self.id)
    }
}

impl Filed for Item {
    fn behind(&self, other: &Self) -> (behind: bool) {
        other.id.stands_before(&self.id)
    }
}

/// An item, and whether it is shown together with the one before.
#[derive(Clone, Copy, Debug, PartialEq, Eq)]
pub struct Entry {
    pub item: Item,
    pub grouped: bool,
}

/// The texts of a channel, as items.
pub open spec fn text_items(messages: Seq<MessageView>, channel: ChannelId) -> Seq<Item>
    decreases messages.len(),
{
    if messages.len() == 0 {
        Seq::empty()
    } else {
        let before = text_items(messages.drop_last(), channel);
        if messages.last().channel == channel {
            before.push(
                Item {
                    id: messages.last().id,
                    is_text: true,
                    index: (messages.len() - 1) as usize,
                },
            )
        } else {
            before
        }
    }
}

/// The attachments of a channel, as items.
pub open spec fn attachment_items(attachments: Seq<AttachmentView>, channel: ChannelId) -> Seq<Item>
    decreases attachments.len(),
{
    if attachments.len() == 0 {
        Seq::empty()
    } else {
        let before = attachment_items(attachments.drop_last(), channel);
        if attachments.last().channel == channel {
            before.push(
                Item {
                    id: attachments.last().id,
                    is_text: false,
                    index: (attachments.len() - 1) as usize,
                },
            )
        } else {
            before
        }
    }
}

/// The items of the selected channel in the order of their names; of those with one name the texts come
/// first.
pub open spec fn items(state: CommunityView) -> Seq<Item> {
    in_order(
        text_items(state.messages, state.selected_channel) + attachment_items(
            state.attachments,
            state.selected_channel,
        ),
    )
}

/// When an item was made, in milliseconds.
pub open spec fn made_at(id: MessageId) -> u64 {
    of_be64(id@.take(8))
}

/// Whether an item is a text of the member whose text comes right before it, and was made soon after.
pub open spec fn is_grouped(state: CommunityView, list: Seq<Item>, i: int) -> bool {
    &&& i > 0
    &&& list[i].is_text
    &&& list[i - 1].is_text
    &&& state.messages[list[i].index as int].author_id == state.messages[list[i
        - 1].index as int].author_id
    &&& made_at(list[i].id) - made_at(list[i - 1].id) <= GROUP_MILLIS
}

/// When an item was made, in milliseconds.
pub fn message_millis(id: MessageId) -> (millis: u64)
    ensures
        millis == made_at(id),
{
    assert(id@.subrange(0, 8) =~= id@.take(8));
    from_be64(id.0.as_slice(), 0)
}

fn two_digits(text: &mut String, n: u64)
    requires
        n < 100,
    ensures
        final(text)@ == old(text)@ + seq![hex_digit(n as int / 10), hex_digit(n as int % 10)],
{
    let ghost before = text@;
    let tens: u8 = (n / 10) as u8;
    let ones: u8 = (n % 10) as u8;
    text.push(crate::text::digit_char(tens));
    text.push(crate::text::digit_char(ones));
    assert(text@ =~= before + seq![hex_digit(n as int / 10), hex_digit(n as int % 10)]);
}

/// The time of day at which an item was made, in hours and minutes.
pub open spec fn clock(id: MessageId) -> Seq<char> {
    let minutes = made_at(id) as int / 60_000;
    let hour = minutes / 60 % 24;
    let minute = minutes % 60;
    seq![
        hex_digit(hour / 10),
        hex_digit(hour % 10),
        ':',
        hex_digit(minute / 10),
        hex_digit(minute % 10),
    ]
}

/// The time of day at which an item was made, in hours and minutes.
pub fn message_time(id: MessageId) -> (text: String)
    ensures
        text@ == clock(id),
{
    let minutes: u64 = message_millis(id) / 60_000;
    let mut text: String = String::new();
    two_digits(&mut text, (minutes / 60) % 24);
    text.push(':');
    two_digits(&mut text, minutes % 60);
    assert(text@ =~= seq![text@[0], text@[1], text@[2], text@[3], text@[4]]);
    text
}

/// The sum of bytes.
pub open spec fn byte_sum(bytes: Seq<u8>) -> nat
    decreases bytes.len(),
{
    if bytes.len() == 0 {
        0
    } else {
        byte_sum(bytes.drop_last()) + bytes.last() as nat
    }
}

/// Which of four colours a member has.
pub fn member_color(member: MemberId) -> (color: usize)
    ensures
        color == byte_sum(member@) % 4,
        color < 4,
{
    let mut sum: usize = 0;
    let mut i: usize = 0;
    assert(member@.take(0) =~= Seq::<u8>::empty());
    while i < 32
        invariant
            i <= 32,
            sum == byte_sum(member@.take(i as int)),
            sum <= i * 255,
        decreases 32 - i,
    {
        assert(member@.take(i + 1).drop_last() =~= member@.take(i as int));
        assert(member@.take(i + 1).last() == member@[i as int]);
        sum += member.0[i] as usize;
        i += 1;
    }
    assert(member@.take(32) =~= member@);
    sum % 4
}

/// Whether entries are the items of the selected channel, each as it is shown.
pub open spec fn lays_out(state: CommunityView, entries: Seq<Entry>) -> bool {
    &&& entries.len() == items(state).len()
    &&& forall|i: int|
        0 <= i < entries.len() ==> (#[trigger] entries[i]).item == items(state)[i]
            && entries[i].grouped == is_grouped(state, items(state), i)
}

/// The items of the selected channel, as they are shown.
pub fn timeline(state: &CommunityState) -> (entries: Vec<Entry>)
    ensures
        lays_out(state@, entries@),
{
    let channel: ChannelId = state.selected_channel;
    let ghost texts = state@.messages;
    let ghost attached = state@.attachments;
    let mut list: Vec<Item> = Vec::new();
    let mut i: usize = 0;
    assert(texts.take(0) =~= Seq::<MessageView>::empty());
    while i < state.messages.len()
        invariant
            i <= state.messages@.len(),
            texts == state@.messages,
            channel == state@.selected_channel,
            list@ == text_items(texts.take(i as int), channel),
            forall|k: int| 0 <= k < list@.len() ==> (#[trigger] list@[k]).index < texts.len(),
        decreases state.messages@.len() - i,
    {
        assert(texts[i as int] == state.messages@[i as int]@);
        assert(texts.take(i + 1).drop_last() =~= texts.take(i as int));
        assert(texts.take(i + 1).last() == texts[i as int]);
        if state.messages[i].channel == channel {
            list.push(Item { id: state.messages[i].id, is_text: true, index: i });
        }
        i += 1;
    }
    assert(texts.take(i as int) =~= texts);
    let ghost first = list@;
    let mut k: usize = 0;
    assert(attached.take(0) =~= Seq::<AttachmentView>::empty());
    assert(list@ =~= first + attachment_items(attached.take(0), channel));
    while k < state.attachments.len()
        invariant
            k <= state.attachments@.len(),
            attached == state@.attachments,
            texts == state@.messages,
            channel == state@.selected_channel,
            list@ == first + attachment_items(attached.take(k as int), channel),
            forall|n: int|
                0 <= n < list@.len() && (#[trigger] list@[n]).is_text ==> list@[n].index
                    < texts.len(),
        decreases state.attachments@.len() - k,
    {
        assert(attached[k as int] == state.attachments@[k as int]@);
        assert(attached.take(k + 1).drop_last() =~= attached.take(k as int));
        assert(attached.take(k + 1).last() == attached[k as int]);
        if state.attachments[k].channel == channel {
            list.push(Item { id: state.attachments[k].id, is_text: false, index: k });
            assert(list@ =~= first + attachment_items(attached.take(k + 1), channel));
        }
        k += 1;
    }
    assert(attached.take(k as int) =~= attached);
    let ghost unsorted = list@;
    let sorted: Vec<Item> = sort(list);
    proof {
        places_in_order(unsorted, texts.len() as int);
    }
    let mut entries: Vec<Entry> = Vec::new();
    let mut n: usize = 0;
    while n < sorted.len()
        invariant
            n <= sorted@.len(),
            sorted@ == items(state@),
            texts == state@.messages,
            forall|m: int|
                0 <= m < sorted@.len() && (#[trigger] sorted@[m]).is_text ==> sorted@[m].index
                    < texts.len(),
            entries@.len() == n,
            forall|m: int|
                0 <= m < n ==> (#[trigger] entries@[m]).item == sorted@[m] && entries@[m].grouped
                    == is_grouped(state@, sorted@, m),
        decreases sorted@.len() - n,
    {
        let item: Item = sorted[n];
        let mut grouped: bool = false;
        if n > 0 && item.is_text {
            let before: Item = sorted[n - 1];
            if before.is_text {
                assert(texts[item.index as int] == state.messages@[item.index as int]@);
                assert(texts[before.index as int] == state.messages@[before.index as int]@);
                let later: u64 = message_millis(item.id);
                let earlier: u64 = message_millis(before.id);
                grouped = state.messages[item.index].author_id
                    == state.messages[before.index].author_id && later.saturating_sub(earlier)
                    <= GROUP_MILLIS;
            }
        }
        entries.push(Entry { item, grouped });
        n += 1;
    }
    entries
}

proof fn places_in_order(list: Seq<Item>, bound: int)
    requires
        forall|n: int|
            0 <= n < list.len() && (#[trigger] list[n]).is_text ==> list[n].index < bound,
    ensures
        forall|n: int|
            0 <= n < in_order(list).len() && (#[trigger] in_order(list)[n]).is_text ==> in_order(
                list,
            )[n].index < bound,
{
    broadcast use vstd::seq_lib::group_to_multiset_ensures;

    crate::filing::in_order_is_sorted(list);
    let sorted = in_order(list);
    assert forall|n: int| 0 <= n < sorted.len() && (#[trigger] sorted[n]).is_text implies sorted[n].index
        < bound by {
        let item = sorted[n];
        assert(sorted.contains(item));
        assert(sorted.to_multiset().count(item) > 0);
        assert(list.contains(item));
        let k = list.index_of(item);
        assert(list[k] == item);
    }
}

proof fn text_items_are(messages: Seq<MessageView>, channel: ChannelId, item: Item)
    requires
        messages.len() <= usize::MAX,
    ensures
        text_items(messages, channel).contains(item) <==> item.is_text && item.index
            < messages.len() && messages[item.index as int].channel == channel
            && messages[item.index as int].id == item.id,
        forall|i: int, j: int|
            0 <= i < j < text_items(messages, channel).len() ==> (
            #[trigger] text_items(messages, channel)[i]).index < (
            #[trigger] text_items(messages, channel)[j]).index,
        forall|i: int|
            0 <= i < text_items(messages, channel).len() ==> (#[trigger] text_items(
                messages,
                channel,
            )[i]).index < messages.len(),
    decreases messages.len(),
{
    if messages.len() > 0 {
        let before = messages.drop_last();
        text_items_are(before, channel, item);
        let some = text_items(before, channel);
        let all = text_items(messages, channel);
        let last = messages.last();
        if some.contains(item) {
            let k = some.index_of(item);
            assert(all[k] == item);
            assert(before[item.index as int] == messages[item.index as int]);
        }
        if last.channel == channel {
            assert(all[all.len() - 1] == (Item {
                id: last.id,
                is_text: true,
                index: (messages.len() - 1) as usize,
            }));
            if all.contains(item) && !some.contains(item) {
                let k = all.index_of(item);
                if k < some.len() {
                    assert(some[k] == item);
                }
            }
        }
        if item.is_text && item.index < messages.len() - 1 {
            assert(before[item.index as int] == messages[item.index as int]);
        }
        assert forall|i: int, j: int| 0 <= i < j < all.len() implies (#[trigger] all[i]).index < (
        #[trigger] all[j]).index by {
            assert(all[i] == some[i]);
            if j < some.len() {
                assert(all[j] == some[j]);
            }
        }
        assert forall|i: int| 0 <= i < all.len() implies (#[trigger] all[i]).index
            < messages.len() by {
            if i < some.len() {
                assert(all[i] == some[i]);
            }
        }
    }
}

proof fn attachment_items_are(attachments: Seq<AttachmentView>, channel: ChannelId, item: Item)
    requires
        attachments.len() <= usize::MAX,
    ensures
        attachment_items(attachments, channel).contains(item) <==> !item.is_text && item.index
            < attachments.len() && attachments[item.index as int].channel == channel
            && attachments[item.index as int].id == item.id,
        forall|i: int, j: int|
            0 <= i < j < attachment_items(attachments, channel).len() ==> (
            #[trigger] attachment_items(attachments, channel)[i]).index < (
            #[trigger] attachment_items(attachments, channel)[j]).index,
        forall|i: int|
            0 <= i < attachment_items(attachments, channel).len() ==> (#[trigger] attachment_items(
                attachments,
                channel,
            )[i]).index < attachments.len(),
    decreases attachments.len(),
{
    if attachments.len() > 0 {
        let before = attachments.drop_last();
        attachment_items_are(before, channel, item);
        let some = attachment_items(before, channel);
        let all = attachment_items(attachments, channel);
        let last = attachments.last();
        if some.contains(item) {
            let k = some.index_of(item);
            assert(all[k] == item);
            assert(before[item.index as int] == attachments[item.index as int]);
        }
        if last.channel == channel {
            assert(all[all.len() - 1] == (Item {
                id: last.id,
                is_text: false,
                index: (attachments.len() - 1) as usize,
            }));
            if all.contains(item) && !some.contains(item) {
                let k = all.index_of(item);
                if k < some.len() {
                    assert(some[k] == item);
                }
            }
        }
        if !item.is_text && item.index < attachments.len() - 1 {
            assert(before[item.index as int] == attachments[item.index as int]);
        }
        assert forall|i: int, j: int| 0 <= i < j < all.len() implies (#[trigger] all[i]).index < (
        #[trigger] all[j]).index by {
            assert(all[i] == some[i]);
            if j < some.len() {
                assert(all[j] == some[j]);
            }
        }
        assert forall|i: int| 0 <= i < all.len() implies (#[trigger] all[i]).index
            < attachments.len() by {
            if i < some.len() {
                assert(all[i] == some[i]);
            }
        }
    }
}

/// The timeline shows every text and every attachment of the selected channel, each once and in the
/// order of their names, and nothing else.
pub proof fn timelines_show_the_channel(state: CommunityView, entries: Seq<Entry>, item: Item)
    requires
        lays_out(state, entries),
        state.messages.len() <= usize::MAX,
        state.attachments.len() <= usize::MAX,
    ensures
        (exists|i: int| 0 <= i < entries.len() && (#[trigger] entries[i]).item == item) <==> {
            if item.is_text {
                item.index < state.messages.len() && state.messages[item.index as int].channel
                    == state.selected_channel && state.messages[item.index as int].id == item.id
            } else {
                item.index < state.attachments.len() && state.attachments[item.index as int].channel
                    == state.selected_channel && state.attachments[item.index as int].id == item.id
            }
        },
        forall|i: int, j: int|
            0 <= i < j < entries.len() ==> rank((#[trigger] entries[i]).item.id) <= rank(
                (#[trigger] entries[j]).item.id,
            ),
        entries.len() == text_items(state.messages, state.selected_channel).len()
            + attachment_items(state.attachments, state.selected_channel).len(),
{
    broadcast use vstd::seq_lib::group_to_multiset_ensures;

    let texts = text_items(state.messages, state.selected_channel);
    let attached = attachment_items(state.attachments, state.selected_channel);
    let list = texts + attached;
    crate::filing::in_order_is_sorted(list);
    let sorted = items(state);
    text_items_are(state.messages, state.selected_channel, item);
    attachment_items_are(state.attachments, state.selected_channel, item);
    assert(sorted.to_multiset().count(item) == list.to_multiset().count(item));
    assert(sorted.contains(item) <==> list.contains(item));
    assert(list.contains(item) <==> texts.contains(item) || attached.contains(item)) by {
        if texts.contains(item) {
            let k = texts.index_of(item);
            assert(list[k] == item);
        }
        if attached.contains(item) {
            let k = attached.index_of(item);
            assert(list[texts.len() + k] == item);
        }
        if list.contains(item) {
            let k = list.index_of(item);
            if k < texts.len() {
                assert(texts[k] == item);
            } else {
                assert(attached[k - texts.len()] == item);
            }
        }
    }
    if sorted.contains(item) {
        let k = sorted.index_of(item);
        assert(entries[k].item == item);
    }
    assert forall|i: int, j: int| 0 <= i < j < entries.len() implies rank(
        (#[trigger] entries[i]).item.id,
    ) <= rank((#[trigger] entries[j]).item.id) by {
        assert(sorted[i].place() <= sorted[j].place());
    }
}

/// A text is shown together with the one before where both are of one author and the later one was
/// made within five minutes; attachments, and what follows them, stand alone, and so does whatever
/// comes first.
pub proof fn texts_of_one_author_are_grouped(state: CommunityView, entries: Seq<Entry>, i: int)
    requires
        lays_out(state, entries),
        0 <= i < entries.len(),
    ensures
        i == 0 ==> !entries[i].grouped,
        i > 0 ==> (entries[i].grouped <==> {
            let item = entries[i].item;
            let before = entries[i - 1].item;
            &&& item.is_text && before.is_text
            &&& state.messages[item.index as int].author_id
                == state.messages[before.index as int].author_id
            &&& of_be64(item.id@.take(8)) - of_be64(before.id@.take(8)) <= 300_000
        }),
{
    assert(entries[i].item == items(state)[i]);
    if i > 0 {
        assert(entries[i - 1].item == items(state)[i - 1]);
    }
}

/// The clock shows the hour and the minute of the day at which an item was made, whatever the day.
pub proof fn clocks_show_the_time_of_day(id: MessageId, day: nat, hour: nat, minute: nat, rest: nat)
    requires
        hour < 24,
        minute < 60,
        rest < 60_000,
        of_be64(id@.take(8)) == ((day * 24 + hour) * 60 + minute) * 60_000 + rest,
    ensures
        clock(id) == seq![
            hex_digit(hour as int / 10),
            hex_digit(hour as int % 10),
            ':',
            hex_digit(minute as int / 10),
            hex_digit(minute as int % 10),
        ],
{
    let millis = made_at(id) as int;
    let hours = (day * 24 + hour) as int;
    let minutes = hours * 60 + minute;
    lemma_fundamental_div_mod_converse(millis, 60_000, minutes, rest as int);
    lemma_fundamental_div_mod_converse(minutes, 60, hours, minute as int);
    lemma_fundamental_div_mod_converse(hours, 24, day as int, hour as int);
}

} // verus!
