//! Names made of several parts, in the order in which they are filed.

use vstd::prelude::*;

use crate::bytes::{be64, be64_injective, byte_order, joined_order, to_be64, ByteOrder};
use crate::community::MemberId;
use crate::model::{ChannelId, MessageId};
use crate::sorted::ByteKey;

verus! {

/// Names a text or an attachment: by its own name, and then by its author's.
#[derive(Clone, Copy, Debug, PartialEq, Eq)]
pub struct ContentName {
    pub author: MemberId,
    pub id: MessageId,
}

impl ContentName {
    /// The name of what `author` called `id`.
    pub fn new(author: MemberId, id: MessageId) -> (name: Self)
        ensures
            name.author == author,
            name.id == id,
    {
        ContentName { author, id }
    }
}

impl ByteKey for ContentName {
    open spec fn key_bytes(self) -> Seq<u8> {
        self.id@ + self.author@
    }

    open spec fn key_len() -> nat {
        64
    }

    proof fn key_facts(a: Self, b: Self) {
        assert(a.key_bytes().take(32) =~= a.id@);
        assert(b.key_bytes().take(32) =~= b.id@);
        assert(a.key_bytes().skip(32) =~= a.author@);
        assert(b.key_bytes().skip(32) =~= b.author@);
        MessageId::key_facts(a.id, b.id);
        MemberId::key_facts(a.author, b.author);
    }

    fn stands_before(&self, other: &Self) -> (before: bool) {
        proof {
            joined_order(self.id@, self.author@, other.id@, other.author@);
        }
        match byte_order(self.id.0.as_slice(), other.id.0.as_slice()) {
            ByteOrder::Before => true,
            ByteOrder::After => false,
            ByteOrder::Same => self.author.stands_before(&other.author),
        }
    }
}

/// Names a text: by its author's name, and then by its own.
#[derive(Clone, Copy, Debug, PartialEq, Eq)]
pub struct TextIdentity {
    pub author: MemberId,
    pub id: MessageId,
}

impl ByteKey for TextIdentity {
    open spec fn key_bytes(self) -> Seq<u8> {
        self.author@ + self.id@
    }

    open spec fn key_len() -> nat {
        64
    }

    proof fn key_facts(a: Self, b: Self) {
        assert(a.key_bytes().take(32) =~= a.author@);
        assert(b.key_bytes().take(32) =~= b.author@);
        assert(a.key_bytes().skip(32) =~= a.id@);
        assert(b.key_bytes().skip(32) =~= b.id@);
        MessageId::key_facts(a.id, b.id);
        MemberId::key_facts(a.author, b.author);
    }

    fn stands_before(&self, other: &Self) -> (before: bool) {
        proof {
            joined_order(self.author@, self.id@, other.author@, other.id@);
        }
        match byte_order(self.author.0.as_slice(), other.author.0.as_slice()) {
            ByteOrder::Before => true,
            ByteOrder::After => false,
            ByteOrder::Same => self.id.stands_before(&other.id),
        }
    }
}

/// Names an epoch: by its number, and then by the membership that it belongs to.
#[derive(Clone, Copy, Debug, PartialEq, Eq)]
pub struct EpochName {
    pub number: u64,
    pub head: [u8; 32],
}

impl ByteKey for EpochName {
    open spec fn key_bytes(self) -> Seq<u8> {
        be64(self.number) + self.head@
    }

    open spec fn key_len() -> nat {
        40
    }

    proof fn key_facts(a: Self, b: Self) {
        assert(a.key_bytes().take(8) =~= be64(a.number));
        assert(b.key_bytes().take(8) =~= be64(b.number));
        assert(a.key_bytes().skip(8) =~= a.head@);
        assert(b.key_bytes().skip(8) =~= b.head@);
        if a.key_bytes() == b.key_bytes() {
            be64_injective(a.number, b.number);
            assert(a.head =~= b.head);
        }
    }

    fn stands_before(&self, other: &Self) -> (before: bool) {
        proof {
            joined_order(be64(self.number), self.head@, be64(other.number), other.head@);
        }
        match byte_order(to_be64(self.number).as_slice(), to_be64(other.number).as_slice()) {
            ByteOrder::Before => true,
            ByteOrder::After => false,
            ByteOrder::Same => matches!(
                byte_order(self.head.as_slice(), other.head.as_slice()),
                ByteOrder::Before
            ),
        }
    }
}

/// Names an envelope: by the number of its epoch, its recipient, and the membership.
#[derive(Clone, Copy, Debug, PartialEq, Eq)]
pub struct EnvelopeName {
    pub epoch: u64,
    pub recipient: MemberId,
    pub head: [u8; 32],
}

impl ByteKey for EnvelopeName {
    open spec fn key_bytes(self) -> Seq<u8> {
        be64(self.epoch) + (self.recipient@ + self.head@)
    }

    open spec fn key_len() -> nat {
        72
    }

    proof fn key_facts(a: Self, b: Self) {
        assert(a.key_bytes().take(8) =~= be64(a.epoch));
        assert(b.key_bytes().take(8) =~= be64(b.epoch));
        assert(a.key_bytes().subrange(8, 40) =~= a.recipient@);
        assert(b.key_bytes().subrange(8, 40) =~= b.recipient@);
        assert(a.key_bytes().skip(40) =~= a.head@);
        assert(b.key_bytes().skip(40) =~= b.head@);
        if a.key_bytes() == b.key_bytes() {
            be64_injective(a.epoch, b.epoch);
            MemberId::key_facts(a.recipient, b.recipient);
            assert(a.head =~= b.head);
        }
    }

    fn stands_before(&self, other: &Self) -> (before: bool) {
        proof {
            joined_order(
                be64(self.epoch),
                self.recipient@ + self.head@,
                be64(other.epoch),
                other.recipient@ + other.head@,
            );
            joined_order(self.recipient@, self.head@, other.recipient@, other.head@);
        }
        match byte_order(to_be64(self.epoch).as_slice(), to_be64(other.epoch).as_slice()) {
            ByteOrder::Before => true,
            ByteOrder::After => false,
            ByteOrder::Same => match byte_order(
                self.recipient.0.as_slice(),
                other.recipient.0.as_slice(),
            ) {
                ByteOrder::Before => true,
                ByteOrder::After => false,
                ByteOrder::Same => matches!(
                    byte_order(self.head.as_slice(), other.head.as_slice()),
                    ByteOrder::Before
                ),
            },
        }
    }
}

/// Names a member in a channel.
#[derive(Clone, Copy, Debug, PartialEq, Eq)]
pub struct Seat {
    pub channel: ChannelId,
    pub member: MemberId,
}

impl ByteKey for Seat {
    open spec fn key_bytes(self) -> Seq<u8> {
        self.channel@ + self.member@
    }

    open spec fn key_len() -> nat {
        64
    }

    proof fn key_facts(a: Self, b: Self) {
        assert(a.key_bytes().take(32) =~= a.channel@);
        assert(b.key_bytes().take(32) =~= b.channel@);
        assert(a.key_bytes().skip(32) =~= a.member@);
        assert(b.key_bytes().skip(32) =~= b.member@);
        ChannelId::key_facts(a.channel, b.channel);
        MemberId::key_facts(a.member, b.member);
    }

    fn stands_before(&self, other: &Self) -> (before: bool) {
        proof {
            joined_order(self.channel@, self.member@, other.channel@, other.member@);
        }
        match byte_order(self.channel.0.as_slice(), other.channel.0.as_slice()) {
            ByteOrder::Before => true,
            ByteOrder::After => false,
            ByteOrder::Same => self.member.stands_before(&other.member),
        }
    }
}

} // verus!
