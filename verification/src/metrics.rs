//! Counters of what a node did.

use vstd::prelude::*;

use crate::community::Community;
use crate::crypto::ContentEpoch;
use crate::replica::{Replica, ReplicaModel};
use crate::snapshot::{is_latest, latest_content_epoch};

verus! {

/// A counter. It only goes up, and starts again at zero after the last number.
#[derive(Clone, Copy, Debug, PartialEq, Eq, Structural)]
pub struct Counter(pub u64);

impl Counter {
    /// The counter after one more count.
    pub open spec fn counted(self) -> Counter {
        Counter(
            if self.0 == u64::MAX {
                0
            } else {
                (self.0 + 1) as u64
            },
        )
    }

    /// Counts one.
    pub fn inc(&mut self)
        ensures
            *final(self) == old(self).counted(),
    {
        self.0 = self.0.wrapping_add(1);
    }

    /// The count.
    pub fn get(&self) -> (count: u64)
        ensures
            count == self.0,
    {
        self.0
    }
}

/// A counter after a number of counts.
pub open spec fn counted_times(counter: Counter, times: nat) -> Counter
    decreases times,
{
    if times == 0 {
        counter
    } else {
        counted_times(counter, (times - 1) as nat).counted()
    }
}

/// A new counter that counted some times has that count: no count is lost, and none counts twice. The
/// count is exact as far as it fits.
pub proof fn every_count_counts(times: nat)
    requires
        times <= u64::MAX,
    ensures
        counted_times(Counter(0), times) == Counter(times as u64),
    decreases times,
{
    if times > 0 {
        every_count_counts((times - 1) as nat);
    }
}

/// A counter only goes up, as long as its count fits.
pub proof fn counts_go_up(counter: Counter, times: nat)
    requires
        counter.0 + times <= u64::MAX,
    ensures
        counted_times(counter, times).0 == counter.0 + times,
    decreases times,
{
    if times > 0 {
        counts_go_up(counter, (times - 1) as nat);
    }
}

impl Default for Counter {
    fn default() -> (counter: Self)
        ensures
            counter == Counter(0),
    {
        Counter(0)
    }
}

/// The counters of a node.
#[derive(Clone, Copy, Debug, PartialEq, Eq, Structural)]
pub struct Metrics {
    pub messages_sent: Counter,
    pub messages_received: Counter,
    pub decrypt_failures: Counter,
    pub voice_frames_sent: Counter,
    pub voice_frames_received: Counter,
    pub voice_frame_failures: Counter,
}

impl Default for Metrics {
    fn default() -> (metrics: Self)
        ensures
            metrics == (Metrics {
                messages_sent: Counter(0),
                messages_received: Counter(0),
                decrypt_failures: Counter(0),
                voice_frames_sent: Counter(0),
                voice_frames_received: Counter(0),
                voice_frame_failures: Counter(0),
            }),
    {
        Metrics {
            messages_sent: Counter(0),
            messages_received: Counter(0),
            decrypt_failures: Counter(0),
            voice_frames_sent: Counter(0),
            voice_frames_received: Counter(0),
            voice_frame_failures: Counter(0),
        }
    }
}

impl Metrics {
    /// The counts at this moment. What is measured elsewhere is zero.
    pub fn snapshot(&self) -> (snapshot: MetricsSnapshot)
        ensures
            snapshot == (MetricsSnapshot {
                messages_sent: self.messages_sent.0,
                messages_received: self.messages_received.0,
                decrypt_failures: self.decrypt_failures.0,
                voice_frames_sent: self.voice_frames_sent.0,
                voice_frames_received: self.voice_frames_received.0,
                voice_frame_failures: self.voice_frame_failures.0,
                ..nothing_measured()
            }),
    {
        MetricsSnapshot {
            messages_sent: self.messages_sent.get(),
            messages_received: self.messages_received.get(),
            decrypt_failures: self.decrypt_failures.get(),
            voice_frames_sent: self.voice_frames_sent.get(),
            voice_frames_received: self.voice_frames_received.get(),
            voice_frame_failures: self.voice_frame_failures.get(),
            ..MetricsSnapshot::default()
        }
    }
}

/// The counts at one moment, with what was measured elsewhere.
#[derive(Clone, Copy, Debug, PartialEq, Eq, Structural)]
pub struct MetricsSnapshot {
    pub messages_sent: u64,
    pub messages_received: u64,
    pub decrypt_failures: u64,
    pub voice_frames_sent: u64,
    pub voice_frames_received: u64,
    pub voice_frame_failures: u64,
    pub db_bytes: u64,
    pub messages_total: u64,
    pub attachments_total: u64,
    pub channels_total: u64,
    pub members_total: u64,
    pub content_epoch: u64,
    pub membership_revision: u64,
    pub recv_datagrams: u64,
    pub send_relay: u64,
    pub recv_data_relay: u64,
    pub holepunch_attempts: u64,
    pub conns_opened: u64,
    pub conns_closed: u64,
}

/// A snapshot before anything was counted.
pub open spec fn nothing_measured() -> MetricsSnapshot {
    MetricsSnapshot {
        messages_sent: 0,
        messages_received: 0,
        decrypt_failures: 0,
        voice_frames_sent: 0,
        voice_frames_received: 0,
        voice_frame_failures: 0,
        db_bytes: 0,
        messages_total: 0,
        attachments_total: 0,
        channels_total: 0,
        members_total: 0,
        content_epoch: 0,
        membership_revision: 0,
        recv_datagrams: 0,
        send_relay: 0,
        recv_data_relay: 0,
        holepunch_attempts: 0,
        conns_opened: 0,
        conns_closed: 0,
    }
}

impl Default for MetricsSnapshot {
    fn default() -> (snapshot: Self)
        ensures
            snapshot == nothing_measured(),
    {
        MetricsSnapshot {
            messages_sent: 0,
            messages_received: 0,
            decrypt_failures: 0,
            voice_frames_sent: 0,
            voice_frames_received: 0,
            voice_frame_failures: 0,
            db_bytes: 0,
            messages_total: 0,
            attachments_total: 0,
            channels_total: 0,
            members_total: 0,
            content_epoch: 0,
            membership_revision: 0,
            recv_datagrams: 0,
            send_relay: 0,
            recv_data_relay: 0,
            holepunch_attempts: 0,
            conns_opened: 0,
            conns_closed: 0,
        }
    }
}

/// Whether a number is the number of the latest content key, or zero where there is none.
pub open spec fn is_latest_number(replica: ReplicaModel, number: u64) -> bool {
    ||| exists|n: crate::names::EpochName| #[trigger]
        is_latest(replica.content_keys, n) && n.number == number
    ||| number == 0 && forall|n: crate::names::EpochName|
        !#[trigger] replica.content_keys.dom().contains(n)
}

impl MetricsSnapshot {
    /// Fills in what the replica and the community hold.
    pub fn gauge(self, replica: &Replica, community: &Community) -> (snapshot: Self)
        ensures
            snapshot.messages_total == replica@.texts.dom().len(),
            snapshot.attachments_total == replica@.attachments.dom().len(),
            snapshot.channels_total == replica@.channels.dom().len(),
            snapshot.members_total == community.member_list().len(),
            is_latest_number(replica@, snapshot.content_epoch),
            snapshot.membership_revision == replica@.active_revision(),
            snapshot == (MetricsSnapshot {
                messages_total: snapshot.messages_total,
                attachments_total: snapshot.attachments_total,
                channels_total: snapshot.channels_total,
                members_total: snapshot.members_total,
                content_epoch: snapshot.content_epoch,
                membership_revision: snapshot.membership_revision,
                ..self
            }),
    {
        let latest: Option<ContentEpoch> = latest_content_epoch(replica);
        let content_epoch: u64 = match latest {
            Some(epoch) => {
                assert(is_latest(
                    replica@.content_keys,
                    crate::names::EpochName { number: epoch.number, head: epoch.head },
                ));
                epoch.number
            },
            None => 0,
        };
        let (membership_revision, _): (u64, [u8; 32]) = replica.active_membership_head();
        MetricsSnapshot {
            messages_total: replica.encrypted_messages().len() as u64,
            attachments_total: replica.encrypted_attachments().len() as u64,
            channels_total: replica.signed_channels().len() as u64,
            members_total: community.member_count() as u64,
            content_epoch,
            membership_revision,
            ..self
        }
    }
}

/// A counter counts one at a time.
pub proof fn counts_are_by_one(counter: Counter)
    requires
        counter.0 < u64::MAX,
    ensures
        counter.counted().0 == counter.0 + 1,
{
}

} // verus!
