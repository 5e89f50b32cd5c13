//! Connections between peers: how a node is reached, which of two connections survives, whom a
//! node dials and when, and who is sent what.

use vstd::prelude::*;

use crate::community::{Community, CommunityId, CommunityModel, MemberId};
use crate::sorted::{ascending, rank, rank_injective, ByteKey, SortedMap};

verus! {

/// How a node reaches its peers.
#[derive(Clone, Copy, Debug, PartialEq, Eq, Structural)]
pub enum Connectivity {
    Local,
    Wan,
    RelayOnly,
}

/// How a node is opened.
#[derive(Debug)]
pub struct NodeConfig {
    pub data_dir: String,
    pub community: Option<(CommunityId, MemberId)>,
    pub connectivity: Connectivity,
    pub require_existing_community: bool,
}

impl NodeConfig {
    /// A node of its own community in this directory, reached locally.
    pub fn new(data_dir: &str) -> (config: Self)
        ensures
            config.data_dir@ == data_dir@,
            config.community is None,
            config.connectivity is Local,
            !config.require_existing_community,
    {
        NodeConfig {
            data_dir: data_dir.to_owned(),
            community: None,
            connectivity: Connectivity::Local,
            require_existing_community: false,
        }
    }

    /// The node joins the community that `owner` founded before communities had names.
    pub fn community_owner(self, owner: MemberId) -> (config: Self)
        ensures
            config.data_dir == self.data_dir,
            config.community matches Some(pair) && pair.0@
                == crate::community::legacy_community(owner) && pair.1 == owner,
            config.connectivity == self.connectivity,
            config.require_existing_community == self.require_existing_community,
    {
        NodeConfig { community: Some((CommunityId::legacy(owner), owner)), ..self }
    }

    /// The node joins this community of this owner.
    pub fn community(self, id: CommunityId, owner: MemberId) -> (config: Self)
        ensures
            config == (NodeConfig { community: Some((id, owner)), ..self }),
    {
        NodeConfig { community: Some((id, owner)), ..self }
    }

    /// The node is reached over the internet.
    pub fn wan(self) -> (config: Self)
        ensures
            config == (NodeConfig { connectivity: Connectivity::Wan, ..self }),
    {
        NodeConfig { connectivity: Connectivity::Wan, ..self }
    }

    /// The node is reached through relays only.
    pub fn relay_only(self) -> (config: Self)
        ensures
            config == (NodeConfig { connectivity: Connectivity::RelayOnly, ..self }),
    {
        NodeConfig { connectivity: Connectivity::RelayOnly, ..self }
    }

    /// The node opens only where a community is stored.
    pub fn existing(self) -> (config: Self)
        ensures
            config == (NodeConfig { require_existing_community: true, ..self }),
    {
        NodeConfig { require_existing_community: true, ..self }
    }
}

/// How a path between two peers runs.
#[derive(Clone, Copy, Debug, PartialEq, Eq, Structural)]
pub enum ConnectionPathKind {
    Direct,
    Relay,
    Custom,
}

/// What kind of path an address belongs to.
pub fn path_kind(is_ip: bool, is_relay: bool) -> (kind: ConnectionPathKind)
    ensures
        kind == (if is_ip {
            ConnectionPathKind::Direct
        } else if is_relay {
            ConnectionPathKind::Relay
        } else {
            ConnectionPathKind::Custom
        }),
{
    if is_ip {
        ConnectionPathKind::Direct
    } else if is_relay {
        ConnectionPathKind::Relay
    } else {
        ConnectionPathKind::Custom
    }
}

/// A path to a peer: its kind, whether it is in use, and how long a round trip takes, in
/// nanoseconds.
#[derive(Clone, Copy, Debug, PartialEq, Eq, Structural)]
pub struct ConnectionPathDiagnostic {
    pub kind: ConnectionPathKind,
    pub selected: bool,
    pub rtt: u64,
}

impl ConnectionPathDiagnostic {
    /// The kind of the path.
    pub fn kind(&self) -> (kind: ConnectionPathKind)
        ensures
            kind == self.kind,
    {
        self.kind
    }

    /// Whether the path is in use.
    pub fn is_selected(&self) -> (selected: bool)
        ensures
            selected == self.selected,
    {
        self.selected
    }

    /// How long a round trip takes, in nanoseconds.
    pub fn rtt(&self) -> (rtt: u64)
        ensures
            rtt == self.rtt,
    {
        self.rtt
    }

    /// How long a round trip takes, in whole milliseconds.
    pub open spec fn rtt_ms(self) -> u64 {
        self.rtt / 1_000_000
    }

    /// How long a round trip takes, in whole milliseconds.
    pub fn rtt_millis(&self) -> (millis: u64)
        ensures
            millis == self.rtt_ms(),
    {
        self.rtt / 1_000_000
    }
}

/// A connected peer and the paths to it.
#[derive(Debug, PartialEq, Eq)]
pub struct PeerDiagnostic {
    pub member: MemberId,
    pub paths: Vec<ConnectionPathDiagnostic>,
}

impl PeerDiagnostic {
    /// The peer.
    pub fn member(&self) -> (member: MemberId)
        ensures
            member == self.member,
    {
        self.member
    }

    /// The paths to the peer.
    pub fn paths(&self) -> (paths: &Vec<ConnectionPathDiagnostic>)
        ensures
            *paths == self.paths,
    {
        &self.paths
    }
}

/// What a diagnostic says.
pub struct DiagnosticModel {
    pub member: MemberId,
    pub paths: Seq<ConnectionPathDiagnostic>,
}

impl View for PeerDiagnostic {
    type V = DiagnosticModel;

    open spec fn view(&self) -> DiagnosticModel {
        DiagnosticModel { member: self.member, paths: self.paths@ }
    }
}

impl Clone for PeerDiagnostic {
    fn clone(&self) -> (copy: Self)
        ensures
            copy@ == self@,
    {
        let mut paths: Vec<ConnectionPathDiagnostic> = Vec::new();
        let mut i: usize = 0;
        while i < self.paths.len()
            invariant
                i <= self.paths@.len(),
                paths@ == self.paths@.take(i as int),
            decreases self.paths@.len() - i,
        {
            paths.push(self.paths[i]);
            i += 1;
            assert(paths@ =~= self.paths@.take(i as int));
        }
        assert(paths@ =~= self.paths@);
        PeerDiagnostic { member: self.member, paths }
    }
}

/// Which side opened a connection.
#[derive(Clone, Copy, Debug, PartialEq, Eq, Structural)]
pub enum ConnectionOrigin {
    Incoming,
    Outgoing,
}

/// The origin of a connection as the other side sees it.
pub open spec fn seen_from_there(origin: ConnectionOrigin) -> ConnectionOrigin {
    match origin {
        ConnectionOrigin::Incoming => ConnectionOrigin::Outgoing,
        ConnectionOrigin::Outgoing => ConnectionOrigin::Incoming,
    }
}

/// Whether a new connection takes the place of one that exists: it does where it runs in the other
/// direction and the peer with the lower name opened it.
pub open spec fn replaces(
    local: MemberId,
    remote: MemberId,
    existing: ConnectionOrigin,
    new: ConnectionOrigin,
) -> bool {
    &&& existing != new
    &&& new == (if rank(local) < rank(remote) {
        ConnectionOrigin::Outgoing
    } else {
        ConnectionOrigin::Incoming
    })
}

/// Whether a new connection takes the place of one that exists.
pub fn replace_connection(
    local: MemberId,
    remote: MemberId,
    existing: ConnectionOrigin,
    new: ConnectionOrigin,
) -> (replace: bool)
    ensures
        replace == replaces(local, remote, existing, new),
{
    let owned: ConnectionOrigin = if local.stands_before(&remote) {
        ConnectionOrigin::Outgoing
    } else {
        ConnectionOrigin::Incoming
    };
    existing != new && new == owned
}

/// Two peers that see the same pair of connections keep the same one.
pub proof fn both_ends_keep_the_same_connection(
    local: MemberId,
    remote: MemberId,
    existing: ConnectionOrigin,
    new: ConnectionOrigin,
)
    requires
        local != remote,
    ensures
        replaces(local, remote, existing, new) == replaces(
            remote,
            local,
            seen_from_there(existing),
            seen_from_there(new),
        ),
{
    if rank(local) == rank(remote) {
        rank_injective(local, remote);
    }
}

/// Whichever of two connections in opposite directions comes first, the same one survives.
pub proof fn arrival_order_does_not_matter(
    local: MemberId,
    remote: MemberId,
    first: ConnectionOrigin,
    second: ConnectionOrigin,
)
    requires
        first != second,
    ensures
        replaces(local, remote, first, second) != replaces(local, remote, second, first),
{
}

/// What becomes of a new connection.
#[derive(Clone, Copy, Debug, PartialEq, Eq, Structural)]
pub enum Tracking {
    /// It is closed: the peer is connected already.
    Refuse,
    /// It is kept.
    Keep,
    /// It is kept, and the connection at this place is closed.
    Replace(usize),
}

/// What becomes of a new connection to `member`, where `open` lists the connections that are open.
pub open spec fn tracking_of(
    local: MemberId,
    open: Seq<(MemberId, ConnectionOrigin)>,
    member: MemberId,
    origin: ConnectionOrigin,
    decision: Tracking,
) -> bool {
    match decision {
        Tracking::Keep => forall|i: int| 0 <= i < open.len() ==> (#[trigger] open[i]).0 != member,
        Tracking::Refuse => exists|i: int|
            0 <= i < open.len() && (#[trigger] open[i]).0 == member && (forall|j: int|
                0 <= j < i ==> (#[trigger] open[j]).0 != member) && !replaces(
                local,
                member,
                open[i].1,
                origin,
            ),
        Tracking::Replace(i) => i < open.len() && open[i as int].0 == member && (forall|j: int|
            0 <= j < i ==> (#[trigger] open[j]).0 != member) && replaces(
            local,
            member,
            open[i as int].1,
            origin,
        ),
    }
}

/// Decides what becomes of a new connection to `member`.
pub fn track(
    local: MemberId,
    open: &Vec<(MemberId, ConnectionOrigin)>,
    member: MemberId,
    origin: ConnectionOrigin,
) -> (decision: Tracking)
    ensures
        tracking_of(local, open@, member, origin, decision),
{
    let mut i: usize = 0;
    while i < open.len()
        invariant
            i <= open@.len(),
            forall|j: int| 0 <= j < i ==> (#[trigger] open@[j]).0 != member,
        decreases open@.len() - i,
    {
        if open[i].0 == member {
            return if replace_connection(local, member, open[i].1, origin) {
                Tracking::Replace(i)
            } else {
                assert(open@[i as int].0 == member);
                Tracking::Refuse
            };
        }
        i += 1;
    }
    Tracking::Keep
}

/// Whether this node is to dial `member`: both are admitted, the other has the higher name and is
/// not connected.
pub open spec fn dials(
    community: CommunityModel,
    local: MemberId,
    connected: Seq<MemberId>,
    member: MemberId,
) -> bool {
    &&& community.members.dom().contains(local)
    &&& community.members.dom().contains(member)
    &&& rank(local) < rank(member)
    &&& !connected.contains(member)
}

pub(crate) fn is_listed(members: &Vec<MemberId>, member: MemberId) -> (listed: bool)
    ensures
        listed == members@.contains(member),
{
    let mut i: usize = 0;
    while i < members.len()
        invariant
            i <= members@.len(),
            forall|j: int| 0 <= j < i ==> members@[j] != member,
        decreases members@.len() - i,
    {
        if members[i] == member {
            assert(members@[i as int] == member);
            return true;
        }
        i += 1;
    }
    false
}

/// The members that this node is to dial, in the order of their names.
pub fn reconnect_candidates(community: &Community, local: MemberId, connected: &Vec<MemberId>) -> (
candidates: Vec<MemberId>)
    ensures
        ascending(candidates@),
        forall|m: MemberId|
            candidates@.contains(m) <==> #[trigger] dials(community@, local, connected@, m),
{
    let mut candidates: Vec<MemberId> = Vec::new();
    if !community.contains(local) {
        return candidates;
    }
    let members: Vec<MemberId> = community.members();
    let mut i: usize = 0;
    while i < members.len()
        invariant
            i <= members@.len(),
            ascending(members@),
            forall|m: MemberId|
                members@.contains(m) <==> #[trigger] community@.members.dom().contains(m),
            community@.members.dom().contains(local),
            ascending(candidates@),
            forall|j: int, k: int|
                0 <= j < candidates@.len() && i <= k < members@.len() ==> rank(candidates@[j])
                    < rank(members@[k]),
            forall|j: int|
                0 <= j < candidates@.len() ==> dials(
                    community@,
                    local,
                    connected@,
                    #[trigger] candidates@[j],
                ),
            forall|k: int|
                0 <= k < i && dials(community@, local, connected@, #[trigger] members@[k])
                    ==> candidates@.contains(members@[k]),
        decreases members@.len() - i,
    {
        let member: MemberId = members[i];
        let ghost before = candidates@;
        if local.stands_before(&member) && !is_listed(connected, member) {
            assert(members@.contains(member));
            candidates.push(member);
            proof {
                assert(candidates@.last() == member);
                assert forall|k: int|
                    0 <= k < i + 1 && dials(community@, local, connected@, #[trigger] members@[k])
                        implies candidates@.contains(members@[k]) by {
                    if k < i {
                        let j = before.index_of(members@[k]);
                        assert(candidates@[j] == members@[k]);
                    }
                }
            }
        }
        i += 1;
    }
    proof {
        assert forall|m: MemberId|
            candidates@.contains(m) <==> #[trigger] dials(community@, local, connected@, m) by {
            if dials(community@, local, connected@, m) {
                assert(members@.contains(m));
                let k = members@.index_of(m);
                assert(members@[k] == m);
            }
        }
    }
    candidates
}

/// Of two admitted peers that are not connected, exactly one dials the other.
pub proof fn one_side_dials(
    community: CommunityModel,
    a: MemberId,
    b: MemberId,
    connected_to_a: Seq<MemberId>,
    connected_to_b: Seq<MemberId>,
)
    requires
        a != b,
        community.members.dom().contains(a),
        community.members.dom().contains(b),
        !connected_to_a.contains(b),
        !connected_to_b.contains(a),
    ensures
        dials(community, a, connected_to_a, b) != dials(community, b, connected_to_b, a),
{
    if rank(a) == rank(b) {
        rank_injective(a, b);
    }
}

/// How many seconds to wait before the next attempt: twice as many after each one, and never more
/// than 30.
pub open spec fn delay_after(attempt: u32) -> int {
    if attempt == 0 {
        1
    } else if attempt == 1 {
        2
    } else if attempt == 2 {
        4
    } else if attempt == 3 {
        8
    } else if attempt == 4 {
        16
    } else {
        30
    }
}

/// How many seconds to wait before the next attempt.
pub fn reconnect_delay(attempt: u32) -> (seconds: u64)
    ensures
        seconds == delay_after(attempt),
        1 <= seconds <= 30,
{
    let exponent: u32 = if attempt < 5 {
        attempt
    } else {
        5
    };
    let doubled: u64 = 1u64 << exponent;
    assert(1u64 << 0u32 == 1 && 1u64 << 1u32 == 2 && 1u64 << 2u32 == 4 && 1u64 << 3u32 == 8 && 1u64
        << 4u32 == 16 && 1u64 << 5u32 == 32) by (bit_vector);
    if doubled < 30 {
        doubled
    } else {
        30
    }
}

/// Waiting never gets shorter from one attempt to the next.
pub proof fn delays_never_shrink(earlier: u32, later: u32)
    requires
        earlier <= later,
    ensures
        delay_after(earlier) <= delay_after(later),
{
}

/// When each peer is dialled next, and how often it was dialled in vain. Times are in
/// nanoseconds.
#[derive(Debug)]
pub struct Retries {
    planned: SortedMap<MemberId, (u32, u64)>,
}

impl View for Retries {
    type V = Map<MemberId, (u32, u64)>;

    closed spec fn view(&self) -> Map<MemberId, (u32, u64)> {
        self.planned@
    }
}

/// The time of the next attempt.
pub open spec fn next_attempt(now: u64, attempt: u32) -> u64 {
    let at = now + delay_after(attempt) * 1_000_000_000;
    if at > u64::MAX {
        u64::MAX
    } else {
        at as u64
    }
}

/// Whether a candidate is to be dialled at a time: it is where nothing is planned for it, or the plan's
/// time has come.
pub open spec fn is_due(planned: Map<MemberId, (u32, u64)>, member: MemberId, now: u64) -> bool {
    !planned.dom().contains(member) || planned[member].1 <= now
}

/// What is planned once a candidate was looked at; one that is new is planned for now.
pub open spec fn planned_for(
    planned: Map<MemberId, (u32, u64)>,
    member: MemberId,
    now: u64,
) -> Map<MemberId, (u32, u64)> {
    if planned.dom().contains(member) {
        planned
    } else {
        planned.insert(member, (0u32, now))
    }
}

/// What stays planned where these are the candidates.
pub open spec fn plans_kept(
    planned: Map<MemberId, (u32, u64)>,
    candidates: Seq<MemberId>,
) -> Map<MemberId, (u32, u64)> {
    planned.restrict(candidates.to_set())
}

/// What stays planned once a peer is connected.
pub open spec fn plans_dropped(
    planned: Map<MemberId, (u32, u64)>,
    member: MemberId,
) -> Map<MemberId, (u32, u64)> {
    planned.remove(member)
}

/// What is planned after an attempt in vain.
pub open spec fn planned_after_failure(
    planned: Map<MemberId, (u32, u64)>,
    member: MemberId,
    now: u64,
) -> Map<MemberId, (u32, u64)> {
    if planned.dom().contains(member) {
        let attempt = planned[member].0;
        planned.insert(
            member,
            (
                if attempt == u32::MAX {
                    u32::MAX
                } else {
                    (attempt + 1) as u32
                },
                next_attempt(now, attempt),
            ),
        )
    } else {
        planned
    }
}

impl Retries {
    /// Nothing planned.
    pub fn new() -> (retries: Self)
        ensures
            retries@ == Map::<MemberId, (u32, u64)>::empty(),
    {
        Retries { planned: SortedMap::new() }
    }

    /// Forgets every peer that is not among the candidates.
    pub fn keep(&mut self, candidates: &Vec<MemberId>)
        ensures
            final(self)@ == plans_kept(old(self)@, candidates@),
    {
        let keys: Vec<MemberId> = self.planned.to_keys();
        let ghost before = self@;
        let mut i: usize = 0;
        assert(keys@.skip(0) =~= keys@);
        while i < keys.len()
            invariant
                i <= keys@.len(),
                ascending(keys@),
                forall|m: MemberId| keys@.contains(m) <==> #[trigger] before.dom().contains(m),
                forall|m: MemberId| #[trigger]
                    self@.dom().contains(m) <==> before.dom().contains(m) && (candidates@.contains(
                        m,
                    ) || keys@.skip(i as int).contains(m)),
                forall|m: MemberId| #[trigger]
                    self@.dom().contains(m) ==> self@[m] == before[m],
            decreases keys@.len() - i,
        {
            let key: MemberId = keys[i];
            let ghost rest = keys@.skip(i as int);
            let ghost less = keys@.skip(i + 1);
            proof {
                assert(rest[0] == key);
                assert(rest =~= seq![key] + less);
                assert forall|m: MemberId| rest.contains(m) <==> m == key || less.contains(m) by {
                    if rest.contains(m) && m != key {
                        let j = rest.index_of(m);
                        assert(less[j - 1] == m);
                    }
                    if less.contains(m) {
                        let j = less.index_of(m);
                        assert(rest[j + 1] == m);
                    }
                }
            }
            if !is_listed(candidates, key) {
                let ghost previous = self@;
                self.planned.remove(key);
                proof {
                    assert(self@ == previous.remove(key));
                    assert(forall|m: MemberId| #[trigger]
                        self@.dom().contains(m) ==> previous.dom().contains(m) && self@[m]
                            == previous[m]);
                    assert forall|m: MemberId| #[trigger]
                        self@.dom().contains(m) <==> before.dom().contains(m) && (
                        candidates@.contains(m) || less.contains(m)) by {
                        if m == key && less.contains(m) {
                            let j = less.index_of(m);
                            assert(keys@[i as int] == key && keys@[i + 1 + j] == key);
                            assert(rank(keys@[i as int]) < rank(keys@[i + 1 + j]));
                        }
                    }
                }
            }
            i += 1;
        }
        proof {
            assert(keys@.skip(i as int).len() == 0);
            assert(self@ =~= before.restrict(candidates@.to_set()));
        }
    }

    /// Whether a candidate is to be dialled now; one that is new is planned for now.
    pub fn due(&mut self, member: MemberId, now: u64) -> (due: bool)
        ensures
            due == is_due(old(self)@, member, now),
            final(self)@ == planned_for(old(self)@, member, now),
    {
        match self.planned.get(member) {
            Some(entry) => entry.1 <= now,
            None => {
                self.planned.insert(member, (0, now));
                true
            },
        }
    }

    /// Plans the next attempt after one in vain.
    pub fn failed(&mut self, member: MemberId, now: u64)
        ensures
            final(self)@ == planned_after_failure(old(self)@, member, now),
    {
        let attempt: u32 = match self.planned.get(member) {
            Some(entry) => entry.0,
            None => {
                return ;
            },
        };
        let wait: u64 = reconnect_delay(attempt) * 1_000_000_000;
        let at: u64 = if now > u64::MAX - wait {
            u64::MAX
        } else {
            now + wait
        };
        let count: u32 = if attempt == u32::MAX {
            u32::MAX
        } else {
            attempt + 1
        };
        self.planned.insert(member, (count, at));
    }

    /// Forgets a peer that is connected.
    pub fn connected(&mut self, member: MemberId)
        ensures
            final(self)@ == plans_dropped(old(self)@, member),
    {
        self.planned.remove(member);
    }
}

/// The first wait is one second, every next one is twice as long, and none is longer than half a minute.
pub proof fn delays_double(attempt: u32)
    requires
        attempt < u32::MAX,
    ensures
        delay_after(0) == 1,
        2 * delay_after(attempt) <= 30 ==> delay_after((attempt + 1) as u32) == 2 * delay_after(
            attempt,
        ),
        2 * delay_after(attempt) > 30 ==> delay_after((attempt + 1) as u32) == 30,
{
}

/// Whoever was dialled in vain is dialled again, and not at once: after the first failure a whole second
/// passes, and after any failure no more than thirty. What is planned for everybody else stays.
pub proof fn failures_are_tried_again(
    planned: Map<MemberId, (u32, u64)>,
    member: MemberId,
    now: u64,
    later: u64,
    other: MemberId,
)
    requires
        planned.dom().contains(member),
        now + 30_000_000_000 <= u64::MAX,
        other != member,
    ensures
        ({
            let after = planned_after_failure(planned, member, now);
            &&& later < now + 1_000_000_000 ==> !is_due(after, member, later)
            &&& planned[member].0 == 0 && later >= now + 1_000_000_000 ==> is_due(
                after,
                member,
                later,
            )
            &&& later >= now + 30_000_000_000 ==> is_due(after, member, later)
            &&& planned[member].0 < u32::MAX ==> after[member].0 == planned[member].0 + 1
            &&& is_due(after, other, later) == is_due(planned, other, later)
            &&& after.dom().contains(other) <==> planned.dom().contains(other)
            &&& planned.dom().contains(other) ==> after[other] == planned[other]
        }),
{
}

/// Whoever is new is dialled at once, whoever was looked at keeps its plan, and looking plans nothing for
/// anybody else.
pub proof fn newcomers_are_dialled_at_once(
    planned: Map<MemberId, (u32, u64)>,
    member: MemberId,
    now: u64,
    other: MemberId,
)
    requires
        other != member,
    ensures
        !planned.dom().contains(member) ==> is_due(planned, member, now) && is_due(
            planned_for(planned, member, now),
            member,
            now,
        ) && planned_for(planned, member, now)[member].0 == 0,
        planned.dom().contains(member) ==> planned_for(planned, member, now) == planned,
        planned_for(planned, member, now).dom().contains(member),
        planned_for(planned, member, now).dom().contains(other) <==> planned.dom().contains(other),
        planned.dom().contains(other) ==> planned_for(planned, member, now)[other]
            == planned[other],
{
}

/// A peer that was connected, or that is no candidate any more, is dialled at once when it is a candidate
/// again, as if it had never been dialled; the plans for the candidates stay.
pub proof fn plans_end_with_their_reason(
    planned: Map<MemberId, (u32, u64)>,
    candidates: Seq<MemberId>,
    member: MemberId,
    other: MemberId,
    now: u64,
)
    requires
        other != member,
    ensures
        is_due(plans_dropped(planned, member), member, now),
        !plans_dropped(planned, member).dom().contains(member),
        plans_dropped(planned, member).dom().contains(other) <==> planned.dom().contains(other),
        planned.dom().contains(other) ==> plans_dropped(planned, member)[other] == planned[other],
        !candidates.contains(member) ==> is_due(plans_kept(planned, candidates), member, now)
            && !plans_kept(planned, candidates).dom().contains(member),
        candidates.contains(member) ==> (plans_kept(planned, candidates).dom().contains(member)
            <==> planned.dom().contains(member)),
        candidates.contains(member) && planned.dom().contains(member) ==> plans_kept(
            planned,
            candidates,
        )[member] == planned[member],
{
}

/// The connections that are open once a new one was decided on.
pub open spec fn open_after(
    open: Seq<(MemberId, ConnectionOrigin)>,
    member: MemberId,
    origin: ConnectionOrigin,
    decision: Tracking,
) -> Seq<(MemberId, ConnectionOrigin)> {
    match decision {
        Tracking::Refuse => open,
        Tracking::Keep => open.push((member, origin)),
        Tracking::Replace(i) => open.remove(i as int).push((member, origin)),
    }
}

/// Whatever connections come, a peer has one at a time: where no peer has two, none has two after another
/// one came, the peer that it came from has one, and every other peer keeps its own.
pub proof fn peers_have_one_connection(
    local: MemberId,
    open: Seq<(MemberId, ConnectionOrigin)>,
    member: MemberId,
    origin: ConnectionOrigin,
    decision: Tracking,
    other: (MemberId, ConnectionOrigin),
)
    requires
        forall|i: int, j: int|
            0 <= i < j < open.len() ==> (#[trigger] open[i]).0 != (#[trigger] open[j]).0,
        tracking_of(local, open, member, origin, decision),
        other.0 != member,
    ensures
        ({
            let after = open_after(open, member, origin, decision);
            &&& forall|i: int, j: int|
                0 <= i < j < after.len() ==> (#[trigger] after[i]).0 != (#[trigger] after[j]).0
            &&& exists|i: int| 0 <= i < after.len() && (#[trigger] after[i]).0 == member
            &&& after.contains(other) <==> open.contains(other)
        }),
{
    let after = open_after(open, member, origin, decision);
    match decision {
        Tracking::Refuse => {
            let i = choose|i: int|
                0 <= i < open.len() && (#[trigger] open[i]).0 == member && (forall|j: int|
                    0 <= j < i ==> (#[trigger] open[j]).0 != member) && !replaces(
                    local,
                    member,
                    open[i].1,
                    origin,
                );
            assert(after[i].0 == member);
        },
        Tracking::Keep => {
            assert(after[open.len() as int] == (member, origin));
            if open.contains(other) {
                let k = open.index_of(other);
                assert(after[k] == other);
            }
            if after.contains(other) {
                let k = after.index_of(other);
                assert(open[k] == other);
            }
        },
        Tracking::Replace(at) => {
            assert(after[open.len() - 1] == (member, origin));
            assert forall|i: int| 0 <= i < open.len() - 1 implies (#[trigger] after[i]) == open[if i
                < at {
                i
            } else {
                i + 1
            }] by {}
            assert forall|i: int, j: int| 0 <= i < j < after.len() implies (
            #[trigger] after[i]).0 != (#[trigger] after[j]).0 by {
                let a = if i < at { i } else { i + 1 };
                if j < open.len() - 1 {
                    let b = if j < at { j } else { j + 1 };
                    assert(open[a].0 != open[b].0);
                } else if a < at {
                    assert(open[a].0 != open[at as int].0);
                } else {
                    assert(open[at as int].0 != open[a].0);
                }
            }
            if open.contains(other) {
                let k = open.index_of(other);
                let i = if k < at { k } else { k - 1 };
                assert(after[i] == other);
            }
            if after.contains(other) {
                let k = after.index_of(other);
                let a = if k < at { k } else { k + 1 };
                assert(open[a] == other);
            }
        },
    }
}

/// Of two connections in opposite directions the one survives that the peer with the lower name opened,
/// the same that dials the other.
pub proof fn the_lower_name_opens_what_stays(
    community: CommunityModel,
    local: MemberId,
    remote: MemberId,
    connected: Seq<MemberId>,
)
    requires
        community.members.dom().contains(local),
        community.members.dom().contains(remote),
        !connected.contains(remote),
        local != remote,
    ensures
        dials(community, local, connected, remote) <==> rank(local) < rank(remote),
        replaces(local, remote, ConnectionOrigin::Incoming, ConnectionOrigin::Outgoing) == dials(
            community,
            local,
            connected,
            remote,
        ),
        replaces(local, remote, ConnectionOrigin::Outgoing, ConnectionOrigin::Incoming) == !dials(
            community,
            local,
            connected,
            remote,
        ),
        !replaces(local, remote, ConnectionOrigin::Outgoing, ConnectionOrigin::Outgoing),
        !replaces(local, remote, ConnectionOrigin::Incoming, ConnectionOrigin::Incoming),
{
    if rank(local) == rank(remote) {
        rank_injective(local, remote);
    }
}

/// Nobody dials a peer that is connected or not admitted, nor itself, nor while it is not admitted.
pub proof fn nobody_dials_in_vain(
    community: CommunityModel,
    local: MemberId,
    connected: Seq<MemberId>,
    member: MemberId,
)
    requires
        dials(community, local, connected, member),
    ensures
        community.members.dom().contains(local),
        community.members.dom().contains(member),
        !connected.contains(member),
        member != local,
{
}

/// What is done with an operation for one peer.
#[derive(Clone, Copy, Debug, PartialEq, Eq, Structural)]
pub enum Delivery {
    /// It is not sent.
    Skip,
    /// It is sent.
    Send,
    /// It is sent, and the connection is closed.
    SendAndClose,
}

/// What is done with an operation for `peer`: members get everything, and a member that is being
/// removed gets the operation that removes it, as the last thing.
pub open spec fn delivery_of(
    community: CommunityModel,
    removed: Option<MemberId>,
    subject: Option<MemberId>,
    peer: MemberId,
) -> Delivery {
    if removed == Some(peer) && subject == Some(peer) {
        Delivery::SendAndClose
    } else if community.members.dom().contains(peer) {
        Delivery::Send
    } else {
        Delivery::Skip
    }
}

fn is_same(a: Option<MemberId>, b: MemberId) -> (same: bool)
    ensures
        same == (a == Some(b)),
{
    match a {
        Some(a) => a == b,
        None => false,
    }
}

/// What is done with an operation for `peer`.
pub fn delivery(
    community: &Community,
    removed: Option<MemberId>,
    subject: Option<MemberId>,
    peer: MemberId,
) -> (delivery: Delivery)
    ensures
        delivery == delivery_of(community@, removed, subject, peer),
{
    if is_same(removed, peer) && is_same(subject, peer) {
        Delivery::SendAndClose
    } else if community.contains(peer) {
        Delivery::Send
    } else {
        Delivery::Skip
    }
}

/// Outsiders get nothing but the operation that removes them.
pub proof fn outsiders_get_only_their_removal(
    community: CommunityModel,
    removed: Option<MemberId>,
    subject: Option<MemberId>,
    peer: MemberId,
)
    requires
        !community.members.dom().contains(peer),
        delivery_of(community, removed, subject, peer) != Delivery::Skip,
    ensures
        removed == Some(peer),
        subject == Some(peer),
{
}

/// Every admitted peer is sent every operation, whatever the operation is about and whomever it removes;
/// only the member that an operation removes is sent it as the last thing.
pub proof fn members_get_everything(
    community: CommunityModel,
    removed: Option<MemberId>,
    subject: Option<MemberId>,
    peer: MemberId,
)
    requires
        community.members.dom().contains(peer),
    ensures
        !(removed == Some(peer) && subject == Some(peer)) ==> delivery_of(
            community,
            removed,
            subject,
            peer,
        ) == Delivery::Send,
        delivery_of(community, removed, subject, peer) != Delivery::Skip,
{
}

/// Whoever is removed is sent its removal, though it is admitted no more, and its connection is closed
/// then; nobody else's is, and no other outsider is sent anything.
pub proof fn the_removed_learn_of_it(
    community: CommunityModel,
    removed: Option<MemberId>,
    subject: Option<MemberId>,
    peer: MemberId,
)
    ensures
        removed == Some(peer) && subject == Some(peer) <==> delivery_of(
            community,
            removed,
            subject,
            peer,
        ) == Delivery::SendAndClose,
        !community.members.dom().contains(peer) && !(removed == Some(peer) && subject == Some(
            peer,
        )) ==> delivery_of(community, removed, subject, peer) == Delivery::Skip,
{
}

/// The order in which peers are served: those that the operation is about, then the others, each
/// in the order in which they were connected.
pub open spec fn served_order(peers: Seq<MemberId>, subject: Option<MemberId>) -> Seq<int> {
    places(peers, subject, true) + places(peers, subject, false)
}

/// The places of the peers that are, or are not, the one that an operation is about.
pub open spec fn places(peers: Seq<MemberId>, subject: Option<MemberId>, about: bool) -> Seq<int>
    decreases peers.len(),
{
    if peers.len() == 0 {
        Seq::empty()
    } else {
        let before = places(peers.drop_last(), subject, about);
        if (subject == Some(peers.last())) == about {
            before.push(peers.len() - 1)
        } else {
            before
        }
    }
}

proof fn places_are(peers: Seq<MemberId>, subject: Option<MemberId>, about: bool)
    ensures
        forall|i: int|
            #![trigger peers[i]]
            places(peers, subject, about).contains(i) <==> 0 <= i < peers.len() && (subject == Some(
                peers[i],
            )) == about,
        forall|a: int, b: int|
            0 <= a < b < places(peers, subject, about).len() ==> places(peers, subject, about)[a]
                < places(peers, subject, about)[b],
        forall|a: int|
            0 <= a < places(peers, subject, about).len() ==> 0 <= #[trigger] places(
                peers,
                subject,
                about,
            )[a] < peers.len(),
    decreases peers.len(),
{
    let all = places(peers, subject, about);
    if peers.len() > 0 {
        let shorter = peers.drop_last();
        let before = places(shorter, subject, about);
        places_are(shorter, subject, about);
        let last = peers.len() - 1;
        assert forall|i: int|
            #![trigger peers[i]]
            all.contains(i) <==> 0 <= i < peers.len() && (subject == Some(peers[i])) == about by {
            if 0 <= i < last {
                assert(shorter[i] == peers[i]);
            }
            assert(before.contains(i) <==> 0 <= i < shorter.len() && (subject == Some(shorter[i]))
                == about);
            if (subject == Some(peers.last())) == about {
                assert(all == before.push(last));
                assert(all[before.len() as int] == last);
                if before.contains(i) {
                    let k = before.index_of(i);
                    assert(all[k] == i);
                }
                if all.contains(i) && i != last {
                    let k = all.index_of(i);
                    assert(before[k] == i);
                }
            }
        }
    }
}

/// Every connected peer is served, each once, and those that an operation is about before the others: a
/// member learns of its own admission first. Otherwise the peers are served in the order in which they
/// were connected.
pub proof fn everybody_is_served_once(peers: Seq<MemberId>, subject: Option<MemberId>)
    ensures
        forall|i: int| #[trigger]
            served_order(peers, subject).contains(i) <==> 0 <= i < peers.len(),
        served_order(peers, subject).no_duplicates(),
        forall|a: int, b: int|
            0 <= a < b < served_order(peers, subject).len() && subject == Some(
                peers[#[trigger] served_order(peers, subject)[b]],
            ) ==> subject == Some(peers[#[trigger] served_order(peers, subject)[a]]),
        forall|a: int, b: int|
            0 <= a < b < served_order(peers, subject).len() && (subject == Some(
                peers[#[trigger] served_order(peers, subject)[a]],
            )) == (subject == Some(peers[#[trigger] served_order(peers, subject)[b]]))
                ==> served_order(peers, subject)[a] < served_order(peers, subject)[b],
{
    let first = places(peers, subject, true);
    let second = places(peers, subject, false);
    let all = served_order(peers, subject);
    places_are(peers, subject, true);
    places_are(peers, subject, false);
    assert forall|a: int| 0 <= a < all.len() implies 0 <= #[trigger] all[a] < peers.len() && (
    subject == Some(peers[all[a]])) == (a < first.len()) by {
        if a < first.len() {
            assert(first.contains(first[a]));
            assert(subject == Some(peers[first[a]]));
        } else {
            let k = a - first.len();
            assert(second.contains(second[k]));
            assert(subject != Some(peers[second[k]]));
        }
    }
    assert forall|i: int| #[trigger] all.contains(i) <==> 0 <= i < peers.len() by {
        if 0 <= i < peers.len() {
            if subject == Some(peers[i]) {
                assert(first.contains(i));
                let k = first.index_of(i);
                assert(all[k] == i);
            } else {
                assert(second.contains(i));
                let k = second.index_of(i);
                assert(all[first.len() + k] == i);
            }
        }
        if all.contains(i) {
            let k = all.index_of(i);
            assert(0 <= all[k] < peers.len());
        }
    }
    assert forall|a: int, b: int| 0 <= a < b < all.len() && (subject == Some(
        peers[#[trigger] all[a]],
    )) == (subject == Some(peers[#[trigger] all[b]])) implies all[a] < all[b] by {
        if b < first.len() {
            assert(first[a] < first[b]);
        } else {
            assert(second[a - first.len()] < second[b - first.len()]);
        }
    }
    assert forall|a: int, b: int| 0 <= a < all.len() && 0 <= b < all.len() && a
        != b implies all[a] != all[b] by {
        if a < b && all[a] == all[b] {
            assert((subject == Some(peers[all[a]])) == (subject == Some(peers[all[b]])));
        } else if b < a && all[a] == all[b] {
            assert((subject == Some(peers[all[b]])) == (subject == Some(peers[all[a]])));
        }
    }
}

/// The order in which peers are served.
pub fn serving_order(peers: &Vec<MemberId>, subject: Option<MemberId>) -> (order: Vec<usize>)
    ensures
        order@.len() == served_order(peers@, subject).len(),
        forall|i: int|
            0 <= i < order@.len() ==> #[trigger] order@[i] == served_order(peers@, subject)[i],
{
    let mut order: Vec<usize> = Vec::new();
    let mut i: usize = 0;
    proof {
        assert(peers@.take(0).len() == 0);
    }
    while i < peers.len()
        invariant
            i <= peers@.len(),
            order@.len() == places(peers@.take(i as int), subject, true).len(),
            forall|j: int|
                0 <= j < order@.len() ==> #[trigger] order@[j] == places(
                    peers@.take(i as int),
                    subject,
                    true,
                )[j],
        decreases peers@.len() - i,
    {
        proof {
            assert(peers@.take(i + 1).drop_last() =~= peers@.take(i as int));
        }
        if is_same(subject, peers[i]) {
            order.push(i);
        }
        i += 1;
    }
    let ghost first = places(peers@, subject, true);
    proof {
        assert(peers@.take(i as int) =~= peers@);
        assert(places(peers@.take(0), subject, false).len() == 0);
    }
    let mut k: usize = 0;
    while k < peers.len()
        invariant
            k <= peers@.len(),
            first == places(peers@, subject, true),
            order@.len() == first.len() + places(peers@.take(k as int), subject, false).len(),
            forall|j: int|
                0 <= j < order@.len() ==> #[trigger] order@[j] == (first + places(
                    peers@.take(k as int),
                    subject,
                    false,
                ))[j],
        decreases peers@.len() - k,
    {
        proof {
            assert(peers@.take(k + 1).drop_last() =~= peers@.take(k as int));
        }
        if !is_same(subject, peers[k]) {
            order.push(k);
        }
        k += 1;
    }
    assert(peers@.take(k as int) =~= peers@);
    order
}

} // verus!
