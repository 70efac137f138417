use vstd::prelude::*;
use std::collections::HashMap;
use std::collections::HashSet;
use std::marker::PhantomData;
use vstd::std_specs::convert::FromSpecImpl;
use crate::span::Span;

verus! {

broadcast use vstd::std_specs::hash::group_hash_axioms;

/// How a message is delivered.
#[derive(Debug, Copy, Clone, PartialEq, Eq, Structural)]
pub enum ChannelKind {
    Unreliable,
    Unordered,
    Ordered,
}

/// Whom a server message is sent to.
#[derive(Debug, Copy, Clone, PartialEq, Eq, Structural)]
pub enum SendMode {
    Broadcast,
    BroadcastExcept(u64),
    Direct(u64),
}

/// Marker: send unreliably.
#[derive(Debug, Copy, Clone)]
pub struct SendUnreliable;

/// Marker: send reliably, unordered.
#[derive(Debug, Copy, Clone)]
pub struct SendUnordered;

/// Marker: send reliably, in order.
#[derive(Debug, Copy, Clone)]
pub struct SendOrdered;

impl From<SendUnreliable> for ChannelKind {
    fn from(v: SendUnreliable) -> (r: ChannelKind) {
        ChannelKind::Unreliable
    }
}

impl FromSpecImpl<SendUnreliable> for ChannelKind {
    open spec fn obeys_from_spec() -> bool {
        true
    }

    open spec fn from_spec(v: SendUnreliable) -> ChannelKind {
        ChannelKind::Unreliable
    }
}

impl From<SendUnordered> for ChannelKind {
    fn from(v: SendUnordered) -> (r: ChannelKind) {
        ChannelKind::Unordered
    }
}

impl FromSpecImpl<SendUnordered> for ChannelKind {
    open spec fn obeys_from_spec() -> bool {
        true
    }

    open spec fn from_spec(v: SendUnordered) -> ChannelKind {
        ChannelKind::Unordered
    }
}

impl From<SendOrdered> for ChannelKind {
    fn from(v: SendOrdered) -> (r: ChannelKind) {
        ChannelKind::Ordered
    }
}

impl FromSpecImpl<SendOrdered> for ChannelKind {
    open spec fn obeys_from_spec() -> bool {
        true
    }

    open spec fn from_spec(v: SendOrdered) -> ChannelKind {
        ChannelKind::Ordered
    }
}

/// Target: one client.
#[derive(Debug, Copy, Clone)]
pub struct TargetClient(pub u64);

/// Target: all clients.
#[derive(Debug, Copy, Clone)]
pub struct TargetAll;

/// Target: all clients but one.
#[derive(Debug, Copy, Clone)]
pub struct TargetAllExcept(pub u64);

impl From<TargetClient> for SendMode {
    fn from(client: TargetClient) -> (r: SendMode) {
        SendMode::Direct(client.0)
    }
}

impl FromSpecImpl<TargetClient> for SendMode {
    open spec fn obeys_from_spec() -> bool {
        true
    }

    open spec fn from_spec(v: TargetClient) -> SendMode {
        SendMode::Direct(v.0)
    }
}

impl From<TargetAll> for SendMode {
    fn from(v: TargetAll) -> (r: SendMode) {
        SendMode::Broadcast
    }
}

impl FromSpecImpl<TargetAll> for SendMode {
    open spec fn obeys_from_spec() -> bool {
        true
    }

    open spec fn from_spec(v: TargetAll) -> SendMode {
        SendMode::Broadcast
    }
}

impl From<TargetAllExcept> for SendMode {
    fn from(exception: TargetAllExcept) -> (r: SendMode) {
        SendMode::BroadcastExcept(exception.0)
    }
}

impl FromSpecImpl<TargetAllExcept> for SendMode {
    open spec fn obeys_from_spec() -> bool {
        true
    }

    open spec fn from_spec(v: TargetAllExcept) -> SendMode {
        SendMode::BroadcastExcept(v.0)
    }
}

/// Converts a message type into its send policy; useful for enum messages whose variants are sent
/// differently.
pub trait IntoChannelKind {
    fn into_event_type(&self) -> ChannelKind;
}

/// Default implementation for tests: unreliable.
impl IntoChannelKind for () {
    fn into_event_type(&self) -> (r: ChannelKind)
        ensures
            r == ChannelKind::Unreliable,
    {
        ChannelKind::Unreliable
    }
}

/// A packet from the game server to a client.
#[derive(Debug, Clone)]
pub struct GamePacket {
    pub send_policy: ChannelKind,
    pub message: Vec<u8>,
}

/// A packet from a client to the game server.
#[derive(Debug, Clone)]
pub struct ClientPacket {
    pub send_policy: ChannelKind,
    pub request: Vec<u8>,
}

/// Delivery of a renet channel.
#[derive(Debug, Copy, Clone, PartialEq, Eq, Structural)]
pub enum SendType {
    Unreliable,
    ReliableUnordered { resend_time: Span },
    ReliableOrdered { resend_time: Span },
}

/// Configuration of one renet channel.
#[derive(Debug, Copy, Clone, PartialEq, Eq, Structural)]
pub struct ChannelConfig {
    pub channel_id: u8,
    pub max_memory_usage_bytes: usize,
    pub send_type: SendType,
}

/// Memory budget of each packet channel.
pub const CHANNEL_MEMORY_BYTES: usize = 5 * 1024 * 1024;

/// Holds a server's channel ID for `T`.
pub struct EventChannel<T> {
    pub id: u8,
    pub marker: PhantomData<T>,
}

impl<T> EventChannel<T> {
    pub fn new(id: u8) -> (r: Self)
        ensures
            r.id == id,
    {
        EventChannel { id, marker: PhantomData }
    }
}

/// The channel ids made for game and client packets.
pub struct PacketChannels {
    pub unreliable_game_packet: EventChannel<(GamePacket, SendUnreliable)>,
    pub unordered_game_packet: EventChannel<(GamePacket, SendUnordered)>,
    pub ordered_game_packet: EventChannel<(GamePacket, SendOrdered)>,
    pub unreliable_client_packet: EventChannel<(ClientPacket, SendUnreliable)>,
    pub unordered_client_packet: EventChannel<(ClientPacket, SendUnordered)>,
    pub ordered_client_packet: EventChannel<(ClientPacket, SendOrdered)>,
}

/// The id in `(unreliable, unordered, ordered)` that carries messages of `kind`.
pub open spec fn channel_for(kind: ChannelKind, unreliable: u8, unordered: u8, ordered: u8) -> u8 {
    match kind {
        ChannelKind::Unreliable => unreliable,
        ChannelKind::Unordered => unordered,
        ChannelKind::Ordered => ordered,
    }
}

impl PacketChannels {
    /// The channel a game packet (server to client) of `kind` is sent on.
    pub fn game_channel(&self, kind: ChannelKind) -> (r: u8)
        ensures
            r == channel_for(kind, self.unreliable_game_packet.id, self.unordered_game_packet.id, self.ordered_game_packet.id),
    {
        match kind {
            ChannelKind::Unreliable => self.unreliable_game_packet.id,
            ChannelKind::Unordered => self.unordered_game_packet.id,
            ChannelKind::Ordered => self.ordered_game_packet.id,
        }
    }

    /// The channel a client packet (client to server) of `kind` is sent on.
    pub fn client_channel(&self, kind: ChannelKind) -> (r: u8)
        ensures
            r == channel_for(kind, self.unreliable_client_packet.id, self.unordered_client_packet.id, self.ordered_client_packet.id),
    {
        match kind {
            ChannelKind::Unreliable => self.unreliable_client_packet.id,
            ChannelKind::Unordered => self.unordered_client_packet.id,
            ChannelKind::Ordered => self.ordered_client_packet.id,
        }
    }

    /// The game-packet channels in the order a client reads them: ordered first (its messages are probably
    /// the oldest), then unordered, then unreliable.
    pub fn game_receive_order(&self) -> (r: Vec<(u8, ChannelKind)>)
        ensures
            r@ == seq![
                (self.ordered_game_packet.id, ChannelKind::Ordered),
                (self.unordered_game_packet.id, ChannelKind::Unordered),
                (self.unreliable_game_packet.id, ChannelKind::Unreliable),
            ],
    {
        let r = vec![
            (self.ordered_game_packet.id, ChannelKind::Ordered),
            (self.unordered_game_packet.id, ChannelKind::Unordered),
            (self.unreliable_game_packet.id, ChannelKind::Unreliable),
        ];
        proof {
            assert(r@ =~= seq![
                (self.ordered_game_packet.id, ChannelKind::Ordered),
                (self.unordered_game_packet.id, ChannelKind::Unordered),
                (self.unreliable_game_packet.id, ChannelKind::Unreliable),
            ]);
        }
        r
    }

    /// The client-packet channels in the order the server reads them: ordered, unordered, unreliable.
    pub fn client_receive_order(&self) -> (r: Vec<(u8, ChannelKind)>)
        ensures
            r@ == seq![
                (self.ordered_client_packet.id, ChannelKind::Ordered),
                (self.unordered_client_packet.id, ChannelKind::Unordered),
                (self.unreliable_client_packet.id, ChannelKind::Unreliable),
            ],
    {
        let r = vec![
            (self.ordered_client_packet.id, ChannelKind::Ordered),
            (self.unordered_client_packet.id, ChannelKind::Unordered),
            (self.unreliable_client_packet.id, ChannelKind::Unreliable),
        ];
        proof {
            assert(r@ =~= seq![
                (self.ordered_client_packet.id, ChannelKind::Ordered),
                (self.unordered_client_packet.id, ChannelKind::Unordered),
                (self.unreliable_client_packet.id, ChannelKind::Unreliable),
            ]);
        }
        r
    }
}

/// The three channels added after `n` existing ones: unreliable, reliable-unordered and reliable-ordered,
/// with ids `n`, `n + 1` and `n + 2` (truncated to a byte).
pub open spec fn packet_channel_configs(n: int, resend_time: Span) -> Seq<ChannelConfig> {
    seq![
        ChannelConfig { channel_id: n as u8, max_memory_usage_bytes: CHANNEL_MEMORY_BYTES, send_type: SendType::Unreliable },
        ChannelConfig {
            channel_id: (n + 1) as u8,
            max_memory_usage_bytes: CHANNEL_MEMORY_BYTES,
            send_type: SendType::ReliableUnordered { resend_time },
        },
        ChannelConfig {
            channel_id: (n + 2) as u8,
            max_memory_usage_bytes: CHANNEL_MEMORY_BYTES,
            send_type: SendType::ReliableOrdered { resend_time },
        },
    ]
}

/// Appends one channel of the given delivery to `channels`, with the channel count as its id.
fn push_channel(channels: &mut Vec<ChannelConfig>, send_type: SendType) -> (id: u8)
    requires
        old(channels)@.len() < usize::MAX,
    ensures
        id == old(channels)@.len() as u8,
        final(channels)@ == old(channels)@.push(
            ChannelConfig { channel_id: id, max_memory_usage_bytes: CHANNEL_MEMORY_BYTES, send_type },
        ),
{
    let id = channels.len() as u8;
    channels.push(ChannelConfig { channel_id: id, max_memory_usage_bytes: CHANNEL_MEMORY_BYTES, send_type });
    id
}

/// Prepares network channels for `bevy_girk` clients and servers to send and receive packets: appends
/// three server channels and three client channels and returns their ids.
pub fn prepare_network_channels(
    server_channels: &mut Vec<ChannelConfig>,
    client_channels: &mut Vec<ChannelConfig>,
    resend_time: Span,
) -> (r: PacketChannels)
    requires
        old(server_channels)@.len() + 3 <= usize::MAX,
        old(client_channels)@.len() + 3 <= usize::MAX,
    ensures
        final(server_channels)@ == old(server_channels)@ + packet_channel_configs(old(server_channels)@.len() as int, resend_time),
        final(client_channels)@ == old(client_channels)@ + packet_channel_configs(old(client_channels)@.len() as int, resend_time),
        r.unreliable_game_packet.id == old(server_channels)@.len() as u8,
        r.unordered_game_packet.id == (old(server_channels)@.len() + 1) as u8,
        r.ordered_game_packet.id == (old(server_channels)@.len() + 2) as u8,
        r.unreliable_client_packet.id == old(client_channels)@.len() as u8,
        r.unordered_client_packet.id == (old(client_channels)@.len() + 1) as u8,
        r.ordered_client_packet.id == (old(client_channels)@.len() + 2) as u8,
{
    let ug = push_channel(server_channels, SendType::Unreliable);
    let og_u = push_channel(server_channels, SendType::ReliableUnordered { resend_time });
    let og_o = push_channel(server_channels, SendType::ReliableOrdered { resend_time });
    let uc = push_channel(client_channels, SendType::Unreliable);
    let oc_u = push_channel(client_channels, SendType::ReliableUnordered { resend_time });
    let oc_o = push_channel(client_channels, SendType::ReliableOrdered { resend_time });
    proof {
        assert(final(server_channels)@ =~= old(server_channels)@ + packet_channel_configs(old(server_channels)@.len() as int, resend_time));
        assert(final(client_channels)@ =~= old(client_channels)@ + packet_channel_configs(old(client_channels)@.len() as int, resend_time));
    }
    PacketChannels {
        unreliable_game_packet: EventChannel::new(ug),
        unordered_game_packet: EventChannel::new(og_u),
        ordered_game_packet: EventChannel::new(og_o),
        unreliable_client_packet: EventChannel::new(uc),
        unordered_client_packet: EventChannel::new(oc_u),
        ordered_client_packet: EventChannel::new(oc_o),
    }
}

/// Maximum number of client messages that the server will accept per tick.
pub const MAX_CLIENT_MESSAGES_PER_TICK: u16 = 64;

/// A message received from a client: client id, the delivery of the channel it came on, and its bytes.
pub struct ReceivedMessage {
    pub client_id: u64,
    pub send_policy: ChannelKind,
    pub request: Vec<u8>,
}

/// How many of the first `n` messages came from `client`.
pub open spec fn sent_before(msgs: Seq<ReceivedMessage>, client: u64, n: int) -> nat
    decreases n,
{
    if n <= 0 {
        0
    } else {
        sent_before(msgs, client, n - 1) + if msgs[n - 1].client_id == client { 1nat } else { 0nat }
    }
}

/// Message `i` is accepted: its client is registered, and the client sent fewer than
/// `MAX_CLIENT_MESSAGES_PER_TICK` messages before it this tick.
pub open spec fn message_accepted(msgs: Seq<ReceivedMessage>, known: Set<u64>, i: int) -> bool {
    known.contains(msgs[i].client_id) && sent_before(msgs, msgs[i].client_id, i) < MAX_CLIENT_MESSAGES_PER_TICK
}

/// Indices of the accepted messages among the first `n`, in order.
pub open spec fn accepted_indices(msgs: Seq<ReceivedMessage>, known: Set<u64>, n: int) -> Seq<int>
    decreases n,
{
    if n <= 0 {
        Seq::empty()
    } else if message_accepted(msgs, known, n - 1) {
        accepted_indices(msgs, known, n - 1).push(n - 1)
    } else {
        accepted_indices(msgs, known, n - 1)
    }
}

proof fn lemma_sent_before_monotone(msgs: Seq<ReceivedMessage>, client: u64, a: int, b: int)
    requires
        a <= b,
    ensures
        sent_before(msgs, client, a) <= sent_before(msgs, client, b),
    decreases b - a,
{
    if a < b {
        lemma_sent_before_monotone(msgs, client, a, b - 1);
    }
}

/// Collects the packets that registered clients sent this tick, at most `MAX_CLIENT_MESSAGES_PER_TICK`
/// per client; the rest are ignored. `received` lists the tick's messages channel by channel (ordered
/// first, since those are probably oldest, then unordered, then unreliable).
pub fn accept_client_packets(known_clients: &HashSet<u64>, received: Vec<ReceivedMessage>) -> (r: Vec<(u64, ClientPacket)>)
    requires
        forall|c: u64| known_clients@.contains(c) ==> sent_before(received@, c, received@.len() as int) <= u16::MAX,
    ensures
        ({
            let idx = accepted_indices(received@, known_clients@, received@.len() as int);
            &&& r@.len() == idx.len()
            &&& forall|k: int| #![trigger r@[k]] 0 <= k < r@.len() ==> {
                &&& r@[k].0 == received@[idx[k]].client_id
                &&& r@[k].1.send_policy == received@[idx[k]].send_policy
                &&& r@[k].1.request@ == received@[idx[k]].request@
            }
        }),
{
    let ghost msgs = received@;
    let ghost known = known_clients@;
    let mut counts: HashMap<u64, u16> = HashMap::new();
    let mut out: Vec<(u64, ClientPacket)> = Vec::new();
    proof {
        broadcast use vstd::std_specs::vec::axiom_spec_into_iter;
    }
    for msg in it: received.into_iter()
        invariant
            it.seq() == msgs,
            forall|c: u64| known.contains(c) ==> sent_before(msgs, c, msgs.len() as int) <= u16::MAX,
            known == known_clients@,
            forall|c: u64| #[trigger] counts@.contains_key(c) ==> known.contains(c) && counts@[c] == sent_before(msgs, c, it.index()),
            forall|c: u64| known.contains(c) && !#[trigger] counts@.contains_key(c) ==> sent_before(msgs, c, it.index()) == 0,
            out@.len() == accepted_indices(msgs, known, it.index()).len(),
            forall|k: int| #![trigger out@[k]] 0 <= k < out@.len() ==> {
                let m = msgs[accepted_indices(msgs, known, it.index())[k]];
                &&& out@[k].0 == m.client_id
                &&& out@[k].1.send_policy == m.send_policy
                &&& out@[k].1.request@ == m.request@
            },
    {
        let ghost i = it.index();
        proof {
            assert(msg == msgs[i]);
        }
        let client_id = msg.client_id;
        if known_clients.contains(&client_id) {
            let prev: u16 = match counts.get(&client_id) {
                Some(c) => *c,
                None => 0,
            };
            proof {
                lemma_sent_before_monotone(msgs, client_id, i + 1, msgs.len() as int);
                assert(sent_before(msgs, client_id, i + 1) == prev + 1);
            }
            let count = prev + 1;
            counts.insert(client_id, count);
            if count <= MAX_CLIENT_MESSAGES_PER_TICK {
                proof {
                    assert(message_accepted(msgs, known, i));
                }
                out.push((client_id, ClientPacket { send_policy: msg.send_policy, request: msg.request }));
            }
        }
        proof {
            assert forall|c: u64| c != client_id implies sent_before(msgs, c, i + 1) == sent_before(msgs, c, i) by {}
            if !known.contains(client_id) {
                assert(!message_accepted(msgs, known, i));
            } else if sent_before(msgs, client_id, i) + 1 > MAX_CLIENT_MESSAGES_PER_TICK {
                assert(!message_accepted(msgs, known, i));
            }
        }
    }
    out
}

/// How many of the messages at `idx` came from `client`.
pub open spec fn count_from_client(msgs: Seq<ReceivedMessage>, idx: Seq<int>, client: u64) -> nat
    decreases idx.len(),
{
    if idx.len() == 0 {
        0
    } else {
        count_from_client(msgs, idx.drop_last(), client) + if msgs[idx.last()].client_id == client { 1nat } else { 0nat }
    }
}

proof fn lemma_accepted_count(msgs: Seq<ReceivedMessage>, known: Set<u64>, client: u64, n: int)
    requires
        0 <= n <= msgs.len(),
    ensures
        count_from_client(msgs, accepted_indices(msgs, known, n), client) == if known.contains(client) {
            if sent_before(msgs, client, n) <= MAX_CLIENT_MESSAGES_PER_TICK {
                sent_before(msgs, client, n)
            } else {
                MAX_CLIENT_MESSAGES_PER_TICK as nat
            }
        } else {
            0
        },
    decreases n,
{
    if n > 0 {
        lemma_accepted_count(msgs, known, client, n - 1);
        let prev = accepted_indices(msgs, known, n - 1);
        if message_accepted(msgs, known, n - 1) {
            assert(accepted_indices(msgs, known, n).drop_last() == prev);
        }
    }
}

/// However many packets a client sends in one tick, the server accepts at most
/// `MAX_CLIENT_MESSAGES_PER_TICK` of them (and none from an unregistered client).
pub proof fn lemma_accepted_per_client_bounded(msgs: Seq<ReceivedMessage>, known: Set<u64>, client: u64)
    ensures
        count_from_client(msgs, accepted_indices(msgs, known, msgs.len() as int), client) <= MAX_CLIENT_MESSAGES_PER_TICK,
        !known.contains(client) ==> count_from_client(msgs, accepted_indices(msgs, known, msgs.len() as int), client) == 0,
{
    lemma_accepted_count(msgs, known, client, msgs.len() as int);
}

} // verus!
