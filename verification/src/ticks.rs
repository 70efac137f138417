use vstd::prelude::*;
use bincode::Options;
use std::collections::HashMap;
use crate::packets::{ChannelKind, GamePacket, SendMode};

verus! {

broadcast use vstd::std_specs::hash::group_hash_axioms;

/// The number whose little-endian base-256 digits are `bytes`.
pub open spec fn le_value(bytes: Seq<u8>) -> nat
    decreases bytes.len(),
{
    if bytes.len() == 0 {
        0
    } else {
        bytes[0] as nat + 256 * le_value(bytes.drop_first())
    }
}

/// The `k` lowest little-endian base-256 digits of `n`.
pub open spec fn le_digits(n: nat, k: nat) -> Seq<u8>
    decreases k,
{
    if k == 0 {
        Seq::empty()
    } else {
        seq![(n % 256) as u8] + le_digits(n / 256, (k - 1) as nat)
    }
}

/// How `bincode::DefaultOptions` (variable-length integers, little-endian) writes a replication tick: values
/// up to 250 as one byte; values up to `u16::MAX` as the marker 251 and two bytes; larger values as the
/// marker 252 and four bytes.
pub open spec fn tick_encoding(tick: u32) -> Seq<u8> {
    if tick <= 250 {
        seq![tick as u8]
    } else if tick <= 0xffff {
        seq![251u8] + le_digits(tick as nat, 2)
    } else {
        seq![252u8] + le_digits(tick as nat, 4)
    }
}

/// What `bincode::DefaultOptions` reads as a replication tick at the front of `message`: the tick and the
/// number of bytes it took, or `None` if it refuses. A first byte up to 250 is the value; the markers 251,
/// 252 and 253 are followed by two, four and eight little-endian bytes (a value over `u32::MAX` is refused);
/// any other first byte, or too few bytes, is refused.
pub open spec fn tick_prefix_decoding(message: Seq<u8>) -> Option<(u32, nat)> {
    if message.len() == 0 {
        None
    } else if message[0] <= 250 {
        Some((message[0] as u32, 1))
    } else if message[0] == 251 {
        if message.len() >= 3 { Some((le_value(message.subrange(1, 3)) as u32, 3)) } else { None }
    } else if message[0] == 252 {
        if message.len() >= 5 { Some((le_value(message.subrange(1, 5)) as u32, 5)) } else { None }
    } else if message[0] == 253 {
        if message.len() >= 9 && le_value(message.subrange(1, 9)) <= u32::MAX {
            Some((le_value(message.subrange(1, 9)) as u32, 9))
        } else {
            None
        }
    } else {
        None
    }
}

/// Calls `bincode::DefaultOptions::new().serialize` on a tick. Its source writes the tick with
/// `VarintEncoding::serialize_varint` into a `Vec` with no size limit, which cannot fail: the bytes are
/// `tick_encoding(tick)`.
#[verifier::external_body]
fn encode_tick(tick: u32) -> (r: Option<Vec<u8>>)
    ensures
        r is Some && r.unwrap()@ == tick_encoding(tick),
{
    bincode::DefaultOptions::new().serialize(&tick).ok()
}

/// Calls `bincode::DefaultOptions::new().deserialize_from` on a cursor over `message`, reading a tick, and
/// hands back the tick with the cursor's position. Its source reads one byte, then the literal its marker
/// calls for (`VarintEncoding::deserialize_varint`, then `cast_u64_to_u32`), straight from the cursor: the
/// outcome is `tick_prefix_decoding(message)`.
#[verifier::external_body]
fn decode_tick_prefix(message: &[u8]) -> (r: Option<(u32, usize)>)
    ensures
        match (r, tick_prefix_decoding(message@)) {
            (Some((tick, used)), Some((expected, expected_used))) => tick == expected && used == expected_used,
            (None, None) => true,
            _ => false,
        },
{
    let mut cursor = std::io::Cursor::new(message);
    let tick: u32 = bincode::DefaultOptions::new().deserialize_from(&mut cursor).ok()?;
    Some((tick, cursor.position() as usize))
}

proof fn lemma_le_digits_roundtrip(n: nat, k: nat)
    requires
        n < vstd::arithmetic::power::pow(256, k),
    ensures
        le_digits(n, k).len() == k,
        le_value(le_digits(n, k)) == n,
    decreases k,
{
    reveal(vstd::arithmetic::power::pow);
    if k > 0 {
        assert(n / 256 < vstd::arithmetic::power::pow(256, (k - 1) as nat)) by {
            vstd::arithmetic::div_mod::lemma_div_is_ordered_by_denominator(n as int, 1, 256);
            vstd::arithmetic::div_mod::lemma_fundamental_div_mod(n as int, 256);
            assert(vstd::arithmetic::power::pow(256, k) == 256 * vstd::arithmetic::power::pow(256, (k - 1) as nat));
            vstd::arithmetic::mul::lemma_mul_is_commutative(256, vstd::arithmetic::power::pow(256, (k - 1) as nat));
            if n / 256 >= vstd::arithmetic::power::pow(256, (k - 1) as nat) {
                vstd::arithmetic::mul::lemma_mul_inequality(
                    vstd::arithmetic::power::pow(256, (k - 1) as nat),
                    n as int / 256,
                    256,
                );
            }
        }
        lemma_le_digits_roundtrip(n / 256, (k - 1) as nat);
        let d = le_digits(n, k);
        assert(d.drop_first() =~= le_digits(n / 256, (k - 1) as nat));
        vstd::arithmetic::div_mod::lemma_fundamental_div_mod(n as int, 256);
    }
}

/// Reading a tick back from bytes that start with its encoding gives the tick and the encoding's length,
/// whatever follows it: a client reads the tick the server wrote in front of a message, and the rest of the
/// bytes are the message.
pub proof fn lemma_tick_roundtrip(tick: u32, data: Seq<u8>)
    ensures
        tick_prefix_decoding(tick_encoding(tick) + data) == Some((tick, tick_encoding(tick).len())),
        (tick_encoding(tick) + data).skip(tick_encoding(tick).len() as int) == data,
{
    let enc = tick_encoding(tick);
    let m = enc + data;
    reveal_with_fuel(vstd::arithmetic::power::pow, 5);
    assert(vstd::arithmetic::power::pow(256, 2) == 0x1_0000);
    assert(vstd::arithmetic::power::pow(256, 4) == 0x1_0000_0000);
    if tick <= 250 {
    } else if tick <= 0xffff {
        lemma_le_digits_roundtrip(tick as nat, 2);
        assert(m.subrange(1, 3) =~= le_digits(tick as nat, 2));
    } else {
        lemma_le_digits_roundtrip(tick as nat, 4);
        assert(m.subrange(1, 5) =~= le_digits(tick as nat, 4));
    }
    assert(m.skip(enc.len() as int) =~= data);
}

/// A game packet's bytes prefixed with the replication tick they depend on.
#[derive(Debug, Clone)]
pub struct SerializedGamePacket {
    pub change_tick: u32,
    pub bytes: Vec<u8>,
}

/// Serializes a change tick in front of a message. A cached packet made for the same tick is reused as it is.
pub fn serialize_bytes_with_update_tick(
    cached: Option<SerializedGamePacket>,
    change_tick: u32,
    data: &[u8],
) -> (r: Result<SerializedGamePacket, ()>)
    ensures
        match cached {
            Some(c) if c.change_tick == change_tick => r matches Ok(p) && p.change_tick == c.change_tick
                && p.bytes@ == c.bytes@,
            _ => r matches Ok(p) && p.change_tick == change_tick && p.bytes@ == tick_encoding(change_tick) + data@,
        },
{
    if let Some(c) = cached {
        if c.change_tick == change_tick {
            return Ok(c);
        }
    }
    let mut bytes = match encode_tick(change_tick) {
        Some(b) => b,
        None => { return Err(()); },
    };
    let ghost prefix = bytes@;
    let mut i: usize = 0;
    while i < data.len()
        invariant
            i <= data@.len(),
            bytes@ == prefix + data@.take(i as int),
        decreases data@.len() - i,
    {
        bytes.push(data[i]);
        i = i + 1;
        proof {
            assert(data@.take(i as int) =~= data@.take(i - 1).push(data@[i - 1]));
        }
    }
    proof {
        assert(data@.take(data@.len() as int) =~= data@);
    }
    Ok(SerializedGamePacket { change_tick, bytes })
}

/// A game packet serialized for one client, with the channel kind it goes out on.
pub struct OutgoingPacket {
    pub client_id: u64,
    pub channel: ChannelKind,
    pub bytes: Vec<u8>,
}

/// What the server sends for a list of packets, each addressed to one client: for each packet whose client
/// is connected (has a replication tick in `ticks`), the client, the packet's channel kind and the tick's
/// bytes followed by the packet's message, in order. Packets to other clients are skipped.
pub open spec fn server_sends(packets: Seq<(SendMode, GamePacket)>, ticks: Map<u64, u32>) -> Seq<(u64, ChannelKind, Seq<u8>)>
    decreases packets.len(),
{
    if packets.len() == 0 {
        Seq::empty()
    } else {
        let prev = server_sends(packets.drop_last(), ticks);
        let client = packets.last().0->Direct_0;
        let packet = packets.last().1;
        if ticks.contains_key(client) {
            prev.push((client, packet.send_policy, tick_encoding(ticks[client]) + packet.message@))
        } else {
            prev
        }
    }
}

/// The view of an outgoing packet.
pub open spec fn outgoing_view(o: OutgoingPacket) -> (u64, ChannelKind, Seq<u8>) {
    (o.client_id, o.channel, o.bytes@)
}

/// Serializes the game packets the server sends this tick, each prefixed with the replication tick of the
/// client it goes to (`client_ticks`, connected clients only). Packets to disconnected clients are skipped.
/// Every packet must be addressed to a single client.
pub fn serialize_server_packets(packets: &Vec<(SendMode, GamePacket)>, client_ticks: &HashMap<u64, u32>) -> (r:
    Vec<OutgoingPacket>)
    requires
        forall|i: int| 0 <= i < packets@.len() ==> #[trigger] packets@[i].0 is Direct,
    ensures
        r@.map_values(|o: OutgoingPacket| outgoing_view(o)) == server_sends(packets@, client_ticks@),
{
    let mut out: Vec<OutgoingPacket> = Vec::new();
    let mut i: usize = 0;
    while i < packets.len()
        invariant
            i <= packets@.len(),
            forall|k: int| 0 <= k < packets@.len() ==> #[trigger] packets@[k].0 is Direct,
            out@.map_values(|o: OutgoingPacket| outgoing_view(o)) == server_sends(packets@.take(i as int), client_ticks@),
        decreases packets@.len() - i,
    {
        let ghost before = out@;
        proof {
            assert(packets@.take(i + 1).drop_last() =~= packets@.take(i as int));
            assert(packets@.take(i + 1).last() == packets@[i as int]);
        }
        let client_id = match &packets[i].0 {
            SendMode::Direct(c) => *c,
            _ => { proof { assert(packets@[i as int].0 is Direct); } return out; },
        };
        let packet = &packets[i].1;
        match client_ticks.get(&client_id) {
            Some(tick) => {
                match serialize_bytes_with_update_tick(None, *tick, packet.message.as_slice()) {
                    Ok(serialized) => {
                        out.push(OutgoingPacket { client_id, channel: packet.send_policy, bytes: serialized.bytes });
                        proof {
                            assert(out@.map_values(|o: OutgoingPacket| outgoing_view(o)) =~= before.map_values(
                                |o: OutgoingPacket| outgoing_view(o),
                            ).push(outgoing_view(out@.last())));
                        }
                    },
                    Err(_) => {},
                }
            },
            None => {},
        }
        i = i + 1;
    }
    proof {
        assert(packets@.take(packets@.len() as int) =~= packets@);
    }
    out
}

/// A server message split into its replication tick and the packet it carries.
pub struct TickedPacket {
    pub tick: u32,
    pub packet: GamePacket,
}

/// Splits the replication tick off the front of a server message, keeping the rest as a game packet.
/// - Returns `None` (the message is ignored) if no tick can be read.
pub fn split_server_message(send_policy: ChannelKind, message: Vec<u8>) -> (r: Option<TickedPacket>)
    ensures
        match tick_prefix_decoding(message@) {
            Some((tick, used)) => r matches Some(t) && t.tick == tick && t.packet.send_policy == send_policy
                && t.packet.message@ == message@.skip(used as int),
            None => r is None,
        },
{
    let (tick, used) = match decode_tick_prefix(message.as_slice()) {
        Some(d) => d,
        None => { return None; },
    };
    let mut rest: Vec<u8> = Vec::new();
    let mut i: usize = used;
    while i < message.len()
        invariant
            used <= i <= message@.len(),
            rest@ == message@.subrange(used as int, i as int),
        decreases message@.len() - i,
    {
        rest.push(message[i]);
        i = i + 1;
        proof {
            assert(message@.subrange(used as int, i as int) =~= message@.subrange(used as int, i - 1).push(message@[i - 1]));
        }
    }
    proof {
        assert(message@.subrange(used as int, message@.len() as int) =~= message@.skip(used as int));
    }
    Some(TickedPacket { tick, packet: GamePacket { send_policy, message: rest } })
}

/// A packet may be delivered now when the replication state it depends on has arrived.
pub open spec fn deliverable(packet_tick: u32, replicated_tick: u32) -> bool {
    packet_tick <= replicated_tick
}

/// Whether a packet for tick `packet_tick` can be delivered once replication reached `replicated_tick`;
/// otherwise it waits in the packet queue.
pub fn is_deliverable(packet_tick: u32, replicated_tick: u32) -> (r: bool)
    ensures
        r == deliverable(packet_tick, replicated_tick),
{
    packet_tick <= replicated_tick
}

/// A packet is deliverable exactly when replication has reached its tick: never earlier, and as soon as the
/// replicated tick is at least the packet's tick.
pub proof fn lemma_deliverable_exactly_when_reached(packet_tick: u32, replicated_tick: u32)
    ensures
        deliverable(packet_tick, replicated_tick) <==> packet_tick <= replicated_tick,
        packet_tick > replicated_tick ==> !deliverable(packet_tick, replicated_tick),
{
}

} // verus!
