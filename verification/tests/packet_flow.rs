use std::collections::{HashMap, HashSet};

use girk::packet_queue::GamePacketQueue;
use girk::packets::{
    accept_client_packets, prepare_network_channels, ChannelConfig, ChannelKind, EventChannel, GamePacket,
    IntoChannelKind, ReceivedMessage, SendMode, SendOrdered, SendType, SendUnordered, SendUnreliable,
    TargetAll, TargetAllExcept, TargetClient, CHANNEL_MEMORY_BYTES, MAX_CLIENT_MESSAGES_PER_TICK,
};
use girk::span::Span;
use girk::ticks::{is_deliverable, serialize_bytes_with_update_tick, serialize_server_packets, split_server_message};

fn packet(policy: ChannelKind, message: &[u8]) -> GamePacket {
    GamePacket { send_policy: policy, message: message.to_vec() }
}

#[test]
fn channel_kind_conversions() {
    assert_eq!(ChannelKind::from(SendUnreliable), ChannelKind::Unreliable);
    assert_eq!(ChannelKind::from(SendUnordered), ChannelKind::Unordered);
    assert_eq!(ChannelKind::from(SendOrdered), ChannelKind::Ordered);
    assert_eq!(().into_event_type(), ChannelKind::Unreliable);
}

#[test]
fn send_mode_conversions() {
    assert_eq!(SendMode::from(TargetClient(4)), SendMode::Direct(4));
    assert_eq!(SendMode::from(TargetAll), SendMode::Broadcast);
    assert_eq!(SendMode::from(TargetAllExcept(9)), SendMode::BroadcastExcept(9));
}

#[test]
fn event_channel_keeps_its_id() {
    let channel: EventChannel<(GamePacket, SendOrdered)> = EventChannel::new(17);
    assert_eq!(channel.id, 17);
}

#[test]
fn network_channels_are_appended_after_existing_ones() {
    let existing = ChannelConfig { channel_id: 0, max_memory_usage_bytes: 10, send_type: SendType::Unreliable };
    let mut server = vec![existing, existing];
    let mut client = Vec::new();
    let resend = Span::new(0, 300_000_000);
    let channels = prepare_network_channels(&mut server, &mut client, resend);
    assert_eq!(channels.unreliable_game_packet.id, 2);
    assert_eq!(channels.unordered_game_packet.id, 3);
    assert_eq!(channels.ordered_game_packet.id, 4);
    assert_eq!(channels.unreliable_client_packet.id, 0);
    assert_eq!(channels.unordered_client_packet.id, 1);
    assert_eq!(channels.ordered_client_packet.id, 2);
    assert_eq!(server.len(), 5);
    assert_eq!(client.len(), 3);
    assert_eq!(server[2], ChannelConfig {
        channel_id: 2,
        max_memory_usage_bytes: CHANNEL_MEMORY_BYTES,
        send_type: SendType::Unreliable,
    });
    assert_eq!(server[3].send_type, SendType::ReliableUnordered { resend_time: resend });
    assert_eq!(client[2], ChannelConfig {
        channel_id: 2,
        max_memory_usage_bytes: 5 * 1024 * 1024,
        send_type: SendType::ReliableOrdered { resend_time: resend },
    });
}

#[test]
fn client_packets_from_unknown_clients_are_dropped() {
    let known: HashSet<u64> = [1u64].into_iter().collect();
    let received = vec![
        ReceivedMessage { client_id: 1, send_policy: ChannelKind::Ordered, request: vec![1] },
        ReceivedMessage { client_id: 2, send_policy: ChannelKind::Ordered, request: vec![2] },
        ReceivedMessage { client_id: 1, send_policy: ChannelKind::Unreliable, request: vec![3] },
    ];
    let accepted = accept_client_packets(&known, received);
    assert_eq!(accepted.len(), 2);
    assert_eq!(accepted[0].0, 1);
    assert_eq!(accepted[0].1.request, vec![1]);
    assert_eq!(accepted[1].1.send_policy, ChannelKind::Unreliable);
    assert_eq!(accepted[1].1.request, vec![3]);
}

#[test]
fn client_packets_are_rate_limited_per_client() {
    let known: HashSet<u64> = [1u64, 2].into_iter().collect();
    let mut received = Vec::new();
    for i in 0..70u8 {
        received.push(ReceivedMessage { client_id: 1, send_policy: ChannelKind::Unordered, request: vec![i] });
    }
    received.push(ReceivedMessage { client_id: 2, send_policy: ChannelKind::Unordered, request: vec![200] });
    let accepted = accept_client_packets(&known, received);
    let from_one: Vec<_> = accepted.iter().filter(|(c, _)| *c == 1).collect();
    assert_eq!(from_one.len(), MAX_CLIENT_MESSAGES_PER_TICK as usize);
    assert_eq!(from_one.last().unwrap().1.request, vec![63]);
    assert_eq!(accepted.last().unwrap().0, 2);
    assert_eq!(accepted.len(), 65);
}

#[test]
fn tick_prefix_small_value_is_one_byte() {
    let p = serialize_bytes_with_update_tick(None, 5, &[9, 9]).unwrap();
    assert_eq!(p.change_tick, 5);
    assert_eq!(p.bytes, vec![5, 9, 9]);
}

#[test]
fn tick_prefix_u16_value_uses_marker_251() {
    let p = serialize_bytes_with_update_tick(None, 300, &[7]).unwrap();
    assert_eq!(p.bytes, vec![251, 44, 1, 7]);
}

#[test]
fn tick_prefix_u32_value_uses_marker_252() {
    let p = serialize_bytes_with_update_tick(None, 70_000, &[]).unwrap();
    assert_eq!(p.bytes, vec![252, 0x70, 0x11, 0x01, 0x00]);
}

#[test]
fn tick_prefix_cached_packet_is_reused_for_same_tick() {
    let cached = serialize_bytes_with_update_tick(None, 3, &[1, 2]).unwrap();
    let again = serialize_bytes_with_update_tick(Some(cached), 3, &[8, 8, 8]).unwrap();
    assert_eq!(again.bytes, vec![3, 1, 2]);
    let cached = serialize_bytes_with_update_tick(None, 3, &[1, 2]).unwrap();
    let fresh = serialize_bytes_with_update_tick(Some(cached), 4, &[8]).unwrap();
    assert_eq!(fresh.bytes, vec![4, 8]);
}

#[test]
fn server_message_roundtrip() {
    for tick in [0u32, 250, 251, 65_535, 65_536, u32::MAX] {
        let p = serialize_bytes_with_update_tick(None, tick, &[42, 43]).unwrap();
        let t = split_server_message(ChannelKind::Unordered, p.bytes).unwrap();
        assert_eq!(t.tick, tick);
        assert_eq!(t.packet.send_policy, ChannelKind::Unordered);
        assert_eq!(t.packet.message, vec![42, 43]);
    }
}

#[test]
fn server_message_without_tick_is_ignored() {
    assert!(split_server_message(ChannelKind::Ordered, vec![]).is_none());
    assert!(split_server_message(ChannelKind::Ordered, vec![251, 1]).is_none());
    assert!(split_server_message(ChannelKind::Ordered, vec![255, 1, 2, 3]).is_none());
}

#[test]
fn server_message_with_u64_marker_is_read() {
    let t = split_server_message(ChannelKind::Ordered, vec![253, 9, 0, 0, 0, 0, 0, 0, 0, 77]).unwrap();
    assert_eq!(t.tick, 9);
    assert_eq!(t.packet.message, vec![77]);
    assert!(split_server_message(ChannelKind::Ordered, vec![253, 0, 0, 0, 0, 1, 0, 0, 0]).is_none());
}

#[test]
fn deliverable_ticks() {
    assert!(is_deliverable(3, 3));
    assert!(is_deliverable(2, 3));
    assert!(!is_deliverable(4, 3));
}

#[test]
fn server_packets_are_prefixed_per_client() {
    let mut ticks = HashMap::new();
    ticks.insert(1u64, 5u32);
    ticks.insert(2u64, 300u32);
    let packets = vec![
        (SendMode::Direct(1), packet(ChannelKind::Ordered, &[1])),
        (SendMode::Direct(3), packet(ChannelKind::Ordered, &[2])),
        (SendMode::Direct(2), packet(ChannelKind::Unreliable, &[1])),
    ];
    let out = serialize_server_packets(&packets, &ticks);
    assert_eq!(out.len(), 2);
    assert_eq!(out[0].client_id, 1);
    assert_eq!(out[0].channel, ChannelKind::Ordered);
    assert_eq!(out[0].bytes, vec![5, 1]);
    assert_eq!(out[1].client_id, 2);
    assert_eq!(out[1].channel, ChannelKind::Unreliable);
    assert_eq!(out[1].bytes, vec![251, 44, 1, 1]);
}

#[test]
fn packet_queue_pops_least_tick_first() {
    let mut queue = GamePacketQueue::new();
    queue.insert(5, packet(ChannelKind::Ordered, &[5]));
    queue.insert(3, packet(ChannelKind::Ordered, &[3]));
    queue.insert(9, packet(ChannelKind::Ordered, &[9]));
    assert!(!queue.is_empty());
    // tick 3 is ready although it arrived after tick 5
    let (tick, p) = queue.pop_if_le(4).unwrap();
    assert_eq!(tick, 3);
    assert_eq!(p.message, vec![3]);
    assert!(queue.pop_if_le(4).is_none());
    let (tick, p) = queue.pop_if_le(5).unwrap();
    assert_eq!(tick, 5);
    assert_eq!(p.message, vec![5]);
    let ready = queue.drain_ready(8);
    assert!(ready.is_empty());
    queue.clear();
    assert!(queue.is_empty());
    assert!(queue.pop_if_le(u32::MAX).is_none());
}

#[test]
fn packet_queue_keeps_every_packet_of_a_tick_in_arrival_order() {
    let mut queue = GamePacketQueue::new();
    queue.insert(7, packet(ChannelKind::Ordered, &[1]));
    queue.insert(4, packet(ChannelKind::Ordered, &[2]));
    queue.insert(7, packet(ChannelKind::Unreliable, &[3]));
    queue.insert(2, packet(ChannelKind::Ordered, &[4]));
    let ready = queue.drain_ready(10);
    let messages: Vec<Vec<u8>> = ready.iter().map(|p| p.message.clone()).collect();
    assert_eq!(messages, vec![vec![4], vec![2], vec![1], vec![3]]);
    assert_eq!(ready[3].send_policy, ChannelKind::Unreliable);
    assert!(queue.is_empty());
}

#[test]
fn packet_queue_drain_leaves_later_ticks() {
    let mut queue = GamePacketQueue::new();
    queue.insert(7, packet(ChannelKind::Ordered, &[1]));
    queue.insert(3, packet(ChannelKind::Ordered, &[2]));
    queue.insert(3, packet(ChannelKind::Ordered, &[3]));
    let ready = queue.drain_ready(5);
    assert_eq!(ready.len(), 2);
    assert_eq!(ready[0].message, vec![2]);
    assert_eq!(ready[1].message, vec![3]);
    let (tick, p) = queue.pop_if_le(7).unwrap();
    assert_eq!((tick, p.message), (7, vec![1]));
    assert!(queue.is_empty());
}

#[test]
fn received_messages_are_delivered_or_queued() {
    let mut queue = GamePacketQueue::new();
    let now = serialize_bytes_with_update_tick(None, 4, &[1]).unwrap();
    let later = serialize_bytes_with_update_tick(None, 6, &[2]).unwrap();
    let later_again = serialize_bytes_with_update_tick(None, 6, &[3]).unwrap();
    let delivered = queue.receive_server_message(ChannelKind::Ordered, now.bytes, 5).unwrap();
    assert_eq!(delivered.message, vec![1]);
    assert!(queue.is_empty());
    assert!(queue.receive_server_message(ChannelKind::Unordered, later.bytes, 5).is_none());
    assert!(queue.receive_server_message(ChannelKind::Ordered, later_again.bytes, 5).is_none());
    assert!(queue.receive_server_message(ChannelKind::Ordered, vec![254], 5).is_none());
    let ready = queue.drain_ready(6);
    assert_eq!(ready.len(), 2);
    assert_eq!(ready[0].message, vec![2]);
    assert_eq!(ready[0].send_policy, ChannelKind::Unordered);
    assert_eq!(ready[1].message, vec![3]);
}

#[test]
fn packet_channels_route_by_kind() {
    let mut server = Vec::new();
    let mut client = Vec::new();
    let channels = prepare_network_channels(&mut server, &mut client, Span::from_secs(1));
    assert_eq!(channels.game_channel(ChannelKind::Unreliable), 0);
    assert_eq!(channels.game_channel(ChannelKind::Unordered), 1);
    assert_eq!(channels.game_channel(ChannelKind::Ordered), 2);
    assert_eq!(channels.client_channel(ChannelKind::Unordered), 1);
    assert_eq!(
        channels.game_receive_order(),
        vec![(2, ChannelKind::Ordered), (1, ChannelKind::Unordered), (0, ChannelKind::Unreliable)]
    );
    assert_eq!(channels.client_receive_order()[2], (0, ChannelKind::Unreliable));
}
