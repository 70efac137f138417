use vstd::prelude::*;
use std::collections::hash_map::RandomState;
use ordered_multimap::ListOrderedMultimap;
use crate::packets::{ChannelKind, GamePacket};
use crate::ticks::{deliverable, is_deliverable, split_server_message, tick_prefix_decoding};

verus! {

#[verifier::external_type_specification]
#[verifier::external_body]
#[verifier::reject_recursive_types(Key)]
#[verifier::reject_recursive_types(Value)]
#[verifier::reject_recursive_types(State)]
pub struct ExListOrderedMultimap<Key, Value, State>(ListOrderedMultimap<Key, Value, State>);

/// The contents of a packet multimap: for each tick (key) present, the packets queued under it, in the order
/// they were inserted (the order `get_all` walks a key's values).
pub uninterp spec fn queued_by_tick(q: ListOrderedMultimap<u32, GamePacket, RandomState>) -> Map<u32, Seq<GamePacket>>;

/// `m` with `packet` added after the packets already under `tick`.
pub open spec fn appended(m: Map<u32, Seq<GamePacket>>, tick: u32, packet: GamePacket) -> Map<u32, Seq<GamePacket>> {
    m.insert(tick, if m.contains_key(tick) { m[tick].push(packet) } else { seq![packet] })
}

/// Calls `ListOrderedMultimap::new`: an empty multimap.
#[verifier::external_body]
fn multimap_new() -> (r: ListOrderedMultimap<u32, GamePacket, RandomState>)
    ensures
        queued_by_tick(r).dom().is_empty(),
{
    ListOrderedMultimap::new()
}

/// Calls `ListOrderedMultimap::append`. Its source keeps the values already held under the key and links the
/// new value after the key's last value (it also goes to the back of the whole value list).
#[verifier::external_body]
fn multimap_append(q: &mut ListOrderedMultimap<u32, GamePacket, RandomState>, tick: u32, packet: GamePacket)
    ensures
        queued_by_tick(*final(q)) == appended(queued_by_tick(*old(q)), tick, packet),
{
    let _ = q.append(tick, packet);
}

/// Calls `ListOrderedMultimap::keys` and collects the keys, each present once.
#[verifier::external_body]
fn multimap_keys(q: &ListOrderedMultimap<u32, GamePacket, RandomState>) -> (r: Vec<u32>)
    ensures
        r@.to_set() == queued_by_tick(*q).dom(),
        r@.no_duplicates(),
{
    q.keys().copied().collect()
}

/// Calls `ListOrderedMultimap::remove_all` and collects the values it drains, in the key's insertion order.
/// The key is gone afterwards.
#[verifier::external_body]
fn multimap_take_all(q: &mut ListOrderedMultimap<u32, GamePacket, RandomState>, tick: u32) -> (r: Vec<GamePacket>)
    ensures
        r@ == (if queued_by_tick(*old(q)).contains_key(tick) {
            queued_by_tick(*old(q))[tick]
        } else {
            Seq::<GamePacket>::empty()
        }),
        queued_by_tick(*final(q)) == queued_by_tick(*old(q)).remove(tick),
{
    q.remove_all(&tick).collect()
}

/// Calls `ListOrderedMultimap::clear`: no entries remain.
#[verifier::external_body]
fn multimap_clear(q: &mut ListOrderedMultimap<u32, GamePacket, RandomState>)
    ensures
        queued_by_tick(*final(q)).dom().is_empty(),
{
    q.clear()
}

/// `t` is the least of `ticks`.
pub open spec fn is_least_in(ticks: Set<u32>, t: u32) -> bool {
    ticks.contains(t) && forall|k: u32| #[trigger] ticks.contains(k) ==> t <= k
}

/// The least tick that has packets queued.
pub open spec fn least_tick(m: Map<u32, Seq<GamePacket>>) -> u32 {
    choose|t: u32| is_least_in(m.dom(), t)
}

/// Some packet is queued under a tick at most `init_tick`.
pub open spec fn has_ready(m: Map<u32, Seq<GamePacket>>, init_tick: u32) -> bool {
    exists|k: u32| #[trigger] m.contains_key(k) && k <= init_tick
}

/// The queue after its first packet under tick `t` is taken out.
pub open spec fn after_pop(m: Map<u32, Seq<GamePacket>>, t: u32) -> Map<u32, Seq<GamePacket>> {
    if m[t].len() <= 1 {
        m.remove(t)
    } else {
        m.insert(t, m[t].drop_first())
    }
}

/// The packets under ticks above `init_tick`, which keep waiting.
pub open spec fn waiting(m: Map<u32, Seq<GamePacket>>, init_tick: u32) -> Map<u32, Seq<GamePacket>> {
    Map::new(|k: u32| m.contains_key(k) && k > init_tick, |k: u32| m[k])
}

/// A finite set of ticks that is not empty has a least element.
pub proof fn lemma_least_exists(ticks: Set<u32>)
    requires
        ticks.finite(),
        ticks.len() > 0,
    ensures
        exists|t: u32| is_least_in(ticks, t),
    decreases ticks.len(),
{
    let x = ticks.choose();
    let rest = ticks.remove(x);
    if rest.len() == 0 {
        assert forall|k: u32| #[trigger] ticks.contains(k) implies x <= k by {
            if k != x {
                assert(rest.contains(k));
            }
        }
        assert(is_least_in(ticks, x));
    } else {
        lemma_least_exists(rest);
        let m = choose|t: u32| is_least_in(rest, t);
        if x < m {
            assert forall|k: u32| #[trigger] ticks.contains(k) implies x <= k by {
                if k != x {
                    assert(rest.contains(k));
                }
            }
            assert(is_least_in(ticks, x));
        } else {
            assert forall|k: u32| #[trigger] ticks.contains(k) implies m <= k by {
                if k != x {
                    assert(rest.contains(k));
                }
            }
            assert(is_least_in(ticks, m));
        }
    }
}

/// The least tick is the one tick that is least.
pub proof fn lemma_least_tick(m: Map<u32, Seq<GamePacket>>, t: u32)
    requires
        is_least_in(m.dom(), t),
    ensures
        least_tick(m) == t,
{
    let l = least_tick(m);
    assert(is_least_in(m.dom(), l));
    assert(m.dom().contains(t) && m.dom().contains(l));
}

/// When some packet is ready, the least tick has packets and is ready.
pub proof fn lemma_least_ready(m: Map<u32, Seq<GamePacket>>, init_tick: u32)
    requires
        m.dom().finite(),
        has_ready(m, init_tick),
    ensures
        is_least_in(m.dom(), least_tick(m)),
        least_tick(m) <= init_tick,
{
    let k = choose|k: u32| #[trigger] m.contains_key(k) && k <= init_tick;
    assert(m.dom().contains(k));
    lemma_least_exists(m.dom());
    let t = choose|t: u32| is_least_in(m.dom(), t);
    lemma_least_tick(m, t);
}

/// The packets that can be handled once replication reached `init_tick`: all packets under ticks at most
/// `init_tick`, by increasing tick, and in order of arrival within a tick.
pub open spec fn ready_packets(m: Map<u32, Seq<GamePacket>>, init_tick: u32) -> Seq<GamePacket>
    decreases m.dom().len(),
    when m.dom().finite()
{
    if has_ready(m, init_tick) {
        proof {
            lemma_least_ready(m, init_tick);
        }
        m[least_tick(m)] + ready_packets(m.remove(least_tick(m)), init_tick)
    } else {
        Seq::empty()
    }
}

/// Taking out the first packet of the least tick leaves the rest of the ready packets, in order.
pub proof fn lemma_ready_after_pop(m: Map<u32, Seq<GamePacket>>, init_tick: u32)
    requires
        m.dom().finite(),
        has_ready(m, init_tick),
        m[least_tick(m)].len() > 0,
    ensures
        ready_packets(m, init_tick) == seq![m[least_tick(m)][0]] + ready_packets(
            after_pop(m, least_tick(m)),
            init_tick,
        ),
{
    lemma_least_ready(m, init_tick);
    let t = least_tick(m);
    let rest = m.remove(t);
    assert(ready_packets(m, init_tick) == m[t] + ready_packets(rest, init_tick));
    if m[t].len() <= 1 {
        assert(m[t] =~= seq![m[t][0]]);
    } else {
        let m2 = m.insert(t, m[t].drop_first());
        assert(m2.dom() =~= m.dom());
        assert(is_least_in(m2.dom(), t));
        lemma_least_tick(m2, t);
        assert(m2.contains_key(t) && t <= init_tick);
        assert(has_ready(m2, init_tick));
        assert(m2.remove(t) =~= rest);
        assert(ready_packets(m2, init_tick) == m2[t] + ready_packets(m2.remove(t), init_tick));
        assert(m[t] =~= seq![m[t][0]] + m[t].drop_first());
    }
}

/// Holds packets from the server that arrived before the replication message of their tick, so that no
/// packet is handled before the state it refers to exists. Packets are kept by tick, in order of arrival.
pub struct GamePacketQueue {
    queue: ListOrderedMultimap<u32, GamePacket, RandomState>,
}

impl View for GamePacketQueue {
    type V = Map<u32, Seq<GamePacket>>;

    closed spec fn view(&self) -> Map<u32, Seq<GamePacket>> {
        queued_by_tick(self.queue)
    }
}

impl GamePacketQueue {
    /// Finitely many ticks are queued, each with at least one packet.
    pub closed spec fn well_formed(&self) -> bool {
        &&& queued_by_tick(self.queue).dom().finite()
        &&& forall|k: u32| #[trigger] queued_by_tick(self.queue).contains_key(k) ==> queued_by_tick(self.queue)[k].len() > 0
    }

    /// An empty queue.
    pub fn new() -> (r: Self)
        ensures
            r.well_formed(),
            r@ == Map::<u32, Seq<GamePacket>>::empty(),
    {
        let queue = multimap_new();
        proof {
            assert(queued_by_tick(queue) =~= Map::<u32, Seq<GamePacket>>::empty());
        }
        GamePacketQueue { queue }
    }

    /// Queues a packet until replication reaches `tick`, after the packets already queued for that tick.
    pub fn insert(&mut self, tick: u32, event: GamePacket)
        requires
            old(self).well_formed(),
        ensures
            final(self).well_formed(),
            final(self)@ == appended(old(self)@, tick, event),
    {
        multimap_append(&mut self.queue, tick, event);
    }

    /// The least queued tick, if it is at most `init_tick`.
    fn least_ready_tick(&self, init_tick: u32) -> (r: Option<u32>)
        requires
            self.well_formed(),
        ensures
            r == (if has_ready(self@, init_tick) { Some(least_tick(self@)) } else { None::<u32> }),
    {
        let keys = multimap_keys(&self.queue);
        let ghost dom = self@.dom();
        let mut best: Option<u32> = None;
        let mut i: usize = 0;
        while i < keys.len()
            invariant
                i <= keys@.len(),
                keys@.to_set() == dom,
                dom == self@.dom(),
                best is None ==> i == 0,
                best matches Some(b) ==> keys@.take(i as int).contains(b) && forall|j: int|
                    0 <= j < i ==> b <= #[trigger] keys@[j],
            decreases keys@.len() - i,
        {
            let k = keys[i];
            match best {
                None => { best = Some(k); },
                Some(b) => {
                    if k < b {
                        best = Some(k);
                    }
                },
            }
            proof {
                assert(keys@.take(i + 1)[i as int] == k);
                if let Some(b) = best {
                    if b != k {
                        let j = choose|j: int| 0 <= j < i && keys@.take(i as int)[j] == b;
                        assert(keys@.take(i + 1)[j] == b);
                    }
                }
            }
            i = i + 1;
        }
        match best {
            None => {
                proof {
                    assert(keys@.len() == 0);
                    assert forall|k: u32| !#[trigger] self@.contains_key(k) by {
                        if self@.contains_key(k) {
                            assert(keys@.to_set().contains(k));
                        }
                    }
                }
                None
            },
            Some(b) => {
                proof {
                    assert(keys@.take(keys@.len() as int) =~= keys@);
                    let j0 = choose|j: int| 0 <= j < keys@.len() && keys@[j] == b;
                    assert(keys@.to_set().contains(b));
                    assert forall|k: u32| #[trigger] dom.contains(k) implies b <= k by {
                        assert(keys@.to_set().contains(k));
                        let j = choose|j: int| 0 <= j < keys@.len() && keys@[j] == k;
                    }
                    assert(is_least_in(dom, b));
                    lemma_least_tick(self@, b);
                }
                if b <= init_tick {
                    proof {
                        assert(self@.contains_key(b));
                    }
                    Some(b)
                } else {
                    proof {
                        assert forall|k: u32| #[trigger] self@.contains_key(k) implies !(k <= init_tick) by {
                            assert(dom.contains(k));
                        }
                    }
                    None
                }
            },
        }
    }

    /// Pops the next packet that is at least as old as `init_tick`: the first packet (in order of arrival)
    /// of the least queued tick, when that tick is at most `init_tick`.
    pub fn pop_if_le(&mut self, init_tick: u32) -> (r: Option<(u32, GamePacket)>)
        requires
            old(self).well_formed(),
        ensures
            final(self).well_formed(),
            has_ready(old(self)@, init_tick) ==> {
                let t = least_tick(old(self)@);
                &&& r == Some((t, old(self)@[t][0]))
                &&& final(self)@ == after_pop(old(self)@, t)
            },
            !has_ready(old(self)@, init_tick) ==> r is None && final(self)@ == old(self)@,
    {
        let t = match self.least_ready_tick(init_tick) {
            Some(t) => t,
            None => { return None; },
        };
        let ghost start = self@;
        proof {
            lemma_least_ready(start, init_tick);
            assert(start.contains_key(t));
        }
        let mut values = multimap_take_all(&mut self.queue, t);
        let first = values.remove(0);
        let ghost rest = values@;
        proof {
            assert(rest =~= start[t].drop_first());
        }
        for v in it: values.into_iter()
            invariant
                it.seq() == rest,
                rest == start[t].drop_first(),
                start.contains_key(t),
                self@ == (if it.index() == 0 {
                    start.remove(t)
                } else {
                    start.insert(t, rest.take(it.index()))
                }),
        {
            let ghost i = it.index();
            proof {
                assert(v == rest[i]);
            }
            multimap_append(&mut self.queue, t, v);
            proof {
                if i == 0 {
                    assert(rest.take(1) =~= seq![v]);
                    assert(!start.remove(t).contains_key(t));
                    assert(self@ =~= start.insert(t, rest.take(1)));
                } else {
                    assert(rest.take(i).push(v) =~= rest.take(i + 1));
                    assert(self@ =~= start.insert(t, rest.take(i + 1)));
                }
            }
        }
        proof {
            if rest.len() > 0 {
                assert(rest.take(rest.len() as int) =~= rest);
            }
            assert(self@ =~= after_pop(start, t));
        }
        Some((t, first))
    }

    /// Pops every packet whose tick is at most `init_tick`: by increasing tick, in order of arrival within a
    /// tick. The packets of later ticks keep waiting.
    pub fn drain_ready(&mut self, init_tick: u32) -> (r: Vec<GamePacket>)
        requires
            old(self).well_formed(),
        ensures
            final(self).well_formed(),
            r@ == ready_packets(old(self)@, init_tick),
            final(self)@ == waiting(old(self)@, init_tick),
    {
        let mut out: Vec<GamePacket> = Vec::new();
        let ghost start = self@;
        loop
            invariant
                start == old(self)@,
                self.well_formed(),
                out@ + ready_packets(self@, init_tick) == ready_packets(start, init_tick),
                waiting(self@, init_tick) == waiting(start, init_tick),
            ensures
                self.well_formed(),
                out@ == ready_packets(start, init_tick),
                self@ == waiting(start, init_tick),
            decreases ready_packets(self@, init_tick).len(),
        {
            let ghost cur = self@;
            match self.pop_if_le(init_tick) {
                Some((_, packet)) => {
                    proof {
                        lemma_least_ready(cur, init_tick);
                        lemma_ready_after_pop(cur, init_tick);
                        assert(out@.push(packet) + ready_packets(self@, init_tick) =~= out@ + ready_packets(cur, init_tick));
                        let t = least_tick(cur);
                        assert(waiting(self@, init_tick) =~= waiting(cur, init_tick));
                    }
                    out.push(packet);
                },
                None => {
                    proof {
                        assert(ready_packets(cur, init_tick) =~= Seq::<GamePacket>::empty());
                        assert(out@ =~= ready_packets(start, init_tick));
                        assert forall|k: u32| #[trigger] self@.contains_key(k) implies k > init_tick by {
                            if k <= init_tick {
                                assert(has_ready(cur, init_tick));
                            }
                        }
                        assert(self@ =~= waiting(self@, init_tick));
                    }
                    break;
                },
            }
        }
        out
    }

    /// Clears queued packets (after a disconnect, so that nothing leaks across a reconnect).
    pub fn clear(&mut self)
        ensures
            final(self).well_formed(),
            final(self)@ == Map::<u32, Seq<GamePacket>>::empty(),
    {
        multimap_clear(&mut self.queue);
        proof {
            assert(self@ =~= Map::<u32, Seq<GamePacket>>::empty());
        }
    }

    /// True when no packet is queued.
    pub fn is_empty(&self) -> (r: bool)
        ensures
            r == (self@.dom() == Set::<u32>::empty()),
    {
        let keys = multimap_keys(&self.queue);
        proof {
            if keys@.len() == 0 {
                assert(self@.dom() =~= Set::<u32>::empty());
            } else {
                assert(keys@.to_set().contains(keys@[0]));
            }
        }
        keys.len() == 0
    }

    /// Handles one message received from the server on a channel of kind `send_policy`.
    /// - A message without a readable replication tick is ignored (`None`, queue unchanged).
    /// - A packet whose tick replication has reached (`replicated_tick`) is handed back for delivery.
    /// - Any other packet is queued under its tick, after the packets already queued there, and `None` is
    ///   returned.
    pub fn receive_server_message(&mut self, send_policy: ChannelKind, message: Vec<u8>, replicated_tick: u32) -> (r:
        Option<GamePacket>)
        requires
            old(self).well_formed(),
        ensures
            final(self).well_formed(),
            match tick_prefix_decoding(message@) {
                None => r is None && final(self)@ == old(self)@,
                Some((tick, used)) => if deliverable(tick, replicated_tick) {
                    &&& r matches Some(p) && p.send_policy == send_policy && p.message@ == message@.skip(used as int)
                    &&& final(self)@ == old(self)@
                } else {
                    let queued = final(self)@[tick].last();
                    &&& r is None
                    &&& queued.send_policy == send_policy
                    &&& queued.message@ == message@.skip(used as int)
                    &&& final(self)@ == appended(old(self)@, tick, queued)
                },
            },
            tick_prefix_decoding(message@) matches Some((tick, _)) ==> (r is Some <==> tick <= replicated_tick),
            tick_prefix_decoding(message@) matches Some((tick, _)) ==> (tick > replicated_tick ==> final(self)@.contains_key(tick)),
    {
        let ticked = match split_server_message(send_policy, message) {
            Some(t) => t,
            None => { return None; },
        };
        proof {
            crate::ticks::lemma_deliverable_exactly_when_reached(ticked.tick, replicated_tick);
        }
        if is_deliverable(ticked.tick, replicated_tick) {
            Some(ticked.packet)
        } else {
            let ghost packet = ticked.packet;
            self.insert(ticked.tick, ticked.packet);
            proof {
                assert(self@[ticked.tick].last() == packet);
            }
            None
        }
    }
}

} // verus!
