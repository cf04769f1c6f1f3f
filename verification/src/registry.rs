//! The connected clients: which address owns which outgoing channel.
use crate::channel::{
    accepted_frames, buffer_limit, capacity, feeds, frame_channel, sole, try_send, Frame, FrameView,
    SendOutcome,
};
use scc::HashMap;
use std::hash::BuildHasher;
use tokio::sync::mpsc::{Receiver, Sender};
use vstd::prelude::*;

verus! {

/// How many frames the channel of one connection buffers.
pub const CHANNEL_BUFFER_SIZE: usize = 50;

/// How many milliseconds a frame may wait for room in a full channel.
pub const SEND_TIMEOUT_MS: u64 = 5;

/// How many milliseconds lie between two attempts to hand over a frame that waits.
pub const RETRY_INTERVAL_MS: u64 = 1;

/// `scc::HashMap`, the concurrent hash map that the address index is kept in.
#[verifier::external_type_specification]
#[verifier::external_body]
#[verifier::reject_recursive_types(K)]
#[verifier::reject_recursive_types(V)]
#[verifier::reject_recursive_types(H)]
pub struct ExHashMap<K, V, H: BuildHasher>(HashMap<K, V, H>);

/// The entries of an address index: the slot number under each address.
pub uninterp spec fn index_entries(index: HashMap<String, usize>) -> Map<Seq<char>, usize>;

/// `scc::HashMap::new`: the map starts without entries.
#[verifier::external_body]
fn index_new() -> (index: HashMap<String, usize>)
    ensures
        index_entries(index).is_empty(),
{
    HashMap::new()
}

/// `scc::HashMap::insert`: a new key is added with its value; a key that is there already keeps
/// the value it has, and the call is refused.
#[verifier::external_body]
fn index_insert(index: &mut HashMap<String, usize>, addr: String, slot: usize) -> (inserted: bool)
    requires
        index_entries(*old(index)).len() < u32::MAX,
    ensures
        inserted == !index_entries(*old(index)).contains_key(addr@),
        index_entries(*final(index)) == if inserted {
            index_entries(*old(index)).insert(addr@, slot)
        } else {
            index_entries(*old(index))
        },
{
    index.insert(addr, slot).is_ok()
}

/// `scc::HashMap::remove`: the entry under the key is taken out and its value handed back; without
/// such an entry nothing changes.
#[verifier::external_body]
fn index_remove(index: &mut HashMap<String, usize>, addr: &str) -> (slot: Option<usize>)
    ensures
        slot == index_entries(*old(index)).get(addr@),
        index_entries(*final(index)) == index_entries(*old(index)).remove(addr@),
{
    index.remove(addr).map(|entry| entry.1)
}

/// `scc::HashMap::get`: the value under the key, if the key is there.
#[verifier::external_body]
fn index_get(index: &HashMap<String, usize>, addr: &str) -> (slot: Option<usize>)
    ensures
        slot == index_entries(*index).get(addr@),
{
    index.get(addr).map(|entry| *entry.get())
}

/// `scc::HashMap::len`: the number of entries, which stay as they are. The count can be off while
/// someone else uses the map, for it adds up two tables between which entries may be on the move:
/// hence the exclusive borrow.
#[verifier::external_body]
fn index_len(index: &mut HashMap<String, usize>) -> (count: usize)
    ensures
        count == index_entries(*old(index)).len(),
        index_entries(*final(index)) == index_entries(*old(index)),
{
    index.len()
}

/// Whether `list` holds every entry of `entries`, each once, in whatever order.
pub open spec fn lists_entries(
    list: Seq<(String, usize)>,
    entries: Map<Seq<char>, usize>,
) -> bool {
    &&& forall|i: int|
        #![trigger list[i]]
        0 <= i < list.len() ==> entries.contains_key(list[i].0@) && entries[list[i].0@]
            == list[i].1
    &&& forall|i: int, j: int| 0 <= i < j < list.len() ==> list[i].0@ != list[j].0@
    &&& forall|addr: Seq<char>| #[trigger]
        entries.contains_key(addr) ==> exists|i: int|
            0 <= i < list.len() && (#[trigger] list[i]).0@ == addr
}

/// `scc::HashMap::scan`: each entry of a map that no one else is changing is visited once. The
/// order of the visits is left open.
#[verifier::external_body]
fn index_scan(index: &HashMap<String, usize>) -> (list: Vec<(String, usize)>)
    ensures
        lists_entries(list@, index_entries(*index)),
{
    let mut list = Vec::new();
    index.scan(|addr, slot| list.push((addr.clone(), *slot)));
    list
}

/// A list of all entries is as long as the map that it lists.
proof fn lemma_list_len(list: Seq<(String, usize)>, entries: Map<Seq<char>, usize>)
    requires
        lists_entries(list, entries),
    ensures
        list.len() == entries.len(),
{
    let keys = list.map_values(|entry: (String, usize)| entry.0@);
    assert(keys.no_duplicates());
    keys.unique_seq_to_set();
    assert(keys.to_set() =~= entries.dom()) by {
        assert forall|addr: Seq<char>| entries.contains_key(addr) implies keys.contains(addr) by {
            let i = choose|i: int| 0 <= i < list.len() && (#[trigger] list[i]).0@ == addr;
            assert(keys[i] == addr);
        }
        assert forall|addr: Seq<char>| keys.contains(addr) implies entries.contains_key(addr) by {
            let i = choose|i: int| 0 <= i < keys.len() && keys[i] == addr;
            assert(list[i].0@ == addr);
        }
    }
}

/// What became of one frame at one connection.
pub struct Delivery {
    pub addr: String,
    pub outcome: SendOutcome,
}

/// Whether `deliveries` tells for each connected address, once, what became of `frame`, and the
/// channels went from `before` to `after` accordingly.
pub open spec fn delivers(
    before: Map<Seq<char>, Seq<FrameView>>,
    after: Map<Seq<char>, Seq<FrameView>>,
    frame: FrameView,
    deliveries: Seq<Delivery>,
) -> bool {
    &&& deliveries.len() == before.len()
    &&& after.dom() == before.dom()
    &&& forall|i: int, j: int|
        0 <= i < j < deliveries.len() ==> deliveries[i].addr@ != deliveries[j].addr@
    &&& forall|addr: Seq<char>| #[trigger]
        before.contains_key(addr) ==> exists|i: int|
            0 <= i < deliveries.len() && (#[trigger] deliveries[i]).addr@ == addr
    &&& forall|i: int|
        0 <= i < deliveries.len() ==> {
            let addr = (#[trigger] deliveries[i]).addr@;
            &&& before.contains_key(addr)
            &&& after[addr] == if deliveries[i].outcome is Sent {
                before[addr].push(frame)
            } else {
                before[addr]
            }
            &&& deliveries[i].outcome is Full ==> before[addr].len() >= CHANNEL_BUFFER_SIZE
        }
}

/// No two deliveries are to the same address.
pub open spec fn to_different_addresses(deliveries: Seq<Delivery>) -> bool {
    forall|i: int, j: int|
        0 <= i < j < deliveries.len() ==> deliveries[i].addr@ != deliveries[j].addr@
}

/// Some delivery is to `addr`.
pub open spec fn delivered_to(deliveries: Seq<Delivery>, addr: Seq<char>) -> bool {
    exists|i: int| 0 <= i < deliveries.len() && (#[trigger] deliveries[i]).addr@ == addr
}

/// Whether `later` tells what became of `frame` when the channels that had been full according to
/// `earlier` were tried again, and the channels went from `before` to `after` accordingly. An
/// address that is not connected any more counts as closed.
pub open spec fn redelivers(
    before: Map<Seq<char>, Seq<FrameView>>,
    after: Map<Seq<char>, Seq<FrameView>>,
    frame: FrameView,
    earlier: Seq<Delivery>,
    later: Seq<Delivery>,
) -> bool {
    &&& later.len() == earlier.len()
    &&& after.dom() == before.dom()
    &&& forall|i: int|
        0 <= i < later.len() ==> {
            let addr = earlier[i].addr@;
            &&& (#[trigger] later[i]).addr@ == addr
            &&& earlier[i].outcome !is Full ==> later[i].outcome == earlier[i].outcome
            &&& earlier[i].outcome is Full && !before.contains_key(addr) ==> later[i].outcome
                is Closed
            &&& later[i].outcome is Full ==> before[addr].len() >= CHANNEL_BUFFER_SIZE
            &&& before.contains_key(addr) ==> after[addr] == if earlier[i].outcome is Full
                && later[i].outcome is Sent {
                before[addr].push(frame)
            } else {
                before[addr]
            }
        }
    &&& forall|addr: Seq<char>| #[trigger]
        before.contains_key(addr) && !delivered_to(earlier, addr) ==> after[addr] == before[addr]
}

/// The room that the channel of one connection has left.
pub struct Room {
    pub addr: String,
    pub free: usize,
}

/// Whether `rooms` tells of each channel, once, how much room it has left: as much as it was made
/// for, less at most the frames that it has accepted.
pub open spec fn measures(rooms: Seq<Room>, channels: Map<Seq<char>, Seq<FrameView>>) -> bool {
    &&& rooms.len() == channels.len()
    &&& forall|i: int, j: int| 0 <= i < j < rooms.len() ==> rooms[i].addr@ != rooms[j].addr@
    &&& forall|i: int|
        0 <= i < rooms.len() ==> {
            let addr = (#[trigger] rooms[i]).addr@;
            &&& channels.contains_key(addr)
            &&& rooms[i].free <= CHANNEL_BUFFER_SIZE
            &&& rooms[i].free + channels[addr].len() >= CHANNEL_BUFFER_SIZE
        }
}

/// The outgoing channels of the connected clients, found by address.
pub struct Connections {
    index: HashMap<String, usize>,
    slots: Vec<Option<Sender<Frame>>>,
}

impl View for Connections {
    type V = Map<Seq<char>, Seq<FrameView>>;

    /// For each connected address, the frames that its channel has accepted, oldest first.
    closed spec fn view(&self) -> Map<Seq<char>, Seq<FrameView>> {
        Map::new(
            |addr: Seq<char>| index_entries(self.index).contains_key(addr),
            |addr: Seq<char>| accepted_frames(self.channel_of(addr)),
        )
    }
}

impl Connections {
    /// The channel of a connected address.
    pub closed spec fn channel_of(self, addr: Seq<char>) -> Sender<Frame> {
        self.slots@[index_entries(self.index)[addr] as int]->0
    }

    /// Every address has a channel of the agreed size to itself, and there are no other channels.
    pub closed spec fn wf(self) -> bool {
        let entries = index_entries(self.index);
        &&& entries.dom().finite()
        &&& forall|addr: Seq<char>| #[trigger]
            entries.contains_key(addr) ==> {
                &&& entries[addr] < self.slots@.len()
                &&& self.slots@[entries[addr] as int] is Some
                &&& buffer_limit(self.channel_of(addr)) == CHANNEL_BUFFER_SIZE
                &&& sole(self.channel_of(addr))
            }
        &&& forall|a: Seq<char>, b: Seq<char>|
            entries.contains_key(a) && entries.contains_key(b) && #[trigger] entries[a]
                == #[trigger] entries[b] ==> a == b
        &&& forall|i: int|
            0 <= i < self.slots@.len() && (#[trigger] self.slots@[i]) is Some ==> exists|
                addr: Seq<char>,
            | #[trigger]
                entries.contains_key(addr) && entries[addr] == i
    }

    /// Only so many clients are connected.
    pub proof fn lemma_finite(self)
        requires
            self.wf(),
        ensures
            self@.dom().finite(),
    {
        assert(self@.dom() =~= index_entries(self.index).dom());
    }

    /// The channel of a connected address buffers the agreed number of frames, and nothing else
    /// leads into it.
    pub proof fn lemma_channel(self, addr: Seq<char>)
        requires
            self.wf(),
            self@.contains_key(addr),
        ensures
            buffer_limit(self.channel_of(addr)) == CHANNEL_BUFFER_SIZE,
            sole(self.channel_of(addr)),
            self@[addr] == accepted_frames(self.channel_of(addr)),
    {
        assert(index_entries(self.index).contains_key(addr));
    }

    /// No client is connected.
    pub fn new() -> (connections: Connections)
        ensures
            connections.wf(),
            connections@ == Map::<Seq<char>, Seq<FrameView>>::empty(),
    {
        let connections = Connections { index: index_new(), slots: Vec::new() };
        assert(connections@ =~= Map::<Seq<char>, Seq<FrameView>>::empty());
        connections
    }

    /// The channels are those of `other`, address by address.
    pub open spec fn same_channels(self, other: Connections) -> bool {
        &&& self@ == other@
        &&& forall|addr: Seq<char>|
            self@.contains_key(addr) ==> #[trigger] self.channel_of(addr) == other.channel_of(addr)
    }

    /// The number of connected clients.
    pub fn len(&mut self) -> (count: usize)
        ensures
            count == old(self)@.len(),
            final(self).same_channels(*old(self)),
            old(self).wf() ==> final(self).wf(),
    {
        let ghost before = *self;
        assert(self@.dom() =~= index_entries(self.index).dom());
        let count = index_len(&mut self.index);
        assert(self@ =~= before@);
        count
    }

    /// The first slot that holds no channel, or the length of the slot table.
    fn free_slot(&self) -> (slot: usize)
        ensures
            slot <= self.slots@.len(),
            slot < self.slots@.len() ==> self.slots@[slot as int] is None,
    {
        let mut slot: usize = 0;
        while slot < self.slots.len() && self.slots[slot].is_some()
            invariant
                slot <= self.slots@.len(),
            decreases self.slots@.len() - slot,
        {
            slot = slot + 1;
        }
        slot
    }

    /// Opens a channel for `addr` and hands back its receiving end. An address that is connected
    /// already keeps the channel that it has; the new one is then without a sender.
    pub fn register(&mut self, addr: String) -> (result: (Receiver<Frame>, bool))
        requires
            old(self).wf(),
            old(self)@.len() < u32::MAX,
        ensures
            final(self).wf(),
            result.1 == !old(self)@.contains_key(addr@),
            final(self)@ == if result.1 {
                old(self)@.insert(addr@, Seq::empty())
            } else {
                old(self)@
            },
            result.1 ==> feeds(final(self).channel_of(addr@), result.0),
            buffer_limit(final(self).channel_of(addr@)) == CHANNEL_BUFFER_SIZE,
            forall|other: Seq<char>| #[trigger]
                old(self)@.contains_key(other) ==> final(self).channel_of(other) == old(
                    self,
                ).channel_of(other),
    {
        let ghost before = *self;
        let ghost key = addr@;
        assert(self@.dom() =~= index_entries(self.index).dom());
        let (sender, receiver) = frame_channel(CHANNEL_BUFFER_SIZE);
        let slot = self.free_slot();
        let inserted = index_insert(&mut self.index, addr, slot);
        if inserted {
            if slot < self.slots.len() {
                self.slots.set(slot, Some(sender));
            } else {
                self.slots.push(Some(sender));
            }
            proof {
                let entries = index_entries(self.index);
                assert forall|i: int|
                    0 <= i < self.slots@.len() && (#[trigger] self.slots@[i])
                        is Some implies exists|addr: Seq<char>| #[trigger]
                    entries.contains_key(addr) && entries[addr] == i by {
                    if i == slot {
                        assert(entries.contains_key(key));
                    } else {
                        assert(before.slots@[i] is Some);
                        let a = choose|addr: Seq<char>| #[trigger]
                            index_entries(before.index).contains_key(addr) && index_entries(
                                before.index,
                            )[addr] == i;
                        assert(entries.contains_key(a));
                    }
                }
                assert(self@ =~= before@.insert(key, Seq::empty()));
            }
        }
        (receiver, inserted)
    }

    /// Forgets `addr` and drops the sending end of its channel. Says whether it was connected.
    pub fn unregister(&mut self, addr: &str) -> (present: bool)
        requires
            old(self).wf(),
        ensures
            final(self).wf(),
            present == old(self)@.contains_key(addr@),
            final(self)@ == old(self)@.remove(addr@),
            forall|other: Seq<char>| #[trigger]
                final(self)@.contains_key(other) ==> final(self).channel_of(other) == old(
                    self,
                ).channel_of(other),
    {
        let ghost before = *self;
        match index_remove(&mut self.index, addr) {
            Some(slot) => {
                assert(index_entries(before.index).contains_key(addr@));
                self.slots.set(slot, None);
                proof {
                    let entries = index_entries(self.index);
                    assert forall|i: int|
                        0 <= i < self.slots@.len() && (#[trigger] self.slots@[i])
                            is Some implies exists|addr: Seq<char>| #[trigger]
                        entries.contains_key(addr) && entries[addr] == i by {
                        assert(before.slots@[i] is Some);
                        let a = choose|addr: Seq<char>| #[trigger]
                            index_entries(before.index).contains_key(addr) && index_entries(
                                before.index,
                            )[addr] == i;
                        assert(entries.contains_key(a));
                    }
                    assert(self@ =~= before@.remove(addr@));
                }
                true
            },
            None => {
                assert(index_entries(self.index) =~= index_entries(before.index));
                assert(self@ =~= before@.remove(addr@));
                false
            },
        }
    }

    /// Hands `frame` to the channel of `addr` and says what became of it, together with the room
    /// that the channel has afterwards. `None` if `addr` is not connected.
    pub fn try_send(&mut self, addr: &str, frame: Frame) -> (result: Option<(SendOutcome, usize)>)
        requires
            old(self).wf(),
        ensures
            final(self).wf(),
            result is Some <==> old(self)@.contains_key(addr@),
            result matches Some(sent) ==> {
                &&& sent.0 is Full ==> old(self)@[addr@].len() >= CHANNEL_BUFFER_SIZE
                &&& sent.1 <= CHANNEL_BUFFER_SIZE
                &&& sent.1 + final(self)@[addr@].len() >= CHANNEL_BUFFER_SIZE
            },
            final(self)@ == match result {
                Some((SendOutcome::Sent, _)) => old(self)@.insert(
                    addr@,
                    old(self)@[addr@].push(frame@),
                ),
                _ => old(self)@,
            },
            final(self).same_receivers(*old(self)),
    {
        let ghost before = *self;
        match index_get(&self.index, addr) {
            Some(slot) => {
                let ghost entries = index_entries(self.index);
                assert(entries.contains_key(addr@));
                let ghost text = frame@;
                match &mut self.slots[slot] {
                    Some(sender) => {
                        let outcome = try_send(sender, frame);
                        let room = capacity(sender);
                        proof {
                            assert(self.slots@ =~= before.slots@.update(
                                slot as int,
                                self.slots@[slot as int],
                            ));
                            assert(self.slots@[slot as int] is Some);
                            assert forall|other: Seq<char>| #[trigger]
                                entries.contains_key(other) && other != addr@ implies self.channel_of(
                                other,
                            ) == before.channel_of(other) by {
                                assert(entries[other] != entries[addr@]);
                            }
                            if outcome is Sent {
                                assert(self@ =~= before@.insert(addr@, before@[addr@].push(text)));
                            } else {
                                assert(self@ =~= before@);
                            }
                        }
                        Some((outcome, room))
                    },
                    None => None,
                }
            },
            None => None,
        }
    }

    /// The addresses are those of `other`, and each still sends to the same receiver.
    pub open spec fn same_receivers(self, other: Connections) -> bool {
        &&& self@.dom() == other@.dom()
        &&& forall|addr: Seq<char>, receiver: Receiver<Frame>|
            self@.contains_key(addr) ==> (#[trigger] feeds(self.channel_of(addr), receiver)
                <==> feeds(other.channel_of(addr), receiver))
    }

    /// Hands a copy of `frame` to every channel and says what became of each.
    pub fn try_send_all(&mut self, frame: &Frame) -> (deliveries: Vec<Delivery>)
        requires
            old(self).wf(),
        ensures
            final(self).wf(),
            delivers(old(self)@, final(self)@, frame@, deliveries@),
            final(self).same_receivers(*old(self)),
    {
        let list = index_scan(&self.index);
        let ghost before = *self;
        let ghost entries = index_entries(self.index);
        let mut deliveries: Vec<Delivery> = Vec::new();
        let mut i: usize = 0;
        while i < list.len()
            invariant
                before.wf(),
                entries == index_entries(before.index),
                self.index == before.index,
                lists_entries(list@, entries),
                i <= list@.len(),
                deliveries@.len() == i,
                self.slots@.len() == before.slots@.len(),
                forall|k: int|
                    0 <= k < self.slots@.len() ==> ((#[trigger] self.slots@[k]) is Some
                        <==> before.slots@[k] is Some),
                forall|k: int|
                    0 <= k < i ==> (#[trigger] deliveries@[k]).addr@ == list@[k].0@,
                forall|k: int|
                    #![trigger list@[k]]
                    #![trigger deliveries@[k]]
                    0 <= k < i ==> {
                        let slot = list@[k].1 as int;
                        let now = self.slots@[slot]->0;
                        let then = before.slots@[slot]->0;
                        &&& buffer_limit(now) == buffer_limit(then)
                        &&& sole(now) == sole(then)
                        &&& deliveries@[k].outcome is Full ==> accepted_frames(then).len()
                            >= CHANNEL_BUFFER_SIZE
                        &&& accepted_frames(now) == if deliveries@[k].outcome is Sent {
                            accepted_frames(then).push(frame@)
                        } else {
                            accepted_frames(then)
                        }
                        &&& forall|receiver: Receiver<Frame>| #[trigger]
                            feeds(now, receiver) <==> feeds(then, receiver)
                    },
                forall|k: int|
                    i <= k < list@.len() ==> self.slots@[(#[trigger] list@[k]).1 as int]
                        == before.slots@[list@[k].1 as int],
            decreases list@.len() - i,
        {
            let slot = list[i].1;
            assert(entries.contains_key(list@[i as int].0@));
            assert forall|k: int| 0 <= k < list@.len() && k != i implies (#[trigger] list@[k]).1
                != slot by {
                assert(list@[k].0@ != list@[i as int].0@);
                assert(entries[list@[k].0@] == list@[k].1);
            }
            match &mut self.slots[slot] {
                Some(sender) => {
                    let outcome = try_send(sender, frame.clone());
                    deliveries.push(Delivery { addr: list[i].0.clone(), outcome });
                },
                None => {},
            }
            i = i + 1;
        }
        proof {
            lemma_list_len(list@, entries);
            assert(self@.dom() =~= entries.dom());
            assert(before@.dom() =~= entries.dom());
            assert forall|addr: Seq<char>| #[trigger] entries.contains_key(addr) implies exists|
                i: int,
            |
                0 <= i < deliveries@.len() && (#[trigger] deliveries@[i]).addr@ == addr by {
                let k = choose|i: int| 0 <= i < list@.len() && (#[trigger] list@[i]).0@ == addr;
                assert(deliveries@[k].addr@ == addr);
            }
            assert forall|addr: Seq<char>| #[trigger] entries.contains_key(addr) implies {
                &&& buffer_limit(self.channel_of(addr)) == CHANNEL_BUFFER_SIZE
                &&& sole(self.channel_of(addr))
                &&& forall|receiver: Receiver<Frame>| #[trigger]
                    feeds(self.channel_of(addr), receiver) <==> feeds(
                        before.channel_of(addr),
                        receiver,
                    )
            } by {
                let k = choose|i: int| 0 <= i < list@.len() && (#[trigger] list@[i]).0@ == addr;
                assert(entries[addr] == list@[k].1);
            }
            assert forall|k: int| 0 <= k < deliveries@.len() implies {
                let addr = (#[trigger] deliveries@[k]).addr@;
                &&& before@.contains_key(addr)
                &&& self@[addr] == if deliveries@[k].outcome is Sent {
                    before@[addr].push(frame@)
                } else {
                    before@[addr]
                }
                &&& deliveries@[k].outcome is Full ==> before@[addr].len() >= CHANNEL_BUFFER_SIZE
            } by {
                assert(entries.contains_key(list@[k].0@));
            }
        }
        deliveries
    }

    /// Hands a copy of `frame` once more to the channels that were full, and notes what became of
    /// each.
    pub fn retry_full(&mut self, frame: &Frame, deliveries: &mut Vec<Delivery>)
        requires
            old(self).wf(),
            to_different_addresses(old(deliveries)@),
        ensures
            final(self).wf(),
            redelivers(old(self)@, final(self)@, frame@, old(deliveries)@, final(deliveries)@),
            final(self).same_receivers(*old(self)),
    {
        let ghost before = *self;
        let ghost earlier = deliveries@;
        let mut i: usize = 0;
        while i < deliveries.len()
            invariant
                self.wf(),
                self.same_receivers(before),
                to_different_addresses(earlier),
                i <= deliveries@.len() == earlier.len(),
                forall|k: int|
                    0 <= k < i ==> {
                        let addr = earlier[k].addr@;
                        &&& (#[trigger] deliveries@[k]).addr@ == addr
                        &&& earlier[k].outcome !is Full ==> deliveries@[k].outcome
                            == earlier[k].outcome
                        &&& earlier[k].outcome is Full && !before@.contains_key(addr)
                            ==> deliveries@[k].outcome is Closed
                        &&& deliveries@[k].outcome is Full ==> before@[addr].len()
                            >= CHANNEL_BUFFER_SIZE
                        &&& before@.contains_key(addr) ==> self@[addr]
                            == if earlier[k].outcome is Full && deliveries@[k].outcome is Sent {
                            before@[addr].push(frame@)
                        } else {
                            before@[addr]
                        }
                    },
                forall|k: int| i <= k < earlier.len() ==> #[trigger] deliveries@[k] == earlier[k],
                forall|k: int|
                    i <= k < earlier.len() && before@.contains_key(
                        (#[trigger] earlier[k]).addr@,
                    ) ==> self@[earlier[k].addr@] == before@[earlier[k].addr@],
                forall|addr: Seq<char>| #[trigger]
                    before@.contains_key(addr) && !delivered_to(earlier, addr) ==> self@[addr]
                        == before@[addr],
            decreases earlier.len() - i,
        {
            let ghost now = *self;
            assert(deliveries@[i as int] == earlier[i as int]);
            assert(delivered_to(earlier, earlier[i as int].addr@));
            if let SendOutcome::Full = deliveries[i].outcome {
                let addr = deliveries[i].addr.clone();
                let outcome = match self.try_send(addr.as_str(), frame.clone()) {
                    Some(sent) => sent.0,
                    None => SendOutcome::Closed,
                };
                assert forall|other: Seq<char>|
                    before@.contains_key(other) && other != addr@ implies #[trigger] self@[other]
                    == now@[other] by {}
                deliveries.set(i, Delivery { addr, outcome });
            }
            i = i + 1;
        }
    }

    /// For each connection, in no particular order, the room that its channel has left.
    pub fn rooms(&self) -> (rooms: Vec<Room>)
        requires
            self.wf(),
        ensures
            measures(rooms@, self@),
    {
        let list = index_scan(&self.index);
        let ghost entries = index_entries(self.index);
        let mut rooms: Vec<Room> = Vec::new();
        let mut i: usize = 0;
        while i < list.len()
            invariant
                self.wf(),
                entries == index_entries(self.index),
                lists_entries(list@, entries),
                i <= list@.len(),
                rooms@.len() == i,
                forall|k: int|
                    0 <= k < i ==> {
                        let addr = (#[trigger] rooms@[k]).addr@;
                        &&& addr == list@[k].0@
                        &&& self@.contains_key(addr)
                        &&& rooms@[k].free <= CHANNEL_BUFFER_SIZE
                        &&& rooms@[k].free + self@[addr].len() >= CHANNEL_BUFFER_SIZE
                    },
            decreases list@.len() - i,
        {
            let ghost key = list@[i as int].0@;
            assert(entries.contains_key(key));
            match &self.slots[list[i].1] {
                Some(sender) => {
                    assert(*sender == self.channel_of(key));
                    assert(self@.contains_key(key));
                    rooms.push(Room { addr: list[i].0.clone(), free: capacity(sender) });
                },
                None => {},
            }
            i = i + 1;
        }
        proof {
            lemma_list_len(list@, entries);
            assert(self@.dom() =~= entries.dom());
        }
        rooms
    }
}

} // verus!
