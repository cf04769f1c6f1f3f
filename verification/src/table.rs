//! The connected clients of the stand-alone server, found by address.
use crate::channel::Frame;
use tokio::sync::mpsc::Sender;
use vstd::prelude::*;

verus! {

/// A connected client.
pub struct Connection {
    pub addr: String,
    pub sender: Sender<Frame>,
}

/// The connected clients, each address once.
pub struct ConnectionTable {
    entries: Vec<Connection>,
}

impl View for ConnectionTable {
    type V = Map<Seq<char>, Sender<Frame>>;

    /// The sending end of each connected address's channel.
    closed spec fn view(&self) -> Map<Seq<char>, Sender<Frame>> {
        Map::new(
            |addr: Seq<char>| self.has(addr),
            |addr: Seq<char>| self.entries@[self.position(addr)].sender,
        )
    }
}

impl ConnectionTable {
    /// Some entry is for `addr`.
    spec fn has(self, addr: Seq<char>) -> bool {
        exists|i: int| 0 <= i < self.entries@.len() && (#[trigger] self.entries@[i]).addr@ == addr
    }

    /// Where the entry for `addr` is.
    spec fn position(self, addr: Seq<char>) -> int {
        choose|i: int| 0 <= i < self.entries@.len() && (#[trigger] self.entries@[i]).addr@ == addr
    }

    /// No address is there twice.
    pub closed spec fn wf(self) -> bool {
        forall|i: int, j: int|
            0 <= i < j < self.entries@.len() ==> self.entries@[i].addr@ != self.entries@[j].addr@
    }

    /// An entry is found under its address.
    proof fn lemma_entry(self, i: int)
        requires
            self.wf(),
            0 <= i < self.entries@.len(),
        ensures
            self@.contains_key(self.entries@[i].addr@),
            self@[self.entries@[i].addr@] == self.entries@[i].sender,
    {
        let addr = self.entries@[i].addr@;
        assert(self.has(addr));
        assert(self.position(addr) == i);
    }

    /// The addresses are as many as the entries.
    proof fn lemma_len(self)
        requires
            self.wf(),
        ensures
            self@.len() == self.entries@.len(),
    {
        let addrs = self.entries@.map_values(|connection: Connection| connection.addr@);
        assert(addrs.no_duplicates());
        addrs.unique_seq_to_set();
        assert(addrs.to_set() =~= self@.dom()) by {
            assert forall|addr: Seq<char>| self.has(addr) implies addrs.contains(addr) by {
                assert(addrs[self.position(addr)] == addr);
            }
            assert forall|addr: Seq<char>| addrs.contains(addr) implies self.has(addr) by {
                let i = choose|i: int| 0 <= i < addrs.len() && addrs[i] == addr;
                assert(self.entries@[i].addr@ == addr);
            }
        }
    }

    /// No client is connected.
    pub fn new() -> (table: ConnectionTable)
        ensures
            table.wf(),
            table@.is_empty(),
    {
        let table = ConnectionTable { entries: Vec::new() };
        assert(table@.dom() =~= Set::empty());
        table
    }

    /// The number of connected clients.
    pub fn len(&self) -> (count: usize)
        requires
            self.wf(),
        ensures
            count == self@.len(),
    {
        proof {
            self.lemma_len();
        }
        self.entries.len()
    }

    /// Where the entry for `addr` is, if there is one.
    fn find(&self, addr: &str) -> (found: Option<usize>)
        requires
            self.wf(),
        ensures
            match found {
                Some(i) => i < self.entries@.len() && self.entries@[i as int].addr@ == addr@,
                None => !self.has(addr@),
            },
    {
        let wanted = addr.to_string();
        let mut i: usize = 0;
        while i < self.entries.len()
            invariant
                i <= self.entries@.len(),
                wanted@ == addr@,
                forall|k: int| 0 <= k < i ==> (#[trigger] self.entries@[k]).addr@ != addr@,
            decreases self.entries@.len() - i,
        {
            if self.entries[i].addr == wanted {
                return Some(i);
            }
            i = i + 1;
        }
        None
    }

    /// Sets the channel of `addr`, in place of the one that it may have had.
    pub fn insert(&mut self, addr: String, sender: Sender<Frame>)
        requires
            old(self).wf(),
        ensures
            final(self).wf(),
            final(self)@ == old(self)@.insert(addr@, sender),
    {
        let ghost before = *self;
        let ghost key = addr@;
        match self.find(addr.as_str()) {
            Some(i) => {
                self.entries.set(i, Connection { addr, sender });
                proof {
                    self.lemma_entry(i as int);
                    assert forall|other: Seq<char>| self.has(other) <==> (before.has(other)
                        || other == key) by {
                        if self.has(other) && other != key {
                            assert(before.entries@[self.position(other)].addr@ == other);
                        }
                        if before.has(other) && other != key {
                            assert(self.entries@[before.position(other)].addr@ == other);
                        }
                    }
                    assert forall|other: Seq<char>| before.has(other) && other != key implies self@[
                        other
                    ] == before@[other] by {
                        let k = before.position(other);
                        before.lemma_entry(k);
                        self.lemma_entry(k);
                    }
                }
            },
            None => {
                self.entries.push(Connection { addr, sender });
                proof {
                    self.lemma_entry(self.entries@.len() - 1);
                    assert forall|other: Seq<char>| self.has(other) <==> (before.has(other)
                        || other == key) by {
                        if self.has(other) && other != key {
                            assert(before.entries@[self.position(other)].addr@ == other);
                        }
                        if before.has(other) {
                            assert(self.entries@[before.position(other)].addr@ == other);
                        }
                    }
                    assert forall|other: Seq<char>| before.has(other) implies self@[other]
                        == before@[other] by {
                        let k = before.position(other);
                        before.lemma_entry(k);
                        self.lemma_entry(k);
                    }
                }
            },
        }
        assert(self@ =~= before@.insert(key, sender));
    }

    /// Forgets `addr`.
    pub fn remove(&mut self, addr: &str)
        requires
            old(self).wf(),
        ensures
            final(self).wf(),
            final(self)@ == old(self)@.remove(addr@),
    {
        let ghost before = *self;
        if let Some(i) = self.find(addr) {
            self.entries.remove(i);
            proof {
                assert forall|k: int| 0 <= k < self.entries@.len() implies #[trigger] self.entries@[k]
                    == before.entries@[if k < i {
                    k
                } else {
                    k + 1
                }] by {}
                assert forall|other: Seq<char>| self.has(other) <==> (before.has(other) && other
                    != addr@) by {
                    if self.has(other) {
                        let k = self.position(other);
                        let b = if k < i {
                            k
                        } else {
                            k + 1
                        };
                        assert(before.entries@[b].addr@ == other);
                    }
                    if before.has(other) && other != addr@ {
                        let b = before.position(other);
                        assert(b != i);
                        let k = if b < i {
                            b
                        } else {
                            b - 1
                        };
                        assert(self.entries@[k].addr@ == other);
                    }
                }
                assert forall|other: Seq<char>| self.has(other) implies self@[other]
                    == before@[other] by {
                    let k = self.position(other);
                    self.lemma_entry(k);
                    before.lemma_entry(
                        if k < i {
                            k
                        } else {
                            k + 1
                        },
                    );
                }
            }
        }
        assert(self@ =~= before@.remove(addr@));
    }

    /// The sending end of the channel of `addr`.
    pub fn get(&self, addr: &str) -> (sender: Option<&Sender<Frame>>)
        requires
            self.wf(),
        ensures
            match sender {
                Some(sender) => self@.contains_key(addr@) && *sender == self@[addr@],
                None => !self@.contains_key(addr@),
            },
    {
        match self.find(addr) {
            Some(i) => {
                proof {
                    self.lemma_entry(i as int);
                }
                Some(&self.entries[i].sender)
            },
            None => None,
        }
    }

    /// The connected clients in a row.
    pub fn entries(&self) -> (entries: &Vec<Connection>)
        requires
            self.wf(),
        ensures
            entries@.len() == self@.len(),
            forall|i: int|
                0 <= i < entries@.len() ==> self@.contains_pair(
                    (#[trigger] entries@[i]).addr@,
                    entries@[i].sender,
                ),
            forall|i: int, j: int|
                0 <= i < j < entries@.len() ==> entries@[i].addr@ != entries@[j].addr@,
    {
        proof {
            self.lemma_len();
            assert forall|i: int| 0 <= i < self.entries@.len() implies self@.contains_pair(
                (#[trigger] self.entries@[i]).addr@,
                self.entries@[i].sender,
            ) by {
                self.lemma_entry(i);
            }
        }
        &self.entries
    }
}

} // verus!
