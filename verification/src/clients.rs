//! The connection registry: one outbound queue per live connection.
//! Broadcast fan-out only enqueues; the boundary code's writer tasks drain
//! the queues and perform the socket writes, so a slow client backs up its
//! own queue and never the shared path.

use vstd::prelude::*;

use crate::codec::{enc_server_msg, encode_server_packet};
use crate::types::{valid_server_msg, WsServerPacket};

verus! {

/// The mathematical value of one registered connection.
#[verifier::ext_equal]
pub struct ClientV {
    /// The connection's identity.
    pub conn_id: u64,
    /// Encoded frames awaiting the connection's writer task, oldest first.
    pub queue: Seq<Seq<u8>>,
}

/// One registered connection and its pending outbound frames.
pub struct Client {
    /// The connection's identity.
    pub conn_id: u64,
    /// Encoded frames awaiting the connection's writer task, oldest first.
    pub queue: Vec<Vec<u8>>,
}

impl View for Client {
    type V = ClientV;

    open spec fn view(&self) -> ClientV {
        ClientV { conn_id: self.conn_id, queue: Seq::new(self.queue@.len(), |i: int| self.queue@[i]@) }
    }
}

/// The mathematical values of the registry's connections.
pub open spec fn clients_view(cs: Seq<Client>) -> Seq<ClientV> {
    Seq::new(cs.len(), |i: int| cs[i]@)
}

/// Some registered connection carries this id.
pub open spec fn has_conn(cs: Seq<ClientV>, conn_id: u64) -> bool {
    exists|i: int| 0 <= i < cs.len() && cs[i].conn_id == conn_id
}

/// The index of the connection carrying this id (meaningful under
/// `has_conn`).
pub open spec fn conn_index_of(cs: Seq<ClientV>, conn_id: u64) -> int {
    choose|i: int| 0 <= i < cs.len() && cs[i].conn_id == conn_id
}

/// The tracked connections; entries are added on connect and removed on
/// disconnect. The registry does not own snake identity: the session
/// correlates a connection with its player id.
pub struct ClientList {
    /// The registered connections, in registration order.
    pub clients: Vec<Client>,
}

impl ClientList {
    /// The mathematical values of the registered connections.
    pub open spec fn view_seq(self) -> Seq<ClientV> {
        clients_view(self.clients@)
    }

    /// Registry invariant: connection ids are unique.
    pub open spec fn wf(self) -> bool {
        forall|i: int, j: int|
            0 <= i < j < self.view_seq().len() ==> self.view_seq()[i].conn_id
                != self.view_seq()[j].conn_id
    }

    /// An empty registry.
    pub fn new() -> (r: ClientList)
        ensures
            r.wf(),
            r.view_seq() == Seq::<ClientV>::empty(),
    {
        let r = ClientList { clients: Vec::new() };
        proof {
            assert(r.view_seq() =~~= Seq::<ClientV>::empty());
        }
        r
    }

    /// Index of the connection with `conn_id`, if registered.
    fn find(&self, conn_id: u64) -> (r: Option<usize>)
        ensures
            r matches Some(i) ==> i < self.view_seq().len() && self.view_seq()[i as int].conn_id
                == conn_id && has_conn(self.view_seq(), conn_id),
            r is None ==> !has_conn(self.view_seq(), conn_id),
    {
        let mut i: usize = 0;
        while i < self.clients.len()
            invariant
                i <= self.clients@.len(),
                forall|k: int| 0 <= k < i ==> (#[trigger] self.view_seq()[k]).conn_id != conn_id,
            decreases self.clients@.len() - i,
        {
            if self.clients[i].conn_id == conn_id {
                return Some(i);
            }
            i = i + 1;
        }
        None
    }

    /// Register a connection with an empty queue; a no-op when the id is
    /// already present.
    pub fn register(&mut self, conn_id: u64)
        requires
            old(self).wf(),
        ensures
            final(self).wf(),
            !has_conn(old(self).view_seq(), conn_id) ==> final(self).view_seq() == old(
                self,
            ).view_seq().push(ClientV { conn_id, queue: Seq::<Seq<u8>>::empty() }),
            has_conn(old(self).view_seq(), conn_id) ==> final(self).view_seq() == old(
                self,
            ).view_seq(),
            has_conn(final(self).view_seq(), conn_id),
    {
        let ghost pre = self.view_seq();
        match self.find(conn_id) {
            Some(_) => {},
            None => {
                self.clients.push(Client { conn_id, queue: Vec::new() });
                proof {
                    assert(self.view_seq() =~~= pre.push(
                        ClientV { conn_id, queue: Seq::<Seq<u8>>::empty() },
                    ));
                    assert(self.view_seq()[pre.len() as int].conn_id == conn_id);
                }
            },
        }
    }

    /// Remove a connection; a no-op when it is not registered.
    pub fn deregister(&mut self, conn_id: u64)
        requires
            old(self).wf(),
        ensures
            final(self).wf(),
            has_conn(old(self).view_seq(), conn_id) ==> final(self).view_seq() == old(
                self,
            ).view_seq().remove(conn_index_of(old(self).view_seq(), conn_id)),
            !has_conn(old(self).view_seq(), conn_id) ==> final(self).view_seq() == old(
                self,
            ).view_seq(),
            !has_conn(final(self).view_seq(), conn_id),
    {
        let ghost pre = self.view_seq();
        match self.find(conn_id) {
            Some(i) => {
                let _ = self.clients.remove(i);
                proof {
                    let w = conn_index_of(pre, conn_id);
                    assert(pre[w].conn_id == conn_id);
                    assert(w == i as int) by {
                        if w != i as int {
                            assert(pre[w].conn_id != pre[i as int].conn_id);
                        }
                    }
                    assert(self.view_seq() =~~= pre.remove(i as int));
                    assert(!has_conn(self.view_seq(), conn_id)) by {
                        if has_conn(self.view_seq(), conn_id) {
                            let k = choose|k: int|
                                0 <= k < self.view_seq().len() && self.view_seq()[k].conn_id
                                    == conn_id;
                            if k < i as int {
                                assert(pre[k].conn_id == conn_id);
                            } else {
                                assert(pre[k + 1].conn_id == conn_id);
                            }
                        }
                    }
                }
            },
            None => {},
        }
    }

    /// Enqueue one frame for a single connection (unicast); a no-op when
    /// the connection is not registered.
    pub fn send_to(&mut self, conn_id: u64, frame: Vec<u8>)
        requires
            old(self).wf(),
        ensures
            final(self).wf(),
            has_conn(old(self).view_seq(), conn_id) ==> ({
                let i = conn_index_of(old(self).view_seq(), conn_id);
                final(self).view_seq() == old(self).view_seq().update(
                    i,
                    ClientV {
                        conn_id: old(self).view_seq()[i].conn_id,
                        queue: old(self).view_seq()[i].queue.push(frame@),
                    },
                )
            }),
            !has_conn(old(self).view_seq(), conn_id) ==> final(self).view_seq() == old(
                self,
            ).view_seq(),
    {
        let ghost pre = self.view_seq();
        match self.find(conn_id) {
            Some(i) => {
                let mut c = self.clients.remove(i);
                c.queue.push(frame);
                self.clients.insert(i, c);
                proof {
                    let w = conn_index_of(pre, conn_id);
                    assert(pre[w].conn_id == conn_id);
                    assert(w == i as int) by {
                        if w != i as int {
                            assert(pre[w].conn_id != pre[i as int].conn_id);
                        }
                    }
                    assert(self.view_seq() =~~= pre.update(
                        i as int,
                        ClientV {
                            conn_id: pre[i as int].conn_id,
                            queue: pre[i as int].queue.push(frame@),
                        },
                    ));
                }
            },
            None => {},
        }
    }

    /// Enqueue a copy of one frame for every registered connection
    /// (broadcast fan-out). Enqueueing never blocks on any client's socket,
    /// and a failure to deliver to one client cannot affect the others.
    pub fn broadcast(&mut self, frame: &Vec<u8>)
        requires
            old(self).wf(),
        ensures
            final(self).wf(),
            final(self).view_seq().len() == old(self).view_seq().len(),
            forall|i: int|
                0 <= i < old(self).view_seq().len() ==> final(self).view_seq()[i] == (ClientV {
                    conn_id: (#[trigger] old(self).view_seq()[i]).conn_id,
                    queue: old(self).view_seq()[i].queue.push(frame@),
                }),
    {
        let ghost pre = self.view_seq();
        let mut i: usize = 0;
        while i < self.clients.len()
            invariant
                i <= self.clients@.len(),
                self.clients@.len() == pre.len(),
                forall|k: int|
                    i <= k < pre.len() ==> self.view_seq()[k] == (#[trigger] pre[k]),
                forall|k: int|
                    0 <= k < i ==> self.view_seq()[k] == (ClientV {
                        conn_id: (#[trigger] pre[k]).conn_id,
                        queue: pre[k].queue.push(frame@),
                    }),
            decreases self.clients@.len() - i,
        {
            let copy = clone_bytes(frame);
            let mut c = self.clients.remove(i);
            c.queue.push(copy);
            self.clients.insert(i, c);
            i = i + 1;
        }
        proof {
            assert forall|i2: int, j2: int|
                0 <= i2 < j2 < self.view_seq().len() implies self.view_seq()[i2].conn_id
                != self.view_seq()[j2].conn_id by {
                assert(self.view_seq()[i2].conn_id == pre[i2].conn_id);
                assert(self.view_seq()[j2].conn_id == pre[j2].conn_id);
            }
        }
    }

    /// Hand the connection's pending frames to its writer task, leaving the
    /// queue empty; an empty result when the connection is not registered.
    pub fn drain(&mut self, conn_id: u64) -> (r: Vec<Vec<u8>>)
        requires
            old(self).wf(),
        ensures
            final(self).wf(),
            has_conn(old(self).view_seq(), conn_id) ==> ({
                let i = conn_index_of(old(self).view_seq(), conn_id);
                &&& Seq::new(r@.len(), |k: int| r@[k]@) == old(self).view_seq()[i].queue
                &&& final(self).view_seq() == old(self).view_seq().update(
                    i,
                    ClientV {
                        conn_id: old(self).view_seq()[i].conn_id,
                        queue: Seq::<Seq<u8>>::empty(),
                    },
                )
            }),
            !has_conn(old(self).view_seq(), conn_id) ==> r@.len() == 0 && final(self).view_seq()
                == old(self).view_seq(),
    {
        let ghost pre = self.view_seq();
        match self.find(conn_id) {
            Some(i) => {
                let mut c = self.clients.remove(i);
                let mut taken: Vec<Vec<u8>> = Vec::new();
                std::mem::swap(&mut taken, &mut c.queue);
                self.clients.insert(i, c);
                proof {
                    let w = conn_index_of(pre, conn_id);
                    assert(pre[w].conn_id == conn_id);
                    assert(w == i as int) by {
                        if w != i as int {
                            assert(pre[w].conn_id != pre[i as int].conn_id);
                        }
                    }
                    assert(Seq::new(taken@.len(), |k: int| taken@[k]@) =~= pre[i as int].queue);
                    assert(self.view_seq() =~~= pre.update(
                        i as int,
                        ClientV { conn_id: pre[i as int].conn_id, queue: Seq::<Seq<u8>>::empty() },
                    ));
                }
                taken
            },
            None => Vec::new(),
        }
    }
}

impl ClientList {
    /// Encode one outbound packet and enqueue a copy of it for every
    /// registered connection, in registry order.
    pub fn broadcast_message(&mut self, packet: &WsServerPacket)
        requires
            old(self).wf(),
            valid_server_msg(packet@),
        ensures
            final(self).wf(),
            final(self).view_seq().len() == old(self).view_seq().len(),
            forall|i: int|
                0 <= i < old(self).view_seq().len() ==> final(self).view_seq()[i] == (ClientV {
                    conn_id: (#[trigger] old(self).view_seq()[i]).conn_id,
                    queue: old(self).view_seq()[i].queue.push(enc_server_msg(packet@)),
                }),
    {
        let frame = encode_server_packet(packet);
        self.broadcast(&frame);
    }
}

/// An exact copy of one encoded frame.
pub fn clone_bytes(v: &Vec<u8>) -> (r: Vec<u8>)
    ensures
        r@ == v@,
{
    let mut r: Vec<u8> = Vec::new();
    let mut i: usize = 0;
    while i < v.len()
        invariant
            i <= v@.len(),
            r@ == v@.take(i as int),
        decreases v@.len() - i,
    {
        r.push(v[i]);
        proof {
            assert(r@ =~= v@.take(i + 1));
        }
        i = i + 1;
    }
    proof {
        assert(v@.take(v@.len() as int) =~= v@);
    }
    r
}

} // verus!
