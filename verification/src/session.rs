//! The per-connection state machine: it decodes inbound packets, turns
//! them into world mutations and outbound enqueues, and owns the
//! connection lifecycle. The boundary code runs the socket loop, hands
//! every inbound frame to `handle_frame` and calls `on_disconnect` when
//! the socket closes — on whichever path comes first; cleanup is
//! idempotent.

use vstd::prelude::*;

use crate::clients::{has_conn, conn_index_of, ClientList, ClientV};
use crate::codec::{decode_client_packet, enc_client_msg, enc_server_msg, encode_server_packet};
use crate::color::{is_common_color, Rgb};
use crate::errors::GameError;
use crate::geom::{in_world, Pos};
use crate::rng::{create_player_id, create_random_position};
use crate::snake::{has_id, spec_index_of, spec_new_snake, valid_dir, valid_name, Snake, SnakeV};
use crate::types::{
    valid_client_msg, ClientMessage, ClientMessageV, ServerMessage, ServerMessageV,
    WsServerPacket,
};
use crate::world::GameWorld;

verus! {

/// Where a connection stands in its lifecycle.
#[derive(Clone, Copy, Debug, PartialEq, Eq, Structural)]
pub enum ConnState {
    /// Raw socket accepted, not yet speaking the message protocol.
    Connecting,
    /// Protocol is up; the only acceptable inbound message is a join.
    AwaitingJoin,
    /// Id assigned and snake registered; gameplay messages are accepted.
    Joined,
    /// Cleaned up; every further input is ignored.
    Disconnected,
}

/// One connection's session: its identity, lifecycle state, and the player
/// id it was assigned on joining.
pub struct Session {
    /// The connection this session belongs to.
    pub conn_id: u64,
    /// Lifecycle state.
    pub state: ConnState,
    /// The joined player's id; set exactly when the state is `Joined` or a
    /// later cleanup already ran.
    pub player_id: Option<u128>,
}

impl Session {
    /// Session invariant: a joined session knows its player id, and one
    /// that has not joined yet has none.
    pub open spec fn wf(self) -> bool {
        &&& self.state is Joined ==> self.player_id is Some
        &&& (self.state is Connecting || self.state is AwaitingJoin) ==> self.player_id is None
    }

    /// The session's connection is registered while it may still send.
    pub open spec fn attached(self, cs: Seq<ClientV>) -> bool {
        (self.state is AwaitingJoin || self.state is Joined) ==> has_conn(cs, self.conn_id)
    }

    /// A fresh session for an accepted socket.
    pub fn new(conn_id: u64) -> (r: Session)
        ensures
            r.conn_id == conn_id,
            r.state is Connecting,
            r.player_id is None,
            r.wf(),
    {
        Session { conn_id, state: ConnState::Connecting, player_id: None }
    }

    /// The protocol upgrade finished: register the outbound channel and
    /// start waiting for the join message.
    pub fn on_open(&mut self, clients: &mut ClientList)
        requires
            old(self).state is Connecting,
            old(self).wf(),
            old(clients).wf(),
        ensures
            final(self).wf(),
            final(clients).wf(),
            final(self).conn_id == old(self).conn_id,
            final(self).state is AwaitingJoin,
            final(self).player_id == old(self).player_id,
            final(self).attached(final(clients).view_seq()),
            !has_conn(old(clients).view_seq(), old(self).conn_id) ==> final(clients).view_seq()
                == old(clients).view_seq().push(
                ClientV { conn_id: old(self).conn_id, queue: Seq::<Seq<u8>>::empty() },
            ),
            has_conn(old(clients).view_seq(), old(self).conn_id) ==> final(clients).view_seq()
                == old(clients).view_seq(),
    {
        clients.register(self.conn_id);
        self.state = ConnState::AwaitingJoin;
    }
}

/// The effect of a join on the registries and queues, for a given draw of
/// random id, position and color: the snake is registered (overwriting a
/// colliding id defensively), `PlayerInit` is enqueued for the joiner only,
/// and `PlayerJoined` is enqueued for everyone. The one refusal is the
/// machine limit: a registry whose snake counter is exhausted changes
/// nothing.
pub open spec fn join_effect_with(
    w0: GameWorld,
    w1: GameWorld,
    c0: Seq<ClientV>,
    c1: Seq<ClientV>,
    s1: Session,
    conn_id: u64,
    name: Seq<char>,
    id: u128,
    pos: Pos,
    color: Rgb,
) -> bool {
    let sv = spec_new_snake(id, name, color, false, pos);
    let init = enc_server_msg(ServerMessageV::PlayerInit { snake: sv });
    let joined = enc_server_msg(ServerMessageV::PlayerJoined { snake: sv });
    &&& in_world(pos)
    &&& is_common_color(color)
    &&& if !has_id(w0.snakes_v(), id) && w0.snakes@.len() >= u32::MAX {
        &&& w1.snakes_v() == w0.snakes_v()
        &&& w1.foods == w0.foods
        &&& c1 == c0
        &&& s1.state is AwaitingJoin
        &&& s1.player_id is None
    } else {
        &&& (has_id(w0.snakes_v(), id) ==> w1.snakes_v() == w0.snakes_v().update(
            spec_index_of(w0.snakes_v(), id),
            sv,
        ))
        &&& (!has_id(w0.snakes_v(), id) ==> w1.snakes_v() == w0.snakes_v().push(sv))
        &&& w1.foods == w0.foods
        &&& s1.state is Joined
        &&& s1.player_id == Some(id)
        &&& c1.len() == c0.len()
        &&& forall|i: int|
            0 <= i < c0.len() ==> c1[i] == (ClientV {
                conn_id: (#[trigger] c0[i]).conn_id,
                queue: if c0[i].conn_id == conn_id {
                    c0[i].queue.push(init).push(joined)
                } else {
                    c0[i].queue.push(joined)
                },
            })
    }
}

/// Some draw of id, position and color produced this join outcome.
pub open spec fn join_effect(
    w0: GameWorld,
    w1: GameWorld,
    c0: Seq<ClientV>,
    c1: Seq<ClientV>,
    s1: Session,
    conn_id: u64,
    name: Seq<char>,
) -> bool {
    exists|id: u128, pos: Pos, color: Rgb|
        join_effect_with(w0, w1, c0, c1, s1, conn_id, name, id, pos, color)
}

/// The effect of cleaning up a joined player: its connection leaves the
/// registry, its snake leaves the world, and every remaining connection is
/// handed exactly one `PlayerLeft` broadcast.
pub open spec fn leave_effect(
    w0: GameWorld,
    w1: GameWorld,
    c0: Seq<ClientV>,
    c1: Seq<ClientV>,
    conn_id: u64,
    pid: u128,
) -> bool {
    let mid = if has_conn(c0, conn_id) {
        c0.remove(conn_index_of(c0, conn_id))
    } else {
        c0
    };
    let left = enc_server_msg(ServerMessageV::PlayerLeft { id: pid });
    &&& (has_id(w0.snakes_v(), pid) ==> w1.snakes_v() == w0.snakes_v().remove(
        spec_index_of(w0.snakes_v(), pid),
    ))
    &&& (!has_id(w0.snakes_v(), pid) ==> w1.snakes_v() == w0.snakes_v())
    &&& !has_id(w1.snakes_v(), pid)
    &&& w1.foods == w0.foods
    &&& c1.len() == mid.len()
    &&& forall|i: int|
        0 <= i < mid.len() ==> c1[i] == (ClientV {
            conn_id: (#[trigger] mid[i]).conn_id,
            queue: mid[i].queue.push(left),
        })
}

/// The effect of a steering request: the snake's heading is replaced when
/// the heading is a valid unit vector and the snake is still registered;
/// anything else is absorbed as a no-op.
pub open spec fn steer_effect(w0: GameWorld, w1: GameWorld, pid: u128, dx: int, dy: int) -> bool {
    &&& (has_id(w0.snakes_v(), pid) && valid_dir(dx, dy) ==> ({
        let i = spec_index_of(w0.snakes_v(), pid);
        w1.snakes_v() == w0.snakes_v().update(
            i,
            SnakeV { dir_x: dx, dir_y: dy, ..w0.snakes_v()[i] },
        )
    }))
    &&& (!(has_id(w0.snakes_v(), pid) && valid_dir(dx, dy)) ==> w1.snakes_v() == w0.snakes_v())
    &&& w1.foods == w0.foods
}

/// What one inbound frame carrying the message `m` does, given the
/// session's state. Anything unexpected for the state is ignored without
/// touching world or queues; client input never decides an outcome by
/// itself.
pub open spec fn frame_effect(
    m: ClientMessageV,
    s0: Session,
    s1: Session,
    w0: GameWorld,
    w1: GameWorld,
    c0: Seq<ClientV>,
    c1: Seq<ClientV>,
) -> bool {
    if s0.state is AwaitingJoin {
        match m {
            ClientMessageV::JoinGame { name } => join_effect(
                w0,
                w1,
                c0,
                c1,
                s1,
                s0.conn_id,
                join_name(name),
            ),
            _ => s1 == s0 && w1 == w0 && c1 == c0,
        }
    } else if s0.state is Joined {
        match m {
            ClientMessageV::MoveSnake { dir_x, dir_y } => s1 == s0 && c1 == c0 && steer_effect(
                w0,
                w1,
                s0.player_id->0,
                dir_x as int,
                dir_y as int,
            ),
            ClientMessageV::LeaveGame => s1.state is Disconnected && s1.conn_id == s0.conn_id
                && leave_effect(w0, w1, c0, c1, s0.conn_id, s0.player_id->0),
            _ => s1 == s0 && w1 == w0 && c1 == c0,
        }
    } else {
        s1 == s0 && w1 == w0 && c1 == c0
    }
}

/// The display name a join request settles on: the requested one, or empty
/// when none was sent.
pub open spec fn join_name(name: Option<Seq<char>>) -> Seq<char> {
    match name {
        Some(s) => s,
        None => Seq::<char>::empty(),
    }
}

impl Session {
    /// Handle one inbound frame: decode it and commit what the message asks
    /// for. A malformed frame is dropped and nothing changes — the
    /// connection stays open.
    pub fn handle_frame(
        &mut self,
        world: &mut GameWorld,
        clients: &mut ClientList,
        buf: &Vec<u8>,
    )
        requires
            old(self).wf(),
            old(world).wf(),
            old(clients).wf(),
        ensures
            final(self).wf(),
            final(world).wf(),
            final(clients).wf(),
            final(self).conn_id == old(self).conn_id,
            (!(exists|m: ClientMessageV| valid_client_msg(m) && buf@ == enc_client_msg(m)))
                ==> *final(self) == *old(self) && *final(world) == *old(world) && *final(clients) == *old(clients),
            forall|m: ClientMessageV|
                valid_client_msg(m) && buf@ == enc_client_msg(m) ==> frame_effect(
                    m,
                    *old(self),
                    *final(self),
                    *old(world),
                    *final(world),
                    old(clients).view_seq(),
                    final(clients).view_seq(),
                ),
    {
        let ghost s0 = *self;
        let ghost w0 = *world;
        let ghost c0 = clients.view_seq();
        let decoded = decode_client_packet(buf);
        match decoded {
            Err(_) => {},
            Ok(packet) => {
                let ghost pm = packet@;
                match packet.message {
                    ClientMessage::JoinGame { name } => {
                        if matches!(self.state, ConnState::AwaitingJoin) {
                            self.do_join(world, clients, name);
                        }
                    },
                    ClientMessage::MoveSnake { dir_x, dir_y } => {
                        if matches!(self.state, ConnState::Joined) {
                            let pid = match self.player_id {
                                Some(p) => p,
                                None => 0,
                            };
                            world.update_snake_direction(pid, dir_x, dir_y);
                        }
                    },
                    ClientMessage::LeaveGame => {
                        if matches!(self.state, ConnState::Joined) {
                            self.cleanup_joined(world, clients);
                        }
                    },
                    ClientMessage::Pong => {},
                    ClientMessage::FoodEat => {},
                }
                proof {
                    assert(frame_effect(pm, s0, *self, w0, *world, c0, clients.view_seq()));
                    assert forall|m: ClientMessageV|
                        valid_client_msg(m) && buf@ == enc_client_msg(m) implies frame_effect(
                        m,
                        s0,
                        *self,
                        w0,
                        *world,
                        c0,
                        clients.view_seq(),
                    ) by {
                        crate::codec::lemma_client_enc_injective(m, pm);
                    }
                }
            },
        }
    }

    /// Commit a join: draw an id, position and color, register the snake,
    /// answer the joiner with `PlayerInit` and tell everyone `PlayerJoined`.
    fn do_join(&mut self, world: &mut GameWorld, clients: &mut ClientList, name: Option<String>)
        requires
            old(self).state is AwaitingJoin,
            old(self).wf(),
            old(world).wf(),
            old(clients).wf(),
            name matches Some(s) ==> valid_name(s@),
        ensures
            final(self).wf(),
            final(world).wf(),
            final(clients).wf(),
            final(self).conn_id == old(self).conn_id,
            join_effect(
                *old(world),
                *final(world),
                old(clients).view_seq(),
                final(clients).view_seq(),
                *final(self),
                old(self).conn_id,
                join_name(match name {
                    Some(s) => Some(s@),
                    None => None,
                }),
            ),
    {
        let id = create_player_id();
        let pos = create_random_position();
        let color = Rgb::random();
        let name_s = match name {
            Some(s) => s,
            None => String::new(),
        };
        proof {
            assert(valid_name(name_s@));
        }
        let snake = Snake::new(id, name_s, color, false, pos);
        let ghost sv = snake@;
        let init_frame = encode_server_packet(
            &WsServerPacket { message: ServerMessage::PlayerInit { snake: snake.clone() } },
        );
        let joined_frame = encode_server_packet(
            &WsServerPacket { message: ServerMessage::PlayerJoined { snake: snake.clone() } },
        );
        let ghost w0 = *world;
        let ghost c0 = clients.view_seq();
        match world.add_snake(snake) {
            Err(GameError::WorldFull) => {
                proof {
                    assert(join_effect_with(
                        w0,
                        *world,
                        c0,
                        clients.view_seq(),
                        *self,
                        self.conn_id,
                        sv.name,
                        id,
                        pos,
                        color,
                    ));
                }
            },
            _ => {
                self.state = ConnState::Joined;
                self.player_id = Some(id);
                clients.send_to(self.conn_id, init_frame);
                let ghost c_mid = clients.view_seq();
                clients.broadcast(&joined_frame);
                proof {
                    let init = enc_server_msg(ServerMessageV::PlayerInit { snake: sv });
                    let joined = enc_server_msg(ServerMessageV::PlayerJoined { snake: sv });
                    assert forall|i: int| 0 <= i < c0.len() implies clients.view_seq()[i]
                        == (ClientV {
                        conn_id: (#[trigger] c0[i]).conn_id,
                        queue: if c0[i].conn_id == self.conn_id {
                            c0[i].queue.push(init).push(joined)
                        } else {
                            c0[i].queue.push(joined)
                        },
                    }) by {
                        assert(clients.view_seq()[i] == (ClientV {
                            conn_id: c_mid[i].conn_id,
                            queue: c_mid[i].queue.push(joined),
                        }));
                        if has_conn(c0, self.conn_id) {
                            let w = conn_index_of(c0, self.conn_id);
                            assert(c0[w].conn_id == self.conn_id);
                            assert(c_mid == c0.update(
                                w,
                                ClientV {
                                    conn_id: c0[w].conn_id,
                                    queue: c0[w].queue.push(init),
                                },
                            ));
                            if i != w {
                                assert(c0[i].conn_id != self.conn_id);
                                assert(c_mid[i] == c0[i]);
                            } else {
                                assert(c_mid[i].queue == c0[i].queue.push(init));
                            }
                        } else {
                            assert(c0[i].conn_id != self.conn_id);
                            assert(c_mid == c0);
                        }
                    }
                    assert(join_effect_with(
                        w0,
                        *world,
                        c0,
                        clients.view_seq(),
                        *self,
                        self.conn_id,
                        sv.name,
                        id,
                        pos,
                        color,
                    ));
                }
            },
        }
    }

    /// Tear down a joined session: deregister the channel, remove the snake
    /// and broadcast `PlayerLeft` once to everyone remaining.
    fn cleanup_joined(&mut self, world: &mut GameWorld, clients: &mut ClientList)
        requires
            old(self).state is Joined,
            old(self).wf(),
            old(world).wf(),
            old(clients).wf(),
        ensures
            final(self).wf(),
            final(world).wf(),
            final(clients).wf(),
            final(self).conn_id == old(self).conn_id,
            final(self).state is Disconnected,
            final(self).player_id == old(self).player_id,
            leave_effect(
                *old(world),
                *final(world),
                old(clients).view_seq(),
                final(clients).view_seq(),
                old(self).conn_id,
                old(self).player_id->0,
            ),
    {
        let pid = match self.player_id {
            Some(p) => p,
            None => {
                proof {
                    assert(false);
                }
                0
            },
        };
        clients.deregister(self.conn_id);
        world.remove_snake(pid);
        let frame = encode_server_packet(
            &WsServerPacket { message: ServerMessage::PlayerLeft { id: pid } },
        );
        clients.broadcast(&frame);
        self.state = ConnState::Disconnected;
    }

    /// The disconnect path: socket close, socket error or explicit leave
    /// all end here. Cleanup runs exactly once per connection — a second
    /// call is a no-op — and a joined player's departure is broadcast as
    /// exactly one `PlayerLeft` per remaining connection.
    pub fn on_disconnect(&mut self, world: &mut GameWorld, clients: &mut ClientList)
        requires
            old(self).wf(),
            old(world).wf(),
            old(clients).wf(),
        ensures
            final(self).wf(),
            final(world).wf(),
            final(clients).wf(),
            final(self).conn_id == old(self).conn_id,
            final(self).state is Disconnected,
            old(self).state is Joined ==> leave_effect(
                *old(world),
                *final(world),
                old(clients).view_seq(),
                final(clients).view_seq(),
                old(self).conn_id,
                old(self).player_id->0,
            ),
            old(self).state is Disconnected ==> *final(self) == *old(self) && *final(world) == *old(world) && *final(clients) == *old(clients),
            (old(self).state is Connecting || old(self).state is AwaitingJoin) ==> ({
                &&& *final(world) == *old(world)
                &&& (has_conn(old(clients).view_seq(), old(self).conn_id) ==> final(clients).view_seq() == old(clients).view_seq().remove(
                    conn_index_of(old(clients).view_seq(), old(self).conn_id),
                ))
                &&& (!has_conn(old(clients).view_seq(), old(self).conn_id) ==> final(clients).view_seq() == old(clients).view_seq())
            }),
    {
        match self.state {
            ConnState::Disconnected => {},
            ConnState::Joined => {
                self.cleanup_joined(world, clients);
            },
            _ => {
                clients.deregister(self.conn_id);
                self.state = ConnState::Disconnected;
            },
        }
    }
}

} // verus!
