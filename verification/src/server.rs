//! The server's connections and terrain, and what a tick does to them.

use crate::grid::ChunkKey;
use crate::session::spec_after;
use crate::session::spec_batch_closes;
use crate::session::spec_idle;
use crate::session::spec_outcome_at;
use crate::session::spec_verdict;
use crate::session::ClientMsg;
use crate::session::ClientState;
use crate::session::Reply;
use crate::session::Session;
use crate::stats::Health;
use crate::stats::Stats;
use crate::session::Turn;
use crate::session::Verdict;
use crate::streaming::spec_dispatches;
use crate::streaming::spec_request;
use crate::streaming::Streaming;
use crate::tick::Fate;
use vstd::prelude::*;

verus! {

/// What the server tells its frontend about a tick.
#[derive(Debug)]
#[allow(inconsistent_fields)]
pub enum Event {
    ClientConnected { entity: u64 },
    ClientDisconnected { entity: u64 },
    Chat { entity: Option<u64>, msg: String },
}

/// A connection and the entity that it controls.
#[derive(Clone, Copy, Debug, PartialEq, Eq, Structural)]
pub struct Client {
    pub entity: u64,
    pub session: Session,
}

/// What a connection brought since the last tick.
#[derive(Debug)]
pub struct Inbox {
    /// The messages, in arrival order.
    pub msgs: Vec<ClientMsg>,
    /// Whether the channel has failed.
    pub channel_error: bool,
    /// Whether the connection's entity is in a swing.
    pub attacking: bool,
}

/// What handling the inbound messages produced.
#[derive(Debug)]
pub struct Handled {
    /// The turn of each connection, in the order of the connections as they
    /// were before.
    pub turns: Vec<Turn>,
    /// One `ClientDisconnected` for each connection that was removed.
    pub events: Vec<Event>,
}

/// The connections and the terrain of a server. `C` is what a chunk holds.
pub struct Server<C> {
    pub clients: Vec<Client>,
    pub streaming: Streaming<C>,
    /// The longest chat text, in bytes, that is passed on.
    pub max_chat_len: usize,
}

/// The messages that connection `c` brought: those of its inbox, and none
/// if `inboxes` holds no inbox for it.
pub open spec fn spec_msgs(inboxes: Seq<Inbox>, c: int) -> Seq<ClientMsg> {
    if 0 <= c < inboxes.len() {
        inboxes[c].msgs@
    } else {
        Seq::empty()
    }
}

/// Whether the channel of connection `c` has failed. Without an inbox it
/// counts as sound.
pub open spec fn spec_channel_error(inboxes: Seq<Inbox>, c: int) -> bool {
    0 <= c < inboxes.len() && inboxes[c].channel_error
}

/// Whether the entity of connection `c` is in a swing. Without an inbox it
/// counts as not.
pub open spec fn spec_attacking(inboxes: Seq<Inbox>, c: int) -> bool {
    0 <= c < inboxes.len() && inboxes[c].attacking
}

/// A connection after the turn in which it brought `msgs`.
pub open spec fn spec_served(
    client: Client,
    now: u64,
    max_chat_len: usize,
    msgs: Seq<ClientMsg>,
    attacking: bool,
) -> Client {
    Client {
        entity: client.entity,
        session: Session {
            state: spec_after(client.session.state, attacking, max_chat_len, msgs).0,
            last_ping: if msgs.len() > 0 {
                now
            } else {
                client.session.last_ping
            },
        },
    }
}

/// What the turn of a connection that brought `msgs` decides.
pub open spec fn spec_fate(
    client: Client,
    now: u64,
    max_chat_len: usize,
    msgs: Seq<ClientMsg>,
    channel_error: bool,
    attacking: bool,
) -> Verdict {
    spec_verdict(
        spec_batch_closes(client.session.state, attacking, max_chat_len, msgs),
        channel_error,
        msgs.len() > 0,
        spec_idle(now, client.session.last_ping),
    )
}

/// What the turn of connection `c` decides.
pub open spec fn spec_fate_at(
    clients: Seq<Client>,
    now: u64,
    max_chat_len: usize,
    inboxes: Seq<Inbox>,
    c: int,
) -> Verdict {
    spec_fate(
        clients[c],
        now,
        max_chat_len,
        spec_msgs(inboxes, c),
        spec_channel_error(inboxes, c),
        spec_attacking(inboxes, c),
    )
}

/// The connections that stay, each as its turn left it, in their order.
pub open spec fn spec_survivors(
    clients: Seq<Client>,
    now: u64,
    max_chat_len: usize,
    inboxes: Seq<Inbox>,
) -> Seq<Client>
    decreases clients.len(),
{
    if clients.len() == 0 {
        Seq::empty()
    } else {
        let rest = spec_survivors(clients.drop_last(), now, max_chat_len, inboxes);
        let c = clients.len() - 1;
        if spec_fate_at(clients, now, max_chat_len, inboxes, c) == Verdict::Disconnect {
            rest
        } else {
            rest.push(
                spec_served(
                    clients[c],
                    now,
                    max_chat_len,
                    spec_msgs(inboxes, c),
                    spec_attacking(inboxes, c),
                ),
            )
        }
    }
}

/// The entities of the connections that go, in their order.
pub open spec fn spec_leavers(
    clients: Seq<Client>,
    now: u64,
    max_chat_len: usize,
    inboxes: Seq<Inbox>,
) -> Seq<u64>
    decreases clients.len(),
{
    if clients.len() == 0 {
        Seq::empty()
    } else {
        let rest = spec_leavers(clients.drop_last(), now, max_chat_len, inboxes);
        let c = clients.len() - 1;
        if spec_fate_at(clients, now, max_chat_len, inboxes, c) == Verdict::Disconnect {
            rest.push(clients[c].entity)
        } else {
            rest
        }
    }
}

/// Whether some connection controls `entity`.
pub open spec fn spec_controls(clients: Seq<Client>, entity: u64) -> bool {
    exists|i: int| 0 <= i < clients.len() && (#[trigger] clients[i]).entity == entity
}

/// A connection put into `state` by the server if it controls `entity`, and
/// left alone if it does not.
pub open spec fn spec_forced(client: Client, entity: u64, state: ClientState) -> Client {
    if client.entity == entity {
        Client { entity, session: Session { state, last_ping: client.session.last_ping } }
    } else {
        client
    }
}

impl<C> Server<C> {
    /// A server without connections or terrain.
    pub fn new(max_chat_len: usize) -> (s: Self)
        ensures
            s.clients@ == Seq::<Client>::empty(),
            s.streaming.chunks() == Map::<ChunkKey, C>::empty(),
            s.streaming.pending() == Set::<ChunkKey>::empty(),
            s.max_chat_len == max_chat_len,
    {
        Server { clients: Vec::new(), streaming: Streaming::new(), max_chat_len }
    }

    /// Takes in the connections made since the last tick. Each controls one
    /// of the bare entities `entities`, begins in the `Connected` state, and
    /// is announced to the frontend.
    pub fn handle_new_connections(&mut self, now: u64, entities: &Vec<u64>) -> (events: Vec<Event>)
        ensures
            final(self).streaming == old(self).streaming,
            final(self).max_chat_len == old(self).max_chat_len,
            final(self).clients@ == old(self).clients@ + Seq::new(
                entities.len() as nat,
                |i: int|
                    Client {
                        entity: entities@[i],
                        session: Session {
                            state: crate::session::ClientState::Connected,
                            last_ping: now,
                        },
                    },
            ),
            events.len() == entities.len(),
            forall|i: int|
                0 <= i < entities.len() ==> #[trigger] events@[i] == (Event::ClientConnected {
                    entity: entities@[i],
                }),
    {
        let mut events: Vec<Event> = Vec::new();
        let mut i: usize = 0;
        while i < entities.len()
            invariant
                i <= entities.len(),
                self.streaming == old(self).streaming,
                self.max_chat_len == old(self).max_chat_len,
                self.clients@ == old(self).clients@ + Seq::new(
                    i as nat,
                    |j: int|
                        Client {
                            entity: entities@[j],
                            session: Session {
                                state: crate::session::ClientState::Connected,
                                last_ping: now,
                            },
                        },
                ),
                events.len() == i,
                forall|j: int|
                    0 <= j < i ==> #[trigger] events@[j] == (Event::ClientConnected {
                        entity: entities@[j],
                    }),
            decreases entities.len() - i,
        {
            let ghost before = self.clients@;
            let entity = entities[i];
            self.clients.push(Client { entity, session: Session::new(now) });
            events.push(Event::ClientConnected { entity });
            i = i + 1;
        }
        events
    }

    /// Gives every connection its turn, in order: handles what it sent,
    /// removes it if its turn says so, and announces each removal to the
    /// frontend.
    ///
    /// `inboxes` holds, for each connection in order, what it brought. A
    /// connection without an inbox has sent nothing over a sound channel;
    /// an inbox without a connection is left alone.
    pub fn handle_new_messages(&mut self, now: u64, inboxes: &Vec<Inbox>) -> (out: Handled)
        ensures
            final(self).streaming == old(self).streaming,
            final(self).max_chat_len == old(self).max_chat_len,
            out.turns.len() == old(self).clients.len(),
            forall|c: int|
                #![trigger out.turns[c]]
                0 <= c < old(self).clients.len() ==> {
                    let msgs = spec_msgs(inboxes@, c);
                    let turn = out.turns[c];
                    &&& turn.outcomes.len() == msgs.len()
                    &&& forall|i: int|
                        0 <= i < msgs.len() ==> #[trigger] turn.outcomes[i] == spec_outcome_at(
                            old(self).clients@[c].session.state,
                            spec_attacking(inboxes@, c),
                            old(self).max_chat_len,
                            msgs,
                            i,
                        )
                    &&& turn.verdict == spec_fate_at(
                        old(self).clients@,
                        now,
                        old(self).max_chat_len,
                        inboxes@,
                        c,
                    )
                },
            final(self).clients@ == spec_survivors(
                old(self).clients@,
                now,
                old(self).max_chat_len,
                inboxes@,
            ),
            out.events.len() == spec_leavers(
                old(self).clients@,
                now,
                old(self).max_chat_len,
                inboxes@,
            ).len(),
            forall|i: int|
                0 <= i < out.events.len() ==> #[trigger] out.events@[i]
                    == (Event::ClientDisconnected {
                    entity: spec_leavers(
                        old(self).clients@,
                        now,
                        old(self).max_chat_len,
                        inboxes@,
                    )[i],
                }),
    {
        let max: usize = self.max_chat_len;
        let ghost all = self.clients@;
        let silent: Vec<ClientMsg> = Vec::new();
        let mut turns: Vec<Turn> = Vec::new();
        let mut events: Vec<Event> = Vec::new();
        let mut kept: Vec<Client> = Vec::new();
        let mut c: usize = 0;
        while c < self.clients.len()
            invariant
                c <= self.clients.len(),
                self.clients@ == all,
                all == old(self).clients@,
                silent@ == Seq::<ClientMsg>::empty(),
                max == old(self).max_chat_len,
                self.max_chat_len == max,
                self.streaming == old(self).streaming,
                turns.len() == c,
                forall|d: int|
                    #![trigger turns[d]]
                    0 <= d < c ==> {
                        let msgs = spec_msgs(inboxes@, d);
                        let turn = turns[d];
                        &&& turn.outcomes.len() == msgs.len()
                        &&& forall|i: int|
                            0 <= i < msgs.len() ==> #[trigger] turn.outcomes[i] == spec_outcome_at(
                                all[d].session.state,
                                spec_attacking(inboxes@, d),
                                max,
                                msgs,
                                i,
                            )
                        &&& turn.verdict == spec_fate_at(all, now, max, inboxes@, d)
                    },
                kept@ == spec_survivors(all.take(c as int), now, max, inboxes@),
                events.len() == spec_leavers(all.take(c as int), now, max, inboxes@).len(),
                forall|i: int|
                    0 <= i < events.len() ==> #[trigger] events@[i] == (Event::ClientDisconnected {
                        entity: spec_leavers(all.take(c as int), now, max, inboxes@)[i],
                    }),
            decreases self.clients.len() - c,
        {
            let mut client = self.clients[c];
            let turn = if c < inboxes.len() {
                let inbox = &inboxes[c];
                client.session.turn(now, inbox.attacking, inbox.channel_error, max, &inbox.msgs)
            } else {
                client.session.turn(now, false, false, max, &silent)
            };
            proof {
                let next = all.take(c as int + 1);
                assert(next.drop_last() =~= all.take(c as int));
                assert(next[c as int] == all[c as int]);
                assert(client == spec_served(
                    all[c as int],
                    now,
                    max,
                    spec_msgs(inboxes@, c as int),
                    spec_attacking(inboxes@, c as int),
                ));
                assert(turn.verdict == spec_fate_at(all, now, max, inboxes@, c as int));
                assert(spec_fate_at(next, now, max, inboxes@, c as int) == spec_fate_at(
                    all,
                    now,
                    max,
                    inboxes@,
                    c as int,
                ));
            }
            match turn.verdict {
                Verdict::Disconnect => {
                    events.push(Event::ClientDisconnected { entity: client.entity });
                },
                _ => {
                    kept.push(client);
                },
            }
            turns.push(turn);
            c = c + 1;
        }
        proof {
            assert(all.take(all.len() as int) =~= all);
        }
        self.clients = kept;
        Handled { turns, events }
    }

    fn force(&mut self, entity: u64, state: ClientState) -> (found: bool)
        ensures
            final(self).streaming == old(self).streaming,
            final(self).max_chat_len == old(self).max_chat_len,
            final(self).clients.len() == old(self).clients.len(),
            forall|i: int|
                0 <= i < old(self).clients.len() ==> #[trigger] final(self).clients@[i]
                    == spec_forced(old(self).clients@[i], entity, state),
            found == spec_controls(old(self).clients@, entity),
    {
        let mut found = false;
        let mut i: usize = 0;
        while i < self.clients.len()
            invariant
                i <= self.clients.len(),
                self.streaming == old(self).streaming,
                self.max_chat_len == old(self).max_chat_len,
                self.clients.len() == old(self).clients.len(),
                forall|j: int|
                    0 <= j < i ==> #[trigger] self.clients@[j] == spec_forced(
                        old(self).clients@[j],
                        entity,
                        state,
                    ),
                forall|j: int|
                    i <= j < self.clients.len() ==> #[trigger] self.clients@[j] == old(
                        self,
                    ).clients@[j],
                found <==> exists|j: int|
                    0 <= j < i && (#[trigger] old(self).clients@[j]).entity == entity,
            decreases self.clients.len() - i,
        {
            let mut client = self.clients[i];
            if client.entity == entity {
                client.session.force_state(state);
                self.clients.set(i, client);
                found = true;
            }
            i = i + 1;
        }
        found
    }

    /// Settles the death of `entity`. If a connection controls it, the
    /// connection is put into the `Dead` state, whatever state it was in,
    /// and the entity stays; if none does, the entity is to be deleted.
    pub fn settle_death(&mut self, entity: u64) -> (fate: Fate)
        ensures
            final(self).streaming == old(self).streaming,
            final(self).max_chat_len == old(self).max_chat_len,
            final(self).clients.len() == old(self).clients.len(),
            forall|i: int|
                0 <= i < old(self).clients.len() ==> #[trigger] final(self).clients@[i]
                    == spec_forced(old(self).clients@[i], entity, ClientState::Dead),
            fate == if spec_controls(old(self).clients@, entity) {
                Fate::Downed
            } else {
                Fate::Deleted
            },
    {
        if self.force(entity, ClientState::Dead) {
            Fate::Downed
        } else {
            Fate::Deleted
        }
    }

    /// Puts `entity` back into play, if a connection controls it: the
    /// connection moves to `Character` and is owed the returned reply, and
    /// `stats` become those of a fresh character of `maximum` health. If no
    /// connection controls the entity, nothing changes.
    pub fn settle_respawn(&mut self, entity: u64, stats: &mut Stats, maximum: u32) -> (reply: Option<
        Reply,
    >)
        ensures
            final(self).streaming == old(self).streaming,
            final(self).max_chat_len == old(self).max_chat_len,
            final(self).clients.len() == old(self).clients.len(),
            forall|i: int|
                0 <= i < old(self).clients.len() ==> #[trigger] final(self).clients@[i]
                    == spec_forced(old(self).clients@[i], entity, ClientState::Character),
            spec_controls(old(self).clients@, entity) ==> reply == Some(
                Reply::Allowed(ClientState::Character),
            ) && *final(stats) == (Stats {
                hp: Health { current: maximum, maximum, last_change: None },
                is_dead: false,
            }),
            !spec_controls(old(self).clients@, entity) ==> reply is None && *final(stats) == *old(
                stats,
            ),
    {
        if self.force(entity, ClientState::Character) {
            *stats = Stats::full(maximum);
            Some(Reply::Allowed(ClientState::Character))
        } else {
            None
        }
    }

    /// Asks for the generation of the chunk at `key`.
    ///
    /// Returns whether a generation job is to be sent out: exactly when none
    /// is in flight for `key`.
    pub fn generate_chunk(&mut self, key: ChunkKey) -> (dispatch: bool)
        ensures
            final(self).clients == old(self).clients,
            final(self).max_chat_len == old(self).max_chat_len,
            dispatch == spec_dispatches(old(self).streaming.pending(), key),
            final(self).streaming.pending() == spec_request(old(self).streaming.pending(), key),
            final(self).streaming.chunks() == old(self).streaming.chunks(),
    {
        self.streaming.request(key)
    }
}

} // verus!
