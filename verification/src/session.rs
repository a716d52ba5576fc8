//! Per-connection protocol state machine.
//!
//! A connection moves through `Connected -> Registered <-> Spectator`, from
//! `Registered`, `Spectator` or `Dead` to `Character`, and to `Dead` only
//! when the server says so. Every inbound message is answered by an
//! [`Outcome`]: the state after the message, the reply owed to the sender,
//! the effect on the world, and whether the connection is to be closed.

use crate::grid::ChunkKey;
use vstd::prelude::*;

verus! {

/// Idle time, in microseconds, after which a silent connection is dropped.
pub const CLIENT_TIMEOUT: u64 = 20_000_000;

/// Idle time, in microseconds, after which a silent connection is probed.
pub const CLIENT_PROBE: u64 = 10_000_000;

/// Protocol state of one connection.
#[derive(Clone, Copy, Debug, PartialEq, Eq, Structural)]
pub enum ClientState {
    Connected,
    Registered,
    Spectator,
    Dead,
    Character,
}

impl ClientState {
    /// Whether the connection has registered: it is in any state but
    /// `Connected`. Only registered connections get the server's notices.
    pub fn is_registered(self) -> (b: bool)
        ensures
            b == (self != ClientState::Connected),
    {
        match self {
            ClientState::Connected => false,
            _ => true,
        }
    }
}

/// Why a request was turned down.
#[derive(Clone, Copy, Debug, PartialEq, Eq, Structural)]
pub enum RequestStateError {
    /// The connection is in the requested state already.
    Already,
    /// No edge leads from the current state to what was asked.
    Impossible,
    /// The transition exists but has a message of its own.
    WrongMessage,
}

/// An inbound message, reduced to what the protocol rules read.
///
/// Payloads that the rules never look at (names, bodies, animation and
/// physics reports) stay with the caller; `Chat` carries the length of its
/// text in bytes.
#[derive(Clone, Copy, Debug, PartialEq, Eq, Structural)]
pub enum ClientMsg {
    RequestState(ClientState),
    Register,
    SetViewDistance(u32),
    Character,
    Attack,
    Respawn,
    Chat { len: usize },
    PlayerAnimation,
    PlayerPhysics,
    TerrainChunkRequest { key: ChunkKey },
    Ping,
    Pong,
    Disconnect,
}

/// What is sent back to the sender of a message.
#[derive(Clone, Copy, Debug, PartialEq, Eq, Structural)]
pub enum Reply {
    Nothing,
    /// The state change was made; carries the new state.
    Allowed(ClientState),
    /// The message was refused; carries the reason and the unchanged state.
    Refused(RequestStateError, ClientState),
    Pong,
}

/// What a message does to the world, for the caller to carry out.
#[derive(Clone, Copy, Debug, PartialEq, Eq, Structural)]
pub enum Effect {
    Nothing,
    /// Store the player's metadata and send it the world as it stands.
    InitializePlayer,
    /// Give the entity the full set of gameplay attributes.
    CreateCharacter,
    SetViewDistance(u32),
    /// Begin a swing.
    StartAttack,
    /// Mark the entity for respawn at the end of the tick.
    MarkRespawn,
    /// Hand the text to the chat dispatcher.
    Chat,
    WriteAnimation,
    WritePhysics,
    /// Serve the chunk if it is loaded, else have it generated.
    ChunkWanted(ChunkKey),
}

/// The full answer to one message.
#[derive(Clone, Copy, Debug, PartialEq, Eq, Structural)]
pub struct Outcome {
    pub state: ClientState,
    pub reply: Reply,
    pub effect: Effect,
    pub disconnect: bool,
}

/// The message changes nothing and is not answered.
pub open spec fn ignored(cur: ClientState) -> Outcome {
    Outcome { state: cur, reply: Reply::Nothing, effect: Effect::Nothing, disconnect: false }
}

/// The message is refused with `err`; the state stays.
pub open spec fn refused(cur: ClientState, err: RequestStateError) -> Outcome {
    Outcome {
        state: cur,
        reply: Reply::Refused(err, cur),
        effect: Effect::Nothing,
        disconnect: false,
    }
}

/// The connection moves to `next`, is told so, and `effect` is carried out.
pub open spec fn moved(next: ClientState, effect: Effect) -> Outcome {
    Outcome { state: next, reply: Reply::Allowed(next), effect, disconnect: false }
}

/// The state stays, nothing is sent, and `effect` is carried out.
pub open spec fn accepted(cur: ClientState, effect: Effect) -> Outcome {
    Outcome { state: cur, reply: Reply::Nothing, effect, disconnect: false }
}

/// The connection is to be closed.
pub open spec fn closing(cur: ClientState) -> Outcome {
    Outcome { state: cur, reply: Reply::Nothing, effect: Effect::Nothing, disconnect: true }
}

/// The transition table of the generic "request state" message.
pub open spec fn spec_request_state(cur: ClientState, wanted: ClientState) -> Outcome {
    match wanted {
        ClientState::Connected => closing(cur),
        ClientState::Registered => match cur {
            ClientState::Connected => refused(cur, RequestStateError::WrongMessage),
            ClientState::Registered => refused(cur, RequestStateError::Already),
            ClientState::Spectator => moved(ClientState::Registered, Effect::Nothing),
            ClientState::Dead | ClientState::Character => refused(
                cur,
                RequestStateError::Impossible,
            ),
        },
        ClientState::Spectator => match cur {
            ClientState::Spectator => refused(cur, RequestStateError::Already),
            ClientState::Registered => moved(ClientState::Spectator, Effect::Nothing),
            ClientState::Connected | ClientState::Dead | ClientState::Character => refused(
                cur,
                RequestStateError::Impossible,
            ),
        },
        ClientState::Character => refused(cur, RequestStateError::WrongMessage),
        ClientState::Dead => refused(cur, RequestStateError::Impossible),
    }
}

/// The full table: what `msg` does to a connection in state `cur`.
///
/// `attacking` says whether the connection's entity is in a swing already,
/// `max_chat_len` is the longest chat text, in bytes, that is passed on.
pub open spec fn spec_handle(
    cur: ClientState,
    attacking: bool,
    max_chat_len: usize,
    msg: ClientMsg,
) -> Outcome {
    match msg {
        ClientMsg::RequestState(wanted) => spec_request_state(cur, wanted),
        ClientMsg::Register => if cur == ClientState::Connected {
            moved(ClientState::Registered, Effect::InitializePlayer)
        } else {
            refused(cur, RequestStateError::Impossible)
        },
        ClientMsg::SetViewDistance(vd) => if cur == ClientState::Character {
            accepted(cur, Effect::SetViewDistance(vd))
        } else {
            ignored(cur)
        },
        ClientMsg::Character => match cur {
            ClientState::Connected => refused(cur, RequestStateError::Impossible),
            ClientState::Character => refused(cur, RequestStateError::Already),
            ClientState::Registered | ClientState::Spectator | ClientState::Dead => moved(
                ClientState::Character,
                Effect::CreateCharacter,
            ),
        },
        ClientMsg::Attack => if cur == ClientState::Character {
            if attacking {
                ignored(cur)
            } else {
                accepted(cur, Effect::StartAttack)
            }
        } else {
            refused(cur, RequestStateError::Impossible)
        },
        ClientMsg::Respawn => if cur == ClientState::Dead {
            accepted(cur, Effect::MarkRespawn)
        } else {
            refused(cur, RequestStateError::Impossible)
        },
        ClientMsg::Chat { len } => if cur == ClientState::Connected {
            refused(cur, RequestStateError::Impossible)
        } else if len <= max_chat_len {
            accepted(cur, Effect::Chat)
        } else {
            ignored(cur)
        },
        ClientMsg::PlayerAnimation => if cur == ClientState::Character {
            accepted(cur, Effect::WriteAnimation)
        } else {
            refused(cur, RequestStateError::Impossible)
        },
        ClientMsg::PlayerPhysics => if cur == ClientState::Character {
            accepted(cur, Effect::WritePhysics)
        } else {
            refused(cur, RequestStateError::Impossible)
        },
        ClientMsg::TerrainChunkRequest { key } => match cur {
            ClientState::Spectator | ClientState::Character => accepted(
                cur,
                Effect::ChunkWanted(key),
            ),
            ClientState::Connected | ClientState::Registered | ClientState::Dead => refused(
                cur,
                RequestStateError::Impossible,
            ),
        },
        ClientMsg::Ping => Outcome {
            state: cur,
            reply: Reply::Pong,
            effect: Effect::Nothing,
            disconnect: false,
        },
        ClientMsg::Pong => ignored(cur),
        ClientMsg::Disconnect => closing(cur),
    }
}

fn refuse(cur: ClientState, err: RequestStateError) -> (out: Outcome)
    ensures
        out == refused(cur, err),
{
    Outcome { state: cur, reply: Reply::Refused(err, cur), effect: Effect::Nothing, disconnect: false }
}

fn move_to(next: ClientState, effect: Effect) -> (out: Outcome)
    ensures
        out == moved(next, effect),
{
    Outcome { state: next, reply: Reply::Allowed(next), effect, disconnect: false }
}

fn accept(cur: ClientState, effect: Effect) -> (out: Outcome)
    ensures
        out == accepted(cur, effect),
{
    Outcome { state: cur, reply: Reply::Nothing, effect, disconnect: false }
}

fn close(cur: ClientState) -> (out: Outcome)
    ensures
        out == closing(cur),
{
    Outcome { state: cur, reply: Reply::Nothing, effect: Effect::Nothing, disconnect: true }
}

/// Answers a generic "request state" message.
pub fn request_state(cur: ClientState, wanted: ClientState) -> (out: Outcome)
    ensures
        out == spec_request_state(cur, wanted),
{
    match wanted {
        ClientState::Connected => close(cur),
        ClientState::Registered => match cur {
            ClientState::Connected => refuse(cur, RequestStateError::WrongMessage),
            ClientState::Registered => refuse(cur, RequestStateError::Already),
            ClientState::Spectator => move_to(ClientState::Registered, Effect::Nothing),
            ClientState::Dead | ClientState::Character => refuse(
                cur,
                RequestStateError::Impossible,
            ),
        },
        ClientState::Spectator => match cur {
            ClientState::Spectator => refuse(cur, RequestStateError::Already),
            ClientState::Registered => move_to(ClientState::Spectator, Effect::Nothing),
            ClientState::Connected | ClientState::Dead | ClientState::Character => refuse(
                cur,
                RequestStateError::Impossible,
            ),
        },
        ClientState::Character => refuse(cur, RequestStateError::WrongMessage),
        ClientState::Dead => refuse(cur, RequestStateError::Impossible),
    }
}

/// Answers one inbound message.
pub fn handle_message(
    cur: ClientState,
    attacking: bool,
    max_chat_len: usize,
    msg: ClientMsg,
) -> (out: Outcome)
    ensures
        out == spec_handle(cur, attacking, max_chat_len, msg),
{
    let impossible = RequestStateError::Impossible;
    match msg {
        ClientMsg::RequestState(wanted) => request_state(cur, wanted),
        ClientMsg::Register => match cur {
            ClientState::Connected => move_to(ClientState::Registered, Effect::InitializePlayer),
            _ => refuse(cur, impossible),
        },
        ClientMsg::SetViewDistance(vd) => match cur {
            ClientState::Character => accept(cur, Effect::SetViewDistance(vd)),
            _ => accept(cur, Effect::Nothing),
        },
        ClientMsg::Character => match cur {
            ClientState::Connected => refuse(cur, impossible),
            ClientState::Character => refuse(cur, RequestStateError::Already),
            ClientState::Registered | ClientState::Spectator | ClientState::Dead => move_to(
                ClientState::Character,
                Effect::CreateCharacter,
            ),
        },
        ClientMsg::Attack => match cur {
            ClientState::Character => if attacking {
                accept(cur, Effect::Nothing)
            } else {
                accept(cur, Effect::StartAttack)
            },
            _ => refuse(cur, impossible),
        },
        ClientMsg::Respawn => match cur {
            ClientState::Dead => accept(cur, Effect::MarkRespawn),
            _ => refuse(cur, impossible),
        },
        ClientMsg::Chat { len } => match cur {
            ClientState::Connected => refuse(cur, impossible),
            _ => if len <= max_chat_len {
                accept(cur, Effect::Chat)
            } else {
                accept(cur, Effect::Nothing)
            },
        },
        ClientMsg::PlayerAnimation => match cur {
            ClientState::Character => accept(cur, Effect::WriteAnimation),
            _ => refuse(cur, impossible),
        },
        ClientMsg::PlayerPhysics => match cur {
            ClientState::Character => accept(cur, Effect::WritePhysics),
            _ => refuse(cur, impossible),
        },
        ClientMsg::TerrainChunkRequest { key } => match cur {
            ClientState::Spectator | ClientState::Character => accept(
                cur,
                Effect::ChunkWanted(key),
            ),
            ClientState::Connected | ClientState::Registered | ClientState::Dead => refuse(
                cur,
                impossible,
            ),
        },
        ClientMsg::Ping => Outcome {
            state: cur,
            reply: Reply::Pong,
            effect: Effect::Nothing,
            disconnect: false,
        },
        ClientMsg::Pong => accept(cur, Effect::Nothing),
        ClientMsg::Disconnect => close(cur),
    }
}

/// A message that is refused does nothing else: the state stays, nothing
/// happens to the world, and the connection stays open.
pub proof fn refusal_changes_nothing(
    cur: ClientState,
    attacking: bool,
    max_chat_len: usize,
    msg: ClientMsg,
)
    requires
        spec_handle(cur, attacking, max_chat_len, msg).reply is Refused,
    ensures
        spec_handle(cur, attacking, max_chat_len, msg).state == cur,
        spec_handle(cur, attacking, max_chat_len, msg).effect == Effect::Nothing,
        !spec_handle(cur, attacking, max_chat_len, msg).disconnect,
        spec_handle(cur, attacking, max_chat_len, msg).reply->Refused_1 == cur,
{
}

/// No message takes a connection to `Dead` or back to `Connected`: a state
/// changes only along `Connected -> Registered <-> Spectator` and from
/// `Registered`, `Spectator` or `Dead` to `Character`, and every change is
/// told to the sender.
pub proof fn states_change_along_the_edges(
    cur: ClientState,
    attacking: bool,
    max_chat_len: usize,
    msg: ClientMsg,
)
    ensures
        ({
            let out = spec_handle(cur, attacking, max_chat_len, msg);
            out.state != cur ==> {
                &&& out.reply == Reply::Allowed(out.state)
                &&& !out.disconnect
                &&& match out.state {
                    ClientState::Registered => cur == ClientState::Connected || cur
                        == ClientState::Spectator,
                    ClientState::Spectator => cur == ClientState::Registered,
                    ClientState::Character => cur == ClientState::Registered || cur
                        == ClientState::Spectator || cur == ClientState::Dead,
                    ClientState::Connected | ClientState::Dead => false,
                }
            }
        }),
{
}

/// Whether the entity is in a swing once `out` has been carried out.
pub open spec fn swinging_after(attacking: bool, out: Outcome) -> bool {
    attacking || out.effect == Effect::StartAttack
}

/// State of the connection, and whether its entity is in a swing, once every
/// message of `msgs` has been handled in order.
pub open spec fn spec_after(
    cur: ClientState,
    attacking: bool,
    max_chat_len: usize,
    msgs: Seq<ClientMsg>,
) -> (ClientState, bool)
    decreases msgs.len(),
{
    if msgs.len() == 0 {
        (cur, attacking)
    } else {
        let before = spec_after(cur, attacking, max_chat_len, msgs.drop_last());
        let out = spec_handle(before.0, before.1, max_chat_len, msgs.last());
        (out.state, swinging_after(before.1, out))
    }
}

/// The answer to message `i` of a batch: the table applied to the state
/// that the messages before it have left.
pub open spec fn spec_outcome_at(
    cur: ClientState,
    attacking: bool,
    max_chat_len: usize,
    msgs: Seq<ClientMsg>,
    i: int,
) -> Outcome {
    let before = spec_after(cur, attacking, max_chat_len, msgs.take(i));
    spec_handle(before.0, before.1, max_chat_len, msgs[i])
}

/// Whether some message of the batch asks for the connection to be closed.
pub open spec fn spec_batch_closes(
    cur: ClientState,
    attacking: bool,
    max_chat_len: usize,
    msgs: Seq<ClientMsg>,
) -> bool {
    exists|i: int|
        0 <= i < msgs.len() && (#[trigger] spec_outcome_at(
            cur,
            attacking,
            max_chat_len,
            msgs,
            i,
        )).disconnect
}

/// Handles a batch of messages strictly in arrival order.
///
/// Returns one outcome per message. A message that closes the connection
/// does not stop the batch: what follows it is still handled.
pub fn process_batch(
    cur: ClientState,
    attacking: bool,
    max_chat_len: usize,
    msgs: &Vec<ClientMsg>,
) -> (outs: Vec<Outcome>)
    ensures
        outs.len() == msgs.len(),
        forall|i: int|
            0 <= i < msgs.len() ==> #[trigger] outs[i] == spec_outcome_at(
                cur,
                attacking,
                max_chat_len,
                msgs@,
                i,
            ),
{
    let mut outs: Vec<Outcome> = Vec::new();
    let mut state = cur;
    let mut swinging = attacking;
    let mut i: usize = 0;
    while i < msgs.len()
        invariant
            i <= msgs.len(),
            outs.len() == i,
            (state, swinging) == spec_after(cur, attacking, max_chat_len, msgs@.take(i as int)),
            forall|j: int|
                0 <= j < i ==> #[trigger] outs[j] == spec_outcome_at(
                    cur,
                    attacking,
                    max_chat_len,
                    msgs@,
                    j,
                ),
        decreases msgs.len() - i,
    {
        let out = handle_message(state, swinging, max_chat_len, msgs[i]);
        proof {
            let next = msgs@.take(i as int + 1);
            assert(next.drop_last() =~= msgs@.take(i as int));
        }
        if let Effect::StartAttack = out.effect {
            swinging = true;
        }
        state = out.state;
        outs.push(out);
        i = i + 1;
    }
    outs
}

/// What becomes of a connection at the end of its turn.
#[derive(Clone, Copy, Debug, PartialEq, Eq, Structural)]
pub enum Verdict {
    /// The connection stays as it is.
    Keep,
    /// The connection stays and is sent a keep-alive probe.
    Probe,
    /// The connection is told that it is closed, and removed.
    Disconnect,
}

/// Time since the connection was last heard of; zero if the clock went back.
pub open spec fn spec_idle(now: u64, last_ping: u64) -> int {
    if now >= last_ping {
        now - last_ping
    } else {
        0
    }
}

/// The rule that decides a connection's fate for this tick.
///
/// A failed channel closes the connection whatever else holds, and so does a
/// message that asks for it. A connection that sent nothing is closed once it
/// has been silent for longer than [`CLIENT_TIMEOUT`], and probed once it has
/// been silent for longer than [`CLIENT_PROBE`].
pub open spec fn spec_verdict(asked_to_close: bool, channel_error: bool, received: bool, idle: int) -> Verdict {
    if channel_error || asked_to_close {
        Verdict::Disconnect
    } else if received {
        Verdict::Keep
    } else if idle > CLIENT_TIMEOUT {
        Verdict::Disconnect
    } else if idle > CLIENT_PROBE {
        Verdict::Probe
    } else {
        Verdict::Keep
    }
}

/// Decides a connection's fate for this tick.
pub fn verdict(asked_to_close: bool, channel_error: bool, received: bool, now: u64, last_ping: u64) -> (v: Verdict)
    ensures
        v == spec_verdict(asked_to_close, channel_error, received, spec_idle(now, last_ping)),
{
    let idle: u64 = if now >= last_ping {
        now - last_ping
    } else {
        0
    };
    if channel_error || asked_to_close {
        Verdict::Disconnect
    } else if received {
        Verdict::Keep
    } else if idle > CLIENT_TIMEOUT {
        Verdict::Disconnect
    } else if idle > CLIENT_PROBE {
        Verdict::Probe
    } else {
        Verdict::Keep
    }
}

/// One connection as the protocol sees it.
#[derive(Clone, Copy, Debug, PartialEq, Eq, Structural)]
pub struct Session {
    pub state: ClientState,
    /// When the connection was last heard of, in microseconds.
    pub last_ping: u64,
}

/// What one turn of a connection produced.
#[derive(Debug)]
pub struct Turn {
    /// One outcome per message, in arrival order.
    pub outcomes: Vec<Outcome>,
    pub verdict: Verdict,
}

impl Session {
    /// A connection that has just been accepted.
    pub fn new(now: u64) -> (s: Session)
        ensures
            s == (Session { state: ClientState::Connected, last_ping: now }),
    {
        Session { state: ClientState::Connected, last_ping: now }
    }

    /// Puts the connection into `state` on the server's own authority, as
    /// when its character has died.
    pub fn force_state(&mut self, state: ClientState)
        ensures
            *final(self) == (Session { state, last_ping: old(self).last_ping }),
    {
        self.state = state;
    }

    /// Runs one turn of the connection: handles what it sent since the last
    /// tick, in order, and decides whether it stays.
    ///
    /// Traffic resets the idle clock to `now`.
    pub fn turn(
        &mut self,
        now: u64,
        attacking: bool,
        channel_error: bool,
        max_chat_len: usize,
        msgs: &Vec<ClientMsg>,
    ) -> (t: Turn)
        ensures
            t.outcomes.len() == msgs.len(),
            forall|i: int|
                0 <= i < msgs.len() ==> #[trigger] t.outcomes[i] == spec_outcome_at(
                    old(self).state,
                    attacking,
                    max_chat_len,
                    msgs@,
                    i,
                ),
            final(self).state == spec_after(old(self).state, attacking, max_chat_len, msgs@).0,
            final(self).last_ping == if msgs.len() > 0 {
                now
            } else {
                old(self).last_ping
            },
            t.verdict == spec_verdict(
                spec_batch_closes(old(self).state, attacking, max_chat_len, msgs@),
                channel_error,
                msgs.len() > 0,
                spec_idle(now, old(self).last_ping),
            ),
    {
        let outcomes = process_batch(self.state, attacking, max_chat_len, msgs);
        let ghost start = self.state;
        let mut asked: bool = false;
        let mut i: usize = 0;
        while i < outcomes.len()
            invariant
                i <= outcomes.len(),
                outcomes.len() == msgs.len(),
                self.state == spec_after(start, attacking, max_chat_len, msgs@.take(i as int)).0,
                forall|j: int|
                    0 <= j < msgs.len() ==> #[trigger] outcomes[j] == spec_outcome_at(
                        start,
                        attacking,
                        max_chat_len,
                        msgs@,
                        j,
                    ),
                asked <==> exists|j: int|
                    0 <= j < i && (#[trigger] spec_outcome_at(
                        start,
                        attacking,
                        max_chat_len,
                        msgs@,
                        j,
                    )).disconnect,
                self.last_ping == old(self).last_ping,
            decreases outcomes.len() - i,
        {
            proof {
                let next = msgs@.take(i as int + 1);
                assert(next.drop_last() =~= msgs@.take(i as int));
            }
            if outcomes[i].disconnect {
                asked = true;
            }
            self.state = outcomes[i].state;
            i = i + 1;
        }
        proof {
            assert(msgs@.take(msgs.len() as int) =~= msgs@);
        }
        let v = verdict(asked, channel_error, msgs.len() > 0, now, self.last_ping);
        if msgs.len() > 0 {
            self.last_ping = now;
        }
        Turn { outcomes, verdict: v }
    }
}

} // verus!
