use server_core::grid::ChunkKey;
use server_core::session::{
    handle_message, process_batch, request_state, verdict, ClientMsg, ClientState, Effect,
    Outcome, Reply, RequestStateError, Session, Verdict, CLIENT_PROBE, CLIENT_TIMEOUT,
};

const MAX_CHAT: usize = 16;

fn refused(cur: ClientState, err: RequestStateError) -> Outcome {
    Outcome { state: cur, reply: Reply::Refused(err, cur), effect: Effect::Nothing, disconnect: false }
}

fn moved(next: ClientState, effect: Effect) -> Outcome {
    Outcome { state: next, reply: Reply::Allowed(next), effect, disconnect: false }
}

fn accepted(cur: ClientState, effect: Effect) -> Outcome {
    Outcome { state: cur, reply: Reply::Nothing, effect, disconnect: false }
}

const ALL: [ClientState; 5] = [
    ClientState::Connected,
    ClientState::Registered,
    ClientState::Spectator,
    ClientState::Dead,
    ClientState::Character,
];

#[test]
fn character_from_connected_is_impossible() {
    let out = handle_message(ClientState::Connected, false, MAX_CHAT, ClientMsg::Character);
    assert_eq!(out, refused(ClientState::Connected, RequestStateError::Impossible));
}

#[test]
fn register_then_character_reaches_character() {
    let msgs = vec![ClientMsg::Character, ClientMsg::Register, ClientMsg::Character];
    let mut session = Session::new(5);
    let turn = session.turn(9, false, false, MAX_CHAT, &msgs);
    assert_eq!(turn.outcomes.len(), 3);
    assert_eq!(turn.outcomes[0], refused(ClientState::Connected, RequestStateError::Impossible));
    assert_eq!(turn.outcomes[1], moved(ClientState::Registered, Effect::InitializePlayer));
    assert_eq!(turn.outcomes[2], moved(ClientState::Character, Effect::CreateCharacter));
    assert_eq!(session.state, ClientState::Character);
    assert_eq!(session.last_ping, 9);
    assert_eq!(turn.verdict, Verdict::Keep);
}

#[test]
fn request_registered_follows_the_edges() {
    let want = ClientState::Registered;
    assert_eq!(
        request_state(ClientState::Connected, want),
        refused(ClientState::Connected, RequestStateError::WrongMessage)
    );
    assert_eq!(
        request_state(ClientState::Registered, want),
        refused(ClientState::Registered, RequestStateError::Already)
    );
    assert_eq!(request_state(ClientState::Spectator, want), moved(want, Effect::Nothing));
    assert_eq!(
        request_state(ClientState::Dead, want),
        refused(ClientState::Dead, RequestStateError::Impossible)
    );
    assert_eq!(
        request_state(ClientState::Character, want),
        refused(ClientState::Character, RequestStateError::Impossible)
    );
}

#[test]
fn request_spectator_follows_the_edges() {
    let want = ClientState::Spectator;
    assert_eq!(
        request_state(ClientState::Connected, want),
        refused(ClientState::Connected, RequestStateError::Impossible)
    );
    assert_eq!(request_state(ClientState::Registered, want), moved(want, Effect::Nothing));
    assert_eq!(
        request_state(ClientState::Spectator, want),
        refused(ClientState::Spectator, RequestStateError::Already)
    );
    assert_eq!(
        request_state(ClientState::Dead, want),
        refused(ClientState::Dead, RequestStateError::Impossible)
    );
    assert_eq!(
        request_state(ClientState::Character, want),
        refused(ClientState::Character, RequestStateError::Impossible)
    );
}

#[test]
fn request_character_or_dead_is_never_granted() {
    for cur in ALL {
        assert_eq!(
            request_state(cur, ClientState::Character),
            refused(cur, RequestStateError::WrongMessage)
        );
        assert_eq!(
            request_state(cur, ClientState::Dead),
            refused(cur, RequestStateError::Impossible)
        );
    }
}

#[test]
fn request_connected_closes() {
    for cur in ALL {
        let out = request_state(cur, ClientState::Connected);
        assert_eq!(
            out,
            Outcome { state: cur, reply: Reply::Nothing, effect: Effect::Nothing, disconnect: true }
        );
    }
}

#[test]
fn register_only_from_connected() {
    for cur in ALL {
        let out = handle_message(cur, false, MAX_CHAT, ClientMsg::Register);
        if cur == ClientState::Connected {
            assert_eq!(out, moved(ClientState::Registered, Effect::InitializePlayer));
        } else {
            assert_eq!(out, refused(cur, RequestStateError::Impossible));
        }
    }
}

#[test]
fn character_message_table() {
    for cur in [ClientState::Registered, ClientState::Spectator, ClientState::Dead] {
        assert_eq!(
            handle_message(cur, false, MAX_CHAT, ClientMsg::Character),
            moved(ClientState::Character, Effect::CreateCharacter)
        );
    }
    assert_eq!(
        handle_message(ClientState::Character, false, MAX_CHAT, ClientMsg::Character),
        refused(ClientState::Character, RequestStateError::Already)
    );
}

#[test]
fn gameplay_messages_are_gated_by_state() {
    for cur in ALL {
        let in_play = cur == ClientState::Character;
        let attack = handle_message(cur, false, MAX_CHAT, ClientMsg::Attack);
        let anim = handle_message(cur, false, MAX_CHAT, ClientMsg::PlayerAnimation);
        let phys = handle_message(cur, false, MAX_CHAT, ClientMsg::PlayerPhysics);
        let vd = handle_message(cur, false, MAX_CHAT, ClientMsg::SetViewDistance(7));
        if in_play {
            assert_eq!(attack, accepted(cur, Effect::StartAttack));
            assert_eq!(anim, accepted(cur, Effect::WriteAnimation));
            assert_eq!(phys, accepted(cur, Effect::WritePhysics));
            assert_eq!(vd, accepted(cur, Effect::SetViewDistance(7)));
        } else {
            assert_eq!(attack, refused(cur, RequestStateError::Impossible));
            assert_eq!(anim, refused(cur, RequestStateError::Impossible));
            assert_eq!(phys, refused(cur, RequestStateError::Impossible));
            assert_eq!(vd, accepted(cur, Effect::Nothing));
        }
        let respawn = handle_message(cur, false, MAX_CHAT, ClientMsg::Respawn);
        if cur == ClientState::Dead {
            assert_eq!(respawn, accepted(cur, Effect::MarkRespawn));
        } else {
            assert_eq!(respawn, refused(cur, RequestStateError::Impossible));
        }
    }
}

#[test]
fn attack_during_a_swing_is_dropped() {
    let out = handle_message(ClientState::Character, true, MAX_CHAT, ClientMsg::Attack);
    assert_eq!(out, accepted(ClientState::Character, Effect::Nothing));
    let outs =
        process_batch(ClientState::Character, false, MAX_CHAT, &vec![ClientMsg::Attack, ClientMsg::Attack]);
    assert_eq!(outs[0].effect, Effect::StartAttack);
    assert_eq!(outs[1].effect, Effect::Nothing);
}

#[test]
fn chat_is_gated_and_bounded() {
    assert_eq!(
        handle_message(ClientState::Connected, false, MAX_CHAT, ClientMsg::Chat { len: 3 }),
        refused(ClientState::Connected, RequestStateError::Impossible)
    );
    for cur in [
        ClientState::Registered,
        ClientState::Spectator,
        ClientState::Dead,
        ClientState::Character,
    ] {
        assert_eq!(
            handle_message(cur, false, MAX_CHAT, ClientMsg::Chat { len: MAX_CHAT }),
            accepted(cur, Effect::Chat)
        );
        assert_eq!(
            handle_message(cur, false, MAX_CHAT, ClientMsg::Chat { len: MAX_CHAT + 1 }),
            accepted(cur, Effect::Nothing)
        );
    }
}

#[test]
fn chunk_requests_are_gated_by_state() {
    let key = ChunkKey { x: -3, y: 8 };
    let msg = ClientMsg::TerrainChunkRequest { key };
    for cur in ALL {
        let out = handle_message(cur, false, MAX_CHAT, msg);
        if cur == ClientState::Spectator || cur == ClientState::Character {
            assert_eq!(out, accepted(cur, Effect::ChunkWanted(key)));
        } else {
            assert_eq!(out, refused(cur, RequestStateError::Impossible));
        }
    }
}

#[test]
fn ping_pong_disconnect_are_always_legal() {
    for cur in ALL {
        assert_eq!(
            handle_message(cur, false, MAX_CHAT, ClientMsg::Ping),
            Outcome { state: cur, reply: Reply::Pong, effect: Effect::Nothing, disconnect: false }
        );
        assert_eq!(handle_message(cur, false, MAX_CHAT, ClientMsg::Pong), accepted(cur, Effect::Nothing));
        assert_eq!(
            handle_message(cur, false, MAX_CHAT, ClientMsg::Disconnect),
            Outcome { state: cur, reply: Reply::Nothing, effect: Effect::Nothing, disconnect: true }
        );
    }
}

#[test]
fn a_batch_goes_on_after_a_disconnect() {
    let msgs = vec![ClientMsg::Disconnect, ClientMsg::Register, ClientMsg::Ping];
    let mut session = Session::new(0);
    let turn = session.turn(4, false, false, MAX_CHAT, &msgs);
    assert!(turn.outcomes[0].disconnect);
    assert_eq!(turn.outcomes[1], moved(ClientState::Registered, Effect::InitializePlayer));
    assert_eq!(turn.outcomes[2].reply, Reply::Pong);
    assert_eq!(session.state, ClientState::Registered);
    assert_eq!(turn.verdict, Verdict::Disconnect);
}

#[test]
fn silence_is_probed_then_dropped() {
    assert_eq!(CLIENT_TIMEOUT, 20_000_000);
    assert_eq!(CLIENT_PROBE, 10_000_000);
    let base: u64 = 1_000;
    assert_eq!(verdict(false, false, false, base + 10_000_000, base), Verdict::Keep);
    assert_eq!(verdict(false, false, false, base + 10_000_001, base), Verdict::Probe);
    assert_eq!(verdict(false, false, false, base + 20_000_000, base), Verdict::Probe);
    assert_eq!(verdict(false, false, false, base + 20_000_001, base), Verdict::Disconnect);
    assert_eq!(verdict(false, false, false, 0, base), Verdict::Keep);
}

#[test]
fn traffic_keeps_a_connection_whatever_its_silence() {
    assert_eq!(verdict(false, false, true, 90_000_000, 0), Verdict::Keep);
}

#[test]
fn a_failed_channel_always_disconnects() {
    assert_eq!(verdict(false, true, true, 5, 5), Verdict::Disconnect);
    assert_eq!(verdict(false, true, false, 5, 5), Verdict::Disconnect);
    assert_eq!(verdict(true, false, true, 5, 5), Verdict::Disconnect);
    for cur in ALL {
        let mut session = Session { state: cur, last_ping: 3 };
        let turn = session.turn(4, false, true, MAX_CHAT, &vec![ClientMsg::Ping]);
        assert_eq!(turn.verdict, Verdict::Disconnect);
        assert_eq!(session.state, cur);
    }
}

#[test]
fn a_silent_turn_leaves_the_idle_clock() {
    let mut session = Session { state: ClientState::Spectator, last_ping: 7 };
    let turn = session.turn(10_000_008, false, false, MAX_CHAT, &Vec::new());
    assert_eq!(turn.outcomes.len(), 0);
    assert_eq!(turn.verdict, Verdict::Probe);
    assert_eq!(session, Session { state: ClientState::Spectator, last_ping: 7 });
}

#[test]
fn force_state_overrides_any_state() {
    for cur in ALL {
        let mut session = Session { state: cur, last_ping: 11 };
        session.force_state(ClientState::Dead);
        assert_eq!(session, Session { state: ClientState::Dead, last_ping: 11 });
    }
}
