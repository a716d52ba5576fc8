use server_core::entity::Attributes;
use server_core::server::{Client, Event, Inbox, Server};
use server_core::session::{ClientMsg, ClientState, Effect, Reply, Session, Verdict};
use server_core::stats::{HealthSource, Stats};
use server_core::tick::{death_notice, end_tick, DeathNotice, Fate, Marks, Phase};
use server_core::grid::ChunkKey;

#[test]
fn a_tick_runs_its_phases_in_order() {
    let mut order = vec![Phase::first()];
    while let Some(next) = order[order.len() - 1].next() {
        order.push(next);
    }
    assert_eq!(
        order,
        vec![
            Phase::Connections,
            Phase::Messages,
            Phase::Physics,
            Phase::Combat,
            Phase::Deaths,
            Phase::Respawns,
            Phase::Terrain,
            Phase::Replication,
            Phase::Cleanup,
        ]
    );
}

#[test]
fn a_death_is_announced_by_its_cause() {
    assert_eq!(death_notice(HealthSource::Attack { by: 4 }, true), DeathNotice::KilledBy(4));
    assert_eq!(death_notice(HealthSource::Attack { by: 4 }, false), DeathNotice::Died);
    assert_eq!(death_notice(HealthSource::Other, true), DeathNotice::Died);
}

#[test]
fn the_dead_are_downed_or_deleted() {
    let mut server: Server<u8> = Server::new(80);
    server.handle_new_connections(3, &vec![5, 6]);
    server.clients[0].session.state = ClientState::Character;
    assert_eq!(server.settle_death(9), Fate::Deleted);
    assert_eq!(server.clients[0].session.state, ClientState::Character);
    assert_eq!(server.settle_death(5), Fate::Downed);
    assert_eq!(
        server.clients,
        vec![
            Client { entity: 5, session: Session { state: ClientState::Dead, last_ping: 3 } },
            Client { entity: 6, session: Session { state: ClientState::Connected, last_ping: 3 } },
        ]
    );
}

#[test]
fn a_respawn_gives_a_fresh_character() {
    let mut server: Server<u8> = Server::new(80);
    server.handle_new_connections(3, &vec![5]);
    assert_eq!(server.settle_death(5), Fate::Downed);
    let mut stats = Stats::full(100);
    stats.hp.change_by(-100, HealthSource::Attack { by: 1 });
    stats.is_dead = true;
    let worn = stats;
    assert_eq!(server.settle_respawn(8, &mut stats, 100), None);
    assert_eq!(stats, worn);
    assert_eq!(server.clients[0].session.state, ClientState::Dead);
    let reply = server.settle_respawn(5, &mut stats, 100);
    assert_eq!(reply, Some(Reply::Allowed(ClientState::Character)));
    assert_eq!(
        server.clients,
        vec![Client { entity: 5, session: Session { state: ClientState::Character, last_ping: 3 } }]
    );
    assert_eq!(stats, Stats::full(100));
    assert_eq!(stats.hp.current, 100);
    assert!(!stats.is_dead);
}

#[test]
fn the_marks_come_off_at_the_end_of_a_tick() {
    let clean = Marks { dying: None, respawning: false };
    let mut marks = vec![
        Marks { dying: Some(HealthSource::Other), respawning: false },
        Marks { dying: None, respawning: true },
        clean,
    ];
    end_tick(&mut marks);
    assert_eq!(marks, vec![clean, clean, clean]);
    end_tick(&mut marks);
    assert_eq!(marks, vec![clean, clean, clean]);
}

#[test]
fn a_character_gains_all_its_attributes_at_once() {
    let mut attrs = Attributes::bare();
    assert!(!attrs.actor && attrs.stats.is_none() && !attrs.position && !attrs.force_update);
    attrs.initialize_player();
    assert!(attrs.player && !attrs.actor);
    attrs.create_player_character(100);
    assert_eq!(
        attrs,
        Attributes {
            player: true,
            actor: true,
            stats: Some(Stats::full(100)),
            animation: true,
            position: true,
            velocity: true,
            orientation: true,
            force_update: true,
        }
    );
    let npc = Attributes::create_npc(40);
    assert_eq!(npc, Attributes { player: false, stats: Some(Stats::full(40)), ..attrs });
}

#[test]
fn new_connections_begin_connected() {
    let mut server: Server<u8> = Server::new(80);
    let events = server.handle_new_connections(12, &vec![5, 6]);
    assert!(matches!(events[0], Event::ClientConnected { entity: 5 }));
    assert!(matches!(events[1], Event::ClientConnected { entity: 6 }));
    assert_eq!(events.len(), 2);
    let fresh = Session { state: ClientState::Connected, last_ping: 12 };
    assert_eq!(
        server.clients,
        vec![Client { entity: 5, session: fresh }, Client { entity: 6, session: fresh }]
    );
}

#[test]
fn a_connection_registers_and_becomes_a_character_within_the_server() {
    let mut server: Server<u8> = Server::new(80);
    server.handle_new_connections(0, &vec![5]);
    let refused = server.handle_new_messages(
        1,
        &vec![Inbox { msgs: vec![ClientMsg::Character], channel_error: false, attacking: false }],
    );
    assert_eq!(
        refused.turns[0].outcomes[0].reply,
        Reply::Refused(server_core::session::RequestStateError::Impossible, ClientState::Connected)
    );
    assert_eq!(server.clients[0].session.state, ClientState::Connected);
    let out = server.handle_new_messages(
        2,
        &vec![Inbox {
            msgs: vec![ClientMsg::Register, ClientMsg::Character],
            channel_error: false,
            attacking: false,
        }],
    );
    assert_eq!(out.turns[0].outcomes[0].effect, Effect::InitializePlayer);
    assert_eq!(out.turns[0].outcomes[1].effect, Effect::CreateCharacter);
    assert_eq!(out.turns[0].outcomes[1].reply, Reply::Allowed(ClientState::Character));
    assert_eq!(
        server.clients,
        vec![Client { entity: 5, session: Session { state: ClientState::Character, last_ping: 2 } }]
    );
    assert_eq!(out.events.len(), 0);
}

#[test]
fn the_server_removes_who_leaves_and_keeps_the_rest_in_order() {
    let mut server: Server<u8> = Server::new(80);
    server.handle_new_connections(0, &vec![1, 2, 3, 4]);
    let quiet = || Inbox { msgs: Vec::new(), channel_error: false, attacking: false };
    let inboxes = vec![
        Inbox { msgs: vec![ClientMsg::Disconnect], channel_error: false, attacking: false },
        Inbox { msgs: vec![ClientMsg::Register], channel_error: false, attacking: false },
        Inbox { msgs: Vec::new(), channel_error: true, attacking: false },
        quiet(),
    ];
    let out = server.handle_new_messages(15_000_000, &inboxes);
    assert_eq!(out.turns.len(), 4);
    assert_eq!(out.turns[0].verdict, Verdict::Disconnect);
    assert_eq!(out.turns[1].verdict, Verdict::Keep);
    assert_eq!(out.turns[2].verdict, Verdict::Disconnect);
    assert_eq!(out.turns[3].verdict, Verdict::Probe);
    assert_eq!(out.events.len(), 2);
    assert!(matches!(out.events[0], Event::ClientDisconnected { entity: 1 }));
    assert!(matches!(out.events[1], Event::ClientDisconnected { entity: 3 }));
    assert_eq!(
        server.clients,
        vec![
            Client { entity: 2, session: Session { state: ClientState::Registered, last_ping: 15_000_000 } },
            Client { entity: 4, session: Session { state: ClientState::Connected, last_ping: 0 } },
        ]
    );
    let later = server.handle_new_messages(20_000_001, &vec![quiet(), quiet()]);
    assert_eq!(later.turns[0].verdict, Verdict::Keep);
    assert_eq!(later.turns[1].verdict, Verdict::Disconnect);
    assert_eq!(server.clients.len(), 1);
    assert_eq!(server.clients[0].entity, 2);
}

#[test]
fn the_server_sends_one_job_per_chunk() {
    let mut server: Server<u8> = Server::new(80);
    let key = ChunkKey { x: 1, y: -1 };
    assert!(server.generate_chunk(key));
    assert!(!server.generate_chunk(key));
    assert!(server.streaming.is_pending(key));
    server.streaming.complete(key, 3);
    assert_eq!(server.streaming.get(key), Some(&3));
}

#[test]
fn a_connection_without_an_inbox_has_sent_nothing() {
    let mut server: Server<u8> = Server::new(80);
    server.handle_new_connections(0, &vec![1, 2]);
    let inboxes =
        vec![Inbox { msgs: vec![ClientMsg::Register], channel_error: false, attacking: false }];
    let out = server.handle_new_messages(10_000_001, &inboxes);
    assert_eq!(out.turns.len(), 2);
    assert_eq!(out.turns[0].outcomes.len(), 1);
    assert_eq!(out.turns[1].outcomes.len(), 0);
    assert_eq!(out.turns[1].verdict, Verdict::Probe);
    assert_eq!(server.clients[1].session, Session { state: ClientState::Connected, last_ping: 0 });
    let spare = vec![
        Inbox { msgs: Vec::new(), channel_error: false, attacking: false },
        Inbox { msgs: Vec::new(), channel_error: false, attacking: false },
        Inbox { msgs: vec![ClientMsg::Disconnect], channel_error: true, attacking: false },
    ];
    let later = server.handle_new_messages(10_000_002, &spare);
    assert_eq!(later.turns.len(), 2);
    assert_eq!(later.events.len(), 0);
    assert_eq!(server.clients.len(), 2);
}
