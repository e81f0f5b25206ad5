use snake_server::milestones::{milestone, milestone_for_score, MILESTONE_COUNT};
use snake_server::session::{name_or_default, room_or_default};
use snake_server::{Cell, Dir, Room, C2S, S2C};
use tokio::sync::mpsc::unbounded_channel;

#[test]
fn ping_echo() {
    let mut room = Room::new("r".to_string(), 22, 22, 10, 0);
    let reply = room.handle_message("someone", C2S::Ping { t: 12345 });
    assert_eq!(reply, Some(S2C::Pong { t: 12345 }));
}

#[test]
fn join_greets_and_snapshots() {
    let mut room = Room::new("r".to_string(), 22, 22, 10, 0);
    let (tx, _rx) = unbounded_channel::<S2C>();
    let (id, hello, snap) = room.join("ann".to_string(), tx).expect("a free id");
    assert!(!id.is_empty());
    assert_eq!(
        hello,
        S2C::Hello { player_id: id.clone(), grid: (22, 22), tick_hz: 10 }
    );
    match snap {
        S2C::State { players, .. } => {
            assert_eq!(players.len(), 1);
            assert_eq!(players[0].id, id);
            assert_eq!(players[0].name, "ann");
        }
        _ => panic!("snapshot is a state message"),
    }
    let (tx2, _rx2) = unbounded_channel::<S2C>();
    let (id2, _, _) = room.join("bob".to_string(), tx2).expect("a free id");
    assert_ne!(id, id2);
    assert_eq!(room.players.len(), 2);
}

#[test]
fn start_message_sets_flag_and_replies() {
    let mut room = Room::new("r".to_string(), 22, 22, 10, 0);
    let (tx, _rx) = unbounded_channel::<S2C>();
    let (id, _, _) = room.join("ann".to_string(), tx).expect("a free id");
    match room.handle_message(&id, C2S::Start) {
        Some(S2C::State { started, .. }) => assert!(started),
        other => panic!("expected a snapshot, got {other:?}"),
    }
    assert!(room.started);
}

#[test]
fn input_and_join_messages() {
    let mut room = Room::new("r".to_string(), 22, 22, 10, 0);
    let (tx, _rx) = unbounded_channel::<S2C>();
    let (id, _, _) = room.join("ann".to_string(), tx).expect("a free id");
    assert_eq!(room.handle_message(&id, C2S::Input { dir: Dir::Up }), None);
    assert_eq!(room.players[0].pending.len(), 1);
    let join = C2S::Join { room: "other".to_string(), name: "x".to_string() };
    assert_eq!(room.handle_message(&id, join), None);
    assert_eq!(room.players.len(), 1);
}

#[test]
fn restart_and_respawn_messages() {
    let mut room = Room::new("r".to_string(), 22, 22, 10, 0);
    let (tx, _rx) = unbounded_channel::<S2C>();
    let (id, _, _) = room.join("ann".to_string(), tx).expect("a free id");
    room.players[0].lives = 0;
    room.players[0].alive = false;
    room.players[0].snake = vec![Cell(1, 1), Cell(1, 2), Cell(1, 3)];
    match room.handle_message(&id, C2S::Respawn) {
        Some(S2C::State { players, .. }) => assert!(!players[0].alive),
        other => panic!("expected a snapshot, got {other:?}"),
    }
    match room.handle_message(&id, C2S::Restart) {
        Some(S2C::State { players, .. }) => {
            assert!(players[0].alive);
            assert_eq!(players[0].lives, 3);
            assert_eq!(players[0].body, vec![Cell(11, 11), Cell(10, 11), Cell(9, 11)]);
        }
        other => panic!("expected a snapshot, got {other:?}"),
    }
}

#[test]
fn connection_defaults() {
    assert_eq!(room_or_default(None), "lobby");
    assert_eq!(room_or_default(Some("den".to_string())), "den");
    assert_eq!(name_or_default(None), "Anon");
    assert_eq!(name_or_default(Some("Zed".to_string())), "Zed");
}

#[test]
fn opposite_directions() {
    assert!(Dir::Up.is_opposite(Dir::Down));
    assert!(Dir::Right.is_opposite(Dir::Left));
    assert!(!Dir::Up.is_opposite(Dir::Left));
    assert!(!Dir::Up.is_opposite(Dir::Up));
}

#[test]
fn milestones_by_score() {
    assert_eq!(milestone_for_score(0), None);
    assert_eq!(milestone_for_score(4), None);
    assert_eq!(milestone_for_score(5), Some((0, "Snack Streak")));
    assert_eq!(milestone_for_score(14), Some((1, "Garden Glutton")));
    assert_eq!(milestone_for_score(30), Some((4, "Coil Commander")));
    assert_eq!(milestone_for_score(99), Some((7, "Mythscale")));
    assert_eq!(milestone_for_score(100), Some((8, "Ouro Ascends")));
    assert_eq!(milestone_for_score(u32::MAX), Some((8, "Ouro Ascends")));
    assert_eq!(MILESTONE_COUNT, 9);
    assert_eq!(milestone(5).score, 40);
    assert_eq!(milestone(5).label, "Shedmaster");
}

#[test]
fn join_as_refuses_a_taken_id() {
    let mut room = Room::new("r".to_string(), 22, 22, 10, 0);
    let (tx, _rx) = unbounded_channel::<S2C>();
    let (greeting, snap) = room
        .join_as("p1".to_string(), "ann".to_string(), tx)
        .expect("a free id joins");
    assert_eq!(greeting, S2C::Hello { player_id: "p1".to_string(), grid: (22, 22), tick_hz: 10 });
    match snap {
        S2C::State { players, .. } => {
            assert_eq!(players.len(), 1);
            assert_eq!(players[0].id, "p1");
        }
        _ => panic!("snapshot is a state message"),
    }
    room.players[0].score = 5;
    let (tx2, _rx2) = unbounded_channel::<S2C>();
    assert_eq!(room.join_as("p1".to_string(), "bob".to_string(), tx2), None);
    assert_eq!(room.players.len(), 1);
    assert_eq!(room.players[0].name, "ann");
    assert_eq!(room.players[0].score, 5);
}
