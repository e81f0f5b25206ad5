use snake_server::{Cell, Dir, Room, S2C};
use tokio::sync::mpsc::{unbounded_channel, UnboundedReceiver};

fn room_with(ids: &[&str]) -> (Room, Vec<UnboundedReceiver<S2C>>) {
    let mut room = Room::new("test".to_string(), 22, 22, 10, 0);
    let mut receivers = Vec::new();
    for id in ids {
        let (tx, rx) = unbounded_channel::<S2C>();
        room.add_player(id.to_string(), format!("name-{id}"), tx);
        receivers.push(rx);
    }
    (room, receivers)
}

fn spawn() -> Vec<Cell> {
    vec![Cell(11, 11), Cell(10, 11), Cell(9, 11)]
}

#[test]
fn solo_eat() {
    let (mut room, _rx) = room_with(&["a"]);
    room.food = Cell(12, 11);
    room.step(100);
    let p = &room.players[0];
    assert_eq!(p.snake[0], Cell(12, 11));
    assert_eq!(p.score, 1);
    assert_eq!(p.snake.len(), 4);
    assert!(p.alive);
    // the food is drawn again: the old cell is now under the head
    assert_ne!(room.food, Cell(12, 11));
    assert!(room.food.0 >= 0 && room.food.0 < 22 && room.food.1 >= 0 && room.food.1 < 22);
}

#[test]
fn move_without_eating_keeps_length() {
    let (mut room, _rx) = room_with(&["a"]);
    room.food = Cell(0, 0);
    room.queue_input("a", Dir::Up);
    room.step(100);
    let p = &room.players[0];
    assert_eq!(p.snake, vec![Cell(11, 10), Cell(11, 11), Cell(10, 11)]);
    assert_eq!(p.dir, Dir::Up);
    assert_eq!(p.score, 0);
}

#[test]
fn wall_death() {
    let (mut room, _rx) = room_with(&["a"]);
    room.food = Cell(0, 0);
    room.players[0].snake = vec![Cell(11, 11), Cell(12, 11), Cell(13, 11)];
    room.players[0].dir = Dir::Left;
    for _ in 0..3 {
        room.queue_input("a", Dir::Left);
    }
    assert_eq!(room.players[0].pending.len(), 3);
    for t in 1..=11u64 {
        room.step(100 * t);
    }
    assert_eq!(room.players[0].snake[0], Cell(0, 11));
    assert!(room.players[0].alive);
    assert_eq!(room.players[0].lives, 3);
    room.step(1200);
    let p = &room.players[0];
    assert_eq!(p.lives, 2);
    // the only player with lives is down: auto-respawn in the same tick
    assert!(p.alive);
    assert_eq!(p.snake, spawn());
    assert_eq!(p.dir, Dir::Right);
    assert_eq!(room.seq, 12);
}

#[test]
fn self_collision() {
    let (mut room, _rx) = room_with(&["a"]);
    room.food = Cell(12, 11);
    room.step(100);
    assert_eq!(room.players[0].snake.len(), 4);
    room.food = Cell(0, 0);
    room.queue_input("a", Dir::Down);
    room.queue_input("a", Dir::Right);
    room.queue_input("a", Dir::Up);
    // opposite to the current direction (Right): dropped
    room.queue_input("a", Dir::Left);
    assert_eq!(room.players[0].pending.len(), 3);
    room.step(200);
    room.step(300);
    room.step(400);
    assert_eq!(
        room.players[0].snake,
        vec![Cell(13, 11), Cell(13, 12), Cell(12, 12), Cell(12, 11)]
    );
    assert!(room.players[0].alive);
    room.queue_input("a", Dir::Left);
    room.step(500);
    let p = &room.players[0];
    assert_eq!(p.lives, 2);
    assert_eq!(p.score, 1);
    assert!(p.alive);
    assert_eq!(p.snake, spawn());
}

#[test]
fn head_to_head() {
    let (mut room, _rx) = room_with(&["a", "b", "c"]);
    room.food = Cell(0, 0);
    room.players[0].snake = vec![Cell(9, 10), Cell(8, 10), Cell(7, 10)];
    room.players[0].dir = Dir::Right;
    room.players[1].snake = vec![Cell(11, 10), Cell(12, 10), Cell(13, 10)];
    room.players[1].dir = Dir::Left;
    room.players[2].snake = vec![Cell(5, 18), Cell(4, 18), Cell(3, 18)];
    room.step(100);
    assert!(!room.players[0].alive);
    assert!(!room.players[1].alive);
    assert_eq!(room.players[0].lives, 2);
    assert_eq!(room.players[1].lives, 2);
    // a player that died does not move
    assert_eq!(room.players[0].snake, vec![Cell(9, 10), Cell(8, 10), Cell(7, 10)]);
    assert!(room.players[2].alive);
    assert_eq!(room.players[2].snake[0], Cell(6, 18));
}

#[test]
fn head_to_head_alone_respawns_both() {
    let (mut room, _rx) = room_with(&["a", "b"]);
    room.food = Cell(0, 0);
    room.players[0].snake = vec![Cell(9, 10), Cell(8, 10), Cell(7, 10)];
    room.players[1].snake = vec![Cell(11, 10), Cell(12, 10), Cell(13, 10)];
    room.players[1].dir = Dir::Left;
    room.step(100);
    for p in &room.players {
        assert_eq!(p.lives, 2);
        assert!(p.alive);
        assert_eq!(p.snake, spawn());
    }
}

fn die_at_wall(room: &mut Room, now: u64) {
    room.players[0].snake = vec![Cell(0, 5), Cell(1, 5), Cell(2, 5)];
    room.players[0].dir = Dir::Left;
    room.step(now);
}

#[test]
fn restart_after_game_over() {
    let (mut room, _rx) = room_with(&["a"]);
    room.food = Cell(21, 21);
    die_at_wall(&mut room, 100);
    assert_eq!(room.players[0].lives, 2);
    assert!(room.players[0].alive);
    die_at_wall(&mut room, 200);
    assert_eq!(room.players[0].lives, 1);
    die_at_wall(&mut room, 300);
    assert_eq!(room.players[0].lives, 0);
    assert!(!room.players[0].alive);
    let body = room.players[0].snake.clone();
    room.respawn_player("a");
    assert_eq!(room.players[0].lives, 0);
    assert!(!room.players[0].alive);
    assert_eq!(room.players[0].snake, body);
    room.restart_player("a");
    assert_eq!(room.players[0].lives, 3);
    assert!(room.players[0].alive);
    assert_eq!(room.players[0].snake, spawn());
    room.step(400);
    assert!(room.players[0].alive);
    assert_eq!(room.players[0].snake[0], Cell(12, 11));
}

#[test]
fn dead_player_without_lives_stays_down() {
    let (mut room, _rx) = room_with(&["a", "b"]);
    room.food = Cell(21, 21);
    room.players[0].lives = 0;
    room.players[0].alive = false;
    room.players[1].snake = vec![Cell(0, 5), Cell(1, 5), Cell(2, 5)];
    room.players[1].dir = Dir::Left;
    room.step(100);
    assert!(!room.players[0].alive);
    assert_eq!(room.players[1].lives, 2);
    assert!(room.players[1].alive);
    assert_eq!(room.players[1].snake, spawn());
}

#[test]
fn tick_broadcasts_snapshot_with_rising_seq() {
    let (mut room, mut rx) = room_with(&["a", "b"]);
    room.food = Cell(0, 0);
    room.step(100);
    room.step(200);
    for r in rx.iter_mut() {
        let mut seqs = Vec::new();
        while let Ok(msg) = r.try_recv() {
            match msg {
                S2C::State { seq, players, .. } => {
                    assert_eq!(players.len(), 2);
                    seqs.push(seq);
                }
                other => panic!("unexpected message {other:?}"),
            }
        }
        assert_eq!(seqs, vec![1, 2]);
    }
}

#[test]
fn snapshot_cells_stay_in_grid() {
    let (mut room, _rx) = room_with(&["a", "b"]);
    room.mark_started();
    for t in 1..=40u64 {
        room.step(100 * t);
        match room.snapshot() {
            S2C::State { players, food, .. } => {
                assert!(food.0 >= 0 && food.0 < 22 && food.1 >= 0 && food.1 < 22);
                for p in players.iter().filter(|p| p.alive) {
                    for c in &p.body {
                        assert!(c.0 >= 0 && c.0 < 22 && c.1 >= 0 && c.1 < 22);
                    }
                }
            }
            _ => panic!("snapshot is a state message"),
        }
    }
}

#[test]
fn lives_never_rise_and_score_never_falls_on_ticks() {
    let (mut room, _rx) = room_with(&["a"]);
    room.food = Cell(12, 11);
    let mut lives = room.players[0].lives;
    let mut score = room.players[0].score;
    for t in 1..=30u64 {
        room.step(100 * t);
        assert!(room.players[0].lives <= lives);
        assert!(room.players[0].score >= score);
        lives = room.players[0].lives;
        score = room.players[0].score;
    }
    assert!(score >= 1);
}

#[test]
fn reversal_is_never_committed() {
    let (mut room, _rx) = room_with(&["a"]);
    room.food = Cell(0, 0);
    room.queue_input("a", Dir::Left);
    assert_eq!(room.players[0].pending.len(), 0);
    room.step(100);
    assert_eq!(room.players[0].dir, Dir::Right);
    assert_eq!(room.players[0].snake[0], Cell(12, 11));
}

#[test]
fn queued_inputs_apply_one_per_tick() {
    let (mut room, _rx) = room_with(&["a"]);
    room.food = Cell(0, 0);
    room.queue_input("a", Dir::Up);
    room.queue_input("a", Dir::Right);
    room.step(100);
    assert_eq!(room.players[0].dir, Dir::Up);
    assert_eq!(room.players[0].pending.len(), 1);
    room.step(200);
    assert_eq!(room.players[0].dir, Dir::Right);
    assert_eq!(room.players[0].snake[0], Cell(12, 10));
}

#[test]
fn mark_started_is_idempotent() {
    let (mut room, _rx) = room_with(&["a"]);
    assert!(!room.started);
    room.mark_started();
    let once = (room.started, room.seq, room.food, room.players[0].snake.clone());
    room.mark_started();
    let twice = (room.started, room.seq, room.food, room.players[0].snake.clone());
    assert!(once.0);
    assert_eq!(once, twice);
}

#[test]
fn respawn_with_lives_resets_position_keeps_score() {
    let (mut room, _rx) = room_with(&["a"]);
    room.players[0].snake = vec![Cell(3, 3), Cell(3, 4), Cell(3, 5), Cell(3, 6)];
    room.players[0].dir = Dir::Up;
    room.players[0].score = 7;
    room.players[0].alive = false;
    room.players[0].lives = 2;
    room.queue_input("a", Dir::Left);
    room.respawn_player("a");
    let p = &room.players[0];
    assert!(p.alive);
    assert_eq!(p.snake, spawn());
    assert_eq!(p.dir, Dir::Right);
    assert_eq!(p.score, 7);
    assert_eq!(p.lives, 2);
    assert!(p.pending.is_empty());
}

#[test]
fn tick_due_follows_start_and_period() {
    let mut room = Room::new("r".to_string(), 22, 22, 10, 1000);
    assert_eq!(room.tick_ms, 100);
    assert!(!room.tick_due(5000));
    room.mark_started();
    assert!(!room.tick_due(1099));
    assert!(room.tick_due(1100));
    assert!(!room.tick_due(500));
    assert!(room.tick_if_due(1100));
    assert_eq!(room.seq, 1);
    assert_eq!(room.last_tick_ms, 1100);
    assert!(!room.tick_if_due(1150));
    assert_eq!(room.seq, 1);
}

#[test]
fn zero_rate_counts_as_one() {
    let room = Room::new("r".to_string(), 22, 22, 0, 0);
    assert_eq!(room.tick_ms, 1000);
    assert!(!room.started);
    assert_eq!(room.seq, 0);
}

#[test]
fn tick_if_due_refuses_full_counter() {
    let mut room = Room::new("r".to_string(), 22, 22, 10, 0);
    room.mark_started();
    room.seq = u64::MAX;
    assert!(!room.tick_if_due(1000));
    assert_eq!(room.seq, u64::MAX);
}

#[test]
fn add_player_spawns_and_replaces() {
    let (mut room, _rx) = room_with(&["a", "b"]);
    assert_eq!(room.players.len(), 2);
    let p = &room.players[1];
    assert_eq!(p.id, "b");
    assert_eq!(p.name, "name-b");
    assert_eq!(p.snake, spawn());
    assert_eq!((p.dir, p.alive, p.score, p.lives), (Dir::Right, true, 0, 3));
    room.players[0].score = 4;
    let (tx, _rx2) = unbounded_channel::<S2C>();
    room.add_player("a".to_string(), "again".to_string(), tx);
    assert_eq!(room.players.len(), 2);
    assert_eq!(room.players[0].name, "again");
    assert_eq!(room.players[0].score, 0);
}

#[test]
fn remove_player_keeps_others() {
    let (mut room, _rx) = room_with(&["a", "b", "c"]);
    room.remove_player("b");
    let ids: Vec<&str> = room.players.iter().map(|p| p.id.as_str()).collect();
    assert_eq!(ids, vec!["a", "c"]);
    room.remove_player("zzz");
    assert_eq!(room.players.len(), 2);
}

#[test]
fn inputs_for_unknown_players_change_nothing() {
    let (mut room, _rx) = room_with(&["a"]);
    room.queue_input("nobody", Dir::Up);
    room.respawn_player("nobody");
    room.restart_player("nobody");
    assert!(room.players[0].pending.is_empty());
    assert_eq!(room.players[0].lives, 3);
}

#[test]
fn snapshot_lists_every_player() {
    let (mut room, _rx) = room_with(&["a", "b"]);
    room.players[1].alive = false;
    room.players[1].score = 9;
    match room.snapshot() {
        S2C::State { seq, started, food, players } => {
            assert_eq!(seq, 0);
            assert!(!started);
            assert_eq!(food, room.food);
            assert_eq!(players.len(), 2);
            assert_eq!(players[1].id, "b");
            assert_eq!(players[1].name, "name-b");
            assert!(!players[1].alive);
            assert_eq!(players[1].score, 9);
            assert_eq!(players[1].lives, 3);
            assert_eq!(players[0].body, spawn());
        }
        _ => panic!("snapshot is a state message"),
    }
}

#[test]
fn first_free_takes_first_uncovered_draw() {
    let (room, _rx) = room_with(&["a"]);
    // the snake covers (11,11), (10,11), (9,11)
    let draws = vec![Cell(10, 11), Cell(11, 11), Cell(3, 4), Cell(5, 5)];
    assert_eq!(room.first_free(&draws), Cell(3, 4));
    let all_taken = vec![Cell(9, 11), Cell(11, 11)];
    assert_eq!(room.first_free(&all_taken), Cell(0, 0));
    assert_eq!(room.first_free(&Vec::new()), Cell(0, 0));
}

#[test]
fn first_free_ignores_dead_snakes() {
    let (mut room, _rx) = room_with(&["a"]);
    room.players[0].alive = false;
    assert_eq!(room.first_free(&vec![Cell(11, 11), Cell(1, 1)]), Cell(11, 11));
}

#[test]
fn narrow_room_can_be_created() {
    let room = Room::new("thin".to_string(), 1, 1, 10, 0);
    assert_eq!((room.grid_w, room.grid_h), (1, 1));
    assert_eq!(room.food, Cell(0, 0));
    assert!(room.players.is_empty());
    let room = Room::new("small".to_string(), 3, 2, 10, 0);
    assert!(room.food.0 >= 0 && room.food.0 < 3 && room.food.1 >= 0 && room.food.1 < 2);
}

#[test]
fn no_score_without_food() {
    let (mut room, _rx) = room_with(&["a"]);
    room.food = Cell(0, 0);
    for t in 1..=5u64 {
        room.step(100 * t);
    }
    assert_eq!(room.players[0].score, 0);
    assert_eq!(room.players[0].snake.len(), 3);
    assert_eq!(room.players[0].snake[0], Cell(16, 11));
    assert_eq!(room.food, Cell(0, 0));
}
