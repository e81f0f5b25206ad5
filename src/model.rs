use vstd::prelude::*;

verus! {

/// One of the four cardinal directions of the grid.
#[derive(Debug, Clone, Copy, PartialEq, Eq, Structural)]
pub enum Dir {
    Up,
    Down,
    Left,
    Right,
}

/// A grid cell `(x, y)`; `y` grows downwards.
#[derive(Debug, Clone, Copy, PartialEq, Eq, Hash, Structural)]
pub struct Cell(pub i32, pub i32);

/// Horizontal component of the unit vector of `d`.
pub open spec fn dx(d: Dir) -> int {
    match d {
        Dir::Left => -1,
        Dir::Right => 1,
        _ => 0,
    }
}

/// Vertical component of the unit vector of `d`.
pub open spec fn dy(d: Dir) -> int {
    match d {
        Dir::Up => -1,
        Dir::Down => 1,
        _ => 0,
    }
}

/// Two directions are opposite when their unit vectors sum to zero.
pub open spec fn opposite(a: Dir, b: Dir) -> bool {
    dx(a) + dx(b) == 0 && dy(a) + dy(b) == 0
}

impl Dir {
    /// Whether `self` and `other` point in opposite directions.
    pub fn is_opposite(self, other: Dir) -> (r: bool)
        ensures
            r == opposite(self, other),
    {
        match (self, other) {
            (Dir::Up, Dir::Down) | (Dir::Down, Dir::Up) | (Dir::Left, Dir::Right) | (
                Dir::Right,
                Dir::Left,
            ) => true,
            _ => false,
        }
    }
}

/// Whether `c` lies in the `w` x `h` grid.
pub open spec fn in_grid(c: Cell, w: int, h: int) -> bool {
    0 <= c.0 < w && 0 <= c.1 < h
}

/// The tick counter a state message carries; `-1` for other messages.
pub open spec fn seq_of(s: S2C) -> int {
    match s {
        S2C::State { seq, .. } => seq as int,
        _ => -1,
    }
}

/// What a snapshot tells of one player.
#[derive(Debug, Clone, PartialEq, Eq)]
pub struct PlayerSnapshot {
    pub id: String,
    pub name: String,
    pub alive: bool,
    pub score: u32,
    pub lives: u32,
    pub body: Vec<Cell>,
}

/// A message from a client to the server.
#[derive(Debug, Clone, PartialEq, Eq)]
pub enum C2S {
    Join { room: String, name: String },
    Input { dir: Dir },
    Ping { t: u64 },
    Respawn,
    Start,
    Restart,
}

/// A message from the server to a client.
#[derive(Debug, PartialEq, Eq)]
pub enum S2C {
    Hello { player_id: String, grid: (i32, i32), tick_hz: u32 },
    State { seq: u64, started: bool, food: Cell, players: Vec<PlayerSnapshot> },
    Pong { t: u64 },
}

impl Clone for S2C {
    fn clone(&self) -> Self {
        match self {
            S2C::Hello { player_id, grid, tick_hz } => S2C::Hello {
                player_id: player_id.clone(),
                grid: (grid.0, grid.1),
                tick_hz: *tick_hz,
            },
            S2C::State { seq, started, food, players } => S2C::State {
                seq: *seq,
                started: *started,
                food: *food,
                players: players.clone(),
            },
            S2C::Pong { t } => S2C::Pong { t: *t },
        }
    }
}

} // verus!
