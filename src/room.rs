use crate::model::{in_grid, opposite, seq_of, Cell, Dir, PlayerSnapshot, S2C};
use crate::tick::{is_food_trail, is_stepped};
use rand::rngs::ThreadRng;
use rand::Rng;
use std::collections::VecDeque;
use tokio::sync::mpsc::UnboundedSender;
use vstd::prelude::*;

verus! {

/// Lives a player starts with, and gets back on a restart.
pub const START_LIVES: u32 = 3;

/// Attempts made to find a free cell for the food before falling back to `(0, 0)`.
pub const FOOD_ATTEMPTS: u32 = 1000;

/// tokio's `mpsc::UnboundedSender`, carried as an opaque value.
#[verifier::external_type_specification]
#[verifier::external_body]
#[verifier::reject_recursive_types(T)]
pub struct ExUnboundedSender<T>(UnboundedSender<T>);

/// Relies on tokio's `UnboundedSender::send`: queues the message for the
/// receiving end without waiting. A closed receiver makes it fail, which is ignored.
#[verifier::external_body]
pub(crate) fn push_message(tx: &UnboundedSender<S2C>, msg: S2C) {
    let _ = tx.send(msg);
}

/// rand's `ThreadRng`, carried as an opaque value.
#[verifier::external_type_specification]
#[verifier::external_body]
pub struct ExThreadRng(ThreadRng);

/// Relies on rand's `thread_rng`: a handle on this thread's generator. Nothing
/// is promised of it.
pub assume_specification[ rand::thread_rng ]() -> ThreadRng;

/// Relies on rand's `Rng::gen_range`: a value drawn from `0..hi` (the call
/// panics on an empty range, hence the precondition).
#[verifier::external_body]
fn draw_below(rng: &mut ThreadRng, hi: i32) -> (r: i32)
    requires
        0 < hi,
    ensures
        0 <= r < hi,
{
    rng.gen_range(0..hi)
}

/// One connected player, owned by its room.
pub struct Player {
    pub id: String,
    pub name: String,
    /// Cells of the snake, head first.
    pub snake: Vec<Cell>,
    pub dir: Dir,
    pub alive: bool,
    pub score: u32,
    pub lives: u32,
    /// Direction inputs not yet applied, oldest first.
    pub pending: VecDeque<Dir>,
    /// Outbound messages to this player.
    pub tx: UnboundedSender<S2C>,
}

/// One game room: its players, the food and the tick clock.
pub struct Room {
    pub name: String,
    pub grid_w: i32,
    pub grid_h: i32,
    /// Players in order of arrival; ids are unique.
    pub players: Vec<Player>,
    pub food: Cell,
    pub seq: u64,
    pub started: bool,
    pub tick_hz: u32,
    /// Time of the last tick, in milliseconds of a monotonic clock.
    pub last_tick_ms: u64,
    /// Time between two ticks, in milliseconds.
    pub tick_ms: u64,
    /// Every message the room has pushed to a player's outbound sink, with
    /// that sink, in the order pushed. A record for proofs; nothing is stored.
    pub outbox: Ghost<Seq<(UnboundedSender<S2C>, S2C)>>,
}

/// The three cells a snake (re)spawns on: the centre and the two cells to its left.
pub open spec fn spawn_body(w: int, h: int) -> Seq<Cell> {
    seq![
        Cell((w / 2) as i32, (h / 2) as i32),
        Cell((w / 2 - 1) as i32, (h / 2) as i32),
        Cell((w / 2 - 2) as i32, (h / 2) as i32),
    ]
}

/// Every cell of `p`'s snake lies in the grid, and there is a head.
pub open spec fn player_wf(p: Player, w: int, h: int) -> bool {
    &&& p.snake@.len() > 0
    &&& forall|k: int| 0 <= k < p.snake@.len() ==> in_grid(#[trigger] p.snake@[k], w, h)
}

/// Some player of `ps` has the id `id`.
pub open spec fn has_id(ps: Seq<Player>, id: Seq<char>) -> bool {
    exists|i: int| 0 <= i < ps.len() && (#[trigger] ps[i]).id@ == id
}

/// The position in `ps` of the player with id `id`, where there is one.
pub open spec fn slot_of(ps: Seq<Player>, id: Seq<char>) -> int {
    choose|i: int| 0 <= i < ps.len() && (#[trigger] ps[i]).id@ == id
}

/// `n` is a player just spawned with the given id and name.
pub open spec fn is_fresh(n: Player, id: Seq<char>, name: Seq<char>, w: int, h: int) -> bool {
    &&& n.id@ == id
    &&& n.name@ == name
    &&& n.snake@ == spawn_body(w, h)
    &&& n.dir == Dir::Right
    &&& n.alive
    &&& n.score == 0
    &&& n.lives == START_LIVES
    &&& n.pending@.len() == 0
}

/// `n` is `o` put back on the spawn cells, alive, with `lives` lives;
/// score, identity and outbound sink are kept.
pub open spec fn is_respawned(n: Player, o: Player, lives: u32, w: int, h: int) -> bool {
    &&& n.id == o.id
    &&& n.name == o.name
    &&& n.tx == o.tx
    &&& n.score == o.score
    &&& n.lives == lives
    &&& n.snake@ == spawn_body(w, h)
    &&& n.dir == Dir::Right
    &&& n.alive
    &&& n.pending@.len() == 0
}

/// What a snapshot tells of player `p`.
pub open spec fn shows_player(s: PlayerSnapshot, p: Player) -> bool {
    &&& s.id@ == p.id@
    &&& s.name@ == p.name@
    &&& s.alive == p.alive
    &&& s.score == p.score
    &&& s.lives == p.lives
    &&& s.body@ == p.snake@
}

impl Room {
    /// The room's invariant: a non-empty grid, wide enough for the spawn cells
    /// once there are players; the food and every snake inside it; unique
    /// player ids; and every message pushed so far a snapshot no newer than
    /// the current tick.
    pub open spec fn wf(&self) -> bool {
        &&& 1 <= self.grid_w
        &&& 1 <= self.grid_h
        &&& self.players@.len() > 0 ==> 4 <= self.grid_w
        &&& forall|k: int|
            0 <= k < self.outbox@.len() ==> 0 <= seq_of(#[trigger] self.outbox@[k].1) <= self.seq
        &&& in_grid(self.food, self.grid_w as int, self.grid_h as int)
        &&& forall|i: int|
            0 <= i < self.players@.len() ==> player_wf(
                #[trigger] self.players@[i],
                self.grid_w as int,
                self.grid_h as int,
            )
        &&& forall|i: int, j: int|
            0 <= i < self.players@.len() && 0 <= j < self.players@.len() && i != j
                ==> (#[trigger] self.players@[i]).id@ != (#[trigger] self.players@[j]).id@
    }

    /// Everything but the players is the same in `self` and `o`.
    pub open spec fn same_but_players(&self, o: Room) -> bool {
        &&& self.name == o.name
        &&& self.grid_w == o.grid_w
        &&& self.grid_h == o.grid_h
        &&& self.food == o.food
        &&& self.seq == o.seq
        &&& self.started == o.started
        &&& self.tick_hz == o.tick_hz
        &&& self.last_tick_ms == o.last_tick_ms
        &&& self.tick_ms == o.tick_ms
        &&& self.outbox == o.outbox
    }

    /// `self` is `o` after a player with id `id`, name `name` and sink `tx`
    /// joined: a player already holding `id` is replaced in its place, else
    /// the new player comes last.
    pub open spec fn is_add_of(&self, o: Room, id: Seq<char>, name: Seq<char>, tx: UnboundedSender<S2C>) -> bool {
        let ps = o.players@;
        let w = o.grid_w as int;
        let h = o.grid_h as int;
        &&& self.same_but_players(o)
        &&& has_id(ps, id) ==> {
            let i = slot_of(ps, id);
            &&& self.players@.len() == ps.len()
            &&& is_fresh(self.players@[i], id, name, w, h)
            &&& self.players@[i].tx == tx
            &&& forall|j: int| 0 <= j < ps.len() && j != i ==> self.players@[j] == ps[j]
        }
        &&& !has_id(ps, id) ==> {
            &&& self.players@.len() == ps.len() + 1
            &&& is_fresh(self.players@[ps.len() as int], id, name, w, h)
            &&& self.players@[ps.len() as int].tx == tx
            &&& forall|j: int| 0 <= j < ps.len() ==> self.players@[j] == ps[j]
        }
    }

    /// A tick is due at time `now_ms`.
    pub open spec fn tick_due_at(&self, now_ms: u64) -> bool {
        self.started && elapsed(now_ms, self.last_tick_ms) >= self.tick_ms
    }

    /// `self` is `o` after one tick at time `now_ms`: same grid, flag and
    /// rate, the counter one higher, and every player stepped, the food at
    /// each player's turn following a food trail from `o`'s food to `self`'s.
    /// Then one snapshot of `self` was pushed to each player's sink, in player
    /// order, after what `o` had pushed before.
    pub open spec fn is_step_of(&self, o: Room, now_ms: u64) -> bool {
        let w = o.grid_w as int;
        let h = o.grid_h as int;
        &&& self.name == o.name
        &&& self.grid_w == o.grid_w
        &&& self.grid_h == o.grid_h
        &&& self.started == o.started
        &&& self.tick_hz == o.tick_hz
        &&& self.tick_ms == o.tick_ms
        &&& self.seq == o.seq + 1
        &&& self.last_tick_ms == now_ms
        &&& self.players@.len() == o.players@.len()
        &&& exists|foods: Seq<Cell>|
            #[trigger] is_food_trail(o.players@, foods, o.food, w, h) && self.food
                == foods[o.players@.len() as int] && forall|i: int|
                0 <= i < o.players@.len() ==> is_stepped(
                    #[trigger] self.players@[i],
                    o.players@,
                    i,
                    foods[i],
                    w,
                    h,
                )
        &&& self.outbox@.subrange(0, o.outbox@.len() as int) == o.outbox@
        &&& self.pushed_snapshots(o.outbox@.len() as int)
    }

    /// From position `from` on, the outbox holds exactly one message per
    /// player, in player order: a snapshot of this room, pushed to that
    /// player's sink.
    pub open spec fn pushed_snapshots(&self, from: int) -> bool {
        &&& self.outbox@.len() == from + self.players@.len()
        &&& forall|i: int| 0 <= i < self.players@.len() ==> #[trigger] self.sent_to(from, i)
    }

    /// Message `from + i` of the outbox went to player `i`'s sink and is a
    /// snapshot of this room.
    pub open spec fn sent_to(&self, from: int, i: int) -> bool {
        &&& self.outbox@[from + i].0 == self.players@[i].tx
        &&& self.is_snapshot(self.outbox@[from + i].1)
    }

    /// `self` is `o` after the player with id `id` asked to queue `d`.
    pub open spec fn is_queue_input_of(&self, o: Room, id: Seq<char>, d: Dir) -> bool {
        let ps = o.players@;
        let i = slot_of(ps, id);
        if has_id(ps, id) && !opposite(ps[i].dir, d) {
            &&& self.same_but_players(o)
            &&& self.players@.len() == ps.len()
            &&& is_queued(self.players@[i], ps[i], d)
            &&& forall|j: int| 0 <= j < ps.len() && j != i ==> self.players@[j] == ps[j]
        } else {
            *self == o
        }
    }

    /// `self` is `o` after the player with id `id` asked to respawn.
    pub open spec fn is_respawn_of(&self, o: Room, id: Seq<char>) -> bool {
        let ps = o.players@;
        let i = slot_of(ps, id);
        if has_id(ps, id) && ps[i].lives > 0 {
            &&& self.same_but_players(o)
            &&& self.players@.len() == ps.len()
            &&& is_respawned(self.players@[i], ps[i], ps[i].lives, o.grid_w as int, o.grid_h as int)
            &&& forall|j: int| 0 <= j < ps.len() && j != i ==> self.players@[j] == ps[j]
        } else {
            *self == o
        }
    }

    /// `self` is `o` after the player with id `id` asked to restart.
    pub open spec fn is_restart_of(&self, o: Room, id: Seq<char>) -> bool {
        let ps = o.players@;
        let i = slot_of(ps, id);
        if has_id(ps, id) {
            &&& self.same_but_players(o)
            &&& self.players@.len() == ps.len()
            &&& is_respawned(self.players@[i], ps[i], START_LIVES, o.grid_w as int, o.grid_h as int)
            &&& forall|j: int| 0 <= j < ps.len() && j != i ==> self.players@[j] == ps[j]
        } else {
            *self == o
        }
    }

    /// `self` is `o` with the started flag set.
    pub open spec fn is_started_of(&self, o: Room) -> bool {
        *self == (Room { started: true, ..o })
    }

    /// `s` is a full snapshot of this room: its clock, flag, food and every player in order.
    pub open spec fn is_snapshot(&self, s: S2C) -> bool {
        match s {
            S2C::State { seq, started, food, players } => {
                &&& seq == self.seq
                &&& started == self.started
                &&& food == self.food
                &&& players@.len() == self.players@.len()
                &&& forall|i: int|
                    0 <= i < players@.len() ==> shows_player(
                        #[trigger] players@[i],
                        self.players@[i],
                    )
            },
            _ => false,
        }
    }

    /// A new room with no players, not started, at tick `0`; `now_ms` is the
    /// current time and `hz` the tick rate (`0` counts as `1`).
    pub fn new(name: String, grid_w: i32, grid_h: i32, hz: u32, now_ms: u64) -> (r: Room)
        requires
            1 <= grid_w,
            1 <= grid_h,
        ensures
            r.wf(),
            r.outbox@.len() == 0,
            r.name == name,
            r.grid_w == grid_w,
            r.grid_h == grid_h,
            r.players@.len() == 0,
            r.seq == 0,
            !r.started,
            r.tick_hz == hz,
            r.last_tick_ms == now_ms,
            r.tick_ms == 1000int / (if hz == 0 { 1int } else { hz as int }),
    {
        let rate: u32 = if hz == 0 { 1 } else { hz };
        let mut room = Room {
            name,
            grid_w,
            grid_h,
            players: Vec::new(),
            food: Cell(0, 0),
            seq: 0,
            started: false,
            tick_hz: hz,
            last_tick_ms: now_ms,
            tick_ms: (1000 / rate) as u64,
            outbox: Ghost(Seq::empty()),
        };
        room.food = room.random_empty();
        room
    }

    /// A cell of the grid drawn at random, not occupied by an alive snake;
    /// `(0, 0)` when none of `FOOD_ATTEMPTS` draws is free.
    pub(crate) fn random_empty(&self) -> (r: Cell)
        requires
            1 <= self.grid_w,
            1 <= self.grid_h,
        ensures
            in_grid(r, self.grid_w as int, self.grid_h as int),
            r == Cell(0, 0) || !occupied(self.players@, r.0 as int, r.1 as int),
    {
        let mut rng = rand::thread_rng();
        let mut draws: Vec<Cell> = Vec::new();
        while draws.len() < FOOD_ATTEMPTS as usize
            invariant
                1 <= self.grid_w,
                1 <= self.grid_h,
                draws@.len() <= FOOD_ATTEMPTS,
                forall|k: int|
                    0 <= k < draws@.len() ==> in_grid(
                        #[trigger] draws@[k],
                        self.grid_w as int,
                        self.grid_h as int,
                    ),
            decreases FOOD_ATTEMPTS - draws@.len(),
        {
            let c = Cell(draw_below(&mut rng, self.grid_w), draw_below(&mut rng, self.grid_h));
            draws.push(c);
        }
        proof {
            lemma_first_free(self.players@, draws@, 0, self.grid_w as int, self.grid_h as int);
        }
        self.first_free(&draws)
    }

    /// The first of `draws` that no alive snake covers, `(0, 0)` when there is none.
    pub fn first_free(&self, draws: &Vec<Cell>) -> (r: Cell)
        ensures
            r == first_free_of(self.players@, draws@, 0),
    {
        let mut k: usize = 0;
        while k < draws.len()
            invariant
                k <= draws@.len(),
                first_free_of(self.players@, draws@, 0) == first_free_of(self.players@, draws@, k as int),
            decreases draws@.len() - k,
        {
            if !self.is_occupied(draws[k]) {
                return draws[k];
            }
            k = k + 1;
        }
        Cell(0, 0)
    }

    /// Whether an alive snake covers `c`.
    pub(crate) fn is_occupied(&self, c: Cell) -> (r: bool)
        ensures
            r == occupied(self.players@, c.0 as int, c.1 as int),
    {
        let n = self.players.len();
        let mut i: usize = 0;
        while i < n
            invariant
                n == self.players@.len(),
                i <= n,
                forall|j: int, k: int|
                    0 <= j < i && 0 <= k < self.players@[j].snake@.len() && self.players@[j].alive
                        ==> !covers(#[trigger] self.players@[j].snake@[k], c.0 as int, c.1 as int),
            decreases n - i,
        {
            if self.players[i].alive {
                let m = self.players[i].snake.len();
                let mut k: usize = 0;
                while k < m
                    invariant
                        n == self.players@.len(),
                        i < n,
                        self.players@[i as int].alive,
                        m == self.players@[i as int].snake@.len(),
                        k <= m,
                        forall|q: int|
                            0 <= q < k ==> !covers(
                                #[trigger] self.players@[i as int].snake@[q],
                                c.0 as int,
                                c.1 as int,
                            ),
                    decreases m - k,
                {
                    if self.players[i].snake[k] == c {
                        assert(covers(self.players@[i as int].snake@[k as int], c.0 as int, c.1 as int));
                        return true;
                    }
                    k = k + 1;
                }
            }
            i = i + 1;
        }
        false
    }

    /// Position of the player with id `id`, if there is one.
    pub(crate) fn find(&self, id: &str) -> (r: Option<usize>)
        ensures
            match r {
                Some(i) => i < self.players@.len() && self.players@[i as int].id@ == id@,
                None => !has_id(self.players@, id@),
            },
    {
        let key = id.to_owned();
        let n = self.players.len();
        let mut i: usize = 0;
        while i < n
            invariant
                n == self.players@.len(),
                i <= n,
                key@ == id@,
                forall|j: int| 0 <= j < i ==> (#[trigger] self.players@[j]).id@ != id@,
            decreases n - i,
        {
            if self.players[i].id == key {
                return Some(i);
            }
            i = i + 1;
        }
        None
    }
}

impl Room {
    /// Adds a player on the spawn cells with id `id`, name `name` and outbound
    /// sink `tx`; the grid must be wide enough for the spawn cells. A player already holding `id` is replaced, in its place.
    pub fn add_player(&mut self, id: String, name: String, tx: UnboundedSender<S2C>)
        requires
            old(self).wf(),
            4 <= old(self).grid_w,
        ensures
            final(self).wf(),
            final(self).is_add_of(*old(self), id@, name@, tx),
    {
        let found = self.find(id.as_str());
        let player = Player {
            id,
            name,
            snake: spawn_snake(self.grid_w, self.grid_h),
            dir: Dir::Right,
            alive: true,
            score: 0,
            lives: START_LIVES,
            pending: VecDeque::new(),
            tx,
        };
        match found {
            Some(i) => {
                self.players.set(i, player);
            },
            None => {
                self.players.push(player);
            },
        }
    }

    /// Removes the player with id `id`; nothing happens when there is none.
    pub fn remove_player(&mut self, id: &str)
        requires
            old(self).wf(),
        ensures
            final(self).wf(),
            final(self).same_but_players(*old(self)),
            has_id(old(self).players@, id@) ==> final(self).players@ == old(self).players@.remove(
                slot_of(old(self).players@, id@),
            ),
            !has_id(old(self).players@, id@) ==> *final(self) == *old(self),
    {
        match self.find(id) {
            Some(i) => {
                self.players.remove(i);
            },
            None => {},
        }
    }

    /// Puts player `i` back on the spawn cells, alive, facing right, with an
    /// empty queue and `lives` lives.
    pub(crate) fn respawn_at(&mut self, i: usize, lives: u32)
        requires
            old(self).wf(),
            i < old(self).players@.len(),
        ensures
            final(self).wf(),
            final(self).same_but_players(*old(self)),
            final(self).players@.len() == old(self).players@.len(),
            is_respawned(
                final(self).players@[i as int],
                old(self).players@[i as int],
                lives,
                old(self).grid_w as int,
                old(self).grid_h as int,
            ),
            forall|j: int|
                0 <= j < old(self).players@.len() && j != i ==> final(self).players@[j]
                    == old(self).players@[j],
    {
        let body = spawn_snake(self.grid_w, self.grid_h);
        let p = &mut self.players[i];
        p.snake = body;
        p.dir = Dir::Right;
        p.alive = true;
        p.lives = lives;
        p.pending.clear();
    }

    /// Puts the player with id `id` back on the spawn cells if it has lives
    /// left; score and lives are kept. Nothing happens otherwise.
    pub fn respawn_player(&mut self, id: &str)
        requires
            old(self).wf(),
        ensures
            final(self).wf(),
            final(self).is_respawn_of(*old(self), id@),
    {
        match self.find(id) {
            Some(i) => {
                if self.players[i].lives > 0 {
                    let lives = self.players[i].lives;
                    self.respawn_at(i, lives);
                }
            },
            None => {},
        }
    }

    /// Gives the player with id `id` a full set of lives and puts it back on
    /// the spawn cells; its score is kept. Nothing happens when there is none.
    pub fn restart_player(&mut self, id: &str)
        requires
            old(self).wf(),
        ensures
            final(self).wf(),
            final(self).is_restart_of(*old(self), id@),
    {
        match self.find(id) {
            Some(i) => {
                self.respawn_at(i, START_LIVES);
            },
            None => {},
        }
    }

    /// Queues `d` for the player with id `id`, unless `d` is opposite to the
    /// player's current direction. Nothing happens when there is no such player.
    pub fn queue_input(&mut self, id: &str, d: Dir)
        requires
            old(self).wf(),
        ensures
            final(self).wf(),
            final(self).is_queue_input_of(*old(self), id@, d),
    {
        match self.find(id) {
            Some(i) => {
                if !self.players[i].dir.is_opposite(d) {
                    self.players[i].pending.push_back(d);
                }
            },
            None => {},
        }
    }

    /// Lets the tick loop run this room. Nothing else changes.
    pub fn mark_started(&mut self)
        ensures
            final(self).is_started_of(*old(self)),
    {
        self.started = true;
    }

    /// Whether a tick is due at time `now_ms`: the room is started and a tick
    /// period has passed since the last tick.
    pub fn tick_due(&self, now_ms: u64) -> (r: bool)
        ensures
            r == self.tick_due_at(now_ms),
    {
        let since: u64 = if now_ms >= self.last_tick_ms {
            now_ms - self.last_tick_ms
        } else {
            0
        };
        self.started && since >= self.tick_ms
    }

    /// A full snapshot of the room.
    pub fn snapshot(&self) -> (r: S2C)
        ensures
            self.is_snapshot(r),
    {
        let n = self.players.len();
        let mut players: Vec<PlayerSnapshot> = Vec::new();
        let mut i: usize = 0;
        while i < n
            invariant
                n == self.players@.len(),
                i <= n,
                players@.len() == i,
                forall|j: int|
                    0 <= j < i ==> shows_player(#[trigger] players@[j], self.players@[j]),
            decreases n - i,
        {
            let p = &self.players[i];
            players.push(
                PlayerSnapshot {
                    id: p.id.clone(),
                    name: p.name.clone(),
                    alive: p.alive,
                    score: p.score,
                    lives: p.lives,
                    body: copy_cells(&p.snake),
                },
            );
            i = i + 1;
        }
        S2C::State { seq: self.seq, started: self.started, food: self.food, players }
    }
}

/// Milliseconds from `last` to `now`; `0` when `now` is earlier.
pub open spec fn elapsed(now: u64, last: u64) -> int {
    if now >= last {
        now - last
    } else {
        0
    }
}

/// `n` is `o` with `d` added at the back of its queue.
pub open spec fn is_queued(n: Player, o: Player, d: Dir) -> bool {
    &&& n.id == o.id
    &&& n.name == o.name
    &&& n.tx == o.tx
    &&& n.snake == o.snake
    &&& n.dir == o.dir
    &&& n.alive == o.alive
    &&& n.score == o.score
    &&& n.lives == o.lives
    &&& n.pending@ == o.pending@.push(d)
}

/// The spawn cells of a `w` x `h` grid.
fn spawn_snake(w: i32, h: i32) -> (r: Vec<Cell>)
    requires
        4 <= w,
        1 <= h,
    ensures
        r@ == spawn_body(w as int, h as int),
        forall|k: int| 0 <= k < r@.len() ==> in_grid(#[trigger] r@[k], w as int, h as int),
{
    let mx = w / 2;
    let my = h / 2;
    let r = vec![Cell(mx, my), Cell(mx - 1, my), Cell(mx - 2, my)];
    assert(r@ =~= spawn_body(w as int, h as int));
    r
}

/// A copy of `v`.
fn copy_cells(v: &Vec<Cell>) -> (r: Vec<Cell>)
    ensures
        r@ == v@,
{
    let mut r: Vec<Cell> = Vec::new();
    let mut i: usize = 0;
    while i < v.len()
        invariant
            i <= v@.len(),
            r@ == v@.subrange(0, i as int),
        decreases v@.len() - i,
    {
        r.push(v[i]);
        i = i + 1;
    }
    assert(r@ =~= v@);
    r
}

/// The first of `draws` from position `k` on that no alive snake of `ps`
/// covers, `(0, 0)` when there is none.
pub open spec fn first_free_of(ps: Seq<Player>, draws: Seq<Cell>, k: int) -> Cell
    decreases draws.len() - k,
{
    if k < 0 || k >= draws.len() {
        Cell(0, 0)
    } else if !occupied(ps, draws[k].0 as int, draws[k].1 as int) {
        draws[k]
    } else {
        first_free_of(ps, draws, k + 1)
    }
}

/// The first free draw is `(0, 0)` or free, and lies in the grid when all draws do.
proof fn lemma_first_free(ps: Seq<Player>, draws: Seq<Cell>, k: int, w: int, h: int)
    requires
        0 <= k,
        1 <= w,
        1 <= h,
        forall|q: int| 0 <= q < draws.len() ==> in_grid(#[trigger] draws[q], w, h),
    ensures
        in_grid(first_free_of(ps, draws, k), w, h),
        ({
            let r = first_free_of(ps, draws, k);
            r == Cell(0, 0) || !occupied(ps, r.0 as int, r.1 as int)
        }),
    decreases draws.len() - k,
{
    if k < draws.len() && occupied(ps, draws[k].0 as int, draws[k].1 as int) {
        lemma_first_free(ps, draws, k + 1, w, h);
    }
}

/// Cell `c` is at `(x, y)`.
pub open spec fn covers(c: Cell, x: int, y: int) -> bool {
    c.0 == x && c.1 == y
}

/// Some alive snake of `ps` covers `(x, y)`.
pub open spec fn occupied(ps: Seq<Player>, x: int, y: int) -> bool {
    exists|j: int, k: int|
        0 <= j < ps.len() && ps[j].alive && 0 <= k < ps[j].snake@.len() && covers(
            #[trigger] ps[j].snake@[k],
            x,
            y,
        )
}

} // verus!
