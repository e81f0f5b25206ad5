//! One tick of a room: what happens to each player, stated over the room
//! before the tick, and the phases that carry it out.
use crate::model::{dx, dy, in_grid, seq_of, Cell, Dir};
use crate::room::{
    covers, is_respawned, occupied, player_wf, push_message, spawn_body, Player, Room,
};
use vstd::prelude::*;

verus! {

/// The direction `p` moves in on the next tick: its oldest queued input, if any.
pub open spec fn committed_dir(p: Player) -> Dir {
    if p.pending@.len() > 0 {
        p.pending@[0]
    } else {
        p.dir
    }
}

/// `p`'s queue once the next tick has taken its oldest input.
pub open spec fn pending_after(p: Player) -> Seq<Dir> {
    if p.pending@.len() > 0 {
        p.pending@.subrange(1, p.pending@.len() as int)
    } else {
        p.pending@
    }
}

/// Column of the cell `p`'s head moves to on the next tick.
pub open spec fn head_x(p: Player) -> int {
    p.snake@[0].0 + dx(committed_dir(p))
}

/// Row of the cell `p`'s head moves to on the next tick.
pub open spec fn head_y(p: Player) -> int {
    p.snake@[0].1 + dy(committed_dir(p))
}

/// The next head of `p` leaves the `w` x `h` grid.
pub open spec fn hits_wall(p: Player, w: int, h: int) -> bool {
    !(0 <= head_x(p) < w && 0 <= head_y(p) < h)
}

/// Another alive player of `ps` moves its head to the same cell as player `i`.
pub open spec fn meets_head(ps: Seq<Player>, i: int) -> bool {
    exists|j: int|
        0 <= j < ps.len() && j != i && (#[trigger] ps[j]).alive && head_x(ps[j]) == head_x(ps[i])
            && head_y(ps[j]) == head_y(ps[i])
}

/// Player `i` of `ps` is alive and dies on the next tick: its new head leaves
/// the grid, lands on a cell of an alive snake, or meets another new head.
pub open spec fn dies(ps: Seq<Player>, i: int, w: int, h: int) -> bool {
    &&& ps[i].alive
    &&& {
        ||| hits_wall(ps[i], w, h)
        ||| occupied(ps, head_x(ps[i]), head_y(ps[i]))
        ||| meets_head(ps, i)
    }
}

/// Player `i` of `ps` is alive and stays alive on the next tick.
pub open spec fn survives(ps: Seq<Player>, i: int, w: int, h: int) -> bool {
    ps[i].alive && !dies(ps, i, w, h)
}

/// Lives of player `i` once the next tick's deaths are counted.
pub open spec fn lives_after(ps: Seq<Player>, i: int, w: int, h: int) -> u32 {
    if dies(ps, i, w, h) && ps[i].lives > 0 {
        (ps[i].lives - 1) as u32
    } else {
        ps[i].lives
    }
}

/// After the next tick's deaths, some player has lives left and none of those is alive:
/// all of them are put back on the spawn cells.
pub open spec fn revives(ps: Seq<Player>, w: int, h: int) -> bool {
    &&& exists|i: int| 0 <= i < ps.len() && #[trigger] lives_after(ps, i, w, h) > 0
    &&& forall|i: int|
        0 <= i < ps.len() && #[trigger] lives_after(ps, i, w, h) > 0 ==> !survives(ps, i, w, h)
}

/// Player `i` of `ps` survives the next tick with its new head on `(c.0, c.1)`.
pub open spec fn reaches(ps: Seq<Player>, i: int, c: Cell, w: int, h: int) -> bool {
    survives(ps, i, w, h) && head_x(ps[i]) == c.0 && head_y(ps[i]) == c.1
}

/// The snake of player `j` of `ps` once it has moved on a tick: a survivor
/// gains its new head and, unless it ate, loses its tail; others keep theirs.
pub open spec fn moved_snake(ps: Seq<Player>, j: int, ate: bool, w: int, h: int) -> Seq<Cell> {
    if survives(ps, j, w, h) {
        seq![Cell(head_x(ps[j]) as i32, head_y(ps[j]) as i32)] + if ate {
            ps[j].snake@
        } else {
            ps[j].snake@.drop_last()
        }
    } else {
        ps[j].snake@
    }
}

/// Player `j` of `ps` eats on a tick where the food at its turn is `foods[j]`.
pub open spec fn eats(ps: Seq<Player>, foods: Seq<Cell>, j: int, w: int, h: int) -> bool {
    reaches(ps, j, foods[j], w, h)
}

/// Snake of player `j` when players `0..=i` have moved and the others not yet.
pub open spec fn snake_at(ps: Seq<Player>, foods: Seq<Cell>, i: int, j: int, w: int, h: int) -> Seq<Cell> {
    if j <= i {
        moved_snake(ps, j, eats(ps, foods, j, w, h), w, h)
    } else {
        ps[j].snake@
    }
}

/// No alive snake covers `c` once players `0..=i` have moved.
pub open spec fn free_after(ps: Seq<Player>, foods: Seq<Cell>, i: int, c: Cell, w: int, h: int) -> bool {
    forall|j: int, k: int|
        0 <= j < ps.len() && ps[j].alive && 0 <= k < snake_at(ps, foods, i, j, w, h).len()
            ==> !covers(#[trigger] snake_at(ps, foods, i, j, w, h)[k], c.0 as int, c.1 as int)
}

/// The food after player `i`'s turn: the same cell if it did not eat; else a
/// new cell of the grid that is `(0, 0)` or was free when placed.
pub open spec fn food_turn(ps: Seq<Player>, foods: Seq<Cell>, i: int, w: int, h: int) -> bool {
    if eats(ps, foods, i, w, h) {
        &&& in_grid(foods[i + 1], w, h)
        &&& foods[i + 1] == Cell(0, 0) || free_after(ps, foods, i, foods[i + 1], w, h)
    } else {
        foods[i + 1] == foods[i]
    }
}

/// `foods` is the food each player of `ps` meets on a tick, in player order,
/// starting from `food` and followed by the food left at the end.
pub open spec fn is_food_trail(ps: Seq<Player>, foods: Seq<Cell>, food: Cell, w: int, h: int) -> bool {
    &&& foods.len() == ps.len() + 1
    &&& foods[0] == food
    &&& forall|i: int| 0 <= i < ps.len() ==> #[trigger] food_turn(ps, foods, i, w, h)
}

/// `n` is player `i` of `ps` after one tick of a `w` x `h` room where the food
/// at its turn was `food`. It eats exactly when it survives with its new head
/// on `food`, and then scores one and grows by its new head; a survivor that
/// did not eat moves; a player that died keeps its body, unless the
/// auto-respawn pass puts it back on the spawn cells.
pub open spec fn is_stepped(n: Player, ps: Seq<Player>, i: int, food: Cell, w: int, h: int) -> bool {
    let o = ps[i];
    let ate = reaches(ps, i, food, w, h);
    &&& n.id == o.id
    &&& n.name == o.name
    &&& n.tx == o.tx
    &&& n.lives == lives_after(ps, i, w, h)
    &&& n.score == if ate { o.score + 1 } else { o.score as int }
    &&& if revives(ps, w, h) && lives_after(ps, i, w, h) > 0 {
        &&& n.snake@ == spawn_body(w, h)
        &&& n.dir == Dir::Right
        &&& n.alive
        &&& n.pending@.len() == 0
    } else {
        &&& n.alive == survives(ps, i, w, h)
        &&& n.dir == committed_dir(o)
        &&& n.pending@ == pending_after(o)
        &&& n.snake@ == moved_snake(ps, i, ate, w, h)
    }
}

/// `n` is `o` with its oldest queued input, if any, made its direction.
pub open spec fn is_committed(n: Player, o: Player) -> bool {
    &&& n.id == o.id
    &&& n.name == o.name
    &&& n.tx == o.tx
    &&& n.snake == o.snake
    &&& n.alive == o.alive
    &&& n.score == o.score
    &&& n.lives == o.lives
    &&& n.dir == committed_dir(o)
    &&& n.pending@ == pending_after(o)
}

/// Two sequences of players with the same snakes and the same alive flags
/// occupy the same cells.
proof fn lemma_occupied_same(a: Seq<Player>, b: Seq<Player>, x: int, y: int)
    requires
        a.len() == b.len(),
        forall|j: int| 0 <= j < a.len() ==> (#[trigger] a[j]).alive == b[j].alive && a[j].snake@ == b[j].snake@,
    ensures
        occupied(a, x, y) == occupied(b, x, y),
{
    if occupied(a, x, y) {
        let (j, k) = choose|j: int, k: int|
            0 <= j < a.len() && a[j].alive && 0 <= k < a[j].snake@.len() && covers(
                #[trigger] a[j].snake@[k],
                x,
                y,
            );
        assert(b[j].snake@[k] == a[j].snake@[k]);
    }
    if occupied(b, x, y) {
        let (j, k) = choose|j: int, k: int|
            0 <= j < b.len() && b[j].alive && 0 <= k < b[j].snake@.len() && covers(
                #[trigger] b[j].snake@[k],
                x,
                y,
            );
        assert(a[j].snake@[k] == b[j].snake@[k]);
    }
}

impl Room {
    /// Makes each player's oldest queued input, if any, its direction.
    fn commit_inputs(&mut self)
        requires
            old(self).wf(),
        ensures
            final(self).wf(),
            final(self).same_but_players(*old(self)),
            final(self).players@.len() == old(self).players@.len(),
            forall|i: int|
                0 <= i < old(self).players@.len() ==> is_committed(
                    #[trigger] final(self).players@[i],
                    old(self).players@[i],
                ),
    {
        let ghost ps = self.players@;
        let n = self.players.len();
        let mut i: usize = 0;
        while i < n
            invariant
                n == ps.len(),
                i <= n,
                self.wf(),
                self.same_but_players(*old(self)),
                ps == old(self).players@,
                self.players@.len() == n,
                forall|j: int| 0 <= j < i ==> is_committed(#[trigger] self.players@[j], ps[j]),
                forall|j: int| i <= j < n ==> #[trigger] self.players@[j] == ps[j],
            decreases n - i,
        {
            match self.players[i].pending.pop_front() {
                Some(d) => {
                    self.players[i].dir = d;
                },
                None => {},
            }
            i = i + 1;
        }
    }

    /// The cell each player's head moves to, dead players included.
    fn next_heads(&self, Ghost(ps): Ghost<Seq<Player>>) -> (r: Vec<Cell>)
        requires
            self.wf(),
            ps.len() == self.players@.len(),
            forall|j: int| 0 <= j < ps.len() ==> is_committed(#[trigger] self.players@[j], ps[j]),
        ensures
            r@.len() == ps.len(),
            forall|j: int|
                0 <= j < ps.len() ==> (#[trigger] r@[j]).0 == head_x(ps[j]) && r@[j].1 == head_y(
                    ps[j],
                ),
    {
        let n = self.players.len();
        let mut heads: Vec<Cell> = Vec::new();
        let mut i: usize = 0;
        while i < n
            invariant
                n == ps.len(),
                n == self.players@.len(),
                i <= n,
                self.wf(),
                forall|j: int| 0 <= j < ps.len() ==> is_committed(#[trigger] self.players@[j], ps[j]),
                heads@.len() == i,
                forall|j: int|
                    0 <= j < i ==> (#[trigger] heads@[j]).0 == head_x(ps[j]) && heads@[j].1
                        == head_y(ps[j]),
            decreases n - i,
        {
            let p = &self.players[i];
            assert(player_wf(self.players@[i as int], self.grid_w as int, self.grid_h as int));
            assert(in_grid(p.snake@[0], self.grid_w as int, self.grid_h as int));
            let h = p.snake[0];
            let next = match p.dir {
                Dir::Up => Cell(h.0, h.1 - 1),
                Dir::Down => Cell(h.0, h.1 + 1),
                Dir::Left => Cell(h.0 - 1, h.1),
                Dir::Right => Cell(h.0 + 1, h.1),
            };
            heads.push(next);
            i = i + 1;
        }
        heads
    }

    /// Whether another alive player than `i` moves its head to `heads[i]`.
    fn meets_other_head(&self, heads: &Vec<Cell>, i: usize, Ghost(ps): Ghost<Seq<Player>>) -> (r: bool)
        requires
            ps.len() == self.players@.len(),
            heads@.len() == ps.len(),
            i < ps.len(),
            forall|j: int| 0 <= j < ps.len() ==> is_committed(#[trigger] self.players@[j], ps[j]),
            forall|j: int|
                0 <= j < ps.len() ==> (#[trigger] heads@[j]).0 == head_x(ps[j]) && heads@[j].1
                    == head_y(ps[j]),
        ensures
            r == meets_head(ps, i as int),
    {
        let n = self.players.len();
        let mut j: usize = 0;
        while j < n
            invariant
                n == ps.len(),
                n == self.players@.len(),
                heads@.len() == n,
                i < n,
                j <= n,
                forall|q: int| 0 <= q < ps.len() ==> is_committed(#[trigger] self.players@[q], ps[q]),
                forall|q: int|
                    0 <= q < ps.len() ==> (#[trigger] heads@[q]).0 == head_x(ps[q]) && heads@[q].1
                        == head_y(ps[q]),
                forall|q: int|
                    0 <= q < j && q != i && (#[trigger] ps[q]).alive ==> !(head_x(ps[q]) == head_x(
                        ps[i as int],
                    ) && head_y(ps[q]) == head_y(ps[i as int])),
            decreases n - j,
        {
            if j != i && self.players[j].alive && heads[j] == heads[i] {
                assert(ps[j as int].alive);
                return true;
            }
            j = j + 1;
        }
        false
    }

    /// For each player, whether it dies on this tick.
    fn mark_deaths(&self, heads: &Vec<Cell>, Ghost(ps): Ghost<Seq<Player>>) -> (r: Vec<bool>)
        requires
            self.wf(),
            ps.len() == self.players@.len(),
            heads@.len() == ps.len(),
            forall|j: int| 0 <= j < ps.len() ==> is_committed(#[trigger] self.players@[j], ps[j]),
            forall|j: int|
                0 <= j < ps.len() ==> (#[trigger] heads@[j]).0 == head_x(ps[j]) && heads@[j].1
                    == head_y(ps[j]),
        ensures
            r@.len() == ps.len(),
            forall|j: int|
                0 <= j < ps.len() ==> #[trigger] r@[j] == dies(
                    ps,
                    j,
                    self.grid_w as int,
                    self.grid_h as int,
                ),
    {
        let n = self.players.len();
        let mut deaths: Vec<bool> = Vec::new();
        let mut i: usize = 0;
        while i < n
            invariant
                n == ps.len(),
                n == self.players@.len(),
                heads@.len() == n,
                i <= n,
                self.wf(),
                forall|q: int| 0 <= q < ps.len() ==> is_committed(#[trigger] self.players@[q], ps[q]),
                forall|q: int|
                    0 <= q < ps.len() ==> (#[trigger] heads@[q]).0 == head_x(ps[q]) && heads@[q].1
                        == head_y(ps[q]),
                deaths@.len() == i,
                forall|q: int|
                    0 <= q < i ==> #[trigger] deaths@[q] == dies(
                        ps,
                        q,
                        self.grid_w as int,
                        self.grid_h as int,
                    ),
            decreases n - i,
        {
            let h = heads[i];
            let dead = if !self.players[i].alive {
                false
            } else if h.0 < 0 || h.0 >= self.grid_w || h.1 < 0 || h.1 >= self.grid_h {
                true
            } else {
                let hit = self.is_occupied(h);
                proof {
                    lemma_occupied_same(self.players@, ps, h.0 as int, h.1 as int);
                }
                hit || self.meets_other_head(heads, i, Ghost(ps))
            };
            deaths.push(dead);
            i = i + 1;
        }
        deaths
    }
}

/// `n` is the committed player `o` (player `i` of `ps` before the tick) once
/// the survivors have moved and eaten, the food at its turn being `food`.
pub open spec fn is_advanced(n: Player, o: Player, ps: Seq<Player>, i: int, food: Cell, w: int, h: int) -> bool {
    let ate = reaches(ps, i, food, w, h);
    &&& n.id == o.id
    &&& n.name == o.name
    &&& n.tx == o.tx
    &&& n.dir == o.dir
    &&& n.pending == o.pending
    &&& n.alive == o.alive
    &&& n.lives == o.lives
    &&& n.score == if ate { o.score + 1 } else { o.score as int }
    &&& n.snake@ == moved_snake(ps, i, ate, w, h)
}

/// Extending a food trail keeps what it says of the turns already taken.
proof fn lemma_food_turn_push(ps: Seq<Player>, foods: Seq<Cell>, x: Cell, i: int, w: int, h: int)
    requires
        0 <= i,
        i + 1 < foods.len(),
        food_turn(ps, foods, i, w, h),
    ensures
        food_turn(ps, foods.push(x), i, w, h),
{
    let f2 = foods.push(x);
    assert(f2[i] == foods[i] && f2[i + 1] == foods[i + 1]);
    assert forall|j: int| 0 <= j < ps.len() implies #[trigger] snake_at(ps, f2, i, j, w, h) == snake_at(ps, foods, i, j, w, h) by {
        if j <= i {
            assert(f2[j] == foods[j]);
        }
    }
    if eats(ps, foods, i, w, h) && foods[i + 1] != Cell(0, 0) {
        assert forall|j: int, k: int|
            0 <= j < ps.len() && ps[j].alive && 0 <= k < snake_at(ps, f2, i, j, w, h).len()
                implies !covers(#[trigger] snake_at(ps, f2, i, j, w, h)[k], f2[i + 1].0 as int, f2[i + 1].1 as int) by {
            assert(snake_at(ps, f2, i, j, w, h) == snake_at(ps, foods, i, j, w, h));
            assert(!covers(snake_at(ps, foods, i, j, w, h)[k], foods[i + 1].0 as int, foods[i + 1].1 as int));
        }
    }
}

/// `n` is `o` after the deaths of a tick are counted; `dead` tells whether it died.
pub open spec fn is_finalized(n: Player, o: Player, dead: bool) -> bool {
    if dead {
        &&& n.id == o.id
        &&& n.name == o.name
        &&& n.tx == o.tx
        &&& n.snake == o.snake
        &&& n.dir == o.dir
        &&& n.pending == o.pending
        &&& n.score == o.score
        &&& !n.alive
        &&& n.lives == if o.lives > 0 {
            (o.lives - 1) as u32
        } else {
            0
        }
    } else {
        n == o
    }
}

/// Some player of `ps` has lives left, and none of those is alive.
pub open spec fn all_down(ps: Seq<Player>) -> bool {
    &&& exists|i: int| 0 <= i < ps.len() && (#[trigger] ps[i]).lives > 0
    &&& forall|i: int| 0 <= i < ps.len() && (#[trigger] ps[i]).lives > 0 ==> !ps[i].alive
}

impl Room {
    /// Moves every survivor one cell: its new head is added, and its tail
    /// dropped unless it ate. Eating scores one and places new food.
    fn advance_survivors(&mut self, heads: &Vec<Cell>, deaths: &Vec<bool>, Ghost(ps): Ghost<Seq<Player>>)
        requires
            old(self).wf(),
            ps.len() == old(self).players@.len(),
            heads@.len() == ps.len(),
            deaths@.len() == ps.len(),
            forall|j: int| 0 <= j < ps.len() ==> is_committed(#[trigger] old(self).players@[j], ps[j]),
            forall|j: int|
                0 <= j < ps.len() ==> (#[trigger] heads@[j]).0 == head_x(ps[j]) && heads@[j].1
                    == head_y(ps[j]),
            forall|j: int|
                0 <= j < ps.len() ==> #[trigger] deaths@[j] == dies(
                    ps,
                    j,
                    old(self).grid_w as int,
                    old(self).grid_h as int,
                ),
            forall|j: int| 0 <= j < ps.len() ==> (#[trigger] ps[j]).score < u32::MAX,
        ensures
            final(self).wf(),
            final(self).name == old(self).name,
            final(self).grid_w == old(self).grid_w,
            final(self).grid_h == old(self).grid_h,
            final(self).seq == old(self).seq,
            final(self).started == old(self).started,
            final(self).tick_hz == old(self).tick_hz,
            final(self).last_tick_ms == old(self).last_tick_ms,
            final(self).tick_ms == old(self).tick_ms,
            final(self).players@.len() == ps.len(),
            final(self).outbox == old(self).outbox,
            exists|foods: Seq<Cell>|
                #[trigger] is_food_trail(
                    ps,
                    foods,
                    old(self).food,
                    old(self).grid_w as int,
                    old(self).grid_h as int,
                ) && final(self).food == foods[ps.len() as int] && forall|j: int|
                    0 <= j < ps.len() ==> is_advanced(
                        #[trigger] final(self).players@[j],
                        old(self).players@[j],
                        ps,
                        j,
                        foods[j],
                        old(self).grid_w as int,
                        old(self).grid_h as int,
                    ),
    {
        let ghost w = self.grid_w as int;
        let ghost h = self.grid_h as int;
        let ghost food0 = self.food;
        let ghost start = self.players@;
        let ghost mut foods: Seq<Cell> = seq![self.food];
        let n = self.players.len();
        let mut i: usize = 0;
        while i < n
            invariant
                n == ps.len(),
                i <= n,
                w == self.grid_w,
                h == self.grid_h,
                food0 == old(self).food,
                start == old(self).players@,
                heads@.len() == n,
                deaths@.len() == n,
                self.wf(),
                self.name == old(self).name,
                self.grid_w == old(self).grid_w,
                self.grid_h == old(self).grid_h,
                self.seq == old(self).seq,
                self.started == old(self).started,
                self.tick_hz == old(self).tick_hz,
                self.last_tick_ms == old(self).last_tick_ms,
                self.tick_ms == old(self).tick_ms,
                self.outbox == old(self).outbox,
                self.players@.len() == n,
                forall|j: int| 0 <= j < ps.len() ==> is_committed(#[trigger] start[j], ps[j]),
                forall|j: int|
                    0 <= j < ps.len() ==> (#[trigger] heads@[j]).0 == head_x(ps[j]) && heads@[j].1
                        == head_y(ps[j]),
                forall|j: int| 0 <= j < ps.len() ==> #[trigger] deaths@[j] == dies(ps, j, w, h),
                forall|j: int| 0 <= j < ps.len() ==> (#[trigger] ps[j]).score < u32::MAX,
                foods.len() == i + 1,
                foods[0] == food0,
                self.food == foods[i as int],
                forall|j: int| 0 <= j < i ==> #[trigger] food_turn(ps, foods, j, w, h),
                forall|j: int|
                    0 <= j < i ==> is_advanced(#[trigger] self.players@[j], start[j], ps, j, foods[j], w, h),
                forall|j: int| i <= j < n ==> #[trigger] self.players@[j] == start[j],
            decreases n - i,
        {
            let ghost before = self.players@;
            let ghost f2: Seq<Cell>;
            if self.players[i].alive && !deaths[i] {
                let head = heads[i];
                assert(survives(ps, i as int, w, h));
                assert(!hits_wall(ps[i as int], w, h));
                self.players[i].snake.insert(0, head);
                assert(head == Cell(head_x(ps[i as int]) as i32, head_y(ps[i as int]) as i32));
                if head == self.food {
                    assert(reaches(ps, i as int, foods[i as int], w, h));
                    assert(self.players@[i as int].snake@ =~= seq![head] + start[i as int].snake@);
                    self.players[i].score = self.players[i].score + 1;
                    let f = self.random_empty();
                    proof {
                        f2 = foods.push(f);
                        assert(f2[i as int] == foods[i as int]);
                        assert forall|j: int| 0 <= j < ps.len() implies
                            #[trigger] snake_at(ps, f2, i as int, j, w, h) == self.players@[j].snake@
                            && self.players@[j].alive == ps[j].alive by {
                            if j < i {
                                assert(f2[j] == foods[j]);
                                assert(is_advanced(self.players@[j], start[j], ps, j, foods[j], w, h));
                            } else if j > i {
                                assert(is_committed(start[j], ps[j]));
                            }
                        }
                        if f != Cell(0, 0) {
                            assert forall|j: int, k: int|
                                0 <= j < ps.len() && ps[j].alive && 0 <= k < snake_at(ps, f2, i as int, j, w, h).len()
                                    implies !covers(#[trigger] snake_at(ps, f2, i as int, j, w, h)[k], f.0 as int, f.1 as int) by {
                                assert(snake_at(ps, f2, i as int, j, w, h) == self.players@[j].snake@);
                                assert(!covers(self.players@[j].snake@[k], f.0 as int, f.1 as int));
                            }
                        }
                        assert(food_turn(ps, f2, i as int, w, h));
                    }
                    self.food = f;
                } else {
                    proof {
                        f2 = foods.push(self.food);
                    }
                    self.players[i].snake.pop();
                    proof {
                        assert(self.players@[i as int].snake@ =~= seq![head] + start[i as int].snake@.drop_last());
                    }
                }
            } else {
                proof {
                    f2 = foods.push(self.food);
                }
            }
            proof {
                assert(f2[i as int] == foods[i as int]);
                assert(is_advanced(self.players@[i as int], start[i as int], ps, i as int, f2[i as int], w, h));
                assert(food_turn(ps, f2, i as int, w, h));
                assert forall|j: int| 0 <= j < i implies #[trigger] food_turn(ps, f2, j, w, h) by {
                    lemma_food_turn_push(ps, foods, f2[i + 1], j, w, h);
                    assert(foods.push(f2[i + 1]) == f2);
                }
                assert forall|j: int| 0 <= j < i implies is_advanced(#[trigger] self.players@[j], start[j], ps, j, f2[j], w, h) by {
                    assert(f2[j] == foods[j]);
                    assert(self.players@[j] == before[j]);
                }
                foods = f2;
            }
            i = i + 1;
        }
        assert(is_food_trail(ps, foods, food0, w, h));
    }

    /// Marks every player that died this tick dead and takes one of its lives, if it has any.
    fn finalize_deaths(&mut self, deaths: &Vec<bool>)
        requires
            old(self).wf(),
            deaths@.len() == old(self).players@.len(),
        ensures
            final(self).wf(),
            final(self).same_but_players(*old(self)),
            final(self).players@.len() == old(self).players@.len(),
            forall|j: int|
                0 <= j < old(self).players@.len() ==> is_finalized(
                    #[trigger] final(self).players@[j],
                    old(self).players@[j],
                    deaths@[j],
                ),
    {
        let n = self.players.len();
        let mut i: usize = 0;
        while i < n
            invariant
                n == old(self).players@.len(),
                deaths@.len() == n,
                i <= n,
                self.wf(),
                self.same_but_players(*old(self)),
                self.players@.len() == n,
                forall|j: int|
                    0 <= j < i ==> is_finalized(#[trigger] self.players@[j], old(self).players@[j], deaths@[j]),
                forall|j: int| i <= j < n ==> #[trigger] self.players@[j] == old(self).players@[j],
            decreases n - i,
        {
            let ghost before = self.players@;
            if deaths[i] {
                self.players[i].alive = false;
                if self.players[i].lives > 0 {
                    self.players[i].lives = self.players[i].lives - 1;
                }
            }
            assert(forall|j: int| 0 <= j < n && j != i ==> self.players@[j] == before[j]);
            i = i + 1;
        }
    }

    /// When some player has lives left and none of those is alive, puts all
    /// of them back on the spawn cells.
    fn auto_respawn(&mut self)
        requires
            old(self).wf(),
        ensures
            final(self).wf(),
            final(self).same_but_players(*old(self)),
            final(self).players@.len() == old(self).players@.len(),
            forall|j: int|
                0 <= j < old(self).players@.len() ==> if all_down(old(self).players@)
                    && old(self).players@[j].lives > 0 {
                    is_respawned(
                        #[trigger] final(self).players@[j],
                        old(self).players@[j],
                        old(self).players@[j].lives,
                        old(self).grid_w as int,
                        old(self).grid_h as int,
                    )
                } else {
                    final(self).players@[j] == old(self).players@[j]
                },
    {
        let n = self.players.len();
        let mut any_with_lives = false;
        let mut all_dead = true;
        let mut i: usize = 0;
        while i < n
            invariant
                n == self.players@.len(),
                i <= n,
                any_with_lives == exists|j: int| 0 <= j < i && (#[trigger] self.players@[j]).lives > 0,
                all_dead == forall|j: int|
                    0 <= j < i && (#[trigger] self.players@[j]).lives > 0 ==> !self.players@[j].alive,
            decreases n - i,
        {
            if self.players[i].lives > 0 {
                any_with_lives = true;
                if self.players[i].alive {
                    all_dead = false;
                }
            }
            i = i + 1;
        }
        if any_with_lives && all_dead {
            let mut i: usize = 0;
            while i < n
                invariant
                    n == old(self).players@.len(),
                    all_down(old(self).players@),
                    i <= n,
                    self.wf(),
                    self.same_but_players(*old(self)),
                    self.players@.len() == n,
                    forall|j: int|
                        0 <= j < i ==> if old(self).players@[j].lives > 0 {
                            is_respawned(
                                #[trigger] self.players@[j],
                                old(self).players@[j],
                                old(self).players@[j].lives,
                                old(self).grid_w as int,
                                old(self).grid_h as int,
                            )
                        } else {
                            self.players@[j] == old(self).players@[j]
                        },
                    forall|j: int| i <= j < n ==> #[trigger] self.players@[j] == old(self).players@[j],
                decreases n - i,
            {
                if self.players[i].lives > 0 {
                    let lives = self.players[i].lives;
                    self.respawn_at(i, lives);
                }
                i = i + 1;
            }
        }
    }

    /// Sends a snapshot of the room to every player's outbound sink, in
    /// player order, and records each in the outbox.
    fn broadcast(&mut self)
        ensures
            *final(self) == (Room { outbox: final(self).outbox, ..*old(self) }),
            final(self).outbox@.subrange(0, old(self).outbox@.len() as int) == old(self).outbox@,
            final(self).pushed_snapshots(old(self).outbox@.len() as int),
    {
        let ghost from = self.outbox@.len() as int;
        let n = self.players.len();
        let mut i: usize = 0;
        assert(self.outbox@.subrange(0, from) =~= self.outbox@);
        while i < n
            invariant
                n == self.players@.len(),
                i <= n,
                *self == (Room { outbox: self.outbox, ..*old(self) }),
                from == old(self).outbox@.len(),
                self.outbox@.len() == from + i,
                self.outbox@.subrange(0, from) == old(self).outbox@,
                forall|j: int| 0 <= j < i ==> #[trigger] self.sent_to(from, j),
            decreases n - i,
        {
            let msg = self.snapshot();
            let ghost sent = msg;
            push_message(&self.players[i].tx, msg);
            let ghost prev = *self;
            self.outbox = Ghost(self.outbox@.push((self.players@[i as int].tx, sent)));
            proof {
                assert(self.outbox@.subrange(0, from) =~= old(self).outbox@);
                assert forall|j: int| 0 <= j <= i implies #[trigger] self.sent_to(from, j) by {
                    if j < i {
                        assert(prev.sent_to(from, j));
                        assert(self.outbox@[from + j] == prev.outbox@[from + j]);
                        assert(prev.is_snapshot(prev.outbox@[from + j].1));
                    } else {
                        assert(self.outbox@[from + i] == (self.players@[i as int].tx, sent));
                        assert(prev.is_snapshot(sent));
                    }
                }
            }
            i = i + 1;
        }
    }

    /// Advances the room by one tick at time `now_ms`: the tick counter goes
    /// up by one, each player takes its oldest queued input, alive snakes move
    /// or die, deaths cost a life, the auto-respawn pass runs, and the
    /// resulting snapshot is sent to every player.
    pub fn step(&mut self, now_ms: u64)
        requires
            old(self).wf(),
            old(self).seq < u64::MAX,
            forall|i: int|
                0 <= i < old(self).players@.len() ==> (#[trigger] old(self).players@[i]).score
                    < u32::MAX,
        ensures
            final(self).wf(),
            final(self).is_step_of(*old(self), now_ms),
    {
        let ghost ps = self.players@;
        let ghost w = self.grid_w as int;
        let ghost h = self.grid_h as int;
        self.last_tick_ms = now_ms;
        self.seq = self.seq + 1;
        self.commit_inputs();
        let ghost ps1 = self.players@;
        let heads = self.next_heads(Ghost(ps));
        let deaths = self.mark_deaths(&heads, Ghost(ps));
        self.advance_survivors(&heads, &deaths, Ghost(ps));
        let ghost ps2 = self.players@;
        self.finalize_deaths(&deaths);
        let ghost ps3 = self.players@;
        proof {
            assert forall|j: int| 0 <= j < ps.len() implies (#[trigger] ps3[j]).lives == lives_after(ps, j, w, h)
                && ps3[j].alive == survives(ps, j, w, h) by {
                assert(is_finalized(ps3[j], ps2[j], deaths@[j]));
            }
            if revives(ps, w, h) {
                let k = choose|k: int| 0 <= k < ps.len() && #[trigger] lives_after(ps, k, w, h) > 0;
                assert(ps3[k].lives > 0);
                assert forall|j: int| 0 <= j < ps3.len() && (#[trigger] ps3[j]).lives > 0 implies !ps3[j].alive by {
                    assert(lives_after(ps, j, w, h) > 0);
                }
            }
            if all_down(ps3) {
                let k = choose|k: int| 0 <= k < ps3.len() && (#[trigger] ps3[k]).lives > 0;
                assert(lives_after(ps, k, w, h) > 0);
                assert forall|j: int| 0 <= j < ps.len() && #[trigger] lives_after(ps, j, w, h) > 0 implies !survives(ps, j, w, h) by {
                    assert(ps3[j].lives > 0);
                }
            }
            assert(all_down(ps3) == revives(ps, w, h));
        }
        self.auto_respawn();
        proof {
            let foods = choose|foods: Seq<Cell>|
                #[trigger] is_food_trail(ps, foods, old(self).food, w, h) && ps2.len() == ps.len()
                    && self.food == foods[ps.len() as int] && forall|j: int|
                    0 <= j < ps.len() ==> is_advanced(#[trigger] ps2[j], ps1[j], ps, j, foods[j], w, h);
            assert forall|j: int| 0 <= j < ps.len() implies is_stepped(
                #[trigger] self.players@[j],
                ps,
                j,
                foods[j],
                w,
                h,
            ) by {
                assert(is_committed(ps1[j], ps[j]));
                assert(is_advanced(ps2[j], ps1[j], ps, j, foods[j], w, h));
                assert(is_finalized(ps3[j], ps2[j], deaths@[j]));
            }
            assert(is_food_trail(ps, foods, old(self).food, w, h));
        }
        let ghost before = *self;
        self.broadcast();
        proof {
            assert forall|k: int| 0 <= k < self.outbox@.len() implies 0 <= seq_of(
                #[trigger] self.outbox@[k].1,
            ) <= self.seq by {
                if k < old(self).outbox@.len() {
                    assert(self.outbox@[k] == old(self).outbox@[k]);
                } else {
                    let i = k - old(self).outbox@.len();
                    assert(self.sent_to(old(self).outbox@.len() as int, i));
                }
            }
        }
    }
}

} // verus!
