//! Properties of the room that hold across calls, proved from the
//! operations' own postconditions.
use crate::model::{in_grid, opposite, seq_of, Cell, Dir, S2C};
use crate::room::{has_id, slot_of, Room};
use crate::tick::{
    committed_dir, dies, head_x, head_y, is_food_trail, is_stepped, lives_after, revives, survives,
};
use vstd::prelude::*;

verus! {

/// Every cell of every alive snake in a snapshot of a well-formed room lies in the grid.
pub proof fn lemma_snapshot_cells_in_grid(r: Room, s: S2C)
    requires
        r.wf(),
        r.is_snapshot(s),
    ensures
        match s {
            S2C::State { players, .. } => forall|i: int, k: int|
                0 <= i < players@.len() && players@[i].alive && 0 <= k
                    < players@[i].body@.len() ==> in_grid(
                    #[trigger] players@[i].body@[k],
                    r.grid_w as int,
                    r.grid_h as int,
                ),
            _ => false,
        },
{
    match s {
        S2C::State { players, .. } => {
            assert forall|i: int, k: int|
                0 <= i < players@.len() && players@[i].alive && 0 <= k
                    < players@[i].body@.len() implies in_grid(
                #[trigger] players@[i].body@[k],
                r.grid_w as int,
                r.grid_h as int,
            ) by {
                assert(players@[i].body@ == r.players@[i].snake@);
                assert(in_grid(r.players@[i].snake@[k], r.grid_w as int, r.grid_h as int));
            }
        },
        _ => {},
    }
}

/// The snapshot a tick emits carries a higher counter than any snapshot of
/// the room before that tick.
pub proof fn lemma_tick_snapshot_seq_increases(r0: Room, r1: Room, now_ms: u64, s0: S2C, s1: S2C)
    requires
        r1.is_step_of(r0, now_ms),
        r0.is_snapshot(s0),
        r1.is_snapshot(s1),
    ensures
        seq_of(s0) < seq_of(s1),
{
}

/// Each message a tick pushes carries a higher tick counter than every
/// message the room pushed before it.
pub proof fn lemma_tick_pushes_newer_snapshots(r0: Room, r1: Room, now_ms: u64, k: int, i: int)
    requires
        r0.wf(),
        r1.is_step_of(r0, now_ms),
        0 <= k < r0.outbox@.len(),
        0 <= i < r0.players@.len(),
    ensures
        seq_of(r0.outbox@[k].1) < seq_of(r1.outbox@[r0.outbox@.len() + i].1),
{
    assert(r1.sent_to(r0.outbox@.len() as int, i));
}

/// In each snapshot a tick pushes, every cell of every alive snake lies in the grid.
pub proof fn lemma_tick_pushes_cells_in_grid(r0: Room, r1: Room, now_ms: u64, i: int)
    requires
        r1.wf(),
        r1.is_step_of(r0, now_ms),
        0 <= i < r0.players@.len(),
    ensures
        match r1.outbox@[r0.outbox@.len() + i].1 {
            S2C::State { players, .. } => forall|j: int, k: int|
                0 <= j < players@.len() && players@[j].alive && 0 <= k
                    < players@[j].body@.len() ==> in_grid(
                    #[trigger] players@[j].body@[k],
                    r1.grid_w as int,
                    r1.grid_h as int,
                ),
            _ => false,
        },
{
    assert(r1.sent_to(r0.outbox@.len() as int, i));
    lemma_snapshot_cells_in_grid(r1, r1.outbox@[r0.outbox@.len() + i].1);
}

/// On a tick a player loses one life exactly when it dies (none when it has
/// none left) and keeps its lives otherwise; its score stays or, for a
/// survivor only, goes up by one.
pub proof fn lemma_tick_lives_and_score(r0: Room, r1: Room, now_ms: u64, i: int)
    requires
        r1.is_step_of(r0, now_ms),
        0 <= i < r0.players@.len(),
    ensures
        ({
            let ps = r0.players@;
            let w = r0.grid_w as int;
            let h = r0.grid_h as int;
            &&& r1.players@[i].lives == if dies(ps, i, w, h) && ps[i].lives > 0 {
                ps[i].lives - 1
            } else {
                ps[i].lives as int
            }
            &&& r1.players@[i].lives <= ps[i].lives
            &&& r1.players@[i].score == ps[i].score || (r1.players@[i].score == ps[i].score + 1
                && survives(ps, i, w, h))
        }),
{
    let foods = choose|foods: Seq<Cell>|
        #[trigger] is_food_trail(r0.players@, foods, r0.food, r0.grid_w as int, r0.grid_h as int)
            && r1.food == foods[r0.players@.len() as int] && forall|j: int|
            0 <= j < r0.players@.len() ==> is_stepped(
                #[trigger] r1.players@[j],
                r0.players@,
                j,
                foods[j],
                r0.grid_w as int,
                r0.grid_h as int,
            );
    assert(is_stepped(r1.players@[i], r0.players@, i, foods[i], r0.grid_w as int, r0.grid_h as int));
}

/// A respawn request never raises a player's lives nor changes its score.
pub proof fn lemma_respawn_lives_and_score(r0: Room, r1: Room, id: Seq<char>, i: int)
    requires
        r0.wf(),
        r1.is_respawn_of(r0, id),
        0 <= i < r0.players@.len(),
    ensures
        r1.players@[i].lives == r0.players@[i].lives,
        r1.players@[i].score == r0.players@[i].score,
{
}

/// A queued input never changes a player's lives or score.
pub proof fn lemma_queue_input_lives_and_score(r0: Room, r1: Room, id: Seq<char>, d: Dir, i: int)
    requires
        r0.wf(),
        r1.is_queue_input_of(r0, id, d),
        0 <= i < r0.players@.len(),
    ensures
        r1.players@[i].lives == r0.players@[i].lives,
        r1.players@[i].score == r0.players@[i].score,
{
}

/// A direction opposite to the player's current one, asked for while its
/// queue is empty, is not the direction it moves in on the next tick.
pub proof fn lemma_reversal_not_committed(r0: Room, r1: Room, id: Seq<char>, d: Dir)
    requires
        r0.wf(),
        has_id(r0.players@, id),
        opposite(r0.players@[slot_of(r0.players@, id)].dir, d),
        r0.players@[slot_of(r0.players@, id)].pending@.len() == 0,
        r1.is_queue_input_of(r0, id, d),
    ensures
        committed_dir(r1.players@[slot_of(r0.players@, id)]) != d,
{
}

/// On a tick, a survivor stays alive and takes its committed direction; if
/// it ate (scored) it grows by one cell, else it keeps its length. A player
/// that died keeps its body, unless the auto-respawn pass put it back on the
/// spawn cells.
pub proof fn lemma_tick_body_length(r0: Room, r1: Room, now_ms: u64, i: int)
    requires
        r0.wf(),
        r1.is_step_of(r0, now_ms),
        0 <= i < r0.players@.len(),
    ensures
        ({
            let ps = r0.players@;
            let w = r0.grid_w as int;
            let h = r0.grid_h as int;
            let ate = r1.players@[i].score == ps[i].score + 1;
            &&& survives(ps, i, w, h) ==> r1.players@[i].alive && r1.players@[i].dir == committed_dir(ps[i])
            &&& survives(ps, i, w, h) && ate ==> r1.players@[i].snake@.len() == ps[i].snake@.len() + 1
            &&& survives(ps, i, w, h) && !ate ==> r1.players@[i].snake@.len() == ps[i].snake@.len()
            &&& dies(ps, i, w, h) && !(revives(ps, w, h) && lives_after(ps, i, w, h) > 0)
                ==> r1.players@[i].snake@ == ps[i].snake@
        }),
{
    let ps = r0.players@;
    let w = r0.grid_w as int;
    let h = r0.grid_h as int;
    let foods = choose|foods: Seq<Cell>|
        #[trigger] is_food_trail(ps, foods, r0.food, w, h) && r1.food == foods[ps.len() as int]
            && forall|j: int| 0 <= j < ps.len() ==> is_stepped(#[trigger] r1.players@[j], ps, j, foods[j], w, h);
    assert(is_stepped(r1.players@[i], ps, i, foods[i], w, h));
    assert(ps[i].snake@.len() > 0);
    if survives(ps, i, w, h) {
        // a survivor is alive, so the auto-respawn pass leaves it alone
        if revives(ps, w, h) && lives_after(ps, i, w, h) > 0 {
            assert(!survives(ps, i, w, h));
        }
    }
}

/// When two alive players move their heads to the same cell, both are dead
/// after the tick and each lost a life (if it had one), unless the
/// auto-respawn pass brought them back.
pub proof fn lemma_head_on_both_die(r0: Room, r1: Room, now_ms: u64, i: int, j: int)
    requires
        r0.wf(),
        r1.is_step_of(r0, now_ms),
        0 <= i < r0.players@.len(),
        0 <= j < r0.players@.len(),
        i != j,
        r0.players@[i].alive,
        r0.players@[j].alive,
        head_x(r0.players@[i]) == head_x(r0.players@[j]),
        head_y(r0.players@[i]) == head_y(r0.players@[j]),
        !revives(r0.players@, r0.grid_w as int, r0.grid_h as int),
    ensures
        !r1.players@[i].alive,
        !r1.players@[j].alive,
        r1.players@[i].lives == if r0.players@[i].lives > 0 {
            r0.players@[i].lives - 1
        } else {
            0
        },
        r1.players@[j].lives == if r0.players@[j].lives > 0 {
            r0.players@[j].lives - 1
        } else {
            0
        },
{
    let ps = r0.players@;
    assert(ps[j].alive);
    assert(dies(ps, i, r0.grid_w as int, r0.grid_h as int));
    assert(ps[i].alive);
    assert(dies(ps, j, r0.grid_w as int, r0.grid_h as int));
}

/// Marking a room started twice is the same as marking it once.
pub proof fn lemma_mark_started_idempotent(r0: Room, r1: Room, r2: Room)
    requires
        r1.is_started_of(r0),
        r2.is_started_of(r1),
    ensures
        r2 == r1,
{
}

/// A respawn request for a player without lives changes nothing.
pub proof fn lemma_respawn_without_lives(r0: Room, r1: Room, id: Seq<char>)
    requires
        has_id(r0.players@, id),
        r0.players@[slot_of(r0.players@, id)].lives == 0,
        r1.is_respawn_of(r0, id),
    ensures
        r1 == r0,
{
}

} // verus!
