//! What a connection does with the room: joining, the messages a client
//! sends, and the ticks of the driver.
use crate::model::{C2S, S2C};
use crate::room::{has_id, Room};
use tokio::sync::mpsc::UnboundedSender;
use uuid::Uuid;
use vstd::prelude::*;

verus! {

/// uuid's `Uuid`, carried as an opaque value and only turned into text.
#[verifier::external_type_specification]
#[verifier::external_body]
pub struct ExUuid(Uuid);

/// Relies on uuid's `Uuid::new_v4`: a fresh random id. Nothing is promised of it.
pub assume_specification[ Uuid::new_v4 ]() -> Uuid;

/// How many random ids a join draws before giving up on finding a free one.
pub const ID_ATTEMPTS: u32 = 8;

/// The room a connection asked for, `"lobby"` when it named none.
pub fn room_or_default(room: Option<String>) -> (r: String)
    ensures
        match room {
            Some(s) => r@ == s@,
            None => r@ == "lobby"@,
        },
{
    match room {
        Some(s) => s,
        None => "lobby".to_owned(),
    }
}

/// The name a connection gave, `"Anon"` when it gave none.
pub fn name_or_default(name: Option<String>) -> (r: String)
    ensures
        match name {
            Some(s) => r@ == s@,
            None => r@ == "Anon"@,
        },
{
    match name {
        Some(s) => s,
        None => "Anon".to_owned(),
    }
}

impl Room {
    /// The greeting for player `player_id`: its id, the grid size and the tick rate.
    pub fn hello(&self, player_id: String) -> (r: S2C)
        ensures
            r == (S2C::Hello { player_id, grid: (self.grid_w, self.grid_h), tick_hz: self.tick_hz }),
    {
        S2C::Hello { player_id, grid: (self.grid_w, self.grid_h), tick_hz: self.tick_hz }
    }

    /// A new connection named `name` with outbound sink `tx` joins under id
    /// `id`, unless a player of the room already holds it. Returns the
    /// greeting and a first snapshot, both for the new player; `None`, with
    /// the room unchanged, when the id is taken.
    pub fn join_as(&mut self, id: String, name: String, tx: UnboundedSender<S2C>) -> (r: Option<(S2C, S2C)>)
        requires
            old(self).wf(),
            4 <= old(self).grid_w,
        ensures
            final(self).wf(),
            r is None <==> has_id(old(self).players@, id@),
            match r {
                Some((greeting, snap)) => {
                    &&& final(self).is_add_of(*old(self), id@, name@, tx)
                    &&& greeting == (S2C::Hello {
                        player_id: id,
                        grid: (old(self).grid_w, old(self).grid_h),
                        tick_hz: old(self).tick_hz,
                    })
                    &&& final(self).is_snapshot(snap)
                },
                None => *final(self) == *old(self),
            },
    {
        if self.find(id.as_str()).is_some() {
            return None;
        }
        self.add_player(id.clone(), name, tx);
        let greeting = self.hello(id);
        let snap = self.snapshot();
        Some((greeting, snap))
    }

    /// A new connection named `name` with outbound sink `tx` joins under a
    /// random id that no player of the room holds (see `join_as`). Returns the
    /// id, the greeting and a first snapshot; `None`, with the room unchanged,
    /// when each of `ID_ATTEMPTS` drawn ids was taken, which cannot happen in
    /// an empty room.
    pub fn join(&mut self, name: String, tx: UnboundedSender<S2C>) -> (r: Option<(String, S2C, S2C)>)
        requires
            old(self).wf(),
            4 <= old(self).grid_w,
        ensures
            final(self).wf(),
            old(self).players@.len() == 0 ==> r is Some,
            match r {
                Some((id, greeting, snap)) => {
                    &&& !has_id(old(self).players@, id@)
                    &&& final(self).is_add_of(*old(self), id@, name@, tx)
                    &&& greeting == (S2C::Hello {
                        player_id: id,
                        grid: (old(self).grid_w, old(self).grid_h),
                        tick_hz: old(self).tick_hz,
                    })
                    &&& final(self).is_snapshot(snap)
                },
                None => *final(self) == *old(self),
            },
    {
        let mut attempt: u32 = 0;
        while attempt < ID_ATTEMPTS
            invariant
                *self == *old(self),
                self.wf(),
                4 <= self.grid_w,
                old(self).players@.len() == 0 ==> attempt == 0,
            decreases ID_ATTEMPTS - attempt,
        {
            let id = Uuid::new_v4().to_string();
            if self.find(id.as_str()).is_none() {
                let sent = self.join_as(id.clone(), name, tx);
                match sent {
                    Some((greeting, snap)) => {
                        return Some((id, greeting, snap));
                    },
                    None => {
                        return None;
                    },
                }
            }
            attempt = attempt + 1;
        }
        None
    }

    /// Applies message `msg` from the player with id `id` and returns what is
    /// sent back to that player: a snapshot after a start, respawn or restart,
    /// the echo of a ping, nothing otherwise. Joins are made through the
    /// connection's parameters, so a join message changes nothing.
    pub fn handle_message(&mut self, id: &str, msg: C2S) -> (r: Option<S2C>)
        requires
            old(self).wf(),
        ensures
            final(self).wf(),
            match msg {
                C2S::Join { .. } => *final(self) == *old(self) && r is None,
                C2S::Input { dir } => final(self).is_queue_input_of(*old(self), id@, dir) && r is None,
                C2S::Ping { t } => *final(self) == *old(self) && r == Some(S2C::Pong { t }),
                C2S::Respawn => final(self).is_respawn_of(*old(self), id@) && r is Some
                    && final(self).is_snapshot(r->0),
                C2S::Start => final(self).is_started_of(*old(self)) && r is Some
                    && final(self).is_snapshot(r->0),
                C2S::Restart => final(self).is_restart_of(*old(self), id@) && r is Some
                    && final(self).is_snapshot(r->0),
            },
    {
        match msg {
            C2S::Join { .. } => None,
            C2S::Input { dir } => {
                self.queue_input(id, dir);
                None
            },
            C2S::Ping { t } => Some(S2C::Pong { t }),
            C2S::Respawn => {
                self.respawn_player(id);
                Some(self.snapshot())
            },
            C2S::Start => {
                self.mark_started();
                Some(self.snapshot())
            },
            C2S::Restart => {
                self.restart_player(id);
                Some(self.snapshot())
            },
        }
    }

    /// Runs one tick at time `now_ms` when one is due and the tick counter and
    /// every score can still go up by one; returns whether it ran. The room is
    /// unchanged when it did not.
    pub fn tick_if_due(&mut self, now_ms: u64) -> (ran: bool)
        requires
            old(self).wf(),
        ensures
            final(self).wf(),
            ran == (old(self).tick_due_at(now_ms) && old(self).seq < u64::MAX && forall|i: int|
                0 <= i < old(self).players@.len() ==> (#[trigger] old(self).players@[i]).score
                    < u32::MAX),
            ran ==> final(self).is_step_of(*old(self), now_ms),
            !ran ==> *final(self) == *old(self),
    {
        if !self.tick_due(now_ms) || self.seq == u64::MAX {
            return false;
        }
        let n = self.players.len();
        let mut i: usize = 0;
        while i < n
            invariant
                *self == *old(self),
                self.wf(),
                n == self.players@.len(),
                i <= n,
                forall|j: int| 0 <= j < i ==> (#[trigger] self.players@[j]).score < u32::MAX,
            decreases n - i,
        {
            if self.players[i].score == u32::MAX {
                return false;
            }
            i = i + 1;
        }
        self.step(now_ms);
        true
    }
}

} // verus!
