//! The entity pool: a fixed 64-slot array of optional entities plus the
//! player, advanced one slot at a time per tick.
//!
//! Each entity's turn sees a snapshot of its siblings taken at the start
//! of the pool's run and requests spawns, removals and coins through an
//! effect list, applied right after its turn; only the running entity's
//! own state and the tile grid are mutated live.
use vstd::prelude::*;

use crate::collision::{ent_wf, process_collision_spec, ProbeState};
use crate::controller::Buttons;
use crate::entity::{explosion, explosion_spec, Effects, Entity, EntityData, EntityKind};
use crate::foreground::Foreground;
use crate::player::{player_wf, Player};
use crate::vec2::{div_t, vec2, Vec2};

verus! {

/// The wrapping difference of two fixed-point coordinates.
pub open spec fn wsub(a: i32, b: i32) -> i32 {
    vstd::wrapping::i32_specs::wrapping_sub(a, b)
}

/// The wrapping sum of two fixed-point coordinates.
pub open spec fn wadd(a: i32, b: i32) -> i32 {
    vstd::wrapping::i32_specs::wrapping_add(a, b)
}

/// Entity state under which one tick's arithmetic stays exact. A star
/// resolves collision, so its physics state must sit in the resolver's
/// exact range with one gravity step of headroom; a key only needs its
/// homing velocity bounded; explosions, locks and signs only count.
pub open spec fn entity_wf(e: Entity) -> bool {
    match e.kind {
        EntityKind::Star { time_left } => {
            &&& ent_wf(e.data)
            &&& -0xF0000 <= e.data.vel.x <= 0xF0000
            &&& -0xF0000 <= e.data.vel.y <= 0xF0000
            &&& 0 <= time_left <= 100000
        },
        EntityKind::Explosion { time_left } => 0 <= time_left <= 100000,
        EntityKind::Key { picked_up, unlocking_id, unlock_timer } => {
            &&& -0x1000000 <= e.data.vel.x <= 0x1000000
            &&& -0x1000000 <= e.data.vel.y <= 0x1000000
            &&& 0 <= unlock_timer <= 100000
        },
        EntityKind::Lock => true,
        EntityKind::Sign => true,
    }
}

/// The star's tick: gravity, a blink when its time runs short, collision
/// with a small hitbox, bouncing off whatever blocked it, and finally a
/// countdown that ends in an explosion.
pub open spec fn star_run_spec(k: EntityKind, d: EntityData, g: Seq<u8>, sp: Seq<Entity>, co: i32) -> (Entity, bool, Seq<u8>, Seq<Entity>, i32)
    recommends
        k is Star,
{
    let tl = k->Star_time_left;
    let d1 = EntityData {
        vel: Vec2 { x: d.vel.x, y: (d.vel.y + 0x30) as i32 },
        frame: if tl > 60 || div_t(tl as int, 2) % 2 == 0 { 2 } else { 255 },
        hitbox: Vec2 { x: 12, y: 12 },
        ..d
    };
    let st = process_collision_spec(d1, g, sp, co);
    let d2 = st.ent;
    let d3 = EntityData {
        vel: Vec2 {
            x: if d2.blocked_right { (-256int) as i32 } else if d2.blocked_left { 256 } else { d2.vel.x },
            y: if d2.blocked_down { (-1280int) as i32 } else { d2.vel.y },
        },
        ..d2
    };
    let tl1 = tl - 1;
    let sp1 = if tl1 == 0 { st.spawns.push(explosion_spec(d3.pos)) } else { st.spawns };
    (Entity { kind: EntityKind::Star { time_left: tl1 as i32 }, data: d3 }, tl1 == 0, st.grid, sp1, st.coins)
}

/// The explosion's tick: a pure countdown driving the animation frame.
pub open spec fn explosion_run_spec(k: EntityKind, d: EntityData) -> (Entity, bool)
    recommends
        k is Explosion,
{
    let tl1 = k->Explosion_time_left - 1;
    (Entity {
        kind: EntityKind::Explosion { time_left: tl1 as i32 },
        data: EntityData { frame: (8 - div_t(tl1, 4)) as i32, ..d },
    }, tl1 == 0)
}

/// The first lock in the snapshot within pickup range of `pos`, if any.
pub open spec fn find_lock_from(snapshot: Seq<Option<Entity>>, pos: Vec2, i: int) -> Option<int>
    decreases snapshot.len() - i,
    when 0 <= i <= snapshot.len()
{
    if i >= snapshot.len() {
        None
    } else {
        match snapshot[i] {
            Option::Some(e) => if e.kind is Lock && lock_in_range(e.data.pos, pos) {
                Some(i)
            } else {
                find_lock_from(snapshot, pos, i + 1)
            },
            Option::None => find_lock_from(snapshot, pos, i + 1),
        }
    }
}

/// Is a lock at `lp` within unlock range of a key at `kp`? The test is an
/// axis-aligned box over the pixel distance.
pub open spec fn lock_in_range(lp: Vec2, kp: Vec2) -> bool {
    let dx = div_t(wsub(lp.x, kp.x) as int, 256);
    let dy = div_t(wsub(lp.y, kp.y) as int, 256);
    (if dx >= 0 { dx } else { -dx }) < 32 && (if dy >= 0 { dy } else { -dy }) < 32
}

/// Is the player at `pp` within pickup range of a key at `kp`?
pub open spec fn player_in_range(pp: Vec2, kp: Vec2) -> bool {
    let dx = div_t(wsub(pp.x, kp.x) as int, 256);
    let dy = div_t(wsub(pp.y, kp.y) as int, 256);
    (if dx >= 0 { dx } else { -dx }) < 16 && (if dy >= 0 { dy } else { -dy }) < 16
}

/// The exponential-smoothing homing step toward `target_pos`.
pub open spec fn key_home_vel(vel: Vec2, pos: Vec2, target_pos: Vec2) -> Vec2 {
    let tx = div_t(wsub(target_pos.x, pos.x) as int, 8);
    let ty = div_t(wsub(target_pos.y, pos.y) as int, 8);
    Vec2 {
        x: div_t(vel.x * 7 + tx, 8) as i32,
        y: div_t(vel.y * 7 + ty, 8) as i32,
    }
}

/// The key's tick. A roaming key waits for the player to come within
/// pickup range. A picked-up key homes toward the player, pairs itself to
/// the first lock in range, then homes toward the lock while the unlock
/// timer runs; at zero it asks the pool to remove the lock, clears the
/// three vertically stacked tiles at its cell, spawns explosions over
/// them, and removes itself.
#[verifier::opaque]
pub open spec fn key_run_spec(k: EntityKind, d: EntityData, snapshot: Seq<Option<Entity>>, player_pos: Vec2, g: Seq<u8>, sp: Seq<Entity>, rm: Seq<usize>) -> (Entity, bool, Seq<u8>, Seq<Entity>, Seq<usize>)
    recommends
        k is Key,
{
    let picked_up = k->Key_picked_up;
    let unlocking_id = k->Key_unlocking_id;
    let unlock_timer = k->Key_unlock_timer;
    if picked_up {
        let target = match unlocking_id {
            Option::Some(id) => if 0 <= id < snapshot.len() && snapshot[id as int] is Some {
                snapshot[id as int].unwrap().data.pos
            } else {
                player_pos
            },
            Option::None => player_pos,
        };
        let d1 = EntityData { vel: key_home_vel(d.vel, d.pos, target), ..d };
        match unlocking_id {
            Option::Some(id) => {
                let t1 = unlock_timer - 1;
                if t1 == 0 {
                    let tile = Vec2 {
                        x: div_t(div_t(d1.pos.x as int, 256), 16) as i32,
                        y: div_t(div_t(d1.pos.y as int, 256), 16) as i32,
                    };
                    let g1 = crate::foreground::set_block_spec(g, tile.x as int, tile.y as int - 1, 0);
                    let g2 = crate::foreground::set_block_spec(g1, tile.x as int, tile.y as int, 0);
                    let g3 = crate::foreground::set_block_spec(g2, tile.x as int, tile.y as int + 1, 0);
                    let sp3 = sp
                        .push(explosion_spec(Vec2 { x: d1.pos.x, y: wsub(d1.pos.y, 4096) }))
                        .push(explosion_spec(Vec2 { x: d1.pos.x, y: d1.pos.y }))
                        .push(explosion_spec(Vec2 { x: d1.pos.x, y: wadd(d1.pos.y, 4096) }));
                    (Entity { kind: EntityKind::Key { picked_up, unlocking_id, unlock_timer: t1 as i32 }, data: d1 },
                        true, g3, sp3, rm.push(id))
                } else {
                    let d2 = EntityData { pos: Vec2 { x: wadd(d1.pos.x, d1.vel.x), y: wadd(d1.pos.y, d1.vel.y) }, ..d1 };
                    (Entity { kind: EntityKind::Key { picked_up, unlocking_id, unlock_timer: t1 as i32 }, data: d2 },
                        false, g, sp, rm)
                }
            },
            Option::None => {
                let found = find_lock_from(snapshot, d.pos, 0);
                let k1 = match found {
                    Option::Some(idx) => EntityKind::Key { picked_up, unlocking_id: Some(idx as usize), unlock_timer: 60 },
                    Option::None => EntityKind::Key { picked_up, unlocking_id: None, unlock_timer },
                };
                let d2 = EntityData { pos: Vec2 { x: wadd(d1.pos.x, d1.vel.x), y: wadd(d1.pos.y, d1.vel.y) }, ..d1 };
                (Entity { kind: k1, data: d2 }, false, g, sp, rm)
            },
        }
    } else {
        let k1 = if player_in_range(player_pos, d.pos) {
            EntityKind::Key { picked_up: true, unlocking_id, unlock_timer }
        } else {
            k
        };
        let d2 = EntityData { pos: Vec2 { x: wadd(d.pos.x, d.vel.x), y: wadd(d.pos.y, d.vel.y) }, ..d };
        (Entity { kind: k1, data: d2 }, false, g, sp, rm)
    }
}

/// One entity's tick, dispatched on its kind. Locks and signs are inert.
pub open spec fn entity_run_spec(e: Entity, snapshot: Seq<Option<Entity>>, player_pos: Vec2, g: Seq<u8>, sp: Seq<Entity>, rm: Seq<usize>, co: i32) -> (Entity, bool, Seq<u8>, Seq<Entity>, Seq<usize>, i32) {
    match e.kind {
        EntityKind::Star { time_left } => {
            let r = star_run_spec(e.kind, e.data, g, sp, co);
            (r.0, r.1, r.2, r.3, rm, r.4)
        },
        EntityKind::Explosion { time_left } => {
            let r = explosion_run_spec(e.kind, e.data);
            (r.0, r.1, g, sp, rm, co)
        },
        EntityKind::Key { picked_up, unlocking_id, unlock_timer } => {
            let r = key_run_spec(e.kind, e.data, snapshot, player_pos, g, sp, rm);
            (r.0, r.1, r.2, r.3, r.4, co)
        },
        EntityKind::Lock => (e, false, g, sp, rm, co),
        EntityKind::Sign => (e, false, g, sp, rm, co),
    }
}

impl Entity {
    /// Advance this entity by one tick against a snapshot of its
    /// siblings, requesting side effects through `fx`. Returns whether
    /// the entity's slot should be cleared.
    #[verifier::rlimit(100)]
    pub fn run(&mut self, foreground: &mut Foreground, fx: &mut Effects, snapshot: &Vec<Option<Entity>>, player_pos: Vec2) -> (remove: bool)
        requires
            old(foreground).wf(),
        ensures
            final(foreground).wf(),
            entity_wf(*old(self)) ==> ({
                let stepped = entity_run_spec(
                    *old(self), snapshot@, player_pos,
                    old(foreground).blocks@, old(fx).spawns@, old(fx).removals@, old(fx).coins);
                &&& *final(self) == stepped.0
                &&& remove == stepped.1
                &&& final(foreground).blocks@ == stepped.2
                &&& final(fx).spawns@ == stepped.3
                &&& final(fx).removals@ == stepped.4
                &&& final(fx).coins == stepped.5
            }),
    {
        let kind = self.kind;
        match kind {
            EntityKind::Star { time_left } => {
                self.run_star(time_left, foreground, fx)
            },
            EntityKind::Explosion { time_left } => {
                let tl1 = time_left.wrapping_sub(1);
                self.kind = EntityKind::Explosion { time_left: tl1 };
                self.data.frame = 8i32.wrapping_sub(tl1 / 4);
                tl1 == 0
            },
            EntityKind::Key { picked_up, unlocking_id, unlock_timer } => {
                self.run_key(picked_up, unlocking_id, unlock_timer, foreground, fx, snapshot, player_pos)
            },
            EntityKind::Lock => false,
            EntityKind::Sign => false,
        }
    }

    /// The star's tick.
    #[verifier::rlimit(100)]
    #[verifier::spinoff_prover]
    fn run_star(&mut self, time_left: i32, foreground: &mut Foreground, fx: &mut Effects) -> (remove: bool)
        requires
            old(foreground).wf(),
            old(self).kind == (EntityKind::Star { time_left }),
        ensures
            final(foreground).wf(),
            entity_wf(*old(self)) ==> ({
                let stepped = star_run_spec(
                    old(self).kind, old(self).data,
                    old(foreground).blocks@, old(fx).spawns@, old(fx).coins);
                &&& *final(self) == stepped.0
                &&& remove == stepped.1
                &&& final(foreground).blocks@ == stepped.2
                &&& final(fx).spawns@ == stepped.3
                &&& final(fx).coins == stepped.4
                &&& final(fx).removals@ == old(fx).removals@
            }),
    {
        self.data.vel.y = self.data.vel.y.wrapping_add(0x30);
        if time_left > 60 || time_left / 2 % 2 == 0 {
            self.data.frame = 2;
        } else {
            self.data.frame = 255;
        }
        self.data.hitbox = vec2(12, 12);
        self.data.process_collision(foreground, fx);
        if self.data.blocked_left {
            self.data.vel.x = 256;
        }
        if self.data.blocked_right {
            self.data.vel.x = -256;
        }
        if self.data.blocked_down {
            self.data.vel.y = -1280;
        }
        let tl1 = time_left.wrapping_sub(1);
        self.kind = EntityKind::Star { time_left: tl1 };
        if tl1 == 0 {
            fx.spawns.push(explosion(self.data.pos));
        }
        tl1 == 0
    }

    /// The key's tick.
    #[verifier::rlimit(100)]
    #[verifier::spinoff_prover]
    fn run_key(&mut self, picked_up: bool, unlocking_id: Option<usize>, unlock_timer: i32, foreground: &mut Foreground, fx: &mut Effects, snapshot: &Vec<Option<Entity>>, player_pos: Vec2) -> (remove: bool)
        requires
            old(foreground).wf(),
            old(self).kind == (EntityKind::Key { picked_up, unlocking_id, unlock_timer }),
        ensures
            final(foreground).wf(),
            entity_wf(*old(self)) ==> ({
                let stepped = key_run_spec(
                    old(self).kind, old(self).data, snapshot@, player_pos,
                    old(foreground).blocks@, old(fx).spawns@, old(fx).removals@);
                &&& *final(self) == stepped.0
                &&& remove == stepped.1
                &&& final(foreground).blocks@ == stepped.2
                &&& final(fx).spawns@ == stepped.3
                &&& final(fx).removals@ == stepped.4
                &&& final(fx).coins == old(fx).coins
            }),
    {
        reveal(crate::pool::key_run_spec);
        if picked_up {
            let target: Vec2 = match unlocking_id {
                Some(id) => {
                    if id < snapshot.len() {
                        match snapshot[id] {
                            Some(e) => e.data.pos,
                            None => player_pos,
                        }
                    } else {
                        player_pos
                    }
                },
                None => player_pos,
            };
            let tx = target.x.wrapping_sub(self.data.pos.x) / 8;
            let ty = target.y.wrapping_sub(self.data.pos.y) / 8;
            self.data.vel.x = self.data.vel.x.wrapping_mul(7).wrapping_add(tx) / 8;
            self.data.vel.y = self.data.vel.y.wrapping_mul(7).wrapping_add(ty) / 8;
            proof {
                if entity_wf(*old(self)) {
                    assert(self.data.vel == key_home_vel(old(self).data.vel, old(self).data.pos, target));
                }
            }
            match unlocking_id {
                Some(id) => {
                    let t1 = unlock_timer.wrapping_sub(1);
                    self.kind = EntityKind::Key { picked_up, unlocking_id, unlock_timer: t1 };
                    if t1 == 0 {
                        let tile = vec2(self.data.pos.x / 256 / 16, self.data.pos.y / 256 / 16);
                        foreground.set_block(vec2(tile.x, tile.y.wrapping_sub(1)), 0);
                        foreground.set_block(tile, 0);
                        foreground.set_block(vec2(tile.x, tile.y.wrapping_add(1)), 0);
                        fx.spawns.push(explosion(vec2(self.data.pos.x, self.data.pos.y.wrapping_sub(4096))));
                        fx.spawns.push(explosion(self.data.pos));
                        fx.spawns.push(explosion(vec2(self.data.pos.x, self.data.pos.y.wrapping_add(4096))));
                        fx.removals.push(id);
                        return true;
                    }
                },
                None => {
                    let found = self.find_lock(snapshot);
                    match found {
                        Some(idx) => {
                            self.kind = EntityKind::Key { picked_up, unlocking_id: Some(idx), unlock_timer: 60 };
                        },
                        None => {},
                    }
                },
            }
            self.data.pos.x = self.data.pos.x.wrapping_add(self.data.vel.x);
            self.data.pos.y = self.data.pos.y.wrapping_add(self.data.vel.y);
            false
        } else {
            let dx = player_pos.x.wrapping_sub(self.data.pos.x) / 256;
            let dy = player_pos.y.wrapping_sub(self.data.pos.y) / 256;
            let adx = if dx >= 0 { dx } else { 0i32.wrapping_sub(dx) };
            let ady = if dy >= 0 { dy } else { 0i32.wrapping_sub(dy) };
            if adx < 16 && ady < 16 {
                self.kind = EntityKind::Key { picked_up: true, unlocking_id, unlock_timer };
            }
            self.data.pos.x = self.data.pos.x.wrapping_add(self.data.vel.x);
            self.data.pos.y = self.data.pos.y.wrapping_add(self.data.vel.y);
            false
        }
    }

    /// One entity's tick only ever adds fresh reward explosions to the
    /// spawn list.
    pub proof fn lemma_run_spawns(e: Entity, snapshot: Seq<Option<Entity>>, ppos: Vec2, g: Seq<u8>, sp: Seq<Entity>, rm: Seq<usize>, co: i32)
        ensures
            crate::collision::spawned_after(sp, entity_run_spec(e, snapshot, ppos, g, sp, rm, co).3),
    {
        reveal(crate::pool::key_run_spec);
        match e.kind {
            EntityKind::Star { time_left } => {
                let st = process_collision_spec(
                    EntityData {
                        vel: Vec2 { x: e.data.vel.x, y: (e.data.vel.y + 0x30) as i32 },
                        frame: if time_left > 60 || div_t(time_left as int, 2) % 2 == 0 { 2 } else { 255 },
                        hitbox: Vec2 { x: 12, y: 12 },
                        ..e.data
                    }, g, sp, co);
                crate::collision::lemma_collision_spawns(
                    EntityData {
                        vel: Vec2 { x: e.data.vel.x, y: (e.data.vel.y + 0x30) as i32 },
                        frame: if time_left > 60 || div_t(time_left as int, 2) % 2 == 0 { 2 } else { 255 },
                        hitbox: Vec2 { x: 12, y: 12 },
                        ..e.data
                    }, g, sp, co);
                if time_left - 1 == 0 {
                    crate::collision::lemma_spawned_push(st.spawns, star_run_spec(e.kind, e.data, g, sp, co).0.data.pos);
                    crate::collision::lemma_spawned_trans(sp, st.spawns, star_run_spec(e.kind, e.data, g, sp, co).3);
                }
            },
            EntityKind::Key { picked_up, unlocking_id, unlock_timer } => {
                let r = key_run_spec(e.kind, e.data, snapshot, ppos, g, sp, rm);
                if sp != r.3 {
                    let d1pos = r.0.data.pos;
                    let s1 = sp.push(explosion_spec(Vec2 { x: d1pos.x, y: wsub(d1pos.y, 4096) }));
                    let s2 = s1.push(explosion_spec(Vec2 { x: d1pos.x, y: d1pos.y }));
                    crate::collision::lemma_spawned_push(sp, Vec2 { x: d1pos.x, y: wsub(d1pos.y, 4096) });
                    crate::collision::lemma_spawned_push(s1, Vec2 { x: d1pos.x, y: d1pos.y });
                    crate::collision::lemma_spawned_push(s2, Vec2 { x: d1pos.x, y: wadd(d1pos.y, 4096) });
                    crate::collision::lemma_spawned_trans(sp, s1, s2);
                    crate::collision::lemma_spawned_trans(sp, s2, r.3);
                } else {
                    crate::collision::lemma_spawned_refl(sp);
                }
            },
            _ => {
                crate::collision::lemma_spawned_refl(sp);
            },
        }
    }

    /// Scan the snapshot for the first lock within unlock range.
    fn find_lock(&self, snapshot: &Vec<Option<Entity>>) -> (r: Option<usize>)
        ensures
            ({
                match find_lock_from(snapshot@, self.data.pos, 0) {
                    Option::Some(i) => r matches Some(u) && u == i,
                    Option::None => r is None,
                }
            }),
    {
        let mut i: usize = 0;
        while i < snapshot.len()
            invariant
                0 <= i <= snapshot@.len(),
                find_lock_from(snapshot@, self.data.pos, 0)
                    == find_lock_from(snapshot@, self.data.pos, i as int),
            decreases snapshot@.len() - i,
        {
            match &snapshot[i] {
                Some(e) => {
                    if matches!(e.kind, EntityKind::Lock) {
                        let dx = e.data.pos.x.wrapping_sub(self.data.pos.x) / 256;
                        let dy = e.data.pos.y.wrapping_sub(self.data.pos.y) / 256;
                        let adx = if dx >= 0 { dx } else { 0i32.wrapping_sub(dx) };
                        let ady = if dy >= 0 { dy } else { 0i32.wrapping_sub(dy) };
                        if adx < 32 && ady < 32 {
                            return Some(i);
                        }
                    }
                },
                None => {},
            }
            i = i + 1;
        }
        None
    }
}

/// The slots of `l` from index `k` on hold only entities whose tick
/// arithmetic is exact.
pub open spec fn slots_wf_from(l: Seq<Option<Entity>>, k: int) -> bool {
    forall|j: int| 0 <= j < l.len() && k <= j && l[j] is Some ==> entity_wf((#[trigger] l[j]).unwrap())
}

/// Clear the requested slots, in order; an out-of-range request is
/// ignored.
pub open spec fn apply_removals_from(l: Seq<Option<Entity>>, rm: Seq<usize>, j: int) -> Seq<Option<Entity>>
    decreases rm.len() - j,
    when 0 <= j <= rm.len()
{
    if j >= rm.len() {
        l
    } else {
        let l1 = if rm[j] < l.len() { l.update(rm[j] as int, None) } else { l };
        apply_removals_from(l1, rm, j + 1)
    }
}

/// The first free slot at or after `i`.
pub open spec fn first_free_from(l: Seq<Option<Entity>>, i: int) -> Option<int>
    decreases l.len() - i,
    when 0 <= i <= l.len()
{
    if i >= l.len() {
        None
    } else if l[i] is None {
        Some(i)
    } else {
        first_free_from(l, i + 1)
    }
}

/// A found free slot lies in range and is free.
pub proof fn lemma_first_free_range(l: Seq<Option<Entity>>, i: int)
    requires
        0 <= i <= l.len(),
    ensures
        first_free_from(l, i) matches Some(f) ==> i <= f < l.len() && l[f] is None,
    decreases l.len() - i,
{
    if i < l.len() && !(l[i] is None) {
        lemma_first_free_range(l, i + 1);
    }
}

/// Fill the first free slot with `e`; with no free slot the pool is
/// unchanged — the spawn is silently dropped, never an error.
pub open spec fn insert_spawn(l: Seq<Option<Entity>>, e: Entity) -> Seq<Option<Entity>> {
    match first_free_from(l, 0) {
        Option::Some(i) => l.update(i, Some(e)),
        Option::None => l,
    }
}

/// Insert the spawn requests from index `j` on, in order.
pub open spec fn insert_spawns_from(l: Seq<Option<Entity>>, sp: Seq<Entity>, j: int) -> Seq<Option<Entity>>
    decreases sp.len() - j,
    when 0 <= j <= sp.len()
{
    if j >= sp.len() {
        l
    } else {
        insert_spawns_from(insert_spawn(l, sp[j]), sp, j + 1)
    }
}

/// One slot of the pool tick: run the entity against the snapshot with a
/// fresh effect list, apply its removals and spawns, then write it back
/// or clear its slot.
pub open spec fn pool_slot_step(l: Seq<Option<Entity>>, g: Seq<u8>, co: i32, snapshot: Seq<Option<Entity>>, ppos: Vec2, i: int) -> (Seq<Option<Entity>>, Seq<u8>, i32)
    recommends
        0 <= i < l.len(),
{
    match l[i] {
        Option::None => (l, g, co),
        Option::Some(e) => {
            let r = entity_run_spec(e, snapshot, ppos, g, Seq::empty(), Seq::empty(), 0);
            let l1 = apply_removals_from(l, r.4, 0);
            let l2 = insert_spawns_from(l1, r.3, 0);
            let l3 = if r.1 { l2.update(i, None) } else { l2.update(i, Some(r.0)) };
            (l3, r.2, wadd(co, r.5))
        },
    }
}

/// The pool tick over the first `k` slots.
pub open spec fn pool_tick_upto(l0: Seq<Option<Entity>>, g0: Seq<u8>, snapshot: Seq<Option<Entity>>, ppos: Vec2, k: int) -> (Seq<Option<Entity>>, Seq<u8>, i32)
    decreases k,
{
    if k <= 0 {
        (l0, g0, 0)
    } else {
        let p = pool_tick_upto(l0, g0, snapshot, ppos, k - 1);
        pool_slot_step(p.0, p.1, p.2, snapshot, ppos, k - 1)
    }
}

/// One full pool tick: every slot in order against the snapshot taken at
/// the start, then the player, whose spawn requests are inserted last.
pub open spec fn pool_run_spec(l: Seq<Option<Entity>>, player: Player, g: Seq<u8>, buttons: Buttons) -> (Seq<Option<Entity>>, Player, Seq<u8>, i32) {
    let t = pool_tick_upto(l, g, l, player.data.pos, 64);
    let pr = crate::player::player_run_spec(player, buttons, t.1, Seq::empty(), 0);
    (insert_spawns_from(t.0, pr.2, 0), pr.0, pr.1, wadd(t.2, pr.3))
}

/// Every occupied slot holds an entity whose tick arithmetic is exact.
pub open spec fn pool_ok(l: Seq<Option<Entity>>) -> bool {
    slots_wf_from(l, 0)
}

/// Clearing slots keeps the pool's size and well-formedness.
pub proof fn lemma_removals_frame(l: Seq<Option<Entity>>, rm: Seq<usize>, j: int, k: int)
    requires
        0 <= j <= rm.len(),
        0 <= k,
        slots_wf_from(l, k),
    ensures
        apply_removals_from(l, rm, j).len() == l.len(),
        slots_wf_from(apply_removals_from(l, rm, j), k),
    decreases rm.len() - j,
{
    if j < rm.len() {
        let l1 = if rm[j] < l.len() { l.update(rm[j] as int, None) } else { l };
        assert forall|q: int| 0 <= q < l1.len() && k <= q && l1[q] is Some implies entity_wf((#[trigger] l1[q]).unwrap()) by {
            if !(rm[j] < l.len() && q == rm[j]) {
                assert(l1[q] == l[q]);
            }
        }
        lemma_removals_frame(l1, rm, j + 1, k);
    }
}

/// Inserting explosion spawns keeps the pool's size and well-formedness.
pub proof fn lemma_spawns_frame(l: Seq<Option<Entity>>, sp: Seq<Entity>, j: int, k: int)
    requires
        0 <= j <= sp.len(),
        0 <= k,
        slots_wf_from(l, k),
        forall|i: int| 0 <= i < sp.len() ==> (#[trigger] sp[i]).kind == (EntityKind::Explosion { time_left: 16 }),
    ensures
        insert_spawns_from(l, sp, j).len() == l.len(),
        slots_wf_from(insert_spawns_from(l, sp, j), k),
    decreases sp.len() - j,
{
    if j < sp.len() {
        let l1 = insert_spawn(l, sp[j]);
        assert(entity_wf(sp[j]));
        lemma_first_free_range(l, 0);
        assert forall|q: int| 0 <= q < l1.len() && k <= q && l1[q] is Some implies entity_wf((#[trigger] l1[q]).unwrap()) by {
            match first_free_from(l, 0) {
                Option::Some(f) => {
                    if q != f {
                        assert(l1[q] == l[q]);
                    }
                },
                Option::None => {
                    assert(l1[q] == l[q]);
                },
            }
        }
        assert(l1.len() == l.len());
        lemma_spawns_frame(l1, sp, j + 1, k);
    }
}

/// The entity pool: 64 slots of optional entities plus the player.
pub struct EntitySet {
    pub list: Vec<Option<Entity>>,
    pub player: Player,
}

impl EntitySet {
    /// The pool always has exactly 64 slots.
    pub open spec fn wf(&self) -> bool {
        self.list@.len() == 64
    }

    /// An empty pool with a fresh player.
    pub fn new() -> (r: EntitySet)
        ensures
            r.wf(),
            forall|i: int| 0 <= i < 64 ==> r.list@[i] is None,
            r.player == crate::player::player_init(),
            player_wf(r.player),
    {
        let mut list: Vec<Option<Entity>> = Vec::new();
        let mut i: usize = 0;
        while i < 64
            invariant
                0 <= i <= 64,
                list@.len() == i,
                forall|j: int| 0 <= j < i ==> list@[j] is None,
            decreases 64 - i,
        {
            list.push(None);
            i = i + 1;
        }
        EntitySet { list, player: Player::new() }
    }

    /// Fill the first free slot with `entity`. With all slots occupied
    /// the spawn is dropped silently: the pool is unchanged, and there is
    /// no error and no panic.
    pub fn spawn(&mut self, entity: Entity)
        ensures
            final(self).list@ == insert_spawn(old(self).list@, entity),
            final(self).list@.len() == old(self).list@.len(),
            final(self).player == old(self).player,
    {
        proof {
            lemma_first_free_range(old(self).list@, 0);
        }
        let mut i: usize = 0;
        while i < self.list.len()
            invariant
                0 <= i <= self.list@.len(),
                self.list@ == old(self).list@,
                self.player == old(self).player,
                first_free_from(self.list@, 0) == first_free_from(self.list@, i as int),
            decreases self.list@.len() - i,
        {
            if self.list[i].is_none() {
                self.list.set(i, Some(entity));
                return;
            }
            i = i + 1;
        }
    }

    /// Clear the slots an entity's turn asked to remove, in order.
    fn apply_removals(&mut self, rm: &Vec<usize>)
        ensures
            final(self).list@ == apply_removals_from(old(self).list@, rm@, 0),
            final(self).list@.len() == old(self).list@.len(),
            final(self).player == old(self).player,
    {
        let mut j: usize = 0;
        while j < rm.len()
            invariant
                0 <= j <= rm@.len(),
                self.player == old(self).player,
                self.list@.len() == old(self).list@.len(),
                apply_removals_from(old(self).list@, rm@, 0)
                    == apply_removals_from(self.list@, rm@, j as int),
            decreases rm@.len() - j,
        {
            let r = rm[j];
            if r < self.list.len() {
                self.list.set(r, None);
            }
            j = j + 1;
        }
    }

    /// Insert the entities an entity's turn asked to spawn, in order.
    fn apply_spawns(&mut self, sp: &Vec<Entity>)
        ensures
            final(self).list@ == insert_spawns_from(old(self).list@, sp@, 0),
            final(self).list@.len() == old(self).list@.len(),
            final(self).player == old(self).player,
    {
        let mut j: usize = 0;
        while j < sp.len()
            invariant
                0 <= j <= sp@.len(),
                self.player == old(self).player,
                self.list@.len() == old(self).list@.len(),
                insert_spawns_from(old(self).list@, sp@, 0)
                    == insert_spawns_from(self.list@, sp@, j as int),
            decreases sp@.len() - j,
        {
            self.spawn(sp[j]);
            j = j + 1;
        }
    }

    /// One pool tick: advance every occupied slot in order against a
    /// snapshot of siblings taken now, applying each turn's effects right
    /// after it, then the player's turn. Returns the coins collected this
    /// tick.
    #[verifier::rlimit(100)]
    #[verifier::spinoff_prover]
    pub fn run(&mut self, foreground: &mut Foreground, buttons: Buttons) -> (coins: i32)
        requires
            old(self).wf(),
            old(foreground).wf(),
        ensures
            final(self).wf(),
            final(foreground).wf(),
            (pool_ok(old(self).list@) && player_wf(old(self).player)) ==> ({
                let t = pool_run_spec(old(self).list@, old(self).player, old(foreground).blocks@, buttons);
                &&& final(self).list@ == t.0
                &&& final(self).player == t.1
                &&& final(foreground).blocks@ == t.2
                &&& coins == t.3
            }),
    {
        let mut snapshot: Vec<Option<Entity>> = Vec::new();
        let mut i: usize = 0;
        while i < self.list.len()
            invariant
                0 <= i <= self.list@.len(),
                *self == *old(self),
                snapshot@ == old(self).list@.take(i as int),
            decreases self.list@.len() - i,
        {
            snapshot.push(self.list[i]);
            proof {
                assert(old(self).list@.take(i as int).push(old(self).list@[i as int])
                    =~= old(self).list@.take(i as int + 1));
            }
            i = i + 1;
        }
        proof {
            assert(snapshot@ =~= old(self).list@);
        }
        let ppos = self.player.pos();
        let mut coins: i32 = 0;
        let mut k: usize = 0;
        while k < 64
            invariant
                self.wf(),
                foreground.wf(),
                0 <= k <= 64,
                self.player == old(self).player,
                snapshot@ == old(self).list@,
                ppos == old(self).player.data.pos,
                (pool_ok(old(self).list@) && player_wf(old(self).player)) ==> ({
                    let t = pool_tick_upto(old(self).list@, old(foreground).blocks@, old(self).list@, old(self).player.data.pos, k as int);
                    &&& self.list@ == t.0
                    &&& foreground.blocks@ == t.1
                    &&& coins == t.2
                    &&& slots_wf_from(self.list@, k as int)
                }),
            decreases 64 - k,
        {
            let slot = self.list[k];
            match slot {
                None => {},
                Some(e_in) => {
                    let mut e = e_in;
                    let mut fx = Effects::new();
                    proof {
                        assert(fx.spawns@ =~= Seq::<Entity>::empty());
                        assert(fx.removals@ =~= Seq::<usize>::empty());
                    }
                    let remove = e.run(foreground, &mut fx, &snapshot, ppos);
                    self.apply_removals(&fx.removals);
                    self.apply_spawns(&fx.spawns);
                    coins = coins.wrapping_add(fx.coins);
                    if remove {
                        self.list.set(k, None);
                    } else {
                        self.list.set(k, Some(e));
                    }
                    proof {
                        if pool_ok(old(self).list@) && player_wf(old(self).player) {
                            let t = pool_tick_upto(old(self).list@, old(foreground).blocks@, old(self).list@, old(self).player.data.pos, k as int);
                            let r = entity_run_spec(e_in, snapshot@, ppos, t.1, Seq::empty(), Seq::empty(), 0);
                            Entity::lemma_run_spawns(e_in, snapshot@, ppos, t.1, Seq::empty(), Seq::empty(), 0);
                            lemma_removals_frame(t.0, r.4, 0, k as int + 1);
                            lemma_spawns_frame(apply_removals_from(t.0, r.4, 0), r.3, 0, k as int + 1);
                            let l3 = insert_spawns_from(apply_removals_from(t.0, r.4, 0), r.3, 0);
                            assert(slots_wf_from(l3, k as int + 1));
                            assert forall|q: int| 0 <= q < self.list@.len() && k as int + 1 <= q && self.list@[q] is Some
                                implies entity_wf((#[trigger] self.list@[q]).unwrap()) by {
                                assert(self.list@[q] == l3[q]);
                            }
                            let tn = pool_tick_upto(old(self).list@, old(foreground).blocks@, old(self).list@, old(self).player.data.pos, k as int + 1);
                            assert(tn == pool_slot_step(t.0, t.1, t.2, old(self).list@, old(self).player.data.pos, k as int));
                            assert(self.list@ == tn.0);
                            assert(foreground.blocks@ == tn.1);
                            assert(coins == tn.2);
                        }
                    }
                },
            }
            k = k + 1;
        }
        let mut fx = Effects::new();
        proof {
            assert(fx.spawns@ =~= Seq::<Entity>::empty());
            assert(fx.removals@ =~= Seq::<usize>::empty());
        }
        self.player.run(foreground, &mut fx, buttons);
        self.apply_spawns(&fx.spawns);
        coins = coins.wrapping_add(fx.coins);
        coins
    }
}

} // verus!
