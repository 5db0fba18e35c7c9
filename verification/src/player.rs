//! The player's state machine: jumping, horizontal acceleration with the
//! speed-boost charge meter, run animation, and one collision resolution
//! per tick.
use vstd::prelude::*;

use crate::collision::{ent_wf, process_collision_spec};
use crate::controller::{Buttons, BTN_A, BTN_C, BTN_LEFT, BTN_RIGHT};
use crate::entity::{Effects, EntityData};
use crate::foreground::Foreground;
use crate::vec2::{div_t, vec2, Vec2};

verus! {

/// The player: its physics state plus movement tuning state.
pub struct Player {
    pub data: EntityData,
    pub anim_timer: i32,
    pub coyote_time: i32,
    pub p_meter: i32,
    pub p_speed: bool,
    pub angle: i32,
    pub debug_enabled: bool,
}

/// Player state under which one tick's arithmetic stays exact: physics
/// state in the resolver's exact range, the charge meter within its
/// clamped range, and the animation accumulator within one overflow step
/// of its wrap point.
pub open spec fn player_wf(p: Player) -> bool {
    &&& ent_wf(p.data)
    &&& -0x300 <= p.data.vel.x <= 0x300
    &&& 0 <= p.p_meter <= 0x70
    &&& 0 <= p.anim_timer <= 0xE00
    &&& 0 <= p.data.frame <= 2
}

/// The player's input response before collision resolution: gravity or a
/// jump impulse, horizontal acceleration, deceleration and friction with
/// the charge meter, and the run animation.
pub open spec fn player_vert(p: Player, b: Buttons) -> Player {
    let p = Player { debug_enabled: p.debug_enabled != ((b.current & !b.old) & BTN_C != 0u32), ..p };
    let d = p.data;
    if !d.on_ground {
        let vy = if b.current & BTN_A != 0u32 { d.vel.y + 0x30 } else { d.vel.y + 0x60 };
        let vy = if vy < 1024 { vy } else { 1024int };
        Player {
            data: EntityData { vel: Vec2 { x: d.vel.x, y: vy as i32 }, ..d },
            angle: 0,
            ..p
        }
    } else if (b.current & !b.old) & BTN_A != 0u32 {
        let lift = 0x500 + jump_boost(if d.vel.x >= 0 { d.vel.x as int } else { -d.vel.x }) * 0x10;
        Player {
            data: EntityData {
                vel: Vec2 { x: d.vel.x, y: (-lift + 0x30) as i32 },
                on_ground: false,
                ..d
            },
            coyote_time: 0,
            ..p
        }
    } else if d.vel.y >= 0 {
        Player { data: EntityData { vel: Vec2 { x: d.vel.x, y: 0 }, ..d }, ..p }
    } else {
        Player { data: EntityData { on_ground: false, ..d }, ..p }
    }
}

/// Horizontal acceleration, deceleration and friction, charging the
/// meter while running at full speed.
pub open spec fn player_accel(p1: Player, b: Buttons) -> Player {
    let max_speed = if p1.p_meter == 0x70 { 0x300int } else { 0x240int };
    let d1 = p1.data;
    if b.current & BTN_LEFT != 0u32 {
        if d1.vel.x >= 0 {
            let vx = if d1.vel.x - 0x50 > -max_speed { d1.vel.x - 0x50 } else { -max_speed };
            Player { data: EntityData { hflip: true, vel: Vec2 { x: vx as i32, y: d1.vel.y }, ..d1 }, ..p1 }
        } else {
            let vx = if d1.vel.x - 0x18 > -max_speed { d1.vel.x - 0x18 } else { -max_speed };
            let charge = vx <= -0x240 && (d1.on_ground || p1.p_speed);
            Player {
                data: EntityData { hflip: true, vel: Vec2 { x: vx as i32, y: d1.vel.y }, ..d1 },
                p_meter: if charge { (p1.p_meter + 3) as i32 } else { p1.p_meter },
                ..p1
            }
        }
    } else if b.current & BTN_RIGHT != 0u32 {
        if d1.vel.x > 0 {
            let vx = if d1.vel.x + 0x18 < max_speed { d1.vel.x + 0x18 } else { max_speed };
            let charge = vx >= 0x240 && (d1.on_ground || p1.p_speed);
            Player {
                data: EntityData { hflip: false, vel: Vec2 { x: vx as i32, y: d1.vel.y }, ..d1 },
                p_meter: if charge { (p1.p_meter + 3) as i32 } else { p1.p_meter },
                ..p1
            }
        } else {
            let vx = if d1.vel.x + 0x50 < max_speed { d1.vel.x + 0x50 } else { max_speed };
            Player { data: EntityData { hflip: false, vel: Vec2 { x: vx as i32, y: d1.vel.y }, ..d1 }, ..p1 }
        }
    } else if d1.on_ground {
        let vx = if d1.vel.x > 0 {
            if d1.vel.x - 0x10 < 0 { 0int } else { d1.vel.x - 0x10 }
        } else {
            if d1.vel.x + 0x10 > 0 { 0int } else { d1.vel.x + 0x10 }
        };
        Player {
            data: EntityData { vel: Vec2 { x: vx as i32, y: d1.vel.y }, ..d1 },
            p_speed: false,
            ..p1
        }
    } else {
        p1
    }
}

/// Decay and clamp the charge meter; a full charge grants the boost.
pub open spec fn player_meter(p2: Player) -> Player {
    let m1 = p2.p_meter - 1;
    if m1 > 0x70 {
        Player { p_speed: true, p_meter: 0x70, ..p2 }
    } else if m1 < 0 {
        Player { p_meter: 0, ..p2 }
    } else {
        Player { p_meter: m1 as i32, ..p2 }
    }
}

/// Cycle the run frames by accumulated horizontal distance.
pub open spec fn player_anim(p3: Player) -> Player {
    let d3 = p3.data;
    if d3.on_ground {
        let t1 = p3.anim_timer + (if d3.vel.x >= 0 { d3.vel.x as int } else { -d3.vel.x });
        let (t2, f2) = if t1 > 0xA00 { (t1 - 0xA00, ((d3.frame + 1) % 3) as int) } else { (t1, d3.frame as int) };
        if d3.vel.x == 0 {
            Player { anim_timer: 0x9FF, data: EntityData { frame: 0, ..d3 }, ..p3 }
        } else {
            Player { anim_timer: t2 as i32, data: EntityData { frame: f2 as i32, ..d3 }, ..p3 }
        }
    } else {
        Player { data: EntityData { frame: 1, ..d3 }, ..p3 }
    }
}

/// The player's input response before collision resolution: gravity or a
/// jump impulse, then horizontal acceleration with the charge meter, the
/// meter decay, and the run animation.
pub open spec fn player_pre_spec(p: Player, b: Buttons) -> Player {
    player_anim(player_meter(player_accel(player_vert(p, b), b)))
}

/// Bounds under which each stage's arithmetic stays exact; slightly wider
/// than `player_wf` because the meter may sit above its clamp between the
/// acceleration and decay stages.
pub open spec fn stage_ok(p: Player) -> bool {
    &&& ent_wf(p.data)
    &&& -0x300 <= p.data.vel.x <= 0x300
    &&& -0x1000 <= p.p_meter <= 0x1000
    &&& 0 <= p.anim_timer <= 0xE00
    &&& 0 <= p.data.frame <= 2
}

/// Each stage of the input response keeps the state within the stage
/// bounds.
#[verifier::rlimit(100)]
pub proof fn lemma_stages_ok(p: Player, b: Buttons)
    requires
        player_wf(p),
    ensures
        stage_ok(player_vert(p, b)),
        stage_ok(player_accel(player_vert(p, b), b)),
        stage_ok(player_meter(player_accel(player_vert(p, b), b))),
        stage_ok(player_pre_spec(p, b)),
{
    let ax = if p.data.vel.x >= 0 { p.data.vel.x as int } else { -p.data.vel.x };
    assert(0 <= ax <= 0x300);
    assert(0 <= ax / 0x80 <= 6) by (nonlinear_arith)
        requires 0 <= ax <= 0x300;
    let q = ax / 0x80;
    assert(0 <= q * 10 / 4 <= 15) by (nonlinear_arith)
        requires 0 <= q <= 6;
}

/// The jump-impulse table, indexed by horizontal speed magnitude in
/// half-tile steps: faster runs jump higher.
pub open spec fn jump_boost(ax: int) -> int {
    (ax / 0x80) * 10 / 4
}

/// One full player tick: the input response, one collision resolution,
/// and the boost cancel on hitting a wall.
pub open spec fn player_run_spec(p: Player, b: Buttons, g: Seq<u8>, sp: Seq<crate::entity::Entity>, co: i32) -> (Player, Seq<u8>, Seq<crate::entity::Entity>, i32) {
    let p1 = player_pre_spec(p, b);
    let st = process_collision_spec(p1.data, g, sp, co);
    let hit_wall = st.ent.blocked_left || st.ent.blocked_right;
    (Player {
        data: st.ent,
        p_speed: if hit_wall { false } else { p1.p_speed },
        ..p1
    }, st.grid, st.spawns, st.coins)
}

/// The fresh player: at the origin, grounded, at rest, with the player's
/// hitbox and every timer and flag cleared.
pub open spec fn player_init() -> Player {
    Player {
        data: EntityData {
            pos: Vec2 { x: 0, y: 0 },
            vel: Vec2 { x: 0, y: 0 },
            hitbox: Vec2 { x: 10, y: 24 },
            blocked_up: false,
            blocked_down: false,
            blocked_left: false,
            blocked_right: false,
            on_ground: true,
            hflip: false,
            frame: 0,
            angle: 0,
        },
        anim_timer: 0,
        coyote_time: 4,
        p_meter: 0,
        p_speed: false,
        angle: 0,
        debug_enabled: false,
    }
}

impl Player {
    pub fn new() -> (r: Player)
        ensures
            r == player_init(),
            player_wf(r),
    {
        let mut data = EntityData::new();
        data.hitbox = vec2(10, 24);
        Player {
            data,
            anim_timer: 0,
            coyote_time: 4,
            p_meter: 0,
            p_speed: false,
            angle: 0,
            debug_enabled: false,
        }
    }

    /// The player's position, fixed-point.
    pub fn pos(&self) -> (r: Vec2)
        ensures
            r == self.data.pos,
    {
        self.data.pos
    }

    pub fn set_pos(&mut self, pos: Vec2)
        ensures
            *final(self) == (Player { data: EntityData { pos, ..old(self).data }, ..*old(self) }),
    {
        self.data.pos = pos;
    }

    /// The vertical input response: gravity or a jump impulse.
    #[verifier::rlimit(100)]
    fn vert_step(&mut self, buttons: Buttons)
        ensures
            stage_ok(*old(self)) ==> *final(self) == player_vert(*old(self), buttons),
    {
        if buttons.c_edge() {
            self.debug_enabled = !self.debug_enabled;
        }
        if !self.data.on_ground {
            if buttons.a() {
                self.data.vel.y = self.data.vel.y.wrapping_add(0x30);
            } else {
                self.data.vel.y = self.data.vel.y.wrapping_add(0x60);
            }
            if self.data.vel.y >= 1024 {
                self.data.vel.y = 1024;
            }
            self.angle = 0;
        } else {
            if buttons.a_edge() {
                let ax: i32 = if self.data.vel.x >= 0 {
                    self.data.vel.x
                } else {
                    0i32.wrapping_sub(self.data.vel.x)
                };
                let lift: i32 = 0x500i32.wrapping_add((ax / 0x80).wrapping_mul(10) / 4 * 0x10);
                self.data.vel.y = 0i32.wrapping_sub(lift).wrapping_add(0x30);
                self.data.on_ground = false;
                self.coyote_time = 0;
            } else {
                if self.data.vel.y >= 0 {
                    self.data.vel.y = 0;
                } else {
                    self.data.on_ground = false;
                }
            }
        }
    }

    /// The horizontal input response: acceleration, deceleration and
    /// friction, charging the meter while running at full speed.
    #[verifier::rlimit(100)]
    fn accel_step(&mut self, buttons: Buttons)
        ensures
            stage_ok(*old(self)) ==> *final(self) == player_accel(*old(self), buttons),
    {
        let max_speed: i32 = if self.p_meter == 0x70 { 0x300 } else { 0x240 };
        if buttons.left() {
            self.data.hflip = true;
            if self.data.vel.x >= 0 {
                let vx = self.data.vel.x.wrapping_sub(0x50);
                self.data.vel.x = if vx > 0i32.wrapping_sub(max_speed) { vx } else { 0i32.wrapping_sub(max_speed) };
            } else {
                let vx = self.data.vel.x.wrapping_sub(0x18);
                self.data.vel.x = if vx > 0i32.wrapping_sub(max_speed) { vx } else { 0i32.wrapping_sub(max_speed) };
                if self.data.vel.x <= -0x240 && (self.data.on_ground || self.p_speed) {
                    self.p_meter = self.p_meter.wrapping_add(3);
                }
            }
        } else if buttons.right() {
            if self.data.vel.x > 0 {
                self.data.hflip = false;
                let vx = self.data.vel.x.wrapping_add(0x18);
                self.data.vel.x = if vx < max_speed { vx } else { max_speed };
                if self.data.vel.x >= 0x240 && (self.data.on_ground || self.p_speed) {
                    self.p_meter = self.p_meter.wrapping_add(3);
                }
            } else {
                self.data.hflip = false;
                let vx = self.data.vel.x.wrapping_add(0x50);
                self.data.vel.x = if vx < max_speed { vx } else { max_speed };
            }
        } else if self.data.on_ground {
            self.p_speed = false;
            if self.data.vel.x > 0 {
                let vx = self.data.vel.x.wrapping_sub(0x10);
                self.data.vel.x = if vx < 0 { 0 } else { vx };
            } else {
                let vx = self.data.vel.x.wrapping_add(0x10);
                self.data.vel.x = if vx > 0 { 0 } else { vx };
            }
        }
    }

    /// Decay and clamp the charge meter.
    fn meter_step(&mut self)
        ensures
            stage_ok(*old(self)) ==> *final(self) == player_meter(*old(self)),
    {
        self.p_meter = self.p_meter.wrapping_sub(1);
        if self.p_meter > 0x70 {
            self.p_speed = true;
            self.p_meter = 0x70;
        }
        if self.p_meter < 0 {
            self.p_meter = 0;
        }
    }

    /// Cycle the run frames by accumulated horizontal distance.
    #[verifier::rlimit(100)]
    fn anim_step(&mut self)
        ensures
            stage_ok(*old(self)) ==> *final(self) == player_anim(*old(self)),
    {
        if self.data.on_ground {
            let ax: i32 = if self.data.vel.x >= 0 {
                self.data.vel.x
            } else {
                0i32.wrapping_sub(self.data.vel.x)
            };
            self.anim_timer = self.anim_timer.wrapping_add(ax);
            if self.anim_timer > 0xA00 {
                self.anim_timer = self.anim_timer.wrapping_sub(0xA00);
                self.data.frame = self.data.frame.wrapping_add(1) % 3;
            }
            if self.data.vel.x == 0 {
                self.anim_timer = 0x9FF;
                self.data.frame = 0;
            }
        } else {
            self.data.frame = 1;
        }
    }

    /// One player tick: respond to the input snapshot, resolve collision,
    /// and cancel the speed boost on hitting a wall.
    pub fn run(&mut self, foreground: &mut Foreground, fx: &mut Effects, buttons: Buttons)
        requires
            old(foreground).wf(),
        ensures
            final(foreground).wf(),
            player_wf(*old(self)) ==> ({
                let stepped = player_run_spec(*old(self), buttons, old(foreground).blocks@, old(fx).spawns@, old(fx).coins);
                &&& *final(self) == stepped.0
                &&& final(foreground).blocks@ == stepped.1
                &&& final(fx).spawns@ == stepped.2
                &&& final(fx).coins == stepped.3
                &&& final(fx).removals@ == old(fx).removals@
            }),
    {
        proof {
            if player_wf(*old(self)) {
                lemma_stages_ok(*old(self), buttons);
            }
        }
        self.vert_step(buttons);
        self.accel_step(buttons);
        self.meter_step();
        self.anim_step();
        self.data.process_collision(foreground, fx);
        if self.data.blocked_left || self.data.blocked_right {
            self.p_speed = false;
        }
    }
}

} // verus!
