//! The collision and sensor resolver.
//!
//! An entity's motion is resolved one axis at a time by probing sensor
//! points against the tile grid: three points on the leading edge for the
//! horizontal pass, two for the vertical pass. Each probe classifies the
//! tile it lands in and may propose a clamped position; the proposals are
//! combined so that the nearest obstacle wins, never the first-evaluated
//! probe. Out-of-range probes saturate to the grid edges.
use vstd::prelude::*;

use crate::entity::{explosion, explosion_spec, Effects, Entity, EntityData, EntityKind};
use crate::foreground::{block_at_spec, clamp255, solidity_of, Foreground, Solidity};
use crate::terrain::{cell, grid_wf};
use crate::vec2::{div_t, vec2, Vec2};

verus! {

/// Entity state under which the resolver's fixed-point arithmetic stays
/// exact: positions well inside the 32-bit range, velocities bounded,
/// hitbox half-extents at most a few tiles, and a valid slope class.
pub open spec fn ent_wf(d: EntityData) -> bool {
    &&& -0x4000000 <= d.pos.x <= 0x4000000
    &&& -0x4000000 <= d.pos.y <= 0x4000000
    &&& -0x100000 <= d.vel.x <= 0x100000
    &&& -0x100000 <= d.vel.y <= 0x100000
    &&& 0 <= d.hitbox.x <= 256
    &&& 0 <= d.hitbox.y <= 256
    &&& -2 <= d.angle <= 2
}

/// Hitbox half-extents small enough to keep the clamp offsets exact.
pub open spec fn hb_ok(d: EntityData) -> bool {
    0 <= d.hitbox.x <= 256 && 0 <= d.hitbox.y <= 256
}

/// Sensor locations this far inside the 32-bit range keep every clamp
/// formula exact.
pub open spec fn loc_ok(lx: int, ly: int) -> bool {
    -0x400000 <= lx <= 0x400000 && -0x400000 <= ly <= 0x400000
}

/// The state a sensor probe may change: the probing entity, the grid
/// (a touched collectible clears its cell), and the side effects
/// (a cleared collectible spawns a reward and counts a coin).
pub struct ProbeState {
    pub ent: EntityData,
    pub grid: Seq<u8>,
    pub spawns: Seq<Entity>,
    pub coins: i32,
}

/// Clamp a pixel coordinate into the grid's 4096-pixel extent.
pub open spec fn clamp_pix(v: int) -> int {
    if v < 0 { 0 } else if v > 4095 { 4095 } else { v }
}

/// The tile column or row a pixel coordinate probes, saturating to the
/// grid edge.
pub open spec fn tile_of(v: int) -> int {
    clamp255(div_t(v, 16))
}

/// The pixel offset within the probed tile.
pub open spec fn inside_of(v: int) -> int {
    clamp_pix(v) % 16
}

/// The solidity a probe at pixel location `(lx, ly)` sees.
pub open spec fn probe_sol(g: Seq<u8>, lx: int, ly: int) -> Solidity {
    solidity_of(block_at_spec(g, div_t(lx, 16), div_t(ly, 16)))
}

/// One probe of the grid at `(lx, ly)`: classify the tile; touching a
/// collectible clears its cell, spawns a reward explosion at its center
/// and counts a coin.
#[verifier::opaque]
pub open spec fn collide_spec(st: ProbeState, lx: int, ly: int) -> (ProbeState, Solidity) {
    let sol = probe_sol(st.grid, lx, ly);
    if sol is Coin {
        let ex = Vec2 {
            x: ((div_t(lx, 16) * 16 + 8) * 256) as i32,
            y: ((div_t(ly, 16) * 16 + 14) * 256) as i32,
        };
        (ProbeState {
            ent: st.ent,
            grid: st.grid.update(cell(tile_of(lx), tile_of(ly)), 0u8),
            spawns: st.spawns.push(explosion_spec(ex)),
            coins: vstd::wrapping::i32_specs::wrapping_add(st.coins, 1),
        }, sol)
    } else {
        (st, sol)
    }
}

/// What a downward probe at `(lx, ly)` resolves to, given the probing
/// entity's state after `collide_spec`: possibly a new slope class or an
/// upward knockback, and possibly a clamped vertical position.
///
/// The policy, per solidity: solid and eject-up tiles always block at the
/// tile's top; a semisolid blocks only when the entity is already at or
/// above the surface; a hurt-top blocks like solid, imparts the upward
/// knockback impulse and resets the slope class to neutral; a slab blocks
/// only in the lower half of its tile; each slope family blocks only for
/// the sensor whose handedness matches the slope's direction, at a height
/// that is a linear function of the horizontal offset within the tile, and
/// sets the slope class used by the grounded shear term.
#[verifier::opaque]
pub open spec fn sensor_down_core(d: EntityData, sol: Solidity, lx: int, ly: int, sid: int) -> (EntityData, Option<i32>) {
    let block_y = tile_of(ly) * 4096;
    let inx = inside_of(lx);
    let iny = inside_of(ly);
    match sol {
        Solidity::Solid => (EntityData { angle: 0, ..d }, Some((block_y - 256) as i32)),
        Solidity::EjectUp => (EntityData { angle: 0, ..d }, Some((block_y - 256) as i32)),
        Solidity::Semisolid => if d.pos.y <= block_y {
            (EntityData { angle: 0, ..d }, Some((block_y - 256) as i32))
        } else {
            (d, None)
        },
        Solidity::HurtTop => (
            EntityData { angle: 0, vel: Vec2 { x: d.vel.x, y: (-2048int) as i32 }, ..d },
            Some((block_y - 256) as i32),
        ),
        Solidity::Slab => if iny > 7 {
            (d, Some((block_y + 7 * 256) as i32))
        } else {
            (d, None)
        },
        Solidity::SlopeAssist { direction, steep } => (
            EntityData { angle: ((if direction { 1int } else { -1int }) * (if steep { 2int } else { 1int })) as i32, ..d },
            Some((block_y - 2 * 256) as i32),
        ),
        Solidity::SlopeSteep(v) => if v != (sid != 0) {
            if v {
                if iny >= inx - 1 || (d.on_ground && d.vel.y >= 0) {
                    (EntityData { angle: 2, ..d }, Some((block_y + (inx - 1) * 256) as i32))
                } else {
                    (d, None)
                }
            } else {
                if iny >= 15 - inx || (d.on_ground && d.vel.y >= 0) {
                    (EntityData { angle: (-2int) as i32, ..d }, Some((block_y + (15 - inx) * 256) as i32))
                } else {
                    (d, None)
                }
            }
        } else {
            (d, None)
        },
        Solidity::SlopeLow(v) => if v != (sid != 0) {
            if v {
                if iny >= inx / 2 + 7 || (d.on_ground && d.vel.y >= 0) {
                    (EntityData { angle: 1, ..d }, Some((block_y + (inx / 2 + 7) * 256) as i32))
                } else {
                    (d, None)
                }
            } else {
                if iny >= 14 - inx / 2 || (d.on_ground && d.vel.y >= 0) {
                    (EntityData { angle: (-1int) as i32, ..d }, Some((block_y + (14 - inx / 2) * 256) as i32))
                } else {
                    (d, None)
                }
            }
        } else {
            (d, None)
        },
        Solidity::SlopeHigh(v) => if v != (sid != 0) {
            if v {
                if iny >= inx / 2 - 1 || (d.on_ground && d.vel.y >= 0) {
                    (EntityData { angle: 1, ..d }, Some((block_y + (inx / 2 - 1) * 256) as i32))
                } else {
                    (d, None)
                }
            } else {
                if iny >= 6 - inx / 2 || (d.on_ground && d.vel.y >= 0) {
                    (EntityData { angle: (-1int) as i32, ..d }, Some((block_y + (6 - inx / 2) * 256) as i32))
                } else {
                    (d, None)
                }
            }
        } else {
            (d, None)
        },
        _ => (d, None),
    }
}

/// Relates the clamped pixel coordinate to the probed tile and the
/// offset within it.
pub proof fn lemma_clamp_div(v: int)
    ensures
        clamp_pix(v) / 16 == tile_of(v),
        0 <= clamp_pix(v) <= 4095,
        0 <= clamp_pix(v) % 16 <= 15,
        clamp_pix(v) % 16 == inside_of(v),
{
    if v < 0 {
        assert((-v) / 16 >= 0);
        assert(clamp_pix(v) == 0);
    } else if v > 4095 {
        assert(div_t(v, 16) == v / 16);
        assert(v / 16 >= 256) by (nonlinear_arith)
            requires v > 4095;
        assert(clamp_pix(v) == 4095);
        assert(4095int / 16 == 255);
    } else {
        assert(div_t(v, 16) == v / 16);
        assert(0 <= v / 16 <= 255) by (nonlinear_arith)
            requires 0 <= v <= 4095;
    }
}

/// One downward sensor probe: probe the grid, then resolve.
#[verifier::opaque]
pub open spec fn sensor_down_spec(st: ProbeState, lx: int, ly: int, sid: int) -> (ProbeState, Option<i32>) {
    let (st1, sol) = collide_spec(st, lx, ly);
    let (d2, r) = sensor_down_core(st1.ent, sol, lx, ly, sid);
    (ProbeState { ent: d2, ..st1 }, r)
}

/// What an upward probe resolves to: solid and slab tiles block at the
/// tile's bottom, offset by the probing entity's hitbox height.
#[verifier::opaque]
pub open spec fn sensor_up_spec(st: ProbeState, lx: int, ly: int) -> (ProbeState, Option<i32>) {
    let (st1, sol) = collide_spec(st, lx, ly);
    let block_y = tile_of(ly) * 4096;
    match sol {
        Solidity::Solid => (st1, Some((block_y + (16 + st1.ent.hitbox.y) * 256) as i32)),
        Solidity::Slab => (st1, Some((block_y + (16 + st1.ent.hitbox.y) * 256) as i32)),
        _ => (st1, None),
    }
}

/// What a sideways probe resolves to: solid and hurt-top tiles always
/// block, a slab blocks only in the lower half of its tile, and a steep
/// slope facing the probe sets the slope class without blocking. The
/// clamp puts the hitbox edge one sub-pixel outside the blocking tile.
#[verifier::opaque]
pub open spec fn sensor_side_spec(st: ProbeState, lx: int, ly: int, is_right: bool) -> (ProbeState, Option<i32>) {
    let (st1, sol) = collide_spec(st, lx, ly);
    let d = st1.ent;
    let loc = tile_of(lx) * 4096;
    let loc_clamp = if is_right {
        (loc + (-1 - d.hitbox.x / 2) * 256) as i32
    } else {
        (loc + (16 + d.hitbox.x / 2) * 256) as i32
    };
    let iny = inside_of(ly);
    match sol {
        Solidity::Solid => (st1, Some(loc_clamp)),
        Solidity::HurtTop => (st1, Some(loc_clamp)),
        Solidity::Slab => if iny > 7 { (st1, Some(loc_clamp)) } else { (st1, None) },
        Solidity::SlopeSteep(v) => if v != is_right {
            (ProbeState { ent: EntityData { angle: (2int * if v { 1int } else { -1int }) as i32, ..d }, ..st1 }, None)
        } else {
            (st1, None)
        },
        _ => (st1, None),
    }
}

/// Combine two candidate clamp positions so that the nearest obstacle
/// wins: the smaller position when `is_max` is set (the downward pass),
/// the larger otherwise (the sideways passes).
pub open spec fn clamp_opt_spec(l: Option<i32>, r: Option<i32>, is_max: bool) -> Option<i32> {
    match (l, r) {
        (Option::None, Option::None) => None,
        (Option::Some(a), Option::None) => Some(a),
        (Option::None, Option::Some(b)) => Some(b),
        (Option::Some(a), Option::Some(b)) => Some(
            if is_max {
                if a < b { a } else { b }
            } else {
                if a > b { a } else { b }
            },
        ),
    }
}

/// Combine two candidate clamp positions; the nearest obstacle wins.
pub fn clamp_opt(l: Option<i32>, r: Option<i32>, is_max: bool) -> (out: Option<i32>)
    ensures
        out == clamp_opt_spec(l, r, is_max),
{
    match (l, r) {
        (None, None) => None,
        (Some(a), None) => Some(a),
        (None, Some(b)) => Some(b),
        (Some(a), Some(b)) => Some(
            if is_max {
                if a < b { a } else { b }
            } else {
                if a > b { a } else { b }
            },
        ),
    }
}

/// Law: the probe combine is insensitive to evaluation order and returns
/// the numerically nearest clamp — the minimum of the candidates on the
/// downward pass and the maximum on the sideways passes — never simply
/// the first-evaluated probe.
pub proof fn lemma_clamp_opt_nearest(l: Option<i32>, r: Option<i32>, is_max: bool)
    ensures
        clamp_opt_spec(l, r, is_max) == clamp_opt_spec(r, l, is_max),
        (l is Some && r is Some) ==> (
            if is_max {
                clamp_opt_spec(l, r, is_max) == Some(if l.unwrap() < r.unwrap() { l.unwrap() } else { r.unwrap() })
            } else {
                clamp_opt_spec(l, r, is_max) == Some(if l.unwrap() > r.unwrap() { l.unwrap() } else { r.unwrap() })
            }
        ),
        clamp_opt_spec(l, None, is_max) == l,
        clamp_opt_spec(None, r, is_max) == r,
{
}

impl EntityData {
    /// Probe the grid at `sensor_loc`, handling collectible pickup.
    pub fn collide(&mut self, sensor_loc: Vec2, foreground: &mut Foreground, fx: &mut Effects) -> (r: Solidity)
        requires
            old(foreground).wf(),
        ensures
            final(foreground).wf(),
            *final(self) == *old(self),
            r == probe_sol(old(foreground).blocks@, sensor_loc.x as int, sensor_loc.y as int),
            loc_ok(sensor_loc.x as int, sensor_loc.y as int) ==> ({
                let stepped = collide_spec(
                    ProbeState {
                        ent: *old(self),
                        grid: old(foreground).blocks@,
                        spawns: old(fx).spawns@,
                        coins: old(fx).coins,
                    }, sensor_loc.x as int, sensor_loc.y as int);
                &&& final(foreground).blocks@ == stepped.0.grid
                &&& final(fx).spawns@ == stepped.0.spawns
                &&& final(fx).coins == stepped.0.coins
                &&& final(fx).removals@ == old(fx).removals@
            }),
            !(probe_sol(old(foreground).blocks@, sensor_loc.x as int, sensor_loc.y as int) is Coin) ==> ({
                &&& final(foreground).blocks@ == old(foreground).blocks@
                &&& final(fx).spawns@ == old(fx).spawns@
                &&& final(fx).coins == old(fx).coins
                &&& final(fx).removals@ == old(fx).removals@
            }),
    {
        reveal(crate::collision::collide_spec);
        let t = vec2(sensor_loc.x / 16, sensor_loc.y / 16);
        let sensor = foreground.solidity_at(t);
        match sensor {
            Solidity::Coin => {
                let exx: i32 = (sensor_loc.x / 16).wrapping_mul(16).wrapping_add(8).wrapping_mul(256);
                let exy: i32 = (sensor_loc.y / 16).wrapping_mul(16).wrapping_add(14).wrapping_mul(256);
                fx.spawns.push(explosion(vec2(exx, exy)));
                fx.coins = fx.coins.wrapping_add(1);
                foreground.set_block(t, 0);
            },
            _ => {},
        }
        sensor
    }

    /// Cast one downward sensor probe and resolve it against the tile it
    /// lands in.
    #[verifier::rlimit(100)]
    pub fn sensor_down(&mut self, sensor_loc: Vec2, sensor_id: usize, foreground: &mut Foreground, fx: &mut Effects) -> (r: Option<i32>)
        requires
            old(foreground).wf(),
        ensures
            final(foreground).wf(),
            final(self).hitbox == old(self).hitbox,
            final(self).pos == old(self).pos,
            loc_ok(sensor_loc.x as int, sensor_loc.y as int) ==> ({
                let stepped = sensor_down_spec(
                    ProbeState {
                        ent: *old(self),
                        grid: old(foreground).blocks@,
                        spawns: old(fx).spawns@,
                        coins: old(fx).coins,
                    }, sensor_loc.x as int, sensor_loc.y as int, sensor_id as int);
                &&& *final(self) == stepped.0.ent
                &&& final(foreground).blocks@ == stepped.0.grid
                &&& final(fx).spawns@ == stepped.0.spawns
                &&& final(fx).coins == stepped.0.coins
                &&& final(fx).removals@ == old(fx).removals@
                &&& r == stepped.1
            }),
    {
        reveal(crate::collision::sensor_down_spec);
        reveal(crate::collision::sensor_down_core);
        reveal(crate::collision::collide_spec);
        let sensor = self.collide(sensor_loc, foreground, fx);
        let cx: i32 = if sensor_loc.x < 0 { 0 } else if sensor_loc.x > 4095 { 4095 } else { sensor_loc.x };
        let cy: i32 = if sensor_loc.y < 0 { 0 } else if sensor_loc.y > 4095 { 4095 } else { sensor_loc.y };
        proof {
            lemma_clamp_div(sensor_loc.x as int);
            lemma_clamp_div(sensor_loc.y as int);
            assert(cx as int == clamp_pix(sensor_loc.x as int));
            assert(cy as int == clamp_pix(sensor_loc.y as int));
        }
        let block_y: i32 = cy / 16 * 4096;
        let inx: i32 = cx % 16;
        let iny: i32 = cy % 16;
        proof {
            assert(block_y as int == tile_of(sensor_loc.y as int) * 4096);
            assert(inx as int == inside_of(sensor_loc.x as int));
            assert(iny as int == inside_of(sensor_loc.y as int));
        }
        match sensor {
            Solidity::Solid => {
                self.angle = 0;
                Some(block_y - 256)
            },
            Solidity::EjectUp => {
                self.angle = 0;
                Some(block_y - 256)
            },
            Solidity::Semisolid => {
                if self.pos.y <= block_y {
                    self.angle = 0;
                    Some(block_y - 256)
                } else {
                    None
                }
            },
            Solidity::HurtTop => {
                self.angle = 0;
                self.vel.y = -2048;
                Some(block_y - 256)
            },
            Solidity::Slab => {
                if iny > 7 {
                    Some(block_y + 7 * 256)
                } else {
                    None
                }
            },
            Solidity::SlopeAssist { direction, steep } => {
                self.angle = (if direction { 1 } else { -1 }) * (if steep { 2 } else { 1 });
                Some(block_y - 2 * 256)
            },
            Solidity::SlopeSteep(v) => {
                if v != (sensor_id != 0) {
                    if v {
                        if iny >= inx - 1 || (self.on_ground && self.vel.y >= 0) {
                            self.angle = 2;
                            Some(block_y + (inx - 1) * 256)
                        } else {
                            None
                        }
                    } else {
                        if iny >= 15 - inx || (self.on_ground && self.vel.y >= 0) {
                            self.angle = -2;
                            Some(block_y + (15 - inx) * 256)
                        } else {
                            None
                        }
                    }
                } else {
                    None
                }
            },
            Solidity::SlopeLow(v) => {
                if v != (sensor_id != 0) {
                    if v {
                        if iny >= inx / 2 + 7 || (self.on_ground && self.vel.y >= 0) {
                            self.angle = 1;
                            Some(block_y + (inx / 2 + 7) * 256)
                        } else {
                            None
                        }
                    } else {
                        if iny >= 14 - inx / 2 || (self.on_ground && self.vel.y >= 0) {
                            self.angle = -1;
                            Some(block_y + (14 - inx / 2) * 256)
                        } else {
                            None
                        }
                    }
                } else {
                    None
                }
            },
            Solidity::SlopeHigh(v) => {
                if v != (sensor_id != 0) {
                    if v {
                        if iny >= inx / 2 - 1 || (self.on_ground && self.vel.y >= 0) {
                            self.angle = 1;
                            Some(block_y + (inx / 2 - 1) * 256)
                        } else {
                            None
                        }
                    } else {
                        if iny >= 6 - inx / 2 || (self.on_ground && self.vel.y >= 0) {
                            self.angle = -1;
                            Some(block_y + (6 - inx / 2) * 256)
                        } else {
                            None
                        }
                    }
                } else {
                    None
                }
            },
            _ => None,
        }
    }

    /// Cast one upward sensor probe and resolve it.
    pub fn sensor_up(&mut self, sensor_loc: Vec2, _sensor_id: usize, foreground: &mut Foreground, fx: &mut Effects) -> (r: Option<i32>)
        requires
            old(foreground).wf(),
        ensures
            final(foreground).wf(),
            final(self).hitbox == old(self).hitbox,
            final(self).pos == old(self).pos,
            (hb_ok(*old(self)) && loc_ok(sensor_loc.x as int, sensor_loc.y as int)) ==> ({
                let stepped = sensor_up_spec(
                    ProbeState {
                        ent: *old(self),
                        grid: old(foreground).blocks@,
                        spawns: old(fx).spawns@,
                        coins: old(fx).coins,
                    }, sensor_loc.x as int, sensor_loc.y as int);
                &&& *final(self) == stepped.0.ent
                &&& final(foreground).blocks@ == stepped.0.grid
                &&& final(fx).spawns@ == stepped.0.spawns
                &&& final(fx).coins == stepped.0.coins
                &&& final(fx).removals@ == old(fx).removals@
                &&& r == stepped.1
            }),
    {
        reveal(crate::collision::sensor_up_spec);
        reveal(crate::collision::collide_spec);
        proof {
            lemma_clamp_div(sensor_loc.y as int);
        }
        let sensor = self.collide(sensor_loc, foreground, fx);
        let cy: i32 = if sensor_loc.y < 0 { 0 } else if sensor_loc.y > 4095 { 4095 } else { sensor_loc.y };
        let block_y: i32 = cy / 16 * 4096;
        match sensor {
            Solidity::Solid => Some(block_y.wrapping_add((16i32.wrapping_add(self.hitbox.y)).wrapping_mul(256))),
            Solidity::Slab => Some(block_y.wrapping_add((16i32.wrapping_add(self.hitbox.y)).wrapping_mul(256))),
            _ => None,
        }
    }

    /// Cast one sideways sensor probe and resolve it.
    pub fn sensor_side(&mut self, sensor_loc: Vec2, foreground: &mut Foreground, fx: &mut Effects, is_right: bool) -> (r: Option<i32>)
        requires
            old(foreground).wf(),
        ensures
            final(foreground).wf(),
            final(self).hitbox == old(self).hitbox,
            final(self).pos == old(self).pos,
            (hb_ok(*old(self)) && loc_ok(sensor_loc.x as int, sensor_loc.y as int)) ==> ({
                let stepped = sensor_side_spec(
                    ProbeState {
                        ent: *old(self),
                        grid: old(foreground).blocks@,
                        spawns: old(fx).spawns@,
                        coins: old(fx).coins,
                    }, sensor_loc.x as int, sensor_loc.y as int, is_right);
                &&& *final(self) == stepped.0.ent
                &&& final(foreground).blocks@ == stepped.0.grid
                &&& final(fx).spawns@ == stepped.0.spawns
                &&& final(fx).coins == stepped.0.coins
                &&& final(fx).removals@ == old(fx).removals@
                &&& r == stepped.1
            }),
    {
        reveal(crate::collision::sensor_side_spec);
        reveal(crate::collision::collide_spec);
        proof {
            lemma_clamp_div(sensor_loc.x as int);
            lemma_clamp_div(sensor_loc.y as int);
        }
        let sensor = self.collide(sensor_loc, foreground, fx);
        let cx: i32 = if sensor_loc.x < 0 { 0 } else if sensor_loc.x > 4095 { 4095 } else { sensor_loc.x };
        let cy: i32 = if sensor_loc.y < 0 { 0 } else if sensor_loc.y > 4095 { 4095 } else { sensor_loc.y };
        let loc: i32 = cx / 16 * 4096;
        let loc_clamp: i32 = if is_right {
            loc.wrapping_add(((-1i32).wrapping_sub(self.hitbox.x / 2)).wrapping_mul(256))
        } else {
            loc.wrapping_add((16i32.wrapping_add(self.hitbox.x / 2)).wrapping_mul(256))
        };
        let iny: i32 = cy % 16;
        match sensor {
            Solidity::Solid => Some(loc_clamp),
            Solidity::HurtTop => Some(loc_clamp),
            Solidity::Slab => {
                if iny > 7 {
                    Some(loc_clamp)
                } else {
                    None
                }
            },
            Solidity::SlopeSteep(v) => {
                if v != is_right {
                    self.angle = 2 * (if v { 1 } else { -1 });
                }
                None
            },
            _ => None,
        }
    }
}

/// The horizontal pass: clear the blocked flags, take the tentative
/// x-position from the velocity, cast three probes down the leading edge
/// (top, middle and bottom of the hitbox), combine their clamps so the
/// nearest obstacle wins, and on a hit zero the horizontal velocity and
/// snap to the clamp.
pub open spec fn horiz_pass(st_in: ProbeState) -> ProbeState {
    let d = EntityData {
        blocked_up: false,
        blocked_down: false,
        blocked_left: false,
        blocked_right: false,
        ..st_in.ent
    };
    let st0 = ProbeState { ent: d, ..st_in };
    let next_x = d.pos.x + d.vel.x;
    let is_right = d.vel.x >= 0;
    let sxp = if is_right { div_t(d.hitbox.x as int, 2) + 1 } else { -div_t(d.hitbox.x as int, 2) - 1 };
    let bx = div_t(next_x, 256) + sxp;
    let by = div_t(d.pos.y as int, 256);
    let s1 = sensor_side_spec(st0, bx, by - d.hitbox.y, is_right);
    let s2 = sensor_side_spec(s1.0, bx, by - div_t(d.hitbox.y as int, 2), is_right);
    let s3 = sensor_side_spec(s2.0, bx, by, is_right);
    let res = clamp_opt_spec(s3.1, clamp_opt_spec(s2.1, clamp_opt_spec(s1.1, None, false), false), false);
    let d1 = s3.0.ent;
    let d2 = if res is Some {
        EntityData {
            blocked_left: if !is_right { true } else { d1.blocked_left },
            blocked_right: if is_right { true } else { d1.blocked_right },
            vel: Vec2 { x: 0, y: d1.vel.y },
            pos: Vec2 { x: res.unwrap(), y: d1.pos.y },
            ..d1
        }
    } else {
        EntityData { pos: Vec2 { x: next_x as i32, y: d1.pos.y }, ..d1 }
    };
    ProbeState { ent: d2, ..s3.0 }
}

/// The two probes of the vertical pass, at the hitbox's left and right
/// edges, combined so that the nearest obstacle wins.
#[verifier::opaque]
pub open spec fn vert_probes_spec(st_in: ProbeState, lx1: int, lx2: int, ly: int, is_down: bool) -> (ProbeState, Option<i32>) {
    let s1 = if is_down { sensor_down_spec(st_in, lx1, ly, 0) } else { sensor_up_spec(st_in, lx1, ly) };
    let s2 = if is_down { sensor_down_spec(s1.0, lx2, ly, 1) } else { sensor_up_spec(s1.0, lx2, ly) };
    (s2.0, clamp_opt_spec(s2.1, clamp_opt_spec(s1.1, None, true), true))
}

/// The vertical pass: take the tentative y-position from the velocity
/// plus, while grounded, the slope-shear term, cast two probes at the
/// left and right edges in the direction of travel, combine their clamps
/// so the nearest obstacle wins, snap and zero the vertical velocity on
/// a hit, refresh the ground flag from the downward block, and clamp the
/// position to the left world edge.
pub open spec fn vert_pass(st_in: ProbeState) -> ProbeState {
    let d = st_in.ent;
    let shear = if d.on_ground {
        div_t(d.vel.x as int, 2) * d.angle + (if d.angle != 0 { 256int } else { 0int })
    } else {
        0int
    };
    let next_y = d.pos.y + d.vel.y + shear;
    let is_down = d.vel.y >= 0;
    let syp = if is_down { 1int } else { -d.hitbox.y - 1 };
    let ly = div_t(next_y, 256) + syp;
    let bx = div_t(d.pos.x as int, 256);
    let lx1 = bx - div_t(d.hitbox.x as int, 2);
    let lx2 = bx + div_t(d.hitbox.x as int, 2);
    let probed = vert_probes_spec(st_in, lx1, lx2, ly, is_down);
    let d3 = vert_epilogue_spec(probed.0.ent, probed.1, next_y, is_down);
    ProbeState { ent: d3, ..probed.0 }
}

/// The bookkeeping after the vertical probes: snap and zero the vertical
/// velocity on a hit, record which side blocked, refresh the ground flag,
/// and clamp the position to the left world edge.
#[verifier::opaque]
pub open spec fn vert_epilogue_spec(d1: EntityData, res: Option<i32>, next_y: int, is_down: bool) -> EntityData {
    let d2 = if res is Some {
        EntityData {
            blocked_up: if !is_down { true } else { d1.blocked_up },
            blocked_down: if is_down { true } else { d1.blocked_down },
            vel: Vec2 { x: d1.vel.x, y: 0 },
            ..d1
        }
    } else {
        d1
    };
    let fin_y = if res is Some { res.unwrap() as int } else { next_y };
    let floor_x = div_t(d2.hitbox.x as int, 2) * 256;
    let fin_x = if d2.pos.x >= floor_x { d2.pos.x as int } else { floor_x };
    EntityData {
        on_ground: d2.blocked_down,
        pos: Vec2 { x: fin_x as i32, y: fin_y as i32 },
        ..d2
    }
}

/// One full collision resolution: the horizontal pass, then the vertical
/// pass.
pub open spec fn process_collision_spec(d: EntityData, g: Seq<u8>, sp: Seq<Entity>, co: i32) -> ProbeState {
    vert_pass(horiz_pass(ProbeState { ent: d, grid: g, spawns: sp, coins: co }))
}

/// Bounds the truncating division of a bounded value by 256.
pub proof fn lemma_div_t_bound(a: int)
    requires
        -0x8000000 <= a <= 0x8000000,
    ensures
        -0x80000 <= div_t(a, 256) <= 0x80000,
{
    if a >= 0 {
        assert(0 <= a / 256 <= 0x80000) by (nonlinear_arith)
            requires 0 <= a <= 0x8000000;
    } else {
        assert(0 <= (-a) / 256 <= 0x80000) by (nonlinear_arith)
            requires 0 < -a <= 0x8000000;
    }
}

/// Entity state after the horizontal pass but before the vertical pass:
/// the position may have moved by up to one velocity step.
pub open spec fn mid_wf(d: EntityData) -> bool {
    &&& -0x4200000 <= d.pos.x <= 0x4200000
    &&& -0x4200000 <= d.pos.y <= 0x4200000
    &&& -0x100000 <= d.vel.x <= 0x100000
    &&& -0x100000 <= d.vel.y <= 0x100000
    &&& 0 <= d.hitbox.x <= 256
    &&& 0 <= d.hitbox.y <= 256
    &&& -2 <= d.angle <= 2
}

/// A sideways probe leaves the entity's motion state alone apart from
/// the slope class, and any clamp it proposes is tile-bounded.
pub proof fn lemma_side_frame(st: ProbeState, lx: int, ly: int, ir: bool)
    requires
        hb_ok(st.ent),
    ensures
        ({
            let s = sensor_side_spec(st, lx, ly, ir);
            &&& s.0.ent.pos == st.ent.pos
            &&& s.0.ent.vel == st.ent.vel
            &&& s.0.ent.hitbox == st.ent.hitbox
            &&& s.0.ent.on_ground == st.ent.on_ground
            &&& s.0.ent.blocked_up == st.ent.blocked_up
            &&& s.0.ent.blocked_down == st.ent.blocked_down
            &&& s.0.ent.blocked_left == st.ent.blocked_left
            &&& s.0.ent.blocked_right == st.ent.blocked_right
            &&& (-2 <= st.ent.angle <= 2 ==> -2 <= s.0.ent.angle <= 2)
            &&& (s.1 matches Some(c) ==> -0x200000 <= c <= 0x200000)
        }),
{
    reveal(crate::collision::sensor_side_spec);
    reveal(crate::collision::collide_spec);
}

/// The horizontal pass keeps the entity within the mid-pass bounds.
pub proof fn lemma_horiz_mid(st: ProbeState)
    requires
        ent_wf(st.ent),
    ensures
        mid_wf(horiz_pass(st).ent),
{
    let d = EntityData {
        blocked_up: false,
        blocked_down: false,
        blocked_left: false,
        blocked_right: false,
        ..st.ent
    };
    let st0 = ProbeState { ent: d, ..st };
    let next_x = d.pos.x + d.vel.x;
    let is_right = d.vel.x >= 0;
    let sxp = if is_right { div_t(d.hitbox.x as int, 2) + 1 } else { -div_t(d.hitbox.x as int, 2) - 1 };
    let bx = div_t(next_x, 256) + sxp;
    let by = div_t(d.pos.y as int, 256);
    let s1 = sensor_side_spec(st0, bx, by - d.hitbox.y, is_right);
    lemma_side_frame(st0, bx, by - d.hitbox.y, is_right);
    let s2 = sensor_side_spec(s1.0, bx, by - div_t(d.hitbox.y as int, 2), is_right);
    lemma_side_frame(s1.0, bx, by - div_t(d.hitbox.y as int, 2), is_right);
    let s3 = sensor_side_spec(s2.0, bx, by, is_right);
    lemma_side_frame(s2.0, bx, by, is_right);
}

impl EntityData {
    /// The horizontal pass of one collision resolution.
    #[verifier::rlimit(100)]
    #[verifier::spinoff_prover]
    fn horiz_exec(&mut self, foreground: &mut Foreground, fx: &mut Effects)
        requires
            old(foreground).wf(),
        ensures
            final(foreground).wf(),
            final(self).hitbox == old(self).hitbox,
            ent_wf(*old(self)) ==> ({
                let stepped = horiz_pass(ProbeState {
                    ent: *old(self),
                    grid: old(foreground).blocks@,
                    spawns: old(fx).spawns@,
                    coins: old(fx).coins,
                });
                &&& *final(self) == stepped.ent
                &&& final(foreground).blocks@ == stepped.grid
                &&& final(fx).spawns@ == stepped.spawns
                &&& final(fx).coins == stepped.coins
                &&& final(fx).removals@ == old(fx).removals@
            }),
    {
        self.blocked_up = false;
        self.blocked_down = false;
        self.blocked_left = false;
        self.blocked_right = false;
        let next_x: i32 = self.pos.x.wrapping_add(self.vel.x);
        let is_right: bool = self.vel.x >= 0;
        let half_x: i32 = self.hitbox.x / 2;
        let sxp: i32 = if is_right {
            half_x.wrapping_add(1)
        } else {
            (0i32.wrapping_sub(half_x)).wrapping_sub(1)
        };
        let bx: i32 = (next_x / 256).wrapping_add(sxp);
        let by: i32 = self.pos.y / 256;
        proof {
            if ent_wf(*old(self)) {
                lemma_div_t_bound(old(self).pos.x + old(self).vel.x);
                lemma_div_t_bound(old(self).pos.y as int);
            }
        }
        let l1 = self.sensor_side(vec2(bx, by.wrapping_sub(self.hitbox.y)), foreground, fx, is_right);
        let mut res = clamp_opt(l1, None, false);
        let l2 = self.sensor_side(vec2(bx, by.wrapping_sub(self.hitbox.y / 2)), foreground, fx, is_right);
        res = clamp_opt(l2, res, false);
        let l3 = self.sensor_side(vec2(bx, by), foreground, fx, is_right);
        res = clamp_opt(l3, res, false);
        match res {
            Some(c) => {
                if is_right {
                    self.blocked_right = true;
                } else {
                    self.blocked_left = true;
                }
                self.vel.x = 0;
                self.pos.x = c;
            },
            None => {
                self.pos.x = next_x;
            },
        }
    }

    /// The two probes of the vertical pass.
    #[verifier::rlimit(100)]
    #[verifier::spinoff_prover]
    fn vert_probes(&mut self, lx1: i32, lx2: i32, ly: i32, is_down: bool, foreground: &mut Foreground, fx: &mut Effects) -> (r: Option<i32>)
        requires
            old(foreground).wf(),
        ensures
            final(foreground).wf(),
            final(self).hitbox == old(self).hitbox,
            final(self).pos == old(self).pos,
            (hb_ok(*old(self)) && loc_ok(lx1 as int, ly as int) && loc_ok(lx2 as int, ly as int)) ==> ({
                let stepped = vert_probes_spec(ProbeState {
                    ent: *old(self),
                    grid: old(foreground).blocks@,
                    spawns: old(fx).spawns@,
                    coins: old(fx).coins,
                }, lx1 as int, lx2 as int, ly as int, is_down);
                &&& *final(self) == stepped.0.ent
                &&& final(foreground).blocks@ == stepped.0.grid
                &&& final(fx).spawns@ == stepped.0.spawns
                &&& final(fx).coins == stepped.0.coins
                &&& final(fx).removals@ == old(fx).removals@
                &&& r == stepped.1
            }),
    {
        reveal(crate::collision::vert_probes_spec);
        let l1 = if is_down {
            self.sensor_down(vec2(lx1, ly), 0, foreground, fx)
        } else {
            self.sensor_up(vec2(lx1, ly), 0, foreground, fx)
        };
        let mut res = clamp_opt(l1, None, true);
        let l2 = if is_down {
            self.sensor_down(vec2(lx2, ly), 1, foreground, fx)
        } else {
            self.sensor_up(vec2(lx2, ly), 1, foreground, fx)
        };
        res = clamp_opt(l2, res, true);
        res
    }

    /// The vertical pass of one collision resolution.
    #[verifier::rlimit(100)]
    #[verifier::spinoff_prover]
    fn vert_exec(&mut self, foreground: &mut Foreground, fx: &mut Effects)
        requires
            old(foreground).wf(),
        ensures
            final(foreground).wf(),
            mid_wf(*old(self)) ==> ({
                let stepped = vert_pass(ProbeState {
                    ent: *old(self),
                    grid: old(foreground).blocks@,
                    spawns: old(fx).spawns@,
                    coins: old(fx).coins,
                });
                &&& *final(self) == stepped.ent
                &&& final(foreground).blocks@ == stepped.grid
                &&& final(fx).spawns@ == stepped.spawns
                &&& final(fx).coins == stepped.coins
                &&& final(fx).removals@ == old(fx).removals@
            }),
    {
        let mut next_y: i32 = self.pos.y.wrapping_add(self.vel.y);
        if self.on_ground {
            next_y = next_y.wrapping_add((self.vel.x / 2).wrapping_mul(self.angle));
            if self.angle != 0 {
                next_y = next_y.wrapping_add(256);
            }
        }
        let next_y: i32 = next_y;
        let is_down: bool = self.vel.y >= 0;
        let syp: i32 = if is_down {
            1
        } else {
            (0i32.wrapping_sub(self.hitbox.y)).wrapping_sub(1)
        };
        let ly: i32 = (next_y / 256).wrapping_add(syp);
        let bx: i32 = self.pos.x / 256;
        let half_x: i32 = self.hitbox.x / 2;
        let lx1: i32 = bx.wrapping_sub(half_x);
        let lx2: i32 = bx.wrapping_add(half_x);
        proof {
            if mid_wf(*old(self)) {
                let q = div_t(old(self).vel.x as int, 2);
                let ang = old(self).angle as int;
                assert(-0x80000 <= q <= 0x80000);
                assert(-0x100000 <= q * ang <= 0x100000) by (nonlinear_arith)
                    requires -0x80000 <= q <= 0x80000 && -2 <= ang <= 2;
                let shear = if old(self).on_ground {
                    div_t(old(self).vel.x as int, 2) * old(self).angle
                        + (if old(self).angle != 0 { 256int } else { 0int })
                } else {
                    0int
                };
                lemma_div_t_bound(old(self).pos.y + old(self).vel.y + shear);
                lemma_div_t_bound(old(self).pos.x as int);
                assert(next_y as int == old(self).pos.y + old(self).vel.y + shear);
                assert(ly as int == div_t(old(self).pos.y + old(self).vel.y + shear, 256)
                    + (if old(self).vel.y >= 0 { 1int } else { -old(self).hitbox.y - 1 }));
                assert(lx1 as int == div_t(old(self).pos.x as int, 256) - div_t(old(self).hitbox.x as int, 2));
                assert(lx2 as int == div_t(old(self).pos.x as int, 256) + div_t(old(self).hitbox.x as int, 2));
                assert(loc_ok(lx1 as int, ly as int) && loc_ok(lx2 as int, ly as int));
            }
        }
        let res = self.vert_probes(lx1, lx2, ly, is_down, foreground, fx);
        self.vert_epilogue(res, next_y, is_down);
    }

    /// The bookkeeping after the vertical probes.
    fn vert_epilogue(&mut self, res: Option<i32>, next_y: i32, is_down: bool)
        ensures
            hb_ok(*old(self)) ==> *final(self) == vert_epilogue_spec(*old(self), res, next_y as int, is_down),
    {
        reveal(crate::collision::vert_epilogue_spec);
        let mut fin_y: i32 = next_y;
        match res {
            Some(c) => {
                if is_down {
                    self.blocked_down = true;
                } else {
                    self.blocked_up = true;
                }
                self.vel.y = 0;
                fin_y = c;
            },
            None => {},
        }
        self.on_ground = self.blocked_down;
        self.pos.y = fin_y;
        let floor_x: i32 = (self.hitbox.x / 2).wrapping_mul(256);
        if self.pos.x < floor_x {
            self.pos.x = floor_x;
        }
    }

    /// Resolve one tick of this entity's motion against the tile grid:
    /// the horizontal pass, then the vertical pass. Never fails;
    /// out-of-range probes saturate to the grid edges.
    pub fn process_collision(&mut self, foreground: &mut Foreground, fx: &mut Effects)
        requires
            old(foreground).wf(),
        ensures
            final(foreground).wf(),
            ent_wf(*old(self)) ==> ({
                let stepped = process_collision_spec(
                    *old(self), old(foreground).blocks@, old(fx).spawns@, old(fx).coins);
                &&& *final(self) == stepped.ent
                &&& final(foreground).blocks@ == stepped.grid
                &&& final(fx).spawns@ == stepped.spawns
                &&& final(fx).coins == stepped.coins
                &&& final(fx).removals@ == old(fx).removals@
            }),
    {
        self.horiz_exec(foreground, fx);
        proof {
            if ent_wf(*old(self)) {
                lemma_horiz_mid(ProbeState {
                    ent: *old(self),
                    grid: old(foreground).blocks@,
                    spawns: old(fx).spawns@,
                    coins: old(fx).coins,
                });
            }
        }
        self.vert_exec(foreground, fx);
    }
}

/// The spawn list `sp1` extends `sp0`, and everything it adds is a fresh
/// reward explosion.
pub open spec fn spawned_after(sp0: Seq<Entity>, sp1: Seq<Entity>) -> bool {
    &&& sp1.len() >= sp0.len()
    &&& sp1.take(sp0.len() as int) == sp0
    &&& forall|i: int| sp0.len() <= i < sp1.len() ==> (#[trigger] sp1[i]).kind == (EntityKind::Explosion { time_left: 16 })
}

/// `spawned_after` composes.
pub proof fn lemma_spawned_trans(a: Seq<Entity>, b: Seq<Entity>, c: Seq<Entity>)
    requires
        spawned_after(a, b),
        spawned_after(b, c),
    ensures
        spawned_after(a, c),
{
    assert(c.take(a.len() as int) =~= b.take(a.len() as int));
    assert forall|i: int| a.len() <= i < c.len() implies (#[trigger] c[i]).kind == (EntityKind::Explosion { time_left: 16 }) by {
        if i < b.len() {
            assert(c[i] == c.take(b.len() as int)[i]);
            assert(c[i] == b[i]);
        }
    }
}

/// Pushing one explosion preserves `spawned_after`.
pub proof fn lemma_spawned_push(a: Seq<Entity>, p: Vec2)
    ensures
        spawned_after(a, a.push(explosion_spec(p))),
{
    assert(a.push(explosion_spec(p)).take(a.len() as int) =~= a);
}

/// `spawned_after` is reflexive.
pub proof fn lemma_spawned_refl(a: Seq<Entity>)
    ensures
        spawned_after(a, a),
{
    assert(a.take(a.len() as int) =~= a);
}

/// One collision resolution only ever spawns reward explosions.
pub proof fn lemma_collision_spawns(d: EntityData, g: Seq<u8>, sp: Seq<Entity>, co: i32)
    ensures
        spawned_after(sp, process_collision_spec(d, g, sp, co).spawns),
{
    reveal(crate::collision::collide_spec);
    reveal(crate::collision::sensor_down_spec);
    reveal(crate::collision::sensor_down_core);
    reveal(crate::collision::sensor_up_spec);
    reveal(crate::collision::sensor_side_spec);
    reveal(crate::collision::vert_probes_spec);
    let st_in = ProbeState { ent: d, grid: g, spawns: sp, coins: co };
    let d0 = EntityData {
        blocked_up: false,
        blocked_down: false,
        blocked_left: false,
        blocked_right: false,
        ..d
    };
    let st0 = ProbeState { ent: d0, ..st_in };
    let next_x = d0.pos.x + d0.vel.x;
    let is_right = d0.vel.x >= 0;
    let sxp = if is_right { div_t(d0.hitbox.x as int, 2) + 1 } else { -div_t(d0.hitbox.x as int, 2) - 1 };
    let bx = div_t(next_x, 256) + sxp;
    let by = div_t(d0.pos.y as int, 256);
    let s1 = sensor_side_spec(st0, bx, by - d0.hitbox.y, is_right);
    lemma_probe_spawns(st0, bx, by - d0.hitbox.y);
    let s2 = sensor_side_spec(s1.0, bx, by - div_t(d0.hitbox.y as int, 2), is_right);
    lemma_probe_spawns(s1.0, bx, by - div_t(d0.hitbox.y as int, 2));
    let s3 = sensor_side_spec(s2.0, bx, by, is_right);
    lemma_probe_spawns(s2.0, bx, by);
    lemma_spawned_trans(sp, s1.0.spawns, s2.0.spawns);
    lemma_spawned_trans(sp, s2.0.spawns, s3.0.spawns);
    let st1 = horiz_pass(st_in);
    assert(st1.spawns == s3.0.spawns);
    let dm = st1.ent;
    let shear = if dm.on_ground {
        div_t(dm.vel.x as int, 2) * dm.angle + (if dm.angle != 0 { 256int } else { 0int })
    } else {
        0int
    };
    let next_y = dm.pos.y + dm.vel.y + shear;
    let is_down = dm.vel.y >= 0;
    let syp = if is_down { 1int } else { -dm.hitbox.y - 1 };
    let ly = div_t(next_y, 256) + syp;
    let vbx = div_t(dm.pos.x as int, 256);
    let lx1 = vbx - div_t(dm.hitbox.x as int, 2);
    let lx2 = vbx + div_t(dm.hitbox.x as int, 2);
    let v1 = if is_down { sensor_down_spec(st1, lx1, ly, 0) } else { sensor_up_spec(st1, lx1, ly) };
    lemma_probe_spawns(st1, lx1, ly);
    let v2 = if is_down { sensor_down_spec(v1.0, lx2, ly, 1) } else { sensor_up_spec(v1.0, lx2, ly) };
    lemma_probe_spawns(v1.0, lx2, ly);
    lemma_spawned_trans(sp, st1.spawns, v1.0.spawns);
    lemma_spawned_trans(sp, v1.0.spawns, v2.0.spawns);
    assert(process_collision_spec(d, g, sp, co).spawns == v2.0.spawns);
}

/// One probe only ever spawns a reward explosion, whichever sensor casts
/// it.
pub proof fn lemma_probe_spawns(st: ProbeState, lx: int, ly: int)
    ensures
        spawned_after(st.spawns, collide_spec(st, lx, ly).0.spawns),
        forall|sid: int| spawned_after(st.spawns, (#[trigger] sensor_down_spec(st, lx, ly, sid)).0.spawns),
        spawned_after(st.spawns, sensor_up_spec(st, lx, ly).0.spawns),
        forall|ir: bool| spawned_after(st.spawns, (#[trigger] sensor_side_spec(st, lx, ly, ir)).0.spawns),
{
    reveal(crate::collision::collide_spec);
    reveal(crate::collision::sensor_down_spec);
    reveal(crate::collision::sensor_down_core);
    reveal(crate::collision::sensor_up_spec);
    reveal(crate::collision::sensor_side_spec);
    let c = collide_spec(st, lx, ly);
    if probe_sol(st.grid, lx, ly) is Coin {
        lemma_spawned_push(st.spawns, Vec2 {
            x: ((div_t(lx, 16) * 16 + 8) * 256) as i32,
            y: ((div_t(ly, 16) * 16 + 14) * 256) as i32,
        });
    } else {
        lemma_spawned_refl(st.spawns);
    }
}

/// Law: no tunneling into solid tiles. When a probe of the pass blocks on
/// a solid tile, the clamp it proposes puts the entity's hitbox strictly
/// outside that tile on the side it was moving toward: a sideways probe
/// leaves the leading edge one pixel short of the blocking column, and a
/// downward probe leaves the hitbox bottom one sub-tile row above the
/// blocking row. The three sideways probes sit at most half a hitbox
/// apart and the two downward probes one hitbox apart, so for hitboxes up
/// to two tiles every tile row or column the leading edge crosses is
/// probed, and a velocity of at most one tile per tick cannot step past
/// the probed tile.
pub proof fn lemma_no_tunneling(st: ProbeState, lx: int, ly: int, is_right: bool, sid: int)
    requires
        hb_ok(st.ent),
    ensures
        ({
            let s = sensor_side_spec(st, lx, ly, is_right);
            &&& (s.1 is Some && is_right && probe_sol(st.grid, lx, ly) is Solid ==>
                div_t(s.1.unwrap() as int, 256) + div_t(st.ent.hitbox.x as int, 2) < tile_of(lx) * 16)
            &&& (s.1 is Some && !is_right && probe_sol(st.grid, lx, ly) is Solid ==>
                div_t(s.1.unwrap() as int, 256) - div_t(st.ent.hitbox.x as int, 2) > tile_of(lx) * 16 + 15)
        }),
        ({
            let d = sensor_down_spec(st, lx, ly, sid);
            d.1 is Some && probe_sol(st.grid, lx, ly) is Solid ==>
                div_t(d.1.unwrap() as int, 256) < tile_of(ly) * 16
        }),
{
    reveal(crate::collision::sensor_side_spec);
    reveal(crate::collision::sensor_down_spec);
    reveal(crate::collision::sensor_down_core);
    reveal(crate::collision::collide_spec);
    let hx = div_t(st.ent.hitbox.x as int, 2);
    let s = sensor_side_spec(st, lx, ly, is_right);
    if probe_sol(st.grid, lx, ly) is Solid {
        let loc = tile_of(lx) * 4096;
        if is_right {
            let c = loc + (-1 - hx) * 256;
            assert(s.1 == Some(c as i32));
            assert(c == (tile_of(lx) * 16 - 1 - hx) * 256);
            lemma_mul_div_256(tile_of(lx) * 16 - 1 - hx);
        } else {
            let c = loc + (16 + hx) * 256;
            assert(s.1 == Some(c as i32));
            assert(c == (tile_of(lx) * 16 + 16 + hx) * 256);
            lemma_mul_div_256(tile_of(lx) * 16 + 16 + hx);
        }
        let cd = tile_of(ly) * 4096 - 256;
        assert(cd == (tile_of(ly) * 16 - 1) * 256);
        lemma_mul_div_256(tile_of(ly) * 16 - 1);
    }
}

/// Truncating division by a positive constant is monotone.
pub proof fn lemma_div_t_mono(a: int, b: int, k: int)
    requires
        a <= b,
        k > 0,
    ensures
        div_t(a, k) <= div_t(b, k),
{
    if a >= 0 {
        assert(a / k <= b / k) by (nonlinear_arith)
            requires
                0 <= a <= b && k > 0,
        ;
    } else if b >= 0 {
        assert((-a) / k >= 0 && b / k >= 0) by (nonlinear_arith)
            requires
                0 <= -a && 0 <= b && k > 0,
        ;
    } else {
        assert((-b) / k <= (-a) / k) by (nonlinear_arith)
            requires
                0 <= -b <= -a && k > 0,
        ;
    }
}

/// A probe only ever clears a collected coin cell, which never makes a
/// cell solid: a solid classification survives any probe.
pub proof fn lemma_collide_keeps_solid(st: ProbeState, lx: int, ly: int, qx: int, qy: int)
    requires
        grid_wf(st.grid),
        probe_sol(st.grid, qx, qy) is Solid,
    ensures
        grid_wf(collide_spec(st, lx, ly).0.grid),
        probe_sol(collide_spec(st, lx, ly).0.grid, qx, qy) is Solid,
{
    reveal(crate::collision::collide_spec);
    lemma_clamp_div(lx);
    lemma_clamp_div(ly);
    if probe_sol(st.grid, lx, ly) is Coin {
        let cl = cell(tile_of(lx), tile_of(ly));
        let cq = cell(clamp255(div_t(qx, 16)), clamp255(div_t(qy, 16)));
        assert(0 <= cq < 65536);
        if cl == cq {
            assert(false);
        }
    }
}

/// Law: no tunneling into solid tiles, over a whole resolution. The
/// three sideways probes of the horizontal pass share the leading-edge
/// column: when the tile at any probed row of that column is solid, the
/// pass blocks, and the clamp puts the hitbox's leading edge strictly
/// outside that column — one pixel short of it moving right, one past
/// its far side moving left. The two probes of a downward vertical pass
/// share the row just below the target position: when the tile under
/// either foot is solid, the pass blocks, and the final position puts
/// the hitbox's bottom row strictly above that tile row. Probes between
/// a solid hit and the pass's end only clear collected coin cells, which
/// never makes a cell solid.
#[verifier::rlimit(100)]
#[verifier::spinoff_prover]
pub proof fn lemma_no_tunneling_pass(st: ProbeState)
    requires
        ent_wf(st.ent),
        grid_wf(st.grid),
    ensures
        ({
            let d = st.ent;
            let next_x = d.pos.x + d.vel.x;
            let is_right = d.vel.x >= 0;
            let sxp = if is_right { div_t(d.hitbox.x as int, 2) + 1 } else { -div_t(d.hitbox.x as int, 2) - 1 };
            let bx = div_t(next_x, 256) + sxp;
            let by = div_t(d.pos.y as int, 256);
            let out = horiz_pass(st).ent;
            let solid_col = probe_sol(st.grid, bx, by - d.hitbox.y) is Solid
                || probe_sol(st.grid, bx, by - div_t(d.hitbox.y as int, 2)) is Solid
                || probe_sol(st.grid, bx, by) is Solid;
            &&& (solid_col && is_right ==> out.blocked_right
                && div_t(out.pos.x as int, 256) + div_t(out.hitbox.x as int, 2) < tile_of(bx) * 16)
            &&& (solid_col && !is_right ==> out.blocked_left
                && div_t(out.pos.x as int, 256) - div_t(out.hitbox.x as int, 2) > tile_of(bx) * 16 + 15)
        }),
        ({
            let stm = horiz_pass(st);
            let dm = stm.ent;
            let shear = if dm.on_ground {
                div_t(dm.vel.x as int, 2) * dm.angle + (if dm.angle != 0 { 256int } else { 0int })
            } else {
                0int
            };
            let next_y = dm.pos.y + dm.vel.y + shear;
            let is_down = dm.vel.y >= 0;
            let ly = div_t(next_y, 256) + 1;
            let vbx = div_t(dm.pos.x as int, 256);
            let lx1 = vbx - div_t(dm.hitbox.x as int, 2);
            let lx2 = vbx + div_t(dm.hitbox.x as int, 2);
            let out = process_collision_spec(st.ent, st.grid, st.spawns, st.coins).ent;
            let solid_row = probe_sol(stm.grid, lx1, ly) is Solid || probe_sol(stm.grid, lx2, ly) is Solid;
            (is_down && solid_row) ==> out.blocked_down
                && div_t(out.pos.y as int, 256) < tile_of(ly) * 16
        }),
{
    reveal(crate::collision::sensor_side_spec);
    reveal(crate::collision::sensor_down_spec);
    reveal(crate::collision::sensor_down_core);
    reveal(crate::collision::collide_spec);
    reveal(crate::collision::vert_probes_spec);
    reveal(crate::collision::vert_epilogue_spec);
    let d = st.ent;
    let d0 = EntityData {
        blocked_up: false,
        blocked_down: false,
        blocked_left: false,
        blocked_right: false,
        ..d
    };
    let st0 = ProbeState { ent: d0, ..st };
    let next_x = d0.pos.x + d0.vel.x;
    let is_right = d0.vel.x >= 0;
    let hx = div_t(d0.hitbox.x as int, 2);
    let sxp = if is_right { hx + 1 } else { -hx - 1 };
    let bx = div_t(next_x, 256) + sxp;
    let by = div_t(d0.pos.y as int, 256);
    let r1 = by - d0.hitbox.y;
    let r2 = by - div_t(d0.hitbox.y as int, 2);
    let r3 = by;
    let s1 = sensor_side_spec(st0, bx, r1, is_right);
    lemma_side_frame(st0, bx, r1, is_right);
    let s2 = sensor_side_spec(s1.0, bx, r2, is_right);
    lemma_side_frame(s1.0, bx, r2, is_right);
    let s3 = sensor_side_spec(s2.0, bx, r3, is_right);
    lemma_side_frame(s2.0, bx, r3, is_right);
    let common = if is_right {
        tile_of(bx) * 4096 + (-1 - hx) * 256
    } else {
        tile_of(bx) * 4096 + (16 + hx) * 256
    };
    lemma_clamp_div(bx);
    assert(s1.1 matches Some(c) ==> c == common);
    assert(s2.1 matches Some(c) ==> c == common);
    assert(s3.1 matches Some(c) ==> c == common);
    let solid_col = probe_sol(st.grid, bx, r1) is Solid
        || probe_sol(st.grid, bx, r2) is Solid
        || probe_sol(st.grid, bx, r3) is Solid;
    if solid_col {
        if probe_sol(st.grid, bx, r2) is Solid {
            lemma_collide_keeps_solid(st0, bx, r1, bx, r2);
        }
        if probe_sol(st.grid, bx, r3) is Solid {
            lemma_collide_keeps_solid(st0, bx, r1, bx, r3);
            lemma_collide_keeps_solid(s1.0, bx, r2, bx, r3);
        }
        assert(s1.1 is Some || s2.1 is Some || s3.1 is Some);
        let res = clamp_opt_spec(s3.1, clamp_opt_spec(s2.1, clamp_opt_spec(s1.1, None, false), false), false);
        assert(res == Some(common as i32));
        if is_right {
            lemma_mul_div_256(tile_of(bx) * 16 - 1 - hx);
            assert(common == (tile_of(bx) * 16 - 1 - hx) * 256);
        } else {
            lemma_mul_div_256(tile_of(bx) * 16 + 16 + hx);
            assert(common == (tile_of(bx) * 16 + 16 + hx) * 256);
        }
    }
    let stm = horiz_pass(st);
    let dm = stm.ent;
    let shear = if dm.on_ground {
        div_t(dm.vel.x as int, 2) * dm.angle + (if dm.angle != 0 { 256int } else { 0int })
    } else {
        0int
    };
    let next_y = dm.pos.y + dm.vel.y + shear;
    let is_down = dm.vel.y >= 0;
    let ly = div_t(next_y, 256) + 1;
    let vbx = div_t(dm.pos.x as int, 256);
    let lx1 = vbx - div_t(dm.hitbox.x as int, 2);
    let lx2 = vbx + div_t(dm.hitbox.x as int, 2);
    if is_down && (probe_sol(stm.grid, lx1, ly) is Solid || probe_sol(stm.grid, lx2, ly) is Solid) {
        assert(grid_wf(stm.grid));
        let v1 = sensor_down_spec(stm, lx1, ly, 0);
        let v2 = sensor_down_spec(v1.0, lx2, ly, 1);
        let block_clamp = tile_of(ly) * 4096 - 256;
        lemma_clamp_div(ly);
        if probe_sol(stm.grid, lx2, ly) is Solid {
            lemma_collide_keeps_solid(stm, lx1, ly, lx2, ly);
            assert(v2.1 == Some(block_clamp as i32));
        } else {
            assert(v1.1 == Some(block_clamp as i32));
        }
        let res = clamp_opt_spec(v2.1, clamp_opt_spec(v1.1, None, true), true);
        assert(res matches Some(c) && c <= block_clamp);
        let fin = vert_epilogue_spec(v2.0.ent, res, next_y, is_down);
        assert(fin.blocked_down);
        assert(fin.pos.y == res.unwrap());
        lemma_div_t_mono(res.unwrap() as int, block_clamp, 256);
        lemma_mul_div_256(tile_of(ly) * 16 - 1);
        assert(block_clamp == (tile_of(ly) * 16 - 1) * 256);
    }
}

/// Sample points at most one tile apart leave no tile row between them
/// unsampled.
pub proof fn lemma_tile_step16(u: int, v: int)
    requires
        0 <= u <= v <= u + 16,
    ensures
        tile_of(u) <= tile_of(v) <= tile_of(u) + 1,
{
    lemma_div_t_mono(u, v, 16);
    lemma_div_t_mono(v, u + 16, 16);
    assert(div_t(u + 16, 16) == div_t(u, 16) + 1) by (nonlinear_arith)
        requires
            0 <= u,
    ;
}

/// Law: the three sideways probe rows cover the leading edge. With the
/// hitbox no taller than two tiles and inside the grid, every tile row
/// that the hitbox's vertical span crosses is one of the three probed
/// rows — top, middle or bottom — so by the no-tunneling pass law a
/// solid tile anywhere in the rows the leading-edge column crosses
/// blocks the horizontal pass and the clamp keeps the hitbox outside it.
pub proof fn lemma_probe_rows_cover(by: int, hb: int, r: int)
    requires
        0 <= hb <= 32,
        0 <= by - hb,
        tile_of(by - hb) <= r <= tile_of(by),
    ensures
        r == tile_of(by - hb) || r == tile_of(by - div_t(hb, 2)) || r == tile_of(by),
{
    let m = by - div_t(hb, 2);
    assert(0 <= div_t(hb, 2) && hb - div_t(hb, 2) <= 16);
    lemma_tile_step16(by - hb, m);
    lemma_tile_step16(m, by);
}

/// Law: the two downward probe columns cover the hitbox's feet. With
/// the hitbox no wider than one tile and inside the grid, every tile
/// column that the hitbox's horizontal span crosses is one of the two
/// probed columns, so by the no-tunneling pass law a solid tile under
/// either crossed column blocks the downward pass.
pub proof fn lemma_probe_cols_cover(bx: int, hb: int, r: int)
    requires
        0 <= hb <= 16,
        0 <= bx - div_t(hb, 2),
        tile_of(bx - div_t(hb, 2)) <= r <= tile_of(bx + div_t(hb, 2)),
    ensures
        r == tile_of(bx - div_t(hb, 2)) || r == tile_of(bx + div_t(hb, 2)),
{
    assert(0 <= div_t(hb, 2) && 2 * div_t(hb, 2) <= 16);
    lemma_tile_step16(bx - div_t(hb, 2), bx + div_t(hb, 2));
}

/// Law: grounded walking is continuous across slope families. For a
/// grounded entity inside the grid's vertical span, with no vertical
/// velocity and walking at up to the player's top speed, the downward
/// pass probes the tile row holding the pixel just below the sheared
/// position, and every clamp any ground arm proposes — solid, eject-up,
/// hurt-top, semisolid, slab, or any slope family at any horizontal
/// offset — lies within that row's sixteen-pixel span, with two
/// sub-tile rows of slack above it. So one resolution moves the
/// vertical position by at most one tile plus the shear step, whether
/// the foot row holds one slope family or the boundary to the next.
#[verifier::rlimit(100)]
#[verifier::spinoff_prover]
pub proof fn lemma_slope_walk_continuous(st: ProbeState)
    requires
        ent_wf(st.ent),
        st.ent.on_ground,
        st.ent.vel.y == 0,
        -0x300 <= st.ent.vel.x <= 0x300,
        0x1000 <= st.ent.pos.y <= 0xFF000,
    ensures
        ({
            let out = process_collision_spec(st.ent, st.grid, st.spawns, st.coins).ent;
            -0x1500 <= out.pos.y - st.ent.pos.y <= 0x1400
        }),
{
    reveal(crate::collision::sensor_side_spec);
    reveal(crate::collision::sensor_down_spec);
    reveal(crate::collision::sensor_down_core);
    reveal(crate::collision::collide_spec);
    reveal(crate::collision::vert_probes_spec);
    reveal(crate::collision::vert_epilogue_spec);
    let d = st.ent;
    let d0 = EntityData {
        blocked_up: false,
        blocked_down: false,
        blocked_left: false,
        blocked_right: false,
        ..d
    };
    let st0 = ProbeState { ent: d0, ..st };
    let next_x = d0.pos.x + d0.vel.x;
    let is_right = d0.vel.x >= 0;
    let sxp = if is_right { div_t(d0.hitbox.x as int, 2) + 1 } else { -div_t(d0.hitbox.x as int, 2) - 1 };
    let bx = div_t(next_x, 256) + sxp;
    let by = div_t(d0.pos.y as int, 256);
    let s1 = sensor_side_spec(st0, bx, by - d0.hitbox.y, is_right);
    lemma_side_frame(st0, bx, by - d0.hitbox.y, is_right);
    let s2 = sensor_side_spec(s1.0, bx, by - div_t(d0.hitbox.y as int, 2), is_right);
    lemma_side_frame(s1.0, bx, by - div_t(d0.hitbox.y as int, 2), is_right);
    let s3 = sensor_side_spec(s2.0, bx, by, is_right);
    lemma_side_frame(s2.0, bx, by, is_right);
    let stm = horiz_pass(st);
    let dm = stm.ent;
    assert(dm.pos.y == d.pos.y && dm.vel.y == 0 && dm.on_ground);
    assert(-0x300 <= dm.vel.x <= 0x300 && -2 <= dm.angle <= 2);
    let q2 = div_t(dm.vel.x as int, 2);
    assert(-0x180 <= q2 <= 0x180);
    assert(-0x300 <= q2 * dm.angle <= 0x300) by (nonlinear_arith)
        requires
            -0x180 <= q2 <= 0x180 && -2 <= dm.angle <= 2,
    ;
    let shear = if dm.on_ground {
        div_t(dm.vel.x as int, 2) * dm.angle + (if dm.angle != 0 { 256int } else { 0int })
    } else {
        0int
    };
    assert(-0x400 <= shear <= 0x400);
    let next_y = dm.pos.y + dm.vel.y + shear;
    assert(0xC00 <= next_y <= 0xFF400);
    let is_down = dm.vel.y >= 0;
    let qy = div_t(next_y, 256);
    assert(qy * 256 <= next_y < qy * 256 + 256) by (nonlinear_arith)
        requires
            0 <= next_y && qy == next_y / 256,
    ;
    let ly = qy + 1;
    assert(13 <= ly <= 4086);
    lemma_clamp_div(ly);
    let ty = tile_of(ly);
    assert(ty == ly / 16);
    assert(ty * 16 <= ly < ty * 16 + 16) by (nonlinear_arith)
        requires
            0 <= ly && ty == ly / 16,
    ;
    let block_y = ty * 4096;
    let vbx = div_t(dm.pos.x as int, 256);
    let lx1 = vbx - div_t(dm.hitbox.x as int, 2);
    let lx2 = vbx + div_t(dm.hitbox.x as int, 2);
    let v1 = sensor_down_spec(stm, lx1, ly, 0);
    let v2 = sensor_down_spec(v1.0, lx2, ly, 1);
    lemma_clamp_div(lx1);
    lemma_clamp_div(lx2);
    assert(v1.1 matches Some(c) ==> block_y - 512 <= c <= block_y + 15 * 256);
    assert(v2.1 matches Some(c) ==> block_y - 512 <= c <= block_y + 15 * 256);
    let res = clamp_opt_spec(v2.1, clamp_opt_spec(v1.1, None, true), true);
    assert(res matches Some(c) ==> block_y - 512 <= c <= block_y + 15 * 256);
    let fin = vert_epilogue_spec(v2.0.ent, res, next_y, is_down);
    assert((ty * 16) * 256 == ty * 4096) by (nonlinear_arith);
    assert((ly - 15) * 256 <= block_y <= ly * 256) by (nonlinear_arith)
        requires
            ty * 16 <= ly < ty * 16 + 16 && block_y == ty * 4096,
    ;
    assert(fin.pos.y == (if res is Some { res.unwrap() as int } else { next_y }));
}

/// An exact multiple of 256 divides back exactly, for either sign.
pub proof fn lemma_mul_div_256(k: int)
    requires
        -0x100000 <= k <= 0x100000,
    ensures
        div_t(k * 256, 256) == k,
{
    if k >= 0 {
        assert(k * 256 / 256 == k) by (nonlinear_arith);
    } else {
        assert((-(k * 256)) == (-k) * 256) by (nonlinear_arith);
        assert((-k) * 256 / 256 == -k) by (nonlinear_arith);
    }
}

} // verus!
