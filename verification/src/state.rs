//! The game's top-level state: the level being played, its camera, its
//! bookkeeping, and the demo level loader.
use vstd::prelude::*;

use crate::controller::Buttons;
use crate::entity::{key, key_spec, lock, lock_spec, sign, sign_spec, star, star_spec, EntityData};
use crate::foreground::Foreground;
use crate::player::{player_init, player_wf, Player};
use crate::pool::{first_free_from, pool_ok, pool_run_spec, wadd, EntitySet};
use crate::terrain::{
    decode_chunk, decode_chunk_spec, grid_wf, hstretch_iter, lemma_hstretch_ok,
    lemma_paint_line_right_ok, paint_line, DecodeError,
};
use crate::vec2::{div_t, vec2, Vec2};

verus! {

/// Level bookkeeping: world size, the fade-in countdown, the score line.
pub struct LevelData {
    pub level_size: Vec2,
    pub fadein_timer: i32,
    pub coins: i32,
    pub score: i32,
    pub timer: Option<i32>,
}

/// One running level: the camera, the layers, the entity pool and the
/// bookkeeping.
pub struct LevelState {
    pub camera: Vec2,
    pub foreground: Foreground,
    pub entity_set: EntitySet,
    pub data: LevelData,
    pub buttons: Buttons,
}

/// One axis of the camera: follow the target with a 16-pixel dead zone,
/// then clamp to the level.
pub open spec fn camera_axis(cam: int, target: int, limit: int) -> int {
    let c1 = if target - 0x10 > cam {
        target - 0x10
    } else if target + 0x10 < cam {
        target + 0x10
    } else {
        cam
    };
    if c1 < 0 {
        0
    } else if c1 > limit {
        limit
    } else {
        c1
    }
}

/// Pan one camera axis toward `target` with the dead zone, then clamp
/// into `[0, limit]`.
fn camera_axis_step(cam: i32, target: i32, limit: i32) -> (r: i32)
    requires
        -0x900000 <= target <= 0x900000,
        0 <= limit <= 0x100000,
    ensures
        r as int == camera_axis(cam as int, target as int, limit as int),
{
    let mut c = cam;
    if target.wrapping_sub(0x10) > c {
        c = target.wrapping_sub(0x10);
    } else if target.wrapping_add(0x10) < c {
        c = target.wrapping_add(0x10);
    }
    if c < 0 {
        0
    } else if c > limit {
        limit
    } else {
        c
    }
}

/// The all-empty grid a fresh foreground holds.
pub open spec fn zero_grid() -> Seq<u8> {
    Seq::new(65536, |i: int| 0u8)
}

/// The demo level's west chunk: the ground stretch and three block rows.
pub open spec fn demo_chunk0() -> Seq<u8> {
    seq![0x00u8, 0x2C, 0x01, 0xA7, 0x51, 0x01, 0xA5, 0x52, 0x01, 0xF7, 0x12]
}

/// The demo level's east chunk: the block staircase and two short rows.
pub open spec fn demo_chunk1() -> Seq<u8> {
    seq![
        0x01u8, 0x0B, 0x51, 0x01, 0x1A, 0x41, 0x01, 0x29, 0x31,
        0x01, 0x38, 0x21, 0x01, 0x65, 0x52,
        0x01, 0xAA, 0x23, 0x01, 0xAB, 0x23,
    ]
}

/// The demo level's grid, built from `g` by decoding the two inline
/// chunks at their 16-tile column bands.
pub open spec fn demo_decode(g: Seq<u8>) -> Result<Seq<u8>, DecodeError> {
    match decode_chunk_spec(g, demo_chunk0(), 0, 0, 0) {
        Result::Err(e) => Err(e),
        Result::Ok(g1) => decode_chunk_spec(g1, demo_chunk1(), 0, 16, 0),
    }
}

/// The west demo chunk decodes without error on any full-size grid.
pub proof fn lemma_demo_chunk0_ok(g: Seq<u8>)
    requires
        grid_wf(g),
    ensures
        decode_chunk_spec(g, demo_chunk0(), 0, 0, 0) matches Ok(go) && grid_wf(go),
{
    let s = demo_chunk0();
    assert(s.len() == 11);
    assert(s[0] == 0x00 && s[1] == 0x2C);
    lemma_hstretch_ok(g, 0, 0, 32, 12, 0);
    let g1 = hstretch_iter(g, 0, 0, 32, 12, 0).unwrap();
    assert(decode_chunk_spec(g, s, 0, 0, 0) == decode_chunk_spec(g1, s, 2, 0, 0));
    assert(s[2] == 0x01 && s[3] == 0xA7 && s[4] == 0x51);
    lemma_paint_line_right_ok(g1, 10, 7, 5, 1);
    let g2 = paint_line(g1, 10, 7, 5, 1, 0, 1).unwrap();
    assert(decode_chunk_spec(g1, s, 2, 0, 0) == decode_chunk_spec(g2, s, 5, 0, 0));
    assert(s[5] == 0x01 && s[6] == 0xA5 && s[7] == 0x52);
    lemma_paint_line_right_ok(g2, 10, 5, 5, 2);
    let g3 = paint_line(g2, 10, 5, 5, 1, 0, 2).unwrap();
    assert(decode_chunk_spec(g2, s, 5, 0, 0) == decode_chunk_spec(g3, s, 8, 0, 0));
    assert(s[8] == 0x01 && s[9] == 0xF7 && s[10] == 0x12);
    lemma_paint_line_right_ok(g3, 15, 7, 1, 2);
    let g4 = paint_line(g3, 15, 7, 1, 1, 0, 2).unwrap();
    assert(decode_chunk_spec(g3, s, 8, 0, 0) == decode_chunk_spec(g4, s, 11, 0, 0));
    assert(decode_chunk_spec(g4, s, 11, 0, 0) == Ok::<Seq<u8>, DecodeError>(g4));
}

/// The east demo chunk decodes without error on any full-size grid.
pub proof fn lemma_demo_chunk1_ok(g: Seq<u8>)
    requires
        grid_wf(g),
    ensures
        decode_chunk_spec(g, demo_chunk1(), 0, 16, 0) matches Ok(go) && grid_wf(go),
{
    let s = demo_chunk1();
    assert(s.len() == 21);
    assert(s[0] == 0x01 && s[1] == 0x0B && s[2] == 0x51);
    lemma_paint_line_right_ok(g, 16, 11, 5, 1);
    let g1 = paint_line(g, 16, 11, 5, 1, 0, 1).unwrap();
    assert(decode_chunk_spec(g, s, 0, 16, 0) == decode_chunk_spec(g1, s, 3, 16, 0));
    assert(s[3] == 0x01 && s[4] == 0x1A && s[5] == 0x41);
    lemma_paint_line_right_ok(g1, 17, 10, 4, 1);
    let g2 = paint_line(g1, 17, 10, 4, 1, 0, 1).unwrap();
    assert(decode_chunk_spec(g1, s, 3, 16, 0) == decode_chunk_spec(g2, s, 6, 16, 0));
    assert(s[6] == 0x01 && s[7] == 0x29 && s[8] == 0x31);
    lemma_paint_line_right_ok(g2, 18, 9, 3, 1);
    let g3 = paint_line(g2, 18, 9, 3, 1, 0, 1).unwrap();
    assert(decode_chunk_spec(g2, s, 6, 16, 0) == decode_chunk_spec(g3, s, 9, 16, 0));
    assert(s[9] == 0x01 && s[10] == 0x38 && s[11] == 0x21);
    lemma_paint_line_right_ok(g3, 19, 8, 2, 1);
    let g4 = paint_line(g3, 19, 8, 2, 1, 0, 1).unwrap();
    assert(decode_chunk_spec(g3, s, 9, 16, 0) == decode_chunk_spec(g4, s, 12, 16, 0));
    assert(s[12] == 0x01 && s[13] == 0x65 && s[14] == 0x52);
    lemma_paint_line_right_ok(g4, 22, 5, 5, 2);
    let g5 = paint_line(g4, 22, 5, 5, 1, 0, 2).unwrap();
    assert(decode_chunk_spec(g4, s, 12, 16, 0) == decode_chunk_spec(g5, s, 15, 16, 0));
    assert(s[15] == 0x01 && s[16] == 0xAA && s[17] == 0x23);
    lemma_paint_line_right_ok(g5, 26, 10, 2, 3);
    let g6 = paint_line(g5, 26, 10, 2, 1, 0, 3).unwrap();
    assert(decode_chunk_spec(g5, s, 15, 16, 0) == decode_chunk_spec(g6, s, 18, 16, 0));
    assert(s[18] == 0x01 && s[19] == 0xAB && s[20] == 0x23);
    lemma_paint_line_right_ok(g6, 26, 11, 2, 3);
    let g7 = paint_line(g6, 26, 11, 2, 1, 0, 3).unwrap();
    assert(decode_chunk_spec(g6, s, 18, 16, 0) == decode_chunk_spec(g7, s, 21, 16, 0));
    assert(decode_chunk_spec(g7, s, 21, 16, 0) == Ok::<Seq<u8>, DecodeError>(g7));
}

/// The demo level decodes without error on any full-size grid, to a
/// full-size grid.
pub proof fn lemma_demo_decode_ok(g: Seq<u8>)
    requires
        grid_wf(g),
    ensures
        demo_decode(g) matches Ok(gd) && grid_wf(gd),
{
    lemma_demo_chunk0_ok(g);
    let g1 = decode_chunk_spec(g, demo_chunk0(), 0, 0, 0).unwrap();
    lemma_demo_chunk1_ok(g1);
}

/// The west demo chunk's bytes.
fn demo_chunk0_bytes() -> (v: Vec<u8>)
    ensures
        v@ == demo_chunk0(),
{
    let mut v: Vec<u8> = Vec::new();
    v.push(0x00);
    v.push(0x2C);
    v.push(0x01);
    v.push(0xA7);
    v.push(0x51);
    v.push(0x01);
    v.push(0xA5);
    v.push(0x52);
    v.push(0x01);
    v.push(0xF7);
    v.push(0x12);
    v
}

/// The east demo chunk's bytes.
fn demo_chunk1_bytes() -> (v: Vec<u8>)
    ensures
        v@ == demo_chunk1(),
{
    let mut v: Vec<u8> = Vec::new();
    v.push(0x01);
    v.push(0x0B);
    v.push(0x51);
    v.push(0x01);
    v.push(0x1A);
    v.push(0x41);
    v.push(0x01);
    v.push(0x29);
    v.push(0x31);
    v.push(0x01);
    v.push(0x38);
    v.push(0x21);
    v.push(0x01);
    v.push(0x65);
    v.push(0x52);
    v.push(0x01);
    v.push(0xAA);
    v.push(0x23);
    v.push(0x01);
    v.push(0xAB);
    v.push(0x23);
    v
}

/// Build the demo level: two fixed inline opcode chunks, one per 16-tile
/// column band. Every opcode of both chunks paints within the grid, so
/// the build cannot fail.
pub fn decomp_level(foreground: &mut Foreground)
    requires
        old(foreground).wf(),
    ensures
        final(foreground).wf(),
        final(foreground).blocks@ == demo_decode(old(foreground).blocks@).unwrap(),
{
    proof {
        lemma_demo_decode_ok(old(foreground).blocks@);
        lemma_demo_chunk0_ok(old(foreground).blocks@);
    }
    let c0 = demo_chunk0_bytes();
    let r0 = decode_chunk(vec2(0, 0), &mut foreground.blocks, &c0);
    proof {
        assert(r0 is Ok);
        assert(foreground.blocks@ == decode_chunk_spec(old(foreground).blocks@, demo_chunk0(), 0, 0, 0).unwrap());
        lemma_demo_chunk1_ok(foreground.blocks@);
    }
    let c1 = demo_chunk1_bytes();
    let r1 = decode_chunk(vec2(16, 0), &mut foreground.blocks, &c1);
    proof {
        assert(r1 is Ok);
    }
}

/// The freshly built demo level: the decoded grid, the demo entities in
/// the first four pool slots, the player at the start position, and the
/// bookkeeping cleared.
pub open spec fn level_init(st: LevelState) -> bool {
    &&& st.wf()
    &&& st.camera == (Vec2 { x: 0, y: 60 })
    &&& st.foreground.blocks@ == demo_decode(zero_grid()).unwrap()
    &&& st.entity_set.list@.len() == 64
    &&& st.entity_set.list@[0] == Some(star_spec(Vec2 { x: (1480 * 256) as i32, y: (60 * 256) as i32 }))
    &&& st.entity_set.list@[1] == Some(key_spec(Vec2 { x: (0x288 * 256) as i32, y: (0x23F * 256) as i32 }))
    &&& st.entity_set.list@[2] == Some(lock_spec(Vec2 { x: (1640 * 256) as i32, y: (0x2CE * 256) as i32 }))
    &&& st.entity_set.list@[3] == Some(sign_spec(Vec2 { x: (472 * 256) as i32, y: (0x2BF * 256) as i32 }))
    &&& (forall|i: int| 4 <= i < 64 ==> st.entity_set.list@[i] is None)
    &&& st.entity_set.player == (Player {
        data: EntityData { pos: Vec2 { x: (0x68 * 256) as i32, y: (0x2BF * 256) as i32 }, ..player_init().data },
        ..player_init()
    })
    &&& st.data == (LevelData {
        level_size: Vec2 { x: 4096, y: 2048 },
        fadein_timer: 0,
        coins: 0,
        score: 0,
        timer: Some(0i32),
    })
    &&& st.buttons == (Buttons { current: 0u32, old: 0u32 })
}

/// How one simulation tick relates the level's new state to its old one:
/// the stored buttons replaced and the bookkeeping kept, and — whenever
/// the pool's and the player's arithmetic is exact — the pool ticked
/// once, the coins banked, and each camera axis panned after the player
/// within the dead zone and clamped to the level.
pub open spec fn level_run_rel(pre: LevelState, post: LevelState, buttons: Buttons) -> bool {
    &&& post.wf()
    &&& post.buttons == buttons
    &&& post.data.level_size == pre.data.level_size
    &&& post.data.fadein_timer == pre.data.fadein_timer
    &&& post.data.score == pre.data.score
    &&& post.data.timer == pre.data.timer
    &&& ((pool_ok(pre.entity_set.list@) && player_wf(pre.entity_set.player)) ==> ({
        let t = pool_run_spec(pre.entity_set.list@, pre.entity_set.player, pre.foreground.blocks@, buttons);
        &&& post.entity_set.list@ == t.0
        &&& post.entity_set.player == t.1
        &&& post.foreground.blocks@ == t.2
        &&& post.data.coins == wadd(pre.data.coins, t.3)
        &&& post.camera.x == camera_axis(
            pre.camera.x as int,
            div_t(t.1.data.pos.x as int, 256) - 160,
            pre.data.level_size.x - 320,
        )
        &&& post.camera.y == camera_axis(
            pre.camera.y as int,
            div_t(t.1.data.pos.y as int, 256) - 74,
            pre.data.level_size.y - 180,
        )
    }))
}

impl LevelState {
    /// A well-formed level: full-size layers, the pool's 64 slots, and a
    /// world at least one screen large within the exact camera range.
    pub open spec fn wf(&self) -> bool {
        &&& self.foreground.wf()
        &&& self.entity_set.wf()
        &&& 320 <= self.data.level_size.x <= 0x100000
        &&& 180 <= self.data.level_size.y <= 0x100000
    }

    /// The demo level: the decoded grid, the demo entities, and the
    /// player at the start position.
    pub fn new() -> (r: LevelState)
        ensures
            level_init(r),
    {
        let mut foreground = Foreground::new();
        proof {
            assert(foreground.blocks@ =~= zero_grid());
        }
        decomp_level(&mut foreground);
        let mut entity_set = EntitySet::new();
        let ghost l0 = entity_set.list@;
        entity_set.spawn(star(vec2(1480 * 256, 60 * 256)));
        let ghost l1 = entity_set.list@;
        proof {
            assert(first_free_from(l0, 0) == Some(0int));
            assert(l1 == l0.update(0, Some(star_spec(Vec2 { x: (1480 * 256) as i32, y: (60 * 256) as i32 }))));
        }
        entity_set.spawn(key(vec2(0x288 * 256, 0x23F * 256)));
        let ghost l2 = entity_set.list@;
        proof {
            assert(first_free_from(l1, 1) == Some(1int));
            assert(first_free_from(l1, 0) == Some(1int));
            assert(l2 == l1.update(1, Some(key_spec(Vec2 { x: (0x288 * 256) as i32, y: (0x23F * 256) as i32 }))));
        }
        entity_set.spawn(lock(vec2(1640 * 256, 0x2CE * 256)));
        let ghost l3 = entity_set.list@;
        proof {
            assert(first_free_from(l2, 2) == Some(2int));
            assert(first_free_from(l2, 1) == Some(2int));
            assert(first_free_from(l2, 0) == Some(2int));
            assert(l3 == l2.update(2, Some(lock_spec(Vec2 { x: (1640 * 256) as i32, y: (0x2CE * 256) as i32 }))));
        }
        entity_set.spawn(sign(vec2(472 * 256, 0x2BF * 256)));
        let ghost l4 = entity_set.list@;
        proof {
            assert(first_free_from(l3, 3) == Some(3int));
            assert(first_free_from(l3, 2) == Some(3int));
            assert(first_free_from(l3, 1) == Some(3int));
            assert(first_free_from(l3, 0) == Some(3int));
            assert(l4 == l3.update(3, Some(sign_spec(Vec2 { x: (472 * 256) as i32, y: (0x2BF * 256) as i32 }))));
        }
        entity_set.player.set_pos(vec2(0x68 * 256, 0x2BF * 256));
        LevelState {
            camera: vec2(0, 60),
            foreground,
            entity_set,
            data: LevelData {
                level_size: vec2(4096, 2048),
                fadein_timer: 0,
                coins: 0,
                score: 0,
                timer: Some(0),
            },
            buttons: Buttons::new(),
        }
    }

    /// One simulation tick: run the entity pool against this level's
    /// grid, bank the collected coins, and pan the camera after the
    /// player with a dead zone, clamped to the level.
    pub fn run(&mut self, buttons: Buttons)
        requires
            old(self).wf(),
        ensures
            level_run_rel(*old(self), *final(self), buttons),
    {
        self.buttons = buttons;
        let coins = self.entity_set.run(&mut self.foreground, buttons);
        self.data.coins = self.data.coins.wrapping_add(coins);
        let ppos = self.entity_set.player.pos();
        let tx: i32 = (ppos.x / 256).wrapping_sub(160);
        let ty: i32 = (ppos.y / 256).wrapping_sub(90).wrapping_add(16);
        proof {
            assert(tx as int == div_t(ppos.x as int, 256) - 160);
            assert(ty as int == div_t(ppos.y as int, 256) - 74);
        }
        let lim_x: i32 = self.data.level_size.x - 320;
        let lim_y: i32 = self.data.level_size.y - 180;
        self.camera.x = camera_axis_step(self.camera.x, tx, lim_x);
        self.camera.y = camera_axis_step(self.camera.y, ty, lim_y);
    }
}

/// The game's top-level mode.
pub enum GameState {
    Level(LevelState),
    Oops,
}

impl GameState {
    /// Start in the demo level.
    pub fn new() -> (r: GameState)
        ensures
            r matches GameState::Level(st) && level_init(st),
    {
        GameState::Level(LevelState::new())
    }

    /// One tick of whichever mode is active: a level advances by one
    /// simulation tick; the fallback mode is inert.
    pub fn run(&mut self, buttons: Buttons)
        requires
            (*old(self)) matches GameState::Level(st) ==> st.wf(),
        ensures
            (*final(self)) matches GameState::Level(st2) ==> st2.wf(),
            (*old(self)) is Oops ==> *final(self) == *old(self),
            (*old(self)) matches GameState::Level(st) ==>
                (*final(self)) matches GameState::Level(st2) && level_run_rel(st, st2, buttons),
    {
        match self {
            GameState::Level(st) => {
                st.run(buttons);
            },
            GameState::Oops => {},
        }
    }
}

} // verus!
