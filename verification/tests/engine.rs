//! End-to-end tests of the engine core: the terrain decoder, the
//! collision resolver, the entity pool and the player.
use tooth_engine::collision::clamp_opt;
use tooth_engine::controller::Buttons;
use tooth_engine::entity::{lock, star, Effects, EntityData, EntityKind};
use tooth_engine::foreground::{Foreground, Solidity};
use tooth_engine::framebuffer::Framebuffer;
use tooth_engine::pool::EntitySet;
use tooth_engine::rand::RandState;
use tooth_engine::state::{GameState, LevelState};
use tooth_engine::terrain::{
    decode_area, decode_land, encode_land, parse_land_records, DecodeError, LandRecord,
};
use tooth_engine::vec2::{vec2, Vec2};

fn fresh_grid() -> Vec<u8> {
    vec![0u8; 65536]
}

fn record(x: u8, y: u8, w: u8, h: u8, tile: u8) -> LandRecord {
    LandRecord { x, y, w, h, tile }
}

#[test]
fn land_round_trip_concrete() {
    let recs = vec![
        record(1, 10, 4, 1, 0x62),
        record(0, 0, 0, 20, 7),
        record(200, 100, 40, 33, 0x62),
    ];
    let bytes = encode_land(&recs);
    let back = parse_land_records(&bytes).expect("well-formed section");
    assert_eq!(back.len(), recs.len());
    for (a, b) in back.iter().zip(recs.iter()) {
        assert_eq!(a, b);
    }
}

#[test]
fn decode_is_deterministic() {
    let recs = vec![record(1, 10, 14, 3, 0x62), record(30, 8, 9, 9, 0x62)];
    let bytes = encode_land(&recs);
    let mut g1 = fresh_grid();
    let mut g2 = fresh_grid();
    decode_land(&mut g1, &bytes).unwrap();
    decode_land(&mut g2, &bytes).unwrap();
    assert_eq!(g1, g2);
}

#[test]
fn land_fill_and_edge_variants() {
    // One row of four interior tiles: the auto-tile pass picks the
    // left-edge, middle and right-edge variants from the neighbors.
    let recs = vec![record(1, 10, 4, 1, 0x62)];
    let bytes = encode_land(&recs);
    let mut g = fresh_grid();
    decode_land(&mut g, &bytes).unwrap();
    assert_eq!(g[10 * 256 + 1], 0x41);
    assert_eq!(g[10 * 256 + 2], 0x42);
    assert_eq!(g[10 * 256 + 3], 0x42);
    assert_eq!(g[10 * 256 + 4], 0x43);
    assert_eq!(g[10 * 256 + 0], 0);
    assert_eq!(g[10 * 256 + 5], 0);
    // Every filled cell classifies as plain solid ground.
    let mut fg = Foreground::new();
    fg.blocks = g;
    for x in 1..5 {
        assert_eq!(fg.solidity_at(vec2(x, 10)), Solidity::Solid);
    }
    // The same row placed against the grid's west edge: column -1 is out
    // of range and counts as non-solid, so (0, 10) is the left edge.
    let recs = vec![record(0, 10, 4, 1, 0x62)];
    let bytes = encode_land(&recs);
    let mut g = fresh_grid();
    decode_land(&mut g, &bytes).unwrap();
    assert_eq!(g[10 * 256 + 0], 0x41);
    assert_eq!(g[10 * 256 + 1], 0x42);
    assert_eq!(g[10 * 256 + 2], 0x42);
    assert_eq!(g[10 * 256 + 3], 0x43);
    assert_eq!(g[10 * 256 + 4], 0);
}

#[test]
fn hurt_top_probe_knocks_up_and_resets_angle() {
    // A downward probe over a hurt-top tile blocks at the tile's top,
    // imparts the upward knockback impulse and resets the slope class.
    let mut fg = Foreground::new();
    fg.set_block(vec2(6, 10), 0x05);
    let mut d = EntityData::new();
    d.pos = vec2((6 * 16 + 4) * 256, (10 * 16 - 8) * 256);
    d.vel = vec2(0, 300);
    d.angle = 2;
    let mut fx = Effects::new();
    let r = d.sensor_down(vec2(6 * 16 + 4, 10 * 16 + 2), 0, &mut fg, &mut fx);
    assert_eq!(r, Some(10 * 16 * 256 - 256));
    assert_eq!(d.vel.y, -2048);
    assert_eq!(d.angle, 0);
}

#[test]
fn decode_area_truncated_is_an_error() {
    let mut g = fresh_grid();
    assert_eq!(decode_area(&mut g, &vec![0x00]), Err(DecodeError::Truncated));
    // Declared land length longer than the stream.
    assert_eq!(decode_area(&mut g, &vec![0x00, 0x09, 1, 2]), Err(DecodeError::Truncated));
}

#[test]
fn decode_area_chunks_paint_rows() {
    // Land section empty, then one chunk at (1, 0) with a row-of-blocks
    // opcode: id 1, y/x nibbles (2, 3), width 4 of block 7.
    let stream = vec![0x00u8, 0x00, 0x10, 0x03, 0x01, 0x23, 0x47];
    let mut g = fresh_grid();
    decode_area(&mut g, &stream).unwrap();
    for i in 0..4 {
        assert_eq!(g[2 * 256 + 16 + 3 + i], 7);
    }
    assert_eq!(g[2 * 256 + 16 + 2], 0);
    assert_eq!(g[2 * 256 + 16 + 7], 0);
}

#[test]
fn unknown_opcode_is_a_no_op() {
    // An unknown opcode ID consumes only its three header bytes.
    let stream = vec![0x00u8, 0x00, 0x00, 0x06, 0x7F, 0x23, 0x47, 0x01, 0x23, 0x47];
    let mut g = fresh_grid();
    decode_area(&mut g, &stream).unwrap();
    for i in 0..4 {
        assert_eq!(g[2 * 256 + 3 + i], 7);
    }
}

#[test]
fn rand_stream_is_reproducible() {
    let mut a = RandState::new(0);
    let mut b = RandState::new(0);
    let first = a.next();
    for _ in 0..100 {
        b.next();
        a.next();
    }
    let mut c = RandState::new(0);
    assert_eq!(c.next(), first);
    assert_ne!(a.state, b.state);
}

#[test]
fn solidity_table() {
    assert_eq!(tooth_engine::foreground::classify(0x00), Solidity::NonSolid);
    assert_eq!(tooth_engine::foreground::classify(0x02), Solidity::Coin);
    assert_eq!(tooth_engine::foreground::classify(0x04), Solidity::Semisolid);
    assert_eq!(tooth_engine::foreground::classify(0x05), Solidity::HurtTop);
    assert_eq!(tooth_engine::foreground::classify(0x49), Solidity::Slab);
    assert_eq!(tooth_engine::foreground::classify(0x52), Solidity::EjectUp);
    assert_eq!(tooth_engine::foreground::classify(0x46), Solidity::SlopeSteep(false));
    assert_eq!(tooth_engine::foreground::classify(0x64), Solidity::SlopeLow(false));
    assert_eq!(tooth_engine::foreground::classify(0x75), Solidity::SlopeHigh(true));
    assert_eq!(tooth_engine::foreground::classify(0x99), Solidity::NonSolid);
    assert_eq!(tooth_engine::foreground::classify(0x13), Solidity::Solid);
}

#[test]
fn nearest_probe_wins_regardless_of_order() {
    // The downward pass takes the smallest clamp; the sideways pass the
    // largest; evaluation order never matters.
    assert_eq!(clamp_opt(Some(5), Some(3), true), Some(3));
    assert_eq!(clamp_opt(Some(3), Some(5), true), Some(3));
    assert_eq!(clamp_opt(Some(5), Some(3), false), Some(5));
    assert_eq!(clamp_opt(Some(3), Some(5), false), Some(5));
    assert_eq!(clamp_opt(None, Some(9), true), Some(9));
    assert_eq!(clamp_opt(Some(9), None, true), Some(9));
    let none_case: Option<i32> = clamp_opt(None, None, true);
    assert_eq!(none_case, None);
}

#[test]
fn falling_entity_lands_on_solid_top() {
    // A solid tile row at tile y = 10; the entity falls onto it and is
    // snapped to the surface with its vertical velocity cleared.
    let mut fg = Foreground::new();
    for x in 0..16 {
        fg.set_block(vec2(x, 10), 0x13);
    }
    let mut d = EntityData::new();
    d.pos = vec2(88 * 256, 158 * 256);
    d.vel = vec2(0, 300);
    d.on_ground = false;
    let mut fx = Effects::new();
    d.process_collision(&mut fg, &mut fx);
    assert!(d.on_ground);
    assert!(d.blocked_down);
    assert_eq!(d.vel.y, 0);
    assert_eq!(d.pos.y, 10 * 16 * 256 - 256);
}

#[test]
fn sideways_block_stops_at_tile_edge() {
    let mut fg = Foreground::new();
    for y in 0..16 {
        fg.set_block(vec2(10, y), 0x13);
    }
    let mut d = EntityData::new();
    d.pos = vec2(150 * 256, 80 * 256);
    d.vel = vec2(16 * 256, 0);
    d.on_ground = false;
    let mut fx = Effects::new();
    d.process_collision(&mut fg, &mut fx);
    assert!(d.blocked_right);
    assert_eq!(d.vel.x, 0);
    // The hitbox's right edge ends one pixel short of the wall column.
    assert_eq!(d.pos.x / 256 + d.hitbox.x / 2, 10 * 16 - 1);
}

#[test]
fn coin_pickup_clears_tile_and_spawns_reward() {
    let mut fg = Foreground::new();
    fg.set_block(vec2(5, 10), 0x02);
    let mut d = EntityData::new();
    d.pos = vec2((5 * 16 + 8) * 256, 158 * 256);
    d.vel = vec2(0, 300);
    d.on_ground = false;
    let mut fx = Effects::new();
    d.process_collision(&mut fg, &mut fx);
    assert_eq!(fg.block_at(vec2(5, 10)), 0);
    assert_eq!(fx.coins, 1);
    assert_eq!(fx.spawns.len(), 1);
    assert!(matches!(fx.spawns[0].kind, EntityKind::Explosion { time_left: 16 }));
}

#[test]
fn slope_walk_is_continuous() {
    // Walking right across a low-to-high gentle slope pair: the resolved
    // ground heights descend monotonically with no step over one tile.
    let mut fg = Foreground::new();
    fg.set_block(vec2(4, 10), 0x64);
    fg.set_block(vec2(5, 10), 0x65);
    fg.set_block(vec2(6, 10), 0x46);
    let mut last_y: Option<i32> = None;
    for px in 64..112 {
        let mut d = EntityData::new();
        d.pos = vec2(px * 256, (10 * 16 + 8) * 256);
        d.vel = vec2(0, 64);
        d.on_ground = true;
        let mut fx = Effects::new();
        d.process_collision(&mut fg, &mut fx);
        if d.blocked_down {
            if let Some(prev) = last_y {
                let step = (d.pos.y - prev).abs();
                assert!(step <= 16 * 256, "discontinuous step at {}: {}", px, step);
            }
            last_y = Some(d.pos.y);
        }
    }
    assert!(last_y.is_some());
}

#[test]
fn pool_full_spawn_is_a_no_op() {
    let mut set = EntitySet::new();
    for i in 0..64 {
        set.spawn(lock(vec2(i * 16 * 256, 0)));
    }
    for i in 0..64 {
        assert!(matches!(set.list[i].as_ref().unwrap().kind, EntityKind::Lock));
    }
    // The pool is full: a 65th spawn is dropped silently.
    set.spawn(star(vec2(7, 7)));
    for i in 0..64 {
        let e = set.list[i].as_ref().unwrap();
        assert!(matches!(e.kind, EntityKind::Lock));
        assert_eq!(e.data.pos, vec2(i as i32 * 16 * 256, 0));
    }
}

#[test]
fn explosion_counts_down_and_dies() {
    let mut set = EntitySet::new();
    set.spawn(tooth_engine::entity::explosion(vec2(100, 100)));
    let mut fg = Foreground::new();
    for _ in 0..15 {
        set.run(&mut fg, Buttons::new());
        assert!(set.list[0].is_some());
    }
    set.run(&mut fg, Buttons::new());
    assert!(set.list[0].is_none());
}

#[test]
fn star_bounces_and_expires_into_explosion() {
    let mut fg = Foreground::new();
    for x in 0..32 {
        fg.set_block(vec2(x, 12), 0x13);
    }
    let mut set = EntitySet::new();
    set.spawn(star(vec2(40 * 256, (12 * 16 - 20) * 256)));
    set.player.set_pos(vec2(4000 * 256, 0));
    let mut bounced = false;
    for _ in 0..600 {
        set.run(&mut fg, Buttons::new());
        if let Some(e) = set.list[0].as_ref() {
            if e.data.vel.y < 0 {
                bounced = true;
            }
        }
    }
    assert!(bounced);
    // After its countdown the star is gone, replaced by its explosion.
    assert!(set.list[0].is_none() || !matches!(set.list[0].as_ref().unwrap().kind, EntityKind::Star { .. }));
}

#[test]
fn buttons_edge_detection() {
    let b = Buttons { current: 0b10100000, old: 0b00100000 };
    assert!(b.a());
    assert!(b.c());
    assert!(!b.a_edge());
    assert!(b.c_edge());
    assert!(!b.left());
}

#[test]
fn player_jump_and_land() {
    let mut fg = Foreground::new();
    for x in 0..32 {
        fg.set_block(vec2(x, 12), 0x13);
    }
    let mut set = EntitySet::new();
    set.player.set_pos(vec2(100 * 256, (12 * 16 - 1) * 256));
    // One tick with the jump button freshly pressed.
    let jump = Buttons { current: 0b100000, old: 0 };
    set.run(&mut fg, jump);
    assert!(set.player.data.vel.y < 0 || set.player.data.blocked_down);
    // Released: gravity brings the player back to the ground.
    let mut landed = false;
    for _ in 0..200 {
        set.run(&mut fg, Buttons::new());
        if set.player.data.on_ground {
            landed = true;
            break;
        }
    }
    assert!(landed);
    assert_eq!(set.player.data.pos.y, (12 * 16) * 256 - 256);
}

#[test]
fn framebuffer_clips_silently() {
    let mut fb = Framebuffer::new();
    fb.set_pixel(vec2(-5, 10), 0xFFFFFFFF);
    fb.set_pixel(vec2(5, 1000), 0xFFFFFFFF);
    fb.set_pixel(vec2(5, 10), 0xFF123456);
    assert_eq!(fb.pixel(vec2(5, 10)), Some(0xFF123456));
    assert_eq!(fb.pixel(vec2(-5, 10)), None);
    assert_eq!(fb.pixel(vec2(320, 0)), None);
}

#[test]
fn level_state_ticks() {
    let mut st = LevelState::new();
    st.run(Buttons::new());
    st.run(Buttons { current: 0b10, old: 0 });
    assert_eq!(st.buttons.current, 0b10);
    let mut gs = GameState::new();
    gs.run(Buttons::new());
}

#[test]
fn demo_level_decodes_deterministically() {
    let a = LevelState::new();
    let b = LevelState::new();
    assert_eq!(a.foreground.blocks, b.foreground.blocks);
    // The west chunk's ground stretch: soil tops over soil body.
    assert_eq!(a.foreground.blocks[12 * 256 + 0], 0x22);
    assert_eq!(a.foreground.blocks[12 * 256 + 31], 0x22);
    assert_eq!(a.foreground.blocks[13 * 256 + 0], 0x32);
    assert_eq!(a.foreground.blocks[15 * 256 + 31], 0x32);
    assert_eq!(a.foreground.blocks[12 * 256 + 32], 0);
    // The west chunk's block rows.
    assert_eq!(a.foreground.blocks[7 * 256 + 10], 1);
    assert_eq!(a.foreground.blocks[5 * 256 + 10], 2);
    assert_eq!(a.foreground.blocks[7 * 256 + 15], 2);
    // The east chunk's staircase and rows, offset by 16 tiles.
    assert_eq!(a.foreground.blocks[11 * 256 + 16], 1);
    assert_eq!(a.foreground.blocks[8 * 256 + 19], 1);
    assert_eq!(a.foreground.blocks[5 * 256 + 22], 2);
    assert_eq!(a.foreground.blocks[10 * 256 + 26], 3);
    // The fresh level's bookkeeping.
    assert_eq!(a.camera, vec2(0, 60));
    assert_eq!(a.data.coins, 0);
    assert_eq!(a.data.level_size, vec2(4096, 2048));
    assert!(a.entity_set.list[0].is_some());
    assert!(a.entity_set.list[3].is_some());
    assert!(a.entity_set.list[4].is_none());
    assert_eq!(a.entity_set.player.pos(), vec2(0x68 * 256, 0x2BF * 256));
}

#[test]
fn camera_follows_player_with_clamp() {
    let mut st = LevelState::new();
    // Park the player over empty terrain near the east end: one tick
    // pans each camera axis toward the player, and the x axis hits the
    // level clamp.
    st.entity_set.player.set_pos(vec2(4000 * 256, 300 * 256));
    st.run(Buttons::new());
    assert_eq!(st.entity_set.player.pos(), vec2(4000 * 256, 300 * 256));
    assert_eq!(st.camera.x, 4096 - 320);
    assert_eq!(st.camera.y, 300 - 74 - 16);
}

#[test]
fn vec2_componentwise_helpers() {
    let v = vec2(-33, 47);
    let h = v.div_trunc(16);
    assert_eq!(h, Vec2 { x: -2, y: 2 });
    let s = v.wrapping_plus(vec2(1, 1));
    assert_eq!(s, vec2(-32, 48));
}
