//! Terrain bytecode decoder.
//!
//! A level is a compact opcode stream: a 16-bit big-endian length prefix,
//! that many bytes of variable-length "land" rectangle records, then a
//! sequence of object chunks, each addressing a 16x16-tile region and
//! carrying its own self-delimiting opcode stream. Decoding expands the
//! stream into the flat 256x256 byte grid of tile IDs, then an auto-tiling
//! pass rewrites every generic interior cell into an edge or corner variant
//! chosen from its four neighbors' solidity, scattering cosmetic decoration
//! tiles with a deterministically seeded generator.
use vstd::prelude::*;

use crate::rand::{rand_step, RandState};

verus! {

/// Tile ID of the generic "filled interior" marker that the auto-tiling
/// pass rewrites.
pub const FILL_TILE: u8 = 0x62;

/// The generator seed fixed at the start of every land decode, so that
/// decoration placement is reproducible.
pub const DECOR_SEED: i32 = 0;

/// One land rectangle: fill the `w` x `h` rectangle at `(x, y)` with `tile`.
#[derive(Copy, Clone, Debug, PartialEq, Eq, Structural)]
pub struct LandRecord {
    pub x: u8,
    pub y: u8,
    pub w: u8,
    pub h: u8,
    pub tile: u8,
}

/// Why a level stream was rejected.
#[derive(Copy, Clone, Debug, PartialEq, Eq, Structural)]
pub enum DecodeError {
    /// The stream ended before a declared length was satisfied.
    Truncated,
    /// An opcode painted outside the 256x256 grid.
    OutOfBounds,
}

/// Flat index of cell `(x, y)` in the 256x256 grid.
pub open spec fn cell(x: int, y: int) -> int {
    x + y * 256
}

/// A well-formed grid buffer: one byte per cell.
pub open spec fn grid_wf(g: Seq<u8>) -> bool {
    g.len() == 65536
}

/// Does the rectangle of `r` cover cell `(i, j)`? The row and column spans
/// wrap at 256 exactly as the decoder's 8-bit loop counters do, so a
/// rectangle whose end wraps past 255 covers nothing.
pub open spec fn land_covers(r: LandRecord, i: int, j: int) -> bool {
    let xe = vstd::wrapping::u8_specs::wrapping_add(r.x, r.w);
    let ye = vstd::wrapping::u8_specs::wrapping_add(r.y, r.h);
    r.x <= i < xe && r.y <= j < ye
}

/// The grid after filling one land rectangle.
pub open spec fn fill_one(g: Seq<u8>, r: LandRecord) -> Seq<u8> {
    Seq::new(g.len(), |idx: int| if land_covers(r, idx % 256, idx / 256) { r.tile } else { g[idx] })
}

/// The grid after filling a list of land rectangles, in order.
pub open spec fn fill_list(g: Seq<u8>, rs: Seq<LandRecord>) -> Seq<u8>
    decreases rs.len(),
{
    if rs.len() == 0 {
        g
    } else {
        fill_list(fill_one(g, rs[0]), rs.skip(1))
    }
}

/// Appending a record fills it last.
pub proof fn lemma_fill_list_push(g: Seq<u8>, rs: Seq<LandRecord>, r: LandRecord)
    ensures
        fill_list(g, rs.push(r)) == fill_one(fill_list(g, rs), r),
    decreases rs.len(),
{
    if rs.len() == 0 {
        assert(rs.push(r).skip(1) =~= seq![r].skip(1));
        assert(rs.push(r)[0] == r);
        assert(fill_list(g, rs.push(r)) == fill_list(fill_one(g, r), rs.push(r).skip(1)));
        assert(rs.push(r).skip(1) =~= Seq::<LandRecord>::empty());
    } else {
        assert(rs.push(r).skip(1) =~= rs.skip(1).push(r));
        assert(rs.push(r)[0] == rs[0]);
        lemma_fill_list_push(fill_one(g, rs[0]), rs.skip(1), r);
    }
}

/// Filling a list never changes the grid's size.
pub proof fn lemma_fill_list_len(g: Seq<u8>, rs: Seq<LandRecord>)
    ensures
        fill_list(g, rs).len() == g.len(),
    decreases rs.len(),
{
    if rs.len() != 0 {
        lemma_fill_list_len(fill_one(g, rs[0]), rs.skip(1));
    }
}

/// Edge-variant selector: which of the two neighbors on an axis are solid.
pub open spec fn edge_code(near: bool, far: bool) -> u8 {
    if near { if far { 2 } else { 3 } } else { if far { 1 } else { 0 } }
}

/// One cell of the auto-tiling raster pass at `(x, y)`: a generic interior
/// cell becomes the edge variant chosen from its four neighbors (a
/// neighbor outside the grid counts as non-solid, so a filled cell on the
/// grid's boundary reads as an edge; a top soil cell may scatter a
/// decoration tile above itself, advancing the generator); an empty cell
/// synthesizes convex corner tiles into the diagonal neighbors where two
/// adjacent edges are both solid.
pub open spec fn tile_step(g: Seq<u8>, rs: i32, x: int, y: int) -> (Seq<u8>, i32)
    recommends
        grid_wf(g),
        0 <= x < 256,
        0 <= y < 256,
{
    let top = y >= 1 && g[cell(x, y - 1)] != 0;
    let bottom = y <= 254 && g[cell(x, y + 1)] != 0;
    let left = x >= 1 && g[cell(x - 1, y)] != 0;
    let right = x <= 254 && g[cell(x + 1, y)] != 0;
    let this = g[cell(x, y)];
    if this == FILL_TILE {
        let b = ((edge_code(top, bottom) + 4) * 16 + edge_code(left, right)) as u8;
        let g1 = g.update(cell(x, y), b);
        if b == 0x52 {
            let r1 = rand_step(rs);
            if r1 & 0xF < 4 && y >= 1 {
                (g1.update(cell(x, y - 1), (0x80 + (r1 & 0xF)) as u8), r1)
            } else {
                (g1, r1)
            }
        } else {
            (g1, rs)
        }
    } else if this == 0 {
        let g1 = if top && left && x >= 1 && y >= 1 { g.update(cell(x - 1, y - 1), 0x44) } else { g };
        let g2 = if top && right && x <= 254 && y >= 1 { g1.update(cell(x + 1, y - 1), 0x45) } else { g1 };
        let g3 = if bottom && left && x >= 1 && y <= 254 { g2.update(cell(x - 1, y + 1), 0x54) } else { g2 };
        let g4 = if bottom && right && x <= 254 && y <= 254 { g3.update(cell(x + 1, y + 1), 0x55) } else { g3 };
        (g4, rs)
    } else {
        (g, rs)
    }
}

/// The auto-tiling pass over the first `k` cells, in raster order
/// (cell `k` sits at column `k % 256` of row `k / 256`).
pub open spec fn tile_pass_upto(g: Seq<u8>, rs: i32, k: nat) -> (Seq<u8>, i32)
    decreases k,
{
    if k == 0 {
        (g, rs)
    } else {
        let prev = tile_pass_upto(g, rs, (k - 1) as nat);
        tile_step(prev.0, prev.1, ((k - 1) as int) % 256, ((k - 1) as int) / 256)
    }
}

/// The full auto-tiling pass, with the generator freshly seeded.
pub open spec fn tile_pass(g: Seq<u8>) -> Seq<u8> {
    tile_pass_upto(g, DECOR_SEED, 65536).0
}

/// One auto-tiling step never changes the grid's size.
pub proof fn lemma_tile_step_len(g: Seq<u8>, rs: i32, x: int, y: int)
    requires
        grid_wf(g),
        0 <= x < 256,
        0 <= y < 256,
    ensures
        grid_wf(tile_step(g, rs, x, y).0),
{
}

/// The auto-tiling pass never changes the grid's size.
pub proof fn lemma_tile_pass_len(g: Seq<u8>, rs: i32, k: nat)
    requires
        grid_wf(g),
        k <= 65536,
    ensures
        grid_wf(tile_pass_upto(g, rs, k).0),
    decreases k,
{
    if k > 0 {
        lemma_tile_pass_len(g, rs, (k - 1) as nat);
        let prev = tile_pass_upto(g, rs, (k - 1) as nat);
        let ki = (k - 1) as int;
        assert(0 <= ki % 256 < 256 && 0 <= ki / 256 < 256) by (nonlinear_arith)
            requires 0 <= ki && ki < 65536;
        lemma_tile_step_len(prev.0, prev.1, ((k - 1) as int) % 256, ((k - 1) as int) / 256);
    }
}

/// Run the auto-tiling raster pass over the whole grid.
fn run_tile_pass(buf: &mut Vec<u8>)
    requires
        grid_wf(old(buf)@),
    ensures
        final(buf)@ == tile_pass(old(buf)@),
{
    let ghost g0 = buf@;
    let mut rand = RandState::new(DECOR_SEED);
    let mut y: u16 = 0;
    while y < 256
        invariant
            grid_wf(buf@),
            0 <= y <= 256,
            (buf@, rand.state) == tile_pass_upto(g0, DECOR_SEED, (y * 256) as nat),
            grid_wf(g0),
        decreases 256 - y,
    {
        let mut x: u16 = 0;
        while x < 256
            invariant
                grid_wf(buf@),
                0 <= x <= 256,
                0 <= y < 256,
                (buf@, rand.state) == tile_pass_upto(g0, DECOR_SEED, (y * 256 + x) as nat),
                grid_wf(g0),
            decreases 256 - x,
        {
            let ghost k: nat = (y * 256 + x) as nat;
            let ghost gk = buf@;
            let ghost rk = rand.state;
            proof {
                assert((k + 1 - 1) as int % 256 == x as int && (k + 1 - 1) as int / 256 == y as int)
                    by (nonlinear_arith)
                    requires k == y * 256 + x && 0 <= x < 256 && 0 <= y < 256;
            }
            let xi: usize = x as usize;
            let yi: usize = y as usize;
            let top: bool = yi >= 1 && buf[xi + (yi - 1) * 256] != 0;
            let bottom: bool = yi <= 254 && buf[xi + (yi + 1) * 256] != 0;
            let left: bool = xi >= 1 && buf[(xi - 1) + yi * 256] != 0;
            let right: bool = xi <= 254 && buf[(xi + 1) + yi * 256] != 0;
            let this: u8 = buf[xi + yi * 256];
            if this == FILL_TILE {
                let bh: u8 = (if top { if bottom { 2 } else { 3 } } else { if bottom { 1 } else { 0 } }) + 4;
                let bl: u8 = if left { if right { 2 } else { 3 } } else { if right { 1 } else { 0 } };
                let b: u8 = bh * 16 + bl;
                buf.set(xi + yi * 256, b);
                if b == 0x52 {
                    let rv: i32 = rand.next();
                    let ty: i32 = rv & 0x0F;
                    proof {
                        assert(0 <= rv & 0x0F && rv & 0x0F <= 15) by (bit_vector);
                    }
                    if ty < 4 && yi >= 1 {
                        buf.set(xi + (yi - 1) * 256, 0x80 + ty as u8);
                    }
                }
            } else if this == 0 {
                if top && left {
                    assert(xi >= 1 && yi >= 1);
                    buf.set((xi - 1) + (yi - 1) * 256, 0x44);
                }
                if top && right {
                    assert(xi <= 254 && yi >= 1);
                    buf.set((xi + 1) + (yi - 1) * 256, 0x45);
                }
                if bottom && left {
                    assert(xi >= 1 && yi <= 254);
                    buf.set((xi - 1) + (yi + 1) * 256, 0x54);
                }
                if bottom && right {
                    assert(xi <= 254 && yi <= 254);
                    buf.set((xi + 1) + (yi + 1) * 256, 0x55);
                }
            }
            proof {
                assert((buf@, rand.state) == tile_step(gk, rk, x as int, y as int));
                assert(tile_pass_upto(g0, DECOR_SEED, (k + 1) as nat) == tile_step(gk, rk, x as int, y as int));
            }
            x = x + 1;
        }
        y = y + 1;
    }
}

/// The encoded bytes of one land record: x, y, a packed nibble byte
/// (high nibble width, low nibble height), an extension byte for each
/// nibble that is zero (covering values of zero or above 15), then the
/// tile byte.
pub open spec fn record_bytes(r: LandRecord) -> Seq<u8> {
    let wn: u8 = if 1 <= r.w <= 15 { r.w } else { 0 };
    let hn: u8 = if 1 <= r.h <= 15 { r.h } else { 0 };
    let head = seq![r.x, r.y, (wn * 16 + hn) as u8];
    let with_w = if wn == 0 { head.push(r.w) } else { head };
    let with_h = if hn == 0 { with_w.push(r.h) } else { with_w };
    with_h.push(r.tile)
}

/// The bytes of a whole land section.
pub open spec fn encode_list(rs: Seq<LandRecord>) -> Seq<u8>
    decreases rs.len(),
{
    if rs.len() == 0 {
        Seq::empty()
    } else {
        record_bytes(rs[0]) + encode_list(rs.skip(1))
    }
}

/// Parse one land record from the front of `s`: the record and how many
/// bytes it took, or nothing when `s` is cut off.
pub open spec fn parse_record(s: Seq<u8>) -> Option<(LandRecord, int)> {
    if s.len() < 3 {
        None
    } else {
        let wn = s[2] / 16;
        let hn = s[2] % 16;
        let n = 4 + (if wn == 0 { 1int } else { 0int }) + (if hn == 0 { 1int } else { 0int });
        if s.len() < n {
            None
        } else {
            let w = if wn == 0 { s[3] } else { wn as u8 };
            let h = if hn == 0 { (if wn == 0 { s[4] } else { s[3] }) } else { hn as u8 };
            Some((LandRecord { x: s[0], y: s[1], w, h, tile: s[n - 1] }, n))
        }
    }
}

/// Parse a whole land section into records; nothing when any record is
/// cut off.
pub open spec fn parse_land(s: Seq<u8>) -> Option<Seq<LandRecord>>
    decreases s.len(),
{
    if s.len() == 0 {
        Some(Seq::empty())
    } else {
        match parse_record(s) {
            Option::None => None,
            Option::Some((r, n)) => match parse_land(s.skip(n)) {
                Option::None => None,
                Option::Some(rest) => Some(seq![r] + rest),
            },
        }
    }
}

/// Parsing the encoding of one record from the front of any stream gives
/// that record back and consumes exactly its bytes.
pub proof fn lemma_parse_record_prefix(r: LandRecord, rest: Seq<u8>)
    ensures
        parse_record(record_bytes(r) + rest) == Some((r, record_bytes(r).len() as int)),
{
    let wn: u8 = if 1 <= r.w <= 15 { r.w } else { 0 };
    let hn: u8 = if 1 <= r.h <= 15 { r.h } else { 0 };
    let s = record_bytes(r) + rest;
    assert(s[2] == (wn * 16 + hn) as u8);
    assert((wn * 16 + hn) / 16 == wn && (wn * 16 + hn) % 16 == hn) by (nonlinear_arith)
        requires 0 <= wn < 16 && 0 <= hn < 16;
}

/// Law: a land section encoded from a list of rectangle records parses
/// back to exactly the same records — so re-decoding an encoded level
/// reproduces the same filled cell set before the auto-tiling pass.
pub proof fn lemma_land_round_trip(g: Seq<u8>, rs: Seq<LandRecord>)
    ensures
        parse_land(encode_list(rs)) == Some(rs),
        fill_list(g, parse_land(encode_list(rs)).unwrap()) == fill_list(g, rs),
    decreases rs.len(),
{
    if rs.len() == 0 {
        assert(encode_list(rs).len() == 0);
        assert(parse_land(encode_list(rs)) == Some(Seq::<LandRecord>::empty()));
        assert(rs =~= Seq::<LandRecord>::empty());
    } else {
        let head = record_bytes(rs[0]);
        let tail = encode_list(rs.skip(1));
        lemma_parse_record_prefix(rs[0], tail);
        assert(encode_list(rs) == head + tail);
        assert(encode_list(rs).len() >= head.len());
        assert((head + tail).skip(head.len() as int) =~= tail);
        lemma_land_round_trip(g, rs.skip(1));
        assert(parse_land(encode_list(rs)) == Some(seq![rs[0]] + rs.skip(1)));
        assert(seq![rs[0]] + rs.skip(1) =~= rs);
    }
}

/// Law: terrain decoding is deterministic. The decoder is a pure function
/// of the land layout, and the decoration generator is reseeded to the
/// same constant at the start of every decode, so two decodes of equal
/// inputs give bit-identical grids, decoration tiles included.
pub proof fn lemma_decode_deterministic(g1: Seq<u8>, g2: Seq<u8>, rs1: Seq<LandRecord>, rs2: Seq<LandRecord>)
    requires
        g1 == g2,
        rs1 == rs2,
    ensures
        land_decode(g1, rs1) == land_decode(g2, rs2),
{
}

/// The grid produced by the land phase: rectangle fills, then the
/// auto-tiling pass.
pub open spec fn land_decode(g: Seq<u8>, rs: Seq<LandRecord>) -> Seq<u8> {
    tile_pass(fill_list(g, rs))
}

/// Encode one land record, appending its bytes to `out`.
fn encode_record(out: &mut Vec<u8>, r: LandRecord)
    ensures
        final(out)@ == old(out)@ + record_bytes(r),
{
    let wn: u8 = if 1 <= r.w && r.w <= 15 { r.w } else { 0 };
    let hn: u8 = if 1 <= r.h && r.h <= 15 { r.h } else { 0 };
    out.push(r.x);
    out.push(r.y);
    out.push(wn * 16 + hn);
    if wn == 0 {
        out.push(r.w);
    }
    if hn == 0 {
        out.push(r.h);
    }
    out.push(r.tile);
    assert(final(out)@ =~= old(out)@ + record_bytes(r));
}

/// Encode a list of land records as a land section.
pub fn encode_land(rs: &Vec<LandRecord>) -> (out: Vec<u8>)
    ensures
        out@ == encode_list(rs@),
{
    let mut out: Vec<u8> = Vec::new();
    let mut k: usize = 0;
    while k < rs.len()
        invariant
            0 <= k <= rs.len(),
            out@ == encode_list(rs@.take(k as int)),
        decreases rs.len() - k,
    {
        encode_record(&mut out, rs[k]);
        proof {
            lemma_encode_list_push(rs@.take(k as int), rs@[k as int]);
            assert(rs@.take(k as int).push(rs@[k as int]) =~= rs@.take(k as int + 1));
        }
        k = k + 1;
    }
    assert(rs@.take(rs@.len() as int) =~= rs@);
    out
}

/// Appending a record encodes it last.
pub proof fn lemma_encode_list_push(rs: Seq<LandRecord>, r: LandRecord)
    ensures
        encode_list(rs.push(r)) == encode_list(rs) + record_bytes(r),
    decreases rs.len(),
{
    if rs.len() == 0 {
        assert(rs.push(r)[0] == r);
        assert(rs.push(r).skip(1) =~= Seq::<LandRecord>::empty());
        assert(encode_list(rs.push(r)) == record_bytes(r) + encode_list(Seq::<LandRecord>::empty()));
        assert(record_bytes(r) + Seq::<u8>::empty() =~= record_bytes(r));
        assert(encode_list(rs) + record_bytes(r) =~= record_bytes(r));
    } else {
        assert(rs.push(r)[0] == rs[0]);
        assert(rs.push(r).skip(1) =~= rs.skip(1).push(r));
        lemma_encode_list_push(rs.skip(1), r);
        assert((record_bytes(rs[0]) + encode_list(rs.skip(1))) + record_bytes(r)
            =~= record_bytes(rs[0]) + (encode_list(rs.skip(1)) + record_bytes(r)));
    }
}

/// Parse one land record at byte offset `pos` of `src`: the record and
/// the offset just past it, or an error when the section is cut off.
pub fn decode_land_chunk(src: &Vec<u8>, pos: usize) -> (r: Result<(LandRecord, usize), DecodeError>)
    requires
        pos <= src@.len(),
    ensures
        parse_record(src@.skip(pos as int)) matches Some(p) ==>
            r == Ok::<(LandRecord, usize), DecodeError>((p.0, (pos + p.1) as usize)),
        parse_record(src@.skip(pos as int)) is None ==> r == Err::<(LandRecord, usize), DecodeError>(DecodeError::Truncated),
    {
    let ghost s = src@.skip(pos as int);
    if src.len() - pos < 3 {
        return Err(DecodeError::Truncated);
    }
    let x = src[pos];
    let y = src[pos + 1];
    let params = src[pos + 2];
    let wn = params / 16;
    let hn = params % 16;
    let n: usize = 4 + (if wn == 0 { 1 } else { 0 }) + (if hn == 0 { 1 } else { 0 });
    if src.len() - pos < n {
        return Err(DecodeError::Truncated);
    }
    let w = if wn == 0 { src[pos + 3] } else { wn };
    let h = if hn == 0 { (if wn == 0 { src[pos + 4] } else { src[pos + 3] }) } else { hn };
    let tile = src[pos + n - 1];
    assert(s[0] == x && s[1] == y && s[2] == params);
    Ok((LandRecord { x, y, w, h, tile }, pos + n))
}

/// Parse a whole land section into rectangle records.
pub fn parse_land_records(src: &Vec<u8>) -> (r: Result<Vec<LandRecord>, DecodeError>)
    ensures
        parse_land(src@) matches Some(rs) ==> r matches Ok(v) && v@ == rs,
        parse_land(src@) is None ==> r == Err::<Vec<LandRecord>, DecodeError>(DecodeError::Truncated),
{
    let mut out: Vec<LandRecord> = Vec::new();
    let mut pos: usize = 0;
    proof {
        assert(src@.skip(0) =~= src@);
    }
    while pos < src.len()
        invariant
            0 <= pos <= src@.len(),
            forall|tail: Seq<LandRecord>|
                (parse_land(src@.skip(pos as int)) == Some(tail)) ==>
                    parse_land(src@) == Some(out@ + tail),
            parse_land(src@.skip(pos as int)) is None ==> parse_land(src@) is None,
        decreases src@.len() - pos,
    {
        let ghost s_here = src@.skip(pos as int);
        let step = decode_land_chunk(src, pos);
        match step {
            Ok((rec, npos)) => {
                proof {
                    let p = parse_record(s_here).unwrap();
                    assert(s_here.skip(p.1) =~= src@.skip(npos as int));
                    assert(forall|tail: Seq<LandRecord>|
                        parse_land(src@.skip(npos as int)) == Some(tail) ==>
                            parse_land(src@.skip(pos as int)) == Some(seq![rec] + tail));
                    assert(forall|tail: Seq<LandRecord>|
                        parse_land(src@.skip(npos as int)) == Some(tail) ==>
                            (out@.push(rec)) + tail =~= out@ + (seq![rec] + tail));
                }
                out.push(rec);
                pos = npos;
            },
            Err(e) => {
                return Err(e);
            },
        }
    }
    proof {
        assert(src@.skip(pos as int) =~= Seq::<u8>::empty());
        assert(parse_land(src@.skip(pos as int)) == Some(Seq::<LandRecord>::empty()));
        assert(out@ + Seq::<LandRecord>::empty() =~= out@);
    }
    Ok(out)
}

/// Is `ix` a cell index of the grid? Opcode painting that leaves the grid
/// is an error (a corrupt level), unlike sensor probes, which saturate.
pub open spec fn in_grid(ix: int) -> bool {
    0 <= ix < 65536
}

/// Write one tile, or fail when the cell is outside the grid.
pub open spec fn put(g: Seq<u8>, x: int, y: int, t: u8) -> Result<Seq<u8>, DecodeError> {
    if in_grid(cell(x, y)) {
        Ok(g.update(cell(x, y), t))
    } else {
        Err(DecodeError::OutOfBounds)
    }
}

/// Paint `n` cells of tile `t` along a line from `(x, y)` stepping by
/// `(dx, dy)` per cell.
pub open spec fn paint_line(g: Seq<u8>, x: int, y: int, n: int, dx: int, dy: int, t: u8) -> Result<Seq<u8>, DecodeError>
    decreases n,
{
    if n <= 0 {
        Ok(g)
    } else {
        match put(g, x, y, t) {
            Result::Err(e) => Err(e),
            Result::Ok(g1) => paint_line(g1, x + dx, y + dy, n - 1, dx, dy, t),
        }
    }
}

/// Paint the three tiles `base`, `base + 1`, `base + 2` rightwards from
/// `(x, y)`: the surface strip of one gentle-slope step.
pub open spec fn paint3(g: Seq<u8>, x: int, y: int, base: u8) -> Result<Seq<u8>, DecodeError>
    recommends
        base <= 0x7D,
{
    match put(g, x, y, base) {
        Result::Err(e) => Err(e),
        Result::Ok(g1) => match put(g1, x + 1, y, (base + 1) as u8) {
            Result::Err(e) => Err(e),
            Result::Ok(g2) => put(g2, x + 2, y, (base + 2) as u8),
        },
    }
}

/// The raw block sequence opcode: one trailing byte per cell of the
/// `(w + 1)` x `(h + 1)` rectangle, in reading order. Returns the grid and
/// the position just past the bytes consumed.
pub open spec fn raw_paint(g: Seq<u8>, s: Seq<u8>, p: int, ax: int, ay: int, w: int, h: int, rx: int, ry: int) -> Result<(Seq<u8>, int), DecodeError>
    decreases h + 1 - ry, w + 1 - rx,
    when ry <= h + 1 && rx <= w + 1
{
    if ry > h {
        Ok((g, p))
    } else if rx > w {
        raw_paint(g, s, p, ax, ay, w, h, 0, ry + 1)
    } else if p >= s.len() {
        Err(DecodeError::Truncated)
    } else {
        match put(g, ax + rx, ay + ry, s[p]) {
            Result::Err(e) => Err(e),
            Result::Ok(g1) => raw_paint(g1, s, p + 1, ax, ay, w, h, rx + 1, ry),
        }
    }
}

/// The tile of the semisolid-platform opcode at relative cell `(rx, ry)`:
/// a top row above body rows, with left, middle and right column variants.
pub open spec fn semi_tile(rx: int, ry: int, w: int) -> u8 {
    (if ry == 0 { 0x50u8 } else { 0x60u8 }) | (if rx == 0 { 0x0Du8 } else if rx == w { 0x0Fu8 } else { 0x0Eu8 })
}

/// The semisolid-platform opcode: paint the `(w + 1)` x `(h + 1)`
/// rectangle with `semi_tile` variants, in reading order.
pub open spec fn semi_paint(g: Seq<u8>, ax: int, ay: int, w: int, h: int, rx: int, ry: int) -> Result<Seq<u8>, DecodeError>
    decreases h + 1 - ry, w + 1 - rx,
    when ry <= h + 1 && rx <= w + 1
{
    if ry > h {
        Ok(g)
    } else if rx > w {
        semi_paint(g, ax, ay, w, h, 0, ry + 1)
    } else {
        match put(g, ax + rx, ay + ry, semi_tile(rx, ry, w)) {
            Result::Err(e) => Err(e),
            Result::Ok(g1) => semi_paint(g1, ax, ay, w, h, rx + 1, ry),
        }
    }
}

/// One step of the upward gentle slope: the three surface tiles, then,
/// when the slope is filled, the interior strip below the surface.
pub open spec fn gentle_up_step(g: Seq<u8>, ax: int, ay: int, h: int, filled: bool, i: int) -> Result<Seq<u8>, DecodeError> {
    match paint3(g, ax + i * 2, ay - i - 1, 0x64) {
        Result::Err(e) => Err(e),
        Result::Ok(g1) => if filled {
            paint_line(g1, ax + i * 2 + 1, ay - i, h * 2 + 1 - i * 2, 1, 0, FILL_TILE)
        } else {
            Ok(g1)
        },
    }
}

/// The steps of the upward gentle slope, from step `i` up.
pub open spec fn gentle_up_iter(g: Seq<u8>, ax: int, ay: int, h: int, filled: bool, i: int) -> Result<Seq<u8>, DecodeError>
    decreases h - i,
    when i <= h
{
    if i >= h {
        Ok(g)
    } else {
        match gentle_up_step(g, ax, ay, h, filled, i) {
            Result::Err(e) => Err(e),
            Result::Ok(g1) => gentle_up_iter(g1, ax, ay, h, filled, i + 1),
        }
    }
}

/// The whole upward gentle slope opcode.
pub open spec fn gentle_up(g: Seq<u8>, ax: int, ay: int, h: int, filled: bool) -> Result<Seq<u8>, DecodeError> {
    match put(g, ax, ay, 0x66) {
        Result::Err(e) => Err(e),
        Result::Ok(g1) => match gentle_up_iter(g1, ax, ay, h, filled, 0) {
            Result::Err(e) => Err(e),
            Result::Ok(g2) => {
                let g3 = if filled { put(g2, ax + h * 2 + 1, ay - h, FILL_TILE) } else { Ok(g2) };
                match g3 {
                    Result::Err(e) => Err(e),
                    Result::Ok(g4) => match put(g4, ax + h * 2, ay - h - 1, 0x64) {
                        Result::Err(e) => Err(e),
                        Result::Ok(g5) => put(g5, ax + 1 + h * 2, ay - h - 1, 0x65),
                    },
                }
            },
        },
    }
}

/// One step of the downward gentle slope: the three surface tiles, then,
/// when the slope is filled, the interior strip and the cell under the
/// slope's head.
pub open spec fn gentle_down_step(g: Seq<u8>, ax: int, ay: int, filled: bool, i: int) -> Result<Seq<u8>, DecodeError> {
    match paint3(g, ax + i * 2 + 1, ay + i + 1, 0x74) {
        Result::Err(e) => Err(e),
        Result::Ok(g1) => if filled {
            match paint_line(g1, ax, ay + i + 2, i * 2 + 3, 1, 0, FILL_TILE) {
                Result::Err(e) => Err(e),
                Result::Ok(g2) => put(g2, ax, ay + 1, FILL_TILE),
            }
        } else {
            Ok(g1)
        },
    }
}

/// The steps of the downward gentle slope, from step `i` up.
pub open spec fn gentle_down_iter(g: Seq<u8>, ax: int, ay: int, h: int, filled: bool, i: int) -> Result<Seq<u8>, DecodeError>
    decreases h - i,
    when i <= h
{
    if i >= h {
        Ok(g)
    } else {
        match gentle_down_step(g, ax, ay, filled, i) {
            Result::Err(e) => Err(e),
            Result::Ok(g1) => gentle_down_iter(g1, ax, ay, h, filled, i + 1),
        }
    }
}

/// The whole downward gentle slope opcode.
pub open spec fn gentle_down(g: Seq<u8>, ax: int, ay: int, h: int, filled: bool) -> Result<Seq<u8>, DecodeError> {
    match put(g, ax, ay, 0x75) {
        Result::Err(e) => Err(e),
        Result::Ok(g1) => match put(g1, ax + 1, ay, 0x76) {
            Result::Err(e) => Err(e),
            Result::Ok(g2) => match gentle_down_iter(g2, ax, ay, h, filled, 0) {
                Result::Err(e) => Err(e),
                Result::Ok(g3) => put(g3, ax + 1 + h * 2, ay + h + 1, 0x74),
            },
        },
    }
}

/// One step of the steep slope: the surface tile and the tile below it,
/// then, when the slope is filled, the interior column of the step.
pub open spec fn steep_step(g: Seq<u8>, ax: int, ay: int, h: int, up: bool, filled: bool, i: int) -> Result<Seq<u8>, DecodeError> {
    let sy = if up { ay - i } else { ay + i };
    let base: u8 = if up { 0x46 } else { 0x47 };
    match put(g, ax + i, sy, base) {
        Result::Err(e) => Err(e),
        Result::Ok(g1) => match put(g1, ax + i, sy + 1, (base + 0x10) as u8) {
            Result::Err(e) => Err(e),
            Result::Ok(g2) => if filled {
                if up {
                    paint_line(g2, ax + i, ay + 1, i, 0, -1, FILL_TILE)
                } else {
                    paint_line(g2, ax + i, ay + i + 2, h - i - 1, 0, 1, FILL_TILE)
                }
            } else {
                Ok(g2)
            },
        },
    }
}

/// The steps of the steep slope, from step `i` up.
pub open spec fn steep_iter(g: Seq<u8>, ax: int, ay: int, h: int, up: bool, filled: bool, i: int) -> Result<Seq<u8>, DecodeError>
    decreases h - i,
    when i <= h
{
    if i >= h {
        Ok(g)
    } else {
        match steep_step(g, ax, ay, h, up, filled, i) {
            Result::Err(e) => Err(e),
            Result::Ok(g1) => steep_iter(g1, ax, ay, h, up, filled, i + 1),
        }
    }
}

/// One object opcode of the chunk stream `s` at position `p`, painting at
/// cell offsets relative to the chunk origin `(cx * 16, cy * 16)`.
/// The header is three bytes: the opcode ID, a nibble byte packing the
/// y (high) and x (low) offsets, and a nibble byte packing the `a` (high)
/// and `b` (low) parameters. Unknown IDs consume the header and paint
/// nothing. Returns the grid and the position just past the opcode.
pub open spec fn decode_object_spec(g: Seq<u8>, s: Seq<u8>, p: int, cx: int, cy: int) -> Result<(Seq<u8>, int), DecodeError> {
    if p + 3 > s.len() {
        Err(DecodeError::Truncated)
    } else {
        let id = s[p];
        let ax = cx * 16 + s[p + 1] % 16;
        let ay = cy * 16 + s[p + 1] / 16;
        let a = s[p + 2] / 16;
        let b = s[p + 2] % 16;
        let p3 = p + 3;
        if id == 1 {
            match paint_line(g, ax, ay, a as int, 1, 0, b) {
                Result::Err(e) => Err(e),
                Result::Ok(g1) => Ok((g1, p3)),
            }
        } else if id == 2 {
            match paint_line(g, ax, ay, a as int, 0, 1, b) {
                Result::Err(e) => Err(e),
                Result::Ok(g1) => Ok((g1, p3)),
            }
        } else if id == 5 {
            let r = if a % 2 == 1 {
                gentle_up(g, ax, ay, b as int, a / 2 % 2 == 1)
            } else {
                gentle_down(g, ax, ay, b as int, a / 2 % 2 == 1)
            };
            match r {
                Result::Err(e) => Err(e),
                Result::Ok(g1) => Ok((g1, p3)),
            }
        } else if id == 6 {
            match steep_iter(g, ax, ay, b as int, a % 2 == 1, a / 2 % 2 == 1, 0) {
                Result::Err(e) => Err(e),
                Result::Ok(g1) => Ok((g1, p3)),
            }
        } else if id == 8 {
            raw_paint(g, s, p3, ax, ay, a as int, b as int, 0, 0)
        } else if id == 0x0A {
            match semi_paint(g, ax, ay, a as int + 1, b as int + 1, 0, 0) {
                Result::Err(e) => Err(e),
                Result::Ok(g1) => Ok((g1, p3)),
            }
        } else {
            Ok((g, p3))
        }
    }
}

/// Write one tile at `(x, y)`, failing when the cell index leaves the grid.
fn put_tile(buf: &mut Vec<u8>, x: i32, y: i32, t: u8) -> (r: Result<(), DecodeError>)
    requires
        grid_wf(old(buf)@),
        -100000 <= x <= 100000,
        -100000 <= y <= 100000,
    ensures
        grid_wf(final(buf)@),
        put(old(buf)@, x as int, y as int, t) matches Ok(g) ==> r is Ok && final(buf)@ == g,
        put(old(buf)@, x as int, y as int, t) matches Err(e) ==> r == Err::<(), DecodeError>(e) && final(buf)@ == old(buf)@,
{
    let ix: i32 = x + y * 256;
    if 0 <= ix && ix < 65536 {
        buf.set(ix as usize, t);
        Ok(())
    } else {
        Err(DecodeError::OutOfBounds)
    }
}

/// Paint `n` cells of tile `t` along a line from `(x, y)` stepping by
/// `(dx, dy)` per cell.
fn paint_line_exec(buf: &mut Vec<u8>, x: i32, y: i32, n: u16, dx: i32, dy: i32, t: u8) -> (r: Result<(), DecodeError>)
    requires
        grid_wf(old(buf)@),
        -1000 <= x <= 1000,
        -1000 <= y <= 1000,
        -1 <= dx <= 1,
        -1 <= dy <= 1,
        n <= 64,
    ensures
        grid_wf(final(buf)@),
        paint_line(old(buf)@, x as int, y as int, n as int, dx as int, dy as int, t) matches Ok(g) ==> r is Ok && final(buf)@ == g,
        paint_line(old(buf)@, x as int, y as int, n as int, dx as int, dy as int, t) matches Err(e) ==> r == Err::<(), DecodeError>(e),
{
    let mut k: u16 = 0;
    let mut cx: i32 = x;
    let mut cy: i32 = y;
    while k < n
        invariant
            grid_wf(buf@),
            0 <= k <= n,
            n <= 64,
            cx == x + dx * k,
            cy == y + dy * k,
            -1000 <= x <= 1000,
            -1000 <= y <= 1000,
            -1 <= dx <= 1,
            -1 <= dy <= 1,
            paint_line(old(buf)@, x as int, y as int, n as int, dx as int, dy as int, t)
                == paint_line(buf@, cx as int, cy as int, (n - k) as int, dx as int, dy as int, t),
        decreases n - k,
    {
        proof {
            assert(-64 <= dx * k && dx * k <= 64 && -64 <= dy * k && dy * k <= 64) by (nonlinear_arith)
                requires -1 <= dx <= 1 && -1 <= dy <= 1 && 0 <= k <= 64;
            assert(dx * (k + 1) == dx * k + dx && dy * (k + 1) == dy * k + dy) by (nonlinear_arith);
        }
        let res = put_tile(buf, cx, cy, t);
        match res {
            Ok(()) => {},
            Err(e) => {
                assert(paint_line(old(buf)@, x as int, y as int, n as int, dx as int, dy as int, t)
                    == Err::<Seq<u8>, DecodeError>(e));
                return Err(e);
            },
        }
        cx = cx + dx;
        cy = cy + dy;
        k = k + 1;
    }
    Ok(())
}

/// Paint the three tiles `base`, `base + 1`, `base + 2` rightwards from
/// `(x, y)`.
fn paint3_exec(buf: &mut Vec<u8>, x: i32, y: i32, base: u8) -> (r: Result<(), DecodeError>)
    requires
        grid_wf(old(buf)@),
        -1000 <= x <= 1000,
        -1000 <= y <= 1000,
        base <= 0x7D,
    ensures
        grid_wf(final(buf)@),
        paint3(old(buf)@, x as int, y as int, base) matches Ok(g) ==> r is Ok && final(buf)@ == g,
        paint3(old(buf)@, x as int, y as int, base) matches Err(e) ==> r == Err::<(), DecodeError>(e),
{
    let r0 = put_tile(buf, x, y, base);
    match r0 {
        Err(e) => {
            assert(paint3(old(buf)@, x as int, y as int, base) == Err::<Seq<u8>, DecodeError>(e));
            return Err(e);
        },
        Ok(()) => {},
    }
    let r1 = put_tile(buf, x + 1, y, base + 1);
    match r1 {
        Err(e) => {
            assert(paint3(old(buf)@, x as int, y as int, base) == Err::<Seq<u8>, DecodeError>(e));
            return Err(e);
        },
        Ok(()) => {},
    }
    let r2 = put_tile(buf, x + 2, y, base + 2);
    match r2 {
        Err(e) => {
            assert(paint3(old(buf)@, x as int, y as int, base) == Err::<Seq<u8>, DecodeError>(e));
            return Err(e);
        },
        Ok(()) => {},
    }
    assert(paint3(old(buf)@, x as int, y as int, base) == Ok::<Seq<u8>, DecodeError>(buf@));
    Ok(())
}

/// Paint the upward gentle slope opcode.
fn gentle_up_exec(buf: &mut Vec<u8>, ax: i32, ay: i32, b: u8, filled: bool) -> (r: Result<(), DecodeError>)
    requires
        grid_wf(old(buf)@),
        0 <= ax <= 255,
        0 <= ay <= 255,
        b < 16,
    ensures
        grid_wf(final(buf)@),
        gentle_up(old(buf)@, ax as int, ay as int, b as int, filled) matches Ok(g) ==> r is Ok && final(buf)@ == g,
        gentle_up(old(buf)@, ax as int, ay as int, b as int, filled) matches Err(e) ==> r == Err::<(), DecodeError>(e),
{
    let h: u16 = b as u16;
    let res = put_tile(buf, ax, ay, 0x66);
    match res {
        Err(e) => {
            assert(gentle_up(old(buf)@, ax as int, ay as int, b as int, filled) == Err::<Seq<u8>, DecodeError>(e));
            return Err(e);
        },
        Ok(()) => {},
    }
    let mut i: u16 = 0;
    while i < h
        invariant
            grid_wf(buf@),
            0 <= i <= h,
            h == b as int,
            b < 16,
            0 <= ax <= 255,
            0 <= ay <= 255,
            (put(old(buf)@, ax as int, ay as int, 0x66) matches Ok(gh)
                && gentle_up_iter(gh, ax as int, ay as int, h as int, filled, 0)
                    == gentle_up_iter(buf@, ax as int, ay as int, h as int, filled, i as int)),
        decreases h - i,
    {
        let res = paint3_exec(buf, ax + i as i32 * 2, ay - i as i32 - 1, 0x64);
        match res {
            Err(e) => {
                assert(gentle_up(old(buf)@, ax as int, ay as int, b as int, filled) == Err::<Seq<u8>, DecodeError>(e));
                return Err(e);
            },
            Ok(()) => {},
        }
        if filled {
            let res = paint_line_exec(buf, ax + i as i32 * 2 + 1, ay - i as i32, h * 2 + 1 - i * 2, 1, 0, FILL_TILE);
            match res {
                Err(e) => {
                    assert(gentle_up(old(buf)@, ax as int, ay as int, b as int, filled) == Err::<Seq<u8>, DecodeError>(e));
                    return Err(e);
                },
                Ok(()) => {},
            }
        }
        i = i + 1;
    }
    if filled {
        let res = put_tile(buf, ax + b as i32 * 2 + 1, ay - b as i32, FILL_TILE);
        match res {
            Err(e) => {
                assert(gentle_up(old(buf)@, ax as int, ay as int, b as int, filled) == Err::<Seq<u8>, DecodeError>(e));
                return Err(e);
            },
            Ok(()) => {},
        }
    }
    let res = put_tile(buf, ax + b as i32 * 2, ay - b as i32 - 1, 0x64);
    match res {
        Err(e) => {
            assert(gentle_up(old(buf)@, ax as int, ay as int, b as int, filled) == Err::<Seq<u8>, DecodeError>(e));
            return Err(e);
        },
        Ok(()) => {},
    }
    let res = put_tile(buf, ax + 1 + b as i32 * 2, ay - b as i32 - 1, 0x65);
    match res {
        Err(e) => {
            assert(gentle_up(old(buf)@, ax as int, ay as int, b as int, filled) == Err::<Seq<u8>, DecodeError>(e));
            return Err(e);
        },
        Ok(()) => {},
    }
    assert(gentle_up(old(buf)@, ax as int, ay as int, b as int, filled) == Ok::<Seq<u8>, DecodeError>(buf@));
    Ok(())
}

/// Paint the downward gentle slope opcode.
fn gentle_down_exec(buf: &mut Vec<u8>, ax: i32, ay: i32, b: u8, filled: bool) -> (r: Result<(), DecodeError>)
    requires
        grid_wf(old(buf)@),
        0 <= ax <= 255,
        0 <= ay <= 255,
        b < 16,
    ensures
        grid_wf(final(buf)@),
        gentle_down(old(buf)@, ax as int, ay as int, b as int, filled) matches Ok(g) ==> r is Ok && final(buf)@ == g,
        gentle_down(old(buf)@, ax as int, ay as int, b as int, filled) matches Err(e) ==> r == Err::<(), DecodeError>(e),
{
    let h: u16 = b as u16;
    let res = put_tile(buf, ax, ay, 0x75);
    match res {
        Err(e) => {
            assert(gentle_down(old(buf)@, ax as int, ay as int, b as int, filled) == Err::<Seq<u8>, DecodeError>(e));
            return Err(e);
        },
        Ok(()) => {},
    }
    let res = put_tile(buf, ax + 1, ay, 0x76);
    match res {
        Err(e) => {
            assert(gentle_down(old(buf)@, ax as int, ay as int, b as int, filled) == Err::<Seq<u8>, DecodeError>(e));
            return Err(e);
        },
        Ok(()) => {},
    }
    let mut i: u16 = 0;
    while i < h
        invariant
            grid_wf(buf@),
            0 <= i <= h,
            h == b as int,
            b < 16,
            0 <= ax <= 255,
            0 <= ay <= 255,
            (put(old(buf)@, ax as int, ay as int, 0x75) matches Ok(ga)
                && put(ga, ax as int + 1, ay as int, 0x76) matches Ok(gh)
                && gentle_down_iter(gh, ax as int, ay as int, h as int, filled, 0)
                    == gentle_down_iter(buf@, ax as int, ay as int, h as int, filled, i as int)),
        decreases h - i,
    {
        let res = paint3_exec(buf, ax + i as i32 * 2 + 1, ay + i as i32 + 1, 0x74);
        match res {
            Err(e) => {
                assert(gentle_down(old(buf)@, ax as int, ay as int, b as int, filled) == Err::<Seq<u8>, DecodeError>(e));
                return Err(e);
            },
            Ok(()) => {},
        }
        if filled {
            let res = paint_line_exec(buf, ax, ay + i as i32 + 2, i * 2 + 3, 1, 0, FILL_TILE);
            match res {
                Err(e) => {
                    assert(gentle_down(old(buf)@, ax as int, ay as int, b as int, filled) == Err::<Seq<u8>, DecodeError>(e));
                    return Err(e);
                },
                Ok(()) => {},
            }
            let res = put_tile(buf, ax, ay + 1, FILL_TILE);
            match res {
                Err(e) => {
                    assert(gentle_down(old(buf)@, ax as int, ay as int, b as int, filled) == Err::<Seq<u8>, DecodeError>(e));
                    return Err(e);
                },
                Ok(()) => {},
            }
        }
        i = i + 1;
    }
    let res = put_tile(buf, ax + 1 + b as i32 * 2, ay + b as i32 + 1, 0x74);
    match res {
        Err(e) => {
            assert(gentle_down(old(buf)@, ax as int, ay as int, b as int, filled) == Err::<Seq<u8>, DecodeError>(e));
            return Err(e);
        },
        Ok(()) => {},
    }
    assert(gentle_down(old(buf)@, ax as int, ay as int, b as int, filled) == Ok::<Seq<u8>, DecodeError>(buf@));
    Ok(())
}

/// Paint the steep slope opcode.
fn steep_exec(buf: &mut Vec<u8>, ax: i32, ay: i32, b: u8, up: bool, filled: bool) -> (r: Result<(), DecodeError>)
    requires
        grid_wf(old(buf)@),
        0 <= ax <= 255,
        0 <= ay <= 255,
        b < 16,
    ensures
        grid_wf(final(buf)@),
        steep_iter(old(buf)@, ax as int, ay as int, b as int, up, filled, 0) matches Ok(g) ==> r is Ok && final(buf)@ == g,
        steep_iter(old(buf)@, ax as int, ay as int, b as int, up, filled, 0) matches Err(e) ==> r == Err::<(), DecodeError>(e),
{
    let h: u16 = b as u16;
    let mut i: u16 = 0;
    while i < h
        invariant
            grid_wf(buf@),
            0 <= i <= h,
            h == b as int,
            b < 16,
            0 <= ax <= 255,
            0 <= ay <= 255,
            steep_iter(old(buf)@, ax as int, ay as int, h as int, up, filled, 0)
                == steep_iter(buf@, ax as int, ay as int, h as int, up, filled, i as int),
        decreases h - i,
    {
        let sy: i32 = if up { ay - i as i32 } else { ay + i as i32 };
        let base: u8 = if up { 0x46 } else { 0x47 };
        let res = put_tile(buf, ax + i as i32, sy, base);
        match res {
            Err(e) => {
                assert(steep_iter(old(buf)@, ax as int, ay as int, b as int, up, filled, 0) == Err::<Seq<u8>, DecodeError>(e));
                return Err(e);
            },
            Ok(()) => {},
        }
        let res = put_tile(buf, ax + i as i32, sy + 1, base + 0x10);
        match res {
            Err(e) => {
                assert(steep_iter(old(buf)@, ax as int, ay as int, b as int, up, filled, 0) == Err::<Seq<u8>, DecodeError>(e));
                return Err(e);
            },
            Ok(()) => {},
        }
        if filled {
            let res = if up {
                paint_line_exec(buf, ax + i as i32, ay + 1, i, 0, -1, FILL_TILE)
            } else {
                paint_line_exec(buf, ax + i as i32, ay + i as i32 + 2, h - i - 1, 0, 1, FILL_TILE)
            };
            match res {
                Err(e) => {
                    assert(steep_iter(old(buf)@, ax as int, ay as int, b as int, up, filled, 0) == Err::<Seq<u8>, DecodeError>(e));
                    return Err(e);
                },
                Ok(()) => {},
            }
        }
        i = i + 1;
    }
    Ok(())
}

/// Paint the raw block sequence opcode, reading one trailing byte per cell
/// from `src[pos..end]`. Returns the offset just past the bytes consumed.
fn raw_exec(buf: &mut Vec<u8>, src: &Vec<u8>, pos: usize, end: usize, ax: i32, ay: i32, a: u8, b: u8) -> (r: Result<usize, DecodeError>)
    requires
        grid_wf(old(buf)@),
        pos <= end <= src@.len(),
        0 <= ax <= 255,
        0 <= ay <= 255,
        a < 16,
        b < 16,
    ensures
        grid_wf(final(buf)@),
        raw_paint(old(buf)@, src@.take(end as int), pos as int, ax as int, ay as int, a as int, b as int, 0, 0) matches Ok(p) ==>
            r matches Ok(np) && np == p.1 && final(buf)@ == p.0 && pos <= np <= end,
        raw_paint(old(buf)@, src@.take(end as int), pos as int, ax as int, ay as int, a as int, b as int, 0, 0) matches Err(e) ==>
            r == Err::<usize, DecodeError>(e),
{
    let ghost s = src@.take(end as int);
    let w: u16 = a as u16;
    let h: u16 = b as u16;
    let mut p: usize = pos;
    let mut rx: u16 = 0;
    let mut ry: u16 = 0;
    while ry <= h
        invariant
            grid_wf(buf@),
            0 <= rx,
            0 <= ry <= h + 1,
            rx <= w || (rx == w + 1 && ry <= h),
            w == a as int,
            h == b as int,
            a < 16,
            b < 16,
            pos <= p <= end <= src@.len(),
            s == src@.take(end as int),
            0 <= ax <= 255,
            0 <= ay <= 255,
            raw_paint(old(buf)@, s, pos as int, ax as int, ay as int, w as int, h as int, 0, 0)
                == raw_paint(buf@, s, p as int, ax as int, ay as int, w as int, h as int, rx as int, ry as int),
        decreases h + 1 - ry, w + 1 - rx,
    {
        if rx > w {
            rx = 0;
            ry = ry + 1;
            continue;
        }
        if p >= end {
            assert(raw_paint(old(buf)@, s, pos as int, ax as int, ay as int, a as int, b as int, 0, 0)
                == Err::<(Seq<u8>, int), DecodeError>(DecodeError::Truncated));
            return Err(DecodeError::Truncated);
        }
        let block: u8 = src[p];
        assert(s[p as int] == block);
        let res = put_tile(buf, ax + rx as i32, ay + ry as i32, block);
        match res {
            Err(e) => {
                assert(raw_paint(old(buf)@, s, pos as int, ax as int, ay as int, a as int, b as int, 0, 0)
                    == Err::<(Seq<u8>, int), DecodeError>(e));
                return Err(e);
            },
            Ok(()) => {},
        }
        p = p + 1;
        rx = rx + 1;
    }
    Ok(p)
}

/// Paint the semisolid platform opcode.
fn semi_exec(buf: &mut Vec<u8>, ax: i32, ay: i32, a: u8, b: u8) -> (r: Result<(), DecodeError>)
    requires
        grid_wf(old(buf)@),
        0 <= ax <= 255,
        0 <= ay <= 255,
        a < 16,
        b < 16,
    ensures
        grid_wf(final(buf)@),
        semi_paint(old(buf)@, ax as int, ay as int, a as int + 1, b as int + 1, 0, 0) matches Ok(g) ==> r is Ok && final(buf)@ == g,
        semi_paint(old(buf)@, ax as int, ay as int, a as int + 1, b as int + 1, 0, 0) matches Err(e) ==> r == Err::<(), DecodeError>(e),
{
    let w: u16 = a as u16 + 1;
    let h: u16 = b as u16 + 1;
    let mut rx: u16 = 0;
    let mut ry: u16 = 0;
    while ry <= h
        invariant
            grid_wf(buf@),
            0 <= rx,
            0 <= ry <= h + 1,
            rx <= w || (rx == w + 1 && ry <= h),
            w == a as int + 1,
            h == b as int + 1,
            a < 16,
            b < 16,
            0 <= ax <= 255,
            0 <= ay <= 255,
            semi_paint(old(buf)@, ax as int, ay as int, w as int, h as int, 0, 0)
                == semi_paint(buf@, ax as int, ay as int, w as int, h as int, rx as int, ry as int),
        decreases h + 1 - ry, w + 1 - rx,
    {
        if rx > w {
            rx = 0;
            ry = ry + 1;
            continue;
        }
        let block: u8 = (if ry == 0 { 0x50u8 } else { 0x60u8 }) | (if rx == 0 { 0x0Du8 } else if rx == w { 0x0Fu8 } else { 0x0Eu8 });
        assert(block == semi_tile(rx as int, ry as int, w as int));
        let res = put_tile(buf, ax + rx as i32, ay + ry as i32, block);
        match res {
            Err(e) => {
                assert(semi_paint(old(buf)@, ax as int, ay as int, a as int + 1, b as int + 1, 0, 0)
                    == Err::<Seq<u8>, DecodeError>(e));
                return Err(e);
            },
            Ok(()) => {},
        }
        rx = rx + 1;
    }
    Ok(())
}

/// Decode one object opcode of the chunk `src[pos..end]`, painting
/// relative to the chunk origin `(cx * 16, cy * 16)`. Returns the offset
/// just past the opcode. On an error the level is corrupt and the grid
/// holds a partial decode, to be discarded by the caller.
pub fn decode_object(buf: &mut Vec<u8>, src: &Vec<u8>, pos: usize, end: usize, cx: u8, cy: u8) -> (r: Result<usize, DecodeError>)
    requires
        grid_wf(old(buf)@),
        pos <= end <= src@.len(),
        cx < 16,
        cy < 16,
    ensures
        grid_wf(final(buf)@),
        decode_object_spec(old(buf)@, src@.take(end as int), pos as int, cx as int, cy as int) matches Ok(p) ==>
            r matches Ok(np) && np == p.1 && final(buf)@ == p.0 && pos + 3 <= np <= end,
        decode_object_spec(old(buf)@, src@.take(end as int), pos as int, cx as int, cy as int) matches Err(e) ==>
            r == Err::<usize, DecodeError>(e),
{
    let ghost s = src@.take(end as int);
    if end - pos < 3 {
        return Err(DecodeError::Truncated);
    }
    let id: u8 = src[pos];
    let yx: u8 = src[pos + 1];
    let params: u8 = src[pos + 2];
    let ax: i32 = cx as i32 * 16 + (yx % 16) as i32;
    let ay: i32 = cy as i32 * 16 + (yx / 16) as i32;
    let a: u8 = params / 16;
    let b: u8 = params % 16;
    let p3: usize = pos + 3;
    assert(s[pos as int] == id && s[pos as int + 1] == yx && s[pos as int + 2] == params);
    if id == 1 {
        match paint_line_exec(buf, ax, ay, a as u16, 1, 0, b) {
            Ok(()) => Ok(p3),
            Err(e) => Err(e),
        }
    } else if id == 2 {
        match paint_line_exec(buf, ax, ay, a as u16, 0, 1, b) {
            Ok(()) => Ok(p3),
            Err(e) => Err(e),
        }
    } else if id == 5 {
        let filled: bool = a / 2 % 2 == 1;
        let res = if a % 2 == 1 {
            gentle_up_exec(buf, ax, ay, b, filled)
        } else {
            gentle_down_exec(buf, ax, ay, b, filled)
        };
        match res {
            Ok(()) => Ok(p3),
            Err(e) => Err(e),
        }
    } else if id == 6 {
        match steep_exec(buf, ax, ay, b, a % 2 == 1, a / 2 % 2 == 1) {
            Ok(()) => Ok(p3),
            Err(e) => Err(e),
        }
    } else if id == 8 {
        raw_exec(buf, src, p3, end, ax, ay, a, b)
    } else if id == 0x0A {
        match semi_exec(buf, ax, ay, a, b) {
            Ok(()) => Ok(p3),
            Err(e) => Err(e),
        }
    } else {
        Ok(p3)
    }
}

/// Fill one land rectangle into the grid.
fn fill_rect(buf: &mut Vec<u8>, r: LandRecord)
    requires
        grid_wf(old(buf)@),
    ensures
        final(buf)@ == fill_one(old(buf)@, r),
{
    let ghost g0 = buf@;
    let xe: u8 = r.x.wrapping_add(r.w);
    let ye: u8 = r.y.wrapping_add(r.h);
    let mut i: u8 = r.x;
    while i < xe
        invariant
            grid_wf(buf@),
            r.x <= i <= xe || (i == r.x && xe < r.x),
            xe == vstd::wrapping::u8_specs::wrapping_add(r.x, r.w),
            ye == vstd::wrapping::u8_specs::wrapping_add(r.y, r.h),
            forall|p: int| 0 <= p < 65536 ==> buf@[p] == (
                if r.x <= p % 256 < i && r.y <= p / 256 < ye { r.tile } else { g0[p] }
            ),
        decreases xe - i,
    {
        let mut j: u8 = r.y;
        while j < ye
            invariant
                grid_wf(buf@),
                r.x <= i < xe,
                r.y <= j <= ye || (j == r.y && ye < r.y),
                ye == vstd::wrapping::u8_specs::wrapping_add(r.y, r.h),
                forall|p: int| 0 <= p < 65536 ==> buf@[p] == (
                    if r.x <= p % 256 < i && r.y <= p / 256 < ye { r.tile }
                    else if p % 256 == i && r.y <= p / 256 < j { r.tile }
                    else { g0[p] }
                ),
            decreases ye - j,
        {
            let idx: usize = i as usize + j as usize * 256;
            assert(idx == cell(i as int, j as int));
            assert(idx % 256 == i as int && idx / 256 == j as int) by (nonlinear_arith)
                requires idx == i as int + j as int * 256 && 0 <= i < 256 && 0 <= j < 256;
            buf.set(idx, r.tile);
            j = j + 1;
        }
        i = i + 1;
    }
    assert(buf@ =~= fill_one(g0, r));
}

/// Fill every land rectangle of `rs` into the grid, in order.
fn fill_land(buf: &mut Vec<u8>, rs: &Vec<LandRecord>)
    requires
        grid_wf(old(buf)@),
    ensures
        final(buf)@ == fill_list(old(buf)@, rs@),
{
    let ghost g0 = buf@;
    let mut k: usize = 0;
    while k < rs.len()
        invariant
            grid_wf(buf@),
            0 <= k <= rs.len(),
            buf@ == fill_list(g0, rs@.take(k as int)),
        decreases rs.len() - k,
    {
        proof {
            lemma_fill_list_len(g0, rs@.take(k as int));
        }
        fill_rect(buf, rs[k]);
        proof {
            assert(rs@.take(k as int).push(rs@[k as int]) =~= rs@.take(k as int + 1));
            lemma_fill_list_push(g0, rs@.take(k as int), rs@[k as int]);
        }
        k = k + 1;
    }
    assert(rs@.take(rs@.len() as int) =~= rs@);
}

/// Decode a land section into the grid from already-parsed records:
/// rectangle fills, then the auto-tiling pass.
pub fn decode_land_with(buf: &mut Vec<u8>, rs: &Vec<LandRecord>)
    requires
        grid_wf(old(buf)@),
    ensures
        grid_wf(final(buf)@),
        final(buf)@ == land_decode(old(buf)@, rs@),
{
    fill_land(buf, rs);
    proof {
        lemma_fill_list_len(old(buf)@, rs@);
    }
    run_tile_pass(buf);
    proof {
        lemma_tile_pass_len(fill_list(old(buf)@, rs@), DECOR_SEED, 65536);
    }
}

/// Decode a land section into the grid from its bytes. A cut-off record
/// is an error, and then the grid is left unchanged.
pub fn decode_land(buf: &mut Vec<u8>, src: &Vec<u8>) -> (r: Result<(), DecodeError>)
    requires
        grid_wf(old(buf)@),
    ensures
        grid_wf(final(buf)@),
        parse_land(src@) matches Some(rs) ==> r is Ok && final(buf)@ == land_decode(old(buf)@, rs),
        parse_land(src@) is None ==> r == Err::<(), DecodeError>(DecodeError::Truncated) && final(buf)@ == old(buf)@,
{
    let parsed = parse_land_records(src);
    match parsed {
        Err(e) => Err(e),
        Ok(recs) => {
            decode_land_with(buf, &recs);
            Ok(())
        },
    }
}

/// One chunk's opcode stream `s[pos..end]`, opcode by opcode. The stream
/// is self-delimiting and must be consumed exactly within the declared
/// length.
pub open spec fn chunk_ops_spec(g: Seq<u8>, s: Seq<u8>, p: int, end: int, cx: int, cy: int) -> Result<Seq<u8>, DecodeError>
    decreases end - p,
    when p <= end
{
    if p >= end {
        Ok(g)
    } else {
        match decode_object_spec(g, s.take(end), p, cx, cy) {
            Result::Err(e) => Err(e),
            Result::Ok((g1, np)) => if p < np <= end {
                chunk_ops_spec(g1, s, np, end, cx, cy)
            } else {
                Err(DecodeError::Truncated)
            },
        }
    }
}

/// The object chunk records of `s` from position `p` on: each is a
/// location byte (high nibble chunk column, low nibble chunk row), a
/// length byte, and that many bytes of opcodes.
pub open spec fn chunks_spec(g: Seq<u8>, s: Seq<u8>, p: int) -> Result<Seq<u8>, DecodeError>
    decreases s.len() - p,
    when p <= s.len()
{
    if p >= s.len() {
        Ok(g)
    } else if p + 2 > s.len() {
        Err(DecodeError::Truncated)
    } else {
        let cl = s[p + 1] as int;
        if p + 2 + cl > s.len() {
            Err(DecodeError::Truncated)
        } else {
            match chunk_ops_spec(g, s, p + 2, p + 2 + cl, s[p] as int / 16, s[p] as int % 16) {
                Result::Err(e) => Err(e),
                Result::Ok(g1) => chunks_spec(g1, s, p + 2 + cl),
            }
        }
    }
}

/// A whole level stream: the 16-bit big-endian land section length, the
/// land records, then the object chunks.
pub open spec fn decode_area_spec(g: Seq<u8>, s: Seq<u8>) -> Result<Seq<u8>, DecodeError> {
    if s.len() < 2 {
        Err(DecodeError::Truncated)
    } else {
        let ll = s[0] as int * 256 + s[1] as int;
        if 2 + ll > s.len() {
            Err(DecodeError::Truncated)
        } else {
            match parse_land(s.subrange(2, 2 + ll)) {
                Option::None => Err(DecodeError::Truncated),
                Option::Some(rs) => chunks_spec(land_decode(g, rs), s, 2 + ll),
            }
        }
    }
}

/// Decode one chunk's opcode stream `src[pos..end]`.
fn decode_chunk_ops(buf: &mut Vec<u8>, src: &Vec<u8>, pos: usize, end: usize, cx: u8, cy: u8) -> (r: Result<(), DecodeError>)
    requires
        grid_wf(old(buf)@),
        pos <= end <= src@.len(),
        cx < 16,
        cy < 16,
    ensures
        grid_wf(final(buf)@),
        chunk_ops_spec(old(buf)@, src@, pos as int, end as int, cx as int, cy as int) matches Ok(g) ==>
            r is Ok && final(buf)@ == g,
        chunk_ops_spec(old(buf)@, src@, pos as int, end as int, cx as int, cy as int) matches Err(e) ==>
            r == Err::<(), DecodeError>(e),
{
    let mut q: usize = pos;
    while q < end
        invariant
            grid_wf(buf@),
            pos <= q <= end <= src@.len(),
            cx < 16,
            cy < 16,
            chunk_ops_spec(old(buf)@, src@, pos as int, end as int, cx as int, cy as int)
                == chunk_ops_spec(buf@, src@, q as int, end as int, cx as int, cy as int),
        decreases end - q,
    {
        let step = decode_object(buf, src, q, end, cx, cy);
        match step {
            Err(e) => {
                assert(chunk_ops_spec(old(buf)@, src@, pos as int, end as int, cx as int, cy as int)
                    == Err::<Seq<u8>, DecodeError>(e));
                return Err(e);
            },
            Ok(np) => {
                q = np;
            },
        }
    }
    Ok(())
}

/// Decode a whole level stream into the grid: the land section, then the
/// object chunks. A cut-off stream or an opcode painting outside the grid
/// is an error; the level is then corrupt and the grid contents must be
/// discarded.
pub fn decode_area(buf: &mut Vec<u8>, src: &Vec<u8>) -> (r: Result<(), DecodeError>)
    requires
        grid_wf(old(buf)@),
    ensures
        grid_wf(final(buf)@),
        decode_area_spec(old(buf)@, src@) matches Ok(g) ==> r is Ok && final(buf)@ == g,
        decode_area_spec(old(buf)@, src@) matches Err(e) ==> r == Err::<(), DecodeError>(e),
{
    if src.len() < 2 {
        return Err(DecodeError::Truncated);
    }
    let ll: usize = (src[0] as usize) * 256 + (src[1] as usize);
    if ll > src.len() - 2 {
        return Err(DecodeError::Truncated);
    }
    let mut land: Vec<u8> = Vec::new();
    let mut k: usize = 0;
    while k < ll
        invariant
            0 <= k <= ll,
            2 + ll <= src@.len(),
            src@.len() <= usize::MAX,
            land@ == src@.subrange(2, 2 + k as int),
        decreases ll - k,
    {
        let idx: usize = 2 + k;
        land.push(src[idx]);
        proof {
            assert(src@.subrange(2, 2 + k as int).push(src@[2 + k as int]) =~= src@.subrange(2, 2 + (k + 1) as int));
        }
        k = k + 1;
    }
    proof {
        assert(land@ == src@.subrange(2, 2 + ll as int));
    }
    let parsed = parse_land_records(&land);
    let recs = match parsed {
        Err(e) => {
            assert(decode_area_spec(old(buf)@, src@) == Err::<Seq<u8>, DecodeError>(DecodeError::Truncated));
            return Err(e);
        },
        Ok(v) => v,
    };
    decode_land_with(buf, &recs);
    let mut p: usize = 2 + ll;
    while p < src.len()
        invariant
            grid_wf(buf@),
            2 + ll <= p <= src@.len(),
            parse_land(src@.subrange(2, 2 + ll as int)) == Some(recs@),
            decode_area_spec(old(buf)@, src@) == chunks_spec(buf@, src@, p as int),
        decreases src@.len() - p,
    {
        if src.len() - p < 2 {
            assert(decode_area_spec(old(buf)@, src@) == Err::<Seq<u8>, DecodeError>(DecodeError::Truncated));
            return Err(DecodeError::Truncated);
        }
        let loc: u8 = src[p];
        let cl: usize = src[p + 1] as usize;
        if cl > src.len() - p - 2 {
            assert(decode_area_spec(old(buf)@, src@) == Err::<Seq<u8>, DecodeError>(DecodeError::Truncated));
            return Err(DecodeError::Truncated);
        }
        let cend: usize = p + 2 + cl;
        let step = decode_chunk_ops(buf, src, p + 2, cend, loc / 16, loc % 16);
        match step {
            Err(e) => {
                assert(decode_area_spec(old(buf)@, src@) == Err::<Seq<u8>, DecodeError>(e));
                return Err(e);
            },
            Ok(()) => {},
        }
        p = cend;
    }
    Ok(())
}

/// The horizontal-stretch opcode of the inline chunk format: columns
/// `0..w16` of the chunk, each filled from row `h` down to the chunk
/// floor, the surface row with the ground-top tile and the rest with the
/// ground-body tile.
pub open spec fn hstretch_iter(g: Seq<u8>, ox: int, oy: int, w16: int, h: int, x: int) -> Result<Seq<u8>, DecodeError>
    decreases w16 - x,
    when x <= w16 && 0 <= h <= 15
{
    if x >= w16 {
        Ok(g)
    } else {
        match put(g, ox + x, oy + h, 0x22) {
            Result::Err(e) => Err(e),
            Result::Ok(g1) => match paint_line(g1, ox + x, oy + h + 1, 15 - h, 0, 1, 0x32) {
                Result::Err(e) => Err(e),
                Result::Ok(g2) => hstretch_iter(g2, ox, oy, w16, h, x + 1),
            },
        }
    }
}

/// A rightward paint line whose cells all lie within the grid never
/// fails, and keeps the grid's size.
pub proof fn lemma_paint_line_right_ok(g: Seq<u8>, x: int, y: int, n: int, t: u8)
    requires
        grid_wf(g),
        0 <= x,
        0 <= y <= 255,
        x + n <= 256,
    ensures
        paint_line(g, x, y, n, 1, 0, t) matches Ok(g2) && grid_wf(g2),
    decreases n,
{
    if n > 0 {
        assert(in_grid(cell(x, y)));
        lemma_paint_line_right_ok(g.update(cell(x, y), t), x + 1, y, n - 1, t);
    }
}

/// A downward paint line whose cells all lie within the grid never
/// fails, and keeps the grid's size.
pub proof fn lemma_paint_line_down_ok(g: Seq<u8>, x: int, y: int, n: int, t: u8)
    requires
        grid_wf(g),
        0 <= x <= 255,
        0 <= y,
        y + n <= 256,
    ensures
        paint_line(g, x, y, n, 0, 1, t) matches Ok(g2) && grid_wf(g2),
    decreases n,
{
    if n > 0 {
        assert(in_grid(cell(x, y)));
        lemma_paint_line_down_ok(g.update(cell(x, y), t), x, y + 1, n - 1, t);
    }
}

/// A horizontal stretch whose columns all lie within the grid never
/// fails, and keeps the grid's size.
pub proof fn lemma_hstretch_ok(g: Seq<u8>, ox: int, oy: int, w16: int, h: int, x: int)
    requires
        grid_wf(g),
        0 <= ox,
        ox + w16 <= 256,
        0 <= oy,
        oy + 16 <= 256,
        0 <= h <= 15,
        0 <= x <= w16,
    ensures
        hstretch_iter(g, ox, oy, w16, h, x) matches Ok(g2) && grid_wf(g2),
    decreases w16 - x,
{
    if x < w16 {
        assert(in_grid(cell(ox + x, oy + h)));
        let g1 = g.update(cell(ox + x, oy + h), 0x22);
        lemma_paint_line_down_ok(g1, ox + x, oy + h + 1, 15 - h, 0x32);
        let g2 = paint_line(g1, ox + x, oy + h + 1, 15 - h, 0, 1, 0x32);
        lemma_hstretch_ok(g2.unwrap(), ox, oy, w16, h, x + 1);
    }
}

/// The inline chunk format: a stream of opcodes painted at offsets
/// relative to the chunk origin `(ox, oy)`, each opcode carrying its own
/// operands. An unknown opcode is a no-op consuming only its ID byte.
pub open spec fn decode_chunk_spec(g: Seq<u8>, s: Seq<u8>, p: int, ox: int, oy: int) -> Result<Seq<u8>, DecodeError>
    decreases s.len() - p,
    when p <= s.len()
{
    if p >= s.len() {
        Ok(g)
    } else {
        let id = s[p];
        if id == 0 {
            if p + 2 > s.len() {
                Err(DecodeError::Truncated)
            } else {
                match hstretch_iter(g, ox, oy, (s[p + 1] / 16) as int * 16, (s[p + 1] % 16) as int, 0) {
                    Result::Err(e) => Err(e),
                    Result::Ok(g1) => decode_chunk_spec(g1, s, p + 2, ox, oy),
                }
            }
        } else if id == 1 {
            if p + 3 > s.len() {
                Err(DecodeError::Truncated)
            } else {
                let xr = s[p + 1] / 16;
                let yr = s[p + 1] % 16;
                let wdt = s[p + 2] / 16;
                let block = s[p + 2] % 16;
                match paint_line(g, ox + xr, oy + yr, wdt as int, 1, 0, block) {
                    Result::Err(e) => Err(e),
                    Result::Ok(g1) => decode_chunk_spec(g1, s, p + 3, ox, oy),
                }
            }
        } else {
            decode_chunk_spec(g, s, p + 1, ox, oy)
        }
    }
}

/// Paint one horizontal-stretch opcode.
fn hstretch_exec(buf: &mut Vec<u8>, ox: i32, oy: i32, w16: u16, h: u8) -> (r: Result<(), DecodeError>)
    requires
        grid_wf(old(buf)@),
        0 <= ox <= 255,
        0 <= oy <= 255,
        w16 <= 240,
        h <= 15,
    ensures
        grid_wf(final(buf)@),
        hstretch_iter(old(buf)@, ox as int, oy as int, w16 as int, h as int, 0) matches Ok(g) ==> r is Ok && final(buf)@ == g,
        hstretch_iter(old(buf)@, ox as int, oy as int, w16 as int, h as int, 0) matches Err(e) ==> r == Err::<(), DecodeError>(e),
{
    let mut x: u16 = 0;
    while x < w16
        invariant
            grid_wf(buf@),
            0 <= x <= w16,
            w16 <= 240,
            h <= 15,
            0 <= ox <= 255,
            0 <= oy <= 255,
            hstretch_iter(old(buf)@, ox as int, oy as int, w16 as int, h as int, 0)
                == hstretch_iter(buf@, ox as int, oy as int, w16 as int, h as int, x as int),
        decreases w16 - x,
    {
        let res = put_tile(buf, ox + x as i32, oy + h as i32, 0x22);
        match res {
            Err(e) => {
                assert(hstretch_iter(old(buf)@, ox as int, oy as int, w16 as int, h as int, 0)
                    == Err::<Seq<u8>, DecodeError>(e));
                return Err(e);
            },
            Ok(()) => {},
        }
        let res = paint_line_exec(buf, ox + x as i32, oy + h as i32 + 1, 15 - h as u16, 0, 1, 0x32);
        match res {
            Err(e) => {
                assert(hstretch_iter(old(buf)@, ox as int, oy as int, w16 as int, h as int, 0)
                    == Err::<Seq<u8>, DecodeError>(e));
                return Err(e);
            },
            Ok(()) => {},
        }
        x = x + 1;
    }
    Ok(())
}

/// Decode one inline opcode chunk at the tile origin `pos` of the grid.
pub fn decode_chunk(pos: crate::vec2::Vec2, buf: &mut Vec<u8>, src: &Vec<u8>) -> (r: Result<(), DecodeError>)
    requires
        grid_wf(old(buf)@),
        0 <= pos.x <= 255,
        0 <= pos.y <= 255,
    ensures
        grid_wf(final(buf)@),
        decode_chunk_spec(old(buf)@, src@, 0, pos.x as int, pos.y as int) matches Ok(g) ==> r is Ok && final(buf)@ == g,
        decode_chunk_spec(old(buf)@, src@, 0, pos.x as int, pos.y as int) matches Err(e) ==> r == Err::<(), DecodeError>(e),
{
    let ox: i32 = pos.x;
    let oy: i32 = pos.y;
    let mut p: usize = 0;
    while p < src.len()
        invariant
            grid_wf(buf@),
            0 <= p <= src@.len(),
            ox == pos.x,
            oy == pos.y,
            0 <= ox <= 255,
            0 <= oy <= 255,
            decode_chunk_spec(old(buf)@, src@, 0, pos.x as int, pos.y as int)
                == decode_chunk_spec(buf@, src@, p as int, pos.x as int, pos.y as int),
        decreases src@.len() - p,
    {
        let id: u8 = src[p];
        if id == 0 {
            if src.len() - p < 2 {
                assert(decode_chunk_spec(old(buf)@, src@, 0, pos.x as int, pos.y as int)
                    == Err::<Seq<u8>, DecodeError>(DecodeError::Truncated));
                return Err(DecodeError::Truncated);
            }
            let params: u8 = src[p + 1];
            let res = hstretch_exec(buf, ox, oy, (params / 16) as u16 * 16, params % 16);
            match res {
                Err(e) => {
                    assert(decode_chunk_spec(old(buf)@, src@, 0, pos.x as int, pos.y as int)
                        == Err::<Seq<u8>, DecodeError>(e));
                    return Err(e);
                },
                Ok(()) => {},
            }
            p = p + 2;
        } else if id == 1 {
            if src.len() - p < 3 {
                assert(decode_chunk_spec(old(buf)@, src@, 0, pos.x as int, pos.y as int)
                    == Err::<Seq<u8>, DecodeError>(DecodeError::Truncated));
                return Err(DecodeError::Truncated);
            }
            let posb: u8 = src[p + 1];
            let params: u8 = src[p + 2];
            let res = paint_line_exec(buf, ox + (posb / 16) as i32, oy + (posb % 16) as i32, (params / 16) as u16, 1, 0, params % 16);
            match res {
                Err(e) => {
                    assert(decode_chunk_spec(old(buf)@, src@, 0, pos.x as int, pos.y as int)
                        == Err::<Seq<u8>, DecodeError>(e));
                    return Err(e);
                },
                Ok(()) => {},
            }
            p = p + 3;
        } else {
            p = p + 1;
        }
    }
    Ok(())
}

} // verus!
