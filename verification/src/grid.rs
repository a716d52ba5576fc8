//! The integer grid: block positions, chunk keys and distances in chunks.

use vek::Vec2;
use vek::Vec3;
use vstd::prelude::*;

verus! {

/// Key of a terrain chunk: its column, in chunk units.
#[derive(Clone, Copy, Debug, PartialEq, Eq, Structural)]
pub struct ChunkKey {
    pub x: i32,
    pub y: i32,
}

/// The block that a point of the world lies in.
#[derive(Clone, Copy, Debug, PartialEq, Eq, Structural)]
pub struct BlockPos {
    pub x: i32,
    pub y: i32,
    pub z: i32,
}

/// Edge lengths of a chunk, in blocks.
#[derive(Clone, Copy, Debug, PartialEq, Eq, Structural)]
pub struct ChunkSize {
    pub x: u32,
    pub y: u32,
    pub z: u32,
}

impl ChunkSize {
    /// No edge of a chunk is empty.
    pub open spec fn wf(self) -> bool {
        self.x > 0 && self.y > 0 && self.z > 0
    }
}

pub open spec fn spec_abs(v: int) -> int {
    if v < 0 {
        -v
    } else {
        v
    }
}

pub open spec fn spec_max(a: int, b: int) -> int {
    if a >= b {
        a
    } else {
        b
    }
}

/// Distance between two chunks: the larger of the two axis distances.
pub open spec fn spec_chunk_distance(a: ChunkKey, b: ChunkKey) -> int {
    spec_max(spec_abs(a.x - b.x), spec_abs(a.y - b.y))
}

/// The chunk that holds `pos`: its horizontal coordinates divided by the
/// chunk's edges, rounded down.
pub open spec fn spec_chunk_of(pos: BlockPos, size: ChunkSize) -> ChunkKey {
    ChunkKey { x: (pos.x as int / size.x as int) as i32, y: (pos.y as int / size.y as int) as i32 }
}

/// `vek::Vec2<i64>` minus `vek::Vec2<i64>`, which subtracts component by
/// component with the `-` of `i64`. The differences must fit in `i64`.
#[verifier::external_body]
fn vec2_sub(ax: i64, ay: i64, bx: i64, by: i64) -> (d: (i64, i64))
    requires
        i64::MIN <= ax - bx <= i64::MAX,
        i64::MIN <= ay - by <= i64::MAX,
    ensures
        d.0 == ax - bx,
        d.1 == ay - by,
{
    let d = Vec2::new(ax, ay) - Vec2::new(bx, by);
    (d.x, d.y)
}

/// `vek::Vec2::reduce_max` on `i64`: the greater of the two components.
#[verifier::external_body]
fn vec2_reduce_max(x: i64, y: i64) -> (m: i64)
    ensures
        m == spec_max(x as int, y as int),
{
    Vec2::new(x, y).reduce_max()
}

/// `vek::Vec3<i64>` minus `vek::Vec3<i64>`, which subtracts component by
/// component with the `-` of `i64`. The differences must fit in `i64`.
#[verifier::external_body]
fn vec3_sub(a: (i64, i64, i64), b: (i64, i64, i64)) -> (d: (i64, i64, i64))
    requires
        i64::MIN <= a.0 - b.0 <= i64::MAX,
        i64::MIN <= a.1 - b.1 <= i64::MAX,
        i64::MIN <= a.2 - b.2 <= i64::MAX,
    ensures
        d.0 == a.0 - b.0,
        d.1 == a.1 - b.1,
        d.2 == a.2 - b.2,
{
    let d = Vec3::new(a.0, a.1, a.2) - Vec3::new(b.0, b.1, b.2);
    (d.x, d.y, d.z)
}

fn abs64(v: i64) -> (a: i64)
    requires
        v > i64::MIN,
    ensures
        a == spec_abs(v as int),
{
    if v < 0 {
        -v
    } else {
        v
    }
}

fn floor_div(v: i32, by: u32) -> (q: i32)
    requires
        by > 0,
    ensures
        q == v as int / by as int,
{
    let d: i64 = by as i64;
    if v >= 0 {
        let q: i64 = v as i64 / d;
        assert(0 <= q <= v) by (nonlinear_arith)
            requires
                q == v as int / d as int,
                v >= 0,
                d > 0,
        ;
        q as i32
    } else {
        let n: i64 = -(v as i64) - 1;
        let q: i64 = n / d;
        assert(0 <= q <= n) by (nonlinear_arith)
            requires
                q == n as int / d as int,
                n >= 0,
                d > 0,
        ;
        assert(v as int / d as int == -(n as int / d as int) - 1) by (nonlinear_arith)
            requires
                n == -(v as int) - 1,
                n >= 0,
                d > 0,
        ;
        (-q - 1) as i32
    }
}

/// The chunk that holds the block `pos`.
pub fn chunk_of(pos: BlockPos, size: ChunkSize) -> (key: ChunkKey)
    requires
        size.wf(),
    ensures
        key == spec_chunk_of(pos, size),
{
    ChunkKey { x: floor_div(pos.x, size.x), y: floor_div(pos.y, size.y) }
}

/// Distance between two chunks, in chunks: the larger of the distances
/// along the two axes.
pub fn chunk_distance(a: ChunkKey, b: ChunkKey) -> (d: u32)
    ensures
        d == spec_chunk_distance(a, b),
{
    let off = vec2_sub(a.x as i64, a.y as i64, b.x as i64, b.y as i64);
    let m: i64 = vec2_reduce_max(abs64(off.0), abs64(off.1));
    m as u32
}

/// Distance between two blocks along each axis, in blocks.
pub open spec fn spec_block_offset(a: BlockPos, b: BlockPos) -> (int, int, int) {
    (spec_abs(a.x - b.x), spec_abs(a.y - b.y), spec_abs(a.z - b.z))
}

/// Distance between two blocks along each axis, in blocks.
pub fn block_offset(a: BlockPos, b: BlockPos) -> (d: (u32, u32, u32))
    ensures
        (d.0 as int, d.1 as int, d.2 as int) == spec_block_offset(a, b),
{
    let off = vec3_sub((a.x as i64, a.y as i64, a.z as i64), (b.x as i64, b.y as i64, b.z as i64));
    (abs64(off.0) as u32, abs64(off.1) as u32, abs64(off.2) as u32)
}

} // verus!
