use server_core::grid::{block_offset, chunk_distance, chunk_of, BlockPos, ChunkKey, ChunkSize};

#[test]
fn chunk_distance_is_the_larger_axis_distance() {
    let a = ChunkKey { x: 3, y: -4 };
    let b = ChunkKey { x: -2, y: 10 };
    assert_eq!(chunk_distance(a, b), 14);
    assert_eq!(chunk_distance(b, a), 14);
    assert_eq!(chunk_distance(a, a), 0);
    assert_eq!(chunk_distance(ChunkKey { x: 9, y: 0 }, ChunkKey { x: 1, y: 1 }), 8);
}

#[test]
fn chunk_distance_spans_the_whole_grid() {
    let low = ChunkKey { x: i32::MIN, y: 0 };
    let high = ChunkKey { x: i32::MAX, y: 0 };
    assert_eq!(chunk_distance(low, high), u32::MAX);
    assert_eq!(chunk_distance(high, low), u32::MAX);
}

#[test]
fn block_offset_is_taken_axis_by_axis() {
    let a = BlockPos { x: 10, y: -20, z: 5 };
    let b = BlockPos { x: -6, y: 12, z: 5 };
    assert_eq!(block_offset(a, b), (16, 32, 0));
    assert_eq!(block_offset(b, a), (16, 32, 0));
    let low = BlockPos { x: i32::MIN, y: i32::MIN, z: i32::MAX };
    let high = BlockPos { x: i32::MAX, y: 0, z: i32::MIN };
    assert_eq!(block_offset(low, high), (u32::MAX, 2_147_483_648, u32::MAX));
}

#[test]
fn chunk_of_rounds_down() {
    let size = ChunkSize { x: 32, y: 32, z: 256 };
    let key = |x: i32, y: i32| chunk_of(BlockPos { x, y, z: 0 }, size);
    assert_eq!(key(0, 0), ChunkKey { x: 0, y: 0 });
    assert_eq!(key(31, 32), ChunkKey { x: 0, y: 1 });
    assert_eq!(key(-1, -32), ChunkKey { x: -1, y: -1 });
    assert_eq!(key(-33, 160), ChunkKey { x: -2, y: 5 });
    assert_eq!(key(i32::MIN, i32::MAX), ChunkKey { x: -67_108_864, y: 67_108_863 });
    let thin = ChunkSize { x: 1, y: 7, z: 1 };
    assert_eq!(
        chunk_of(BlockPos { x: i32::MIN, y: -8, z: 0 }, thin),
        ChunkKey { x: i32::MIN, y: -2 }
    );
}
