use noise::NoiseFn;
use voxel_terrain::noise_field::NoiseField;
use voxel_terrain::terrain::{generate_voxel_data, ChunkPos, CHUNK_EDGE, CHUNK_SIZE};

fn raw_noise(field: &NoiseField, wx: i64, wz: i64) -> i64 {
    let sx = field.sample_coord(wx) as f64 * 1e-6;
    let sz = field.sample_coord(wz) as f64 * 1e-6;
    let simplex = noise::SuperSimplex::new(field.seed);
    (simplex.get([sx, sz]) * 1000.0) as i64
}

/// One raw noise value per column of the chunk at `pos`, indexed
/// `z * CHUNK_EDGE + x`, sampled at the columns' world coordinates.
fn column_noise(field: &NoiseField, pos: ChunkPos) -> Vec<i64> {
    let edge = CHUNK_EDGE as i64;
    let mut columns = Vec::new();
    for z in 0..edge {
        for x in 0..edge {
            let wx = (pos.x as i64) * edge + x;
            let wz = (pos.z as i64) * edge + z;
            columns.push(raw_noise(field, wx, wz));
        }
    }
    columns
}

fn linear_index(x: usize, y: usize, z: usize) -> usize {
    z * CHUNK_EDGE * CHUNK_EDGE + y * CHUNK_EDGE + x
}

#[test]
fn generation_is_deterministic() {
    let field = NoiseField::new(42, 50_000_000);
    let pos = ChunkPos { x: 3, y: -1, z: 7 };
    let columns = column_noise(&field, pos);
    let columns_again = column_noise(&field, pos);
    assert_eq!(columns, columns_again);
    let first = generate_voxel_data(pos, &columns);
    let second = generate_voxel_data(pos, &columns_again);
    assert_eq!(first, second);
}

#[test]
fn chunk_buffer_has_full_size() {
    let field = NoiseField::new(1, 50_000_000);
    for pos in [
        ChunkPos { x: 0, y: 0, z: 0 },
        ChunkPos { x: -4, y: 2, z: 9 },
        ChunkPos { x: 1000, y: -1000, z: 0 },
    ] {
        let columns = column_noise(&field, pos);
        let voxels = generate_voxel_data(pos, &columns);
        assert_eq!(voxels.len(), CHUNK_SIZE);
    }
}

#[test]
fn solidity_follows_surface_height() {
    // A column noise value of 1000 (full amplitude) puts the surface at
    // world height 16: cells at height 16 are solid, cells above are empty.
    let columns: Vec<i64> = vec![1000; CHUNK_EDGE * CHUNK_EDGE];
    let voxels = generate_voxel_data(ChunkPos { x: 0, y: 0, z: 0 }, &columns);
    assert!(voxels[linear_index(0, 16, 0)].is_solid);
    assert!(!voxels[linear_index(0, 17, 0)].is_solid);
    assert!(voxels[linear_index(31, 0, 31)].is_solid);
    assert!(!voxels[linear_index(31, 31, 31)].is_solid);
}

#[test]
fn zero_noise_keeps_only_ground_level() {
    let columns: Vec<i64> = vec![0; CHUNK_EDGE * CHUNK_EDGE];
    let voxels = generate_voxel_data(ChunkPos { x: 0, y: 0, z: 0 }, &columns);
    assert!(voxels[linear_index(5, 0, 5)].is_solid);
    assert!(!voxels[linear_index(5, 1, 5)].is_solid);
}

#[test]
fn raw_noise_is_clamped_before_scaling() {
    // 5000 thousandths is outside the unit amplitude; it must act as 1000,
    // keeping the surface at 16 rather than 80.
    let columns: Vec<i64> = vec![5000; CHUNK_EDGE * CHUNK_EDGE];
    let voxels = generate_voxel_data(ChunkPos { x: 0, y: 0, z: 0 }, &columns);
    assert!(voxels[linear_index(0, 16, 0)].is_solid);
    assert!(!voxels[linear_index(0, 17, 0)].is_solid);
}

#[test]
fn negative_chunks_lie_below_a_deep_surface() {
    // Noise at the negative full amplitude puts the surface at -16: the
    // chunk at y = -1 spans heights -32..0, so cells at -16 and below are
    // solid there.
    let columns: Vec<i64> = vec![-1000; CHUNK_EDGE * CHUNK_EDGE];
    let voxels = generate_voxel_data(ChunkPos { x: 0, y: -1, z: 0 }, &columns);
    // local y 16 is world height -16: solid; local y 17 is -15: empty.
    assert!(voxels[linear_index(0, 16, 0)].is_solid);
    assert!(!voxels[linear_index(0, 17, 0)].is_solid);
    // the chunk at y = 0 is fully empty under the same columns.
    let above = generate_voxel_data(ChunkPos { x: 0, y: 0, z: 0 }, &columns);
    assert!(above.iter().all(|v| !v.is_solid));
}
