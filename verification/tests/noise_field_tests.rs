use noise::NoiseFn;
use voxel_terrain::noise_field::{generate_noise_map, MapGenerator, NoiseField};

/// The unverifiable step of the pipeline: sample the coherent-noise function
/// at the point that the field's verified coordinate computation picks, and
/// bring the value into thousandths of the unit amplitude.
fn raw_noise(field: &NoiseField, wx: i64, wz: i64) -> i64 {
    let sx = field.sample_coord(wx) as f64 * 1e-6;
    let sz = field.sample_coord(wz) as f64 * 1e-6;
    let simplex = noise::SuperSimplex::new(field.seed);
    (simplex.get([sx, sz]) * 1000.0) as i64
}

#[test]
fn scale_floor_replaces_zero() {
    let field = NoiseField::new(1, 0);
    assert_eq!(field.scale_micro, 100);
    assert_eq!(field.seed, 1);
}

#[test]
fn scale_floor_replaces_negative() {
    let field = NoiseField::new(9, -5_000_000);
    assert_eq!(field.scale_micro, 100);
}

#[test]
fn positive_scale_kept() {
    let field = NoiseField::new(9, 50_000_000);
    assert_eq!(field.scale_micro, 50_000_000);
}

#[test]
fn sample_coord_exact_values() {
    // scale 50 units: one world step moves 1/50 of a unit, 20000 micro steps.
    let field = NoiseField::new(1, 50_000_000);
    assert_eq!(field.sample_coord(0), 0);
    assert_eq!(field.sample_coord(1), 20_000);
    assert_eq!(field.sample_coord(-1), -20_000);
    assert_eq!(field.sample_coord(75), 1_500_000);
}

#[test]
fn sample_coord_truncates_toward_zero() {
    let field = NoiseField::new(1, 3);
    assert_eq!(field.sample_coord(100), 33_333_333_333_333);
    assert_eq!(field.sample_coord(-100), -33_333_333_333_333);
}

#[test]
fn sample_coord_saturates() {
    let field = NoiseField::new(1, 1);
    assert_eq!(field.sample_coord(i64::MAX), i64::MAX);
    assert_eq!(field.sample_coord(i64::MIN), i64::MIN);
}

#[test]
fn sample_coord_with_floored_scale_never_divides_by_zero() {
    // A field built from scale zero still answers for every input.
    let field = NoiseField::new(4, 0);
    for w in [-1000i64, -1, 0, 1, 1000] {
        let _ = field.sample_coord(w);
    }
}

#[test]
fn noise_is_repeatable() {
    // Same seed and scale, same point: the same value, to full precision.
    let field = NoiseField::new(7, 50_000_000);
    let first = raw_noise(&field, 0, 0);
    let second = raw_noise(&field, 0, 0);
    assert_eq!(first, second);
    let third = raw_noise(&field, 123, -456);
    let fourth = raw_noise(&field, 123, -456);
    assert_eq!(third, fourth);
}

#[test]
fn noise_is_not_constant() {
    let field = NoiseField::new(7, 3_000_000);
    let base = raw_noise(&field, 0, 0);
    let mut saw_other = false;
    for wx in 0..10 {
        for wz in 0..10 {
            if raw_noise(&field, wx, wz) != base {
                saw_other = true;
            }
        }
    }
    assert!(saw_other);
}

#[test]
fn noise_map_shape_and_values() {
    // Width and height differ on purpose: row y holds map_width entries and
    // entry x of row y is the clamped sample of cell (x, y).
    let samples: Vec<i64> = vec![0, 1500, -1500, 7, -7, 2000];
    let grid = generate_noise_map(3, 2, &samples);
    assert_eq!(grid.len(), 2);
    assert_eq!(grid[0].len(), 3);
    assert_eq!(grid[1].len(), 3);
    assert_eq!(grid[0], vec![0, 1000, -1000]);
    assert_eq!(grid[1], vec![7, -7, 1000]);
}

#[test]
fn noise_map_from_field_is_repeatable() {
    let field = NoiseField::new(1, 25_000_000);
    let mut samples: Vec<i64> = Vec::new();
    for y in 0..4i64 {
        for x in 0..5i64 {
            samples.push(raw_noise(&field, x, y));
        }
    }
    let first = generate_noise_map(5, 4, &samples);
    let second = generate_noise_map(5, 4, &samples);
    assert_eq!(first, second);
}

#[test]
fn map_generator_holds_configuration() {
    let config = MapGenerator::new(640, 480, 27_000_000);
    assert_eq!(config.map_width, 640);
    assert_eq!(config.map_height, 480);
    assert_eq!(config.noise_scale_micro, 27_000_000);
}
