use vstd::prelude::*;

verus! {

/// Fixed-point unit used for noise-space lengths: one unit of noise space is
/// `SCALE_UNIT_MICRO` micro steps.
pub const SCALE_UNIT_MICRO: i64 = 1000000;

/// Floor that a non-positive scale is lifted to: one ten-thousandth of a
/// unit, so that dividing by the scale is always possible.
pub const SCALE_FLOOR_MICRO: i64 = 100;

/// Raw noise values are measured in thousandths of the unit amplitude, so a
/// value of the noise function in `[-1, 1]` becomes an integer in
/// `[-NOISE_UNIT_MILLI, NOISE_UNIT_MILLI]`.
pub const NOISE_UNIT_MILLI: i64 = 1000;

/// A seeded, deterministic noise field over the two-dimensional world plane.
/// The field itself holds only its configuration: the seed of the underlying
/// coherent-noise function and the spatial scale that world coordinates are
/// divided by before sampling. The scale is stored in micro units.
#[derive(Clone, Copy, PartialEq, Eq, Structural, Debug)]
pub struct NoiseField {
    pub seed: u32,
    pub scale_micro: i64,
}

/// Clamp a raw noise value to the unit amplitude, in thousandths.
pub open spec fn spec_clamp_milli(v: int) -> int {
    if v < -(NOISE_UNIT_MILLI as int) {
        -(NOISE_UNIT_MILLI as int)
    } else if v > NOISE_UNIT_MILLI as int {
        NOISE_UNIT_MILLI as int
    } else {
        v
    }
}

/// Executable form of `spec_clamp_milli`.
pub fn clamp_milli(v: i64) -> (r: i64)
    ensures
        r == spec_clamp_milli(v as int),
{
    if v < -NOISE_UNIT_MILLI {
        -NOISE_UNIT_MILLI
    } else if v > NOISE_UNIT_MILLI {
        NOISE_UNIT_MILLI
    } else {
        v
    }
}

/// The coordinate `w / scale` in micro units of noise space, truncated toward
/// zero and saturated to the `i64` range.
pub open spec fn spec_sample_coord(w: int, scale_micro: int) -> int
    recommends
        scale_micro >= 1,
{
    let unit_sq = (SCALE_UNIT_MICRO as int) * (SCALE_UNIT_MICRO as int);
    let q = if w >= 0 {
        (w * unit_sq) / scale_micro
    } else {
        -(((-w) * unit_sq) / scale_micro)
    };
    if q < -0x8000000000000000 {
        -0x8000000000000000
    } else if q > 0x7fffffffffffffff {
        0x7fffffffffffffff
    } else {
        q
    }
}

impl NoiseField {
    /// A usable field always carries a positive scale, so sampling never
    /// divides by zero.
    pub open spec fn wf(self) -> bool {
        self.scale_micro >= 1
    }

    /// Build a field from a seed and a scale in micro units. A non-positive
    /// scale is replaced by a small positive floor rather than rejected.
    pub fn new(seed: u32, scale_micro: i64) -> (field: NoiseField)
        ensures
            field.wf(),
            field.seed == seed,
            field.scale_micro == if scale_micro <= 0 {
                SCALE_FLOOR_MICRO as int
            } else {
                scale_micro as int
            },
    {
        let clamped = if scale_micro <= 0 {
            SCALE_FLOOR_MICRO
        } else {
            scale_micro
        };
        NoiseField { seed, scale_micro: clamped }
    }

    /// Where in noise space a world coordinate is sampled: `w / scale`, in
    /// micro units, truncated toward zero and saturated to the `i64` range.
    pub fn sample_coord(&self, w: i64) -> (r: i64)
        requires
            self.wf(),
        ensures
            r as int == spec_sample_coord(w as int, self.scale_micro as int),
    {
        let mag: u128 = if w >= 0 {
            w as u128
        } else {
            proof {
                assert(-(w as i128) >= 0);
            }
            (-(w as i128)) as u128
        };
        proof {
            assert((SCALE_UNIT_MICRO as int) * (SCALE_UNIT_MICRO as int) == 1000000000000);
        }
        let q: u128 = (mag * 1000000000000) / (self.scale_micro as u128);
        if w >= 0 {
            if q > 0x7fffffffffffffff {
                0x7fffffffffffffff
            } else {
                q as i64
            }
        } else {
            if q > 0x8000000000000000 {
                i64::MIN
            } else {
                (-(q as i128)) as i64
            }
        }
    }
}

/// Configuration holder for height-map generation: the grid dimensions and
/// the noise scale (in micro units) that a map is produced with.
#[derive(Clone, Copy, PartialEq, Eq, Structural, Debug)]
pub struct MapGenerator {
    pub map_width: usize,
    pub map_height: usize,
    pub noise_scale_micro: i64,
}

impl MapGenerator {
    pub fn new(map_width: usize, map_height: usize, noise_scale_micro: i64) -> (gen: MapGenerator)
        ensures
            gen.map_width == map_width,
            gen.map_height == map_height,
            gen.noise_scale_micro == noise_scale_micro,
    {
        MapGenerator { map_width, map_height, noise_scale_micro }
    }
}

/// Arrange raw noise samples of a `map_width` by `map_height` grid into rows,
/// clamping each value to the unit amplitude. `samples` holds one raw value
/// per grid cell in row-major order: the value for column `x` of row `y`
/// stands at `y * map_width + x`. The result keeps that orientation: row `y`
/// of the returned grid holds `map_width` values and its entry `x` is the
/// clamped value of the same cell, so the iteration axes and the storage axes
/// agree.
pub fn generate_noise_map(
    map_width: usize,
    map_height: usize,
    samples: &Vec<i64>,
) -> (noise_map: Vec<Vec<i64>>)
    requires
        samples.len() == map_width * map_height,
    ensures
        noise_map.len() == map_height,
        forall|y: int| 0 <= y < map_height ==> (#[trigger] noise_map[y]).len() == map_width,
        forall|y: int, x: int|
            0 <= y < map_height && 0 <= x < map_width ==> (#[trigger] noise_map[y][x]) as int
                == spec_clamp_milli(samples[y * map_width + x] as int),
{
    let mut noise_map: Vec<Vec<i64>> = Vec::new();
    for y in 0..map_height
        invariant
            samples.len() == map_width * map_height,
            noise_map.len() == y,
            forall|j: int| 0 <= j < y ==> (#[trigger] noise_map[j]).len() == map_width,
            forall|j: int, x: int|
                0 <= j < y && 0 <= x < map_width ==> (#[trigger] noise_map[j][x]) as int
                    == spec_clamp_milli(samples[j * map_width + x] as int),
    {
        let mut row: Vec<i64> = Vec::new();
        for x in 0..map_width
            invariant
                samples.len() == map_width * map_height,
                y < map_height,
                row.len() == x,
                forall|i: int| 0 <= i < x ==> (#[trigger] row[i]) as int
                    == spec_clamp_milli(samples[y * map_width + i] as int),
        {
            proof {
                assert(y * map_width + x < map_width * map_height) by (nonlinear_arith)
                    requires
                        y < map_height,
                        x < map_width,
                        0 <= y,
                        0 <= x,
                ;
            }
            let idx: usize = y * map_width + x;
            row.push(clamp_milli(samples[idx]));
        }
        noise_map.push(row);
    }
    noise_map
}

} // verus!
