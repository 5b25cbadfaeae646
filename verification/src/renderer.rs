use vstd::prelude::*;
use crate::color::{ColorRgb, COLOR_LIMIT};
use crate::fixed::{fdiv, FX_ONE};
use crate::geometry::aggregate::agg_hit_spec;
use crate::geometry::HitRecord;
use crate::material::{emitted_spec, scatter_spec};
use crate::ray::{dirok, nok, rok, Ray};
use crate::vec3::{dot3, Vec3d};
use crate::world::{world_wf, World};

verus! {

/// Lower ray-parameter bound of every scene query: one scale step, so a
/// secondary ray cannot meet the surface it starts on.
pub const RENDER_T_MIN: i64 = 1;

/// Upper ray-parameter bound of every scene query: the edge of the
/// coordinate range stands in for an unbounded reach.
pub const RENDER_T_MAX: i64 = 0x1_0000_0000;

/// The multi-sample recursive path integrator.
pub struct SimpleRenderer {
    pub samples_per_pixel: u32,
    pub max_depth: u32,
}

/// Relies on rand::random: one draw from the thread-local generator; being
/// random, nothing is promised of the value.
#[verifier::external_body]
fn random_u64() -> u64 {
    rand::random::<u64>()
}

/// One random scalar in `[-1, 1]`, from a random draw.
fn rand_sym() -> (r: i64)
    ensures
        -FX_ONE <= r <= FX_ONE,
{
    let u = random_u64();
    ((u % 131073) as i64) - FX_ONE
}

/// Largest admitted deviation of a sampled direction's squared length from
/// one (an eighth on either side).
pub const UNIT_BAND_FX: i64 = 8192;

/// A point on (approximately) the unit sphere: rejection-sample a thin shell
/// around the unit sphere, so every outcome has squared length within
/// `UNIT_BAND_FX` of one; after a bounded number of rejected draws, fall
/// back to the upward unit vector.
pub fn rand_unit_vec() -> (v: Vec3d)
    ensures
        nok(v),
        FX_ONE - UNIT_BAND_FX <= dot3(v, v) <= FX_ONE + UNIT_BAND_FX,
{
    let mut tries: u32 = 0;
    while tries < 64
        invariant
            tries <= 64,
        decreases 64 - tries,
    {
        let x = rand_sym();
        let y = rand_sym();
        let z = rand_sym();
        let v = Vec3d { x, y, z };
        let l2 = v.length_squared();
        if FX_ONE - UNIT_BAND_FX <= l2 && l2 <= FX_ONE + UNIT_BAND_FX {
            return v;
        }
        tries = tries + 1;
    }
    proof {
        assert(dot3(Vec3d { x: 0, y: FX_ONE as i64, z: 0 }, Vec3d { x: 0, y: FX_ONE as i64, z: 0 })
            == crate::fixed::tdiv((FX_ONE as int) * (FX_ONE as int), FX_ONE as int));
        crate::fixed::lemma_tdiv_exact(FX_ONE as int, FX_ONE as int);
    }
    Vec3d { x: 0, y: FX_ONE, z: 0 }
}

/// What the nearest surface along a ray emits, when that surface is a light
/// with a registered material: the scene's one source of radiance.
pub open spec fn light_emission(w: World, r: Ray) -> Option<ColorRgb> {
    match agg_hit_spec(w.objects, r, RENDER_T_MIN, RENDER_T_MAX) {
        Some(h) => {
            if h.material < w.materials@.len() && w.materials@[h.material as int]
                is DiffusionLight {
                Some(emitted_spec(w.materials@[h.material as int], h.mat_uv, h.point))
            } else {
                None
            }
        },
        None => None,
    }
}

/// One estimator step at a hit: with the drawn sample `v`, either the
/// material absorbs and the estimate is the emission alone, or it scatters
/// and the estimate is the emission plus the attenuation filtering the
/// radiance `b` carried back along the scattered ray.
pub open spec fn estimator_step(
    w: World,
    ray: Ray,
    h: HitRecord,
    v: Vec3d,
    b: ColorRgb,
    res: ColorRgb,
) -> bool {
    let m = w.materials@[h.material as int];
    let e = emitted_spec(m, h.mat_uv, h.point);
    match scatter_spec(m, ray, h, v) {
        None => res == e,
        Some(p) => res == ColorRgb::cadd_spec(e, ColorRgb::cmul_spec(p.0, b)),
    }
}

/// The estimate at a hit has the emission-plus-attenuated-continuation shape
/// for some drawn sample and some continuation radiance.
pub open spec fn follows_estimator(w: World, ray: Ray, h: HitRecord, res: ColorRgb) -> bool {
    exists|v: Vec3d, b: ColorRgb| nok(v) && #[trigger] estimator_step(w, ray, h, v, b, res)
}

impl SimpleRenderer {
    pub fn new(samples_per_pixel: u32, max_depth: u32) -> (r: SimpleRenderer)
        ensures
            r.samples_per_pixel == samples_per_pixel,
            r.max_depth == max_depth,
    {
        SimpleRenderer { samples_per_pixel, max_depth }
    }

    /// The single-sample radiance estimate: black once the recursion budget
    /// is exhausted; the background on a miss; on a hit, the material's
    /// emission plus, when it scatters, the attenuated estimate along the
    /// scattered ray. A hit whose material index is not registered
    /// contributes black. A hit on an emitter returns exactly the emitted
    /// radiance: emitters never scatter.
    pub fn ray_color(world: &World, ray: &Ray, depth: u32) -> (res: ColorRgb)
        requires
            world_wf(*world),
            rok(*ray),
            dirok(ray.direction),
        ensures
            depth == 0 ==> res == ColorRgb::black_spec(),
            depth > 0 && agg_hit_spec(world.objects, *ray, RENDER_T_MIN, RENDER_T_MAX) is None
                ==> res == crate::world::background_value_spec(world.background, *ray),
            depth > 0 ==> (light_emission(*world, *ray) matches Some(c) ==> res == c),
            depth > 0 ==> (agg_hit_spec(world.objects, *ray, RENDER_T_MIN, RENDER_T_MAX)
                matches Some(h) && h.material >= world.materials@.len() ==> res
                == ColorRgb::black_spec()),
            depth > 0 ==> (agg_hit_spec(world.objects, *ray, RENDER_T_MIN, RENDER_T_MAX)
                matches Some(h) ==> (h.material < world.materials@.len() ==> follows_estimator(
                *world,
                *ray,
                h,
                res,
            ))),
        decreases depth,
    {
        if depth == 0 {
            return ColorRgb::black();
        }
        match world.hit(ray, RENDER_T_MIN, RENDER_T_MAX) {
            None => world.background.value(ray),
            Some(rec) => {
                if rec.material as usize >= world.materials.len() {
                    return ColorRgb::black();
                }
                let m = &world.materials[rec.material as usize];
                let emitted = m.emitted(rec.mat_uv, &rec.point);
                let rand = rand_unit_vec();
                match m.scatter(ray, &rec, rand) {
                    Some((attenuation, scattered)) => {
                        let bounce = Self::ray_color(world, &scattered, depth - 1);
                        let res = emitted.cadd(&attenuation.cmul(&bounce));
                        proof {
                            assert(estimator_step(*world, *ray, rec, rand, bounce, res));
                        }
                        res
                    },
                    None => {
                        proof {
                            assert(estimator_step(*world, *ray, rec, rand,
                                ColorRgb::black_spec(), emitted));
                        }
                        emitted
                    },
                }
            },
        }
    }

    /// The averaged estimate over one pixel's sample rays; every component
    /// of the average lies in the radiance range. When every sample ray
    /// lands on the same emitter with the same unit-range emission, the
    /// average is exactly that emission: one light filling the frame colors
    /// the pixel with its radiance, with no attenuation and no recursion.
    /// (The unit-range bound on the emission is the machine limit under
    /// which the saturating accumulator provably never saturates.)
    pub fn render_pixel(world: &World, rays: &Vec<Ray>, max_depth: u32) -> (res: ColorRgb)
        requires
            world_wf(*world),
            forall|i: int| 0 <= i < rays@.len() ==> rok(#[trigger] rays@[i]) && dirok(
                rays@[i].direction,
            ),
            1 <= rays@.len() <= 0x4000_0000,
            max_depth >= 1,
        ensures
            -COLOR_LIMIT <= res.r <= COLOR_LIMIT,
            -COLOR_LIMIT <= res.g <= COLOR_LIMIT,
            -COLOR_LIMIT <= res.b <= COLOR_LIMIT,
            ({
                let e0 = light_emission(*world, rays@[0]);
                (e0 matches Some(c) && 0 <= c.r <= FX_ONE && 0 <= c.g <= FX_ONE && 0 <= c.b
                    <= FX_ONE && (forall|i: int| 0 <= i < rays@.len()
                    ==> #[trigger] light_emission(*world, rays@[i]) == e0)) ==> Some(res) == e0
            }),
    {
        let ghost e0 = light_emission(*world, rays@[0]);
        let ghost uniform = e0 matches Some(c) && 0 <= c.r <= FX_ONE && 0 <= c.g <= FX_ONE && 0
            <= c.b <= FX_ONE && (forall|i: int| 0 <= i < rays@.len()
            ==> #[trigger] light_emission(*world, rays@[i]) == e0);
        let mut acc = ColorRgb::black();
        let mut i: usize = 0;
        while i < rays.len()
            invariant
                0 <= i <= rays@.len(),
                world_wf(*world),
                forall|j: int| 0 <= j < rays@.len() ==> rok(#[trigger] rays@[j]) && dirok(
                    rays@[j].direction,
                ),
                rays@.len() <= 0x4000_0000,
                max_depth >= 1,
                e0 == light_emission(*world, rays@[0]),
                uniform == (e0 matches Some(c) && 0 <= c.r <= FX_ONE && 0 <= c.g <= FX_ONE && 0
                    <= c.b <= FX_ONE && (forall|j: int| 0 <= j < rays@.len()
                    ==> #[trigger] light_emission(*world, rays@[j]) == e0)),
                -COLOR_LIMIT <= acc.r <= COLOR_LIMIT,
                -COLOR_LIMIT <= acc.g <= COLOR_LIMIT,
                -COLOR_LIMIT <= acc.b <= COLOR_LIMIT,
                uniform ==> acc.r == i * e0->0.r && acc.g == i * e0->0.g && acc.b == i * e0->0.b,
            decreases rays@.len() - i,
        {
            let sample = Self::ray_color(world, &rays[i], max_depth);
            proof {
                if uniform {
                    assert(light_emission(*world, rays@[i as int]) == e0);
                    assert(sample == e0->0);
                    assert((i + 1) * e0->0.r == i * e0->0.r + e0->0.r) by (nonlinear_arith);
                    assert((i + 1) * e0->0.g == i * e0->0.g + e0->0.g) by (nonlinear_arith);
                    assert((i + 1) * e0->0.b == i * e0->0.b + e0->0.b) by (nonlinear_arith);
                    assert(i * e0->0.r + e0->0.r <= COLOR_LIMIT) by (nonlinear_arith)
                        requires
                            0 <= e0->0.r <= 65536,
                            0 <= i < 0x4000_0000,
                            acc.r == i * e0->0.r;
                    assert(i * e0->0.g + e0->0.g <= COLOR_LIMIT) by (nonlinear_arith)
                        requires
                            0 <= e0->0.g <= 65536,
                            0 <= i < 0x4000_0000,
                            acc.g == i * e0->0.g;
                    assert(i * e0->0.b + e0->0.b <= COLOR_LIMIT) by (nonlinear_arith)
                        requires
                            0 <= e0->0.b <= 65536,
                            0 <= i < 0x4000_0000,
                            acc.b == i * e0->0.b;
                }
            }
            acc = acc.cadd(&sample);
            i = i + 1;
        }
        let n: i64 = rays.len() as i64;
        let n_fx: i64 = n * FX_ONE;
        proof {
            lemma_avg_fits(acc.r as int, n as int);
            lemma_avg_fits(acc.g as int, n as int);
            lemma_avg_fits(acc.b as int, n as int);
            if uniform {
                lemma_avg_exact(e0->0.r as int, n as int);
                lemma_avg_exact(e0->0.g as int, n as int);
                lemma_avg_exact(e0->0.b as int, n as int);
            }
        }
        acc.div(n_fx)
    }
}

/// Dividing an accumulated component by the sample count stays in range.
proof fn lemma_avg_fits(a: int, n: int)
    requires
        -(COLOR_LIMIT as int) <= a <= COLOR_LIMIT as int,
        1 <= n <= 0x4000_0000,
    ensures
        -(COLOR_LIMIT as int) <= fdiv(a, n * (FX_ONE as int)) <= COLOR_LIMIT as int,
{
    crate::fixed::lemma_mul_bound(a, FX_ONE as int, COLOR_LIMIT as int, 65536);
    assert(n * (FX_ONE as int) >= 65536) by (nonlinear_arith)
        requires n >= 1;
    crate::fixed::lemma_tdiv_bound(a * (FX_ONE as int), n * (FX_ONE as int),
        (COLOR_LIMIT as int) * 65536);
    crate::fixed::lemma_tdiv_ordered((COLOR_LIMIT as int) * 65536,
        (COLOR_LIMIT as int) * (n * (FX_ONE as int)), n * (FX_ONE as int));
    crate::fixed::lemma_tdiv_exact(COLOR_LIMIT as int, n * (FX_ONE as int));
    assert((COLOR_LIMIT as int) * 65536 <= (COLOR_LIMIT as int) * (n * (FX_ONE as int)))
        by (nonlinear_arith)
        requires n >= 1;
}

/// The average of `n` equal unit-range components is exactly that component.
proof fn lemma_avg_exact(c: int, n: int)
    requires
        0 <= c <= FX_ONE as int,
        1 <= n <= 0x4000_0000,
    ensures
        fdiv(n * c, n * (FX_ONE as int)) == c,
{
    assert((n * c) * (FX_ONE as int) == c * (n * (FX_ONE as int))) by (nonlinear_arith);
    assert(n * (FX_ONE as int) > 0) by (nonlinear_arith)
        requires n >= 1;
    crate::fixed::lemma_tdiv_exact(c, n * (FX_ONE as int));
}

} // verus!
