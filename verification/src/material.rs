use vstd::prelude::*;
use crate::color::ColorRgb;
use crate::fixed::{fmul, FX_ONE};
use crate::geometry::{hrok, HitRecord};
use crate::ray::{dirok, nok, rok, Ray};
use crate::texture::{cok, texok, texture_value_spec, Texture};
use crate::vec3::{dot3, vok, Vec3d, UNIT_LIMIT, UV};

verus! {

/// A diffuse surface: scatters around the normal, tinted by its texture.
pub struct Lambertian {
    pub albedo: Texture,
}

/// A specular surface: mirrors the incoming ray, perturbed by `fuzz`.
pub struct Metal {
    pub albedo: ColorRgb,
    pub fuzz: i64,
}

/// A pure emitter: never scatters; its texture is the emitted radiance.
pub struct DiffusionLight {
    pub tex_emit: Texture,
}

/// A refractive surface, declared with its index of refraction and tint;
/// its scattering rule is not part of this revision.
pub struct Dielectric {
    pub ir: i64,
    pub albedo: Texture,
}

/// A surface response: a closed union of the implemented material kinds.
pub enum Material {
    Lambertian(Lambertian),
    Metal(Metal),
    DiffusionLight(DiffusionLight),
}

/// A well-formed material: well-formed textures and bounded parameters.
pub open spec fn mwf(m: Material) -> bool {
    match m {
        Material::Lambertian(l) => texok(l.albedo),
        Material::Metal(mt) => cok(mt.albedo) && 0 <= mt.fuzz <= 16 * FX_ONE,
        Material::DiffusionLight(d) => texok(d.tex_emit),
    }
}

/// The radiance a material emits at a surface coordinate and point: its
/// texture's color for an emitter, black for every other kind.
pub open spec fn emitted_spec(m: Material, uv: UV, p: Vec3d) -> ColorRgb {
    match m {
        Material::DiffusionLight(d) => texture_value_spec(d.tex_emit, uv, p),
        _ => ColorRgb::black_spec(),
    }
}

/// The scattered ray and attenuation, given the sampled unit vector `rand`:
/// a diffuse surface scatters about its normal (falling back to the bare
/// normal on cancellation); a specular surface mirrors the ray, perturbs it
/// by `fuzz * rand`, and absorbs rays that end up under the surface; an
/// emitter always absorbs.
pub open spec fn scatter_spec(m: Material, ray_in: Ray, rec: HitRecord, rand: Vec3d) -> Option<
    (ColorRgb, Ray),
> {
    match m {
        Material::Lambertian(l) => {
            let d0 = Vec3d {
                x: (rec.unit_normal.x + rand.x) as i64,
                y: (rec.unit_normal.y + rand.y) as i64,
                z: (rec.unit_normal.z + rand.z) as i64,
            };
            let d = if dot3(d0, d0) < crate::vec3::VEC_EPS_SQ {
                rec.unit_normal
            } else {
                d0
            };
            Some(
                (
                    texture_value_spec(l.albedo, rec.mat_uv, rec.point),
                    Ray { origin: rec.point, direction: d },
                ),
            )
        },
        Material::Metal(mt) => {
            let mirror = Vec3d::normalize_spec(
                Ray::reflect_spec(ray_in, rec.hit_t as int, rec.unit_normal).direction,
            );
            let d = Vec3d {
                x: (mirror.x + fmul(rand.x as int, mt.fuzz as int)) as i64,
                y: (mirror.y + fmul(rand.y as int, mt.fuzz as int)) as i64,
                z: (mirror.z + fmul(rand.z as int, mt.fuzz as int)) as i64,
            };
            if dot3(d, rec.unit_normal) > 0 {
                Some((mt.albedo, Ray { origin: rec.point, direction: d }))
            } else {
                None
            }
        },
        Material::DiffusionLight(_) => None,
    }
}

impl Lambertian {
    pub fn new(albedo: Texture) -> (m: Lambertian)
        ensures
            m.albedo == albedo,
    {
        Lambertian { albedo }
    }
}

impl Metal {
    pub fn new(albedo: ColorRgb, fuzz: i64) -> (m: Metal)
        ensures
            m.albedo == albedo,
            m.fuzz == fuzz,
    {
        Metal { albedo, fuzz }
    }
}

impl DiffusionLight {
    pub fn new(tex_emit: Texture) -> (m: DiffusionLight)
        ensures
            m.tex_emit == tex_emit,
    {
        DiffusionLight { tex_emit }
    }

    /// An emitter of one flat color.
    pub fn from_color(c: ColorRgb) -> (m: DiffusionLight)
        ensures
            m.tex_emit == Texture::Solid(crate::texture::SolidColorTexture { color: c }),
    {
        DiffusionLight { tex_emit: Texture::Solid(crate::texture::SolidColorTexture::new(c)) }
    }
}

impl Material {
    /// The emitted radiance; black for every kind but the emitter.
    pub fn emitted(&self, uv: UV, p: &Vec3d) -> (c: ColorRgb)
        requires
            mwf(*self),
            -crate::texture::UV_LIMIT <= uv.u <= crate::texture::UV_LIMIT,
            -crate::texture::UV_LIMIT <= uv.v <= crate::texture::UV_LIMIT,
            vok(*p),
        ensures
            c == emitted_spec(*self, uv, *p),
            cok(c),
    {
        match self {
            Material::DiffusionLight(d) => d.tex_emit.value(uv, p),
            _ => ColorRgb::black(),
        }
    }

    /// The stochastic surface response, with the sampled unit vector passed
    /// in; `None` means the ray is absorbed.
    pub fn scatter(&self, ray_in: &Ray, rec: &HitRecord, rand: Vec3d) -> (res: Option<
        (ColorRgb, Ray),
    >)
        requires
            mwf(*self),
            rok(*ray_in),
            dirok(ray_in.direction),
            hrok(*rec),
            nok(rand),
            -crate::texture::UV_LIMIT <= rec.mat_uv.u <= crate::texture::UV_LIMIT,
            -crate::texture::UV_LIMIT <= rec.mat_uv.v <= crate::texture::UV_LIMIT,
        ensures
            res == scatter_spec(*self, *ray_in, *rec, rand),
            res matches Some(ar) ==> rok(ar.1) && dirok(ar.1.direction) && cok(ar.0),
            self is DiffusionLight ==> res is None,
    {
        match self {
            Material::Lambertian(l) => {
                let d0 = rec.unit_normal.add(&rand);
                let d = if d0.near_zero() {
                    rec.unit_normal
                } else {
                    d0
                };
                let attenuation = l.albedo.value(rec.mat_uv, &rec.point);
                Some((attenuation, Ray { origin: rec.point, direction: d }))
            },
            Material::Metal(mt) => {
                let mirror = ray_in.reflect(rec.hit_t, &rec.unit_normal).direction.normalize();
                proof {
                    lemma_fuzz_bound(rand, mt.fuzz);
                }
                let d = mirror.add(&rand.scale(mt.fuzz));
                if d.is_facing(&rec.unit_normal) {
                    Some((mt.albedo, Ray { origin: rec.point, direction: d }))
                } else {
                    None
                }
            },
            Material::DiffusionLight(_) => None,
        }
    }
}

/// The fuzz perturbation of a unit-bounded sample stays well in range.
proof fn lemma_fuzz_bound(rand: Vec3d, fuzz: i64)
    requires
        nok(rand),
        0 <= fuzz <= 16 * FX_ONE,
    ensures
        -0x40_0000 <= fmul(rand.x as int, fuzz as int) <= 0x40_0000,
        -0x40_0000 <= fmul(rand.y as int, fuzz as int) <= 0x40_0000,
        -0x40_0000 <= fmul(rand.z as int, fuzz as int) <= 0x40_0000,
{
    crate::fixed::lemma_fmul_bound(rand.x as int, fuzz as int, UNIT_LIMIT as int,
        16 * (FX_ONE as int));
    crate::fixed::lemma_fmul_bound(rand.y as int, fuzz as int, UNIT_LIMIT as int,
        16 * (FX_ONE as int));
    crate::fixed::lemma_fmul_bound(rand.z as int, fuzz as int, UNIT_LIMIT as int,
        16 * (FX_ONE as int));
    assert(crate::fixed::tdiv((UNIT_LIMIT as int) * (16 * (FX_ONE as int)), FX_ONE as int)
        == 0x40_0000);
}

} // verus!
