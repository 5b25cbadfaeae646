use vstd::prelude::*;
use std::sync::Arc;
use crate::color::ColorRgb;
use crate::fixed::{fdiv, sok, FX_ONE};
use crate::geometry::aggregate::{agg_hit_spec, agg_wf, Aggregate};
use crate::geometry::{hok, hrok, HitRecord, Hittable};
use crate::material::{mwf, Material};
use crate::ray::{rok, Ray};
use crate::texture::cok;

verus! {

/// What a missed ray reports: a flat color, or a vertical gradient read off
/// the ray's direction - a closed union of the background shader kinds.
pub enum Background {
    Solid(ColorRgb),
    VerticalGradient { zenith: ColorRgb, horizon: ColorRgb },
}

/// A background whose colors lie in the radiance range.
pub open spec fn bgok(b: Background) -> bool {
    match b {
        Background::Solid(c) => cok(c),
        Background::VerticalGradient { zenith, horizon } => cok(zenith) && cok(horizon),
    }
}

/// The color a background reports for a missed ray: the flat color, or the
/// blend from horizon to zenith by the normalized direction's height
/// (saturated into the unit blend range).
pub open spec fn background_value_spec(b: Background, r: Ray) -> ColorRgb {
    match b {
        Background::Solid(c) => c,
        Background::VerticalGradient { zenith, horizon } => {
            let uy = crate::vec3::Vec3d::normalize_spec(r.direction).y as int;
            let t0 = fdiv(uy + FX_ONE, 2 * (FX_ONE as int));
            let t = if t0 < 0 {
                0
            } else if t0 > FX_ONE as int {
                FX_ONE as int
            } else {
                t0
            };
            ColorRgb::lerp_spec(horizon, zenith, t)
        },
    }
}

impl Background {
    /// The color for a missed ray.
    pub fn value(&self, ray: &Ray) -> (c: ColorRgb)
        requires
            bgok(*self),
            rok(*ray),
        ensures
            c == background_value_spec(*self, *ray),
    {
        match self {
            Background::Solid(c) => *c,
            Background::VerticalGradient { zenith, horizon } => {
                let u = ray.direction.normalize();
                proof {
                    crate::fixed::lemma_mul_bound((u.y as int) + FX_ONE, FX_ONE as int,
                        5 * (FX_ONE as int), FX_ONE as int);
                    crate::fixed::lemma_tdiv_bound(((u.y as int) + FX_ONE) * (FX_ONE as int),
                        2 * (FX_ONE as int), 5 * (FX_ONE as int) * (FX_ONE as int));
                }
                let t0 = crate::fixed::fx_div(u.y + FX_ONE, 2 * FX_ONE);
                let t = if t0 < 0 {
                    0
                } else if t0 > FX_ONE {
                    FX_ONE
                } else {
                    t0
                };
                ColorRgb::lerp(*horizon, *zenith, t)
            },
        }
    }
}

/// The scene: its materials (referred to by index), its objects, and the
/// background a missed ray reads its color from.
pub struct World {
    pub materials: Vec<Material>,
    pub objects: Aggregate,
    pub background: Background,
}

/// A well-formed scene: well-formed materials and objects, and a background
/// whose colors lie in the radiance range.
pub open spec fn world_wf(w: World) -> bool {
    &&& agg_wf(w.objects)
    &&& (forall|i: int| 0 <= i < w.materials@.len() ==> mwf(#[trigger] w.materials@[i]))
    &&& bgok(w.background)
}

impl World {
    /// An empty scene over a background.
    pub fn new_with(background: Background) -> (w: World)
        requires
            bgok(background),
        ensures
            world_wf(w),
            w.background == background,
            w.materials@.len() == 0,
            w.objects.objects@.len() == 0,
    {
        World { materials: Vec::new(), objects: Aggregate::default(), background }
    }

    /// An empty scene over a flat background color.
    pub fn new(background: ColorRgb) -> (w: World)
        requires
            cok(background),
        ensures
            world_wf(w),
            w.background == Background::Solid(background),
            w.materials@.len() == 0,
            w.objects.objects@.len() == 0,
    {
        World {
            materials: Vec::new(),
            objects: Aggregate::default(),
            background: Background::Solid(background),
        }
    }

    /// Register a material; objects refer to it by the returned index.
    pub fn add_material(&mut self, m: Material) -> (id: u32)
        requires
            world_wf(*old(self)),
            old(self).materials@.len() < 0xFFFF_FFFF,
            mwf(m),
        ensures
            world_wf(*final(self)),
            final(self).materials@ == old(self).materials@.push(m),
            id == old(self).materials@.len(),
            final(self).objects == old(self).objects,
            final(self).background == old(self).background,
    {
        let id = self.materials.len() as u32;
        self.materials.push(m);
        id
    }

    pub fn add_object(&mut self, object: Arc<Hittable>)
        requires
            world_wf(*old(self)),
            hok(*object),
        ensures
            world_wf(*final(self)),
            final(self).objects.objects@ == old(self).objects.objects@.push(object),
            final(self).materials == old(self).materials,
            final(self).background == old(self).background,
    {
        self.objects.add_object(object);
    }

    /// Build the acceleration tree over the current objects.
    pub fn bvh_finalize(&mut self)
        requires
            world_wf(*old(self)),
            old(self).objects.objects@.len() > 0,
        ensures
            world_wf(*final(self)),
            final(self).materials == old(self).materials,
            final(self).background == old(self).background,
            final(self).objects.bvh_acc is Some,
    {
        self.objects.bvh_accelerate();
    }

    /// The scene's object container.
    pub fn objects(&self) -> (a: &Aggregate)
        ensures
            a == &self.objects,
    {
        &self.objects
    }

    /// The nearest hit among the scene's objects.
    pub fn hit(&self, ray: &Ray, t_min: i64, t_max: i64) -> (res: Option<HitRecord>)
        requires
            world_wf(*self),
            rok(*ray),
            sok(t_min),
            sok(t_max),
        ensures
            res == agg_hit_spec(self.objects, *ray, t_min, t_max),
            res matches Some(h) ==> hrok(h),
    {
        self.objects.hit(ray, t_min, t_max)
    }
}

} // verus!
