use std::sync::Arc;
use raytracer_ramel::fixed::{COORD_LIMIT, FX_ONE};
use raytracer_ramel::geometry::aggregate::Aggregate;
use raytracer_ramel::geometry::instance::Instance;
use raytracer_ramel::geometry::sphere::UnitSphere;
use raytracer_ramel::geometry::Hittable;
use raytracer_ramel::mat4::Mat4d;
use raytracer_ramel::ray::Ray;
use raytracer_ramel::vec3::Vec3d;

const S: i64 = FX_ONE;

fn v(x: i64, y: i64, z: i64) -> Vec3d {
    Vec3d { x, y, z }
}

fn sphere_at(x: i64, y: i64, z: i64, radius: i64, mat: u32) -> Arc<Hittable> {
    let inner = Arc::new(Hittable::Sphere(UnitSphere::new(mat)));
    let m = Mat4d::from_translation(v(x, y, z)).mul(&Mat4d::from_scaling(radius, radius, radius));
    Arc::new(Hittable::Inst(Instance::new(inner, m)))
}

fn compare_on_rays(objects: Vec<Arc<Hittable>>, rays: &[Ray]) {
    let flat = Aggregate::new(objects.clone());
    let mut accel = Aggregate::new(objects);
    accel.bvh_accelerate();
    for ray in rays {
        let a = flat.hit(ray, 66, COORD_LIMIT);
        let b = accel.hit(ray, 66, COORD_LIMIT);
        assert_eq!(a, b, "hierarchy and flat scan disagree");
    }
}

fn probe_rays() -> Vec<Ray> {
    let mut rays = Vec::new();
    for ix in -3i64..4 {
        for iy in -3i64..4 {
            rays.push(Ray {
                origin: v(ix * S / 2, iy * S / 2, 20 * S),
                direction: v(0, 0, -S),
            });
            rays.push(Ray {
                origin: v(20 * S, ix * S / 2, iy * S / 2),
                direction: v(-S, ix * S / 16, 0),
            });
        }
    }
    rays
}

#[test]
fn bvh_matches_flat_scan_one_object() {
    compare_on_rays(vec![sphere_at(0, 0, 0, S, 1)], &probe_rays());
}

#[test]
fn bvh_matches_flat_scan_two_objects() {
    compare_on_rays(
        vec![sphere_at(0, 0, 0, S, 1), sphere_at(0, 0, -3 * S, S / 2, 2)],
        &probe_rays(),
    );
}

#[test]
fn bvh_matches_flat_scan_fifty_objects() {
    // deterministic congruential placement
    let mut seed: u64 = 0x5eed_cafe;
    let mut next = || {
        seed = seed.wrapping_mul(6364136223846793005).wrapping_add(1442695040888963407);
        (seed >> 33) as i64
    };
    let mut objects = Vec::new();
    for k in 0..50u32 {
        let x = (next() % (6 * S)) - 3 * S;
        let y = (next() % (2 * S)) - S;
        let z = -(next() % (10 * S));
        let r = S / 8 + next() % (S / 2);
        objects.push(sphere_at(x, y, z, r, k));
    }
    compare_on_rays(objects, &probe_rays());
}
