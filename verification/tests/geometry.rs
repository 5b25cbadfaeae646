use std::sync::Arc;
use raytracer_ramel::fixed::{COORD_LIMIT, FX_ONE};
use raytracer_ramel::geometry::cube::UnitCube;
use raytracer_ramel::geometry::instance::Instance;
use raytracer_ramel::geometry::quad::UnitQuad;
use raytracer_ramel::geometry::sphere::UnitSphere;
use raytracer_ramel::geometry::triangle::TriangleMesh;
use raytracer_ramel::geometry::Hittable;
use raytracer_ramel::mat4::Mat4d;
use raytracer_ramel::ray::Ray;
use raytracer_ramel::vec3::{Vec3d, UV};

fn v(x: i64, y: i64, z: i64) -> Vec3d {
    Vec3d { x, y, z }
}

const S: i64 = FX_ONE;

#[test]
fn sphere_axial_ray_hits_near_root() {
    // A ray from (0,0,5) toward (0,0,-1) meets the unit sphere at t = 4,
    // at the point (0,0,1) with outward normal (0,0,1).
    let sphere = UnitSphere::new(7);
    let ray = Ray { origin: v(0, 0, 5 * S), direction: v(0, 0, -S) };
    let hit = sphere.hit(&ray, 66, COORD_LIMIT).expect("must hit");
    assert_eq!(hit.hit_t, 4 * S);
    assert_eq!(hit.point, v(0, 0, S));
    assert_eq!(hit.unit_normal, v(0, 0, S));
    assert_eq!(hit.material, 7);
}

#[test]
fn sphere_far_root_when_near_out_of_window() {
    // From inside the sphere the smaller root is negative, so the larger
    // root (the exit point) is the one returned.
    let sphere = UnitSphere::new(0);
    let ray = Ray { origin: v(0, 0, 0), direction: v(0, 0, -S) };
    let hit = sphere.hit(&ray, 1, COORD_LIMIT).expect("must hit");
    assert_eq!(hit.hit_t, S);
    assert_eq!(hit.point, v(0, 0, -S));
}

#[test]
fn sphere_misses_when_window_excludes_both_roots() {
    let sphere = UnitSphere::new(0);
    let ray = Ray { origin: v(0, 0, 5 * S), direction: v(0, 0, -S) };
    assert!(sphere.hit(&ray, 1, 2 * S).is_none());
    let aside = Ray { origin: v(5 * S, 0, 5 * S), direction: v(0, 0, -S) };
    assert!(aside.direction.z < 0 && sphere.hit(&aside, 1, COORD_LIMIT).is_none());
}

#[test]
fn quad_hit_and_uv() {
    let quad = UnitQuad::new(3);
    let ray = Ray { origin: v(S / 4, -S / 4, 2 * S), direction: v(0, 0, -S) };
    let hit = quad.hit(&ray, 1, COORD_LIMIT).expect("must hit");
    assert_eq!(hit.hit_t, 2 * S);
    assert_eq!(hit.unit_normal, v(0, 0, S));
    assert_eq!(hit.mat_uv, UV { u: S / 4 + S / 2, v: -S / 4 + S / 2 });
    // parallel ray misses
    let par = Ray { origin: v(0, 0, S), direction: v(S, 0, 0) };
    assert!(quad.hit(&par, 1, COORD_LIMIT).is_none());
    // outside the square misses
    let out = Ray { origin: v(S, 0, 2 * S), direction: v(0, 0, -S) };
    assert!(quad.hit(&out, 1, COORD_LIMIT).is_none());
}

#[test]
fn cube_nearest_face_and_materials() {
    let cube = UnitCube::new([10, 11, 12, 13, 14, 15]);
    // approaching along +z hits the front (+Z) face at t = 1.5
    let ray = Ray { origin: v(0, 0, 2 * S), direction: v(0, 0, -S) };
    let hit = cube.hit(&ray, 1, COORD_LIMIT).expect("must hit");
    assert_eq!(hit.hit_t, 3 * S / 2);
    assert_eq!(hit.unit_normal, v(0, 0, S));
    assert_eq!(hit.material, 14);
    // approaching along +x hits the right (+X) face
    let rayx = Ray { origin: v(2 * S, 0, 0), direction: v(-S, 0, 0) };
    let hx = cube.hit(&rayx, 1, COORD_LIMIT).expect("must hit");
    assert_eq!(hx.material, 10);
    assert_eq!(hx.unit_normal, v(S, 0, 0));
}

#[test]
fn triangle_barycentric_solution() {
    let mesh = TriangleMesh::try_new(
        vec![v(0, 0, 0), v(S, 0, 0), v(0, S, 0)],
        vec![],
        vec![],
        vec![0, 1, 2],
        5,
    )
    .expect("well-formed mesh");
    let tris = Arc::new(mesh).triangles();
    assert_eq!(tris.len(), 1);
    let ray = Ray { origin: v(S / 4, S / 4, S), direction: v(0, 0, -S) };
    let got = tris[0].intersect(&ray, 1, COORD_LIMIT).expect("must hit");
    assert_eq!(got, (S, S / 4, S / 4));
    let hit = tris[0].hit(&ray, 1, COORD_LIMIT).expect("must hit");
    assert_eq!(hit.hit_t, S);
    assert_eq!(hit.unit_normal, v(0, 0, S));
    assert_eq!(hit.material, 5);
    // beyond the hypotenuse misses
    let out = Ray { origin: v(3 * S / 4, 3 * S / 4, S), direction: v(0, 0, -S) };
    assert!(tris[0].intersect(&out, 1, COORD_LIMIT).is_none());
}

#[test]
fn mesh_validation_rejects_bad_input() {
    // index out of bounds
    assert!(TriangleMesh::try_new(vec![v(0, 0, 0)], vec![], vec![], vec![0, 0, 1], 0).is_none());
    // index count not a multiple of three
    assert!(TriangleMesh::try_new(vec![v(0, 0, 0)], vec![], vec![], vec![0, 0], 0).is_none());
    // vertex out of the mesh coordinate range
    assert!(
        TriangleMesh::try_new(vec![v(COORD_LIMIT, 0, 0)], vec![], vec![], vec![0, 0, 0], 0)
            .is_none()
    );
}

#[test]
fn shared_mesh_triangles_see_the_same_pool() {
    let mesh = TriangleMesh::try_new(
        vec![v(0, 0, 0), v(S, 0, 0), v(0, S, 0), v(0, 0, S)],
        vec![],
        vec![],
        vec![0, 1, 2, 1, 2, 3],
        9,
    )
    .expect("well-formed mesh");
    let tris = Arc::new(mesh).triangles();
    assert_eq!(tris.len(), 2);
    assert_eq!(tris[0].v0(), v(0, 0, 0));
    assert_eq!(tris[1].v0(), v(S, 0, 0));
    assert_eq!(tris[1].v2(), v(0, 0, S));
    assert_eq!(tris[1].material(), 9);
}

#[test]
fn instance_hit_point_is_forward_transform_of_local_hit() {
    // A unit sphere translated to (0,0,2): a ray from (0,0,5) meets it at
    // t = 2, and the reported point is the translation of the local point.
    let sphere = Arc::new(Hittable::Sphere(UnitSphere::new(1)));
    let trans = Mat4d::from_translation(v(0, 0, 2 * S));
    let inst = Instance::new(sphere, trans);
    let obj = Hittable::Inst(inst);
    let ray = Ray { origin: v(0, 0, 5 * S), direction: v(0, 0, -S) };
    let hit = obj.hit(&ray, 1, COORD_LIMIT).expect("must hit");
    assert_eq!(hit.hit_t, 2 * S);
    assert_eq!(hit.point, v(0, 0, 3 * S));
    assert_eq!(hit.unit_normal, v(0, 0, S));
}

#[test]
fn instance_scaling_changes_reach() {
    // A sphere scaled to radius 1/2 is missed by a ray that grazes where
    // the unit sphere would be hit.
    let small = Instance::new(
        Arc::new(Hittable::Sphere(UnitSphere::new(0))),
        Mat4d::from_scaling(S / 2, S / 2, S / 2),
    );
    let obj = Hittable::Inst(small);
    let graze = Ray { origin: v(3 * S / 4, 0, 5 * S), direction: v(0, 0, -S) };
    assert!(obj.hit(&graze, 1, COORD_LIMIT).is_none());
    let center = Ray { origin: v(0, 0, 5 * S), direction: v(0, 0, -S) };
    let hit = obj.hit(&center, 1, COORD_LIMIT).expect("must hit");
    assert_eq!(hit.hit_t, 5 * S - S / 2);
}

#[test]
fn inverse_rejects_singular_and_non_affine() {
    let singular = Mat4d::from_scaling(0, S, S);
    assert!(singular.inverse().is_none());
    let mut bad = Mat4d::identity();
    bad.data[3] = 1;
    assert!(bad.inverse().is_none());
    let good = Mat4d::from_translation(v(S, 0, 0));
    assert!(good.inverse().is_some());
}

#[test]
fn reflect_twice_recovers_direction() {
    // Mirror law: the raw direction's normal component is negated and the
    // tangential component kept, so reflecting the reflected direction about
    // the same normal gives back the incoming direction unchanged.
    let ray = Ray { origin: v(0, 0, 0), direction: v(S, 0, -S) };
    let n = v(0, 0, S);
    let r1 = ray.reflect(0, &n);
    assert_eq!(r1.direction, v(S, 0, S));
    let r2 = r1.reflect(0, &n);
    assert_eq!(r2.direction, ray.direction);
    // the length is preserved even for a non-unit direction
    let long = Ray { origin: v(0, 0, 0), direction: v(3 * S, 2 * S, -5 * S) };
    let m1 = long.reflect(0, &n);
    assert_eq!(m1.direction, v(3 * S, 2 * S, 5 * S));
}

#[test]
fn refract_total_internal_reflection_boundary() {
    // Index ratio 1.5: near-grazing incidence refuses to refract, while
    // near-normal incidence refracts.
    let n = v(0, 0, S);
    let eta_in = 3 * S / 2;
    let eta_out = S;
    let grazing = Ray { origin: v(0, 0, S), direction: v(65526, 0, -1144) };
    assert!(grazing.refract(0, &n, eta_in, eta_out).is_none());
    let steep = Ray { origin: v(0, 0, S), direction: v(1144, 0, -65526) };
    assert!(steep.refract(0, &n, eta_in, eta_out).is_some());
    // ratio 1 always refracts
    let any = Ray { origin: v(0, 0, S), direction: v(65526, 0, -1144) };
    assert!(any.refract(0, &n, S, S).is_some());
}
