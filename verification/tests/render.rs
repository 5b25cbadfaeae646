use std::sync::Arc;
use raytracer_ramel::color::ColorRgb;
use raytracer_ramel::film::SimpleFilm;
use raytracer_ramel::filter::{AcesFilmicFilter, ExposureFilter, Filter, FilterList, ReinhardFilter, VignetteFilter};
use raytracer_ramel::fixed::FX_ONE;
use raytracer_ramel::geometry::sphere::UnitSphere;
use raytracer_ramel::geometry::Hittable;
use raytracer_ramel::material::{DiffusionLight, Lambertian, Material, Metal};
use raytracer_ramel::ray::Ray;
use raytracer_ramel::renderer::SimpleRenderer;
use raytracer_ramel::texture::{ImageTexture, SolidColorTexture, SpatialCheckerTexture, Texture, UVCheckerTexture};
use raytracer_ramel::vec3::{Vec3d, UV};
use raytracer_ramel::world::{Background, World};

const S: i64 = FX_ONE;

fn v(x: i64, y: i64, z: i64) -> Vec3d {
    Vec3d { x, y, z }
}

fn solid(c: ColorRgb) -> Texture {
    Texture::Solid(SolidColorTexture::new(c))
}

#[test]
fn miss_returns_background() {
    let world = World::new(ColorRgb::new(S / 2, S / 4, S / 8));
    let ray = Ray { origin: v(0, 0, 0), direction: v(0, 0, -S) };
    let c = SimpleRenderer::ray_color(&world, &ray, 5);
    assert_eq!(c, ColorRgb::new(S / 2, S / 4, S / 8));
}

#[test]
fn depth_zero_returns_black() {
    let world = World::new(ColorRgb::new(S, S, S));
    let ray = Ray { origin: v(0, 0, 0), direction: v(0, 0, -S) };
    assert_eq!(SimpleRenderer::ray_color(&world, &ray, 0), ColorRgb::new(0, 0, 0));
}

#[test]
fn light_filled_frame_reports_exact_emission() {
    // One emitter filling every sample: at one sample per pixel and depth
    // one, the pixel is exactly the emitted color.
    let emit = ColorRgb::new(S / 2, S / 3, S / 5);
    let mut world = World::new(ColorRgb::new(0, 0, 0));
    let light = world.add_material(Material::DiffusionLight(DiffusionLight {
        tex_emit: solid(emit),
    }));
    world.add_object(Arc::new(Hittable::Sphere(UnitSphere::new(light))));
    let rays = vec![Ray { origin: v(0, 0, 2 * S), direction: v(0, 0, -S) }];
    let px = SimpleRenderer::render_pixel(&world, &rays, 1);
    assert_eq!(px, emit);
    // the same with several samples per pixel: averaging changes nothing
    let rays4 = vec![
        Ray { origin: v(0, 0, 2 * S), direction: v(0, 0, -S) },
        Ray { origin: v(S / 8, 0, 2 * S), direction: v(0, 0, -S) },
        Ray { origin: v(0, S / 8, 2 * S), direction: v(0, 0, -S) },
        Ray { origin: v(-S / 8, 0, 2 * S), direction: v(0, 0, -S) },
    ];
    assert_eq!(SimpleRenderer::render_pixel(&world, &rays4, 1), emit);
}

#[test]
fn lambertian_bounce_reaches_surrounding_light() {
    // A diffuse panel inside a light sphere that surrounds the scene: the
    // bounce meets the light whatever direction it takes, so the radiance is
    // exactly the emitted light filtered by the albedo.
    let mut world = World::new(ColorRgb::new(0, 0, 0));
    let light = world.add_material(Material::DiffusionLight(DiffusionLight {
        tex_emit: solid(ColorRgb::new(S, S, S)),
    }));
    let gray = world.add_material(Material::Lambertian(Lambertian {
        albedo: solid(ColorRgb::new(S / 2, S / 2, S / 2)),
    }));
    let big = raytracer_ramel::geometry::instance::Instance::new(
        Arc::new(Hittable::Sphere(UnitSphere::new(light))),
        raytracer_ramel::mat4::Mat4d::from_scaling(50 * S, 50 * S, 50 * S),
    );
    world.add_object(Arc::new(Hittable::Inst(big)));
    world.add_object(Arc::new(Hittable::Quad(
        raytracer_ramel::geometry::quad::UnitQuad::new(gray),
    )));
    let ray = Ray { origin: v(0, 0, 3 * S), direction: v(0, 0, -S) };
    let c = SimpleRenderer::ray_color(&world, &ray, 3);
    assert_eq!(c, ColorRgb::new(S / 2, S / 2, S / 2));
}

#[test]
fn metal_absorbs_inward_fuzz() {
    let m = Material::Metal(Metal { albedo: ColorRgb::new(S, S, S), fuzz: 0 });
    let rec = raytracer_ramel::geometry::HitRecord {
        point: v(0, 0, S),
        unit_normal: v(0, 0, S),
        hit_t: S,
        material: 0,
        mat_uv: UV { u: 0, v: 0 },
    };
    let ray = Ray { origin: v(0, 0, 2 * S), direction: v(S, 0, -S) };
    let out = m.scatter(&ray, &rec, v(0, 0, 0)).expect("mirror scatters");
    assert_eq!(out.0, ColorRgb::new(S, S, S));
    // the mirrored direction leaves the surface
    assert!(out.1.direction.z > 0);
}

#[test]
fn film_stores_and_returns_pixels() {
    let mut film = SimpleFilm::new(4, 3);
    assert_eq!(film.width(), 4);
    assert_eq!(film.height(), 3);
    assert_eq!(film.get_pixel(2, 1), ColorRgb::new(0, 0, 0));
    film.set_pixel(2, 1, ColorRgb::new(S, S / 2, 0));
    assert_eq!(film.get_pixel(2, 1), ColorRgb::new(S, S / 2, 0));
    assert_eq!(film.get_pixel(1, 2), ColorRgb::new(0, 0, 0));
}

#[test]
fn filters_map_landmark_values() {
    // Reinhard sends full radiance to one half.
    let mut film = SimpleFilm::new(1, 1);
    film.set_pixel(0, 0, ColorRgb::new(S, S, S));
    Filter::Reinhard(ReinhardFilter).process(&mut film);
    assert_eq!(film.get_pixel(0, 0), ColorRgb::new(S / 2, S / 2, S / 2));
    // Exposure doubles.
    let mut film2 = SimpleFilm::new(1, 1);
    film2.set_pixel(0, 0, ColorRgb::new(S / 4, S / 2, S));
    Filter::Exposure(ExposureFilter { factor: 2 * S }).process(&mut film2);
    assert_eq!(film2.get_pixel(0, 0), ColorRgb::new(S / 2, S, 2 * S));
    // The filmic curve fixes black and stays in the unit range.
    let mut film3 = SimpleFilm::new(1, 1);
    film3.set_pixel(0, 0, ColorRgb::new(0, S, 100 * S));
    Filter::Aces(AcesFilmicFilter).process(&mut film3);
    let c = film3.get_pixel(0, 0);
    assert_eq!(c.r, 0);
    assert!(c.g > 0 && c.g <= S);
    assert!(c.b > 0 && c.b <= S);
    // A single centered pixel is untouched by the vignette.
    let mut film4 = SimpleFilm::new(1, 1);
    film4.set_pixel(0, 0, ColorRgb::new(S, S / 2, S / 4));
    let mut list = FilterList::new();
    list.add_filter(Filter::Vignette(VignetteFilter { intensity: S / 2 }));
    list.process(&mut film4);
    assert_eq!(film4.get_pixel(0, 0), ColorRgb::new(S, S / 2, S / 4));
}

#[test]
fn image_texture_looks_up_quadrants() {
    let px = vec![
        ColorRgb::new(S, 0, 0), // top-left
        ColorRgb::new(0, S, 0), // top-right
        ColorRgb::new(0, 0, S), // bottom-left
        ColorRgb::new(S, S, 0), // bottom-right
    ];
    let img = ImageTexture::new(2, 2, px).expect("matching pool");
    let tex = Texture::Image(img);
    let p = v(0, 0, 0);
    // v near 1 selects the first row
    assert_eq!(tex.value(UV { u: 0, v: S - 1 }, &p), ColorRgb::new(S, 0, 0));
    assert_eq!(tex.value(UV { u: S / 2, v: S - 1 }, &p), ColorRgb::new(0, S, 0));
    assert_eq!(tex.value(UV { u: 0, v: S / 4 }, &p), ColorRgb::new(0, 0, S));
    assert_eq!(tex.value(UV { u: S - 1, v: 0 }, &p), ColorRgb::new(S, S, 0));
    // coordinates off the edge clamp into the image
    assert_eq!(tex.value(UV { u: 2 * S, v: 0 }, &p), ColorRgb::new(S, S, 0));
    // a mismatched pool is rejected
    assert!(ImageTexture::new(2, 2, vec![ColorRgb::new(0, 0, 0)]).is_none());
}

#[test]
fn uv_checker_alternates() {
    let even = ColorRgb::new(S, S, S);
    let odd = ColorRgb::new(0, 0, 0);
    let tex = Texture::UVChecker(UVCheckerTexture {
        scale_u: S,
        scale_v: S,
        even: Arc::new(solid(even)),
        odd: Arc::new(solid(odd)),
    });
    let p = v(0, 0, 0);
    assert_eq!(tex.value(UV { u: S / 2, v: S / 2 }, &p), even);
    assert_eq!(tex.value(UV { u: 3 * S / 2, v: S / 2 }, &p), odd);
    assert_eq!(tex.value(UV { u: 3 * S / 2, v: 3 * S / 2 }, &p), even);
}

#[test]
fn spatial_checker_keeps_sum_zero_rule() {
    // The spatial parity test adds the remainder of the third axis alone to
    // the raw first two grid indices and compares the sum with zero; cells
    // like (1,1,0) therefore read as odd even though their parity is even.
    let even = ColorRgb::new(S, S, S);
    let odd = ColorRgb::new(0, 0, 0);
    let tex = Texture::SpatialChecker(SpatialCheckerTexture {
        scale_x: S,
        scale_y: S,
        scale_z: S,
        even: Arc::new(solid(even)),
        odd: Arc::new(solid(odd)),
    });
    let uv = UV { u: 0, v: 0 };
    // cell (0,0,0): the sum is zero
    assert_eq!(tex.value(uv, &v(S / 2, S / 2, S / 2)), even);
    // cell (0,-1,0): the sum is minus one
    assert_eq!(tex.value(uv, &v(S / 2, -S / 2, S / 2)), odd);
    // cell (1,1,0): an even-parity cell still reads odd under the sum rule
    assert_eq!(tex.value(uv, &v(3 * S / 2, 3 * S / 2, S / 2)), odd);
    // cell (1,-2,1): the remainder of the third axis balances the sum
    assert_eq!(tex.value(uv, &v(3 * S / 2, -3 * S / 2, 3 * S / 2)), even);
}

#[test]
fn gradient_background_blends_by_height() {
    let zenith = ColorRgb::new(S / 2, S / 2, S);
    let horizon = ColorRgb::new(S, S, S);
    let world = World::new_with(Background::VerticalGradient { zenith, horizon });
    // straight up: the zenith color
    let up = Ray { origin: v(0, 0, 0), direction: v(0, S, 0) };
    assert_eq!(SimpleRenderer::ray_color(&world, &up, 3), zenith);
    // straight down: the horizon-side end of the blend
    let down = Ray { origin: v(0, 0, 0), direction: v(0, -S, 0) };
    assert_eq!(SimpleRenderer::ray_color(&world, &down, 3), horizon);
    // level: the midpoint
    let level = Ray { origin: v(0, 0, 0), direction: v(S, 0, 0) };
    let mid = SimpleRenderer::ray_color(&world, &level, 3);
    assert_eq!(mid, ColorRgb::new(3 * S / 4, 3 * S / 4, S));
}
