use path_tracer::camera::{Camera, HALF_FOV_TAN};
use path_tracer::color::{isNearlyZero_Vec4, VColor};
use path_tracer::fixed::{fdiv, fmul, fsqrt, isqrt, LIMIT, SCALE};
use path_tracer::hit::HitRecord;
use path_tracer::material::{Dielectric, Lambertian, Material, Metal};
use path_tracer::random::{ball_candidate, randomInUnitDisk, randomInUnitSphere, randomUnitVector3, random_fraction};
use path_tracer::ray::Ray;
use path_tracer::renderer::{average_color, background_color, screen_coordinate, Renderer};
use path_tracer::scene::Scene;
use path_tracer::sphere::Sphere;
use path_tracer::vector::{isNearlyZero_Vec3, reflect, refract, vectorLengthSquared, Vec3};
use rand::rngs::StdRng;
use rand::SeedableRng;

const S: i64 = SCALE;

fn v(x: i64, y: i64, z: i64) -> Vec3 {
    Vec3::new(x, y, z)
}

fn matte(r: i64, g: i64, b: i64) -> Material {
    Material::Lambertian(Lambertian::new(VColor::new_rgb(r, g, b)))
}

fn sphere(radius: i64, center: Vec3, material: Material) -> Sphere {
    Sphere::new(radius, center, material).unwrap()
}

fn camera() -> Camera {
    Camera::new(v(0, 0, 0), v(S, 0, 0), 4, 4, 0, S, HALF_FOV_TAN)
}

#[test]
fn fixed_point_arithmetic() {
    assert_eq!(fmul(2 * S, 3 * S), 6 * S);
    assert_eq!(fmul(-S / 2, S / 2), -S / 4);
    assert_eq!(fmul(LIMIT, LIMIT), LIMIT);
    assert_eq!(fdiv(S, 4 * S), S / 4);
    assert_eq!(fdiv(-3 * S, 2 * S), -3 * S / 2);
    assert_eq!(fsqrt(4 * S), 2 * S);
    assert_eq!(fsqrt(0), 0);
    assert_eq!(isqrt(99), 9);
    assert_eq!(isqrt(100), 10);
}

#[test]
fn vector_operations() {
    let a = v(S, 2 * S, 3 * S);
    let b = v(-S, 0, S);
    assert_eq!(a.add(&b), v(0, 2 * S, 4 * S));
    assert_eq!(a.sub(&b), v(2 * S, 2 * S, 2 * S));
    assert_eq!(a.dot(&b), 2 * S);
    assert_eq!(v(S, 0, 0).cross(&v(0, S, 0)), v(0, 0, S));
    assert_eq!(v(3 * S, 4 * S, 0).length(), 5 * S);
    assert_eq!(v(0, 0, -7 * S).normalize(), v(0, 0, -S));
    assert_eq!(v(0, 0, 0).normalize(), v(0, 0, 0));
    assert_eq!(vectorLengthSquared(&v(S, S, S)), 3 * S);
}

#[test]
fn reflect_mirrors_about_the_normal() {
    assert_eq!(reflect(&v(S, -S, 0), &v(0, S, 0)), v(S, S, 0));
}

#[test]
fn refract_straight_through_keeps_direction() {
    assert_eq!(refract(&v(0, 0, -S), &v(0, 0, S), S), v(0, 0, -S));
}

#[test]
fn near_zero_tests() {
    assert!(isNearlyZero_Vec3(&v(0, 0, 0), None));
    assert!(!isNearlyZero_Vec3(&v(0, 1, 0), None));
    assert!(isNearlyZero_Vec3(&v(3, -3, 0), Some(4)));
    assert!(isNearlyZero_Vec4(&VColor::default(), None));
    assert!(!isNearlyZero_Vec4(&VColor::new_sc(0), None));
}

#[test]
fn colors_clamp_and_convert() {
    let c = VColor::new_rgb(-5, 2 * S, S / 2);
    assert_eq!(c, VColor { r: 0, g: S, b: S / 2, a: S });
    assert_eq!(c.to_rgba8(), (0, 255, 127, 255));
    assert_eq!(VColor::new_sc(S / 2).mul(&VColor::new_sc(S / 2)), VColor { r: S / 4, g: S / 4, b: S / 4, a: S });
    assert_eq!(VColor::new_sc(S).add(&VColor::new_sc(S)), VColor::new_sc(S));
    assert_eq!(c.getColorRGB(), v(0, S, S / 2));
    assert_eq!(average_color((4 * S, 2 * S, 0, 4 * S), 4), VColor { r: S, g: S / 2, b: 0, a: S });
}

#[test]
fn ray_at_parameter() {
    let r = Ray::new(v(S, 0, 0), v(0, 2 * S, 0));
    assert_eq!(r.at(S / 2), v(S, S, 0));
}

#[test]
fn sphere_rejects_non_positive_radius() {
    assert!(Sphere::new(0, v(0, 0, 0), matte(S, S, S)).is_none());
    assert!(Sphere::new(-S, v(0, 0, 0), matte(S, S, S)).is_none());
    assert_eq!(Sphere::new(S, v(0, 0, 0), matte(S, S, S)).unwrap().getRadius(), S);
}

#[test]
fn sphere_hit_at_half() {
    let s = sphere(S / 2, v(0, 0, -S), matte(S, 0, 0));
    let ray = Ray::new(v(0, 0, 0), v(0, 0, -S));
    let h = s.hit(&ray, 66, LIMIT).unwrap();
    assert_eq!(h.t, S / 2);
    assert_eq!(h.point, v(0, 0, -S / 2));
    assert!(h.front_face);
    assert_eq!(h.normal, v(0, 0, S));
    let mut rec = HitRecord::default();
    assert!(s.testIntersection(&ray, 66, LIMIT, &mut rec));
    assert_eq!(rec, h);
}

#[test]
fn sphere_far_root_when_near_root_is_behind() {
    let s = sphere(S, v(0, 0, 0), matte(S, 0, 0));
    let ray = Ray::new(v(0, 0, 0), v(0, 0, -S));
    let h = s.hit(&ray, 66, LIMIT).unwrap();
    assert_eq!(h.t, S);
    assert!(!h.front_face);
    assert_eq!(h.normal, v(0, 0, S));
}

#[test]
fn sphere_no_hit_outside_range_or_off_axis() {
    let s = sphere(S / 2, v(0, 0, -S), matte(S, 0, 0));
    let ray = Ray::new(v(0, 0, 0), v(0, 0, -S));
    assert!(s.hit(&ray, 66, S / 4).is_none());
    assert!(s.hit(&Ray::new(v(0, 0, 0), v(0, S, 0)), 66, LIMIT).is_none());
    assert!(s.hit(&Ray::new(v(0, 0, 0), v(0, 0, 0)), 66, LIMIT).is_none());
    let mut rec = HitRecord::default();
    assert!(!s.testIntersection(&ray, 66, S / 4, &mut rec));
    assert_eq!(rec, HitRecord::default());
}

#[test]
fn set_face_normal_orients_against_ray() {
    let mut rec = HitRecord::default();
    let ray = Ray::new(v(0, 0, 0), v(0, 0, -S));
    rec.SetFaceNormal(&ray, v(0, 0, S));
    assert!(rec.front_face);
    assert_eq!(rec.normal, v(0, 0, S));
    rec.SetFaceNormal(&ray, v(0, 0, -S));
    assert!(!rec.front_face);
    assert_eq!(rec.normal, v(0, 0, S));
}

fn three_spheres(order: [usize; 3]) -> Scene {
    let spheres = [
        sphere(S / 2, v(0, 0, -2 * S), matte(S, 0, 0)),
        sphere(S / 2, v(0, 0, -4 * S), matte(0, S, 0)),
        sphere(S / 2, v(0, 0, -6 * S), matte(0, 0, S)),
    ];
    let mut scene = Scene::new_cam(camera());
    for i in order {
        scene.addObject(spheres[i]);
    }
    scene
}

#[test]
fn scene_returns_nearest_in_any_order() {
    let ray = Ray::new(v(0, 0, 0), v(0, 0, -S));
    for order in [[0, 1, 2], [2, 1, 0], [1, 2, 0], [2, 0, 1]] {
        let scene = three_spheres(order);
        let mut rec = HitRecord::default();
        assert!(scene.Hit(&ray, &mut rec));
        assert_eq!(rec.t, 3 * S / 2);
        assert_eq!(rec.material, matte(S, 0, 0));
    }
    let empty = Scene::new_cam(camera());
    let mut rec = HitRecord::default();
    assert!(!empty.Hit(&ray, &mut rec));
}

#[test]
fn background_gradient_values() {
    assert_eq!(background_color(&v(0, S, 0)), VColor { r: 32768, g: 45875, b: S, a: S });
    assert_eq!(background_color(&v(0, -3 * S, 0)), VColor { r: S, g: S, b: S, a: S });
    assert_eq!(background_color(&v(S, 0, 0)), VColor { r: 49152, g: 55705, b: S, a: S });
}

#[test]
fn color_ray_depth_zero_is_black() {
    let mut rng = StdRng::seed_from_u64(1);
    let r = Renderer::new(three_spheres([0, 1, 2]), 4, 4);
    let ray = Ray::new(v(0, 0, 0), v(0, 0, -S));
    assert_eq!(r.colorRay(0, 0, &ray, 0, &mut rng), VColor::new_sc(0));
    assert_eq!(r.colorRay(0, 0, &ray, -3, &mut rng), VColor::new_sc(0));
}

#[test]
fn color_ray_miss_is_background() {
    let mut rng = StdRng::seed_from_u64(2);
    let r = Renderer::new(three_spheres([0, 1, 2]), 4, 4);
    let ray = Ray::new(v(0, 0, 0), v(0, S, 0));
    assert_eq!(r.colorRay(0, 0, &ray, 8, &mut rng), background_color(&v(0, S, 0)));
}

#[test]
fn lambertian_scatter_keeps_albedo() {
    let albedo = VColor::new_rgb(S / 4, S / 2, S);
    let l = Lambertian::new(albedo);
    let rec = HitRecord::new(v(0, 0, 0), v(0, 0, S), S, Material::Lambertian(l), true);
    let (ok, att, out) = l.scatter_toward(&rec, &v(S, 0, 0));
    assert!(ok);
    assert_eq!(att, albedo);
    assert_eq!(out, Ray::new(v(0, 0, 0), v(S, 0, S)));
    let (_, _, fallback) = l.scatter_toward(&rec, &v(0, 0, -S));
    assert_eq!(fallback.direction, v(0, 0, S));
    let mut rng = StdRng::seed_from_u64(3);
    let mut a = VColor::default();
    let mut s = Ray::default();
    assert!(Material::Lambertian(l).scatter(&Ray::new(v(0, 0, S), v(0, 0, -S)), &rec, &mut a, &mut s, &mut rng));
    assert_eq!(a, albedo);
    assert_eq!(s.origin, v(0, 0, 0));
}

#[test]
fn metal_without_fuzz_mirrors() {
    let m = Metal::new(VColor::new_sc(S), 0);
    let rec = HitRecord::new(v(0, 0, 0), v(0, S, 0), S, Material::Metal(m), true);
    let ray = Ray::new(v(-S, S, 0), v(S, -S, 0));
    let (ok, att, out) = m.scatter_with(&ray, &rec, &v(S / 2, S / 2, 0));
    assert!(ok);
    assert_eq!(att, VColor::new_sc(S));
    assert_eq!(out.direction, reflect(&v(S, -S, 0).normalize(), &v(0, S, 0)));
    assert_eq!(out.direction, v(46341, 46341, 0));
}

#[test]
fn metal_absorbs_below_surface() {
    let m = Metal::new(VColor::new_sc(S), S);
    assert_eq!(m.fuzz, S);
    assert_eq!(Metal::new(VColor::new_sc(S), 3 * S).fuzz, S);
    let rec = HitRecord::new(v(0, 0, 0), v(0, S, 0), S, Material::Metal(m), true);
    let ray = Ray::new(v(-S, S, 0), v(S, -S / 8, 0));
    let (ok, _, out) = m.scatter_with(&ray, &rec, &v(0, -S + 1, 0));
    assert!(out.direction.dot(&v(0, S, 0)) <= 0);
    assert!(!ok);
}

#[test]
fn schlick_reflectance() {
    assert_eq!(Dielectric::reflectance(S, 98304), 2621);
    assert_eq!(Dielectric::reflectance(S, S), 0);
    let a = Dielectric::reflectance(0, 98304);
    let b = Dielectric::reflectance(S / 2, 98304);
    let c = Dielectric::reflectance(S, 98304);
    assert!(a >= b && b >= c);
    assert_eq!(a, S);
}

#[test]
fn dielectric_straight_through() {
    let d = Dielectric::new(98304);
    let rec = HitRecord::new(v(0, 0, 0), v(0, 0, S), S, Material::Dielectric(d), true);
    let ray = Ray::new(v(0, 0, S), v(0, 0, -S));
    let (ok, att, out) = d.scatter_with(&ray, &rec, S - 1);
    assert!(ok);
    assert_eq!(att, VColor::new_sc(S));
    assert_eq!(out.direction, v(0, 0, -S));
    let (_, _, mirrored) = d.scatter_with(&ray, &rec, 0);
    assert_eq!(mirrored.direction, v(0, 0, S));
}

#[test]
fn random_samplers_stay_in_range() {
    let mut rng = StdRng::seed_from_u64(4);
    let mut seen = std::collections::HashSet::new();
    for _ in 0..200 {
        let f = random_fraction(&mut rng);
        assert!((0..S).contains(&f));
        seen.insert(f);
        let p = randomInUnitSphere(&mut rng);
        assert!(p.dot_wide(&p) < S * S);
        let d = randomInUnitDisk(&mut rng);
        assert_eq!(d.z, 0);
        assert!(d.dot_wide(&d) < S * S);
        let u = randomUnitVector3(&mut rng);
        let len = u.length();
        assert!(len == 0 || (S - 4 <= len && len <= S + 4));
    }
    assert!(seen.len() > 100);
}

#[test]
fn camera_without_aperture_shoots_from_eye() {
    let cam = camera();
    let mut rng = StdRng::seed_from_u64(5);
    let centre = cam.createARay(S / 2, S / 2, &mut rng);
    assert_eq!(centre.origin, v(0, 0, 0));
    assert!(centre.direction.x > 0);
    assert_eq!(centre.direction.y, 0);
    assert_eq!(centre.direction.z, 0);
    assert_eq!(screen_coordinate(3, 0, 4), 3 * S / 4);
    assert_eq!(screen_coordinate(3, S - 1, 4), S - 1);
    assert_eq!(screen_coordinate(0, S / 2, 1), S / 2);
}

#[test]
fn random_scene_layout() {
    let mut rng = StdRng::seed_from_u64(6);
    let scene = Scene::randomScene(&mut rng);
    let n = scene.hittable_objects.len();
    assert!(n >= 4 && n <= 4 + 4 * 11 * 11);
    assert_eq!(scene.hittable_objects[0].radius, 1000 * S);
    assert_eq!(scene.hittable_objects[n - 1].center, v(4 * S, 0, -S));
}

fn single_sphere_render(seed: u64) -> Vec<u8> {
    let mut scene = Scene::new_cam(camera());
    scene.addObject(sphere(S / 2, v(2 * S, 0, 0), matte(S / 2, S / 2, S / 2)));
    let mut r = Renderer::new(scene, 4, 4);
    r.sampling = 1;
    let mut rng = StdRng::seed_from_u64(seed);
    r.render(&mut rng);
    r.image_buffer
}

#[test]
fn render_single_sphere_is_deterministic() {
    let a = single_sphere_render(42);
    let b = single_sphere_render(42);
    assert_eq!(a.len(), 4 * 4 * 4);
    assert_eq!(a, b);
    // Golden image for seed 42: the sphere covers the centre pixels.
    let golden: Vec<u8> = vec![
        173, 206, 255, 255, 180, 210, 255, 255, 193, 218, 255, 255, 208, 227, 255, 255,
        173, 206, 255, 255, 178, 209, 255, 255, 124, 125, 127, 255, 205, 225, 255, 255,
        173, 205, 255, 255, 88, 103, 127, 255, 87, 103, 127, 255, 213, 230, 255, 255,
        175, 207, 255, 255, 184, 212, 255, 255, 197, 220, 255, 255, 207, 226, 255, 255,
    ];
    assert_eq!(a, golden);
    // Sky pixels keep full blue; sphere pixels are darker.
    assert_eq!(a[2], 255);
    let on_sphere = (2 * 4 + 1) * 4;
    assert!(a[on_sphere + 2] < 255);
}

#[test]
fn defaults() {
    let r = Renderer::default();
    assert_eq!(r.image_buffer.len(), 800 * 600 * 4);
    assert_eq!(r.sampling, 16);
    assert_eq!(Sphere::default().radius, S);
    assert_eq!(Ray::default(), Ray::new(v(0, 0, 0), v(0, 0, 0)));
}

#[test]
fn ball_candidate_accepts_inside_only() {
    assert_eq!(ball_candidate(S / 2, 0, -S / 2), Some(v(S / 2, 0, -S / 2)));
    assert_eq!(ball_candidate(S, 0, 0), None);
    assert_eq!(ball_candidate(S / 2, S / 2, S / 2), Some(v(S / 2, S / 2, S / 2)));
    assert_eq!(ball_candidate(S - 1, S / 8, S / 8), None);
}

#[test]
fn random_scene_fixed_spheres() {
    let mut rng = StdRng::seed_from_u64(7);
    let scene = Scene::randomScene(&mut rng);
    let objs = &scene.hittable_objects;
    let n = objs.len();
    assert_eq!(objs[0].center, v(0, 0, 1000 * S));
    assert_eq!(objs[n - 3].material, Material::Dielectric(Dielectric::new(98304)));
    assert_eq!(objs[n - 2].center, v(-4 * S, 0, -S));
    assert_eq!(objs[n - 1].material, Material::Metal(Metal::new(VColor::new_rgb(45875, 39322, 32768), 0)));
    for s in &objs[1..n - 3] {
        assert_eq!(s.radius, 13107);
        assert_eq!(s.center.z, -13107);
        assert!(s.center.sub(&v(4 * S, 13107, 0)).length() > 58982);
    }
}

#[test]
fn normalized_components_within_one() {
    assert_eq!(v(1, 1, 0).normalize(), v(S, S, 0));
    let n = v(3 * S, -4 * S, 12 * S).normalize();
    assert_eq!(n, v(15123, -20164, 60494));
}

#[test]
fn miss_color_ignores_origin_and_depth() {
    let mut rng = StdRng::seed_from_u64(8);
    let r = Renderer::new(three_spheres([0, 1, 2]), 4, 4);
    let a = r.colorRay(0, 0, &Ray::new(v(0, 0, 0), v(S, S, 0)), 8, &mut rng);
    let b = r.colorRay(1, 2, &Ray::new(v(5 * S, -3 * S, 2 * S), v(S, S, 0)), 1, &mut rng);
    assert_eq!(a, b);
    assert_eq!(a, background_color(&v(S, S, 0)));
}

#[test]
fn camera_field_of_view_scales_viewport() {
    let narrow = Camera::new(v(0, 0, 0), v(S, 0, 0), 4, 4, 0, S, S / 4);
    let wide = Camera::new(v(0, 0, 0), v(S, 0, 0), 4, 4, 0, S, S);
    assert_eq!(wide.vertical.z, S * 2);
    assert_eq!(narrow.vertical.z, S / 2);
}
