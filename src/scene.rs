//! The scene: a camera and the spheres that rays may meet.
use vstd::prelude::*;
use rand::rngs::StdRng;
use crate::camera::Camera;
use crate::color::{grey, rgba, VColor};
use crate::fixed::{bounded, fmul, fx_mul, LIMIT, SCALE};
use crate::hit::HitRecord;
use crate::material::{Dielectric, Lambertian, Material, Metal};
use crate::random::random_fraction;
use crate::ray::Ray;
use crate::sphere::{lemma_hit_lower_bound, sphere_hit, Sphere};
use crate::vector::{mk, v_length, v_sub, Vec3};

verus! {

/// The smallest parameter at which a hit counts, so that a scattered ray does
/// not meet the surface it leaves.
pub const T_MIN: i64 = 66;

pub struct Scene {
    pub cam: Camera,
    pub hittable_objects: Vec<Sphere>,
    pub t_max: i64,
    pub t_min: i64,
}

/// How many cells each side of the origin the random scene spreads its small
/// spheres over.
pub const GRID: i64 = 11;

/// A random color with every channel in `[lo, lo + span)`, opaque.
fn random_color(rng: &mut StdRng, lo: i64, span: i64) -> (r: VColor)
    requires
        0 <= lo,
        0 <= span,
        lo + span <= SCALE,
    ensures
        r.wf(),
        lo <= r.r < lo + span || span == 0,
        lo <= r.g < lo + span || span == 0,
        lo <= r.b < lo + span || span == 0,
        r.a == SCALE,
{
    let cr: i64 = lo + fmul(random_fraction(rng), span);
    let cg: i64 = lo + fmul(random_fraction(rng), span);
    let cb: i64 = lo + fmul(random_fraction(rng), span);
    proof {
        assert forall|f: int| 0 <= f < SCALE implies 0 <= #[trigger] (f * span) / (SCALE as int) < span || span == 0 by {
            if span > 0 {
                assert(0 <= f * span < SCALE * span) by (nonlinear_arith)
                    requires
                        0 <= f < SCALE,
                        span > 0,
                ;
                assert((f * span) / (SCALE as int) < span) by (nonlinear_arith)
                    requires
                        0 <= f * span < SCALE * span,
                ;
                assert((f * span) / (SCALE as int) >= 0) by (nonlinear_arith)
                    requires
                        0 <= f * span,
                ;
            }
        }
    }
    VColor::new_rgba(cr, cg, cb, SCALE)
}

/// The ground: radius 1000, centred 1000 below the origin, mid-grey and matte.
pub open spec fn ground_sphere() -> Sphere {
    Sphere {
        radius: (1000 * SCALE) as i64,
        center: mk(0, 0, 1000 * SCALE),
        material: Material::Lambertian(Lambertian { albedo: grey(SCALE / 2) }),
    }
}

/// Glass with refractive index 1.5.
pub open spec fn dielectric_glass() -> Material {
    Material::Dielectric(Dielectric { index_of_refraction: 98304 })
}

/// A unit sphere at `(x, 0, -1)`.
pub open spec fn big_sphere(x: int, m: Material) -> Sphere {
    Sphere { radius: SCALE, center: mk(x * SCALE, 0, -SCALE), material: m }
}

/// The point the small spheres keep clear of, where the metal sphere stands.
pub open spec fn keep_clear_point() -> Vec3 {
    mk(4 * SCALE, 13107, 0)
}

/// The centre of the small sphere of grid cell `(a, b)`: jittered by up to
/// 0.9 in x and y, at height -0.2.
pub open spec fn cell_center(a: int, b: int, jx: int, jy: int) -> Vec3 {
    mk(a * SCALE + fx_mul(58982, jx), b * SCALE + fx_mul(58982, jy), -13107)
}

/// The draws of one grid cell: a cell in `[-11, 11)²` and three fractions.
pub open spec fn grid_draw(a: int, b: int, jx: int, jy: int, choose_mat: int) -> bool {
    -GRID <= a < GRID && -GRID <= b < GRID && 0 <= jx < SCALE && 0 <= jy < SCALE && 0 <= choose_mat < SCALE
}

/// The material of a small sphere for the draw `choose_mat`: matte below 0.8
/// (albedo a product of two random colors), metal below 0.95 (albedo in
/// `[0.5, 1)`, fuzz below 0.5), glass otherwise.
pub open spec fn cell_material(choose_mat: int, m: Material) -> bool {
    if choose_mat < 52429 {
        m is Lambertian && m->Lambertian_0.albedo.wf()
    } else if choose_mat < 62259 {
        &&& m is Metal
        &&& m->Metal_0.albedo.wf()
        &&& SCALE / 2 <= m->Metal_0.albedo.r && SCALE / 2 <= m->Metal_0.albedo.g && SCALE / 2 <= m->Metal_0.albedo.b
        &&& 0 <= m->Metal_0.fuzz < SCALE / 2
    } else {
        m == dielectric_glass()
    }
}

/// A small sphere of the grid: radius 0.2 at the jittered centre of its cell,
/// farther than 0.9 from the clear point, with the material its draw picks.
pub open spec fn grid_sphere(s: Sphere) -> bool {
    exists|a: int, b: int, jx: int, jy: int, choose_mat: int|
        #[trigger] grid_draw(a, b, jx, jy, choose_mat) && s.radius == 13107 && s.center == cell_center(a, b, jx, jy)
            && v_length(v_sub(s.center, keep_clear_point())) > 58982 && cell_material(choose_mat, s.material)
}

proof fn lemma_jitter(j: int)
    requires
        0 <= j < SCALE,
    ensures
        0 <= fx_mul(58982, j) < 58982,
{
    assert(0 <= 58982 * j < 58982 * SCALE) by (nonlinear_arith)
        requires
            0 <= j < SCALE,
    ;
    assert(0 <= (58982 * j) / (SCALE as int) < 58982) by (nonlinear_arith)
        requires
            0 <= 58982 * j < 58982 * SCALE,
    ;
}

proof fn lemma_half_fuzz(d: int)
    requires
        0 <= d < SCALE,
    ensures
        0 <= fx_mul(d, SCALE / 2) < SCALE / 2,
{
    assert(0 <= d * (SCALE / 2) < SCALE * (SCALE / 2)) by (nonlinear_arith)
        requires
            0 <= d < SCALE,
    ;
    assert(0 <= (d * (SCALE / 2)) / (SCALE as int) < SCALE / 2) by (nonlinear_arith)
        requires
            0 <= d * (SCALE / 2) < SCALE * (SCALE / 2),
    ;
}

/// The nearest hit among `objs`, found by a pass that tests each sphere only
/// for hits nearer than the nearest one so far.
pub open spec fn scene_hit(objs: Seq<Sphere>, ray: Ray, t_min: int, t_max: int) -> Option<HitRecord>
    decreases objs.len(),
{
    if objs.len() == 0 {
        None
    } else {
        let prev = scene_hit(objs.drop_last(), ray, t_min, t_max);
        let bound = match prev {
            Some(h) => h.t as int,
            None => t_max,
        };
        match sphere_hit(objs.last(), ray, t_min, bound) {
            Some(h) => Some(h),
            None => prev,
        }
    }
}

/// The scene reports a hit whenever some sphere is hit, never one farther than
/// any sphere's own hit, and always the very record of one of its spheres.
pub proof fn lemma_scene_nearest(objs: Seq<Sphere>, ray: Ray, t_min: int, t_max: int)
    requires
        bounded(t_min),
        bounded(t_max),
    ensures
        forall|i: int|
            0 <= i < objs.len() && (#[trigger] sphere_hit(objs[i], ray, t_min, t_max)) is Some ==> {
                &&& scene_hit(objs, ray, t_min, t_max) is Some
                &&& scene_hit(objs, ray, t_min, t_max)->Some_0.t <= sphere_hit(objs[i], ray, t_min, t_max)->Some_0.t
            },
        scene_hit(objs, ray, t_min, t_max) is Some ==> exists|i: int|
            0 <= i < objs.len() && #[trigger] sphere_hit(objs[i], ray, t_min, t_max) == scene_hit(objs, ray, t_min, t_max),
        scene_hit(objs, ray, t_min, t_max) is Some ==> t_min <= scene_hit(objs, ray, t_min, t_max)->Some_0.t <= t_max,
    decreases objs.len(),
{
    if objs.len() > 0 {
        let rest = objs.drop_last();
        lemma_scene_nearest(rest, ray, t_min, t_max);
        let prev = scene_hit(rest, ray, t_min, t_max);
        let bound = match prev {
            Some(h) => h.t as int,
            None => t_max,
        };
        let last = objs.last();
        lemma_hit_lower_bound(last, ray, t_min, t_max, bound);
        lemma_hit_lower_bound(last, ray, t_min, bound, bound);
        assert forall|i: int|
            0 <= i < objs.len() && (#[trigger] sphere_hit(objs[i], ray, t_min, t_max)) is Some implies {
                &&& scene_hit(objs, ray, t_min, t_max) is Some
                &&& scene_hit(objs, ray, t_min, t_max)->Some_0.t <= sphere_hit(objs[i], ray, t_min, t_max)->Some_0.t
            } by {
            if i < objs.len() - 1 {
                assert(objs[i] == rest[i]);
            }
        }
        if scene_hit(objs, ray, t_min, t_max) is Some {
            if sphere_hit(last, ray, t_min, bound) is Some {
                assert(sphere_hit(objs[objs.len() - 1], ray, t_min, t_max) == scene_hit(objs, ray, t_min, t_max));
            } else {
                let i = choose|i: int|
                    0 <= i < rest.len() && #[trigger] sphere_hit(rest[i], ray, t_min, t_max) == prev;
                assert(objs[i] == rest[i]);
                assert(sphere_hit(objs[i], ray, t_min, t_max) == scene_hit(objs, ray, t_min, t_max));
            }
        }
    }
}

/// The nearest hit does not depend on the order of the spheres: two
/// collections that hold the same spheres report hits at the same parameter.
pub proof fn lemma_scene_order_free(objs1: Seq<Sphere>, objs2: Seq<Sphere>, ray: Ray, t_min: int, t_max: int)
    requires
        bounded(t_min),
        bounded(t_max),
        forall|i: int| 0 <= i < objs1.len() ==> objs2.contains(#[trigger] objs1[i]),
        forall|j: int| 0 <= j < objs2.len() ==> objs1.contains(#[trigger] objs2[j]),
    ensures
        scene_hit(objs1, ray, t_min, t_max) is Some <==> scene_hit(objs2, ray, t_min, t_max) is Some,
        scene_hit(objs1, ray, t_min, t_max) is Some ==> scene_hit(objs1, ray, t_min, t_max)->Some_0.t
            == scene_hit(objs2, ray, t_min, t_max)->Some_0.t,
{
    lemma_scene_nearest(objs1, ray, t_min, t_max);
    lemma_scene_nearest(objs2, ray, t_min, t_max);
    if scene_hit(objs1, ray, t_min, t_max) is Some {
        let i = choose|i: int|
            0 <= i < objs1.len() && #[trigger] sphere_hit(objs1[i], ray, t_min, t_max) == scene_hit(objs1, ray, t_min, t_max);
        assert(objs2.contains(objs1[i]));
        let j = choose|j: int| 0 <= j < objs2.len() && objs2[j] == objs1[i];
        assert(sphere_hit(objs2[j], ray, t_min, t_max) is Some);
    }
    if scene_hit(objs2, ray, t_min, t_max) is Some {
        let j = choose|j: int|
            0 <= j < objs2.len() && #[trigger] sphere_hit(objs2[j], ray, t_min, t_max) == scene_hit(objs2, ray, t_min, t_max);
        assert(objs1.contains(objs2[j]));
        let i = choose|i: int| 0 <= i < objs1.len() && objs1[i] == objs2[j];
        assert(sphere_hit(objs1[i], ray, t_min, t_max) is Some);
    }
}

impl Scene {
    pub open spec fn wf(&self) -> bool {
        &&& self.cam.wf()
        &&& forall|i: int| 0 <= i < self.hittable_objects@.len() ==> (#[trigger] self.hittable_objects@[i]).wf()
        &&& bounded(self.t_min as int)
        &&& bounded(self.t_max as int)
    }

    /// A scene of the given spheres, with the default parameter range.
    pub fn new(camera: Camera, objects: Vec<Sphere>) -> (r: Scene)
        ensures
            r.cam == camera,
            r.hittable_objects@ == objects@,
            r.t_min == T_MIN,
            r.t_max == LIMIT,
    {
        Scene { cam: camera, hittable_objects: objects, t_max: LIMIT, t_min: T_MIN }
    }

    /// An empty scene seen through the given camera.
    #[allow(non_snake_case)]
    pub fn new_cam(camera: Camera) -> (r: Scene)
        ensures
            r.cam == camera,
            r.hittable_objects@.len() == 0,
            r.t_min == T_MIN,
            r.t_max == LIMIT,
    {
        Scene::new(camera, Vec::new())
    }

    /// An empty scene seen through the default camera.
    pub fn default_scene() -> (r: Scene)
        ensures
            r.cam == Camera::default_spec(),
            r.hittable_objects@.len() == 0,
            r.t_min == T_MIN,
            r.t_max == LIMIT,
            r.wf(),
    {
        Scene::new_cam(Camera::default_camera())
    }

    #[allow(non_snake_case)]
    pub fn setCam(&mut self, camera: Camera)
        ensures
            final(self).cam == camera,
            final(self).hittable_objects@ == old(self).hittable_objects@,
            final(self).t_min == old(self).t_min,
            final(self).t_max == old(self).t_max,
    {
        self.cam = camera;
    }

    #[allow(non_snake_case)]
    pub fn getCamera(&self) -> (r: &Camera)
        ensures
            *r == self.cam,
    {
        &self.cam
    }

    #[allow(non_snake_case)]
    pub fn addObject(&mut self, object: Sphere)
        ensures
            final(self).hittable_objects@ == old(self).hittable_objects@.push(object),
            final(self).cam == old(self).cam,
            final(self).t_min == old(self).t_min,
            final(self).t_max == old(self).t_max,
    {
        self.hittable_objects.push(object);
    }

    /// The classic showcase: a large ground sphere, a jittered grid of small
    /// spheres with random materials (kept clear of the point `(4, 0.2, 0)`),
    /// and three large spheres, one of each material.
    #[allow(non_snake_case)]
    pub fn randomScene(rng: &mut StdRng) -> (r: Scene)
        ensures
            r.wf(),
            r.cam == Camera::default_spec(),
            4 <= r.hittable_objects@.len() <= 4 + 4 * GRID * GRID,
            r.hittable_objects@[0] == ground_sphere(),
            r.hittable_objects@[r.hittable_objects@.len() - 3] == big_sphere(0, dielectric_glass()),
            r.hittable_objects@[r.hittable_objects@.len() - 2] == big_sphere(-4, Material::Lambertian(
                Lambertian { albedo: rgba(26214, 13107, 6554, SCALE as int) },
            )),
            r.hittable_objects@[r.hittable_objects@.len() - 1] == big_sphere(4, Material::Metal(
                Metal { albedo: rgba(45875, 39322, 32768, SCALE as int), fuzz: 0 },
            )),
            forall|i: int| 1 <= i < r.hittable_objects@.len() - 3 ==> grid_sphere(#[trigger] r.hittable_objects@[i]),
    {
        let mut scene: Scene = Scene::default_scene();
        let ground: Material = Material::Lambertian(Lambertian::new(VColor::new_sc(SCALE / 2)));
        scene.addObject(Sphere { radius: 1000 * SCALE, center: Vec3 { x: 0, y: 0, z: 1000 * SCALE }, material: ground });
        let keep_clear: Vec3 = Vec3 { x: 4 * SCALE, y: 13107, z: 0 };
        assert(keep_clear.wf());
        let mut a: i64 = -GRID;
        while a < GRID
            invariant
                -GRID <= a <= GRID,
                keep_clear == keep_clear_point(),
                keep_clear.wf(),
                scene.wf(),
                scene.cam == Camera::default_spec(),
                1 <= scene.hittable_objects@.len() <= 1 + 2 * GRID * (a + GRID),
                scene.hittable_objects@[0] == ground_sphere(),
                forall|i: int| 1 <= i < scene.hittable_objects@.len() ==> grid_sphere(#[trigger] scene.hittable_objects@[i]),
            decreases GRID - a,
        {
            let mut b: i64 = -GRID;
            while b < GRID
                invariant
                    -GRID <= a < GRID,
                    -GRID <= b <= GRID,
                    keep_clear == keep_clear_point(),
                    keep_clear.wf(),
                    scene.wf(),
                    scene.cam == Camera::default_spec(),
                    1 <= scene.hittable_objects@.len() <= 1 + 2 * GRID * (a + GRID) + (b + GRID),
                    scene.hittable_objects@[0] == ground_sphere(),
                    forall|i: int| 1 <= i < scene.hittable_objects@.len() ==> grid_sphere(#[trigger] scene.hittable_objects@[i]),
                decreases GRID - b,
            {
                let choose_mat: i64 = random_fraction(rng);
                let jx: i64 = random_fraction(rng);
                let jy: i64 = random_fraction(rng);
                proof {
                    lemma_jitter(jx as int);
                    lemma_jitter(jy as int);
                }
                let cx: i64 = a * SCALE + fmul(58982, jx);
                let cy: i64 = b * SCALE + fmul(58982, jy);
                let center: Vec3 = Vec3 { x: cx, y: cy, z: -13107 };
                assert(center == cell_center(a as int, b as int, jx as int, jy as int));
                if center.sub(&keep_clear).length() > 58982 {
                    let material: Material = if choose_mat < 52429 {
                        let albedo: VColor = random_color(rng, 0, SCALE).mul(&random_color(rng, 0, SCALE));
                        Material::Lambertian(Lambertian::new(albedo))
                    } else if choose_mat < 62259 {
                        let albedo: VColor = random_color(rng, SCALE / 2, SCALE / 2);
                        let d: i64 = random_fraction(rng);
                        let fuzz: i64 = fmul(d, SCALE / 2);
                        proof {
                            lemma_half_fuzz(d as int);
                        }
                        Material::Metal(Metal::new(albedo, fuzz))
                    } else {
                        Material::Dielectric(Dielectric::new(98304))
                    };
                    let s: Sphere = Sphere { radius: 13107, center, material };
                    proof {
                        assert(grid_draw(a as int, b as int, jx as int, jy as int, choose_mat as int));
                        assert(grid_sphere(s));
                    }
                    scene.addObject(s);
                }
                b = b + 1;
            }
            assert(2 * GRID * (a + GRID) + (b + GRID) == 2 * GRID * (a + 1 + GRID)) by (nonlinear_arith)
                requires
                    b == GRID,
            ;
            a = a + 1;
        }
        scene.addObject(Sphere {
            radius: SCALE,
            center: Vec3 { x: 0, y: 0, z: -SCALE },
            material: Material::Dielectric(Dielectric::new(98304)),
        });
        scene.addObject(Sphere {
            radius: SCALE,
            center: Vec3 { x: -4 * SCALE, y: 0, z: -SCALE },
            material: Material::Lambertian(Lambertian::new(VColor::new_rgb(26214, 13107, 6554))),
        });
        scene.addObject(Sphere {
            radius: SCALE,
            center: Vec3 { x: 4 * SCALE, y: 0, z: -SCALE },
            material: Material::Metal(Metal::new(VColor::new_rgb(45875, 39322, 32768), 0)),
        });
        scene
    }

    /// The nearest hit of the ray within `[t_min, t_max]`.
    pub fn nearest_hit(&self, ray: &Ray) -> (res: Option<HitRecord>)
        requires
            self.wf(),
            ray.wf(),
        ensures
            res == scene_hit(self.hittable_objects@, *ray, self.t_min as int, self.t_max as int),
            res is Some ==> res->Some_0.wf(),
    {
        let objs = &self.hittable_objects;
        let mut best: Option<HitRecord> = None;
        let mut i: usize = 0;
        proof {
            assert(objs@.subrange(0, 0) =~= Seq::<Sphere>::empty());
        }
        while i < objs.len()
            invariant
                self.wf(),
                ray.wf(),
                objs == &self.hittable_objects,
                i <= objs@.len(),
                best == scene_hit(objs@.subrange(0, i as int), *ray, self.t_min as int, self.t_max as int),
                best is Some ==> best->Some_0.wf(),
            decreases objs.len() - i,
        {
            proof {
                lemma_scene_nearest(objs@.subrange(0, i as int), *ray, self.t_min as int, self.t_max as int);
                assert(objs@.subrange(0, i + 1).drop_last() =~= objs@.subrange(0, i as int));
            }
            let closest: i64 = match best {
                Some(h) => h.t,
                None => self.t_max,
            };
            match objs[i].hit(ray, self.t_min, closest) {
                Some(h) => {
                    best = Some(h);
                },
                None => {},
            }
            i = i + 1;
        }
        proof {
            assert(objs@.subrange(0, objs@.len() as int) =~= objs@);
        }
        best
    }

    /// Whether the ray hits anything; on a hit the record is overwritten with
    /// the nearest one, on a miss it is left as it was.
    #[allow(non_snake_case)]
    pub fn Hit(&self, ray: &Ray, rec: &mut HitRecord) -> (r: bool)
        requires
            self.wf(),
            ray.wf(),
        ensures
            r == scene_hit(self.hittable_objects@, *ray, self.t_min as int, self.t_max as int) is Some,
            r ==> *final(rec) == scene_hit(self.hittable_objects@, *ray, self.t_min as int, self.t_max as int)->Some_0,
            !r ==> *final(rec) == *old(rec),
    {
        match self.nearest_hit(ray) {
            Some(h) => {
                *rec = h;
                true
            },
            None => false,
        }
    }
}

} // verus!
