//! The integrator: recursive radiance along scattered rays, averaged over
//! jittered samples per pixel into an RGBA8 buffer.
use vstd::prelude::*;
use rand::rngs::StdRng;
use crate::camera::{ray_through, MAX_SIDE};
use crate::color::{black, c_add, c_mul, c_scale, clamp_unit, rgba, to_byte, VColor};
use crate::material::{scatter_outcome, unit_draw, Material};
use crate::fixed::{fadd, fmul, fx_add, fx_mul, SCALE};
use crate::random::{in_unit_ball, randomInUnitDisk, random_fraction};
use crate::hit::HitRecord;
use crate::ray::Ray;
use crate::scene::{scene_hit, Scene};
use crate::vector::{v_normalize, Vec3};

verus! {

/// The sky color at the top of the background gradient.
pub const SKY_R: i64 = 32768;
pub const SKY_G: i64 = 45875;
pub const SKY_B: i64 = 65536;

/// Samples per pixel, and the bound on scattering depth, of a default renderer.
pub const DEFAULT_SAMPLING: i32 = 16;
pub const DEFAULT_DEPTH: i16 = 8;

/// The background gradient parameter: `(y + 1) / 2` for the unit direction.
pub open spec fn sky_param(direction: Vec3) -> int {
    clamp_unit(fx_mul(SCALE / 2, fx_add(v_normalize(direction).y as int, SCALE as int)))
}

/// White blended toward sky blue as the direction turns upward.
pub open spec fn background(direction: Vec3) -> VColor {
    let t = sky_param(direction);
    c_add(
        c_scale(rgba(SCALE as int, SCALE as int, SCALE as int, SCALE as int), SCALE - t),
        c_scale(rgba(SKY_R as int, SKY_G as int, SKY_B as int, SCALE as int), t),
    )
}

/// The average of accumulated channel sums over `n` samples.
pub open spec fn average(sums: (int, int, int, int), n: int) -> VColor {
    rgba(sums.0 / n, sums.1 / n, sums.2 / n, sums.3 / n)
}

/// The viewport coordinate of a sample: `(i + jitter) / side`, in `[0, 1)`.
pub open spec fn screen_coord(i: int, jitter: int, side: int) -> int {
    (i * SCALE + jitter) / side
}

/// `out` is a possible scattering of `ray` at `h`; `deeper` stands for the
/// light along the scattered ray.
pub open spec fn scatter_step(m: Material, ray: Ray, h: HitRecord, out: (bool, VColor, Ray), deeper: VColor) -> bool {
    scatter_outcome(m, ray, h, out)
}

/// A possible color of the light arriving along `ray` with `depth` scattering
/// events left, for some values of the random draws: black once the depth is
/// spent, the background for a miss, black when the nearest surface absorbs
/// the ray, and otherwise the attenuation times a possible color of the
/// scattered ray one level deeper.
pub open spec fn color_outcome(scene: Scene, ray: Ray, depth: int, c: VColor) -> bool
    decreases depth,
{
    if depth <= 0 {
        c == black()
    } else {
        match scene_hit(scene.hittable_objects@, ray, scene.t_min as int, scene.t_max as int) {
            None => c == background(ray.direction),
            Some(h) => exists|out: (bool, VColor, Ray), deeper: VColor|
                #[trigger] scatter_step(h.material, ray, h, out, deeper) && if out.0 {
                    color_outcome(scene, out.2, depth - 1, deeper) && c == c_mul(out.1, deeper)
                } else {
                    c == black()
                },
        }
    }
}

proof fn lemma_outcome_scattered(
    scene: Scene,
    ray: Ray,
    depth: int,
    h: HitRecord,
    out: (bool, VColor, Ray),
    deeper: VColor,
    c: VColor,
)
    requires
        depth > 0,
        scene_hit(scene.hittable_objects@, ray, scene.t_min as int, scene.t_max as int) == Some(h),
        scatter_outcome(h.material, ray, h, out),
        out.0,
        color_outcome(scene, out.2, depth - 1, deeper),
        c == c_mul(out.1, deeper),
    ensures
        color_outcome(scene, ray, depth, c),
{
    assert(scatter_step(h.material, ray, h, out, deeper));
}

proof fn lemma_outcome_absorbed(scene: Scene, ray: Ray, depth: int, h: HitRecord, out: (bool, VColor, Ray))
    requires
        depth > 0,
        scene_hit(scene.hittable_objects@, ray, scene.t_min as int, scene.t_max as int) == Some(h),
        scatter_outcome(h.material, ray, h, out),
        !out.0,
    ensures
        color_outcome(scene, ray, depth, black()),
{
    assert(scatter_step(h.material, ray, h, out, black()));
}

/// The random inputs of one camera sample: two jitters and a lens point.
pub open spec fn sample_ok(jx: int, jy: int, rd: Vec3) -> bool {
    unit_draw(jx) && unit_draw(jy) && in_unit_ball(rd) && rd.z == 0 && rd.wf()
}

/// A possible color of one sample of pixel `(x, y)`.
pub open spec fn sample_outcome(scene: Scene, w: int, h: int, depth: int, x: int, y: int, c: VColor) -> bool {
    exists|jx: int, jy: int, rd: Vec3|
        #[trigger] sample_ok(jx, jy, rd) && color_outcome(
            scene,
            ray_through(scene.cam, screen_coord(x, jx, w), screen_coord(y, jy, h), rd),
            depth,
            c,
        )
}

/// Channel-wise sums of a sequence of colors.
pub open spec fn channel_sums(cs: Seq<VColor>) -> (int, int, int, int)
    decreases cs.len(),
{
    if cs.len() == 0 {
        (0, 0, 0, 0)
    } else {
        let p = channel_sums(cs.drop_last());
        let c = cs.last();
        (p.0 + c.r, p.1 + c.g, p.2 + c.b, p.3 + c.a)
    }
}

/// `cs` is a possible set of `n` samples of pixel `(x, y)`.
pub open spec fn pixel_samples(scene: Scene, w: int, h: int, depth: int, n: int, x: int, y: int, cs: Seq<VColor>) -> bool {
    cs.len() == n && forall|i: int| 0 <= i < cs.len() ==> sample_outcome(scene, w, h, depth, x, y, #[trigger] cs[i])
}

/// A possible color of pixel `(x, y)`: the average of `n` possible samples.
pub open spec fn pixel_outcome(scene: Scene, w: int, h: int, depth: int, n: int, x: int, y: int, c: VColor) -> bool {
    exists|cs: Seq<VColor>| #[trigger] pixel_samples(scene, w, h, depth, n, x, y, cs) && c == average(channel_sums(cs), n)
}

/// The four bytes of pixel `(x, y)` in `buf` are a possible color of that pixel.
pub open spec fn pixel_written(buf: Seq<u8>, scene: Scene, w: int, h: int, depth: int, n: int, x: int, y: int) -> bool {
    exists|c: VColor|
        #[trigger] pixel_outcome(scene, w, h, depth, n, x, y, c) && buf[4 * (y * w + x)] == to_byte(c.r as int)
            && buf[4 * (y * w + x) + 1] == to_byte(c.g as int) && buf[4 * (y * w + x) + 2] == to_byte(c.b as int)
            && buf[4 * (y * w + x) + 3] == to_byte(c.a as int)
}

/// Distinct pixels have distinct places in a row-major buffer.
pub proof fn lemma_pixel_index(w: int, x1: int, y1: int, x2: int, y2: int)
    requires
        0 <= x1 < w,
        0 <= x2 < w,
        0 <= y1,
        0 <= y2,
        x1 != x2 || y1 != y2,
    ensures
        y1 * w + x1 != y2 * w + x2,
{
    if y1 < y2 {
        assert(y1 * w + w <= y2 * w) by (nonlinear_arith)
            requires
                y1 + 1 <= y2,
                w > 0,
        ;
    } else if y2 < y1 {
        assert(y2 * w + w <= y1 * w) by (nonlinear_arith)
            requires
                y2 + 1 <= y1,
                w > 0,
        ;
    }
}

/// The light of a ray that meets nothing depends on its direction alone:
/// two such rays along one direction get the same color, whatever their
/// origins and depths.
pub proof fn lemma_miss_color_by_direction(scene: Scene, r1: Ray, r2: Ray, d1: int, d2: int, c1: VColor, c2: VColor)
    requires
        d1 > 0,
        d2 > 0,
        r1.direction == r2.direction,
        scene_hit(scene.hittable_objects@, r1, scene.t_min as int, scene.t_max as int) is None,
        scene_hit(scene.hittable_objects@, r2, scene.t_min as int, scene.t_max as int) is None,
        color_outcome(scene, r1, d1, c1),
        color_outcome(scene, r2, d2, c2),
    ensures
        c1 == c2,
        c1 == background(r1.direction),
{
}

pub struct Renderer {
    pub sampling: i32,
    pub ray_recursion_depth: i16,
    pub scene: Scene,
    /// Row-major RGBA8 pixels, four bytes per pixel.
    pub image_buffer: Vec<u8>,
    pub width: i32,
    pub height: i32,
}

/// The background color for a ray direction.
pub fn background_color(direction: &Vec3) -> (r: VColor)
    requires
        direction.wf(),
    ensures
        r == background(*direction),
        r.wf(),
{
    let unit: Vec3 = direction.normalize();
    let raw: i64 = fmul(SCALE / 2, fadd(unit.y, SCALE));
    let t: i64 = if raw < 0 {
        0
    } else if raw > SCALE {
        SCALE
    } else {
        raw
    };
    let white: VColor = VColor::new_rgba(SCALE, SCALE, SCALE, SCALE);
    let sky: VColor = VColor::new_rgba(SKY_R, SKY_G, SKY_B, SCALE);
    white.scale(SCALE - t).add(&sky.scale(t))
}

/// The viewport coordinate of a sample in column or row `i` of `side`.
pub fn screen_coordinate(i: i32, jitter: i64, side: i32) -> (r: i64)
    requires
        0 <= i < side <= MAX_SIDE,
        0 <= jitter < SCALE,
    ensures
        r == screen_coord(i as int, jitter as int, side as int),
        0 <= r < SCALE,
{
    assert(i * SCALE + jitter < side * SCALE) by (nonlinear_arith)
        requires
            0 <= i < side,
            0 <= jitter < SCALE,
    ;
    assert(side * SCALE <= 0x40000000) by (nonlinear_arith)
        requires
            side <= MAX_SIDE,
    ;
    assert((i * SCALE + jitter) / (side as int) < SCALE) by (nonlinear_arith)
        requires
            0 <= i * SCALE + jitter < side * SCALE,
            side > 0,
    ;
    (i as i64 * SCALE + jitter) / (side as i64)
}

/// Channel sums of `n` colors averaged back into one color.
pub fn average_color(sums: (i64, i64, i64, i64), n: i64) -> (r: VColor)
    requires
        n > 0,
        0 <= sums.0 <= n * SCALE,
        0 <= sums.1 <= n * SCALE,
        0 <= sums.2 <= n * SCALE,
        0 <= sums.3 <= n * SCALE,
    ensures
        r == average((sums.0 as int, sums.1 as int, sums.2 as int, sums.3 as int), n as int),
        r.wf(),
{
    proof {
        assert(sums.0 / n <= SCALE && sums.1 / n <= SCALE && sums.2 / n <= SCALE && sums.3 / n
            <= SCALE) by (nonlinear_arith)
            requires
                n > 0,
                0 <= sums.0 <= n * SCALE,
                0 <= sums.1 <= n * SCALE,
                0 <= sums.2 <= n * SCALE,
                0 <= sums.3 <= n * SCALE,
        ;
    }
    VColor { r: sums.0 / n, g: sums.1 / n, b: sums.2 / n, a: sums.3 / n }
}

impl Default for Renderer {
    /// An 800 by 600 renderer of an empty scene seen through the default camera.
    fn default() -> (r: Renderer)
        ensures
            r.wf(),
            r.width == 800,
            r.height == 600,
            r.scene.hittable_objects@.len() == 0,
    {
        Renderer::new(Scene::default_scene(), 800, 600)
    }
}

impl Renderer {
    pub open spec fn wf(&self) -> bool {
        &&& self.scene.wf()
        &&& 0 < self.width <= MAX_SIDE
        &&& 0 < self.height <= MAX_SIDE
        &&& self.image_buffer@.len() == self.width * self.height * 4
        &&& 0 < self.sampling
    }

    /// A renderer of the scene at the given resolution, with 16 samples per
    /// pixel, a scattering depth of 8 and a black transparent buffer.
    pub fn new(sc: Scene, width: i32, height: i32) -> (r: Renderer)
        requires
            sc.wf(),
            0 < width <= MAX_SIDE,
            0 < height <= MAX_SIDE,
        ensures
            r.wf(),
            r.scene == sc,
            r.width == width,
            r.height == height,
            r.sampling == DEFAULT_SAMPLING,
            r.ray_recursion_depth == DEFAULT_DEPTH,
            forall|i: int| 0 <= i < r.image_buffer@.len() ==> r.image_buffer@[i] == 0,
    {
        assert(width * height * 4 <= 0x40000000) by (nonlinear_arith)
            requires
                0 < width <= MAX_SIDE,
                0 < height <= MAX_SIDE,
        ;
        let n: usize = (width as usize) * (height as usize) * 4;
        let mut buf: Vec<u8> = Vec::new();
        while buf.len() < n
            invariant
                buf@.len() <= n,
                forall|i: int| 0 <= i < buf@.len() ==> buf@[i] == 0,
            decreases n - buf@.len(),
        {
            buf.push(0);
        }
        Renderer {
            sampling: DEFAULT_SAMPLING,
            ray_recursion_depth: DEFAULT_DEPTH,
            scene: sc,
            image_buffer: buf,
            width,
            height,
        }
    }

    /// The light arriving along the ray: black once the depth budget is spent,
    /// the background gradient for a ray that meets nothing, otherwise the
    /// material's attenuation times the light along the scattered ray (black
    /// when the material absorbs it).
    #[allow(non_snake_case)]
    pub fn colorRay(&self, x: i32, y: i32, ray: &Ray, depth: i16, rng: &mut StdRng) -> (r: VColor)
        requires
            self.scene.wf(),
            ray.wf(),
        ensures
            r.wf(),
            color_outcome(self.scene, *ray, depth as int, r),
            depth <= 0 ==> r == black(),
            depth > 0 && scene_hit(self.scene.hittable_objects@, *ray, self.scene.t_min as int, self.scene.t_max as int) is None
                ==> r == background(ray.direction),
        decreases depth,
    {
        if depth <= 0 {
            return VColor::new_sc(0);
        }
        match self.scene.nearest_hit(ray) {
            Some(rec) => {
                let out: (bool, VColor, Ray) = rec.material.scatter_ray(ray, &rec, rng);
                if out.0 {
                    let deeper: VColor = self.colorRay(x, y, &out.2, depth - 1, rng);
                    let c: VColor = out.1.mul(&deeper);
                    proof {
                        lemma_outcome_scattered(self.scene, *ray, depth as int, rec, out, deeper, c);
                    }
                    c
                } else {
                    proof {
                        lemma_outcome_absorbed(self.scene, *ray, depth as int, rec, out);
                    }
                    VColor::new_sc(0)
                }
            },
            None => background_color(&ray.direction),
        }
    }

    /// The color of pixel `(x, y)`: the average over `sampling` rays through
    /// random points of the pixel, each from a random point of the lens.
    pub fn pixel_color(&self, x: i32, y: i32, rng: &mut StdRng) -> (r: VColor)
        requires
            self.wf(),
            0 <= x < self.width,
            0 <= y < self.height,
        ensures
            r.wf(),
            pixel_outcome(
                self.scene,
                self.width as int,
                self.height as int,
                self.ray_recursion_depth as int,
                self.sampling as int,
                x as int,
                y as int,
                r,
            ),
    {
        let ghost scene = self.scene;
        let ghost w = self.width as int;
        let ghost h = self.height as int;
        let ghost depth = self.ray_recursion_depth as int;
        let mut cs: Ghost<Seq<VColor>> = Ghost(Seq::empty());
        let mut sums: (i64, i64, i64, i64) = (0, 0, 0, 0);
        let mut s: i32 = 0;
        while s < self.sampling
            invariant
                self.wf(),
                scene == self.scene,
                w == self.width,
                h == self.height,
                depth == self.ray_recursion_depth,
                0 <= x < self.width,
                0 <= y < self.height,
                0 <= s <= self.sampling,
                cs@.len() == s,
                channel_sums(cs@) == (sums.0 as int, sums.1 as int, sums.2 as int, sums.3 as int),
                forall|i: int| 0 <= i < cs@.len() ==> sample_outcome(scene, w, h, depth, x as int, y as int, #[trigger] cs@[i]),
                0 <= sums.0 <= s * SCALE,
                0 <= sums.1 <= s * SCALE,
                0 <= sums.2 <= s * SCALE,
                0 <= sums.3 <= s * SCALE,
            decreases self.sampling - s,
        {
            let jx: i64 = random_fraction(rng);
            let jy: i64 = random_fraction(rng);
            let u: i64 = screen_coordinate(x, jx, self.width);
            let v: i64 = screen_coordinate(y, jy, self.height);
            let rd: Vec3 = randomInUnitDisk(rng);
            let ray: Ray = self.scene.cam.ray_through(u, v, &rd);
            let c: VColor = self.colorRay(x, y, &ray, self.ray_recursion_depth, rng);
            proof {
                assert(sample_ok(jx as int, jy as int, rd));
                assert(sample_outcome(scene, w, h, depth, x as int, y as int, c));
                assert(cs@.push(c).drop_last() =~= cs@);
                assert forall|i: int| 0 <= i < cs@.push(c).len() implies sample_outcome(
                    scene,
                    w,
                    h,
                    depth,
                    x as int,
                    y as int,
                    #[trigger] cs@.push(c)[i],
                ) by {
                    if i < cs@.len() {
                        assert(cs@.push(c)[i] == cs@[i]);
                    }
                }
            }
            cs = Ghost(cs@.push(c));
            sums = (sums.0 + c.r, sums.1 + c.g, sums.2 + c.b, sums.3 + c.a);
            s = s + 1;
        }
        let r: VColor = average_color(sums, self.sampling as i64);
        proof {
            assert(pixel_samples(scene, w, h, depth, self.sampling as int, x as int, y as int, cs@));
        }
        r
    }

    /// Fills the whole buffer, row by row, with each pixel's averaged color.
    pub fn render(&mut self, rng: &mut StdRng)
        requires
            old(self).wf(),
        ensures
            final(self).wf(),
            final(self).scene == old(self).scene,
            final(self).width == old(self).width,
            final(self).height == old(self).height,
            final(self).sampling == old(self).sampling,
            final(self).ray_recursion_depth == old(self).ray_recursion_depth,
            forall|x: int, y: int|
                0 <= x < old(self).width && 0 <= y < old(self).height ==> #[trigger] pixel_written(
                    final(self).image_buffer@,
                    old(self).scene,
                    old(self).width as int,
                    old(self).height as int,
                    old(self).ray_recursion_depth as int,
                    old(self).sampling as int,
                    x,
                    y,
                ),
    {
        let w: i32 = self.width;
        let h: i32 = self.height;
        let ghost scene = self.scene;
        let ghost depth = self.ray_recursion_depth as int;
        let ghost n = self.sampling as int;
        let mut y: i32 = 0;
        while y < h
            invariant
                self.wf(),
                w == self.width,
                h == self.height,
                0 <= y <= h,
                self.scene == old(self).scene,
                scene == self.scene,
                self.sampling == old(self).sampling,
                n == self.sampling,
                self.ray_recursion_depth == old(self).ray_recursion_depth,
                depth == self.ray_recursion_depth,
                forall|px: int, py: int|
                    0 <= px < w && 0 <= py < y ==> #[trigger] pixel_written(self.image_buffer@, scene, w as int, h as int, depth, n, px, py),
            decreases h - y,
        {
            let mut x: i32 = 0;
            while x < w
                invariant
                    self.wf(),
                    w == self.width,
                    h == self.height,
                    0 <= y < h,
                    0 <= x <= w,
                    self.scene == old(self).scene,
                    scene == self.scene,
                    self.sampling == old(self).sampling,
                    n == self.sampling,
                    self.ray_recursion_depth == old(self).ray_recursion_depth,
                    depth == self.ray_recursion_depth,
                    forall|px: int, py: int|
                        0 <= px < w && 0 <= py < h && (py < y || (py == y && px < x)) ==> #[trigger] pixel_written(
                            self.image_buffer@,
                            scene,
                            w as int,
                            h as int,
                            depth,
                            n,
                            px,
                            py,
                        ),
                decreases w - x,
            {
                let c: VColor = self.pixel_color(x, y, rng);
                let bytes: (u8, u8, u8, u8) = c.to_rgba8();
                assert((y * w + x) * 4 + 3 < w * h * 4) by (nonlinear_arith)
                    requires
                        0 <= y < h,
                        0 <= x < w,
                ;
                assert(w * h * 4 <= 0x40000000) by (nonlinear_arith)
                    requires
                        0 < w <= MAX_SIDE,
                        0 < h <= MAX_SIDE,
                ;
                let ghost before = self.image_buffer@;
                let base: usize = ((y as usize) * (w as usize) + (x as usize)) * 4;
                self.image_buffer.set(base, bytes.0);
                self.image_buffer.set(base + 1, bytes.1);
                self.image_buffer.set(base + 2, bytes.2);
                self.image_buffer.set(base + 3, bytes.3);
                proof {
                    let after = self.image_buffer@;
                    assert(pixel_written(after, scene, w as int, h as int, depth, n, x as int, y as int)) by {
                        assert(pixel_outcome(scene, w as int, h as int, depth, n, x as int, y as int, c));
                    }
                    assert forall|px: int, py: int|
                        0 <= px < w && 0 <= py < h && (py < y || (py == y && px < x + 1)) implies #[trigger] pixel_written(
                            after,
                            scene,
                            w as int,
                            h as int,
                            depth,
                            n,
                            px,
                            py,
                        ) by {
                        if px != x || py != y {
                            assert(pixel_written(before, scene, w as int, h as int, depth, n, px, py));
                            lemma_pixel_index(w as int, px, py, x as int, y as int);
                            let k = py * w + px;
                            assert(0 <= k) by (nonlinear_arith)
                                requires
                                    0 <= px,
                                    0 <= py,
                                    w > 0,
                                    k == py * w + px,
                            ;
                            assert(k < w * h) by (nonlinear_arith)
                                requires
                                    0 <= px < w,
                                    0 <= py < h,
                                    k == py * w + px,
                            ;
                            let cc = choose|cc: VColor|
                                #[trigger] pixel_outcome(scene, w as int, h as int, depth, n, px, py, cc)
                                    && before[4 * (py * w + px)] == to_byte(cc.r as int)
                                    && before[4 * (py * w + px) + 1] == to_byte(cc.g as int)
                                    && before[4 * (py * w + px) + 2] == to_byte(cc.b as int)
                                    && before[4 * (py * w + px) + 3] == to_byte(cc.a as int);
                            assert(pixel_outcome(scene, w as int, h as int, depth, n, px, py, cc));
                        }
                    }
                }
                x = x + 1;
            }
            y = y + 1;
        }
    }
}

} // verus!
