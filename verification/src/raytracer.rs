//! Rays, and the renderer that casts them through every pixel.

use vstd::prelude::*;
use crate::color::Rgb;
use crate::framebuffer::{lemma_index_in_range, lemma_index_injective, Framebuffer};
use crate::pixel::{column, component, position, row};
use crate::scalar::Scalar;
use crate::scene::{wins, Camera, Hit, Light, Material, Object, Scene};
use crate::vector::Vec3;

verus! {

/// A half-line: the points `origin + t * direction`.
#[derive(Clone, Copy, Debug, Default, PartialEq, Eq, Structural)]
pub struct Ray {
    pub origin: Vec3,
    pub direction: Vec3,
}

/// The number of reflections that `draw_scene` follows from a primary
/// ray.
pub const MAX_DEPTH: usize = 5;

/// The word that a pixel holds after a draw: the packed colour where
/// one was produced, else the word it held before.
pub open spec fn written(before: u32, out: Option<Rgb>) -> u32 {
    match out {
        Some(color) => color.packed(),
        None => before,
    }
}

/// A call of `f` for column `x` of row `y` may have changed a pixel
/// from `before` to `after`.
pub open spec fn painted<F: Fn(nalgebra::Vector2<usize>, (usize, usize)) -> Option<Rgb>>(
    f: F,
    dims: (usize, usize),
    x: int,
    y: int,
    before: u32,
    after: u32,
) -> bool {
    exists|pos: nalgebra::Vector2<usize>, out: Option<Rgb>|
        column(pos) == x && row(pos) == y && #[trigger] f.ensures((pos, dims), out) && after
            == written(before, out)
}

/// Visits the pixels row by row from the top, each row from the left,
/// and stores what `f` produces for each.
fn paint<F: Fn(nalgebra::Vector2<usize>, (usize, usize)) -> Option<Rgb>>(
    surface: &mut Framebuffer,
    f: &F,
)
    requires
        forall|pos: nalgebra::Vector2<usize>, dims: (usize, usize)| #[trigger] f.requires((pos, dims)),
    ensures
        final(surface).spec_width() == old(surface).spec_width(),
        final(surface).spec_height() == old(surface).spec_height(),
        final(surface)@.len() == old(surface)@.len(),
        forall|x: int, y: int|
            0 <= x < old(surface).spec_width() && 0 <= y < old(surface).spec_height() ==> painted(
                *f,
                (old(surface).spec_width(), old(surface).spec_height()),
                x,
                y,
                old(surface).pixel(x, y),
                #[trigger] final(surface).pixel(x, y),
            ),
{
    let width: usize = surface.width();
    let height: usize = surface.height();
    let len: usize = surface.len();
    let mut y: usize = 0;
    while y < height
        invariant
            y <= height,
            surface.spec_width() == width,
            surface.spec_height() == height,
            surface@.len() == len,
            len == width * height,
            width == old(surface).spec_width(),
            height == old(surface).spec_height(),
            forall|pos: nalgebra::Vector2<usize>, dims: (usize, usize)| #[trigger]
                f.requires((pos, dims)),
            forall|i: int, j: int|
                0 <= i < width && 0 <= j < height ==> if j < y {
                    painted(
                        *f,
                        (width, height),
                        i,
                        j,
                        old(surface).pixel(i, j),
                        #[trigger] surface.pixel(i, j),
                    )
                } else {
                    surface.pixel(i, j) == old(surface).pixel(i, j)
                },
        decreases height - y,
    {
        let mut x: usize = 0;
        while x < width
            invariant
                x <= width,
                y < height,
                surface.spec_width() == width,
                surface.spec_height() == height,
                surface@.len() == len,
                len == width * height,
                width == old(surface).spec_width(),
                height == old(surface).spec_height(),
                forall|pos: nalgebra::Vector2<usize>, dims: (usize, usize)| #[trigger]
                    f.requires((pos, dims)),
                forall|i: int, j: int|
                    0 <= i < width && 0 <= j < height ==> if j < y || (j == y && i < x) {
                        painted(
                            *f,
                            (width, height),
                            i,
                            j,
                            old(surface).pixel(i, j),
                            #[trigger] surface.pixel(i, j),
                        )
                    } else {
                        surface.pixel(i, j) == old(surface).pixel(i, j)
                    },
            decreases width - x,
        {
            let pos = position(x, y);
            let out: Option<Rgb> = f(pos, (width, height));
            let ghost prior = *surface;
            proof {
                lemma_index_in_range(width as int, height as int, x as int, y as int);
            }
            if let Some(color) = out {
                surface.set_pixel(pos, color);
            }
            proof {
                assert forall|i: int, j: int| 0 <= i < width && 0 <= j < height implies if j < y
                    || (j == y && i < x + 1) {
                    painted(
                        *f,
                        (width, height),
                        i,
                        j,
                        old(surface).pixel(i, j),
                        #[trigger] surface.pixel(i, j),
                    )
                } else {
                    surface.pixel(i, j) == old(surface).pixel(i, j)
                } by {
                    lemma_index_in_range(width as int, height as int, i, j);
                    if i == x && j == y {
                    } else {
                        if i + j * width == x + y * width {
                            lemma_index_injective(width as int, i, j, x as int, y as int);
                        }
                        assert(surface.pixel(i, j) == prior.pixel(i, j));
                    }
                }
            }
            x = x + 1;
        }
        y = y + 1;
    }
}

/// The ray may be the primary ray of pixel `(x, y)` in a `w` by `h`
/// viewport: it leaves the camera's origin in a direction that
/// `direction` gave for the camera's field of view and that pixel.
pub open spec fn primary<D: Fn(Scalar, usize, usize, usize, usize) -> Vec3>(
    camera: Camera,
    x: usize,
    y: usize,
    w: usize,
    h: usize,
    direction: D,
    ray: Ray,
) -> bool {
    ray.origin == camera.spec_origin() && direction.ensures(
        (camera.spec_fov(), x, y, w, h),
        ray.direction,
    )
}

/// The colour that enters the shading of a surface from its mirror
/// direction: black where the reflected ray gave none.
pub open spec fn reflected(below: Option<Vec3>) -> Vec3 {
    match below {
        Some(color) => color,
        None => Vec3::zero_spec(),
    }
}

/// One level of a cast that struck a surface: the hit and the material
/// there, the direction of the reflected ray, what the reflected ray
/// brought back, and the colour of the surface.
pub struct Reflection {
    pub hit: Hit,
    pub material: Material,
    pub direction: Vec3,
    pub below: Option<Vec3>,
    pub color: Vec3,
}

impl Reflection {
    /// The reflected ray: from the point struck, in the direction kept.
    pub open spec fn onward(self) -> Ray {
        Ray { origin: self.hit.point, direction: self.direction }
    }
}

/// `step` is what a cast of `ray` sees at the surface it strikes, and
/// `out` the colour it returns: the scene answers the ray with the hit
/// and the material; `bounce` gave the reflected direction for the
/// ray's direction and the normal; `shade` gave the colour for the ray,
/// the hit, the material, the first light and what the reflected ray
/// brought back, black where it brought nothing.
pub open spec fn reflects<
    O: Object,
    B: Fn(Vec3, Vec3) -> Vec3,
    S: Fn(Ray, Hit, Material, Light, Vec3) -> Vec3,
>(scene: &Scene<O>, bounce: &B, shade: &S, ray: Ray, out: Option<Vec3>, step: Reflection) -> bool {
    &&& scene.strikes(ray, Some((step.hit, step.material)))
    &&& bounce.ensures((ray.direction, step.hit.normal), step.direction)
    &&& shade.ensures(
        (ray, step.hit, step.material, scene.lights@[0], reflected(step.below)),
        step.color,
    )
    &&& out == Some(step.color)
}

/// `cast` may return `out` for `ray` at `depth`, after following
/// `bounces` reflections.
///
/// Beyond `max_depth`, and where the ray strikes nothing, that is the
/// background after no reflection. Where it strikes a surface, it is
/// the colour of a reflection whose reflected ray, cast one level
/// deeper, brought back what the reflection holds.
pub open spec fn casts<
    O: Object,
    B: Fn(Vec3, Vec3) -> Vec3,
    S: Fn(Ray, Hit, Material, Light, Vec3) -> Vec3,
>(
    scene: &Scene<O>,
    bounce: &B,
    shade: &S,
    ray: Ray,
    depth: nat,
    max_depth: nat,
    bounces: nat,
    out: Option<Vec3>,
) -> bool
    decreases max_depth + 1 - depth,
{
    if depth > max_depth {
        bounces == 0 && out == scene.background
    } else if bounces == 0 {
        scene.strikes(ray, None) && out == scene.background
    } else {
        exists|step: Reflection| #[trigger]
            reflects(scene, bounce, shade, ray, out, step) && casts(
                scene,
                bounce,
                shade,
                step.onward(),
                depth + 1,
                max_depth,
                (bounces - 1) as nat,
                step.below,
            )
    }
}

/// However the scene is made, a cast follows no more reflections than
/// the levels that remain: a cast from depth 0 tests at most
/// `max_depth + 1` rays against the scene.
pub proof fn lemma_bounces_bounded<
    O: Object,
    B: Fn(Vec3, Vec3) -> Vec3,
    S: Fn(Ray, Hit, Material, Light, Vec3) -> Vec3,
>(
    scene: &Scene<O>,
    bounce: &B,
    shade: &S,
    ray: Ray,
    depth: nat,
    max_depth: nat,
    bounces: nat,
    out: Option<Vec3>,
)
    requires
        casts(scene, bounce, shade, ray, depth, max_depth, bounces, out),
    ensures
        depth > max_depth ==> bounces == 0,
        depth <= max_depth ==> depth + bounces <= max_depth + 1,
    decreases max_depth + 1 - depth,
{
    if depth <= max_depth && bounces > 0 {
        let step = choose|step: Reflection| #[trigger]
            reflects(scene, bounce, shade, ray, out, step) && casts(
                scene,
                bounce,
                shade,
                step.onward(),
                depth + 1,
                max_depth,
                (bounces - 1) as nat,
                step.below,
            );
        lemma_bounces_bounded(
            scene,
            bounce,
            shade,
            step.onward(),
            depth + 1,
            max_depth,
            (bounces - 1) as nat,
            step.below,
        );
    }
}

/// Where the arithmetic has one answer to each question, a cast has one
/// result: two casts of the same ray at the same depth return the same
/// colour after the same number of reflections.
pub proof fn lemma_cast_single_valued<
    O: Object,
    B: Fn(Vec3, Vec3) -> Vec3,
    S: Fn(Ray, Hit, Material, Light, Vec3) -> Vec3,
>(
    scene: &Scene<O>,
    bounce: &B,
    shade: &S,
    ray: Ray,
    depth: nat,
    max_depth: nat,
    first: (nat, Option<Vec3>),
    second: (nat, Option<Vec3>),
)
    requires
        scene.single_valued(),
        forall|d: Vec3, n: Vec3, a: Vec3, b: Vec3|
            #[trigger] bounce.ensures((d, n), a) && #[trigger] bounce.ensures((d, n), b) ==> a == b,
        forall|r: Ray, h: Hit, m: Material, l: Light, c: Vec3, a: Vec3, b: Vec3|
            #[trigger] shade.ensures((r, h, m, l, c), a) && #[trigger] shade.ensures(
                (r, h, m, l, c),
                b,
            ) ==> a == b,
        casts(scene, bounce, shade, ray, depth, max_depth, first.0, first.1),
        casts(scene, bounce, shade, ray, depth, max_depth, second.0, second.1),
    ensures
        first == second,
    decreases max_depth + 1 - depth,
{
    if depth <= max_depth {
        if first.0 > 0 && second.0 > 0 {
            let one = choose|step: Reflection| #[trigger]
                reflects(scene, bounce, shade, ray, first.1, step) && casts(
                    scene,
                    bounce,
                    shade,
                    step.onward(),
                    depth + 1,
                    max_depth,
                    (first.0 - 1) as nat,
                    step.below,
                );
            let two = choose|step: Reflection| #[trigger]
                reflects(scene, bounce, shade, ray, second.1, step) && casts(
                    scene,
                    bounce,
                    shade,
                    step.onward(),
                    depth + 1,
                    max_depth,
                    (second.0 - 1) as nat,
                    step.below,
                );
            scene.lemma_strikes_single_valued(
                ray,
                Some((one.hit, one.material)),
                Some((two.hit, two.material)),
            );
            lemma_cast_single_valued(
                scene,
                bounce,
                shade,
                one.onward(),
                depth + 1,
                max_depth,
                ((first.0 - 1) as nat, one.below),
                ((second.0 - 1) as nat, two.below),
            );
        } else if first.0 > 0 {
            let one = choose|step: Reflection| #[trigger]
                reflects(scene, bounce, shade, ray, first.1, step) && casts(
                    scene,
                    bounce,
                    shade,
                    step.onward(),
                    depth + 1,
                    max_depth,
                    (first.0 - 1) as nat,
                    step.below,
                );
            scene.lemma_strikes_single_valued(ray, Some((one.hit, one.material)), None);
        } else if second.0 > 0 {
            let two = choose|step: Reflection| #[trigger]
                reflects(scene, bounce, shade, ray, second.1, step) && casts(
                    scene,
                    bounce,
                    shade,
                    step.onward(),
                    depth + 1,
                    max_depth,
                    (second.0 - 1) as nat,
                    step.below,
                );
            scene.lemma_strikes_single_valued(ray, Some((two.hit, two.material)), None);
        }
    }
}

/// The colour that a pixel shows: what the cast returned, else the
/// background.
pub open spec fn shown(color: Option<Vec3>, background: Option<Vec3>) -> Option<Vec3> {
    match color {
        Some(c) => Some(c),
        None => background,
    }
}

/// `word` stores `color`: it packs a quantisation of it.
pub open spec fn stores<Q: Fn(Scalar) -> u8>(word: u32, color: Vec3, scale: &Q) -> bool {
    exists|rgb: Rgb| #[trigger] rgb.quantises(color, *scale) && word == rgb.packed()
}

/// What the rendering of one pixel went through: the primary ray, the
/// reflections that its cast followed, the colour that came back and
/// the quantised colour handed to the surface.
pub struct Trace {
    pub ray: Ray,
    pub bounces: nat,
    pub color: Option<Vec3>,
    pub stored: Option<Rgb>,
}

/// `trace` is a rendering of pixel `(x, y)` in a viewport of dimensions
/// `dims`: its ray is a primary ray of the pixel, its colour what a cast
/// of that ray from depth 0 to `MAX_DEPTH` returns, and what it stores is
/// that colour, or else the background, quantised channel by channel;
/// nothing where both are missing.
pub open spec fn sampled<
    O: Object,
    D: Fn(Scalar, usize, usize, usize, usize) -> Vec3,
    B: Fn(Vec3, Vec3) -> Vec3,
    S: Fn(Ray, Hit, Material, Light, Vec3) -> Vec3,
    Q: Fn(Scalar) -> u8,
>(
    scene: &Scene<O>,
    direction: &D,
    bounce: &B,
    shade: &S,
    scale: &Q,
    dims: (usize, usize),
    x: int,
    y: int,
    trace: Trace,
) -> bool {
    &&& primary(scene.camera, x as usize, y as usize, dims.0, dims.1, *direction, trace.ray)
    &&& casts(scene, bounce, shade, trace.ray, 0, MAX_DEPTH as nat, trace.bounces, trace.color)
    &&& match shown(trace.color, scene.background) {
        Some(color) => trace.stored is Some && trace.stored.unwrap().quantises(color, *scale),
        None => trace.stored is None,
    }
}

/// A rendering of pixel `(x, y)` may have changed its word from `before`
/// to `after`.
pub open spec fn rendered<
    O: Object,
    D: Fn(Scalar, usize, usize, usize, usize) -> Vec3,
    B: Fn(Vec3, Vec3) -> Vec3,
    S: Fn(Ray, Hit, Material, Light, Vec3) -> Vec3,
    Q: Fn(Scalar) -> u8,
>(
    scene: &Scene<O>,
    direction: &D,
    bounce: &B,
    shade: &S,
    scale: &Q,
    dims: (usize, usize),
    x: int,
    y: int,
    before: u32,
    after: u32,
) -> bool {
    exists|trace: Trace| #[trigger]
        sampled(scene, direction, bounce, shade, scale, dims, x, y, trace) && after == written(
            before,
            trace.stored,
        )
}

/// In a scene without objects every ray strikes nothing.
pub proof fn lemma_empty_scene_strikes_nothing<O: Object>(
    scene: &Scene<O>,
    ray: Ray,
    struck: Option<(Hit, Material)>,
)
    requires
        scene.objects@.len() == 0,
        scene.strikes(ray, struck),
    ensures
        struck is None,
{
    let hits = choose|hits: Seq<Option<Hit>>| #[trigger]
        scene.answers(ray, hits) && struck == scene.chosen(hits);
    assert(forall|i: int| !wins(hits, i));
}

/// With no object in the scene and a background colour, every rendering
/// of a pixel stores the background, quantised.
pub proof fn lemma_empty_scene_renders_background<
    O: Object,
    D: Fn(Scalar, usize, usize, usize, usize) -> Vec3,
    B: Fn(Vec3, Vec3) -> Vec3,
    S: Fn(Ray, Hit, Material, Light, Vec3) -> Vec3,
    Q: Fn(Scalar) -> u8,
>(
    scene: &Scene<O>,
    direction: &D,
    bounce: &B,
    shade: &S,
    scale: &Q,
    dims: (usize, usize),
    x: int,
    y: int,
    before: u32,
    after: u32,
)
    requires
        scene.objects@.len() == 0,
        scene.background is Some,
        rendered(scene, direction, bounce, shade, scale, dims, x, y, before, after),
    ensures
        stores(after, scene.background.unwrap(), scale),
{
    let trace = choose|trace: Trace| #[trigger]
        sampled(scene, direction, bounce, shade, scale, dims, x, y, trace) && after == written(
            before,
            trace.stored,
        );
    if trace.bounces > 0 {
        let step = choose|step: Reflection| #[trigger]
            reflects(scene, bounce, shade, trace.ray, trace.color, step) && casts(
                scene,
                bounce,
                shade,
                step.onward(),
                1,
                MAX_DEPTH as nat,
                (trace.bounces - 1) as nat,
                step.below,
            );
        lemma_empty_scene_strikes_nothing(scene, trace.ray, Some((step.hit, step.material)));
    }
    assert(trace.color == scene.background);
    let rgb = trace.stored.unwrap();
    assert(rgb.quantises(scene.background.unwrap(), *scale) && after == rgb.packed());
}

/// Renders into a borrowed output surface.
pub struct Raytracer<'a> {
    pub framebuffer: &'a mut Framebuffer,
}

impl<'a> Raytracer<'a> {
    pub fn new(framebuffer: &'a mut Framebuffer) -> (tracer: Self)
        ensures
            *tracer.framebuffer == *old(framebuffer),
            *final(tracer.framebuffer) == *final(framebuffer),
    {
        Raytracer { framebuffer }
    }

    /// The ray from the camera through pixel `(x, y)` of a `w` by `h`
    /// viewport. `direction` computes its unit direction from the field of
    /// view, the pixel and the viewport.
    pub fn primary_ray<D: Fn(Scalar, usize, usize, usize, usize) -> Vec3>(
        camera: &Camera,
        x: usize,
        y: usize,
        w: usize,
        h: usize,
        direction: &D,
    ) -> (ray: Ray)
        requires
            forall|fov: Scalar, px: usize, py: usize, pw: usize, ph: usize| #[trigger]
                direction.requires((fov, px, py, pw, ph)),
        ensures
            primary(*camera, x, y, w, h, *direction, ray),
    {
        Ray { origin: camera.origin(), direction: direction(camera.fov(), x, y, w, h) }
    }

    /// The colour that `ray` brings back from the scene, `None` where it
    /// brings none. `depth` counts the reflections already taken; beyond
    /// `max_depth` no surface is looked for.
    ///
    /// Of the lights only the first enters the shading, so a scene with
    /// an object needs a light.
    pub fn cast<O: Object, B: Fn(Vec3, Vec3) -> Vec3, S: Fn(Ray, Hit, Material, Light, Vec3) -> Vec3>(
        ray: &Ray,
        scene: &Scene<O>,
        depth: usize,
        max_depth: usize,
        bounce: &B,
        shade: &S,
    ) -> (out: Option<Vec3>)
        requires
            scene.lights@.len() > 0 || scene.objects@.len() == 0,
            forall|d: Vec3, n: Vec3| #[trigger] bounce.requires((d, n)),
            forall|r: Ray, h: Hit, m: Material, l: Light, c: Vec3| #[trigger]
                shade.requires((r, h, m, l, c)),
        ensures
            exists|bounces: nat| #[trigger]
                casts(scene, bounce, shade, *ray, depth as nat, max_depth as nat, bounces, out),
            depth > max_depth || scene.objects@.len() == 0 ==> out == scene.background,
            out is None ==> scene.background is None,
        decreases max_depth + 1 - depth,
    {
        if depth > max_depth {
            assert(casts(scene, bounce, shade, *ray, depth as nat, max_depth as nat, 0, scene.background));
            return scene.background;
        }
        let struck: Option<(Hit, Material)> = scene.intersect(ray);
        match struck {
            None => {
                assert(casts(
                    scene,
                    bounce,
                    shade,
                    *ray,
                    depth as nat,
                    max_depth as nat,
                    0,
                    scene.background,
                ));
                scene.background
            },
            Some((hit, material)) => {
                let direction: Vec3 = bounce(ray.direction, hit.normal);
                let next = Ray { origin: hit.point, direction };
                let ghost mut taken: nat = 0;
                let ghost deeper: nat = (depth + 1) as nat;
                let below: Option<Vec3> = if depth < max_depth {
                    let below = Self::cast(&next, scene, depth + 1, max_depth, bounce, shade);
                    proof {
                        taken = choose|bounces: nat| #[trigger]
                            casts(scene, bounce, shade, next, deeper, max_depth as nat, bounces, below);
                    }
                    below
                } else {
                    scene.background
                };
                let light: Light = scene.lights[0];
                let incoming: Vec3 = match below {
                    Some(color) => color,
                    None => Vec3::zero(),
                };
                let color: Vec3 = shade(*ray, hit, material, light, incoming);
                let ghost step = Reflection { hit, material, direction, below, color };
                assert(casts(
                    scene,
                    bounce,
                    shade,
                    step.onward(),
                    deeper,
                    max_depth as nat,
                    taken,
                    below,
                ));
                assert(reflects(scene, bounce, shade, *ray, Some(color), step));
                assert(casts(
                    scene,
                    bounce,
                    shade,
                    *ray,
                    depth as nat,
                    max_depth as nat,
                    taken + 1,
                    Some(color),
                ));
                Some(color)
            },
        }
    }

    /// Calls `f` once for every pixel in raster order, with the position
    /// and the dimensions of the surface, and stores the colour that it
    /// returns; a pixel for which it returns `None` keeps its word.
    pub fn draw<F: Fn(nalgebra::Vector2<usize>, (usize, usize)) -> Option<Rgb>>(&mut self, f: F)
        requires
            forall|pos: nalgebra::Vector2<usize>, dims: (usize, usize)| #[trigger]
                f.requires((pos, dims)),
        ensures
            final(self).framebuffer.spec_width() == old(self).framebuffer.spec_width(),
            final(self).framebuffer.spec_height() == old(self).framebuffer.spec_height(),
            final(self).framebuffer@.len() == old(self).framebuffer@.len(),
            forall|x: int, y: int|
                0 <= x < old(self).framebuffer.spec_width() && 0 <= y < old(self).framebuffer.spec_height() ==> painted(
                    f,
                    (old(self).framebuffer.spec_width(), old(self).framebuffer.spec_height()),
                    x,
                    y,
                    old(self).framebuffer.pixel(x, y),
                    #[trigger] final(self).framebuffer.pixel(x, y),
                ),
            *final(final(self).framebuffer) == *final(old(self).framebuffer),
    {
        paint(self.framebuffer, &f);
    }

    /// Renders the scene: for every pixel in raster order, casts the
    /// primary ray with `MAX_DEPTH` reflections and stores the colour
    /// that comes back, or else the background; a pixel with neither
    /// keeps its word.
    ///
    /// The arithmetic comes from the caller: `direction` gives the unit
    /// direction of a primary ray from the field of view, the pixel and
    /// the viewport; `bounce` the unit direction of a reflected ray from
    /// the incoming direction and the normal; `shade` the colour of a
    /// surface from the ray, the hit, the material, the first light and
    /// the reflected colour; `scale` the eight bits of a channel that lies between zero and one.
    pub fn draw_scene<
        O: Object,
        D: Fn(Scalar, usize, usize, usize, usize) -> Vec3,
        B: Fn(Vec3, Vec3) -> Vec3,
        S: Fn(Ray, Hit, Material, Light, Vec3) -> Vec3,
        Q: Fn(Scalar) -> u8,
    >(&mut self, scene: &Scene<O>, direction: &D, bounce: &B, shade: &S, scale: &Q)
        requires
            scene.lights@.len() > 0 || scene.objects@.len() == 0,
            forall|fov: Scalar, px: usize, py: usize, pw: usize, ph: usize| #[trigger]
                direction.requires((fov, px, py, pw, ph)),
            forall|d: Vec3, n: Vec3| #[trigger] bounce.requires((d, n)),
            forall|r: Ray, h: Hit, m: Material, l: Light, c: Vec3| #[trigger]
                shade.requires((r, h, m, l, c)),
            forall|c: Scalar| #[trigger] scale.requires((c,)),
        ensures
            final(self).framebuffer.spec_width() == old(self).framebuffer.spec_width(),
            final(self).framebuffer.spec_height() == old(self).framebuffer.spec_height(),
            final(self).framebuffer@.len() == old(self).framebuffer@.len(),
            forall|x: int, y: int|
                0 <= x < old(self).framebuffer.spec_width() && 0 <= y < old(self).framebuffer.spec_height() ==> rendered(
                    scene,
                    direction,
                    bounce,
                    shade,
                    scale,
                    (old(self).framebuffer.spec_width(), old(self).framebuffer.spec_height()),
                    x,
                    y,
                    old(self).framebuffer.pixel(x, y),
                    #[trigger] final(self).framebuffer.pixel(x, y),
                ),
            scene.objects@.len() == 0 && scene.background is Some ==> forall|x: int, y: int|
                0 <= x < old(self).framebuffer.spec_width() && 0 <= y < old(
                    self,
                ).framebuffer.spec_height() ==> stores(
                    #[trigger] final(self).framebuffer.pixel(x, y),
                    scene.background.unwrap(),
                    scale,
                ),
            *final(final(self).framebuffer) == *final(old(self).framebuffer),
    {
        let ghost width = self.framebuffer.spec_width();
        let ghost height = self.framebuffer.spec_height();
        let f = |pos: nalgebra::Vector2<usize>, dims: (usize, usize)| -> (out: Option<Rgb>)
            ensures
                exists|trace: Trace| #[trigger]
                    sampled(
                        scene,
                        direction,
                        bounce,
                        shade,
                        scale,
                        dims,
                        column(pos),
                        row(pos),
                        trace,
                    ) && trace.stored == out,
            {
                let x: usize = component(&pos, 0);
                let y: usize = component(&pos, 1);
                let ray: Ray = Self::primary_ray(&scene.camera, x, y, dims.0, dims.1, direction);
                let color: Option<Vec3> = Self::cast(&ray, scene, 0, MAX_DEPTH, bounce, shade);
                let ghost bounces = choose|bounces: nat| #[trigger]
                    casts(scene, bounce, shade, ray, 0, MAX_DEPTH as nat, bounces, color);
                let visible: Option<Vec3> = match color {
                    Some(c) => Some(c),
                    None => scene.background,
                };
                let out: Option<Rgb> = match visible {
                    Some(c) => Some(Rgb::from_vec3(c, scale)),
                    None => None,
                };
                assert(sampled(
                    scene,
                    direction,
                    bounce,
                    shade,
                    scale,
                    dims,
                    column(pos),
                    row(pos),
                    Trace { ray, bounces, color, stored: out },
                ));
                out
            };
        self.draw(f);
        proof {
            assert forall|x: int, y: int| 0 <= x < width && 0 <= y < height implies rendered(
                scene,
                direction,
                bounce,
                shade,
                scale,
                (width, height),
                x,
                y,
                old(self).framebuffer.pixel(x, y),
                #[trigger] self.framebuffer.pixel(x, y),
            ) by {
                let before = old(self).framebuffer.pixel(x, y);
                let after = self.framebuffer.pixel(x, y);
                let (pos, out) = choose|pos: nalgebra::Vector2<usize>, out: Option<Rgb>|
                    column(pos) == x && row(pos) == y && #[trigger] f.ensures(
                        (pos, (width, height)),
                        out,
                    ) && after == written(before, out);
                let trace = choose|trace: Trace| #[trigger]
                    sampled(
                        scene,
                        direction,
                        bounce,
                        shade,
                        scale,
                        (width, height),
                        column(pos),
                        row(pos),
                        trace,
                    ) && trace.stored == out;
                assert(sampled(
                    scene,
                    direction,
                    bounce,
                    shade,
                    scale,
                    (width, height),
                    x,
                    y,
                    trace,
                ));
            }
            if scene.objects@.len() == 0 && scene.background is Some {
                assert forall|x: int, y: int| 0 <= x < width && 0 <= y < height implies stores(
                    #[trigger] self.framebuffer.pixel(x, y),
                    scene.background.unwrap(),
                    scale,
                ) by {
                    lemma_empty_scene_renders_background(
                        scene,
                        direction,
                        bounce,
                        shade,
                        scale,
                        (width, height),
                        x,
                        y,
                        old(self).framebuffer.pixel(x, y),
                        self.framebuffer.pixel(x, y),
                    );
                }
            }
        }
    }
}

} // verus!
