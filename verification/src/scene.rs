//! What is rendered: camera, lights, materials and the objects a ray may
//! strike, with the query for the nearest object along a ray.

use vstd::prelude::*;
use crate::raytracer::Ray;
use crate::scalar::{Scalar, PI_BITS};
use crate::vector::Vec3;

verus! {

/// Bit pattern of sixty degrees in radians, the default field of view.
pub const DEFAULT_FOV_BITS: u32 = 0x3F86_0A92;

/// Why a camera or a sphere was refused at construction.
#[derive(Clone, Copy, Debug, PartialEq, Eq, Structural)]
pub enum GeometryError {
    /// The field of view is not strictly between zero and the circle
    /// constant.
    FieldOfView,
    /// The radius is not strictly positive.
    Radius,
}

/// The viewpoint: it looks down the negative z axis from `origin`.
#[derive(Clone, Copy, Debug)]
pub struct Camera {
    origin: Vec3,
    fov: Scalar,
}

/// A field of view strictly between zero and the circle constant.
pub open spec fn valid_fov(fov: Scalar) -> bool {
    Scalar::zero_spec().below(fov) && fov.below(Scalar { bits: PI_BITS })
}

impl Camera {
    #[verifier::type_invariant]
    spec fn well_formed(self) -> bool {
        valid_fov(self.fov)
    }

    pub closed spec fn spec_origin(self) -> Vec3 {
        self.origin
    }

    pub closed spec fn spec_fov(self) -> Scalar {
        self.fov
    }

    /// A camera at `origin` with the field of view `fov`, in radians;
    /// refused unless `0 < fov < pi`.
    pub fn new(origin: Vec3, fov: Scalar) -> (made: Result<Camera, GeometryError>)
        ensures
            valid_fov(fov) ==> (made matches Ok(camera) && camera.spec_origin() == origin
                && camera.spec_fov() == fov),
            !valid_fov(fov) ==> made == Err::<Camera, GeometryError>(GeometryError::FieldOfView),
    {
        if Scalar::zero().lt(fov) && fov.lt(Scalar::pi()) {
            Ok(Camera { origin, fov })
        } else {
            Err(GeometryError::FieldOfView)
        }
    }

    #[verifier::when_used_as_spec(spec_origin)]
    pub fn origin(self) -> (origin: Vec3)
        ensures
            origin == self.spec_origin(),
    {
        self.origin
    }

    #[verifier::when_used_as_spec(spec_fov)]
    pub fn fov(self) -> (fov: Scalar)
        ensures
            fov == self.spec_fov(),
            valid_fov(fov),
    {
        proof {
            use_type_invariant(&self);
        }
        self.fov
    }
}

/// A point light with a coefficient for each term of the Phong model.
#[derive(Clone, Copy, Debug, Default, PartialEq, Eq, Structural)]
pub struct Light {
    pub position: Vec3,
    pub ambient: Vec3,
    pub diffuse: Vec3,
    pub specular: Vec3,
}

/// How a surface answers light.
#[derive(Clone, Copy, Debug, Default, PartialEq, Eq, Structural)]
pub struct Material {
    pub ambient: Vec3,
    pub diffuse: Vec3,
    pub specular: Vec3,
    pub shininess: Scalar,
}

/// Where a ray meets a surface: the ray parameter, the point and the
/// outward unit normal there.
#[derive(Clone, Copy, Debug, Default, PartialEq, Eq, Structural)]
pub struct Hit {
    pub t: Scalar,
    pub point: Vec3,
    pub normal: Vec3,
}

/// A sphere of strictly positive radius.
#[derive(Clone, Copy, Debug)]
pub struct Sphere {
    center: Vec3,
    radius: Scalar,
}

/// A radius strictly above zero.
pub open spec fn valid_radius(radius: Scalar) -> bool {
    Scalar::zero_spec().below(radius)
}

impl Sphere {
    #[verifier::type_invariant]
    spec fn well_formed(self) -> bool {
        valid_radius(self.radius)
    }

    pub closed spec fn spec_center(self) -> Vec3 {
        self.center
    }

    pub closed spec fn spec_radius(self) -> Scalar {
        self.radius
    }

    /// The sphere about `center` with the given radius; refused unless
    /// the radius is strictly positive.
    pub fn new(center: Vec3, radius: Scalar) -> (made: Result<Sphere, GeometryError>)
        ensures
            valid_radius(radius) ==> (made matches Ok(sphere) && sphere.spec_center() == center
                && sphere.spec_radius() == radius),
            !valid_radius(radius) ==> made == Err::<Sphere, GeometryError>(GeometryError::Radius),
    {
        if Scalar::zero().lt(radius) {
            Ok(Sphere { center, radius })
        } else {
            Err(GeometryError::Radius)
        }
    }

    #[verifier::when_used_as_spec(spec_center)]
    pub fn center(self) -> (center: Vec3)
        ensures
            center == self.spec_center(),
    {
        self.center
    }

    #[verifier::when_used_as_spec(spec_radius)]
    pub fn radius(self) -> (radius: Scalar)
        ensures
            radius == self.spec_radius(),
            valid_radius(radius),
    {
        proof {
            use_type_invariant(&self);
        }
        self.radius
    }
}

/// Something a ray may strike.
pub trait Object {
    /// `out` is an answer that `intersect` may give for `ray`.
    open spec fn strikes(&self, ray: Ray, out: Option<Hit>) -> bool {
        true
    }

    /// Tests the ray against this object: `None` for a miss, else the
    /// hit at the smallest root.
    fn intersect(&self, ray: &Ray) -> (out: Option<Hit>)
        ensures
            self.strikes(*ray, out),
    ;
}

/// A sphere together with the arithmetic that tests it against a ray:
/// `discriminant` computes the discriminant `b^2 - 4ac` of the quadratic
/// in the ray parameter, `root` the hit at the smaller root.
pub struct Solid<D: Fn(Sphere, Ray) -> Scalar, R: Fn(Sphere, Ray) -> Hit> {
    sphere: Sphere,
    discriminant: D,
    root: R,
}

impl<D: Fn(Sphere, Ray) -> Scalar, R: Fn(Sphere, Ray) -> Hit> Solid<D, R> {
    #[verifier::type_invariant]
    spec fn well_formed(self) -> bool {
        forall|sphere: Sphere, ray: Ray|
            #![trigger self.discriminant.requires((sphere, ray))]
            #![trigger self.root.requires((sphere, ray))]
            self.discriminant.requires((sphere, ray)) && self.root.requires((sphere, ray))
    }

    pub closed spec fn spec_sphere(&self) -> Sphere {
        self.sphere
    }

    pub closed spec fn spec_discriminant(&self) -> D {
        self.discriminant
    }

    pub closed spec fn spec_root(&self) -> R {
        self.root
    }

    /// Joins a sphere and its arithmetic. Both functions must accept
    /// every sphere and ray.
    pub fn new(sphere: Sphere, discriminant: D, root: R) -> (solid: Self)
        requires
            forall|s: Sphere, ray: Ray| #[trigger] discriminant.requires((s, ray)),
            forall|s: Sphere, ray: Ray| #[trigger] root.requires((s, ray)),
        ensures
            solid.spec_sphere() == sphere,
            solid.spec_discriminant() == discriminant,
            solid.spec_root() == root,
    {
        Solid { sphere, discriminant, root }
    }

    #[verifier::when_used_as_spec(spec_sphere)]
    pub fn sphere(&self) -> (sphere: Sphere)
        ensures
            sphere == self.spec_sphere(),
    {
        self.sphere
    }
}

impl<D: Fn(Sphere, Ray) -> Scalar, R: Fn(Sphere, Ray) -> Hit> Object for Solid<D, R> {
    /// A discriminant at most zero, a tangent's or a miss's, gives no
    /// hit; any other, a NaN too, hands on the answer of `root`.
    open spec fn strikes(&self, ray: Ray, out: Option<Hit>) -> bool {
        exists|d: Scalar| #[trigger]
            self.spec_discriminant().ensures((self.spec_sphere(), ray), d) && if d.at_most(
                Scalar::zero_spec(),
            ) {
                out is None
            } else {
                out is Some && self.spec_root().ensures((self.spec_sphere(), ray), out.unwrap())
            }
    }

    fn intersect(&self, ray: &Ray) -> (out: Option<Hit>) {
        proof {
            use_type_invariant(self);
        }
        let d: Scalar = (self.discriminant)(self.sphere, *ray);
        assert(self.spec_discriminant().ensures((self.spec_sphere(), *ray), d));
        if d.le(Scalar::zero()) {
            None
        } else {
            let hit: Hit = (self.root)(self.sphere, *ray);
            assert(self.spec_root().ensures((self.spec_sphere(), *ray), hit));
            Some(hit)
        }
    }
}

/// Where the discriminant of the sphere and the ray is `d`, the sphere
/// is missed exactly if `d` is at most zero.
pub proof fn lemma_discriminant_decides<D: Fn(Sphere, Ray) -> Scalar, R: Fn(Sphere, Ray) -> Hit>(
    solid: &Solid<D, R>,
    ray: Ray,
    d: Scalar,
    out: Option<Hit>,
)
    requires
        forall|x: Scalar| #[trigger]
            solid.spec_discriminant().ensures((solid.spec_sphere(), ray), x) ==> x == d,
        solid.strikes(ray, out),
    ensures
        out is None <==> d.at_most(Scalar::zero_spec()),
{
}

/// A hit that takes part in the choice of the nearest: one at a
/// parameter that is not negative.
pub open spec fn candidate(hit: Option<Hit>) -> bool {
    hit matches Some(h) && Scalar::zero_spec().at_most(h.t)
}

/// Entry `i` is the nearest of the first `n` of `hits`: a candidate
/// strictly nearer than every candidate before it, with no candidate
/// after it strictly nearer.
pub open spec fn leads(hits: Seq<Option<Hit>>, n: int, i: int) -> bool {
    &&& 0 <= i < n <= hits.len()
    &&& candidate(hits[i])
    &&& forall|j: int|
        0 <= j < i && candidate(#[trigger] hits[j]) ==> hits[i].unwrap().t.below(hits[j].unwrap().t)
    &&& forall|j: int|
        i < j < n && candidate(#[trigger] hits[j]) ==> !hits[j].unwrap().t.below(hits[i].unwrap().t)
}

/// Entry `i` is the nearest of `hits`.
pub open spec fn wins(hits: Seq<Option<Hit>>, i: int) -> bool {
    leads(hits, hits.len() as int, i)
}

/// The index of the nearest candidate, the earliest of those at the
/// smallest parameter; `None` where there is no candidate.
pub open spec fn nearest_index(hits: Seq<Option<Hit>>) -> Option<int> {
    if exists|i: int| wins(hits, i) {
        Some(choose|i: int| wins(hits, i))
    } else {
        None
    }
}

/// At most one entry wins.
pub proof fn lemma_winner_unique(hits: Seq<Option<Hit>>, i: int, k: int)
    requires
        wins(hits, i),
        wins(hits, k),
    ensures
        i == k,
{
    if i < k {
        assert(candidate(hits[i]));
        assert(hits[k].unwrap().t.below(hits[i].unwrap().t));
        assert(candidate(hits[k]));
    } else if k < i {
        assert(candidate(hits[k]));
        assert(hits[i].unwrap().t.below(hits[k].unwrap().t));
        assert(candidate(hits[i]));
    }
}

/// The winner lies at the smallest parameter among the candidates.
pub proof fn lemma_winner_is_least(hits: Seq<Option<Hit>>, i: int, j: int)
    requires
        wins(hits, i),
        0 <= j < hits.len(),
        candidate(hits[j]),
    ensures
        hits[i].unwrap().t.at_most(hits[j].unwrap().t),
{
}

/// Two sequences with the same candidates, in whatever order, have
/// their nearest hits at the same parameter.
pub proof fn lemma_nearest_parameter_ignores_order(
    first: Seq<Option<Hit>>,
    second: Seq<Option<Hit>>,
    i: int,
    k: int,
)
    requires
        forall|j: int|
            0 <= j < first.len() && candidate(#[trigger] first[j]) ==> second.contains(first[j]),
        forall|j: int|
            0 <= j < second.len() && candidate(#[trigger] second[j]) ==> first.contains(second[j]),
        wins(first, i),
        wins(second, k),
    ensures
        first[i].unwrap().t.equal_value(second[k].unwrap().t),
{
    assert(second.contains(first[i]));
    let m = choose|m: int| 0 <= m < second.len() && second[m] == first[i];
    lemma_winner_is_least(second, k, m);
    assert(first.contains(second[k]));
    let n = choose|n: int| 0 <= n < first.len() && first[n] == second[k];
    lemma_winner_is_least(first, i, n);
}

/// Of two hits at different parameters, neither negative, the nearer
/// wins whichever comes first.
pub proof fn lemma_nearer_wins_either_order(near: Hit, far: Hit)
    requires
        candidate(Some(near)),
        candidate(Some(far)),
        near.t.below(far.t),
    ensures
        nearest_index(seq![Some(near), Some(far)]) == Some(0int),
        nearest_index(seq![Some(far), Some(near)]) == Some(1int),
{
    let forward = seq![Some(near), Some(far)];
    let backward = seq![Some(far), Some(near)];
    assert(wins(forward, 0));
    assert(wins(backward, 1));
    lemma_winner_unique(forward, 0, choose|i: int| wins(forward, i));
    lemma_winner_unique(backward, 1, choose|i: int| wins(backward, i));
}

/// Picks the nearest of the answers that the objects gave, by index.
pub fn nearest(hits: &Vec<Option<Hit>>) -> (best: Option<usize>)
    ensures
        best matches Some(i) ==> wins(hits@, i as int),
        best is None ==> forall|j: int| 0 <= j < hits@.len() ==> !candidate(#[trigger] hits@[j]),
        best is None <==> nearest_index(hits@) is None,
        best matches Some(i) ==> nearest_index(hits@) == Some(i as int),
{
    let mut best: Option<usize> = None;
    let mut i: usize = 0;
    while i < hits.len()
        invariant
            i <= hits@.len(),
            best matches Some(b) ==> leads(hits@, i as int, b as int),
            best is None ==> forall|j: int| 0 <= j < i ==> !candidate(#[trigger] hits@[j]),
        decreases hits@.len() - i,
    {
        if let Some(h) = hits[i] {
            if Scalar::zero().le(h.t) {
                match best {
                    None => {
                        best = Some(i);
                    },
                    Some(b) => {
                        let held: Hit = hits[b].unwrap();
                        if h.t.lt(held.t) {
                            best = Some(i);
                        }
                    },
                }
            }
        }
        i = i + 1;
    }
    proof {
        match best {
            Some(b) => {
                assert(wins(hits@, b as int));
                lemma_winner_unique(hits@, b as int, choose|k: int| wins(hits@, k));
            },
            None => {
                assert forall|k: int| !wins(hits@, k) by {
                    if 0 <= k < hits@.len() {
                        assert(!candidate(hits@[k]));
                    }
                }
            },
        }
    }
    best
}


/// The camera, the lights and the objects with their materials.
pub struct Scene<O> {
    pub camera: Camera,
    pub objects: Vec<(O, Material)>,
    pub lights: Vec<Light>,
    /// The colour of a ray that strikes nothing; `None` leaves such a
    /// pixel as it was.
    pub background: Option<Vec3>,
}

impl<O: Object> Scene<O> {
    /// `hits` may be the answers of the objects to `ray`, in insertion
    /// order.
    pub open spec fn answers(&self, ray: Ray, hits: Seq<Option<Hit>>) -> bool {
        &&& hits.len() == self.objects@.len()
        &&& forall|i: int|
            0 <= i < hits.len() ==> (#[trigger] self.objects@[i]).0.strikes(ray, hits[i])
    }

    /// The nearest of `hits`, with the material of the object that gave
    /// it.
    pub open spec fn chosen(&self, hits: Seq<Option<Hit>>) -> Option<(Hit, Material)> {
        match nearest_index(hits) {
            Some(i) => Some((hits[i].unwrap(), self.objects@[i].1)),
            None => None,
        }
    }

    /// `out` may be what `intersect` returns for `ray`: the nearest of
    /// some answers of the objects.
    pub open spec fn strikes(&self, ray: Ray, out: Option<(Hit, Material)>) -> bool {
        exists|hits: Seq<Option<Hit>>| #[trigger] self.answers(ray, hits) && out == self.chosen(hits)
    }

    /// No object of the scene has two answers to one ray.
    pub open spec fn single_valued(&self) -> bool {
        forall|i: int, ray: Ray, a: Option<Hit>, b: Option<Hit>|
            0 <= i < self.objects@.len() && #[trigger] self.objects@[i].0.strikes(ray, a)
                && #[trigger] self.objects@[i].0.strikes(ray, b) ==> a == b
    }

    /// Where every object has one answer to a ray, so has the scene.
    pub proof fn lemma_strikes_single_valued(
        &self,
        ray: Ray,
        a: Option<(Hit, Material)>,
        b: Option<(Hit, Material)>,
    )
        requires
            self.single_valued(),
            self.strikes(ray, a),
            self.strikes(ray, b),
        ensures
            a == b,
    {
        let first = choose|hits: Seq<Option<Hit>>| #[trigger]
            self.answers(ray, hits) && a == self.chosen(hits);
        let second = choose|hits: Seq<Option<Hit>>| #[trigger]
            self.answers(ray, hits) && b == self.chosen(hits);
        assert forall|i: int| 0 <= i < first.len() implies first[i] == second[i] by {
            assert(self.objects@[i].0.strikes(ray, first[i]));
            assert(self.objects@[i].0.strikes(ray, second[i]));
        }
        assert(first =~= second);
    }

    /// Two objects answer a ray at different parameters, neither
    /// negative: the scene returns the nearer hit with the material of
    /// its object, in whichever order the two were inserted.
    pub proof fn lemma_insertion_order_irrelevant(
        forward: &Scene<O>,
        backward: &Scene<O>,
        near: Hit,
        far: Hit,
    )
        requires
            forward.objects@.len() == 2,
            backward.objects@ == seq![forward.objects@[1], forward.objects@[0]],
            candidate(Some(near)),
            candidate(Some(far)),
            near.t.below(far.t),
        ensures
            forward.chosen(seq![Some(near), Some(far)]) == Some((near, forward.objects@[0].1)),
            backward.chosen(seq![Some(far), Some(near)]) == Some((near, forward.objects@[0].1)),
    {
        lemma_nearer_wins_either_order(near, far);
    }

    /// An empty scene seen from the origin with a field of view of
    /// sixty degrees.
    pub fn new() -> (scene: Self)
        ensures
            scene.camera.spec_origin() == Vec3::zero_spec(),
            scene.camera.spec_fov().bits == DEFAULT_FOV_BITS,
            scene.objects@.len() == 0,
            scene.lights@.len() == 0,
            scene.background is None,
    {
        let camera = Camera { origin: Vec3::zero(), fov: Scalar::from_bits(DEFAULT_FOV_BITS) };
        Scene { camera, objects: Vec::new(), lights: Vec::new(), background: None }
    }

    pub fn set_camera(&mut self, camera: Camera)
        ensures
            final(self).camera == camera,
            final(self).objects == old(self).objects,
            final(self).lights == old(self).lights,
            final(self).background == old(self).background,
    {
        self.camera = camera;
    }

    pub fn camera(&self) -> (camera: &Camera)
        ensures
            *camera == self.camera,
    {
        &self.camera
    }

    /// Appends an object with its material.
    pub fn add_object(&mut self, object: O, material: Material)
        ensures
            final(self).objects@ == old(self).objects@.push((object, material)),
            final(self).camera == old(self).camera,
            final(self).lights == old(self).lights,
            final(self).background == old(self).background,
    {
        self.objects.push((object, material));
    }

    pub fn objects(&self) -> (objects: &Vec<(O, Material)>)
        ensures
            objects@ == self.objects@,
    {
        &self.objects
    }

    pub fn lights(&self) -> (lights: &Vec<Light>)
        ensures
            lights@ == self.lights@,
    {
        &self.lights
    }

    pub fn lights_mut(&mut self) -> (lights: &mut Vec<Light>)
        ensures
            lights@ == old(self).lights@,
            final(self).lights@ == final(lights)@,
            final(self).camera == old(self).camera,
            final(self).objects == old(self).objects,
            final(self).background == old(self).background,
    {
        &mut self.lights
    }

    /// Appends a light.
    pub fn add_light(&mut self, light: Light)
        ensures
            final(self).lights@ == old(self).lights@.push(light),
            final(self).camera == old(self).camera,
            final(self).objects == old(self).objects,
            final(self).background == old(self).background,
    {
        self.lights.push(light);
    }

    /// Sets the colour of a ray that strikes nothing.
    pub fn set_background(&mut self, background: Option<Vec3>)
        ensures
            final(self).background == background,
            final(self).camera == old(self).camera,
            final(self).objects == old(self).objects,
            final(self).lights == old(self).lights,
    {
        self.background = background;
    }

    /// Tests `ray` against every object and returns the nearest hit at
    /// a parameter that is not negative, with the material of the object
    /// struck. Of hits at the same parameter the earliest inserted wins.
    pub fn intersect(&self, ray: &Ray) -> (out: Option<(Hit, Material)>)
        ensures
            self.strikes(*ray, out),
            self.objects@.len() == 0 ==> out is None,
    {
        let mut hits: Vec<Option<Hit>> = Vec::new();
        let mut i: usize = 0;
        while i < self.objects.len()
            invariant
                i <= self.objects@.len(),
                hits@.len() == i,
                forall|k: int|
                    0 <= k < i ==> (#[trigger] self.objects@[k]).0.strikes(*ray, hits@[k]),
            decreases self.objects@.len() - i,
        {
            let answer: Option<Hit> = self.objects[i].0.intersect(ray);
            hits.push(answer);
            i = i + 1;
        }
        assert(self.answers(*ray, hits@));
        match nearest(&hits) {
            Some(best) => {
                let hit: Hit = hits[best].unwrap();
                Some((hit, self.objects[best].1))
            },
            None => None,
        }
    }
}

} // verus!
