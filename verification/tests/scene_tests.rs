use raytracer::raytracer::Ray;
use raytracer::scalar::Scalar;
use raytracer::scene::{
    nearest, Camera, GeometryError, Hit, Light, Material, Object, Scene, Sphere, DEFAULT_FOV_BITS,
};
use raytracer::vector::Vec3;

fn scalar(x: f32) -> Scalar {
    Scalar::from_bits(x.to_bits())
}

fn v(x: f32, y: f32, z: f32) -> Vec3 {
    Vec3::new(scalar(x), scalar(y), scalar(z))
}

fn hit(t: f32) -> Option<Hit> {
    Some(Hit { t: scalar(t), point: v(t, 0.0, 0.0), normal: v(0.0, 1.0, 0.0) })
}

struct Plate {
    answer: Option<Hit>,
}

impl Object for Plate {
    fn intersect(&self, _ray: &Ray) -> Option<Hit> {
        self.answer
    }
}

#[test]
fn nearest_prefers_smaller_parameter() {
    assert_eq!(nearest(&vec![hit(4.0), hit(2.5)]), Some(1));
    assert_eq!(nearest(&vec![hit(2.5), hit(4.0)]), Some(0));
    assert_eq!(nearest(&vec![hit(9.0), hit(4.0), hit(6.0), hit(1.0), hit(3.0)]), Some(3));
}

#[test]
fn nearest_breaks_ties_by_insertion_order() {
    assert_eq!(nearest(&vec![hit(3.0), hit(3.0), hit(3.0)]), Some(0));
    assert_eq!(nearest(&vec![hit(5.0), hit(3.0), hit(3.0)]), Some(1));
    assert_eq!(nearest(&vec![hit(0.0), hit(-0.0)]), Some(0));
    assert_eq!(nearest(&vec![hit(-0.0), hit(0.0)]), Some(0));
}

#[test]
fn nearest_skips_misses_negative_and_nan() {
    assert_eq!(nearest(&vec![]), None);
    assert_eq!(nearest(&vec![None, None]), None);
    assert_eq!(nearest(&vec![hit(-1.0), hit(f32::NAN), None]), None);
    assert_eq!(nearest(&vec![hit(-1.0), hit(f32::NAN), None, hit(8.0)]), Some(3));
    assert_eq!(nearest(&vec![hit(8.0), hit(-1.0), hit(f32::NAN)]), Some(0));
    assert_eq!(nearest(&vec![hit(f32::INFINITY), hit(1.0e30)]), Some(1));
    assert_eq!(nearest(&vec![hit(f32::INFINITY)]), Some(0));
    assert_eq!(nearest(&vec![hit(f32::NEG_INFINITY)]), None);
    assert_eq!(nearest(&vec![hit(1.0), hit(0.0)]), Some(1));
}

#[test]
fn camera_needs_a_field_of_view_inside_the_half_turn() {
    let origin = v(1.0, 2.0, 3.0);
    let camera = Camera::new(origin, scalar(1.0)).unwrap();
    assert_eq!(camera.origin(), origin);
    assert_eq!(camera.fov(), scalar(1.0));
    assert!(Camera::new(origin, scalar(f32::MIN_POSITIVE)).is_ok());
    assert!(Camera::new(origin, scalar(3.1415925)).is_ok());
    for bad in [0.0, -0.0, -1.0, std::f32::consts::PI, 4.0, f32::INFINITY, f32::NAN, f32::NEG_INFINITY] {
        assert_eq!(Camera::new(origin, scalar(bad)).unwrap_err(), GeometryError::FieldOfView, "{bad}");
    }
}

#[test]
fn sphere_needs_a_positive_radius() {
    let center = v(0.0, -1.0, -5.0);
    let sphere = Sphere::new(center, scalar(2.0)).unwrap();
    assert_eq!(sphere.center(), center);
    assert_eq!(sphere.radius(), scalar(2.0));
    assert!(Sphere::new(center, scalar(f32::from_bits(1))).is_ok());
    assert!(Sphere::new(center, scalar(f32::INFINITY)).is_ok());
    for bad in [0.0, -0.0, -2.0, f32::NAN, f32::NEG_INFINITY] {
        assert_eq!(Sphere::new(center, scalar(bad)).unwrap_err(), GeometryError::Radius, "{bad}");
    }
}

#[test]
fn new_scene_is_empty_with_the_default_camera() {
    let scene: Scene<Plate> = Scene::new();
    assert_eq!(scene.camera().origin(), Vec3::zero());
    assert_eq!(scene.camera().fov().to_bits(), 60f32.to_radians().to_bits());
    assert_eq!(DEFAULT_FOV_BITS, 60f32.to_radians().to_bits());
    assert!(scene.objects().is_empty());
    assert!(scene.lights().is_empty());
    assert_eq!(scene.background, None);
}

#[test]
fn builder_appends_in_order() {
    let mut scene: Scene<Plate> = Scene::new();
    let dull = Material { ambient: v(0.1, 0.1, 0.1), ..Material::default() };
    let shiny = Material { shininess: scalar(0.9), ..Material::default() };
    scene.add_object(Plate { answer: hit(1.0) }, dull);
    scene.add_object(Plate { answer: None }, shiny);
    assert_eq!(scene.objects().len(), 2);
    assert_eq!(scene.objects()[0].0.answer, hit(1.0));
    assert_eq!(scene.objects()[0].1, dull);
    assert_eq!(scene.objects()[1].1, shiny);

    let sun = Light { position: v(0.0, 9.0, 0.0), ..Light::default() };
    let lamp = Light { position: v(1.0, 1.0, 1.0), ..Light::default() };
    scene.add_light(sun);
    scene.add_light(lamp);
    assert_eq!(*scene.lights(), vec![sun, lamp]);
    scene.lights_mut().remove(0);
    assert_eq!(*scene.lights(), vec![lamp]);

    let camera = Camera::new(v(0.0, 1.0, 0.0), scalar(0.5)).unwrap();
    scene.set_camera(camera);
    assert_eq!(scene.camera().origin(), v(0.0, 1.0, 0.0));
    assert_eq!(scene.camera().fov(), scalar(0.5));

    scene.set_background(Some(v(0.2, 0.7, 0.8)));
    assert_eq!(scene.background, Some(v(0.2, 0.7, 0.8)));
    assert_eq!(scene.objects().len(), 2);
    assert_eq!(scene.lights().len(), 1);
}

#[test]
fn intersect_returns_the_material_of_the_object_struck() {
    let mut scene: Scene<Plate> = Scene::new();
    let first = Material { shininess: scalar(0.1), ..Material::default() };
    let second = Material { shininess: scalar(0.2), ..Material::default() };
    let third = Material { shininess: scalar(0.3), ..Material::default() };
    scene.add_object(Plate { answer: hit(6.0) }, first);
    scene.add_object(Plate { answer: hit(2.0) }, second);
    scene.add_object(Plate { answer: hit(2.0) }, third);
    assert_eq!(scene.intersect(&Ray::default()), Some((hit(2.0).unwrap(), second)));
}
