use aurora::hittable::HitRecord;
use aurora::material::Material;
use aurora::ray::Ray;
use aurora::vector::{Scalar, Vector3};

fn num(x: f64) -> Scalar {
    Scalar::from_bits(x.to_bits())
}

fn value(s: Scalar) -> f64 {
    f64::from_bits(s.to_bits())
}

fn vector(x: f64, y: f64, z: f64) -> Vector3 {
    Vector3::new(num(x), num(y), num(z))
}

fn hit_on(material: Material) -> HitRecord {
    HitRecord {
        point: vector(1., 2., 3.),
        outward_normal: vector(0., 1., 0.),
        t: num(4.),
        front_face: true,
        material,
    }
}

#[test]
fn test_scatter_lambertian() {
    let lambertian = Material::Lambertian {
        albedo: vector(1., 2., 1.),
    };
    let hit = hit_on(lambertian);
    let (attenuation, scattered) = lambertian.scatter(&hit, vector(0.3, 1.4, -0.2), num(1.4)).unwrap();
    assert_eq!(attenuation, vector(1., 2., 1.));
    assert_eq!(scattered, Ray::new(vector(1., 2., 3.), vector(0.3, 1.4, -0.2)));
}

#[test]
fn lambertian_falls_back_to_the_normal() {
    let lambertian = Material::Lambertian { albedo: vector(0.5, 0.5, 0.5) };
    let hit = hit_on(lambertian);
    let (_, scattered) = lambertian.scatter(&hit, vector(1e-9, -1e-9, 0.0), num(-1e-9)).unwrap();
    assert_eq!(scattered.direction, vector(0., 1., 0.));
    let (_, scattered) = lambertian.scatter(&hit, vector(1e-9, -1e-9, 1e-8), num(-1e-9)).unwrap();
    assert_eq!(scattered.direction, vector(1e-9, -1e-9, 1e-8));
}

#[test]
fn lambertian_scatters_whatever_the_alignment() {
    let lambertian = Material::Lambertian { albedo: vector(0.1, 0.2, 0.3) };
    let hit = hit_on(lambertian);
    for alignment in [-1.0, 0.0, 1.0, f64::NAN] {
        assert!(lambertian.scatter(&hit, vector(0.0, -1.0, 0.0), num(alignment)).is_some());
    }
}

#[test]
fn metal_absorbs_what_enters_the_surface() {
    let metal = Material::Metal { albedo: vector(0.8, 0.6, 0.2), fuzz: num(0.3) };
    let hit = hit_on(metal);
    let (attenuation, scattered) = metal.scatter(&hit, vector(0.6, 0.8, 0.), num(0.8)).unwrap();
    assert_eq!(attenuation, vector(0.8, 0.6, 0.2));
    assert_eq!(scattered, Ray::new(vector(1., 2., 3.), vector(0.6, 0.8, 0.)));
    assert_eq!(metal.scatter(&hit, vector(0.6, -0.8, 0.), num(-0.8)), None);
    assert_eq!(metal.scatter(&hit, vector(1., 0., 0.), num(0.0)), None);
    assert_eq!(metal.scatter(&hit, vector(1., 0., 0.), num(-0.0)), None);
    assert_eq!(metal.scatter(&hit, vector(1., 0., 0.), num(f64::NAN)), None);
    assert!(metal.scatter(&hit, vector(1., 5e-324, 0.), num(5e-324)).is_some());
}

#[test]
fn test_reflectance() {
    // a clear material hands on all light, reflected or refracted
    let glass = Material::Dielectric { refractive_index: num(1.5) };
    let hit = hit_on(glass);
    for (direction, alignment) in [(vector(0., 1., 0.), 1.0), (vector(0.2, -0.9, 0.1), -0.9)] {
        let (attenuation, scattered) = glass.scatter(&hit, direction, num(alignment)).unwrap();
        assert_eq!(attenuation, vector(1., 1., 1.));
        assert_eq!(scattered, Ray::new(vector(1., 2., 3.), direction));
    }
    match glass {
        Material::Dielectric { refractive_index } => assert_eq!(value(refractive_index), 1.5),
        _ => panic!("a clear material stays clear"),
    }
}
