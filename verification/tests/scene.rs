use aurora::hittable::{HitRecord, Hittable, HittableList};
use aurora::material::Material;
use aurora::ray::Ray;
use aurora::vector::{Scalar, Vector3};
use std::ops::Range;

fn num(x: f64) -> Scalar {
    Scalar::from_bits(x.to_bits())
}

fn value(s: Scalar) -> f64 {
    f64::from_bits(s.to_bits())
}

fn vector(x: f64, y: f64, z: f64) -> Vector3 {
    Vector3::new(num(x), num(y), num(z))
}

/// A plane across the z axis at distance `depth` from the origin, told from
/// others by its `shade`.
struct Plate {
    depth: f64,
    shade: f64,
}

impl Hittable for Plate {
    fn hit_spec(&self, ray: Ray, interval: Range<Scalar>) -> Option<HitRecord> {
        self.hit(&ray, interval)
    }

    fn hit(&self, ray: &Ray, interval: Range<Scalar>) -> Option<HitRecord> {
        let t = self.depth / -value(ray.direction.z);
        if value(interval.start) < t && t < value(interval.end) {
            Some(HitRecord {
                point: vector(0.0, 0.0, -self.depth),
                outward_normal: vector(0.0, 0.0, 1.0),
                t: num(t),
                front_face: true,
                material: Material::Lambertian { albedo: vector(self.shade, self.shade, self.shade) },
            })
        } else {
            None
        }
    }
}

fn plates(depths: &[f64]) -> HittableList {
    let mut world = HittableList { objects: vec![] };
    for (i, depth) in depths.iter().enumerate() {
        world.objects.push(Box::new(Plate { depth: *depth, shade: i as f64 }));
    }
    world
}

fn forward() -> Ray {
    Ray::new(vector(0.0, 0.0, 0.0), vector(0.0, 0.0, -1.0))
}

/// The depth of the plate that was hit, and its place in the scene.
fn found(world: &HittableList, start: f64, end: f64) -> Option<(f64, usize)> {
    world.hit(&forward(), num(start)..num(end)).map(|record| match record.material {
        Material::Lambertian { albedo } => (value(record.t), value(albedo.x) as usize),
        _ => panic!("plates are diffuse"),
    })
}

#[test]
fn sweep_keeps_the_nearest_plate() {
    let world = plates(&[3.0, 1.5, 2.0]);
    assert_eq!(found(&world, 0.001, f64::INFINITY), Some((1.5, 1)));
}

#[test]
fn nearest_plate_wins_in_any_order() {
    for depths in [[1.0, 2.0, 3.0], [3.0, 2.0, 1.0], [2.0, 1.0, 3.0], [2.0, 3.0, 1.0]] {
        let nearest = depths.iter().position(|d| *d == 1.0).unwrap();
        assert_eq!(found(&plates(&depths), 0.001, f64::INFINITY), Some((1.0, nearest)));
    }
}

#[test]
fn empty_scene_has_no_hit() {
    assert_eq!(found(&plates(&[]), 0.001, f64::INFINITY), None);
}

#[test]
fn later_plate_is_searched_below_the_nearest_so_far() {
    // the second plate lies behind the first and is no longer seen
    assert_eq!(found(&plates(&[1.0, 4.0]), 0.001, f64::INFINITY), Some((1.0, 0)));
}

#[test]
fn plates_outside_the_interval_are_missed() {
    let world = plates(&[0.5, 9.0]);
    assert_eq!(found(&world, 1.0, 5.0), None);
    assert_eq!(found(&world, 1.0, 10.0), Some((9.0, 1)));
    assert_eq!(found(&world, 0.1, 10.0), Some((0.5, 0)));
}

#[test]
fn hit_on_the_boundary_is_rejected() {
    let world = plates(&[2.0]);
    assert_eq!(found(&world, 2.0, 5.0), None);
    assert_eq!(found(&world, 1.0, 2.0), None);
    assert_eq!(found(&world, 1.0, 2.0000000000000004), Some((2.0, 0)));
}

#[test]
fn equal_parameters_keep_the_first_found() {
    assert_eq!(found(&plates(&[2.0, 2.0, 2.0]), 0.001, f64::INFINITY), Some((2.0, 0)));
    assert_eq!(found(&plates(&[5.0, 2.0, 2.0]), 0.001, f64::INFINITY), Some((2.0, 1)));
}

#[test]
fn record_is_handed_on_as_the_member_made_it() {
    let record = plates(&[2.0]).hit(&forward(), num(0.001)..num(f64::INFINITY)).unwrap();
    assert_eq!(record.point, vector(0.0, 0.0, -2.0));
    assert_eq!(record.outward_normal, vector(0.0, 0.0, 1.0));
    assert!(record.front_face);
}
