use cgmath::{Angle, Deg, InnerSpace, Point3, Rad, Vector3};
use rand::distributions::{Distribution, Uniform};

use raytracer::color::Color;
use raytracer::frame::{convert_to_rgb8, pixel_count, pixel_index};
use raytracer::geo::{plane_hit, sphere_root, Root};
use raytracer::integrator::{intersect_objects, step, Step};
use raytracer::material::{in_unit_sphere, DiffuseLight, Lambertian, Material, Metal};
use raytracer::scalar::Scalar;

type Point = Point3<f32>;
type Vector = Vector3<f32>;

fn s(x: f32) -> Scalar {
    Scalar::from_bits(x.to_bits())
}

fn f(x: Scalar) -> f32 {
    f32::from_bits(x.to_bits())
}

fn bits(v: &Vector) -> raytracer::geo::Vector {
    raytracer::geo::Vector { x: s(v.x), y: s(v.y), z: s(v.z) }
}

/// A colour in floats, for the arithmetic.
#[derive(Debug, Clone, Copy, PartialEq)]
struct Rgba {
    r: f32,
    g: f32,
    b: f32,
    a: f32,
}

fn rgba(r: f32, g: f32, b: f32, a: f32) -> Rgba {
    Rgba { r, g, b, a }
}

fn from_color(c: Color) -> Rgba {
    rgba(f(c.r), f(c.g), f(c.b), f(c.a))
}

fn to_color(c: Rgba) -> Color {
    Color::new(s(c.r), s(c.g), s(c.b), s(c.a))
}

fn plus(x: Rgba, y: Rgba) -> Rgba {
    rgba(x.r + y.r, x.g + y.g, x.b + y.b, x.a)
}

fn times(x: Rgba, y: Rgba) -> Rgba {
    rgba(x.r * y.r, x.g * y.g, x.b * y.b, x.a)
}

fn scaled(x: Rgba, k: f32) -> Rgba {
    rgba(x.r * k, x.g * k, x.b * k, x.a)
}

fn saturated(x: Rgba) -> Rgba {
    from_color(to_color(x).saturate())
}

struct Ray {
    point: Point,
    direction: Vector,
}

enum Shape {
    Sphere { center: Point, radius: f32 },
    Plane { point: Point, normal: Vector },
}

enum Matter {
    Matte(Lambertian),
    Mirror(Metal),
    Light(DiffuseLight),
}

struct Surface {
    shape: Shape,
    matter: Matter,
}

fn intersect(shape: &Shape, ray: &Ray, t_min: f32, t_max: f32) -> Option<(Point, Vector, Vector)> {
    match shape {
        Shape::Sphere { center, radius } => {
            let oc = ray.point - center;
            let a = ray.direction.dot(ray.direction);
            let b = oc.dot(ray.direction);
            let c = oc.dot(oc) - radius * radius;
            let discriminant = b * b - a * c;
            let root = discriminant.sqrt();
            let near = (-b - root) / a;
            let far = (-b + root) / a;
            let t = match sphere_root(s(discriminant), s(near), s(far), s(t_min), s(t_max))? {
                Root::Near => near,
                Root::Far => far,
            };
            let hit = ray.point + ray.direction * t;
            Some((hit, (hit - center).normalize(), Vector::new(0.0, 0.0, 0.0)))
        }
        Shape::Plane { point, normal } => {
            let denominator = normal.dot(ray.direction);
            let t = (point - ray.point).dot(*normal) / denominator;
            if plane_hit(s(denominator), s(t), s(t_min), s(t_max)) {
                Some((ray.point + ray.direction * t, *normal, Vector::new(0.0, 0.0, 0.0)))
            } else {
                None
            }
        }
    }
}

fn random_in_unit_sphere() -> Vector {
    let between = Uniform::from(-1.0..1.0);
    let mut rng = rand::thread_rng();
    loop {
        let v = Vector { x: between.sample(&mut rng), y: between.sample(&mut rng), z: between.sample(&mut rng) };
        if in_unit_sphere(s(v.magnitude2())) {
            break v;
        }
    }
}

fn reflect(v: &Vector, normal: &Vector) -> Vector {
    v - 2.0 * v.dot(*normal) * normal
}

fn scatter(matter: &Matter, ray: &Ray, point: &Point, normal: &Vector) -> (Rgba, Ray) {
    match matter {
        Matter::Matte(m) => {
            let direction = (normal + random_in_unit_sphere()).normalize();
            (from_color(m.attenuation()), Ray { point: *point, direction })
        }
        Matter::Mirror(m) => {
            (from_color(m.attenuation()), Ray { point: *point, direction: reflect(&ray.direction, normal) })
        }
        Matter::Light(m) => {
            (from_color(m.attenuation()), Ray { point: *point, direction: reflect(&ray.direction, normal) })
        }
    }
}

fn emitted(matter: &Matter, uvw: &Vector, normal: &Vector) -> Rgba {
    from_color(match matter {
        Matter::Matte(m) => m.emitted(&bits(uvw), &bits(normal)),
        Matter::Mirror(m) => m.emitted(&bits(uvw), &bits(normal)),
        Matter::Light(m) => m.emitted(&bits(uvw), &bits(normal)),
    })
}

fn nearest<'a>(
    scene: &'a [Surface],
    ray: &Ray,
    t_min: f32,
    t_max: f32,
) -> Option<(&'a Surface, Point, Vector, Vector)> {
    let hits: Vec<Option<(Point, Vector, Vector)>> =
        scene.iter().map(|surface| intersect(&surface.shape, ray, t_min, t_max)).collect();
    let distances: Vec<Option<Scalar>> =
        hits.iter().map(|hit| hit.map(|(point, _, _)| s((point - ray.point).magnitude2()))).collect();
    let i = intersect_objects(&distances)?;
    let (point, normal, uvw) = hits[i]?;
    Some((&scene[i], point, normal, uvw))
}

fn sky(ray: &Ray) -> Rgba {
    let t = 0.5 * (ray.direction.normalize().y + 1.0);
    plus(scaled(rgba(0.02, 0.02, 0.1, 1.0), t), scaled(rgba(0.1, 0.1, 0.1, 1.0), 1.0 - t))
}

/// Traces a ray, noting in `trail` the depth of every call.
fn calc(ray: &Ray, t_min: f32, t_max: f32, scene: &[Surface], depth: u8, trail: &mut Vec<u8>) -> Rgba {
    trail.push(depth);
    let found = nearest(scene, ray, t_min, t_max);
    match (step(depth, s(t_max), found.is_some()), found) {
        (Step::Scatter { depth, t_min, t_max }, Some((surface, point, normal, uvw))) => {
            let glow = emitted(&surface.matter, &uvw, &normal);
            let (albedo, onward) = scatter(&surface.matter, ray, &point, &normal);
            plus(glow, times(albedo, calc(&onward, f(t_min), f(t_max), scene, depth, trail)))
        }
        (Step::Terminate, Some((surface, point, normal, uvw))) => {
            let glow = emitted(&surface.matter, &uvw, &normal);
            let (albedo, _) = scatter(&surface.matter, ray, &point, &normal);
            plus(glow, albedo)
        }
        _ => sky(ray),
    }
}

struct Camera {
    origin: Point,
    top_left_corner: Point,
    horizontal: Vector,
    vertical: Vector,
}

fn look(from: Point, to: Point, up: Vector, fov: Deg<f32>, aspect_ratio: f32) -> Camera {
    let half_height = (Rad::from(fov) / 2.0).tan();
    let half_width = aspect_ratio * half_height;
    let w = (from - to).normalize();
    let u = up.cross(w).normalize();
    let v = w.cross(u);
    Camera {
        origin: from,
        top_left_corner: from - half_width * u - half_height * v - w,
        horizontal: 2.0 * half_width * u,
        vertical: 2.0 * half_height * v,
    }
}

fn get_ray(camera: &Camera, u: f32, v: f32) -> Ray {
    Ray {
        point: camera.origin,
        direction: camera.top_left_corner + u * camera.horizontal + v * camera.vertical - camera.origin,
    }
}

/// The ray through the middle of a pixel.
fn pixel_ray(camera: &Camera, x: u32, y: u32, width: u32, height: u32) -> Ray {
    get_ray(camera, (x as f32 + 0.5) / width as f32, (y as f32 + 0.5) / height as f32)
}

/// One sample through the middle of each pixel.
fn render(width: u32, height: u32, scene: &[Surface], camera: &Camera) -> Vec<Rgba> {
    let size = pixel_count(width, height).unwrap();
    let mut image = vec![rgba(0.0, 0.0, 0.0, 1.0); size];
    for y in 0..height {
        for x in 0..width {
            let ray = pixel_ray(camera, x, y, width, height);
            let mut color = rgba(0.0, 0.0, 0.0, 1.0);
            let mut trail = Vec::new();
            let sample = saturated(calc(&ray, 0.0, f32::MAX, scene, 0, &mut trail));
            color = plus(color, sample);
            image[pixel_index(x, y, width, height)] = scaled(color, 1.0 / 1.0);
        }
    }
    image
}

fn some_rays() -> Vec<Ray> {
    let mut rays = Vec::new();
    for (px, py, pz) in [(0.0, 0.0, 0.0), (0.0, 25.0, 75.0), (-3.0, 1.0e3, 2.0)] {
        for (dx, dy, dz) in [
            (0.0, 1.0, 0.0),
            (0.0, -1.0, 0.0),
            (1.0, 0.0, 0.0),
            (0.3, 0.2, -0.9),
            (-5.0, -7.0, 11.0),
            (0.0, 1.0e-3, 1.0),
        ] {
            rays.push(Ray { point: Point::new(px, py, pz), direction: Vector::new(dx, dy, dz) });
        }
    }
    rays
}

#[test]
fn empty_scene_returns_the_background_at_any_depth() {
    for ray in some_rays() {
        for depth in [0u8, 1, 5, 9, 10, 11, 200, 255] {
            let mut trail = Vec::new();
            let color = calc(&ray, 0.0, f32::MAX, &[], depth, &mut trail);
            assert_eq!(color, sky(&ray));
            assert_eq!(trail, vec![depth]);
        }
    }
}

#[test]
fn background_is_the_gradient_of_the_direction() {
    let up = sky(&Ray { point: Point::new(0.0, 0.0, 0.0), direction: Vector::new(0.0, 2.0, 0.0) });
    assert_eq!(up, rgba(0.02, 0.02, 0.1, 1.0));
    let down = sky(&Ray { point: Point::new(0.0, 0.0, 0.0), direction: Vector::new(0.0, -2.0, 0.0) });
    assert_eq!(down, rgba(0.1, 0.1, 0.1, 1.0));
    let level = sky(&Ray { point: Point::new(0.0, 0.0, 0.0), direction: Vector::new(3.0, 0.0, 0.0) });
    assert_eq!(level, rgba(0.01 + 0.05, 0.01 + 0.05, 0.05 + 0.05, 1.0));
}

#[test]
fn facing_mirrors_end_the_path_at_depth_ten() {
    let chrome = Metal { albedo: to_color(rgba(0.7, 0.7, 0.7, 1.0)), shinyness: s(0.5) };
    let scene = [
        Surface {
            shape: Shape::Plane { point: Point::new(0.0, 0.0, 0.0), normal: Vector::new(0.0, 1.0, 0.0) },
            matter: Matter::Mirror(chrome),
        },
        Surface {
            shape: Shape::Plane { point: Point::new(0.0, 10.0, 0.0), normal: Vector::new(0.0, -1.0, 0.0) },
            matter: Matter::Mirror(chrome),
        },
    ];
    for (dx, dy) in [(0.0, -1.0), (0.0, 1.0), (0.1, -1.0), (0.5, 0.5), (-0.3, 0.9)] {
        let ray = Ray { point: Point::new(0.0, 5.0, 0.0), direction: Vector::new(dx, dy, 0.0) };
        let mut trail = Vec::new();
        let color = calc(&ray, 0.0, f32::MAX, &scene, 0, &mut trail);
        assert_eq!(trail, vec![0, 1, 2, 3, 4, 5, 6, 7, 8, 9, 10]);
        assert!(color.r.is_finite() && color.r > 0.0);

        let mut trail = Vec::new();
        calc(&ray, 0.0, f32::MAX, &scene, 7, &mut trail);
        assert_eq!(trail, vec![7, 8, 9, 10]);

        let mut trail = Vec::new();
        let last = calc(&ray, 0.0, f32::MAX, &scene, 10, &mut trail);
        assert_eq!(trail, vec![10]);
        assert_eq!(last, rgba(0.7, 0.7, 0.7, 1.0));

        let mut trail = Vec::new();
        calc(&ray, 0.0, f32::MAX, &scene, 40, &mut trail);
        assert_eq!(trail, vec![40]);
    }
}

#[test]
fn path_value_between_mirrors_is_the_product_of_albedos() {
    let chrome = Metal { albedo: to_color(rgba(0.5, 0.5, 0.5, 1.0)), shinyness: s(0.5) };
    let scene = [
        Surface {
            shape: Shape::Plane { point: Point::new(0.0, 0.0, 0.0), normal: Vector::new(0.0, 1.0, 0.0) },
            matter: Matter::Mirror(chrome),
        },
        Surface {
            shape: Shape::Plane { point: Point::new(0.0, 10.0, 0.0), normal: Vector::new(0.0, -1.0, 0.0) },
            matter: Matter::Mirror(chrome),
        },
    ];
    let ray = Ray { point: Point::new(0.0, 5.0, 0.0), direction: Vector::new(0.0, -1.0, 0.0) };
    let mut trail = Vec::new();
    let color = calc(&ray, 0.0, f32::MAX, &scene, 0, &mut trail);
    let expected = 0.5f32.powi(11);
    assert_eq!(color, rgba(expected, expected, expected, 1.0));
}

#[test]
fn light_seen_directly_shows_its_emission() {
    let emission = rgba(0.5, 0.25, 0.75, 1.0);
    let scene = [Surface {
        shape: Shape::Sphere { center: Point::new(0.0, 5.0, 25.0), radius: 5.0 },
        matter: Matter::Light(DiffuseLight { color: to_color(emission) }),
    }];
    let camera = look(
        Point::new(0.0, 5.0, 75.0),
        Point::new(0.0, 5.0, 25.0),
        -Vector::unit_y(),
        Deg(45.0),
        1.0,
    );
    let image = render(1, 1, &scene, &camera);
    assert_eq!(image, vec![emission]);

    let image = render(9, 9, &scene, &camera);
    assert_eq!(image[pixel_index(4, 4, 9, 9)], emission);
    assert_ne!(image[pixel_index(0, 0, 9, 9)], emission);
}

#[test]
fn light_brighter_than_white_is_saturated_in_the_pixel() {
    let scene = [Surface {
        shape: Shape::Sphere { center: Point::new(0.0, 0.0, -10.0), radius: 2.0 },
        matter: Matter::Light(DiffuseLight { color: to_color(rgba(4.0, 0.5, 1.5, 1.0)) }),
    }];
    let camera =
        look(Point::new(0.0, 0.0, 0.0), Point::new(0.0, 0.0, -10.0), -Vector::unit_y(), Deg(45.0), 1.0);
    let ray = pixel_ray(&camera, 0, 0, 1, 1);
    let mut trail = Vec::new();
    assert_eq!(calc(&ray, 0.0, f32::MAX, &scene, 0, &mut trail), rgba(4.0, 0.5, 1.5, 1.0));
    assert_eq!(trail, vec![0, 1]);
    assert_eq!(render(1, 1, &scene, &camera), vec![rgba(1.0, 0.5, 1.0, 1.0)]);
}

#[test]
fn ground_below_the_horizon_and_sky_above_it() {
    let width = 64;
    let height = 64;
    let green = Lambertian { albedo: to_color(rgba(0.0, 0.5, 0.0, 1.0)) };
    let scene = [Surface {
        shape: Shape::Plane { point: Point::new(0.0, 0.0, 0.0), normal: Vector::unit_y() },
        matter: Matter::Matte(green),
    }];
    let camera = look(
        Point::new(0.0, 25.0, 75.0),
        Point::new(0.0, 24.0, 20.0),
        -Vector::unit_y(),
        Deg(45.0),
        width as f32 / height as f32,
    );
    let image = render(width, height, &scene, &camera);
    assert_eq!(image.len(), 64 * 64);

    let mut above = 0;
    let mut below = 0;
    for y in 0..height {
        for x in 0..width {
            let ray = pixel_ray(&camera, x, y, width, height);
            let pixel = image[pixel_index(x, y, width, height)];
            let background = saturated(sky(&ray));
            if ray.direction.y < 0.0 {
                below += 1;
                assert_ne!(pixel, background, "pixel ({}, {})", x, y);
                assert_eq!(pixel.r, 0.0);
                assert_eq!(pixel.b, 0.0);
                assert!(pixel.g > 0.0 && pixel.g <= 0.5, "pixel ({}, {})", x, y);
            } else {
                above += 1;
                assert_eq!(pixel, background, "pixel ({}, {})", x, y);
                let first = pixel_ray(&camera, 0, y, width, height);
                assert!(first.direction.y >= 0.0);
            }
        }
    }
    assert!(above >= 64 && below >= 64);
    assert_eq!(above % 64, 0);

    let levels: Vec<Color> = image
        .iter()
        .map(|c| to_color(rgba(c.r.sqrt() * 255.99, c.g.sqrt() * 255.99, c.b.sqrt() * 255.99, c.a)))
        .collect();
    let bytes = convert_to_rgb8(&levels);
    assert_eq!(bytes.len(), 64 * 64 * 3);
    for y in 0..height {
        for x in 0..width {
            let at = 3 * pixel_index(x, y, width, height);
            let ray = pixel_ray(&camera, x, y, width, height);
            if ray.direction.y < 0.0 {
                assert_eq!(bytes[at], 0);
                assert!(bytes[at + 1] > 0);
                assert_eq!(bytes[at + 2], 0);
            } else {
                assert!(bytes[at] > 0 && bytes[at + 2] > bytes[at]);
            }
        }
    }
}
