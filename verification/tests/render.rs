use glam::{Mat3, Vec3, Vec4};
use ray_canvas::color::pack_bgra;
use ray_canvas::frame::{pixel_coords, pixel_count};
use ray_canvas::scene::nearest;

const BACKGROUND: u32 = 0xff00_0000;

struct Ball {
    center: Vec3,
    radius: f32,
    albedo: Vec3,
}

struct Hit {
    normal: Vec3,
    distance: f32,
}

fn hit(ball: &Ball, origin: Vec3, direction: Vec3) -> Option<Hit> {
    let oc = origin - ball.center;
    let a = direction.dot(direction);
    let b = 2.0 * oc.dot(direction);
    let c = oc.dot(oc) - ball.radius * ball.radius;
    let discriminant = b * b - 4.0 * a * c;
    if discriminant < 0.0 {
        return None;
    }
    let distance = (-b - discriminant.sqrt()) / (2.0 * a);
    let position = origin + distance * direction;
    Some(Hit { normal: (position - ball.center).normalize(), distance })
}

fn trace(balls: &[Ball], origin: Vec3, direction: Vec3) -> Vec4 {
    let hits: Vec<Option<Hit>> = balls.iter().map(|ball| hit(ball, origin, direction)).collect();
    let distances: Vec<Option<u32>> =
        hits.iter().map(|h| h.as_ref().map(|h| h.distance.to_bits())).collect();
    match nearest(&distances) {
        Some(at) => {
            let light = Vec3::new(-1.0, 2.0, -1.0).normalize();
            let diffuse = hits[at].as_ref().unwrap().normal.dot(light).max(0.0);
            (balls[at].albedo * diffuse).extend(1.0)
        }
        None => Vec4::new(0.0, 0.0, 0.0, 1.0),
    }
}

fn quantise(channel: f32) -> u8 {
    (channel.clamp(0.0, 1.0) * 255.0).round() as u8
}

fn transfer(x: f32) -> f32 {
    if x <= 0.0031308 {
        x * 12.92
    } else {
        1.055 * x.powf(1.0 / 2.4) - 0.055
    }
}

fn encode(color: Vec4) -> u32 {
    pack_bgra(
        quantise(transfer(color.x)),
        quantise(transfer(color.y)),
        quantise(transfer(color.z)),
        quantise(color.w),
    )
}

fn view() -> Mat3 {
    let forward = Vec3::new(0.0, 0.0, -1.0);
    let up = Vec3::new(0.0, 1.0, 0.0);
    let right = up.cross(forward).normalize();
    Mat3::from_cols(right, forward.cross(right), forward).transpose()
}

fn render(width: i32, height: i32, balls: &[Ball]) -> Vec<u32> {
    let count = pixel_count(width, height).unwrap();
    let aspect = width as f32 / height as f32;
    (0..count as i32)
        .map(|i| {
            let (x, y) = pixel_coords(i, width);
            let ndc_x = (2.0 * x as f32 / (width - 1) as f32) - 1.0;
            let ndc_y = 1.0 - (2.0 * y as f32 / (height - 1) as f32);
            let direction = (view() * Vec3::new(ndc_x * aspect, ndc_y, -1.0)).normalize();
            encode(trace(balls, Vec3::ZERO, direction))
        })
        .collect()
}

#[test]
fn encoded_black_and_white_fill_their_channels() {
    assert_eq!(encode(Vec4::new(0.0, 0.0, 0.0, 1.0)), 0xff00_0000);
    assert_eq!(encode(Vec4::new(1.0, 1.0, 1.0, 1.0)), 0xffff_ffff);
    assert_eq!(encode(Vec4::new(2.0, -1.0, 0.5, 7.0)), 0xffff_00bc);
}

#[test]
fn sphere_ahead_lights_the_centre_and_leaves_the_corners() {
    let ball = Ball { center: view() * Vec3::new(0.0, 0.0, -20.0), radius: 13.0, albedo: Vec3::new(1.0, 0.5, 0.1) };
    let frame = render(4, 4, &[ball]);
    assert_eq!(frame.len(), 16);
    for corner in [0, 3, 12, 15] {
        assert_eq!(frame[corner], BACKGROUND);
    }
    for centre in [5, 6, 9, 10] {
        assert_ne!(frame[centre], BACKGROUND);
        assert_eq!(frame[centre] >> 24, 255);
    }
}

#[test]
fn closer_of_two_overlapping_spheres_gives_the_colour() {
    let red = Vec3::new(1.0, 0.0, 0.0);
    let blue = Vec3::new(0.0, 0.0, 1.0);
    let near = |albedo| Ball { center: Vec3::new(0.0, 0.0, 10.0), radius: 4.0, albedo };
    let far = |albedo| Ball { center: Vec3::new(0.0, 0.0, 12.0), radius: 4.0, albedo };
    let direction = Vec3::new(0.0, 0.0, 1.0);

    let first = encode(trace(&[near(red), far(blue)], Vec3::ZERO, direction));
    let second = encode(trace(&[far(blue), near(red)], Vec3::ZERO, direction));
    assert_eq!(first, second);
    assert_ne!(first & 0x00ff_0000, 0);
    assert_eq!(first & 0x0000_00ff, 0);

    let swapped = encode(trace(&[near(blue), far(red)], Vec3::ZERO, direction));
    assert_eq!(swapped & 0x00ff_0000, 0);
    assert_ne!(swapped & 0x0000_00ff, 0);
}
