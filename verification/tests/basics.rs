//! Tests of the scalar, colour, vector and framebuffer building blocks.

use raytracer::color::Rgb;
use raytracer::fixed::{fx_div, fx_mul, fx_pow, fx_sqrt, SCALE, T_FAR};
use raytracer::framebuffer::FrameBuffer;
use raytracer::render::{apply_movement, canvas_to_viewport};
use raytracer::tracer::reflect_ray;
use raytracer::vec3::Vec3;

const S: i128 = SCALE;

#[test]
fn fx_mul_rescales() {
    assert_eq!(fx_mul(3 * S, 2 * S), 6 * S);
    assert_eq!(fx_mul(-3 * S, 2 * S), -6 * S);
    assert_eq!(fx_mul(5000, 5000), 2500);
}

#[test]
fn fx_div_rescales() {
    assert_eq!(fx_div(6 * S, 2 * S), 3 * S);
    assert_eq!(fx_div(-6 * S, 2 * S), -3 * S);
    assert_eq!(fx_div(S, 3 * S), 3333);
}

#[test]
fn fx_sqrt_exact_squares() {
    assert_eq!(fx_sqrt(4 * S), 2 * S);
    assert_eq!(fx_sqrt(9 * S), 3 * S);
    assert_eq!(fx_sqrt(0), 0);
    assert_eq!(fx_sqrt(2 * S), 14142);
}

#[test]
fn fx_pow_repeated_product() {
    assert_eq!(fx_pow(5000, 0), S);
    assert_eq!(fx_pow(5000, 1), 5000);
    assert_eq!(fx_pow(5000, 2), 2500);
    assert_eq!(fx_pow(S, 500), S);
}

#[test]
fn rgb_from_ints_scales() {
    let c = Rgb::from_ints(255, 10, 0);
    assert_eq!(c, Rgb { red: 255 * S, green: 10 * S, blue: 0 });
}

#[test]
fn rgb_multiply_by_channelwise() {
    let c = Rgb::from_ints(255, 0, 100).multiply_by(2000);
    assert_eq!(c, Rgb { red: 51 * S, green: 0, blue: 20 * S });
}

#[test]
fn rgb_add_channelwise() {
    let a = Rgb { red: S, green: 2 * S, blue: -S };
    let b = Rgb { red: 10, green: 20, blue: 30 };
    assert_eq!(a.add(&b), Rgb { red: S + 10, green: 2 * S + 20, blue: -S + 30 });
}

#[test]
fn rgb_clamp_bounds_channels() {
    let c = Rgb { red: -5, green: 300 * S, blue: 123 * S };
    let k = c.clamp();
    assert_eq!(k, Rgb { red: 0, green: 255 * S, blue: 123 * S });
}

#[test]
fn rgb_clamp_idempotent() {
    let samples = [
        Rgb { red: -7 * S, green: 0, blue: 256 * S },
        Rgb { red: 255 * S, green: 1, blue: -1 },
        Rgb::from_ints(17, 170, 255),
    ];
    for c in samples {
        let once = c.clamp();
        assert_eq!(once.clamp(), once);
        for ch in [once.red, once.green, once.blue] {
            assert!(0 <= ch && ch <= 255 * S);
        }
    }
}

#[test]
fn vec3_dot_and_length() {
    let u = Vec3::new(3 * S, 4 * S, 0);
    assert_eq!(u.dot(u), 25 * S);
    assert_eq!(u.length(), 5 * S);
    assert_eq!(u.normalize(), Vec3::new(6000, 8000, 0));
}

#[test]
fn vec3_normalize_zero_is_identity() {
    let u = Vec3::new(50, 0, 0);
    assert_eq!(u.normalize(), u);
}

#[test]
fn reflect_not_involution_for_non_unit_normal() {
    let v = Vec3::new(S, 2 * S, 0);
    let n = Vec3::new(2 * S, 0, 0);
    let once = reflect_ray(v, n);
    assert_eq!(once, Vec3::new(7 * S, -2 * S, 0));
    let twice = reflect_ray(once, n);
    assert_ne!(twice, v);
}

#[test]
fn reflect_preserves_normal_component_for_unit_normal() {
    let v = Vec3::new(3 * S, 2 * S, 7 * S);
    let n = Vec3::new(0, 0, S);
    let r = reflect_ray(v, n);
    let diff = r.dot(n) - v.dot(n);
    assert!(diff.abs() <= 2);
}

#[test]
fn canvas_to_viewport_center_and_corner() {
    assert_eq!(canvas_to_viewport(0, 0), Vec3::new(0, 0, S));
    assert_eq!(canvas_to_viewport(200, -200), Vec3::new(5000, -5000, S));
    assert_eq!(canvas_to_viewport(-1, 1), Vec3::new(-25, 25, S));
}

#[test]
fn framebuffer_put_pixel_maps_center_origin() {
    let mut fb = FrameBuffer::new(4, 4);
    fb.put_pixel(0, 0, Rgb::from_ints(255, 0, 0));
    // Raster cell (width/2 + x, height/2 - y - 1) = (2, 1).
    assert_eq!(fb.pixel_word(2, 1), 0xFF0000);
    assert_eq!(fb.pixel_word(0, 0), 0);
    assert_eq!(fb.pixel_word(2, 2), 0);
}

#[test]
fn framebuffer_packs_channels() {
    let mut fb = FrameBuffer::new(2, 2);
    fb.put_pixel(0, 0, Rgb::from_ints(1, 2, 3));
    assert_eq!(fb.pixel_word(1, 0), 0x010203);
}

#[test]
fn framebuffer_drops_out_of_range_writes() {
    let mut fb = FrameBuffer::new(4, 4);
    fb.put_pixel(100, 0, Rgb::from_ints(255, 255, 255));
    fb.put_pixel(0, -100, Rgb::from_ints(255, 255, 255));
    for sy in 0..4 {
        for sx in 0..4 {
            assert_eq!(fb.pixel_word(sx, sy), 0);
        }
    }
}

#[test]
fn framebuffer_clear_overwrites_all() {
    let mut fb = FrameBuffer::new(3, 2);
    fb.put_pixel(0, 0, Rgb::from_ints(9, 9, 9));
    fb.clear(7);
    for sy in 0..2 {
        for sx in 0..3 {
            assert_eq!(fb.pixel_word(sx, sy), 7);
        }
    }
}

#[test]
fn apply_movement_steps_axes() {
    let mut origin = Vec3::new(0, 0, 0);
    apply_movement(&mut origin, true, false, false, true, false, false);
    assert_eq!(origin, Vec3::new(1000, 0, 1000));
    // Opposed keys cancel.
    apply_movement(&mut origin, true, true, false, false, false, false);
    assert_eq!(origin, Vec3::new(1000, 0, 1000));
    apply_movement(&mut origin, false, false, true, false, false, true);
    assert_eq!(origin, Vec3::new(0, -1000, 1000));
}

#[test]
fn t_far_is_the_no_hit_sentinel() {
    assert_eq!(T_FAR, 8589934592);
}
