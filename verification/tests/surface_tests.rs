use nalgebra::Vector2;
use std::cell::RefCell;
use raytracer::color::Rgb;
use raytracer::framebuffer::Framebuffer;
use raytracer::scalar::Scalar;
use raytracer::vector::Vec3;
use raytracer::window;

fn scalar(x: f32) -> Scalar {
    Scalar::from_bits(x.to_bits())
}

fn scale(channel: Scalar) -> u8 {
    (f32::from_bits(channel.to_bits()) * 255.0).round() as u8
}

#[test]
fn pack_puts_red_high_and_blue_low() {
    assert_eq!(Rgb { r: 0x12, g: 0x34, b: 0x56 }.pack(), 0x0012_3456);
    assert_eq!(Rgb { r: 0xFF, g: 0, b: 0 }.pack(), 0x00FF_0000);
    assert_eq!(Rgb { r: 0, g: 0xFF, b: 0 }.pack(), 0x0000_FF00);
    assert_eq!(Rgb { r: 0, g: 0, b: 0xFF }.pack(), 0x0000_00FF);
    assert_eq!(Rgb { r: 0xFF, g: 0xFF, b: 0xFF }.pack(), 0x00FF_FFFF);
    assert_eq!(Rgb::default().pack(), 0);
}

#[test]
fn from_vec3_quantises_each_channel_in_order() {
    let color = Vec3::new(scalar(0.2), scalar(0.7), scalar(0.8));
    assert_eq!(Rgb::from_vec3(color, &scale), Rgb { r: 51, g: 179, b: 204 });
    assert_eq!(Rgb::from_vec3(Vec3::new(scalar(0.0), scalar(0.5), scalar(1.0)), &scale), Rgb { r: 0, g: 128, b: 255 });
    let wild = Vec3::new(scalar(-3.0), scalar(7.5), scalar(f32::NAN));
    assert_eq!(Rgb::from_vec3(wild, &scale), Rgb { r: 0, g: 255, b: 0 });
}

#[test]
fn from_vec3_hands_clamped_channels_to_the_scale() {
    let seen = RefCell::new(Vec::new());
    let record = |c: Scalar| {
        seen.borrow_mut().push(c.to_bits());
        seen.borrow().len() as u8
    };
    let rgb = Rgb::from_vec3(Vec3::new(scalar(-3.0), scalar(0.25), scalar(7.5)), &record);
    assert_eq!(rgb, Rgb { r: 1, g: 2, b: 3 });
    assert_eq!(*seen.borrow(), vec![0.0f32.to_bits(), 0.25f32.to_bits(), 1.0f32.to_bits()]);
    seen.borrow_mut().clear();
    Rgb::from_vec3(Vec3::new(scalar(-0.0), scalar(f32::NAN), scalar(f32::INFINITY)), &record);
    assert_eq!(*seen.borrow(), vec![(-0.0f32).to_bits(), f32::NAN.to_bits(), 1.0f32.to_bits()]);
}

#[test]
fn new_surface_is_black() {
    let fb = Framebuffer::new(4, 3);
    assert_eq!((fb.width(), fb.height(), fb.len()), (4, 3, 12));
    assert_eq!(*fb.buffer(), vec![0u32; 12]);
    assert_eq!(fb.iter().count(), 12);
    let empty = Framebuffer::new(0, 9);
    assert_eq!((empty.width(), empty.height(), empty.len()), (0, 9, 0));
}

#[test]
fn set_pixel_writes_row_major() {
    let mut fb = Framebuffer::new(4, 3);
    fb.set_pixel(Vector2::new(2, 1), Rgb { r: 1, g: 2, b: 3 });
    fb.set_pixel(Vector2::new(0, 0), Rgb { r: 4, g: 5, b: 6 });
    fb.set_pixel(Vector2::new(3, 2), Rgb { r: 7, g: 8, b: 9 });
    let mut expected = vec![0u32; 12];
    expected[2 + 4] = 0x010203;
    expected[0] = 0x040506;
    expected[11] = 0x070809;
    assert_eq!(*fb.buffer(), expected);
    fb.set_pixel(Vector2::new(2, 1), Rgb { r: 0, g: 0, b: 0 });
    expected[6] = 0;
    assert_eq!(*fb.buffer(), expected);
    assert_eq!((fb.width(), fb.height()), (4, 3));
}

#[test]
fn set_pixel_goes_by_the_index() {
    // Column 5 of row 0 in a grid four wide is index 5: column 1 of row 1.
    let mut fb = Framebuffer::new(4, 3);
    fb.set_pixel(Vector2::new(5, 0), Rgb { r: 0, g: 0, b: 1 });
    assert_eq!(fb.buffer()[5], 1);
}

#[test]
fn window_surface_with_color() {
    let fb = window::Framebuffer::with_color(3, 2, Rgb { r: 0x10, g: 0x20, b: 0x30 });
    assert_eq!((fb.width(), fb.height()), (3, 2));
    assert_eq!(*fb.buffer(), vec![0x102030u32; 6]);
    assert_eq!(fb.len(), 6);
    assert_eq!(fb[5], 0x102030);
    let black = window::Framebuffer::new(2, 2);
    assert_eq!(*black.buffer(), vec![0u32; 4]);
    assert_eq!(black, window::Framebuffer::with_color(2, 2, Rgb::default()));
}

#[test]
fn window_surface_ignores_writes_outside() {
    let mut fb = window::Framebuffer::new(3, 2);
    fb.set_pixel(Vector2::new(1, 1), Rgb { r: 0, g: 1, b: 0 });
    fb.set_pixel(Vector2::new(0, 2), Rgb { r: 9, g: 9, b: 9 });
    fb.set_pixel(Vector2::new(6, 0), Rgb { r: 9, g: 9, b: 9 });
    fb.set_pixel(Vector2::new(2, 5), Rgb { r: 9, g: 9, b: 9 });
    assert_eq!(*fb.buffer(), vec![0, 0, 0, 0, 0x000100, 0]);
    // An index inside the buffer is written even from a column beyond the width.
    fb.set_pixel(Vector2::new(5, 0), Rgb { r: 0, g: 0, b: 2 });
    assert_eq!(fb.buffer()[5], 2);
}

#[test]
fn window_surface_default_and_clone() {
    let empty = window::Framebuffer::default();
    assert_eq!((empty.width(), empty.height(), empty.buffer().len()), (0, 0, 0));
    let mut fb = window::Framebuffer::new(2, 1);
    fb.set_pixel(Vector2::new(1, 0), Rgb { r: 1, g: 1, b: 1 });
    let copy = fb.clone();
    assert_eq!(copy, fb);
    fb.set_pixel(Vector2::new(0, 0), Rgb { r: 2, g: 2, b: 2 });
    assert_ne!(copy, fb);
    assert_eq!(*copy.buffer(), vec![0, 0x010101]);
}
