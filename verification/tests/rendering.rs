use brazen::engine::{AlphaMode, ColorSpace, EngineFrame, PixelFormat};
use brazen::rendering::{frame_checksum, normalize_pixels, swizzle_bgra_to_rgba_in_place};

fn frame_with_pixels(width: u32, height: u32, stride: usize, format: PixelFormat, pixels: Vec<u8>) -> EngineFrame {
    EngineFrame {
        width,
        height,
        frame_number: 1,
        stride_bytes: stride,
        pixel_format: format,
        alpha_mode: AlphaMode::Premultiplied,
        color_space: ColorSpace::Srgb,
        pixels,
    }
}

#[test]
fn swizzles_bgra_to_rgba() {
    let pixels = vec![10, 20, 30, 255, 40, 50, 60, 255];
    let frame = frame_with_pixels(2, 1, 8, PixelFormat::Bgra8, pixels);
    let normalized = normalize_pixels(&frame, false);
    assert_eq!(normalized, vec![30, 20, 10, 255, 60, 50, 40, 255]);
}

#[test]
fn repacks_stride_and_preserves_gradient() {
    let width = 2;
    let height = 2;
    let row_bytes = width * 4;
    let stride = row_bytes + 4;
    let mut pixels = vec![0; stride * height];
    for y in 0..height {
        for x in 0..width {
            let base = y * stride + x * 4;
            pixels[base] = (x * 20 + y * 40) as u8;
            pixels[base + 1] = 10;
            pixels[base + 2] = 200;
            pixels[base + 3] = 255;
        }
    }
    let frame = frame_with_pixels(width as u32, height as u32, stride, PixelFormat::Rgba8, pixels);
    let normalized = normalize_pixels(&frame, false);
    let sample = &normalized[row_bytes..row_bytes + 4];
    assert_eq!(sample, &[40, 10, 200, 255]);
}

#[test]
fn checksum_changes_on_pixel_update() {
    let first = vec![1, 2, 3, 4];
    let second = vec![1, 2, 3, 5];
    assert_ne!(frame_checksum(&first), frame_checksum(&second));
}

#[test]
fn swizzle_twice_restores_pixels() {
    let mut pixels = vec![1, 2, 3, 4, 5, 6, 7, 8, 9];
    swizzle_bgra_to_rgba_in_place(&mut pixels);
    assert_eq!(pixels, vec![3, 2, 1, 4, 7, 6, 5, 8, 9]);
    swizzle_bgra_to_rgba_in_place(&mut pixels);
    assert_eq!(pixels, vec![1, 2, 3, 4, 5, 6, 7, 8, 9]);
}

#[test]
fn bypass_keeps_bgra_order_and_checksum_is_stable() {
    let frame = frame_with_pixels(1, 1, 4, PixelFormat::Bgra8, vec![1, 2, 3, 4]);
    assert_eq!(normalize_pixels(&frame, true), vec![1, 2, 3, 4]);
    assert_eq!(frame_checksum(&[9, 9]), frame_checksum(&[9, 9]));
}

#[test]
fn bypassing_the_swap_only_exchanges_red_and_blue() {
    let pixels: Vec<u8> = (0..24).collect();
    let bgra = frame_with_pixels(2, 2, 12, PixelFormat::Bgra8, pixels.clone());
    let a = normalize_pixels(&bgra, true);
    let b = normalize_pixels(&bgra, false);
    assert_eq!(a.len(), b.len());
    for j in 0..a.len() / 4 {
        assert_eq!([b[4 * j], b[4 * j + 1], b[4 * j + 2], b[4 * j + 3]], [a[4 * j + 2], a[4 * j + 1], a[4 * j], a[4 * j + 3]]);
    }
    let rgba = frame_with_pixels(2, 2, 12, PixelFormat::Rgba8, pixels);
    assert_eq!(normalize_pixels(&rgba, true), normalize_pixels(&rgba, false));
    let empty = frame_with_pixels(0, 2, 0, PixelFormat::Bgra8, vec![1, 2, 3, 4]);
    assert!(normalize_pixels(&empty, true).is_empty() && normalize_pixels(&empty, false).is_empty());
}
