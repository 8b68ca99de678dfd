use base64::Engine;
use brazen::engine::{AlphaMode, ColorSpace, EngineFrame, PixelFormat};
use brazen::mounts::{Mount, MountManager, MountType};
use brazen::transfer::{fs_read_body, fs_read_target, fs_write_target, screenshot_payload};

fn frame(width: u32, height: u32, format: PixelFormat, pixels: Vec<u8>) -> EngineFrame {
    EngineFrame {
        width,
        height,
        frame_number: 1,
        stride_bytes: width as usize * 4,
        pixel_format: format,
        alpha_mode: AlphaMode::Straight,
        color_space: ColorSpace::Srgb,
        pixels,
    }
}

fn decode_png(payload: &str) -> image::RgbaImage {
    let bytes = base64::engine::general_purpose::STANDARD.decode(payload).expect("base64");
    assert_eq!(&bytes[..8], b"\x89PNG\r\n\x1a\n");
    image::load_from_memory_with_format(&bytes, image::ImageFormat::Png).expect("png").to_rgba8()
}

#[test]
fn screenshot_of_an_rgba_frame_is_a_png() {
    let payload = screenshot_payload(&frame(2, 1, PixelFormat::Rgba8, vec![1, 2, 3, 255, 4, 5, 6, 255])).unwrap();
    let img = decode_png(&payload);
    assert_eq!(img.dimensions(), (2, 1));
    assert_eq!(img.as_raw(), &vec![1, 2, 3, 255, 4, 5, 6, 255]);
}

#[test]
fn screenshot_of_a_bgra_frame_swaps_red_and_blue() {
    let payload = screenshot_payload(&frame(1, 1, PixelFormat::Bgra8, vec![10, 20, 30, 40, 99])).unwrap();
    let img = decode_png(&payload);
    assert_eq!(img.as_raw(), &vec![30, 20, 10, 40]);
}

#[test]
fn screenshot_of_a_short_frame_fails() {
    let err = screenshot_payload(&frame(2, 2, PixelFormat::Rgba8, vec![0; 15])).unwrap_err();
    assert_eq!(err, "Failed to create image from raw pixels");
    let err = screenshot_payload(&frame(1, 1, PixelFormat::Bgra8, vec![0; 3])).unwrap_err();
    assert_eq!(err, "Failed to create image from raw pixels");
}

fn manager(read_only: bool) -> MountManager {
    let mut m = MountManager::new();
    m.add_mount(Mount {
        name: "docs".to_string(),
        mount_type: MountType::FileSystem("/srv/docs".to_string()),
        read_only,
        allowed_domains: Vec::new(),
    });
    m
}

#[test]
fn fs_read_resolves_under_the_mount() {
    let m = manager(true);
    assert_eq!(fs_read_target(&m, "brazen://fs/docs/a.txt").unwrap(), "/srv/docs/a.txt");
    assert_eq!(fs_read_target(&m, "not a url").unwrap_err(), "invalid url");
    assert_eq!(fs_read_target(&m, "brazen://fs/other/a.txt").unwrap_err(), "mount not found");
    assert_eq!(fs_read_body(b"hello"), "aGVsbG8=");
    assert_eq!(fs_read_body(b""), "");
}

#[test]
fn fs_write_checks_mount_and_body() {
    let writable = manager(false);
    let (path, bytes) = fs_write_target(&writable, "brazen://fs/docs/out.txt", "aGVsbG8=").unwrap();
    assert_eq!(path, "/srv/docs/out.txt");
    assert_eq!(bytes, b"hello".to_vec());
    assert_eq!(fs_write_target(&writable, "brazen://fs/docs/out.txt", "***").unwrap_err(), "invalid base64");
    assert_eq!(fs_write_target(&writable, "::", "aGVsbG8=").unwrap_err(), "invalid url");
    let read_only = manager(true);
    assert_eq!(
        fs_write_target(&read_only, "brazen://fs/docs/out.txt", "aGVsbG8=").unwrap_err(),
        "mount is read-only"
    );
}
