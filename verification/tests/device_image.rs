use ct3d::device_select::{device_matches, select_device};
use ct3d::error::CT3DError;
use ct3d::image::RGBImage;

#[test]
fn error_carries_optional_source() {
    let e = CT3DError::new(None);
    assert!(e.source.is_none());
    let e = CT3DError::new(Some(String::from("device lost")));
    assert_eq!(e.source.as_deref(), Some("device lost"));
}

#[test]
fn device_predicate_wants_lowercased_gpu_and_nvidia_vendor() {
    assert!(device_matches(&b"GPU".to_vec(), &b"NVIDIA Corporation".to_vec()));
    assert!(device_matches(
        &b"CL_DEVICE_TYPE_GPU".to_vec(),
        &b"NVIDIA Corporation".to_vec()
    ));
    // Wrong vendor.
    assert!(!device_matches(&b"GPU".to_vec(), &b"Advanced Micro Devices".to_vec()));
    // Vendor must be a prefix, not merely contained.
    assert!(!device_matches(&b"GPU".to_vec(), &b"made by NVIDIA".to_vec()));
    // Not a GPU.
    assert!(!device_matches(&b"CPU".to_vec(), &b"NVIDIA Corporation".to_vec()));
    // Short strings.
    assert!(!device_matches(&b"gp".to_vec(), &b"NVIDIA".to_vec()));
    assert!(!device_matches(&b"gpu".to_vec(), &b"NVID".to_vec()));
}

#[test]
fn select_device_takes_first_qualifying() {
    let devices = vec![
        (b"CPU".to_vec(), b"NVIDIA Corporation".to_vec()),
        (b"GPU".to_vec(), b"Intel".to_vec()),
        (b"Gpu".to_vec(), b"NVIDIA Corporation".to_vec()),
        (b"GPU".to_vec(), b"NVIDIA Corporation".to_vec()),
    ];
    assert_eq!(select_device(&devices), Some(2));
    let none = vec![(b"CPU".to_vec(), b"Intel".to_vec())];
    assert_eq!(select_device(&none), None);
    assert_eq!(select_device(&vec![]), None);
}

#[test]
fn image_pixels_are_row_major_rgb() {
    let mut img = RGBImage::new(4, 3);
    assert_eq!(img.width(), 4);
    assert_eq!(img.height(), 3);
    assert_eq!(img.get_pixel(2, 1), (0, 0, 0));
    img.set_pixel(2, 1, (10, 20, 30));
    img.set_pixel(0, 0, (1, 2, 3));
    img.set_pixel(3, 2, (7, 8, 9));
    assert_eq!(img.get_pixel(2, 1), (10, 20, 30));
    assert_eq!(img.get_pixel(0, 0), (1, 2, 3));
    assert_eq!(img.get_pixel(3, 2), (7, 8, 9));
    assert_eq!(img.get_pixel(1, 0), (0, 0, 0));
}

#[test]
fn image_loads_whole_buffer() {
    let mut img = RGBImage::new(2, 2);
    let channels: Vec<u8> = (0..12).collect();
    img.load_pixels(channels);
    assert_eq!(img.get_pixel(0, 0), (0, 1, 2));
    assert_eq!(img.get_pixel(1, 0), (3, 4, 5));
    assert_eq!(img.get_pixel(0, 1), (6, 7, 8));
    assert_eq!(img.get_pixel(1, 1), (9, 10, 11));
}

#[test]
fn bgra_bytes_swap_channels_and_force_alpha() {
    let mut img = RGBImage::new(2, 1);
    img.set_pixel(0, 0, (1, 2, 3));
    img.set_pixel(1, 0, (40, 50, 60));
    let bgra = img.to_bgra_bytes();
    assert_eq!(bgra, vec![3, 2, 1, 255, 60, 50, 40, 255]);
}
