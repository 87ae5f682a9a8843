use ppm_gradient::codec::{pack_color, unpack_color};
use ppm_gradient::gradient::fill_gradient;
use ppm_gradient::ppm::render_ppm_image;

fn unpack(p: u32) -> (u8, u8, u8, u8) {
    let (mut r, mut g, mut b, mut a) = (0u8, 0u8, 0u8, 0u8);
    unpack_color(&p, &mut r, &mut g, &mut b, &mut a);
    (r, g, b, a)
}

#[test]
fn buffer_size_mismatch_is_rejected() {
    let image: Vec<u32> = vec![0, 0, 0];
    assert!(render_ppm_image(&image, 2, 2).is_none());
    assert!(render_ppm_image(&image, 3, 1).is_some());
}

#[test]
fn oversized_dimensions_are_rejected() {
    let image: Vec<u32> = vec![0; 4];
    assert!(render_ppm_image(&image, usize::MAX, 2).is_none());
}

#[test]
fn header_exactness() {
    let image: Vec<u32> = vec![0; 6];
    let out = render_ppm_image(&image, 2, 3).unwrap();
    assert_eq!(&out[..11], b"P6\n2 3\n255\n");
    assert_eq!(out.len(), 11 + 6 * 3);
}

#[test]
fn multi_digit_header() {
    let image: Vec<u32> = vec![0; 120];
    let out = render_ppm_image(&image, 12, 10).unwrap();
    assert_eq!(&out[..13], b"P6\n12 10\n255\n");
    assert_eq!(out.len(), 13 + 120 * 3);
}

#[test]
fn pixel_byte_order() {
    let image: Vec<u32> = vec![pack_color(10, 20, 30, Some(40))];
    let out = render_ppm_image(&image, 1, 1).unwrap();
    assert_eq!(&out[..11], b"P6\n1 1\n255\n");
    assert_eq!(&out[11..], &[10, 20, 30]);
    assert_eq!(out.len(), 14);
}

#[test]
fn body_is_row_major() {
    let image: Vec<u32> = vec![
        pack_color(1, 2, 3, None),
        pack_color(4, 5, 6, None),
        pack_color(7, 8, 9, None),
        pack_color(10, 11, 12, None),
    ];
    let out = render_ppm_image(&image, 2, 2).unwrap();
    assert_eq!(&out[11..], &[1, 2, 3, 4, 5, 6, 7, 8, 9, 10, 11, 12]);
}

#[test]
fn gradient_full_scenario() {
    let width: usize = 512;
    let height: usize = 512;
    let framebuffer = fill_gradient(width, height);
    assert_eq!(framebuffer.len(), width * height);

    let (r, g, b, a) = unpack(framebuffer[0]);
    assert_eq!((r, g, b, a), (0, 0, 0, 255));

    let (r, g, b, _) = unpack(framebuffer[511 + 511 * width]);
    assert_eq!(r, 254);
    assert_eq!(g, 254);
    assert_eq!(b, 0);

    let out = render_ppm_image(&framebuffer, width, height).unwrap();
    assert_eq!(&out[..15], b"P6\n512 512\n255\n");
    assert_eq!(out.len(), 15 + width * height * 3);
}

#[test]
fn gradient_rises_along_both_axes() {
    let width: usize = 16;
    let height: usize = 8;
    let buf = fill_gradient(width, height);
    for y in 0..height {
        for x in 0..width {
            let (r, g, b, a) = unpack(buf[x + y * width]);
            assert_eq!(r as usize, 255 * y / height);
            assert_eq!(g as usize, 255 * x / width);
            assert_eq!(b, 0);
            assert_eq!(a, 255);
        }
    }
}
