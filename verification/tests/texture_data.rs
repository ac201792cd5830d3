use std::io::Cursor;

use wgpu_2d_sample::texture_data::{decode_rgba8, DecodedImage, TextureCopy, TextureUpload};

fn png(width: u32, height: u32, seed: u8) -> Vec<u8> {
    let mut img = image::RgbaImage::new(width, height);
    for (x, y, p) in img.enumerate_pixels_mut() {
        *p = image::Rgba([seed, x as u8, y as u8, 255]);
    }
    let mut bytes = Vec::new();
    image::DynamicImage::ImageRgba8(img)
        .write_to(&mut Cursor::new(&mut bytes), image::ImageFormat::Png)
        .unwrap();
    bytes
}

fn copy(z: u32, width: u32, height: u32) -> TextureCopy {
    TextureCopy { origin_z: z, width, height, bytes_per_row: 4 * width, rows_per_image: height }
}

#[test]
fn decodes_png_to_rgba() {
    let img = decode_rgba8(&png(2, 3, 7)).unwrap();
    assert_eq!((img.width, img.height), (2, 3));
    assert_eq!(img.rgba.len(), 24);
    // pixel (1, 2)
    assert_eq!(&img.rgba[(2 * 2 + 1) * 4..(2 * 2 + 1) * 4 + 4], &[7, 1, 2, 255]);
    assert!(decode_rgba8(b"not an image").is_none());
    assert!(decode_rgba8(&[]).is_none());
}

#[test]
fn single_image_upload_plan() {
    let up = TextureUpload::from_bytes(&png(5, 4, 1)).unwrap();
    assert_eq!((up.width, up.height, up.depth_or_array_layers), (5, 4, 1));
    assert_eq!(up.copies, vec![copy(0, 5, 4)]);
    assert_eq!(up.images.len(), 1);
    assert_eq!(up.images[0].rgba.len(), 80);
    assert!(TextureUpload::from_bytes(&[1, 2, 3]).is_none());
}

#[test]
fn array_upload_has_one_layer_per_image() {
    let a = png(4, 4, 1);
    let b = png(2, 3, 2);
    let c = png(4, 4, 3);
    let up = TextureUpload::from_array_bytes(&vec![&a[..], &b[..], &c[..]]).unwrap();
    assert_eq!((up.width, up.height, up.depth_or_array_layers), (4, 4, 3));
    assert_eq!(up.copies, vec![copy(0, 4, 4), copy(1, 2, 3), copy(2, 4, 4)]);
    assert_eq!(up.images[1].rgba[0], 2);
    assert_eq!(up.images[2].rgba[0], 3);
}

#[test]
fn array_upload_fails_on_an_undecodable_image() {
    let a = png(4, 4, 1);
    let bad: &[u8] = b"garbage";
    assert!(TextureUpload::from_array_bytes(&vec![&a[..], bad]).is_none());
    assert!(TextureUpload::from_array_bytes(&vec![bad, &a[..]]).is_none());
}

#[test]
fn upload_plan_of_decoded_images() {
    let img = DecodedImage { width: 3, height: 1, rgba: vec![0; 12] };
    let up = TextureUpload::from_image(img);
    assert_eq!(up.copies, vec![copy(0, 3, 1)]);
    let imgs = vec![
        DecodedImage { width: 2, height: 2, rgba: vec![1; 16] },
        DecodedImage { width: 1, height: 1, rgba: vec![2; 4] },
    ];
    let up = TextureUpload::from_array_image(imgs);
    assert_eq!((up.width, up.height, up.depth_or_array_layers), (2, 2, 2));
    assert_eq!(up.copies, vec![copy(0, 2, 2), copy(1, 1, 1)]);
}
