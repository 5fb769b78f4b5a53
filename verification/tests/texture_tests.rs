use sprite_engine::{MakeTransparent, TextureProcessor};
use sprite_engine::texture::{prepare_from_encoded, prepare_from_rgba, TextureError};

#[test]
fn chroma_key_turns_matching_pixels_transparent() {
    let mut rgba = vec![
        1, 2, 3, 255, // matches: cleared
        9, 9, 9, 255, // different color: kept
        1, 2, 3, 128, // right color but not opaque: kept
    ];
    MakeTransparent(1, 2, 3).process_texture(&mut rgba);
    assert_eq!(
        rgba,
        vec![0, 0, 0, 0, 9, 9, 9, 255, 1, 2, 3, 128],
    );
}

#[test]
fn prepare_from_rgba_applies_processors_in_order() {
    // The first processor clears the red key pixel; the second would clear
    // green ones, of which there are none left afterwards.
    let rgba = vec![5, 0, 0, 255, 0, 6, 0, 255];
    let img = prepare_from_rgba(rgba, 2, 1, &vec![MakeTransparent(5, 0, 0), MakeTransparent(0, 6, 0)]);
    assert_eq!(img.width, 2);
    assert_eq!(img.height, 1);
    assert_eq!(img.pixels, vec![0, 0, 0, 0, 0, 0, 0, 0]);
}

#[test]
fn prepare_from_rgba_without_processors_keeps_pixels() {
    let img = prepare_from_rgba(vec![7, 8, 9, 10], 1, 1, &Vec::<MakeTransparent>::new());
    assert_eq!(img.pixels, vec![7, 8, 9, 10]);
    assert_eq!((img.width, img.height), (1, 1));
}

#[test]
fn undecodable_bytes_are_a_decode_error() {
    let out = prepare_from_encoded(&vec![1, 2, 3, 4], &Vec::<MakeTransparent>::new());
    match out {
        Err(error) => assert_eq!(error, TextureError::DecodeFailed),
        Ok(_) => panic!("bytes that are no image must not decode"),
    }
}

#[test]
fn encoded_png_bytes_decode_to_their_pixels() {
    // A 2x1 image with one red and one green pixel, encoded as a real PNG.
    let mut png: Vec<u8> = Vec::new();
    let buffer = image::RgbaImage::from_raw(2, 1, vec![255, 0, 0, 255, 0, 255, 0, 255]).unwrap();
    image::DynamicImage::ImageRgba8(buffer)
        .write_to(&mut png, image::ImageOutputFormat::Png)
        .unwrap();
    let img = prepare_from_encoded(&png, &Vec::<MakeTransparent>::new()).unwrap();
    assert_eq!((img.width, img.height), (2, 1));
    assert_eq!(img.pixels, vec![255, 0, 0, 255, 0, 255, 0, 255]);
}

#[test]
fn decoded_pixels_run_through_the_processor_chain() {
    let mut png: Vec<u8> = Vec::new();
    let buffer = image::RgbaImage::from_raw(1, 2, vec![255, 0, 0, 255, 0, 0, 255, 255]).unwrap();
    image::DynamicImage::ImageRgba8(buffer)
        .write_to(&mut png, image::ImageOutputFormat::Png)
        .unwrap();
    let img = prepare_from_encoded(&png, &vec![MakeTransparent(255, 0, 0)]).unwrap();
    assert_eq!(img.pixels, vec![0, 0, 0, 0, 0, 0, 255, 255]);
}
