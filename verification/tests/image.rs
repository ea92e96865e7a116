use mibar::image::{png, resize_filter, swap_red_blue, Error, Filter, Pixmap, Resize, ResizeType};
use mibar::image_widget::{Image, Type};

const RED_BLUE_PNG: [u8; 71] = [
    137, 80, 78, 71, 13, 10, 26, 10, 0, 0, 0, 13, 73, 72, 68, 82, 0, 0, 0, 2, 0, 0, 0, 1, 8, 6, 0,
    0, 0, 244, 34, 127, 138, 0, 0, 0, 14, 73, 68, 65, 84, 120, 156, 99, 248, 207, 192, 0, 66, 255,
    1, 15, 249, 3, 253, 133, 17, 153, 118, 0, 0, 0, 0, 73, 69, 78, 68, 174, 66, 96, 130,
];

#[test]
fn rgba_pixels_make_a_pixmap() {
    let p = Pixmap::from_png(png::Data::Rgba { width: 2, height: 1, pixels: vec![1, 2, 3, 4, 5, 6, 7, 8] }).unwrap();
    assert_eq!(p.physical_size(), (2, 1));
    assert_eq!(p.logical_size(), (2, 1));
    assert_eq!(p.pixels(), &[1, 2, 3, 4, 5, 6, 7, 8]);
}

#[test]
fn rgba_pixels_of_the_wrong_size_are_refused() {
    let r = Pixmap::from_png(png::Data::Rgba { width: 2, height: 2, pixels: vec![0; 8] });
    assert!(matches!(r, Err(Error::InvalidSize)));
    let r = Pixmap::from_png(png::Data::Rgba { width: 0, height: 2, pixels: vec![] });
    assert!(matches!(r, Err(Error::InvalidSize)));
}

#[test]
fn png_bytes_are_decoded() {
    let p = Pixmap::from_png(png::Data::StaticBytes(&RED_BLUE_PNG)).unwrap();
    assert_eq!(p.physical_size(), (2, 1));
    assert_eq!(p.pixels(), &[255, 0, 0, 255, 0, 0, 255, 255]);
    let p = Pixmap::from_png(png::Data::Bytes(std::sync::Arc::new(RED_BLUE_PNG.to_vec()))).unwrap();
    assert_eq!(p.logical_size(), (2, 1));
}

#[test]
fn png_files_are_decoded_or_their_error_passed_on() {
    let p = Pixmap::from_png_file(Ok(RED_BLUE_PNG.to_vec())).unwrap();
    assert_eq!(p.pixels(), &[255, 0, 0, 255, 0, 0, 255, 255]);
    match Pixmap::from_png_file(Err(String::from("no such file"))) {
        Err(Error::DecodeError(message)) => assert_eq!(message, "no such file"),
        _ => panic!("expected a decode error"),
    }
}

#[test]
fn bytes_that_are_no_png_give_a_decode_error() {
    let r = Pixmap::from_png(png::Data::StaticBytes(b"not a png"));
    assert!(matches!(r, Err(Error::DecodeError(_))));
}

#[test]
fn resize_to_the_logical_size_keeps_the_pixmap() {
    let p = Pixmap::from_png(png::Data::Rgba { width: 1, height: 1, pixels: vec![9, 8, 7, 6] }).unwrap();
    let r = p.resize(Resize { width: 1, height: 1, filter: Filter::Auto }).unwrap();
    assert_eq!(r.pixels(), p.pixels());
}

#[test]
fn resize_changes_the_size() {
    let p = Pixmap::from_png(png::Data::Rgba { width: 2, height: 2, pixels: vec![200; 16] }).unwrap();
    let r = p.resize(Resize { width: 4, height: 3, filter: Filter::Point }).unwrap();
    assert_eq!(r.physical_size(), (4, 3));
    assert_eq!(r.logical_size(), (4, 3));
    assert_eq!(r.pixels().len(), 48);
    assert!(r.pixels().iter().all(|b| *b == 200));
    assert!(p.resize(Resize { width: 0, height: 3, filter: Filter::Point }).is_none());
}

#[test]
fn automatic_filter_choice() {
    let r = |w, h| Resize { width: w, height: h, filter: Filter::Auto };
    assert_eq!(resize_filter((10, 10), r(5, 5)), ResizeType::Lanczos3);
    assert_eq!(resize_filter((10, 10), r(20, 20)), ResizeType::Mitchell);
    assert_eq!(resize_filter((10, 10), r(20, 5)), ResizeType::Catrom);
    assert_eq!(resize_filter((10, 10), r(10, 10)), ResizeType::Catrom);
    let g = Resize { width: 1, height: 1, filter: Filter::Gaussian };
    assert_eq!(resize_filter((10, 10), g), ResizeType::Gaussian);
}

#[test]
fn red_and_blue_swap() {
    let mut px = vec![1, 2, 3, 4, 5, 6, 7, 8];
    swap_red_blue(&mut px);
    assert_eq!(px, vec![3, 2, 1, 4, 7, 6, 5, 8]);
    let p = Pixmap::from_rendered_svg(vec![1, 2, 3, 4], (1, 1), (2, 2));
    assert_eq!(p.pixels(), &[3, 2, 1, 4]);
    assert_eq!(p.logical_size(), (2, 2));
}

#[test]
fn shared_pixels_round_trip() {
    let p = Pixmap::from_png(png::Data::Rgba { width: 1, height: 1, pixels: vec![1, 2, 3, 4] }).unwrap();
    let shared = p.shared_pixels();
    let q = Pixmap::from_shared(shared.clone(), (1, 1), (1, 1)).unwrap();
    assert_eq!(q.pixels(), p.pixels());
    assert!(Pixmap::from_shared(shared, (2, 1), (2, 1)).is_none());
}

#[test]
fn image_descriptions() {
    let i = Image::rgba(vec![0; 4], 1, 1).resize(Resize { width: 2, height: 2, filter: Filter::Point });
    let (ty, resize) = i.into_parts();
    assert!(matches!(ty, Type::Png(png::Data::Rgba { width: 1, height: 1, .. })));
    assert_eq!(resize, Some(Resize { width: 2, height: 2, filter: Filter::Point }));
    let (ty, resize) = Image::png(png::Data::StaticBytes(&RED_BLUE_PNG)).into_parts();
    assert!(matches!(ty, Type::Png(png::Data::StaticBytes(_))));
    assert_eq!(resize, None);
}

#[test]
fn resize_with_a_platform_dependent_filter_has_the_right_length() {
    let p = Pixmap::from_png(png::Data::Rgba { width: 2, height: 1, pixels: vec![0; 8] }).unwrap();
    let q = p.resize(Resize { width: 4, height: 2, filter: Filter::Lanczos3 }).unwrap();
    assert_eq!(p.logical_size(), (2, 1));
    assert_eq!(q.logical_size(), (4, 2));
    assert_eq!(q.physical_size(), (4, 2));
    assert_eq!(q.pixels().len(), 32);
}
