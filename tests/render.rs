use pixeltext::decode::{color_mode, output, pixelstr, Arg, ColorMode, Conversion, DecodeError};
use pixeltext::silhouette::{self, alpha_mask, input_param, SilhouetteError};
use pixeltext::text::{push_decimal, push_field};
use pixeltext::Image;

fn text(bytes: Vec<u8>) -> String {
    String::from_utf8(bytes).unwrap()
}

#[test]
fn decimal_digits() {
    for (v, s) in [(0u8, "0"), (7, "7"), (10, "10"), (99, "99"), (100, "100"), (205, "205"), (255, "255")] {
        let mut out = b"x".to_vec();
        push_decimal(&mut out, v);
        assert_eq!(text(out), format!("x{}", s));
    }
}

#[test]
fn field_has_trailing_space() {
    let mut out = Vec::new();
    push_field(&mut out, 42);
    push_field(&mut out, 0);
    assert_eq!(text(out), "42 0 ");
}

#[test]
fn image_new_checks_length() {
    assert!(Image::new(2, 3, 4, vec![0; 24]).is_some());
    assert!(Image::new(2, 3, 4, vec![0; 23]).is_none());
    assert!(Image::new(2, 3, 4, vec![0; 25]).is_none());
    assert!(Image::new(0, 3, 4, vec![]).is_some());
    assert!(Image::new(usize::MAX, 2, 1, vec![]).is_none());
    assert!(Image::new(usize::MAX, 2, 0, vec![]).is_some());
    let img = Image::new(2, 1, 3, vec![1, 2, 3, 4, 5, 6]).unwrap();
    assert_eq!((img.width(), img.height(), img.channels()), (2, 1, 3));
    assert_eq!(img.pixel(0, 1, 2), 6);
    assert_eq!(img.pixel(0, 0, 1), 2);
}

#[test]
fn silhouette_params_in_order() {
    let arg = |width, height| silhouette::Arg { width, height, iname: "a.png".to_string() };
    assert_eq!(input_param(&arg(0, 0), false), Err(SilhouetteError::Width));
    assert_eq!(input_param(&arg(-3, 5), true), Err(SilhouetteError::Width));
    assert_eq!(input_param(&arg(4, 0), false), Err(SilhouetteError::Height));
    assert_eq!(input_param(&arg(4, 2), false), Err(SilhouetteError::MissingFile));
    assert_eq!(input_param(&arg(4, 2), true), Ok(()));
}

#[test]
fn silhouette_error_codes() {
    assert_eq!(SilhouetteError::Width.code(), 21);
    assert_eq!(SilhouetteError::Height.code(), 22);
    assert_eq!(SilhouetteError::MissingFile.code(), 23);
    assert_eq!(SilhouetteError::OpenImage.code(), 11);
    assert_eq!(SilhouetteError::Resize.code(), 12);
    assert_eq!(SilhouetteError::Width.message(), "negative specifed for width");
    assert_eq!(SilhouetteError::MissingFile.message(), "input file not exist");
    assert_eq!(SilhouetteError::Resize.message(), "resize image failed");
}

#[test]
fn alpha_mask_rows() {
    let data = vec![
        9, 9, 9, 255,   9, 9, 9, 0,     0, 0, 0, 1,
        9, 9, 9, 0,     0, 0, 0, 128,   9, 9, 9, 0,
    ];
    let img = Image::new(3, 2, 4, data).unwrap();
    assert_eq!(text(alpha_mask(&img)), "1 0 1 \n0 1 0 \n");
}

#[test]
fn alpha_mask_empty_image() {
    let img = Image::new(0, 0, 4, vec![]).unwrap();
    assert_eq!(alpha_mask(&img), Vec::<u8>::new());
    let img = Image::new(0, 2, 4, vec![]).unwrap();
    assert_eq!(text(alpha_mask(&img)), "\n\n");
}

#[test]
fn color_mode_priority() {
    assert_eq!(color_mode(false, false, false), ColorMode::Rgb);
    assert_eq!(color_mode(true, true, true), ColorMode::Gray);
    assert_eq!(color_mode(true, false, false), ColorMode::Gray);
    assert_eq!(color_mode(false, true, true), ColorMode::Hue);
    assert_eq!(color_mode(false, false, true), ColorMode::Hsv);
    let arg = Arg { width: 1, height: 1, isgray: false, ishue: false, ishsv: true, imgname: "x".to_string() };
    assert_eq!(arg.mode(), ColorMode::Hsv);
}

#[test]
fn conversions_and_failures() {
    assert_eq!(ColorMode::Rgb.conversion(), Conversion::Keep);
    assert_eq!(ColorMode::Gray.conversion(), Conversion::BgrToGray);
    assert_eq!(ColorMode::Hue.conversion(), Conversion::BgrToHsv);
    assert_eq!(ColorMode::Hsv.conversion(), Conversion::BgrToHsv);
    assert_eq!(ColorMode::Gray.channels(), 1);
    assert_eq!(ColorMode::Hue.channels(), 3);
    assert_eq!(Conversion::Keep.failure(), None);
    assert_eq!(Conversion::BgrToGray.failure(), Some(DecodeError::GrayConversion));
    assert_eq!(Conversion::BgrToHsv.failure(), Some(DecodeError::HsvConversion));
    assert_eq!(DecodeError::OpenImage.code(), 10);
    assert_eq!(DecodeError::Resize.code(), 11);
    assert_eq!(DecodeError::GrayConversion.code(), 12);
    assert_eq!(DecodeError::HsvConversion.code(), 13);
    assert_eq!(DecodeError::HsvConversion.message(), "convert color failed");
    assert_eq!(DecodeError::OpenImage.message(), "cannot open image");
}

#[test]
fn output_three_channels() {
    let img = Image::new(2, 2, 3, vec![1, 2, 3, 40, 50, 60, 255, 0, 7, 100, 10, 1]).unwrap();
    let rgb = "1 2 3 40 50 60 \n255 0 7 100 10 1 \n";
    assert_eq!(text(output(&img, ColorMode::Rgb)), rgb);
    assert_eq!(text(output(&img, ColorMode::Hsv)), rgb);
    assert_eq!(text(output(&img, ColorMode::Hue)), "1 40 \n255 100 \n");
    assert_eq!(text(pixelstr(&img, ColorMode::Rgb, 1, 0)), "255 0 7 ");
    assert_eq!(text(pixelstr(&img, ColorMode::Hue, 0, 1)), "40 ");
}

#[test]
fn output_gray() {
    let img = Image::new(3, 2, 1, vec![0, 9, 18, 200, 255, 31]).unwrap();
    assert_eq!(text(output(&img, ColorMode::Gray)), "0 9 18 \n200 255 31 \n");
    assert_eq!(text(pixelstr(&img, ColorMode::Gray, 1, 1)), "255 ");
}

fn lines_and_values(s: &str) -> Vec<usize> {
    assert!(s.is_empty() || s.ends_with('\n'));
    s.lines().map(|l| l.split(' ').filter(|v| !v.is_empty()).count()).collect()
}

#[test]
fn output_is_height_lines_of_width_values() {
    let data: Vec<u8> = (0..60).map(|v| (v * 7) as u8).collect();
    let img = Image::new(5, 4, 3, data).unwrap();
    assert_eq!(lines_and_values(&text(output(&img, ColorMode::Rgb))), vec![15; 4]);
    assert_eq!(lines_and_values(&text(output(&img, ColorMode::Hue))), vec![5; 4]);
    let gray = Image::new(4, 3, 1, vec![250; 12]).unwrap();
    assert_eq!(lines_and_values(&text(output(&gray, ColorMode::Gray))), vec![4; 3]);
}

#[test]
fn mask_is_height_lines_of_width_values() {
    let data: Vec<u8> = (0..48).map(|v| (v * 13) as u8).collect();
    let img = Image::new(4, 3, 4, data).unwrap();
    let mask = text(alpha_mask(&img));
    assert_eq!(lines_and_values(&mask), vec![4; 3]);
    assert!(mask.split_whitespace().all(|v| v == "0" || v == "1"));
}
