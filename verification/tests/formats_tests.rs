use rspin::formats::{format_from_extension, ImageKind};

#[test]
fn known_extensions_resolve() {
    assert_eq!(format_from_extension("png"), Some(ImageKind::PngFile));
    assert_eq!(format_from_extension("jpg"), Some(ImageKind::JpegFile));
    assert_eq!(format_from_extension("jpeg"), Some(ImageKind::JpegFile));
    assert_eq!(format_from_extension("gif"), Some(ImageKind::GifFile));
    assert_eq!(format_from_extension("webp"), Some(ImageKind::WebPFile));
    assert_eq!(format_from_extension("bmp"), Some(ImageKind::BmpFile));
    assert_eq!(format_from_extension("ico"), Some(ImageKind::IcoFile));
    assert_eq!(format_from_extension("tiff"), Some(ImageKind::TiffFile));
    assert_eq!(format_from_extension("tif"), Some(ImageKind::TiffFile));
}

#[test]
fn comparison_ignores_ascii_case() {
    assert_eq!(format_from_extension("PNG"), Some(ImageKind::PngFile));
    assert_eq!(format_from_extension("JpEg"), Some(ImageKind::JpegFile));
}

#[test]
fn unknown_extensions_resolve_to_none() {
    assert_eq!(format_from_extension("txt"), None);
    assert_eq!(format_from_extension(""), None);
    assert_eq!(format_from_extension("pngx"), None);
}
