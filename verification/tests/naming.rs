use image_converter::convert::output_file_name;
use image_converter::format::ImageFormat;

#[test]
fn extension_is_replaced() {
    assert_eq!(
        output_file_name("dir/photo.jpg", ImageFormat::Png),
        Some("photo.png".to_string())
    );
}

#[test]
fn bare_file_name_without_directory() {
    assert_eq!(
        output_file_name("photo.jpg", ImageFormat::Gif),
        Some("photo.gif".to_string())
    );
}

#[test]
fn only_final_extension_is_dropped() {
    assert_eq!(
        output_file_name("archive.tar.gz", ImageFormat::Webp),
        Some("archive.tar.webp".to_string())
    );
}

#[test]
fn name_without_extension_is_kept_whole() {
    assert_eq!(
        output_file_name("a/b/photo", ImageFormat::Jpeg),
        Some("photo.jpeg".to_string())
    );
}

#[test]
fn leading_dot_name_is_its_own_stem() {
    assert_eq!(
        output_file_name(".hidden", ImageFormat::Png),
        Some(".hidden.png".to_string())
    );
}

#[test]
fn path_without_file_name_is_rejected() {
    assert_eq!(output_file_name("some/dir/", ImageFormat::Png), None);
    assert_eq!(output_file_name("", ImageFormat::Png), None);
}

#[test]
fn extensions_name_their_format() {
    assert_eq!(ImageFormat::Png.extension(), "png");
    assert_eq!(ImageFormat::Jpeg.extension(), "jpeg");
    assert_eq!(ImageFormat::Webp.extension(), "webp");
    assert_eq!(ImageFormat::Gif.extension(), "gif");
}

#[test]
fn next_walks_the_cycle() {
    assert_eq!(ImageFormat::Png.next(), ImageFormat::Jpeg);
    assert_eq!(ImageFormat::Jpeg.next(), ImageFormat::Webp);
    assert_eq!(ImageFormat::Webp.next(), ImageFormat::Gif);
    assert_eq!(ImageFormat::Gif.next(), ImageFormat::Png);
}
