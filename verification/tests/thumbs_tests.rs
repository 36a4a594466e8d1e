use md5::{Digest, Md5};
use stellarfiles::thumbs::{image_thumbnail, thumbnail_cache_name, thumbnail_source, ThumbSource};

#[test]
fn cache_names_follow_the_thumbnail_spec() {
    let name = thumbnail_cache_name("/home/u/a.png");
    let expected: String = Md5::digest("file:///home/u/a.png".as_bytes())
        .iter()
        .map(|b| format!("{:02x}", b))
        .collect();
    assert_eq!(name, format!("{}.png", expected));
    assert_eq!(name.len(), 36);
    let empty = thumbnail_cache_name("");
    let hex: String = Md5::digest(b"file://").iter().map(|b| format!("{:02x}", b)).collect();
    assert_eq!(empty, format!("{}.png", hex));
}

#[test]
fn thumbnail_sources() {
    assert_eq!(thumbnail_source("/a/b.jpg"), ThumbSource::Image);
    assert_eq!(thumbnail_source("/a/b.pdf"), ThumbSource::Pdf);
    assert_eq!(thumbnail_source("/a/b.mkv"), ThumbSource::Video);
    assert_eq!(thumbnail_source("/a/b.txt"), ThumbSource::Nothing);
}

#[test]
fn thumbnails_of_images() {
    assert!(image_thumbnail(b"not an image").is_none());
    let img = image::RgbaImage::from_pixel(600, 300, image::Rgba([1, 2, 3, 255]));
    let mut png: Vec<u8> = Vec::new();
    image::DynamicImage::ImageRgba8(img)
        .write_to(&mut std::io::Cursor::new(&mut png), image::ImageFormat::Png)
        .unwrap();
    let (w, h, px) = image_thumbnail(&png).unwrap();
    assert_eq!((w, h), (256, 128));
    assert_eq!(px.len(), 256 * 128 * 4);
    assert_eq!(&px[0..4], &[1, 2, 3, 255]);
}
