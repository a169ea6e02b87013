use image::{DynamicImage, GenericImageView};
use little_exif::exif_tag::ExifTag;
use little_exif::metadata::Metadata;
use recipe::rotate::{
    apply_rotation, file_report, picture_file, rotate_summary, rotateit, run_result, upright_metadata, FileOutcome,
    Rotation,
};

#[test]
fn invalid_turn_codes() {
    let list = vec!["a.jpg".to_string()];
    match rotateit(&"/pics".to_string(), &list, 3) {
        Err((c, m)) => assert_eq!((c, m.as_str()), (1, "********* invalid rottype of 3 **********")),
        Ok(_) => panic!("accepted"),
    }
    match rotateit(&"/pics".to_string(), &list, -1) {
        Err((c, m)) => assert_eq!((c, m.as_str()), (1, "********* invalid rottype of -1 **********")),
        Ok(_) => panic!("accepted"),
    }
}

#[test]
fn turn_plans() {
    let list = vec!["a.jpg".to_string(), "b c.png".to_string()];
    let plan = rotateit(&"/pics".to_string(), &list, 0).ok().unwrap();
    assert_eq!(plan.rotation, Rotation::Clockwise);
    assert_eq!(plan.paths, vec!["/pics/a.jpg".to_string(), "/pics/b c.png".to_string()]);
    assert_eq!(rotateit(&"d".to_string(), &list, 1).ok().unwrap().rotation, Rotation::CounterClockwise);
    assert_eq!(rotateit(&"d".to_string(), &list, 2).ok().unwrap().rotation, Rotation::HalfTurn);
    assert!(rotateit(&"d".to_string(), &vec![], 2).ok().unwrap().paths.is_empty());
    assert_eq!(picture_file(&"dir".to_string(), &"x.jpg".to_string()), "dir/x.jpg");
}

#[test]
fn turning_changes_the_picture() {
    let mut img = DynamicImage::new_rgb8(3, 2);
    if let DynamicImage::ImageRgb8(buf) = &mut img {
        buf.put_pixel(0, 0, image::Rgb([255, 0, 0]));
    }
    let cw = apply_rotation(&img, Rotation::Clockwise);
    assert_eq!(cw.dimensions(), (2, 3));
    assert_eq!(cw.get_pixel(1, 0).0, [255, 0, 0, 255]);
    let ccw = apply_rotation(&img, Rotation::CounterClockwise);
    assert_eq!(ccw.dimensions(), (2, 3));
    assert_eq!(ccw.get_pixel(0, 2).0, [255, 0, 0, 255]);
    let half = apply_rotation(&img, Rotation::HalfTurn);
    assert_eq!(half.dimensions(), (3, 2));
    assert_eq!(half.get_pixel(2, 1).0, [255, 0, 0, 255]);
    let back = apply_rotation(&cw, Rotation::CounterClockwise);
    assert_eq!(back.to_rgb8().into_raw(), img.to_rgb8().into_raw());
}

#[test]
fn upright_metadata_keeps_presence() {
    assert!(upright_metadata(None).is_none());
    let meta = upright_metadata(Some(Metadata::new())).unwrap();
    let tags: Vec<_> = meta.get_tag(&little_exif::exif_tag::ExifTag::Orientation(vec![])).collect();
    assert_eq!(tags.len(), 1);
    assert_eq!(tags[0], &little_exif::exif_tag::ExifTag::Orientation(vec![1]));
}

#[test]
fn upright_metadata_replaces_orientation_and_keeps_the_rest() {
    let mut meta = Metadata::new();
    meta.set_tag(ExifTag::Orientation(vec![6]));
    meta.set_tag(ExifTag::ImageDescription("holiday".to_string()));
    let meta = upright_metadata(Some(meta)).unwrap();
    let orientation: Vec<_> = meta.get_tag(&ExifTag::Orientation(vec![])).collect();
    assert_eq!(orientation, vec![&ExifTag::Orientation(vec![1])]);
    let description: Vec<_> = meta.get_tag(&ExifTag::ImageDescription(String::new())).collect();
    assert_eq!(description, vec![&ExifTag::ImageDescription("holiday".to_string())]);
}

#[test]
fn file_reports() {
    let p = "/pics/a.jpg".to_string();
    assert_eq!(file_report(&p, &FileOutcome::Rotated), None);
    assert_eq!(
        file_report(&p, &FileOutcome::Missing),
        Some((2, "********* rotate ERROR file: /pics/a.jpg does not exist **********".to_string()))
    );
    assert_eq!(
        file_report(&p, &FileOutcome::OpenFailed("bad".to_string())),
        Some((5, "Failure to open image file: /pics/a.jpg  error: bad".to_string()))
    );
    assert_eq!(
        file_report(&p, &FileOutcome::SaveFailed("disk".to_string())),
        Some((4, "Failure to save file: /pics/a.jpg  error: disk".to_string()))
    );
    assert_eq!(
        file_report(&p, &FileOutcome::MetadataFailed("exif".to_string())),
        Some((3, "Failure to save metadata for file: /pics/a.jpg error: exif".to_string()))
    );
}

#[test]
fn summaries() {
    assert_eq!(rotate_summary(3, 0), (0, "rotated 3 files in 0 seconds".to_string()));
    assert_eq!(rotate_summary(0, 12), (0, "rotated 0 files in 12 seconds".to_string()));
}

#[test]
fn turning_moves_every_pixel() {
    let (w, h) = (4u32, 3u32);
    let mut buf = image::RgbaImage::new(w, h);
    for y in 0..h {
        for x in 0..w {
            buf.put_pixel(x, y, image::Rgba([x as u8, y as u8, (10 * x + y) as u8, 255]));
        }
    }
    let img = DynamicImage::ImageRgba8(buf);
    let cw = apply_rotation(&img, Rotation::Clockwise);
    let ccw = apply_rotation(&img, Rotation::CounterClockwise);
    let half = apply_rotation(&img, Rotation::HalfTurn);
    assert_eq!(cw.dimensions(), (h, w));
    assert_eq!(ccw.dimensions(), (h, w));
    assert_eq!(half.dimensions(), (w, h));
    for y in 0..w {
        for x in 0..h {
            assert_eq!(cw.get_pixel(x, y), img.get_pixel(y, h - 1 - x));
            assert_eq!(ccw.get_pixel(x, y), img.get_pixel(w - 1 - y, x));
        }
    }
    for y in 0..h {
        for x in 0..w {
            assert_eq!(half.get_pixel(x, y), img.get_pixel(w - 1 - x, h - 1 - y));
        }
    }
}

#[test]
fn whole_runs() {
    let paths = vec!["d/a.jpg".to_string(), "d/b.jpg".to_string(), "d/c.jpg".to_string()];
    assert_eq!(
        run_result(&paths, &vec![FileOutcome::Rotated, FileOutcome::Rotated, FileOutcome::Rotated], 3, 4),
        (0, "rotated 3 files in 4 seconds".to_string())
    );
    assert_eq!(
        run_result(&paths, &vec![FileOutcome::Rotated, FileOutcome::Missing], 3, 4),
        (2, "********* rotate ERROR file: d/b.jpg does not exist **********".to_string())
    );
    assert_eq!(
        run_result(&paths, &vec![FileOutcome::SaveFailed("x".to_string()), FileOutcome::Missing], 3, 4),
        (4, "Failure to save file: d/a.jpg  error: x".to_string())
    );
    assert_eq!(run_result(&vec![], &vec![], 0, 0), (0, "rotated 0 files in 0 seconds".to_string()));
}
