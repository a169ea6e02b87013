use image::DynamicImage;
use recipe::gallery::{
    checked_group_gallery, empty_message, group_gallery, thumbnail_fits_check, group_names, layout_gallery, make_image_item, selected_count, selected_names, selection_label,
    thumbnail_size, Filter, ImageItem, ImageMessage, PageChoice,
};

fn item(name: &str, picked: bool) -> ImageItem {
    let mut it = ImageItem::new(name.to_string(), vec![1, 2, 3, 4], 1, 1, 160);
    it.update(ImageMessage::Completed(picked));
    it
}

#[test]
fn defaults() {
    assert_eq!(Filter::default(), Filter::All);
    assert_eq!(PageChoice::default(), PageChoice::MAIN);
}

#[test]
fn new_item_is_not_picked_and_update_only_changes_pick() {
    let mut it = ImageItem::new("a.jpg".to_string(), vec![9; 8], 2, 1, 160);
    assert!(!it.completed);
    it.update(ImageMessage::Completed(true));
    assert!(it.completed);
    assert_eq!(it.description, "a.jpg");
    assert_eq!(it.rgbconv, vec![9; 8]);
    assert_eq!((it.twidth, it.theight, it.ticon), (2, 1, 160));
    it.update(ImageMessage::Completed(false));
    assert!(!it.completed);
}

#[test]
fn filters_partition_items() {
    let items = vec![item("a", true), item("b", false), item("c", true)];
    let all = items.iter().filter(|i| Filter::All.matches(i)).count();
    let active = items.iter().filter(|i| Filter::Active.matches(i)).count();
    let completed = items.iter().filter(|i| Filter::Completed.matches(i)).count();
    assert_eq!(all, 3);
    assert_eq!(active + completed, 3);
    assert_eq!(completed, 2);
}

#[test]
fn picked_count_and_names() {
    let items = vec![item("a", true), item("b", false), item("c", true)];
    assert_eq!(selected_count(&items), 2);
    assert_eq!(selected_names(&items), vec!["a".to_string(), "c".to_string()]);
    assert_eq!(selected_count(&vec![]), 0);
}

#[test]
fn selection_labels() {
    assert_eq!(selection_label(0), "0 files selected");
    assert_eq!(selection_label(1), "1 file selected");
    assert_eq!(selection_label(12), "12 files selected");
}

#[test]
fn empty_texts() {
    assert_eq!(empty_message(Filter::All), "No directory selected or no files in directory");
    assert_eq!(empty_message(Filter::Active), "All files have been selected");
    assert_eq!(empty_message(Filter::Completed), "No files have been selected");
}

#[test]
fn layout_deals_in_turn() {
    let items: Vec<ImageItem> = (0..7).map(|i| item(&format!("{}", i), i % 3 != 1)).collect();
    let all = layout_gallery(&items, Filter::All);
    assert_eq!(all.columns, vec![vec![0, 4], vec![1, 5], vec![2, 6], vec![3]]);
    assert_eq!(all.visible, 4);
    let picked = layout_gallery(&items, Filter::Completed);
    assert_eq!(picked.columns, vec![vec![0, 6], vec![2], vec![3], vec![5]]);
    let unpicked = layout_gallery(&items, Filter::Active);
    assert_eq!(unpicked.columns, vec![vec![1], vec![4], vec![], vec![]]);
    assert_eq!(unpicked.visible, 4);
    let two = vec![item("x", false), item("y", false)];
    assert_eq!(layout_gallery(&two, Filter::All).visible, 2);
    assert_eq!(layout_gallery(&two, Filter::Completed).visible, 1);
    assert_eq!(layout_gallery(&vec![], Filter::All).visible, 1);
}

#[test]
fn thumbnail_sizes() {
    assert_eq!(thumbnail_size(400, 300, 160), (160, 120));
    assert_eq!(thumbnail_size(300, 400, 160), (120, 160));
    assert_eq!(thumbnail_size(100, 100, 160), (160, 160));
    assert_eq!(thumbnail_size(1000, 3, 160), (160, 0));
    assert_eq!(thumbnail_size(7, 0, 160), (160, 0));
}

#[test]
fn thumbnail_items_have_rgba_bytes() {
    let img = DynamicImage::new_rgb8(40, 20);
    let it = make_image_item("w.png".to_string(), &img, 40, 20, 16);
    assert_eq!((it.twidth, it.theight, it.ticon), (16, 8, 16));
    assert_eq!(it.rgbconv.len(), 4 * 16 * 8);
    assert!(!it.completed);
    assert_eq!(it.description, "w.png");
}

#[test]
fn group_name_ranges() {
    let list: Vec<String> = (1..=5).map(|i| format!("{}.jpg", i)).collect();
    assert_eq!(group_names(&list, 2, 4), vec!["2.jpg", "3.jpg", "4.jpg"]);
    assert_eq!(group_names(&list, 1, 5).len(), 5);
    assert!(group_names(&list, 4, 3).is_empty());
    assert!(group_names(&list, 9, 2).is_empty());
}

#[test]
fn thumbnail_bytes_follow_the_picture() {
    let mut buf = image::RgbaImage::new(40, 20);
    for y in 0..20 {
        for x in 0..40 {
            buf.put_pixel(x, y, image::Rgba([if x < 20 { 200 } else { 0 }, 0, 0, 255]));
        }
    }
    let img = DynamicImage::ImageRgba8(buf);
    let it = make_image_item("w.png".to_string(), &img, 40, 20, 16);
    let expected = image::imageops::thumbnail(&img, 16, 8).into_vec();
    assert_eq!(it.rgbconv, expected);
    let swapped = image::imageops::thumbnail(&img, 8, 16).into_vec();
    assert_ne!(it.rgbconv, swapped);
}

#[test]
fn group_galleries_skip_unreadable_pictures() {
    let names = vec!["a.jpg".to_string(), "b.jpg".to_string(), "c.jpg".to_string()];
    let loaded = vec![
        Some((40u32, 20u32, DynamicImage::new_rgb8(40, 20))),
        None,
        Some((10u32, 30u32, DynamicImage::new_rgb8(10, 30))),
    ];
    let items = group_gallery(&names, &loaded, 16);
    assert_eq!(items.len(), 2);
    assert_eq!(items[0].description, "a.jpg");
    assert_eq!((items[0].twidth, items[0].theight), (16, 8));
    assert_eq!(items[1].description, "c.jpg");
    assert_eq!((items[1].twidth, items[1].theight), (5, 16));
    assert!(items.iter().all(|i| !i.completed && i.ticon == 16));
    assert_eq!(items[1].rgbconv.len(), 4 * 5 * 16);
}

#[test]
fn thumbnail_fit_checks() {
    let img = DynamicImage::new_rgb8(40, 20);
    assert!(thumbnail_fits_check(40, 20, 16, &img));
    assert!(!thumbnail_fits_check(0, 0, 16, &img));
    assert!(!thumbnail_fits_check(4_000_000_000, 3_000_000_000, 2, &img));
    let wide = DynamicImage::new_rgb8(4200, 4200);
    assert!(!thumbnail_fits_check(4200, 4200, 1, &wide));
    assert!(thumbnail_fits_check(4200, 4200, 160, &wide));
}

#[test]
fn checked_group_galleries() {
    let names = vec!["a.jpg".to_string(), "b.jpg".to_string()];
    let good = vec![Some((40u32, 20u32, DynamicImage::new_rgb8(40, 20))), None];
    let items = checked_group_gallery(&names, &good, 16).unwrap();
    assert_eq!(items.len(), 1);
    assert_eq!(items[0].description, "a.jpg");
    let bad = vec![Some((40u32, 20u32, DynamicImage::new_rgb8(40, 20))), Some((0u32, 0u32, DynamicImage::new_rgb8(1, 1)))];
    assert!(checked_group_gallery(&names, &bad, 16).is_none());
}
