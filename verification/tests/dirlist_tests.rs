use recipe::dirlist::{get_dirlistr, image_name, listed_count, sort_names, DirEntryInfo};

fn file(name: &str) -> DirEntryInfo {
    DirEntryInfo { name: Some(name.to_string()), is_file: true }
}

#[test]
fn picture_names() {
    for n in ["a.jpg", "a.JPG", "a.jpeg", "a.JPEG", "a.png", "a.PNG", ".png"].iter() {
        assert!(image_name(n), "{}", n);
    }
    for n in ["a.Jpg", "a.gif", "jpg", "a.png.txt", ""].iter() {
        assert!(!image_name(n), "{}", n);
    }
}

#[test]
fn listing_keeps_sorted_pictures() {
    let entries = vec![
        file("zebra.png"),
        file("notes.txt"),
        DirEntryInfo { name: Some("folder.jpg".to_string()), is_file: false },
        DirEntryInfo { name: None, is_file: true },
        file("Apple.JPG"),
        file("apple.jpeg"),
        file("zebra.png"),
    ];
    let (code, msg, names) = get_dirlistr(&entries);
    assert_eq!(code, 0);
    assert_eq!(msg, "4 files in directory ");
    assert_eq!(names, vec!["Apple.JPG", "apple.jpeg", "zebra.png", "zebra.png"]);
}

#[test]
fn listing_without_pictures() {
    let entries = vec![file("a.txt"), DirEntryInfo { name: Some("b.png".to_string()), is_file: false }];
    let (code, msg, names) = get_dirlistr(&entries);
    assert_eq!(code, 1);
    assert_eq!(msg, "********* Directory 1: directory has no image files (jpg or png) **********");
    assert!(names.is_empty());
    let (code, _, _) = get_dirlistr(&vec![]);
    assert_eq!(code, 1);
}

#[test]
fn sorting_agrees_with_std() {
    let input: Vec<String> = ["img10.jpg", "img2.jpg", "Img1.jpg", "ä.png", "a.png", "img2.jpg", ""]
        .iter()
        .map(|s| s.to_string())
        .collect();
    let mut expected = input.clone();
    expected.sort();
    assert_eq!(sort_names(&input), expected);
}

#[test]
fn listing_counts_and_order_free() {
    let a = vec![file("b.png"), file("x.txt"), file("a.jpg"), DirEntryInfo { name: None, is_file: true }];
    let b = vec![DirEntryInfo { name: None, is_file: true }, file("a.jpg"), file("b.png"), file("x.txt")];
    assert_eq!(listed_count(&a), 2);
    assert_eq!(listed_count(&b), 2);
    assert_eq!(get_dirlistr(&a), get_dirlistr(&b));
}
