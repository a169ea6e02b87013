use recipe::chooser::{chosen_directory, cut_at, line_field, same_text};
use recipe::gallery::{selected_count, Filter, ImageItem, ImageMessage, PageChoice};
use recipe::state::{MainState, MessageColor};

fn item(name: &str, picked: bool) -> ImageItem {
    let mut it = ImageItem::new(name.to_string(), vec![], 1, 1, 160);
    it.update(ImageMessage::Completed(picked));
    it
}

#[test]
fn start_up_states() {
    let s = MainState::new(None, false);
    assert_eq!(s.msg_value, " no input parameters");
    assert_eq!(s.mess_color, MessageColor::Neutral);
    assert_eq!(s.dir_value, "no directory");
    assert_eq!((s.from_value.as_str(), s.to_value.as_str(), s.size_value.as_str()), ("1", "16", "160"));
    assert_eq!(s.filter, Filter::All);
    assert_eq!(s.pagechoice_value, PageChoice::MAIN);
    assert_eq!(s.dirset, 0);
    assert!(s.images.is_empty());

    let s = MainState::new(Some("/pics".to_string()), true);
    assert_eq!(s.dir_value, "/pics");
    assert_eq!(s.mess_color, MessageColor::Success);
    assert_eq!(s.msg_value, "got a existing item. Hopefully a directory");

    let s = MainState::new(Some("/nowhere".to_string()), false);
    assert_eq!(s.dir_value, "no directory");
    assert_eq!(s.mess_color, MessageColor::Failure);
    assert_eq!(s.msg_value, "parameter directory of /nowhere does not exist");
}

#[test]
fn fields_and_filter() {
    let mut s = MainState::new(None, false);
    s.filter_changed(Filter::Completed);
    assert_eq!(s.filter, Filter::Completed);
    s.from_changed("3".to_string());
    s.to_changed("9".to_string());
    s.size_changed("80".to_string());
    assert_eq!((s.from_value.as_str(), s.to_value.as_str(), s.size_value.as_str()), ("3", "9", "80"));
    s.range_moved("10".to_string(), "16".to_string());
    assert_eq!((s.from_value.as_str(), s.to_value.as_str()), ("10", "16"));
}

#[test]
fn picking_and_unpicking() {
    let mut s = MainState::new(None, false);
    s.images = vec![item("a", false), item("b", false)];
    s.image_message(1, ImageMessage::Completed(true));
    assert!(!s.images[0].completed && s.images[1].completed);
    s.image_message(5, ImageMessage::Completed(true));
    assert!(!s.images[0].completed && s.images[1].completed);
    s.image_message(1, ImageMessage::Completed(false));
    assert!(!s.images[0].completed && !s.images[1].completed);
}

#[test]
fn pages() {
    let mut s = MainState::new(None, false);
    s.page_directory_selected(0, "ignored".to_string());
    assert_eq!((s.pagechoice_value, s.dirset), (PageChoice::GD, 1));
    assert_eq!(s.msg_value, "get directory selected");
    s.page_directory_selected(1, "cannot read".to_string());
    assert_eq!(s.msg_value, "cannot read");
    assert_eq!(s.mess_color, MessageColor::Success);
    s.page_main_selected();
    assert_eq!((s.pagechoice_value, s.dirset), (PageChoice::MAIN, 0));
    assert_eq!(s.msg_value, "page choice main selected");
}

#[test]
fn groups() {
    let mut s = MainState::new(None, false);
    s.group_listed(0, " ".to_string(), 17, 32, 40, vec![item("x", false)]);
    assert_eq!(s.msg_value, "from: 17   to: 32  of 40 images");
    assert_eq!(s.mess_color, MessageColor::Success);
    assert_eq!(s.images.len(), 1);
    s.group_listed(3, "bad".to_string(), 0, 0, 0, vec![]);
    assert_eq!(s.msg_value, "bad");
    assert_eq!(s.mess_color, MessageColor::Failure);
    assert_eq!(s.images.len(), 1);
    s.step_failed("oops".to_string());
    assert_eq!((s.msg_value.as_str(), s.mess_color), ("oops", MessageColor::Failure));
}

#[test]
fn turning_steps() {
    let mut s = MainState::new(None, false);
    s.images = vec![item("a", false), item("b", false)];
    assert!(s.rotation_request().is_none());
    assert_eq!(s.msg_value, "no images selected");
    assert_eq!(s.mess_color, MessageColor::Failure);
    s.images = vec![item("a", true), item("b", false), item("c", true)];
    let names = s.rotation_request().unwrap();
    assert_eq!(names, vec!["a".to_string(), "c".to_string()]);
    assert!(s.rotation_checked(&names, 0, String::new()));
    assert_eq!(s.msg_value, "2 images selected a");
    assert!(!s.rotation_checked(&names, 4, "refused".to_string()));
    assert_eq!((s.msg_value.as_str(), s.mess_color), ("refused", MessageColor::Failure));
    s.rotation_finished(0, "rotated 2 files in 0 seconds".to_string());
    assert_eq!(s.mess_color, MessageColor::Success);
    s.rotation_finished(5, "Failure".to_string());
    assert_eq!(s.mess_color, MessageColor::Failure);
}

#[test]
fn chooser_fields() {
    assert_eq!(cut_at("DIR | /a | x", " | "), Some(("DIR".to_string(), "/a | x".to_string())));
    assert_eq!(cut_at("plain", " | "), None);
    assert_eq!(line_field("DIR | /a | ..parent", 0), Some("DIR".to_string()));
    assert_eq!(line_field("DIR | /a | ..parent", 1), Some("/a".to_string()));
    assert_eq!(line_field("DIR | /a | ..parent", 2), Some("..parent".to_string()));
    assert_eq!(line_field("FILE | x", 2), None);
    assert_eq!(line_field("alone", 0), Some("alone".to_string()));
    assert!(same_text("DIR", "DIR"));
    assert!(!same_text("DIR", "DIRS"));
}

#[test]
fn chooser_decisions() {
    let cur = "/home/me".to_string();
    assert_eq!(chosen_directory(&vec![], &cur), Err("no item selected".to_string()));
    let two = vec!["DIR | a | b".to_string(), "DIR | c | d".to_string()];
    assert_eq!(chosen_directory(&two, &cur), Err("more than 1 item selected".to_string()));
    let file = vec!["FILE | x.jpg".to_string()];
    assert_eq!(chosen_directory(&file, &cur), Err("FILE | x.jpg is not a directory".to_string()));
    let parent = vec!["DIR | /home | ..parent".to_string()];
    assert_eq!(chosen_directory(&parent, &cur), Ok("/home".to_string()));
    let child = vec!["DIR | pics | 12 items".to_string()];
    assert_eq!(chosen_directory(&child, &cur), Ok("/home/me/pics".to_string()));
    let lines: Vec<&str> = "DIR | pics | 12 items".split(" | ").collect();
    assert_eq!(lines.len(), 3);
}

#[test]
fn chooser_listing_and_set_directory() {
    let mut s = MainState::new(None, false);
    assert_eq!(s.scrol_value, " No directory selected \n ");
    s.chooser_listed(0, "12 items".to_string());
    assert_eq!((s.msg_value.as_str(), s.mess_color), ("12 items", MessageColor::Success));
    s.chooser_listed(2, "cannot list".to_string());
    assert_eq!(s.mess_color, MessageColor::Failure);

    s.directory_set("/gone".to_string(), false, None);
    assert_eq!(s.msg_value, "directory /gone does not exist");
    assert_eq!(s.mess_color, MessageColor::Failure);

    s.page_main_selected();
    s.directory_set("/pics".to_string(), true, None);
    assert_eq!(s.msg_value, "directory has been set with /pics");
    assert_eq!(s.dir_value, "no directory");

    s.page_directory_selected(0, String::new());
    s.directory_set("/pics".to_string(), true, Some((0, String::new(), "a.jpg\n".to_string())));
    assert_eq!(s.dir_value, "/pics");
    assert_eq!(s.scrol_value, "a.jpg\n");
    assert_eq!(s.pagechoice_value, PageChoice::MAIN);
    assert_eq!(s.mess_color, MessageColor::Success);

    s.page_directory_selected(0, String::new());
    s.directory_set("/other".to_string(), true, Some((1, "unreadable".to_string(), String::new())));
    assert_eq!(s.dir_value, "/other");
    assert_eq!(s.msg_value, "unreadable");
    assert_eq!(s.pagechoice_value, PageChoice::GD);
    assert_eq!(s.mess_color, MessageColor::Failure);
}

#[test]
fn picking_changes_count_by_one() {
    let mut s = MainState::new(None, false);
    s.images = vec![item("a", false), item("b", true), item("c", false)];
    assert_eq!(selected_count(&s.images), 1);
    s.image_message(0, ImageMessage::Completed(true));
    assert_eq!(selected_count(&s.images), 2);
    s.image_message(0, ImageMessage::Completed(true));
    assert_eq!(selected_count(&s.images), 2);
    s.image_message(1, ImageMessage::Completed(false));
    assert_eq!(selected_count(&s.images), 1);
}

#[test]
fn next_group_steps() {
    let mut s = MainState::new(None, false);
    s.next_group_finished(0, " ".to_string(), "17".to_string(), "32".to_string());
    assert_eq!((s.from_value.as_str(), s.to_value.as_str()), ("17", "32"));
    assert_eq!(s.msg_value, " no input parameters");
    s.next_group_finished(7, "bad range".to_string(), " ".to_string(), " ".to_string());
    assert_eq!((s.from_value.as_str(), s.to_value.as_str()), ("17", "32"));
    assert_eq!((s.msg_value.as_str(), s.mess_color), ("bad range", MessageColor::Failure));
}

#[test]
fn failed_set_keeps_directory_text() {
    let mut s = MainState::new(None, false);
    s.page_directory_selected(0, String::new());
    s.directory_set("/x".to_string(), true, Some((1, "no".to_string(), "junk".to_string())));
    assert_eq!(s.scrol_value, " No directory selected \n ");
}
