use qtm2::category::Category;
use qtm2::dialog::DialogMessage;
use qtm2::image::Image;
use qtm2::qtm::{get_category_caption, size_text, Content, Qtm};
use qtm2::qtm_config::{QtmConfig, QtmTheme};
use qtm2::tag::TagData;
use qtm2::torrent::TorrentEvent;

fn form() -> Qtm {
    Qtm::new(QtmConfig::default(), TagData::default_tags())
}

fn filled() -> Qtm {
    let mut form = form();
    form.set_content(Some(Content { path: "/data/film.mkv".to_owned(), size: 1_500_000 }));
    assert!(form.select_category(0, Category::Clips));
    assert!(form.add_images(vec![Image::new("/data/cover.png", "cover.png", 2048)]).is_empty());
    form.set_title("A film".to_owned());
    form.set_description("About the film".to_owned());
    form
}

#[test]
fn sizes_are_shown_with_a_unit() {
    assert_eq!(size_text(0), "0 B");
    assert_eq!(size_text(999), "999 B");
    assert_eq!(size_text(1500), "1.5 KB");
    assert_eq!(size_text(1_500_000), "1.5 MB");
    assert_eq!(size_text(2_000_000_000), "2.0 GB");
}

#[test]
fn the_first_box_is_the_category_and_the_others_are_sub_categories() {
    assert_eq!(get_category_caption(0), "Category:");
    assert_eq!(get_category_caption(1), "Sub-category 1:");
    assert_eq!(get_category_caption(4), "Sub-category 4:");
    assert_eq!(get_category_caption(12), "Sub-category 12:");
}

#[test]
fn a_new_form_is_empty() {
    let form = form();
    assert!(form.dialog().is_none());
    assert!(form.is_file());
    assert!(form.content().is_none());
    assert_eq!(form.categories().levels(), [Category::Unselected; 5]);
    assert!(form.gallery().is_empty());
    assert_eq!(form.gallery().selected_index(), None);
    assert_eq!(form.title(), "");
    assert_eq!(form.description(), "");
    assert_eq!(form.tags().len(), 12);
    assert!(form.tags().selected().is_empty());
    assert!(!form.is_tag_menu_open());
    assert_eq!(form.config().theme, QtmTheme::Light);
    assert!(form.is_input_enabled());
    assert!(!form.is_acceptable());
    assert!(!form.can_upload());
    assert!(form.start_upload().is_none());
    assert!(form.content_size_text().is_none());
}

#[test]
fn a_filled_form_is_acceptable() {
    let form = filled();
    assert!(form.is_acceptable());
    assert!(form.can_upload());
    assert_eq!(form.content_size_text().as_deref(), Some("1.5 MB"));
    let (path, message) = form.start_upload().unwrap();
    assert_eq!(path, "/data/film.mkv");
    assert_eq!(message.0, "Creating torrent...\n\nThis may take a while...");
    assert!(!message.1);
}

#[test]
fn a_form_without_content_is_not_acceptable() {
    let mut form = filled();
    form.set_content(None);
    assert!(!form.is_acceptable());
    assert!(form.start_upload().is_none());
}

#[test]
fn a_form_without_a_category_is_not_acceptable() {
    let mut form = filled();
    assert!(form.select_category(0, Category::Unselected));
    assert!(!form.is_acceptable());
}

#[test]
fn a_form_without_an_image_is_not_acceptable() {
    let mut form = filled();
    form.select_image(0);
    form.remove_image();
    assert!(form.gallery().is_empty());
    assert!(!form.is_acceptable());
}

#[test]
fn a_form_with_a_blank_title_or_description_is_not_acceptable() {
    let mut form = filled();
    form.set_title("  \t ".to_owned());
    assert!(!form.is_acceptable());
    form.set_title("x".to_owned());
    assert!(form.is_acceptable());
    form.set_description("\n\n".to_owned());
    assert!(!form.is_acceptable());
    form.set_description(String::new());
    assert!(!form.is_acceptable());
    form.set_description(" . ".to_owned());
    assert!(form.is_acceptable());
}

#[test]
fn a_message_or_the_tag_menu_blocks_the_form() {
    let mut form = filled();
    assert!(form.offer_message(DialogMessage::new("wait", false)).is_none());
    assert!(!form.is_input_enabled());
    assert!(form.is_acceptable());
    assert!(!form.can_upload());
    assert!(form.start_upload().is_none());
    form.dismiss_dialog();
    assert!(form.can_upload());
    form.toggle_tag_menu();
    assert!(form.is_tag_menu_open());
    assert!(!form.is_input_enabled());
    assert!(!form.can_upload());
    form.toggle_tag_menu();
    assert!(!form.is_tag_menu_open());
    form.toggle_tag_menu();
    form.close_tag_menu();
    assert!(!form.is_tag_menu_open());
    form.close_tag_menu();
    assert!(!form.is_tag_menu_open());
    assert!(form.can_upload());
}

#[test]
fn a_message_without_the_button_gives_way_to_the_next() {
    let mut form = form();
    assert!(form.accepts_message());
    assert!(form.offer_message(TorrentEvent::Started.message()).is_none());
    assert!(form.accepts_message());
    assert!(form.offer_message(TorrentEvent::Written.message()).is_none());
    assert_eq!(
        form.dialog().as_ref().unwrap().0,
        "Torrent has been written to disk successfully\n\nUploading..."
    );
    assert!(!form.accepts_message());
    let refused = form.offer_message(DialogMessage::new("later", true)).unwrap();
    assert_eq!(refused.0, "later");
    assert!(refused.1);
    assert_eq!(
        form.dialog().as_ref().unwrap().0,
        "Torrent has been written to disk successfully\n\nUploading..."
    );
    form.dismiss_dialog();
    assert!(form.dialog().is_none());
    assert!(form.offer_message(refused).is_none());
    assert_eq!(form.dialog().as_ref().unwrap().0, "later");
}

#[test]
fn the_theme_toggles() {
    let mut form = form();
    assert_eq!(form.toggle_theme(), QtmTheme::Dark);
    assert_eq!(form.config().theme, QtmTheme::Dark);
    assert_eq!(form.toggle_theme(), QtmTheme::Light);
    assert_eq!(form.config().theme, QtmTheme::Light);
    assert_eq!(form.config().initial_window_size, (800, 700));
}

#[test]
fn the_default_directory_is_kept_in_the_settings() {
    let mut form = form();
    assert_eq!(form.config().default_directory, None);
    form.set_default_directory("/home/user".to_owned());
    assert_eq!(form.config().default_directory.as_deref(), Some("/home/user"));
    assert_eq!(form.config().theme, QtmTheme::Light);
}

#[test]
fn a_change_between_file_and_folder_drops_the_content() {
    let mut form = filled();
    form.set_is_file(true);
    assert!(form.content().is_some());
    form.set_is_file(false);
    assert!(!form.is_file());
    assert!(form.content().is_none());
    form.set_content(Some(Content { path: "/data/folder".to_owned(), size: 5 }));
    form.set_is_file(false);
    assert_eq!(form.content().as_ref().unwrap().path, "/data/folder");
    form.set_is_file(true);
    assert!(form.is_file());
    assert!(form.content().is_none());
}

#[test]
fn categories_are_chosen_level_by_level() {
    let mut form = form();
    assert!(!form.select_category(1, Category::Solo));
    assert!(form.select_category(0, Category::Solo));
    assert!(form.select_category(1, Category::Clips));
    assert!(!form.select_category(2, Category::Solo));
    assert!(form.select_category(2, Category::Hunks));
    assert!(!form.category_options(2).contains(&Category::Solo));
    assert!(!form.category_options(2).contains(&Category::Clips));
    assert!(form.category_options(2).contains(&Category::Hunks));
    assert_eq!(form.category_options(0).len(), 45);
    assert_eq!(form.category_options(2).len(), 43);
    assert!(form.select_category(0, Category::Bears));
    assert_eq!(
        form.categories().levels(),
        [
            Category::Bears,
            Category::Unselected,
            Category::Unselected,
            Category::Unselected,
            Category::Unselected
        ]
    );
}

#[test]
fn images_are_attached_once_and_moved_with_the_selection() {
    let mut form = form();
    let rejected = form.add_images(vec![
        Image::new("/a.png", "a.png", 1),
        Image::new("/b.png", "b.png", 2),
        Image::new("/a.png", "a.png", 1),
    ]);
    assert_eq!(rejected, ["a.png"]);
    let rejected =
        form.add_images(vec![Image::new("/b.png", "b.png", 2), Image::new("/c.png", "c.png", 3)]);
    assert_eq!(rejected, ["b.png"]);
    let names = |form: &Qtm| -> Vec<String> {
        form.gallery().images().iter().map(|i| i.filename.clone()).collect()
    };
    assert_eq!(names(&form), ["a.png", "b.png", "c.png"]);
    form.select_image(3);
    assert_eq!(form.gallery().selected_index(), None);
    form.select_image(0);
    form.move_image_up();
    assert_eq!(names(&form), ["a.png", "b.png", "c.png"]);
    form.move_image_down();
    assert_eq!(names(&form), ["b.png", "a.png", "c.png"]);
    assert_eq!(form.gallery().selected_index(), Some(1));
    form.move_image_down();
    form.move_image_down();
    assert_eq!(names(&form), ["b.png", "c.png", "a.png"]);
    assert_eq!(form.gallery().selected_index(), Some(2));
    form.move_image_up();
    assert_eq!(names(&form), ["b.png", "a.png", "c.png"]);
    form.remove_image();
    assert_eq!(names(&form), ["b.png", "c.png"]);
    assert_eq!(form.gallery().selected_index(), None);
    form.remove_image();
    assert_eq!(names(&form), ["b.png", "c.png"]);
}

#[test]
fn tags_are_selected_in_the_menu_and_dropped_on_the_chip() {
    let mut form = form();
    form.toggle_tag(1);
    form.toggle_tag(5);
    assert_eq!(form.tags().selected(), [1, 5]);
    assert_eq!(form.tags().tag(1).text, "Chaturbate");
    form.toggle_tag(1);
    assert_eq!(form.tags().selected(), [5]);
    form.deselect_tag(5);
    form.deselect_tag(6);
    form.toggle_tag(40);
    assert!(form.tags().selected().is_empty());
}
