use qtm2::file_dialog::{duplicate_message, select_images, Pred};
use qtm2::image::Image;

fn image(path: &str, filename: &str) -> Image {
    Image::new(path, filename, 10)
}

#[test]
fn no_duplicates_no_message() {
    assert!(duplicate_message(&Vec::new()).is_none());
}

#[test]
fn duplicates_are_named_one_on_each_line() {
    let message = duplicate_message(&vec!["a.png".to_owned()]).unwrap();
    assert_eq!(message.0, "Duplicate image:\n\na.png");
    assert!(message.1);
    let message =
        duplicate_message(&vec!["a.png".to_owned(), "b.jpg".to_owned(), "c.gif".to_owned()])
            .unwrap();
    assert_eq!(message.0, "Duplicate image:\n\na.png\nb.jpg\nc.gif");
    assert!(message.1);
}

#[test]
fn selecting_keeps_the_new_images_and_reports_the_others() {
    let current = vec![image("/p/a.png", "a.png"), image("/p/b.png", "b.png")];
    let picked = vec![
        image("/p/b.png", "b.png"),
        image("/q/a.png", "a.png"),
        image("/p/a.png", "a.png"),
    ];
    let (fresh, message) = select_images(&current, picked);
    assert_eq!(fresh.len(), 1);
    assert_eq!(fresh[0].path, "/q/a.png");
    let message = message.unwrap();
    assert_eq!(message.0, "Duplicate image:\n\nb.png\na.png");
    assert!(message.1);
}

#[test]
fn selecting_only_new_images_reports_nothing() {
    let current = vec![image("/p/a.png", "a.png")];
    let (fresh, message) = select_images(&current, vec![image("/p/b.png", "b.png")]);
    assert_eq!(fresh.len(), 1);
    assert!(message.is_none());
    let (fresh, message) = select_images(&current, Vec::new());
    assert!(fresh.is_empty());
    assert!(message.is_none());
}

#[derive(Debug, PartialEq)]
struct Builder(Vec<&'static str>);

impl Builder {
    fn step(mut self, name: &'static str) -> Self {
        self.0.push(name);
        self
    }
}

impl Pred for Builder {}

#[test]
fn a_builder_takes_the_step_that_the_test_chooses() {
    let taken = Builder(vec!["new"])
        .pred(|b| b.0.len() == 1, |b| b.step("yes"), |b| b.step("no"))
        .step("end");
    assert_eq!(taken, Builder(vec!["new", "yes", "end"]));
    let left = Builder(vec!["new"])
        .pred(|b| b.0.is_empty(), |b| b.step("yes"), |b| b)
        .step("end");
    assert_eq!(left, Builder(vec!["new", "end"]));
}

#[test]
fn the_two_ways_may_lead_to_another_type() {
    let length = Builder(vec!["a", "b"]).pred(|_| true, |b| b.0.len(), |_| 0);
    assert_eq!(length, 2);
    let length = Builder(vec!["a", "b"]).pred(|_| false, |b| b.0.len(), |_| 0);
    assert_eq!(length, 0);
}
