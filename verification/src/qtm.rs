//! The form of the main window: what it holds, what the user can do with it,
//! and when it may be sent.

use vstd::prelude::*;
use vstd::string::StringExecFns;
use std::ops::Neg;
use crate::category::{
    chosen,
    is_path,
    level_enabled,
    offered,
    options,
    Category,
    CategoryPath,
    CATEGORY_LEVELS,
};
use crate::dialog::DialogMessage;
use crate::image::{duplicates, exchanged, is_gallery, kept, Gallery, GalleryModel, Image};
use crate::qtm_config::{QtmConfig, QtmConfigModel, QtmTheme};
use crate::tag::{board_of, is_board, BoardEntry, TagBoard, TagData};
use crate::text::{decimal, is_blank, is_blank_text, push_decimal};
use crate::torrent::TorrentEvent;

verus! {

/// The text that the crate `bytesize` shows for a size of `bytes` bytes. It
/// depends on the number alone. From a thousand bytes on the crate picks the
/// unit and rounds the number in floating point, and nothing is said of the
/// text here.
pub uninterp spec fn byte_size_text(bytes: u64) -> Seq<char>;

/// The text for a size below a thousand bytes: the number and the unit `B`.
pub open spec fn plain_size_text(bytes: u64) -> Seq<char> {
    decimal(bytes as nat) + " B"@
}

/// Calls `to_string` on `bytesize::ByteSize(bytes)`, which goes through the
/// `Display` impl of `ByteSize`. The contract gives the result its name, and
/// says what the crate's source shows for sizes below a thousand bytes: the
/// number in decimal, a space, and `B`. It is believed, not proved.
#[verifier::external_body]
fn format_byte_size(bytes: u64) -> (text: String)
    ensures
        text@ == byte_size_text(bytes),
        bytes < 1000 ==> text@ == plain_size_text(bytes),
{
    bytesize::ByteSize(bytes).to_string()
}

/// The size of `bytes` bytes as it is shown to the user: the number of
/// bytes below a thousand, and a rounded number with a larger unit from there
/// on.
pub fn size_text(bytes: u64) -> (text: String)
    ensures
        text@ == byte_size_text(bytes),
        bytes < 1000 ==> text@ == plain_size_text(bytes),
{
    format_byte_size(bytes)
}

/// The caption of the category box at `level`.
pub open spec fn category_caption(level: nat) -> Seq<char> {
    if level == 0 {
        "Category:"@
    } else {
        "Sub-category "@ + decimal(level) + ":"@
    }
}

/// The caption of the category box at `level`.
pub fn get_category_caption(level: usize) -> (caption: String)
    ensures
        caption@ == category_caption(level as nat),
{
    if level == 0 {
        String::from_str("Category:")
    } else {
        let mut caption = String::from_str("Sub-category ");
        push_decimal(&mut caption, level as u64);
        caption.append(":");
        caption
    }
}

/// The content to upload: where it lies, and its size in bytes.
#[derive(Debug)]
pub struct Content {
    pub path: String,
    pub size: u64,
}

impl View for Content {
    type V = (Seq<char>, u64);

    open spec fn view(&self) -> (Seq<char>, u64) {
        (self.path@, self.size)
    }
}

/// What the form is in contracts.
pub struct QtmModel {
    pub config: QtmConfigModel,
    pub dialog: Option<(Seq<char>, bool)>,
    pub is_file: bool,
    pub content: Option<(Seq<char>, u64)>,
    pub categories: Seq<Category>,
    pub gallery: GalleryModel,
    pub title: Seq<char>,
    pub description: Seq<char>,
    pub tags: Seq<BoardEntry>,
    pub is_tag_menu_open: bool,
}

/// Whether the form is filled in: there is content, a category, at least one
/// image, and a title and a description that are not blank.
pub open spec fn acceptable(form: QtmModel) -> bool {
    &&& form.content.is_some()
    &&& form.categories.len() > 0
    &&& form.categories[0] != Category::Unselected
    &&& form.gallery.images.len() > 0
    &&& !is_blank_text(form.title)
    &&& !is_blank_text(form.description)
}

/// Whether the form takes input: no message is shown and the tag menu is
/// closed.
pub open spec fn input_enabled(form: QtmModel) -> bool {
    form.dialog.is_none() && !form.is_tag_menu_open
}

/// Whether the next message may be shown: none is shown, or the one that is
/// shown has no OK button and waits for the next.
pub open spec fn message_wanted(form: QtmModel) -> bool {
    match form.dialog {
        Some(message) => !message.1,
        None => true,
    }
}

/// The form of the main window.
pub struct Qtm {
    config: QtmConfig,
    dialog: Option<DialogMessage>,
    is_file: bool,
    content: Option<Content>,
    categories: CategoryPath,
    gallery: Gallery,
    title: String,
    description: String,
    tags: TagBoard,
    is_tag_menu_open: bool,
}

impl View for Qtm {
    type V = QtmModel;

    closed spec fn view(&self) -> QtmModel {
        QtmModel {
            config: self.config@,
            dialog: match self.dialog {
                Some(message) => Some(message@),
                None => None,
            },
            is_file: self.is_file,
            content: match self.content {
                Some(content) => Some(content@),
                None => None,
            },
            categories: self.categories@,
            gallery: self.gallery@,
            title: self.title@,
            description: self.description@,
            tags: self.tags@,
            is_tag_menu_open: self.is_tag_menu_open,
        }
    }
}

impl Qtm {
    /// The empty form of a program with the settings `config` and the tags
    /// `tags`: a file is to be uploaded, nothing is chosen, attached, written
    /// or selected, and no message is shown.
    pub fn new(config: QtmConfig, tags: Vec<TagData>) -> (form: Qtm)
        ensures
            form@ == (QtmModel {
                config: config@,
                dialog: None,
                is_file: true,
                content: None,
                categories: Seq::new(CATEGORY_LEVELS as nat, |i: int| Category::Unselected),
                gallery: GalleryModel { images: Seq::empty(), selected: None },
                title: Seq::empty(),
                description: Seq::empty(),
                tags: board_of(tags.deep_view()),
                is_tag_menu_open: false,
            }),
    {
        Qtm {
            config,
            dialog: None,
            is_file: true,
            content: None,
            categories: CategoryPath::new(),
            gallery: Gallery::new(),
            title: String::new(),
            description: String::new(),
            tags: TagBoard::from_tags(tags),
            is_tag_menu_open: false,
        }
    }

    /// The settings.
    pub fn config(&self) -> (config: &QtmConfig)
        ensures
            config@ == self@.config,
    {
        &self.config
    }

    /// The message that is shown.
    pub fn dialog(&self) -> (dialog: &Option<DialogMessage>)
        ensures
            match dialog {
                Some(message) => self@.dialog == Some(message@),
                None => self@.dialog.is_none(),
            },
    {
        &self.dialog
    }

    /// Whether a file is to be uploaded, and not a folder.
    pub fn is_file(&self) -> (is_file: bool)
        ensures
            is_file == self@.is_file,
    {
        self.is_file
    }

    /// The content to upload.
    pub fn content(&self) -> (content: &Option<Content>)
        ensures
            match content {
                Some(c) => self@.content == Some(c@),
                None => self@.content.is_none(),
            },
    {
        &self.content
    }

    /// The category path.
    pub fn categories(&self) -> (categories: &CategoryPath)
        ensures
            categories@ == self@.categories,
    {
        &self.categories
    }

    /// The attached images.
    pub fn gallery(&self) -> (gallery: &Gallery)
        ensures
            gallery@ == self@.gallery,
    {
        &self.gallery
    }

    /// The title.
    pub fn title(&self) -> (title: &String)
        ensures
            title@ == self@.title,
    {
        &self.title
    }

    /// The description.
    pub fn description(&self) -> (description: &String)
        ensures
            description@ == self@.description,
    {
        &self.description
    }

    /// The tags.
    pub fn tags(&self) -> (tags: &TagBoard)
        ensures
            tags@ == self@.tags,
    {
        &self.tags
    }

    /// Whether the tag menu is open.
    pub fn is_tag_menu_open(&self) -> (open: bool)
        ensures
            open == self@.is_tag_menu_open,
    {
        self.is_tag_menu_open
    }

    /// Whether the next message may be shown.
    pub fn accepts_message(&self) -> (wanted: bool)
        ensures
            wanted == message_wanted(self@),
    {
        match &self.dialog {
            Some(message) => !message.1,
            None => true,
        }
    }

    /// Shows `message` if the next message may be shown, and hands it back
    /// if not: then nothing changes.
    pub fn offer_message(&mut self, message: DialogMessage) -> (refused: Option<DialogMessage>)
        ensures
            message_wanted(old(self)@) ==> refused.is_none() && final(self)@ == (QtmModel {
                dialog: Some(message@),
                ..old(self)@
            }),
            !message_wanted(old(self)@) ==> refused == Some(message) && final(self)@ == old(self)@,
    {
        if self.accepts_message() {
            self.dialog = Some(message);
            None
        } else {
            Some(message)
        }
    }

    /// Closes the message that is shown, as the OK button does.
    pub fn dismiss_dialog(&mut self)
        ensures
            final(self)@ == (QtmModel { dialog: None, ..old(self)@ }),
    {
        self.dialog = None;
    }

    /// Whether the form takes input.
    pub fn is_input_enabled(&self) -> (enabled: bool)
        ensures
            enabled == input_enabled(self@),
    {
        self.dialog.is_none() && !self.is_tag_menu_open
    }

    /// Changes from the light theme to the dark one or back, and gives the
    /// new theme.
    pub fn toggle_theme(&mut self) -> (theme: QtmTheme)
        ensures
            theme == old(self)@.config.theme.other(),
            final(self)@ == (QtmModel {
                config: QtmConfigModel { theme, ..old(self)@.config },
                ..old(self)@
            }),
    {
        self.config.theme = self.config.theme.neg();
        self.config.theme
    }

    /// Makes `directory` the directory in which file dialogs open.
    pub fn set_default_directory(&mut self, directory: String)
        ensures
            final(self)@ == (QtmModel {
                config: QtmConfigModel { default_directory: Some(directory@), ..old(self)@.config },
                ..old(self)@
            }),
    {
        self.config.default_directory = Some(directory);
    }

    /// Chooses between the upload of a file and that of a folder. A change
    /// drops the content that was chosen.
    pub fn set_is_file(&mut self, is_file: bool)
        ensures
            final(self)@ == if is_file == old(self)@.is_file {
                old(self)@
            } else {
                QtmModel { is_file, content: None, ..old(self)@ }
            },
    {
        if self.is_file != is_file {
            self.is_file = is_file;
            self.content = None;
        }
    }

    /// Takes `content` as the content to upload; `None` where the user has
    /// left the file dialog without choosing.
    pub fn set_content(&mut self, content: Option<Content>)
        ensures
            final(self)@ == (QtmModel {
                content: match content {
                    Some(c) => Some(c@),
                    None => None,
                },
                ..old(self)@
            }),
    {
        self.content = content;
    }

    /// Chooses `category` at `level` of the category path and resets the
    /// levels below. Nothing changes unless the level is open and the
    /// category is offered there.
    pub fn select_category(&mut self, level: usize, category: Category) -> (accepted: bool)
        requires
            level < CATEGORY_LEVELS,
        ensures
            accepted == (level_enabled(old(self)@.categories, level as int) && offered(
                old(self)@.categories,
                level as int,
                category,
            )),
            final(self)@ == if accepted {
                QtmModel {
                    categories: chosen(old(self)@.categories, level as int, category),
                    ..old(self)@
                }
            } else {
                old(self)@
            },
            is_path(final(self)@.categories),
    {
        self.categories.select(level, category)
    }

    /// The categories offered at `level` of the category path.
    pub fn category_options(&self, level: usize) -> (list: Vec<Category>)
        requires
            level < CATEGORY_LEVELS,
        ensures
            list@ == options(self@.categories, level as int),
    {
        self.categories.options(level)
    }

    /// Attaches those of the `picked` images that are new, and gives the
    /// file names of the others.
    pub fn add_images(&mut self, picked: Vec<Image>) -> (rejected: Vec<String>)
        ensures
            final(self)@ == (QtmModel {
                gallery: GalleryModel {
                    images: old(self)@.gallery.images + kept(
                        old(self)@.gallery.images,
                        picked.deep_view(),
                    ),
                    selected: old(self)@.gallery.selected,
                },
                ..old(self)@
            }),
            rejected.deep_view() == duplicates(old(self)@.gallery.images, picked.deep_view()),
            is_gallery(final(self)@.gallery),
    {
        self.gallery.append(picked)
    }

    /// Selects the image at `index`. Nothing changes where there is no such
    /// image.
    pub fn select_image(&mut self, index: usize)
        ensures
            final(self)@ == (QtmModel {
                gallery: GalleryModel {
                    images: old(self)@.gallery.images,
                    selected: if index < old(self)@.gallery.images.len() {
                        Some(index as int)
                    } else {
                        old(self)@.gallery.selected
                    },
                },
                ..old(self)@
            }),
            is_gallery(final(self)@.gallery),
    {
        self.gallery.select(index);
    }

    /// Moves the selected image one place towards the front.
    pub fn move_image_up(&mut self)
        ensures
            final(self)@ == (QtmModel {
                gallery: match old(self)@.gallery.selected {
                    Some(i) if i > 0 => GalleryModel {
                        images: exchanged(old(self)@.gallery.images, i, i - 1),
                        selected: Some(i - 1),
                    },
                    _ => old(self)@.gallery,
                },
                ..old(self)@
            }),
            is_gallery(final(self)@.gallery),
    {
        self.gallery.move_up();
    }

    /// Moves the selected image one place towards the end.
    pub fn move_image_down(&mut self)
        ensures
            final(self)@ == (QtmModel {
                gallery: match old(self)@.gallery.selected {
                    Some(i) if i + 1 < old(self)@.gallery.images.len() => GalleryModel {
                        images: exchanged(old(self)@.gallery.images, i, i + 1),
                        selected: Some(i + 1),
                    },
                    _ => old(self)@.gallery,
                },
                ..old(self)@
            }),
            is_gallery(final(self)@.gallery),
    {
        self.gallery.move_down();
    }

    /// Takes the selected image off the form; after that no image is
    /// selected.
    pub fn remove_image(&mut self)
        ensures
            final(self)@ == (QtmModel {
                gallery: match old(self)@.gallery.selected {
                    Some(i) => GalleryModel {
                        images: old(self)@.gallery.images.remove(i),
                        selected: None,
                    },
                    None => old(self)@.gallery,
                },
                ..old(self)@
            }),
            is_gallery(final(self)@.gallery),
    {
        self.gallery.remove_selected();
    }

    /// Takes `title` as the title.
    pub fn set_title(&mut self, title: String)
        ensures
            final(self)@ == (QtmModel { title: title@, ..old(self)@ }),
    {
        self.title = title;
    }

    /// Takes `description` as the description.
    pub fn set_description(&mut self, description: String)
        ensures
            final(self)@ == (QtmModel { description: description@, ..old(self)@ }),
    {
        self.description = description;
    }

    /// Selects the tag at `index` if it was not selected, and the other way
    /// round, as a click in the tag menu does.
    pub fn toggle_tag(&mut self, index: usize)
        ensures
            final(self)@ == (QtmModel {
                tags: if index < old(self)@.tags.len() {
                    old(self)@.tags.update(
                        index as int,
                        (old(self)@.tags[index as int].0, !old(self)@.tags[index as int].1),
                    )
                } else {
                    old(self)@.tags
                },
                ..old(self)@
            }),
            is_board(final(self)@.tags),
    {
        self.tags.toggle(index);
    }

    /// Takes the selection from the tag at `index`, as a right click on its
    /// chip does.
    pub fn deselect_tag(&mut self, index: usize)
        ensures
            final(self)@ == (QtmModel {
                tags: if index < old(self)@.tags.len() {
                    old(self)@.tags.update(index as int, (old(self)@.tags[index as int].0, false))
                } else {
                    old(self)@.tags
                },
                ..old(self)@
            }),
            is_board(final(self)@.tags),
    {
        self.tags.deselect(index);
    }

    /// Opens the tag menu if it was closed, and the other way round.
    pub fn toggle_tag_menu(&mut self)
        ensures
            final(self)@ == (QtmModel {
                is_tag_menu_open: !old(self)@.is_tag_menu_open,
                ..old(self)@
            }),
    {
        self.is_tag_menu_open = !self.is_tag_menu_open;
    }

    /// Closes the tag menu.
    pub fn close_tag_menu(&mut self)
        ensures
            final(self)@ == (QtmModel { is_tag_menu_open: false, ..old(self)@ }),
    {
        self.is_tag_menu_open = false;
    }

    /// Whether the form is filled in.
    pub fn is_acceptable(&self) -> (ok: bool)
        ensures
            ok == acceptable(self@),
    {
        if self.content.is_none() {
            return false;
        }
        let levels = self.categories.levels();
        if levels[0] == Category::Unselected || self.gallery.is_empty() || is_blank(
            self.title.as_str(),
        ) || is_blank(self.description.as_str()) {
            return false;
        }
        true
    }

    /// Whether the upload may be started: the form takes input and is
    /// filled in.
    pub fn can_upload(&self) -> (ok: bool)
        ensures
            ok == (input_enabled(self@) && acceptable(self@)),
    {
        self.is_input_enabled() && self.is_acceptable()
    }

    /// What starting the upload takes: the path of the content to make the
    /// torrent from, and the message to show meanwhile. `None` where the
    /// upload may not be started.
    pub fn start_upload(&self) -> (start: Option<(String, DialogMessage)>)
        ensures
            match start {
                Some((path, message)) => {
                    &&& input_enabled(self@) && acceptable(self@)
                    &&& self@.content matches Some(content) && path@ == content.0
                    &&& message@ == (TorrentEvent::Started.text(), false)
                },
                None => !(input_enabled(self@) && acceptable(self@)),
            },
    {
        if !self.can_upload() {
            return None;
        }
        match &self.content {
            Some(content) => Some((content.path.clone(), TorrentEvent::Started.message())),
            None => None,
        }
    }

    /// The size of the content as it is shown to the user.
    pub fn content_size_text(&self) -> (text: Option<String>)
        ensures
            match text {
                Some(t) => self@.content matches Some(content) && t@ == byte_size_text(content.1),
                None => self@.content.is_none(),
            },
    {
        match &self.content {
            Some(content) => Some(size_text(content.size)),
            None => None,
        }
    }
}

} // verus!
