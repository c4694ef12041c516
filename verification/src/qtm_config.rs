//! The saved settings of the program, its colour theme and its version.

use vstd::prelude::*;
use vstd::std_specs::cmp::PartialOrdSpecImpl;
use vstd::std_specs::ops::NegSpecImpl;
use vstd::string::StringExecFns;
use std::cmp::Ordering;
use std::ops::Neg;
use crate::text::{decimal, push_decimal};

verus! {

/// A version number: major, minor, patch.
#[derive(Debug, Copy, Clone, PartialEq, Eq, Structural, Ord)]
pub struct QtmVersion(pub u8, pub u8, pub u8);

impl QtmVersion {
    /// Whether `self` is an earlier version than `other`: the major numbers
    /// decide, then the minor numbers, then the patch numbers.
    pub open spec fn precedes(self, other: QtmVersion) -> bool {
        self.0 < other.0 || (self.0 == other.0 && (self.1 < other.1 || (self.1 == other.1 && self.2
            < other.2)))
    }

    /// How `self` stands to `other` in the order of versions.
    pub open spec fn compare(self, other: QtmVersion) -> Ordering {
        if self.precedes(other) {
            Ordering::Less
        } else if self == other {
            Ordering::Equal
        } else {
            Ordering::Greater
        }
    }

    /// The text of a version: the three numbers in decimal, joined by dots.
    pub open spec fn text(self) -> Seq<char> {
        decimal(self.0 as nat) + seq!['.'] + decimal(self.1 as nat) + seq!['.'] + decimal(
            self.2 as nat,
        )
    }

    /// The version of this program.
    pub fn get_current_version() -> (version: QtmVersion)
        ensures
            version == QtmVersion(0, 3, 0),
    {
        QtmVersion(0, 3, 0)
    }

    /// The version as text, such as `0.3.0`.
    pub fn to_string(&self) -> (s: String)
        ensures
            s@ == self.text(),
    {
        let mut s = String::new();
        push_decimal(&mut s, self.0 as u64);
        s.push('.');
        push_decimal(&mut s, self.1 as u64);
        s.push('.');
        push_decimal(&mut s, self.2 as u64);
        assert(s@ =~= self.text());
        s
    }
}

impl PartialOrd for QtmVersion {
    fn partial_cmp(&self, other: &Self) -> (r: Option<Ordering>) {
        if self.0 == other.0 {
            if self.1 == other.1 {
                if self.2 < other.2 {
                    Some(Ordering::Less)
                } else if self.2 == other.2 {
                    Some(Ordering::Equal)
                } else {
                    Some(Ordering::Greater)
                }
            } else if self.1 < other.1 {
                Some(Ordering::Less)
            } else {
                Some(Ordering::Greater)
            }
        } else if self.0 < other.0 {
            Some(Ordering::Less)
        } else {
            Some(Ordering::Greater)
        }
    }
}

impl PartialOrdSpecImpl for QtmVersion {
    open spec fn obeys_partial_cmp_spec() -> bool {
        true
    }

    open spec fn partial_cmp_spec(&self, other: &QtmVersion) -> Option<Ordering> {
        Some(self.compare(*other))
    }
}

/// Earlier and later versions: no version precedes itself, of two different
/// versions exactly one precedes the other, and what precedes an earlier
/// version precedes the later one too.
pub proof fn lemma_version_order(a: QtmVersion, b: QtmVersion, c: QtmVersion)
    ensures
        !a.precedes(a),
        a != b ==> (a.precedes(b) <==> !b.precedes(a)),
        a.precedes(b) && b.precedes(c) ==> a.precedes(c),
{
}

/// The title of the program's window.
pub open spec fn window_title(version: QtmVersion) -> Seq<char> {
    "Quick Torrent Maker 2 v"@ + version.text()
}

/// The title of the program's window.
pub fn get_window_title(version: QtmVersion) -> (title: String)
    ensures
        title@ == window_title(version),
{
    let mut title = String::from_str("Quick Torrent Maker 2 v");
    let text = version.to_string();
    title.append(text.as_str());
    title
}

/// The colour theme of the program.
#[derive(Debug, Copy, Clone, PartialEq, Eq, Structural)]
pub enum QtmTheme {
    Light,
    Dark,
}

impl QtmTheme {
    /// The other theme.
    pub open spec fn other(self) -> QtmTheme {
        match self {
            QtmTheme::Light => QtmTheme::Dark,
            QtmTheme::Dark => QtmTheme::Light,
        }
    }

    /// The name of the theme.
    pub open spec fn name(self) -> Seq<char> {
        match self {
            QtmTheme::Light => "Light"@,
            QtmTheme::Dark => "Dark"@,
        }
    }

    /// The name of the theme.
    pub fn to_string(&self) -> (name: String)
        ensures
            name@ == self.name(),
    {
        match self {
            QtmTheme::Light => String::from_str("Light"),
            QtmTheme::Dark => String::from_str("Dark"),
        }
    }
}

impl Neg for QtmTheme {
    type Output = QtmTheme;

    /// The other theme.
    fn neg(self) -> (theme: QtmTheme) {
        match self {
            QtmTheme::Light => QtmTheme::Dark,
            QtmTheme::Dark => QtmTheme::Light,
        }
    }
}

impl NegSpecImpl for QtmTheme {
    open spec fn obeys_neg_spec() -> bool {
        true
    }

    open spec fn neg_req(self) -> bool {
        true
    }

    open spec fn neg_spec(self) -> QtmTheme {
        self.other()
    }
}

/// Changing the theme twice gives the theme one began with.
pub proof fn lemma_theme_toggles(theme: QtmTheme)
    ensures
        theme.other() != theme,
        theme.other().other() == theme,
{
}

/// The saved settings of the program.
#[derive(Debug)]
pub struct QtmConfig {
    pub version: QtmVersion,
    pub theme: QtmTheme,
    pub default_directory: Option<String>,
    pub initial_window_size: (usize, usize),
    pub image_area: usize,
}

/// What the settings are in contracts.
pub struct QtmConfigModel {
    pub version: QtmVersion,
    pub theme: QtmTheme,
    pub default_directory: Option<Seq<char>>,
    pub initial_window_size: (usize, usize),
    pub image_area: usize,
}

impl View for QtmConfig {
    type V = QtmConfigModel;

    open spec fn view(&self) -> QtmConfigModel {
        QtmConfigModel {
            version: self.version,
            theme: self.theme,
            default_directory: match self.default_directory {
                Some(directory) => Some(directory@),
                None => None,
            },
            initial_window_size: self.initial_window_size,
            image_area: self.image_area,
        }
    }
}

/// The settings of a program that has none saved: the current version, the
/// light theme, no default directory, a window of 800 by 700, and 120 000
/// square pixels for the preview of an image.
pub open spec fn default_config() -> QtmConfigModel {
    QtmConfigModel {
        version: QtmVersion(0, 3, 0),
        theme: QtmTheme::Light,
        default_directory: None,
        initial_window_size: (800, 700),
        image_area: 120_000,
    }
}

impl Default for QtmConfig {
    fn default() -> (config: QtmConfig)
        ensures
            config@ == default_config(),
    {
        QtmConfig {
            version: QtmVersion::get_current_version(),
            theme: QtmTheme::Light,
            default_directory: None,
            initial_window_size: (800, 700),
            image_area: 120_000,
        }
    }
}

impl Clone for QtmConfig {
    fn clone(&self) -> (copy: QtmConfig)
        ensures
            copy@ == self@,
    {
        QtmConfig {
            version: self.version,
            theme: self.theme,
            default_directory: match &self.default_directory {
                Some(directory) => Some(directory.clone()),
                None => None,
            },
            initial_window_size: (self.initial_window_size.0, self.initial_window_size.1),
            image_area: self.image_area,
        }
    }
}

/// How an attempt to read the saved settings ended.
#[derive(Debug)]
pub enum LoadOutcome {
    /// The file could not be read.
    Unreadable,
    /// The file was read, but does not hold settings.
    Malformed,
    /// The settings were read.
    Loaded(QtmConfig),
}

impl QtmConfig {
    /// The settings to work with after an attempt to read the saved ones, and
    /// whether they are to be saved now. Settings that were read are taken as
    /// they are. Otherwise the default settings are taken; they are saved
    /// where the file could not be read, and not saved over a file that holds
    /// something else.
    pub fn from_load(outcome: LoadOutcome) -> (loaded: (QtmConfig, bool))
        ensures
            match outcome {
                LoadOutcome::Unreadable => loaded.0@ == default_config() && loaded.1,
                LoadOutcome::Malformed => loaded.0@ == default_config() && !loaded.1,
                LoadOutcome::Loaded(config) => loaded.0 == config && !loaded.1,
            },
    {
        match outcome {
            LoadOutcome::Unreadable => (QtmConfig::default(), true),
            LoadOutcome::Malformed => (QtmConfig::default(), false),
            LoadOutcome::Loaded(config) => (config, false),
        }
    }
}

} // verus!
