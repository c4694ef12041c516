//! The categories a torrent can be filed under, and the path of up to five
//! of them that the form holds.

use vstd::prelude::*;
use crate::text::str_eq;

verus! {

/// A category of the tracker. `Unselected` is the placeholder for "not chosen".
#[derive(Debug, Copy, Clone, PartialEq, Eq, Structural)]
pub enum Category {
    Unselected,
    Amateur,
    Anal,
    AnimeGames,
    Asian,
    Bareback,
    Bdsm,
    Bears,
    Bisexual,
    Black,
    BooksMagazines,
    Chubbies,
    Clips,
    ComicYaoi,
    DaddiesSons,
    Dildos,
    FanSites,
    Fetish,
    Fisting,
    GreyOlder,
    GroupSex,
    Homemade,
    Hunks,
    Images,
    Interracial,
    Jocks,
    Latino,
    Mature,
    MediaPrograms,
    Member,
    MiddleEastern,
    Military,
    OralSex,
    Softcore,
    Solo,
    StraightOlder,
    StraightYounger,
    ThemedMovie,
    Trans,
    TvEpisodes,
    Twinks,
    Vintage,
    Voyeur,
    WrestlingAndSports,
    Youngblood,
}

/// How many categories there are, the placeholder included.
pub const CATEGORY_COUNT: usize = 45;

impl Category {
    /// The position of a category in the order in which they are listed.
    pub open spec fn index(self) -> nat {
        match self {
            Category::Unselected => 0,
            Category::Amateur => 1,
            Category::Anal => 2,
            Category::AnimeGames => 3,
            Category::Asian => 4,
            Category::Bareback => 5,
            Category::Bdsm => 6,
            Category::Bears => 7,
            Category::Bisexual => 8,
            Category::Black => 9,
            Category::BooksMagazines => 10,
            Category::Chubbies => 11,
            Category::Clips => 12,
            Category::ComicYaoi => 13,
            Category::DaddiesSons => 14,
            Category::Dildos => 15,
            Category::FanSites => 16,
            Category::Fetish => 17,
            Category::Fisting => 18,
            Category::GreyOlder => 19,
            Category::GroupSex => 20,
            Category::Homemade => 21,
            Category::Hunks => 22,
            Category::Images => 23,
            Category::Interracial => 24,
            Category::Jocks => 25,
            Category::Latino => 26,
            Category::Mature => 27,
            Category::MediaPrograms => 28,
            Category::Member => 29,
            Category::MiddleEastern => 30,
            Category::Military => 31,
            Category::OralSex => 32,
            Category::Softcore => 33,
            Category::Solo => 34,
            Category::StraightOlder => 35,
            Category::StraightYounger => 36,
            Category::ThemedMovie => 37,
            Category::Trans => 38,
            Category::TvEpisodes => 39,
            Category::Twinks => 40,
            Category::Vintage => 41,
            Category::Voyeur => 42,
            Category::WrestlingAndSports => 43,
            Category::Youngblood => 44,
        }
    }

    /// Every category once, in listing order, the placeholder first.
    pub open spec fn listing() -> Seq<Category> {
        seq![
            Category::Unselected,
            Category::Amateur,
            Category::Anal,
            Category::AnimeGames,
            Category::Asian,
            Category::Bareback,
            Category::Bdsm,
            Category::Bears,
            Category::Bisexual,
            Category::Black,
            Category::BooksMagazines,
            Category::Chubbies,
            Category::Clips,
            Category::ComicYaoi,
            Category::DaddiesSons,
            Category::Dildos,
            Category::FanSites,
            Category::Fetish,
            Category::Fisting,
            Category::GreyOlder,
            Category::GroupSex,
            Category::Homemade,
            Category::Hunks,
            Category::Images,
            Category::Interracial,
            Category::Jocks,
            Category::Latino,
            Category::Mature,
            Category::MediaPrograms,
            Category::Member,
            Category::MiddleEastern,
            Category::Military,
            Category::OralSex,
            Category::Softcore,
            Category::Solo,
            Category::StraightOlder,
            Category::StraightYounger,
            Category::ThemedMovie,
            Category::Trans,
            Category::TvEpisodes,
            Category::Twinks,
            Category::Vintage,
            Category::Voyeur,
            Category::WrestlingAndSports,
            Category::Youngblood,
        ]
    }

    /// The name under which a category is shown.
    pub open spec fn label_text(self) -> Seq<char> {
        match self {
            Category::Unselected => "Select Category"@,
            Category::Amateur => "Amateur"@,
            Category::Anal => "Anal"@,
            Category::AnimeGames => "Anime Games"@,
            Category::Asian => "Asian"@,
            Category::Bareback => "Bareback"@,
            Category::Bdsm => "BDSM"@,
            Category::Bears => "Bears"@,
            Category::Bisexual => "Bisexual"@,
            Category::Black => "Black"@,
            Category::BooksMagazines => "Books & Magazines"@,
            Category::Chubbies => "Chubbies"@,
            Category::Clips => "Clips"@,
            Category::ComicYaoi => "Comic & Yaoi"@,
            Category::DaddiesSons => "Daddies / Sons"@,
            Category::Dildos => "Dildos"@,
            Category::FanSites => "Fan Sites"@,
            Category::Fetish => "Fetish"@,
            Category::Fisting => "Fisting"@,
            Category::GreyOlder => "Grey / Older"@,
            Category::GroupSex => "Group-Sex"@,
            Category::Homemade => "Homemade"@,
            Category::Hunks => "Hunks"@,
            Category::Images => "Images"@,
            Category::Interracial => "Interracial"@,
            Category::Jocks => "Jocks"@,
            Category::Latino => "Latino"@,
            Category::Mature => "Mature"@,
            Category::MediaPrograms => "Media Programs"@,
            Category::Member => "Member"@,
            Category::MiddleEastern => "Middle Eastern"@,
            Category::Military => "Military"@,
            Category::OralSex => "Oral-Sex"@,
            Category::Softcore => "Softcore"@,
            Category::Solo => "Solo"@,
            Category::StraightOlder => "Straight older"@,
            Category::StraightYounger => "Straight younger"@,
            Category::ThemedMovie => "Themed Movie"@,
            Category::Trans => "Trans"@,
            Category::TvEpisodes => "TV / Episodes"@,
            Category::Twinks => "Twinks"@,
            Category::Vintage => "Vintage"@,
            Category::Voyeur => "Voyeur"@,
            Category::WrestlingAndSports => "Wrestling and Sports"@,
            Category::Youngblood => "Youngblood"@,
        }
    }

    /// The name under which a category is shown.
    pub fn label(&self) -> (name: &'static str)
        ensures
            name@ == self.label_text(),
    {
        match self {
            Category::Unselected => "Select Category",
            Category::Amateur => "Amateur",
            Category::Anal => "Anal",
            Category::AnimeGames => "Anime Games",
            Category::Asian => "Asian",
            Category::Bareback => "Bareback",
            Category::Bdsm => "BDSM",
            Category::Bears => "Bears",
            Category::Bisexual => "Bisexual",
            Category::Black => "Black",
            Category::BooksMagazines => "Books & Magazines",
            Category::Chubbies => "Chubbies",
            Category::Clips => "Clips",
            Category::ComicYaoi => "Comic & Yaoi",
            Category::DaddiesSons => "Daddies / Sons",
            Category::Dildos => "Dildos",
            Category::FanSites => "Fan Sites",
            Category::Fetish => "Fetish",
            Category::Fisting => "Fisting",
            Category::GreyOlder => "Grey / Older",
            Category::GroupSex => "Group-Sex",
            Category::Homemade => "Homemade",
            Category::Hunks => "Hunks",
            Category::Images => "Images",
            Category::Interracial => "Interracial",
            Category::Jocks => "Jocks",
            Category::Latino => "Latino",
            Category::Mature => "Mature",
            Category::MediaPrograms => "Media Programs",
            Category::Member => "Member",
            Category::MiddleEastern => "Middle Eastern",
            Category::Military => "Military",
            Category::OralSex => "Oral-Sex",
            Category::Softcore => "Softcore",
            Category::Solo => "Solo",
            Category::StraightOlder => "Straight older",
            Category::StraightYounger => "Straight younger",
            Category::ThemedMovie => "Themed Movie",
            Category::Trans => "Trans",
            Category::TvEpisodes => "TV / Episodes",
            Category::Twinks => "Twinks",
            Category::Vintage => "Vintage",
            Category::Voyeur => "Voyeur",
            Category::WrestlingAndSports => "Wrestling and Sports",
            Category::Youngblood => "Youngblood",
        }
    }

    /// The name under which a category is shown, as an owned string.
    pub fn to_string(&self) -> (name: String)
        ensures
            name@ == self.label_text(),
    {
        self.label().to_owned()
    }

    /// Every category once, in listing order, the placeholder first.
    pub fn all() -> (list: Vec<Category>)
        ensures
            list@ == Category::listing(),
    {
        let list = vec![
            Category::Unselected,
            Category::Amateur,
            Category::Anal,
            Category::AnimeGames,
            Category::Asian,
            Category::Bareback,
            Category::Bdsm,
            Category::Bears,
            Category::Bisexual,
            Category::Black,
            Category::BooksMagazines,
            Category::Chubbies,
            Category::Clips,
            Category::ComicYaoi,
            Category::DaddiesSons,
            Category::Dildos,
            Category::FanSites,
            Category::Fetish,
            Category::Fisting,
            Category::GreyOlder,
            Category::GroupSex,
            Category::Homemade,
            Category::Hunks,
            Category::Images,
            Category::Interracial,
            Category::Jocks,
            Category::Latino,
            Category::Mature,
            Category::MediaPrograms,
            Category::Member,
            Category::MiddleEastern,
            Category::Military,
            Category::OralSex,
            Category::Softcore,
            Category::Solo,
            Category::StraightOlder,
            Category::StraightYounger,
            Category::ThemedMovie,
            Category::Trans,
            Category::TvEpisodes,
            Category::Twinks,
            Category::Vintage,
            Category::Voyeur,
            Category::WrestlingAndSports,
            Category::Youngblood,
        ];
        assert(list@ =~= Category::listing());
        list
    }

    /// The category that is shown under `name`, if there is one.
    pub fn from_label(name: &str) -> (found: Option<Category>)
        ensures
            forall|category: Category|
                found == Some(category) <==> #[trigger] category.label_text() == name@,
    {
        let list = Category::all();
        let mut i: usize = 0;
        while i < list.len()
            invariant
                i <= list.len(),
                list@ == Category::listing(),
                forall|k: int| 0 <= k < i ==> (#[trigger] list@[k]).label_text() != name@,
            decreases list.len() - i,
        {
            if str_eq(list[i].label(), name) {
                assert forall|category: Category| #[trigger]
                    category.label_text() == name@ implies category == list[i as int] by {
                    lemma_label_is_injective(category, list[i as int]);
                }
                return Some(list[i]);
            }
            i += 1;
        }
        assert forall|category: Category| category.label_text() != name@ by {
            lemma_listing_is_complete(category);
            assert(list@[category.index() as int] == category);
        }
        None
    }
}

/// Every category stands in the listing, at its own index, and nowhere else:
/// the listing holds each category exactly once.
pub proof fn lemma_listing_is_complete(category: Category)
    ensures
        Category::listing().len() == CATEGORY_COUNT,
        category.index() < CATEGORY_COUNT,
        Category::listing()[category.index() as int] == category,
        forall|k: int|
            0 <= k < CATEGORY_COUNT && #[trigger] Category::listing()[k] == category ==> k
                == category.index(),
{
}

/// The listed categories are pairwise different.
pub proof fn lemma_listing_has_no_duplicates()
    ensures
        Category::listing().no_duplicates(),
{
    assert forall|i: int, j: int|
        0 <= i < Category::listing().len() && 0 <= j < Category::listing().len() && i
            != j implies Category::listing()[i] != Category::listing()[j] by {
        lemma_listing_is_complete(Category::listing()[i]);
        lemma_listing_is_complete(Category::listing()[j]);
    }
}

/// The length and the first two characters of a text.
pub open spec fn text_key(s: Seq<char>) -> (nat, char, char) {
    (s.len(), s[0], s[1])
}

impl Category {
    /// The length and the first two characters of a category's name. No two
    /// categories agree in all three.
    pub open spec fn label_key(self) -> (nat, char, char) {
        match self {
            Category::Unselected => (15, 'S', 'e'),
            Category::Amateur => (7, 'A', 'm'),
            Category::Anal => (4, 'A', 'n'),
            Category::AnimeGames => (11, 'A', 'n'),
            Category::Asian => (5, 'A', 's'),
            Category::Bareback => (8, 'B', 'a'),
            Category::Bdsm => (4, 'B', 'D'),
            Category::Bears => (5, 'B', 'e'),
            Category::Bisexual => (8, 'B', 'i'),
            Category::Black => (5, 'B', 'l'),
            Category::BooksMagazines => (17, 'B', 'o'),
            Category::Chubbies => (8, 'C', 'h'),
            Category::Clips => (5, 'C', 'l'),
            Category::ComicYaoi => (12, 'C', 'o'),
            Category::DaddiesSons => (14, 'D', 'a'),
            Category::Dildos => (6, 'D', 'i'),
            Category::FanSites => (9, 'F', 'a'),
            Category::Fetish => (6, 'F', 'e'),
            Category::Fisting => (7, 'F', 'i'),
            Category::GreyOlder => (12, 'G', 'r'),
            Category::GroupSex => (9, 'G', 'r'),
            Category::Homemade => (8, 'H', 'o'),
            Category::Hunks => (5, 'H', 'u'),
            Category::Images => (6, 'I', 'm'),
            Category::Interracial => (11, 'I', 'n'),
            Category::Jocks => (5, 'J', 'o'),
            Category::Latino => (6, 'L', 'a'),
            Category::Mature => (6, 'M', 'a'),
            Category::MediaPrograms => (14, 'M', 'e'),
            Category::Member => (6, 'M', 'e'),
            Category::MiddleEastern => (14, 'M', 'i'),
            Category::Military => (8, 'M', 'i'),
            Category::OralSex => (8, 'O', 'r'),
            Category::Softcore => (8, 'S', 'o'),
            Category::Solo => (4, 'S', 'o'),
            Category::StraightOlder => (14, 'S', 't'),
            Category::StraightYounger => (16, 'S', 't'),
            Category::ThemedMovie => (12, 'T', 'h'),
            Category::Trans => (5, 'T', 'r'),
            Category::TvEpisodes => (13, 'T', 'V'),
            Category::Twinks => (6, 'T', 'w'),
            Category::Vintage => (7, 'V', 'i'),
            Category::Voyeur => (6, 'V', 'o'),
            Category::WrestlingAndSports => (20, 'W', 'r'),
            Category::Youngblood => (10, 'Y', 'o'),
        }
    }
}

/// The name of a category has the length and the first two characters that
/// `label_key` lists for it.
pub proof fn lemma_label_key(category: Category)
    ensures
        text_key(category.label_text()) == category.label_key(),
{
    match category {
        Category::Unselected => {
            reveal_strlit("Select Category");
        },
        Category::Amateur => {
            reveal_strlit("Amateur");
        },
        Category::Anal => {
            reveal_strlit("Anal");
        },
        Category::AnimeGames => {
            reveal_strlit("Anime Games");
        },
        Category::Asian => {
            reveal_strlit("Asian");
        },
        Category::Bareback => {
            reveal_strlit("Bareback");
        },
        Category::Bdsm => {
            reveal_strlit("BDSM");
        },
        Category::Bears => {
            reveal_strlit("Bears");
        },
        Category::Bisexual => {
            reveal_strlit("Bisexual");
        },
        Category::Black => {
            reveal_strlit("Black");
        },
        Category::BooksMagazines => {
            reveal_strlit("Books & Magazines");
        },
        Category::Chubbies => {
            reveal_strlit("Chubbies");
        },
        Category::Clips => {
            reveal_strlit("Clips");
        },
        Category::ComicYaoi => {
            reveal_strlit("Comic & Yaoi");
        },
        Category::DaddiesSons => {
            reveal_strlit("Daddies / Sons");
        },
        Category::Dildos => {
            reveal_strlit("Dildos");
        },
        Category::FanSites => {
            reveal_strlit("Fan Sites");
        },
        Category::Fetish => {
            reveal_strlit("Fetish");
        },
        Category::Fisting => {
            reveal_strlit("Fisting");
        },
        Category::GreyOlder => {
            reveal_strlit("Grey / Older");
        },
        Category::GroupSex => {
            reveal_strlit("Group-Sex");
        },
        Category::Homemade => {
            reveal_strlit("Homemade");
        },
        Category::Hunks => {
            reveal_strlit("Hunks");
        },
        Category::Images => {
            reveal_strlit("Images");
        },
        Category::Interracial => {
            reveal_strlit("Interracial");
        },
        Category::Jocks => {
            reveal_strlit("Jocks");
        },
        Category::Latino => {
            reveal_strlit("Latino");
        },
        Category::Mature => {
            reveal_strlit("Mature");
        },
        Category::MediaPrograms => {
            reveal_strlit("Media Programs");
        },
        Category::Member => {
            reveal_strlit("Member");
        },
        Category::MiddleEastern => {
            reveal_strlit("Middle Eastern");
        },
        Category::Military => {
            reveal_strlit("Military");
        },
        Category::OralSex => {
            reveal_strlit("Oral-Sex");
        },
        Category::Softcore => {
            reveal_strlit("Softcore");
        },
        Category::Solo => {
            reveal_strlit("Solo");
        },
        Category::StraightOlder => {
            reveal_strlit("Straight older");
        },
        Category::StraightYounger => {
            reveal_strlit("Straight younger");
        },
        Category::ThemedMovie => {
            reveal_strlit("Themed Movie");
        },
        Category::Trans => {
            reveal_strlit("Trans");
        },
        Category::TvEpisodes => {
            reveal_strlit("TV / Episodes");
        },
        Category::Twinks => {
            reveal_strlit("Twinks");
        },
        Category::Vintage => {
            reveal_strlit("Vintage");
        },
        Category::Voyeur => {
            reveal_strlit("Voyeur");
        },
        Category::WrestlingAndSports => {
            reveal_strlit("Wrestling and Sports");
        },
        Category::Youngblood => {
            reveal_strlit("Youngblood");
        },
    }
}

/// No two categories are shown under the same name, so a name read back with
/// `from_label` gives the category it came from.
pub proof fn lemma_label_is_injective(a: Category, b: Category)
    requires
        a.label_text() == b.label_text(),
    ensures
        a == b,
{
    lemma_label_key(a);
    lemma_label_key(b);
}

/// How many levels a category path has: the category and four sub-categories.
pub const CATEGORY_LEVELS: usize = 5;

/// Whether `p` can be the path of a form: it has five levels, the chosen
/// levels come first with no gap, and no category is chosen twice.
pub open spec fn is_path(p: Seq<Category>) -> bool {
    &&& p.len() == CATEGORY_LEVELS
    &&& forall|i: int, j: int|
        0 <= i < j < p.len() && #[trigger] p[j] != Category::Unselected ==> #[trigger] p[i]
            != Category::Unselected && p[i] != p[j]
}

/// Whether a choice can be made at `level`: the first level is always open,
/// a deeper one only below a chosen level.
pub open spec fn level_enabled(p: Seq<Category>, level: int) -> bool {
    level == 0 || (0 < level < p.len() && p[level - 1] != Category::Unselected)
}

/// Whether `category` is offered at `level`: the placeholder always is, any
/// other category unless a level above holds it already.
pub open spec fn offered(p: Seq<Category>, level: int, category: Category) -> bool {
    category == Category::Unselected || !p.take(level).contains(category)
}

/// The categories offered at `level`, in listing order.
pub open spec fn options(p: Seq<Category>, level: int) -> Seq<Category> {
    Category::listing().filter(|category: Category| offered(p, level, category))
}

/// The path after `category` was chosen at `level`: the levels above stay,
/// the levels below are reset to the placeholder.
pub open spec fn chosen(p: Seq<Category>, level: int, category: Category) -> Seq<Category> {
    Seq::new(
        p.len(),
        |i: int|
            if i < level {
                p[i]
            } else if i == level {
                category
            } else {
                Category::Unselected
            },
    )
}

/// Choosing an offered category at an open level of a path gives a path.
pub proof fn lemma_choice_keeps_path(p: Seq<Category>, level: int, category: Category)
    requires
        is_path(p),
        0 <= level < p.len(),
        level_enabled(p, level),
        offered(p, level, category),
    ensures
        is_path(chosen(p, level, category)),
{
    let q = chosen(p, level, category);
    assert forall|i: int, j: int|
        0 <= i < j < q.len() && #[trigger] q[j] != Category::Unselected implies #[trigger] q[i]
        != Category::Unselected && q[i] != q[j] by {
        if j < level {
            assert(p[j] != Category::Unselected);
        } else {
            assert(j == level);
            assert(p[level - 1] != Category::Unselected);
            if i < level - 1 {
                assert(p[i] != Category::Unselected);
            }
            assert(p.take(level)[i] == p[i]);
        }
    }
}

/// A choice at one level leaves the levels above as they were and resets
/// every level below.
pub proof fn lemma_choice_resets_sublevels(p: Seq<Category>, level: int, category: Category)
    requires
        0 <= level < p.len(),
    ensures
        chosen(p, level, category).len() == p.len(),
        chosen(p, level, category)[level] == category,
        forall|i: int| 0 <= i < level ==> chosen(p, level, category)[i] == p[i],
        forall|i: int| level < i < p.len() ==> chosen(p, level, category)[i] == Category::Unselected,
{
}

/// The options at a level are exactly the categories offered there: the
/// placeholder, and every category that no level above holds.
pub proof fn lemma_options_are_the_offered(p: Seq<Category>, level: int, category: Category)
    ensures
        options(p, level).contains(category) <==> offered(p, level, category),
{
    let pred = |c: Category| offered(p, level, c);
    let all = Category::listing();
    all.filter_lemma(pred);
    lemma_listing_is_complete(category);
    if options(p, level).contains(category) {
        let k = choose|k: int| 0 <= k < all.filter(pred).len() && all.filter(pred)[k] == category;
        assert(pred(all.filter(pred)[k]));
    }
    if offered(p, level, category) {
        assert(pred(all[category.index() as int]));
    }
}

/// The category path of a form.
pub struct CategoryPath {
    levels: [Category; 5],
}

impl View for CategoryPath {
    type V = Seq<Category>;

    closed spec fn view(&self) -> Seq<Category> {
        self.levels@
    }
}

impl CategoryPath {
    #[verifier::type_invariant]
    spec fn well_formed(self) -> bool {
        is_path(self.levels@)
    }

    /// The path with nothing chosen.
    pub fn new() -> (path: CategoryPath)
        ensures
            path@ == Seq::new(CATEGORY_LEVELS as nat, |i: int| Category::Unselected),
            is_path(path@),
    {
        let levels = [Category::Unselected; 5];
        assert(levels@ =~= Seq::new(CATEGORY_LEVELS as nat, |i: int| Category::Unselected));
        CategoryPath { levels }
    }

    /// The five levels, the top one first.
    pub fn levels(&self) -> (levels: [Category; 5])
        ensures
            levels@ == self@,
            is_path(self@),
    {
        proof {
            use_type_invariant(self);
        }
        self.levels
    }

    /// The category held at `level`.
    pub fn get(&self, level: usize) -> (category: Category)
        requires
            level < CATEGORY_LEVELS,
        ensures
            category == self@[level as int],
    {
        self.levels[level]
    }

    /// Whether a choice can be made at `level`.
    pub fn is_enabled(&self, level: usize) -> (enabled: bool)
        requires
            level < CATEGORY_LEVELS,
        ensures
            enabled == level_enabled(self@, level as int),
    {
        level == 0 || self.levels[level - 1] != Category::Unselected
    }

    /// Whether `category` is offered at `level`.
    pub fn offers(&self, level: usize, category: Category) -> (yes: bool)
        requires
            level < CATEGORY_LEVELS,
        ensures
            yes == offered(self@, level as int, category),
    {
        if category == Category::Unselected {
            return true;
        }
        let mut i: usize = 0;
        while i < level
            invariant
                i <= level < CATEGORY_LEVELS,
                category != Category::Unselected,
                forall|k: int| 0 <= k < i ==> self.levels@[k] != category,
            decreases level - i,
        {
            if self.levels[i] == category {
                assert(self@.take(level as int)[i as int] == category);
                assert(self@.take(level as int).contains(category));
                return false;
            }
            i += 1;
        }
        true
    }

    /// The categories offered at `level`, in listing order.
    pub fn options(&self, level: usize) -> (list: Vec<Category>)
        requires
            level < CATEGORY_LEVELS,
        ensures
            list@ == options(self@, level as int),
    {
        let all = Category::all();
        let ghost pred = |category: Category| offered(self@, level as int, category);
        let mut list: Vec<Category> = Vec::new();
        let mut i: usize = 0;
        proof {
            reveal(Seq::filter);
            assert(all@.take(0) =~= Seq::<Category>::empty());
        }
        while i < all.len()
            invariant
                i <= all.len(),
                level < CATEGORY_LEVELS,
                all@ == Category::listing(),
                pred == |category: Category| offered(self@, level as int, category),
                list@ == all@.take(i as int).filter(pred),
            decreases all.len() - i,
        {
            let category = all[i];
            proof {
                assert(all@.take(i + 1) =~= all@.take(i as int).push(category));
                all@.take(i as int).lemma_filter_push(category, pred);
            }
            if self.offers(level, category) {
                list.push(category);
            }
            i += 1;
        }
        assert(all@.take(all.len() as int) =~= all@);
        list
    }

    /// Chooses `category` at `level` and resets the levels below. Nothing
    /// changes unless the level is open and the category is offered there.
    pub fn select(&mut self, level: usize, category: Category) -> (accepted: bool)
        requires
            level < CATEGORY_LEVELS,
        ensures
            accepted == (level_enabled(old(self)@, level as int) && offered(
                old(self)@,
                level as int,
                category,
            )),
            final(self)@ == if accepted {
                chosen(old(self)@, level as int, category)
            } else {
                old(self)@
            },
            is_path(final(self)@),
    {
        proof {
            use_type_invariant(&*self);
        }
        if !self.is_enabled(level) || !self.offers(level, category) {
            return false;
        }
        let mut next = self.levels;
        next[level] = category;
        let mut i: usize = level + 1;
        while i < CATEGORY_LEVELS
            invariant
                level < i <= CATEGORY_LEVELS,
                next@.len() == CATEGORY_LEVELS,
                forall|k: int| 0 <= k < level ==> next@[k] == self.levels@[k],
                next@[level as int] == category,
                forall|k: int| level < k < i ==> next@[k] == Category::Unselected,
            decreases CATEGORY_LEVELS - i,
        {
            next[i] = Category::Unselected;
            i += 1;
        }
        proof {
            assert(next@ =~= chosen(self@, level as int, category));
            lemma_choice_keeps_path(self@, level as int, category);
        }
        self.levels = next;
        true
    }
}

} // verus!
