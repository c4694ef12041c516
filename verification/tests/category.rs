use qtm2::category::{Category, CategoryPath, CATEGORY_COUNT, CATEGORY_LEVELS};

#[test]
fn there_are_forty_five_categories_with_the_placeholder_first() {
    let all = Category::all();
    assert_eq!(all.len(), 45);
    assert_eq!(all.len(), CATEGORY_COUNT);
    assert_eq!(all[0], Category::Unselected);
    assert_eq!(all[1], Category::Amateur);
    assert_eq!(all[44], Category::Youngblood);
    for (i, a) in all.iter().enumerate() {
        for (j, b) in all.iter().enumerate() {
            assert_eq!(a == b, i == j);
        }
    }
}

#[test]
fn labels_are_the_names_shown() {
    assert_eq!(Category::Unselected.label(), "Select Category");
    assert_eq!(Category::AnimeGames.label(), "Anime Games");
    assert_eq!(Category::Bdsm.label(), "BDSM");
    assert_eq!(Category::BooksMagazines.label(), "Books & Magazines");
    assert_eq!(Category::DaddiesSons.label(), "Daddies / Sons");
    assert_eq!(Category::GroupSex.label(), "Group-Sex");
    assert_eq!(Category::StraightOlder.label(), "Straight older");
    assert_eq!(Category::TvEpisodes.label(), "TV / Episodes");
    assert_eq!(Category::WrestlingAndSports.label(), "Wrestling and Sports");
    assert_eq!(Category::Youngblood.to_string(), "Youngblood");
}

#[test]
fn a_label_read_back_gives_its_category() {
    for category in Category::all() {
        assert_eq!(Category::from_label(category.label()), Some(category));
        assert_eq!(Category::from_label(&category.to_string()), Some(category));
    }
}

#[test]
fn an_unknown_label_gives_no_category() {
    assert_eq!(Category::from_label(""), None);
    assert_eq!(Category::from_label("amateur"), None);
    assert_eq!(Category::from_label("Bdsm"), None);
    assert_eq!(Category::from_label("None"), None);
    assert_eq!(Category::from_label("Amateur "), None);
}

#[test]
fn a_new_path_has_nothing_chosen() {
    let path = CategoryPath::new();
    assert_eq!(CATEGORY_LEVELS, 5);
    assert_eq!(path.levels(), [Category::Unselected; 5]);
    assert!(path.is_enabled(0));
    for level in 1..5 {
        assert!(!path.is_enabled(level));
        assert_eq!(path.get(level), Category::Unselected);
    }
    assert_eq!(path.options(0), Category::all());
}

#[test]
fn a_choice_opens_the_next_level_and_is_not_offered_again() {
    let mut path = CategoryPath::new();
    assert!(path.select(0, Category::Bears));
    assert_eq!(path.get(0), Category::Bears);
    assert!(path.is_enabled(1));
    assert!(!path.is_enabled(2));
    assert!(!path.offers(1, Category::Bears));
    assert!(path.offers(1, Category::Unselected));
    assert!(path.offers(1, Category::Solo));
    assert!(path.offers(0, Category::Bears));
    let options = path.options(1);
    assert_eq!(options.len(), 44);
    assert_eq!(options[0], Category::Unselected);
    assert!(!options.contains(&Category::Bears));
    let expected: Vec<Category> =
        Category::all().into_iter().filter(|c| *c != Category::Bears).collect();
    assert_eq!(options, expected);
}

#[test]
fn a_choice_at_a_closed_level_is_refused() {
    let mut path = CategoryPath::new();
    assert!(!path.select(1, Category::Solo));
    assert!(!path.select(4, Category::Solo));
    assert_eq!(path.levels(), [Category::Unselected; 5]);
}

#[test]
fn a_category_chosen_above_is_refused_below() {
    let mut path = CategoryPath::new();
    assert!(path.select(0, Category::Solo));
    assert!(path.select(1, Category::Clips));
    assert!(!path.select(2, Category::Solo));
    assert!(!path.select(2, Category::Clips));
    assert!(!path.select(1, Category::Solo));
    assert_eq!(
        path.levels(),
        [
            Category::Solo,
            Category::Clips,
            Category::Unselected,
            Category::Unselected,
            Category::Unselected
        ]
    );
}

#[test]
fn a_change_of_a_parent_resets_the_levels_below() {
    let mut path = CategoryPath::new();
    assert!(path.select(0, Category::Solo));
    assert!(path.select(1, Category::Clips));
    assert!(path.select(2, Category::Hunks));
    assert!(path.select(3, Category::Jocks));
    assert!(path.select(4, Category::Latino));
    assert_eq!(
        path.levels(),
        [Category::Solo, Category::Clips, Category::Hunks, Category::Jocks, Category::Latino]
    );
    assert!(path.select(1, Category::Vintage));
    assert_eq!(
        path.levels(),
        [
            Category::Solo,
            Category::Vintage,
            Category::Unselected,
            Category::Unselected,
            Category::Unselected
        ]
    );
    assert!(path.is_enabled(2));
    assert!(!path.is_enabled(3));
}

#[test]
fn choosing_the_same_category_again_still_resets_the_levels_below() {
    let mut path = CategoryPath::new();
    assert!(path.select(0, Category::Solo));
    assert!(path.select(1, Category::Clips));
    assert!(path.select(0, Category::Solo));
    assert_eq!(path.get(0), Category::Solo);
    assert_eq!(path.get(1), Category::Unselected);
}

#[test]
fn choosing_the_placeholder_empties_the_path_from_there() {
    let mut path = CategoryPath::new();
    assert!(path.select(0, Category::Solo));
    assert!(path.select(1, Category::Clips));
    assert!(path.select(2, Category::Hunks));
    assert!(path.select(1, Category::Unselected));
    assert_eq!(
        path.levels(),
        [
            Category::Solo,
            Category::Unselected,
            Category::Unselected,
            Category::Unselected,
            Category::Unselected
        ]
    );
    assert!(!path.is_enabled(2));
    assert!(path.select(0, Category::Unselected));
    assert_eq!(path.levels(), [Category::Unselected; 5]);
}
