use qtm2::qtm_config::{get_window_title, LoadOutcome, QtmConfig, QtmTheme, QtmVersion};

#[test]
fn test_version_eq() {
    assert_eq!(QtmVersion(0, 3, 0), QtmVersion(0, 3, 0));
    assert_eq!(QtmVersion(1, 3, 5), QtmVersion(1, 3, 5));
    assert_ne!(QtmVersion(0, 3, 5), QtmVersion(1, 3, 5));
    assert_ne!(QtmVersion(0, 3, 6), QtmVersion(1, 3, 5));
}

#[test]
fn test_version_cmp() {
    assert!(QtmVersion(0, 3, 0) < QtmVersion(1, 3, 0));
    assert!(QtmVersion(0, 3, 2) < QtmVersion(0, 3, 3));
    assert!(QtmVersion(0, 3, 2) > QtmVersion(0, 2, 2));
    assert!(QtmVersion(1, 5, 12) > QtmVersion(0, 12, 7));
}

#[test]
fn version_text_joins_the_numbers_with_dots() {
    assert_eq!(QtmVersion(0, 3, 0).to_string(), "0.3.0");
    assert_eq!(QtmVersion(1, 5, 12).to_string(), "1.5.12");
    assert_eq!(QtmVersion(255, 100, 9).to_string(), "255.100.9");
}

#[test]
fn current_version_is_the_package_version() {
    assert_eq!(QtmVersion::get_current_version(), QtmVersion(0, 3, 0));
    assert_eq!(QtmVersion::get_current_version().to_string(), "0.3.0");
}

#[test]
fn version_order_is_strict_and_total() {
    let versions = vec![
        QtmVersion(0, 0, 0),
        QtmVersion(0, 0, 255),
        QtmVersion(0, 1, 0),
        QtmVersion(0, 255, 255),
        QtmVersion(1, 0, 0),
        QtmVersion(255, 255, 255),
    ];
    for (i, a) in versions.iter().enumerate() {
        for (j, b) in versions.iter().enumerate() {
            assert_eq!(a < b, i < j);
            assert_eq!(a > b, i > j);
            assert_eq!(a == b, i == j);
            assert_eq!(a.partial_cmp(b), Some(i.cmp(&j)));
            assert_eq!(a.cmp(b), i.cmp(&j));
        }
    }
}

#[test]
fn window_title_names_the_version() {
    assert_eq!(get_window_title(QtmVersion(0, 3, 0)), "Quick Torrent Maker 2 v0.3.0");
}

#[test]
fn theme_negation_gives_the_other_theme() {
    assert_eq!(-QtmTheme::Light, QtmTheme::Dark);
    assert_eq!(-QtmTheme::Dark, QtmTheme::Light);
    assert_eq!(-(-QtmTheme::Light), QtmTheme::Light);
    assert_eq!(QtmTheme::Light.to_string(), "Light");
    assert_eq!(QtmTheme::Dark.to_string(), "Dark");
}

#[test]
fn default_config_has_the_documented_values() {
    let config = QtmConfig::default();
    assert_eq!(config.version, QtmVersion::get_current_version());
    assert_eq!(config.theme, QtmTheme::Light);
    assert_eq!(config.default_directory, None);
    assert_eq!(config.initial_window_size, (800, 700));
    assert_eq!(config.image_area, 120_000);
}

#[test]
fn config_clone_keeps_every_field() {
    let config = QtmConfig {
        version: QtmVersion(1, 2, 3),
        theme: QtmTheme::Dark,
        default_directory: Some("/home/user/uploads".to_owned()),
        initial_window_size: (1024, 768),
        image_area: 5,
    };
    let copy = config.clone();
    assert_eq!(copy.version, QtmVersion(1, 2, 3));
    assert_eq!(copy.theme, QtmTheme::Dark);
    assert_eq!(copy.default_directory.as_deref(), Some("/home/user/uploads"));
    assert_eq!(copy.initial_window_size, (1024, 768));
    assert_eq!(copy.image_area, 5);
}

#[test]
fn unreadable_settings_give_the_default_and_ask_for_a_save() {
    let (config, save) = QtmConfig::from_load(LoadOutcome::Unreadable);
    assert!(save);
    assert_eq!(config.theme, QtmTheme::Light);
    assert_eq!(config.initial_window_size, (800, 700));
}

#[test]
fn malformed_settings_give_the_default_without_a_save() {
    let (config, save) = QtmConfig::from_load(LoadOutcome::Malformed);
    assert!(!save);
    assert_eq!(config.theme, QtmTheme::Light);
    assert_eq!(config.image_area, 120_000);
}

#[test]
fn loaded_settings_are_taken_as_they_are() {
    let read = QtmConfig {
        version: QtmVersion(0, 2, 9),
        theme: QtmTheme::Dark,
        default_directory: Some("/srv".to_owned()),
        initial_window_size: (10, 20),
        image_area: 30,
    };
    let (config, save) = QtmConfig::from_load(LoadOutcome::Loaded(read));
    assert!(!save);
    assert_eq!(config.version, QtmVersion(0, 2, 9));
    assert_eq!(config.theme, QtmTheme::Dark);
    assert_eq!(config.default_directory.as_deref(), Some("/srv"));
    assert_eq!(config.initial_window_size, (10, 20));
    assert_eq!(config.image_area, 30);
}
