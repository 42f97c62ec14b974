use starship_config_manager::{
    get_settings, update_settings, Action, Error, Layout, Plan, Settings, SettingsProbe,
    StoredSettings,
};

fn layout() -> Layout {
    Layout::new("/cfg".to_string(), "/home/u".to_string())
}

fn defaults() -> Settings {
    Settings {
        theme: "light".to_string(),
        theme_color: "zinc".to_string(),
        language: "en".to_string(),
    }
}

#[test]
fn default_settings_are_light_zinc_english() {
    assert_eq!(Settings::default(), defaults());
}

#[test]
fn first_read_returns_and_saves_the_defaults() {
    let plan = get_settings(&layout(), SettingsProbe::Absent).unwrap();
    assert_eq!(plan.value, defaults());
    assert_eq!(
        plan.actions,
        vec![
            Action::CreateDirAll { path: "/cfg/starship-config-manager".to_string() },
            Action::WriteSettings {
                path: "/cfg/starship-config-manager/settings.json".to_string(),
                settings: defaults(),
            },
        ]
    );
}

#[test]
fn stored_record_is_returned_and_nothing_is_written() {
    let stored = StoredSettings {
        theme: "dark".to_string(),
        theme_color: Some("rose".to_string()),
        language: "de".to_string(),
    };
    let plan = get_settings(&layout(), SettingsProbe::Stored(stored)).unwrap();
    assert_eq!(
        plan.value,
        Settings {
            theme: "dark".to_string(),
            theme_color: "rose".to_string(),
            language: "de".to_string(),
        }
    );
    assert_eq!(plan.actions, Vec::<Action>::new());
}

#[test]
fn missing_theme_color_is_filled_with_zinc() {
    let stored = StoredSettings {
        theme: "dark".to_string(),
        theme_color: None,
        language: "de".to_string(),
    };
    assert_eq!(stored.clone().into_settings().theme_color, "zinc");
    let plan = get_settings(&layout(), SettingsProbe::Stored(stored)).unwrap();
    assert_eq!(plan.value.theme, "dark");
    assert_eq!(plan.value.theme_color, "zinc");
    assert_eq!(plan.value.language, "de");
}

#[test]
fn only_the_theme_color_is_filled_in() {
    let stored = StoredSettings {
        theme: String::new(),
        theme_color: Some(String::new()),
        language: String::new(),
    };
    let settings = stored.into_settings();
    assert_eq!(settings.theme, "");
    assert_eq!(settings.theme_color, "");
    assert_eq!(settings.language, "");
}

#[test]
fn malformed_settings_are_a_parse_error() {
    let found = SettingsProbe::Malformed("expected value at line 1 column 1".to_string());
    assert_eq!(
        get_settings(&layout(), found),
        Err(Error::Parse("expected value at line 1 column 1".to_string()))
    );
}

#[test]
fn unreadable_settings_are_an_io_error() {
    let found = SettingsProbe::Unreadable("Permission denied (os error 13)".to_string());
    assert_eq!(
        get_settings(&layout(), found),
        Err(Error::Io("Permission denied (os error 13)".to_string()))
    );
}

#[test]
fn update_writes_the_whole_record() {
    let payload = Settings {
        theme: "dark".to_string(),
        theme_color: "zinc".to_string(),
        language: "en".to_string(),
    };
    let plan = update_settings(&layout(), payload.clone());
    assert_eq!(
        plan,
        Plan {
            value: (),
            actions: vec![
                Action::CreateDirAll { path: "/cfg/starship-config-manager".to_string() },
                Action::WriteSettings {
                    path: "/cfg/starship-config-manager/settings.json".to_string(),
                    settings: payload,
                },
            ],
        }
    );
}

#[test]
fn saved_record_names_its_theme_color() {
    let payload = Settings {
        theme: "dark".to_string(),
        theme_color: "rose".to_string(),
        language: "en".to_string(),
    };
    let stored = payload.to_stored();
    assert_eq!(stored.theme_color, Some("rose".to_string()));
    assert_eq!(stored.into_settings(), payload);
}

#[test]
fn settle_hands_back_the_value_when_nothing_failed() {
    let plan = Plan { value: 7u32, actions: Vec::new() };
    assert_eq!(plan.settle(None), Ok(7));
}

#[test]
fn settle_turns_a_failed_action_into_an_io_error() {
    let plan = Plan { value: 7u32, actions: Vec::new() };
    assert_eq!(
        plan.settle(Some("No space left on device (os error 28)".to_string())),
        Err(Error::Io("No space left on device (os error 28)".to_string()))
    );
}

#[test]
fn done_plan_has_no_actions() {
    let plan = Plan::done("text".to_string());
    assert_eq!(plan.value, "text");
    assert!(plan.actions.is_empty());
}

#[test]
fn every_error_shows_its_message() {
    assert_eq!(Error::Io("a".to_string()).message(), "a");
    assert_eq!(Error::Parse("b".to_string()).message(), "b");
    assert_eq!(Error::NotFound("c".to_string()).message(), "c");
    assert_eq!(Error::PermissionDenied("d".to_string()).message(), "d");
}

#[test]
fn errors_of_the_library_have_fixed_messages() {
    assert_eq!(Error::config_not_found(), Error::NotFound("Config not found".to_string()));
    assert_eq!(
        Error::enterprise_read_only(),
        Error::PermissionDenied("Cannot modify enterprise config".to_string())
    );
    assert_eq!(Error::backup_not_found(), Error::NotFound("Backup not found".to_string()));
    assert_eq!(
        Error::target_not_found(),
        Error::NotFound("Starship config not found".to_string())
    );
    assert_eq!(
        Error::clock_unreadable(),
        Error::Io("System time is out of range".to_string())
    );
}
