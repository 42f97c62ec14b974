use starship_config_manager::{
    get_config_dir, get_settings_path, get_starship_config_path, join, parent_of, Layout,
};

#[test]
fn join_puts_one_separator_between_directory_and_name() {
    assert_eq!(join("/home/u", "a"), "/home/u/a");
    assert_eq!(join("/home/u/", "a"), "/home/u/a");
    assert_eq!(join("/", "a"), "/a");
    assert_eq!(join(".", "a"), "./a");
}

#[test]
fn join_of_an_empty_directory_is_the_name() {
    assert_eq!(join("", "a"), "a");
    assert_eq!(join("", ""), "");
}

#[test]
fn join_keeps_characters_outside_ascii() {
    assert_eq!(join("/home/zoë", "größe.toml"), "/home/zoë/größe.toml");
}

#[test]
fn layout_derives_every_path_from_its_two_roots() {
    let layout = Layout::new("/cfg".to_string(), "/home/u".to_string());
    assert_eq!(layout.config_dir(), "/cfg/starship-config-manager");
    assert_eq!(layout.settings_path(), "/cfg/starship-config-manager/settings.json");
    assert_eq!(layout.backup_dir(), "/cfg/starship-config-manager/backups");
    assert_eq!(layout.starship_dir(), "/home/u/.config");
    assert_eq!(layout.starship_config_path(), "/home/u/.config/starship.toml");
}

#[test]
fn resolve_keeps_the_roots_it_is_given() {
    let layout = Layout::resolve(Some("/cfg".to_string()), Some("/home/u".to_string()));
    assert_eq!(layout, Layout::new("/cfg".to_string(), "/home/u".to_string()));
}

#[test]
fn resolve_falls_back_to_the_current_directory() {
    let layout = Layout::resolve(None, None);
    assert_eq!(layout.config_root, ".");
    assert_eq!(layout.home, ".");
    assert_eq!(layout.settings_path(), "./starship-config-manager/settings.json");
    assert_eq!(layout.starship_config_path(), "./.config/starship.toml");
}

#[test]
fn resolve_takes_an_empty_root_for_the_current_directory() {
    let layout = Layout::resolve(Some(String::new()), Some("/home/u".to_string()));
    assert_eq!(layout, Layout::new(".".to_string(), "/home/u".to_string()));
    let layout = Layout::resolve(Some("/cfg".to_string()), Some(String::new()));
    assert_eq!(layout, Layout::new("/cfg".to_string(), ".".to_string()));
}

#[test]
fn detected_layout_agrees_with_the_path_functions() {
    let layout = Layout::detect();
    assert_eq!(get_config_dir(), layout.config_dir());
    assert_eq!(get_settings_path(), layout.settings_path());
    assert_eq!(get_starship_config_path(), layout.starship_config_path());
}

#[test]
fn detected_paths_end_in_the_fixed_names() {
    assert!(get_config_dir().ends_with("starship-config-manager"));
    assert!(get_settings_path().ends_with("settings.json"));
    assert!(get_settings_path().contains("starship-config-manager"));
    assert!(get_starship_config_path().ends_with("starship.toml"));
    assert!(get_starship_config_path().contains(".config"));
}

#[test]
fn detected_roots_are_not_the_names_that_follow_them() {
    let layout = Layout::detect();
    assert_ne!(layout.config_root, "starship-config-manager");
    assert_ne!(layout.home, ".config");
    assert!(!layout.config_root.is_empty());
    assert!(!layout.home.is_empty());
}

#[test]
fn parent_is_what_stands_before_the_last_separator() {
    assert_eq!(parent_of("/home/u/.config/starship.toml"), "/home/u/.config");
    assert_eq!(parent_of("a/b"), "a");
    assert_eq!(parent_of("./a"), ".");
    assert_eq!(parent_of("/home/zoë/größe.toml"), "/home/zoë");
    assert_eq!(parent_of("a/b/"), "a/b");
}

#[test]
fn parent_keeps_the_separator_where_nothing_else_is_left() {
    assert_eq!(parent_of("/a"), "/");
    assert_eq!(parent_of("/"), "/");
    assert_eq!(parent_of("a//b"), "a//");
    assert_eq!(parent_of("//a"), "//");
}

#[test]
fn path_without_a_separator_lies_in_the_empty_directory() {
    assert_eq!(parent_of("a.toml"), "");
    assert_eq!(parent_of(""), "");
}

#[test]
fn parent_undoes_join() {
    for dir in ["/cfg", ".", "/home/u/.config", "a/b", "/", "", "a/"] {
        for name in ["x", "starship.toml", ""] {
            let path = join(dir, name);
            assert_eq!(join(&parent_of(&path), name), path, "{:?} {:?}", dir, name);
        }
    }
    let layout = Layout::new("/cfg/".to_string(), "/home/u".to_string());
    assert_eq!(parent_of(&layout.settings_path()), layout.config_dir());
    assert_eq!(parent_of(&layout.starship_config_path()), layout.starship_dir());
    assert_eq!(parent_of(&layout.backup_dir()), layout.config_dir());
}
