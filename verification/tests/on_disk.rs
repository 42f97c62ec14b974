use serde_json::Value;
use starship_config_manager::{
    apply_preset_at, backup_stamp, create_backup, create_backup_at, delete_backup,
    get_backup_list, get_config_content, get_config_list, get_settings, get_starship_toml,
    parent_of, resolve_config, restore_backup, restore_from_backup, save_config_content,
    save_starship_toml, update_settings, Action, DirProbe, Error, FileProbe, FileTimes, Layout,
    Plan, Settings, SettingsProbe, StarshipConfig, StoredSettings, UnixTime,
};
use std::collections::{BTreeMap, BTreeSet};

/// A file system held in memory, on which the plans are carried out.
struct Disk {
    files: BTreeMap<String, String>,
    dirs: BTreeSet<String>,
}

fn name(path: &str) -> &str {
    match path.rfind('/') {
        Some(at) => &path[at + 1..],
        None => path,
    }
}

fn record_text(settings: &Settings) -> String {
    let mut record = serde_json::Map::new();
    record.insert("theme".to_string(), Value::String(settings.theme.clone()));
    record.insert("themeColor".to_string(), Value::String(settings.theme_color.clone()));
    record.insert("language".to_string(), Value::String(settings.language.clone()));
    serde_json::to_string_pretty(&Value::Object(record)).unwrap()
}

fn record_of(text: &str) -> Result<StoredSettings, String> {
    let value: Value = serde_json::from_str(text).map_err(|e| e.to_string())?;
    let field = |key: &str| value.get(key).and_then(|v| v.as_str()).map(|s| s.to_string());
    Ok(StoredSettings {
        theme: field("theme").ok_or("missing field `theme`")?,
        theme_color: field("themeColor"),
        language: field("language").ok_or("missing field `language`")?,
    })
}

impl Disk {
    fn fresh() -> Disk {
        Disk { files: BTreeMap::new(), dirs: BTreeSet::new() }
    }

    fn put(&mut self, path: &str, content: String) -> Result<(), String> {
        if !self.dirs.contains(&parent_of(path)) {
            return Err(format!("{}: no such directory", parent_of(path)));
        }
        self.files.insert(path.to_string(), content);
        Ok(())
    }

    fn perform(&mut self, action: &Action) -> Result<(), String> {
        match action {
            Action::CreateDirAll { path } => {
                let mut dir = path.clone();
                while self.dirs.insert(dir.clone()) {
                    dir = parent_of(&dir);
                }
                Ok(())
            },
            Action::WriteFile { path, content } => self.put(path, content.clone()),
            Action::WriteSettings { path, settings } => self.put(path, record_text(settings)),
            Action::CopyFile { from, to } => match self.files.get(from).cloned() {
                Some(content) => self.put(to, content),
                None => Err(format!("{}: no such file", from)),
            },
            Action::RemoveFile { path } => match self.files.remove(path) {
                Some(_) => Ok(()),
                None => Err(format!("{}: no such file", path)),
            },
        }
    }

    fn carry_out<T>(&mut self, plan: Plan<T>) -> Result<T, Error> {
        let mut failure = None;
        for action in &plan.actions {
            if let Err(message) = self.perform(action) {
                failure = Some(message);
                break;
            }
        }
        plan.settle(failure)
    }

    fn settings(&self, layout: &Layout) -> SettingsProbe {
        match self.files.get(&layout.settings_path()) {
            None => SettingsProbe::Absent,
            Some(text) => match record_of(text) {
                Ok(record) => SettingsProbe::Stored(record),
                Err(message) => SettingsProbe::Malformed(message),
            },
        }
    }

    fn target(&self, layout: &Layout) -> FileProbe {
        match self.files.get(&layout.starship_config_path()) {
            None => FileProbe::Absent,
            Some(text) => FileProbe::Content(text.clone()),
        }
    }

    fn backups(&self, layout: &Layout) -> DirProbe {
        let dir = layout.backup_dir();
        if !self.dirs.contains(&dir) {
            return DirProbe::Absent;
        }
        DirProbe::Entries(
            self.files
                .keys()
                .filter(|path| parent_of(path) == dir)
                .map(|path| name(path).to_string())
                .collect(),
        )
    }

    fn read_settings(&mut self, layout: &Layout) -> Result<Settings, Error> {
        let plan = get_settings(layout, self.settings(layout))?;
        self.carry_out(plan)
    }

    fn read_config(&mut self, layout: &Layout) -> Result<String, Error> {
        let plan = get_starship_toml(layout, self.target(layout))?;
        self.carry_out(plan)
    }

    fn write_config(&mut self, layout: &Layout, content: &str) -> Result<(), Error> {
        self.carry_out(save_starship_toml(layout, content.to_string()))
    }

    fn backup_at(&mut self, layout: &Layout, prefix: &str, secs: i64) -> Result<String, Error> {
        let exists = self.files.contains_key(&layout.starship_config_path());
        let stamp = backup_stamp(UnixTime { secs, nanos: 0 }).unwrap();
        let plan = create_backup_at(layout, prefix, exists, &stamp)?;
        self.carry_out(plan)
    }

    fn configs(&self, layout: &Layout) -> Vec<StarshipConfig> {
        let target = if self.files.contains_key(&layout.starship_config_path()) {
            Some(FileTimes { created: None, modified: None })
        } else {
            None
        };
        get_config_list(layout, target).unwrap()
    }

    fn read_content(&mut self, layout: &Layout, id: &str) -> Result<String, Error> {
        let configs = self.configs(layout);
        let found = match resolve_config(layout, &configs, id) {
            Some(target) => match self.files.get(&target.path) {
                Some(text) => FileProbe::Content(text.clone()),
                None => FileProbe::Absent,
            },
            None => FileProbe::Absent,
        };
        let plan = get_config_content(layout, &configs, id, found)?;
        self.carry_out(plan)
    }

    fn save_content(&mut self, layout: &Layout, id: &str, content: &str) -> Result<(), Error> {
        let configs = self.configs(layout);
        let plan = save_config_content(layout, &configs, id, content.to_string())?;
        self.carry_out(plan)
    }

    fn restore(&mut self, layout: &Layout, id: &str, backup: &str) -> Result<(), Error> {
        let configs = self.configs(layout);
        let exists = self.files.contains_key(backup);
        let plan = restore_backup(layout, &configs, id, backup.to_string(), exists)?;
        self.carry_out(plan)
    }

    fn list(&self, layout: &Layout) -> Result<Vec<String>, Error> {
        get_backup_list(layout, self.backups(layout))
    }
}

fn layout() -> Layout {
    Layout::new("/cfg".to_string(), "/home/u".to_string())
}

fn dark() -> Settings {
    Settings { theme: "dark".to_string(), theme_color: "zinc".to_string(), language: "en".to_string() }
}

#[test]
fn reading_settings_twice_on_a_fresh_disk_gives_the_defaults_twice() {
    let mut disk = Disk::fresh();
    let first = disk.read_settings(&layout()).unwrap();
    assert!(disk.files.contains_key("/cfg/starship-config-manager/settings.json"));
    let written = disk.files.clone();
    let second = disk.read_settings(&layout()).unwrap();
    assert_eq!(first, Settings::default());
    assert_eq!(second, first);
    assert_eq!(disk.files, written);
}

#[test]
fn saved_settings_are_read_back() {
    let mut disk = Disk::fresh();
    let payload = Settings {
        theme: "dark \"quoted\"\n".to_string(),
        theme_color: "rose".to_string(),
        language: "日本語".to_string(),
    };
    disk.carry_out(update_settings(&layout(), payload.clone())).unwrap();
    assert_eq!(disk.read_settings(&layout()), Ok(payload));
}

#[test]
fn settings_saved_without_a_theme_color_read_back_with_zinc() {
    let mut disk = Disk::fresh();
    disk.carry_out(update_settings(&layout(), dark())).unwrap();
    disk.files.insert(
        layout().settings_path(),
        "{\"theme\": \"dark\", \"language\": \"fr\"}".to_string(),
    );
    assert_eq!(
        disk.read_settings(&layout()),
        Ok(Settings {
            theme: "dark".to_string(),
            theme_color: "zinc".to_string(),
            language: "fr".to_string(),
        })
    );
}

#[test]
fn settings_that_are_no_record_are_a_parse_error() {
    let mut disk = Disk::fresh();
    disk.carry_out(update_settings(&layout(), dark())).unwrap();
    disk.files.insert(layout().settings_path(), "not json".to_string());
    assert!(matches!(disk.read_settings(&layout()), Err(Error::Parse(_))));
    disk.files.insert(layout().settings_path(), "{\"theme\": \"dark\"}".to_string());
    assert_eq!(
        disk.read_settings(&layout()),
        Err(Error::Parse("missing field `language`".to_string()))
    );
}

#[test]
fn reading_a_missing_configuration_creates_it_empty() {
    let mut disk = Disk::fresh();
    assert_eq!(disk.read_config(&layout()), Ok(String::new()));
    assert_eq!(disk.files.get("/home/u/.config/starship.toml"), Some(&String::new()));
    assert_eq!(disk.read_config(&layout()), Ok(String::new()));
}

#[test]
fn backup_holds_the_configuration_as_it_was() {
    let mut disk = Disk::fresh();
    disk.write_config(&layout(), "format = \"$all\"\n# é\n").unwrap();
    let backup = disk.backup_at(&layout(), "starship", 1_700_000_000).unwrap();
    assert_eq!(backup, "/cfg/starship-config-manager/backups/starship_20231114_221320.toml");
    disk.write_config(&layout(), "changed").unwrap();
    assert_eq!(disk.files.get(&backup), Some(&"format = \"$all\"\n# é\n".to_string()));
}

#[test]
fn backup_without_a_configuration_fails_and_changes_nothing() {
    let mut disk = Disk::fresh();
    assert_eq!(
        disk.backup_at(&layout(), "starship", 1_700_000_000),
        Err(Error::NotFound("Starship config not found".to_string()))
    );
    assert!(disk.files.is_empty());
    assert!(disk.dirs.is_empty());
}

#[test]
fn two_backups_within_one_second_share_a_name() {
    let mut disk = Disk::fresh();
    disk.write_config(&layout(), "one").unwrap();
    let first = disk.backup_at(&layout(), "starship", 1_700_000_000).unwrap();
    disk.write_config(&layout(), "two").unwrap();
    let second = disk.backup_at(&layout(), "starship", 1_700_000_000).unwrap();
    assert_eq!(first, second);
    assert_eq!(disk.files.get(&second), Some(&"two".to_string()));
    assert_eq!(disk.list(&layout()).unwrap().len(), 1);
}

#[test]
fn restore_brings_the_backup_back() {
    let mut disk = Disk::fresh();
    disk.write_config(&layout(), "old").unwrap();
    let backup = disk.backup_at(&layout(), "starship", 1_700_000_000).unwrap();
    disk.write_config(&layout(), "new").unwrap();
    let exists = disk.files.contains_key(&backup);
    let plan = restore_from_backup(&layout(), backup.clone(), exists).unwrap();
    disk.carry_out(plan).unwrap();
    assert_eq!(disk.read_config(&layout()), Ok("old".to_string()));
    assert_eq!(disk.files.get(&backup), Some(&"old".to_string()));
}

#[test]
fn restore_creates_the_directory_of_the_configuration() {
    let mut disk = Disk::fresh();
    disk.dirs.insert("/b".to_string());
    disk.files.insert("/b/x.toml".to_string(), "kept".to_string());
    let plan = restore_from_backup(&layout(), "/b/x.toml".to_string(), true).unwrap();
    disk.carry_out(plan).unwrap();
    assert_eq!(disk.read_config(&layout()), Ok("kept".to_string()));
}

#[test]
fn restore_from_a_backup_that_vanished_is_an_io_error() {
    let mut disk = Disk::fresh();
    let plan = restore_from_backup(&layout(), "/b/x.toml".to_string(), true).unwrap();
    assert_eq!(disk.carry_out(plan), Err(Error::Io("/b/x.toml: no such file".to_string())));
}

#[test]
fn content_of_the_missing_user_configuration_is_created_empty() {
    let mut disk = Disk::fresh();
    assert_eq!(disk.read_content(&layout(), "user"), Ok(String::new()));
    assert_eq!(disk.files.get("/home/u/.config/starship.toml"), Some(&String::new()));
    assert_eq!(disk.read_content(&layout(), "user"), Ok(String::new()));
    assert_eq!(
        disk.read_content(&layout(), "other"),
        Err(Error::NotFound("Config not found".to_string()))
    );
}

#[test]
fn content_saved_under_the_user_identifier_is_read_back() {
    let mut disk = Disk::fresh();
    assert_eq!(disk.save_content(&layout(), "user", "x = 1"), Ok(()));
    assert_eq!(disk.files.get("/home/u/.config/starship.toml"), Some(&"x = 1".to_string()));
    assert_eq!(disk.save_content(&layout(), "user", "x = 2\n# é"), Ok(()));
    assert_eq!(disk.read_content(&layout(), "user"), Ok("x = 2\n# é".to_string()));
    assert_eq!(disk.read_config(&layout()), Ok("x = 2\n# é".to_string()));
    assert_eq!(disk.list(&layout()), Ok(Vec::new()));
}

#[test]
fn restore_under_the_user_identifier_creates_the_missing_configuration() {
    let mut disk = Disk::fresh();
    disk.dirs.insert("/b".to_string());
    disk.files.insert("/b/x.toml".to_string(), "Y".to_string());
    assert_eq!(disk.restore(&layout(), "user", "/b/x.toml"), Ok(()));
    assert_eq!(disk.read_config(&layout()), Ok("Y".to_string()));
    assert_eq!(disk.files.get("/b/x.toml"), Some(&"Y".to_string()));
    disk.write_config(&layout(), "changed").unwrap();
    assert_eq!(disk.restore(&layout(), "user", "/b/x.toml"), Ok(()));
    assert_eq!(disk.read_content(&layout(), "user"), Ok("Y".to_string()));
    assert_eq!(
        disk.restore(&layout(), "user", "/b/gone.toml"),
        Err(Error::NotFound("Backup not found".to_string()))
    );
}

#[test]
fn backup_that_fails_leaves_every_file_as_it_was() {
    let mut disk = Disk::fresh();
    disk.write_config(&layout(), "kept").unwrap();
    let before = disk.files.clone();
    let plan = create_backup_at(&layout(), "a/b", true, "20240102_030405").unwrap();
    assert_eq!(
        disk.carry_out(plan),
        Err(Error::Io("/cfg/starship-config-manager/backups/a: no such directory".to_string()))
    );
    assert_eq!(disk.files, before);
    disk.files.clear();
    let plan = create_backup_at(&layout(), "starship", true, "20240102_030405").unwrap();
    assert!(matches!(disk.carry_out(plan), Err(Error::Io(_))));
    assert!(disk.files.is_empty());
}

#[test]
fn backups_are_listed_newest_first() {
    let mut disk = Disk::fresh();
    disk.write_config(&layout(), "text").unwrap();
    let moments: [i64; 5] = [0, 1, 86_400, 1_700_000_000, 4_102_444_800];
    let mut made = Vec::new();
    for secs in moments {
        made.push(disk.backup_at(&layout(), "starship", secs).unwrap());
    }
    made.reverse();
    assert_eq!(disk.list(&layout()), Ok(made.clone()));
    assert_eq!(made[0], "/cfg/starship-config-manager/backups/starship_21000101_000000.toml");
    assert_eq!(made[4], "/cfg/starship-config-manager/backups/starship_19700101_000000.toml");
}

#[test]
fn list_without_a_backup_directory_is_empty() {
    let mut disk = Disk::fresh();
    assert_eq!(disk.list(&layout()), Ok(Vec::new()));
    disk.write_config(&layout(), "text").unwrap();
    assert_eq!(disk.backups(&layout()), DirProbe::Absent);
    assert_eq!(disk.list(&layout()), Ok(Vec::new()));
}

#[test]
fn preset_keeps_a_backup_of_what_it_replaces() {
    let mut disk = Disk::fresh();
    disk.write_config(&layout(), "X").unwrap();
    let plan = apply_preset_at(&layout(), true, "20240102_030405", "Y".to_string());
    disk.carry_out(plan).unwrap();
    assert_eq!(
        disk.files.get("/cfg/starship-config-manager/backups/starship_before_preset_20240102_030405.toml"),
        Some(&"X".to_string())
    );
    assert_eq!(disk.read_config(&layout()), Ok("Y".to_string()));
    assert_eq!(
        disk.list(&layout()),
        Ok(vec![
            "/cfg/starship-config-manager/backups/starship_before_preset_20240102_030405.toml"
                .to_string()
        ])
    );
}

#[test]
fn preset_on_a_fresh_disk_writes_without_a_backup() {
    let mut disk = Disk::fresh();
    let plan = apply_preset_at(&layout(), false, "20240102_030405", "Y".to_string());
    disk.carry_out(plan).unwrap();
    assert_eq!(disk.read_config(&layout()), Ok("Y".to_string()));
    assert_eq!(disk.list(&layout()), Ok(Vec::new()));
    assert!(disk.dirs.contains("/cfg/starship-config-manager/backups"));
}

#[test]
fn preset_that_cannot_back_up_does_not_write() {
    let mut disk = Disk::fresh();
    let plan = apply_preset_at(&layout(), true, "20240102_030405", "Y".to_string());
    assert_eq!(
        disk.carry_out(plan),
        Err(Error::Io("/home/u/.config/starship.toml: no such file".to_string()))
    );
    assert!(disk.files.is_empty());
}

#[test]
fn deleting_twice_is_no_error() {
    let mut disk = Disk::fresh();
    disk.write_config(&layout(), "text").unwrap();
    let backup = disk.backup_at(&layout(), "starship", 1_700_000_000).unwrap();
    let first = delete_backup(backup.clone(), disk.files.contains_key(&backup));
    assert_eq!(disk.carry_out(first), Ok(()));
    let second = delete_backup(backup.clone(), disk.files.contains_key(&backup));
    assert_eq!(disk.carry_out(second), Ok(()));
    assert_eq!(disk.list(&layout()), Ok(Vec::new()));
}

#[test]
fn listed_configuration_follows_the_file() {
    let mut disk = Disk::fresh();
    let times = FileTimes { created: None, modified: None };
    let seen = |disk: &Disk| {
        if disk.files.contains_key(&layout().starship_config_path()) {
            Some(times)
        } else {
            None
        }
    };
    assert_eq!(get_config_list(&layout(), seen(&disk)), Ok(Vec::new()));
    disk.write_config(&layout(), "text").unwrap();
    let configs = get_config_list(&layout(), seen(&disk)).unwrap();
    assert_eq!(configs.len(), 1);
    assert_eq!(configs[0].id, "user");
    assert_eq!(configs[0].name, "User Config");
    assert!(!configs[0].is_enterprise);
    assert_eq!(configs[0].created_at, configs[0].updated_at);
}

#[test]
fn from_a_fresh_disk_to_a_deleted_backup() {
    let mut disk = Disk::fresh();
    let settings = disk.read_settings(&layout()).unwrap();
    assert_eq!(
        settings,
        Settings {
            theme: "light".to_string(),
            theme_color: "zinc".to_string(),
            language: "en".to_string(),
        }
    );
    disk.carry_out(update_settings(&layout(), dark())).unwrap();
    assert_eq!(disk.read_settings(&layout()), Ok(dark()));
    disk.write_config(&layout(), "format = \"$all\"").unwrap();
    let exists = disk.files.contains_key(&layout().starship_config_path());
    let plan = create_backup(&layout(), "starship", exists).unwrap();
    let backup = disk.carry_out(plan).unwrap();
    assert!(backup.ends_with(".toml"));
    assert_eq!(disk.files.get(&backup), Some(&"format = \"$all\"".to_string()));
    assert_eq!(disk.list(&layout()), Ok(vec![backup.clone()]));
    let plan = delete_backup(backup.clone(), disk.files.contains_key(&backup));
    assert_eq!(disk.carry_out(plan), Ok(()));
    assert!(!disk.list(&layout()).unwrap().contains(&backup));
    assert_eq!(disk.read_config(&layout()), Ok("format = \"$all\"".to_string()));
}
