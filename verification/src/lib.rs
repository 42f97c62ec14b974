//! Decision logic of a configuration manager for the Starship prompt.
//!
//! The library never touches the disk. Every operation takes what the caller
//! observed of the file system as plain values and answers with a [`Plan`]:
//! the value to hand back and the ordered list of file-system [`Action`]s to
//! carry out first. The caller carries the actions out, stops at the first
//! that fails, and lets [`Plan::settle`] say what the operation returns.
//!
//! The module `disk` holds a model of the file system on which plans can be
//! run in a proof, to the end or to the first failure, and the module `laws`
//! states over that model what the operations guarantee together.

pub mod backup;
pub mod clock;
pub mod config;
pub mod disk;
pub mod error;
pub mod laws;
pub mod layout;
pub mod moment;
pub mod plan;
pub mod settings;
pub mod text;

pub use backup::{
    backup_path_of, create_backup, create_backup_at, create_starship_backup,
    create_starship_backup_at, delete_backup, get_backup_list, restore_backup,
    restore_from_backup, sort_descending, DirProbe,
};
pub use clock::{backup_stamp, current_date, current_stamp, current_time, rfc3339, UnixTime};
pub use config::{
    apply_preset, apply_preset_at, find_config, get_config_content, get_config_list,
    get_config_list_at, get_starship_toml, resolve_config, save_config_content,
    save_starship_toml, user_config, ConfigTarget, FileProbe, FileTimes, StarshipConfig,
};
pub use error::Error;
pub use moment::is_stamp;
pub use layout::{
    get_config_dir, get_settings_path, get_starship_config_path, join, parent_of, Layout,
};
pub use plan::{Action, Plan};
pub use settings::{get_settings, update_settings, Settings, SettingsProbe, StoredSettings};
