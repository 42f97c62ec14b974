//! The prompt configuration: the list that describes it, reading it, writing
//! it, and replacing it by a preset.

use crate::backup::{backup_path, backup_path_of, preset_prefix};
use crate::clock::{
    current_date, current_stamp, is_clock_date, is_clock_stamp, rfc3339, utc_rfc3339, UnixTime,
};
use crate::error::{clock_unreadable, config_not_found, enterprise_read_only, outcome, Error, ErrorView};
use crate::layout::{parent, parent_of, Layout, LayoutView};
use crate::plan::{Action, ActionView, Plan, PlanView};
use crate::text::same_text;
use vstd::prelude::*;

verus! {

/// The description of one configuration file.
#[derive(Clone, Debug, PartialEq, Eq)]
pub struct StarshipConfig {
    pub id: String,
    pub name: String,
    pub path: String,
    /// An enterprise configuration is read-only.
    pub is_enterprise: bool,
    pub created_at: String,
    pub updated_at: String,
}

/// A [`StarshipConfig`] with its strings as text.
pub ghost struct StarshipConfigView {
    pub id: Seq<char>,
    pub name: Seq<char>,
    pub path: Seq<char>,
    pub is_enterprise: bool,
    pub created_at: Seq<char>,
    pub updated_at: Seq<char>,
}

impl DeepView for StarshipConfig {
    type V = StarshipConfigView;

    open spec fn deep_view(&self) -> StarshipConfigView {
        StarshipConfigView {
            id: self.id@,
            name: self.name@,
            path: self.path@,
            is_enterprise: self.is_enterprise,
            created_at: self.created_at@,
            updated_at: self.updated_at@,
        }
    }
}

impl View for StarshipConfig {
    type V = StarshipConfigView;

    open spec fn view(&self) -> StarshipConfigView {
        self.deep_view()
    }
}

/// When a file was created and last changed, as far as the file system
/// tells.
#[derive(Clone, Copy, Debug, PartialEq, Eq)]
pub struct FileTimes {
    pub created: Option<UnixTime>,
    pub modified: Option<UnixTime>,
}

/// The identifier of the user's own configuration.
pub open spec fn user_config_id() -> Seq<char> {
    "user"@
}

/// The name under which the user's own configuration is shown.
pub open spec fn user_config_name() -> Seq<char> {
    "User Config"@
}

/// The description of the user's own configuration, which lies at `path`.
/// A date that is not known is given as `now`.
pub open spec fn user_config_spec(
    path: Seq<char>,
    created: Option<Seq<char>>,
    modified: Option<Seq<char>>,
    now: Seq<char>,
) -> StarshipConfigView {
    StarshipConfigView {
        id: user_config_id(),
        name: user_config_name(),
        path,
        is_enterprise: false,
        created_at: match created {
            Some(date) => date,
            None => now,
        },
        updated_at: match modified {
            Some(date) => date,
            None => now,
        },
    }
}

/// The date `at` as the list shows it, if chrono can write it.
pub open spec fn date_text(at: Option<UnixTime>) -> Option<Seq<char>> {
    match at {
        Some(t) => utc_rfc3339(t.secs as int, t.nanos as int),
        None => None,
    }
}

/// The list of configurations: the user's own where its file exists, with
/// the dates `target` holds, and nothing else.
pub open spec fn get_config_list_spec(
    layout: LayoutView,
    target: Option<FileTimes>,
    now: Seq<char>,
) -> Seq<StarshipConfigView> {
    match target {
        Some(times) => seq![
            user_config_spec(
                layout.starship_config_path(),
                date_text(times.created),
                date_text(times.modified),
                now,
            ),
        ],
        None => Seq::empty(),
    }
}

/// The description of the user's own configuration, which lies at `path`.
pub fn user_config(path: String, created: Option<String>, modified: Option<String>, now: &str) -> (r:
    StarshipConfig)
    ensures
        r@ == user_config_spec(path@, created.deep_view(), modified.deep_view(), now@),
{
    let created_at = match created {
        Some(date) => date,
        None => String::from_str(now),
    };
    let updated_at = match modified {
        Some(date) => date,
        None => String::from_str(now),
    };
    StarshipConfig {
        id: String::from_str("user"),
        name: String::from_str("User Config"),
        path,
        is_enterprise: false,
        created_at,
        updated_at,
    }
}

/// The date `at` as the list shows it.
fn date_of(at: Option<UnixTime>) -> (r: Option<String>)
    ensures
        r.deep_view() == date_text(at),
{
    match at {
        Some(t) => rfc3339(t),
        None => None,
    }
}

/// The list of configurations at the moment that `now` names. `target` is
/// `None` where the prompt configuration file does not exist.
pub fn get_config_list_at(layout: &Layout, target: Option<FileTimes>, now: &str) -> (r: Vec<
    StarshipConfig,
>)
    ensures
        r.deep_view() == get_config_list_spec(layout@, target, now@),
{
    let mut configs: Vec<StarshipConfig> = Vec::new();
    match target {
        Some(times) => {
            let created = date_of(times.created);
            let modified = date_of(times.modified);
            configs.push(user_config(layout.starship_config_path(), created, modified, now));
        },
        None => {},
    }
    assert(configs.deep_view() =~= get_config_list_spec(layout@, target, now@));
    configs
}

/// The list of configurations, with the clock's reading for a date that the
/// file system does not tell. `target` is `None` where the prompt
/// configuration file does not exist; the clock is read only where it does.
pub fn get_config_list(layout: &Layout, target: Option<FileTimes>) -> (r: Result<
    Vec<StarshipConfig>,
    Error,
>)
    ensures
        target is None ==> (r matches Ok(configs) && configs.deep_view() == Seq::<
            StarshipConfigView,
        >::empty()),
        target is Some ==> match r {
            Ok(configs) => exists|now: Seq<char>|
                is_clock_date(now) && configs.deep_view() == get_config_list_spec(
                    layout@,
                    target,
                    now,
                ),
            Err(e) => e@ == clock_unreadable(),
        },
{
    if target.is_none() {
        return Ok(get_config_list_at(layout, target, ""));
    }
    match current_date() {
        Some(now) => Ok(get_config_list_at(layout, target, now.as_str())),
        None => Err(Error::clock_unreadable()),
    }
}

/// `i` is the place of the first configuration in `configs` whose identifier
/// is `id`.
pub open spec fn found_at(configs: Seq<StarshipConfigView>, id: Seq<char>, i: int) -> bool {
    &&& 0 <= i < configs.len()
    &&& configs[i].id == id
    &&& forall|j: int| 0 <= j < i ==> configs[j].id != id
}

/// The first configuration in `configs` whose identifier is `id`.
pub open spec fn lookup(configs: Seq<StarshipConfigView>, id: Seq<char>) -> Option<
    StarshipConfigView,
> {
    if exists|i: int| found_at(configs, id, i) {
        Some(configs[choose|i: int| found_at(configs, id, i)])
    } else {
        None
    }
}

/// The place of the first configuration in `configs` whose identifier is
/// `config_id`.
pub fn find_config(configs: &Vec<StarshipConfig>, config_id: &str) -> (r: Option<usize>)
    ensures
        match r {
            Some(i) => found_at(configs.deep_view(), config_id@, i as int) && lookup(
                configs.deep_view(),
                config_id@,
            ) == Some(configs[i as int]@),
            None => lookup(configs.deep_view(), config_id@) is None,
        },
{
    let ghost all = configs.deep_view();
    let mut i: usize = 0;
    while i < configs.len()
        invariant
            i <= configs.len(),
            all == configs.deep_view(),
            forall|j: int| 0 <= j < i ==> all[j].id != config_id@,
        decreases configs.len() - i,
    {
        if same_text(configs[i].id.as_str(), config_id) {
            proof {
                assert(found_at(all, config_id@, i as int));
                let k = choose|k: int| found_at(all, config_id@, k);
                assert(k == i);
            }
            return Some(i);
        }
        i = i + 1;
    }
    assert(forall|k: int| !found_at(all, config_id@, k));
    None
}

/// What was found where a text file should be.
#[derive(Clone, Debug, PartialEq, Eq)]
pub enum FileProbe {
    /// There is no such file.
    Absent,
    /// The file holds this text.
    Content(String),
    /// The file exists and could not be read; the message says why.
    Unreadable(String),
}

/// A [`FileProbe`] with its strings as text.
pub ghost enum FileProbeView {
    Absent,
    Content(Seq<char>),
    Unreadable(Seq<char>),
}

impl DeepView for FileProbe {
    type V = FileProbeView;

    open spec fn deep_view(&self) -> FileProbeView {
        match self {
            FileProbe::Absent => FileProbeView::Absent,
            FileProbe::Content(text) => FileProbeView::Content(text@),
            FileProbe::Unreadable(message) => FileProbeView::Unreadable(message@),
        }
    }
}

impl View for FileProbe {
    type V = FileProbeView;

    open spec fn view(&self) -> FileProbeView {
        self.deep_view()
    }
}

/// The file that an identifier stands for, and whether it is read-only.
#[derive(Clone, Debug, PartialEq, Eq)]
pub struct ConfigTarget {
    pub path: String,
    pub is_enterprise: bool,
}

/// A [`ConfigTarget`] with its path as text.
pub ghost struct ConfigTargetView {
    pub path: Seq<char>,
    pub is_enterprise: bool,
}

impl DeepView for ConfigTarget {
    type V = ConfigTargetView;

    open spec fn deep_view(&self) -> ConfigTargetView {
        ConfigTargetView { path: self.path@, is_enterprise: self.is_enterprise }
    }
}

impl View for ConfigTarget {
    type V = ConfigTargetView;

    open spec fn view(&self) -> ConfigTargetView {
        self.deep_view()
    }
}

/// What the identifier `id` stands for. A listed configuration stands for
/// its own file. The user's identifier stands for the prompt configuration
/// file also where the list does not hold it, as it does not while the file
/// is missing. Any other identifier stands for nothing.
pub open spec fn resolve(layout: LayoutView, configs: Seq<StarshipConfigView>, id: Seq<char>) -> Option<
    ConfigTargetView,
> {
    match lookup(configs, id) {
        Some(config) => Some(
            ConfigTargetView { path: config.path, is_enterprise: config.is_enterprise },
        ),
        None => if id == user_config_id() {
            Some(ConfigTargetView { path: layout.starship_config_path(), is_enterprise: false })
        } else {
            None
        },
    }
}

/// What the identifier `config_id` stands for.
pub fn resolve_config(layout: &Layout, configs: &Vec<StarshipConfig>, config_id: &str) -> (r: Option<
    ConfigTarget,
>)
    ensures
        r.deep_view() == resolve(layout@, configs.deep_view(), config_id@),
{
    match find_config(configs, config_id) {
        Some(i) => Some(
            ConfigTarget {
                path: configs[i].path.clone(),
                is_enterprise: configs[i].is_enterprise,
            },
        ),
        None => if same_text(config_id, "user") {
            Some(ConfigTarget { path: layout.starship_config_path(), is_enterprise: false })
        } else {
            None
        },
    }
}

/// The actions that leave `content` in the file `path`: make sure the
/// directory in which it lies exists, then write.
pub open spec fn write_actions(path: Seq<char>, content: Seq<char>) -> Seq<ActionView> {
    seq![
        ActionView::CreateDirAll { path: parent(path) },
        ActionView::WriteFile { path, content },
    ]
}

/// The actions that leave `content` in the file `path`.
fn writing(path: String, content: String) -> (r: Vec<Action>)
    ensures
        r.deep_view() == write_actions(path@, content@),
{
    let mut actions: Vec<Action> = Vec::new();
    actions.push(Action::CreateDirAll { path: parent_of(path.as_str()) });
    actions.push(Action::WriteFile { path, content });
    assert(actions.deep_view() =~= write_actions(path@, content@));
    actions
}

/// Reading the text file `path`. A missing file is created empty and read
/// as empty text; a file that is there is returned as it is and nothing
/// changes.
pub open spec fn read_file_spec(path: Seq<char>, found: FileProbeView) -> Result<
    PlanView<Seq<char>>,
    ErrorView,
> {
    match found {
        FileProbeView::Absent => Ok(
            PlanView { value: Seq::empty(), actions: write_actions(path, Seq::empty()) },
        ),
        FileProbeView::Content(text) => Ok(PlanView { value: text, actions: Seq::empty() }),
        FileProbeView::Unreadable(message) => Err(ErrorView::Io(message)),
    }
}

/// The content of the configuration `id`, given what was found where its
/// file should be: the file is read as any text file is, and an identifier
/// that stands for nothing has no content.
pub open spec fn get_config_content_spec(
    layout: LayoutView,
    configs: Seq<StarshipConfigView>,
    id: Seq<char>,
    found: FileProbeView,
) -> Result<PlanView<Seq<char>>, ErrorView> {
    match resolve(layout, configs, id) {
        None => Err(config_not_found()),
        Some(target) => read_file_spec(target.path, found),
    }
}

/// The content of the configuration `config_id`. `found` is what was found
/// where the file that the identifier stands for should be.
pub fn get_config_content(
    layout: &Layout,
    configs: &Vec<StarshipConfig>,
    config_id: &str,
    found: FileProbe,
) -> (r: Result<Plan<String>, Error>)
    ensures
        outcome(r) == get_config_content_spec(layout@, configs.deep_view(), config_id@, found@),
{
    match resolve_config(layout, configs, config_id) {
        None => Err(Error::config_not_found()),
        Some(target) => match found {
            FileProbe::Absent => {
                let actions = writing(target.path, String::new());
                Ok(Plan { value: String::new(), actions })
            },
            FileProbe::Content(text) => {
                let plan = Plan::done(text);
                assert(plan.actions.deep_view() =~= Seq::<ActionView>::empty());
                Ok(plan)
            },
            FileProbe::Unreadable(message) => Err(Error::Io(message)),
        },
    }
}

/// Writing `content` to the configuration `id`: its directory is made sure
/// of and its file written; an enterprise configuration is never written,
/// and an identifier that stands for nothing cannot be.
pub open spec fn save_config_content_spec(
    layout: LayoutView,
    configs: Seq<StarshipConfigView>,
    id: Seq<char>,
    content: Seq<char>,
) -> Result<PlanView<()>, ErrorView> {
    match resolve(layout, configs, id) {
        None => Err(config_not_found()),
        Some(target) => if target.is_enterprise {
            Err(enterprise_read_only())
        } else {
            Ok(PlanView { value: (), actions: write_actions(target.path, content) })
        },
    }
}

/// Replaces the content of the configuration `config_id` by `content`.
pub fn save_config_content(
    layout: &Layout,
    configs: &Vec<StarshipConfig>,
    config_id: &str,
    content: String,
) -> (r: Result<Plan<()>, Error>)
    ensures
        outcome(r) == save_config_content_spec(layout@, configs.deep_view(), config_id@, content@),
{
    match resolve_config(layout, configs, config_id) {
        None => Err(Error::config_not_found()),
        Some(target) => {
            if target.is_enterprise {
                Err(Error::enterprise_read_only())
            } else {
                Ok(Plan { value: (), actions: writing(target.path, content) })
            }
        },
    }
}

/// The actions that leave `content` in the prompt configuration file: make
/// sure its directory exists, then write.
pub open spec fn write_target_actions(layout: LayoutView, content: Seq<char>) -> Seq<ActionView> {
    seq![
        ActionView::CreateDirAll { path: layout.starship_dir() },
        ActionView::WriteFile { path: layout.starship_config_path(), content },
    ]
}

/// The actions that leave `content` in the prompt configuration file.
fn writing_target(layout: &Layout, content: String) -> (r: Vec<Action>)
    ensures
        r.deep_view() == write_target_actions(layout@, content@),
{
    let mut actions: Vec<Action> = Vec::new();
    actions.push(Action::CreateDirAll { path: layout.starship_dir() });
    actions.push(Action::WriteFile { path: layout.starship_config_path(), content });
    assert(actions.deep_view() =~= write_target_actions(layout@, content@));
    actions
}

/// Reading the prompt configuration. A missing file is created empty and
/// read as empty text; a file that is there is returned as it is and nothing
/// changes.
pub open spec fn get_starship_toml_spec(layout: LayoutView, found: FileProbeView) -> Result<
    PlanView<Seq<char>>,
    ErrorView,
> {
    match found {
        FileProbeView::Absent => Ok(
            PlanView { value: Seq::empty(), actions: write_target_actions(layout, Seq::empty()) },
        ),
        FileProbeView::Content(text) => Ok(PlanView { value: text, actions: Seq::empty() }),
        FileProbeView::Unreadable(message) => Err(ErrorView::Io(message)),
    }
}

/// The text of the prompt configuration, given what was found where the file
/// should be.
pub fn get_starship_toml(layout: &Layout, found: FileProbe) -> (r: Result<Plan<String>, Error>)
    ensures
        outcome(r) == get_starship_toml_spec(layout@, found@),
{
    match found {
        FileProbe::Absent => {
            let actions = writing_target(layout, String::new());
            Ok(Plan { value: String::new(), actions })
        },
        FileProbe::Content(text) => {
            let plan = Plan::done(text);
            assert(plan.actions.deep_view() =~= Seq::<ActionView>::empty());
            Ok(plan)
        },
        FileProbe::Unreadable(message) => Err(Error::Io(message)),
    }
}

/// Writing the prompt configuration.
pub open spec fn save_starship_toml_spec(layout: LayoutView, content: Seq<char>) -> PlanView<()> {
    PlanView { value: (), actions: write_target_actions(layout, content) }
}

/// Replaces the text of the prompt configuration by `content`.
pub fn save_starship_toml(layout: &Layout, content: String) -> (r: Plan<()>)
    ensures
        r@ == save_starship_toml_spec(layout@, content@),
{
    Plan { value: (), actions: writing_target(layout, content) }
}

/// Applying the preset `content` at the moment whose stamp is `stamp`: make
/// sure the backup directory exists, copy the prompt configuration into it
/// if there is one, then write the preset.
pub open spec fn apply_preset_spec(
    layout: LayoutView,
    target_exists: bool,
    stamp: Seq<char>,
    content: Seq<char>,
) -> PlanView<()> {
    let backup = if target_exists {
        seq![
            ActionView::CopyFile {
                from: layout.starship_config_path(),
                to: backup_path(layout, preset_prefix(), stamp),
            },
        ]
    } else {
        Seq::empty()
    };
    PlanView {
        value: (),
        actions: seq![ActionView::CreateDirAll { path: layout.backup_dir() }] + backup
            + write_target_actions(layout, content),
    }
}

/// Replaces the prompt configuration by the preset `content`, keeping a
/// backup of what it held, named after `stamp`.
pub fn apply_preset_at(layout: &Layout, target_exists: bool, stamp: &str, content: String) -> (r:
    Plan<()>)
    ensures
        r@ == apply_preset_spec(layout@, target_exists, stamp@, content@),
{
    let mut actions: Vec<Action> = Vec::new();
    actions.push(Action::CreateDirAll { path: layout.backup_dir() });
    if target_exists {
        actions.push(
            Action::CopyFile {
                from: layout.starship_config_path(),
                to: backup_path_of(layout, "starship_before_preset", stamp),
            },
        );
    }
    actions.push(Action::CreateDirAll { path: layout.starship_dir() });
    actions.push(Action::WriteFile { path: layout.starship_config_path(), content });
    assert(actions.deep_view() =~= apply_preset_spec(
        layout@,
        target_exists,
        stamp@,
        content@,
    ).actions);
    Plan { value: (), actions }
}

/// Replaces the prompt configuration by the preset `content`, keeping a
/// backup of what it held, named after the clock's reading. The clock is
/// read only where there is something to back up.
pub fn apply_preset(layout: &Layout, target_exists: bool, content: String) -> (r: Result<
    Plan<()>,
    Error,
>)
    ensures
        !target_exists ==> (r matches Ok(plan) && plan@ == apply_preset_spec(
            layout@,
            false,
            Seq::empty(),
            content@,
        )),
        target_exists ==> match r {
            Ok(plan) => exists|stamp: Seq<char>|
                is_clock_stamp(stamp) && plan@ == apply_preset_spec(
                    layout@,
                    true,
                    stamp,
                    content@,
                ),
            Err(e) => e@ == clock_unreadable(),
        },
{
    if !target_exists {
        return Ok(apply_preset_at(layout, target_exists, "", content));
    }
    match current_stamp() {
        Some(stamp) => Ok(apply_preset_at(layout, target_exists, stamp.as_str(), content)),
        None => Err(Error::clock_unreadable()),
    }
}

} // verus!
