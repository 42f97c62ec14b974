//! The user's preferences: the record, its defaults, and how it is read from
//! and saved to the settings file.

use crate::error::{Error, ErrorView};
use crate::layout::{Layout, LayoutView};
use crate::plan::{Action, ActionView, Plan, PlanView};
use vstd::prelude::*;

verus! {

/// The user's preferences.
#[derive(Clone, Debug, PartialEq, Eq)]
pub struct Settings {
    pub theme: String,
    pub theme_color: String,
    pub language: String,
}

/// [`Settings`] with its fields as text.
pub ghost struct SettingsView {
    pub theme: Seq<char>,
    pub theme_color: Seq<char>,
    pub language: Seq<char>,
}

/// The preferences as the settings file holds them: a file written before
/// theme colours existed has none.
#[derive(Clone, Debug, PartialEq, Eq)]
pub struct StoredSettings {
    pub theme: String,
    pub theme_color: Option<String>,
    pub language: String,
}

/// [`StoredSettings`] with its fields as text.
pub ghost struct StoredSettingsView {
    pub theme: Seq<char>,
    pub theme_color: Option<Seq<char>>,
    pub language: Seq<char>,
}

/// The theme colour of a record that names none.
pub open spec fn default_theme_color() -> Seq<char> {
    "zinc"@
}

/// The preferences of a user who has never saved any.
pub open spec fn default_settings() -> SettingsView {
    SettingsView { theme: "light"@, theme_color: default_theme_color(), language: "en"@ }
}

impl StoredSettingsView {
    /// The preferences that this record stands for: its own fields, with the
    /// default theme colour where it names none.
    pub open spec fn filled(self) -> SettingsView {
        SettingsView {
            theme: self.theme,
            theme_color: match self.theme_color {
                Some(c) => c,
                None => default_theme_color(),
            },
            language: self.language,
        }
    }
}

impl SettingsView {
    /// The record that saving these preferences leaves in the settings file.
    pub open spec fn stored(self) -> StoredSettingsView {
        StoredSettingsView {
            theme: self.theme,
            theme_color: Some(self.theme_color),
            language: self.language,
        }
    }
}

impl DeepView for Settings {
    type V = SettingsView;

    open spec fn deep_view(&self) -> SettingsView {
        SettingsView {
            theme: self.theme@,
            theme_color: self.theme_color@,
            language: self.language@,
        }
    }
}

impl View for Settings {
    type V = SettingsView;

    open spec fn view(&self) -> SettingsView {
        self.deep_view()
    }
}

impl DeepView for StoredSettings {
    type V = StoredSettingsView;

    open spec fn deep_view(&self) -> StoredSettingsView {
        StoredSettingsView {
            theme: self.theme@,
            theme_color: self.theme_color.deep_view(),
            language: self.language@,
        }
    }
}

impl View for StoredSettings {
    type V = StoredSettingsView;

    open spec fn view(&self) -> StoredSettingsView {
        self.deep_view()
    }
}

impl Default for Settings {
    fn default() -> (r: Settings)
        ensures
            r@ == default_settings(),
    {
        Settings {
            theme: String::from_str("light"),
            theme_color: String::from_str("zinc"),
            language: String::from_str("en"),
        }
    }
}

impl StoredSettings {
    /// The preferences that this record stands for.
    pub fn into_settings(self) -> (r: Settings)
        ensures
            r@ == self@.filled(),
    {
        let theme_color = match self.theme_color {
            Some(c) => c,
            None => String::from_str("zinc"),
        };
        Settings { theme: self.theme, theme_color, language: self.language }
    }
}

impl Settings {
    /// The record that saving these preferences leaves in the settings file.
    pub fn to_stored(&self) -> (r: StoredSettings)
        ensures
            r@ == self@.stored(),
    {
        StoredSettings {
            theme: self.theme.clone(),
            theme_color: Some(self.theme_color.clone()),
            language: self.language.clone(),
        }
    }
}

/// What was found where the settings file should be.
#[derive(Clone, Debug, PartialEq, Eq)]
pub enum SettingsProbe {
    /// There is no such file.
    Absent,
    /// The file holds this record.
    Stored(StoredSettings),
    /// The file was read but holds no settings record; the message says why.
    Malformed(String),
    /// The file exists and could not be read; the message says why.
    Unreadable(String),
}

/// A [`SettingsProbe`] with its strings as text.
pub ghost enum SettingsProbeView {
    Absent,
    Stored(StoredSettingsView),
    Malformed(Seq<char>),
    Unreadable(Seq<char>),
}

impl DeepView for SettingsProbe {
    type V = SettingsProbeView;

    open spec fn deep_view(&self) -> SettingsProbeView {
        match self {
            SettingsProbe::Absent => SettingsProbeView::Absent,
            SettingsProbe::Stored(s) => SettingsProbeView::Stored(s@),
            SettingsProbe::Malformed(m) => SettingsProbeView::Malformed(m@),
            SettingsProbe::Unreadable(m) => SettingsProbeView::Unreadable(m@),
        }
    }
}

impl View for SettingsProbe {
    type V = SettingsProbeView;

    open spec fn view(&self) -> SettingsProbeView {
        self.deep_view()
    }
}

/// The actions that save `settings`: make sure the application's directory
/// exists, then write the record.
pub open spec fn save_actions(layout: LayoutView, settings: SettingsView) -> Seq<ActionView> {
    seq![
        ActionView::CreateDirAll { path: layout.config_dir() },
        ActionView::WriteSettings { path: layout.settings_path(), settings },
    ]
}

/// Reading the settings. A missing file yields the defaults and the actions
/// that save them; a stored record yields the preferences it stands for and
/// changes nothing; anything else is an error.
pub open spec fn get_settings_spec(layout: LayoutView, found: SettingsProbeView) -> Result<
    PlanView<SettingsView>,
    ErrorView,
> {
    match found {
        SettingsProbeView::Absent => Ok(
            PlanView {
                value: default_settings(),
                actions: save_actions(layout, default_settings()),
            },
        ),
        SettingsProbeView::Stored(record) => Ok(
            PlanView { value: record.filled(), actions: Seq::empty() },
        ),
        SettingsProbeView::Malformed(message) => Err(ErrorView::Parse(message)),
        SettingsProbeView::Unreadable(message) => Err(ErrorView::Io(message)),
    }
}

/// Saving `payload`: the whole record replaces what the file held.
pub open spec fn update_settings_spec(layout: LayoutView, payload: SettingsView) -> PlanView<()> {
    PlanView { value: (), actions: save_actions(layout, payload) }
}

/// The actions that save `settings` under `layout`.
fn saving(layout: &Layout, settings: Settings) -> (r: Vec<Action>)
    ensures
        r.deep_view() == save_actions(layout@, settings@),
{
    let mut actions: Vec<Action> = Vec::new();
    actions.push(Action::CreateDirAll { path: layout.config_dir() });
    actions.push(Action::WriteSettings { path: layout.settings_path(), settings });
    assert(actions.deep_view() =~= save_actions(layout@, settings@));
    actions
}

/// The user's preferences, given what was found where the settings file
/// should be. On first use the defaults are returned and saved.
pub fn get_settings(layout: &Layout, found: SettingsProbe) -> (r: Result<Plan<Settings>, Error>)
    ensures
        crate::error::outcome(r) == get_settings_spec(layout@, found@),
{
    match found {
        SettingsProbe::Absent => {
            let actions = saving(layout, Settings::default());
            Ok(Plan { value: Settings::default(), actions })
        },
        SettingsProbe::Stored(record) => {
            let plan = Plan::done(record.into_settings());
            assert(plan.actions.deep_view() =~= Seq::<ActionView>::empty());
            Ok(plan)
        },
        SettingsProbe::Malformed(message) => Err(Error::Parse(message)),
        SettingsProbe::Unreadable(message) => Err(Error::Io(message)),
    }
}

/// Saves `payload` as the user's preferences.
pub fn update_settings(layout: &Layout, payload: Settings) -> (r: Plan<()>)
    ensures
        r@ == update_settings_spec(layout@, payload@),
{
    Plan { value: (), actions: saving(layout, payload) }
}

} // verus!
