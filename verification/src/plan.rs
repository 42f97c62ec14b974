//! What an operation asks of the file system: single actions, and the plan
//! that lists them in order beside the value to hand back.

use crate::error::{Error, ErrorView};
use crate::settings::{Settings, SettingsView};
use vstd::prelude::*;

verus! {

/// One change to the file system.
#[derive(Clone, Debug, PartialEq, Eq)]
pub enum Action {
    /// Create the directory `path` and every missing directory above it.
    CreateDirAll { path: String },
    /// Replace the content of the file `path` by `content`, creating the file
    /// where it is missing.
    WriteFile { path: String, content: String },
    /// Replace the content of the file `path` by the record of `settings`.
    WriteSettings { path: String, settings: Settings },
    /// Replace the content of the file `to` by that of the file `from`.
    CopyFile { from: String, to: String },
    /// Remove the file `path`.
    RemoveFile { path: String },
}

/// An [`Action`] with its paths and contents as text.
pub ghost enum ActionView {
    CreateDirAll { path: Seq<char> },
    WriteFile { path: Seq<char>, content: Seq<char> },
    WriteSettings { path: Seq<char>, settings: SettingsView },
    CopyFile { from: Seq<char>, to: Seq<char> },
    RemoveFile { path: Seq<char> },
}

impl DeepView for Action {
    type V = ActionView;

    open spec fn deep_view(&self) -> ActionView {
        match self {
            Action::CreateDirAll { path } => ActionView::CreateDirAll { path: path@ },
            Action::WriteFile { path, content } => ActionView::WriteFile {
                path: path@,
                content: content@,
            },
            Action::WriteSettings { path, settings } => ActionView::WriteSettings {
                path: path@,
                settings: settings@,
            },
            Action::CopyFile { from, to } => ActionView::CopyFile { from: from@, to: to@ },
            Action::RemoveFile { path } => ActionView::RemoveFile { path: path@ },
        }
    }
}

impl View for Action {
    type V = ActionView;

    open spec fn view(&self) -> ActionView {
        self.deep_view()
    }
}

/// The answer of an operation: the value to hand back once every action has
/// been carried out, in order, and none has failed.
#[derive(Clone, Debug, PartialEq, Eq)]
pub struct Plan<T> {
    pub value: T,
    pub actions: Vec<Action>,
}

/// A [`Plan`] with its value and actions by their views.
pub ghost struct PlanView<V> {
    pub value: V,
    pub actions: Seq<ActionView>,
}

impl<T: DeepView> DeepView for Plan<T> {
    type V = PlanView<T::V>;

    open spec fn deep_view(&self) -> PlanView<T::V> {
        PlanView { value: self.value.deep_view(), actions: self.actions.deep_view() }
    }
}

impl<T: DeepView> View for Plan<T> {
    type V = PlanView<T::V>;

    open spec fn view(&self) -> PlanView<T::V> {
        self.deep_view()
    }
}

impl<T> Plan<T> {
    /// The plan that hands back `value` and changes nothing.
    pub fn done(value: T) -> (r: Plan<T>)
        ensures
            r.value == value,
            r.actions@ == Seq::<Action>::empty(),
    {
        Plan { value, actions: Vec::new() }
    }

    /// What the operation returns once its actions have been attempted:
    /// the plan's value if none failed, else an I/O error with the message
    /// of the one that did.
    pub fn settle(self, failure: Option<String>) -> (r: Result<T, Error>)
        ensures
            match failure {
                Some(message) => r matches Err(e) && e@ == ErrorView::Io(message@),
                None => r == Ok::<T, Error>(self.value),
            },
    {
        match failure {
            Some(message) => Err(Error::Io(message)),
            None => Ok(self.value),
        }
    }
}

} // verus!
