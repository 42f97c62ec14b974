//! The ways an operation fails.

use vstd::prelude::*;

verus! {

/// Why an operation failed. Each kind carries the message shown to the user.
#[derive(Clone, Debug, PartialEq, Eq)]
pub enum Error {
    /// A read, write, copy or removal failed; the message is the system's.
    Io(String),
    /// The settings file does not hold a settings record.
    Parse(String),
    /// A configuration or a backup that was asked for by name does not exist.
    NotFound(String),
    /// The configuration is read-only.
    PermissionDenied(String),
}

/// An [`Error`] with its message as text.
pub ghost enum ErrorView {
    Io(Seq<char>),
    Parse(Seq<char>),
    NotFound(Seq<char>),
    PermissionDenied(Seq<char>),
}

impl ErrorView {
    /// The message that the error carries.
    pub open spec fn message(self) -> Seq<char> {
        match self {
            ErrorView::Io(m) => m,
            ErrorView::Parse(m) => m,
            ErrorView::NotFound(m) => m,
            ErrorView::PermissionDenied(m) => m,
        }
    }
}

impl DeepView for Error {
    type V = ErrorView;

    open spec fn deep_view(&self) -> ErrorView {
        match self {
            Error::Io(m) => ErrorView::Io(m@),
            Error::Parse(m) => ErrorView::Parse(m@),
            Error::NotFound(m) => ErrorView::NotFound(m@),
            Error::PermissionDenied(m) => ErrorView::PermissionDenied(m@),
        }
    }
}

impl View for Error {
    type V = ErrorView;

    open spec fn view(&self) -> ErrorView {
        self.deep_view()
    }
}

/// No configuration has the identifier that was asked for.
pub open spec fn config_not_found() -> ErrorView {
    ErrorView::NotFound("Config not found"@)
}

/// The configuration is an enterprise one, which is never written.
pub open spec fn enterprise_read_only() -> ErrorView {
    ErrorView::PermissionDenied("Cannot modify enterprise config"@)
}

/// The backup file that was to be restored does not exist.
pub open spec fn backup_not_found() -> ErrorView {
    ErrorView::NotFound("Backup not found"@)
}

/// There is no prompt configuration file to copy.
pub open spec fn target_not_found() -> ErrorView {
    ErrorView::NotFound("Starship config not found"@)
}

/// The clock gave no moment that can be written as a date or a time stamp.
pub open spec fn clock_unreadable() -> ErrorView {
    ErrorView::Io("System time is out of range"@)
}

impl Error {
    /// The message to show for this error.
    pub fn message(&self) -> (r: String)
        ensures
            r@ == self@.message(),
    {
        match self {
            Error::Io(m) => m.clone(),
            Error::Parse(m) => m.clone(),
            Error::NotFound(m) => m.clone(),
            Error::PermissionDenied(m) => m.clone(),
        }
    }

    /// No configuration has the identifier that was asked for.
    pub fn config_not_found() -> (r: Error)
        ensures
            r@ == config_not_found(),
    {
        Error::NotFound(String::from_str("Config not found"))
    }

    /// The configuration is an enterprise one, which is never written.
    pub fn enterprise_read_only() -> (r: Error)
        ensures
            r@ == enterprise_read_only(),
    {
        Error::PermissionDenied(String::from_str("Cannot modify enterprise config"))
    }

    /// The backup file that was to be restored does not exist.
    pub fn backup_not_found() -> (r: Error)
        ensures
            r@ == backup_not_found(),
    {
        Error::NotFound(String::from_str("Backup not found"))
    }

    /// There is no prompt configuration file to copy.
    pub fn target_not_found() -> (r: Error)
        ensures
            r@ == target_not_found(),
    {
        Error::NotFound(String::from_str("Starship config not found"))
    }

    /// The clock gave no moment that can be written as a date or a time
    /// stamp.
    pub fn clock_unreadable() -> (r: Error)
        ensures
            r@ == clock_unreadable(),
    {
        Error::Io(String::from_str("System time is out of range"))
    }
}

/// A result with both sides taken by their views.
pub open spec fn outcome<T: DeepView, E: DeepView>(r: Result<T, E>) -> Result<T::V, E::V> {
    match r {
        Ok(v) => Ok(v.deep_view()),
        Err(e) => Err(e.deep_view()),
    }
}

} // verus!
