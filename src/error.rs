use vstd::prelude::*;

verus! {

/// What can go wrong while locating or removing an application's files.
#[derive(Debug, Clone, PartialEq, Eq)]
pub enum Error {
    /// No directory of the executable search path holds the command.
    ExecNotFound,
    /// A file or directory could not be removed: its path and the cause.
    CouldNotDelete(String, String),
    /// The user's home directory is unknown, so no home-relative path can be formed.
    HomeDirUnresolvable,
    /// A directory of descriptor files could not be listed: its path.
    DirectoryUnreadable(String),
    /// Any other failure.
    UnknownError,
}

/// `Error` with its paths and causes as character sequences.
pub enum ErrorView {
    ExecNotFound,
    CouldNotDelete(Seq<char>, Seq<char>),
    HomeDirUnresolvable,
    DirectoryUnreadable(Seq<char>),
    UnknownError,
}

impl DeepView for Error {
    type V = ErrorView;

    open spec fn deep_view(&self) -> ErrorView {
        match self {
            Error::ExecNotFound => ErrorView::ExecNotFound,
            Error::CouldNotDelete(p, c) => ErrorView::CouldNotDelete(p@, c@),
            Error::HomeDirUnresolvable => ErrorView::HomeDirUnresolvable,
            Error::DirectoryUnreadable(p) => ErrorView::DirectoryUnreadable(p@),
            Error::UnknownError => ErrorView::UnknownError,
        }
    }
}

} // verus!
