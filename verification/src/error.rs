//! What can go wrong, and how each failure reads.

use vstd::prelude::*;

verus! {

/// A failure of one of the library's operations.
#[derive(Debug)]
pub enum Error {
    /// No source has this name.
    NotFound { name: String },
    /// The repository has no such reference.
    MissingRef { url: String, reference: String },
    /// The repository has more than one revision for the reference.
    AmbiguousRef { url: String, reference: String },
    /// A command or a request failed.
    Transport { message: String },
    /// An answer was not in the form that was expected.
    Decode { message: String },
    /// The registry holds no source to work on.
    NoSources,
    /// No source has a newer revision.
    NothingToDo,
}

/// The mathematical value of an [`Error`].
pub ghost enum ErrorView {
    NotFound { name: Seq<char> },
    MissingRef { url: Seq<char>, reference: Seq<char> },
    AmbiguousRef { url: Seq<char>, reference: Seq<char> },
    Transport { message: Seq<char> },
    Decode { message: Seq<char> },
    NoSources,
    NothingToDo,
}

impl View for Error {
    type V = ErrorView;

    open spec fn view(&self) -> ErrorView {
        match self {
            Error::NotFound { name } => ErrorView::NotFound { name: name@ },
            Error::MissingRef { url, reference } => ErrorView::MissingRef {
                url: url@,
                reference: reference@,
            },
            Error::AmbiguousRef { url, reference } => ErrorView::AmbiguousRef {
                url: url@,
                reference: reference@,
            },
            Error::Transport { message } => ErrorView::Transport { message: message@ },
            Error::Decode { message } => ErrorView::Decode { message: message@ },
            Error::NoSources => ErrorView::NoSources,
            Error::NothingToDo => ErrorView::NothingToDo,
        }
    }
}

/// The text that reports an error.
pub open spec fn message_of(e: ErrorView) -> Seq<char> {
    match e {
        ErrorView::NotFound { name } => "Source "@ + name + " doesn't exist"@,
        ErrorView::MissingRef { url, reference } => "The repository "@ + url
            + " doesn't contain the reference "@ + reference,
        ErrorView::AmbiguousRef { url, reference } => "The reference "@ + reference
            + " of "@ + url + " is ambiguous and points to multiple revisions"@,
        ErrorView::Transport { message } => message,
        ErrorView::Decode { message } => message,
        ErrorView::NoSources => "Lock file doesn't contain any sources"@,
        ErrorView::NothingToDo => "No updates available"@,
    }
}

impl Error {
    /// The text that reports this error.
    pub fn message(&self) -> (out: String)
        ensures
            out@ == message_of(self@),
    {
        match self {
            Error::NotFound { name } => {
                let mut out = "Source ".to_owned();
                out.append(name.as_str());
                out.append(" doesn't exist");
                out
            },
            Error::MissingRef { url, reference } => {
                let mut out = "The repository ".to_owned();
                out.append(url.as_str());
                out.append(" doesn't contain the reference ");
                out.append(reference.as_str());
                out
            },
            Error::AmbiguousRef { url, reference } => {
                let mut out = "The reference ".to_owned();
                out.append(reference.as_str());
                out.append(" of ");
                out.append(url.as_str());
                out.append(" is ambiguous and points to multiple revisions");
                out
            },
            Error::Transport { message } => message.clone(),
            Error::Decode { message } => message.clone(),
            Error::NoSources => "Lock file doesn't contain any sources".to_owned(),
            Error::NothingToDo => "No updates available".to_owned(),
        }
    }
}

} // verus!
