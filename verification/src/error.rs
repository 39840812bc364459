//! What can go wrong, as plain values.

use vstd::prelude::*;
use vstd::string::*;

verus! {

/// The error number by which Linux says that something exists already. The
/// kernel answers with it when asked to insert a module that is loaded.
pub const EEXIST: i32 = 17;

/// A request that the kernel refused, with the error number it gave.
#[derive(Clone, Copy, Debug, PartialEq, Eq, Structural)]
pub struct OsError {
    pub code: i32,
}

/// A file that could not be read, with the operating system's error number
/// where the failure has one.
#[derive(Clone, Copy, Debug, PartialEq, Eq, Structural)]
pub struct IoError {
    pub code: Option<i32>,
}

/// Why a call of this library failed.
#[derive(Clone, Debug, PartialEq, Eq)]
pub enum Error {
    /// A manifest or a module's image could not be read.
    Io(IoError),
    /// The kernel refused to insert or remove a module, or to say which
    /// kernel is running.
    Os(OsError),
    /// No line of the order manifest names the module: the kernel whose
    /// version is given does not provide it.
    ModuleNotProvided { kernel_version: String },
    /// A manifest or the running kernel's release is not UTF-8.
    Decoding,
}

/// An [`Error`] with its text as a sequence of characters.
pub enum ErrorView {
    Io(IoError),
    Os(OsError),
    ModuleNotProvided { kernel_version: Seq<char> },
    Decoding,
}

impl View for Error {
    type V = ErrorView;

    open spec fn view(&self) -> ErrorView {
        match self {
            Error::Io(e) => ErrorView::Io(*e),
            Error::Os(e) => ErrorView::Os(*e),
            Error::ModuleNotProvided { kernel_version } => ErrorView::ModuleNotProvided {
                kernel_version: kernel_version@,
            },
            Error::Decoding => ErrorView::Decoding,
        }
    }
}

impl OsError {
    /// The kernel refused because what was to be made exists already.
    pub open spec fn spec_already_exists(&self) -> bool {
        self.code == EEXIST
    }

    /// Tells whether the kernel refused because what was to be made exists
    /// already.
    #[verifier::when_used_as_spec(spec_already_exists)]
    pub fn already_exists(&self) -> (yes: bool)
        ensures
            yes == self.spec_already_exists(),
    {
        self.code == EEXIST
    }
}

impl IoError {
    /// The read failed because something exists already.
    pub open spec fn spec_already_exists(&self) -> bool {
        self.code == Some(EEXIST)
    }

    /// Tells whether the read failed because something exists already.
    #[verifier::when_used_as_spec(spec_already_exists)]
    pub fn already_exists(&self) -> (yes: bool)
        ensures
            yes == self.spec_already_exists(),
    {
        match self.code {
            Some(code) => code == EEXIST,
            None => false,
        }
    }
}

/// What is said of a module that a kernel does not provide.
pub open spec fn not_provided_text(kernel_version: Seq<char>) -> Seq<char> {
    "Module is not provided by "@ + kernel_version + " kernel"@
}

impl Error {
    /// The text of the failure, where the library words it: only a module
    /// that is not provided has one.
    pub fn message(&self) -> (text: Option<String>)
        ensures
            match self@ {
                ErrorView::ModuleNotProvided { kernel_version } => text matches Some(t) && t@
                    == not_provided_text(kernel_version),
                _ => text is None,
            },
    {
        match self {
            Error::ModuleNotProvided { kernel_version } => {
                let mut text = String::from_str("Module is not provided by ");
                text.append(kernel_version.as_str());
                text.append(" kernel");
                Some(text)
            },
            _ => None,
        }
    }
}

} // verus!
