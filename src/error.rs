//! The error type of the build.
use vstd::prelude::*;

verus! {

/// What went wrong.
#[derive(Clone, Copy, Debug, PartialEq, Eq, Structural)]
pub enum ErrorKind {
    /// A fault of the build's own setup, such as a missing source directory.
    App,
    /// A file could not be read, written or copied.
    Io,
    /// A wrapper template lacks its content marker.
    MalformedTemplate,
    /// A path does not have the shape the directory layout requires.
    PathStructure,
}

impl ErrorKind {
    /// The short name of the kind.
    pub open spec fn name(self) -> Seq<char> {
        match self {
            ErrorKind::App => "app"@,
            ErrorKind::Io => "io"@,
            ErrorKind::MalformedTemplate => "template"@,
            ErrorKind::PathStructure => "path"@,
        }
    }

    /// The short name of the kind.
    pub fn label(&self) -> (r: &'static str)
        ensures
            r@ == self.name(),
    {
        match self {
            ErrorKind::App => "app",
            ErrorKind::Io => "io",
            ErrorKind::MalformedTemplate => "template",
            ErrorKind::PathStructure => "path",
        }
    }
}

/// An error with its kind and a message for the user.
#[derive(Debug)]
pub struct AppError {
    pub kind: ErrorKind,
    pub message: String,
}

impl AppError {
    /// An error of the build's own setup.
    pub fn new(message: &str) -> (r: AppError)
        ensures
            r.kind == ErrorKind::App,
            r.message@ == message@,
    {
        AppError { kind: ErrorKind::App, message: message.to_owned() }
    }

    /// An error of the given kind.
    pub fn with_kind(kind: ErrorKind, message: &str) -> (r: AppError)
        ensures
            r.kind == kind,
            r.message@ == message@,
    {
        AppError { kind, message: message.to_owned() }
    }

    /// The source directory of a build is missing.
    pub fn source_missing(dir: &str) -> (r: AppError)
        ensures
            r.kind == ErrorKind::App,
            r.message@ == "Source directory ("@ + dir@ + ") not found. Nothing to build"@,
    {
        let mut m = "Source directory (".to_owned();
        m.append(dir);
        m.append(") not found. Nothing to build");
        AppError { kind: ErrorKind::App, message: m }
    }

    /// The error as the user reads it: `(kind) message`.
    pub fn describe(&self) -> (r: String)
        ensures
            r@ == "("@ + self.kind.name() + ") "@ + self.message@,
    {
        let mut r = "(".to_owned();
        r.append(self.kind.label());
        r.append(") ");
        r.append(self.message.as_str());
        r
    }
}

impl<'a> From<&'a str> for AppError {
    /// An error of the build's own setup, as `AppError::new` makes it.
    fn from(message: &'a str) -> (r: AppError)
        ensures
            r.kind == ErrorKind::App,
            r.message@ == message@,
    {
        AppError::new(message)
    }
}

impl<'a> vstd::std_specs::convert::FromSpecImpl<&'a str> for AppError {
    open spec fn obeys_from_spec() -> bool {
        false
    }

    open spec fn from_spec(message: &'a str) -> AppError {
        arbitrary()
    }
}

} // verus!
