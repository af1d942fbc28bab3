//! The failure a caller gets back from loading or resolving a configuration.

use vstd::prelude::*;

verus! {

/// `toml::de::Error`, the parse failure of the `toml` crate, carried through
/// unopened.
#[verifier::external_type_specification]
#[verifier::external_body]
pub struct ExTomlError(toml::de::Error);

/// What went wrong.
#[derive(Clone, Copy, Debug, PartialEq, Eq, Structural)]
pub enum ErrorKind {
    /// The configuration file is missing or cannot be read.
    ConfigFileCanNotRead,
    /// The configuration text is not a TOML document.
    ConfigTomlIllegal,
    /// The document or the command line asks for something that cannot be run.
    ConfigIllegal,
}

/// A failure with its kind, the parse failure underneath it if there is one,
/// and a message for the user if there is one.
#[derive(Debug, Clone, PartialEq, Eq)]
pub struct ConfigError {
    pub kind: ErrorKind,
    pub inner: Option<toml::de::Error>,
    pub message: Option<String>,
}

/// A `ConfigError` with its message as a sequence of characters.
pub struct ErrorView {
    pub kind: ErrorKind,
    pub inner: Option<toml::de::Error>,
    pub message: Option<Seq<char>>,
}

impl View for ConfigError {
    type V = ErrorView;

    open spec fn view(&self) -> ErrorView {
        ErrorView {
            kind: self.kind,
            inner: self.inner,
            message: match self.message {
                Some(m) => Some(m@),
                None => None,
            },
        }
    }
}

impl ErrorView {
    /// The view of a `ConfigIllegal` failure that carries `message`.
    pub open spec fn illegal(message: Seq<char>) -> ErrorView {
        ErrorView { kind: ErrorKind::ConfigIllegal, inner: None, message: Some(message) }
    }
}

impl ConfigError {
    /// A `ConfigIllegal` failure that carries `message`.
    pub fn illegal(message: String) -> (e: ConfigError)
        ensures
            e@ == ErrorView::illegal(message@),
    {
        ConfigError { kind: ErrorKind::ConfigIllegal, inner: None, message: Some(message) }
    }
}

} // verus!
