//! Error kinds surfaced by the extension registry and consent core.

use vstd::prelude::*;

verus! {

/// Everything that can go wrong while validating, resolving, installing,
/// uninstalling or consenting to an extension.
///
/// `AlreadyInstalled` is resolved by the overwrite prompt rather than being a
/// hard error; all other kinds abort the current operation.
#[derive(Clone, Copy, Debug, PartialEq, Eq, Structural)]
pub enum ExtensionError {
    /// The extension name is empty, too long, contains a character outside
    /// the identifier charset, or collides with a built-in command name.
    InvalidName,
    /// A path argument could not be resolved to an extension directory.
    InvalidPath,
    /// The manifest file exists but could not be parsed.
    MalformedManifest,
    /// The entrypoint declared by the manifest is absent.
    MissingEntrypoint,
    /// A differing extension of the same name is already installed.
    AlreadyInstalled,
    /// No extension of the given name is installed.
    NotInstalled,
    /// The operator declined a consent prompt.
    ConsentDeclined,
    /// Consent was required but no interactive terminal is attached.
    NonInteractiveConsentRequired,
    /// The destination of a scaffolding operation already exists.
    DestinationExists,
}

impl ExtensionError {
    /// A short human-readable description of the error kind.
    pub fn describe(&self) -> (r: &'static str)
        ensures
            r@ == self.describe_spec(),
    {
        match self {
            ExtensionError::InvalidName => "invalid extension name",
            ExtensionError::InvalidPath => "invalid extension path",
            ExtensionError::MalformedManifest => "malformed extension manifest",
            ExtensionError::MissingEntrypoint => "extension entrypoint is missing",
            ExtensionError::AlreadyInstalled => "extension is already installed",
            ExtensionError::NotInstalled => "no extension with this name is installed",
            ExtensionError::ConsentDeclined => "consent was not granted, aborting",
            ExtensionError::NonInteractiveConsentRequired => "can't ask for consent: not a terminal",
            ExtensionError::DestinationExists => "destination already exists",
        }
    }

    /// What `describe` returns for each kind.
    pub open spec fn describe_spec(&self) -> Seq<char> {
        match self {
            ExtensionError::InvalidName => "invalid extension name"@,
            ExtensionError::InvalidPath => "invalid extension path"@,
            ExtensionError::MalformedManifest => "malformed extension manifest"@,
            ExtensionError::MissingEntrypoint => "extension entrypoint is missing"@,
            ExtensionError::AlreadyInstalled => "extension is already installed"@,
            ExtensionError::NotInstalled => "no extension with this name is installed"@,
            ExtensionError::ConsentDeclined => "consent was not granted, aborting"@,
            ExtensionError::NonInteractiveConsentRequired => "can't ask for consent: not a terminal"@,
            ExtensionError::DestinationExists => "destination already exists"@,
        }
    }
}

} // verus!
