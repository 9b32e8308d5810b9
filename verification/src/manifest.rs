//! The manifest: an extension's declared identity and capability
//! requirements, plus name validation and the scaffolding of a fresh
//! extension.

use vstd::prelude::*;
use vstd::string::*;

use crate::errors::ExtensionError;
use crate::permissions::{Permissions, PermissionsView};
use crate::text::str_eq;

verus! {

/// The longest name an extension may declare.
pub const MAX_NAME_LEN: usize = 32;

/// Characters allowed in an extension name: ASCII lowercase letters, digits,
/// `-` and `_`.
pub open spec fn valid_name_char(c: char) -> bool {
    ||| 97 <= c as u32 <= 122  // 'a' ..= 'z'
    ||| 48 <= c as u32 <= 57  // '0' ..= '9'
    ||| c == '-'
    ||| c == '_'
}

/// Names of built-in commands; an extension may not shadow one of them.
pub open spec fn reserved_name(s: Seq<char>) -> bool {
    ||| s == "extension"@
    ||| s == "install"@
    ||| s == "uninstall"@
    ||| s == "new"@
    ||| s == "run"@
    ||| s == "list"@
    ||| s == "help"@
    ||| s == "auth"@
}

/// A name is valid when it is non-empty, within the length bound, drawn from
/// the identifier charset, and not a reserved command name.
pub open spec fn valid_name(s: Seq<char>) -> bool {
    &&& 1 <= s.len() <= MAX_NAME_LEN
    &&& forall|i: int| 0 <= i < s.len() ==> valid_name_char(#[trigger] s[i])
    &&& !reserved_name(s)
}

/// Whether `name` collides with a built-in command name.
pub fn is_reserved(name: &str) -> (r: bool)
    ensures
        r == reserved_name(name@),
{
    str_eq(name, "extension") || str_eq(name, "install") || str_eq(name, "uninstall") || str_eq(
        name,
        "new",
    ) || str_eq(name, "run") || str_eq(name, "list") || str_eq(name, "help") || str_eq(
        name,
        "auth",
    )
}

/// Checks the name policy: non-empty, at most `MAX_NAME_LEN` characters,
/// identifier charset only, and no collision with a built-in command name.
pub fn validate_name(name: &str) -> (r: Result<(), ExtensionError>)
    ensures
        r is Ok <==> valid_name(name@),
        r is Err ==> r->Err_0 == ExtensionError::InvalidName,
{
    let len = name.unicode_len();
    if len == 0 || len > MAX_NAME_LEN {
        return Err(ExtensionError::InvalidName);
    }
    let mut i: usize = 0;
    while i < len
        invariant
            i <= len,
            len == name@.len(),
            forall|j: int| 0 <= j < i ==> valid_name_char(#[trigger] name@[j]),
        decreases len - i,
    {
        let c = name.get_char(i);
        let u = c as u32;
        let ok = (97 <= u && u <= 122) || (48 <= u && u <= 57) || c == '-' || c == '_';
        if !ok {
            return Err(ExtensionError::InvalidName);
        }
        i = i + 1;
    }
    if is_reserved(name) {
        Err(ExtensionError::InvalidName)
    } else {
        Ok(())
    }
}

/// Identity and declared requirements of one extension, as read from its
/// definition file or produced by scaffolding.
#[derive(Clone, Debug)]
pub struct ExtensionManifest {
    /// The extension's name; must satisfy the name policy.
    pub name: String,
    /// Optional human-readable description.
    pub description: Option<String>,
    /// Relative path of the executable script within the extension directory.
    pub entrypoint: String,
    /// The capabilities the extension requires.
    pub permissions: Permissions,
}

/// Mathematical model of a manifest.
#[verifier::ext_equal]
pub struct ManifestView {
    pub name: Seq<char>,
    pub description: Option<Seq<char>>,
    pub entrypoint: Seq<char>,
    pub permissions: PermissionsView,
}

impl View for ExtensionManifest {
    type V = ManifestView;

    open spec fn view(&self) -> ManifestView {
        ManifestView {
            name: self.name@,
            description: match self.description {
                Some(d) => Some(d@),
                None => None,
            },
            entrypoint: self.entrypoint@,
            permissions: self.permissions@,
        }
    }
}

/// The entrypoint a scaffolded manifest declares.
pub open spec fn default_entrypoint() -> Seq<char> {
    "main.ts"@
}

/// The manifest that scaffolding produces for `name`: empty description,
/// default entrypoint, no permissions.
pub open spec fn fresh_manifest(name: Seq<char>) -> ManifestView {
    ManifestView {
        name: name,
        description: None,
        entrypoint: default_entrypoint(),
        permissions: Permissions::none_view(),
    }
}

impl ExtensionManifest {
    /// A default manifest for scaffolding a new extension: no permissions,
    /// no description, default entrypoint.
    pub fn new(name: &str) -> (m: ExtensionManifest)
        ensures
            m@ == fresh_manifest(name@),
            m.permissions.wf(),
    {
        let m = ExtensionManifest {
            name: name.to_owned(),
            description: None,
            entrypoint: String::from_str("main.ts"),
            permissions: Permissions::none(),
        };
        proof {
            assert(m@ =~= fresh_manifest(name@));
        }
        m
    }
}

/// Everything the scaffolding operation writes to disk for a new extension:
/// the manifest and the example entrypoint.
#[derive(Clone, Debug)]
pub struct NewExtension {
    /// The manifest to serialise into the definition file.
    pub manifest: ExtensionManifest,
    /// The contents of the example entrypoint script.
    pub entrypoint_contents: String,
}

/// The example entrypoint written for a new extension.
pub open spec fn skeleton_text() -> Seq<char> {
    "import { PhylumApi } from 'phylum';\n\nconsole.log('Hello, World!');\n"@
}

/// The example entrypoint written for a new extension.
pub fn skeleton() -> (r: String)
    ensures
        r@ == skeleton_text(),
{
    String::from_str("import { PhylumApi } from 'phylum';\n\nconsole.log('Hello, World!');\n")
}

/// Decides the scaffolding of a new extension: refuses an occupied
/// destination, validates the name, and otherwise hands back the manifest
/// and example entrypoint to write.
pub fn plan_new(name: &str, destination_exists: bool) -> (r: Result<NewExtension, ExtensionError>)
    ensures
        destination_exists ==> r == Err::<NewExtension, ExtensionError>(
            ExtensionError::DestinationExists,
        ),
        !destination_exists && !valid_name(name@) ==> r == Err::<NewExtension, ExtensionError>(
            ExtensionError::InvalidName,
        ),
        !destination_exists && valid_name(name@) ==> {
            &&& r is Ok
            &&& r->Ok_0.manifest@ == fresh_manifest(name@)
            &&& r->Ok_0.entrypoint_contents@ == skeleton_text()
        },
{
    if destination_exists {
        return Err(ExtensionError::DestinationExists);
    }
    match validate_name(name) {
        Ok(_) => Ok(
            NewExtension { manifest: ExtensionManifest::new(name), entrypoint_contents: skeleton() },
        ),
        Err(e) => Err(e),
    }
}

} // verus!
