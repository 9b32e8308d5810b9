//! A resolved extension: its manifest together with the contents of its
//! entrypoint script. Two extensions are the same iff manifest and
//! entrypoint contents are identical; that decides "already installed,
//! nothing to do" against "needs overwrite confirmation".

use vstd::prelude::*;

use crate::errors::ExtensionError;
use crate::manifest::{ExtensionManifest, ManifestView};
use crate::permissions::{PermissionField, Permissions};
use crate::text::str_eq;

verus! {

/// A resolved, loaded extension.
#[derive(Clone, Debug)]
pub struct Extension {
    /// The parsed definition file.
    pub manifest: ExtensionManifest,
    /// The bytes of the entrypoint script.
    pub entrypoint_contents: Vec<u8>,
}

/// Mathematical model of an extension.
#[verifier::ext_equal]
pub struct ExtensionView {
    pub manifest: ManifestView,
    pub entrypoint_contents: Seq<u8>,
}

impl View for Extension {
    type V = ExtensionView;

    open spec fn view(&self) -> ExtensionView {
        ExtensionView { manifest: self.manifest@, entrypoint_contents: self.entrypoint_contents@ }
    }
}

impl Extension {
    /// The extension's declared name.
    pub fn name(&self) -> (r: &String)
        ensures
            r@ == self@.manifest.name,
    {
        &self.manifest.name
    }

    /// The extension's description, if any.
    pub fn description(&self) -> (r: &Option<String>)
        ensures
            r is Some <==> self@.manifest.description is Some,
            r matches Some(d) ==> self@.manifest.description == Some(d@),
    {
        &self.manifest.description
    }

    /// The extension's declared capability requirements.
    pub fn permissions(&self) -> (r: &Permissions)
        ensures
            r@ == self@.manifest.permissions,
    {
        &self.manifest.permissions
    }
}

/// Byte-for-byte equality of two buffers.
pub fn bytes_eq(a: &Vec<u8>, b: &Vec<u8>) -> (r: bool)
    ensures
        r == (a@ == b@),
{
    if a.len() != b.len() {
        return false;
    }
    let mut i: usize = 0;
    while i < a.len()
        invariant
            i <= a@.len(),
            a@.len() == b@.len(),
            forall|j: int| 0 <= j < i ==> a@[j] == b@[j],
        decreases a@.len() - i,
    {
        if a[i] != b[i] {
            return false;
        }
        i = i + 1;
    }
    proof {
        assert(a@ =~= b@);
    }
    true
}

/// Element-wise equality of two pattern lists.
pub fn string_vec_eq(a: &Vec<String>, b: &Vec<String>) -> (r: bool)
    ensures
        r == (a.deep_view() == b.deep_view()),
{
    if a.len() != b.len() {
        proof {
            assert(a.deep_view().len() == a@.len());
            assert(b.deep_view().len() == b@.len());
        }
        return false;
    }
    let mut i: usize = 0;
    while i < a.len()
        invariant
            i <= a@.len(),
            a@.len() == b@.len(),
            a.deep_view().len() == a@.len(),
            b.deep_view().len() == b@.len(),
            forall|j: int| 0 <= j < i ==> a.deep_view()[j] == b.deep_view()[j],
        decreases a@.len() - i,
    {
        if !str_eq(a[i].as_str(), b[i].as_str()) {
            proof {
                assert(a.deep_view()[i as int] == a@[i as int]@);
                assert(b.deep_view()[i as int] == b@[i as int]@);
            }
            return false;
        }
        proof {
            assert(a.deep_view()[i as int] == a@[i as int]@);
            assert(b.deep_view()[i as int] == b@[i as int]@);
        }
        i = i + 1;
    }
    proof {
        assert(a.deep_view() =~= b.deep_view());
    }
    true
}

/// Equality of two optional strings, compared by contents.
pub fn opt_string_eq(a: &Option<String>, b: &Option<String>) -> (r: bool)
    ensures
        r == ((match a {
            Some(x) => Some(x@),
            None => None,
        }) == (match b {
            Some(y) => Some(y@),
            None => None,
        })),
{
    match (a, b) {
        (None, None) => true,
        (Some(x), Some(y)) => str_eq(x.as_str(), y.as_str()),
        _ => false,
    }
}

/// Equality of two capability categories, compared by contents.
pub fn field_eq(a: &PermissionField, b: &PermissionField) -> (r: bool)
    ensures
        r == (a@ == b@),
{
    match (a, b) {
        (PermissionField::NotRequested, PermissionField::NotRequested) => true,
        (PermissionField::Wildcard, PermissionField::Wildcard) => true,
        (PermissionField::AllowList(x), PermissionField::AllowList(y)) => string_vec_eq(x, y),
        _ => false,
    }
}

/// Equality of two permission sets, compared by contents.
pub fn permissions_eq(a: &Permissions, b: &Permissions) -> (r: bool)
    ensures
        r == (a@ == b@),
{
    let r = field_eq(&a.read, &b.read) && field_eq(&a.write, &b.write) && field_eq(
        &a.run,
        &b.run,
    ) && field_eq(&a.net, &b.net);
    proof {
        if r {
            assert(a@ =~= b@);
        }
    }
    r
}

/// Equality of two manifests, compared by contents.
pub fn manifest_eq(a: &ExtensionManifest, b: &ExtensionManifest) -> (r: bool)
    ensures
        r == (a@ == b@),
{
    let r = str_eq(a.name.as_str(), b.name.as_str()) && opt_string_eq(
        &a.description,
        &b.description,
    ) && str_eq(a.entrypoint.as_str(), b.entrypoint.as_str()) && permissions_eq(
        &a.permissions,
        &b.permissions,
    );
    proof {
        if r {
            assert(a@ =~= b@);
        }
    }
    r
}

/// Structural equality of two extensions: identical manifest and identical
/// entrypoint bytes. Used only to short-circuit reinstalls, never for
/// execution decisions.
pub fn content_eq(a: &Extension, b: &Extension) -> (r: bool)
    ensures
        r == (a@ == b@),
{
    let r = manifest_eq(&a.manifest, &b.manifest) && bytes_eq(
        &a.entrypoint_contents,
        &b.entrypoint_contents,
    );
    proof {
        if r {
            assert(a@ =~= b@);
        }
    }
    r
}

/// How a resolved extension relates to what the registry already holds
/// under its name: nothing, the identical content, or differing content.
#[derive(Clone, Copy, Debug, PartialEq, Eq, Structural)]
pub enum PriorInstall {
    /// No extension of this name is installed.
    Absent,
    /// The installed extension is byte-identical: installing is a no-op.
    Identical,
    /// A differing extension of this name is installed: replacing it needs
    /// overwrite consent.
    Differs,
}

/// How `fresh` relates to the `existing` install of the same name, if any.
pub open spec fn prior_install_spec(fresh: ExtensionView, existing: Option<ExtensionView>)
    -> PriorInstall {
    match existing {
        None => PriorInstall::Absent,
        Some(e) => if e == fresh {
            PriorInstall::Identical
        } else {
            PriorInstall::Differs
        },
    }
}

/// Classifies a resolved extension against the prior install of its name,
/// deciding between no-op, plain install, and overwrite confirmation.
pub fn classify_prior(fresh: &Extension, existing: Option<&Extension>) -> (r: PriorInstall)
    ensures
        r == prior_install_spec(fresh@, match existing {
            Some(e) => Some(e@),
            None => None,
        }),
{
    match existing {
        None => PriorInstall::Absent,
        Some(e) => if content_eq(e, fresh) {
            PriorInstall::Identical
        } else {
            PriorInstall::Differs
        },
    }
}

/// Assembles an extension from what was found on disk: no parseable manifest
/// is a malformed-manifest error, a missing entrypoint is its own error, and
/// otherwise the extension is the pair of the two.
pub fn resolve_extension(manifest: Option<ExtensionManifest>, entrypoint_contents: Option<Vec<u8>>)
    -> (r: Result<Extension, ExtensionError>)
    ensures
        manifest is None ==> r == Err::<Extension, ExtensionError>(
            ExtensionError::MalformedManifest,
        ),
        manifest is Some && entrypoint_contents is None ==> r == Err::<Extension, ExtensionError>(
            ExtensionError::MissingEntrypoint,
        ),
        manifest is Some && entrypoint_contents is Some ==> {
            &&& r is Ok
            &&& r->Ok_0@.manifest == manifest->0@
            &&& r->Ok_0@.entrypoint_contents == entrypoint_contents->0@
        },
{
    match (manifest, entrypoint_contents) {
        (None, _) => Err(ExtensionError::MalformedManifest),
        (Some(_), None) => Err(ExtensionError::MissingEntrypoint),
        (Some(m), Some(c)) => Ok(Extension { manifest: m, entrypoint_contents: c }),
    }
}

/// Whether a registry entry is consistent: the directory name under the
/// registry root must match the name the manifest declares.
pub fn entry_matches(dir_name: &str, ext: &Extension) -> (r: bool)
    ensures
        r == (dir_name@ == ext@.manifest.name),
{
    str_eq(dir_name, ext.manifest.name.as_str())
}

} // verus!
