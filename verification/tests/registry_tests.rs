use phylum_ext::errors::ExtensionError;
use phylum_ext::extension::{classify_prior, content_eq, resolve_extension, Extension, PriorInstall};
use phylum_ext::listing::{filter_name_conflicts, installed_from_entries};
use phylum_ext::manifest::ExtensionManifest;
use phylum_ext::permissions::Permissions;
use phylum_ext::registry::{InstallOutcome, Registry};

fn sample(name: &str, contents: &[u8]) -> Extension {
    Extension {
        manifest: ExtensionManifest {
            name: name.to_string(),
            description: None,
            entrypoint: "main.ts".to_string(),
            permissions: Permissions::none(),
        },
        entrypoint_contents: contents.to_vec(),
    }
}

#[test]
fn install_identical_twice_is_idempotent() {
    let e = sample("my-ext", b"console.log('hi');");
    let mut reg = Registry::new();
    assert_eq!(reg.install(e.clone(), false), Ok(InstallOutcome::Installed));
    // Second install of identical content: a no-op, whatever the flag says.
    assert_eq!(reg.install(e.clone(), false), Ok(InstallOutcome::AlreadyCurrent));
    assert_eq!(reg.install(e.clone(), true), Ok(InstallOutcome::AlreadyCurrent));
    assert_eq!(reg.list().len(), 1);
    assert!(content_eq(&reg.list()[0], &e));
}

#[test]
fn conflicting_install_needs_overwrite() {
    let old = sample("my-ext", b"old body");
    let new = sample("my-ext", b"new body");
    let mut reg = Registry::new();
    assert_eq!(reg.install(old.clone(), false), Ok(InstallOutcome::Installed));
    assert_eq!(reg.install(new.clone(), false), Err(ExtensionError::AlreadyInstalled));
    // The failed install changed nothing.
    assert_eq!(reg.list().len(), 1);
    assert!(content_eq(&reg.list()[0], &old));
    // With overwrite the prior contents are fully replaced.
    assert_eq!(reg.install(new.clone(), true), Ok(InstallOutcome::Replaced));
    assert_eq!(reg.list().len(), 1);
    assert!(content_eq(&reg.list()[0], &new));
}

#[test]
fn uninstall_missing_name_changes_nothing() {
    let e = sample("my-ext", b"body");
    let mut reg = Registry::new();
    assert_eq!(reg.install(e.clone(), false), Ok(InstallOutcome::Installed));
    assert_eq!(reg.uninstall("other"), Err(ExtensionError::NotInstalled));
    assert_eq!(reg.list().len(), 1);
    assert!(content_eq(&reg.list()[0], &e));
    assert_eq!(reg.uninstall("my-ext"), Ok(()));
    assert_eq!(reg.list().len(), 0);
    assert_eq!(reg.uninstall("my-ext"), Err(ExtensionError::NotInstalled));
}

#[test]
fn empty_or_missing_root_lists_nothing() {
    // A missing registry root resolves to no entries at all.
    assert_eq!(Registry::new().list().len(), 0);
    assert_eq!(Registry::from_entries(Vec::new()).list().len(), 0);
    assert_eq!(installed_from_entries(Vec::new()).len(), 0);
}

#[test]
fn corrupt_entry_is_skipped_not_fatal() {
    let good = sample("good-ext", b"fine");
    let listed = installed_from_entries(vec![None, Some(good.clone())]);
    assert_eq!(listed.len(), 1);
    assert!(content_eq(&listed[0], &good));
}

#[test]
fn resolution_error_kinds_are_distinct() {
    let m = ExtensionManifest::new("my-ext");
    assert!(matches!(
        resolve_extension(None, Some(b"body".to_vec())),
        Err(ExtensionError::MalformedManifest)
    ));
    assert!(matches!(
        resolve_extension(Some(m.clone()), None),
        Err(ExtensionError::MissingEntrypoint)
    ));
    let ok = resolve_extension(Some(m), Some(b"body".to_vec()));
    assert!(ok.is_ok());
}

#[test]
fn duplicate_directory_names_keep_first() {
    let first = sample("my-ext", b"first");
    let second = sample("my-ext", b"second");
    let reg = Registry::from_entries(vec![first.clone(), second]);
    assert_eq!(reg.list().len(), 1);
    assert!(content_eq(&reg.list()[0], &first));
}

#[test]
fn find_looks_up_by_name() {
    let e = sample("my-ext", b"body");
    let mut reg = Registry::new();
    reg.install(e.clone(), false).unwrap();
    let found = reg.find("my-ext").expect("installed extension must be found");
    assert!(content_eq(found, &e));
    assert!(reg.find("absent").is_none());
}

#[test]
fn name_conflicts_are_filtered_out() {
    let shadowing = sample("install", b"evil");
    let fine = sample("my-ext", b"fine");
    let taken = vec!["install".to_string(), "list".to_string()];
    let kept = filter_name_conflicts(vec![shadowing, fine.clone()], &taken);
    assert_eq!(kept.len(), 1);
    assert!(content_eq(&kept[0], &fine));
}

#[test]
fn prior_install_classification() {
    let fresh = sample("my-ext", b"body");
    let same = fresh.clone();
    let differing = sample("my-ext", b"other");
    assert_eq!(classify_prior(&fresh, None), PriorInstall::Absent);
    assert_eq!(classify_prior(&fresh, Some(&same)), PriorInstall::Identical);
    assert_eq!(classify_prior(&fresh, Some(&differing)), PriorInstall::Differs);
}

#[test]
fn content_equality_sees_every_field() {
    let base = sample("my-ext", b"body");
    let mut other = base.clone();
    assert!(content_eq(&base, &other));
    other.manifest.description = Some("hi".to_string());
    assert!(!content_eq(&base, &other));
    let mut diff_bytes = base.clone();
    diff_bytes.entrypoint_contents = b"other body".to_vec();
    assert!(!content_eq(&base, &diff_bytes));
}
