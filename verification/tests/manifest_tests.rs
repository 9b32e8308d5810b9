use phylum_ext::auth::auth_status_message;
use phylum_ext::consent::{
    conclude_gate, evaluate_gate, overwrite_gate, permission_gate, ConsentGate,
};
use phylum_ext::errors::ExtensionError;
use phylum_ext::manifest::{plan_new, validate_name, ExtensionManifest, MAX_NAME_LEN};
use phylum_ext::paths::{check_install_path, file_name, is_explicit_path};
use phylum_ext::permissions::{PermissionField, Permissions};

fn requesting_read() -> Permissions {
    Permissions {
        read: PermissionField::Wildcard,
        write: PermissionField::NotRequested,
        run: PermissionField::NotRequested,
        net: PermissionField::NotRequested,
    }
}

#[test]
fn allow_none_iff_nothing_requested() {
    assert!(Permissions::none().is_allow_none());
    let categories = ["read", "write", "run", "net"];
    for category in categories {
        let mut p = Permissions::none();
        match category {
            "read" => p.read = PermissionField::Wildcard,
            "write" => p.write = PermissionField::AllowList(vec!["/tmp".to_string()]),
            "run" => p.run = PermissionField::Wildcard,
            _ => p.net = PermissionField::AllowList(vec!["example.com".to_string()]),
        }
        assert!(!p.is_allow_none());
    }
}

#[test]
fn name_policy_accepts_identifiers_only() {
    assert_eq!(validate_name("my-ext"), Ok(()));
    assert_eq!(validate_name("ext_2"), Ok(()));
    assert_eq!(validate_name(""), Err(ExtensionError::InvalidName));
    assert_eq!(validate_name("My-Ext"), Err(ExtensionError::InvalidName));
    assert_eq!(validate_name("has space"), Err(ExtensionError::InvalidName));
    assert_eq!(validate_name("dotted.name"), Err(ExtensionError::InvalidName));
    let longest = "a".repeat(MAX_NAME_LEN);
    assert_eq!(validate_name(&longest), Ok(()));
    let too_long = "a".repeat(MAX_NAME_LEN + 1);
    assert_eq!(validate_name(&too_long), Err(ExtensionError::InvalidName));
}

#[test]
fn name_policy_rejects_builtin_commands() {
    for reserved in ["extension", "install", "uninstall", "new", "run", "list", "help", "auth"] {
        assert_eq!(validate_name(reserved), Err(ExtensionError::InvalidName));
    }
}

#[test]
fn scaffold_creates_default_manifest() {
    let planned = plan_new("my-ext", false).expect("scaffolding a fresh name must succeed");
    assert_eq!(planned.manifest.name, "my-ext");
    assert_eq!(planned.manifest.description, None);
    assert_eq!(planned.manifest.entrypoint, "main.ts");
    assert!(planned.manifest.permissions.is_allow_none());
    assert!(planned.entrypoint_contents.contains("console.log('Hello, World!');"));
}

#[test]
fn scaffold_refuses_occupied_destination() {
    assert!(matches!(plan_new("my-ext", true), Err(ExtensionError::DestinationExists)));
    assert!(matches!(plan_new("bad name", false), Err(ExtensionError::InvalidName)));
}

#[test]
fn manifest_new_gives_defaults() {
    let m = ExtensionManifest::new("my-ext");
    assert_eq!(m.name, "my-ext");
    assert_eq!(m.description, None);
    assert_eq!(m.entrypoint, "main.ts");
    assert!(m.permissions.is_allow_none());
}

#[test]
fn bare_names_are_ambiguous_install_paths() {
    assert!(is_explicit_path("./my-ext"));
    assert!(is_explicit_path("a\\b"));
    assert!(!is_explicit_path("my-ext"));
    assert_eq!(check_install_path("./my-ext"), Ok(()));
    assert_eq!(check_install_path("my-ext"), Err(ExtensionError::InvalidPath));
}

#[test]
fn file_name_takes_the_last_segment() {
    assert_eq!(file_name("./foo/bar"), Some("bar".to_string()));
    assert_eq!(file_name("bar"), Some("bar".to_string()));
    assert_eq!(file_name("foo/"), Some("foo".to_string()));
    assert_eq!(file_name("///"), None);
    assert_eq!(file_name(""), None);
}

#[test]
fn consent_fails_closed_without_terminal() {
    // A capability grant that is still required cannot be prompted for.
    let gate = permission_gate(&requesting_read(), false, false);
    assert_eq!(gate, ConsentGate::FailClosed);
    assert_eq!(
        conclude_gate(gate, true),
        Err(ExtensionError::NonInteractiveConsentRequired)
    );
    // The same holds for an overwrite that was not pre-approved.
    let gate = overwrite_gate(true, false, false);
    assert_eq!(gate, ConsentGate::FailClosed);
    assert_eq!(
        conclude_gate(gate, false),
        Err(ExtensionError::NonInteractiveConsentRequired)
    );
}

#[test]
fn consent_gates_skip_and_prompt() {
    // Nothing requested: no consent step at all.
    assert_eq!(permission_gate(&Permissions::none(), false, false), ConsentGate::Skip);
    // An explicit acceptance flag skips the prompt.
    assert_eq!(permission_gate(&requesting_read(), true, false), ConsentGate::Skip);
    // Interactive: prompt, defaulting to "no" for grants, "yes" for overwrites.
    assert_eq!(
        permission_gate(&requesting_read(), false, true),
        ConsentGate::Prompt { default_yes: false }
    );
    assert_eq!(overwrite_gate(true, false, true), ConsentGate::Prompt { default_yes: true });
    assert_eq!(overwrite_gate(false, false, false), ConsentGate::Skip);
    // A prompt concluded: yes proceeds, no is a terminal failure.
    assert_eq!(conclude_gate(ConsentGate::Prompt { default_yes: false }, true), Ok(()));
    assert_eq!(
        conclude_gate(ConsentGate::Prompt { default_yes: true }, false),
        Err(ExtensionError::ConsentDeclined)
    );
    assert_eq!(conclude_gate(ConsentGate::Skip, false), Ok(()));
}

#[test]
fn gate_evaluation_matches_protocol() {
    assert_eq!(evaluate_gate(false, false, false, true), ConsentGate::Skip);
    assert_eq!(evaluate_gate(true, true, false, true), ConsentGate::Skip);
    assert_eq!(evaluate_gate(true, false, true, true), ConsentGate::Prompt { default_yes: true });
    assert_eq!(evaluate_gate(true, false, false, true), ConsentGate::FailClosed);
}

#[test]
fn auth_status_picks_the_right_message() {
    assert_eq!(
        auth_status_message(true),
        "Currently authenticated with long lived refresh token"
    );
    assert_eq!(auth_status_message(false), "User is not currently authenticated");
}

#[test]
fn error_descriptions_are_stable() {
    assert_eq!(ExtensionError::InvalidName.describe(), "invalid extension name");
    assert_eq!(
        ExtensionError::NonInteractiveConsentRequired.describe(),
        "can't ask for consent: not a terminal"
    );
}
