use phylum_ext::extension::Extension;
use phylum_ext::listing::render_extension_list;
use phylum_ext::manifest::ExtensionManifest;
use phylum_ext::permissions::{render_permissions, PermissionField, Permissions};

fn described(name: &str, description: Option<&str>) -> Extension {
    Extension {
        manifest: ExtensionManifest {
            name: name.to_string(),
            description: description.map(|d| d.to_string()),
            entrypoint: "main.ts".to_string(),
            permissions: Permissions::none(),
        },
        entrypoint_contents: b"console.log('hi');".to_vec(),
    }
}

#[test]
fn wildcard_and_allow_list_render_distinctly() {
    // read is a wildcard, net is a one-entry allow-list; write and run were
    // never requested and must not appear at all.
    let p = Permissions {
        read: PermissionField::Wildcard,
        write: PermissionField::NotRequested,
        run: PermissionField::NotRequested,
        net: PermissionField::AllowList(vec!["example.com".to_string()]),
    };
    let lines = render_permissions(&p);
    assert_eq!(
        lines,
        vec![
            "  \u{1b}[1;33mRead any path\u{1b}[0m".to_string(),
            "  \u{1b}[1;34mAccess\u{1b}[0m the following domains:".to_string(),
            "    'example.com'".to_string(),
        ]
    );
    for line in &lines {
        assert!(!line.contains("Write"));
        assert!(!line.contains("Run"));
    }
}

#[test]
fn nothing_requested_renders_nothing() {
    assert!(render_permissions(&Permissions::none()).is_empty());
}

#[test]
fn allow_list_patterns_come_one_per_line() {
    let p = Permissions {
        read: PermissionField::NotRequested,
        write: PermissionField::NotRequested,
        run: PermissionField::AllowList(vec!["npm".to_string(), "git".to_string()]),
        net: PermissionField::NotRequested,
    };
    let lines = render_permissions(&p);
    assert_eq!(
        lines,
        vec![
            "  \u{1b}[1;34mRun\u{1b}[0m the following commands:".to_string(),
            "    'npm'".to_string(),
            "    'git'".to_string(),
        ]
    );
}

#[test]
fn every_wildcard_category_warns_with_its_resource() {
    let p = Permissions {
        read: PermissionField::Wildcard,
        write: PermissionField::Wildcard,
        run: PermissionField::Wildcard,
        net: PermissionField::Wildcard,
    };
    let lines = render_permissions(&p);
    assert_eq!(
        lines,
        vec![
            "  \u{1b}[1;33mRead any path\u{1b}[0m".to_string(),
            "  \u{1b}[1;33mWrite any path\u{1b}[0m".to_string(),
            "  \u{1b}[1;33mRun any command\u{1b}[0m".to_string(),
            "  \u{1b}[1;33mAccess any domain\u{1b}[0m".to_string(),
        ]
    );
}

#[test]
fn empty_listing_says_so() {
    let lines = render_extension_list(&Vec::new());
    assert_eq!(lines, vec!["No extensions are currently installed.".to_string()]);
}

#[test]
fn listing_pads_names_into_columns() {
    let exts = vec![
        described("my-ext", Some("Greets the world")),
        described("undescribed", None),
        described("a-very-long-extension-name", Some("long")),
    ];
    let lines = render_extension_list(&exts);
    assert_eq!(lines.len(), 4);
    assert_eq!(lines[0], "\u{1b}[34mExtension Name         Description\u{1b}[0m");
    assert_eq!(lines[1], format!("{:20}   {}", "my-ext", "Greets the world"));
    assert_eq!(lines[2], format!("{:20}   {}", "undescribed", ""));
    assert_eq!(lines[3], format!("{:20}   {}", "a-very-long-extension-name", "long"));
}
