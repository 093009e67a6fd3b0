use wow_profile_copy::classify::{is_reserved_name, is_saved_variable_file, is_version_folder};
use wow_profile_copy::fstree::FsTree;
use wow_profile_copy::wow::{get_wow_install, get_wtf_configurations, ScanError, VersionScanError};

fn dir(name: &str, children: Vec<FsTree>) -> FsTree {
    FsTree { name: name.to_string(), is_dir: true, readable: true, children }
}

fn file(name: &str) -> FsTree {
    FsTree { name: name.to_string(), is_dir: false, readable: true, children: Vec::new() }
}

fn locked_dir(name: &str) -> FsTree {
    FsTree { name: name.to_string(), is_dir: true, readable: false, children: Vec::new() }
}

/// A character directory, optionally holding a SavedVariables directory.
fn character(name: &str, sv: bool) -> FsTree {
    if sv {
        dir(name, vec![dir("SavedVariables", vec![])])
    } else {
        dir(name, vec![])
    }
}

/// A version folder with one account, one realm, and the given characters.
fn simple_version(ver: &str, account: &str, realm: &str, chars: Vec<FsTree>) -> FsTree {
    dir(
        ver,
        vec![dir("WTF", vec![dir("Account", vec![dir(account, vec![dir(realm, chars)])])])],
    )
}

#[test]
fn classifier_version_folder() {
    assert!(is_version_folder("_retail_", true));
    assert!(is_version_folder("_", true));
    assert!(is_version_folder("_classic_era_", true));
    assert!(!is_version_folder("_retail_", false));
    assert!(!is_version_folder("retail_", true));
    assert!(!is_version_folder("_retail", true));
    assert!(!is_version_folder("", true));
}

#[test]
fn classifier_reserved_name() {
    assert!(is_reserved_name("SavedVariables"));
    assert!(!is_reserved_name("savedvariables"));
    assert!(!is_reserved_name("SavedVariables2"));
    assert!(!is_reserved_name(""));
}

#[test]
fn classifier_saved_variable_file() {
    assert!(is_saved_variable_file("Foo.lua"));
    assert!(is_saved_variable_file("a.b.lua"));
    assert!(!is_saved_variable_file(".lua"));
    assert!(!is_saved_variable_file("lua"));
    assert!(!is_saved_variable_file("Foo.LUA"));
    assert!(!is_saved_variable_file("Foo.lua.bak"));
    assert!(!is_saved_variable_file(""));
}

#[test]
fn scan_no_version_folder_is_not_an_installation() {
    let root = dir("wow", vec![file("_retail_"), dir("Interface", vec![]), file("readme.txt")]);
    let r = get_wow_install("wow".to_string(), &root);
    assert!(matches!(r, Err(ScanError::NotAnInstallation)));

    let empty = dir("wow", vec![]);
    let r = get_wow_install("wow".to_string(), &empty);
    assert!(matches!(r, Err(ScanError::NotAnInstallation)));
}

#[test]
fn scan_unreadable_root() {
    let r = get_wow_install("x".to_string(), &locked_dir("x"));
    assert!(matches!(r, Err(ScanError::RootUnreadable)));
    let r = get_wow_install("x".to_string(), &file("x"));
    assert!(matches!(r, Err(ScanError::RootUnreadable)));
}

#[test]
fn scan_version_without_account_dir_is_skipped() {
    // `_retail_` has no WTF/Account; `_classic_` is complete.
    let root = dir(
        "wow",
        vec![
            dir("_retail_", vec![dir("Interface", vec![])]),
            simple_version("_classic_", "ACC", "Realm", vec![character("Char", true)]),
        ],
    );
    let inst = get_wow_install("wow".to_string(), &root).unwrap();
    assert_eq!(inst.versions.len(), 1);
    assert_eq!(inst.versions[0].name, "_classic_");
    assert_eq!(inst.versions[0].wtfs.len(), 1);
    assert_eq!(inst.versions[0].wtfs[0].account, "ACC");
}

#[test]
fn scan_version_with_wtf_but_no_account_is_skipped() {
    let root = dir(
        "wow",
        vec![
            dir("_ptr_", vec![dir("WTF", vec![dir("Config", vec![])])]),
            simple_version("_retail_", "A", "R", vec![character("C", false)]),
        ],
    );
    let inst = get_wow_install("wow".to_string(), &root).unwrap();
    assert_eq!(inst.versions.len(), 1);
    assert_eq!(inst.versions[0].name, "_retail_");
}

#[test]
fn scan_all_versions_skipped_is_not_an_installation() {
    let root = dir("wow", vec![dir("_retail_", vec![]), dir("_classic_", vec![])]);
    let r = get_wow_install("wow".to_string(), &root);
    assert!(matches!(r, Err(ScanError::NotAnInstallation)));
}

#[test]
fn scan_unreadable_account_dir_aborts() {
    let root = dir(
        "wow",
        vec![dir(
            "_retail_",
            vec![dir("WTF", vec![dir("Account", vec![locked_dir("ACC")])])],
        )],
    );
    let r = get_wow_install("wow".to_string(), &root);
    assert!(matches!(r, Err(ScanError::VersionUnreadable)));
}

#[test]
fn scan_wtf_as_file_aborts() {
    let root = dir("wow", vec![dir("_retail_", vec![file("WTF")])]);
    let r = get_wow_install("wow".to_string(), &root);
    assert!(matches!(r, Err(ScanError::VersionUnreadable)));
}

#[test]
fn scan_profiles_are_sorted() {
    let root = dir(
        "wow",
        vec![dir(
            "_retail_",
            vec![dir(
                "WTF",
                vec![dir(
                    "Account",
                    vec![
                        dir(
                            "BETA",
                            vec![
                                dir("Zul", vec![character("Mia", true)]),
                                dir("Arthas", vec![character("Nox", true), character("Abc", true)]),
                            ],
                        ),
                        dir("ALPHA", vec![dir("Realm", vec![character("Zed", true)])]),
                    ],
                )],
            )],
        )],
    );
    let inst = get_wow_install("wow".to_string(), &root).unwrap();
    let wtfs = &inst.versions[0].wtfs;
    let triples: Vec<(String, String, String)> = wtfs
        .iter()
        .map(|w| (w.account.clone(), w.realm.clone(), w.character.clone()))
        .collect();
    let expected = vec![
        ("ALPHA".to_string(), "Realm".to_string(), "Zed".to_string()),
        ("BETA".to_string(), "Arthas".to_string(), "Abc".to_string()),
        ("BETA".to_string(), "Arthas".to_string(), "Nox".to_string()),
        ("BETA".to_string(), "Zul".to_string(), "Mia".to_string()),
    ];
    assert_eq!(triples, expected);
}

#[test]
fn scan_twice_yields_identical_result() {
    let root = dir(
        "wow",
        vec![
            simple_version(
                "_retail_",
                "ACC",
                "Realm",
                vec![character("B", true), character("A", false)],
            ),
            dir("_junk_", vec![]),
        ],
    );
    let a = get_wow_install("wow".to_string(), &root).unwrap();
    let b = get_wow_install("wow".to_string(), &root).unwrap();
    assert_eq!(a.install_dir, b.install_dir);
    assert_eq!(a.versions.len(), b.versions.len());
    for (va, vb) in a.versions.iter().zip(b.versions.iter()) {
        assert_eq!(va.name, vb.name);
        assert_eq!(va.wtfs, vb.wtfs);
    }
}

#[test]
fn scan_records_saved_variables_flag() {
    let root = dir(
        "wow",
        vec![simple_version(
            "_retail_",
            "ACC",
            "Realm",
            vec![
                character("HasIt", true),
                character("LacksIt", false),
                // SavedVariables present but as a file: not a directory.
                dir("FileOnly", vec![file("SavedVariables")]),
            ],
        )],
    );
    let inst = get_wow_install("wow".to_string(), &root).unwrap();
    let wtfs = &inst.versions[0].wtfs;
    assert_eq!(wtfs.len(), 3);
    let by_name = |n: &str| wtfs.iter().find(|w| w.character == n).unwrap();
    assert!(by_name("HasIt").has_saved_variables);
    assert!(!by_name("LacksIt").has_saved_variables);
    assert!(!by_name("FileOnly").has_saved_variables);
}

#[test]
fn scan_reserved_siblings_are_not_accounts_or_realms() {
    let root = dir(
        "wow",
        vec![dir(
            "_retail_",
            vec![dir(
                "WTF",
                vec![dir(
                    "Account",
                    vec![
                        // a SavedVariables directory beside the accounts
                        dir("SavedVariables", vec![dir("X", vec![dir("Y", vec![])])]),
                        dir(
                            "ACC",
                            vec![
                                // a SavedVariables directory beside the realms
                                dir("SavedVariables", vec![dir("Z", vec![])]),
                                dir("Realm", vec![character("Char", true)]),
                            ],
                        ),
                    ],
                )],
            )],
        )],
    );
    let inst = get_wow_install("wow".to_string(), &root).unwrap();
    let wtfs = &inst.versions[0].wtfs;
    assert_eq!(wtfs.len(), 1);
    assert_eq!(wtfs[0].account, "ACC");
    assert_eq!(wtfs[0].realm, "Realm");
    assert_eq!(wtfs[0].character, "Char");
}

#[test]
fn scan_files_among_directories_are_ignored() {
    let root = dir(
        "wow",
        vec![dir(
            "_retail_",
            vec![dir(
                "WTF",
                vec![dir(
                    "Account",
                    vec![
                        file("stray.txt"),
                        dir(
                            "ACC",
                            vec![file("note"), dir("Realm", vec![file("config.wtf"), character("C", false)])],
                        ),
                    ],
                )],
            )],
        )],
    );
    let inst = get_wow_install("wow".to_string(), &root).unwrap();
    assert_eq!(inst.versions[0].wtfs.len(), 1);
}

#[test]
fn wtf_configurations_missing_account_reports_not_found() {
    let version = dir("_retail_", vec![]);
    let r = get_wtf_configurations(&version);
    assert!(matches!(r, Err(VersionScanError::NotFound)));

    let version = dir("_retail_", vec![dir("WTF", vec![])]);
    let r = get_wtf_configurations(&version);
    assert!(matches!(r, Err(VersionScanError::NotFound)));
}

#[test]
fn wtf_configurations_unreadable_realm_reports_unreadable() {
    let version = dir(
        "_retail_",
        vec![dir("WTF", vec![dir("Account", vec![dir("ACC", vec![locked_dir("Realm")])])])],
    );
    let r = get_wtf_configurations(&version);
    assert!(matches!(r, Err(VersionScanError::Unreadable)));
}
