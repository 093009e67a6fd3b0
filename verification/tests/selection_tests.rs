use wow_profile_copy::display::fonts;
use wow_profile_copy::operation::{default_install_dir, Command, Message, Operation};
use wow_profile_copy::wow::{Install, Version, Wtf};

fn wtf(account: &str, realm: &str, character: &str, sv: bool) -> Wtf {
    Wtf {
        account: account.to_string(),
        realm: realm.to_string(),
        character: character.to_string(),
        has_saved_variables: sv,
    }
}

fn sample_install() -> Install {
    Install {
        install_dir: "/wow".to_string(),
        versions: vec![Version {
            name: "_retail_".to_string(),
            wtfs: vec![wtf("A", "R", "C", true), wtf("A", "R", "D", false)],
        }],
    }
}

#[test]
fn selection_becomes_ready_step_by_step() {
    let mut op = Operation::new();
    assert!(!op.is_ready());
    op.set_install(Some(sample_install()));
    assert!(!op.is_ready());

    let ver = Version { name: "_retail_".to_string(), wtfs: vec![] };
    assert_eq!(op.update(Message::SrcVer(ver.clone())), Command::Nothing);
    assert_eq!(op.update(Message::SrcWtf(wtf("A", "R", "C", true))), Command::Nothing);
    assert_eq!(op.update(Message::DstVer(ver)), Command::Nothing);
    assert!(!op.is_ready());
    assert_eq!(op.update(Message::DstWtf(wtf("A", "R", "D", false))), Command::Nothing);
    assert!(op.is_ready());
}

#[test]
fn selection_reset_clears_only_its_side() {
    let mut op = Operation::new();
    op.set_install(Some(sample_install()));
    let ver = Version { name: "_retail_".to_string(), wtfs: vec![] };
    op.update(Message::SrcVer(ver.clone()));
    op.update(Message::SrcWtf(wtf("A", "R", "C", true)));
    op.update(Message::DstVer(ver));
    op.update(Message::DstWtf(wtf("A", "R", "D", false)));

    assert_eq!(op.update(Message::ResetSrc), Command::Nothing);
    assert!(op.src_ver.is_none());
    assert!(op.src_wtf.is_none());
    assert!(op.dst_ver.is_some());
    assert!(op.dst_wtf.is_some());

    assert_eq!(op.update(Message::ResetDst), Command::Nothing);
    assert!(op.dst_ver.is_none());
    assert!(op.dst_wtf.is_none());
}

#[test]
fn selection_install_and_copy_yield_commands() {
    let mut op = Operation::new();
    assert_eq!(op.update(Message::Install), Command::PickInstall);
    assert_eq!(op.update(Message::Copy), Command::RunCopy);
}

#[test]
fn selection_new_install_clears_choices() {
    let mut op = Operation::new();
    op.set_install(Some(sample_install()));
    let ver = Version { name: "_retail_".to_string(), wtfs: vec![] };
    op.update(Message::SrcVer(ver.clone()));
    op.update(Message::SrcWtf(wtf("A", "R", "C", true)));
    op.update(Message::DstVer(ver));
    op.update(Message::DstWtf(wtf("A", "R", "D", false)));

    // a failed pick changes nothing
    assert!(!op.set_install(None));
    assert!(op.is_ready());

    // a fresh install replaces everything chosen
    assert!(op.set_install(Some(sample_install())));
    assert!(op.install.is_some());
    assert!(op.src_ver.is_none() && op.src_wtf.is_none());
    assert!(op.dst_ver.is_none() && op.dst_wtf.is_none());
}

#[test]
fn selection_copy_logs_are_recorded() {
    let mut op = Operation::new();
    op.set_copy_logs(vec!["copied a".to_string()]);
    assert_eq!(op.copy_logs, Some(vec!["copied a".to_string()]));
}

#[test]
fn display_version_names() {
    let name = |n: &str| Version { name: n.to_string(), wtfs: vec![] }.display_name();
    assert_eq!(name("_retail_"), "Retail");
    assert_eq!(name("_ptr_"), "Retail PTR");
    assert_eq!(name("_classic_"), "Classic");
    assert_eq!(name("_classic_era_"), "Classic Era");
    assert_eq!(name("_classic_ptr_"), "Classic PTR");
    assert_eq!(name("_something_else_"), "_something_else_");
}

#[test]
fn display_profile_label() {
    assert_eq!(wtf("ACC", "Proudmoore", "Thrall", true).label(), "Thrall - Proudmoore");
}

#[test]
fn display_source_list_excludes_profiles_without_saved_variables() {
    let ver = Version {
        name: "_retail_".to_string(),
        wtfs: vec![wtf("A", "R", "C", true), wtf("A", "R", "D", false)],
    };
    let sources = ver.selectable_wtfs(true);
    assert_eq!(sources.len(), 1);
    assert_eq!(sources[0].character, "C");
    let destinations = ver.selectable_wtfs(false);
    assert_eq!(destinations.len(), 2);
}

#[test]
fn display_bundled_fonts() {
    assert_eq!(
        fonts(),
        vec![
            "assets/fonts/B612-Regular.ttf",
            "assets/fonts/B612-Bold.ttf",
            "assets/fonts/B612Mono-Regular.ttf",
            "assets/fonts/B612Mono-Bold.ttf",
        ]
    );
}

#[test]
fn default_install_dirs_per_platform() {
    assert_eq!(
        default_install_dir("windows", None),
        Some("C:\\Program Files (x86)\\World of Warcraft".to_string())
    );
    assert_eq!(
        default_install_dir("macos", None),
        Some("/Applications/World of Warcraft".to_string())
    );
    assert_eq!(
        default_install_dir("linux", Some("/home/ada")),
        Some(
            "/home/ada/Games/battlenet/drive_c/Program Files (x86)/World of Warcraft".to_string()
        )
    );
    assert_eq!(default_install_dir("linux", None), None);
    assert_eq!(default_install_dir("freebsd", Some("/home/ada")), None);
}
