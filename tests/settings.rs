use nexus_badges::badge_options::{BadgeFormat, BadgePreferences, BadgeStyle, Color, DownloadCount};
use nexus_badges::cli::{Commands, Mod, ModFlags, SetArgs, Workflow};
use nexus_badges::commands::Modify;
use nexus_badges::error::Error;
use nexus_badges::json_data::Input;
use nexus_badges::paths::{camel_case, init_paths, parent_dir, FilePaths, Platform};
use nexus_badges::{
    gist_replaced, verify_gist, verify_git, verify_nexus, verify_repo, verify_repo_from,
    version_message, StartupVars, GIST_NOT_SETUP, MISSING_GIT_TOKEN, MISSING_OWNER, MISSING_REPO,
};

fn empty_args() -> SetArgs {
    SetArgs {
        git: None,
        nexus: None,
        gist: None,
        owner: None,
        repo: None,
        style: None,
        count: None,
        label: None,
        label_color: None,
        color: None,
        format: None,
        modified: ModFlags::default(),
    }
}

fn vars() -> StartupVars {
    StartupVars {
        nexus_key: "nk".to_string(),
        git_token: "gt".to_string(),
        gist_id: "old".to_string(),
        owner: "me".to_string(),
        repo: "repo".to_string(),
    }
}

#[test]
fn registry_rejects_duplicates_and_unknown_removals() {
    let mut mods = vec![Mod { domain: "skyrim".to_string(), mod_id: 1 }];
    assert!(mods.add_mod(Mod { domain: "skyrim".to_string(), mod_id: 2 }).is_ok());
    assert!(matches!(
        mods.add_mod(Mod { domain: "skyrim".to_string(), mod_id: 1 }),
        Err(Error::AlreadyTracked)
    ));
    assert_eq!(mods.len(), 2);
    assert!(matches!(
        mods.remove_mod(&Mod { domain: "oblivion".to_string(), mod_id: 1 }),
        Err(Error::NotTracked)
    ));
    assert!(mods.remove_mod(&Mod { domain: "skyrim".to_string(), mod_id: 1 }).is_ok());
    assert_eq!(mods, vec![Mod { domain: "skyrim".to_string(), mod_id: 2 }]);
}

#[test]
fn input_update_swaps_gist_id_and_flags_credentials() {
    let mut input = Input::from(&vars(), Vec::new());
    let mut args = empty_args();
    args.git = Some("new-token".to_string());
    args.gist = Some("new-gist".to_string());
    assert!(input.update(&mut args));
    assert_eq!(input.git_token, "new-token");
    assert_eq!(input.gist_id, "new-gist");
    assert_eq!(input.nexus_key, "nk");
    assert_eq!(args.gist.as_deref(), Some("old"));
    assert!(args.modified.git_token && args.modified.gist_id && !args.modified.nexus_key);

    let mut only_repo = empty_args();
    only_repo.repo = Some("fork".to_string());
    assert!(input.update(&mut only_repo));
    assert_eq!(input.repo, "fork");
    assert!(!only_repo.modified.any());
    assert!(!input.update(&mut empty_args()));
}

#[test]
fn preference_update_reports_changes() {
    let mut prefs = BadgePreferences::default();
    let mut args = empty_args();
    assert!(!prefs.update(&mut args));
    args.style = Some(BadgeStyle::Plastic);
    args.count = Some(DownloadCount::Unique);
    args.format = Some(BadgeFormat::Rst);
    args.label = Some("Downloads".to_string());
    args.color = Some(Color::from_str("abcdef").unwrap());
    assert!(prefs.update(&mut args));
    assert_eq!(prefs.style, BadgeStyle::Plastic);
    assert_eq!(prefs.count, DownloadCount::Unique);
    assert_eq!(prefs.format, BadgeFormat::Rst);
    assert_eq!(prefs.label, "Downloads");
    assert_eq!(prefs.color.0.as_deref(), Some("#abcdef"));
    assert!(prefs.label_color.is_none());
}

#[test]
fn verifications_name_the_missing_setting() {
    let mut v = vars();
    assert_eq!(verify_nexus(&v).unwrap(), false);
    assert!(verify_git(&v).is_ok());
    assert_eq!(verify_gist(&v).unwrap(), "https://api.github.com/gists/old");
    assert!(verify_repo(&v).is_ok());
    v.git_token.clear();
    assert_eq!(verify_nexus(&v).unwrap(), true);
    assert!(matches!(verify_git(&v), Err(Error::Missing(m)) if m == MISSING_GIT_TOKEN));
    v.gist_id.clear();
    assert!(matches!(verify_gist(&v), Err(Error::NotSetup(m)) if m == GIST_NOT_SETUP));
    v.nexus_key.clear();
    assert!(matches!(verify_nexus(&v), Err(Error::Missing(_))));
    assert!(matches!(verify_repo_from("", ""), Err(Error::NotSetup(_))));
    assert!(matches!(verify_repo_from("me", ""), Err(Error::Missing(m)) if m == MISSING_REPO));
    assert!(matches!(verify_repo_from("", "repo"), Err(Error::Missing(m)) if m == MISSING_OWNER));
}

#[test]
fn startup_vars_from_remote_repository() {
    let v = StartupVars::git_api_only("owner/name/extra", "tok".to_string());
    assert_eq!(v.owner, "owner");
    assert_eq!(v.repo, "name/extra");
    assert_eq!(v.git_token, "tok");
    let mut input = Input::from(&vars(), Vec::new());
    let moved = StartupVars::from_input(&mut input);
    assert_eq!(moved.gist_id, "old");
    assert!(input.gist_id.is_empty());
}

#[test]
fn paths_by_platform() {
    let d = FilePaths::default();
    assert_eq!(d.input, "io/input.json");
    assert_eq!(init_paths(Platform::Linux, false, "/home/u").output, "io/output.json");
    let l = init_paths(Platform::Linux, true, "/home/u");
    assert_eq!(l.input, "/home/u/.config/nexus-badges/input.json");
    assert_eq!(l.badges, "/home/u/Documents/badges.md");
    let m = init_paths(Platform::MacOs, true, "/Users/u");
    assert_eq!(m.preferences, "/Users/u/Library/NexusBadges/badge_preferences.json");
    assert_eq!(init_paths(Platform::Windows, true, "C:").badges, "io/badges.md");
    assert_eq!(parent_dir("/a/b/c.json").as_deref(), Some("/a/b"));
    assert_eq!(parent_dir("c.json"), None);
}

#[test]
fn camel_case_of_names() {
    assert_eq!(camel_case("nexus_badges", true), "NexusBadges");
    assert_eq!(camel_case("  --Some name-here__ ", false), "someNameHere");
    assert_eq!(camel_case("A", true), "A");
}

#[test]
fn names_and_messages() {
    assert_eq!(Commands::Init.name(), "init");
    assert_eq!(Commands::UpdateCacheKey { old: None, new: "k".to_string() }.name(), "repo-variable");
    assert_eq!(Workflow::Disable.name(), "disable");
    assert_eq!(version_message("1.2.0", "1.1.0", "update!".to_string()), Some("update!".to_string()));
    assert_eq!(version_message("1.1.0", "1.1.0", "update!".to_string()), None);
    assert!(gist_replaced("a", "b"));
    assert!(!gist_replaced("", "b"));
    assert!(!gist_replaced("b", "b"));
    assert_eq!(Error::DuplicateIdentity("Foo".to_string()).msg(), "duplicate tracked mod: Foo");
}

#[test]
fn messages_carry_the_reported_text() {
    assert_eq!(Error::Io("disk full".to_string()).msg(), "disk full");
    assert_eq!(Error::BadResponse("{\"message\":\"Not Found\"}".to_string()).msg(), "{\"message\":\"Not Found\"}");
    assert_eq!(Error::InvalidKey.msg(), "Invalid public key");
    assert_eq!(Error::NotTracked.msg(), "Mod does not exist in the registry");
}
