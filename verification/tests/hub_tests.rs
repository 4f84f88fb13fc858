use my_hub::app_state::AppState;
use my_hub::config::manifest::{ProgramEntry, ProgramManifest};
use my_hub::config::settings::Settings;
use my_hub::github::release::{Release, ReleaseAsset};
use my_hub::paths::AppPath;
use my_hub::platform::{
    app_data_dir, autostart_value_name, is_autostart_enabled, run_key_path, self_update_script, set_autostart,
    staged_exe_path, update_script_path, AutostartChange, PlatformError, RunEntry,
};
use my_hub::ui_model::{
    is_self, plan_update, record_check_results, record_download, record_installed_version, refresh_program_list,
    resolve_download_target, resolve_program_path, select_update_dialog, ProgramStatus, UpdatePlanError,
};
use my_hub::update::state::{DownloadedVersion, InstalledVersion, ProgramUpdateInfo, UpdateState};

fn entry(id: &str, enabled: bool) -> ProgramEntry {
    ProgramEntry {
        id: id.to_string(),
        name: format!("{} app", id),
        owner: "acme".to_string(),
        repo: id.to_string(),
        executable: format!("{}.exe", id),
        description: format!("about {}", id),
        enabled,
    }
}

fn release(tag: &str, asset: &str) -> Release {
    Release {
        tag_name: tag.to_string(),
        name: String::new(),
        body: "notes".to_string(),
        html_url: "https://example.invalid/r".to_string(),
        published_at: "2024-01-01".to_string(),
        assets: vec![ReleaseAsset {
            name: asset.to_string(),
            browser_download_url: format!("https://dl/{}", asset),
            size: 7,
        }],
    }
}

fn info(id: &str, current: Option<&str>, latest: Option<&str>, has_update: bool, ignored: bool, rel: Option<Release>) -> ProgramUpdateInfo {
    ProgramUpdateInfo {
        program_id: id.to_string(),
        current_version: current.map(|s| s.to_string()),
        latest_version: latest.map(|s| s.to_string()),
        has_update,
        ignored,
        release: rel,
    }
}

fn installed(version: &str) -> InstalledVersion {
    InstalledVersion { version: version.to_string(), installed_at: "t0".to_string() }
}

fn state(programs: Vec<ProgramEntry>) -> AppState {
    AppState::new(
        ProgramManifest { program: programs },
        Settings::defaults("/dl".to_string()),
        UpdateState::default(),
        AppPath::from_text("/cfg/my-hub"),
    )
}

#[test]
fn app_state_paths() {
    let s = state(vec![]);
    let p = s.settings_path();
    assert_eq!(p.root, "/cfg/my-hub");
    assert_eq!(p.parts, vec!["settings.toml".to_string()]);
    assert_eq!(p.render('/'), "/cfg/my-hub/settings.toml");
    assert_eq!(s.state_path().render('/'), "/cfg/my-hub/state.json");
    assert_eq!(s.check_results.len(), 0);
}

#[test]
fn platform_data_dir_and_autostart() {
    let d = app_data_dir(Some(AppPath::from_text("/home/u/.config"))).ok().unwrap();
    assert_eq!(d.render('/'), "/home/u/.config/my-hub");
    assert!(matches!(app_data_dir(None), Err(PlatformError::NoConfigDir)));

    assert!(matches!(set_autostart(true, "C:\\hub.exe", false), Err(PlatformError::AutostartUnsupported)));
    match set_autostart(true, "C:\\hub.exe", true) {
        Ok(AutostartChange::Write { name, command }) => {
            assert_eq!(name, "my-hub");
            assert_eq!(command, "\"C:\\hub.exe\"");
        }
        _ => panic!("expected a write"),
    }
    assert!(matches!(set_autostart(false, "x", true), Ok(AutostartChange::Remove { ref name }) if name == "my-hub"));
    assert_eq!(autostart_value_name(), "my-hub");
    assert_eq!(run_key_path(), "Software\\Microsoft\\Windows\\CurrentVersion\\Run");

    assert!(is_autostart_enabled(RunEntry::Value("\"C:\\hub.exe\"".to_string()), "C:\\hub.exe").ok().unwrap());
    assert!(!is_autostart_enabled(RunEntry::Value("\"C:\\other.exe\"".to_string()), "C:\\hub.exe").ok().unwrap());
    assert!(!is_autostart_enabled(RunEntry::KeyMissing, "x").ok().unwrap());
    assert!(!is_autostart_enabled(RunEntry::ValueMissing, "x").ok().unwrap());
    assert!(!is_autostart_enabled(RunEntry::Unsupported, "x").ok().unwrap());
    assert!(matches!(is_autostart_enabled(RunEntry::Failed("denied".to_string()), "x"), Err(PlatformError::Registry(ref m)) if m == "denied"));
}

#[test]
fn self_update_script_and_paths() {
    let dir = AppPath::from_text("C:\\hub");
    assert_eq!(staged_exe_path(&dir).render('\\'), "C:\\hub\\my-hub-new.exe");
    assert_eq!(update_script_path(&dir).render('\\'), "C:\\hub\\my-hub-update.bat");
    let script = self_update_script("C:\\hub\\my-hub-new.exe", "C:\\hub\\my-hub.exe");
    assert_eq!(
        script,
        "@echo off\r\ntimeout /t 2 /nobreak >nul\r\nmove /y \"C:\\hub\\my-hub-new.exe\" \"C:\\hub\\my-hub.exe\"\r\nstart \"\" \"C:\\hub\\my-hub.exe\"\r\ndel \"%~f0\"\r\n"
    );
}

#[test]
fn program_rows_statuses() {
    let mut s = state(vec![entry("a", true), entry("b", true), entry("c", false), entry("d", true), entry("my-hub", true), entry("e", true)]);
    s.update_state.installed_versions.insert("a".to_string(), installed("1.0.0"));
    s.update_state.installed_versions.insert("b".to_string(), installed("1.0.0"));
    s.update_state.installed_versions.insert("my-hub".to_string(), installed("0.1.0"));
    s.update_state.installed_versions.insert("e".to_string(), installed("2.0.0"));
    s.update_state.ignore_program("d");
    s.update_state.skip_versions.insert("b".to_string(), "2.0.0".to_string());
    let results = vec![
        info("a", Some("1.0.0"), Some("1.1.0"), true, false, Some(release("v1.1.0", "a.exe"))),
        info("b", Some("1.0.0"), Some("2.0.0"), true, false, Some(release("v2.0.0", "b.exe"))),
        info("my-hub", Some("0.1.0"), Some("0.1.0"), false, false, None),
        info("e", Some("2.0.0"), None, false, false, None),
    ];
    let rows = refresh_program_list(&s, Some(&results));
    assert_eq!(rows.len(), 6);
    assert_eq!(rows[0].status, ProgramStatus::UpdateAvailable);
    assert!(rows[0].has_update);
    assert_eq!(rows[0].latest_version, "1.1.0");
    assert_eq!(rows[0].description, "about a");
    assert_eq!(rows[1].status, ProgramStatus::UpToDate);
    assert!(!rows[1].has_update);
    assert_eq!(rows[2].status, ProgramStatus::Disabled);
    assert_eq!(rows[3].status, ProgramStatus::Ignored);
    assert!(rows[3].ignored);
    assert!(rows[4].is_self);
    assert_eq!(rows[4].status.label(), "Up to date");
    assert!(rows[5].check_failed);
    assert_eq!(rows[5].current_version, "2.0.0");

    let no_results = refresh_program_list(&s, None);
    assert_eq!(no_results[0].latest_version, "");
    assert!(no_results[0].check_failed);
    assert_eq!(no_results[2].status.label(), "Disabled");
}

#[test]
fn rows_fall_back_to_cached_results() {
    let mut s = state(vec![entry("a", true)]);
    s.update_state.installed_versions.insert("a".to_string(), installed("1.0.0"));
    let results = vec![info("a", Some("1.0.0"), Some("1.1.0"), true, false, None)];
    record_check_results(&mut s, &results, "2024-05-01T00:00:00Z".to_string());
    assert_eq!(s.update_state.last_check.as_deref(), Some("2024-05-01T00:00:00Z"));
    assert_eq!(s.check_results.len(), 1);
    let rows = refresh_program_list(&s, Some(&vec![]));
    assert_eq!(rows[0].latest_version, "1.1.0");
    assert_eq!(rows[0].status.label(), "Update available");
}

#[test]
fn record_check_results_keeps_last_duplicate() {
    let mut s = state(vec![entry("a", true)]);
    let results = vec![
        info("a", None, Some("1.0.0"), true, false, None),
        info("a", None, Some("2.0.0"), true, false, None),
    ];
    record_check_results(&mut s, &results, "now".to_string());
    assert_eq!(s.check_results.get("a").unwrap().latest_version.as_deref(), Some("2.0.0"));
}

#[test]
fn dialog_picks_first_unskipped_unignored_update() {
    let mut s = state(vec![entry("a", true), entry("b", true), entry("c", true)]);
    s.update_state.skip_versions.insert("a".to_string(), "1.1.0".to_string());
    let results = vec![
        info("a", Some("1.0.0"), Some("1.1.0"), true, false, Some(release("v1.1.0", "a.exe"))),
        info("b", Some("1.0.0"), Some("1.2.0"), true, true, Some(release("v1.2.0", "b.exe"))),
        info("c", None, Some("3.0.0"), true, false, Some(release("v3.0.0", "c.exe"))),
    ];
    let d = select_update_dialog(&s, &results).unwrap();
    assert_eq!(d.program_id, "c");
    assert_eq!(d.program_name, "c app");
    assert_eq!(d.current_version, "");
    assert_eq!(d.latest_version, "3.0.0");
    assert_eq!(d.published_at, "2024-01-01");
    assert_eq!(d.release_notes, "notes");
    assert!(!d.ignored);

    let none = vec![info("a", Some("1.0.0"), Some("1.0.0"), false, false, None)];
    assert!(select_update_dialog(&s, &none).is_none());
    // the first wanted result has no release: no dialog, even if a later one would
    let first_without_release = vec![
        info("c", None, Some("3.0.0"), true, false, None),
        info("b", None, Some("1.2.0"), true, false, Some(release("v1.2.0", "b.exe"))),
    ];
    assert!(select_update_dialog(&s, &first_without_release).is_none());
}

#[test]
fn plan_update_errors_and_success() {
    let mut s = state(vec![entry("a", true), entry("my-hub", true)]);
    assert!(matches!(plan_update(&s, "zz", None), Err(UpdatePlanError::UnknownProgram)));
    assert!(matches!(plan_update(&s, "a", None), Err(UpdatePlanError::NoCachedRelease)));
    let results = vec![
        info("a", None, Some("1.0.0"), true, false, Some(release("v1.0.0", "other.exe"))),
        info("my-hub", None, Some("0.2.0"), true, false, Some(release("v0.2.0", "my-hub.exe"))),
    ];
    record_check_results(&mut s, &results, "now".to_string());
    assert!(matches!(plan_update(&s, "a", None), Err(UpdatePlanError::NoMatchingAsset)));
    let plan = plan_update(&s, "my-hub", None).ok().unwrap();
    assert!(plan.is_self);
    assert_eq!(plan.url, "https://dl/my-hub.exe");
    assert_eq!(plan.asset_name, "my-hub.exe");
    assert_eq!(plan.tag, "v0.2.0");
    assert_eq!(plan.target_dir.render('/'), "/dl");
    s.settings.move_to_exe_dir = true;
    assert!(matches!(plan_update(&s, "my-hub", None), Err(UpdatePlanError::Target(PlatformError::ExeDirUnknown))));
    let plan2 = plan_update(&s, "my-hub", Some(AppPath::from_text("/opt/hub"))).ok().unwrap();
    assert_eq!(plan2.target_dir.render('/'), "/opt/hub/installed");
    assert!(is_self("my-hub"));
    assert!(!is_self("a"));
}

#[test]
fn download_target_and_program_path() {
    assert_eq!(resolve_download_target(false, "/dl", None).ok().unwrap().render('/'), "/dl");
    assert_eq!(resolve_download_target(true, "/dl", Some(AppPath::from_text("/x"))).ok().unwrap().render('/'), "/x/installed");
    assert!(matches!(resolve_download_target(true, "/dl", None), Err(PlatformError::ExeDirUnknown)));

    let mut s = state(vec![entry("a", true)]);
    let e = entry("a", true);
    assert_eq!(resolve_program_path(&s, &e, None).render('/'), "/dl/a.exe");
    s.settings.move_to_exe_dir = true;
    assert_eq!(resolve_program_path(&s, &e, Some(AppPath::from_text("/x"))).render('/'), "/x/installed/a.exe");
    assert_eq!(resolve_program_path(&s, &e, None).render('/'), "/dl/a.exe");
    s.update_state.downloaded_versions.insert("a".to_string(), DownloadedVersion { version: "v1".to_string(), path: "/tmp/a.exe".to_string() });
    assert_eq!(resolve_program_path(&s, &e, None).render('/'), "/tmp/a.exe");
}

#[test]
fn recording_installs_and_downloads() {
    let mut s = state(vec![entry("a", true), entry("b", true)]);
    record_installed_version(&mut s, "a", "vv1.0.0", "t1".to_string());
    let a = s.update_state.installed_versions.get("a").unwrap();
    assert_eq!(a.version, "1.0.0");
    assert_eq!(a.installed_at, "t1");

    let results = vec![info("b", None, Some("2.5.0"), true, false, None)];
    record_check_results(&mut s, &results, "now".to_string());
    record_download(&mut s, "b", "v2.5.0-final", "/dl/b.exe".to_string(), "t2".to_string());
    let d = s.update_state.downloaded_versions.get("b").unwrap();
    assert_eq!(d.version, "v2.5.0-final");
    assert_eq!(d.path, "/dl/b.exe");
    assert_eq!(s.update_state.installed_versions.get("b").unwrap().version, "2.5.0");
    assert_eq!(s.update_state.installed_versions.get("a").unwrap().version, "1.0.0");
}

#[test]
fn uninstalled_program_shows_not_installed() {
    let mut s = state(vec![entry("a", true)]);
    s.update_state.installed_versions.insert("a".to_string(), installed("1.0.0"));
    s.update_state.downloaded_versions.insert("a".to_string(), DownloadedVersion { version: "v1".to_string(), path: "/p".to_string() });
    assert_eq!(refresh_program_list(&s, None)[0].status, ProgramStatus::Downloaded);
    assert!(s.update_state.uninstall("a"));
    let rows = refresh_program_list(&s, None);
    assert_eq!(rows[0].status, ProgramStatus::NotInstalled);
    assert_eq!(rows[0].current_version, "");
    assert!(!rows[0].check_failed);
    assert_eq!(rows[0].status.label(), "Not installed");
}
