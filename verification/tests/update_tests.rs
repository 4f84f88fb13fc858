use my_hub::config::manifest::{ProgramEntry, ProgramManifest};
use my_hub::github::client::{check_status, release_url, ApiAsset, ApiRelease, FetchError};
use my_hub::github::release::{Release, ReleaseAsset};
use my_hub::text_map::TextMap;
use my_hub::update::checker::UpdateChecker;
use my_hub::update::state::{DownloadedVersion, InstalledVersion, UpdateState};
use my_hub::update::version::{has_update, parse_version};

fn entry(id: &str, enabled: bool) -> ProgramEntry {
    ProgramEntry {
        id: id.to_string(),
        name: id.to_uppercase(),
        owner: "acme".to_string(),
        repo: id.to_string(),
        executable: format!("{}.exe", id),
        description: String::new(),
        enabled,
    }
}

fn release(tag: &str) -> Release {
    Release {
        tag_name: tag.to_string(),
        name: String::new(),
        body: "notes".to_string(),
        html_url: "https://example.invalid/r".to_string(),
        published_at: "2024-01-01".to_string(),
        assets: vec![ReleaseAsset { name: "a.exe".to_string(), browser_download_url: "https://x/a.exe".to_string(), size: 7 }],
    }
}

fn installed(version: &str) -> InstalledVersion {
    InstalledVersion { version: version.to_string(), installed_at: "t0".to_string() }
}

#[test]
fn text_map_insert_get_remove() {
    let mut m: TextMap<u32> = TextMap::new();
    assert_eq!(m.len(), 0);
    m.insert("a".to_string(), 1);
    m.insert("b".to_string(), 2);
    m.insert("a".to_string(), 3);
    assert_eq!(m.len(), 2);
    assert_eq!(m.get("a"), Some(&3));
    assert_eq!(m.get("b"), Some(&2));
    assert!(m.contains_key("b"));
    assert_eq!(m.remove("b"), Some(2));
    assert_eq!(m.remove("b"), None);
    assert!(!m.contains_key("b"));
    let (k, v) = m.entry(0);
    assert_eq!((k.as_str(), *v), ("a", 3));
    m.clear();
    assert_eq!(m.len(), 0);
}

#[test]
fn parse_version_strips_v_and_suffixes() {
    assert_eq!(parse_version("v1.2.3"), Some("1.2.3".to_string()));
    assert_eq!(parse_version("vv1.2.3"), Some("1.2.3".to_string()));
    assert_eq!(parse_version("1.2.3-beta.1"), Some("1.2.3-beta.1".to_string()));
    assert_eq!(parse_version("v1.2.3-rc_1"), Some("1.2.3".to_string()));
    assert_eq!(parse_version("v1.2"), None);
    assert_eq!(parse_version("release"), None);
}

#[test]
fn has_update_compares_versions() {
    assert!(has_update(Some("1.0.0"), Some("1.1.0")));
    assert!(!has_update(Some("1.1.0"), Some("1.0.0")));
    assert!(!has_update(Some("1.0.0"), Some("1.0.0")));
    assert!(has_update(Some("1.0.0-beta"), Some("1.0.0")));
    assert!(has_update(Some("abc"), Some("abd")));
    assert!(!has_update(Some("abc"), Some("abc")));
    assert!(has_update(None, Some("1.0.0")));
    assert!(!has_update(Some("1.0.0"), None));
    assert!(!has_update(None, None));
}

#[test]
fn state_ignore_skip_uninstall() {
    let mut s = UpdateState::default();
    assert!(!s.is_ignored("a"));
    assert!(s.ignore_program("a"));
    assert!(s.is_ignored("a"));
    assert!(!s.ignore_program("a"));
    assert_eq!(s.ignored_programs, vec!["a".to_string()]);

    assert!(!s.is_version_skipped("a", "1.0.0"));
    s.skip_version("a".to_string(), "1.0.0".to_string());
    assert!(s.is_version_skipped("a", "1.0.0"));
    assert!(!s.is_version_skipped("a", "1.0.1"));
    s.skip_version("a".to_string(), "1.0.1".to_string());
    assert!(!s.is_version_skipped("a", "1.0.0"));
    assert!(s.is_version_skipped("a", "1.0.1"));

    assert!(!s.uninstall("a"));
    s.installed_versions.insert("a".to_string(), installed("1.0.0"));
    s.downloaded_versions.insert("b".to_string(), DownloadedVersion { version: "v2".to_string(), path: "/p".to_string() });
    assert!(s.uninstall("a"));
    assert!(s.installed_versions.get("a").is_none());
    assert!(s.uninstall("b"));
    assert!(s.downloaded_versions.get("b").is_none());
}

#[test]
fn check_one_disabled_fetch_failed_and_success() {
    let manifest = ProgramManifest { program: vec![entry("a", true), entry("b", false)] };
    let mut state = UpdateState::default();
    state.installed_versions.insert("a".to_string(), installed("1.0.0"));
    state.ignore_program("b");
    let checker = UpdateChecker::new(&manifest, &state);

    let ok = checker.check_one(&manifest.program[0], Some(Ok(release("v1.2.0"))));
    assert_eq!(ok.program_id, "a");
    assert_eq!(ok.current_version.as_deref(), Some("1.0.0"));
    assert_eq!(ok.latest_version.as_deref(), Some("1.2.0"));
    assert!(ok.has_update);
    assert!(!ok.ignored);
    assert_eq!(ok.release.as_ref().map(|r| r.tag_name.clone()), Some("v1.2.0".to_string()));

    let failed = checker.check_one(&manifest.program[0], Some(Err(FetchError::Transport("down".to_string()))));
    assert!(failed.latest_version.is_none());
    assert!(!failed.has_update);
    assert!(failed.release.is_none());
    assert_eq!(failed.current_version.as_deref(), Some("1.0.0"));

    let disabled = checker.check_one(&manifest.program[1], Some(Ok(release("v9.0.0"))));
    assert!(disabled.latest_version.is_none());
    assert!(!disabled.has_update);
    assert!(disabled.ignored);
    assert!(disabled.current_version.is_none());
    assert!(!UpdateChecker::needs_fetch(&manifest.program[1]));
    assert!(UpdateChecker::needs_fetch(&manifest.program[0]));
}

#[test]
fn check_all_one_result_per_program() {
    let manifest = ProgramManifest { program: vec![entry("a", true), entry("b", true)] };
    let state = UpdateState::default();
    let checker = UpdateChecker::new(&manifest, &state);
    let results = checker.check_all(vec![Some(Ok(release("1.0.0"))), None]);
    assert_eq!(results.len(), 2);
    assert_eq!(results[0].program_id, "a");
    assert!(results[0].has_update);
    assert_eq!(results[1].program_id, "b");
    assert!(!results[1].has_update);
    assert!(results[1].latest_version.is_none());
}

#[test]
fn release_from_api_fills_absent_fields() {
    let api = ApiRelease {
        tag_name: "v1".to_string(),
        name: None,
        body: Some("b".to_string()),
        html_url: "u".to_string(),
        published_at: None,
        assets: vec![ApiAsset { name: "x".to_string(), browser_download_url: "y".to_string(), size: 3 }],
    };
    let r = Release::from_api(api);
    assert_eq!(r.tag_name, "v1");
    assert_eq!(r.name, "");
    assert_eq!(r.body, "b");
    assert_eq!(r.published_at, "");
    assert_eq!(r.assets.len(), 1);
    assert_eq!(r.assets[0].browser_download_url, "y");
    assert_eq!(r.assets[0].size, 3);
    assert_eq!(r.asset_position("x"), Some(0));
    assert_eq!(r.asset_position("z"), None);
    let d = r.duplicate();
    assert_eq!(d.assets[0].name, "x");
}

#[test]
fn release_url_and_status() {
    assert_eq!(release_url("acme", "tool"), "https://api.github.com/repos/acme/tool/releases/latest");
    assert!(check_status(200, "o", "r").is_ok());
    assert!(check_status(204, "o", "r").is_ok());
    assert!(matches!(check_status(404, "o", "r"), Err(FetchError::NoReleases { ref owner, ref repo }) if owner == "o" && repo == "r"));
    assert!(matches!(check_status(500, "o", "r"), Err(FetchError::Status { code: 500, .. })));
    assert!(matches!(check_status(301, "o", "r"), Err(FetchError::Status { code: 301, .. })));
}
