//! Application state: the top-level record that ties the subsystems together.

use vstd::prelude::*;
use crate::config::manifest::ProgramManifest;
use crate::config::settings::Settings;
use crate::paths::AppPath;
use crate::text_map::TextMap;
use crate::update::state::{ProgramUpdateInfo, UpdateState};

verus! {

/// The application state.
#[derive(Debug)]
pub struct AppState {
    /// The manifest: defaults merged with the user's overrides.
    pub manifest: ProgramManifest,
    /// The user's settings.
    pub settings: Settings,
    /// The local update record.
    pub update_state: UpdateState,
    /// The hub's data directory.
    pub app_data_dir: AppPath,
    /// The results of the last update check, by program id; kept in memory only.
    pub check_results: TextMap<ProgramUpdateInfo>,
}

impl AppState {
    /// The state made of the loaded parts, with no check results yet.
    pub fn new(manifest: ProgramManifest, settings: Settings, update_state: UpdateState, app_data_dir: AppPath) -> (s: Self)
        ensures
            s.manifest == manifest,
            s.settings == settings,
            s.update_state == update_state,
            s.app_data_dir == app_data_dir,
            s.check_results@ == Map::<Seq<char>, ProgramUpdateInfo>::empty(),
    {
        AppState { manifest, settings, update_state, app_data_dir, check_results: TextMap::new() }
    }

    /// Where the settings are stored: `settings.toml` in the data directory.
    pub fn settings_path(&self) -> (p: AppPath)
        ensures
            p.root == self.app_data_dir.root,
            p.parts_text() == self.app_data_dir.parts_text().push("settings.toml"@),
    {
        self.app_data_dir.join("settings.toml")
    }

    /// Where the update record is stored: `state.json` in the data directory.
    pub fn state_path(&self) -> (p: AppPath)
        ensures
            p.root == self.app_data_dir.root,
            p.parts_text() == self.app_data_dir.parts_text().push("state.json"@),
    {
        self.app_data_dir.join("state.json")
    }
}

} // verus!
