//! User settings: start-up behaviour, download location, access token, theme.

use vstd::prelude::*;
use crate::paths::{rendered, AppPath};
use crate::text::owned;

verus! {

/// The user's custom colours, as `#rrggbb` text.
#[derive(Clone, Debug)]
pub struct CustomColors {
    /// Accent colour.
    pub accent: String,
    /// Background colour.
    pub background: String,
    /// Text colour.
    pub text: String,
}

impl Default for CustomColors {
    /// The built-in palette: blue accent on a near-black background with light text.
    fn default() -> (c: Self)
        ensures
            c.accent@ == "#4a9eff"@,
            c.background@ == "#1a1a1a"@,
            c.text@ == "#e0e0e0"@,
    {
        CustomColors { accent: owned("#4a9eff"), background: owned("#1a1a1a"), text: owned("#e0e0e0") }
    }
}

/// The user's settings.
#[derive(Clone, Debug)]
pub struct Settings {
    /// Whether to check for updates at start-up.
    pub check_on_startup: bool,
    /// Whether to launch the hub when the user logs in to Windows.
    pub start_with_windows: bool,
    /// Optional GitHub personal access token, for higher rate limits.
    pub github_pat: Option<String>,
    /// Directory where downloaded updates are kept.
    pub download_dir: String,
    /// Whether downloads go to an `installed` folder next to the hub's executable.
    pub move_to_exe_dir: bool,
    /// Theme preference: "Dark", "Light" or "System".
    pub theme: String,
    /// Custom colours.
    pub custom_colors: CustomColors,
}

/// The value `check_on_startup` takes when the settings file does not give it.
pub fn default_true() -> (b: bool)
    ensures
        b,
{
    true
}

/// The theme preference when the settings file does not give one.
pub fn default_theme() -> (t: String)
    ensures
        t@ == "System"@,
{
    owned("System")
}

/// The default download directory: `my-hub/downloads` under the user's cache
/// directory, or `./downloads` when there is no cache directory.
pub fn default_download_dir(cache_dir: Option<AppPath>, separator: char) -> (d: String)
    ensures
        d@ == match cache_dir {
            Some(p) => rendered(p.root@, p.parts_text().push("my-hub"@).push("downloads"@), separator),
            None => "./downloads"@,
        },
{
    match cache_dir {
        Some(p) => p.join("my-hub").join("downloads").render(separator),
        None => owned("./downloads"),
    }
}

impl Settings {
    /// The default settings, with `download_dir` as the download directory:
    /// check at start-up, no autostart, no token, keep downloads where they
    /// land, follow the system theme, built-in colours.
    pub fn defaults(download_dir: String) -> (s: Settings)
        ensures
            s.check_on_startup,
            !s.start_with_windows,
            s.github_pat is None,
            s.download_dir == download_dir,
            !s.move_to_exe_dir,
            s.theme@ == "System"@,
            s.custom_colors.accent@ == "#4a9eff"@,
            s.custom_colors.background@ == "#1a1a1a"@,
            s.custom_colors.text@ == "#e0e0e0"@,
    {
        Settings {
            check_on_startup: true,
            start_with_windows: false,
            github_pat: None,
            download_dir,
            move_to_exe_dir: false,
            theme: default_theme(),
            custom_colors: CustomColors::default(),
        }
    }

    /// Stores the general settings from the settings dialog; an empty token
    /// means no token.
    pub fn apply_general(
        &mut self,
        check_on_startup: bool,
        start_with_windows: bool,
        move_to_exe_dir: bool,
        download_dir: String,
        github_pat: String,
    )
        ensures
            final(self).check_on_startup == check_on_startup,
            final(self).start_with_windows == start_with_windows,
            final(self).move_to_exe_dir == move_to_exe_dir,
            final(self).download_dir == download_dir,
            final(self).github_pat == if github_pat@.len() == 0 {
                None
            } else {
                Some(github_pat)
            },
            final(self).theme == old(self).theme,
            final(self).custom_colors == old(self).custom_colors,
    {
        self.check_on_startup = check_on_startup;
        self.start_with_windows = start_with_windows;
        self.move_to_exe_dir = move_to_exe_dir;
        self.download_dir = download_dir;
        self.github_pat = if github_pat.as_str().is_empty() {
            None
        } else {
            Some(github_pat)
        };
    }

    /// Stores the theme settings from the settings dialog.
    pub fn apply_theme(&mut self, mode: String, accent: String, background: String, text: String)
        ensures
            final(self).theme == mode,
            final(self).custom_colors.accent == accent,
            final(self).custom_colors.background == background,
            final(self).custom_colors.text == text,
            final(self).check_on_startup == old(self).check_on_startup,
            final(self).start_with_windows == old(self).start_with_windows,
            final(self).github_pat == old(self).github_pat,
            final(self).download_dir == old(self).download_dir,
            final(self).move_to_exe_dir == old(self).move_to_exe_dir,
    {
        self.theme = mode;
        self.custom_colors.accent = accent;
        self.custom_colors.background = background;
        self.custom_colors.text = text;
    }
}

} // verus!
