//! The local update record: installed versions, skipped versions, ignored
//! programs and downloads; and the live result of checking one program.

use vstd::prelude::*;
use crate::github::release::Release;
use crate::text::{owned, text_eq};
use crate::text_map::TextMap;

verus! {

/// The version of a program that is installed, and when it was installed.
#[derive(Clone, Debug)]
pub struct InstalledVersion {
    /// The version.
    pub version: String,
    /// When it was installed (RFC 3339 time).
    pub installed_at: String,
}

/// A downloaded, not yet installed, update of a program.
#[derive(Clone, Debug)]
pub struct DownloadedVersion {
    /// The release tag that was downloaded.
    pub version: String,
    /// Where the file was written.
    pub path: String,
}

/// The local update record.
#[derive(Debug)]
pub struct UpdateState {
    /// Program id to installed version.
    pub installed_versions: TextMap<InstalledVersion>,
    /// Program id to a version the user chose to skip.
    pub skip_versions: TextMap<String>,
    /// Ids of programs the user chose to ignore entirely.
    pub ignored_programs: Vec<String>,
    /// Program id to a downloaded update.
    pub downloaded_versions: TextMap<DownloadedVersion>,
    /// Time of the last update check (RFC 3339), if any.
    pub last_check: Option<String>,
}

/// The result of checking one program for updates; computed, not stored.
#[derive(Clone, Debug)]
pub struct ProgramUpdateInfo {
    /// The program's id.
    pub program_id: String,
    /// The installed version, if any.
    pub current_version: Option<String>,
    /// The latest published version, when the check succeeded and its tag holds one.
    pub latest_version: Option<String>,
    /// Whether the latest version is an update over the installed one.
    pub has_update: bool,
    /// Whether the user ignores the program.
    pub ignored: bool,
    /// The latest release, when the check succeeded.
    pub release: Option<Release>,
}

/// Whether two optional releases are both absent or hold the same release.
pub open spec fn same_release(a: Option<Release>, b: Option<Release>) -> bool {
    match (a, b) {
        (Some(x), Some(y)) => x.same_as(&y),
        (None, None) => true,
        _ => false,
    }
}

impl ProgramUpdateInfo {
    /// Whether `other` holds the same result.
    pub open spec fn same_as(&self, other: &ProgramUpdateInfo) -> bool {
        &&& self.program_id == other.program_id
        &&& self.current_version == other.current_version
        &&& self.latest_version == other.latest_version
        &&& self.has_update == other.has_update
        &&& self.ignored == other.ignored
        &&& same_release(self.release, other.release)
    }

    /// An exact copy of this result.
    pub fn duplicate(&self) -> (r: ProgramUpdateInfo)
        ensures
            r.same_as(self),
    {
        ProgramUpdateInfo {
            program_id: self.program_id.clone(),
            current_version: self.current_version.clone(),
            latest_version: self.latest_version.clone(),
            has_update: self.has_update,
            ignored: self.ignored,
            release: match &self.release {
                Some(r) => Some(r.duplicate()),
                None => None,
            },
        }
    }
}

impl Default for UpdateState {
    /// An empty record: nothing installed, skipped, ignored or downloaded, never checked.
    fn default() -> (s: Self)
        ensures
            s.installed_versions@ == Map::<Seq<char>, InstalledVersion>::empty(),
            s.skip_versions@ == Map::<Seq<char>, String>::empty(),
            s.ignored_programs@.len() == 0,
            s.downloaded_versions@ == Map::<Seq<char>, DownloadedVersion>::empty(),
            s.last_check is None,
    {
        UpdateState {
            installed_versions: TextMap::new(),
            skip_versions: TextMap::new(),
            ignored_programs: Vec::new(),
            downloaded_versions: TextMap::new(),
            last_check: None,
        }
    }
}

impl UpdateState {
    /// The ids of the ignored programs, as text.
    pub open spec fn ignored_ids(&self) -> Seq<Seq<char>> {
        self.ignored_programs@.map_values(|p: String| p@)
    }

    /// Whether the user ignores program `id`.
    pub open spec fn ignores(&self, id: Seq<char>) -> bool {
        self.ignored_ids().contains(id)
    }

    /// Whether the user skips version `version` of program `id`.
    pub open spec fn skips(&self, id: Seq<char>, version: Seq<char>) -> bool {
        self.skip_versions@.contains_key(id) && self.skip_versions@[id]@ == version
    }

    /// Whether the user ignores program `program_id`.
    pub fn is_ignored(&self, program_id: &str) -> (r: bool)
        ensures
            r == self.ignores(program_id@),
    {
        let mut i: usize = 0;
        while i < self.ignored_programs.len()
            invariant
                i <= self.ignored_programs@.len(),
                forall|m: int| 0 <= m < i ==> self.ignored_ids()[m] != program_id@,
            decreases self.ignored_programs@.len() - i,
        {
            if text_eq(self.ignored_programs[i].as_str(), program_id) {
                assert(self.ignored_ids()[i as int] == program_id@);
                return true;
            }
            i += 1;
        }
        false
    }

    /// Whether the user skips version `version` of program `program_id`.
    pub fn is_version_skipped(&self, program_id: &str, version: &str) -> (r: bool)
        ensures
            r == self.skips(program_id@, version@),
    {
        match self.skip_versions.get(program_id) {
            Some(v) => text_eq(v.as_str(), version),
            None => false,
        }
    }

    /// Records that the user skips `version` of program `program_id`,
    /// replacing any version skipped before.
    pub fn skip_version(&mut self, program_id: String, version: String)
        ensures
            final(self).skip_versions@ == old(self).skip_versions@.insert(program_id@, version),
            final(self).skips(program_id@, version@),
            final(self).installed_versions@ == old(self).installed_versions@,
            final(self).ignored_programs == old(self).ignored_programs,
            final(self).downloaded_versions@ == old(self).downloaded_versions@,
            final(self).last_check == old(self).last_check,
    {
        self.skip_versions.insert(program_id, version);
    }

    /// Records that the user ignores program `program_id`; returns whether it
    /// was not ignored before. Ignoring twice changes nothing.
    pub fn ignore_program(&mut self, program_id: &str) -> (added: bool)
        ensures
            added == !old(self).ignores(program_id@),
            final(self).ignored_ids() == if added {
                old(self).ignored_ids().push(program_id@)
            } else {
                old(self).ignored_ids()
            },
            final(self).ignores(program_id@),
            final(self).installed_versions@ == old(self).installed_versions@,
            final(self).skip_versions@ == old(self).skip_versions@,
            final(self).downloaded_versions@ == old(self).downloaded_versions@,
            final(self).last_check == old(self).last_check,
    {
        if self.is_ignored(program_id) {
            false
        } else {
            let ghost before = self.ignored_programs@;
            self.ignored_programs.push(owned(program_id));
            proof {
                assert(self.ignored_ids() =~= old(self).ignored_ids().push(program_id@));
                assert(self.ignored_ids()[before.len() as int] == program_id@);
            }
            true
        }
    }

    /// Forgets what is recorded as installed or downloaded for program
    /// `program_id`; returns whether anything was recorded.
    pub fn uninstall(&mut self, program_id: &str) -> (removed: bool)
        ensures
            removed == (old(self).installed_versions@.contains_key(program_id@)
                || old(self).downloaded_versions@.contains_key(program_id@)),
            final(self).installed_versions@ == old(self).installed_versions@.remove(program_id@),
            final(self).downloaded_versions@ == old(self).downloaded_versions@.remove(program_id@),
            final(self).skip_versions@ == old(self).skip_versions@,
            final(self).ignored_programs == old(self).ignored_programs,
            final(self).last_check == old(self).last_check,
    {
        let a = self.installed_versions.remove(program_id);
        let b = self.downloaded_versions.remove(program_id);
        a.is_some() || b.is_some()
    }
}

} // verus!
