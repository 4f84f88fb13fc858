//! The update check: for each program of the manifest, what its latest
//! release means against the local update record.
//!
//! Fetching the latest release is network I/O and is done by the caller;
//! the checker decides everything around it. A program that is disabled is
//! not fetched; for one that is enabled, the outcome of the fetch is handed in
//! (`None` when there was none, which counts as a failed fetch).

use vstd::prelude::*;
use crate::config::manifest::{ProgramEntry, ProgramManifest};
use crate::github::client::FetchError;
use crate::github::release::Release;
use crate::text::opt_text;
use crate::update::state::{ProgramUpdateInfo, UpdateState};
use crate::update::version::{has_update, parse_version, update_available, version_from_tag};

verus! {

/// The installed version of program `id` in `state`, if any.
pub open spec fn installed_version(state: UpdateState, id: Seq<char>) -> Option<Seq<char>> {
    if state.installed_versions@.contains_key(id) {
        Some(state.installed_versions@[id].version@)
    } else {
        None
    }
}

/// Whether `info` is the result of checking `program` against `state`, given
/// the outcome `fetched` of fetching its latest release.
pub open spec fn checked(
    state: UpdateState,
    program: ProgramEntry,
    fetched: Option<Result<Release, FetchError>>,
    info: ProgramUpdateInfo,
) -> bool {
    &&& info.program_id == program.id
    &&& opt_text(info.current_version) == installed_version(state, program.id@)
    &&& info.ignored == state.ignores(program.id@)
    &&& match (program.enabled, fetched) {
        (true, Some(Ok(rel))) => {
            &&& opt_text(info.latest_version) == version_from_tag(rel.tag_name@)
            &&& info.has_update == update_available(
                installed_version(state, program.id@),
                version_from_tag(rel.tag_name@),
            )
            &&& info.release matches Some(r) && r.same_as(&rel)
        },
        _ => {
            &&& info.latest_version is None
            &&& !info.has_update
            &&& info.release is None
        },
    }
}

/// Checks the programs of a manifest against the local update record.
pub struct UpdateChecker<'a> {
    manifest: &'a ProgramManifest,
    state: &'a UpdateState,
}

impl<'a> UpdateChecker<'a> {
    /// The manifest being checked.
    pub closed spec fn manifest(&self) -> ProgramManifest {
        *self.manifest
    }

    /// The update record checked against.
    pub closed spec fn state(&self) -> UpdateState {
        *self.state
    }

    /// A checker for `manifest` against `state`.
    pub fn new(manifest: &'a ProgramManifest, state: &'a UpdateState) -> (c: Self)
        ensures
            c.manifest() == *manifest,
            c.state() == *state,
    {
        UpdateChecker { manifest, state }
    }

    /// Whether `program` is to be fetched at all: only enabled programs are.
    pub fn needs_fetch(program: &ProgramEntry) -> (r: bool)
        ensures
            r == program.enabled,
    {
        program.enabled
    }

    /// Checks one program, given the outcome of fetching its latest release.
    pub fn check_one(&self, program: &ProgramEntry, fetched: Option<Result<Release, FetchError>>) -> (info: ProgramUpdateInfo)
        ensures
            checked(self.state(), *program, fetched, info),
    {
        let current_version = match self.state.installed_versions.get(program.id.as_str()) {
            Some(v) => Some(v.version.clone()),
            None => None,
        };
        let ignored = self.state.is_ignored(program.id.as_str());
        if !program.enabled {
            return ProgramUpdateInfo {
                program_id: program.id.clone(),
                current_version,
                latest_version: None,
                has_update: false,
                ignored,
                release: None,
            };
        }
        let ghost given = fetched;
        match fetched {
            Some(Ok(release)) => {
                let latest_version = parse_version(release.tag_name.as_str());
                let update = has_update(
                    match &current_version {
                        Some(c) => Some(c.as_str()),
                        None => None,
                    },
                    match &latest_version {
                        Some(l) => Some(l.as_str()),
                        None => None,
                    },
                );
                let info = ProgramUpdateInfo {
                    program_id: program.id.clone(),
                    current_version,
                    latest_version,
                    has_update: update,
                    ignored,
                    release: Some(release),
                };
                proof {
                    assert(given matches Some(Ok(rel)) && rel.same_as(&rel));
                }
                info
            },
            _ => ProgramUpdateInfo {
                program_id: program.id.clone(),
                current_version,
                latest_version: None,
                has_update: false,
                ignored,
                release: None,
            },
        }
    }

    /// Checks every program of the manifest, in order; `fetched` holds the
    /// outcome of fetching each program's latest release, position by position.
    pub fn check_all(&self, fetched: Vec<Option<Result<Release, FetchError>>>) -> (results: Vec<ProgramUpdateInfo>)
        requires
            fetched@.len() == self.manifest().program@.len(),
        ensures
            results@.len() == self.manifest().program@.len(),
            forall|i: int|
                0 <= i < results@.len() ==> checked(
                    self.state(),
                    self.manifest().program@[i],
                    fetched@[i],
                    #[trigger] results@[i],
                ),
    {
        let ghost given = fetched@;
        let mut rest = fetched;
        let mut results: Vec<ProgramUpdateInfo> = Vec::with_capacity(self.manifest.program.len());
        let mut i: usize = 0;
        while i < self.manifest.program.len()
            invariant
                i <= self.manifest.program@.len(),
                given.len() == self.manifest.program@.len(),
                results@.len() == i,
                rest@ == given.subrange(i as int, given.len() as int),
                forall|k: int|
                    0 <= k < i ==> checked(
                        self.state(),
                        self.manifest().program@[k],
                        given[k],
                        #[trigger] results@[k],
                    ),
            decreases self.manifest.program@.len() - i,
        {
            let outcome = rest.remove(0);
            proof {
                assert(outcome == given[i as int]);
                assert(rest@ =~= given.subrange(i + 1, given.len() as int));
            }
            let info = self.check_one(&self.manifest.program[i], outcome);
            results.push(info);
            i += 1;
        }
        results
    }
}

} // verus!
