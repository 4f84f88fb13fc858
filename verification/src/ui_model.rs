//! The decisions behind the user interface: the rows of the program list,
//! which update to offer, what "update" and "launch" act on, and how the
//! record changes after a check or a download.

use vstd::prelude::*;
use crate::app_state::AppState;
use crate::config::manifest::{lookup, ProgramEntry};
use crate::github::client::text_or_empty;
use crate::github::release::{asset_names, Release};
use crate::paths::AppPath;
use crate::platform::PlatformError;
use crate::text::{
    first_index_of, last_index_of, lemma_first_index_absent, lemma_first_index_unique,
    lemma_last_index_bound, owned, strip_leading, text_eq, trim_leading,
};
use crate::update::checker::installed_version;
use crate::update::state::{DownloadedVersion, InstalledVersion, ProgramUpdateInfo, UpdateState};

verus! {

/// The program ids of a list of check results, in order.
pub open spec fn result_ids(results: Seq<ProgramUpdateInfo>) -> Seq<Seq<char>> {
    results.map_values(|r: ProgramUpdateInfo| r.program_id@)
}

/// The cached check result for `id`, if any.
pub open spec fn cached(cache: Map<Seq<char>, ProgramUpdateInfo>, id: Seq<char>) -> Option<ProgramUpdateInfo> {
    if cache.contains_key(id) {
        Some(cache[id])
    } else {
        None
    }
}

/// The check result used for program `id`: the first of `results` for it,
/// else the cached one.
pub open spec fn check_for(
    results: Option<Seq<ProgramUpdateInfo>>,
    cache: Map<Seq<char>, ProgramUpdateInfo>,
    id: Seq<char>,
) -> Option<ProgramUpdateInfo> {
    match results {
        Some(rs) => {
            let j = first_index_of(result_ids(rs), id);
            if j >= 0 {
                Some(rs[j])
            } else {
                cached(cache, id)
            }
        },
        None => cached(cache, id),
    }
}

/// The text of the latest version in a check result, empty when none.
pub open spec fn latest_text(check: Option<ProgramUpdateInfo>) -> Seq<char> {
    match check {
        Some(c) => text_or_empty(c.latest_version),
        None => Seq::empty(),
    }
}

/// Whether the id is the hub's own.
pub open spec fn is_self_id(id: Seq<char>) -> bool {
    id == "my-hub"@
}

/// What the list shows as a program's status.
#[derive(Clone, Copy, Debug, PartialEq, Eq, Structural)]
pub enum ProgramStatus {
    /// The user ignores the program.
    Ignored,
    /// The program is disabled in the manifest.
    Disabled,
    /// An update was downloaded for it.
    Downloaded,
    /// No version is recorded as installed.
    NotInstalled,
    /// An update is available and not skipped.
    UpdateAvailable,
    /// Nothing to do.
    UpToDate,
}

/// The status shown for a program, checked in this order.
pub open spec fn status_of(
    ignored: bool,
    enabled: bool,
    downloaded: bool,
    not_installed: bool,
    update: bool,
) -> ProgramStatus {
    if ignored {
        ProgramStatus::Ignored
    } else if !enabled {
        ProgramStatus::Disabled
    } else if downloaded {
        ProgramStatus::Downloaded
    } else if not_installed {
        ProgramStatus::NotInstalled
    } else if update {
        ProgramStatus::UpdateAvailable
    } else {
        ProgramStatus::UpToDate
    }
}

impl ProgramStatus {
    /// The text shown for the status.
    pub fn label(&self) -> (s: String)
        ensures
            s@ == match *self {
                ProgramStatus::Ignored => "Ignored"@,
                ProgramStatus::Disabled => "Disabled"@,
                ProgramStatus::Downloaded => "Downloaded"@,
                ProgramStatus::NotInstalled => "Not installed"@,
                ProgramStatus::UpdateAvailable => "Update available"@,
                ProgramStatus::UpToDate => "Up to date"@,
            },
    {
        match self {
            ProgramStatus::Ignored => owned("Ignored"),
            ProgramStatus::Disabled => owned("Disabled"),
            ProgramStatus::Downloaded => owned("Downloaded"),
            ProgramStatus::NotInstalled => owned("Not installed"),
            ProgramStatus::UpdateAvailable => owned("Update available"),
            ProgramStatus::UpToDate => owned("Up to date"),
        }
    }
}

/// One row of the program list.
#[derive(Clone, Debug)]
pub struct ProgramRow {
    /// Program id.
    pub id: String,
    /// Display name.
    pub name: String,
    /// Description.
    pub description: String,
    /// GitHub owner.
    pub owner: String,
    /// GitHub repository.
    pub repo: String,
    /// Installed version; empty when none.
    pub current_version: String,
    /// Latest version from the check; empty when unknown.
    pub latest_version: String,
    /// Whether an update is available and not skipped.
    pub has_update: bool,
    /// Whether the program is installed and enabled but has no successful check.
    pub check_failed: bool,
    /// Whether the user ignores the program.
    pub ignored: bool,
    /// Whether the program is enabled.
    pub enabled: bool,
    /// Whether the row is the hub itself.
    pub is_self: bool,
    /// The status shown.
    pub status: ProgramStatus,
}

/// Whether `row` is the list row for program `p` in `state`, with the check
/// results `results` preferred over the cached ones.
pub open spec fn row_matches(
    state: AppState,
    results: Option<Seq<ProgramUpdateInfo>>,
    p: ProgramEntry,
    row: ProgramRow,
) -> bool {
    let current = match installed_version(state.update_state, p.id@) {
        Some(v) => v,
        None => Seq::<char>::empty(),
    };
    let check = check_for(results, state.check_results@, p.id@);
    let has = match check {
        Some(c) => c.has_update,
        None => false,
    };
    let skipped = match check {
        Some(c) => c.has_update && state.update_state.skips(p.id@, text_or_empty(c.latest_version)),
        None => false,
    };
    let failed = current.len() > 0 && p.enabled && match check {
        Some(c) => c.latest_version is None,
        None => true,
    };
    let ignored = state.update_state.ignores(p.id@);
    let downloaded = state.update_state.downloaded_versions@.contains_key(p.id@);
    &&& row.id == p.id
    &&& row.name == p.name
    &&& row.description == p.description
    &&& row.owner == p.owner
    &&& row.repo == p.repo
    &&& row.current_version@ == current
    &&& row.latest_version@ == latest_text(check)
    &&& row.has_update == (has && !skipped)
    &&& row.check_failed == failed
    &&& row.ignored == ignored
    &&& row.enabled == p.enabled
    &&& row.is_self == is_self_id(p.id@)
    &&& row.status == status_of(ignored, p.enabled, downloaded, current.len() == 0, has && !skipped)
}

/// The results as a sequence, when given.
pub open spec fn results_view(results: Option<&Vec<ProgramUpdateInfo>>) -> Option<Seq<ProgramUpdateInfo>> {
    match results {
        Some(v) => Some(v@),
        None => None,
    }
}

/// The text of an optional string, empty when absent.
fn text_or_blank(o: &Option<String>) -> (s: String)
    ensures
        s@ == text_or_empty(*o),
{
    match o {
        Some(t) => t.clone(),
        None => String::new(),
    }
}

/// Whether `id` is the hub's own id.
pub fn is_self(id: &str) -> (r: bool)
    ensures
        r == is_self_id(id@),
{
    text_eq(id, "my-hub")
}

/// The check result to show for program `id`.
fn find_check<'b>(
    results: Option<&'b Vec<ProgramUpdateInfo>>,
    cache: &'b crate::text_map::TextMap<ProgramUpdateInfo>,
    id: &str,
) -> (r: Option<&'b ProgramUpdateInfo>)
    ensures
        match r {
            Some(c) => check_for(results_view(results), cache@, id@) == Some(*c),
            None => check_for(results_view(results), cache@, id@) is None,
        },
{
    if let Some(rs) = results {
        let mut i: usize = 0;
        while i < rs.len()
            invariant
                i <= rs@.len(),
                results == Some(rs),
                forall|m: int| 0 <= m < i ==> result_ids(rs@)[m] != id@,
            decreases rs@.len() - i,
        {
            if text_eq(rs[i].program_id.as_str(), id) {
                proof {
                    assert(result_ids(rs@)[i as int] == rs@[i as int].program_id@);
                    lemma_first_index_unique(result_ids(rs@), id@, i as int);
                    assert(results_view(results) == Some(rs@));
                }
                return Some(&rs[i]);
            }
            i += 1;
        }
        proof {
            lemma_first_index_absent(result_ids(rs@), id@);
        }
    }
    cache.get(id)
}

/// The row of the program list for program `p`.
fn program_row(state: &AppState, results: Option<&Vec<ProgramUpdateInfo>>, p: &ProgramEntry) -> (row: ProgramRow)
    ensures
        row_matches(*state, results_view(results), *p, row),
{
    let current = match state.update_state.installed_versions.get(p.id.as_str()) {
        Some(v) => v.version.clone(),
        None => String::new(),
    };
    let ignored = state.update_state.is_ignored(p.id.as_str());
    let check = find_check(results, &state.check_results, p.id.as_str());
    let latest = match check {
        Some(c) => text_or_blank(&c.latest_version),
        None => String::new(),
    };
    let has = match check {
        Some(c) => c.has_update,
        None => false,
    };
    let installed = !current.as_str().is_empty();
    let check_failed = installed && p.enabled && match check {
        Some(c) => c.latest_version.is_none(),
        None => true,
    };
    let skipped = match check {
        Some(c) => c.has_update && state.update_state.is_version_skipped(
            p.id.as_str(),
            text_or_blank(&c.latest_version).as_str(),
        ),
        None => false,
    };
    let downloaded = state.update_state.downloaded_versions.contains_key(p.id.as_str());
    let update = has && !skipped;
    let status = if ignored {
        ProgramStatus::Ignored
    } else if !p.enabled {
        ProgramStatus::Disabled
    } else if downloaded {
        ProgramStatus::Downloaded
    } else if !installed {
        ProgramStatus::NotInstalled
    } else if update {
        ProgramStatus::UpdateAvailable
    } else {
        ProgramStatus::UpToDate
    };
    ProgramRow {
        id: p.id.clone(),
        name: p.name.clone(),
        description: p.description.clone(),
        owner: p.owner.clone(),
        repo: p.repo.clone(),
        current_version: current,
        latest_version: latest,
        has_update: update,
        check_failed,
        ignored,
        enabled: p.enabled,
        is_self: is_self(p.id.as_str()),
        status,
    }
}

/// The program list: one row per manifest program, in manifest order. When
/// `results` is given, a program's check comes from it first and from the
/// cached results otherwise.
pub fn refresh_program_list(state: &AppState, results: Option<&Vec<ProgramUpdateInfo>>) -> (rows: Vec<ProgramRow>)
    ensures
        rows@.len() == state.manifest.program@.len(),
        forall|i: int|
            0 <= i < rows@.len() ==> row_matches(
                *state,
                results_view(results),
                state.manifest.program@[i],
                #[trigger] rows@[i],
            ),
{
    let mut rows: Vec<ProgramRow> = Vec::new();
    let mut i: usize = 0;
    while i < state.manifest.program.len()
        invariant
            i <= state.manifest.program@.len(),
            rows@.len() == i,
            forall|k: int|
                0 <= k < i ==> row_matches(
                    *state,
                    results_view(results),
                    state.manifest.program@[k],
                    #[trigger] rows@[k],
                ),
        decreases state.manifest.program@.len() - i,
    {
        rows.push(program_row(state, results, &state.manifest.program[i]));
        i += 1;
    }
    rows
}

/// The update offered to the user after a check.
#[derive(Clone, Debug)]
pub struct UpdateDialog {
    /// Program id.
    pub program_id: String,
    /// Display name.
    pub program_name: String,
    /// Installed version; empty when none.
    pub current_version: String,
    /// Latest version; empty when unknown.
    pub latest_version: String,
    /// Publication time of the release.
    pub published_at: String,
    /// Release notes.
    pub release_notes: String,
    /// Whether the user ignores the program.
    pub ignored: bool,
}

/// Whether a check result asks for the update dialog: an update that the
/// user neither ignores nor skips.
pub open spec fn wants_dialog(us: UpdateState, r: ProgramUpdateInfo) -> bool {
    r.has_update && !r.ignored && !us.skips(r.program_id@, text_or_empty(r.latest_version))
}

/// Index of the first result that asks for the dialog, or -1.
pub open spec fn first_wanted(us: UpdateState, rs: Seq<ProgramUpdateInfo>) -> int
    decreases rs.len(),
{
    if rs.len() == 0 {
        -1
    } else if wants_dialog(us, rs[0]) {
        0
    } else {
        let j = first_wanted(us, rs.drop_first());
        if j < 0 {
            -1
        } else {
            j + 1
        }
    }
}

proof fn lemma_first_wanted(us: UpdateState, rs: Seq<ProgramUpdateInfo>, i: int)
    requires
        0 <= i <= rs.len(),
        forall|m: int| 0 <= m < i ==> !wants_dialog(us, #[trigger] rs[m]),
        i == rs.len() || wants_dialog(us, rs[i]),
    ensures
        first_wanted(us, rs) == if i == rs.len() {
            -1
        } else {
            i
        },
    decreases rs.len(),
{
    if rs.len() > 0 && !wants_dialog(us, rs[0]) {
        let rest = rs.drop_first();
        assert forall|m: int| 0 <= m < i - 1 implies !wants_dialog(us, #[trigger] rest[m]) by {
            assert(rest[m] == rs[m + 1]);
        }
        if i - 1 < rest.len() {
            assert(rest[i - 1] == rs[i]);
        }
        lemma_first_wanted(us, rest, i - 1);
    }
}

/// Whether `d` is the dialog for the first result of `results` that asks for
/// one: shown only when that program is in the manifest and its release is known.
pub open spec fn dialog_matches(state: AppState, results: Seq<ProgramUpdateInfo>, d: Option<UpdateDialog>) -> bool {
    let j = first_wanted(state.update_state, results);
    if j < 0 {
        d is None
    } else {
        let r = results[j];
        match (lookup(state.manifest.program@, r.program_id@), r.release) {
            (Some(p), Some(rel)) => d matches Some(x) && {
                &&& x.program_id == r.program_id
                &&& x.program_name == p.name
                &&& x.current_version@ == text_or_empty(r.current_version)
                &&& x.latest_version@ == text_or_empty(r.latest_version)
                &&& x.published_at == rel.published_at
                &&& x.release_notes == rel.body
                &&& x.ignored == r.ignored
            },
            _ => d is None,
        }
    }
}

/// The update dialog to pop after a check the user asked for.
pub fn select_update_dialog(state: &AppState, results: &Vec<ProgramUpdateInfo>) -> (d: Option<UpdateDialog>)
    ensures
        dialog_matches(*state, results@, d),
{
    let mut i: usize = 0;
    while i < results.len()
        invariant
            i <= results@.len(),
            forall|m: int| 0 <= m < i ==> !wants_dialog(state.update_state, #[trigger] results@[m]),
        decreases results@.len() - i,
    {
        let r = &results[i];
        let wanted = r.has_update && !r.ignored && !state.update_state.is_version_skipped(
            r.program_id.as_str(),
            text_or_blank(&r.latest_version).as_str(),
        );
        if wanted {
            proof {
                lemma_first_wanted(state.update_state, results@, i as int);
            }
            let p = match state.manifest.find(r.program_id.as_str()) {
                Some(p) => p,
                None => return None,
            };
            let rel = match &r.release {
                Some(rel) => rel,
                None => return None,
            };
            return Some(UpdateDialog {
                program_id: r.program_id.clone(),
                program_name: p.name.clone(),
                current_version: text_or_blank(&r.current_version),
                latest_version: text_or_blank(&r.latest_version),
                published_at: rel.published_at.clone(),
                release_notes: rel.body.clone(),
                ignored: r.ignored,
            });
        }
        i += 1;
    }
    proof {
        lemma_first_wanted(state.update_state, results@, results@.len() as int);
    }
    None
}

/// Whether `cache` holds, for each id, the last of `results` with that id.
pub open spec fn caches_results(cache: Map<Seq<char>, ProgramUpdateInfo>, results: Seq<ProgramUpdateInfo>) -> bool {
    &&& forall|k: Seq<char>| #[trigger] cache.contains_key(k) == (last_index_of(result_ids(results), k) >= 0)
    &&& forall|k: Seq<char>|
        #[trigger] cache.contains_key(k) ==> cache[k].same_as(&results[last_index_of(result_ids(results), k)])
}

/// Caches the results of a check, replacing the earlier ones, and records
/// when the check ran.
pub fn record_check_results(state: &mut AppState, results: &Vec<ProgramUpdateInfo>, checked_at: String)
    ensures
        caches_results(final(state).check_results@, results@),
        final(state).update_state.last_check == Some(checked_at),
        final(state).update_state.installed_versions@ == old(state).update_state.installed_versions@,
        final(state).update_state.skip_versions@ == old(state).update_state.skip_versions@,
        final(state).update_state.ignored_programs == old(state).update_state.ignored_programs,
        final(state).update_state.downloaded_versions@ == old(state).update_state.downloaded_versions@,
        final(state).manifest == old(state).manifest,
        final(state).settings == old(state).settings,
        final(state).app_data_dir == old(state).app_data_dir,
{
    state.check_results.clear();
    let ghost ids = result_ids(results@);
    let mut i: usize = 0;
    while i < results.len()
        invariant
            i <= results@.len(),
            ids == result_ids(results@),
            caches_results(state.check_results@, results@.subrange(0, i as int)),
            state.update_state == old(state).update_state,
            state.manifest == old(state).manifest,
            state.settings == old(state).settings,
            state.app_data_dir == old(state).app_data_dir,
        decreases results@.len() - i,
    {
        let ghost before = state.check_results@;
        let r = results[i].duplicate();
        let key = results[i].program_id.clone();
        state.check_results.insert(key, r);
        proof {
            let pre = results@.subrange(0, i as int);
            let next = results@.subrange(0, i + 1);
            assert(result_ids(next).drop_last() =~= result_ids(pre));
            assert(result_ids(next).last() == results@[i as int].program_id@);
            assert forall|k: Seq<char>| #[trigger] state.check_results@.contains_key(k) == (last_index_of(result_ids(next), k) >= 0) by {}
            assert forall|k: Seq<char>| #[trigger] state.check_results@.contains_key(k) implies state.check_results@[k].same_as(
                &next[last_index_of(result_ids(next), k)],
            ) by {
                if k != results@[i as int].program_id@ {
                    lemma_last_index_bound(result_ids(pre), k);
                    let j = last_index_of(result_ids(pre), k);
                    assert(next[j] == pre[j]);
                }
            }
        }
        i += 1;
    }
    assert(results@.subrange(0, results@.len() as int) =~= results@);
    state.update_state.last_check = Some(checked_at);
}

/// The version recorded as installed for `id` after an update from the
/// release tagged `tag`: the latest version of the cached check when it has
/// one, else the tag without leading `v`s.
pub open spec fn recorded_version(cache: Map<Seq<char>, ProgramUpdateInfo>, id: Seq<char>, tag: Seq<char>) -> Seq<char> {
    match cached(cache, id) {
        Some(c) => match c.latest_version {
            Some(v) => v@,
            None => strip_leading(tag, 'v'),
        },
        None => strip_leading(tag, 'v'),
    }
}

/// Records the version of program `program_id` that was just installed from
/// the release tagged `fallback_tag`, at time `installed_at`.
pub fn record_installed_version(state: &mut AppState, program_id: &str, fallback_tag: &str, installed_at: String)
    ensures
        final(state).update_state.installed_versions@.contains_key(program_id@),
        final(state).update_state.installed_versions@[program_id@].version@ == recorded_version(
            old(state).check_results@,
            program_id@,
            fallback_tag@,
        ),
        final(state).update_state.installed_versions@[program_id@].installed_at == installed_at,
        final(state).update_state.installed_versions@.remove(program_id@)
            == old(state).update_state.installed_versions@.remove(program_id@),
        final(state).update_state.skip_versions@ == old(state).update_state.skip_versions@,
        final(state).update_state.ignored_programs == old(state).update_state.ignored_programs,
        final(state).update_state.downloaded_versions@ == old(state).update_state.downloaded_versions@,
        final(state).update_state.last_check == old(state).update_state.last_check,
        final(state).check_results@ == old(state).check_results@,
        final(state).manifest == old(state).manifest,
        final(state).settings == old(state).settings,
        final(state).app_data_dir == old(state).app_data_dir,
{
    let version = match state.check_results.get(program_id) {
        Some(r) => match &r.latest_version {
            Some(v) => v.clone(),
            None => trim_leading(fallback_tag, 'v'),
        },
        None => trim_leading(fallback_tag, 'v'),
    };
    let ghost before = state.update_state.installed_versions@;
    state.update_state.installed_versions.insert(owned(program_id), InstalledVersion { version, installed_at });
    assert(state.update_state.installed_versions@.remove(program_id@) =~= before.remove(program_id@));
}

/// Records a downloaded update of a program other than the hub: where the
/// file is and which tag it came from, and that version as installed.
pub fn record_download(state: &mut AppState, program_id: &str, tag: &str, path: String, installed_at: String)
    ensures
        final(state).update_state.downloaded_versions@.contains_key(program_id@),
        final(state).update_state.downloaded_versions@[program_id@].version@ == tag@,
        final(state).update_state.downloaded_versions@[program_id@].path == path,
        final(state).update_state.downloaded_versions@.remove(program_id@)
            == old(state).update_state.downloaded_versions@.remove(program_id@),
        final(state).update_state.installed_versions@.contains_key(program_id@),
        final(state).update_state.installed_versions@[program_id@].version@ == recorded_version(
            old(state).check_results@,
            program_id@,
            tag@,
        ),
        final(state).update_state.installed_versions@[program_id@].installed_at == installed_at,
        final(state).update_state.installed_versions@.remove(program_id@)
            == old(state).update_state.installed_versions@.remove(program_id@),
        final(state).update_state.skip_versions@ == old(state).update_state.skip_versions@,
        final(state).update_state.ignored_programs == old(state).update_state.ignored_programs,
        final(state).update_state.last_check == old(state).update_state.last_check,
        final(state).check_results@ == old(state).check_results@,
{
    let ghost before = state.update_state.downloaded_versions@;
    state.update_state.downloaded_versions.insert(
        owned(program_id),
        DownloadedVersion { version: owned(tag), path },
    );
    assert(state.update_state.downloaded_versions@.remove(program_id@) =~= before.remove(program_id@));
    record_installed_version(state, program_id, tag, installed_at);
}

/// Whether `r` is the directory to download into: the `installed` folder
/// beside the hub's executable when downloads move there (an error when that
/// directory is unknown), else the download directory.
pub open spec fn download_target_matches(
    move_to_exe_dir: bool,
    download_dir: Seq<char>,
    exe_dir: Option<AppPath>,
    r: Result<AppPath, PlatformError>,
) -> bool {
    if move_to_exe_dir {
        match exe_dir {
            Some(d) => r matches Ok(t) && t.root == d.root && t.parts_text() == d.parts_text().push("installed"@),
            None => r matches Err(PlatformError::ExeDirUnknown),
        }
    } else {
        r matches Ok(t) && t.root@ == download_dir && t.parts_text() == Seq::<Seq<char>>::empty()
    }
}

/// The directory to download updates into.
pub fn resolve_download_target(move_to_exe_dir: bool, download_dir: &str, exe_dir: Option<AppPath>) -> (r: Result<AppPath, PlatformError>)
    ensures
        download_target_matches(move_to_exe_dir, download_dir@, exe_dir, r),
{
    if move_to_exe_dir {
        match exe_dir {
            Some(d) => Ok(d.join("installed")),
            None => Err(PlatformError::ExeDirUnknown),
        }
    } else {
        Ok(AppPath::from_text(download_dir))
    }
}

/// Where a program's executable is: the recorded download when there is
/// one; else the `installed` folder beside the hub's executable when
/// downloads move there and that directory is known; else the download directory.
pub fn resolve_program_path(state: &AppState, entry: &ProgramEntry, exe_dir: Option<AppPath>) -> (p: AppPath)
    ensures
        state.update_state.downloaded_versions@.contains_key(entry.id@) ==> p.root@
            == state.update_state.downloaded_versions@[entry.id@].path@ && p.parts_text() == Seq::<
            Seq<char>,
        >::empty(),
        !state.update_state.downloaded_versions@.contains_key(entry.id@) ==> match exe_dir {
            Some(d) if state.settings.move_to_exe_dir => p.root == d.root && p.parts_text()
                == d.parts_text().push("installed"@).push(entry.executable@),
            _ => p.root@ == state.settings.download_dir@ && p.parts_text() == seq![entry.executable@],
        },
{
    if let Some(d) = state.update_state.downloaded_versions.get(entry.id.as_str()) {
        return AppPath::from_text(d.path.as_str());
    }
    if state.settings.move_to_exe_dir {
        if let Some(dir) = &exe_dir {
            return dir.join("installed").join(entry.executable.as_str());
        }
    }
    let p = AppPath::from_text(state.settings.download_dir.as_str()).join(entry.executable.as_str());
    assert(p.parts_text() =~= seq![entry.executable@]);
    p
}

/// What to download for an update.
#[derive(Clone, Debug)]
pub struct UpdatePlan {
    /// Program id.
    pub program_id: String,
    /// Whether the program is the hub itself.
    pub is_self: bool,
    /// Where to download the asset from.
    pub url: String,
    /// The asset's file name.
    pub asset_name: String,
    /// The release tag.
    pub tag: String,
    /// The directory to download into.
    pub target_dir: AppPath,
}

/// Why an update cannot start.
#[derive(Clone, Debug)]
pub enum UpdatePlanError {
    /// No program of the manifest has the id.
    UnknownProgram,
    /// No release is cached for the program; a check must run first.
    NoCachedRelease,
    /// The release has no asset named like the program's executable.
    NoMatchingAsset,
    /// The directory to download into is unknown.
    Target(PlatformError),
}

/// The release cached for program `id`, if any.
pub open spec fn cached_release(state: AppState, id: Seq<char>) -> Option<Release> {
    match cached(state.check_results@, id) {
        Some(c) => c.release,
        None => None,
    }
}

/// What to download when the user asks to update program `program_id`: the
/// asset of its cached release named like its executable (the first such),
/// into the download target.
pub fn plan_update(state: &AppState, program_id: &str, exe_dir: Option<AppPath>) -> (r: Result<UpdatePlan, UpdatePlanError>)
    ensures
        lookup(state.manifest.program@, program_id@) is None ==> r matches Err(UpdatePlanError::UnknownProgram),
        lookup(state.manifest.program@, program_id@) matches Some(p) ==> match cached_release(*state, program_id@) {
            None => r matches Err(UpdatePlanError::NoCachedRelease),
            Some(rel) => {
                let j = first_index_of(asset_names(rel.assets@), p.executable@);
                if j < 0 {
                    r matches Err(UpdatePlanError::NoMatchingAsset)
                } else {
                    let target = resolve_download_target_spec(state, exe_dir);
                    match target {
                        Err(e) => r matches Err(UpdatePlanError::Target(e2)) && e2 == e,
                        Ok(_) => r matches Ok(plan) && {
                            &&& plan.program_id == p.id
                            &&& plan.is_self == is_self_id(p.id@)
                            &&& plan.url == rel.assets@[j].browser_download_url
                            &&& plan.asset_name == rel.assets@[j].name
                            &&& plan.tag == rel.tag_name
                            &&& download_target_matches(
                                state.settings.move_to_exe_dir,
                                state.settings.download_dir@,
                                exe_dir,
                                Ok::<AppPath, PlatformError>(plan.target_dir),
                            )
                        },
                    }
                }
            },
        },
{
    let program = match state.manifest.find(program_id) {
        Some(p) => p,
        None => return Err(UpdatePlanError::UnknownProgram),
    };
    let release = match state.check_results.get(program_id) {
        Some(c) => match &c.release {
            Some(rel) => rel,
            None => return Err(UpdatePlanError::NoCachedRelease),
        },
        None => return Err(UpdatePlanError::NoCachedRelease),
    };
    let j = match release.asset_position(program.executable.as_str()) {
        Some(j) => j,
        None => return Err(UpdatePlanError::NoMatchingAsset),
    };
    let asset = &release.assets[j];
    let target_dir = match resolve_download_target(
        state.settings.move_to_exe_dir,
        state.settings.download_dir.as_str(),
        exe_dir,
    ) {
        Ok(d) => d,
        Err(e) => return Err(UpdatePlanError::Target(e)),
    };
    Ok(UpdatePlan {
        program_id: program.id.clone(),
        is_self: is_self(program.id.as_str()),
        url: asset.browser_download_url.clone(),
        asset_name: asset.name.clone(),
        tag: release.tag_name.clone(),
        target_dir,
    })
}

/// Whether the download target of `state` can be resolved, and the error otherwise.
pub open spec fn resolve_download_target_spec(state: &AppState, exe_dir: Option<AppPath>) -> Result<(), PlatformError> {
    if state.settings.move_to_exe_dir && exe_dir is None {
        Err(PlatformError::ExeDirUnknown)
    } else {
        Ok(())
    }
}

/// The update dialog only ever offers an update that the user neither
/// ignores nor skips.
pub proof fn lemma_dialog_respects_choices(state: AppState, results: Seq<ProgramUpdateInfo>, d: UpdateDialog)
    requires
        dialog_matches(state, results, Some(d)),
    ensures
        exists|j: int|
            0 <= j < results.len() && results[j].program_id == d.program_id && #[trigger] wants_dialog(
                state.update_state,
                results[j],
            ),
{
    let j = first_wanted(state.update_state, results);
    lemma_first_wanted_found(state.update_state, results);
    assert(wants_dialog(state.update_state, results[j]));
}

proof fn lemma_first_wanted_found(us: UpdateState, rs: Seq<ProgramUpdateInfo>)
    ensures
        first_wanted(us, rs) >= 0 ==> first_wanted(us, rs) < rs.len() && wants_dialog(us, rs[first_wanted(us, rs)]),
    decreases rs.len(),
{
    if rs.len() > 0 && !wants_dialog(us, rs[0]) {
        lemma_first_wanted_found(us, rs.drop_first());
    }
}

/// An ignored program shows as ignored, whatever its check says.
pub proof fn lemma_ignored_row(state: AppState, results: Option<Seq<ProgramUpdateInfo>>, p: ProgramEntry, row: ProgramRow)
    requires
        row_matches(state, results, p, row),
        state.update_state.ignores(p.id@),
    ensures
        row.ignored,
        row.status == ProgramStatus::Ignored,
{
}

/// A version the user skipped is never shown as an available update.
pub proof fn lemma_skipped_not_offered(state: AppState, results: Option<Seq<ProgramUpdateInfo>>, p: ProgramEntry, row: ProgramRow)
    requires
        row_matches(state, results, p, row),
        state.update_state.skips(p.id@, row.latest_version@),
    ensures
        !row.has_update,
        row.status != ProgramStatus::UpdateAvailable,
{
}

/// After uninstalling, a program that is neither ignored nor disabled shows
/// as not installed, with no installed version.
pub proof fn lemma_uninstalled_row(state: AppState, results: Option<Seq<ProgramUpdateInfo>>, p: ProgramEntry, row: ProgramRow)
    requires
        row_matches(state, results, p, row),
        !state.update_state.installed_versions@.contains_key(p.id@),
        !state.update_state.downloaded_versions@.contains_key(p.id@),
        !state.update_state.ignores(p.id@),
        p.enabled,
    ensures
        row.current_version@.len() == 0,
        !row.check_failed,
        row.status == ProgramStatus::NotInstalled,
{
}

/// A failed check is only reported for a program that is installed and
/// enabled: a disabled program's row never reports one.
pub proof fn lemma_failed_check_needs_enabled_install(
    state: AppState,
    results: Option<Seq<ProgramUpdateInfo>>,
    p: ProgramEntry,
    row: ProgramRow,
)
    requires
        row_matches(state, results, p, row),
    ensures
        !p.enabled ==> !row.check_failed,
        row.check_failed ==> p.enabled && row.current_version@.len() > 0
            && state.update_state.installed_versions@.contains_key(p.id@),
        row.check_failed ==> row.latest_version@.len() == 0,
{
}

/// The dialog shows the first result that wants one, field by field: its
/// id, the manifest name of that program, the installed and latest versions
/// the result reports, and its release's publication time and notes.
pub proof fn lemma_dialog_fields(state: AppState, results: Seq<ProgramUpdateInfo>, d: UpdateDialog)
    requires
        dialog_matches(state, results, Some(d)),
    ensures
        exists|j: int|
            {
                &&& 0 <= j < results.len()
                &&& #[trigger] wants_dialog(state.update_state, results[j])
                &&& forall|m: int| 0 <= m < j ==> !wants_dialog(state.update_state, #[trigger] results[m])
                &&& d.program_id == results[j].program_id
                &&& d.current_version@ == text_or_empty(results[j].current_version)
                &&& d.latest_version@ == text_or_empty(results[j].latest_version)
                &&& d.ignored == results[j].ignored
                &&& lookup(state.manifest.program@, results[j].program_id@) matches Some(p)
                &&& d.program_name == p.name
                &&& results[j].release matches Some(rel)
                &&& d.published_at == rel.published_at
                &&& d.release_notes == rel.body
            },
{
    let j = first_wanted(state.update_state, results);
    lemma_first_wanted_found(state.update_state, results);
    lemma_first_wanted_earlier(state.update_state, results);
    assert(wants_dialog(state.update_state, results[j]));
}

proof fn lemma_first_wanted_earlier(us: UpdateState, rs: Seq<ProgramUpdateInfo>)
    ensures
        forall|m: int| 0 <= m < first_wanted(us, rs) ==> !wants_dialog(us, #[trigger] rs[m]),
    decreases rs.len(),
{
    if rs.len() > 0 && !wants_dialog(us, rs[0]) {
        let rest = rs.drop_first();
        lemma_first_wanted_earlier(us, rest);
        lemma_first_wanted_found(us, rs);
        assert forall|m: int| 0 <= m < first_wanted(us, rs) implies !wants_dialog(us, #[trigger] rs[m]) by {
            if m > 0 {
                assert(rs[m] == rest[m - 1]);
            }
        }
    }
}

/// The cache of check results keeps each result exactly: for every cached
/// id, every field equals that of the last result with that id.
pub proof fn lemma_cache_keeps_fields(cache: Map<Seq<char>, ProgramUpdateInfo>, results: Seq<ProgramUpdateInfo>, k: Seq<char>)
    requires
        caches_results(cache, results),
        cache.contains_key(k),
    ensures
        ({
            let j = last_index_of(result_ids(results), k);
            let r = results[j];
            &&& 0 <= j < results.len()
            &&& r.program_id@ == k
            &&& cache[k].program_id == r.program_id
            &&& cache[k].current_version == r.current_version
            &&& cache[k].latest_version == r.latest_version
            &&& cache[k].has_update == r.has_update
            &&& cache[k].ignored == r.ignored
            &&& (cache[k].release is Some <==> r.release is Some)
            &&& (cache[k].release matches Some(a) ==> r.release matches Some(b) && a.tag_name == b.tag_name
                && a.name == b.name && a.body == b.body && a.html_url == b.html_url && a.published_at
                == b.published_at && a.assets@ == b.assets@)
        }),
{
    lemma_last_index_bound(result_ids(results), k);
}

} // verus!
