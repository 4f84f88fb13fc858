//! The program manifest: the suite of programs the hub manages.
//!
//! A bundled default manifest is merged with the user's overrides; an
//! override replaces the default entry with the same id, and an override
//! with a new id is appended.

use vstd::prelude::*;
use crate::text::{first_index_of, last_index_of, lemma_first_index_of, lemma_first_index_unique, lemma_first_index_absent, lemma_last_index_bound, owned};

verus! {

/// One program of the suite.
#[derive(Clone, Debug)]
pub struct ProgramEntry {
    /// Unique slug used as key in the update record.
    pub id: String,
    /// Display name shown in the UI.
    pub name: String,
    /// GitHub owner (user or organisation).
    pub owner: String,
    /// GitHub repository name.
    pub repo: String,
    /// Executable name within the release assets.
    pub executable: String,
    /// Short description; empty when the manifest gives none.
    pub description: String,
    /// Whether to check this program for updates.
    pub enabled: bool,
}

/// The value `enabled` takes when a manifest entry does not give it.
pub fn default_true() -> (b: bool)
    ensures
        b,
{
    true
}

impl ProgramEntry {
    /// An exact copy of this entry.
    pub fn duplicate(&self) -> (e: ProgramEntry)
        ensures
            e == *self,
    {
        ProgramEntry {
            id: self.id.clone(),
            name: self.name.clone(),
            owner: self.owner.clone(),
            repo: self.repo.clone(),
            executable: self.executable.clone(),
            description: self.description.clone(),
            enabled: self.enabled,
        }
    }
}

/// The ids of a list of programs, in order.
pub open spec fn ids_of(programs: Seq<ProgramEntry>) -> Seq<Seq<char>> {
    programs.map_values(|p: ProgramEntry| p.id@)
}

/// The first program of the list with id `id`, if any.
pub open spec fn lookup(programs: Seq<ProgramEntry>, id: Seq<char>) -> Option<ProgramEntry> {
    let j = first_index_of(ids_of(programs), id);
    if j >= 0 {
        Some(programs[j])
    } else {
        None
    }
}

/// `programs` with `entry` merged in: it replaces the first program with the
/// same id, or is appended when there is none.
pub open spec fn upsert(programs: Seq<ProgramEntry>, entry: ProgramEntry) -> Seq<ProgramEntry> {
    let j = first_index_of(ids_of(programs), entry.id@);
    if j >= 0 {
        programs.update(j, entry)
    } else {
        programs.push(entry)
    }
}

/// `base` with each of `overrides` merged in, in order.
pub open spec fn merged(base: Seq<ProgramEntry>, overrides: Seq<ProgramEntry>) -> Seq<ProgramEntry>
    decreases overrides.len(),
{
    if overrides.len() == 0 {
        base
    } else {
        upsert(merged(base, overrides.drop_last()), overrides.last())
    }
}

/// The manifest: the list of programs.
#[derive(Clone, Debug)]
pub struct ProgramManifest {
    /// The programs, in display order.
    pub program: Vec<ProgramEntry>,
}

impl ProgramManifest {
    /// Position of the first program with id `id`, if any.
    fn position(&self, id: &str) -> (r: Option<usize>)
        ensures
            match r {
                Some(i) => i < self.program@.len() && i as int == first_index_of(ids_of(self.program@), id@),
                None => first_index_of(ids_of(self.program@), id@) == -1,
            },
    {
        let key = owned(id);
        let mut i: usize = 0;
        while i < self.program.len()
            invariant
                i <= self.program@.len(),
                key@ == id@,
                forall|m: int| 0 <= m < i ==> ids_of(self.program@)[m] != id@,
            decreases self.program@.len() - i,
        {
            if self.program[i].id == key {
                proof {
                    lemma_first_index_unique(ids_of(self.program@), id@, i as int);
                }
                return Some(i);
            }
            i += 1;
        }
        proof {
            lemma_first_index_absent(ids_of(self.program@), id@);
        }
        None
    }

    /// Finds a program by id: the first one with that id.
    pub fn find(&self, id: &str) -> (r: Option<&ProgramEntry>)
        ensures
            match r {
                Some(p) => lookup(self.program@, id@) == Some(*p),
                None => lookup(self.program@, id@) is None,
            },
    {
        match self.position(id) {
            Some(i) => Some(&self.program[i]),
            None => None,
        }
    }

    /// Merges the user's overrides into this manifest, in order: an override
    /// replaces the program with the same id, or is appended when the id is new.
    pub fn merge_overrides(&mut self, overrides: Vec<ProgramEntry>)
        ensures
            final(self).program@ == merged(old(self).program@, overrides@),
    {
        let ghost base = self.program@;
        let ghost all = overrides@;
        let total = overrides.len();
        let mut rest = overrides;
        let mut done: usize = 0;
        while rest.len() > 0
            invariant
                done + rest@.len() == all.len(),
                total == all.len(),
                rest@ == all.subrange(done as int, all.len() as int),
                self.program@ == merged(base, all.subrange(0, done as int)),
            decreases rest@.len(),
        {
            let entry = rest.remove(0);
            proof {
                assert(entry == all[done as int]);
            }
            match self.position(entry.id.as_str()) {
                Some(i) => {
                    self.program.set(i, entry);
                },
                None => {
                    self.program.push(entry);
                },
            }
            proof {
                let next = all.subrange(0, done + 1);
                assert(next.drop_last() =~= all.subrange(0, done as int));
                assert(next.last() == all[done as int]);
                assert(rest@ =~= all.subrange(done + 1, all.len() as int));
            }
            done += 1;
        }
        assert(all.subrange(0, all.len() as int) =~= all);
    }
}

/// Merging one override: looking up its id finds it, and every other id
/// finds what it found before.
pub proof fn lemma_upsert_lookup(programs: Seq<ProgramEntry>, entry: ProgramEntry, id: Seq<char>)
    ensures
        lookup(upsert(programs, entry), id) == if id == entry.id@ {
            Some(entry)
        } else {
            lookup(programs, id)
        },
{
    let ids = ids_of(programs);
    let after = upsert(programs, entry);
    let ids2 = ids_of(after);
    lemma_first_index_of(ids, entry.id@);
    lemma_first_index_of(ids, id);
    let j = first_index_of(ids, entry.id@);
    if j >= 0 {
        assert(ids2 =~= ids.update(j, entry.id@));
        assert(ids2 =~= ids);
        lemma_first_index_of(ids2, id);
        if id == entry.id@ {
            assert(after[j] == entry);
        } else {
            let k = first_index_of(ids, id);
            if k >= 0 {
                assert(k != j);
                assert(after[k] == programs[k]);
            }
        }
    } else {
        assert(ids2 =~= ids.push(entry.id@));
        if id == entry.id@ {
            assert forall|m: int| 0 <= m < programs.len() implies ids2[m] != id by {
                assert(ids2[m] == ids[m]);
            }
            lemma_first_index_unique(ids2, id, programs.len() as int);
        } else {
            let k = first_index_of(ids, id);
            if k >= 0 {
                assert forall|m: int| 0 <= m < k implies ids2[m] != id by {
                    assert(ids2[m] == ids[m]);
                }
                assert(ids2[k] == ids[k]);
                lemma_first_index_unique(ids2, id, k);
                assert(after[k] == programs[k]);
            } else {
                assert forall|m: int| 0 <= m < ids2.len() implies ids2[m] != id by {
                    if m < programs.len() {
                        assert(ids2[m] == ids[m]);
                    }
                }
                lemma_first_index_absent(ids2, id);
            }
        }
    }
}

/// After merging the user's overrides into the defaults, looking up an id
/// finds the last override with that id, or, when no override has it, what
/// the defaults had for it.
pub proof fn lemma_merge_lookup(base: Seq<ProgramEntry>, overrides: Seq<ProgramEntry>, id: Seq<char>)
    ensures
        lookup(merged(base, overrides), id) == {
            let j = last_index_of(ids_of(overrides), id);
            if j >= 0 {
                Some(overrides[j])
            } else {
                lookup(base, id)
            }
        },
    decreases overrides.len(),
{
    if overrides.len() > 0 {
        let init = overrides.drop_last();
        lemma_merge_lookup(base, init, id);
        lemma_upsert_lookup(merged(base, init), overrides.last(), id);
        let ids = ids_of(overrides);
        assert(ids.drop_last() =~= ids_of(init));
        if ids.last() != id {
            let j = last_index_of(ids_of(init), id);
            if j >= 0 {
                lemma_last_index_bound(ids_of(init), id);
                assert(overrides[j] == init[j]);
            }
        }
    }
}

/// Merging never drops a program: every default id and every override id
/// is found in the merged list.
pub proof fn lemma_merge_keeps_ids(base: Seq<ProgramEntry>, overrides: Seq<ProgramEntry>, id: Seq<char>)
    requires
        lookup(base, id) is Some || ids_of(overrides).contains(id),
    ensures
        lookup(merged(base, overrides), id) is Some,
{
    lemma_merge_lookup(base, overrides, id);
    if ids_of(overrides).contains(id) {
        lemma_last_index_found(ids_of(overrides), id);
    }
}

proof fn lemma_last_index_found(keys: Seq<Seq<char>>, k: Seq<char>)
    requires
        keys.contains(k),
    ensures
        last_index_of(keys, k) >= 0,
    decreases keys.len(),
{
    if keys.last() != k {
        let m = choose|m: int| 0 <= m < keys.len() && keys[m] == k;
        assert(keys.drop_last()[m] == k);
        lemma_last_index_found(keys.drop_last(), k);
    }
}

} // verus!
