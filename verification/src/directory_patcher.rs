//! Driving the engine over many files and keeping the running totals.
//!
//! The patcher never touches the disk itself: the caller walks the tree,
//! reads each eligible file, hands its bytes in, and receives back the
//! replacement list to preview and — when a write is due — the patched
//! content to commit atomically.

use vstd::prelude::*;

use crate::file_patcher::{
    repl_views, spec_file_replacements, spec_patched_content, FilePatcher, Replacement,
};
use crate::filter::Settings;
use crate::lines::copy_bytes;
use crate::query::{Query, QueryV};
use crate::stats::{sat_add, Stats};

verus! {

/// What one file's processing produced: the ordered replacement list to
/// preview, and the patched content when — and only when — a write is due.
pub struct PatchOutcome {
    /// One entry per matching line, ascending 1-based line numbers.
    pub replacements: Vec<Replacement>,
    /// `Some` exactly when the file had a replacement and dry-run is off;
    /// the caller must then rewrite the file with these bytes, atomically.
    pub new_contents: Option<Vec<u8>>,
}

/// One file handed in by the caller: its path and its raw content.
pub struct FileEntry {
    pub path: Vec<u8>,
    pub contents: Vec<u8>,
}

/// The outcome of one file within a whole run.
pub struct FileReport {
    pub path: Vec<u8>,
    pub replacements: Vec<Replacement>,
    pub new_contents: Option<Vec<u8>>,
}

/// The replacement counts a run sees, one per file.
pub open spec fn counts_of(files: Seq<FileEntry>, q: QueryV) -> Seq<nat> {
    files.map_values(|f: FileEntry| spec_file_replacements(f.contents@, q).len())
}

/// The totals after recording one file per count: a file with no
/// replacement leaves the totals alone, any other adds one file and its
/// count, saturating at the machine limit.
pub open spec fn totals_after(files_patched: nat, total_replacements: nat, counts: Seq<
    nat,
>) -> (nat, nat)
    decreases counts.len(),
{
    if counts.len() == 0 {
        (files_patched, total_replacements)
    } else if counts[0] > 0 {
        totals_after(
            sat_add(files_patched, 1),
            sat_add(total_replacements, counts[0]),
            counts.skip(1),
        )
    } else {
        totals_after(files_patched, total_replacements, counts.skip(1))
    }
}

/// How many files have at least one replacement.
pub open spec fn count_nonzero(counts: Seq<nat>) -> nat
    decreases counts.len(),
{
    if counts.len() == 0 {
        0
    } else {
        (if counts[0] > 0 {
            1nat
        } else {
            0nat
        }) + count_nonzero(counts.skip(1))
    }
}

/// The sum of all counts.
pub open spec fn sum_of(counts: Seq<nat>) -> nat
    decreases counts.len(),
{
    if counts.len() == 0 {
        0
    } else {
        counts[0] + sum_of(counts.skip(1))
    }
}

/// The aggregate result: as long as the machine limit is not reached, the
/// totals a run hands back are exactly the number of files with a
/// non-empty replacement list plus the sum of those lists' lengths.
pub proof fn lemma_totals_exact(files_patched: nat, total_replacements: nat, counts: Seq<nat>)
    requires
        files_patched + count_nonzero(counts) <= usize::MAX as nat,
        total_replacements + sum_of(counts) <= usize::MAX as nat,
    ensures
        totals_after(files_patched, total_replacements, counts) == ((
            files_patched + count_nonzero(counts)
        ) as nat, (total_replacements + sum_of(counts)) as nat),
    decreases counts.len(),
{
    if counts.len() > 0 {
        if counts[0] > 0 {
            lemma_totals_exact(
                files_patched + 1,
                total_replacements + counts[0],
                counts.skip(1),
            );
        } else {
            lemma_totals_exact(files_patched, total_replacements, counts.skip(1));
        }
    }
}

/// Walks the eligible files of one root, patching as it goes. This core
/// holds the path, the settings and the totals; the filesystem work around
/// it is the caller's.
pub struct DirectoryPatcher {
    path: Vec<u8>,
    settings: Settings,
    stats: Stats,
}

impl DirectoryPatcher {
    /// The root path this patcher was made for.
    pub closed spec fn spec_path(self) -> Seq<u8> {
        self.path@
    }

    /// The settings this patcher runs under.
    pub closed spec fn spec_settings(self) -> Settings {
        self.settings
    }

    /// The totals so far.
    pub closed spec fn spec_stats(self) -> Stats {
        self.stats
    }

    /// A fresh patcher for a root path, with zeroed totals.
    pub fn new(path: Vec<u8>, settings: Settings) -> (r: DirectoryPatcher)
        ensures
            r.spec_path() == path@,
            r.spec_settings() == settings,
            r.spec_stats().spec_files_patched() == 0,
            r.spec_stats().spec_total_replacements() == 0,
    {
        let stats = Stats::default();
        DirectoryPatcher { path, settings, stats }
    }

    /// Give up the patcher and keep its totals.
    pub fn stats(self) -> (r: Stats)
        ensures
            r == self.spec_stats(),
    {
        self.stats
    }

    /// Process one file's content: compute its replacements, record them
    /// in the totals when there are any, and hand back the patched bytes
    /// exactly when a write is due (some replacement, and dry-run off).
    /// Binary content (a null byte) yields no replacement and no write.
    pub fn patch_file(&mut self, path: &Vec<u8>, contents: &Vec<u8>, query: &Query) -> (r:
        PatchOutcome)
        ensures
            repl_views(r.replacements@) == spec_file_replacements(contents@, query@),
            r.new_contents is Some <==> spec_file_replacements(contents@, query@).len() > 0 && !old(self).spec_settings().dry_run,
            r.new_contents is Some ==> r.new_contents.unwrap()@ == spec_patched_content(
                contents@,
                query@,
            ),
            final(self).spec_path() == old(self).spec_path(),
            final(self).spec_settings() == old(self).spec_settings(),
            spec_file_replacements(contents@, query@).len() == 0 ==> final(self).spec_stats()
                == old(self).spec_stats(),
            spec_file_replacements(contents@, query@).len() > 0 ==> final(self).spec_stats().spec_files_patched() == sat_add(
                old(self).spec_stats().spec_files_patched(),
                1,
            ) && final(self).spec_stats().spec_total_replacements() == sat_add(
                old(self).spec_stats().spec_total_replacements(),
                spec_file_replacements(contents@, query@).len(),
            ),
    {
        let file_patcher = match FilePatcher::build(path, contents, query) {
            None => {
                return PatchOutcome { replacements: Vec::new(), new_contents: None };
            },
            Some(f) => f,
        };
        let count = file_patcher.replacements().len();
        if count == 0 {
            let replacements = file_patcher.into_replacements();
            return PatchOutcome { replacements, new_contents: None };
        }
        self.stats.update(count);
        let new_contents = if self.settings.dry_run {
            None
        } else {
            Some(file_patcher.patched_contents())
        };
        let replacements = file_patcher.into_replacements();
        PatchOutcome { replacements, new_contents }
    }

    /// Process a batch of files in order: one report per file, and the
    /// totals advanced by exactly the non-empty replacement lists and the
    /// sum of their lengths.
    pub fn run(&mut self, query: &Query, files: &Vec<FileEntry>) -> (r: Vec<FileReport>)
        ensures
            r@.len() == files@.len(),
            forall|i: int|
                0 <= i < files@.len() ==> {
                    let rep = #[trigger] r@[i];
                    &&& rep.path@ == files@[i].path@
                    &&& repl_views(rep.replacements@) == spec_file_replacements(
                        files@[i].contents@,
                        query@,
                    )
                    &&& (rep.new_contents is Some <==> spec_file_replacements(
                        files@[i].contents@,
                        query@,
                    ).len() > 0 && !old(self).spec_settings().dry_run)
                    &&& rep.new_contents is Some ==> rep.new_contents.unwrap()@
                        == spec_patched_content(files@[i].contents@, query@)
                },
            final(self).spec_path() == old(self).spec_path(),
            final(self).spec_settings() == old(self).spec_settings(),
            (
                final(self).spec_stats().spec_files_patched(),
                final(self).spec_stats().spec_total_replacements(),
            ) == totals_after(
                old(self).spec_stats().spec_files_patched(),
                old(self).spec_stats().spec_total_replacements(),
                counts_of(files@, query@),
            ),
    {
        let ghost counts = counts_of(files@, query@);
        proof {
            assert(counts.skip(0) =~= counts);
        }
        let mut reports: Vec<FileReport> = Vec::new();
        let mut i: usize = 0;
        while i < files.len()
            invariant
                i <= files.len(),
                counts == counts_of(files@, query@),
                reports@.len() == i,
                self.spec_path() == old(self).spec_path(),
                self.spec_settings() == old(self).spec_settings(),
                forall|j: int|
                    0 <= j < i ==> {
                        let rep = #[trigger] reports@[j];
                        &&& rep.path@ == files@[j].path@
                        &&& repl_views(rep.replacements@) == spec_file_replacements(
                            files@[j].contents@,
                            query@,
                        )
                        &&& (rep.new_contents is Some <==> spec_file_replacements(
                            files@[j].contents@,
                            query@,
                        ).len() > 0 && !old(self).spec_settings().dry_run)
                        &&& rep.new_contents is Some ==> rep.new_contents.unwrap()@
                            == spec_patched_content(files@[j].contents@, query@)
                    },
                totals_after(
                    self.spec_stats().spec_files_patched(),
                    self.spec_stats().spec_total_replacements(),
                    counts.skip(i as int),
                ) == totals_after(
                    old(self).spec_stats().spec_files_patched(),
                    old(self).spec_stats().spec_total_replacements(),
                    counts,
                ),
            decreases files.len() - i,
        {
            let file = &files[i];
            proof {
                assert(counts[i as int] == spec_file_replacements(
                    files@[i as int].contents@,
                    query@,
                ).len());
                assert(counts.skip(i as int)[0] == counts[i as int]);
                assert(counts.skip(i as int).skip(1) =~= counts.skip(i as int + 1));
            }
            let outcome = self.patch_file(&file.path, &file.contents, query);
            let report = FileReport {
                path: copy_bytes(&file.path),
                replacements: outcome.replacements,
                new_contents: outcome.new_contents,
            };
            reports.push(report);
            i = i + 1;
        }
        proof {
            assert(counts.skip(counts.len() as int) =~= Seq::<nat>::empty());
        }
        reports
    }
}

} // verus!
