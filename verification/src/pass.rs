//! One reconciliation pass across all watch roots: every root is decided
//! on its own scan alone, so a failure in one root never disturbs the
//! treatment of the roots listed after it.

use vstd::prelude::*;

use crate::scan::change_permissions;
use crate::scan::changes_model;
use crate::scan::check_permissions;
use crate::scan::entries_model;
use crate::scan::fixes_of;
use crate::scan::scan_model;
use crate::scan::FileEntry;
use crate::scan::ModeChange;

verus! {

/// What walking one watch root yielded: a snapshot of the files observed
/// under it, or a failure to read the root at all.
pub enum ScanOutcome {
    Scanned(Vec<FileEntry>),
    Failed,
}

/// The pass's decision for one watch root.
pub enum RootOutcome {
    /// The root could not be scanned; it is logged and skipped, and the
    /// next trigger retries it.
    ScanFailed,
    /// Every observed file already carries the target permission bits.
    Clean,
    /// The planned permission changes, one per violating file.
    Fixes(Vec<ModeChange>),
}

/// The model of a root's decision: `None` for a failed scan, otherwise
/// the planned changes (empty when the root is clean).
pub open spec fn outcome_model(o: RootOutcome) -> Option<Seq<(Seq<char>, u32)>> {
    match o {
        RootOutcome::ScanFailed => None,
        RootOutcome::Clean => Some(Seq::empty()),
        RootOutcome::Fixes(v) => Some(changes_model(v@)),
    }
}

/// What one root's decision must be, given its scan alone: nothing for a
/// failed scan, otherwise a fix for each violation the scan reports.
pub open spec fn root_decision(
    scan: ScanOutcome,
    ignores: Seq<Seq<char>>,
    target: u32,
) -> Option<Seq<(Seq<char>, u32)>> {
    match scan {
        ScanOutcome::Failed => None,
        ScanOutcome::Scanned(entries) => Some(
            fixes_of(scan_model(entries_model(entries@), ignores, target), target),
        ),
    }
}

/// Decide one watch root from its scan: skip a failed root, report a clean
/// one, and plan one change per violation otherwise.
pub fn decide_root(scan: &ScanOutcome, ignore_dirs: &Vec<String>, target_mode: u32) -> (r:
    RootOutcome)
    ensures
        outcome_model(r) == root_decision(*scan, ignore_dirs.deep_view(), target_mode),
        r is Fixes ==> outcome_model(r) != Some(Seq::<(Seq<char>, u32)>::empty()),
        r is Clean ==> root_decision(*scan, ignore_dirs.deep_view(), target_mode) == Some(
            Seq::<(Seq<char>, u32)>::empty(),
        ),
{
    match scan {
        ScanOutcome::Failed => RootOutcome::ScanFailed,
        ScanOutcome::Scanned(entries) => {
            let violations = check_permissions(entries, ignore_dirs, target_mode);
            if violations.len() == 0 {
                proof {
                    assert(fixes_of(
                        scan_model(entries_model(entries@), ignore_dirs.deep_view(), target_mode),
                        target_mode,
                    ) =~= Seq::<(Seq<char>, u32)>::empty());
                }
                RootOutcome::Clean
            } else {
                let changes = change_permissions(&violations, target_mode);
                RootOutcome::Fixes(changes)
            }
        },
    }
}

/// The contract of a whole pass: one decision per root, each pinned by
/// that root's own scan.
pub open spec fn run_check_post(
    scans: Seq<ScanOutcome>,
    outcomes: Seq<RootOutcome>,
    ignores: Seq<Seq<char>>,
    target: u32,
) -> bool {
    &&& outcomes.len() == scans.len()
    &&& forall|i: int|
        0 <= i < scans.len() ==> outcome_model(outcomes[i]) == root_decision(
            scans[i],
            ignores,
            target,
        )
}

/// Run one reconciliation pass over the scans of all watch roots, in
/// order. Each root is decided from its own scan alone: a root whose scan
/// failed is skipped, and every later root is still decided.
pub fn run_check(scans: &Vec<ScanOutcome>, ignore_dirs: &Vec<String>, target_mode: u32) -> (r: Vec<
    RootOutcome,
>)
    ensures
        run_check_post(scans@, r@, ignore_dirs.deep_view(), target_mode),
        forall|i: int|
            0 <= i < r@.len() ==> (r@[i] is Fixes ==> outcome_model(r@[i]) != Some(
                Seq::<(Seq<char>, u32)>::empty(),
            )),
{
    let ghost ig = ignore_dirs.deep_view();
    let mut r: Vec<RootOutcome> = Vec::new();
    let mut i: usize = 0;
    while i < scans.len()
        invariant
            0 <= i <= scans@.len(),
            ig == ignore_dirs.deep_view(),
            r@.len() == i,
            forall|j: int|
                0 <= j < i ==> outcome_model(r@[j]) == root_decision(scans@[j], ig, target_mode),
            forall|j: int|
                0 <= j < i ==> (r@[j] is Fixes ==> outcome_model(r@[j]) != Some(
                    Seq::<(Seq<char>, u32)>::empty(),
                )),
        decreases scans@.len() - i,
    {
        let o = decide_root(&scans[i], ignore_dirs, target_mode);
        r.push(o);
        i = i + 1;
    }
    r
}

/// Partial-failure isolation: in any two passes whose scans agree on one
/// root, the decision for that root is the same — whatever happened to the
/// other roots, including a failed scan of a root listed before it.
pub proof fn lemma_partial_failure_isolation(
    scans_a: Seq<ScanOutcome>,
    outcomes_a: Seq<RootOutcome>,
    scans_b: Seq<ScanOutcome>,
    outcomes_b: Seq<RootOutcome>,
    ignores: Seq<Seq<char>>,
    target: u32,
    j: int,
)
    requires
        run_check_post(scans_a, outcomes_a, ignores, target),
        run_check_post(scans_b, outcomes_b, ignores, target),
        0 <= j < scans_a.len(),
        0 <= j < scans_b.len(),
        scans_a[j] == scans_b[j],
    ensures
        outcome_model(outcomes_a[j]) == outcome_model(outcomes_b[j]),
{
}

} // verus!
