//! The reconciliation pass over observed files: deciding which files are
//! out of compliance, what mode each must receive, and how a whole pass
//! treats its watch roots, together with the laws of those decisions.
//!
//! The library works on snapshots of observed values (`path`, `mode`);
//! walking a directory tree and changing a file's mode are I/O and live
//! with the caller.

use vstd::prelude::*;

use crate::mask_perm_bits;
use crate::paths::ignored_path;
use crate::paths::should_process_file;
use crate::perm_bits;

verus! {

/// One observed file: its path and its current permission bits.
pub struct FileEntry {
    pub path: String,
    pub mode: u32,
}

/// A file whose permission bits differ from the target: the scanner's
/// report, consumed by the enforcer within the same pass.
pub struct Violation {
    pub path: String,
    pub mode: u32,
}

/// One planned permission change: the enforcer's decision for one file.
pub struct ModeChange {
    pub path: String,
    pub new_mode: u32,
}

/// The mathematical model of one observed file.
pub open spec fn entry_model(e: FileEntry) -> (Seq<char>, u32) {
    (e.path@, e.mode)
}

/// The model of a snapshot of observed files.
pub open spec fn entries_model(s: Seq<FileEntry>) -> Seq<(Seq<char>, u32)> {
    s.map_values(|e: FileEntry| entry_model(e))
}

/// The model of one reported violation.
pub open spec fn violation_model(v: Violation) -> (Seq<char>, u32) {
    (v.path@, v.mode)
}

/// The model of a violation report.
pub open spec fn violations_model(s: Seq<Violation>) -> Seq<(Seq<char>, u32)> {
    s.map_values(|v: Violation| violation_model(v))
}

/// The model of one planned change.
pub open spec fn change_model(c: ModeChange) -> (Seq<char>, u32) {
    (c.path@, c.new_mode)
}

/// The model of a change plan.
pub open spec fn changes_model(s: Seq<ModeChange>) -> Seq<(Seq<char>, u32)> {
    s.map_values(|c: ModeChange| change_model(c))
}

/// A file is a violation when it is not ignored and its permission bits
/// differ from the target's.
pub open spec fn is_violation(
    path: Seq<char>,
    mode: u32,
    ignores: Seq<Seq<char>>,
    target: u32,
) -> bool {
    !ignored_path(path, ignores) && perm_bits(mode) != perm_bits(target)
}

/// What a scan of a snapshot reports: the violations, in snapshot order.
pub open spec fn scan_model(
    files: Seq<(Seq<char>, u32)>,
    ignores: Seq<Seq<char>>,
    target: u32,
) -> Seq<(Seq<char>, u32)>
    decreases files.len(),
{
    if files.len() == 0 {
        Seq::empty()
    } else {
        let rest = scan_model(files.drop_last(), ignores, target);
        let f = files.last();
        if is_violation(f.0, f.1, ignores, target) {
            rest.push(f)
        } else {
            rest
        }
    }
}

/// The mode the enforcer gives a file: the target's permission bits,
/// overwriting the low nine bits and leaving the rest of the mode alone.
pub open spec fn fixed_mode(mode: u32, target: u32) -> u32 {
    (mode & !0x1ffu32) | (target & 0x1ff)
}

/// The enforcer's plan for a violation report: each reported file receives
/// the fixed mode.
pub open spec fn fixes_of(
    violations: Seq<(Seq<char>, u32)>,
    target: u32,
) -> Seq<(Seq<char>, u32)> {
    violations.map_values(|f: (Seq<char>, u32)| (f.0, fixed_mode(f.1, target)))
}

/// The effect of one whole pass (scan, then enforce the violations found)
/// on a snapshot: violating files get the fixed mode, the rest are left
/// alone.
pub open spec fn pass_model(
    files: Seq<(Seq<char>, u32)>,
    ignores: Seq<Seq<char>>,
    target: u32,
) -> Seq<(Seq<char>, u32)> {
    files.map_values(
        |f: (Seq<char>, u32)|
            if is_violation(f.0, f.1, ignores, target) {
                (f.0, fixed_mode(f.1, target))
            } else {
                f
            },
    )
}

/// Mapping a report to its model commutes with appending one violation.
proof fn lemma_violations_model_push(s: Seq<Violation>, v: Violation)
    ensures
        violations_model(s.push(v)) =~= violations_model(s).push(violation_model(v)),
{
}

/// Mapping a plan to its model commutes with appending one change.
proof fn lemma_changes_model_push(s: Seq<ModeChange>, c: ModeChange)
    ensures
        changes_model(s.push(c)) =~= changes_model(s).push(change_model(c)),
{
}

/// Mapping a snapshot to its model commutes with appending one file.
proof fn lemma_entries_model_push(s: Seq<FileEntry>, e: FileEntry)
    ensures
        entries_model(s.push(e)) =~= entries_model(s).push(entry_model(e)),
{
}

/// The enforcer's plan grows pointwise with the report.
proof fn lemma_fixes_of_push(s: Seq<(Seq<char>, u32)>, f: (Seq<char>, u32), t: u32)
    ensures
        fixes_of(s.push(f), t) =~= fixes_of(s, t).push((f.0, fixed_mode(f.1, t))),
{
}

/// A pass treats an appended file independently of the rest.
proof fn lemma_pass_model_push(
    s: Seq<(Seq<char>, u32)>,
    f: (Seq<char>, u32),
    ignores: Seq<Seq<char>>,
    t: u32,
)
    ensures
        pass_model(s.push(f), ignores, t) =~= pass_model(s, ignores, t).push(
            if is_violation(f.0, f.1, ignores, t) {
                (f.0, fixed_mode(f.1, t))
            } else {
                f
            },
        ),
{
}

/// Scan a snapshot of observed files: report, in order, every non-ignored
/// file whose permission bits differ from the target's.
pub fn check_permissions(
    entries: &Vec<FileEntry>,
    ignore_dirs: &Vec<String>,
    target_mode: u32,
) -> (r: Vec<Violation>)
    ensures
        violations_model(r@) == scan_model(
            entries_model(entries@),
            ignore_dirs.deep_view(),
            target_mode,
        ),
{
    let ghost ig = ignore_dirs.deep_view();
    let mut r: Vec<Violation> = Vec::new();
    let mut i: usize = 0;
    proof {
        assert(violations_model(r@) =~= scan_model(
            entries_model(entries@.subrange(0, 0)),
            ig,
            target_mode,
        ));
    }
    while i < entries.len()
        invariant
            0 <= i <= entries@.len(),
            ig == ignore_dirs.deep_view(),
            violations_model(r@) == scan_model(
                entries_model(entries@.subrange(0, i as int)),
                ig,
                target_mode,
            ),
        decreases entries@.len() - i,
    {
        let e = &entries[i];
        let keep = should_process_file(e.path.as_str(), ignore_dirs);
        let wrong = mask_perm_bits(e.mode) != mask_perm_bits(target_mode);
        proof {
            let pre = entries_model(entries@.subrange(0, i as int));
            let cur = entries_model(entries@.subrange(0, i + 1));
            assert(cur.drop_last() =~= pre);
            assert(cur.last() == entry_model(entries@[i as int]));
        }
        if keep && wrong {
            let v = Violation { path: e.path.clone(), mode: e.mode };
            r.push(v);
            proof {
                let pre = scan_model(entries_model(entries@.subrange(0, i as int)), ig, target_mode);
                assert(violations_model(r@) =~= pre.push(entry_model(entries@[i as int])));
            }
        }
        i = i + 1;
    }
    proof {
        assert(entries@.subrange(0, entries@.len() as int) =~= entries@);
    }
    r
}

/// The mode the enforcer writes for one file.
pub fn enforce_mode(mode: u32, target_mode: u32) -> (r: u32)
    ensures
        r == fixed_mode(mode, target_mode),
{
    (mode & !0x1ffu32) | (target_mode & 0x1ff)
}

/// Turn a violation report into the enforcer's change plan: every reported
/// file, in order, receives the fixed mode. Order of application carries
/// no meaning; failures applying single changes are the caller's to log,
/// and never abort the rest of the batch.
pub fn change_permissions(violations: &Vec<Violation>, target_mode: u32) -> (r: Vec<ModeChange>)
    ensures
        changes_model(r@) == fixes_of(violations_model(violations@), target_mode),
{
    let mut r: Vec<ModeChange> = Vec::new();
    let mut i: usize = 0;
    while i < violations.len()
        invariant
            0 <= i <= violations@.len(),
            changes_model(r@) == fixes_of(
                violations_model(violations@.subrange(0, i as int)),
                target_mode,
            ),
        decreases violations@.len() - i,
    {
        let v = &violations[i];
        let ghost r0 = r@;
        let c = ModeChange { path: v.path.clone(), new_mode: enforce_mode(v.mode, target_mode) };
        proof {
            let pre = violations@.subrange(0, i as int);
            let cur = violations@.subrange(0, i + 1);
            let w = violations@[i as int];
            assert(cur =~= pre.push(w));
            lemma_violations_model_push(pre, w);
            lemma_fixes_of_push(violations_model(pre), violation_model(w), target_mode);
            lemma_changes_model_push(r0, c);
            assert(changes_model(r0.push(c)) =~= fixes_of(violations_model(cur), target_mode));
        }
        r.push(c);
        i = i + 1;
    }
    proof {
        assert(violations@.subrange(0, violations@.len() as int) =~= violations@);
    }
    r
}

/// One whole pass on a snapshot: each violating file's mode is fixed, the
/// rest are left unchanged.
pub fn run_pass(entries: &Vec<FileEntry>, ignore_dirs: &Vec<String>, target_mode: u32) -> (r: Vec<
    FileEntry,
>)
    ensures
        entries_model(r@) == pass_model(
            entries_model(entries@),
            ignore_dirs.deep_view(),
            target_mode,
        ),
{
    let ghost ig = ignore_dirs.deep_view();
    let mut r: Vec<FileEntry> = Vec::new();
    let mut i: usize = 0;
    while i < entries.len()
        invariant
            0 <= i <= entries@.len(),
            ig == ignore_dirs.deep_view(),
            entries_model(r@) == pass_model(
                entries_model(entries@.subrange(0, i as int)),
                ig,
                target_mode,
            ),
        decreases entries@.len() - i,
    {
        let e = &entries[i];
        let keep = should_process_file(e.path.as_str(), ignore_dirs);
        let wrong = mask_perm_bits(e.mode) != mask_perm_bits(target_mode);
        let new_mode = if keep && wrong {
            enforce_mode(e.mode, target_mode)
        } else {
            e.mode
        };
        let ghost r0 = r@;
        let f = FileEntry { path: e.path.clone(), mode: new_mode };
        proof {
            let pre = entries@.subrange(0, i as int);
            let cur = entries@.subrange(0, i + 1);
            let w = entries@[i as int];
            assert(cur =~= pre.push(w));
            lemma_entries_model_push(pre, w);
            lemma_pass_model_push(entries_model(pre), entry_model(w), ig, target_mode);
            lemma_entries_model_push(r0, f);
            assert(entries_model(r0.push(f)) =~= pass_model(entries_model(cur), ig, target_mode));
        }
        r.push(f);
        i = i + 1;
    }
    proof {
        assert(entries@.subrange(0, entries@.len() as int) =~= entries@);
    }
    r
}

} // verus!
