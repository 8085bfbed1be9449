//! Laws of the reconciliation pass: enforcement is idempotent, a fixed
//! snapshot scans clean, and ignored paths are never reported.

use vstd::prelude::*;

use crate::paths::ignored_path;
use crate::perm_bits;
use crate::scan::fixed_mode;
use crate::scan::is_violation;
use crate::scan::pass_model;
use crate::scan::scan_model;

verus! {

/// After enforcement a file carries exactly the target's permission bits.
pub proof fn lemma_fixed_mode_compliant(mode: u32, target: u32)
    ensures
        perm_bits(fixed_mode(mode, target)) == perm_bits(target),
{
    assert((((mode & !0x1ffu32) | (target & 0x1ff)) & 0x1ff) == (target & 0x1ff)) by (bit_vector);
}

/// Enforcement only touches the nine permission bits.
pub proof fn lemma_fixed_mode_keeps_high_bits(mode: u32, target: u32)
    ensures
        fixed_mode(mode, target) & !0x1ffu32 == mode & !0x1ffu32,
{
    assert((((mode & !0x1ffu32) | (target & 0x1ff)) & !0x1ffu32) == (mode & !0x1ffu32))
        by (bit_vector);
}

/// Enforcement is idempotent: re-fixing an already fixed mode changes
/// nothing.
pub proof fn lemma_enforce_idempotent(mode: u32, target: u32)
    ensures
        fixed_mode(fixed_mode(mode, target), target) == fixed_mode(mode, target),
{
    assert(((((mode & !0x1ffu32) | (target & 0x1ff)) & !0x1ffu32) | (target & 0x1ff)) == ((mode
        & !0x1ffu32) | (target & 0x1ff))) by (bit_vector);
}

/// A whole pass is idempotent: running it twice over a snapshot leaves
/// exactly what one run leaves.
pub proof fn lemma_pass_idempotent(files: Seq<(Seq<char>, u32)>, ignores: Seq<Seq<char>>, t: u32)
    ensures
        pass_model(pass_model(files, ignores, t), ignores, t) == pass_model(files, ignores, t),
{
    let p1 = pass_model(files, ignores, t);
    let p2 = pass_model(p1, ignores, t);
    assert forall|j: int| 0 <= j < p1.len() implies p2[j] == p1[j] by {
        let f = files[j];
        if is_violation(f.0, f.1, ignores, t) {
            lemma_fixed_mode_compliant(f.1, t);
        }
    }
    assert(p2 =~= p1);
}

/// Every reported violation really is one: not ignored, and with
/// permission bits differing from the target's.
pub proof fn lemma_scan_reports_only_violations(
    files: Seq<(Seq<char>, u32)>,
    ignores: Seq<Seq<char>>,
    t: u32,
)
    ensures
        forall|j: int|
            0 <= j < scan_model(files, ignores, t).len() ==> is_violation(
                scan_model(files, ignores, t)[j].0,
                scan_model(files, ignores, t)[j].1,
                ignores,
                t,
            ),
    decreases files.len(),
{
    if files.len() > 0 {
        lemma_scan_reports_only_violations(files.drop_last(), ignores, t);
        let rest = scan_model(files.drop_last(), ignores, t);
        let s = scan_model(files, ignores, t);
        let f = files.last();
        assert forall|j: int| 0 <= j < s.len() implies is_violation(s[j].0, s[j].1, ignores, t) by {
            if j < rest.len() {
                assert(s[j] == rest[j]);
            } else {
                assert(s[j] == f);
            }
        }
    }
}

/// Ignore correctness: a path under a configured ignore root is never
/// reported as a violation, whatever mode any scan observes for it.
pub proof fn lemma_ignored_never_reported(
    files: Seq<(Seq<char>, u32)>,
    ignores: Seq<Seq<char>>,
    t: u32,
    p: Seq<char>,
)
    requires
        ignored_path(p, ignores),
    ensures
        forall|j: int|
            0 <= j < scan_model(files, ignores, t).len() ==> scan_model(files, ignores, t)[j].0
                != p,
    decreases files.len(),
{
    lemma_scan_reports_only_violations(files, ignores, t);
}

/// A snapshot a pass has fixed scans clean: the next pass reports no
/// violation at all.
pub proof fn lemma_scan_after_pass_clean(
    files: Seq<(Seq<char>, u32)>,
    ignores: Seq<Seq<char>>,
    t: u32,
)
    ensures
        scan_model(pass_model(files, ignores, t), ignores, t) == Seq::<(Seq<char>, u32)>::empty(),
    decreases files.len(),
{
    let p = pass_model(files, ignores, t);
    if files.len() == 0 {
        assert(p =~= Seq::<(Seq<char>, u32)>::empty());
    } else {
        lemma_scan_after_pass_clean(files.drop_last(), ignores, t);
        assert(p.drop_last() =~= pass_model(files.drop_last(), ignores, t));
        let f = files.last();
        if is_violation(f.0, f.1, ignores, t) {
            lemma_fixed_mode_compliant(f.1, t);
        }
        assert(!is_violation(p.last().0, p.last().1, ignores, t));
    }
}

} // verus!
