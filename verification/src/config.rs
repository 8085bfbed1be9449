//! The immutable configuration snapshot: watch roots, ignore roots and the
//! desired permission mode, together with parsing of the octal mode string.

use vstd::prelude::*;

verus! {

/// Immutable snapshot of the daemon's configuration, loaded once at startup.
pub struct Config {
    /// Directory trees whose permission compliance is enforced.
    pub watch_dirs: Vec<String>,
    /// Directory trees excluded from scanning and enforcement.
    pub ignore_dirs: Vec<String>,
    /// The target mode, as a string of octal digits (e.g. `"644"`).
    pub desired_permission: String,
}

/// A character standing for one octal digit.
pub open spec fn is_octal_digit(c: char) -> bool {
    '0' <= c && c <= '7'
}

/// The numeric value of one octal digit.
pub open spec fn octal_digit_value(c: char) -> nat
    recommends
        is_octal_digit(c),
{
    (c as nat - '0' as nat) as nat
}

/// The numeric value of a string of octal digits, most significant first.
pub open spec fn octal_value(s: Seq<char>) -> nat
    decreases s.len(),
{
    if s.len() == 0 {
        0
    } else {
        octal_value(s.drop_last()) * 8 + octal_digit_value(s.last())
    }
}

/// A mode string is valid when it is a non-empty run of octal digits whose
/// value fits in the nine permission bits.
pub open spec fn valid_mode_string(s: Seq<char>) -> bool {
    &&& s.len() > 0
    &&& forall|i: int| 0 <= i < s.len() ==> is_octal_digit(s[i])
    &&& octal_value(s) < 512
}

/// The value of an octal string never shrinks as digits are appended.
proof fn lemma_octal_value_prefix_bound(s: Seq<char>, i: int, j: int)
    requires
        0 <= i <= j <= s.len(),
    ensures
        octal_value(s.subrange(0, j)) >= octal_value(s.subrange(0, i)),
    decreases j - i,
{
    if i < j {
        lemma_octal_value_prefix_bound(s, i, j - 1);
        assert(s.subrange(0, j).drop_last() =~= s.subrange(0, j - 1));
    }
}

/// Parse a string of octal digits into a nine-bit permission mode.
///
/// Returns `Some` exactly on valid mode strings (non-empty, all octal
/// digits, value below `0o1000`), and then the parsed value.
pub fn parse_octal_mode(s: &str) -> (r: Option<u32>)
    ensures
        valid_mode_string(s@) ==> r == Some(octal_value(s@) as u32),
        !valid_mode_string(s@) ==> r is None,
{
    let n = s.unicode_len();
    if n == 0 {
        return None;
    }
    let mut acc: u32 = 0;
    let mut i: usize = 0;
    while i < n
        invariant
            0 < n == s@.len(),
            0 <= i <= n,
            forall|j: int| 0 <= j < i ==> is_octal_digit(s@[j]),
            acc < 512,
            acc == octal_value(s@.subrange(0, i as int)),
        decreases n - i,
    {
        let c = s.get_char(i);
        let v = c as u32;
        if v < 48 || v > 55 {
            assert(!is_octal_digit(s@[i as int]));
            assert(!valid_mode_string(s@));
            return None;
        }
        if acc >= 64 {
            proof {
                let p = s@.subrange(0, i as int);
                let q = s@.subrange(0, i + 1);
                assert(q.drop_last() =~= p);
                assert(octal_value(q) == octal_value(p) * 8 + octal_digit_value(q.last()));
                lemma_octal_value_prefix_bound(s@, i + 1, s@.len() as int);
                assert(s@.subrange(0, s@.len() as int) =~= s@);
                assert(octal_value(s@) >= 512);
            }
            return None;
        }
        acc = acc * 8 + (v - 48);
        proof {
            let p = s@.subrange(0, i as int);
            let q = s@.subrange(0, i + 1);
            assert(q.drop_last() =~= p);
            assert(q.last() == s@[i as int]);
        }
        i = i + 1;
    }
    proof {
        assert(s@.subrange(0, n as int) =~= s@);
    }
    Some(acc)
}

impl Config {
    /// The effective target mode of this configuration: the parsed
    /// `desired_permission`, or `None` when the string is malformed
    /// (a startup-fatal condition for the daemon).
    pub fn target_mode(&self) -> (r: Option<u32>)
        ensures
            valid_mode_string(self.desired_permission@) ==> r == Some(
                octal_value(self.desired_permission@) as u32,
            ),
            !valid_mode_string(self.desired_permission@) ==> r is None,
    {
        parse_octal_mode(self.desired_permission.as_str())
    }
}

impl Default for Config {
    /// The documented default configuration, used when no stored
    /// configuration exists.
    fn default() -> (c: Config)
        ensures
            c.watch_dirs@.len() == 1,
            c.watch_dirs@[0]@ == "./testdir"@,
            c.ignore_dirs@.len() == 1,
            c.ignore_dirs@[0]@ == "./testdir/ignoreme"@,
            c.desired_permission@ == "777"@,
    {
        let mut watch_dirs: Vec<String> = Vec::new();
        watch_dirs.push("./testdir".to_owned());
        let mut ignore_dirs: Vec<String> = Vec::new();
        ignore_dirs.push("./testdir/ignoreme".to_owned());
        Config { watch_dirs, ignore_dirs, desired_permission: "777".to_owned() }
    }
}

} // verus!
