//! The accumulator of file-status counts and the classification of a
//! single file-status code.

use vstd::prelude::*;
use vstd::string::*;
use crate::error::GitError;

verus! {

/// Counters accumulated over one parse of a status report.
///
/// `ahead` and `behind` count commits relative to the upstream tracking
/// branch; the other four classify reported files.  Every counted file
/// increments exactly one of {untracked, conflicted}, or zero, one or two
/// of {staged, non_staged} (a partially staged file counts in both).
#[derive(Clone, Copy, Debug, PartialEq, Eq, Structural)]
pub struct GitInfo {
    pub untracked: u32,
    pub conflicted: u32,
    pub non_staged: u32,
    pub ahead: u32,
    pub behind: u32,
    pub staged: u32,
}

/// Whether the counters classify the repository as dirty: some reported
/// file was counted.  Ahead and behind counts do not contribute.
pub open spec fn spec_dirty(info: GitInfo) -> bool {
    info.untracked + info.conflicted + info.staged + info.non_staged > 0
}

/// Increment that stops at the counter's maximum instead of overflowing.
pub open spec fn sat_inc(x: u32) -> u32 {
    if x == u32::MAX {
        x
    } else {
        (x + 1) as u32
    }
}

/// The two-character code of an untracked file.
pub open spec fn untracked_code() -> Seq<char> {
    seq!['?', '?']
}

/// The two-character codes that denote an unresolved three-way merge.
pub open spec fn conflicted_codes() -> Set<Seq<char>> {
    set![
        seq!['D', 'D'],
        seq!['A', 'U'],
        seq!['U', 'D'],
        seq!['U', 'A'],
        seq!['U', 'U'],
        seq!['D', 'U'],
        seq!['A', 'A'],
    ]
}

/// What one file-status code does to the counters.
///
/// An exact match of the untracked or a conflicted code increments that
/// single counter.  Any other code of at least two characters increments
/// `staged` when its first character is not a space and `non_staged` when
/// its second is not; a shorter code is a fatal failure.
pub open spec fn add_file_spec(info: GitInfo, code: Seq<char>) -> Result<GitInfo, GitError> {
    if code == untracked_code() {
        Ok(GitInfo { untracked: sat_inc(info.untracked), ..info })
    } else if conflicted_codes().contains(code) {
        Ok(GitInfo { conflicted: sat_inc(info.conflicted), ..info })
    } else if code.len() >= 2 {
        let with_non_staged = if code[1] != ' ' {
            GitInfo { non_staged: sat_inc(info.non_staged), ..info }
        } else {
            info
        };
        if code[0] != ' ' {
            Ok(GitInfo { staged: sat_inc(with_non_staged.staged), ..with_non_staged })
        } else {
            Ok(with_non_staged)
        }
    } else {
        Err(GitError::InvalidFileStatus)
    }
}

impl GitInfo {
    /// A fresh accumulator with every counter zero.
    pub fn new() -> (r: GitInfo)
        ensures
            r == (GitInfo { untracked: 0, conflicted: 0, non_staged: 0, ahead: 0, behind: 0, staged: 0 }),
    {
        GitInfo { untracked: 0, conflicted: 0, non_staged: 0, staged: 0, ahead: 0, behind: 0 }
    }

    /// Whether any reported file makes the repository dirty.  Ahead and
    /// behind counts do not contribute.
    pub fn is_dirty(&self) -> (r: bool)
        ensures
            r == spec_dirty(*self),
    {
        self.untracked > 0 || self.conflicted > 0 || self.staged > 0 || self.non_staged > 0
    }

    /// Classify one file-status code and update the counters, exactly as
    /// `add_file_spec` describes.  On failure the counters are unchanged.
    pub fn add_file(&mut self, begin: &str) -> (r: Result<(), GitError>)
        ensures
            match add_file_spec(*old(self), begin@) {
                Ok(info) => r is Ok && *final(self) == info,
                Err(e) => r == Err::<(), GitError>(e) && *final(self) == *old(self),
            },
    {
        let n = begin.unicode_len();
        if n < 2 {
            proof {
                assert(begin@ != untracked_code());
                assert(!conflicted_codes().contains(begin@));
            }
            return Err(GitError::InvalidFileStatus);
        }
        let a = begin.get_char(0);
        let b = begin.get_char(1);
        if n == 2 {
            if a == '?' && b == '?' {
                proof {
                    assert(begin@ =~= untracked_code());
                }
                self.untracked = increment(self.untracked);
                return Ok(());
            }
            if (a == 'D' && b == 'D') || (a == 'A' && b == 'U') || (a == 'U' && b == 'D')
                || (a == 'U' && b == 'A') || (a == 'U' && b == 'U') || (a == 'D' && b == 'U')
                || (a == 'A' && b == 'A') {
                proof {
                    assert(begin@ =~= seq![a, b]);
                    assert(conflicted_codes().contains(begin@));
                }
                self.conflicted = increment(self.conflicted);
                return Ok(());
            }
        }
        proof {
            assert(begin@ != untracked_code());
            lemma_not_conflicted(begin@, a, b);
        }
        if b != ' ' {
            self.non_staged = increment(self.non_staged);
        }
        if a != ' ' {
            self.staged = increment(self.staged);
        }
        Ok(())
    }
}

/// A code whose first two characters do not form one of the seven
/// conflicted pairs is not a conflicted code.
proof fn lemma_not_conflicted(code: Seq<char>, a: char, b: char)
    requires
        code.len() >= 2,
        a == code[0],
        b == code[1],
        code.len() == 2 ==> !((a == 'D' && b == 'D') || (a == 'A' && b == 'U') || (a == 'U'
            && b == 'D') || (a == 'U' && b == 'A') || (a == 'U' && b == 'U') || (a == 'D'
            && b == 'U') || (a == 'A' && b == 'A')),
    ensures
        !conflicted_codes().contains(code),
{
    if conflicted_codes().contains(code) {
        assert(code.len() == 2);
        assert(code =~= seq![a, b]);
    }
}

/// The untracked code increments the untracked counter and no other,
/// whatever the counters hold.
pub proof fn lemma_untracked_code(info: GitInfo)
    ensures
        add_file_spec(info, untracked_code()) == Ok::<GitInfo, GitError>(
            GitInfo { untracked: sat_inc(info.untracked), ..info },
        ),
{
}

/// An exact conflicted code increments the conflicted counter and no
/// other, whatever the counters hold.
pub proof fn lemma_conflicted_code(info: GitInfo, code: Seq<char>)
    requires
        conflicted_codes().contains(code),
    ensures
        add_file_spec(info, code) == Ok::<GitInfo, GitError>(
            GitInfo { conflicted: sat_inc(info.conflicted), ..info },
        ),
{
    assert(code != untracked_code());
}

/// A code `M ` increments staged alone, ` M` non-staged alone, and `MM`
/// both, whatever the counters hold.
pub proof fn lemma_staged_codes(info: GitInfo)
    ensures
        add_file_spec(info, seq!['M', ' ']) == Ok::<GitInfo, GitError>(
            GitInfo { staged: sat_inc(info.staged), ..info },
        ),
        add_file_spec(info, seq![' ', 'M']) == Ok::<GitInfo, GitError>(
            GitInfo { non_staged: sat_inc(info.non_staged), ..info },
        ),
        add_file_spec(info, seq!['M', 'M']) == Ok::<GitInfo, GitError>(
            GitInfo {
                staged: sat_inc(info.staged),
                non_staged: sat_inc(info.non_staged),
                ..info
            },
        ),
{
    assert(!conflicted_codes().contains(seq!['M', ' ']));
    assert(!conflicted_codes().contains(seq![' ', 'M']));
    assert(!conflicted_codes().contains(seq!['M', 'M']));
}

/// Saturating increment of one counter.
fn increment(x: u32) -> (r: u32)
    ensures
        r == sat_inc(x),
{
    if x < u32::MAX {
        x + 1
    } else {
        x
    }
}

} // verus!

