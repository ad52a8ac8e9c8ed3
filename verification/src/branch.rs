//! Resolution of the header ("branch") line of a status report: the
//! branch name, the ahead/behind counts in its tracking info, and the
//! fallback label used when no plain branch name is present.

use vstd::prelude::*;
use vstd::string::*;
use vstd::utf8::{decode_utf8, valid_utf8};
use crate::decode::bytes_to_str;
use crate::error::GitError;
use crate::scan::{
    first_number, first_occ, first_occ_from, get_first_number, find_sub, is_whitespace_char,
    is_ws, occurs_at,
};

verus! {

/// One pass of the branch-name scan over the header line with its
/// three-character marker already skipped.  `i` is the next character to
/// look at and `dots` the number of periods seen so far.
///
/// The result is the number of leading characters kept as the branch
/// name, or `None` when the line is not a plain branch header:
/// - a white-space character followed by anything but `[` fails the scan;
/// - a white-space character at the end, or followed by `[`, ends the
///   name just after the white space;
/// - the third period ends the name three characters back, where a
///   `...`-separated tracking section is taken to begin;
/// - running out of characters keeps the whole remainder.
pub open spec fn scan_branch(rest: Seq<char>, i: int, dots: int) -> Option<int>
    decreases rest.len() - i + 1,
{
    if i < 0 || i >= rest.len() {
        Some(i)
    } else if is_ws(rest[i]) {
        if i + 1 < rest.len() && rest[i + 1] != '[' {
            None
        } else {
            Some(i + 1)
        }
    } else if rest[i] == '.' {
        if dots + 1 == 3 {
            Some(i + 1 - 3)
        } else {
            scan_branch(rest, i + 1, dots + 1)
        }
    } else {
        scan_branch(rest, i + 1, dots)
    }
}

/// The branch name a header line resolves to, if it resolves to one.  A
/// line shorter than the three-character marker resolves to none.
pub open spec fn spec_branch_name(line: Seq<char>) -> Option<Seq<char>> {
    if line.len() < 3 {
        None
    } else {
        let rest = line.skip(3);
        match scan_branch(rest, 0, 0) {
            None => None,
            Some(end) => Some(rest.take(end)),
        }
    }
}

/// Resolve the branch name of the header line `s`, exactly as
/// `spec_branch_name` describes; `None` asks for the detached fallback.
pub fn get_branch_name<'a>(s: &'a str) -> (r: Option<&'a str>)
    ensures
        r is Some <==> spec_branch_name(s@) is Some,
        r matches Some(b) ==> Some(b@) == spec_branch_name(s@),
{
    let n = s.unicode_len();
    if n < 3 {
        return None;
    }
    let ghost rest = s@.skip(3);
    let mut i: usize = 3;
    let mut dots: u32 = 0;
    while i < n
        invariant
            n == s@.len(),
            3 <= i <= n,
            rest == s@.skip(3),
            dots <= 2,
            dots as int <= i - 3,
            scan_branch(rest, 0, 0) == scan_branch(rest, i - 3, dots as int),
        decreases n - i,
    {
        let c = s.get_char(i);
        proof {
            assert(rest[i - 3] == s@[i as int]);
        }
        if is_whitespace_char(c) {
            if i + 1 < n {
                let next = s.get_char(i + 1);
                proof {
                    assert(rest[i - 3 + 1] == s@[i + 1]);
                }
                if next != '[' {
                    return None;
                }
            }
            let b = s.substring_char(3, i + 1);
            proof {
                assert(rest.take(i - 3 + 1) =~= s@.subrange(3, i + 1));
            }
            return Some(b);
        }
        if c == '.' {
            if dots == 2 {
                let b = s.substring_char(3, i - 2);
                proof {
                    assert(rest.take(i - 5) =~= s@.subrange(3, i - 2));
                }
                return Some(b);
            }
            dots += 1;
        }
        i += 1;
    }
    let b = s.substring_char(3, n);
    proof {
        assert(rest.take(n - 3) =~= s@.subrange(3, n as int));
    }
    Some(b)
}

/// The token that announces the ahead count in the tracking info.
pub open spec fn ahead_pat() -> Seq<char> {
    seq!['a', 'h', 'e', 'a', 'd']
}

/// The token that announces the behind count in the tracking info.
pub open spec fn behind_pat() -> Seq<char> {
    seq!['b', 'e', 'h', 'i', 'n', 'd']
}

/// The count announced by `pat` in `s`: skip exactly `skip` characters
/// past the start of its first occurrence (clipped to the end of `s`) and
/// read the leading digit run there, reduced modulo 2^32.  `None` when
/// the token does not occur.
pub open spec fn token_count(s: Seq<char>, pat: Seq<char>, skip: int) -> Option<nat> {
    match first_occ(s, pat) {
        None => None,
        Some(p) => {
            let start = if p + skip <= s.len() {
                p + skip
            } else {
                s.len() as int
            };
            Some(first_number(s.skip(start)) % 0x1_0000_0000)
        },
    }
}

/// A found first occurrence is an occurrence, at or after the start of
/// the search.
pub proof fn lemma_first_occ_some(s: Seq<char>, pat: Seq<char>, i: int, p: int)
    requires
        first_occ_from(s, pat, i) == Some(p),
    ensures
        occurs_at(s, pat, p),
        i <= p,
    decreases s.len() - i + 1,
{
    if !(i < 0 || i + pat.len() > s.len()) {
        if !occurs_at(s, pat, i) {
            lemma_first_occ_some(s, pat, i + 1, p);
        }
    }
}

/// The ahead count of the tracking info `s`, six characters past the
/// first `ahead` token, as `token_count` describes.
pub fn get_ahead_commits(s: &str) -> (r: Option<u32>)
    ensures
        r is Some <==> token_count(s@, ahead_pat(), 6) is Some,
        r matches Some(v) ==> Some(v as nat) == token_count(s@, ahead_pat(), 6),
{
    proof {
        reveal_strlit("ahead");
        assert("ahead"@ =~= ahead_pat());
    }
    match find_sub(s, "ahead") {
        None => None,
        Some(pos) => {
            proof {
                lemma_first_occ_some(s@, ahead_pat(), 0, pos as int);
            }
            let n = s.unicode_len();
            let start = if n - pos > 6 {
                pos + 6
            } else {
                n
            };
            let rest = s.substring_char(start, n);
            proof {
                assert(s@.subrange(start as int, n as int) =~= s@.skip(start as int));
            }
            Some(get_first_number(rest))
        },
    }
}

/// The behind count of the tracking info `s`, seven characters past the
/// first `behind` token, as `token_count` describes.
pub fn get_behind_commits(s: &str) -> (r: Option<u32>)
    ensures
        r is Some <==> token_count(s@, behind_pat(), 7) is Some,
        r matches Some(v) ==> Some(v as nat) == token_count(s@, behind_pat(), 7),
{
    proof {
        reveal_strlit("behind");
        assert("behind"@ =~= behind_pat());
    }
    match find_sub(s, "behind") {
        None => None,
        Some(pos) => {
            proof {
                lemma_first_occ_some(s@, behind_pat(), 0, pos as int);
            }
            let n = s.unicode_len();
            let start = if n - pos > 7 {
                pos + 7
            } else {
                n
            };
            let rest = s.substring_char(start, n);
            proof {
                assert(s@.subrange(start as int, n as int) =~= s@.skip(start as int));
            }
            Some(get_first_number(rest))
        },
    }
}

/// The placeholder label for a repository with no commits at all.
pub open spec fn big_bang() -> Seq<char> {
    seq!['B', 'i', 'g', ' ', 'B', 'a', 'n', 'g']
}

/// The characters of `s` before its first line feed (all of `s` when it
/// has none).
pub open spec fn spec_first_line(s: Seq<char>) -> Seq<char> {
    match first_occ(s, seq!['\n']) {
        None => s,
        Some(p) => s.take(p),
    }
}

/// The label standing in for a branch name in the detached state, built
/// from the outcome of the describe query: its placeholder when the query
/// reported failure, else the first line of its output behind an anchor
/// mark; the output must then be UTF-8.
pub open spec fn spec_detached_label(success: bool, raw: Seq<u8>) -> Result<Seq<char>, GitError> {
    if !success {
        Ok(big_bang())
    } else if !valid_utf8(raw) {
        Err(GitError::InvalidUtf8)
    } else {
        Ok(seq!['\u{2693}'] + spec_first_line(decode_utf8(raw)))
    }
}

/// Build the detached-state label from the describe query's exit state
/// and raw output, exactly as `spec_detached_label` describes.
pub fn detached_branch_label(success: bool, raw: &Vec<u8>) -> (r: Result<String, GitError>)
    ensures
        r is Ok <==> spec_detached_label(success, raw@) is Ok,
        r matches Ok(l) ==> Some(l@) == spec_detached_label(success, raw@).ok(),
        r matches Err(e) ==> spec_detached_label(success, raw@) == Err::<Seq<char>, GitError>(e),
{
    if !success {
        proof {
            reveal_strlit("Big Bang");
            assert("Big Bang"@ =~= big_bang());
        }
        return Ok(String::from_str("Big Bang"));
    }
    match bytes_to_str(raw.as_slice()) {
        None => Err(GitError::InvalidUtf8),
        Some(t) => {
            proof {
                reveal_strlit("\n");
                assert("\n"@ =~= seq!['\n']);
            }
            let n = t.unicode_len();
            let end = match find_sub(t, "\n") {
                None => n,
                Some(p) => p,
            };
            proof {
                if first_occ(t@, seq!['\n']) is Some {
                    lemma_first_occ_some(t@, seq!['\n'], 0, first_occ(t@, seq!['\n']).unwrap());
                }
                assert(t@.subrange(0, end as int) =~= t@.take(end as int));
            }
            let first = t.substring_char(0, end);
            let mut l = String::from_str("\u{2693}");
            proof {
                reveal_strlit("\u{2693}");
                assert("\u{2693}"@ =~= seq!['\u{2693}']);
            }
            l.append(first);
            Ok(l)
        },
    }
}

} // verus!
