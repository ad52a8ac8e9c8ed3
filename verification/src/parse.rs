//! The full parse of a raw status report: split it into lines, resolve
//! the header line, classify every file-status line, and say whether the
//! branch label is resolved or the detached fallback is needed.

use vstd::prelude::*;
use vstd::string::*;
use vstd::utf8::{decode_utf8, valid_utf8};
use crate::branch::{
    ahead_pat, behind_pat, get_ahead_commits, get_behind_commits, get_branch_name,
    lemma_first_occ_some, spec_branch_name, token_count,
};
use crate::decode::bytes_to_str;
use crate::error::GitError;
use crate::scan::{find_sub, first_occ};
use crate::status::{add_file_spec, GitInfo};

verus! {

/// The first index of a line-feed byte at or after `i`.
pub open spec fn first_nl_from(data: Seq<u8>, i: int) -> Option<int>
    decreases data.len() - i + 1,
{
    if i < 0 || i >= data.len() {
        None
    } else if data[i] == 10 {
        Some(i)
    } else {
        first_nl_from(data, i + 1)
    }
}

/// A found first line feed is a line feed, with none before it.
proof fn lemma_first_nl_some(data: Seq<u8>, i: int, p: int)
    requires
        first_nl_from(data, i) == Some(p),
    ensures
        i <= p < data.len(),
        data[p] == 10,
    decreases data.len() - i + 1,
{
    if !(i < 0 || i >= data.len()) {
        if data[i] != 10 {
            lemma_first_nl_some(data, i + 1, p);
        }
    }
}

/// A line feed at `k` with none before it is the first.
proof fn lemma_first_nl_at(data: Seq<u8>, i: int, k: int)
    requires
        0 <= i <= k < data.len(),
        data[k] == 10,
        forall|l: int| i <= l < k ==> data[l] != 10,
    ensures
        first_nl_from(data, i) == Some(k),
    decreases k - i,
{
    if i < k {
        lemma_first_nl_at(data, i + 1, k);
    }
}

/// With no line feed at or after `i` there is no first one.
proof fn lemma_first_nl_none(data: Seq<u8>, i: int)
    requires
        i >= 0,
        forall|l: int| i <= l < data.len() ==> data[l] != 10,
    ensures
        first_nl_from(data, i) is None,
    decreases data.len() - i + 1,
{
    if i < data.len() {
        lemma_first_nl_none(data, i + 1);
    }
}

/// The lines of a report: the pieces between line-feed bytes, in order.
/// A report with n line feeds yields n + 1 pieces; an empty report
/// yields one empty piece.
pub open spec fn split_lines(data: Seq<u8>) -> Seq<Seq<u8>>
    decreases data.len(),
    via split_lines_decreases
{
    match first_nl_from(data, 0) {
        None => seq![data],
        Some(p) => seq![data.take(p)] + split_lines(data.skip(p + 1)),
    }
}

#[via_fn]
proof fn split_lines_decreases(data: Seq<u8>) {
    if first_nl_from(data, 0) is Some {
        lemma_first_nl_some(data, 0, first_nl_from(data, 0).unwrap());
    }
}

/// Copy the bytes of `raw` in `[from, to)`.
fn copy_range(raw: &Vec<u8>, from: usize, to: usize) -> (r: Vec<u8>)
    requires
        from <= to <= raw@.len(),
    ensures
        r@ == raw@.subrange(from as int, to as int),
{
    let mut v: Vec<u8> = Vec::new();
    let mut k = from;
    while k < to
        invariant
            from <= k <= to <= raw@.len(),
            v@ == raw@.subrange(from as int, k as int),
        decreases to - k,
    {
        v.push(raw[k]);
        proof {
            assert(v@ =~= raw@.subrange(from as int, k + 1));
        }
        k += 1;
    }
    v
}

/// Split a raw report into its lines, exactly as `split_lines` describes.
fn split_lines_exec(raw: &Vec<u8>) -> (r: Vec<Vec<u8>>)
    ensures
        r.deep_view() == split_lines(raw@),
        r@.len() >= 1,
{
    let n = raw.len();
    let mut out: Vec<Vec<u8>> = Vec::new();
    let mut start: usize = 0;
    let mut finished = false;
    proof {
        assert(raw@.skip(0) =~= raw@);
        assert(out.deep_view() =~~= Seq::<Seq<u8>>::empty());
        assert(Seq::<Seq<u8>>::empty() + split_lines(raw@) =~= split_lines(raw@));
    }
    while !finished
        invariant
            start <= n,
            n == raw@.len(),
            !finished ==> split_lines(raw@) == out.deep_view() + split_lines(
                raw@.skip(start as int),
            ),
            finished ==> out.deep_view() == split_lines(raw@) && out@.len() >= 1,
        decreases (if finished { 0int } else { n - start + 1 }),
    {
        let ghost prev = out.deep_view();
        let ghost tail = raw@.skip(start as int);
        let mut j = start;
        while j < n && raw[j] != 10
            invariant
                start <= j <= n,
                n == raw@.len(),
                forall|l: int| start <= l < j ==> raw@[l] != 10,
            decreases n - j,
        {
            j += 1;
        }
        let line = copy_range(raw, start, j);
        out.push(line);
        proof {
            assert(out.deep_view() =~~= prev.push(line@));
        }
        if j < n {
            proof {
                assert forall|l: int| 0 <= l < j - start implies tail[l] != 10 by {
                    assert(tail[l] == raw@[start + l]);
                }
                assert(tail[j - start] == raw@[j as int]);
                lemma_first_nl_at(tail, 0, j - start);
                assert(tail.take(j - start) =~= line@);
                assert(tail.skip(j - start + 1) =~= raw@.skip(j + 1));
                assert(prev.push(line@) + split_lines(raw@.skip(j + 1)) =~= prev + (seq![line@]
                    + split_lines(raw@.skip(j + 1))));
            }
            start = j + 1;
        } else {
            proof {
                assert forall|l: int| 0 <= l < tail.len() implies tail[l] != 10 by {
                    assert(tail[l] == raw@[start + l]);
                }
                lemma_first_nl_none(tail, 0);
                assert(tail =~= line@);
                assert(prev.push(line@) =~= prev + seq![line@]);
            }
            finished = true;
        }
    }
    out
}

/// What one byte line does to the counters: a line shorter than two
/// bytes carries no status code and is passed over; otherwise its first
/// two bytes must decode to a status code, which is classified.
pub open spec fn file_step(info: GitInfo, line: Seq<u8>) -> Result<GitInfo, GitError> {
    if line.len() < 2 {
        Ok(info)
    } else if !valid_utf8(line.take(2)) {
        Err(GitError::InvalidUtf8)
    } else {
        add_file_spec(info, decode_utf8(line.take(2)))
    }
}

/// Fold `file_step` over the file-status lines, stopping at the first
/// failure.
pub open spec fn fold_files(info: GitInfo, lines: Seq<Seq<u8>>) -> Result<GitInfo, GitError>
    decreases lines.len(),
{
    if lines.len() == 0 {
        Ok(info)
    } else {
        match file_step(info, lines[0]) {
            Err(e) => Err(e),
            Ok(i2) => fold_files(i2, lines.drop_first()),
        }
    }
}

/// A counter value read from the tracking info: the count when its token
/// occurred, zero contribution otherwise.
pub open spec fn count_u32(c: Option<nat>) -> u32 {
    match c {
        None => 0u32,
        Some(v) => v as u32,
    }
}

/// The counters before any file-status line is read: all zero but for
/// ahead and behind, which are read from the header line's bracketed
/// tracking info — only when the line resolves to a plain branch name
/// and contains a `[`.
pub open spec fn initial_info(blc: Seq<char>) -> GitInfo {
    let zero = GitInfo { untracked: 0, conflicted: 0, non_staged: 0, ahead: 0, behind: 0, staged: 0 };
    if spec_branch_name(blc) is Some {
        match first_occ(blc, seq!['[']) {
            Some(p) => GitInfo {
                ahead: count_u32(token_count(blc.skip(p), ahead_pat(), 6)),
                behind: count_u32(token_count(blc.skip(p), behind_pat(), 7)),
                ..zero
            },
            None => zero,
        }
    } else {
        zero
    }
}

/// Whether one byte line folds without failure, which does not depend on
/// the counters it is folded onto: it is passed over, or its first two
/// bytes decode to at least two characters.
pub open spec fn step_ok(line: Seq<u8>) -> bool {
    ||| line.len() < 2
    ||| (valid_utf8(line.take(2)) && decode_utf8(line.take(2)).len() >= 2)
}

/// The line counts as untracked: its code is the exact untracked code.
pub open spec fn counts_untracked(line: Seq<u8>) -> bool {
    line.len() >= 2 && valid_utf8(line.take(2)) && decode_utf8(line.take(2))
        == crate::status::untracked_code()
}

/// The line counts as conflicted: its code is an exact conflicted code.
pub open spec fn counts_conflicted(line: Seq<u8>) -> bool {
    line.len() >= 2 && valid_utf8(line.take(2)) && crate::status::conflicted_codes().contains(
        decode_utf8(line.take(2)),
    )
}

/// The line counts as staged: no exact code, and the first character of
/// its code is not a space.
pub open spec fn counts_staged(line: Seq<u8>) -> bool {
    &&& line.len() >= 2
    &&& valid_utf8(line.take(2))
    &&& decode_utf8(line.take(2)) != crate::status::untracked_code()
    &&& !crate::status::conflicted_codes().contains(decode_utf8(line.take(2)))
    &&& decode_utf8(line.take(2)).len() >= 2
    &&& decode_utf8(line.take(2))[0] != ' '
}

/// The line counts as non-staged: no exact code, and the second
/// character of its code is not a space.
pub open spec fn counts_non_staged(line: Seq<u8>) -> bool {
    &&& line.len() >= 2
    &&& valid_utf8(line.take(2))
    &&& decode_utf8(line.take(2)) != crate::status::untracked_code()
    &&& !crate::status::conflicted_codes().contains(decode_utf8(line.take(2)))
    &&& decode_utf8(line.take(2)).len() >= 2
    &&& decode_utf8(line.take(2))[1] != ' '
}

/// What one successful step does to the counters, spelled out per
/// counter: each file counter is incremented exactly when its predicate
/// holds of the line; ahead and behind are untouched.
proof fn lemma_step_effect(info: GitInfo, line: Seq<u8>)
    requires
        file_step(info, line) is Ok,
    ensures
        file_step(info, line) == Ok::<GitInfo, GitError>(
            GitInfo {
                untracked: if counts_untracked(line) {
                    crate::status::sat_inc(info.untracked)
                } else {
                    info.untracked
                },
                conflicted: if counts_conflicted(line) {
                    crate::status::sat_inc(info.conflicted)
                } else {
                    info.conflicted
                },
                staged: if counts_staged(line) {
                    crate::status::sat_inc(info.staged)
                } else {
                    info.staged
                },
                non_staged: if counts_non_staged(line) {
                    crate::status::sat_inc(info.non_staged)
                } else {
                    info.non_staged
                },
                ahead: info.ahead,
                behind: info.behind,
            },
        ),
{
}

/// How many of the lines satisfy `f`.
pub open spec fn count_lines(lines: Seq<Seq<u8>>, f: spec_fn(Seq<u8>) -> bool) -> nat
    decreases lines.len(),
{
    if lines.len() == 0 {
        0
    } else {
        (if f(lines[0]) {
            1nat
        } else {
            0nat
        }) + count_lines(lines.drop_first(), f)
    }
}

/// Addition that stops at the counter's maximum instead of overflowing.
pub open spec fn sat_add(x: u32, k: nat) -> u32 {
    if x + k > u32::MAX {
        u32::MAX
    } else {
        (x + k) as u32
    }
}

/// The untracked predicate as one shared value.
pub open spec fn untracked_pred() -> spec_fn(Seq<u8>) -> bool {
    |l: Seq<u8>| counts_untracked(l)
}

/// The conflicted predicate as one shared value.
pub open spec fn conflicted_pred() -> spec_fn(Seq<u8>) -> bool {
    |l: Seq<u8>| counts_conflicted(l)
}

/// The staged predicate as one shared value.
pub open spec fn staged_pred() -> spec_fn(Seq<u8>) -> bool {
    |l: Seq<u8>| counts_staged(l)
}

/// The non-staged predicate as one shared value.
pub open spec fn non_staged_pred() -> spec_fn(Seq<u8>) -> bool {
    |l: Seq<u8>| counts_non_staged(l)
}

/// A fold that succeeds leaves each file counter at the saturating sum
/// of its initial value and the number of lines that count toward it,
/// and leaves ahead and behind untouched.
pub proof fn lemma_fold_counts(info: GitInfo, lines: Seq<Seq<u8>>)
    requires
        fold_files(info, lines) is Ok,
    ensures
        fold_files(info, lines) == Ok::<GitInfo, GitError>(
            GitInfo {
                untracked: sat_add(info.untracked, count_lines(lines, untracked_pred())),
                conflicted: sat_add(info.conflicted, count_lines(lines, conflicted_pred())),
                staged: sat_add(info.staged, count_lines(lines, staged_pred())),
                non_staged: sat_add(info.non_staged, count_lines(lines, non_staged_pred())),
                ahead: info.ahead,
                behind: info.behind,
            },
        ),
    decreases lines.len(),
{
    if lines.len() == 0 {
    } else {
        let i2 = file_step(info, lines[0]).unwrap();
        lemma_step_effect(info, lines[0]);
        lemma_fold_counts(i2, lines.drop_first());
        assert(untracked_pred()(lines[0]) == counts_untracked(lines[0]));
        assert(conflicted_pred()(lines[0]) == counts_conflicted(lines[0]));
        assert(staged_pred()(lines[0]) == counts_staged(lines[0]));
        assert(non_staged_pred()(lines[0]) == counts_non_staged(lines[0]));
    }
}

/// Removing the line at `j` removes exactly its contribution to the
/// count.
proof fn lemma_count_remove(s: Seq<Seq<u8>>, f: spec_fn(Seq<u8>) -> bool, j: int)
    requires
        0 <= j < s.len(),
    ensures
        count_lines(s, f) == count_lines(s.remove(j), f) + (if f(s[j]) {
            1nat
        } else {
            0nat
        }),
    decreases s.len(),
{
    if j == 0 {
        assert(s.remove(0) =~= s.drop_first());
    } else {
        lemma_count_remove(s.drop_first(), f, j - 1);
        assert(s.remove(j)[0] == s[0]);
        assert(s.remove(j).drop_first() =~= s.drop_first().remove(j - 1));
    }
}

/// Counting does not depend on the order of the lines: two sequences
/// holding the same lines the same number of times count alike.
proof fn lemma_count_permutation(
    lines1: Seq<Seq<u8>>,
    lines2: Seq<Seq<u8>>,
    f: spec_fn(Seq<u8>) -> bool,
)
    requires
        lines1.to_multiset() == lines2.to_multiset(),
    ensures
        count_lines(lines1, f) == count_lines(lines2, f),
    decreases lines1.len(),
{
    broadcast use vstd::seq_lib::group_to_multiset_ensures;

    if lines1.len() == 0 {
        assert(lines1.to_multiset().len() == lines1.len());
        assert(lines2.to_multiset().len() == lines2.len());
        assert(lines2.len() == 0);
    } else {
        let l0 = lines1[0];
        assert(lines1.contains(l0));
        assert(lines2.to_multiset().count(l0) > 0);
        assert(lines2.contains(l0));
        let j = choose|i: int| 0 <= i < lines2.len() && lines2[i] == l0;
        assert(lines1.remove(0).to_multiset() =~= lines1.to_multiset().remove(l0));
        assert(lines2.remove(j).to_multiset() =~= lines2.to_multiset().remove(l0));
        assert(lines1.remove(0) =~= lines1.drop_first());
        lemma_count_remove(lines2, f, j);
        lemma_count_permutation(lines1.drop_first(), lines2.remove(j), f);
    }
}

/// The counters do not depend on the order of the file-status lines:
/// folding two sequences that hold the same lines the same number of
/// times, in any order, succeeds with the same counters.  With the fixed
/// emission order this makes the emitted segments invariant under
/// reordering of the report's file-status lines.
pub proof fn lemma_fold_order_invariant(
    info: GitInfo,
    lines1: Seq<Seq<u8>>,
    lines2: Seq<Seq<u8>>,
)
    requires
        lines1.to_multiset() == lines2.to_multiset(),
        fold_files(info, lines1) is Ok,
        fold_files(info, lines2) is Ok,
    ensures
        fold_files(info, lines1) == fold_files(info, lines2),
{
    lemma_fold_counts(info, lines1);
    lemma_fold_counts(info, lines2);
    lemma_count_permutation(lines1, lines2, untracked_pred());
    lemma_count_permutation(lines1, lines2, conflicted_pred());
    lemma_count_permutation(lines1, lines2, staged_pred());
    lemma_count_permutation(lines1, lines2, non_staged_pred());
}

/// The outcome of a parse: nothing to show, a resolved branch label with
/// the counters, or counters whose branch label must come from the
/// detached fallback.
pub enum StatusParse {
    Empty,
    Resolved { info: GitInfo, branch: String },
    Detached { info: GitInfo },
}

/// The mathematical image of a `StatusParse`.
pub enum ParseModel {
    Empty,
    Resolved { info: GitInfo, branch: Seq<char> },
    Detached { info: GitInfo },
}

impl View for StatusParse {
    type V = ParseModel;

    open spec fn view(&self) -> ParseModel {
        match self {
            StatusParse::Empty => ParseModel::Empty,
            StatusParse::Resolved { info, branch } => ParseModel::Resolved {
                info: *info,
                branch: branch@,
            },
            StatusParse::Detached { info } => ParseModel::Detached { info: *info },
        }
    }
}

/// The whole parse. An empty report is no failure: it parses to
/// `Empty`. Otherwise the first line is the header: it must be UTF-8;
/// ahead and behind are read from it as `initial_info` describes, the
/// remaining lines are folded over the counters, and the outcome carries
/// the branch name when the header resolves to one.
pub open spec fn spec_parse(raw: Seq<u8>) -> Result<ParseModel, GitError> {
    if raw.len() == 0 {
        Ok(ParseModel::Empty)
    } else {
        let lines = split_lines(raw);
        let bl = lines[0];
        if !valid_utf8(bl) {
            Err(GitError::InvalidUtf8)
        } else {
            let blc = decode_utf8(bl);
            match fold_files(initial_info(blc), lines.drop_first()) {
                Err(e) => Err(e),
                Ok(info) => match spec_branch_name(blc) {
                    Some(bn) => Ok(ParseModel::Resolved { info, branch: bn }),
                    None => Ok(ParseModel::Detached { info }),
                },
            }
        }
    }
}

/// Parse a raw status report, exactly as `spec_parse` describes.  An
/// empty report always parses, to the empty outcome.
pub fn parse_status(raw: &Vec<u8>) -> (r: Result<StatusParse, GitError>)
    ensures
        r is Ok <==> spec_parse(raw@) is Ok,
        r matches Ok(p) ==> Some(p@) == spec_parse(raw@).ok(),
        r matches Err(e) ==> spec_parse(raw@) == Err::<ParseModel, GitError>(e),
        raw@.len() == 0 ==> (r matches Ok(p) && p@ == ParseModel::Empty),
{
    if raw.len() == 0 {
        return Ok(StatusParse::Empty);
    }
    let lines = split_lines_exec(raw);
    let ghost lseq = lines.deep_view();
    proof {
        assert(lseq.len() == lines@.len());
        assert(lseq[0] =~= lines@[0]@);
    }
    let bl_str = match bytes_to_str(lines[0].as_slice()) {
        None => {
            return Err(GitError::InvalidUtf8);
        },
        Some(t) => t,
    };
    let ghost blc = decode_utf8(lseq[0]);
    let branch_opt = get_branch_name(bl_str);
    let mut info = GitInfo::new();
    if branch_opt.is_some() {
        proof {
            reveal_strlit("[");
            assert("["@ =~= seq!['[']);
        }
        match find_sub(bl_str, "[") {
            Some(p) => {
                proof {
                    lemma_first_occ_some(blc, seq!['['], 0, p as int);
                }
                let nb = bl_str.unicode_len();
                let tracking = bl_str.substring_char(p, nb);
                proof {
                    assert(tracking@ =~= blc.skip(p as int));
                }
                info.ahead = match get_ahead_commits(tracking) {
                    Some(v) => v,
                    None => 0,
                };
                info.behind = match get_behind_commits(tracking) {
                    Some(v) => v,
                    None => 0,
                };
            },
            None => {},
        }
    }
    proof {
        assert(info == initial_info(blc));
    }
    let nl = lines.len();
    let mut k: usize = 1;
    proof {
        assert(lseq.skip(1) =~= lseq.drop_first());
    }
    while k < nl
        invariant
            1 <= k <= nl,
            nl == lseq.len(),
            lseq == lines.deep_view(),
            nl == lines@.len(),
            raw@.len() > 0,
            lseq == split_lines(raw@),
            valid_utf8(lseq[0]),
            blc == decode_utf8(lseq[0]),
            fold_files(initial_info(blc), lseq.drop_first()) == fold_files(info, lseq.skip(k as int)),
        decreases nl - k,
    {
        proof {
            assert(lseq[k as int] =~= lines@[k as int]@);
            assert(lseq.skip(k as int)[0] == lseq[k as int]);
            assert(lseq.skip(k as int).drop_first() =~= lseq.skip(k + 1));
        }
        let ghost info_before = info;
        let line = &lines[k];
        if line.len() >= 2 {
            let two = copy_range(line, 0, 2);
            proof {
                assert(two@ =~= lseq[k as int].take(2));
            }
            match bytes_to_str(two.as_slice()) {
                None => {
                    proof {
                        assert(file_step(info, lseq[k as int]) == Err::<GitInfo, GitError>(
                            GitError::InvalidUtf8,
                        ));
                        assert(fold_files(info, lseq.skip(k as int)) == Err::<GitInfo, GitError>(
                            GitError::InvalidUtf8,
                        ));
                        assert(spec_parse(raw@) == Err::<ParseModel, GitError>(
                            GitError::InvalidUtf8,
                        ));
                    }
                    return Err(GitError::InvalidUtf8);
                },
                Some(code) => {
                    let res = info.add_file(code);
                    match res {
                        Err(e) => {
                            proof {
                                assert(file_step(info_before, lseq[k as int]) == Err::<
                                    GitInfo,
                                    GitError,
                                >(e));
                                assert(fold_files(info_before, lseq.skip(k as int)) == Err::<
                                    GitInfo,
                                    GitError,
                                >(e));
                                assert(spec_parse(raw@) == Err::<ParseModel, GitError>(e));
                            }
                            return Err(e);
                        },
                        Ok(_) => {
                            proof {
                                assert(file_step(info_before, lseq[k as int]) == Ok::<
                                    GitInfo,
                                    GitError,
                                >(info));
                                assert(fold_files(info_before, lseq.skip(k as int)) == fold_files(
                                    info,
                                    lseq.skip(k + 1),
                                ));
                            }
                        },
                    }
                },
            }
        }
        k += 1;
    }
    proof {
        assert(lseq.skip(nl as int) =~= Seq::<Seq<u8>>::empty());
    }
    match branch_opt {
        Some(b) => Ok(StatusParse::Resolved { info, branch: String::from_str(b) }),
        None => Ok(StatusParse::Detached { info }),
    }
}

} // verus!
