//! Display segments and their emission: the branch segment colored by
//! the dirty/clean state, then one segment per nonzero counter in a
//! fixed order.

use vstd::prelude::*;
use vstd::string::*;
use crate::color;
use crate::status::GitInfo;

verus! {

/// One display-ready unit: literal text with a foreground and a
/// background color.
pub struct Segment {
    pub text: String,
    pub fg: u8,
    pub bg: u8,
}

/// The mathematical image of a `Segment`.
pub struct SegView {
    pub text: Seq<char>,
    pub fg: u8,
    pub bg: u8,
}

impl View for Segment {
    type V = SegView;

    open spec fn view(&self) -> SegView {
        SegView { text: self.text@, fg: self.fg, bg: self.bg }
    }
}

impl Segment {
    /// A segment holding exactly the given text and colors.
    pub fn simple(text: &str, fg: u8, bg: u8) -> (r: Segment)
        ensures
            r@ == (SegView { text: text@, fg, bg }),
    {
        Segment { text: String::from_str(text), fg, bg }
    }
}

/// The views of a sequence of segments.
pub open spec fn seg_views(s: Seq<Segment>) -> Seq<SegView> {
    s.map_values(|x: Segment| x@)
}

/// The character of one decimal digit.
pub open spec fn digit_char(d: int) -> char {
    if d == 0 {
        '0'
    } else if d == 1 {
        '1'
    } else if d == 2 {
        '2'
    } else if d == 3 {
        '3'
    } else if d == 4 {
        '4'
    } else if d == 5 {
        '5'
    } else if d == 6 {
        '6'
    } else if d == 7 {
        '7'
    } else if d == 8 {
        '8'
    } else {
        '9'
    }
}

/// The decimal text of `n`, most significant digit first, with no sign
/// and no leading zero (a single zero for `n == 0`).
pub open spec fn dec_str(n: nat) -> Seq<char>
    decreases n,
{
    if n < 10 {
        seq![digit_char(n as int)]
    } else {
        dec_str(n / 10) + seq![digit_char((n % 10) as int)]
    }
}

/// The one-character string of one decimal digit.
fn digit_str(d: u32) -> (r: &'static str)
    requires
        d < 10,
    ensures
        r@ == seq![digit_char(d as int)],
{
    proof {
        reveal_strlit("0");
        reveal_strlit("1");
        reveal_strlit("2");
        reveal_strlit("3");
        reveal_strlit("4");
        reveal_strlit("5");
        reveal_strlit("6");
        reveal_strlit("7");
        reveal_strlit("8");
        reveal_strlit("9");
        assert("0"@ =~= seq![digit_char(0)]);
        assert("1"@ =~= seq![digit_char(1)]);
        assert("2"@ =~= seq![digit_char(2)]);
        assert("3"@ =~= seq![digit_char(3)]);
        assert("4"@ =~= seq![digit_char(4)]);
        assert("5"@ =~= seq![digit_char(5)]);
        assert("6"@ =~= seq![digit_char(6)]);
        assert("7"@ =~= seq![digit_char(7)]);
        assert("8"@ =~= seq![digit_char(8)]);
        assert("9"@ =~= seq![digit_char(9)]);
    }
    match d {
        0 => "0",
        1 => "1",
        2 => "2",
        3 => "3",
        4 => "4",
        5 => "5",
        6 => "6",
        7 => "7",
        8 => "8",
        _ => "9",
    }
}

/// The decimal text of `n`, exactly `dec_str`.
fn u32_dec(n: u32) -> (r: String)
    ensures
        r@ == dec_str(n as nat),
    decreases n,
{
    if n < 10 {
        String::from_str(digit_str(n))
    } else {
        let mut s = u32_dec(n / 10);
        s.append(digit_str(n % 10));
        s
    }
}

/// The text a counter contributes beside its glyph: its decimal value
/// when it is greater than one, empty text for a count of one.
pub open spec fn spec_quantity(n: u32) -> Seq<char> {
    if n > 1 {
        dec_str(n as nat)
    } else {
        Seq::<char>::empty()
    }
}

/// Render a counter's quantity, exactly `spec_quantity`.
pub fn quantity(val: u32) -> (r: String)
    ensures
        r@ == spec_quantity(val),
{
    if val > 1 {
        u32_dec(val)
    } else {
        String::new()
    }
}

/// The branch segment: the label padded with one space on either side,
/// colored by the dirty/clean state.
pub open spec fn branch_seg(branch: Seq<char>, dirty: bool) -> SegView {
    SegView {
        text: seq![' '] + branch + seq![' '],
        fg: if dirty {
            color::REPO_DIRTY_FG
        } else {
            color::REPO_CLEAN_FG
        },
        bg: if dirty {
            color::REPO_DIRTY_BG
        } else {
            color::REPO_CLEAN_BG
        },
    }
}

/// What one counter emits: nothing when it is zero, else one segment
/// `" {quantity}{glyph} "` in the counter's colors.
pub open spec fn counter_seg(n: u32, glyph: char, fg: u8, bg: u8) -> Seq<SegView> {
    if n == 0 {
        Seq::<SegView>::empty()
    } else {
        seq![
            SegView { text: seq![' '] + spec_quantity(n) + seq![glyph, ' '], fg, bg },
        ]
    }
}

/// The full emission: the branch segment first, then the six counters in
/// the fixed order ahead, behind, staged, non_staged, untracked,
/// conflicted, each only when nonzero.
pub open spec fn spec_segments(branch: Seq<char>, info: GitInfo) -> Seq<SegView> {
    seq![branch_seg(branch, crate::status::spec_dirty(info))]
        + counter_seg(info.ahead, '\u{2b06}', color::GIT_AHEAD_FG, color::GIT_AHEAD_BG)
        + counter_seg(info.behind, '\u{2b07}', color::GIT_BEHIND_FG, color::GIT_BEHIND_BG)
        + counter_seg(info.staged, '\u{2714}', color::GIT_STAGED_FG, color::GIT_STAGED_BG)
        + counter_seg(info.non_staged, '\u{270e}', color::GIT_NOTSTAGED_FG, color::GIT_NOTSTAGED_BG)
        + counter_seg(info.untracked, '\u{2753}', color::GIT_UNTRACKED_FG, color::GIT_UNTRACKED_BG)
        + counter_seg(info.conflicted, '\u{273c}', color::GIT_CONFLICTED_FG, color::GIT_CONFLICTED_BG)
}

/// Append what one counter emits.
fn push_counter(segs: &mut Vec<Segment>, count: u32, glyph: &str, fg: u8, bg: u8)
    requires
        glyph@.len() == 1,
    ensures
        seg_views(final(segs)@) == seg_views(old(segs)@) + counter_seg(count, glyph@[0], fg, bg),
{
    proof {
        reveal_strlit(" ");
        assert(" "@ =~= seq![' ']);
    }
    if count > 0 {
        let mut text = String::from_str(" ");
        let q = quantity(count);
        text.append(q.as_str());
        text.append(glyph);
        text.append(" ");
        proof {
            assert(text@ =~= seq![' '] + spec_quantity(count) + seq![glyph@[0], ' ']);
        }
        let seg = Segment { text, fg, bg };
        segs.push(seg);
        proof {
            assert(seg_views(segs@) =~= seg_views(old(segs)@) + counter_seg(count, glyph@[0], fg, bg));
        }
    } else {
        proof {
            assert(seg_views(segs@) =~= seg_views(old(segs)@) + counter_seg(count, glyph@[0], fg, bg));
        }
    }
}

/// Emit the ordered segment sequence for a resolved branch label and the
/// accumulated counters, exactly as `spec_segments` describes.
pub fn render_segments(branch: &str, info: &GitInfo) -> (r: Vec<Segment>)
    ensures
        seg_views(r@) == spec_segments(branch@, *info),
{
    proof {
        reveal_strlit(" ");
        reveal_strlit("\u{2b06}");
        reveal_strlit("\u{2b07}");
        reveal_strlit("\u{2714}");
        reveal_strlit("\u{270e}");
        reveal_strlit("\u{2753}");
        reveal_strlit("\u{273c}");
        assert(" "@ =~= seq![' ']);
    }
    let dirty = info.is_dirty();
    let fg = if dirty {
        color::REPO_DIRTY_FG
    } else {
        color::REPO_CLEAN_FG
    };
    let bg = if dirty {
        color::REPO_DIRTY_BG
    } else {
        color::REPO_CLEAN_BG
    };
    let mut text = String::from_str(" ");
    text.append(branch);
    text.append(" ");
    let mut segs: Vec<Segment> = Vec::new();
    segs.push(Segment { text, fg, bg });
    proof {
        assert(seg_views(segs@) =~= seq![branch_seg(branch@, crate::status::spec_dirty(*info))]);
    }
    push_counter(&mut segs, info.ahead, "\u{2b06}", color::GIT_AHEAD_FG, color::GIT_AHEAD_BG);
    push_counter(&mut segs, info.behind, "\u{2b07}", color::GIT_BEHIND_FG, color::GIT_BEHIND_BG);
    push_counter(&mut segs, info.staged, "\u{2714}", color::GIT_STAGED_FG, color::GIT_STAGED_BG);
    push_counter(&mut segs, info.non_staged, "\u{270e}", color::GIT_NOTSTAGED_FG, color::GIT_NOTSTAGED_BG);
    push_counter(&mut segs, info.untracked, "\u{2753}", color::GIT_UNTRACKED_FG, color::GIT_UNTRACKED_BG);
    push_counter(&mut segs, info.conflicted, "\u{273c}", color::GIT_CONFLICTED_FG, color::GIT_CONFLICTED_BG);
    proof {
        assert(seg_views(segs@) =~= spec_segments(branch@, *info));
    }
    segs
}

/// With every file counter zero the repository is clean and the branch
/// segment carries the clean color pair.
pub proof fn lemma_clean_branch_colors(branch: Seq<char>, info: GitInfo)
    requires
        info.untracked == 0,
        info.conflicted == 0,
        info.staged == 0,
        info.non_staged == 0,
    ensures
        !crate::status::spec_dirty(info),
        spec_segments(branch, info)[0].fg == color::REPO_CLEAN_FG,
        spec_segments(branch, info)[0].bg == color::REPO_CLEAN_BG,
{
}

/// With any file counter positive the repository is dirty and the branch
/// segment carries the dirty color pair.
pub proof fn lemma_dirty_branch_colors(branch: Seq<char>, info: GitInfo)
    requires
        info.untracked > 0 || info.conflicted > 0 || info.staged > 0 || info.non_staged > 0,
    ensures
        crate::status::spec_dirty(info),
        spec_segments(branch, info)[0].fg == color::REPO_DIRTY_FG,
        spec_segments(branch, info)[0].bg == color::REPO_DIRTY_BG,
{
}

/// The emission order is invariant: whatever the counters hold, the
/// branch segment comes first and the counter segments follow in the
/// fixed order ahead, behind, staged, non_staged, untracked, conflicted,
/// each present exactly when its counter is nonzero.
pub proof fn lemma_emission_order(branch: Seq<char>, info: GitInfo)
    ensures
        spec_segments(branch, info) == seq![
            branch_seg(branch, crate::status::spec_dirty(info)),
        ] + counter_seg(info.ahead, '\u{2b06}', color::GIT_AHEAD_FG, color::GIT_AHEAD_BG)
            + counter_seg(info.behind, '\u{2b07}', color::GIT_BEHIND_FG, color::GIT_BEHIND_BG)
            + counter_seg(info.staged, '\u{2714}', color::GIT_STAGED_FG, color::GIT_STAGED_BG)
            + counter_seg(
            info.non_staged,
            '\u{270e}',
            color::GIT_NOTSTAGED_FG,
            color::GIT_NOTSTAGED_BG,
        ) + counter_seg(
            info.untracked,
            '\u{2753}',
            color::GIT_UNTRACKED_FG,
            color::GIT_UNTRACKED_BG,
        ) + counter_seg(
            info.conflicted,
            '\u{273c}',
            color::GIT_CONFLICTED_FG,
            color::GIT_CONFLICTED_BG,
        ),
        spec_segments(branch, info).len() == 1 + (if info.ahead > 0 { 1int } else { 0 }) + (
        if info.behind > 0 { 1int } else { 0 }) + (if info.staged > 0 { 1int } else { 0 }) + (
        if info.non_staged > 0 { 1int } else { 0 }) + (if info.untracked > 0 { 1int } else { 0 }) + (
        if info.conflicted > 0 { 1int } else { 0 }),
        spec_segments(branch, info)[0] == branch_seg(branch, crate::status::spec_dirty(info)),
{
}

} // verus!
