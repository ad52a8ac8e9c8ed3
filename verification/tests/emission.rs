use gitprompt::color;
use gitprompt::parse::{parse_status, StatusParse};
use gitprompt::segment::{quantity, render_segments, Segment};
use gitprompt::status::GitInfo;

fn render(raw: &[u8]) -> Vec<Segment> {
    match parse_status(&raw.to_vec()).expect("parse should succeed") {
        StatusParse::Resolved { info, branch } => render_segments(&branch, &info),
        other => panic!("expected a resolved branch, got {}", match other {
            StatusParse::Empty => "Empty",
            StatusParse::Detached { .. } => "Detached",
            StatusParse::Resolved { .. } => unreachable!(),
        }),
    }
}

#[test]
fn quantity_of_one_is_empty() {
    assert_eq!(quantity(1), "");
}

#[test]
fn quantity_of_two_is_its_digits() {
    assert_eq!(quantity(2), "2");
}

#[test]
fn quantity_of_larger_counts() {
    assert_eq!(quantity(10), "10");
    assert_eq!(quantity(12), "12");
    assert_eq!(quantity(4294967295), "4294967295");
}

#[test]
fn clean_counters_use_clean_colors() {
    let info = GitInfo::new();
    assert!(!info.is_dirty());
    let segs = render_segments("main", &info);
    assert_eq!(segs.len(), 1);
    assert_eq!(segs[0].text, " main ");
    assert_eq!(segs[0].fg, color::REPO_CLEAN_FG);
    assert_eq!(segs[0].bg, color::REPO_CLEAN_BG);
}

#[test]
fn any_positive_counter_uses_dirty_colors() {
    let mut info = GitInfo::new();
    info.non_staged = 1;
    assert!(info.is_dirty());
    let segs = render_segments("main", &info);
    assert_eq!(segs[0].fg, color::REPO_DIRTY_FG);
    assert_eq!(segs[0].bg, color::REPO_DIRTY_BG);
}

#[test]
fn ahead_and_behind_do_not_dirty_the_branch() {
    let mut info = GitInfo::new();
    info.ahead = 3;
    info.behind = 1;
    let segs = render_segments("main", &info);
    assert_eq!(segs.len(), 3);
    assert_eq!(segs[0].fg, color::REPO_CLEAN_FG);
    assert_eq!(segs[1].text, " 3\u{2b06} ");
    assert_eq!(segs[1].fg, color::GIT_AHEAD_FG);
    assert_eq!(segs[1].bg, color::GIT_AHEAD_BG);
    assert_eq!(segs[2].text, " \u{2b07} ");
    assert_eq!(segs[2].fg, color::GIT_BEHIND_FG);
    assert_eq!(segs[2].bg, color::GIT_BEHIND_BG);
}

#[test]
fn emission_order_is_fixed() {
    let mut info = GitInfo::new();
    info.ahead = 1;
    info.behind = 1;
    info.staged = 1;
    info.non_staged = 1;
    info.untracked = 1;
    info.conflicted = 1;
    let segs = render_segments("b", &info);
    assert_eq!(segs.len(), 7);
    assert_eq!(segs[0].text, " b ");
    assert_eq!(segs[1].text, " \u{2b06} ");
    assert_eq!(segs[2].text, " \u{2b07} ");
    assert_eq!(segs[3].text, " \u{2714} ");
    assert_eq!(segs[4].text, " \u{270e} ");
    assert_eq!(segs[5].text, " \u{2753} ");
    assert_eq!(segs[6].text, " \u{273c} ");
}

#[test]
fn zero_counters_are_suppressed() {
    let mut info = GitInfo::new();
    info.untracked = 2;
    let segs = render_segments("b", &info);
    assert_eq!(segs.len(), 2);
    assert_eq!(segs[1].text, " 2\u{2753} ");
    assert_eq!(segs[1].fg, color::GIT_UNTRACKED_FG);
    assert_eq!(segs[1].bg, color::GIT_UNTRACKED_BG);
}

#[test]
fn file_line_order_does_not_change_the_emission() {
    let a = render(b"## main\n?? a.txt\nM  b.txt\n M c.txt");
    let b = render(b"## main\n M c.txt\nM  b.txt\n?? a.txt");
    assert_eq!(a.len(), b.len());
    for (x, y) in a.iter().zip(b.iter()) {
        assert_eq!(x.text, y.text);
        assert_eq!(x.fg, y.fg);
        assert_eq!(x.bg, y.bg);
    }
}

#[test]
fn end_to_end_scenario() {
    let segs = render(b"## main\nM  a.txt\n M b.txt\n?? c.txt");
    assert_eq!(segs.len(), 4);
    assert_eq!(segs[0].text, " main ");
    assert_eq!(segs[0].fg, color::REPO_DIRTY_FG);
    assert_eq!(segs[0].bg, color::REPO_DIRTY_BG);
    assert_eq!(segs[1].text, " \u{2714} ");
    assert_eq!(segs[1].fg, color::GIT_STAGED_FG);
    assert_eq!(segs[2].text, " \u{270e} ");
    assert_eq!(segs[2].fg, color::GIT_NOTSTAGED_FG);
    assert_eq!(segs[3].text, " \u{2753} ");
    assert_eq!(segs[3].fg, color::GIT_UNTRACKED_FG);
}

#[test]
fn segment_simple_keeps_its_arguments() {
    let s = Segment::simple("txt", 3, 4);
    assert_eq!(s.text, "txt");
    assert_eq!(s.fg, 3);
    assert_eq!(s.bg, 4);
}
