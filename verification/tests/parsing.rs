use gitprompt::branch::{detached_branch_label, get_ahead_commits, get_behind_commits, get_branch_name};
use gitprompt::error::GitError;
use gitprompt::parse::{parse_status, StatusParse};
use gitprompt::scan::{find_sub, get_first_number, is_whitespace_char};
use gitprompt::status::GitInfo;

fn parsed(raw: &[u8]) -> StatusParse {
    parse_status(&raw.to_vec()).expect("parse should succeed")
}

#[test]
fn empty_output_yields_empty_result() {
    match parsed(b"") {
        StatusParse::Empty => {}
        _ => panic!("empty raw output must parse to Empty"),
    }
}

#[test]
fn untracked_code_increments_untracked_only() {
    let mut info = GitInfo::new();
    info.add_file("??").unwrap();
    assert_eq!(info.untracked, 1);
    assert_eq!(info.conflicted, 0);
    assert_eq!(info.staged, 0);
    assert_eq!(info.non_staged, 0);
    assert_eq!(info.ahead, 0);
    assert_eq!(info.behind, 0);
}

#[test]
fn conflicted_codes_increment_conflicted_only() {
    for code in ["DD", "AU", "UD", "UA", "UU", "DU", "AA"] {
        let mut info = GitInfo::new();
        info.add_file(code).unwrap();
        assert_eq!(info.conflicted, 1, "code {code}");
        assert_eq!(info.untracked, 0, "code {code}");
        assert_eq!(info.staged, 0, "code {code}");
        assert_eq!(info.non_staged, 0, "code {code}");
    }
}

#[test]
fn staged_and_non_staged_positions() {
    let mut info = GitInfo::new();
    info.add_file("M ").unwrap();
    assert_eq!((info.staged, info.non_staged), (1, 0));

    let mut info = GitInfo::new();
    info.add_file(" M").unwrap();
    assert_eq!((info.staged, info.non_staged), (0, 1));

    let mut info = GitInfo::new();
    info.add_file("MM").unwrap();
    assert_eq!((info.staged, info.non_staged), (1, 1));
}

#[test]
fn longer_code_is_not_an_exact_match() {
    // Exact-code classification compares the whole code, so a three
    // character code starting with the untracked pair falls through to
    // the positional rule.
    let mut info = GitInfo::new();
    info.add_file("?? ").unwrap();
    assert_eq!(info.untracked, 0);
    assert_eq!((info.staged, info.non_staged), (1, 1));
}

#[test]
fn short_code_is_invalid() {
    let mut info = GitInfo::new();
    assert_eq!(info.add_file("M"), Err(GitError::InvalidFileStatus));
    assert_eq!(info.add_file(""), Err(GitError::InvalidFileStatus));
    assert_eq!(info.staged, 0);
}

#[test]
fn error_messages() {
    assert_eq!(GitError::InvalidFileStatus.message(), "Invalid file status");
    assert_eq!(GitError::InvalidUtf8.message(), "Invalid utf8 in git output");
    assert_eq!(GitError::EmptyOutput.message(), "Empty git output");
}

#[test]
fn branch_line_with_tracking_info() {
    let line = "## main...origin/main [ahead 2, behind 1]";
    assert_eq!(get_branch_name(line), Some("main"));
    match parsed(line.as_bytes()) {
        StatusParse::Resolved { info, branch } => {
            assert_eq!(branch, "main");
            assert_eq!(info.ahead, 2);
            assert_eq!(info.behind, 1);
            assert_eq!(info.untracked + info.conflicted + info.staged + info.non_staged, 0);
        }
        _ => panic!("a plain branch header must resolve"),
    }
}

#[test]
fn bare_branch_line() {
    assert_eq!(get_branch_name("## main"), Some("main"));
    match parsed(b"## main") {
        StatusParse::Resolved { info, branch } => {
            assert_eq!(branch, "main");
            assert_eq!(info.ahead, 0);
            assert_eq!(info.behind, 0);
        }
        _ => panic!("a bare branch header must resolve"),
    }
}

#[test]
fn header_with_unexpected_annotation_falls_back() {
    assert_eq!(get_branch_name("## HEAD (no branch)"), None);
    match parsed(b"## HEAD (no branch)") {
        StatusParse::Detached { .. } => {}
        _ => panic!("an unrecognized header must take the fallback path"),
    }
}

#[test]
fn header_shorter_than_marker_falls_back() {
    assert_eq!(get_branch_name("##"), None);
    match parsed(b"##") {
        StatusParse::Detached { .. } => {}
        _ => panic!("a short header must take the fallback path"),
    }
}

#[test]
fn whitespace_then_bracket_keeps_the_space() {
    // A space followed by `[` ends the name just past the space.
    assert_eq!(get_branch_name("## main [ahead 2]"), Some("main "));
    match parsed(b"## main [ahead 2]") {
        StatusParse::Resolved { info, branch } => {
            assert_eq!(branch, "main ");
            assert_eq!(info.ahead, 2);
            assert_eq!(info.behind, 0);
        }
        _ => panic!("header must resolve"),
    }
}

#[test]
fn period_count_is_cumulative() {
    // The third period anywhere truncates three characters back.
    assert_eq!(get_branch_name("## a.b.c.d"), Some("a.b"));
}

#[test]
fn trailing_whitespace_at_end_of_header() {
    assert_eq!(get_branch_name("## main "), Some("main "));
}

#[test]
fn ahead_behind_token_parsing() {
    assert_eq!(get_ahead_commits("[ahead 2, behind 1]"), Some(2));
    assert_eq!(get_behind_commits("[ahead 2, behind 1]"), Some(1));
    assert_eq!(get_ahead_commits("[behind 7]"), None);
    assert_eq!(get_behind_commits("[behind 7]"), Some(7));
    assert_eq!(get_ahead_commits("[ahead 42]"), Some(42));
    // The token at the very end leaves no digits to read.
    assert_eq!(get_ahead_commits("xahead"), Some(0));
}

#[test]
fn first_number_reads_leading_digits() {
    assert_eq!(get_first_number("123abc"), 123);
    assert_eq!(get_first_number("12 3"), 12);
    assert_eq!(get_first_number("abc"), 0);
    assert_eq!(get_first_number(""), 0);
}

#[test]
fn find_sub_first_occurrence() {
    assert_eq!(find_sub("hello", "ll"), Some(2));
    assert_eq!(find_sub("ababa", "aba"), Some(0));
    assert_eq!(find_sub("a", "ab"), None);
    assert_eq!(find_sub("", ""), Some(0));
    assert_eq!(find_sub("abc", ""), Some(0));
}

#[test]
fn whitespace_classification() {
    assert!(is_whitespace_char(' '));
    assert!(is_whitespace_char('\t'));
    assert!(is_whitespace_char('\u{2003}'));
    assert!(!is_whitespace_char('x'));
    assert!(!is_whitespace_char('['));
}

#[test]
fn invalid_utf8_in_header_is_fatal() {
    let raw = vec![0xffu8, 0xfe, 0x0a];
    assert_eq!(parse_status(&raw).err(), Some(GitError::InvalidUtf8));
}

#[test]
fn invalid_utf8_in_file_line_is_fatal() {
    let mut raw = b"## main\n".to_vec();
    raw.extend_from_slice(&[0xff, 0x41, 0x20, 0x78]);
    assert_eq!(parse_status(&raw).err(), Some(GitError::InvalidUtf8));
}

#[test]
fn multibyte_status_code_is_invalid_file_status() {
    // The first two bytes decode to a single character, one short of a
    // status code.
    let mut raw = b"## main\n".to_vec();
    raw.extend_from_slice("é x.txt".as_bytes());
    assert_eq!(parse_status(&raw).err(), Some(GitError::InvalidFileStatus));
}

#[test]
fn short_file_lines_are_passed_over() {
    match parsed(b"## main\n\nM  x\n") {
        StatusParse::Resolved { info, branch } => {
            assert_eq!(branch, "main");
            assert_eq!(info.staged, 1);
            assert_eq!(info.non_staged, 0);
            assert_eq!(info.untracked, 0);
        }
        _ => panic!("header must resolve"),
    }
}

#[test]
fn detached_label_on_failed_describe() {
    let label = detached_branch_label(false, &b"whatever".to_vec()).unwrap();
    assert_eq!(label, "Big Bang");
}

#[test]
fn detached_label_uses_first_line_with_anchor() {
    let label = detached_branch_label(true, &b"v1.0-3-gabc\nnoise".to_vec()).unwrap();
    assert_eq!(label, "\u{2693}v1.0-3-gabc");
    let label = detached_branch_label(true, &b"tag".to_vec()).unwrap();
    assert_eq!(label, "\u{2693}tag");
}

#[test]
fn detached_label_rejects_invalid_utf8() {
    let raw = vec![0xffu8, 0x00];
    assert_eq!(detached_branch_label(true, &raw).err(), Some(GitError::InvalidUtf8));
}

#[test]
fn is_dirty_ignores_ahead_and_behind() {
    let mut info = GitInfo::new();
    assert!(!info.is_dirty());
    info.ahead = 4;
    info.behind = 2;
    assert!(!info.is_dirty());
    info.untracked = 1;
    assert!(info.is_dirty());
}
