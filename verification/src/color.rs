//! The fixed color palette: one foreground/background pair for the branch
//! segment in each of its two states (clean, dirty) and one pair per
//! counter segment.  Colors are 256-color terminal palette indices.

use vstd::prelude::*;

verus! {

pub const REPO_CLEAN_FG: u8 = 0;

pub const REPO_CLEAN_BG: u8 = 148;

pub const REPO_DIRTY_FG: u8 = 15;

pub const REPO_DIRTY_BG: u8 = 161;

pub const GIT_AHEAD_FG: u8 = 250;

pub const GIT_AHEAD_BG: u8 = 240;

pub const GIT_BEHIND_FG: u8 = 250;

pub const GIT_BEHIND_BG: u8 = 240;

pub const GIT_STAGED_FG: u8 = 15;

pub const GIT_STAGED_BG: u8 = 22;

pub const GIT_NOTSTAGED_FG: u8 = 15;

pub const GIT_NOTSTAGED_BG: u8 = 130;

pub const GIT_UNTRACKED_FG: u8 = 15;

pub const GIT_UNTRACKED_BG: u8 = 52;

pub const GIT_CONFLICTED_FG: u8 = 15;

pub const GIT_CONFLICTED_BG: u8 = 9;

} // verus!
