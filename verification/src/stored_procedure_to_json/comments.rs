use vstd::prelude::*;

use crate::text::{chars_range, str_eq};
use super::{lemma_stage_ready_procs, reader_ok, stage_ready, CommentInfo, CommentType, ProcDecalarationStage, State, StateView};

verus! {

/// The stage that skips a comment of type `k`, returning to `prev` after it.
pub open spec fn comment_stage(k: CommentType, prev: ProcDecalarationStage) -> ProcDecalarationStage {
    ProcDecalarationStage::CommentSection(CommentInfo { comment_type: k, previous_stage: Box::new(prev) })
}

/// What `is_comment` does at position `i`: outside a comment, `/*` or `--` there starts a
/// comment, and the reader moves onto its second character.
pub open spec fn is_comment_post(s: StateView, i: int, r: bool, t: StateView, j: int) -> bool {
    if s.curr_stage is CommentSection {
        !r && t == s && j == i
    } else if i + 1 <= s.content.len() - 1 && s.content.subrange(i, i + 2) == "/*"@ {
        r && j == i + 1 && t == s.staged(comment_stage(CommentType::Section, s.curr_stage))
    } else if i + 1 <= s.content.len() - 1 && s.content.subrange(i, i + 2) == "--"@ {
        r && j == i + 1 && t == s.staged(comment_stage(CommentType::OneLiner, s.curr_stage))
    } else {
        !r && t == s && j == i
    }
}

fn copy_stage_of(state: &State) -> (r: ProcDecalarationStage)
    ensures
        r == state.curr_stage,
{
    super::copy_stage(&state.curr_stage)
}

/// Starts skipping a comment that begins at the current position (see [`is_comment_post`]).
pub fn is_comment(state: &mut State, index: &mut usize) -> (r: bool)
    requires
        *old(index) < old(state)@.content.len(),
        reader_ok(old(state)@),
    ensures
        *old(index) <= *final(index) < old(state)@.content.len(),
        final(state)@.content == old(state)@.content,
        is_comment_post(old(state)@, *old(index) as int, r, final(state)@, *final(index) as int),
        reader_ok(final(state)@),
{
    if let ProcDecalarationStage::CommentSection(_) = &state.curr_stage {
        return false;
    }
    let i = *index;
    if state.content.len() - 1 - i >= 1 {
        let two = chars_range(&state.content, i, i + 2);
        proof {
            reveal_strlit("/*");
            reveal_strlit("--");
        }
        if str_eq(two.as_str(), "/*") {
            let prev = copy_stage_of(state);
            state.update_stage(
                ProcDecalarationStage::CommentSection(CommentInfo { comment_type: CommentType::Section, previous_stage: Box::new(prev) }),
            );
            *index = i + 1;
            proof {
                lemma_stage_ready_procs(old(state)@.curr_stage, old(state)@, state@);
            }
            return true;
        } else if str_eq(two.as_str(), "--") {
            let prev = copy_stage_of(state);
            state.update_stage(
                ProcDecalarationStage::CommentSection(CommentInfo { comment_type: CommentType::OneLiner, previous_stage: Box::new(prev) }),
            );
            *index = i + 1;
            proof {
                lemma_stage_ready_procs(old(state)@.curr_stage, old(state)@, state@);
            }
            return true;
        }
    }
    false
}

/// What `comment_type_one_liner` does with character `c` inside a one-line comment: a new
/// line ends it, back to `prev`.
pub open spec fn comment_type_one_liner_post(s: StateView, c: char, prev: ProcDecalarationStage, t: StateView) -> bool {
    if c == '\n' {
        t == s.staged(prev)
    } else {
        t == s
    }
}

/// Skips a character of a one-line comment (see [`comment_type_one_liner_post`]).
pub fn comment_type_one_liner(state: &mut State, index: &mut usize, previous_stage: &ProcDecalarationStage)
    requires
        *old(index) < old(state)@.content.len(),
        reader_ok(old(state)@),
        stage_ready(*previous_stage, old(state)@),
    ensures
        comment_type_one_liner_post(old(state)@, old(state)@.content[*old(index) as int], *previous_stage, final(state)@),
        *final(index) == *old(index),
        reader_ok(final(state)@),
{
    let char_val = state.content[*index];
    if char_val == '\n' {
        state.update_stage(super::copy_stage(previous_stage));
        proof {
            lemma_stage_ready_procs(*previous_stage, old(state)@, state@);
        }
    }
}

/// What `comment_type_section` does at position `i` inside a `/*` comment: `*/` there ends
/// it, back to `prev`, the reader moving onto the `/`.
pub open spec fn comment_type_section_post(s: StateView, i: int, prev: ProcDecalarationStage, t: StateView, j: int) -> bool {
    if i + 1 <= s.content.len() - 1 && s.content.subrange(i, i + 2) == "*/"@ {
        t == s.staged(prev) && j == i + 1
    } else {
        t == s && j == i
    }
}

/// Skips a character of a `/*` comment (see [`comment_type_section_post`]).
pub fn comment_type_section(state: &mut State, index: &mut usize, previous_stage: &ProcDecalarationStage)
    requires
        *old(index) < old(state)@.content.len(),
        reader_ok(old(state)@),
        stage_ready(*previous_stage, old(state)@),
    ensures
        *old(index) <= *final(index) < old(state)@.content.len(),
        final(state)@.content == old(state)@.content,
        comment_type_section_post(old(state)@, *old(index) as int, *previous_stage, final(state)@, *final(index) as int),
        reader_ok(final(state)@),
{
    let i = *index;
    if state.content.len() - 1 - i >= 1 {
        let two = chars_range(&state.content, i, i + 2);
        proof {
            reveal_strlit("*/");
        }
        if str_eq(two.as_str(), "*/") {
            state.update_stage(super::copy_stage(previous_stage));
            *index = i + 1;
            proof {
                lemma_stage_ready_procs(*previous_stage, old(state)@, state@);
            }
        }
    }
}

} // verus!
