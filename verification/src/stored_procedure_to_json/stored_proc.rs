use vstd::prelude::*;

use crate::bindings::is_key_char;
use crate::text::{char_to_string, chars_range, is_digit, push_char, str_eq, string_of};
use super::{
    allowed_start, reader_ok, upper, upper_text, ProcDecalarationStage, ProcVariableStages, State, StateView,
    StoredProcedureView,
};

verus! {

/// What `no_stored_procedure_stage` does at position `i`: where `PROCEDURE ` (in any case)
/// starts there and a character follows it, the reader moves past the word.
pub open spec fn no_stored_procedure_stage_post(s: StateView, i: int, t: StateView, j: int) -> bool {
    if i + 10 <= s.content.len() - 1 && upper(s.content.subrange(i, i + 10)) == "PROCEDURE "@ {
        j == i + 9 && t == s.staged(ProcDecalarationStage::ProcedureKeyWord)
    } else {
        j == i && t == s
    }
}

/// Looks for the word `PROCEDURE ` at the current position (see
/// [`no_stored_procedure_stage_post`]).
pub fn no_stored_procedure_stage(state: &mut State, index: &mut usize)
    requires
        *old(index) < old(state)@.content.len(),
        reader_ok(old(state)@),
    ensures
        *old(index) <= *final(index) < old(state)@.content.len(),
        final(state)@.content == old(state)@.content,
        no_stored_procedure_stage_post(old(state)@, *old(index) as int, final(state)@, *final(index) as int),
        reader_ok(final(state)@),
{
    let i = *index;
    if state.content.len() - 1 - i >= 10 {
        let word = chars_range(&state.content, i, i + 10);
        let up = upper_text(word.as_str());
        proof {
            reveal_strlit("PROCEDURE ");
        }
        if str_eq(up.as_str(), "PROCEDURE ") {
            *index = i + 9;
            state.update_stage(ProcDecalarationStage::ProcedureKeyWord);
        }
    }
}

/// What `stored_procedure_key_word_stage` does with character `c` after `PROCEDURE `: a digit
/// cannot start a name; any other character starts the procedure's name.
pub open spec fn stored_procedure_key_word_stage_post(s: StateView, c: char, t: StateView) -> bool {
    if is_digit(c) {
        t == s.staged(ProcDecalarationStage::NoStoredProcedure)
    } else {
        s.restaged(t, |st: ProcDecalarationStage| st matches ProcDecalarationStage::ProcedureName(n) && n@ == seq![c])
    }
}

/// Reads the first character after `PROCEDURE ` (see [`stored_procedure_key_word_stage_post`]).
pub fn stored_procedure_key_word_stage(state: &mut State, index: &mut usize)
    requires
        *old(index) < old(state)@.content.len(),
        reader_ok(old(state)@),
    ensures
        stored_procedure_key_word_stage_post(old(state)@, old(state)@.content[*old(index) as int], final(state)@),
        *final(index) == *old(index),
        reader_ok(final(state)@),
{
    let char_val = state.content[*index];
    if '0' <= char_val && char_val <= '9' {
        state.update_stage(ProcDecalarationStage::NoStoredProcedure);
    } else {
        state.update_stage(ProcDecalarationStage::ProcedureName(char_to_string(char_val)));
    }
}

/// What `stored_procedure_name_stage` does with character `c` after the name `n` read so
/// far: `(` records the procedure (the first one only); a name must start with a character
/// in `A`..=`z`.
pub open spec fn stored_procedure_name_stage_post(s: StateView, c: char, n: Seq<char>, t: StateView) -> bool {
    if c == '(' {
        let s1 = if s.stored_procedures.len() == 0 {
            StateView { stored_procedures: seq![StoredProcedureView { procedure_name: n, params: Seq::empty() }], ..s }
        } else {
            s
        };
        t == s1.staged(ProcDecalarationStage::OpenBracket)
    } else if n.len() > 0 || is_key_char(c) {
        s.restaged(t, |st: ProcDecalarationStage| st matches ProcDecalarationStage::ProcedureName(x) && x@ == n.push(c))
    } else {
        t == s.staged(ProcDecalarationStage::NoStoredProcedure)
    }
}

/// Reads a character of a procedure's name (see [`stored_procedure_name_stage_post`]).
pub fn stored_procedure_name_stage(state: &mut State, index: &mut usize, curr_proc_name: &String)
    requires
        *old(index) < old(state)@.content.len(),
        reader_ok(old(state)@),
    ensures
        stored_procedure_name_stage_post(old(state)@, old(state)@.content[*old(index) as int], curr_proc_name@, final(state)@),
        *final(index) == *old(index),
        reader_ok(final(state)@),
{
    let char_val = state.content[*index];
    let mut new_str_val = curr_proc_name.clone();
    push_char(&mut new_str_val, char_val);
    match char_val {
        '(' => {
            state.add_procedure_name(curr_proc_name);
            state.update_stage(ProcDecalarationStage::OpenBracket);
        },
        _ => {
            let is_allowed_proc_name = if curr_proc_name.as_str().is_empty() {
                allowed_start(char_val)
            } else {
                true
            };
            if !curr_proc_name.as_str().is_empty() {
                state.update_stage(ProcDecalarationStage::ProcedureName(new_str_val));
            } else if is_allowed_proc_name {
                state.update_stage(ProcDecalarationStage::ProcedureName(new_str_val));
            } else {
                state.abort_param();
            }
        },
    }
}

/// What `open_bracket_stage` does with character `c` after `(`: a character in `A`..=`z`
/// starts the first parameter's name; anything else ends the declaration.
pub open spec fn open_bracket_stage_post(s: StateView, c: char, t: StateView) -> bool {
    if is_key_char(c) {
        s.restaged(
            t,
            |st: ProcDecalarationStage|
                st matches ProcDecalarationStage::Variable(ProcVariableStages::VariableName(x)) && x@ == seq![c],
        )
    } else {
        t == s.staged(ProcDecalarationStage::NoStoredProcedure)
    }
}

/// Reads the first character after `(` (see [`open_bracket_stage_post`]).
pub fn open_bracket_stage(state: &mut State, index: &mut usize)
    requires
        *old(index) < old(state)@.content.len(),
        reader_ok(old(state)@),
        old(state)@.curr_stage == ProcDecalarationStage::OpenBracket,
    ensures
        open_bracket_stage_post(old(state)@, old(state)@.content[*old(index) as int], final(state)@),
        *final(index) == *old(index),
        reader_ok(final(state)@),
{
    let char_val = state.content[*index];
    if allowed_start(char_val) {
        state.update_stage(ProcDecalarationStage::Variable(ProcVariableStages::VariableName(char_to_string(char_val))));
    } else {
        state.update_stage(ProcDecalarationStage::NoStoredProcedure);
    }
}

} // verus!
