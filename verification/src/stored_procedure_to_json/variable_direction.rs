use vstd::prelude::*;

use crate::text::{char_to_string, chars_of, chars_range, contains_str, has_substring, push_char, str_eq};
use super::stored_proc_variable::type_stage;
use super::{
    lemma_stage_ready_procs, param_slot_exists, reader_ok, upper, upper_text, InOutDirectionStage,
    InOutDirectionStageInfo, ParamSearchType, ParamTypeInfo, ParamView, ParameterDirection, ProcDecalarationStage,
    ProcVariableStages, State, StateView, VariableSeparationStage,
};

verus! {

/// The state with the direction of the written-to parameter set to `d`.
pub open spec fn directed(s: StateView, d: ParameterDirection) -> StateView {
    s.with_first_param(|p: ParamView| ParamView { param_direction: d, ..p })
}

/// `v` without its first two characters.
pub open spec fn without_two(v: Seq<char>) -> Seq<char> {
    if v.len() >= 2 {
        v.skip(2)
    } else {
        Seq::empty()
    }
}

/// The stage of a direction with text `v` at stage `k`.
pub open spec fn direction_stage(v: Seq<char>, k: InOutDirectionStage) -> spec_fn(ProcDecalarationStage) -> bool {
    |st: ProcDecalarationStage|
        st matches ProcDecalarationStage::Variable(ProcVariableStages::VariableDirection(info)) && info.str_val@ == v
            && info.stage == k
}

fn without_two_exec(v: &String) -> (r: String)
    ensures
        r@ == without_two(v@),
{
    let cs = chars_of(v.as_str());
    if cs.len() >= 2 {
        chars_range(&cs, 2, cs.len())
    } else {
        String::new()
    }
}

/// What `variable_stage_param_direction_init` does with character `c` after the direction
/// text `v` (in either case): `IN` may go on to `INOUT`; `OUT` sets the direction out; a part
/// of `OUT` is kept; anything else gives up the parameter.
pub open spec fn variable_stage_param_direction_init_post(s: StateView, c: char, v: Seq<char>, t: StateView) -> bool {
    let n = v.push(c);
    let u = upper(n);
    if u == "IN"@ {
        s.restaged(t, direction_stage(n, InOutDirectionStage::InOut))
    } else if u == "OUT"@ {
        t == directed(s, ParameterDirection::Output).staged(
            ProcDecalarationStage::VariableSeparator(VariableSeparationStage::InOutSeparator),
        )
    } else if has_substring("OUT"@, u) {
        s.restaged(t, direction_stage(n, InOutDirectionStage::Init))
    } else {
        t == s.staged(ProcDecalarationStage::NoStoredProcedure)
    }
}

/// Reads a character at the start of a parameter's direction (see
/// [`variable_stage_param_direction_init_post`]).
pub fn variable_stage_param_direction_init(state: &mut State, index: &mut usize, param_dir_val: &String)
    requires
        *old(index) < old(state)@.content.len(),
        reader_ok(old(state)@),
        param_slot_exists(old(state)@),
    ensures
        variable_stage_param_direction_init_post(old(state)@, old(state)@.content[*old(index) as int], param_dir_val@, final(state)@),
        *final(index) == *old(index),
        reader_ok(final(state)@),
{
    let char_val = state.content[*index];
    let mut new_param_dir_val = param_dir_val.clone();
    push_char(&mut new_param_dir_val, char_val);
    let u = upper_text(new_param_dir_val.as_str());
    proof {
        reveal_strlit("IN");
        reveal_strlit("OUT");
    }
    if str_eq(u.as_str(), "IN") {
        state.update_stage(ProcDecalarationStage::Variable(ProcVariableStages::VariableDirection(
            InOutDirectionStageInfo { str_val: new_param_dir_val, stage: InOutDirectionStage::InOut },
        )));
    } else if str_eq(u.as_str(), "OUT") {
        state.update_param_direction(ParameterDirection::Output);
        state.update_stage(ProcDecalarationStage::VariableSeparator(VariableSeparationStage::InOutSeparator));
    } else if contains_str("OUT", u.as_str()) {
        state.update_stage(ProcDecalarationStage::Variable(ProcVariableStages::VariableDirection(
            InOutDirectionStageInfo { str_val: new_param_dir_val, stage: InOutDirectionStage::Init },
        )));
    } else {
        state.abort_param();
    }
}

/// What `variable_stage_param_direction_in_out` does with character `c` after the direction
/// text `v` that began with `IN`: `INOUT` then needs a blank; a part of `INOUT` is kept;
/// anything else means the direction was `IN`, and the characters after `IN` start the
/// parameter's type.
pub open spec fn variable_stage_param_direction_in_out_post(s: StateView, c: char, v: Seq<char>, t: StateView) -> bool {
    let n = v.push(c);
    let u = upper(n);
    if u == "INOUT"@ {
        s.restaged(t, direction_stage(n, InOutDirectionStage::ReqEmptySpace))
    } else if has_substring("INOUT"@, u) {
        s.restaged(t, direction_stage(n, InOutDirectionStage::InOut))
    } else {
        directed(s, ParameterDirection::Input).restaged(t, type_stage(ParamSearchType::Word, without_two(n)))
    }
}

/// Reads a character of a direction that began with `IN` (see
/// [`variable_stage_param_direction_in_out_post`]).
pub fn variable_stage_param_direction_in_out(state: &mut State, index: &mut usize, param_dir_val: &String)
    requires
        *old(index) < old(state)@.content.len(),
        reader_ok(old(state)@),
        param_slot_exists(old(state)@),
    ensures
        variable_stage_param_direction_in_out_post(old(state)@, old(state)@.content[*old(index) as int], param_dir_val@, final(state)@),
        *final(index) == *old(index),
        reader_ok(final(state)@),
{
    let char_val = state.content[*index];
    let mut new_param_dir_val = param_dir_val.clone();
    push_char(&mut new_param_dir_val, char_val);
    let u = upper_text(new_param_dir_val.as_str());
    proof {
        reveal_strlit("INOUT");
    }
    if str_eq(u.as_str(), "INOUT") {
        state.update_stage(ProcDecalarationStage::Variable(ProcVariableStages::VariableDirection(
            InOutDirectionStageInfo { str_val: new_param_dir_val, stage: InOutDirectionStage::ReqEmptySpace },
        )));
    } else if contains_str("INOUT", u.as_str()) {
        state.update_stage(ProcDecalarationStage::Variable(ProcVariableStages::VariableDirection(
            InOutDirectionStageInfo { str_val: new_param_dir_val, stage: InOutDirectionStage::InOut },
        )));
    } else {
        state.update_param_direction(ParameterDirection::Input);
        let rest = without_two_exec(&new_param_dir_val);
        state.update_stage(ProcDecalarationStage::Variable(
            ProcVariableStages::VariableType(ParamTypeInfo { search_type: ParamSearchType::Word, str_val: rest }),
        ));
    }
}

/// What `variable_stage_param_direction_req_empty_space` does with character `c` after
/// `INOUT` (text `v`): a blank makes the direction in-out; anything else means the direction
/// was `IN`, and the characters after `IN` start the parameter's type.
pub open spec fn variable_stage_param_direction_req_empty_space_post(s: StateView, c: char, v: Seq<char>, t: StateView) -> bool {
    if upper(seq![c]) == " "@ {
        t == directed(s, ParameterDirection::InputOutput).staged(
            ProcDecalarationStage::VariableSeparator(VariableSeparationStage::InOutSeparator),
        )
    } else {
        directed(s, ParameterDirection::Input).restaged(t, type_stage(ParamSearchType::Word, without_two(v)))
    }
}

/// Reads the character after `INOUT` (see [`variable_stage_param_direction_req_empty_space_post`]).
pub fn variable_stage_param_direction_req_empty_space(state: &mut State, index: &mut usize, param_dir_val: &String)
    requires
        *old(index) < old(state)@.content.len(),
        reader_ok(old(state)@),
        param_slot_exists(old(state)@),
    ensures
        variable_stage_param_direction_req_empty_space_post(old(state)@, old(state)@.content[*old(index) as int], param_dir_val@, final(state)@),
        *final(index) == *old(index),
        reader_ok(final(state)@),
{
    let char_val = state.content[*index];
    let c = char_to_string(char_val);
    let u = upper_text(c.as_str());
    proof {
        reveal_strlit(" ");
    }
    if str_eq(u.as_str(), " ") {
        state.update_param_direction(ParameterDirection::InputOutput);
        state.update_stage(ProcDecalarationStage::VariableSeparator(VariableSeparationStage::InOutSeparator));
    } else {
        state.update_param_direction(ParameterDirection::Input);
        let rest = without_two_exec(param_dir_val);
        state.update_stage(ProcDecalarationStage::Variable(
            ProcVariableStages::VariableType(ParamTypeInfo { search_type: ParamSearchType::Word, str_val: rest }),
        ));
    }
}

} // verus!
