use vstd::prelude::*;

use crate::bindings::is_key_char;
use crate::text::push_char;
use super::{allowed_start, is_blank, reader_ok, ProcDecalarationStage, State, StateView};

verus! {

/// Whether the character at `index` is a blank.
pub fn is_white_space(index: usize, state: &State) -> (r: bool)
    requires
        index < state@.content.len(),
    ensures
        r == is_blank(state@.content[index as int]),
{
    let c = state.content[index];
    c == ' ' || c == '\n' || c == '\t' || c == '\r'
}

/// What `package_name_stage` does with character `c` after the package name `n` read so far:
/// a name starts with a character in `A`..=`z`; a blank ends it and records it.
pub open spec fn package_name_stage_post(s: StateView, c: char, n: Seq<char>, t: StateView) -> bool {
    if n.len() == 0 && is_key_char(c) {
        s.restaged(t, |st: ProcDecalarationStage| st matches ProcDecalarationStage::PackageName(x) && x@ == seq![c])
    } else if n.len() == 0 {
        t == s.staged(ProcDecalarationStage::NoStoredProcedure)
    } else if is_blank(c) {
        t == (StateView { package_name: n, ..s.staged(ProcDecalarationStage::NoStoredProcedure) })
    } else {
        s.restaged(t, |st: ProcDecalarationStage| st matches ProcDecalarationStage::PackageName(x) && x@ == n.push(c))
    }
}

/// Reads a character of a package name (see [`package_name_stage_post`]).
pub fn package_name_stage(state: &mut State, index: &mut usize, curr_str_val: &String)
    requires
        *old(index) < old(state)@.content.len(),
        reader_ok(old(state)@),
    ensures
        package_name_stage_post(old(state)@, old(state)@.content[*old(index) as int], curr_str_val@, final(state)@),
        *final(index) == *old(index),
        reader_ok(final(state)@),
{
    let char_val = state.content[*index];
    let mut new_str_val = curr_str_val.clone();
    push_char(&mut new_str_val, char_val);
    let is_allowed_val = allowed_start(char_val);
    if curr_str_val.as_str().is_empty() && is_allowed_val {
        proof {
            assert(new_str_val@ =~= seq![char_val]);
        }
        state.update_stage(ProcDecalarationStage::PackageName(new_str_val));
    } else if curr_str_val.as_str().is_empty() {
        state.update_stage(ProcDecalarationStage::NoStoredProcedure);
    } else if is_white_space(*index, state) {
        state.update_stage(ProcDecalarationStage::NoStoredProcedure);
        state.update_package_name(curr_str_val);
    } else {
        state.update_stage(ProcDecalarationStage::PackageName(new_str_val));
    }
}

} // verus!
