use vstd::prelude::*;

use crate::bindings::is_key_char;
use crate::text::{char_to_string, chars_range, has_substring, has_suffix, contains_str, ends_with, push_char, str_eq, string_of, utf8_byte_len, utf8_len};
use super::package_name::is_white_space;
use super::{
    allowed_start, is_blank, lemma_stage_ready_procs, param_slot_exists, reader_ok, upper, upper_text,
    InOutDirectionStage, InOutDirectionStageInfo, OracleDbType, ParamSearchType, ParamTypeInfo, ParamView,
    ParameterDirection, ProcDecalarationStage, ProcVariableStages, State, StateView, StoredProcedureView,
    VariableSeparationStage,
};

verus! {

/// The state with a parameter named `n` added to the last procedure.
pub open spec fn param_added(s: StateView, n: Seq<char>) -> StateView {
    let i = s.stored_procedures.len() - 1;
    let p = s.stored_procedures[i];
    StateView {
        stored_procedures: s.stored_procedures.update(
            i,
            StoredProcedureView {
                params: p.params.push(
                    ParamView {
                        param_name: n,
                        param_value: Seq::empty(),
                        param_direction: ParameterDirection::Input,
                        param_type: OracleDbType::Varchar2,
                        position: 0,
                    },
                ),
                ..p
            },
        ),
        ..s
    }
}

/// The state with the type of the written-to parameter set to `ty`.
pub open spec fn typed(s: StateView, ty: OracleDbType) -> StateView {
    s.with_first_param(|p: ParamView| ParamView { param_type: ty, ..p })
}

/// What `variable_stage_variable_name` does with character `c` after the parameter name `n`:
/// a blank ends the name and records the parameter.
pub open spec fn variable_stage_variable_name_post(s: StateView, c: char, n: Seq<char>, t: StateView) -> bool {
    if is_blank(c) {
        t == param_added(s, n).staged(ProcDecalarationStage::VariableSeparator(VariableSeparationStage::NameSeparator))
    } else {
        s.restaged(
            t,
            |st: ProcDecalarationStage|
                st matches ProcDecalarationStage::Variable(ProcVariableStages::VariableName(x)) && x@ == n.push(c),
        )
    }
}

/// Reads a character of a parameter's name (see [`variable_stage_variable_name_post`]).
pub fn variable_stage_variable_name(state: &mut State, index: &mut usize, curr_param_name: &String)
    requires
        *old(index) < old(state)@.content.len(),
        reader_ok(old(state)@),
        old(state)@.stored_procedures.len() >= 1,
    ensures
        variable_stage_variable_name_post(old(state)@, old(state)@.content[*old(index) as int], curr_param_name@, final(state)@),
        *final(index) == *old(index),
        reader_ok(final(state)@),
{
    let char_val = state.content[*index];
    let mut new_str_val = curr_param_name.clone();
    push_char(&mut new_str_val, char_val);
    if is_white_space(*index, state) {
        state.update_param_name(curr_param_name);
        state.update_stage(ProcDecalarationStage::VariableSeparator(VariableSeparationStage::NameSeparator));
    } else {
        state.update_stage(ProcDecalarationStage::Variable(ProcVariableStages::VariableName(new_str_val)));
        proof {
            lemma_stage_ready_procs(state@.curr_stage, old(state)@, state@);
        }
    }
}

/// The stage of a direction whose first letter `d` has been read.
pub open spec fn direction_started(d: Seq<char>) -> spec_fn(ProcDecalarationStage) -> bool {
    |st: ProcDecalarationStage|
        st matches ProcDecalarationStage::Variable(ProcVariableStages::VariableDirection(info)) && info.str_val@ == d
            && info.stage == InOutDirectionStage::Init
}

/// What `variable_separator_name` does with the first character `c` after a parameter's name:
/// `I` or `O` (in either case) starts its direction; anything else gives up the parameter.
pub open spec fn variable_separator_name_post(s: StateView, c: char, t: StateView) -> bool {
    let u = upper(seq![c]);
    if u == "I"@ {
        s.restaged(t, direction_started("I"@))
    } else if u == "O"@ {
        s.restaged(t, direction_started("O"@))
    } else {
        t == s.staged(ProcDecalarationStage::NoStoredProcedure)
    }
}

/// Reads the first character after a parameter's name (see [`variable_separator_name_post`]).
pub fn variable_separator_name(state: &mut State, index: &mut usize)
    requires
        *old(index) < old(state)@.content.len(),
        reader_ok(old(state)@),
        param_slot_exists(old(state)@),
    ensures
        variable_separator_name_post(old(state)@, old(state)@.content[*old(index) as int], final(state)@),
        *final(index) == *old(index),
        reader_ok(final(state)@),
{
    let char_val = state.content[*index];
    let c = char_to_string(char_val);
    let u = upper_text(c.as_str());
    proof {
        reveal_strlit("I");
        reveal_strlit("O");
    }
    if str_eq(u.as_str(), "I") {
        state.update_stage(ProcDecalarationStage::Variable(
            ProcVariableStages::VariableDirection(InOutDirectionStageInfo { str_val: string_of("I"), stage: InOutDirectionStage::Init }),
        ));
    } else if str_eq(u.as_str(), "O") {
        state.update_stage(ProcDecalarationStage::Variable(
            ProcVariableStages::VariableDirection(InOutDirectionStageInfo { str_val: string_of("O"), stage: InOutDirectionStage::Init }),
        ));
    } else {
        state.abort_param();
    }
}

/// The stage of a parameter type read as `search` with text `v`.
pub open spec fn type_stage(search: ParamSearchType, v: Seq<char>) -> spec_fn(ProcDecalarationStage) -> bool {
    |st: ProcDecalarationStage|
        st matches ProcDecalarationStage::Variable(ProcVariableStages::VariableType(info)) && info.search_type == search
            && info.str_val@ == v
}

/// What `variable_separator_direction` does with the first character `c` of a parameter's
/// type: `V`, `N` or `B` (in either case) may start a plain type word; another character in
/// `A`..=`z` a type recognised by its ending; anything else gives up the parameter.
pub open spec fn variable_separator_direction_post(s: StateView, c: char, t: StateView) -> bool {
    let u = upper(seq![c]);
    if u == "V"@ || u == "N"@ || u == "B"@ {
        s.restaged(t, type_stage(ParamSearchType::Word, seq![c]))
    } else if is_key_char(c) {
        s.restaged(t, type_stage(ParamSearchType::EndsWith, seq![c]))
    } else {
        t == s.staged(ProcDecalarationStage::NoStoredProcedure)
    }
}

/// Reads the first character of a parameter's type (see [`variable_separator_direction_post`]).
pub fn variable_separator_direction(state: &mut State, index: &mut usize)
    requires
        *old(index) < old(state)@.content.len(),
        reader_ok(old(state)@),
        param_slot_exists(old(state)@),
    ensures
        variable_separator_direction_post(old(state)@, old(state)@.content[*old(index) as int], final(state)@),
        *final(index) == *old(index),
        reader_ok(final(state)@),
{
    let char_val = state.content[*index];
    let is_allowed_val = allowed_start(char_val);
    let c = char_to_string(char_val);
    let u = upper_text(c.as_str());
    proof {
        reveal_strlit("V");
        reveal_strlit("N");
        reveal_strlit("B");
    }
    if str_eq(u.as_str(), "V") || str_eq(u.as_str(), "N") || str_eq(u.as_str(), "B") {
        state.update_stage(ProcDecalarationStage::Variable(
            ProcVariableStages::VariableType(ParamTypeInfo { search_type: ParamSearchType::Word, str_val: c }),
        ));
    } else if is_allowed_val {
        state.update_stage(ProcDecalarationStage::Variable(
            ProcVariableStages::VariableType(ParamTypeInfo { search_type: ParamSearchType::EndsWith, str_val: c }),
        ));
    } else {
        state.abort_param();
    }
}

/// One of the plain type words.
pub open spec fn is_type_word(u: Seq<char>) -> bool {
    u == "VARCHAR"@ || u == "NUMBER"@ || u == "BOOL"@
}

/// A part of one of the plain type words.
pub open spec fn in_type_word(u: Seq<char>) -> bool {
    has_substring("VARCHAR"@, u) || has_substring("NUMBER"@, u) || has_substring("BOOL"@, u)
}

/// What `variable_stage_param_type_in` does at position `i` with the type text `v` read so
/// far: a complete plain type word sets the type `VARCHAR2` (skipping the `2` of `VARCHAR2`);
/// a part of one is kept; anything else is then recognised by its ending.
pub open spec fn variable_stage_param_type_in_post(s: StateView, i: int, v: Seq<char>, t: StateView, j: int) -> bool {
    let n = v.push(s.content[i]);
    let u = upper(n);
    if is_type_word(u) {
        let skip = s.content.len() > i + 1 && upper(n.push(s.content[i + 1])) == "VARCHAR2"@;
        j == (if skip {
            i + 1
        } else {
            i
        }) && t == typed(s, OracleDbType::Varchar2).staged(
            ProcDecalarationStage::VariableSeparator(VariableSeparationStage::DbTypeSeparator),
        )
    } else if in_type_word(u) {
        j == i && s.restaged(t, type_stage(ParamSearchType::Word, n))
    } else {
        j == i && s.restaged(t, type_stage(ParamSearchType::EndsWith, n))
    }
}

/// Reads a character of a plain type word (see [`variable_stage_param_type_in_post`]).
pub fn variable_stage_param_type_in(state: &mut State, index: &mut usize, param_type_val: &String)
    requires
        *old(index) < old(state)@.content.len(),
        reader_ok(old(state)@),
        param_slot_exists(old(state)@),
    ensures
        *old(index) <= *final(index) < old(state)@.content.len(),
        final(state)@.content == old(state)@.content,
        variable_stage_param_type_in_post(old(state)@, *old(index) as int, param_type_val@, final(state)@, *final(index) as int),
        reader_ok(final(state)@),
{
    let char_val = state.content[*index];
    let mut new_param_type_val = param_type_val.clone();
    push_char(&mut new_param_type_val, char_val);
    let u = upper_text(new_param_type_val.as_str());
    proof {
        reveal_strlit("VARCHAR");
        reveal_strlit("NUMBER");
        reveal_strlit("BOOL");
        reveal_strlit("VARCHAR2");
    }
    if str_eq(u.as_str(), "VARCHAR") || str_eq(u.as_str(), "NUMBER") || str_eq(u.as_str(), "BOOL") {
        let i = *index;
        if state.content.len() - 1 > i {
            let mut with_next = new_param_type_val.clone();
            push_char(&mut with_next, state.content[i + 1]);
            let u2 = upper_text(with_next.as_str());
            if str_eq(u2.as_str(), "VARCHAR2") {
                *index = i + 1;
            }
        }
        state.update_param_type(OracleDbType::Varchar2);
        state.update_stage(ProcDecalarationStage::VariableSeparator(VariableSeparationStage::DbTypeSeparator));
    } else if contains_str("VARCHAR", u.as_str()) || contains_str("NUMBER", u.as_str()) || contains_str("BOOL", u.as_str()) {
        state.update_stage(ProcDecalarationStage::Variable(
            ProcVariableStages::VariableType(ParamTypeInfo { search_type: ParamSearchType::Word, str_val: new_param_type_val }),
        ));
    } else {
        state.update_stage(ProcDecalarationStage::Variable(
            ProcVariableStages::VariableType(ParamTypeInfo { search_type: ParamSearchType::EndsWith, str_val: new_param_type_val }),
        ));
    }
}

/// What `variable_stage_param_ref_cursor` does with character `c` of a type text `v`
/// recognised by its ending: `)`, `,` or more than 50 bytes give the parameter up; an ending
/// `REFCURSOR` sets the type `REF CURSOR`, an ending `%TYPE` the type `VARCHAR2`.
pub open spec fn variable_stage_param_ref_cursor_post(s: StateView, c: char, v: Seq<char>, t: StateView) -> bool {
    let n = v.push(c);
    if c == ')' || c == ',' || utf8_len(n) > 50 {
        t == s.staged(ProcDecalarationStage::NoStoredProcedure)
    } else if has_suffix(upper(n), "REFCURSOR"@) {
        t == typed(s, OracleDbType::RefCursor).staged(
            ProcDecalarationStage::VariableSeparator(VariableSeparationStage::DbTypeSeparator),
        )
    } else if has_suffix(upper(n), "%TYPE"@) {
        t == typed(s, OracleDbType::Varchar2).staged(
            ProcDecalarationStage::VariableSeparator(VariableSeparationStage::DbTypeSeparator),
        )
    } else {
        s.restaged(t, type_stage(ParamSearchType::EndsWith, n))
    }
}

/// Reads a character of a type recognised by its ending (see
/// [`variable_stage_param_ref_cursor_post`]).
pub fn variable_stage_param_ref_cursor(state: &mut State, index: &mut usize, param_type_val: &String)
    requires
        *old(index) < old(state)@.content.len(),
        reader_ok(old(state)@),
        param_slot_exists(old(state)@),
    ensures
        variable_stage_param_ref_cursor_post(old(state)@, old(state)@.content[*old(index) as int], param_type_val@, final(state)@),
        *final(index) == *old(index),
        reader_ok(final(state)@),
{
    let char_val = state.content[*index];
    let mut new_param_type_val = param_type_val.clone();
    push_char(&mut new_param_type_val, char_val);
    let u = upper_text(new_param_type_val.as_str());
    proof {
        reveal_strlit("REFCURSOR");
        reveal_strlit("%TYPE");
    }
    if char_val == ')' || char_val == ',' || utf8_byte_len(new_param_type_val.as_str()) > 50 {
        state.abort_param();
    } else if ends_with(u.as_str(), "REFCURSOR") {
        state.update_param_type(OracleDbType::RefCursor);
        state.update_stage(ProcDecalarationStage::VariableSeparator(VariableSeparationStage::DbTypeSeparator));
    } else if ends_with(u.as_str(), "%TYPE") {
        state.update_param_type(OracleDbType::Varchar2);
        state.update_stage(ProcDecalarationStage::VariableSeparator(VariableSeparationStage::DbTypeSeparator));
    } else {
        state.update_stage(ProcDecalarationStage::Variable(
            ProcVariableStages::VariableType(ParamTypeInfo { search_type: ParamSearchType::EndsWith, str_val: new_param_type_val }),
        ));
    }
}

/// What `db_type_separator_stage` does with character `c` after a parameter's type: `,`
/// starts the next parameter, `)` ends the declaration, anything else starts `DEFAULT`.
pub open spec fn db_type_separator_stage_post(s: StateView, c: char, t: StateView) -> bool {
    if c == ',' {
        t == s.staged(ProcDecalarationStage::VariableSeparator(VariableSeparationStage::NewVariable))
    } else if c == ')' {
        t == s.staged(ProcDecalarationStage::NoStoredProcedure)
    } else {
        t == s.staged(ProcDecalarationStage::Variable(ProcVariableStages::DefaultKeyWord))
    }
}

/// Reads the character after a parameter's type (see [`db_type_separator_stage_post`]).
pub fn db_type_separator_stage(state: &mut State, index: &mut usize)
    requires
        *old(index) < old(state)@.content.len(),
        reader_ok(old(state)@),
        param_slot_exists(old(state)@),
    ensures
        db_type_separator_stage_post(old(state)@, old(state)@.content[*old(index) as int], final(state)@),
        *final(index) == *old(index),
        reader_ok(final(state)@),
{
    let char_val = state.content[*index];
    match char_val {
        ',' => state.update_stage(ProcDecalarationStage::VariableSeparator(VariableSeparationStage::NewVariable)),
        ')' => state.update_stage(ProcDecalarationStage::NoStoredProcedure),
        _ => state.update_stage(ProcDecalarationStage::Variable(ProcVariableStages::DefaultKeyWord)),
    }
}

/// What `variable_separator_new_var` does with the first character `c` after `,`: a
/// character in `A`..=`z` starts the next parameter's name; anything else gives up.
pub open spec fn variable_separator_new_var_post(s: StateView, c: char, t: StateView) -> bool {
    if is_key_char(c) {
        s.restaged(
            t,
            |st: ProcDecalarationStage|
                st matches ProcDecalarationStage::Variable(ProcVariableStages::VariableName(x)) && x@ == seq![c],
        )
    } else {
        t == s.staged(ProcDecalarationStage::NoStoredProcedure)
    }
}

/// Reads the first character of the next parameter (see [`variable_separator_new_var_post`]).
pub fn variable_separator_new_var(state: &mut State, index: &mut usize)
    requires
        *old(index) < old(state)@.content.len(),
        reader_ok(old(state)@),
        old(state)@.stored_procedures.len() >= 1,
    ensures
        variable_separator_new_var_post(old(state)@, old(state)@.content[*old(index) as int], final(state)@),
        *final(index) == *old(index),
        reader_ok(final(state)@),
{
    let char_val = state.content[*index];
    if allowed_start(char_val) {
        state.update_stage(ProcDecalarationStage::Variable(ProcVariableStages::VariableName(char_to_string(char_val))));
    } else {
        state.abort_param();
    }
}

/// What `default_keywrd_stage` does at position `i`, the character before it being the first
/// of `DEFAULT`: where `DEFAULT ` (in any case) stands there and a character follows it, the
/// reader moves past the word to the value; otherwise it gives up the parameter.
pub open spec fn default_keywrd_stage_post(s: StateView, i: int, t: StateView, j: int) -> bool {
    if i + 7 <= s.content.len() - 1 && upper(s.content.subrange(i - 1, i + 7)) == "DEFAULT "@ {
        j == i + 6 && s.restaged(
            t,
            |st: ProcDecalarationStage|
                st matches ProcDecalarationStage::Variable(ProcVariableStages::DefaultValueKeyWord(x)) && x@
                    == Seq::<char>::empty(),
        )
    } else {
        j == i && t == s.staged(ProcDecalarationStage::NoStoredProcedure)
    }
}

/// Reads the rest of the word `DEFAULT` (see [`default_keywrd_stage_post`]).
pub fn default_keywrd_stage(state: &mut State, index: &mut usize)
    requires
        1 <= *old(index) < old(state)@.content.len(),
        reader_ok(old(state)@),
        param_slot_exists(old(state)@),
    ensures
        *old(index) <= *final(index) < old(state)@.content.len(),
        final(state)@.content == old(state)@.content,
        default_keywrd_stage_post(old(state)@, *old(index) as int, final(state)@, *final(index) as int),
        reader_ok(final(state)@),
{
    let i = *index;
    if state.content.len() - 1 - i >= 7 {
        let word = chars_range(&state.content, i - 1, i + 7);
        let up = upper_text(word.as_str());
        proof {
            reveal_strlit("DEFAULT ");
        }
        if str_eq(up.as_str(), "DEFAULT ") {
            *index = i + 6;
            state.update_stage(ProcDecalarationStage::Variable(ProcVariableStages::DefaultValueKeyWord(String::new())));
            return;
        }
    }
    state.abort_param();
}

/// What `default_keyword_value_stage` does with character `c` after the default value `v`:
/// a value starts with a character in `A`..=`z` and has at most 25 bytes; `,` starts the next
/// parameter and `)` ends the declaration.
pub open spec fn default_keyword_value_stage_post(s: StateView, c: char, v: Seq<char>, t: StateView) -> bool {
    let n = v.push(c);
    if v.len() == 0 && is_key_char(c) {
        s.restaged(
            t,
            |st: ProcDecalarationStage|
                st matches ProcDecalarationStage::Variable(ProcVariableStages::DefaultValueKeyWord(x)) && x@ == n,
        )
    } else if v.len() == 0 || utf8_len(n) > 25 {
        t == s.staged(ProcDecalarationStage::NoStoredProcedure)
    } else if c == ',' {
        t == s.staged(ProcDecalarationStage::VariableSeparator(VariableSeparationStage::NewVariable))
    } else if c == ')' {
        t == s.staged(ProcDecalarationStage::NoStoredProcedure)
    } else {
        s.restaged(
            t,
            |st: ProcDecalarationStage|
                st matches ProcDecalarationStage::Variable(ProcVariableStages::DefaultValueKeyWord(x)) && x@ == n,
        )
    }
}

/// Reads a character of a parameter's default value (see [`default_keyword_value_stage_post`]).
pub fn default_keyword_value_stage(state: &mut State, index: &mut usize, curr_str_val: &String)
    requires
        *old(index) < old(state)@.content.len(),
        reader_ok(old(state)@),
        param_slot_exists(old(state)@),
    ensures
        default_keyword_value_stage_post(old(state)@, old(state)@.content[*old(index) as int], curr_str_val@, final(state)@),
        *final(index) == *old(index),
        reader_ok(final(state)@),
{
    let char_val = state.content[*index];
    let mut new_str_val = curr_str_val.clone();
    push_char(&mut new_str_val, char_val);
    let is_allowed_val = allowed_start(char_val);
    if curr_str_val.as_str().is_empty() && is_allowed_val {
        state.update_stage(ProcDecalarationStage::Variable(ProcVariableStages::DefaultValueKeyWord(new_str_val)));
    } else if curr_str_val.as_str().is_empty() || utf8_byte_len(new_str_val.as_str()) > 25 {
        state.abort_param();
    } else if char_val == ',' {
        state.update_stage(ProcDecalarationStage::VariableSeparator(VariableSeparationStage::NewVariable));
    } else if char_val == ')' {
        state.update_stage(ProcDecalarationStage::NoStoredProcedure);
    } else {
        state.update_stage(ProcDecalarationStage::Variable(ProcVariableStages::DefaultValueKeyWord(new_str_val)));
    }
}

} // verus!
