use vstd::prelude::*;

use super::models::{KeyValState, TokenStage, TokenStageKey, TokenType, XmlOpenTagOptions};
use super::state::{State, StateView};
use super::xml_attributes::xml_attributes_end::missing_group_id_message;
use super::xml_tag::{
    add_close_tag, add_open_tag, check_if_nested_in_array, close_tag_outcome, nested_in_array_option,
    open_tag_outcome,
};
use super::{step_bounds, step_error, step_ready, unexpected_character_error, unexpected_message};

verus! {

/// The token of a member whose key is about to be read.
pub open spec fn key_opening() -> TokenType {
    TokenType::JsonObject(TokenStage::Content(KeyValState::KeyState(TokenStageKey::Opening)))
}

/// `t` follows `s` when a member starts: a fresh field without key is pushed, reading its key.
pub open spec fn member_started(s: StateView, t: StateView) -> bool {
    exists|m: StateView| #[trigger] s.pushed_fresh(m, None) && t == m.with_last_token(key_opening())
}

/// What `json_object_open_case` does with character `c` right after `{`: `"` opens the
/// object's element and starts its first member; `}` writes an empty element, closes the
/// object's attribute groups and pops its field.
pub open spec fn json_object_open_case_post(s: StateView, c: char, r: Result<(), String>, t: StateView) -> bool {
    if c == '"' {
        step_error(r) is None && exists|m: StateView|
            #[trigger] open_tag_outcome(s, true, nested_in_array_option(s), m) && member_started(m, t)
    } else if c == '}' {
        if s.fields.len() >= 2 {
            exists|m: StateView|
                #[trigger] open_tag_outcome(s, true, XmlOpenTagOptions::ObjectSimpleVal, m) && match close_tag_outcome(
                    m,
                    false,
                ).ended() {
                    Some(e) => step_error(r) is None && t == e.popped().with_last_token(
                        TokenType::JsonObject(TokenStage::Closing),
                    ),
                    None => step_error(r) == Some(missing_group_id_message()),
                }
        } else {
            step_error(r) == Some(unexpected_message(c, s.curr_row_num))
        }
    } else {
        step_error(r) == Some(unexpected_message(c, s.curr_row_num))
    }
}

fn start_member(state: &mut State)
    requires
        old(state)@.fields.len() >= 1,
    ensures
        member_started(old(state)@, final(state)@),
{
    state.push_field(None);
    let ghost m = state@;
    state.update_token_type(TokenType::JsonObject(TokenStage::Content(KeyValState::KeyState(TokenStageKey::Opening))));
    proof {
        assert(old(state)@.pushed_fresh(m, None));
    }
}

/// Reads the character right after the `{` of an object (see [`json_object_open_case_post`]).
pub fn json_object_open_case(char_val: &char, state: &mut State) -> (r: Result<(), String>)
    requires
        step_ready(old(state)@),
        forall|e: Result<(), String>, t: StateView| #[trigger] json_object_open_case_post(old(state)@, *char_val, e, t) ==> e is Ok,
    ensures
        json_object_open_case_post(old(state)@, *char_val, r, final(state)@),
        r is Ok ==> step_bounds(old(state)@, final(state)@),
{
    match char_val {
        '"' => {
            let options = check_if_nested_in_array(state);
            add_open_tag(state, true, options);
            let ghost m = state@;
            start_member(state);
            proof {
                assert(open_tag_outcome(old(state)@, true, options, m));
            }
            Ok(())
        },
        '}' => {
            if state.fields.len() < 2 {
                return Err(unexpected_character_error(char_val, state));
            }
            add_open_tag(state, true, XmlOpenTagOptions::ObjectSimpleVal);
            let ghost m = state@;
            add_close_tag(state, false);
            let res = state.check_end_xml_attributes();
            proof {
                assert(open_tag_outcome(old(state)@, true, XmlOpenTagOptions::ObjectSimpleVal, m));
            }
            if res.is_err() {
                return res;
            }
            state.fields.pop();
            state.update_token_type(TokenType::JsonObject(TokenStage::Closing));
            Ok(())
        },
        _ => Err(unexpected_character_error(char_val, state)),
    }
}

/// What `json_object_closed_case` does with character `c` after a closed object.
pub open spec fn json_object_closed_case_post(s: StateView, c: char, r: Result<(), String>, t: StateView) -> bool {
    if c == ']' || c == '}' {
        step_error(r) is None && t == s.popped().closed()
    } else if c == ',' {
        step_error(r) is None && t == s.item_separated()
    } else {
        step_error(r) == Some(unexpected_message(c, s.curr_row_num))
    }
}

/// Reads the character after a closed object: `]` or `}` ends the enclosing container,
/// `,` separates items.
pub fn json_object_closed_case(char_val: &char, state: &mut State) -> (r: Result<(), String>)
    requires
        step_ready(old(state)@),
        forall|e: Result<(), String>, t: StateView| #[trigger] json_object_closed_case_post(old(state)@, *char_val, e, t) ==> e is Ok,
    ensures
        json_object_closed_case_post(old(state)@, *char_val, r, final(state)@),
        r is Ok ==> step_bounds(old(state)@, final(state)@),
{
    match char_val {
        ']' => {
            state.fields.pop();
            state.update_to_closed_state();
            Ok(())
        },
        '}' => {
            state.fields.pop();
            state.update_to_closed_state();
            Ok(())
        },
        ',' => {
            state.update_to_item_separate_state();
            Ok(())
        },
        _ => Err(unexpected_character_error(char_val, state)),
    }
}

/// What `json_object_item_separator_case` does with character `c` after a `,` between members.
pub open spec fn json_object_item_separator_case_post(s: StateView, c: char, r: Result<(), String>, t: StateView) -> bool {
    if c == '"' {
        step_error(r) is None && member_started(s, t)
    } else {
        step_error(r) == Some(unexpected_message(c, s.curr_row_num))
    }
}

/// Reads the character after a `,` between members: the `"` of the next key.
pub fn json_object_item_separator_case(char_val: &char, state: &mut State) -> (r: Result<(), String>)
    requires
        step_ready(old(state)@),
        forall|e: Result<(), String>, t: StateView| #[trigger] json_object_item_separator_case_post(old(state)@, *char_val, e, t) ==> e is Ok,
    ensures
        json_object_item_separator_case_post(old(state)@, *char_val, r, final(state)@),
        r is Ok ==> step_bounds(old(state)@, final(state)@),
{
    match char_val {
        '"' => {
            start_member(state);
            Ok(())
        },
        _ => Err(unexpected_character_error(char_val, state)),
    }
}

} // verus!
