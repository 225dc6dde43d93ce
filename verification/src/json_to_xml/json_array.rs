use vstd::prelude::*;

use crate::text::{is_digit, string_of};
use super::models::{ArrayValType, JsonNull, JsonStr, NestingState, TokenStage, TokenType, XmlOpenTagOptions};
use super::state::{State, StateView};
use super::xml_tag::{add_close_tag, add_open_tag, add_tag_val, close_tag_outcome, open_tag_outcome};
use super::{retokened, step_bounds, step_error, step_ready, unexpected_character_error, unexpected_message};

verus! {

/// `t` follows `s` when a value starts inside the array of the innermost field: the field is
/// marked as holding an array, a fresh field named like it is pushed, and the value's
/// element is opened with `options`.
pub open spec fn array_value_opened(s: StateView, options: XmlOpenTagOptions, t: StateView) -> bool {
    exists|m: StateView|
        s.with_last_nesting(NestingState::JsonArrayNestingState).pushed_fresh(m, s.fields.last().key)
            && #[trigger] open_tag_outcome(m, true, options, t)
}

/// `t` follows `s` when a value whose first character makes a token that `ok` accepts starts
/// in the array of the innermost field, its element opened with `options`.
pub open spec fn array_value_started(
    s: StateView,
    options: XmlOpenTagOptions,
    ok: spec_fn(TokenType) -> bool,
    t: StateView,
) -> bool {
    exists|m: StateView| #[trigger] array_value_opened(s, options, m) && retokened(m, t, ok)
}

/// `t` follows `s` when an object starts inside the array of the innermost field; when
/// `mark` holds the field is first marked as holding an array.
pub open spec fn array_object_started(s: StateView, mark: bool, t: StateView) -> bool {
    let s1 = if mark {
        s.with_last_nesting(NestingState::JsonArrayNestingState)
    } else {
        s
    };
    s1.pushed_fresh(t, s.fields.last().key)
}

/// The options with which a `null` in an array opens its element: as an object of an
/// attribute array while attributes are read, as a plain value otherwise.
pub open spec fn null_options(s: StateView) -> XmlOpenTagOptions {
    if s.xml_attributes is Some {
        XmlOpenTagOptions::ObjectInArray
    } else {
        XmlOpenTagOptions::ArraySimpleVal
    }
}

/// The first character `c` of a value in an array, and the token it starts, if any:
/// `"` a string, `n` a `null`, `-` or a digit a number.
pub open spec fn starts_array_value(c: char, k: TokenType) -> bool {
    if c == '"' {
        k matches TokenType::JsonArray(TokenStage::Content(ArrayValType::JsonStr(JsonStr::Open(n)))) && n@
            == Seq::<char>::empty()
    } else if c == 'n' {
        k matches TokenType::JsonArray(TokenStage::Content(ArrayValType::Null(JsonNull::Open(n)))) && n@ == seq!['n']
    } else {
        k matches TokenType::JsonArray(TokenStage::Content(ArrayValType::JsonNumber(n))) && n@ == seq![c]
    }
}

/// What a value's first character `c` does in the array of the innermost field (shared by
/// `json_array_open_case` and `json_array_item_separator_case`); `mark` tells whether an
/// object marks the field as holding an array.
pub open spec fn array_item_post(s: StateView, c: char, mark: bool, r: Result<(), String>, t: StateView) -> bool {
    if c == '{' {
        step_error(r) is None && exists|m: StateView|
            #[trigger] array_object_started(s, mark, m) && t == m.with_last_token(
                TokenType::JsonObject(TokenStage::Opening),
            )
    } else if c == '"' || c == '-' || is_digit(c) {
        step_error(r) is None && array_value_started(
            s,
            XmlOpenTagOptions::ArraySimpleVal,
            |k: TokenType| starts_array_value(c, k),
            t,
        )
    } else if c == 'n' {
        step_error(r) is None && array_value_started(s, null_options(s), |k: TokenType| starts_array_value(c, k), t)
    } else {
        step_error(r) == Some(unexpected_message(c, s.curr_row_num))
    }
}

/// What `json_array_open_case` does with character `c` right after `[`: an empty array gives
/// one element holding `null`; otherwise as [`array_item_post`].
pub open spec fn json_array_open_case_post(s: StateView, c: char, r: Result<(), String>, t: StateView) -> bool {
    if c == ']' {
        if s.fields.len() >= 2 {
            step_error(r) is None && exists|m: StateView|
                #[trigger] open_tag_outcome(s, true, XmlOpenTagOptions::ArraySimpleVal, m) && t == close_tag_outcome(
                    m.appended("null"@),
                    false,
                ).popped().with_last_token(TokenType::JsonArray(TokenStage::Closing))
        } else {
            step_error(r) == Some(unexpected_message(c, s.curr_row_num))
        }
    } else {
        array_item_post(s, c, true, r, t)
    }
}

fn new_arr_value_handling(state: &mut State, options: XmlOpenTagOptions)
    requires
        old(state)@.fields.len() >= 1,
        old(state)@.curr_indent < i32::MAX,
    ensures
        array_value_opened(old(state)@, options, final(state)@),
        final(state)@.fields.len() == old(state)@.fields.len() + 1,
        final(state)@.fields.drop_last() == old(state)@.with_last_nesting(NestingState::JsonArrayNestingState).fields,
        final(state)@.curr_indent == old(state)@.curr_indent + 1,
        final(state)@.curr_row_num == old(state)@.curr_row_num,
{
    state.update_nesting_state(NestingState::JsonArrayNestingState);
    let key = state.last_key();
    state.push_field(key);
    let ghost m = state@;
    add_open_tag(state, true, options);
    proof {
        assert(open_tag_outcome(m, true, options, state@));
        assert(m.fields.drop_last() =~= old(state)@.with_last_nesting(NestingState::JsonArrayNestingState).fields);
    }
}

fn start_array_value(
    char_val: &char,
    state: &mut State,
    options: XmlOpenTagOptions,
    token: TokenType,
)
    requires
        step_ready(old(state)@),
        starts_array_value(*char_val, token),
    ensures
        array_value_started(old(state)@, options, |k: TokenType| starts_array_value(*char_val, k), final(state)@),
        step_bounds(old(state)@, final(state)@),
{
    new_arr_value_handling(state, options);
    let ghost m = state@;
    state.update_token_type(token);
    proof {
        assert(array_value_opened(old(state)@, options, m));
        assert(state@.fields[0] == old(state)@.with_last_nesting(NestingState::JsonArrayNestingState).fields[0]);
    }
}

fn start_array_object(state: &mut State, mark: bool)
    requires
        step_ready(old(state)@),
    ensures
        exists|m: StateView|
            #[trigger] array_object_started(old(state)@, mark, m) && final(state)@ == m.with_last_token(
                TokenType::JsonObject(TokenStage::Opening),
            ),
        step_bounds(old(state)@, final(state)@),
{
    let key = state.last_key();
    if mark {
        state.update_nesting_state(NestingState::JsonArrayNestingState);
    }
    state.push_field(key);
    let ghost m = state@;
    state.update_token_type(TokenType::JsonObject(TokenStage::Opening));
    proof {
        assert(array_object_started(old(state)@, mark, m));
    }
}

fn array_item(char_val: &char, state: &mut State, mark: bool) -> (r: Result<(), String>)
    requires
        step_ready(old(state)@),
        forall|e: Result<(), String>, t: StateView| #[trigger] array_item_post(old(state)@, *char_val, mark, e, t) ==> e is Ok,
    ensures
        array_item_post(old(state)@, *char_val, mark, r, final(state)@),
        r is Ok ==> step_bounds(old(state)@, final(state)@),
{
    match char_val {
        '"' => {
            let token = TokenType::JsonArray(TokenStage::Content(ArrayValType::JsonStr(JsonStr::Open(String::new()))));
            start_array_value(char_val, state, XmlOpenTagOptions::ArraySimpleVal, token);
            Ok(())
        },
        '{' => {
            start_array_object(state, mark);
            Ok(())
        },
        'n' => {
            let options = if state.xml_attributes.is_some() {
                XmlOpenTagOptions::ObjectInArray
            } else {
                XmlOpenTagOptions::ArraySimpleVal
            };
            let v = string_of("n");
            proof {
                reveal_strlit("n");
                assert(v@ =~= seq!['n']);
            }
            let token = TokenType::JsonArray(TokenStage::Content(ArrayValType::Null(JsonNull::Open(v))));
            start_array_value(char_val, state, options, token);
            Ok(())
        },
        _ => {
            if *char_val == '-' || ('0' <= *char_val && *char_val <= '9') {
                let v = crate::text::char_to_string(*char_val);
                let token = TokenType::JsonArray(TokenStage::Content(ArrayValType::JsonNumber(v)));
                start_array_value(char_val, state, XmlOpenTagOptions::ArraySimpleVal, token);
                Ok(())
            } else {
                Err(unexpected_character_error(char_val, state))
            }
        },
    }
}

/// Reads the character right after the `[` of an array (see [`json_array_open_case_post`]).
pub fn json_array_open_case(char_val: &char, state: &mut State) -> (r: Result<(), String>)
    requires
        step_ready(old(state)@),
        forall|e: Result<(), String>, t: StateView| #[trigger] json_array_open_case_post(old(state)@, *char_val, e, t) ==> e is Ok,
    ensures
        json_array_open_case_post(old(state)@, *char_val, r, final(state)@),
        r is Ok ==> step_bounds(old(state)@, final(state)@),
{
    if *char_val == ']' {
        if state.fields.len() < 2 {
            return Err(unexpected_character_error(char_val, state));
        }
        add_open_tag(state, true, XmlOpenTagOptions::ArraySimpleVal);
        let ghost m = state@;
        add_tag_val(state, &String::new());
        add_close_tag(state, false);
        state.fields.pop();
        state.update_token_type(TokenType::JsonArray(TokenStage::Closing));
        proof {
            reveal_strlit("null");
            assert(open_tag_outcome(old(state)@, true, XmlOpenTagOptions::ArraySimpleVal, m));
        }
        Ok(())
    } else {
        proof {
            assert forall|e: Result<(), String>, t: StateView| #[trigger] array_item_post(old(state)@, *char_val, true, e, t) implies e is Ok by {
                assert(json_array_open_case_post(old(state)@, *char_val, e, t));
            }
        }
        array_item(char_val, state, true)
    }
}

/// What `json_array_closed_case` does with character `c` after an array inside an object:
/// `}` closes the object, its attribute groups and its field; `,` separates members.
pub open spec fn json_array_closed_case_post(s: StateView, c: char, r: Result<(), String>, t: StateView) -> bool {
    if c == '}' {
        match close_tag_outcome(s, true).ended() {
            Some(e) => step_error(r) is None && t == e.popped().closed(),
            None => step_error(r) == Some(super::xml_attributes::xml_attributes_end::missing_group_id_message()),
        }
    } else if c == ',' {
        step_error(r) is None && t == s.item_separated()
    } else {
        step_error(r) == Some(unexpected_message(c, s.curr_row_num))
    }
}

/// Reads the character after a closed array (see [`json_array_closed_case_post`]).
pub fn json_array_closed_case(char_val: &char, state: &mut State) -> (r: Result<(), String>)
    requires
        step_ready(old(state)@),
        forall|e: Result<(), String>, t: StateView| #[trigger] json_array_closed_case_post(old(state)@, *char_val, e, t) ==> e is Ok,
    ensures
        json_array_closed_case_post(old(state)@, *char_val, r, final(state)@),
        r is Ok ==> step_bounds(old(state)@, final(state)@),
{
    match char_val {
        '}' => {
            add_close_tag(state, true);
            let res = state.check_end_xml_attributes();
            if res.is_err() {
                return res;
            }
            state.fields.pop();
            state.update_to_closed_state();
            Ok(())
        },
        ',' => {
            state.update_to_item_separate_state();
            Ok(())
        },
        _ => Err(unexpected_character_error(char_val, state)),
    }
}

/// What `json_array_item_separator_case` does with the first character `c` of the next item.
pub open spec fn json_array_item_separator_case_post(s: StateView, c: char, r: Result<(), String>, t: StateView) -> bool {
    array_item_post(s, c, false, r, t)
}

/// Reads the first character of the next item of an array.
pub fn json_array_item_separator_case(char_val: &char, state: &mut State) -> (r: Result<(), String>)
    requires
        step_ready(old(state)@),
        forall|e: Result<(), String>, t: StateView| #[trigger] json_array_item_separator_case_post(old(state)@, *char_val, e, t) ==> e is Ok,
    ensures
        json_array_item_separator_case_post(old(state)@, *char_val, r, final(state)@),
        r is Ok ==> step_bounds(old(state)@, final(state)@),
{
    proof {
        assert forall|e: Result<(), String>, t: StateView| #[trigger] array_item_post(old(state)@, *char_val, false, e, t) implies e is Ok by {
            assert(json_array_item_separator_case_post(old(state)@, *char_val, e, t));
        }
    }
    array_item(char_val, state, false)
}

} // verus!
