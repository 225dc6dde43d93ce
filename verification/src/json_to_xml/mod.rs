pub mod array_val;
pub mod json_array;
pub mod json_object;
pub mod key_val;
pub mod models;
pub mod state;
pub mod xml_attributes;
pub mod xml_tag;

use vstd::prelude::*;

use crate::text::{chars_of, decimal, i32_to_string, is_white_space, lemma_trimmed_ends, push_char, push_str, string_of, trim, trimmed};
use self::array_val::{
    array_val_json_null_case_closed, array_val_json_null_case_closed_post, array_val_json_null_case_open,
    array_val_json_null_case_open_post, array_val_json_number_open_case, array_val_json_number_open_case_post,
    array_val_json_str_close_case, array_val_json_str_close_case_post, array_val_json_str_open_case,
    array_val_json_str_open_case_post,
};
use self::json_array::{
    json_array_closed_case, json_array_closed_case_post, json_array_item_separator_case,
    json_array_item_separator_case_post, json_array_open_case, json_array_open_case_post,
};
use self::json_object::{
    json_object_closed_case, json_object_closed_case_post, json_object_item_separator_case,
    json_object_item_separator_case_post, json_object_open_case, json_object_open_case_post,
};
use self::key_val::{
    key_closed_cased, key_closed_cased_post, key_open_case, key_open_case_post, key_val_json_null_case_closed,
    key_val_json_null_case_closed_post, key_val_json_null_case_open, key_val_json_null_case_open_post,
    key_val_json_number_open_case, key_val_json_number_open_case_post, key_val_json_str_close_case,
    key_val_json_str_close_case_post, key_val_json_str_open_case, key_val_json_str_open_case_post,
    key_val_separator_case, key_val_separator_case_post,
};
use self::models::{
    ArrayValType, JsonNull, JsonStr, KeyValState, KeyValType, NestingState, TokenStage, TokenStageKey, TokenType,
};
use self::state::{same_frame, State, StateView};
use self::xml_attributes::{attribute_step_post, xml_attributes_check_state};
use self::xml_attributes::models::{XmlAttributeKeyValueStages, XmlAttributesArrayStages, XmlAttributesObjectStages, XmlAttributesStages};
use self::xml_attributes::xml_attributes_array::{array_attributes_stage_value_open, array_attributes_stage_value_open_post};
use self::xml_attributes::xml_attributes_object::{object_attributes_stage_value_open, object_attributes_stage_value_open_post};

verus! {

/// The message for a character that cannot stand where it was found.
pub open spec fn unexpected_message(c: char, row: i32) -> Seq<char> {
    "Unexpected character '"@ + seq![c] + "' at row "@ + decimal(row as int)
}

/// The error of a step, if it failed.
pub open spec fn step_error(r: Result<(), String>) -> Option<Seq<char>> {
    match r {
        Ok(_) => None,
        Err(e) => Some(e@),
    }
}

/// A token that only a member or a value pushed above its container carries: never the
/// token of the bottom field.
pub open spec fn is_inner_token(t: TokenType) -> bool {
    match t {
        TokenType::JsonObject(TokenStage::Content(KeyValState::KeyState(_))) => true,
        TokenType::JsonObject(TokenStage::Content(KeyValState::ValState(v))) => match v {
            KeyValType::JsonStr(JsonStr::Open(_)) => true,
            KeyValType::JsonNumber(_) => true,
            KeyValType::Null(JsonNull::Open(_)) => true,
            _ => false,
        },
        TokenType::JsonArray(TokenStage::Content(a)) => match a {
            ArrayValType::JsonStr(JsonStr::Open(_)) => true,
            ArrayValType::JsonNumber(_) => true,
            ArrayValType::Null(JsonNull::Open(_)) => true,
            _ => false,
        },
        _ => false,
    }
}

/// The bottom field, if any, carries no inner token.
pub open spec fn root_ok(s: StateView) -> bool {
    s.fields.len() >= 1 ==> !is_inner_token(s.fields[0].token_type)
}

/// What a step may be given: a non-empty stack whose bottom is a container, and room for
/// the depth to move by two either way.
pub open spec fn step_ready(s: StateView) -> bool {
    &&& s.fields.len() >= 1
    &&& root_ok(s)
    &&& i32::MIN + 2 < s.curr_indent < i32::MAX - 1
}

/// What every successful step keeps: the bottom field is still a container, the depth moved by
/// at most two down or one up, and the row is unchanged.
pub open spec fn step_bounds(s: StateView, t: StateView) -> bool {
    &&& root_ok(t)
    &&& s.curr_indent - 2 <= t.curr_indent <= s.curr_indent + 1
    &&& t.curr_row_num == s.curr_row_num
}

/// `t` is `s` with the innermost token replaced by one that `ok` accepts.
pub open spec fn retokened(s: StateView, t: StateView, ok: spec_fn(TokenType) -> bool) -> bool {
    &&& t.fields.len() == s.fields.len()
    &&& ok(t.fields.last().token_type)
    &&& t == s.with_last_token(t.fields.last().token_type)
}

/// The error for character `char_val` found where it cannot stand.
pub fn unexpected_character_error(char_val: &char, state: &State) -> (r: String)
    ensures
        r@ == unexpected_message(*char_val, state.curr_row_num),
{
    unexpected_character_text(*char_val, state.curr_row_num)
}

/// The error for character `c` found where it cannot stand, on row `row`.
pub fn unexpected_character_text(c: char, row: i32) -> (r: String)
    ensures
        r@ == unexpected_message(c, row),
{
    let mut msg = string_of("Unexpected character '");
    push_char(&mut msg, c);
    push_str(&mut msg, "' at row ");
    let row_text = i32_to_string(row);
    push_str(&mut msg, row_text.as_str());
    proof {
        assert(msg@ =~= unexpected_message(c, row));
    }
    msg
}

/// What the character `c` does to the key of the innermost member, at key stage `k`.
pub open spec fn member_key_step(s: StateView, c: char, k: TokenStageKey, r: Result<(), String>, t: StateView) -> bool {
    match k {
        TokenStageKey::Opening => key_open_case_post(s, c, r, t),
        TokenStageKey::KeyValSeparator => key_val_separator_case_post(s, c, r, t),
        TokenStageKey::Closing => key_closed_cased_post(s, c, r, t),
    }
}

/// What the character `c` does to the value `v` of the innermost member.
pub open spec fn member_value_step(s: StateView, c: char, v: KeyValType, r: Result<(), String>, t: StateView) -> bool {
    match v {
        KeyValType::JsonStr(JsonStr::Open(x)) => key_val_json_str_open_case_post(s, c, x@, r, t),
        KeyValType::JsonStr(JsonStr::Closing) => key_val_json_str_close_case_post(s, c, r, t),
        KeyValType::JsonNumber(x) => key_val_json_number_open_case_post(s, c, x@, r, t),
        KeyValType::Null(JsonNull::Open(x)) => key_val_json_null_case_open_post(s, c, x@, r, t),
        KeyValType::Null(JsonNull::Closing) => key_val_json_null_case_closed_post(s, c, r, t),
    }
}

/// What the character `c` does to the value `v` of an array.
pub open spec fn array_value_step(s: StateView, c: char, v: ArrayValType, r: Result<(), String>, t: StateView) -> bool {
    match v {
        ArrayValType::JsonStr(JsonStr::Open(x)) => array_val_json_str_open_case_post(s, c, x@, r, t),
        ArrayValType::JsonStr(JsonStr::Closing) => array_val_json_str_close_case_post(s, c, r, t),
        ArrayValType::JsonNumber(x) => array_val_json_number_open_case_post(s, c, x@, r, t),
        ArrayValType::Null(JsonNull::Open(x)) => array_val_json_null_case_open_post(s, c, x@, r, t),
        ArrayValType::Null(JsonNull::Closing) => array_val_json_null_case_closed_post(s, c, r, t),
    }
}

/// What the character `c` does inside an object at stage `stage`.
pub open spec fn object_step(s: StateView, c: char, stage: TokenStage<KeyValState>, r: Result<(), String>, t: StateView) -> bool {
    match stage {
        TokenStage::Opening => json_object_open_case_post(s, c, r, t),
        TokenStage::Content(KeyValState::KeyState(k)) => member_key_step(s, c, k, r, t),
        TokenStage::Content(KeyValState::ValState(v)) => member_value_step(s, c, v, r, t),
        TokenStage::ItemSeparator => json_object_item_separator_case_post(s, c, r, t),
        TokenStage::Closing => json_object_closed_case_post(s, c, r, t),
    }
}

/// What the character `c` does inside an array at stage `stage`.
pub open spec fn array_step(s: StateView, c: char, stage: TokenStage<ArrayValType>, r: Result<(), String>, t: StateView) -> bool {
    match stage {
        TokenStage::Opening => json_array_open_case_post(s, c, r, t),
        TokenStage::Content(v) => array_value_step(s, c, v, r, t),
        TokenStage::ItemSeparator => json_array_item_separator_case_post(s, c, r, t),
        TokenStage::Closing => json_array_closed_case_post(s, c, r, t),
    }
}

/// What the character `c` does, by the token of the innermost field.
pub open spec fn token_step(s: StateView, c: char, r: Result<(), String>, t: StateView) -> bool {
    match s.fields.last().token_type {
        TokenType::JsonObject(stage) => object_step(s, c, stage, r, t),
        TokenType::JsonArray(stage) => array_step(s, c, stage, r, t),
    }
}

/// The four characters that separate JSON tokens: space, new line, tab and carriage return.
pub open spec fn is_blank(c: char) -> bool {
    c == ' ' || c == '\n' || c == '\t' || c == '\r'
}

/// What a blank character `c` does to the attribute value being read, if one is.
pub open spec fn blank_attribute_step(s: StateView, c: char, t: StateView) -> bool {
    match s.xml_attributes {
        Some(b) => match b.curr_stage {
            XmlAttributesStages::Array(XmlAttributesArrayStages::Value(XmlAttributeKeyValueStages::Open(v))) =>
                array_attributes_stage_value_open_post(s, c, v@, t),
            XmlAttributesStages::Object(XmlAttributesObjectStages::Value(XmlAttributeKeyValueStages::Open(v))) =>
                object_attributes_stage_value_open_post(s, c, v@, t),
            _ => t == s,
        },
        None => t == s,
    }
}

/// What a blank character `c` does: it is kept inside a string value and inside an attribute
/// value, and is skipped elsewhere.
pub open spec fn blank_step(s: StateView, c: char, t: StateView) -> bool {
    exists|m: StateView|
        #[trigger] blank_attribute_step(m, c, t) && match s.fields.last().token_type {
            TokenType::JsonObject(TokenStage::Content(KeyValState::ValState(KeyValType::JsonStr(JsonStr::Open(x))))) =>
                key_val_json_str_open_case_post(s, c, x@, Ok(()), m),
            TokenType::JsonArray(TokenStage::Content(ArrayValType::JsonStr(JsonStr::Open(x)))) =>
                array_val_json_str_open_case_post(s, c, x@, Ok(()), m),
            _ => m == s,
        }
}

/// `t` is `s` with a root container pushed: a fresh field without key, nesting `n` and token `k`.
pub open spec fn root_pushed(s: StateView, n: NestingState, k: TokenType, t: StateView) -> bool {
    exists|m: StateView| #[trigger] s.pushed_fresh(m, None) && t == m.with_last_nesting(n).with_last_token(k)
}

/// The state after the row count has taken character `c` into account.
pub open spec fn row_counted(s: StateView, c: char) -> StateView {
    if c == '\n' {
        StateView { curr_row_num: (s.curr_row_num + 1) as i32, ..s }
    } else {
        s
    }
}

/// What the conversion does with one character `c` in state `s`: with result `r` the new state
/// is `t`. Before the first container only blanks, `{` and `[` are allowed; inside, blanks are
/// handled by [`blank_step`], and other characters by [`token_step`] followed, on success, by
/// the attribute reading ([`attribute_step_post`]).
pub open spec fn single_step(s: StateView, c: char, r: Result<(), String>, t: StateView) -> bool {
    let s1 = row_counted(s, c);
    if s1.fields.len() == 0 {
        if is_blank(c) {
            step_error(r) is None && t == s1
        } else if c == '{' {
            step_error(r) is None && root_pushed(
                s1,
                NestingState::JsonObjectNestinState,
                TokenType::JsonObject(TokenStage::Opening),
                t,
            )
        } else if c == '[' {
            step_error(r) is None && root_pushed(
                s1,
                NestingState::JsonArrayNestingState,
                TokenType::JsonArray(TokenStage::Opening),
                t,
            )
        } else {
            step_error(r) == Some(unexpected_message(c, s1.curr_row_num))
        }
    } else if is_blank(c) {
        step_error(r) is None && blank_step(s1, c, t)
    } else {
        exists|m: StateView|
            #[trigger] token_step(s1, c, r, m) && (step_error(r) is None ==> attribute_step_post(m, c, t))
    }
}

fn key_val_state_key_state_decision(key_val_state_key_state: TokenStageKey, char_val: &char, state: &mut State) -> (r: Result<(), String>)
    requires
        step_ready(old(state)@),
        old(state)@.fields.last().token_type == TokenType::JsonObject(
            TokenStage::Content(KeyValState::KeyState(key_val_state_key_state)),
        ),
        forall|e: Result<(), String>, t: StateView| #[trigger] member_key_step(old(state)@, *char_val, key_val_state_key_state, e, t) ==> e is Ok,
    ensures
        member_key_step(old(state)@, *char_val, key_val_state_key_state, r, final(state)@),
        r is Ok ==> step_bounds(old(state)@, final(state)@),
{
    match key_val_state_key_state {
        TokenStageKey::Opening => {
            proof {
                assert forall|e: Result<(), String>, t: StateView| #[trigger] key_open_case_post(old(state)@, *char_val, e, t) implies e is Ok by {
                    assert(member_key_step(old(state)@, *char_val, key_val_state_key_state, e, t));
                }
            }
            key_open_case(char_val, state)
        },
        TokenStageKey::KeyValSeparator => {
            proof {
                assert forall|e: Result<(), String>, t: StateView| #[trigger] key_val_separator_case_post(old(state)@, *char_val, e, t) implies e is Ok by {
                    assert(member_key_step(old(state)@, *char_val, key_val_state_key_state, e, t));
                }
            }
            key_val_separator_case(char_val, state)
        },
        TokenStageKey::Closing => {
            proof {
                assert forall|e: Result<(), String>, t: StateView| #[trigger] key_closed_cased_post(old(state)@, *char_val, e, t) implies e is Ok by {
                    assert(member_key_step(old(state)@, *char_val, key_val_state_key_state, e, t));
                }
            }
            key_closed_cased(char_val, state)
        },
    }
}

fn key_val_state_val_decision(key_val_state_val: KeyValType, char_val: &char, state: &mut State) -> (r: Result<(), String>)
    requires
        step_ready(old(state)@),
        old(state)@.fields.last().token_type == TokenType::JsonObject(
            TokenStage::Content(KeyValState::ValState(key_val_state_val)),
        ),
        forall|e: Result<(), String>, t: StateView| #[trigger] member_value_step(old(state)@, *char_val, key_val_state_val, e, t) ==> e is Ok,
    ensures
        member_value_step(old(state)@, *char_val, key_val_state_val, r, final(state)@),
        r is Ok ==> step_bounds(old(state)@, final(state)@),
{
    match key_val_state_val {
        KeyValType::JsonStr(json_str_val) => match json_str_val {
            JsonStr::Open(json_str_val) => key_val_json_str_open_case(char_val, state, &json_str_val),
            JsonStr::Closing => {
            proof {
                assert forall|e: Result<(), String>, t: StateView| #[trigger] key_val_json_str_close_case_post(old(state)@, *char_val, e, t) implies e is Ok by {
                    assert(member_value_step(old(state)@, *char_val, key_val_state_val, e, t));
                }
            }
            key_val_json_str_close_case(char_val, state)
        },
        },
        KeyValType::JsonNumber(json_number) => {
            proof {
                assert forall|e: Result<(), String>, t: StateView| #[trigger] key_val_json_number_open_case_post(old(state)@, *char_val, json_number@, e, t) implies e is Ok by {
                    assert(member_value_step(old(state)@, *char_val, key_val_state_val, e, t));
                }
            }
            key_val_json_number_open_case(char_val, state, &json_number)
        },
        KeyValType::Null(json_null) => match json_null {
            JsonNull::Open(null_str_val) => {
            proof {
                assert forall|e: Result<(), String>, t: StateView| #[trigger] key_val_json_null_case_open_post(old(state)@, *char_val, null_str_val@, e, t) implies e is Ok by {
                    assert(member_value_step(old(state)@, *char_val, key_val_state_val, e, t));
                }
            }
            key_val_json_null_case_open(char_val, state, &null_str_val)
        },
            JsonNull::Closing => {
            proof {
                assert forall|e: Result<(), String>, t: StateView| #[trigger] key_val_json_null_case_closed_post(old(state)@, *char_val, e, t) implies e is Ok by {
                    assert(member_value_step(old(state)@, *char_val, key_val_state_val, e, t));
                }
            }
            key_val_json_null_case_closed(char_val, state)
        },
        },
    }
}

fn token_stage_content_decision(token_stage_content: ArrayValType, char_val: &char, state: &mut State) -> (r: Result<(), String>)
    requires
        step_ready(old(state)@),
        old(state)@.fields.last().token_type == TokenType::JsonArray(TokenStage::Content(token_stage_content)),
        forall|e: Result<(), String>, t: StateView| #[trigger] array_value_step(old(state)@, *char_val, token_stage_content, e, t) ==> e is Ok,
    ensures
        array_value_step(old(state)@, *char_val, token_stage_content, r, final(state)@),
        r is Ok ==> step_bounds(old(state)@, final(state)@),
{
    match token_stage_content {
        ArrayValType::JsonStr(json_str) => match json_str {
            JsonStr::Open(json_str_val) => array_val_json_str_open_case(char_val, state, &json_str_val),
            JsonStr::Closing => {
            proof {
                assert forall|e: Result<(), String>, t: StateView| #[trigger] array_val_json_str_close_case_post(old(state)@, *char_val, e, t) implies e is Ok by {
                    assert(array_value_step(old(state)@, *char_val, token_stage_content, e, t));
                }
            }
            array_val_json_str_close_case(char_val, state)
        },
        },
        ArrayValType::JsonNumber(json_num_str) => {
            proof {
                assert forall|e: Result<(), String>, t: StateView| #[trigger] array_val_json_number_open_case_post(old(state)@, *char_val, json_num_str@, e, t) implies e is Ok by {
                    assert(array_value_step(old(state)@, *char_val, token_stage_content, e, t));
                }
            }
            array_val_json_number_open_case(char_val, state, &json_num_str)
        },
        ArrayValType::Null(null_state) => match null_state {
            JsonNull::Open(json_str_val) => {
            proof {
                assert forall|e: Result<(), String>, t: StateView| #[trigger] array_val_json_null_case_open_post(old(state)@, *char_val, json_str_val@, e, t) implies e is Ok by {
                    assert(array_value_step(old(state)@, *char_val, token_stage_content, e, t));
                }
            }
            array_val_json_null_case_open(char_val, state, &json_str_val)
        },
            JsonNull::Closing => {
            proof {
                assert forall|e: Result<(), String>, t: StateView| #[trigger] array_val_json_null_case_closed_post(old(state)@, *char_val, e, t) implies e is Ok by {
                    assert(array_value_step(old(state)@, *char_val, token_stage_content, e, t));
                }
            }
            array_val_json_null_case_closed(char_val, state)
        },
        },
    }
}

fn token_stage_content_key_val_decision(token_stage_content_key_val: KeyValState, char_val: &char, state: &mut State) -> (r: Result<(), String>)
    requires
        step_ready(old(state)@),
        old(state)@.fields.last().token_type == TokenType::JsonObject(TokenStage::Content(token_stage_content_key_val)),
        forall|e: Result<(), String>, t: StateView| #[trigger] object_step(old(state)@, *char_val, TokenStage::Content(token_stage_content_key_val), e, t) ==> e is Ok,
    ensures
        object_step(old(state)@, *char_val, TokenStage::Content(token_stage_content_key_val), r, final(state)@),
        r is Ok ==> step_bounds(old(state)@, final(state)@),
{
    match token_stage_content_key_val {
        KeyValState::KeyState(key_val_state_key_state) => {
            proof {
                assert forall|e: Result<(), String>, t: StateView| #[trigger] member_key_step(old(state)@, *char_val, key_val_state_key_state, e, t) implies e is Ok by {
                    assert(object_step(old(state)@, *char_val, TokenStage::Content(token_stage_content_key_val), e, t));
                }
            }
            key_val_state_key_state_decision(key_val_state_key_state, char_val, state)
        },
        KeyValState::ValState(key_val_state_val) => {
            proof {
                assert forall|e: Result<(), String>, t: StateView| #[trigger] member_value_step(old(state)@, *char_val, key_val_state_val, e, t) implies e is Ok by {
                    assert(object_step(old(state)@, *char_val, TokenStage::Content(token_stage_content_key_val), e, t));
                }
            }
            key_val_state_val_decision(key_val_state_val, char_val, state)
        },
    }
}

fn token_type_json_object_decision(token_type_json_object: TokenStage<KeyValState>, char_val: &char, state: &mut State) -> (r: Result<(), String>)
    requires
        step_ready(old(state)@),
        old(state)@.fields.last().token_type == TokenType::JsonObject(token_type_json_object),
        forall|e: Result<(), String>, t: StateView| #[trigger] object_step(old(state)@, *char_val, token_type_json_object, e, t) ==> e is Ok,
    ensures
        object_step(old(state)@, *char_val, token_type_json_object, r, final(state)@),
        r is Ok ==> step_bounds(old(state)@, final(state)@),
{
    match token_type_json_object {
        TokenStage::Opening => {
            proof {
                assert forall|e: Result<(), String>, t: StateView| #[trigger] json_object_open_case_post(old(state)@, *char_val, e, t) implies e is Ok by {
                    assert(object_step(old(state)@, *char_val, token_type_json_object, e, t));
                }
            }
            json_object_open_case(char_val, state)
        },
        TokenStage::Content(token_stage_content) => {
            proof {
                assert forall|e: Result<(), String>, t: StateView| #[trigger] object_step(old(state)@, *char_val, TokenStage::Content(token_stage_content), e, t) implies e is Ok by {
                    assert(object_step(old(state)@, *char_val, token_type_json_object, e, t));
                }
            }
            token_stage_content_key_val_decision(token_stage_content, char_val, state)
        },
        TokenStage::ItemSeparator => {
            proof {
                assert forall|e: Result<(), String>, t: StateView| #[trigger] json_object_item_separator_case_post(old(state)@, *char_val, e, t) implies e is Ok by {
                    assert(object_step(old(state)@, *char_val, token_type_json_object, e, t));
                }
            }
            json_object_item_separator_case(char_val, state)
        },
        TokenStage::Closing => {
            proof {
                assert forall|e: Result<(), String>, t: StateView| #[trigger] json_object_closed_case_post(old(state)@, *char_val, e, t) implies e is Ok by {
                    assert(object_step(old(state)@, *char_val, token_type_json_object, e, t));
                }
            }
            json_object_closed_case(char_val, state)
        },
    }
}

fn token_type_json_array_decision(token_type_json_array: TokenStage<ArrayValType>, char_val: &char, state: &mut State) -> (r: Result<(), String>)
    requires
        step_ready(old(state)@),
        old(state)@.fields.last().token_type == TokenType::JsonArray(token_type_json_array),
        forall|e: Result<(), String>, t: StateView| #[trigger] array_step(old(state)@, *char_val, token_type_json_array, e, t) ==> e is Ok,
    ensures
        array_step(old(state)@, *char_val, token_type_json_array, r, final(state)@),
        r is Ok ==> step_bounds(old(state)@, final(state)@),
{
    match token_type_json_array {
        TokenStage::Opening => {
            proof {
                assert forall|e: Result<(), String>, t: StateView| #[trigger] json_array_open_case_post(old(state)@, *char_val, e, t) implies e is Ok by {
                    assert(array_step(old(state)@, *char_val, token_type_json_array, e, t));
                }
            }
            json_array_open_case(char_val, state)
        },
        TokenStage::Content(token_stage_content) => {
            proof {
                assert forall|e: Result<(), String>, t: StateView| #[trigger] array_value_step(old(state)@, *char_val, token_stage_content, e, t) implies e is Ok by {
                    assert(array_step(old(state)@, *char_val, token_type_json_array, e, t));
                }
            }
            token_stage_content_decision(token_stage_content, char_val, state)
        },
        TokenStage::ItemSeparator => {
            proof {
                assert forall|e: Result<(), String>, t: StateView| #[trigger] json_array_item_separator_case_post(old(state)@, *char_val, e, t) implies e is Ok by {
                    assert(array_step(old(state)@, *char_val, token_type_json_array, e, t));
                }
            }
            json_array_item_separator_case(char_val, state)
        },
        TokenStage::Closing => {
            proof {
                assert forall|e: Result<(), String>, t: StateView| #[trigger] json_array_closed_case_post(old(state)@, *char_val, e, t) implies e is Ok by {
                    assert(array_step(old(state)@, *char_val, token_type_json_array, e, t));
                }
            }
            json_array_closed_case(char_val, state)
        },
    }
}

/// Whether `char_val` is one of the blanks between JSON tokens (see [`is_blank`]).
fn is_val_empty(char_val: &char) -> (r: bool)
    ensures
        r == is_blank(*char_val),
{
    *char_val == ' ' || *char_val == '\n' || *char_val == '\t' || *char_val == '\r'
}

fn json_val_open_case_char_empty_val_xml_attr(char_val: &char, state: &mut State)
    ensures
        blank_attribute_step(old(state)@, *char_val, final(state)@),
        same_frame(old(state)@, final(state)@),
{
    match &state.xml_attributes {
        Some(xml_attr_basic_info) => {
            let info = xml_attr_basic_info.copy();
            match &info.curr_stage {
                XmlAttributesStages::Array(XmlAttributesArrayStages::Value(XmlAttributeKeyValueStages::Open(curr_val))) => {
                    array_attributes_stage_value_open(char_val, state, &info, curr_val);
                },
                XmlAttributesStages::Object(XmlAttributesObjectStages::Value(XmlAttributeKeyValueStages::Open(curr_val))) => {
                    object_attributes_stage_value_open(char_val, state, &info, curr_val);
                },
                _ => {},
            }
        },
        None => {},
    }
}

fn json_val_open_case_char_empty_val(char_val: &char, state: &mut State) -> (r: bool)
    requires
        step_ready(old(state)@),
    ensures
        r == is_blank(*char_val),
        r ==> blank_step(old(state)@, *char_val, final(state)@) && step_bounds(old(state)@, final(state)@),
        !r ==> final(state)@ == old(state)@,
{
    if !is_val_empty(char_val) {
        return false;
    }
    let token = state.fields[state.fields.len() - 1].token_type.copy();
    match token {
        TokenType::JsonObject(TokenStage::Content(KeyValState::ValState(KeyValType::JsonStr(JsonStr::Open(json_str))))) => {
            let _ = key_val_json_str_open_case(char_val, state, &json_str);
        },
        TokenType::JsonArray(TokenStage::Content(ArrayValType::JsonStr(JsonStr::Open(json_str)))) => {
            let _ = array_val_json_str_open_case(char_val, state, &json_str);
        },
        _ => {},
    }
    let ghost m = state@;
    json_val_open_case_char_empty_val_xml_attr(char_val, state);
    proof {
        assert(blank_attribute_step(m, *char_val, state@));
    }
    true
}

/// Feeds one character to the conversion (see [`single_step`]).
fn to_if_req_single(char_val: &char, state: &mut State) -> (r: Result<(), String>)
    requires
        root_ok(old(state)@),
        i32::MIN + 2 < old(state)@.curr_indent < i32::MAX - 1,
        old(state)@.curr_row_num < i32::MAX,
        forall|e: Result<(), String>, t: StateView| #[trigger] single_step(old(state)@, *char_val, e, t) ==> e is Ok,
    ensures
        single_step(old(state)@, *char_val, r, final(state)@),
        r is Ok ==> root_ok(final(state)@) && old(state)@.curr_indent - 2 <= final(state)@.curr_indent
            <= old(state)@.curr_indent + 1 && final(state)@.curr_row_num == row_counted(
            old(state)@,
            *char_val,
        ).curr_row_num,
{
    if *char_val == '\n' {
        state.curr_row_num = state.curr_row_num + 1;
    }
    let ghost s1 = state@;
    proof {
        assert(s1 == row_counted(old(state)@, *char_val));
    }
    if state.fields.len() == 0 {
        if is_val_empty(char_val) {
            return Ok(());
        }
        if *char_val == '{' {
            state.push_field(None);
            let ghost m = state@;
            state.update_nesting_state(NestingState::JsonObjectNestinState);
            state.update_token_type(TokenType::JsonObject(TokenStage::Opening));
            proof {
                assert(s1.pushed_fresh(m, None));
            }
        } else if *char_val == '[' {
            state.push_field(None);
            let ghost m = state@;
            state.update_nesting_state(NestingState::JsonArrayNestingState);
            state.update_token_type(TokenType::JsonArray(TokenStage::Opening));
            proof {
                assert(s1.pushed_fresh(m, None));
            }
        } else {
            return Err(unexpected_character_error(char_val, state));
        }
        return Ok(());
    }
    if json_val_open_case_char_empty_val(char_val, state) {
        return Ok(());
    }
    let token_type = state.fields[state.fields.len() - 1].token_type.copy();
    let res = match token_type {
        TokenType::JsonObject(token_type_json_object) => {
            proof {
                assert forall|e: Result<(), String>, t: StateView| #[trigger] object_step(s1, *char_val, token_type_json_object, e, t) implies e is Ok by {
                    assert(token_step(s1, *char_val, e, t));
                    if e is Err {
                        assert(single_step(old(state)@, *char_val, e, t));
                    }
                }
            }
            token_type_json_object_decision(token_type_json_object, char_val, state)
        },
        TokenType::JsonArray(token_type_json_array) => {
            proof {
                assert forall|e: Result<(), String>, t: StateView| #[trigger] array_step(s1, *char_val, token_type_json_array, e, t) implies e is Ok by {
                    assert(token_step(s1, *char_val, e, t));
                    if e is Err {
                        assert(single_step(old(state)@, *char_val, e, t));
                    }
                }
            }
            token_type_json_array_decision(token_type_json_array, char_val, state)
        },
    };
    let ghost m = state@;
    proof {
        assert(token_step(s1, *char_val, res, m));
    }
    if res.is_err() {
        return res;
    }
    xml_attributes_check_state(char_val, state);
    proof {
        assert(res is Ok);
        assert(res->Ok_0 == ());
        assert(res == Ok::<(), String>(()));
        assert(token_step(s1, *char_val, Ok(()), m) && attribute_step_post(m, *char_val, state@));
    }
    Ok(())
}

/// The state before the first character of a conversion.
pub open spec fn initial_state(to_snake_case: bool, root_name: Seq<char>) -> StateView {
    StateView {
        fields: Seq::empty(),
        curr_xml: Seq::empty(),
        curr_row_num: 1,
        curr_indent: 0,
        xml_attributes: None,
        xml_attributes_map: Seq::empty(),
        to_snake_case,
        root_name,
    }
}

/// The step from `run[i]` to `run[i + 1]` reads `input[i]` and succeeds.
pub open spec fn step_at(input: Seq<char>, run: Seq<StateView>, i: int) -> bool {
    single_step(run[i], input[i], Ok(()), run[i + 1])
}

/// `run` is a run of successful steps over the first `run.len() - 1` characters of `input`.
pub open spec fn successful_run(input: Seq<char>, run: Seq<StateView>) -> bool {
    &&& 1 <= run.len() <= input.len() + 1
    &&& forall|i: int| 0 <= i < run.len() - 1 ==> #[trigger] step_at(input, run, i)
}

/// A conversion of `input` from state `init` can give the text `x`: the trimmed output of a
/// run of successful steps over all of `input`.
pub open spec fn converts_to(input: Seq<char>, init: StateView, x: Seq<char>) -> bool {
    exists|run: Seq<StateView>|
        #[trigger] successful_run(input, run) && run[0] == init && run.len() == input.len() + 1 && x
            == trimmed(run.last().curr_xml)
}

/// `input` is a text the conversion accepts from state `init`: after any run of successful
/// steps over a part of it, the step on the next character cannot fail. On every other text
/// the conversion stops with an error naming the character and its row.
pub open spec fn accepted_input(input: Seq<char>, init: StateView) -> bool {
    forall|run: Seq<StateView>, e: Result<(), String>, t: StateView|
        successful_run(input, run) && run[0] == init && run.len() <= input.len()
            && #[trigger] single_step(run.last(), input[run.len() - 1], e, t) ==> e is Ok
}

/// The text of a successful conversion is empty or starts and ends with a character that is
/// not white space.
pub proof fn lemma_output_trimmed(input: Seq<char>, init: StateView, x: Seq<char>)
    requires
        converts_to(input, init, x),
    ensures
        x.len() == 0 || (!is_white_space(x[0]) && !is_white_space(x.last())),
{
    let run = choose|run: Seq<StateView>|
        #[trigger] successful_run(input, run) && run[0] == init && run.len() == input.len() + 1 && x
            == trimmed(run.last().curr_xml);
    lemma_trimmed_ends(run.last().curr_xml);
}

/// Converts a JSON text into the XML of a SOAP request body: each member becomes an element
/// named by its key, each array item an element named by the array's key, `null` and empty
/// values are written `null`, and members whose key ends in `_attributes` become attributes
/// of the element they belong to. It takes the texts that [`accepted_input`] admits and gives
/// the text that [`converts_to`] describes from [`initial_state`].
pub fn json_to_xml(json: &String, to_snake_case: bool, root_name: String) -> (r: Result<String, String>)
    requires
        json@.len() < i32::MAX / 2,
        accepted_input(json@, initial_state(to_snake_case, root_name@)),
    ensures
        r matches Ok(x) && converts_to(json@, initial_state(to_snake_case, root_name@), x@),
{
    let mut state = State::new();
    state.to_snake_case = to_snake_case;
    state.root_name = root_name;
    let chars = chars_of(json.as_str());
    let ghost init = state@;
    let ghost mut run: Seq<StateView> = seq![state@];
    proof {
        assert(init.fields =~= Seq::<self::models::Field>::empty());
        assert(init.curr_xml =~= Seq::<char>::empty());
        assert(init.xml_attributes_map =~= Seq::<self::xml_attributes::models::XmlAttributesMapEntryView>::empty());
        assert(init == initial_state(to_snake_case, root_name@));
    }
    let mut i: usize = 0;
    while i < chars.len()
        invariant
            chars@ == json@,
            json@.len() < i32::MAX / 2,
            i <= chars.len(),
            run.len() == i + 1,
            run[0] == init,
            init == initial_state(to_snake_case, root_name@),
            run.last() == state@,
            successful_run(json@, run),
            accepted_input(json@, init),
            root_ok(state@),
            -2 * (i as int) <= state@.curr_indent <= i,
            1 <= state@.curr_row_num <= 1 + i,
        decreases chars.len() - i,
    {
        let c = chars[i];
        let ghost before = state@;
        proof {
            assert(c == json@[i as int]);
            assert forall|e: Result<(), String>, t: StateView| #[trigger] single_step(before, c, e, t) implies e is Ok by {
                assert(single_step(run.last(), json@[run.len() - 1], e, t));
            }
        }
        let res = to_if_req_single(&c, &mut state);
        proof {
            assert(c == json@[i as int]);
        }
        let ghost res0 = res;
        match res {
            Ok(()) => {},
            Err(e) => {
                proof {
                    assert(res0 == Err::<(), String>(e));
                    assert(single_step(before, c, Err(e), state@));
                    assert(single_step(run.last(), json@[run.len() - 1], res0, state@));
                    assert(false);
                }
                return Err(e);
            },
        }
        proof {
            let run2 = run.push(state@);
            assert forall|j: int| 0 <= j < run2.len() - 1 implies #[trigger] step_at(json@, run2, j) by {
                if j < run.len() - 1 {
                    assert(step_at(json@, run, j));
                    assert(run2[j] == run[j] && run2[j + 1] == run[j + 1]);
                } else {
                    assert(j == i);
                    assert(run2[j] == before && run2[j + 1] == state@);
                    assert(res->Ok_0 == ());
                    assert(res == Ok::<(), String>(()));
                    assert(single_step(before, c, Ok(()), state@));
                }
            }
            run = run2;
        }
        i = i + 1;
    }
    let out = trim(state.curr_xml.as_str());
    proof {
        assert(successful_run(json@, run));
    }
    Ok(out)
}

} // verus!
