use vstd::prelude::*;

use crate::text::{contains_str, has_substring, parses_as_i32, parses_as_i32_exec, push_char, str_eq, string_of};
use super::models::{ArrayValType, JsonNull, JsonStr, TokenStage, TokenType};
use super::state::{indentation, State, StateView};
use super::xml_tag::{add_close_tag, add_tag_val, close_tag_outcome, close_tag_text, closing_id, tag_key, tag_val_text};
use super::{retokened, step_bounds, step_error, step_ready, unexpected_character_error, unexpected_message};

verus! {

/// The token of an array's string value that has just been closed.
pub open spec fn array_str_closed() -> TokenType {
    TokenType::JsonArray(TokenStage::Content(ArrayValType::JsonStr(JsonStr::Closing)))
}

/// The token of an array's `null` value that has just been read.
pub open spec fn array_null_closed() -> TokenType {
    TokenType::JsonArray(TokenStage::Content(ArrayValType::Null(JsonNull::Closing)))
}

/// The state after a plain array value `v` is written and its element closed, the value's
/// field popped, without indentation.
pub open spec fn array_value_written(s: StateView, v: Seq<char>, indent: bool) -> StateView {
    close_tag_outcome(s.appended(tag_val_text(v)).popped(), indent)
}

/// What `array_val_json_str_open_case` does with character `c` inside the string `v`.
pub open spec fn array_val_json_str_open_case_post(
    s: StateView,
    c: char,
    v: Seq<char>,
    r: Result<(), String>,
    t: StateView,
) -> bool {
    step_error(r) is None && if c == '"' {
        t == array_value_written(s, v, false).with_last_token(array_str_closed())
    } else {
        retokened(
            s,
            t,
            |k: TokenType|
                k matches TokenType::JsonArray(TokenStage::Content(ArrayValType::JsonStr(JsonStr::Open(n))))
                    && n@ == v.push(c),
        )
    }
}

/// When a string value inside an array ends with `"`, the XML text gains the value's
/// characters (or `null` for an empty value) and then the closing tag of the item's element,
/// with the group id that follows it while attributes are read; the depth goes one level up.
pub proof fn lemma_array_string_item_text(s: StateView, v: Seq<char>, r: Result<(), String>, t: StateView)
    requires
        array_val_json_str_open_case_post(s, '"', v, r, t),
    ensures
        ({
            let val = if v.len() == 0 {
                "null"@
            } else {
                v
            };
            let id = match closing_id(s.popped()) {
                Some(o) => o,
                None => Seq::empty(),
            };
            &&& t.curr_xml == s.curr_xml + val + "</"@ + tag_key(s.popped()) + ">"@ + id
            &&& t.curr_xml.subrange(s.curr_xml.len() as int, (s.curr_xml.len() + val.len()) as int) == val
        }),
        t.curr_indent == (s.curr_indent - 1) as i32,
{
    let val = if v.len() == 0 {
        "null"@
    } else {
        v
    };
    let s1 = s.appended(val).popped();
    assert(closing_id(s1) == closing_id(s.popped()));
    assert(tag_key(s1) == tag_key(s.popped()));
    let id = match closing_id(s.popped()) {
        Some(o) => o,
        None => Seq::empty(),
    };
    let k = tag_key(s.popped());
    assert(close_tag_text(k, closing_id(s1)) =~= "</"@ + k + ">"@ + id);
    assert(t.curr_xml =~= s.curr_xml + val + "</"@ + k + ">"@ + id);
    assert(t.curr_xml.subrange(s.curr_xml.len() as int, (s.curr_xml.len() + val.len()) as int) =~= val);
}

/// Reads a character of a string value inside an array: `"` ends the value and closes its element.
pub fn array_val_json_str_open_case(char_val: &char, state: &mut State, json_str: &String) -> (r: Result<(), String>)
    requires
        step_ready(old(state)@),
        old(state)@.fields.last().token_type == TokenType::JsonArray(
            TokenStage::Content(ArrayValType::JsonStr(JsonStr::Open(*json_str))),
        ),
    ensures
        array_val_json_str_open_case_post(old(state)@, *char_val, json_str@, r, final(state)@),
        r is Ok ==> step_bounds(old(state)@, final(state)@),
{
    match char_val {
        '"' => {
            add_tag_val(state, json_str);
            state.fields.pop();
            add_close_tag(state, false);
            state.update_token_type(TokenType::JsonArray(TokenStage::Content(ArrayValType::JsonStr(JsonStr::Closing))));
        },
        _ => {
            let mut new_str = json_str.clone();
            push_char(&mut new_str, *char_val);
            state.update_token_type(
                TokenType::JsonArray(TokenStage::Content(ArrayValType::JsonStr(JsonStr::Open(new_str)))),
            );
        },
    }
    Ok(())
}

/// What `array_val_json_str_close_case` does with character `c` after a string value.
pub open spec fn array_val_json_str_close_case_post(s: StateView, c: char, r: Result<(), String>, t: StateView) -> bool {
    if c == ',' {
        step_error(r) is None && t == s.item_separated()
    } else if c == ']' {
        step_error(r) is None && t == s.popped().closed()
    } else {
        step_error(r) == Some(unexpected_message(c, s.curr_row_num))
    }
}

/// After a string value in an array: `,` or `]`.
pub fn array_val_json_str_close_case(char_val: &char, state: &mut State) -> (r: Result<(), String>)
    requires
        step_ready(old(state)@),
        forall|e: Result<(), String>, t: StateView| #[trigger] array_val_json_str_close_case_post(old(state)@, *char_val, e, t) ==> e is Ok,
    ensures
        array_val_json_str_close_case_post(old(state)@, *char_val, r, final(state)@),
        r is Ok ==> step_bounds(old(state)@, final(state)@),
{
    match char_val {
        ',' => {
            state.update_to_item_separate_state();
            Ok(())
        },
        ']' => {
            state.fields.pop();
            state.update_to_closed_state();
            Ok(())
        },
        _ => Err(unexpected_character_error(char_val, state)),
    }
}

/// When a number inside an array is followed by `,` or `]`, the XML text gains the number's
/// characters, then on a new indented line the closing tag of the item's element (with the
/// group id that follows it while attributes are read).
pub proof fn lemma_array_number_item_text(s: StateView, c: char, v: Seq<char>, r: Result<(), String>, t: StateView)
    requires
        c == ',' || c == ']',
        v.len() > 0,
        array_val_json_number_open_case_post(s, c, v, r, t),
    ensures
        ({
            let id = match closing_id(s.popped()) {
                Some(o) => o,
                None => Seq::empty(),
            };
            t.curr_xml == s.curr_xml + v + indentation(s.curr_indent as int) + "</"@ + tag_key(s.popped()) + ">"@ + id
        }),
{
    let s1 = s.appended(v).popped();
    assert(closing_id(s1) == closing_id(s.popped()));
    assert(tag_key(s1) == tag_key(s.popped()));
    let id = match closing_id(s.popped()) {
        Some(o) => o,
        None => Seq::empty(),
    };
    let k = tag_key(s.popped());
    let w = array_value_written(s, v, true);
    assert(close_tag_text(k, closing_id(s1)) =~= "</"@ + k + ">"@ + id);
    assert(w.curr_xml =~= s.curr_xml + v + indentation(s.curr_indent as int) + "</"@ + k + ">"@ + id);
}

/// What `array_val_json_number_open_case` does with character `c` after the number text `v`.
pub open spec fn array_val_json_number_open_case_post(
    s: StateView,
    c: char,
    v: Seq<char>,
    r: Result<(), String>,
    t: StateView,
) -> bool {
    if c == ',' {
        step_error(r) is None && t == array_value_written(s, v, true).item_separated()
    } else if c == ']' {
        step_error(r) is None && t == array_value_written(s, v, true).popped().closed()
    } else if parses_as_i32(v) {
        step_error(r) is None && retokened(
            s,
            t,
            |k: TokenType|
                k matches TokenType::JsonArray(TokenStage::Content(ArrayValType::JsonNumber(n))) && n@ == v.push(c),
        )
    } else {
        step_error(r) == Some(unexpected_message(c, s.curr_row_num))
    }
}

/// Reads a character of a number inside an array: `,` or `]` ends it; another character is
/// taken while the number read so far is a valid `i32`.
pub fn array_val_json_number_open_case(char_val: &char, state: &mut State, json_num_as_str: &String) -> (r: Result<(), String>)
    requires
        step_ready(old(state)@),
        old(state)@.fields.last().token_type == TokenType::JsonArray(
            TokenStage::Content(ArrayValType::JsonNumber(*json_num_as_str)),
        ),
        forall|e: Result<(), String>, t: StateView| #[trigger] array_val_json_number_open_case_post(old(state)@, *char_val, json_num_as_str@, e, t) ==> e is Ok,
    ensures
        array_val_json_number_open_case_post(old(state)@, *char_val, json_num_as_str@, r, final(state)@),
        r is Ok ==> step_bounds(old(state)@, final(state)@),
{
    let mut new_num_as_str = json_num_as_str.clone();
    push_char(&mut new_num_as_str, *char_val);
    match char_val {
        ',' => {
            add_tag_val(state, json_num_as_str);
            state.fields.pop();
            add_close_tag(state, true);
            state.update_to_item_separate_state();
            Ok(())
        },
        ']' => {
            add_tag_val(state, json_num_as_str);
            state.fields.pop();
            add_close_tag(state, true);
            state.fields.pop();
            state.update_to_closed_state();
            Ok(())
        },
        _ => {
            if parses_as_i32_exec(json_num_as_str.as_str()) {
                state.update_token_type(TokenType::JsonArray(TokenStage::Content(ArrayValType::JsonNumber(new_num_as_str))));
                Ok(())
            } else {
                Err(unexpected_character_error(char_val, state))
            }
        },
    }
}

/// What `array_val_json_null_case_open` does with character `c` after the partial `null` `v`.
pub open spec fn array_val_json_null_case_open_post(
    s: StateView,
    c: char,
    v: Seq<char>,
    r: Result<(), String>,
    t: StateView,
) -> bool {
    if v.push(c) == "null"@ {
        step_error(r) is None && t == array_value_written(s, "null"@, false).with_last_token(array_null_closed())
    } else if has_substring("null"@, v.push(c)) {
        step_error(r) is None && retokened(
            s,
            t,
            |k: TokenType|
                k matches TokenType::JsonArray(TokenStage::Content(ArrayValType::Null(JsonNull::Open(n)))) && n@
                    == v.push(c),
        )
    } else {
        step_error(r) == Some(unexpected_message(c, s.curr_row_num))
    }
}

/// Reads a character of `null` inside an array; the full word is written as the value.
pub fn array_val_json_null_case_open(char_val: &char, state: &mut State, curr_str_val: &String) -> (r: Result<(), String>)
    requires
        step_ready(old(state)@),
        old(state)@.fields.last().token_type == TokenType::JsonArray(
            TokenStage::Content(ArrayValType::Null(JsonNull::Open(*curr_str_val))),
        ),
        forall|e: Result<(), String>, t: StateView| #[trigger] array_val_json_null_case_open_post(old(state)@, *char_val, curr_str_val@, e, t) ==> e is Ok,
    ensures
        array_val_json_null_case_open_post(old(state)@, *char_val, curr_str_val@, r, final(state)@),
        r is Ok ==> step_bounds(old(state)@, final(state)@),
{
    let mut new_str_val = curr_str_val.clone();
    push_char(&mut new_str_val, *char_val);
    if str_eq(new_str_val.as_str(), "null") {
        let null_text = string_of("null");
        add_tag_val(state, &null_text);
        state.fields.pop();
        add_close_tag(state, false);
        state.update_token_type(TokenType::JsonArray(TokenStage::Content(ArrayValType::Null(JsonNull::Closing))));
        Ok(())
    } else if contains_str("null", new_str_val.as_str()) {
        state.update_token_type(TokenType::JsonArray(TokenStage::Content(ArrayValType::Null(JsonNull::Open(new_str_val)))));
        Ok(())
    } else {
        Err(unexpected_character_error(char_val, state))
    }
}

/// What `array_val_json_null_case_closed` does with character `c` after a `null` value.
pub open spec fn array_val_json_null_case_closed_post(s: StateView, c: char, r: Result<(), String>, t: StateView) -> bool {
    array_val_json_str_close_case_post(s, c, r, t)
}

/// After a `null` value in an array: `,` or `]`.
pub fn array_val_json_null_case_closed(char_val: &char, state: &mut State) -> (r: Result<(), String>)
    requires
        step_ready(old(state)@),
        forall|e: Result<(), String>, t: StateView| #[trigger] array_val_json_null_case_closed_post(old(state)@, *char_val, e, t) ==> e is Ok,
    ensures
        array_val_json_null_case_closed_post(old(state)@, *char_val, r, final(state)@),
        r is Ok ==> step_bounds(old(state)@, final(state)@),
{
    match char_val {
        ',' => {
            state.update_to_item_separate_state();
            Ok(())
        },
        ']' => {
            state.fields.pop();
            state.update_to_closed_state();
            Ok(())
        },
        _ => Err(unexpected_character_error(char_val, state)),
    }
}

} // verus!
