use vstd::prelude::*;

use crate::bindings::{is_key_char, regex_is_match};
use crate::text::{
    char_to_string, contains_str, decimal, has_substring, i32_to_string, is_digit, parses_as_i32,
    parses_as_i32_exec, push_char, push_str, str_eq, string_of,
};
use super::models::{Field, JsonNull, JsonStr, KeyValState, KeyValType, TokenStage, TokenStageKey, TokenType, XmlOpenTagOptions};
use super::state::{State, StateView};
use super::xml_attributes::xml_attributes_end::missing_group_id_message;
use super::xml_tag::{
    add_close_tag, add_open_tag, add_tag_val, close_tag_outcome, close_tag_text, closing_id, open_tag_outcome, tag_key,
    tag_val_text,
};
use super::{retokened, root_ok, step_bounds, step_error, step_ready, unexpected_character_error, unexpected_message};

verus! {

/// The message for a key that does not start with a character in `A`..=`z`.
pub open spec fn key_name_message(row: i32) -> Seq<char> {
    "unexpected key name at row "@ + decimal(row as int)
}

/// The key of a member after character `c` is read into it.
pub open spec fn key_appended(key: Option<String>, c: char) -> Seq<char> {
    match key {
        Some(k) => k@.push(c),
        None => seq![c],
    }
}

/// A name after character `c` is added to it (none yet: `c` alone).
pub open spec fn key_appended_text(key: Option<Seq<char>>, c: char) -> Seq<char> {
    match key {
        Some(k) => k.push(c),
        None => seq![c],
    }
}

/// `t` is `s` with the innermost field's key set to a text equal to `k`.
pub open spec fn rekeyed(s: StateView, t: StateView, k: Seq<char>) -> bool {
    let f = t.fields.last();
    &&& t.fields.len() == s.fields.len()
    &&& f.key matches Some(n) && n@ == k
    &&& t == (StateView {
        fields: s.fields.update(s.fields.len() - 1, Field { key: f.key, ..s.fields.last() }),
        ..s
    })
}

/// The token of a member whose value is a token `v`.
pub open spec fn member_value(v: KeyValType) -> TokenType {
    TokenType::JsonObject(TokenStage::Content(KeyValState::ValState(v)))
}

/// The token of a member at stage `k` of its key.
pub open spec fn member_key(k: TokenStageKey) -> TokenType {
    TokenType::JsonObject(TokenStage::Content(KeyValState::KeyState(k)))
}

/// The state after a member's value `v` is written and its element closed, the member's
/// field popped.
pub open spec fn member_value_written(s: StateView, v: Seq<char>) -> StateView {
    close_tag_outcome(s.appended(tag_val_text(v)), false).popped()
}

/// Appends `char_val` to the key of the innermost field and returns the new key.
fn json_key_update(state: &mut State, char_val: &char) -> (r: String)
    requires
        old(state)@.fields.len() >= 1,
    ensures
        r@ == key_appended(old(state)@.fields.last().key, *char_val),
        rekeyed(old(state)@, final(state)@, r@),
{
    let len = state.fields.len() - 1;
    let new_key = match &state.fields[len].key {
        Some(some_key) => {
            let mut k = some_key.clone();
            push_char(&mut k, *char_val);
            k
        },
        None => char_to_string(*char_val),
    };
    state.fields[len].key = Some(new_key.clone());
    proof {
        assert(state@.fields =~= old(state)@.fields.update(
            len as int,
            Field { key: state@.fields.last().key, ..old(state)@.fields.last() },
        ));
    }
    new_key
}

/// What `key_open_case` does with character `c` inside a key.
pub open spec fn key_open_case_post(s: StateView, c: char, r: Result<(), String>, t: StateView) -> bool {
    if c == '"' {
        step_error(r) is None && t == s.with_last_token(member_key(TokenStageKey::Closing))
    } else {
        let k = key_appended(s.fields.last().key, c);
        if is_key_char(k[0]) {
            step_error(r) is None && rekeyed(s, t, k)
        } else {
            step_error(r) == Some(key_name_message(s.curr_row_num))
        }
    }
}

/// Reads a character of a key: `"` ends it; a key must start with a character in `A`..=`z`.
pub fn key_open_case(char_val: &char, state: &mut State) -> (r: Result<(), String>)
    requires
        step_ready(old(state)@),
        old(state)@.fields.last().token_type == member_key(TokenStageKey::Opening),
        forall|e: Result<(), String>, t: StateView| #[trigger] key_open_case_post(old(state)@, *char_val, e, t) ==> e is Ok,
    ensures
        key_open_case_post(old(state)@, *char_val, r, final(state)@),
        r is Ok ==> step_bounds(old(state)@, final(state)@),
{
    match char_val {
        '"' => {
            state.update_token_type(TokenType::JsonObject(TokenStage::Content(KeyValState::KeyState(TokenStageKey::Closing))));
            Ok(())
        },
        _ => {
            let new_key = json_key_update(state, char_val);
            proof {
                reveal_strlit("^[aA-zZ]");
            }
            match regex_is_match("^[aA-zZ]", new_key.as_str()) {
                Some(true) => Ok(()),
                _ => {
                    let mut msg = string_of("unexpected key name at row ");
                    let row = i32_to_string(state.curr_row_num);
                    push_str(&mut msg, row.as_str());
                    proof {
                        assert(msg@ =~= key_name_message(old(state)@.curr_row_num));
                    }
                    Err(msg)
                },
            }
        },
    }
}

/// What `key_closed_cased` does with character `c` after a key.
pub open spec fn key_closed_cased_post(s: StateView, c: char, r: Result<(), String>, t: StateView) -> bool {
    if c == ':' {
        step_error(r) is None && t == s.with_last_token(member_key(TokenStageKey::KeyValSeparator))
    } else {
        step_error(r) == Some(unexpected_message(c, s.curr_row_num))
    }
}

/// Reads the character after a key: the `:` before its value.
pub fn key_closed_cased(char_val: &char, state: &mut State) -> (r: Result<(), String>)
    requires
        step_ready(old(state)@),
        old(state)@.fields.last().token_type == member_key(TokenStageKey::Closing),
        forall|e: Result<(), String>, t: StateView| #[trigger] key_closed_cased_post(old(state)@, *char_val, e, t) ==> e is Ok,
    ensures
        key_closed_cased_post(old(state)@, *char_val, r, final(state)@),
        r is Ok ==> step_bounds(old(state)@, final(state)@),
{
    match char_val {
        ':' => {
            state.update_token_type(TokenType::JsonObject(TokenStage::Content(KeyValState::KeyState(TokenStageKey::KeyValSeparator))));
            Ok(())
        },
        _ => Err(unexpected_character_error(char_val, state)),
    }
}

/// The first character `c` of a plain member value and the token it starts: `"` a string,
/// `n` a `null`, a digit a number.
pub open spec fn starts_member_value(c: char, k: TokenType) -> bool {
    if c == '"' {
        k matches TokenType::JsonObject(TokenStage::Content(KeyValState::ValState(KeyValType::JsonStr(JsonStr::Open(n)))))
            && n@ == Seq::<char>::empty()
    } else if c == 'n' {
        k matches TokenType::JsonObject(TokenStage::Content(KeyValState::ValState(KeyValType::Null(JsonNull::Open(n)))))
            && n@ == seq!['n']
    } else {
        k matches TokenType::JsonObject(TokenStage::Content(KeyValState::ValState(KeyValType::JsonNumber(n)))) && n@
            == seq![c]
    }
}

/// What `key_val_separator_case` does with the first character `c` of a member's value:
/// `{` and `[` turn the member's field into the container; a plain value opens the member's
/// element.
pub open spec fn key_val_separator_case_post(s: StateView, c: char, r: Result<(), String>, t: StateView) -> bool {
    if c == '{' {
        step_error(r) is None && t == s.with_last_token(TokenType::JsonObject(TokenStage::Opening))
    } else if c == '[' {
        step_error(r) is None && t == s.with_last_token(TokenType::JsonArray(TokenStage::Opening))
    } else if c == '"' || c == 'n' || is_digit(c) {
        step_error(r) is None && exists|m: StateView|
            #[trigger] open_tag_outcome(s, true, XmlOpenTagOptions::ObjectInObject, m) && retokened(
                m,
                t,
                |k: TokenType| starts_member_value(c, k),
            )
    } else {
        step_error(r) == Some(unexpected_message(c, s.curr_row_num))
    }
}

fn start_member_value(char_val: &char, state: &mut State, token: TokenType)
    requires
        step_ready(old(state)@),
        crate::json_to_xml::is_inner_token(old(state)@.fields.last().token_type),
        starts_member_value(*char_val, token),
    ensures
        exists|m: StateView|
            #[trigger] open_tag_outcome(old(state)@, true, XmlOpenTagOptions::ObjectInObject, m) && retokened(
                m,
                final(state)@,
                |k: TokenType| starts_member_value(*char_val, k),
            ),
        step_bounds(old(state)@, final(state)@),
{
    add_open_tag(state, true, XmlOpenTagOptions::ObjectInObject);
    let ghost m = state@;
    state.update_token_type(token);
    proof {
        assert(open_tag_outcome(old(state)@, true, XmlOpenTagOptions::ObjectInObject, m));
    }
}

/// Reads the first character of a member's value (see [`key_val_separator_case_post`]).
pub fn key_val_separator_case(char_val: &char, state: &mut State) -> (r: Result<(), String>)
    requires
        step_ready(old(state)@),
        old(state)@.fields.last().token_type == member_key(TokenStageKey::KeyValSeparator),
        forall|e: Result<(), String>, t: StateView| #[trigger] key_val_separator_case_post(old(state)@, *char_val, e, t) ==> e is Ok,
    ensures
        key_val_separator_case_post(old(state)@, *char_val, r, final(state)@),
        r is Ok ==> step_bounds(old(state)@, final(state)@),
{
    match char_val {
        '"' => {
            let token = TokenType::JsonObject(
                TokenStage::Content(KeyValState::ValState(KeyValType::JsonStr(JsonStr::Open(String::new())))),
            );
            start_member_value(char_val, state, token);
            Ok(())
        },
        '{' => {
            state.update_token_type(TokenType::JsonObject(TokenStage::Opening));
            Ok(())
        },
        'n' => {
            let v = string_of("n");
            proof {
                reveal_strlit("n");
                assert(v@ =~= seq!['n']);
            }
            let token = TokenType::JsonObject(TokenStage::Content(KeyValState::ValState(KeyValType::Null(JsonNull::Open(v)))));
            start_member_value(char_val, state, token);
            Ok(())
        },
        '[' => {
            state.update_token_type(TokenType::JsonArray(TokenStage::Opening));
            Ok(())
        },
        _ => {
            if '0' <= *char_val && *char_val <= '9' {
                let v = char_to_string(*char_val);
                let token = TokenType::JsonObject(TokenStage::Content(KeyValState::ValState(KeyValType::JsonNumber(v))));
                start_member_value(char_val, state, token);
                Ok(())
            } else {
                Err(unexpected_character_error(char_val, state))
            }
        },
    }
}

/// What `key_val_json_str_open_case` does with character `c` inside the string value `v`.
pub open spec fn key_val_json_str_open_case_post(
    s: StateView,
    c: char,
    v: Seq<char>,
    r: Result<(), String>,
    t: StateView,
) -> bool {
    step_error(r) is None && if c == '"' {
        t == member_value_written(s, v).with_last_token(member_value(KeyValType::JsonStr(JsonStr::Closing)))
    } else {
        retokened(
            s,
            t,
            |k: TokenType|
                k matches TokenType::JsonObject(
                    TokenStage::Content(KeyValState::ValState(KeyValType::JsonStr(JsonStr::Open(n)))),
                ) && n@ == v.push(c),
        )
    }
}

/// When a member's string value ends with `"`, the XML text gains the value's characters
/// (or `null` for an empty value) and then the member's closing tag, with the group id that
/// follows it while attributes are read.
pub proof fn lemma_member_string_value_text(s: StateView, v: Seq<char>, r: Result<(), String>, t: StateView)
    requires
        key_val_json_str_open_case_post(s, '"', v, r, t),
    ensures
        ({
            let val = if v.len() == 0 {
                "null"@
            } else {
                v
            };
            let id = match closing_id(s) {
                Some(o) => o,
                None => Seq::empty(),
            };
            t.curr_xml == s.curr_xml + val + "</"@ + tag_key(s) + ">"@ + id
        }),
{
    lemma_member_value_text(s, v);
}

/// The text that `member_value_written` adds: the value (or `null`), then the closing tag.
proof fn lemma_member_value_text(s: StateView, v: Seq<char>)
    ensures
        ({
            let val = if v.len() == 0 {
                "null"@
            } else {
                v
            };
            let id = match closing_id(s) {
                Some(o) => o,
                None => Seq::empty(),
            };
            member_value_written(s, v).curr_xml == s.curr_xml + val + "</"@ + tag_key(s) + ">"@ + id
        }),
{
    let val = if v.len() == 0 {
        "null"@
    } else {
        v
    };
    let s1 = s.appended(val);
    assert(closing_id(s1) == closing_id(s));
    assert(tag_key(s1) == tag_key(s));
    let id = match closing_id(s) {
        Some(o) => o,
        None => Seq::empty(),
    };
    let k = tag_key(s);
    assert(close_tag_text(k, closing_id(s1)) =~= "</"@ + k + ">"@ + id);
    assert(member_value_written(s, v).curr_xml =~= s.curr_xml + val + "</"@ + k + ">"@ + id);
}

/// Reads a character of a member's string value: `"` ends the value and closes its element.
pub fn key_val_json_str_open_case(char_val: &char, state: &mut State, json_str: &String) -> (r: Result<(), String>)
    requires
        step_ready(old(state)@),
        old(state)@.fields.last().token_type == member_value(KeyValType::JsonStr(JsonStr::Open(*json_str))),
    ensures
        key_val_json_str_open_case_post(old(state)@, *char_val, json_str@, r, final(state)@),
        r is Ok ==> step_bounds(old(state)@, final(state)@),
{
    match char_val {
        '"' => {
            add_tag_val(state, json_str);
            add_close_tag(state, false);
            state.fields.pop();
            state.update_token_type(TokenType::JsonObject(TokenStage::Content(KeyValState::ValState(KeyValType::JsonStr(JsonStr::Closing)))));
        },
        _ => {
            let mut new_str = json_str.clone();
            push_char(&mut new_str, *char_val);
            state.update_token_type(
                TokenType::JsonObject(TokenStage::Content(KeyValState::ValState(KeyValType::JsonStr(JsonStr::Open(new_str))))),
            );
        },
    }
    Ok(())
}

/// What happens at the `}` that ends an object whose last member is complete: its element is
/// closed, its attribute groups end, its field is popped and the container below is closed.
pub open spec fn object_end_post(s: StateView, r: Result<(), String>, t: StateView) -> bool {
    match close_tag_outcome(s, true).ended() {
        Some(e) => step_error(r) is None && t == e.popped().closed(),
        None => step_error(r) == Some(missing_group_id_message()),
    }
}

/// What `key_val_json_str_close_case` does with character `c` after a string member.
pub open spec fn key_val_json_str_close_case_post(s: StateView, c: char, r: Result<(), String>, t: StateView) -> bool {
    if c == ',' {
        step_error(r) is None && t == s.item_separated()
    } else if c == '}' {
        object_end_post(s, r, t)
    } else {
        step_error(r) == Some(unexpected_message(c, s.curr_row_num))
    }
}

fn end_object(state: &mut State) -> (r: Result<(), String>)
    requires
        old(state)@.fields.len() >= 1,
        root_ok(old(state)@),
        old(state)@.curr_indent > i32::MIN,
    ensures
        object_end_post(old(state)@, r, final(state)@),
        r is Ok ==> root_ok(final(state)@) && final(state)@.curr_indent == old(state)@.curr_indent - 1
            && final(state)@.curr_row_num == old(state)@.curr_row_num,
{
    add_close_tag(state, true);
    let res = state.check_end_xml_attributes();
    if res.is_err() {
        return res;
    }
    state.fields.pop();
    state.update_to_closed_state();
    Ok(())
}

/// Reads the character after a string member: `,` or `}`.
pub fn key_val_json_str_close_case(char_val: &char, state: &mut State) -> (r: Result<(), String>)
    requires
        step_ready(old(state)@),
        forall|e: Result<(), String>, t: StateView| #[trigger] key_val_json_str_close_case_post(old(state)@, *char_val, e, t) ==> e is Ok,
    ensures
        key_val_json_str_close_case_post(old(state)@, *char_val, r, final(state)@),
        r is Ok ==> step_bounds(old(state)@, final(state)@),
{
    match char_val {
        ',' => {
            state.update_to_item_separate_state();
            Ok(())
        },
        '}' => end_object(state),
        _ => Err(unexpected_character_error(char_val, state)),
    }
}

/// When a member's number value is followed by `,`, the XML text gains the number's
/// characters and then the member's closing tag (with the group id that follows it while
/// attributes are read).
pub proof fn lemma_member_number_value_text(s: StateView, v: Seq<char>, r: Result<(), String>, t: StateView)
    requires
        key_val_json_number_open_case_post(s, ',', v, r, t),
        v.len() > 0,
    ensures
        ({
            let id = match closing_id(s) {
                Some(o) => o,
                None => Seq::empty(),
            };
            t.curr_xml == s.curr_xml + v + "</"@ + tag_key(s) + ">"@ + id
        }),
{
    lemma_member_value_text(s, v);
}

/// What `key_val_json_number_open_case` does with character `c` after the number text `v`.
pub open spec fn key_val_json_number_open_case_post(
    s: StateView,
    c: char,
    v: Seq<char>,
    r: Result<(), String>,
    t: StateView,
) -> bool {
    if c == ',' {
        step_error(r) is None && t == member_value_written(s, v).item_separated()
    } else if c == '}' {
        object_end_post(member_value_written(s, v), r, t)
    } else if parses_as_i32(v.push(c)) {
        step_error(r) is None && retokened(
            s,
            t,
            |k: TokenType|
                k matches TokenType::JsonObject(TokenStage::Content(KeyValState::ValState(KeyValType::JsonNumber(n)))) && n@
                    == v.push(c),
        )
    } else {
        step_error(r) == Some(unexpected_message(c, s.curr_row_num))
    }
}

/// Reads a character of a member's number: `,` or `}` ends it; another character is taken
/// while the number with it is a valid `i32`.
pub fn key_val_json_number_open_case(char_val: &char, state: &mut State, json_num_as_str: &String) -> (r: Result<(), String>)
    requires
        step_ready(old(state)@),
        old(state)@.fields.last().token_type == member_value(KeyValType::JsonNumber(*json_num_as_str)),
        forall|e: Result<(), String>, t: StateView| #[trigger] key_val_json_number_open_case_post(old(state)@, *char_val, json_num_as_str@, e, t) ==> e is Ok,
    ensures
        key_val_json_number_open_case_post(old(state)@, *char_val, json_num_as_str@, r, final(state)@),
        r is Ok ==> step_bounds(old(state)@, final(state)@),
{
    let mut new_num_as_str = json_num_as_str.clone();
    push_char(&mut new_num_as_str, *char_val);
    match char_val {
        ',' => {
            add_tag_val(state, json_num_as_str);
            add_close_tag(state, false);
            state.fields.pop();
            state.update_to_item_separate_state();
            Ok(())
        },
        '}' => {
            add_tag_val(state, json_num_as_str);
            add_close_tag(state, false);
            state.fields.pop();
            end_object(state)
        },
        _ => {
            if parses_as_i32_exec(new_num_as_str.as_str()) {
                state.update_token_type(
                    TokenType::JsonObject(TokenStage::Content(KeyValState::ValState(KeyValType::JsonNumber(new_num_as_str)))),
                );
                Ok(())
            } else {
                Err(unexpected_character_error(char_val, state))
            }
        },
    }
}

/// What `key_val_json_null_case_open` does with character `c` after the partial `null` `v`:
/// the full word is written as the value, the member's element and the object's element are
/// closed and the object's attribute groups end, the object staying on the stack.
pub open spec fn key_val_json_null_case_open_post(
    s: StateView,
    c: char,
    v: Seq<char>,
    r: Result<(), String>,
    t: StateView,
) -> bool {
    if v.push(c) == "null"@ {
        match close_tag_outcome(member_value_written(s, "null"@), true).ended() {
            Some(e) => step_error(r) is None && t == e.with_last_token(member_value(KeyValType::Null(JsonNull::Closing))),
            None => step_error(r) == Some(missing_group_id_message()),
        }
    } else if has_substring("null"@, v.push(c)) {
        step_error(r) is None && retokened(
            s,
            t,
            |k: TokenType|
                k matches TokenType::JsonObject(
                    TokenStage::Content(KeyValState::ValState(KeyValType::Null(JsonNull::Open(n)))),
                ) && n@ == v.push(c),
        )
    } else {
        step_error(r) == Some(unexpected_message(c, s.curr_row_num))
    }
}

/// Reads a character of `null` as a member's value (see [`key_val_json_null_case_open_post`]).
pub fn key_val_json_null_case_open(char_val: &char, state: &mut State, curr_str_val: &String) -> (r: Result<(), String>)
    requires
        step_ready(old(state)@),
        old(state)@.fields.last().token_type == member_value(KeyValType::Null(JsonNull::Open(*curr_str_val))),
        forall|e: Result<(), String>, t: StateView| #[trigger] key_val_json_null_case_open_post(old(state)@, *char_val, curr_str_val@, e, t) ==> e is Ok,
    ensures
        key_val_json_null_case_open_post(old(state)@, *char_val, curr_str_val@, r, final(state)@),
        r is Ok ==> step_bounds(old(state)@, final(state)@),
{
    let mut new_str_val = curr_str_val.clone();
    push_char(&mut new_str_val, *char_val);
    if str_eq(new_str_val.as_str(), "null") {
        let null_text = string_of("null");
        add_tag_val(state, &null_text);
        add_close_tag(state, false);
        state.fields.pop();
        add_close_tag(state, true);
        let res = state.check_end_xml_attributes();
        if res.is_err() {
            return res;
        }
        state.update_token_type(TokenType::JsonObject(TokenStage::Content(KeyValState::ValState(KeyValType::Null(JsonNull::Closing)))));
        Ok(())
    } else if contains_str("null", new_str_val.as_str()) {
        state.update_token_type(
            TokenType::JsonObject(TokenStage::Content(KeyValState::ValState(KeyValType::Null(JsonNull::Open(new_str_val))))),
        );
        Ok(())
    } else {
        Err(unexpected_character_error(char_val, state))
    }
}

/// What `key_val_json_null_case_closed` does with character `c` after a `null` member.
pub open spec fn key_val_json_null_case_closed_post(s: StateView, c: char, r: Result<(), String>, t: StateView) -> bool {
    if c == ',' {
        step_error(r) is None && t == s.item_separated()
    } else if c == '}' {
        step_error(r) is None && t == s.popped().closed()
    } else {
        step_error(r) == Some(unexpected_message(c, s.curr_row_num))
    }
}

/// Reads the character after a `null` member: `,` or `}` (the object's element was closed
/// with the `null`).
pub fn key_val_json_null_case_closed(char_val: &char, state: &mut State) -> (r: Result<(), String>)
    requires
        step_ready(old(state)@),
        forall|e: Result<(), String>, t: StateView| #[trigger] key_val_json_null_case_closed_post(old(state)@, *char_val, e, t) ==> e is Ok,
    ensures
        key_val_json_null_case_closed_post(old(state)@, *char_val, r, final(state)@),
        r is Ok ==> step_bounds(old(state)@, final(state)@),
{
    match char_val {
        ',' => {
            state.update_to_item_separate_state();
            Ok(())
        },
        '}' => {
            state.fields.pop();
            state.update_to_closed_state();
            Ok(())
        },
        _ => Err(unexpected_character_error(char_val, state)),
    }
}

} // verus!
