use vstd::prelude::*;

use crate::bindings::{is_key_char, regex_is_match};
use crate::json_to_xml::state::{State, StateView};
use crate::text::{contains_str, has_substring, push_char, str_eq, string_of};
use super::models::{
    XmlAttributeKeyValueStages, XmlAttributesArrayStages, XmlAttributesBasicInfo,
    XmlAttributesObjectStages, XmlAttributesStages,
};

verus! {

/// What `array_attributes_stage_init` leaves behind.
pub open spec fn array_attributes_stage_init_post(s: StateView, c: char, t: StateView) -> bool {
    &&& (c == '{' ==> t == s.staged(XmlAttributesStages::Array(XmlAttributesArrayStages::ObjectInit)))
    &&& (c != '{' ==> t == s.attributes_aborted())
}

/// Waits for the `{` of the first item of an attributes array.
pub fn array_attributes_stage_init(char_val: &char, state: &mut State, basic_info: &XmlAttributesBasicInfo)
    ensures
        array_attributes_stage_init_post(old(state)@, *char_val, final(state)@),
{
    match char_val {
        '{' => state.update_state(XmlAttributesStages::Array(XmlAttributesArrayStages::ObjectInit)),
        _ => state.abort_xml_attributes(),
    }
}

/// What `array_attributes_stage_object_init` leaves behind.
pub open spec fn array_attributes_stage_object_init_post(s: StateView, c: char, t: StateView) -> bool {
    &&& (c == '"' ==> t == s.staged(XmlAttributesStages::Array(XmlAttributesArrayStages::ObjectInit)))
    &&& (c == 'n' ==> s.restaged(t, |st: XmlAttributesStages| st matches XmlAttributesStages::Array(XmlAttributesArrayStages::NullValue(v)) && v@ == seq!['n']))
    &&& (c != '"' && c != 'n' ==> t == s.attributes_aborted())
}

/// At the start of an item of an attributes array: a key or `null` may come.
pub fn array_attributes_stage_object_init(char_val: &char, state: &mut State, basic_info: &XmlAttributesBasicInfo)
    ensures
        array_attributes_stage_object_init_post(old(state)@, *char_val, final(state)@),
{
    match char_val {
        '"' => state.update_state(XmlAttributesStages::Array(XmlAttributesArrayStages::ObjectInit)),
        'n' => {
            let v = string_of("n");
            proof {
                reveal_strlit("n");
                assert(v@ =~= seq!['n']);
            }
            state.update_state(XmlAttributesStages::Array(XmlAttributesArrayStages::NullValue(v)));
        },
        _ => state.abort_xml_attributes(),
    }
}

/// What `array_attributes_stage_null` leaves behind.
pub open spec fn array_attributes_stage_null_post(s: StateView, c: char, curr: Seq<char>, t: StateView) -> bool {
    &&& (curr.push(c) == "null"@ ==> t == s.staged(XmlAttributesStages::Array(XmlAttributesArrayStages::ObjectEnd)))
    &&& (curr.push(c) != "null"@ && has_substring("null"@, curr.push(c)) ==> s.restaged(t, |st: XmlAttributesStages| st matches XmlAttributesStages::Array(XmlAttributesArrayStages::NullValue(v)) && v@ == seq!['n']))
    &&& (curr.push(c) != "null"@ && !has_substring("null"@, curr.push(c)) ==> t == s.attributes_aborted())
}

/// Reads `null` in an attributes array: once complete the array ends; a partial `null` is kept as `n`.
pub fn array_attributes_stage_null(char_val: &char, state: &mut State, basic_info: &XmlAttributesBasicInfo, curr_str_val: &String)
    ensures
        array_attributes_stage_null_post(old(state)@, *char_val, curr_str_val@, final(state)@),
{
    let mut new_str_val = curr_str_val.clone();
    push_char(&mut new_str_val, *char_val);
    if str_eq(new_str_val.as_str(), "null") {
        state.update_state(XmlAttributesStages::Array(XmlAttributesArrayStages::ObjectEnd));
    } else if contains_str("null", new_str_val.as_str()) {
        let v = string_of("n");
        proof {
            reveal_strlit("n");
            assert(v@ =~= seq!['n']);
        }
        state.update_state(XmlAttributesStages::Array(XmlAttributesArrayStages::NullValue(v)));
    } else {
        state.abort_xml_attributes();
    }
}

/// What `array_attributes_stage_key_open` leaves behind.
pub open spec fn array_attributes_stage_key_open_post(s: StateView, c: char, curr: Seq<char>, t: StateView) -> bool {
    &&& (c == '"' ==> t == s.with_attribute_key(curr).staged(XmlAttributesStages::Array(XmlAttributesArrayStages::Key(XmlAttributeKeyValueStages::Closed))))
    &&& (c != '"' && is_key_char(curr.push(c)[0]) ==> s.restaged(t, |st: XmlAttributesStages| st matches XmlAttributesStages::Array(XmlAttributesArrayStages::Key(XmlAttributeKeyValueStages::Open(v))) && v@ == curr.push(c)))
    &&& (c != '"' && !is_key_char(curr.push(c)[0]) ==> t == s.attributes_aborted())
}

/// Reads a key in an attributes array: the closing quote records the key; other characters
/// extend it while its first character lies between `A` and `z`, else the attributes are given up.
pub fn array_attributes_stage_key_open(char_val: &char, state: &mut State, basic_info: &XmlAttributesBasicInfo, attribute_key: &String)
    ensures
        array_attributes_stage_key_open_post(old(state)@, *char_val, attribute_key@, final(state)@),
{
    let mut new_val = attribute_key.clone();
    push_char(&mut new_val, *char_val);
    match char_val {
        '"' => {
            state.update_xml_attribute_key(attribute_key);
            state.update_state(XmlAttributesStages::Array(XmlAttributesArrayStages::Key(XmlAttributeKeyValueStages::Closed)));
        },
        _ => {
            let m = regex_is_match("^[aA-zZ]", new_val.as_str());
            if m == Some(true) {
                state.update_state(XmlAttributesStages::Array(XmlAttributesArrayStages::Key(XmlAttributeKeyValueStages::Open(new_val))));
            } else {
                state.abort_xml_attributes();
            }
        },
    }
}

/// What `array_attributes_stage_key_closed` leaves behind.
pub open spec fn array_attributes_stage_key_closed_post(s: StateView, c: char, t: StateView) -> bool {
    &&& (c == ':' ==> t == s.staged(XmlAttributesStages::Array(XmlAttributesArrayStages::KeyValFieldSeparator)))
    &&& (c != ':' ==> t == s.attributes_aborted())
}

/// After a key in an attributes array: the colon is awaited.
pub fn array_attributes_stage_key_closed(char_val: &char, state: &mut State, basic_info: &XmlAttributesBasicInfo)
    ensures
        array_attributes_stage_key_closed_post(old(state)@, *char_val, final(state)@),
{
    match char_val {
        ':' => state.update_state(XmlAttributesStages::Array(XmlAttributesArrayStages::KeyValFieldSeparator)),
        _ => state.abort_xml_attributes(),
    }
}

/// What `array_attributes_stage_key_val_separator_case` leaves behind.
pub open spec fn array_attributes_stage_key_val_separator_case_post(s: StateView, c: char, t: StateView) -> bool {
    &&& (c == '"' ==> s.restaged(t, |st: XmlAttributesStages| st matches XmlAttributesStages::Array(XmlAttributesArrayStages::Value(XmlAttributeKeyValueStages::Open(v))) && v@.len() == 0))
    &&& (c != '"' ==> t == s.attributes_aborted())
}

/// Between key and value in an attributes array: the value's quote is awaited.
pub fn array_attributes_stage_key_val_separator_case(char_val: &char, state: &mut State, basic_info: &XmlAttributesBasicInfo)
    ensures
        array_attributes_stage_key_val_separator_case_post(old(state)@, *char_val, final(state)@),
{
    match char_val {
        '"' => state.update_state(XmlAttributesStages::Array(XmlAttributesArrayStages::Value(XmlAttributeKeyValueStages::Open(String::new())))),
        _ => state.abort_xml_attributes(),
    }
}

/// What `array_attributes_stage_value_open` leaves behind.
pub open spec fn array_attributes_stage_value_open_post(s: StateView, c: char, curr: Seq<char>, t: StateView) -> bool {
    &&& (c == '"' ==> t == s.staged(XmlAttributesStages::Array(XmlAttributesArrayStages::Value(XmlAttributeKeyValueStages::Closed))))
    &&& (c != '"' ==> s.restaged(t, |st: XmlAttributesStages| st matches XmlAttributesStages::Array(XmlAttributesArrayStages::Value(XmlAttributeKeyValueStages::Open(v))) && v@ == curr.push(c)))
}

/// Reads a value in an attributes array: the closing quote closes it, other characters extend it.
pub fn array_attributes_stage_value_open(char_val: &char, state: &mut State, basic_info: &XmlAttributesBasicInfo, curr_key: &String)
    ensures
        array_attributes_stage_value_open_post(old(state)@, *char_val, curr_key@, final(state)@),
{
    let mut new_val = curr_key.clone();
    push_char(&mut new_val, *char_val);
    match char_val {
        '"' => state.update_state(XmlAttributesStages::Array(XmlAttributesArrayStages::Value(XmlAttributeKeyValueStages::Closed))),
        _ => state.update_state(XmlAttributesStages::Array(XmlAttributesArrayStages::Value(XmlAttributeKeyValueStages::Open(new_val)))),
    }
}

/// What `array_attributes_stage_value_closed` leaves behind.
pub open spec fn array_attributes_stage_value_closed_post(s: StateView, c: char, t: StateView) -> bool {
    &&& (c == ',' ==> t == s.staged(XmlAttributesStages::Array(XmlAttributesArrayStages::KeyValFieldSeparator)))
    &&& (c == '}' ==> t == s.staged(XmlAttributesStages::Array(XmlAttributesArrayStages::ObjectEnd)))
    &&& (c != ',' && c != '}' ==> t == s.attributes_aborted())
}

/// After a value in an attributes array: a comma or the closing brace is awaited.
pub fn array_attributes_stage_value_closed(char_val: &char, state: &mut State, basic_info: &XmlAttributesBasicInfo)
    ensures
        array_attributes_stage_value_closed_post(old(state)@, *char_val, final(state)@),
{
    match char_val {
        ',' => state.update_state(XmlAttributesStages::Array(XmlAttributesArrayStages::KeyValFieldSeparator)),
        '}' => state.update_state(XmlAttributesStages::Array(XmlAttributesArrayStages::ObjectEnd)),
        _ => state.abort_xml_attributes(),
    }
}

/// What `array_attributes_stage_key_val_field_separator` leaves behind.
pub open spec fn array_attributes_stage_key_val_field_separator_post(s: StateView, c: char, t: StateView) -> bool {
    &&& (c == ',' ==> s.restaged(t, |st: XmlAttributesStages| st matches XmlAttributesStages::Array(XmlAttributesArrayStages::Key(XmlAttributeKeyValueStages::Open(v))) && v@.len() == 0))
    &&& (c == '}' ==> t == s.staged(XmlAttributesStages::Array(XmlAttributesArrayStages::ObjectEnd)))
    &&& (c != ',' && c != '}' ==> t == s.attributes_aborted())
}

/// After a comma in an attributes array item: the next key or the end of the item.
pub fn array_attributes_stage_key_val_field_separator(char_val: &char, state: &mut State, basic_info: &XmlAttributesBasicInfo)
    ensures
        array_attributes_stage_key_val_field_separator_post(old(state)@, *char_val, final(state)@),
{
    match char_val {
        ',' => state.update_state(XmlAttributesStages::Array(XmlAttributesArrayStages::Key(XmlAttributeKeyValueStages::Open(String::new())))),
        '}' => state.update_state(XmlAttributesStages::Array(XmlAttributesArrayStages::ObjectEnd)),
        _ => state.abort_xml_attributes(),
    }
}

/// What `array_attributes_stage_object_end` leaves behind.
pub open spec fn array_attributes_stage_object_end_post(s: StateView, c: char, t: StateView) -> bool {
    &&& (c == ',' ==> t == s.staged(XmlAttributesStages::Array(XmlAttributesArrayStages::ObjectSeparator)))
    &&& (c == ']' ==> t == s.staged(XmlAttributesStages::Array(XmlAttributesArrayStages::ObjectEnd)))
    &&& (c != ',' && c != ']' ==> t == s.attributes_aborted())
}

/// After an item of an attributes array: a comma or the closing bracket.
pub fn array_attributes_stage_object_end(char_val: &char, state: &mut State, basic_info: &XmlAttributesBasicInfo)
    ensures
        array_attributes_stage_object_end_post(old(state)@, *char_val, final(state)@),
{
    match char_val {
        ',' => state.update_state(XmlAttributesStages::Array(XmlAttributesArrayStages::ObjectSeparator)),
        ']' => state.update_state(XmlAttributesStages::Array(XmlAttributesArrayStages::ObjectEnd)),
        _ => state.abort_xml_attributes(),
    }
}

/// What `array_attributes_stage_object_separator` leaves behind.
pub open spec fn array_attributes_stage_object_separator_post(s: StateView, c: char, t: StateView) -> bool {
    &&& (c == '{' ==> t == s.staged(XmlAttributesStages::Array(XmlAttributesArrayStages::ObjectSeparator)))
    &&& (c != '{' ==> t == s.attributes_aborted())
}

/// Between items of an attributes array: the next `{` is awaited.
pub fn array_attributes_stage_object_separator(char_val: &char, state: &mut State, basic_info: &XmlAttributesBasicInfo)
    ensures
        array_attributes_stage_object_separator_post(old(state)@, *char_val, final(state)@),
{
    match char_val {
        '{' => state.update_state(XmlAttributesStages::Array(XmlAttributesArrayStages::ObjectSeparator)),
        _ => state.abort_xml_attributes(),
    }
}

} // verus!
