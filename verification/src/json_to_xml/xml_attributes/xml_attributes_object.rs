use vstd::prelude::*;

use crate::bindings::{is_key_char, regex_is_match};
use crate::json_to_xml::state::{State, StateView};
use crate::text::{contains_str, has_substring, push_char, str_eq, string_of};
use super::models::{
    XmlAttributeKeyValueStages, XmlAttributesArrayStages, XmlAttributesBasicInfo,
    XmlAttributesObjectStages, XmlAttributesStages,
};

verus! {

/// What `object_attributes_stage_init` leaves behind.
pub open spec fn object_attributes_stage_init_post(s: StateView, c: char, t: StateView) -> bool {
    &&& (c == '"' ==> t == s.staged(XmlAttributesStages::Object(XmlAttributesObjectStages::Init)))
    &&& (c != '"' ==> t == s.attributes_aborted())
}

/// At the start of an attributes object: the first key's quote is awaited.
pub fn object_attributes_stage_init(char_val: &char, state: &mut State, basic_info: &XmlAttributesBasicInfo)
    ensures
        object_attributes_stage_init_post(old(state)@, *char_val, final(state)@),
{
    match char_val {
        '"' => state.update_state(XmlAttributesStages::Object(XmlAttributesObjectStages::Init)),
        _ => state.abort_xml_attributes(),
    }
}

/// What `object_attributes_stage_null` leaves behind.
pub open spec fn object_attributes_stage_null_post(s: StateView, c: char, curr: Seq<char>, t: StateView) -> bool {
    &&& (curr.push(c) == "null"@ ==> t == s.staged(XmlAttributesStages::Object(XmlAttributesObjectStages::End)))
    &&& (curr.push(c) != "null"@ && has_substring("null"@, curr.push(c)) ==> s.restaged(t, |st: XmlAttributesStages| st matches XmlAttributesStages::Object(XmlAttributesObjectStages::NullValue(v)) && v@ == seq!['n']))
    &&& (curr.push(c) != "null"@ && !has_substring("null"@, curr.push(c)) ==> t == s.attributes_aborted())
}

/// Reads `null` in an attributes object: once complete the object ends; a partial `null` is kept as `n`.
pub fn object_attributes_stage_null(char_val: &char, state: &mut State, basic_info: &XmlAttributesBasicInfo, curr_str_val: &String)
    ensures
        object_attributes_stage_null_post(old(state)@, *char_val, curr_str_val@, final(state)@),
{
    let mut new_str_val = curr_str_val.clone();
    push_char(&mut new_str_val, *char_val);
    if str_eq(new_str_val.as_str(), "null") {
        state.update_state(XmlAttributesStages::Object(XmlAttributesObjectStages::End));
    } else if contains_str("null", new_str_val.as_str()) {
        let v = string_of("n");
        proof {
            reveal_strlit("n");
            assert(v@ =~= seq!['n']);
        }
        state.update_state(XmlAttributesStages::Object(XmlAttributesObjectStages::NullValue(v)));
    } else {
        state.abort_xml_attributes();
    }
}

/// What `object_attributes_stage_key_open` leaves behind.
pub open spec fn object_attributes_stage_key_open_post(s: StateView, c: char, curr: Seq<char>, t: StateView) -> bool {
    &&& (c == '"' ==> t == s.with_attribute_key(curr).staged(XmlAttributesStages::Object(XmlAttributesObjectStages::Key(XmlAttributeKeyValueStages::Closed))))
    &&& (c != '"' && is_key_char(curr.push(c)[0]) ==> s.restaged(t, |st: XmlAttributesStages| st matches XmlAttributesStages::Object(XmlAttributesObjectStages::Key(XmlAttributeKeyValueStages::Open(v))) && v@ == curr.push(c)))
    &&& (c != '"' && !is_key_char(curr.push(c)[0]) ==> t == s.attributes_aborted())
}

/// Reads a key in an attributes object: the closing quote records the key; other characters
/// extend it while its first character lies between `A` and `z`, else the attributes are given up.
pub fn object_attributes_stage_key_open(char_val: &char, state: &mut State, basic_info: &XmlAttributesBasicInfo, attribute_key: &String)
    ensures
        object_attributes_stage_key_open_post(old(state)@, *char_val, attribute_key@, final(state)@),
{
    let mut new_val = attribute_key.clone();
    push_char(&mut new_val, *char_val);
    match char_val {
        '"' => {
            state.update_xml_attribute_key(attribute_key);
            state.update_state(XmlAttributesStages::Object(XmlAttributesObjectStages::Key(XmlAttributeKeyValueStages::Closed)));
        },
        _ => {
            let m = regex_is_match("^[aA-zZ]", new_val.as_str());
            if m == Some(true) {
                state.update_state(XmlAttributesStages::Object(XmlAttributesObjectStages::Key(XmlAttributeKeyValueStages::Open(new_val))));
            } else {
                state.abort_xml_attributes();
            }
        },
    }
}

/// What `object_attributes_stage_key_closed` leaves behind.
pub open spec fn object_attributes_stage_key_closed_post(s: StateView, c: char, t: StateView) -> bool {
    &&& (c == ':' ==> t == s.staged(XmlAttributesStages::Object(XmlAttributesObjectStages::KeyValFieldSeparator)))
    &&& (c != ':' ==> t == s.attributes_aborted())
}

/// After a key in an attributes object: the colon is awaited.
pub fn object_attributes_stage_key_closed(char_val: &char, state: &mut State, basic_info: &XmlAttributesBasicInfo)
    ensures
        object_attributes_stage_key_closed_post(old(state)@, *char_val, final(state)@),
{
    match char_val {
        ':' => state.update_state(XmlAttributesStages::Object(XmlAttributesObjectStages::KeyValFieldSeparator)),
        _ => state.abort_xml_attributes(),
    }
}

/// What `object_attributes_stage_key_val_separator_case` leaves behind.
pub open spec fn object_attributes_stage_key_val_separator_case_post(s: StateView, c: char, t: StateView) -> bool {
    &&& (c == '"' ==> s.restaged(t, |st: XmlAttributesStages| st matches XmlAttributesStages::Object(XmlAttributesObjectStages::Value(XmlAttributeKeyValueStages::Open(v))) && v@.len() == 0))
    &&& (c != '"' ==> t == s.attributes_aborted())
}

/// Between key and value in an attributes object: the value's quote is awaited.
pub fn object_attributes_stage_key_val_separator_case(char_val: &char, state: &mut State, basic_info: &XmlAttributesBasicInfo)
    ensures
        object_attributes_stage_key_val_separator_case_post(old(state)@, *char_val, final(state)@),
{
    match char_val {
        '"' => state.update_state(XmlAttributesStages::Object(XmlAttributesObjectStages::Value(XmlAttributeKeyValueStages::Open(String::new())))),
        _ => state.abort_xml_attributes(),
    }
}

/// What `object_attributes_stage_value_open` leaves behind.
pub open spec fn object_attributes_stage_value_open_post(s: StateView, c: char, curr: Seq<char>, t: StateView) -> bool {
    &&& (c == '"' ==> t == s.staged(XmlAttributesStages::Object(XmlAttributesObjectStages::Value(XmlAttributeKeyValueStages::Closed))))
    &&& (c != '"' ==> s.restaged(t, |st: XmlAttributesStages| st matches XmlAttributesStages::Object(XmlAttributesObjectStages::Value(XmlAttributeKeyValueStages::Open(v))) && v@ == curr.push(c)))
}

/// Reads a value in an attributes object: the closing quote closes it, other characters extend it.
pub fn object_attributes_stage_value_open(char_val: &char, state: &mut State, basic_info: &XmlAttributesBasicInfo, curr_key: &String)
    ensures
        object_attributes_stage_value_open_post(old(state)@, *char_val, curr_key@, final(state)@),
{
    let mut new_val = curr_key.clone();
    push_char(&mut new_val, *char_val);
    match char_val {
        '"' => state.update_state(XmlAttributesStages::Object(XmlAttributesObjectStages::Value(XmlAttributeKeyValueStages::Closed))),
        _ => state.update_state(XmlAttributesStages::Object(XmlAttributesObjectStages::Value(XmlAttributeKeyValueStages::Open(new_val)))),
    }
}

/// What `object_attributes_stage_value_closed` leaves behind.
pub open spec fn object_attributes_stage_value_closed_post(s: StateView, c: char, t: StateView) -> bool {
    &&& (c == ',' ==> t == s.staged(XmlAttributesStages::Object(XmlAttributesObjectStages::KeyValFieldSeparator)))
    &&& (c == '}' ==> t == s.staged(XmlAttributesStages::Object(XmlAttributesObjectStages::End)))
    &&& (c != ',' && c != '}' ==> t == s.attributes_aborted())
}

/// After a value in an attributes object: a comma or the closing brace is awaited.
pub fn object_attributes_stage_value_closed(char_val: &char, state: &mut State, basic_info: &XmlAttributesBasicInfo)
    ensures
        object_attributes_stage_value_closed_post(old(state)@, *char_val, final(state)@),
{
    match char_val {
        ',' => state.update_state(XmlAttributesStages::Object(XmlAttributesObjectStages::KeyValFieldSeparator)),
        '}' => state.update_state(XmlAttributesStages::Object(XmlAttributesObjectStages::End)),
        _ => state.abort_xml_attributes(),
    }
}

/// What `object_attributes_stage_key_val_field_separator` leaves behind.
pub open spec fn object_attributes_stage_key_val_field_separator_post(s: StateView, c: char, t: StateView) -> bool {
    &&& (c == '{' ==> t == s.staged(XmlAttributesStages::Object(XmlAttributesObjectStages::KeyValFieldSeparator)))
    &&& (c != '{' ==> t == s.attributes_aborted())
}

/// After a comma in an attributes object.
pub fn object_attributes_stage_key_val_field_separator(char_val: &char, state: &mut State, basic_info: &XmlAttributesBasicInfo)
    ensures
        object_attributes_stage_key_val_field_separator_post(old(state)@, *char_val, final(state)@),
{
    match char_val {
        '{' => state.update_state(XmlAttributesStages::Object(XmlAttributesObjectStages::KeyValFieldSeparator)),
        _ => state.abort_xml_attributes(),
    }
}

} // verus!
