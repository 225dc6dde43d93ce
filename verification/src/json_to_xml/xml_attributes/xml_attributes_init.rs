use vstd::prelude::*;

use crate::bindings::{
    attributes_suffix_pattern, ends_with_attributes_suffix, regex_replace, to_uppercase, uppercase_of,
};
use crate::json_to_xml::models::{FieldPositionNumForMap, NestingState, XmlOpenTagOptions};
use crate::json_to_xml::state::{State, StateView};
use crate::json_to_xml::xml_tag::{check_if_nested_in_array, nested_in_array_option};
use crate::text::{ends_with, has_suffix, opt_string_view};
use super::models::{
    XmlAttributesArrayStages, XmlAttributesBasicInfo, XmlAttributesMapKey, XmlAttributesObjectStages,
    XmlAttributesStages,
};
use super::xml_attributes_object_id::{get_attributes_object_id, object_id_outcome};

verus! {

/// `key`, seen as an element name, announces attributes: upper-cased it ends with `_ATTRIBUTES`.
pub open spec fn is_attributes_key(key: Seq<char>) -> bool {
    has_suffix(uppercase_of(key), "_ATTRIBUTES"@)
}

/// The element name that an attributes key belongs to: the key without its `_attributes` suffix.
pub open spec fn attributes_base_name(key: Seq<char>) -> Seq<char> {
    if ends_with_attributes_suffix(key) {
        key.take(key.len() - 11)
    } else {
        key
    }
}

/// The reading state that `init_xml_attributes` starts for the top field's key, given the state `s`.
pub open spec fn started_attributes(s: StateView, pos: FieldPositionNumForMap, b: XmlAttributesBasicInfo) -> bool {
    let key = s.fields.last().key->0@;
    let in_array = nested_in_array_option(s) == XmlOpenTagOptions::ObjectInArray;
    &&& b.current_key@.attribute_base_name == attributes_base_name(key)
    &&& b.current_key@.attribute_type == (if in_array {
        NestingState::JsonArrayNestingState
    } else {
        NestingState::JsonObjectNestinState
    })
    &&& b.attr_id@ == s.fields[s.fields.len() - pos.xml_attr_map_num].xml_attributes_map_id@
    &&& b.curr_stage == (if in_array {
        XmlAttributesStages::Array(XmlAttributesArrayStages::ObjectInit)
    } else {
        XmlAttributesStages::Object(XmlAttributesObjectStages::Init)
    })
}

/// Whether `init_xml_attributes` starts reading attributes in state `s`.
pub open spec fn starts_attributes(s: StateView, pos: FieldPositionNumForMap) -> bool {
    &&& s.fields.len() >= pos.xml_attr_map_num
    &&& s.fields.last().key is Some
    &&& is_attributes_key(s.fields.last().key->0@)
}

/// Whether `State::check_init_xml_attributes` starts reading attributes in state `s`: no
/// attributes are being read and `init_xml_attributes` would start.
pub open spec fn check_starts_attributes(s: StateView, pos: FieldPositionNumForMap) -> bool {
    s.xml_attributes is None && starts_attributes(s, pos)
}

/// When the top field's key ends with `_attributes` (in any case), starts reading attributes
/// for the element the key belongs to and returns the group id to write before its tag.
pub fn init_xml_attributes(state: &mut State, field_pos_with_rel_map: FieldPositionNumForMap) -> (r: Option<String>)
    requires
        field_pos_with_rel_map.xml_attr_map_num >= 1,
    ensures
        !starts_attributes(old(state)@, field_pos_with_rel_map) ==> r is None && final(state)@ == old(state)@,
        starts_attributes(old(state)@, field_pos_with_rel_map) ==> (final(state)@.xml_attributes matches Some(b)
            && started_attributes(old(state)@, field_pos_with_rel_map, b)
            && object_id_outcome(
            StateView { xml_attributes: Some(b), ..old(state)@ },
            b,
            opt_string_view(r),
            final(state)@,
        )),
{
    if state.fields.len() < field_pos_with_rel_map.xml_attr_map_num {
        return None;
    }
    let map_index = state.fields.len() - field_pos_with_rel_map.xml_attr_map_num;
    let last_index = state.fields.len() - 1;
    match &state.fields[last_index].key {
        Some(key) => {
            let upper = to_uppercase(key.as_str());
            if ends_with(upper.as_str(), "_ATTRIBUTES") {
                let base = regex_replace(
                    "_(A|a)(T|t)(T|t)(R|r)(I|i)(B|b)(U|u)(T|t)(E|e)(S|s)$",
                    key.as_str(),
                    "",
                );
                proof {
                    reveal_strlit("");
                }
                let xml_key_base = match base {
                    Some(b) => b,
                    None => {
                        proof {
                            assert(false);
                        }
                        String::new()
                    },
                };
                let nesting_state: NestingState;
                let curr_stage: XmlAttributesStages;
                if let XmlOpenTagOptions::ObjectInArray = check_if_nested_in_array(state) {
                    curr_stage = XmlAttributesStages::Array(XmlAttributesArrayStages::ObjectInit);
                    nesting_state = NestingState::JsonArrayNestingState;
                } else {
                    curr_stage = XmlAttributesStages::Object(XmlAttributesObjectStages::Init);
                    nesting_state = NestingState::JsonObjectNestinState;
                }
                let map_key = XmlAttributesMapKey { attribute_type: nesting_state, attribute_base_name: xml_key_base };
                let basic_info = XmlAttributesBasicInfo {
                    current_key: map_key,
                    curr_stage,
                    attr_id: state.fields[map_index].xml_attributes_map_id.clone(),
                };
                state.xml_attributes = Some(basic_info.copy());
                get_attributes_object_id(state, &basic_info)
            } else {
                None
            }
        },
        None => None,
    }
}

} // verus!
