pub mod maps;
pub mod models;
pub mod xml_attributes_array;
pub mod xml_attributes_object;
pub mod xml_attributes_init;
pub mod xml_attributes_abort;
pub mod xml_attributes_end;
pub mod xml_attributes_marking;
pub mod xml_attributes_object_id;
pub mod xml_attributes_update;

use vstd::prelude::*;

use self::maps::{find_map_entry, find_type_entry};
use self::models::{
    map_entries_view, map_index, type_entries_view, type_index, XmlAttributesBasicInfo,
    XmlAttributesMapEntryView, XmlAttributesMapKeyView, XmlAttributesType,
    XmlAttributesTypeEntryView, XmlAttributesTypeView,
};
use super::state::{same_frame, State, StateView};
use self::models::{XmlAttributeKeyValueStages, XmlAttributesArrayStages, XmlAttributesObjectStages, XmlAttributesStages};
use self::xml_attributes_array::{
    array_attributes_stage_init, array_attributes_stage_init_post, array_attributes_stage_key_closed, array_attributes_stage_key_closed_post, array_attributes_stage_key_open, array_attributes_stage_key_open_post, array_attributes_stage_key_val_field_separator, array_attributes_stage_key_val_field_separator_post, array_attributes_stage_key_val_separator_case, array_attributes_stage_key_val_separator_case_post, array_attributes_stage_null, array_attributes_stage_null_post, array_attributes_stage_object_end, array_attributes_stage_object_end_post, array_attributes_stage_object_init, array_attributes_stage_object_init_post, array_attributes_stage_object_separator, array_attributes_stage_object_separator_post, array_attributes_stage_value_closed, array_attributes_stage_value_closed_post, array_attributes_stage_value_open, array_attributes_stage_value_open_post,
};
use self::xml_attributes_object::{
    object_attributes_stage_init, object_attributes_stage_init_post, object_attributes_stage_key_closed, object_attributes_stage_key_closed_post, object_attributes_stage_key_open, object_attributes_stage_key_open_post, object_attributes_stage_key_val_field_separator, object_attributes_stage_key_val_field_separator_post, object_attributes_stage_key_val_separator_case, object_attributes_stage_key_val_separator_case_post, object_attributes_stage_null, object_attributes_stage_null_post, object_attributes_stage_value_closed, object_attributes_stage_value_closed_post, object_attributes_stage_value_open, object_attributes_stage_value_open_post,
};

verus! {

/// Where the attribute information of `key` in map `id` is stored, if anywhere.
pub open spec fn attr_position(
    m: Seq<XmlAttributesMapEntryView>,
    id: Seq<char>,
    key: XmlAttributesMapKeyView,
) -> Option<(int, int)> {
    let i = map_index(m, id);
    if i < 0 {
        None
    } else {
        let j = type_index(m[i].attributes, key);
        if j < 0 {
            None
        } else {
            Some((i, j))
        }
    }
}

/// The attribute information of `key` in map `id`, if any.
pub open spec fn attr_type_of(
    m: Seq<XmlAttributesMapEntryView>,
    id: Seq<char>,
    key: XmlAttributesMapKeyView,
) -> Option<XmlAttributesTypeView> {
    match attr_position(m, id, key) {
        Some((i, j)) => Some(m[i].attributes[j].value),
        None => None,
    }
}

/// The attribute maps with the information at `pos` replaced by `v`.
pub open spec fn attr_type_set(
    m: Seq<XmlAttributesMapEntryView>,
    pos: (int, int),
    v: XmlAttributesTypeView,
) -> Seq<XmlAttributesMapEntryView> {
    let (i, j) = pos;
    let e = m[i];
    let t = e.attributes[j];
    m.update(
        i,
        XmlAttributesMapEntryView {
            attributes: e.attributes.update(j, XmlAttributesTypeEntryView { value: v, ..t }),
            ..e
        },
    )
}

/// Where the information that `basic_info` points at is stored, if anywhere.
pub fn find_attributes_position(state: &State, basic_info: &XmlAttributesBasicInfo) -> (r: Option<(usize, usize)>)
    ensures
        attr_position(state@.xml_attributes_map, basic_info.attr_id@, basic_info.current_key@) is None
            ==> r is None,
        attr_position(state@.xml_attributes_map, basic_info.attr_id@, basic_info.current_key@) matches Some(pos)
            ==> r matches Some(p) && p.0 as int == pos.0 && p.1 as int == pos.1,
        r matches Some(p) ==> p.0 < state.xml_attributes_map.len() && p.1 < state.xml_attributes_map@[p.0 as int].attributes.len(),
{
    match find_map_entry(&state.xml_attributes_map, &basic_info.attr_id) {
        Some(i) => {
            proof {
                assert(map_entries_view(state.xml_attributes_map@)[i as int].attributes == type_entries_view(state.xml_attributes_map@[i as int].attributes@));
            }
            match find_type_entry(&state.xml_attributes_map[i].attributes, &basic_info.current_key) {
                Some(j) => Some((i, j)),
                None => None,
            }
        },
        None => None,
    }
}

/// What reading character `c` does to the attributes being read in state `s`, if any.
pub open spec fn attribute_step_post(s: StateView, c: char, t: StateView) -> bool {
    match s.xml_attributes {
        None => t == s,
        Some(b) => match b.curr_stage {
            XmlAttributesStages::Object(o) => match o {
                XmlAttributesObjectStages::Init => object_attributes_stage_init_post(s, c, t),
                XmlAttributesObjectStages::Key(XmlAttributeKeyValueStages::Open(k)) =>
                    object_attributes_stage_key_open_post(s, c, k@, t),
                XmlAttributesObjectStages::Key(XmlAttributeKeyValueStages::Closed) =>
                    object_attributes_stage_key_closed_post(s, c, t),
                XmlAttributesObjectStages::KeyValSeparator =>
                    object_attributes_stage_key_val_separator_case_post(s, c, t),
                XmlAttributesObjectStages::Value(XmlAttributeKeyValueStages::Open(v)) =>
                    object_attributes_stage_value_open_post(s, c, v@, t),
                XmlAttributesObjectStages::Value(XmlAttributeKeyValueStages::Closed) =>
                    object_attributes_stage_value_closed_post(s, c, t),
                XmlAttributesObjectStages::KeyValFieldSeparator =>
                    object_attributes_stage_key_val_field_separator_post(s, c, t),
                XmlAttributesObjectStages::NullValue(v) => object_attributes_stage_null_post(s, c, v@, t),
                XmlAttributesObjectStages::End => t == s,
            },
            XmlAttributesStages::Array(a) => match a {
                XmlAttributesArrayStages::Init => array_attributes_stage_object_init_post(s, c, t),
                XmlAttributesArrayStages::ObjectInit => array_attributes_stage_object_init_post(s, c, t),
                XmlAttributesArrayStages::Key(XmlAttributeKeyValueStages::Open(k)) =>
                    array_attributes_stage_key_open_post(s, c, k@, t),
                XmlAttributesArrayStages::Key(XmlAttributeKeyValueStages::Closed) =>
                    array_attributes_stage_key_closed_post(s, c, t),
                XmlAttributesArrayStages::KeyValSeparator =>
                    array_attributes_stage_key_val_separator_case_post(s, c, t),
                XmlAttributesArrayStages::Value(XmlAttributeKeyValueStages::Open(v)) =>
                    array_attributes_stage_value_open_post(s, c, v@, t),
                XmlAttributesArrayStages::Value(XmlAttributeKeyValueStages::Closed) =>
                    array_attributes_stage_value_closed_post(s, c, t),
                XmlAttributesArrayStages::KeyValFieldSeparator =>
                    array_attributes_stage_key_val_field_separator_post(s, c, t),
                XmlAttributesArrayStages::ObjectEnd => array_attributes_stage_object_end_post(s, c, t),
                XmlAttributesArrayStages::ObjectSeparator => array_attributes_stage_object_separator_post(s, c, t),
                XmlAttributesArrayStages::NullValue(v) => array_attributes_stage_null_post(s, c, v@, t),
                XmlAttributesArrayStages::ValueOfKeyNull(_) => t == s,
            },
        },
    }
}

fn xml_attributes_state_attributes_object(
    char_val: &char,
    state: &mut State,
    basic_info: &XmlAttributesBasicInfo,
    object_stages: &XmlAttributesObjectStages,
)
    requires
        old(state)@.xml_attributes == Some(*basic_info),
        basic_info.curr_stage == XmlAttributesStages::Object(*object_stages),
    ensures
        attribute_step_post(old(state)@, *char_val, final(state)@),
{
    match object_stages {
        XmlAttributesObjectStages::Init => object_attributes_stage_init(char_val, state, basic_info),
        XmlAttributesObjectStages::Key(key_val_stages) => match key_val_stages {
            XmlAttributeKeyValueStages::Open(str_val) => object_attributes_stage_key_open(char_val, state, basic_info, str_val),
            XmlAttributeKeyValueStages::Closed => object_attributes_stage_key_closed(char_val, state, basic_info),
        },
        XmlAttributesObjectStages::KeyValSeparator => {
            object_attributes_stage_key_val_separator_case(char_val, state, basic_info)
        },
        XmlAttributesObjectStages::Value(val_stages) => match val_stages {
            XmlAttributeKeyValueStages::Open(str_val) => object_attributes_stage_value_open(char_val, state, basic_info, str_val),
            XmlAttributeKeyValueStages::Closed => object_attributes_stage_value_closed(char_val, state, basic_info),
        },
        XmlAttributesObjectStages::KeyValFieldSeparator => {
            object_attributes_stage_key_val_field_separator(char_val, state, basic_info)
        },
        XmlAttributesObjectStages::NullValue(curr_str_val) => {
            object_attributes_stage_null(char_val, state, basic_info, curr_str_val)
        },
        XmlAttributesObjectStages::End => {},
    }
}

fn xml_attributes_state_attributes_array(
    char_val: &char,
    state: &mut State,
    basic_info: &XmlAttributesBasicInfo,
    array_stages: &XmlAttributesArrayStages,
)
    requires
        old(state)@.xml_attributes == Some(*basic_info),
        basic_info.curr_stage == XmlAttributesStages::Array(*array_stages),
    ensures
        attribute_step_post(old(state)@, *char_val, final(state)@),
{
    match array_stages {
        XmlAttributesArrayStages::Init => array_attributes_stage_object_init(char_val, state, basic_info),
        XmlAttributesArrayStages::ObjectInit => array_attributes_stage_object_init(char_val, state, basic_info),
        XmlAttributesArrayStages::Key(k) => match k {
            XmlAttributeKeyValueStages::Open(str_val) => array_attributes_stage_key_open(char_val, state, basic_info, str_val),
            XmlAttributeKeyValueStages::Closed => array_attributes_stage_key_closed(char_val, state, basic_info),
        },
        XmlAttributesArrayStages::KeyValSeparator => {
            array_attributes_stage_key_val_separator_case(char_val, state, basic_info)
        },
        XmlAttributesArrayStages::Value(v) => match v {
            XmlAttributeKeyValueStages::Open(str_val) => array_attributes_stage_value_open(char_val, state, basic_info, str_val),
            XmlAttributeKeyValueStages::Closed => array_attributes_stage_value_closed(char_val, state, basic_info),
        },
        XmlAttributesArrayStages::KeyValFieldSeparator => {
            array_attributes_stage_key_val_field_separator(char_val, state, basic_info)
        },
        XmlAttributesArrayStages::ObjectEnd => array_attributes_stage_object_end(char_val, state, basic_info),
        XmlAttributesArrayStages::ObjectSeparator => array_attributes_stage_object_separator(char_val, state, basic_info),
        XmlAttributesArrayStages::NullValue(curr_str_val) => {
            array_attributes_stage_null(char_val, state, basic_info, curr_str_val)
        },
        XmlAttributesArrayStages::ValueOfKeyNull(_) => {},
    }
}

/// Feeds character `c` to the attributes being read, if any (see [`attribute_step_post`]).
pub fn xml_attributes_check_state(char_val: &char, state: &mut State)
    ensures
        attribute_step_post(old(state)@, *char_val, final(state)@),
        same_frame(old(state)@, final(state)@),
{
    match &state.xml_attributes {
        Some(attributes_info) => {
            let info = attributes_info.copy();
            match &info.curr_stage {
                XmlAttributesStages::Array(a) => xml_attributes_state_attributes_array(char_val, state, &info, a),
                XmlAttributesStages::Object(o) => xml_attributes_state_attributes_object(char_val, state, &info, o),
            }
        },
        None => (),
    }
}

} // verus!
