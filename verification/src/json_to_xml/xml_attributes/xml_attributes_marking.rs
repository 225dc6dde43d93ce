use vstd::prelude::*;

use crate::bindings::{is_uuid_text, new_uuid_string};
use crate::text::opt_string_view;
use crate::json_to_xml::models::FieldPositionNumForMap;
use crate::json_to_xml::state::{State, StateView};
use super::{attr_position, attr_type_set};
use super::maps::{find_map_entry, find_type_entry, insert_type_entry};
use super::models::{
    map_entries_view, map_index, strings_view, type_entries_view, type_index, type_inserted,
    AttributeObjectPairs, XmlAttributeArrayinfo, XmlAttributeArrayinfoView,
    XmlAttributeNoAttributeInfo, XmlAttributeObjectInfo, XmlAttributeObjectInfoView,
    XmlAttributesMapEntryView, XmlAttributesMapKey, XmlAttributesMapKeyView, XmlAttributesType,
    XmlAttributesTypeView,
};
use super::xml_attributes_update::lemma_place_updated;

verus! {

/// The attribute information after place-holder id `u` was written for another element of the key.
pub open spec fn type_with_mark(t: XmlAttributesTypeView, u: Seq<char>) -> XmlAttributesTypeView {
    let both = AttributeObjectPairs { has_none_attribute_obj: true, has_attribute_obj: true };
    match t {
        XmlAttributesTypeView::ArrayTypeAttributes(a) => XmlAttributesTypeView::ArrayTypeAttributes(
            XmlAttributeArrayinfoView { unique_key_ids: a.unique_key_ids.push(u), object_pairs_info: both, ..a },
        ),
        XmlAttributesTypeView::ObjectAttributes(o) => XmlAttributesTypeView::ObjectAttributes(
            XmlAttributeObjectInfoView { unique_key_ids: o.unique_key_ids.push(u), object_pairs_info: both, ..o },
        ),
        XmlAttributesTypeView::NoAttribute(ids) => XmlAttributesTypeView::NoAttribute(ids.push(u)),
    }
}

/// The key and map that `get_attributes_mark` works on, for a stack `s` deep enough.
pub open spec fn mark_key(s: StateView, key: Seq<char>, pos: FieldPositionNumForMap) -> XmlAttributesMapKeyView {
    XmlAttributesMapKeyView {
        attribute_base_name: key,
        attribute_type: s.fields[s.fields.len() - pos.xml_attr_type_num].nesting_state,
    }
}

/// The map id that `get_attributes_mark` works on, for a stack `s` deep enough.
pub open spec fn mark_map_id(s: StateView, pos: FieldPositionNumForMap) -> Seq<char> {
    s.fields[s.fields.len() - pos.xml_attr_map_num].xml_attributes_map_id@
}

/// The result and state of `get_attributes_mark` when the new place-holder id is `u`.
pub open spec fn mark_outcome(
    s: StateView,
    key: Seq<char>,
    pos: FieldPositionNumForMap,
    u: Seq<char>,
    r: Option<Seq<char>>,
    t: StateView,
) -> bool {
    if s.fields.len() < pos.xml_attr_map_num {
        r is None && t == s
    } else {
        let id = mark_map_id(s, pos);
        let k = mark_key(s, key, pos);
        let m = s.xml_attributes_map;
        let i = map_index(m, id);
        if i < 0 {
            r is None && t == s
        } else {
            let j = type_index(m[i].attributes, k);
            r == Some(u) && if j >= 0 {
                t == (StateView {
                    xml_attributes_map: attr_type_set(m, (i, j), type_with_mark(m[i].attributes[j].value, u)),
                    ..s
                })
            } else {
                t == (StateView {
                    xml_attributes_map: m.update(
                        i,
                        XmlAttributesMapEntryView {
                            attributes: type_inserted(m[i].attributes, k, XmlAttributesTypeView::NoAttribute(seq![u])),
                            ..m[i]
                        },
                    ),
                    ..s
                })
            }
        }
    }
}

fn get_attr_mark_case_attr_reg_arr(xml_attributes_info: &mut XmlAttributeArrayinfo) -> (r: Option<String>)
    ensures
        r matches Some(u) && is_uuid_text(u@) && XmlAttributesTypeView::ArrayTypeAttributes(
            final(xml_attributes_info)@,
        ) == type_with_mark(XmlAttributesTypeView::ArrayTypeAttributes(old(xml_attributes_info)@), u@),
{
    let unique_id = new_uuid_string();
    xml_attributes_info.unique_key_ids.push(unique_id.clone());
    xml_attributes_info.object_pairs_info = AttributeObjectPairs { has_none_attribute_obj: true, has_attribute_obj: true };
    proof {
        assert(strings_view(xml_attributes_info.unique_key_ids@) =~= strings_view(
            old(xml_attributes_info).unique_key_ids@,
        ).push(unique_id@));
    }
    Some(unique_id)
}

fn get_attr_mark_case_attr_reg_obj(xml_attributes_info: &mut XmlAttributeObjectInfo) -> (r: Option<String>)
    ensures
        r matches Some(u) && is_uuid_text(u@) && XmlAttributesTypeView::ObjectAttributes(
            final(xml_attributes_info)@,
        ) == type_with_mark(XmlAttributesTypeView::ObjectAttributes(old(xml_attributes_info)@), u@),
{
    let unique_id = new_uuid_string();
    xml_attributes_info.unique_key_ids.push(unique_id.clone());
    xml_attributes_info.object_pairs_info = AttributeObjectPairs { has_none_attribute_obj: true, has_attribute_obj: true };
    proof {
        assert(strings_view(xml_attributes_info.unique_key_ids@) =~= strings_view(
            old(xml_attributes_info).unique_key_ids@,
        ).push(unique_id@));
    }
    Some(unique_id)
}

fn get_attr_mark_case_only_none_attr_reg(xml_attributes_info: &mut XmlAttributeNoAttributeInfo) -> (r: Option<String>)
    ensures
        r matches Some(u) && is_uuid_text(u@) && strings_view(final(xml_attributes_info).unique_key_ids@)
            == strings_view(old(xml_attributes_info).unique_key_ids@).push(u@),
{
    let unique_id = new_uuid_string();
    xml_attributes_info.unique_key_ids.push(unique_id.clone());
    proof {
        assert(strings_view(xml_attributes_info.unique_key_ids@) =~= strings_view(
            old(xml_attributes_info).unique_key_ids@,
        ).push(unique_id@));
    }
    Some(unique_id)
}

fn mark_found_entry(t: &mut XmlAttributesType) -> (r: Option<String>)
    ensures
        r matches Some(u) && is_uuid_text(u@) && final(t)@ == type_with_mark(old(t)@, u@),
{
    match t {
        XmlAttributesType::ArrayTypeAttributes(info) => get_attr_mark_case_attr_reg_arr(info),
        XmlAttributesType::ObjectAttributes(info) => get_attr_mark_case_attr_reg_obj(info),
        XmlAttributesType::NoAttribute(info) => get_attr_mark_case_only_none_attr_reg(info),
    }
}

/// Writes down a new place-holder id for an element named `key` so that attributes found
/// later for the key can be put in its opening tag. The map is taken from the field
/// `xml_attr_map_num` places from the top of the stack and the nesting kind from the field
/// `xml_attr_type_num` places from the top. Returns the new id, or `None` when the stack is
/// too shallow or the map does not exist.
pub fn get_attributes_mark(state: &mut State, key: &String, field_pos_with_rel_map: FieldPositionNumForMap) -> (r: Option<String>)
    requires
        1 <= field_pos_with_rel_map.xml_attr_map_num,
        1 <= field_pos_with_rel_map.xml_attr_type_num,
        old(state)@.fields.len() >= field_pos_with_rel_map.xml_attr_map_num ==> old(state)@.fields.len()
            >= field_pos_with_rel_map.xml_attr_type_num,
    ensures
        exists|u: Seq<char>|
            is_uuid_text(u) && #[trigger] mark_outcome(
                old(state)@,
                key@,
                field_pos_with_rel_map,
                u,
                opt_string_view(r),
                final(state)@,
            ),
{
    if state.fields.len() < field_pos_with_rel_map.xml_attr_map_num {
        proof {
            let u = "00000000-0000-0000-0000-000000000000"@;
            reveal_strlit("00000000-0000-0000-0000-000000000000");
            assert(is_uuid_text(u));
            assert(mark_outcome(old(state)@, key@, field_pos_with_rel_map, u, None, state@));
        }
        return None;
    }
    let map_index_ = state.fields.len() - field_pos_with_rel_map.xml_attr_map_num;
    let type_index_ = state.fields.len() - field_pos_with_rel_map.xml_attr_type_num;
    let map_id = state.fields[map_index_].xml_attributes_map_id.clone();
    let map_key = XmlAttributesMapKey {
        attribute_base_name: key.clone(),
        attribute_type: state.fields[type_index_].nesting_state,
    };
    match find_map_entry(&state.xml_attributes_map, &map_id) {
        Some(i) => {
            proof {
                assert(map_entries_view(state.xml_attributes_map@)[i as int].attributes == type_entries_view(
                    state.xml_attributes_map@[i as int].attributes@,
                ));
            }
            match find_type_entry(&state.xml_attributes_map[i].attributes, &map_key) {
                Some(j) => {
                    let r = mark_found_entry(&mut state.xml_attributes_map[i].attributes[j].value);
                    proof {
                        lemma_place_updated(old(state), state, i, j);
                        let u = r->0@;
                        assert(mark_outcome(old(state)@, key@, field_pos_with_rel_map, u, Some(u), state@));
                    }
                    r
                },
                None => {
                    let unique_id = new_uuid_string();
                    let mut ids: Vec<String> = Vec::new();
                    ids.push(unique_id.clone());
                    let ghost u = unique_id@;
                    let new_key_infos = XmlAttributesType::NoAttribute(XmlAttributeNoAttributeInfo { unique_key_ids: ids });
                    proof {
                        assert(strings_view(ids@) =~= seq![u]);
                    }
                    let ghost kv = map_key@;
                    insert_type_entry(&mut state.xml_attributes_map[i].attributes, map_key, new_key_infos);
                    proof {
                        let m = old(state)@.xml_attributes_map;
                        assert(map_entries_view(state.xml_attributes_map@) =~= m.update(
                            i as int,
                            XmlAttributesMapEntryView {
                                attributes: type_inserted(m[i as int].attributes, kv, XmlAttributesTypeView::NoAttribute(seq![u])),
                                ..m[i as int]
                            },
                        ));
                        assert(mark_outcome(old(state)@, key@, field_pos_with_rel_map, u, Some(u), state@));
                    }
                    Some(unique_id)
                },
            }
        },
        None => {
            proof {
                let u = "00000000-0000-0000-0000-000000000000"@;
                reveal_strlit("00000000-0000-0000-0000-000000000000");
                assert(is_uuid_text(u));
                assert(mark_outcome(old(state)@, key@, field_pos_with_rel_map, u, None, state@));
            }
            None
        },
    }
}

} // verus!
