use vstd::prelude::*;

use crate::bindings::{is_uuid_text, new_uuid_string};
use crate::text::opt_string_view;
use crate::json_to_xml::models::NestingState;
use crate::json_to_xml::state::{State, StateView};
use super::{attr_position, attr_type_of, attr_type_set, find_attributes_position};
use super::maps::{find_map_entry, insert_type_entry};
use super::models::{
    attr_lists_view, attrs_view, map_entries_view, map_index, strings_view, type_entries_view,
    type_inserted, AttributeObjectPairs, XmlAttributeArrayinfo, XmlAttributeArrayinfoView,
    XmlAttributeNoAttributeInfo, XmlAttributeObjectInfo, XmlAttributeObjectInfoView,
    XmlAttributesBasicInfo, XmlAttributesMapEntryView, XmlAttributesMapKeyView, XmlAttributesType,
    XmlAttributesTypeView,
};
use super::xml_attributes_update::lemma_place_updated;

verus! {

/// A fresh array group holding the place-holder ids `ids`, with group id `object_id`.
pub open spec fn fresh_array_group(
    ids: Seq<Seq<char>>,
    object_id: Seq<char>,
    has_none_attribute_obj: bool,
) -> XmlAttributesTypeView {
    XmlAttributesTypeView::ArrayTypeAttributes(
        XmlAttributeArrayinfoView {
            attributes: Seq::empty(),
            unique_key_ids: ids,
            object_id: object_id,
            current_item_index: 0,
            object_pairs_info: AttributeObjectPairs { has_attribute_obj: true, has_none_attribute_obj },
        },
    )
}

/// A fresh object group holding the place-holder ids `ids`, with group id `object_id`.
pub open spec fn fresh_object_group(
    ids: Seq<Seq<char>>,
    object_id: Seq<char>,
    has_none_attribute_obj: bool,
) -> XmlAttributesTypeView {
    XmlAttributesTypeView::ObjectAttributes(
        XmlAttributeObjectInfoView {
            attributes: Seq::empty(),
            unique_key_ids: ids,
            object_id: object_id,
            object_pairs_info: AttributeObjectPairs { has_attribute_obj: true, has_none_attribute_obj },
        },
    )
}

/// The maps with `v` stored under `key` in map `id`, when that map exists.
pub open spec fn maps_with_type(
    m: Seq<XmlAttributesMapEntryView>,
    id: Seq<char>,
    key: XmlAttributesMapKeyView,
    v: XmlAttributesTypeView,
) -> Seq<XmlAttributesMapEntryView> {
    let i = map_index(m, id);
    if i >= 0 {
        m.update(i, XmlAttributesMapEntryView { attributes: type_inserted(m[i].attributes, key, v), ..m[i] })
    } else {
        m
    }
}

/// The group id written before and after the tags of the group that `t` describes, if any.
pub open spec fn closing_object_id(t: Option<XmlAttributesTypeView>) -> Option<Seq<char>> {
    match t {
        Some(XmlAttributesTypeView::ArrayTypeAttributes(a)) => Some(a.object_id),
        Some(XmlAttributesTypeView::ObjectAttributes(o)) => Some(o.object_id),
        _ => None,
    }
}

fn get_atrributes_object_id_case_already_arr_attr(xml_attr_info: &XmlAttributeArrayinfo) -> (r: Option<String>)
    ensures
        r matches Some(s) && s@ == xml_attr_info.object_id@,
{
    Some(xml_attr_info.object_id.clone())
}

fn copy_strings(v: &Vec<String>) -> (r: Vec<String>)
    ensures
        strings_view(r@) == strings_view(v@),
{
    let mut r: Vec<String> = Vec::new();
    let mut i: usize = 0;
    while i < v.len()
        invariant
            i <= v.len(),
            r@.len() == i,
            forall|k: int| 0 <= k < i ==> (#[trigger] r@[k])@ == v@[k]@,
        decreases v.len() - i,
    {
        let c = v[i].clone();
        r.push(c);
        i = i + 1;
    }
    proof {
        assert(strings_view(r@) =~= strings_view(v@));
    }
    r
}

fn get_atrributes_object_id_case_no_attr_arr(
    xml_attr_type: &mut XmlAttributesType,
    xml_attr_info: &XmlAttributeNoAttributeInfo,
) -> (r: Option<String>)
    ensures
        r matches Some(s) && is_uuid_text(s@) && final(xml_attr_type)@ == fresh_array_group(
            strings_view(xml_attr_info.unique_key_ids@),
            s@,
            true,
        ),
{
    let object_id = new_uuid_string();
    let attributes: Vec<Vec<super::models::XmlAttribute>> = Vec::new();
    proof {
        assert(attr_lists_view(attributes@) =~= Seq::empty());
    }
    let array_attributes_info = XmlAttributesType::ArrayTypeAttributes(
        XmlAttributeArrayinfo {
            unique_key_ids: copy_strings(&xml_attr_info.unique_key_ids),
            object_id: object_id.clone(),
            attributes,
            current_item_index: 0,
            object_pairs_info: AttributeObjectPairs { has_attribute_obj: true, has_none_attribute_obj: true },
        },
    );
    *xml_attr_type = array_attributes_info;
    Some(object_id)
}

fn get_atrributes_object_id_case_no_attr_obj(
    xml_attr_type: &mut XmlAttributesType,
    xml_attr_info: &XmlAttributeNoAttributeInfo,
) -> (r: Option<String>)
    ensures
        r matches Some(s) && is_uuid_text(s@) && final(xml_attr_type)@ == fresh_object_group(
            strings_view(xml_attr_info.unique_key_ids@),
            s@,
            true,
        ),
{
    let object_id = new_uuid_string();
    let attributes: Vec<super::models::XmlAttribute> = Vec::new();
    proof {
        assert(attrs_view(attributes@) =~= Seq::empty());
    }
    let object_attributes_info = XmlAttributesType::ObjectAttributes(
        XmlAttributeObjectInfo {
            unique_key_ids: copy_strings(&xml_attr_info.unique_key_ids),
            object_id: object_id.clone(),
            attributes,
            object_pairs_info: AttributeObjectPairs { has_attribute_obj: true, has_none_attribute_obj: true },
        },
    );
    *xml_attr_type = object_attributes_info;
    Some(object_id)
}

fn insert_into_map(state: &mut State, basic_info: &XmlAttributesBasicInfo, v: XmlAttributesType)
    ensures
        final(state)@ == (StateView {
            xml_attributes_map: maps_with_type(
                old(state)@.xml_attributes_map,
                basic_info.attr_id@,
                basic_info.current_key@,
                v@,
            ),
            ..old(state)@
        }),
{
    match find_map_entry(&state.xml_attributes_map, &basic_info.attr_id) {
        Some(i) => {
            let key = XmlAttributesMapKey_copy(&basic_info.current_key);
            let ghost vv = v@;
            insert_type_entry(&mut state.xml_attributes_map[i].attributes, key, v);
            proof {
                let m = old(state)@.xml_attributes_map;
                assert(map_entries_view(state.xml_attributes_map@) =~= m.update(
                    i as int,
                    XmlAttributesMapEntryView {
                        attributes: type_inserted(m[i as int].attributes, basic_info.current_key@, vv),
                        ..m[i as int]
                    },
                ));
            }
        },
        None => {},
    }
}

#[allow(non_snake_case)]
fn XmlAttributesMapKey_copy(k: &super::models::XmlAttributesMapKey) -> (r: super::models::XmlAttributesMapKey)
    ensures
        r@ == k@,
{
    super::models::XmlAttributesMapKey {
        attribute_base_name: k.attribute_base_name.clone(),
        attribute_type: k.attribute_type,
    }
}

fn get_atrributes_object_id_case_not_in_dict_arr(state: &mut State, basic_info: &XmlAttributesBasicInfo) -> (r: Option<String>)
    ensures
        r matches Some(s) && is_uuid_text(s@) && final(state)@ == (StateView {
            xml_attributes_map: maps_with_type(
                old(state)@.xml_attributes_map,
                basic_info.attr_id@,
                basic_info.current_key@,
                fresh_array_group(Seq::empty(), s@, false),
            ),
            ..old(state)@
        }),
{
    let object_id = new_uuid_string();
    let info = XmlAttributeArrayinfo {
        unique_key_ids: Vec::new(),
        object_id: object_id.clone(),
        attributes: Vec::new(),
        current_item_index: 0,
        object_pairs_info: AttributeObjectPairs { has_attribute_obj: true, has_none_attribute_obj: false },
    };
    proof {
        assert(attr_lists_view(info.attributes@) =~= Seq::empty());
        assert(strings_view(info.unique_key_ids@) =~= Seq::empty());
    }
    insert_into_map(state, basic_info, XmlAttributesType::ArrayTypeAttributes(info));
    Some(object_id)
}

fn get_atrributes_object_id_case_not_in_dict_obj(state: &mut State, basic_info: &XmlAttributesBasicInfo) -> (r: Option<String>)
    ensures
        r matches Some(s) && is_uuid_text(s@) && exists|u: Seq<char>|
            is_uuid_text(u) && final(state)@ == (StateView {
                xml_attributes_map: maps_with_type(
                    old(state)@.xml_attributes_map,
                    basic_info.attr_id@,
                    basic_info.current_key@,
                    fresh_object_group(seq![u], s@, false),
                ),
                ..old(state)@
            }),
{
    let object_id = new_uuid_string();
    let unique_id = new_uuid_string();
    let ghost u = unique_id@;
    let mut ids: Vec<String> = Vec::new();
    ids.push(unique_id);
    let info = XmlAttributeObjectInfo {
        unique_key_ids: ids,
        object_id: object_id.clone(),
        attributes: Vec::new(),
        object_pairs_info: AttributeObjectPairs { has_attribute_obj: true, has_none_attribute_obj: false },
    };
    proof {
        assert(attrs_view(info.attributes@) =~= Seq::empty());
        assert(strings_view(info.unique_key_ids@) =~= seq![u]);
    }
    insert_into_map(state, basic_info, XmlAttributesType::ObjectAttributes(info));
    Some(object_id)
}

/// What `get_attributes_object_id` returns and leaves behind, for result `r` and new state `t`.
pub open spec fn object_id_outcome(
    s: StateView,
    basic_info: XmlAttributesBasicInfo,
    r: Option<Seq<char>>,
    t: StateView,
) -> bool {
    let m = s.xml_attributes_map;
    let id = basic_info.attr_id@;
    let key = basic_info.current_key@;
    match attr_position(m, id, key) {
        Some(pos) => match (attr_type_of(m, id, key)->0, key.attribute_type) {
            (XmlAttributesTypeView::NoAttribute(ids), NestingState::JsonArrayNestingState) =>
                r matches Some(o) && is_uuid_text(o) && t == (StateView {
                    xml_attributes_map: attr_type_set(m, pos, fresh_array_group(ids, o, true)),
                    ..s
                }),
            (XmlAttributesTypeView::NoAttribute(ids), NestingState::JsonObjectNestinState) =>
                r matches Some(o) && is_uuid_text(o) && t == (StateView {
                    xml_attributes_map: attr_type_set(m, pos, fresh_object_group(ids, o, true)),
                    ..s
                }),
            (XmlAttributesTypeView::ArrayTypeAttributes(a), NestingState::JsonArrayNestingState) =>
                r matches Some(o) && o == a.object_id && t == s,
            _ => r is None && t == s,
        },
        None => match key.attribute_type {
            NestingState::JsonObjectNestinState =>
                r matches Some(o) && is_uuid_text(o) && exists|u: Seq<char>|
                    is_uuid_text(u) && t == (StateView {
                        xml_attributes_map: maps_with_type(m, id, key, fresh_object_group(seq![u], o, false)),
                        ..s
                    }),
            NestingState::JsonArrayNestingState =>
                r matches Some(o) && is_uuid_text(o) && t == (StateView {
                    xml_attributes_map: maps_with_type(m, id, key, fresh_array_group(Seq::empty(), o, false)),
                    ..s
                }),
        },
    }
}

/// The group id to write before the opening tag of an attribute group, creating the group's
/// record when needed: a key known without attributes becomes an array or object group under a
/// new random id; an array group keeps its id; a key not yet known gets a new group (an object
/// group with one new place-holder id, or an empty array group) in its map, if that map exists.
/// An object group already known yields `None`, as does an array group in object position.
pub fn get_attributes_object_id(state: &mut State, basic_info: &XmlAttributesBasicInfo) -> (r: Option<String>)
    ensures
        object_id_outcome(old(state)@, *basic_info, opt_string_view(r), final(state)@),
{
    match find_attributes_position(state, basic_info) {
        Some((i, j)) => {
            let kind = basic_info.current_key.attribute_type;
            let r = match &state.xml_attributes_map[i].attributes[j].value {
                XmlAttributesType::NoAttribute(info) => {
                    let copy = XmlAttributeNoAttributeInfo { unique_key_ids: copy_strings(&info.unique_key_ids) };
                    match kind {
                        NestingState::JsonArrayNestingState => {
                            let r = get_atrributes_object_id_case_no_attr_arr(
                                &mut state.xml_attributes_map[i].attributes[j].value,
                                &copy,
                            );
                            proof {
                                lemma_place_updated(old(state), state, i, j);
                            }
                            r
                        },
                        NestingState::JsonObjectNestinState => {
                            let r = get_atrributes_object_id_case_no_attr_obj(
                                &mut state.xml_attributes_map[i].attributes[j].value,
                                &copy,
                            );
                            proof {
                                lemma_place_updated(old(state), state, i, j);
                            }
                            r
                        },
                    }
                },
                XmlAttributesType::ArrayTypeAttributes(info) => {
                    match kind {
                        NestingState::JsonArrayNestingState => get_atrributes_object_id_case_already_arr_attr(info),
                        _ => None,
                    }
                },
                _ => None,
            };
            r
        },
        None => {
            match basic_info.current_key.attribute_type {
                NestingState::JsonObjectNestinState => get_atrributes_object_id_case_not_in_dict_obj(state, basic_info),
                NestingState::JsonArrayNestingState => get_atrributes_object_id_case_not_in_dict_arr(state, basic_info),
            }
        },
    }
}

/// The group id to write after the closing tag of an attribute group, if the key has a group.
pub fn get_attributes_object_id_for_closing_tag(state: &State, basic_info: &XmlAttributesBasicInfo) -> (r: Option<String>)
    ensures
        match closing_object_id(
            attr_type_of(state@.xml_attributes_map, basic_info.attr_id@, basic_info.current_key@),
        ) {
            Some(o) => r matches Some(s) && s@ == o,
            None => r is None,
        },
{
    match find_attributes_position(state, basic_info) {
        Some((i, j)) => match &state.xml_attributes_map[i].attributes[j].value {
            XmlAttributesType::ArrayTypeAttributes(xml_attr_info) => Some(xml_attr_info.object_id.clone()),
            XmlAttributesType::ObjectAttributes(xml_attr_info) => Some(xml_attr_info.object_id.clone()),
            XmlAttributesType::NoAttribute(_) => None,
        },
        None => None,
    }
}

} // verus!
