use vstd::prelude::*;

use crate::json_to_xml::state::{State, StateView};
use crate::text::{replace_all, replaced};
use super::{attr_position, attr_type_of, attr_type_set, find_attributes_position};
use super::models::{
    strings_view, XmlAttributeArrayinfo, XmlAttributeNoAttributeInfo, XmlAttributeObjectInfo,
    XmlAttributesBasicInfo, XmlAttributesType, XmlAttributesTypeView,
};
use super::xml_attributes_update::lemma_place_updated;

verus! {

/// The state after the attribute group that `basic_info` points at is given up: an array or
/// object group falls back to a plain key keeping its place-holder ids, and its group id is
/// deleted from the output.
pub open spec fn aborted(s: StateView, basic_info: XmlAttributesBasicInfo) -> StateView {
    let m = s.xml_attributes_map;
    let id = basic_info.attr_id@;
    let key = basic_info.current_key@;
    match attr_position(m, id, key) {
        Some(pos) => match attr_type_of(m, id, key)->0 {
            XmlAttributesTypeView::ObjectAttributes(o) => StateView {
                xml_attributes_map: attr_type_set(m, pos, XmlAttributesTypeView::NoAttribute(o.unique_key_ids)),
                curr_xml: if o.object_id.len() > 0 { replaced(s.curr_xml, o.object_id, Seq::empty()) } else { s.curr_xml },
                ..s
            },
            XmlAttributesTypeView::ArrayTypeAttributes(a) => StateView {
                xml_attributes_map: attr_type_set(m, pos, XmlAttributesTypeView::NoAttribute(a.unique_key_ids)),
                curr_xml: if a.object_id.len() > 0 { replaced(s.curr_xml, a.object_id, Seq::empty()) } else { s.curr_xml },
                ..s
            },
            _ => s,
        },
        None => s,
    }
}

fn copy_ids(v: &Vec<String>) -> (r: Vec<String>)
    ensures
        strings_view(r@) == strings_view(v@),
{
    let mut r: Vec<String> = Vec::new();
    let mut i: usize = 0;
    while i < v.len()
        invariant
            i <= v.len(),
            r@.len() == i,
            forall|k: int| 0 <= k < i ==> (#[trigger] r@[k])@ == v@[k]@,
        decreases v.len() - i,
    {
        let c = v[i].clone();
        r.push(c);
        i = i + 1;
    }
    proof {
        assert(strings_view(r@) =~= strings_view(v@));
    }
    r
}

fn abort_attributes_case_obj(xml_attr_type: &mut XmlAttributesType, xml_attr_info: &XmlAttributeObjectInfo) -> (r: String)
    ensures
        final(xml_attr_type)@ == XmlAttributesTypeView::NoAttribute(xml_attr_info@.unique_key_ids),
        r@ == xml_attr_info.object_id@,
{
    let obj_new_info = XmlAttributesType::NoAttribute(
        XmlAttributeNoAttributeInfo { unique_key_ids: copy_ids(&xml_attr_info.unique_key_ids) },
    );
    *xml_attr_type = obj_new_info;
    xml_attr_info.object_id.clone()
}

fn abort_attributes_case_attr(xml_attr_type: &mut XmlAttributesType, xml_attr_info: &XmlAttributeArrayinfo) -> (r: String)
    ensures
        final(xml_attr_type)@ == XmlAttributesTypeView::NoAttribute(xml_attr_info@.unique_key_ids),
        r@ == xml_attr_info.object_id@,
{
    let attr_new_info = XmlAttributesType::NoAttribute(
        XmlAttributeNoAttributeInfo { unique_key_ids: copy_ids(&xml_attr_info.unique_key_ids) },
    );
    *xml_attr_type = attr_new_info;
    xml_attr_info.object_id.clone()
}

/// Gives up the attribute group that `basic_info` points at (see [`aborted`]).
pub fn abort_attributes(state: &mut State, basic_info: &XmlAttributesBasicInfo)
    ensures
        final(state)@ == aborted(old(state)@, *basic_info),
{
    let mut object_id_to_remove = String::new();
    match find_attributes_position(state, basic_info) {
        Some((i, j)) => {
            let kind: u8 = match &state.xml_attributes_map[i].attributes[j].value {
                XmlAttributesType::ObjectAttributes(_) => 0,
                XmlAttributesType::ArrayTypeAttributes(_) => 1,
                XmlAttributesType::NoAttribute(_) => 2,
            };
            if kind == 0 {
                let info = match &state.xml_attributes_map[i].attributes[j].value {
                    XmlAttributesType::ObjectAttributes(o) => XmlAttributeObjectInfo {
                        attributes: Vec::new(),
                        unique_key_ids: copy_ids(&o.unique_key_ids),
                        object_id: o.object_id.clone(),
                        object_pairs_info: o.object_pairs_info,
                    },
                    _ => {
                        proof {
                            assert(false);
                        }
                        XmlAttributeObjectInfo {
                            attributes: Vec::new(),
                            unique_key_ids: Vec::new(),
                            object_id: String::new(),
                            object_pairs_info: super::models::AttributeObjectPairs {
                                has_attribute_obj: false,
                                has_none_attribute_obj: false,
                            },
                        }
                    },
                };
                object_id_to_remove = abort_attributes_case_obj(&mut state.xml_attributes_map[i].attributes[j].value, &info);
                proof {
                    lemma_place_updated(old(state), state, i, j);
                }
            } else if kind == 1 {
                let info = match &state.xml_attributes_map[i].attributes[j].value {
                    XmlAttributesType::ArrayTypeAttributes(a) => XmlAttributeArrayinfo {
                        attributes: Vec::new(),
                        unique_key_ids: copy_ids(&a.unique_key_ids),
                        object_id: a.object_id.clone(),
                        current_item_index: a.current_item_index,
                        object_pairs_info: a.object_pairs_info,
                    },
                    _ => {
                        proof {
                            assert(false);
                        }
                        XmlAttributeArrayinfo {
                            attributes: Vec::new(),
                            unique_key_ids: Vec::new(),
                            object_id: String::new(),
                            current_item_index: 0,
                            object_pairs_info: super::models::AttributeObjectPairs {
                                has_attribute_obj: false,
                                has_none_attribute_obj: false,
                            },
                        }
                    },
                };
                object_id_to_remove = abort_attributes_case_attr(&mut state.xml_attributes_map[i].attributes[j].value, &info);
                proof {
                    lemma_place_updated(old(state), state, i, j);
                }
            }
        },
        None => (),
    }
    if !object_id_to_remove.as_str().is_empty() {
        state.curr_xml = replace_all(state.curr_xml.as_str(), object_id_to_remove.as_str(), "");
        proof {
            reveal_strlit("");
            assert(""@ =~= Seq::<char>::empty());
        }
    }
}

} // verus!
