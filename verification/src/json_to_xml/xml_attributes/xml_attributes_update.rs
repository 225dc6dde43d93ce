use vstd::prelude::*;

use crate::json_to_xml::state::{State, StateView};
use super::{attr_position, attr_type_of, attr_type_set, find_attributes_position};
use super::models::{
    map_entries_view, type_entries_view, XmlAttributesTypeEntryView, attrs_view, attr_lists_view, XmlAttribute, XmlAttributeArrayinfo, XmlAttributeArrayinfoView,
    XmlAttributeObjectInfo, XmlAttributeObjectInfoView, XmlAttributeView, XmlAttributesBasicInfo,
    XmlAttributesType, XmlAttributesTypeView,
};

verus! {

/// An attribute named `key` with an empty value.
pub open spec fn new_attribute(key: Seq<char>) -> XmlAttributeView {
    XmlAttributeView { key: key, value: Seq::empty() }
}

/// An array group after a new key: it starts a new item list unless the last list is the current item's.
pub open spec fn arr_with_key(a: XmlAttributeArrayinfoView, key: Seq<char>) -> XmlAttributeArrayinfoView {
    let n = a.attributes.len();
    if n == 0 || n - 1 != a.current_item_index {
        XmlAttributeArrayinfoView { attributes: a.attributes.push(seq![new_attribute(key)]), ..a }
    } else {
        XmlAttributeArrayinfoView {
            attributes: a.attributes.update(n - 1, a.attributes[n - 1].push(new_attribute(key))),
            ..a
        }
    }
}

/// An object group after a new key.
pub open spec fn obj_with_key(o: XmlAttributeObjectInfoView, key: Seq<char>) -> XmlAttributeObjectInfoView {
    XmlAttributeObjectInfoView { attributes: o.attributes.push(new_attribute(key)), ..o }
}

/// The attribute information after a new key.
pub open spec fn type_with_key(t: XmlAttributesTypeView, key: Seq<char>) -> XmlAttributesTypeView {
    match t {
        XmlAttributesTypeView::ArrayTypeAttributes(a) => XmlAttributesTypeView::ArrayTypeAttributes(arr_with_key(a, key)),
        XmlAttributesTypeView::ObjectAttributes(o) => XmlAttributesTypeView::ObjectAttributes(obj_with_key(o, key)),
        XmlAttributesTypeView::NoAttribute(n) => XmlAttributesTypeView::NoAttribute(n),
    }
}

/// An array group after a value: it goes to the last attribute of the current item, if there is one.
pub open spec fn arr_with_value(a: XmlAttributeArrayinfoView, value: Seq<char>) -> XmlAttributeArrayinfoView {
    let n = a.attributes.len();
    if n >= 1 && n - 1 == a.current_item_index && a.attributes[n - 1].len() > 0 {
        let l = a.attributes[n - 1];
        let m = l.len();
        XmlAttributeArrayinfoView {
            attributes: a.attributes.update(n - 1, l.update(m - 1, XmlAttributeView { value: value, ..l[m - 1] })),
            ..a
        }
    } else {
        a
    }
}

/// An object group after a value: it goes to the last attribute, if there is one.
pub open spec fn obj_with_value(o: XmlAttributeObjectInfoView, value: Seq<char>) -> XmlAttributeObjectInfoView {
    let m = o.attributes.len();
    if m > 0 {
        XmlAttributeObjectInfoView {
            attributes: o.attributes.update(m - 1, XmlAttributeView { value: value, ..o.attributes[m - 1] }),
            ..o
        }
    } else {
        o
    }
}

/// The attribute information after a value.
pub open spec fn type_with_value(t: XmlAttributesTypeView, value: Seq<char>) -> XmlAttributesTypeView {
    match t {
        XmlAttributesTypeView::ArrayTypeAttributes(a) => XmlAttributesTypeView::ArrayTypeAttributes(arr_with_value(a, value)),
        XmlAttributesTypeView::ObjectAttributes(o) => XmlAttributesTypeView::ObjectAttributes(obj_with_value(o, value)),
        XmlAttributesTypeView::NoAttribute(n) => XmlAttributesTypeView::NoAttribute(n),
    }
}

/// The attribute information after moving to the next array item.
pub open spec fn type_with_next_index(t: XmlAttributesTypeView) -> XmlAttributesTypeView {
    match t {
        XmlAttributesTypeView::ArrayTypeAttributes(a) => XmlAttributesTypeView::ArrayTypeAttributes(
            XmlAttributeArrayinfoView { current_item_index: (a.current_item_index + 1) as usize, ..a },
        ),
        _ => t,
    }
}

/// The state after applying `f` to the information that `basic_info` points at, if it exists.
pub open spec fn state_with_type(
    s: StateView,
    basic_info: XmlAttributesBasicInfo,
    f: spec_fn(XmlAttributesTypeView) -> XmlAttributesTypeView,
) -> StateView {
    match attr_position(s.xml_attributes_map, basic_info.attr_id@, basic_info.current_key@) {
        Some(pos) => StateView {
            xml_attributes_map: attr_type_set(
                s.xml_attributes_map,
                pos,
                f(attr_type_of(s.xml_attributes_map, basic_info.attr_id@, basic_info.current_key@)->0),
            ),
            ..s
        },
        None => s,
    }
}

/// After a change of the information at `(i, j)` alone, the maps' view is `attr_type_set` of it.
pub proof fn lemma_place_updated(a: &State, b: &State, i: usize, j: usize)
    requires
        i < a.xml_attributes_map.len(),
        j < a.xml_attributes_map@[i as int].attributes.len(),
        b.xml_attributes_map@ == a.xml_attributes_map@.update(i as int, b.xml_attributes_map@[i as int]),
        b.xml_attributes_map@[i as int].map_id == a.xml_attributes_map@[i as int].map_id,
        b.xml_attributes_map@[i as int].attributes@ == a.xml_attributes_map@[i as int].attributes@.update(
            j as int,
            b.xml_attributes_map@[i as int].attributes@[j as int],
        ),
        b.xml_attributes_map@[i as int].attributes@[j as int].key == a.xml_attributes_map@[i as int].attributes@[j as int].key,
        b.fields == a.fields,
        b.curr_xml == a.curr_xml,
        b.curr_row_num == a.curr_row_num,
        b.curr_indent == a.curr_indent,
        b.xml_attributes == a.xml_attributes,
        b.to_snake_case == a.to_snake_case,
        b.root_name == a.root_name,
    ensures
        b@ == (StateView {
            xml_attributes_map: attr_type_set(
                a@.xml_attributes_map,
                (i as int, j as int),
                b.xml_attributes_map@[i as int].attributes@[j as int].value@,
            ),
            ..a@
        }),
{
    let m = a@.xml_attributes_map;
    let v = b.xml_attributes_map@[i as int].attributes@[j as int].value@;
    assert(type_entries_view(b.xml_attributes_map@[i as int].attributes@) =~= m[i as int].attributes.update(
        j as int,
        XmlAttributesTypeEntryView { value: v, ..m[i as int].attributes[j as int] },
    ));
    assert(map_entries_view(b.xml_attributes_map@) =~= attr_type_set(m, (i as int, j as int), v));
}

fn new_attr(xml_atrribute_key: &String) -> (r: XmlAttribute)
    ensures
        r@ == new_attribute(xml_atrribute_key@),
{
    XmlAttribute { xml_attribute_value: String::new(), xml_atrribute_key: xml_atrribute_key.clone() }
}

fn update_xmlattribute_key_arr(xml_atrribute_key: &String, array_type_info: &mut XmlAttributeArrayinfo)
    ensures
        final(array_type_info)@ == arr_with_key(old(array_type_info)@, xml_atrribute_key@),
{
    let new_attr = new_attr(xml_atrribute_key);
    if array_type_info.attributes.len() == 0 || array_type_info.attributes.len() - 1
        != array_type_info.current_item_index {
        let mut v: Vec<XmlAttribute> = Vec::new();
        v.push(new_attr);
        array_type_info.attributes.push(v);
        proof {
            assert(attrs_view(v@) =~= seq![new_attribute(xml_atrribute_key@)]);
            assert(attr_lists_view(array_type_info.attributes@) =~= attr_lists_view(
                old(array_type_info).attributes@,
            ).push(seq![new_attribute(xml_atrribute_key@)]));
        }
    } else {
        let last_indx = array_type_info.attributes.len() - 1;
        array_type_info.attributes[last_indx].push(new_attr);
        proof {
            let n = old(array_type_info).attributes@.len();
            assert(attrs_view(array_type_info.attributes@[last_indx as int]@) =~= attrs_view(
                old(array_type_info).attributes@[last_indx as int]@,
            ).push(new_attribute(xml_atrribute_key@)));
            assert(attr_lists_view(array_type_info.attributes@) =~= attr_lists_view(
                old(array_type_info).attributes@,
            ).update(
                n - 1,
                attr_lists_view(old(array_type_info).attributes@)[n - 1].push(
                    new_attribute(xml_atrribute_key@),
                ),
            ));
        }
    }
}

fn update_xmlattribute_key_obj(xml_atrribute_key: &String, object_type_info: &mut XmlAttributeObjectInfo)
    ensures
        final(object_type_info)@ == obj_with_key(old(object_type_info)@, xml_atrribute_key@),
{
    let a = new_attr(xml_atrribute_key);
    object_type_info.attributes.push(a);
    proof {
        assert(attrs_view(object_type_info.attributes@) =~= attrs_view(old(object_type_info).attributes@).push(
            new_attribute(xml_atrribute_key@),
        ));
    }
}

/// Adds a new attribute named `xml_atrribute_key` to an attribute group.
pub fn update_xml_attribute_key_found_entry(xml_atrribute_key: &String, xml_attributes_info: &mut XmlAttributesType)
    ensures
        final(xml_attributes_info)@ == type_with_key(old(xml_attributes_info)@, xml_atrribute_key@),
{
    match xml_attributes_info {
        XmlAttributesType::ArrayTypeAttributes(array_type_info) => {
            update_xmlattribute_key_arr(xml_atrribute_key, array_type_info)
        },
        XmlAttributesType::ObjectAttributes(object_type_info) => {
            update_xmlattribute_key_obj(xml_atrribute_key, object_type_info)
        },
        XmlAttributesType::NoAttribute(_) => (),
    }
}

/// Adds a new attribute named `xml_atrribute_key` to the group that `basic_info` points at.
pub fn update_xml_attribute_key(state: &mut State, basic_info: &XmlAttributesBasicInfo, xml_atrribute_key: &String)
    ensures
        final(state)@ == state_with_type(
            old(state)@,
            *basic_info,
            |t: XmlAttributesTypeView| type_with_key(t, xml_atrribute_key@),
        ),
{
    match find_attributes_position(state, basic_info) {
        Some((i, j)) => {
            update_xml_attribute_key_found_entry(xml_atrribute_key, &mut state.xml_attributes_map[i].attributes[j].value);
            proof {
                lemma_place_updated(old(state), state, i, j);
            }
        },
        None => (),
    }
}

fn update_xmlattribute_val_arr(xml_atrribute_value: &String, array_type_info: &mut XmlAttributeArrayinfo)
    ensures
        final(array_type_info)@ == arr_with_value(old(array_type_info)@, xml_atrribute_value@),
{
    if array_type_info.attributes.len() < 1 {
        return;
    }
    if array_type_info.attributes.len() - 1 == array_type_info.current_item_index {
        let last_indx_vec_of_vec = array_type_info.attributes.len() - 1;
        if array_type_info.attributes[last_indx_vec_of_vec].len() > 0 {
            let last_indx_vec = array_type_info.attributes[last_indx_vec_of_vec].len() - 1;
            array_type_info.attributes[last_indx_vec_of_vec][last_indx_vec].xml_attribute_value =
                xml_atrribute_value.clone();
            proof {
                let n = last_indx_vec_of_vec as int;
                let m = last_indx_vec as int;
                let l = attr_lists_view(old(array_type_info).attributes@)[n];
                assert(attrs_view(array_type_info.attributes@[n]@) =~= l.update(
                    m,
                    XmlAttributeView { value: xml_atrribute_value@, ..l[m] },
                ));
                assert(attr_lists_view(array_type_info.attributes@) =~= attr_lists_view(
                    old(array_type_info).attributes@,
                ).update(n, l.update(m, XmlAttributeView { value: xml_atrribute_value@, ..l[m] })));
            }
        }
    }
}

fn update_xmlattribute_val_obj(xml_atrribute_value: &String, object_type_info: &mut XmlAttributeObjectInfo)
    ensures
        final(object_type_info)@ == obj_with_value(old(object_type_info)@, xml_atrribute_value@),
{
    if object_type_info.attributes.len() > 0 {
        let last_indx = object_type_info.attributes.len() - 1;
        object_type_info.attributes[last_indx].xml_attribute_value = xml_atrribute_value.clone();
        proof {
            let l = attrs_view(old(object_type_info).attributes@);
            assert(attrs_view(object_type_info.attributes@) =~= l.update(
                last_indx as int,
                XmlAttributeView { value: xml_atrribute_value@, ..l[last_indx as int] },
            ));
        }
    }
}

/// Gives the last attribute of an attribute group the value `xml_atrribute_value`.
pub fn update_xml_attribute_val_found_entry(xml_atrribute_value: &String, xml_attributes_info: &mut XmlAttributesType)
    ensures
        final(xml_attributes_info)@ == type_with_value(old(xml_attributes_info)@, xml_atrribute_value@),
{
    match xml_attributes_info {
        XmlAttributesType::ArrayTypeAttributes(array_type_info) => {
            update_xmlattribute_val_arr(xml_atrribute_value, array_type_info)
        },
        XmlAttributesType::ObjectAttributes(object_type_info) => {
            update_xmlattribute_val_obj(xml_atrribute_value, object_type_info)
        },
        XmlAttributesType::NoAttribute(_) => (),
    }
}

/// Gives the last attribute of the group that `basic_info` points at the value `xml_atrribute_value`.
pub fn update_xml_attribute_value(state: &mut State, basic_info: &XmlAttributesBasicInfo, xml_atrribute_value: &String)
    ensures
        final(state)@ == state_with_type(
            old(state)@,
            *basic_info,
            |t: XmlAttributesTypeView| type_with_value(t, xml_atrribute_value@),
        ),
{
    match find_attributes_position(state, basic_info) {
        Some((i, j)) => {
            update_xml_attribute_val_found_entry(xml_atrribute_value, &mut state.xml_attributes_map[i].attributes[j].value);
            proof {
                lemma_place_updated(old(state), state, i, j);
            }
        },
        None => (),
    }
}

fn update_xmlattribute_arr_index(array_type_info: &mut XmlAttributeArrayinfo)
    requires
        old(array_type_info).current_item_index < usize::MAX,
    ensures
        final(array_type_info)@ == (XmlAttributeArrayinfoView {
            current_item_index: (old(array_type_info).current_item_index + 1) as usize,
            ..old(array_type_info)@
        }),
{
    array_type_info.current_item_index += 1;
}

/// Moves an array attribute group on to its next item.
pub fn update_xmlattribute_found_entry_arr_index(xml_attributes_info: &mut XmlAttributesType)
    requires
        old(xml_attributes_info)@ matches XmlAttributesTypeView::ArrayTypeAttributes(a) ==> a.current_item_index < usize::MAX,
    ensures
        final(xml_attributes_info)@ == type_with_next_index(old(xml_attributes_info)@),
{
    match xml_attributes_info {
        XmlAttributesType::ArrayTypeAttributes(array_type_info) => {
            update_xmlattribute_arr_index(array_type_info)
        },
        _ => (),
    }
}

/// Moves the array attribute group that `basic_info` points at on to its next item.
/// The item counter cannot overflow: a position past `usize::MAX` is refused with `false`.
pub fn update_xml_attribute_arr_index(state: &mut State, basic_info: &XmlAttributesBasicInfo) -> (r: bool)
    ensures
        r ==> final(state)@ == state_with_type(old(state)@, *basic_info, |t: XmlAttributesTypeView| type_with_next_index(t)),
        !r ==> final(state)@ == old(state)@,
        !r ==> (attr_type_of(old(state)@.xml_attributes_map, basic_info.attr_id@, basic_info.current_key@)
            matches Some(XmlAttributesTypeView::ArrayTypeAttributes(a)) && a.current_item_index == usize::MAX),
{
    match find_attributes_position(state, basic_info) {
        Some((i, j)) => {
            if let XmlAttributesType::ArrayTypeAttributes(a) = &state.xml_attributes_map[i].attributes[j].value {
                if a.current_item_index == usize::MAX {
                    return false;
                }
            }
            update_xmlattribute_found_entry_arr_index(&mut state.xml_attributes_map[i].attributes[j].value);
            proof {
                lemma_place_updated(old(state), state, i, j);
            }
            true
        },
        None => true,
    }
}

} // verus!
