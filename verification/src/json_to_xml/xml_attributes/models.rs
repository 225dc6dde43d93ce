use vstd::prelude::*;

use crate::json_to_xml::models::NestingState;

verus! {

/// One `key="value"` attribute.
pub struct XmlAttribute {
    pub xml_atrribute_key: String,
    pub xml_attribute_value: String,
}

/// Which kinds of sibling objects were seen for an attribute group.
#[derive(Clone, Copy, PartialEq, Eq, Structural)]
pub struct AttributeObjectPairs {
    pub has_attribute_obj: bool,
    pub has_none_attribute_obj: bool,
}

/// Attributes gathered from an `_attributes` object.
pub struct XmlAttributeObjectInfo {
    pub attributes: Vec<XmlAttribute>,
    pub unique_key_ids: Vec<String>,
    pub object_id: String,
    pub object_pairs_info: AttributeObjectPairs,
}

/// Attributes gathered from an `_attributes` array, one list per array item.
pub struct XmlAttributeArrayinfo {
    pub attributes: Vec<Vec<XmlAttribute>>,
    pub unique_key_ids: Vec<String>,
    pub object_id: String,
    pub current_item_index: usize,
    pub object_pairs_info: AttributeObjectPairs,
}

/// A key seen without attributes: only the place-holder ids written for it.
pub struct XmlAttributeNoAttributeInfo {
    pub unique_key_ids: Vec<String>,
}

/// A key or value of an attribute: still being read, or closed.
pub enum XmlAttributeKeyValueStages {
    Open(String),
    Closed,
}

/// Where the reading of an `_attributes` object stands.
pub enum XmlAttributesObjectStages {
    Init,
    Key(XmlAttributeKeyValueStages),
    NullValue(String),
    KeyValSeparator,
    Value(XmlAttributeKeyValueStages),
    KeyValFieldSeparator,
    End,
}

/// Where the reading of an `_attributes` array stands.
pub enum XmlAttributesArrayStages {
    Init,
    ObjectInit,
    Key(XmlAttributeKeyValueStages),
    KeyValSeparator,
    NullValue(String),
    Value(XmlAttributeKeyValueStages),
    ValueOfKeyNull(String),
    KeyValFieldSeparator,
    ObjectEnd,
    ObjectSeparator,
}

/// Where the reading of attributes stands.
pub enum XmlAttributesStages {
    Array(XmlAttributesArrayStages),
    Object(XmlAttributesObjectStages),
}

/// What is known about the attributes of one key.
pub enum XmlAttributesType {
    ArrayTypeAttributes(XmlAttributeArrayinfo),
    ObjectAttributes(XmlAttributeObjectInfo),
    NoAttribute(XmlAttributeNoAttributeInfo),
}

/// The key under which attribute information is kept: the element name and whether it sits in an array.
pub struct XmlAttributesMapKey {
    pub attribute_base_name: String,
    pub attribute_type: NestingState,
}

/// The attributes being read right now: under which key, in which map, at which stage.
pub struct XmlAttributesBasicInfo {
    pub current_key: XmlAttributesMapKey,
    pub attr_id: String,
    pub curr_stage: XmlAttributesStages,
}

/// Whether attributes are being read.
pub enum XmlAttributeState {
    NoAttributes,
    Attributes(XmlAttributesBasicInfo),
}

/// A stand-alone attribute map together with the reading state.
pub struct XmlAttributesInfo {
    pub xml_attributes_map: Vec<XmlAttributesTypeEntry>,
    pub current_state: XmlAttributeState,
}

/// The two place-holder ids of an attribute group.
pub struct XmlAttributesUniqIds {
    pub attr_id: String,
    pub attr_object_id: String,
}

/// One entry of an attribute map: the key and what is known under it.
pub struct XmlAttributesTypeEntry {
    pub key: XmlAttributesMapKey,
    pub value: XmlAttributesType,
}

/// The attribute map of one field, found by the field's map id.
pub struct XmlAttributesMapEntry {
    pub map_id: String,
    pub attributes: Vec<XmlAttributesTypeEntry>,
}

impl XmlAttributeKeyValueStages {
    pub fn copy(&self) -> (r: XmlAttributeKeyValueStages)
        ensures
            r == *self,
    {
        match self {
            XmlAttributeKeyValueStages::Open(s) => XmlAttributeKeyValueStages::Open(s.clone()),
            XmlAttributeKeyValueStages::Closed => XmlAttributeKeyValueStages::Closed,
        }
    }
}

impl XmlAttributesObjectStages {
    pub fn copy(&self) -> (r: XmlAttributesObjectStages)
        ensures
            r == *self,
    {
        match self {
            XmlAttributesObjectStages::Init => XmlAttributesObjectStages::Init,
            XmlAttributesObjectStages::Key(k) => XmlAttributesObjectStages::Key(k.copy()),
            XmlAttributesObjectStages::NullValue(s) => XmlAttributesObjectStages::NullValue(s.clone()),
            XmlAttributesObjectStages::KeyValSeparator => XmlAttributesObjectStages::KeyValSeparator,
            XmlAttributesObjectStages::Value(v) => XmlAttributesObjectStages::Value(v.copy()),
            XmlAttributesObjectStages::KeyValFieldSeparator => XmlAttributesObjectStages::KeyValFieldSeparator,
            XmlAttributesObjectStages::End => XmlAttributesObjectStages::End,
        }
    }
}

impl XmlAttributesArrayStages {
    pub fn copy(&self) -> (r: XmlAttributesArrayStages)
        ensures
            r == *self,
    {
        match self {
            XmlAttributesArrayStages::Init => XmlAttributesArrayStages::Init,
            XmlAttributesArrayStages::ObjectInit => XmlAttributesArrayStages::ObjectInit,
            XmlAttributesArrayStages::Key(k) => XmlAttributesArrayStages::Key(k.copy()),
            XmlAttributesArrayStages::KeyValSeparator => XmlAttributesArrayStages::KeyValSeparator,
            XmlAttributesArrayStages::NullValue(s) => XmlAttributesArrayStages::NullValue(s.clone()),
            XmlAttributesArrayStages::Value(v) => XmlAttributesArrayStages::Value(v.copy()),
            XmlAttributesArrayStages::ValueOfKeyNull(s) => XmlAttributesArrayStages::ValueOfKeyNull(s.clone()),
            XmlAttributesArrayStages::KeyValFieldSeparator => XmlAttributesArrayStages::KeyValFieldSeparator,
            XmlAttributesArrayStages::ObjectEnd => XmlAttributesArrayStages::ObjectEnd,
            XmlAttributesArrayStages::ObjectSeparator => XmlAttributesArrayStages::ObjectSeparator,
        }
    }
}

impl XmlAttributesStages {
    pub fn copy(&self) -> (r: XmlAttributesStages)
        ensures
            r == *self,
    {
        match self {
            XmlAttributesStages::Array(a) => XmlAttributesStages::Array(a.copy()),
            XmlAttributesStages::Object(o) => XmlAttributesStages::Object(o.copy()),
        }
    }
}

impl XmlAttributesMapKey {
    pub fn copy(&self) -> (r: XmlAttributesMapKey)
        ensures
            r == *self,
    {
        XmlAttributesMapKey { attribute_base_name: self.attribute_base_name.clone(), attribute_type: self.attribute_type }
    }
}

impl XmlAttributesBasicInfo {
    pub fn copy(&self) -> (r: XmlAttributesBasicInfo)
        ensures
            r == *self,
    {
        XmlAttributesBasicInfo {
            current_key: self.current_key.copy(),
            attr_id: self.attr_id.clone(),
            curr_stage: self.curr_stage.copy(),
        }
    }
}

impl XmlAttribute {
    pub fn copy(&self) -> (r: XmlAttribute)
        ensures
            r == *self,
    {
        XmlAttribute {
            xml_atrribute_key: self.xml_atrribute_key.clone(),
            xml_attribute_value: self.xml_attribute_value.clone(),
        }
    }
}

fn copy_attribute_list(v: &Vec<XmlAttribute>) -> (r: Vec<XmlAttribute>)
    ensures
        r@ == v@,
{
    let mut r: Vec<XmlAttribute> = Vec::new();
    let mut i: usize = 0;
    while i < v.len()
        invariant
            i <= v.len(),
            r@ == v@.take(i as int),
        decreases v.len() - i,
    {
        r.push(v[i].copy());
        proof {
            assert(r@ =~= v@.take(i + 1));
        }
        i = i + 1;
    }
    proof {
        assert(v@.take(v.len() as int) =~= v@);
    }
    r
}

fn copy_string_list(v: &Vec<String>) -> (r: Vec<String>)
    ensures
        r@ == v@,
{
    let mut r: Vec<String> = Vec::new();
    let mut i: usize = 0;
    while i < v.len()
        invariant
            i <= v.len(),
            r@ == v@.take(i as int),
        decreases v.len() - i,
    {
        r.push(v[i].clone());
        proof {
            assert(r@ =~= v@.take(i + 1));
        }
        i = i + 1;
    }
    proof {
        assert(v@.take(v.len() as int) =~= v@);
    }
    r
}

impl XmlAttributeObjectInfo {
    pub fn copy(&self) -> (r: XmlAttributeObjectInfo)
        ensures
            r@ == self@,
    {
        XmlAttributeObjectInfo {
            attributes: copy_attribute_list(&self.attributes),
            unique_key_ids: copy_string_list(&self.unique_key_ids),
            object_id: self.object_id.clone(),
            object_pairs_info: self.object_pairs_info,
        }
    }
}

impl XmlAttributeArrayinfo {
    pub fn copy(&self) -> (r: XmlAttributeArrayinfo)
        ensures
            r@ == self@,
    {
        let mut lists: Vec<Vec<XmlAttribute>> = Vec::new();
        let mut i: usize = 0;
        while i < self.attributes.len()
            invariant
                i <= self.attributes.len(),
                lists@.len() == i,
                forall|k: int| 0 <= k < i ==> (#[trigger] lists@[k])@ == self.attributes@[k]@,
            decreases self.attributes.len() - i,
        {
            lists.push(copy_attribute_list(&self.attributes[i]));
            i = i + 1;
        }
        proof {
            assert(attr_lists_view(lists@) =~= attr_lists_view(self.attributes@));
        }
        XmlAttributeArrayinfo {
            attributes: lists,
            unique_key_ids: copy_string_list(&self.unique_key_ids),
            object_id: self.object_id.clone(),
            current_item_index: self.current_item_index,
            object_pairs_info: self.object_pairs_info,
        }
    }
}

impl XmlAttributeNoAttributeInfo {
    pub fn copy(&self) -> (r: XmlAttributeNoAttributeInfo)
        ensures
            r.unique_key_ids@ == self.unique_key_ids@,
    {
        XmlAttributeNoAttributeInfo { unique_key_ids: copy_string_list(&self.unique_key_ids) }
    }
}

// ----- views -----

pub struct XmlAttributeView {
    pub key: Seq<char>,
    pub value: Seq<char>,
}

pub struct XmlAttributeObjectInfoView {
    pub attributes: Seq<XmlAttributeView>,
    pub unique_key_ids: Seq<Seq<char>>,
    pub object_id: Seq<char>,
    pub object_pairs_info: AttributeObjectPairs,
}

pub struct XmlAttributeArrayinfoView {
    pub attributes: Seq<Seq<XmlAttributeView>>,
    pub unique_key_ids: Seq<Seq<char>>,
    pub object_id: Seq<char>,
    pub current_item_index: usize,
    pub object_pairs_info: AttributeObjectPairs,
}

pub enum XmlAttributesTypeView {
    ArrayTypeAttributes(XmlAttributeArrayinfoView),
    ObjectAttributes(XmlAttributeObjectInfoView),
    NoAttribute(Seq<Seq<char>>),
}

pub struct XmlAttributesMapKeyView {
    pub attribute_base_name: Seq<char>,
    pub attribute_type: NestingState,
}

pub struct XmlAttributesTypeEntryView {
    pub key: XmlAttributesMapKeyView,
    pub value: XmlAttributesTypeView,
}

pub struct XmlAttributesMapEntryView {
    pub map_id: Seq<char>,
    pub attributes: Seq<XmlAttributesTypeEntryView>,
}

impl View for XmlAttribute {
    type V = XmlAttributeView;

    open spec fn view(&self) -> XmlAttributeView {
        XmlAttributeView { key: self.xml_atrribute_key@, value: self.xml_attribute_value@ }
    }
}

/// The views of a list of attributes.
pub open spec fn attrs_view(v: Seq<XmlAttribute>) -> Seq<XmlAttributeView> {
    v.map_values(|a: XmlAttribute| a@)
}

/// The views of a list of attribute lists.
pub open spec fn attr_lists_view(v: Seq<Vec<XmlAttribute>>) -> Seq<Seq<XmlAttributeView>> {
    v.map_values(|l: Vec<XmlAttribute>| attrs_view(l@))
}

/// The views of a list of strings.
pub open spec fn strings_view(v: Seq<String>) -> Seq<Seq<char>> {
    v.map_values(|s: String| s@)
}

impl View for XmlAttributeObjectInfo {
    type V = XmlAttributeObjectInfoView;

    open spec fn view(&self) -> XmlAttributeObjectInfoView {
        XmlAttributeObjectInfoView {
            attributes: attrs_view(self.attributes@),
            unique_key_ids: strings_view(self.unique_key_ids@),
            object_id: self.object_id@,
            object_pairs_info: self.object_pairs_info,
        }
    }
}

impl View for XmlAttributeArrayinfo {
    type V = XmlAttributeArrayinfoView;

    open spec fn view(&self) -> XmlAttributeArrayinfoView {
        XmlAttributeArrayinfoView {
            attributes: attr_lists_view(self.attributes@),
            unique_key_ids: strings_view(self.unique_key_ids@),
            object_id: self.object_id@,
            current_item_index: self.current_item_index,
            object_pairs_info: self.object_pairs_info,
        }
    }
}

impl View for XmlAttributesType {
    type V = XmlAttributesTypeView;

    open spec fn view(&self) -> XmlAttributesTypeView {
        match self {
            XmlAttributesType::ArrayTypeAttributes(a) => XmlAttributesTypeView::ArrayTypeAttributes(a@),
            XmlAttributesType::ObjectAttributes(o) => XmlAttributesTypeView::ObjectAttributes(o@),
            XmlAttributesType::NoAttribute(n) => XmlAttributesTypeView::NoAttribute(
                strings_view(n.unique_key_ids@),
            ),
        }
    }
}

impl View for XmlAttributesMapKey {
    type V = XmlAttributesMapKeyView;

    open spec fn view(&self) -> XmlAttributesMapKeyView {
        XmlAttributesMapKeyView {
            attribute_base_name: self.attribute_base_name@,
            attribute_type: self.attribute_type,
        }
    }
}

impl View for XmlAttributesTypeEntry {
    type V = XmlAttributesTypeEntryView;

    open spec fn view(&self) -> XmlAttributesTypeEntryView {
        XmlAttributesTypeEntryView { key: self.key@, value: self.value@ }
    }
}

impl View for XmlAttributesMapEntry {
    type V = XmlAttributesMapEntryView;

    open spec fn view(&self) -> XmlAttributesMapEntryView {
        XmlAttributesMapEntryView {
            map_id: self.map_id@,
            attributes: type_entries_view(self.attributes@),
        }
    }
}

/// The views of the entries of one attribute map.
pub open spec fn type_entries_view(v: Seq<XmlAttributesTypeEntry>) -> Seq<XmlAttributesTypeEntryView> {
    v.map_values(|e: XmlAttributesTypeEntry| e@)
}

/// The views of all attribute maps.
pub open spec fn map_entries_view(v: Seq<XmlAttributesMapEntry>) -> Seq<XmlAttributesMapEntryView> {
    v.map_values(|e: XmlAttributesMapEntry| e@)
}

/// The first position at which `p` holds in `s`, or -1.
pub open spec fn first_index_where<A>(s: Seq<A>, p: spec_fn(A) -> bool) -> int
    decreases s.len(),
{
    if s.len() == 0 {
        -1
    } else {
        let i = first_index_where(s.drop_last(), p);
        if i >= 0 {
            i
        } else if p(s.last()) {
            s.len() - 1
        } else {
            -1
        }
    }
}

/// The position of the attribute map with id `id`, or -1.
pub open spec fn map_index(m: Seq<XmlAttributesMapEntryView>, id: Seq<char>) -> int {
    first_index_where(m, |e: XmlAttributesMapEntryView| e.map_id == id)
}

/// `m` after `HashMap::insert` of `attrs` under `id`.
pub open spec fn map_inserted(
    m: Seq<XmlAttributesMapEntryView>,
    id: Seq<char>,
    attrs: Seq<XmlAttributesTypeEntryView>,
) -> Seq<XmlAttributesMapEntryView> {
    let i = map_index(m, id);
    let e = XmlAttributesMapEntryView { map_id: id, attributes: attrs };
    if i >= 0 {
        m.update(i, e)
    } else {
        m.push(e)
    }
}

/// `m` after `HashMap::remove` of `id`.
pub open spec fn map_removed(m: Seq<XmlAttributesMapEntryView>, id: Seq<char>) -> Seq<XmlAttributesMapEntryView> {
    let i = map_index(m, id);
    if i >= 0 {
        m.remove(i)
    } else {
        m
    }
}

/// The position of the entry with key `k` in one attribute map, or -1.
pub open spec fn type_index(t: Seq<XmlAttributesTypeEntryView>, k: XmlAttributesMapKeyView) -> int {
    first_index_where(t, |e: XmlAttributesTypeEntryView| e.key == k)
}

/// One attribute map after `HashMap::insert` of `v` under `k`.
pub open spec fn type_inserted(
    t: Seq<XmlAttributesTypeEntryView>,
    k: XmlAttributesMapKeyView,
    v: XmlAttributesTypeView,
) -> Seq<XmlAttributesTypeEntryView> {
    let i = type_index(t, k);
    let e = XmlAttributesTypeEntryView { key: k, value: v };
    if i >= 0 {
        t.update(i, e)
    } else {
        t.push(e)
    }
}

} // verus!
