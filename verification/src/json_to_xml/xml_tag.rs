use vstd::prelude::*;

use crate::bindings::is_uuid_text;
use crate::text::{opt_string_view, push_str, string_of};
use super::models::{FieldPositionNumForMap, NestingState, XmlOpenTagOptions};
use super::state::{indentation, same_frame, State, StateView};
use super::xml_attributes::attr_type_of;
use super::xml_attributes::models::XmlAttributesBasicInfo;
use super::xml_attributes::xml_attributes_init::{check_starts_attributes, started_attributes};
use super::xml_attributes::xml_attributes_marking::{get_attributes_mark, mark_outcome};
use super::xml_attributes::xml_attributes_object_id::{closing_object_id, object_id_outcome};

verus! {

/// Whether the object being opened sits in an array: the field under the top of the stack is array-nested.
pub open spec fn nested_in_array_option(s: StateView) -> XmlOpenTagOptions {
    if s.fields.len() < 2 {
        XmlOpenTagOptions::ObjectInObject
    } else if s.fields[s.fields.len() - 2].nesting_state == NestingState::JsonArrayNestingState {
        XmlOpenTagOptions::ObjectInArray
    } else {
        XmlOpenTagOptions::ObjectInObject
    }
}

/// How the tag of the object being opened is placed: in an array or in an object.
pub fn check_if_nested_in_array(state: &State) -> (r: XmlOpenTagOptions)
    ensures
        r == nested_in_array_option(state@),
{
    if state.fields.len() < 2 {
        return XmlOpenTagOptions::ObjectInObject;
    }
    let index = state.fields.len() - 2;
    if state.fields[index].nesting_state == NestingState::JsonArrayNestingState {
        return XmlOpenTagOptions::ObjectInArray;
    }
    XmlOpenTagOptions::ObjectInObject
}

/// The element name of the innermost field: `parameters` for the root, else the field's key,
/// or `unknown` when it has none.
pub open spec fn tag_key(s: StateView) -> Seq<char> {
    if s.fields.len() == 1 {
        "parameters"@
    } else {
        match s.fields.last().key {
            Some(k) => k@,
            None => "unknown"@,
        }
    }
}

/// Where an element inside an array finds its attribute map and its nesting kind.
pub open spec fn array_positions() -> FieldPositionNumForMap {
    FieldPositionNumForMap { xml_attr_map_num: 3, xml_attr_type_num: 2 }
}

/// Where an element inside an object finds its attribute map and its nesting kind.
pub open spec fn object_positions() -> FieldPositionNumForMap {
    FieldPositionNumForMap { xml_attr_map_num: 2, xml_attr_type_num: 1 }
}

/// The opening tag `<key>`, or `<key a>` with the attribute place-holder `a`.
pub open spec fn open_tag_text(key: Seq<char>, attr: Option<Seq<char>>) -> Seq<char> {
    match attr {
        Some(a) => "<"@ + key + " "@ + a + ">"@,
        None => "<"@ + key + ">"@,
    }
}

/// The closing tag `</key>`, followed by the attribute group id `o` when there is one.
pub open spec fn close_tag_text(key: Seq<char>, obj_id: Option<Seq<char>>) -> Seq<char> {
    match obj_id {
        Some(o) => "</"@ + key + ">"@ + o,
        None => "</"@ + key + ">"@,
    }
}

/// `t` follows `s` when a place-holder is asked for (`get_attributes_mark` at `pos`) and the
/// opening tag of `key`, after the text `ind`, is written with whatever came back.
pub open spec fn mark_branch(
    s: StateView,
    ind: Seq<char>,
    key: Seq<char>,
    pos: FieldPositionNumForMap,
    t: StateView,
) -> bool {
    exists|u: Seq<char>, r: Option<Seq<char>>, m: StateView|
        is_uuid_text(u) && #[trigger] mark_outcome(s, key, pos, u, r, m) && t == m.appended(
            ind + open_tag_text(key, r),
        )
}

/// `t` follows `s` when the opening tag of `key` is written after `ind` for an element that
/// may start an attribute group (a key ending in `_attributes`, while no attributes are
/// being read): the group id goes before the tag; otherwise a place-holder is asked for as
/// in [`mark_branch`].
pub open spec fn attr_decision_outcome(
    s: StateView,
    ind: Seq<char>,
    key: Seq<char>,
    pos: FieldPositionNumForMap,
    t: StateView,
) -> bool {
    if check_starts_attributes(s, pos) {
        exists|b: XmlAttributesBasicInfo, r: Option<Seq<char>>, m: StateView|
            started_attributes(s, pos, b) && #[trigger] object_id_outcome(
                StateView { xml_attributes: Some(b), ..s },
                b,
                r,
                m,
            ) && match r {
                Some(o) => t == m.appended(ind + o + "<"@ + key + ">"@),
                None => mark_branch(m, ind, key, pos, t),
            }
    } else {
        mark_branch(s, ind, key, pos, t)
    }
}

/// What `add_open_tag(indent, options)` does to state `s`: one level deeper, then the opening
/// tag of the innermost field, indented on a new line when `indent` holds.
pub open spec fn open_tag_outcome(s: StateView, indent: bool, options: XmlOpenTagOptions, t: StateView) -> bool {
    let s1 = StateView { curr_indent: (s.curr_indent + 1) as i32, ..s };
    let key = tag_key(s);
    let ind = if indent {
        indentation(s1.curr_indent as int)
    } else {
        Seq::empty()
    };
    match options {
        XmlOpenTagOptions::ArraySimpleVal => mark_branch(s1, ind, key, array_positions(), t),
        XmlOpenTagOptions::ObjectInArray => attr_decision_outcome(s1, ind, key, array_positions(), t),
        _ => attr_decision_outcome(s1, ind, key, object_positions(), t),
    }
}

/// The group id written after the closing tag of the innermost field while attributes are read.
pub open spec fn closing_id(s: StateView) -> Option<Seq<char>> {
    match s.xml_attributes {
        Some(b) => closing_object_id(attr_type_of(s.xml_attributes_map, b.attr_id@, b.current_key@)),
        None => None,
    }
}

/// What `add_close_tag(indent)` does to state `s`: the closing tag of the innermost field,
/// indented when `indent` holds, then one level up.
pub open spec fn close_tag_outcome(s: StateView, indent: bool) -> StateView {
    let ind = if indent {
        indentation(s.curr_indent as int)
    } else {
        Seq::empty()
    };
    StateView {
        curr_xml: s.curr_xml + ind + close_tag_text(tag_key(s), closing_id(s)),
        curr_indent: (s.curr_indent - 1) as i32,
        ..s
    }
}

/// The text written for a value: the value itself, or `null` when it is empty.
pub open spec fn tag_val_text(v: Seq<char>) -> Seq<char> {
    if v.len() == 0 {
        "null"@
    } else {
        v
    }
}

fn tag_key_of(state: &State) -> (r: String)
    requires
        state@.fields.len() >= 1,
    ensures
        r@ == tag_key(state@),
{
    if state.fields.len() == 1 {
        string_of("parameters")
    } else {
        match &state.fields[state.fields.len() - 1].key {
            Some(k) => k.clone(),
            None => string_of("unknown"),
        }
    }
}

fn write_open_tag(state: &mut State, indentation_str: &String, key: &String, attr: Option<String>)
    ensures
        final(state)@ == old(state)@.appended(indentation_str@ + open_tag_text(key@, opt_string_view(attr))),
{
    push_str(&mut state.curr_xml, indentation_str.as_str());
    push_str(&mut state.curr_xml, "<");
    push_str(&mut state.curr_xml, key.as_str());
    match attr {
        Some(a) => {
            push_str(&mut state.curr_xml, " ");
            push_str(&mut state.curr_xml, a.as_str());
        },
        None => {},
    }
    push_str(&mut state.curr_xml, ">");
    proof {
        reveal_strlit("<");
        reveal_strlit(" ");
        reveal_strlit(">");
        assert(state@.curr_xml =~= old(state)@.curr_xml + (indentation_str@ + open_tag_text(key@, opt_string_view(attr))));
        assert(state@ == old(state)@.appended(indentation_str@ + open_tag_text(key@, opt_string_view(attr))));
    }
}

fn mark_and_write(state: &mut State, indentation_str: &String, key: &String, pos: FieldPositionNumForMap)
    requires
        1 <= pos.xml_attr_type_num <= pos.xml_attr_map_num,
    ensures
        mark_branch(old(state)@, indentation_str@, key@, pos, final(state)@),
        same_frame(old(state)@, final(state)@),
{
    let attr = get_attributes_mark(state, key, pos);
    let ghost m = state@;
    let ghost r = opt_string_view(attr);
    let ghost u = choose|u: Seq<char>| is_uuid_text(u) && #[trigger] mark_outcome(old(state)@, key@, pos, u, r, m);
    write_open_tag(state, indentation_str, key, attr);
    proof {
        assert(mark_outcome(old(state)@, key@, pos, u, r, m));
    }
}

fn tag_options_attr_decision(
    state: &mut State,
    indentation_str: &String,
    key: &String,
    positions_for_attr_map: FieldPositionNumForMap,
)
    requires
        1 <= positions_for_attr_map.xml_attr_type_num <= positions_for_attr_map.xml_attr_map_num,
    ensures
        attr_decision_outcome(old(state)@, indentation_str@, key@, positions_for_attr_map, final(state)@),
        same_frame(old(state)@, final(state)@),
{
    let ghost s = state@;
    let object_id = state.check_init_xml_attributes(positions_for_attr_map);
    let ghost m = state@;
    match object_id {
        Some(o) => {
            push_str(&mut state.curr_xml, indentation_str.as_str());
            push_str(&mut state.curr_xml, o.as_str());
            push_str(&mut state.curr_xml, "<");
            push_str(&mut state.curr_xml, key.as_str());
            push_str(&mut state.curr_xml, ">");
            proof {
                reveal_strlit("<");
                reveal_strlit(">");
                assert(check_starts_attributes(s, positions_for_attr_map));
                let b = m.xml_attributes->0;
                assert(object_id_outcome(StateView { xml_attributes: Some(b), ..s }, b, Some(o@), m));
                assert(state@.curr_xml =~= m.curr_xml + (indentation_str@ + o@ + "<"@ + key@ + ">"@));
                assert(state@ == m.appended(indentation_str@ + o@ + "<"@ + key@ + ">"@));
            }
        },
        None => {
            mark_and_write(state, indentation_str, key, positions_for_attr_map);
            proof {
                if check_starts_attributes(s, positions_for_attr_map) {
                    let b = m.xml_attributes->0;
                    assert(object_id_outcome(StateView { xml_attributes: Some(b), ..s }, b, None, m));
                }
            }
        },
    }
}

/// Opens the element of the innermost field: one level deeper, then its opening tag,
/// indented on a new line when `indent` holds (see [`open_tag_outcome`]).
pub fn add_open_tag(state: &mut State, indent: bool, tag_options: XmlOpenTagOptions)
    requires
        old(state)@.fields.len() >= 1,
        old(state)@.curr_indent < i32::MAX,
    ensures
        open_tag_outcome(old(state)@, indent, tag_options, final(state)@),
        final(state)@.fields == old(state)@.fields,
        final(state)@.curr_indent == old(state)@.curr_indent + 1,
        final(state)@.curr_row_num == old(state)@.curr_row_num,
{
    state.curr_indent = state.curr_indent + 1;
    let key = tag_key_of(state);
    let indentation_str = if indent {
        state.get_indentation_str()
    } else {
        String::new()
    };
    proof {
        assert(key@ == tag_key(old(state)@));
    }
    match tag_options {
        XmlOpenTagOptions::ArraySimpleVal => {
            mark_and_write(state, &indentation_str, &key, FieldPositionNumForMap { xml_attr_type_num: 2, xml_attr_map_num: 3 });
        },
        XmlOpenTagOptions::ObjectInArray => {
            tag_options_attr_decision(
                state,
                &indentation_str,
                &key,
                FieldPositionNumForMap { xml_attr_type_num: 2, xml_attr_map_num: 3 },
            );
        },
        _ => {
            tag_options_attr_decision(
                state,
                &indentation_str,
                &key,
                FieldPositionNumForMap { xml_attr_type_num: 1, xml_attr_map_num: 2 },
            );
        },
    }
}

/// Closes the element of the innermost field (see [`close_tag_outcome`]).
pub fn add_close_tag(state: &mut State, indent: bool)
    requires
        old(state)@.fields.len() >= 1,
        old(state)@.curr_indent > i32::MIN,
    ensures
        final(state)@ == close_tag_outcome(old(state)@, indent),
{
    let key = tag_key_of(state);
    let indentation_str = if indent {
        state.get_indentation_str()
    } else {
        String::new()
    };
    let obj_id = state.get_obj_id_for_closing_tag();
    push_str(&mut state.curr_xml, indentation_str.as_str());
    push_str(&mut state.curr_xml, "</");
    push_str(&mut state.curr_xml, key.as_str());
    push_str(&mut state.curr_xml, ">");
    match obj_id {
        Some(o) => {
            push_str(&mut state.curr_xml, o.as_str());
        },
        None => {},
    }
    state.curr_indent = state.curr_indent - 1;
    proof {
        reveal_strlit("</");
        reveal_strlit(">");
        assert(state@.curr_xml =~= close_tag_outcome(old(state)@, indent).curr_xml);
    }
}

/// Writes a value: the text itself, or `null` when it is empty.
pub fn add_tag_val(state: &mut State, str_val: &String)
    ensures
        final(state)@ == old(state)@.appended(tag_val_text(str_val@)),
{
    if str_val.as_str().is_empty() {
        push_str(&mut state.curr_xml, "null");
        proof {
            reveal_strlit("null");
        }
    } else {
        push_str(&mut state.curr_xml, str_val.as_str());
    }
}

} // verus!
