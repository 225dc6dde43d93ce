use vstd::prelude::*;

use crate::bindings::{is_key_char, regex_is_match};
use crate::json_to_xml::{unexpected_character_text, unexpected_message};
use crate::text::{decimal, i32_to_string, push_char, push_str, string_of};
use super::json_build::add_key_val_node_result;
use super::open_tag::value_written;
use super::{
    attributes_with_key, attributes_with_val, ClosedTagStage, NodeStage, NodeView, OpenTagStage, State, StateView,
    ValueStage, XmlAttributeStage,
};

verus! {

/// The message for an attribute name `k` that does not start with a character in `A`..=`z`.
pub open spec fn attribute_name_message(k: Seq<char>, row: i32) -> Seq<char> {
    "unexpected tag key name "@ + k + " at row "@ + decimal(row as int)
}

/// The stage of an attribute value about to be read.
pub open spec fn attribute_value_start(st: NodeStage) -> bool {
    st matches NodeStage::OpenTag(OpenTagStage::Attributes(XmlAttributeStage::AttributeValue(ValueStage::Open(v))))
        && v@ == Seq::<char>::empty()
}

/// What `xml_attribute_key_open` does with character `c` of the attribute name `k` read so far:
/// `=` ends a non-empty name, `>` or `/` end the opening tag where no name was begun, other
/// characters extend the name, which must start with a character in `A`..=`z`.
pub open spec fn xml_attribute_key_open_post(s: StateView, c: char, k: Seq<char>, r: Result<(), String>, t: StateView) -> bool {
    if c == '=' {
        if k.len() == 0 {
            r is Err && r->Err_0@ == unexpected_message(c, s.curr_row_num)
        } else {
            let s1 = s.with_last_stage(
                NodeStage::OpenTag(OpenTagStage::Attributes(XmlAttributeStage::AttributeKey(ValueStage::Closed))),
            );
            r is Ok && t == s1.with_last(
                NodeView { xml_attributes: attributes_with_key(s1.nodes.last().xml_attributes, k), ..s1.nodes.last() },
            )
        }
    } else if c == '>' {
        if k.len() != 0 {
            r is Err && r->Err_0@ == unexpected_message(c, s.curr_row_num)
        } else {
            r is Ok && t == s.with_last_stage(NodeStage::OpenTag(OpenTagStage::AngelBracket))
        }
    } else if c == '/' {
        if k.len() != 0 {
            r is Err && r->Err_0@ == unexpected_message(c, s.curr_row_num)
        } else {
            r is Ok && t == value_written(s, Seq::empty()).with_last_stage(
                NodeStage::ClosedTag(ClosedTagStage::ForwardSlash),
            )
        }
    } else if is_key_char(k.push(c)[0]) {
        r is Ok && s.restaged(
            t,
            |st: NodeStage|
                st matches NodeStage::OpenTag(
                    OpenTagStage::Attributes(XmlAttributeStage::AttributeKey(ValueStage::Open(n))),
                ) && n@ == k.push(c),
        )
    } else {
        r is Err && r->Err_0@ == attribute_name_message(k.push(c), s.curr_row_num)
    }
}

/// Reads a character of an attribute name (see [`xml_attribute_key_open_post`]).
pub fn xml_attribute_key_open(char_val: &char, state: &mut State, curr_xml_attr_key: &String) -> (r: Result<(), String>)
    requires
        old(state)@.nodes.len() > 0,
        forall|e: Result<(), String>, t: StateView| #[trigger] xml_attribute_key_open_post(old(state)@, *char_val, curr_xml_attr_key@, e, t) ==> e is Ok,
    ensures
        xml_attribute_key_open_post(old(state)@, *char_val, curr_xml_attr_key@, r, final(state)@),
{
    let mut new_key = curr_xml_attr_key.clone();
    push_char(&mut new_key, *char_val);
    match char_val {
        '=' => {
            if curr_xml_attr_key.as_str().is_empty() {
                return Err(unexpected_character_text(*char_val, state.curr_row_num));
            }
            state.update_node_stage(
                NodeStage::OpenTag(OpenTagStage::Attributes(XmlAttributeStage::AttributeKey(ValueStage::Closed))),
            );
            state.update_attribute_key(curr_xml_attr_key);
            Ok(())
        },
        '>' => {
            if !curr_xml_attr_key.as_str().is_empty() {
                return Err(unexpected_character_text(*char_val, state.curr_row_num));
            }
            state.update_node_stage(NodeStage::OpenTag(OpenTagStage::AngelBracket));
            Ok(())
        },
        '/' => {
            if !curr_xml_attr_key.as_str().is_empty() {
                return Err(unexpected_character_text(*char_val, state.curr_row_num));
            }
            add_key_val_node_result(state, &String::new());
            state.update_node_stage(NodeStage::ClosedTag(ClosedTagStage::ForwardSlash));
            Ok(())
        },
        _ => {
            proof {
                reveal_strlit("^[aA-zZ]");
            }
            match regex_is_match("^[aA-zZ]", new_key.as_str()) {
                Some(true) => {},
                _ => {
                    let mut msg = string_of("unexpected tag key name ");
                    push_str(&mut msg, new_key.as_str());
                    push_str(&mut msg, " at row ");
                    let row = i32_to_string(state.curr_row_num);
                    push_str(&mut msg, row.as_str());
                    proof {
                        assert(msg@ =~= attribute_name_message(new_key@, state.curr_row_num));
                    }
                    return Err(msg);
                },
            }
            state.update_node_stage(
                NodeStage::OpenTag(OpenTagStage::Attributes(XmlAttributeStage::AttributeKey(ValueStage::Open(new_key)))),
            );
            Ok(())
        },
    }
}

/// What `xml_attribute_key_closed` does with character `c` after `=`.
pub open spec fn xml_attribute_key_closed_post(s: StateView, c: char, r: Result<(), String>, t: StateView) -> bool {
    if c == '"' {
        r is Ok && s.restaged(t, |st: NodeStage| attribute_value_start(st))
    } else {
        r is Err && r->Err_0@ == unexpected_message(c, s.curr_row_num)
    }
}

/// Reads the `"` that opens an attribute value.
pub fn xml_attribute_key_closed(char_val: &char, state: &mut State) -> (r: Result<(), String>)
    requires
        old(state)@.nodes.len() > 0,
        forall|e: Result<(), String>, t: StateView| #[trigger] xml_attribute_key_closed_post(old(state)@, *char_val, e, t) ==> e is Ok,
    ensures
        xml_attribute_key_closed_post(old(state)@, *char_val, r, final(state)@),
{
    match char_val {
        '"' => {
            state.update_node_stage(
                NodeStage::OpenTag(
                    OpenTagStage::Attributes(XmlAttributeStage::AttributeValue(ValueStage::Open(String::new()))),
                ),
            );
            Ok(())
        },
        _ => Err(unexpected_character_text(*char_val, state.curr_row_num)),
    }
}

/// What `xml_attribute_value_open` does with character `c` of the attribute value `v`.
pub open spec fn xml_attribute_value_open_post(s: StateView, c: char, v: Seq<char>, t: StateView) -> bool {
    if c == '"' {
        let s1 = s.with_last_stage(
            NodeStage::OpenTag(OpenTagStage::Attributes(XmlAttributeStage::AttributeValue(ValueStage::Closed))),
        );
        t == s1.with_last(NodeView { xml_attributes: attributes_with_val(s1.nodes.last().xml_attributes, v), ..s1.nodes.last() })
    } else {
        s.restaged(
            t,
            |st: NodeStage|
                st matches NodeStage::OpenTag(
                    OpenTagStage::Attributes(XmlAttributeStage::AttributeValue(ValueStage::Open(n))),
                ) && n@ == v.push(c),
        )
    }
}

/// Reads a character of an attribute value: `"` ends it and stores it.
pub fn xml_attribute_value_open(char_val: &char, state: &mut State, curr_xml_attr_val: &String)
    requires
        old(state)@.nodes.len() > 0,
    ensures
        xml_attribute_value_open_post(old(state)@, *char_val, curr_xml_attr_val@, final(state)@),
{
    let mut new_val = curr_xml_attr_val.clone();
    push_char(&mut new_val, *char_val);
    match char_val {
        '"' => {
            state.update_node_stage(
                NodeStage::OpenTag(OpenTagStage::Attributes(XmlAttributeStage::AttributeValue(ValueStage::Closed))),
            );
            state.update_attribute_val(curr_xml_attr_val);
        },
        _ => {
            state.update_node_stage(
                NodeStage::OpenTag(OpenTagStage::Attributes(XmlAttributeStage::AttributeValue(ValueStage::Open(new_val)))),
            );
        },
    }
}

/// What `xml_attribute_value_closed` does with character `c` after an attribute value; a blank
/// (`is_white_space`) starts the next attribute name.
pub open spec fn xml_attribute_value_closed_post(
    s: StateView,
    c: char,
    is_white_space: bool,
    r: Result<(), String>,
    t: StateView,
) -> bool {
    if is_white_space {
        r is Ok && s.restaged(t, super::open_tag::attribute_key_start())
    } else if c == '>' {
        r is Ok && t == s.with_last_stage(NodeStage::OpenTag(OpenTagStage::AngelBracket))
    } else if c == '/' {
        if s.nodes.last().node_key is None {
            r is Err && r->Err_0@ == unexpected_message(c, s.curr_row_num)
        } else {
            r is Ok && t == value_written(s, Seq::empty()).with_last_stage(
                NodeStage::ClosedTag(ClosedTagStage::ForwardSlash),
            )
        }
    } else {
        r is Err && r->Err_0@ == unexpected_message(c, s.curr_row_num)
    }
}

/// Reads the character after an attribute value (see [`xml_attribute_value_closed_post`]).
pub fn xml_attribute_value_closed(char_val: &char, state: &mut State, is_white_space: bool) -> (r: Result<(), String>)
    requires
        old(state)@.nodes.len() > 0,
        forall|e: Result<(), String>, t: StateView| #[trigger] xml_attribute_value_closed_post(old(state)@, *char_val, is_white_space, e, t) ==> e is Ok,
    ensures
        xml_attribute_value_closed_post(old(state)@, *char_val, is_white_space, r, final(state)@),
{
    if is_white_space {
        state.update_node_stage(
            NodeStage::OpenTag(OpenTagStage::Attributes(XmlAttributeStage::AttributeKey(ValueStage::Open(String::new())))),
        );
        Ok(())
    } else {
        match char_val {
            '>' => {
                state.update_node_stage(NodeStage::OpenTag(OpenTagStage::AngelBracket));
                Ok(())
            },
            '/' => {
                if state.nodes[state.nodes.len() - 1].node_key.is_none() {
                    return Err(unexpected_character_text(*char_val, state.curr_row_num));
                }
                add_key_val_node_result(state, &String::new());
                state.update_node_stage(NodeStage::ClosedTag(ClosedTagStage::ForwardSlash));
                Ok(())
            },
            _ => Err(unexpected_character_text(*char_val, state.curr_row_num)),
        }
    }
}

} // verus!
