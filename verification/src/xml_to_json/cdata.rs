use vstd::prelude::*;

use crate::if_to_json::json_build::{attributes_text_of, key_or_unknown};
use crate::if_to_json::{ClosedTagStage, NodeStage, NodeStrResultView, OpenTagStage};
use crate::json_to_xml::state::indentation;
use crate::text::{
    contains_str, ends_with, has_prefix, has_substring, has_suffix, push_char, starts_with, trim, trim_end, trimmed,
    trimmed_end,
};
use super::json_build::{add_key_val_node_result, json_value_text};
use super::{State, StateView};

verus! {

/// What `open_tag_stage_cdata_open` does with character `c` after the value text `v`: at `<`
/// after a complete CDATA section (`<![CDATA[` … `]]>`) the trimmed section is written as the
/// element's value and its closing tag is read next; while the text can still be or is a
/// CDATA section it is kept as one, otherwise as a plain value.
pub open spec fn open_tag_stage_cdata_open_post(s: StateView, c: char, v: Seq<char>, t: StateView) -> bool {
    let n = v.push(c);
    if c == '<' {
        if has_suffix(trimmed_end(v), "]]>"@) && has_prefix(v, "<![CDATA["@) {
            let s1 = s.with_last_stage(NodeStage::ClosedTag(ClosedTagStage::ForwardSlash));
            t == s1.with_last_result(
                NodeStrResultView {
                    str_value: indentation(s1.curr_indent as int) + "  "@ + json_value_text(trimmed(v)),
                    xml_attributes_str: attributes_text_of(s1.curr_indent as int, s1.nodes.last().xml_attributes),
                    key: key_or_unknown(s1.nodes.last().node_key),
                    is_object: false,
                },
            )
        } else {
            s.restaged(t, |st: NodeStage| st matches NodeStage::OpenTag(OpenTagStage::TagValueCData(x)) && x@ == n)
        }
    } else if has_substring("<![CDATA["@, n) || has_prefix(n, "<![CDATA["@) {
        s.restaged(t, |st: NodeStage| st matches NodeStage::OpenTag(OpenTagStage::TagValueCData(x)) && x@ == n)
    } else {
        s.restaged(t, |st: NodeStage| st matches NodeStage::OpenTag(OpenTagStage::TagValue(x)) && x@ == n)
    }
}

/// Reads a character of a value that may be a CDATA section (see
/// [`open_tag_stage_cdata_open_post`]).
pub fn open_tag_stage_cdata_open(char_val: &char, state: &mut State, curr_val: &String)
    requires
        old(state)@.nodes.len() > 0,
    ensures
        open_tag_stage_cdata_open_post(old(state)@, *char_val, curr_val@, final(state)@),
{
    let mut new_string_val = curr_val.clone();
    push_char(&mut new_string_val, *char_val);
    proof {
        reveal_strlit("]]>");
        reveal_strlit("<![CDATA[");
    }
    match char_val {
        '<' => {
            let tail = trim_end(curr_val.as_str());
            if ends_with(tail.as_str(), "]]>") && starts_with(curr_val.as_str(), "<![CDATA[") {
                state.update_node_stage(NodeStage::ClosedTag(ClosedTagStage::ForwardSlash));
                let value = trim(curr_val.as_str());
                add_key_val_node_result(state, &value);
            } else {
                state.update_node_stage(NodeStage::OpenTag(OpenTagStage::TagValueCData(new_string_val)));
            }
        },
        _ => {
            if contains_str("<![CDATA[", new_string_val.as_str()) || starts_with(new_string_val.as_str(), "<![CDATA[") {
                state.update_node_stage(NodeStage::OpenTag(OpenTagStage::TagValueCData(new_string_val)));
            } else {
                state.update_node_stage(NodeStage::OpenTag(OpenTagStage::TagValue(new_string_val)));
            }
        },
    }
}

} // verus!
