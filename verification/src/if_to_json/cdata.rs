use vstd::prelude::*;

use crate::text::{ends_with, has_suffix, push_char};
use super::close_tag::{closing_key_started, start_closing_key};
use crate::json_to_xml::{unexpected_character_text, unexpected_message};
use super::{ClosedTagStage, NodeStage, NodeView, OpenTagStage, State, StateView};

verus! {

/// What `open_tag_stage_cdata_open` does with character `c` of the CDATA text `v`: at `<`
/// after a text ending in `]]>` the value ends, the element is no longer nested, and its
/// closing tag is read next; otherwise the character is added to the text.
pub open spec fn open_tag_stage_cdata_open_post(s: StateView, c: char, v: Seq<char>, t: StateView) -> bool {
    let n = v.push(c);
    if c == '<' && has_suffix(n, "]]>"@) {
        let s1 = s.with_last_stage(NodeStage::ClosedTag(ClosedTagStage::ForwardSlash));
        t == s1.with_last(NodeView { is_nested: false, ..s1.nodes.last() })
    } else {
        s.restaged(t, |st: NodeStage| st matches NodeStage::OpenTag(OpenTagStage::TagValueCData(x)) && x@ == n)
    }
}

/// Reads a character of a CDATA section (see [`open_tag_stage_cdata_open_post`]).
pub fn open_tag_stage_cdata_open(char_val: &char, state: &mut State, curr_val: &String)
    requires
        old(state)@.nodes.len() > 0,
    ensures
        open_tag_stage_cdata_open_post(old(state)@, *char_val, curr_val@, final(state)@),
{
    let mut new_string_val = curr_val.clone();
    push_char(&mut new_string_val, *char_val);
    proof {
        reveal_strlit("]]>");
    }
    if *char_val == '<' && ends_with(new_string_val.as_str(), "]]>") {
        state.update_node_stage(NodeStage::ClosedTag(ClosedTagStage::ForwardSlash));
        state.update_is_nested(false);
    } else {
        state.update_node_stage(NodeStage::OpenTag(OpenTagStage::TagValueCData(new_string_val)));
    }
}

/// What `open_tag_stage_cdata_closed` does with character `c` after a CDATA section: `/`
/// starts reading the closing tag's name; anything else is an error.
pub open spec fn open_tag_stage_cdata_closed_post(s: StateView, c: char, r: Result<(), String>, t: StateView) -> bool {
    if c == '/' {
        closing_key_started(s, r, t)
    } else {
        r is Err && r->Err_0@ == unexpected_message(c, s.curr_row_num)
    }
}

/// Reads the `/` of the closing tag after a CDATA section (see
/// [`open_tag_stage_cdata_closed_post`]).
pub fn open_tag_stage_cdata_closed(char_val: &char, state: &mut State) -> (r: Result<(), String>)
    requires
        old(state)@.nodes.len() > 0,
        forall|e: Result<(), String>, t: StateView| #[trigger] open_tag_stage_cdata_closed_post(old(state)@, *char_val, e, t) ==> e is Ok,
    ensures
        open_tag_stage_cdata_closed_post(old(state)@, *char_val, r, final(state)@),
{
    match char_val {
        '/' => start_closing_key(state),
        _ => Err(unexpected_character_text(*char_val, state.curr_row_num)),
    }
}

} // verus!
