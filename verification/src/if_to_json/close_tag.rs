use vstd::prelude::*;

use crate::json_to_xml::unexpected_message;
use crate::json_to_xml::unexpected_character_text;
use crate::text::{char_to_string, decimal, i32_to_string, push_char, push_str, str_eq, string_of};
use super::json_build::{constructed, json_construct};
use super::{ClosedTagStage, InitEndKeys, Node, NodeStage, NodeView, OpenTagStage, State, StateView};

verus! {

/// The message when an element to close has no name.
pub open spec fn no_open_tag_message() -> Seq<char> {
    "No open tag was found!"@
}

/// The message when a closing tag's name differs from its opening tag's.
pub open spec fn tag_mismatch_message(row: i32) -> Seq<char> {
    "Opening tag doesn't match close tag at row: "@ + decimal(row as int)
}

fn no_open_tag_error() -> (r: String)
    ensures
        r@ == no_open_tag_message(),
{
    let r = string_of("No open tag was found!");
    proof {
        reveal_strlit("No open tag was found!");
    }
    r
}

/// `t` is `s` with the innermost element reading the name of its closing tag, which must be
/// the opening tag's name; `None` when the element has no name.
pub open spec fn closing_key_started(s: StateView, r: Result<(), String>, t: StateView) -> bool {
    match s.nodes.last().node_key {
        Some(k) => r is Ok && s.restaged(
            t,
            |st: NodeStage|
                st matches NodeStage::ClosedTag(ClosedTagStage::Key(keys)) && keys.open_tag_key@ == k
                    && keys.closed_tag_key@ == Seq::<char>::empty(),
        ),
        None => r is Err && r->Err_0@ == no_open_tag_message(),
    }
}

pub(crate) fn start_closing_key(state: &mut State) -> (r: Result<(), String>)
    requires
        old(state)@.nodes.len() > 0,
    ensures
        closing_key_started(old(state)@, r, final(state)@),
{
    let len = state.nodes.len() - 1;
    match &state.nodes[len].node_key {
        Some(some_open_tag_key) => {
            let k = some_open_tag_key.clone();
            state.update_node_stage(
                NodeStage::ClosedTag(ClosedTagStage::Key(InitEndKeys { open_tag_key: k, closed_tag_key: String::new() })),
            );
            Ok(())
        },
        None => Err(no_open_tag_error()),
    }
}

/// What `closed_tag_opening` does with character `c` at the start of a closing tag.
pub open spec fn closed_tag_opening_post(s: StateView, c: char, r: Result<(), String>, t: StateView) -> bool {
    if c == '/' {
        closing_key_started(s, r, t)
    } else {
        r is Err && r->Err_0@ == unexpected_message(c, s.curr_row_num)
    }
}

/// Reads the `/` that starts a closing tag.
pub fn closed_tag_opening(char_val: &char, state: &mut State) -> (r: Result<(), String>)
    requires
        old(state)@.nodes.len() > 0,
        forall|e: Result<(), String>, t: StateView| #[trigger] closed_tag_opening_post(old(state)@, *char_val, e, t) ==> e is Ok,
    ensures
        closed_tag_opening_post(old(state)@, *char_val, r, final(state)@),
{
    match char_val {
        '/' => start_closing_key(state),
        _ => Err(unexpected_character_text(*char_val, state.curr_row_num)),
    }
}

/// What `closed_tag_value_stage_forward_slash` does with character `c` after `</`: `>` ends
/// the closing tag at once; anything else starts reading its name (the character itself is
/// not kept).
pub open spec fn closed_tag_value_stage_forward_slash_post(s: StateView, c: char, r: Result<(), String>, t: StateView) -> bool {
    if c == '>' {
        r is Ok && t == s.with_last_stage(NodeStage::ClosedTag(ClosedTagStage::AngelBracket))
    } else {
        closing_key_started(s, r, t)
    }
}

/// Reads the character after `</` (see [`closed_tag_value_stage_forward_slash_post`]).
pub fn closed_tag_value_stage_forward_slash(char_val: &char, state: &mut State) -> (r: Result<(), String>)
    requires
        old(state)@.nodes.len() > 0,
        forall|e: Result<(), String>, t: StateView| #[trigger] closed_tag_value_stage_forward_slash_post(old(state)@, *char_val, e, t) ==> e is Ok,
    ensures
        closed_tag_value_stage_forward_slash_post(old(state)@, *char_val, r, final(state)@),
{
    match char_val {
        '>' => {
            state.update_node_stage(NodeStage::ClosedTag(ClosedTagStage::AngelBracket));
            Ok(())
        },
        _ => start_closing_key(state),
    }
}

/// What `closed_tag_key_stage` does with character `c` of a closing tag's name `close_key`,
/// the opening tag's name being `open_key`.
pub open spec fn closed_tag_key_stage_post(
    s: StateView,
    c: char,
    open_key: Seq<char>,
    close_key: Seq<char>,
    r: Result<(), String>,
    t: StateView,
) -> bool {
    if c == '>' {
        if open_key == close_key {
            r is Ok && t == s.with_last_stage(NodeStage::ClosedTag(ClosedTagStage::AngelBracket))
        } else {
            r is Err && r->Err_0@ == tag_mismatch_message(s.curr_row_num)
        }
    } else {
        r is Ok && s.restaged(
            t,
            |st: NodeStage|
                st matches NodeStage::ClosedTag(ClosedTagStage::Key(keys)) && keys.open_tag_key@ == open_key
                    && keys.closed_tag_key@ == close_key.push(c),
        )
    }
}

/// Reads a character of a closing tag's name; at `>` it must equal the opening tag's name.
pub fn closed_tag_key_stage(char_val: &char, state: &mut State, open_tag_key: &String, close_tag_key: &String) -> (r: Result<(), String>)
    requires
        old(state)@.nodes.len() > 0,
        forall|e: Result<(), String>, t: StateView| #[trigger] closed_tag_key_stage_post(old(state)@, *char_val, open_tag_key@, close_tag_key@, e, t) ==> e is Ok,
    ensures
        closed_tag_key_stage_post(old(state)@, *char_val, open_tag_key@, close_tag_key@, r, final(state)@),
{
    match char_val {
        '>' => {
            if str_eq(open_tag_key.as_str(), close_tag_key.as_str()) {
                state.update_node_stage(NodeStage::ClosedTag(ClosedTagStage::AngelBracket));
                Ok(())
            } else {
                let mut msg = string_of("Opening tag doesn't match close tag at row: ");
                let row = i32_to_string(state.curr_row_num);
                push_str(&mut msg, row.as_str());
                proof {
                    assert(msg@ =~= tag_mismatch_message(state.curr_row_num));
                }
                Err(msg)
            }
        },
        _ => {
            let mut new_key = close_tag_key.clone();
            push_char(&mut new_key, *char_val);
            state.update_node_stage(
                NodeStage::ClosedTag(ClosedTagStage::Key(InitEndKeys { open_tag_key: open_tag_key.clone(), closed_tag_key: new_key })),
            );
            Ok(())
        },
    }
}

/// What `closed_tag_angle_bracket` does with character `c` after a closing tag.
pub open spec fn closed_tag_angle_bracket_post(s: StateView, c: char, r: Result<(), String>, t: StateView) -> bool {
    if c == '<' {
        r is Ok && t == s.with_last_stage(NodeStage::ClosedTag(ClosedTagStage::SibingOrClosing))
    } else {
        r is Err && r->Err_0@ == unexpected_message(c, s.curr_row_num)
    }
}

/// Reads the `<` after a closing tag.
pub fn closed_tag_angle_bracket(char_val: &char, state: &mut State) -> (r: Result<(), String>)
    requires
        old(state)@.nodes.len() > 0,
        forall|e: Result<(), String>, t: StateView| #[trigger] closed_tag_angle_bracket_post(old(state)@, *char_val, e, t) ==> e is Ok,
    ensures
        closed_tag_angle_bracket_post(old(state)@, *char_val, r, final(state)@),
{
    match char_val {
        '<' => {
            state.update_node_stage(NodeStage::ClosedTag(ClosedTagStage::SibingOrClosing));
            Ok(())
        },
        _ => Err(unexpected_character_text(*char_val, state.curr_row_num)),
    }
}

/// A fresh element named `c`, reading its name.
pub open spec fn sibling_node(c: char) -> NodeView {
    NodeView {
        node_result: super::ChildNodesOrKeyValView::KeyValue(super::empty_result()),
        node_key: Some(seq![c]),
        xml_attributes: Seq::empty(),
        stage: NodeStage::OpenTag(OpenTagStage::Key),
        is_nested: false,
    }
}

/// What `closed_tag_sibling_or_closing` does with the character `c` after `<` that follows a
/// closing tag: `/` closes the enclosing element (one level up; it needs a name, and there
/// must be one); anything else hands the finished element's JSON on and starts a sibling
/// named `c`.
pub open spec fn closed_tag_sibling_or_closing_post(s: StateView, c: char, r: Result<(), String>, t: StateView) -> bool {
    if c == '/' {
        if s.nodes.len() >= 2 {
            closing_key_started(StateView { curr_indent: (s.curr_indent - 1) as i32, ..s.popped() }, r, t)
        } else {
            r is Err && r->Err_0@ == unexpected_message(c, s.curr_row_num)
        }
    } else {
        exists|m: StateView|
            #[trigger] constructed(s, r, m) && (r is Ok ==> t == (StateView {
                nodes: m.nodes.drop_last().push(sibling_node(c)),
                ..m
            }))
    }
}

/// Reads the character after `<` that follows a closing tag (see
/// [`closed_tag_sibling_or_closing_post`]).
pub fn closed_tag_sibling_or_closing(char_val: &char, state: &mut State) -> (r: Result<(), String>)
    requires
        old(state)@.nodes.len() > 0,
        old(state)@.curr_indent > i32::MIN,
        forall|e: Result<(), String>, t: StateView| #[trigger] closed_tag_sibling_or_closing_post(old(state)@, *char_val, e, t) ==> e is Ok,
    ensures
        closed_tag_sibling_or_closing_post(old(state)@, *char_val, r, final(state)@),
{
    match char_val {
        '/' => {
            if state.nodes.len() < 2 {
                return Err(unexpected_character_text(*char_val, state.curr_row_num));
            }
            state.nodes.pop();
            state.curr_indent = state.curr_indent - 1;
            proof {
                assert(state@.nodes =~= old(state)@.nodes.drop_last());
                assert(state@ == (StateView { curr_indent: (old(state)@.curr_indent - 1) as i32, ..old(state)@.popped() }));
            }
            start_closing_key(state)
        },
        _ => {
            proof {
                assert forall|e: Result<(), String>, t: StateView| #[trigger] constructed(old(state)@, e, t) implies e is Ok by {
                    if e is Err {
                        assert(closed_tag_sibling_or_closing_post(old(state)@, *char_val, e, t));
                    }
                }
            }
            let res = json_construct(state);
            let ghost m = state@;
            proof {
                assert(constructed(old(state)@, res, m));
            }
            if res.is_err() {
                return res;
            }
            proof {
                assert(m.nodes.len() == old(state)@.nodes.len());
            }
            state.nodes.pop();
            let mut node = Node::new();
            node.node_key = Some(char_to_string(*char_val));
            node.stage = NodeStage::OpenTag(OpenTagStage::Key);
            proof {
                assert(node@ == sibling_node(*char_val));
            }
            state.nodes.push(node);
            proof {
                assert(state@.nodes =~= m.nodes.drop_last().push(sibling_node(*char_val)));
            }
            res
        },
    }
}

} // verus!
