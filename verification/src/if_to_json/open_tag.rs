use vstd::prelude::*;

use crate::bindings::{is_key_char, is_word_key_char, regex_is_match};
use crate::json_to_xml::key_val::key_appended_text;
use crate::text::{char_to_string, decimal, has_prefix, i32_to_string, push_char, push_str, starts_with, string_of, utf8_byte_len, utf8_len};
use super::json_build::{add_key_val_node_result, attributes_text_of, key_or_unknown, or_null};
use super::{
    empty_result, ChildNodesOrKeyValView, ClosedTagStage, Node, NodeStage, NodeStrResultView, NodeView, OpenTagStage,
    State, StateView, ValueStage, XmlAttributeStage,
};

verus! {

/// The message for a tag name that does not start with a character in `A`..=`z`.
pub open spec fn tag_name_message(row: i32) -> Seq<char> {
    "unexpected tag key name at row "@ + decimal(row as int)
}

fn tag_name_error(row: i32) -> (r: String)
    ensures
        r@ == tag_name_message(row),
{
    let mut msg = string_of("unexpected tag key name at row ");
    let row_text = i32_to_string(row);
    push_str(&mut msg, row_text.as_str());
    proof {
        assert(msg@ =~= tag_name_message(row));
    }
    msg
}

/// The state with the innermost element's name set to `k`.
pub open spec fn with_last_key(s: StateView, k: Seq<char>) -> StateView {
    s.with_last(NodeView { node_key: Some(k), ..s.nodes.last() })
}

/// Appends `char_val` to the innermost element's name and returns the new name.
pub fn key_update(state: &mut State, char_val: &char) -> (r: String)
    requires
        old(state)@.nodes.len() > 0,
    ensures
        r@ == key_appended_text(old(state)@.nodes.last().node_key, *char_val),
        final(state)@ == with_last_key(old(state)@, r@),
{
    let len = state.nodes.len() - 1;
    let new_key = match &state.nodes[len].node_key {
        Some(some_key) => {
            let mut k = some_key.clone();
            push_char(&mut k, *char_val);
            k
        },
        None => char_to_string(*char_val),
    };
    state.nodes[len].node_key = Some(new_key.clone());
    proof {
        assert(state@.nodes =~= with_last_key(old(state)@, new_key@).nodes);
    }
    new_key
}

/// What `open_tag_init` does with the first character `c` of a tag name.
pub open spec fn open_tag_init_post(s: StateView, c: char, r: Result<(), String>, t: StateView) -> bool {
    if is_key_char(c) {
        r is Ok && t == with_last_key(s, key_appended_text(s.nodes.last().node_key, c)).with_last_stage(
            NodeStage::OpenTag(OpenTagStage::Key),
        )
    } else {
        r is Err && r->Err_0@ == tag_name_message(s.curr_row_num)
    }
}

/// Reads the first character of a tag name, which must lie in `A`..=`z`.
pub fn open_tag_init(char_val: &char, state: &mut State) -> (r: Result<(), String>)
    requires
        old(state)@.nodes.len() > 0,
        forall|e: Result<(), String>, t: StateView| #[trigger] open_tag_init_post(old(state)@, *char_val, e, t) ==> e is Ok,
    ensures
        open_tag_init_post(old(state)@, *char_val, r, final(state)@),
{
    let c = char_to_string(*char_val);
    proof {
        reveal_strlit("^[aA-zZ]");
    }
    match regex_is_match("^[aA-zZ]", c.as_str()) {
        Some(true) => {},
        _ => {
            return Err(tag_name_error(state.curr_row_num));
        },
    }
    let _ = key_update(state, char_val);
    state.update_node_stage(NodeStage::OpenTag(OpenTagStage::Key));
    Ok(())
}

/// The stage of an attribute name about to be read.
pub open spec fn attribute_key_start() -> spec_fn(NodeStage) -> bool {
    |st: NodeStage|
        st matches NodeStage::OpenTag(OpenTagStage::Attributes(XmlAttributeStage::AttributeKey(ValueStage::Open(k))))
            && k@ == Seq::<char>::empty()
}

/// What `open_tag_key_stage_open` does with character `c` of a tag name; a blank (`is_white_space`)
/// ends the name and starts the attributes.
pub open spec fn open_tag_key_stage_open_post(
    s: StateView,
    c: char,
    is_white_space: bool,
    r: Result<(), String>,
    t: StateView,
) -> bool {
    if is_white_space {
        r is Ok && if s.nodes.last().node_key is Some {
            s.restaged(t, attribute_key_start())
        } else {
            t == s
        }
    } else if c == '>' {
        r is Ok && t == s.with_last_stage(NodeStage::OpenTag(OpenTagStage::AngelBracket))
    } else {
        let k = key_appended_text(s.nodes.last().node_key, c);
        if is_key_char(k[0]) {
            r is Ok && t == with_last_key(s, k)
        } else {
            r is Err && r->Err_0@ == tag_name_message(s.curr_row_num)
        }
    }
}

/// Reads a character of a tag name (see [`open_tag_key_stage_open_post`]).
pub fn open_tag_key_stage_open(char_val: &char, state: &mut State, is_white_space: bool) -> (r: Result<(), String>)
    requires
        old(state)@.nodes.len() > 0,
        forall|e: Result<(), String>, t: StateView| #[trigger] open_tag_key_stage_open_post(old(state)@, *char_val, is_white_space, e, t) ==> e is Ok,
    ensures
        open_tag_key_stage_open_post(old(state)@, *char_val, is_white_space, r, final(state)@),
{
    if is_white_space {
        if state.nodes[state.nodes.len() - 1].node_key.is_some() {
            state.update_node_stage(
                NodeStage::OpenTag(OpenTagStage::Attributes(XmlAttributeStage::AttributeKey(ValueStage::Open(String::new())))),
            );
        }
        Ok(())
    } else {
        match char_val {
            '>' => {
                state.update_node_stage(NodeStage::OpenTag(OpenTagStage::AngelBracket));
                Ok(())
            },
            _ => {
                let new_key = key_update(state, char_val);
                proof {
                    reveal_strlit("^[aA-zZ]");
                }
                match regex_is_match("^[aA-zZ]", new_key.as_str()) {
                    Some(true) => Ok(()),
                    _ => Err(tag_name_error(state.curr_row_num)),
                }
            },
        }
    }
}

/// What `closed_key_is_angle_bracket` does with the first character `c` after an opening tag.
pub open spec fn closed_key_is_angle_bracket_post(s: StateView, c: char, t: StateView) -> bool {
    if c == '<' {
        t == s.with_last_stage(NodeStage::OpenTag(OpenTagStage::IsEmptyValue))
    } else if c == '/' {
        t == s.with_last_stage(NodeStage::ClosedTag(ClosedTagStage::ForwardSlash))
    } else {
        s.restaged(t, |st: NodeStage| st matches NodeStage::OpenTag(OpenTagStage::TagValue(v)) && v@ == Seq::<char>::empty())
    }
}

/// Reads the first character after an opening tag: `<` may start a nested element or a
/// closing tag, `/` a closing tag; anything else starts the value.
pub fn closed_key_is_angle_bracket(char_val: &char, state: &mut State)
    requires
        old(state)@.nodes.len() > 0,
    ensures
        closed_key_is_angle_bracket_post(old(state)@, *char_val, final(state)@),
{
    match char_val {
        '<' => state.update_node_stage(NodeStage::OpenTag(OpenTagStage::IsEmptyValue)),
        '/' => state.update_node_stage(NodeStage::ClosedTag(ClosedTagStage::ForwardSlash)),
        _ => state.update_node_stage(NodeStage::OpenTag(OpenTagStage::TagValue(String::new()))),
    }
}

/// The plain value `v` written as the innermost element's result (what
/// `add_key_val_node_result` leaves).
pub open spec fn value_written(s: StateView, v: Seq<char>) -> StateView {
    s.with_last_result(
        NodeStrResultView {
            str_value: or_null(v),
            xml_attributes_str: attributes_text_of(s.curr_indent as int, s.nodes.last().xml_attributes),
            key: key_or_unknown(s.nodes.last().node_key),
            is_object: false,
        },
    )
}

/// What `closed_key_is_empty_value` does with the character `c` after `<` following an
/// opening tag: `/` means the element is empty; anything else starts a value beginning `<c`.
pub open spec fn closed_key_is_empty_value_post(s: StateView, c: char, t: StateView) -> bool {
    if c == '/' {
        t == value_written(s, Seq::empty()).with_last_stage(NodeStage::ClosedTag(ClosedTagStage::ForwardSlash))
    } else {
        s.restaged(t, |st: NodeStage| st matches NodeStage::OpenTag(OpenTagStage::TagValue(v)) && v@ == seq!['<', c])
    }
}

/// Reads the character after `<` that follows an opening tag (see
/// [`closed_key_is_empty_value_post`]).
pub fn closed_key_is_empty_value(char_val: &char, state: &mut State)
    requires
        old(state)@.nodes.len() > 0,
    ensures
        closed_key_is_empty_value_post(old(state)@, *char_val, final(state)@),
{
    match char_val {
        '/' => {
            add_key_val_node_result(state, &String::new());
            state.update_node_stage(NodeStage::ClosedTag(ClosedTagStage::ForwardSlash));
        },
        _ => {
            let mut v = char_to_string('<');
            push_char(&mut v, *char_val);
            proof {
                assert(v@ =~= seq!['<', *char_val]);
            }
            state.update_node_stage(NodeStage::OpenTag(OpenTagStage::TagValue(v)));
        },
    }
}

/// A fresh element pushed as nested, with the name `k`, reading its name.
pub open spec fn nested_node(k: Seq<char>) -> NodeView {
    NodeView {
        node_result: ChildNodesOrKeyValView::KeyValue(empty_result()),
        node_key: Some(k),
        xml_attributes: Seq::empty(),
        stage: NodeStage::OpenTag(OpenTagStage::Key),
        is_nested: true,
    }
}

/// What `open_tag_value_stage` does with character `c` of the value `v`: `<!` and one more
/// byte start a CDATA section; a value that starts with an ASCII letter or `_` (what the
/// pattern `^\<[aA-zZ]` accepts) starts a nested element (one level deeper, with an empty
/// name); a lone `<` starts the closing tag; anything else is added to the value.
pub open spec fn open_tag_value_stage_post(s: StateView, c: char, v: Seq<char>, t: StateView) -> bool {
    let n = v.push(c);
    if has_prefix(n, "<!"@) && utf8_len(n) == 3 {
        s.restaged(t, |st: NodeStage| st matches NodeStage::OpenTag(OpenTagStage::TagValueCData(x)) && x@ == Seq::<char>::empty())
    } else if n.len() > 0 && is_word_key_char(n[0]) {
        t == (StateView { nodes: s.nodes.push(nested_node(Seq::empty())), curr_indent: (s.curr_indent + 1) as i32, ..s })
    } else if c == '<' {
        t == s.with_last_stage(NodeStage::ClosedTag(ClosedTagStage::ForwardSlash))
    } else {
        s.restaged(t, |st: NodeStage| st matches NodeStage::OpenTag(OpenTagStage::TagValue(x)) && x@ == n)
    }
}

/// Reads a character of an element's value (see [`open_tag_value_stage_post`]).
pub fn open_tag_value_stage(char_val: &char, state: &mut State, node_val: &String)
    requires
        old(state)@.nodes.len() > 0,
        old(state)@.curr_indent < i32::MAX,
    ensures
        open_tag_value_stage_post(old(state)@, *char_val, node_val@, final(state)@),
{
    let mut new_string_val = node_val.clone();
    push_char(&mut new_string_val, *char_val);
    proof {
        reveal_strlit("<!");
        reveal_strlit("^\\<[aA-zZ]");
    }
    let is_cdata = starts_with(new_string_val.as_str(), "<!") && utf8_byte_len(new_string_val.as_str()) == 3;
    if is_cdata {
        state.update_node_stage(NodeStage::OpenTag(OpenTagStage::TagValueCData(String::new())));
    } else if regex_is_match("^\\<[aA-zZ]", new_string_val.as_str()) == Some(true) {
        let mut node = Node::new();
        node.is_nested = true;
        let mut new_string_split_off = new_string_val.clone();
        let _ = split_off_all(&mut new_string_split_off);
        node.node_key = Some(new_string_split_off);
        node.stage = NodeStage::OpenTag(OpenTagStage::Key);
        proof {
            assert(node@ == nested_node(Seq::empty()));
        }
        let ghost n0 = state.nodes@;
        state.nodes.push(node);
        state.curr_indent = state.curr_indent + 1;
        proof {
            assert(state@.nodes =~= old(state)@.nodes.push(nested_node(Seq::empty())));
        }
    } else if *char_val == '<' {
        state.update_node_stage(NodeStage::ClosedTag(ClosedTagStage::ForwardSlash));
    } else {
        state.update_node_stage(NodeStage::OpenTag(OpenTagStage::TagValue(new_string_val)));
    }
}

/// `String::split_off(0)`: takes the whole text out of `s`, leaving it empty, and returns it.
#[verifier::external_body]
fn split_off_all(s: &mut String) -> (r: String)
    ensures
        r@ == old(s)@,
        final(s)@ == Seq::<char>::empty(),
{
    s.split_off(0)
}

} // verus!
