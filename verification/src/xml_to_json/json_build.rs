use vstd::prelude::*;

use crate::bindings::{camel_case_of, to_camel_case};
use crate::if_to_json::json_build::{
    attributes_object, attributes_object_text, attributes_text_of, copy_attributes, group_by_key, groups_view,
    key_or_unknown, key_runs, opt_text, or_null, remove_third_last, third_last_removed,
};
use crate::if_to_json::{
    attributes_view, results_view, ChildNodesOrKeyVal, ChildNodesOrKeyValView, NodeStrResult, NodeStrResultView,
    XmlAttribute,
};
use crate::json_to_xml::state::indentation;
use crate::text::{
    char_to_string, chars_of, chars_range, join, joined, parses_as_i32, parses_as_i32_exec, push_str, replace_all,
    replaced, str_eq, string_of, texts_view, trim, trim_start, trimmed, trimmed_start,
};
use super::{State, StateView};

verus! {

/// Writes the attributes `attributes` as a JSON object into `attr_str` (see
/// [`attributes_object`]); returns whether there was any, leaving `attr_str` as it was otherwise.
pub fn get_xml_attributes(attributes: &Vec<XmlAttribute>, state: &mut State, attr_str: &mut String) -> (r: bool)
    ensures
        final(state)@ == old(state)@,
        r == (attributes@.len() > 0),
        r ==> final(attr_str)@ == attributes_object(old(state)@.curr_indent as int, attributes_view(attributes@)),
        !r ==> final(attr_str)@ == old(attr_str)@,
{
    let ind = state.get_indentation_str();
    if attributes.len() > 0 {
        *attr_str = attributes_object_text(&ind, attributes);
        true
    } else {
        false
    }
}

/// `i` is the position of the first `{` of `s`.
pub open spec fn first_brace_at(s: Seq<char>, i: int) -> bool {
    0 <= i < s.len() && s[i] == '{' && forall|j: int| 0 <= j < i ==> s[j] != '{'
}

/// `s` with two spaces put before its first `{` (`str::replacen("{", "  {", 1)`).
pub open spec fn first_brace_indented(s: Seq<char>) -> Seq<char> {
    if exists|i: int| first_brace_at(s, i) {
        let i = choose|i: int| first_brace_at(s, i);
        s.take(i) + "  {"@ + s.skip(i + 1)
    } else {
        s
    }
}

/// An object's JSON moved one step in for an array item: two spaces before its first `{`,
/// and one more space after each line break.
pub open spec fn indented_for_array(s: Seq<char>) -> Seq<char> {
    replaced(first_brace_indented(s), "\n"@, "\n "@)
}

fn increase_curly_braces_indent_for_array(node: &NodeStrResult) -> (r: String)
    ensures
        r@ == indented_for_array(node.str_value@),
{
    let v = chars_of(node.str_value.as_str());
    let mut i: usize = 0;
    while i < v.len() && v[i] != '{'
        invariant
            i <= v.len(),
            v@ == node.str_value@,
            forall|j: int| 0 <= j < i ==> v@[j] != '{',
        decreases v.len() - i,
    {
        i = i + 1;
    }
    let s = if i < v.len() {
        let mut t = chars_range(&v, 0, i);
        push_str(&mut t, "  {");
        let rest = chars_range(&v, i + 1, v.len());
        push_str(&mut t, rest.as_str());
        proof {
            reveal_strlit("  {");
            assert(first_brace_at(v@, i as int));
            let k = choose|k: int| first_brace_at(v@, k);
            assert(k == i) by {
                if k < i {
                    assert(v@[k] != '{');
                } else if k > i {
                    assert(v@[i as int] != '{');
                }
            }
            assert(t@ =~= first_brace_indented(node.str_value@));
        }
        t
    } else {
        proof {
            assert forall|k: int| !first_brace_at(v@, k) by {
                if 0 <= k < v.len() {
                    assert(v@[k] != '{');
                }
            }
        }
        node.str_value.clone()
    };
    proof {
        reveal_strlit("\n");
        reveal_strlit("\n ");
    }
    replace_all(s.as_str(), "\n", "\n ")
}

/// A name as written: in camel case when `to_camel` holds.
pub open spec fn key_formatted(to_camel: bool, key: Seq<char>) -> Seq<char> {
    if to_camel {
        camel_case_of(key)
    } else {
        key
    }
}

fn format_key(state: &State, key: &String) -> (r: String)
    ensures
        r@ == key_formatted(state.to_camel_case, key@),
{
    if state.to_camel_case {
        to_camel_case(key.as_str())
    } else {
        key.clone()
    }
}

/// The JSON of the elements `nodes`, all named like the first, as an array member one step in
/// (objects moved in one more step); their attribute objects follow as a second array when
/// any element has attributes.
pub open spec fn array_json_text(nodes: Seq<NodeStrResultView>, indent: int, to_camel: bool) -> Seq<char> {
    let inner = indentation(indent) + " "@;
    let key = key_formatted(to_camel, nodes[0].key);
    let comps = joined(
        nodes.map_values(
            |x: NodeStrResultView|
                if x.is_object {
                    indented_for_array(x.str_value)
                } else {
                    x.str_value
                },
        ),
        ",\n"@,
    );
    let attrs = nodes.map_values(|x: NodeStrResultView| or_null(x.xml_attributes_str));
    let all_null = forall|i: int| 0 <= i < attrs.len() ==> trimmed(attrs[i]) == "null"@;
    let main = inner + "\""@ + key + "\": [\n"@ + comps + "\n"@ + inner + "]"@;
    if all_null {
        main
    } else {
        main + ",\n"@ + inner + "\""@ + key + "_attributes\": [\n"@ + joined(attrs, ",\n"@) + "\n"@ + inner + "]"@
    }
}

/// Builds the JSON of several elements with the same name (see [`array_json_text`]).
pub fn build_array_json(nodes: &Vec<NodeStrResult>, state: &mut State) -> (r: String)
    requires
        nodes@.len() >= 1,
    ensures
        final(state)@ == old(state)@,
        r@ == array_json_text(results_view(nodes@), old(state)@.curr_indent as int, old(state)@.to_camel_case),
{
    let mut indent_str_inner = state.get_indentation_str();
    push_str(&mut indent_str_inner, " ");
    let key = format_key(state, &nodes[0].key);
    let ghost nv = results_view(nodes@);
    let ghost comps_spec = nv.map_values(
        |x: NodeStrResultView|
            if x.is_object {
                indented_for_array(x.str_value)
            } else {
                x.str_value
            },
    );
    let ghost attrs_spec = nv.map_values(|x: NodeStrResultView| or_null(x.xml_attributes_str));
    let mut comps: Vec<String> = Vec::new();
    let mut attrs: Vec<String> = Vec::new();
    let mut all_attr_null = true;
    let mut i: usize = 0;
    while i < nodes.len()
        invariant
            i <= nodes.len(),
            nv == results_view(nodes@),
            comps_spec == nv.map_values(
                |x: NodeStrResultView|
                    if x.is_object {
                        indented_for_array(x.str_value)
                    } else {
                        x.str_value
                    },
            ),
            attrs_spec == nv.map_values(|x: NodeStrResultView| or_null(x.xml_attributes_str)),
            texts_view(comps@) =~= comps_spec.take(i as int),
            texts_view(attrs@) =~= attrs_spec.take(i as int),
            all_attr_null == (forall|k: int| 0 <= k < i ==> trimmed(attrs_spec[k]) == "null"@),
        decreases nodes.len() - i,
    {
        let c = if nodes[i].is_object {
            increase_curly_braces_indent_for_array(&nodes[i])
        } else {
            nodes[i].str_value.clone()
        };
        let a = if nodes[i].xml_attributes_str.as_str().is_empty() {
            string_of("null")
        } else {
            nodes[i].xml_attributes_str.clone()
        };
        proof {
            reveal_strlit("null");
            assert(attrs_spec[i as int] == or_null(nodes@[i as int].xml_attributes_str@));
            assert(comps_spec[i as int] == c@);
        }
        let t = trim(a.as_str());
        if !str_eq(t.as_str(), "null") {
            all_attr_null = false;
        }
        let ghost c0 = comps@;
        let ghost a0 = attrs@;
        comps.push(c);
        attrs.push(a);
        proof {
            crate::text::lemma_texts_push(c0, c);
            crate::text::lemma_texts_push(a0, a);
            assert(comps_spec.take(i + 1) =~= comps_spec.take(i as int).push(comps_spec[i as int]));
            assert(attrs_spec.take(i + 1) =~= attrs_spec.take(i as int).push(attrs_spec[i as int]));
        }
        i = i + 1;
    }
    proof {
        assert(texts_view(comps@) =~= comps_spec);
        assert(texts_view(attrs@) =~= attrs_spec);
    }
    let array_components = join(&comps, ",\n");
    let xml_attributes_str = join(&attrs, ",\n");
    let mut out = indent_str_inner.clone();
    push_str(&mut out, "\"");
    push_str(&mut out, key.as_str());
    push_str(&mut out, "\": [\n");
    push_str(&mut out, array_components.as_str());
    push_str(&mut out, "\n");
    push_str(&mut out, indent_str_inner.as_str());
    push_str(&mut out, "]");
    if !all_attr_null {
        push_str(&mut out, ",\n");
        push_str(&mut out, indent_str_inner.as_str());
        push_str(&mut out, "\"");
        push_str(&mut out, key.as_str());
        push_str(&mut out, "_attributes\": [\n");
        push_str(&mut out, xml_attributes_str.as_str());
        push_str(&mut out, "\n");
        push_str(&mut out, indent_str_inner.as_str());
        push_str(&mut out, "]");
    }
    proof {
        reveal_strlit(" ");
        reveal_strlit("\"");
        reveal_strlit("\": [\n");
        reveal_strlit("\n");
        reveal_strlit("]");
        reveal_strlit(",\n");
        reveal_strlit("_attributes\": [\n");
        assert(out@ =~= array_json_text(nv, old(state)@.curr_indent as int, old(state)@.to_camel_case));
    }
    out
}

/// `build_object_json` can be built for `n`: the removal it makes in the attribute text is possible.
pub open spec fn object_json_defined(n: NodeStrResultView) -> bool {
    third_last_removed(or_null(n.xml_attributes_str)) is Some
}

/// The JSON of one element as an object member one step in; its attribute object, when it
/// has one, follows as a second member.
pub open spec fn object_json_text(n: NodeStrResultView, indent: int, to_camel: bool) -> Seq<char> {
    let ind = indentation(indent) + " "@;
    let attr = or_null(n.xml_attributes_str);
    let key = key_formatted(to_camel, n.key);
    let value = trimmed_start(n.str_value);
    if attr != "null"@ {
        ind + "\""@ + key + "\": "@ + value + ",\n"@ + ind + "\""@ + key + "_attributes\": "@
            + third_last_removed(attr)->0
    } else {
        ind + "\""@ + key + "\": "@ + value
    }
}

/// Builds the JSON of one element (see [`object_json_text`]).
pub fn build_object_json(node: &NodeStrResult, state: &mut State) -> (r: String)
    requires
        object_json_defined(node@),
    ensures
        final(state)@ == old(state)@,
        r@ == object_json_text(node@, old(state)@.curr_indent as int, old(state)@.to_camel_case),
{
    let mut indent_str = state.get_indentation_str();
    push_str(&mut indent_str, " ");
    let xml_attributes_str = if node.xml_attributes_str.as_str().is_empty() {
        string_of("null")
    } else {
        node.xml_attributes_str.clone()
    };
    proof {
        reveal_strlit("null");
        reveal_strlit(" ");
    }
    let xml_attributes_str_new = match remove_third_last(xml_attributes_str.as_str()) {
        Some(x) => x,
        None => String::new(),
    };
    let str_value_new = trim_start(node.str_value.as_str());
    let key = format_key(state, &node.key);
    let mut out = indent_str.clone();
    push_str(&mut out, "\"");
    push_str(&mut out, key.as_str());
    push_str(&mut out, "\": ");
    push_str(&mut out, str_value_new.as_str());
    if !str_eq(xml_attributes_str.as_str(), "null") {
        push_str(&mut out, ",\n");
        push_str(&mut out, indent_str.as_str());
        push_str(&mut out, "\"");
        push_str(&mut out, key.as_str());
        push_str(&mut out, "_attributes\": ");
        push_str(&mut out, xml_attributes_str_new.as_str());
    }
    proof {
        reveal_strlit("\"");
        reveal_strlit("\": ");
        reveal_strlit(",\n");
        reveal_strlit("_attributes\": ");
        assert(out@ =~= object_json_text(node@, old(state)@.curr_indent as int, old(state)@.to_camel_case));
    }
    out
}

/// The JSON of one group of equally named results: an array member for several, an object
/// member for one (`None` where building it panics).
pub open spec fn node_json(g: Seq<NodeStrResultView>, indent: int, to_camel: bool) -> Option<Seq<char>> {
    if g.len() > 1 {
        Some(array_json_text(g, indent, to_camel))
    } else if object_json_defined(g[0]) {
        Some(object_json_text(g[0], indent, to_camel))
    } else {
        None
    }
}

/// The JSON of each group, or `None` when one of them cannot be built.
pub open spec fn groups_json(gs: Seq<Seq<NodeStrResultView>>, indent: int, to_camel: bool) -> Option<Seq<Seq<char>>>
    decreases gs.len(),
{
    if gs.len() == 0 {
        Some(Seq::empty())
    } else {
        match (groups_json(gs.drop_last(), indent, to_camel), node_json(gs.last(), indent, to_camel)) {
            (Some(p), Some(x)) => Some(p.push(x)),
            _ => None,
        }
    }
}

proof fn lemma_groups_json_none(gs: Seq<Seq<NodeStrResultView>>, i: int, indent: int, to_camel: bool)
    requires
        0 <= i < gs.len(),
        node_json(gs[i], indent, to_camel) is None,
    ensures
        groups_json(gs, indent, to_camel) is None,
    decreases gs.len(),
{
    if i < gs.len() - 1 {
        assert(gs.drop_last()[i] == gs[i]);
        lemma_groups_json_none(gs.drop_last(), i, indent, to_camel);
    }
}

fn node_to_json(nodes: &Vec<NodeStrResult>, state: &mut State) -> (r: Option<String>)
    requires
        nodes@.len() >= 1,
    ensures
        final(state)@ == old(state)@,
        opt_text(r) == node_json(results_view(nodes@), old(state)@.curr_indent as int, old(state)@.to_camel_case),
{
    if nodes.len() > 1 {
        Some(build_array_json(nodes, state))
    } else {
        let defined = if nodes[0].xml_attributes_str.as_str().is_empty() {
            proof {
                reveal_strlit("null");
            }
            remove_third_last("null").is_some()
        } else {
            remove_third_last(nodes[0].xml_attributes_str.as_str()).is_some()
        };
        proof {
            assert(results_view(nodes@)[0] == nodes@[0]@);
        }
        if defined {
            Some(build_object_json(&nodes[0], state))
        } else {
            None
        }
    }
}

/// A plain value as a JSON value: `null` for an empty text, a number as it is, any other
/// text quoted.
pub open spec fn json_value_text(v: Seq<char>) -> Seq<char> {
    if v.len() == 0 {
        "null"@
    } else if parses_as_i32(v) {
        v
    } else {
        "\""@ + v + "\""@
    }
}

/// How a plain value is written as a JSON value: an empty text as `null`, a text that reads
/// as an `i32` unchanged, and any other text as a JSON string, that is the text itself
/// between two double quotes.
pub proof fn lemma_json_value_text(v: Seq<char>)
    ensures
        v.len() == 0 ==> json_value_text(v) == "null"@,
        v.len() > 0 && parses_as_i32(v) ==> json_value_text(v) == v,
        v.len() > 0 && !parses_as_i32(v) ==> {
            let w = json_value_text(v);
            &&& w.len() == v.len() + 2
            &&& w[0] == '"'
            &&& w[w.len() - 1] == '"'
            &&& w.subrange(1, w.len() - 1) == v
        },
{
    reveal_strlit("\"");
    if v.len() > 0 && !parses_as_i32(v) {
        let w = json_value_text(v);
        assert(w.subrange(1, w.len() - 1) =~= v);
    }
}

/// Writes the plain value `str_val` as the innermost element's result: as a JSON value on a
/// new line two steps in, with the element's name (or `unknown`) and its attribute text.
pub fn add_key_val_node_result(state: &mut State, str_val: &String)
    requires
        old(state)@.nodes.len() > 0,
    ensures
        final(state)@ == old(state)@.with_last_result(
            NodeStrResultView {
                str_value: indentation(old(state)@.curr_indent as int) + "  "@ + json_value_text(str_val@),
                xml_attributes_str: attributes_text_of(
                    old(state)@.curr_indent as int,
                    old(state)@.nodes.last().xml_attributes,
                ),
                key: key_or_unknown(old(state)@.nodes.last().node_key),
                is_object: false,
            },
        ),
{
    let len = state.nodes.len() - 1;
    let key = match &state.nodes[len].node_key {
        Some(some_key) => some_key.clone(),
        None => string_of("unknown"),
    };
    let attrs = copy_attributes(&state.nodes[len].xml_attributes);
    let mut xml_attributes_str = String::new();
    let _ = get_xml_attributes(&attrs, state, &mut xml_attributes_str);
    let new_str = if str_val.as_str().is_empty() {
        string_of("null")
    } else if parses_as_i32_exec(str_val.as_str()) {
        str_val.clone()
    } else {
        let mut q = string_of("\"");
        push_str(&mut q, str_val.as_str());
        push_str(&mut q, "\"");
        q
    };
    let mut new_str_indented = state.get_indentation_str();
    push_str(&mut new_str_indented, "  ");
    push_str(&mut new_str_indented, new_str.as_str());
    proof {
        reveal_strlit("null");
        reveal_strlit("unknown");
        reveal_strlit("\"");
        reveal_strlit("  ");
        assert(new_str@ == json_value_text(str_val@));
    }
    let node_res = NodeStrResult { str_value: new_str_indented, xml_attributes_str, key, is_object: false };
    state.update_node_key_val(node_res);
}

/// The result of the innermost element of `s`: its plain value as it is, or the object built
/// from its children's groups (`None` where building one of them panics).
pub open spec fn node_value_of(s: StateView) -> Option<NodeStrResultView> {
    let n = s.nodes.last();
    let indent = s.curr_indent as int;
    match n.child_node_result {
        ChildNodesOrKeyValView::KeyValue(r) => Some(r),
        ChildNodesOrKeyValView::ChildNodes(c) => match groups_json(key_runs(c), indent, s.to_camel_case) {
            Some(parts) => Some(
                NodeStrResultView {
                    str_value: "{\n"@ + joined(parts, ",\n"@) + "\n"@ + indentation(indent) + "}"@,
                    xml_attributes_str: attributes_text_of(indent, n.xml_attributes),
                    key: key_or_unknown(n.node_key),
                    is_object: true,
                },
            ),
            None => None,
        },
    }
}

fn child_nodes_or_key_val_handling(state: &mut State) -> (r: Option<NodeStrResult>)
    requires
        old(state)@.nodes.len() > 0,
    ensures
        final(state)@ == old(state)@,
        match r {
            Some(n) => node_value_of(old(state)@) == Some(n@),
            None => node_value_of(old(state)@) is None,
        },
{
    let len = state.nodes.len() - 1;
    let key = match &state.nodes[len].node_key {
        Some(some_key) => some_key.clone(),
        None => string_of("unknown"),
    };
    proof {
        reveal_strlit("unknown");
    }
    let attrs = copy_attributes(&state.nodes[len].xml_attributes);
    let mut xml_attributes_str = String::new();
    get_xml_attributes(&attrs, state, &mut xml_attributes_str);
    let ghost nr = state@.nodes.last().child_node_result;
    let ghost indent = state.curr_indent as int;
    let ghost camel = state.to_camel_case;
    match &state.nodes[len].child_node_result {
        ChildNodesOrKeyVal::KeyValue(node_res) => {
            let n = NodeStrResult {
                xml_attributes_str: node_res.xml_attributes_str.clone(),
                str_value: node_res.str_value.clone(),
                key: node_res.key.clone(),
                is_object: node_res.is_object,
            };
            Some(n)
        },
        ChildNodesOrKeyVal::ChildNodes(child_nodes) => {
            proof {
                assert(nr == ChildNodesOrKeyValView::ChildNodes(results_view(child_nodes@)));
            }
            let groups = group_by_key(child_nodes);
            let ghost cv = results_view(child_nodes@);
            let ghost gs = key_runs(cv);
            proof {
                crate::if_to_json::json_build::lemma_key_runs_nonempty(cv);
            }
            let mut parts: Vec<String> = Vec::new();
            let mut i: usize = 0;
            while i < groups.len()
                invariant
                    i <= groups.len(),
                    groups_view(groups@) == gs,
                    forall|k: int| 0 <= k < gs.len() ==> #[trigger] gs[k].len() > 0,
                    groups_json(gs.take(i as int), indent, camel) == Some(texts_view(parts@)),
                    state@ == old(state)@,
                    indent == state.curr_indent as int,
                    camel == state.to_camel_case,
                    nr == old(state)@.nodes.last().child_node_result,
                    nr == ChildNodesOrKeyValView::ChildNodes(cv),
                    gs == key_runs(cv),
                decreases groups.len() - i,
            {
                proof {
                    assert(groups_view(groups@)[i as int] == results_view(groups@[i as int]@));
                    assert(gs.take(i + 1).drop_last() =~= gs.take(i as int));
                }
                match node_to_json(&groups[i], state) {
                    Some(x) => {
                        let ghost p0 = parts@;
                        parts.push(x);
                        proof {
                            crate::text::lemma_texts_push(p0, x);
                        }
                    },
                    None => {
                        proof {
                            lemma_groups_json_none(gs, i as int, indent, camel);
                        }
                        return None;
                    },
                }
                i = i + 1;
            }
            proof {
                assert(gs.take(groups.len() as int) =~= gs);
            }
            let children_as_str = join(&parts, ",\n");
            let indent_str = state.get_indentation_str();
            let mut final_node_str = string_of("{\n");
            push_str(&mut final_node_str, children_as_str.as_str());
            push_str(&mut final_node_str, "\n");
            push_str(&mut final_node_str, indent_str.as_str());
            push_str(&mut final_node_str, "}");
            proof {
                reveal_strlit("{\n");
                reveal_strlit("\n");
                reveal_strlit("}");
                assert(final_node_str@ =~= "{\n"@ + joined(texts_view(parts@), ",\n"@) + "\n"@ + indentation(indent) + "}"@);
            }
            Some(NodeStrResult { str_value: final_node_str, xml_attributes_str, key, is_object: true })
        },
    }
}

/// Hands the innermost element's result to the element under it and closes the element.
pub fn json_construct(state: &mut State)
    requires
        old(state)@.nodes.len() >= 2,
        node_value_of(old(state)@) is Some,
    ensures
        final(state)@ == old(state)@.with_parent_result(node_value_of(old(state)@)->0).popped(),
{
    match child_nodes_or_key_val_handling(state) {
        Some(node) => {
            state.update_node_result_parent(node);
            state.nodes.pop();
            proof {
                assert(state@.nodes =~= old(state)@.with_parent_result(node_value_of(old(state)@)->0).popped().nodes);
            }
        },
        None => {},
    }
}

/// Builds the JSON of the outermost element as the reading's result, without leading blanks.
pub fn construct_last(state: &mut State)
    requires
        old(state)@.nodes.len() >= 1,
        node_value_of(old(state)@) matches Some(n) && object_json_defined(n),
    ensures
        final(state)@ == (StateView {
            str_json: Some(
                trimmed_start(
                    object_json_text(
                        node_value_of(old(state)@)->0,
                        old(state)@.curr_indent as int,
                        old(state)@.to_camel_case,
                    ),
                ),
            ),
            ..old(state)@
        }),
{
    match child_nodes_or_key_val_handling(state) {
        Some(node) => {
            let text = build_object_json(&node, state);
            state.str_json = Some(trim_start(text.as_str()));
        },
        None => {},
    }
}

} // verus!
