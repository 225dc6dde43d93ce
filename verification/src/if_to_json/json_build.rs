use iter_tools::Itertools;
use vstd::prelude::*;

use crate::json_to_xml::state::indentation;
use crate::text::{
    char_starts_at_byte, join, utf8_byte_len, joined, parses_as_i32, parses_as_i32_exec, push_str, remove_at_byte, str_eq,
    string_of, texts_view, trim, trimmed, utf8_char_len_exec, utf8_len,
};
use super::{
    attributes_view, results_view, ChildNodesOrKeyVal, ChildNodesOrKeyValView, NodeStrResult, NodeStrResultView,
    State, StateView, XmlAttribute, XmlAttributeView,
};

verus! {

/// One attribute written as a JSON member after `inner`: `"key": "value"`.
pub open spec fn attribute_line(inner: Seq<char>, a: XmlAttributeView) -> Seq<char> {
    inner + "\""@ + a.attribute_key + "\": \""@ + a.attribute_val + "\""@
}

/// The JSON object of the attributes `attrs` of an element at depth `indent`, one member a line.
pub open spec fn attributes_object(indent: int, attrs: Seq<XmlAttributeView>) -> Seq<char> {
    attributes_object_at(indentation(indent), attrs)
}

/// The JSON object of the attributes `attrs` after the line break and indentation `ind`.
pub open spec fn attributes_object_at(ind: Seq<char>, attrs: Seq<XmlAttributeView>) -> Seq<char> {
    let outer = ind + " "@;
    let inner = outer + " "@;
    outer + "{\n"@ + joined(attrs.map_values(|a: XmlAttributeView| attribute_line(inner, a)), ",\n"@) + "\n"@ + outer
        + "}"@
}

/// The JSON object of `attributes` after the line break and indentation `ind`
/// (see [`attributes_object_at`]).
pub(crate) fn attributes_object_text(ind: &String, attributes: &Vec<XmlAttribute>) -> (r: String)
    ensures
        r@ == attributes_object_at(ind@, attributes_view(attributes@)),
{
    let mut indent_str_inner = ind.clone();
    push_str(&mut indent_str_inner, " ");
    let mut indent_str_inner_array = indent_str_inner.clone();
    push_str(&mut indent_str_inner_array, " ");
    proof {
        reveal_strlit(" ");
    }
    let ghost inner = indent_str_inner_array@;
    let ghost lines_spec = attributes_view(attributes@).map_values(|a: XmlAttributeView| attribute_line(inner, a));
    let mut lines: Vec<String> = Vec::new();
    let mut i: usize = 0;
    while i < attributes.len()
        invariant
            i <= attributes.len(),
            inner == indent_str_inner_array@,
            lines_spec == attributes_view(attributes@).map_values(|a: XmlAttributeView| attribute_line(inner, a)),
            texts_view(lines@) =~= lines_spec.take(i as int),
        decreases attributes.len() - i,
    {
        let mut line = indent_str_inner_array.clone();
        push_str(&mut line, "\"");
        push_str(&mut line, attributes[i].attribute_key.as_str());
        push_str(&mut line, "\": \"");
        push_str(&mut line, attributes[i].attribute_val.as_str());
        push_str(&mut line, "\"");
        proof {
            reveal_strlit("\"");
            reveal_strlit("\": \"");
            assert(line@ =~= attribute_line(inner, attributes@[i as int]@));
            assert(lines_spec[i as int] == attribute_line(inner, attributes_view(attributes@)[i as int]));
        }
        let ghost l0 = lines@;
        lines.push(line);
        proof {
            crate::text::lemma_texts_push(l0, line);
            assert(lines_spec.take(i + 1) =~= lines_spec.take(i as int).push(lines_spec[i as int]));
        }
        i = i + 1;
    }
    let chunks = join(&lines, ",\n");
    let mut out = indent_str_inner.clone();
    push_str(&mut out, "{\n");
    push_str(&mut out, chunks.as_str());
    push_str(&mut out, "\n");
    push_str(&mut out, indent_str_inner.as_str());
    push_str(&mut out, "}");
    proof {
        reveal_strlit("{\n");
        reveal_strlit("\n");
        reveal_strlit("}");
        assert(texts_view(lines@) =~= lines_spec);
        assert(out@ =~= attributes_object_at(ind@, attributes_view(attributes@)));
    }
    out
}

/// Writes the attributes `attributes` as a JSON object into `attr_str` (see
/// [`attributes_object`]); returns whether there was any, leaving `attr_str` as it was otherwise.
pub fn get_xml_attributes(attributes: &Vec<XmlAttribute>, state: &mut State, attr_str: &mut String) -> (r: bool)
    ensures
        final(state)@ == old(state)@,
        r == (attributes@.len() > 0),
        r ==> final(attr_str)@ == attributes_object(old(state)@.curr_indent as int, attributes_view(attributes@)),
        !r ==> final(attr_str)@ == old(attr_str)@,
{
    let ind = state.get_indentation_str();
    if attributes.len() > 0 {
        *attr_str = attributes_object_text(&ind, attributes);
        true
    } else {
        false
    }
}

/// `s`, or `null` when it is empty.
pub open spec fn or_null(s: Seq<char>) -> Seq<char> {
    if s.len() == 0 {
        "null"@
    } else {
        s
    }
}

/// The JSON of the elements `nodes`, all named like the first, as an array member; their
/// attribute objects follow as a second array when any element has attributes.
pub open spec fn array_json_text(nodes: Seq<NodeStrResultView>, indent: int) -> Seq<char> {
    let ind = indentation(indent);
    let key = nodes[0].key;
    let comps = joined(nodes.map_values(|x: NodeStrResultView| x.str_value), ",\n"@);
    let attrs = nodes.map_values(|x: NodeStrResultView| or_null(x.xml_attributes_str));
    let all_null = forall|i: int| 0 <= i < attrs.len() ==> attrs[i] == "null"@;
    let main = ind + "\""@ + key + "\": [\n"@ + comps + "\n"@ + ind + "]"@;
    if all_null {
        main
    } else {
        main + ",\n"@ + ind + "\""@ + key + "_attributes\": [\n"@ + joined(attrs, ",\n"@) + "\n"@ + ind + "]"@
    }
}

/// Builds the JSON of several elements with the same name (see [`array_json_text`]).
pub fn build_array_json(nodes: &Vec<NodeStrResult>, state: &mut State) -> (r: String)
    requires
        nodes@.len() >= 1,
    ensures
        final(state)@ == old(state)@,
        r@ == array_json_text(results_view(nodes@), old(state)@.curr_indent as int),
{
    let indent_str = state.get_indentation_str();
    let key = nodes[0].key.clone();
    let ghost nv = results_view(nodes@);
    let ghost comps_spec = nv.map_values(|x: NodeStrResultView| x.str_value);
    let ghost attrs_spec = nv.map_values(|x: NodeStrResultView| or_null(x.xml_attributes_str));
    let mut comps: Vec<String> = Vec::new();
    let mut attrs: Vec<String> = Vec::new();
    let mut all_attr_null = true;
    let mut i: usize = 0;
    while i < nodes.len()
        invariant
            i <= nodes.len(),
            nv == results_view(nodes@),
            comps_spec == nv.map_values(|x: NodeStrResultView| x.str_value),
            attrs_spec == nv.map_values(|x: NodeStrResultView| or_null(x.xml_attributes_str)),
            texts_view(comps@) =~= comps_spec.take(i as int),
            texts_view(attrs@) =~= attrs_spec.take(i as int),
            all_attr_null == (forall|k: int| 0 <= k < i ==> attrs_spec[k] == "null"@),
        decreases nodes.len() - i,
    {
        let c = nodes[i].str_value.clone();
        let a = if nodes[i].xml_attributes_str.as_str().is_empty() {
            string_of("null")
        } else {
            nodes[i].xml_attributes_str.clone()
        };
        proof {
            reveal_strlit("null");
            assert(attrs_spec[i as int] == or_null(nodes@[i as int].xml_attributes_str@));
            assert(comps_spec[i as int] == nodes@[i as int].str_value@);
        }
        if !str_eq(a.as_str(), "null") {
            all_attr_null = false;
        }
        let ghost c0 = comps@;
        let ghost a0 = attrs@;
        comps.push(c);
        attrs.push(a);
        proof {
            crate::text::lemma_texts_push(c0, c);
            crate::text::lemma_texts_push(a0, a);
            assert(comps_spec.take(i + 1) =~= comps_spec.take(i as int).push(comps_spec[i as int]));
            assert(attrs_spec.take(i + 1) =~= attrs_spec.take(i as int).push(attrs_spec[i as int]));
        }
        i = i + 1;
    }
    proof {
        assert(texts_view(comps@) =~= comps_spec);
        assert(texts_view(attrs@) =~= attrs_spec);
    }
    let array_components = join(&comps, ",\n");
    let xml_attributes_str = join(&attrs, ",\n");
    let mut out = indent_str.clone();
    push_str(&mut out, "\"");
    push_str(&mut out, key.as_str());
    push_str(&mut out, "\": [\n");
    push_str(&mut out, array_components.as_str());
    push_str(&mut out, "\n");
    push_str(&mut out, indent_str.as_str());
    push_str(&mut out, "]");
    if !all_attr_null {
        push_str(&mut out, ",\n");
        push_str(&mut out, indent_str.as_str());
        push_str(&mut out, "\"");
        push_str(&mut out, key.as_str());
        push_str(&mut out, "_attributes\": [\n");
        push_str(&mut out, xml_attributes_str.as_str());
        push_str(&mut out, "\n");
        push_str(&mut out, indent_str.as_str());
        push_str(&mut out, "]");
    }
    proof {
        reveal_strlit("\"");
        reveal_strlit("\": [\n");
        reveal_strlit("\n");
        reveal_strlit("]");
        reveal_strlit(",\n");
        reveal_strlit("_attributes\": [\n");
        assert(out@ =~= array_json_text(nv, old(state)@.curr_indent as int));
    }
    out
}

/// The trimmed `s` without the character that starts three bytes before its end, as
/// `String::remove` gives it, or `None` where that call panics.
pub open spec fn third_last_removed(s: Seq<char>) -> Option<Seq<char>> {
    let t = trimmed(s);
    let b = utf8_len(t) - 3;
    if b >= 0 && exists|k: int| char_starts_at_byte(t, b, k) {
        Some(t.remove(choose|k: int| char_starts_at_byte(t, b, k)))
    } else {
        None
    }
}

proof fn lemma_char_at_byte_unique(s: Seq<char>, b: int, k1: int, k2: int)
    requires
        char_starts_at_byte(s, b, k1),
        char_starts_at_byte(s, b, k2),
    ensures
        k1 == k2,
{
    if k1 < k2 {
        crate::text::lemma_utf8_len_grows(s, k1, k2);
    } else if k2 < k1 {
        crate::text::lemma_utf8_len_grows(s, k2, k1);
    }
}

pub(crate) fn remove_third_last(s: &str) -> (r: Option<String>)
    ensures
        opt_text(r) == third_last_removed(s@),
{
    let t = trim(s);
    let n = utf8_byte_len(t.as_str());
    if n < 3 {
        return None;
    }
    let r = remove_at_byte(t.as_str(), n - 3);
    proof {
        match r {
            Some(ref x) => {
                let b = (n - 3) as int;
                let k = choose|k: int| #[trigger] char_starts_at_byte(t@, b, k) && x@ == t@.remove(k);
                let k2 = choose|k: int| #[trigger] char_starts_at_byte(t@, b, k);
                lemma_char_at_byte_unique(t@, b, k, k2);
            },
            None => {},
        }
    }
    r
}

/// The characters of an optional string.
pub open spec fn opt_text(o: Option<String>) -> Option<Seq<char>> {
    match o {
        Some(s) => Some(s@),
        None => None,
    }
}

/// `build_object_json` can be built for `n`: both removals it makes are possible.
pub open spec fn object_json_defined(n: NodeStrResultView) -> bool {
    third_last_removed(n.str_value) is Some && third_last_removed(or_null(n.xml_attributes_str)) is Some
}

/// The JSON of one element with children as an object member; its attribute object, when it
/// has one, follows as a second member.
pub open spec fn object_json_text(n: NodeStrResultView, indent: int) -> Seq<char> {
    let ind = indentation(indent);
    let attr = or_null(n.xml_attributes_str);
    if attr != "null"@ {
        ind + "\""@ + n.key + "\": "@ + third_last_removed(n.str_value)->0 + ",\n"@ + ind + "\""@ + n.key
            + "_attributes\": "@ + third_last_removed(attr)->0
    } else {
        ind + "\""@ + n.key + "\": \n"@ + n.str_value
    }
}

/// Builds the JSON of one element with children (see [`object_json_text`]).
pub fn build_object_json(node: &NodeStrResult, state: &mut State) -> (r: String)
    requires
        object_json_defined(node@),
    ensures
        final(state)@ == old(state)@,
        r@ == object_json_text(node@, old(state)@.curr_indent as int),
{
    let indent_str = state.get_indentation_str();
    let xml_attributes_str = if node.xml_attributes_str.as_str().is_empty() {
        string_of("null")
    } else {
        node.xml_attributes_str.clone()
    };
    proof {
        reveal_strlit("null");
        assert(xml_attributes_str@ == or_null(node@.xml_attributes_str));
    }
    let new_node = match remove_third_last(node.str_value.as_str()) {
        Some(x) => x,
        None => String::new(),
    };
    let xml_attributes_str_new = match remove_third_last(xml_attributes_str.as_str()) {
        Some(x) => x,
        None => String::new(),
    };
    let mut out = indent_str.clone();
    push_str(&mut out, "\"");
    push_str(&mut out, node.key.as_str());
    if !str_eq(xml_attributes_str.as_str(), "null") {
        push_str(&mut out, "\": ");
        push_str(&mut out, new_node.as_str());
        push_str(&mut out, ",\n");
        push_str(&mut out, indent_str.as_str());
        push_str(&mut out, "\"");
        push_str(&mut out, node.key.as_str());
        push_str(&mut out, "_attributes\": ");
        push_str(&mut out, xml_attributes_str_new.as_str());
    } else {
        push_str(&mut out, "\": \n");
        push_str(&mut out, node.str_value.as_str());
    }
    proof {
        reveal_strlit("\"");
        reveal_strlit("\": ");
        reveal_strlit(",\n");
        reveal_strlit("_attributes\": ");
        reveal_strlit("\": \n");
        assert(out@ =~= object_json_text(node@, old(state)@.curr_indent as int));
    }
    out
}

/// The JSON value of a plain element value `v`: a number as it is, `null` as it is, any other
/// text quoted.
pub open spec fn simple_json_value(v: Seq<char>) -> Seq<char> {
    if v != "null"@ && parses_as_i32(v) {
        v
    } else if v != "null"@ {
        "\""@ + v + "\""@
    } else {
        v
    }
}

/// How a plain element value is written as a JSON value: `null` and a text that reads as
/// an `i32` as they are, and any other text as a JSON string, that is the text itself
/// between two double quotes.
pub proof fn lemma_simple_json_value(v: Seq<char>)
    ensures
        v == "null"@ ==> simple_json_value(v) == v,
        parses_as_i32(v) ==> simple_json_value(v) == v,
        v != "null"@ && !parses_as_i32(v) ==> {
            let w = simple_json_value(v);
            &&& w.len() == v.len() + 2
            &&& w[0] == '"'
            &&& w[w.len() - 1] == '"'
            &&& w.subrange(1, w.len() - 1) == v
        },
{
    reveal_strlit("\"");
    if v != "null"@ && !parses_as_i32(v) {
        let w = simple_json_value(v);
        assert(w.subrange(1, w.len() - 1) =~= v);
    }
}

/// The JSON of an element with a plain value as an object member; its attribute object,
/// when it has one, follows as a second member (the element's value is then written as a
/// JSON value, else as it stands).
pub open spec fn simple_json_text(n: NodeStrResultView, indent: int) -> Seq<char> {
    let ind = indentation(indent);
    let attr = or_null(n.xml_attributes_str);
    if attr != "null"@ {
        ind + "\""@ + n.key + "\": "@ + simple_json_value(n.str_value) + ",\n"@ + ind + ind + "\""@ + n.key
            + "_attributes\": "@ + attr
    } else {
        ind + "\""@ + n.key + "\": "@ + n.str_value
    }
}

fn build_json_simple_val(node: &NodeStrResult, state: &mut State) -> (r: String)
    ensures
        final(state)@ == old(state)@,
        r@ == simple_json_text(node@, old(state)@.curr_indent as int),
{
    let indent_str = state.get_indentation_str();
    let xml_attributes_str = if node.xml_attributes_str.as_str().is_empty() {
        string_of("null")
    } else {
        node.xml_attributes_str.clone()
    };
    proof {
        reveal_strlit("null");
    }
    let is_null = str_eq(node.str_value.as_str(), "null");
    let json_val = if !is_null && parses_as_i32_exec(node.str_value.as_str()) {
        node.str_value.clone()
    } else if !is_null {
        let mut q = string_of("\"");
        push_str(&mut q, node.str_value.as_str());
        push_str(&mut q, "\"");
        q
    } else {
        node.str_value.clone()
    };
    let mut out = indent_str.clone();
    push_str(&mut out, "\"");
    push_str(&mut out, node.key.as_str());
    push_str(&mut out, "\": ");
    if !str_eq(xml_attributes_str.as_str(), "null") {
        push_str(&mut out, json_val.as_str());
        push_str(&mut out, ",\n");
        push_str(&mut out, indent_str.as_str());
        push_str(&mut out, indent_str.as_str());
        push_str(&mut out, "\"");
        push_str(&mut out, node.key.as_str());
        push_str(&mut out, "_attributes\": ");
        push_str(&mut out, xml_attributes_str.as_str());
    } else {
        push_str(&mut out, node.str_value.as_str());
    }
    proof {
        reveal_strlit("\"");
        reveal_strlit("\": ");
        reveal_strlit(",\n");
        reveal_strlit("_attributes\": ");
        assert(json_val@ == simple_json_value(node@.str_value));
        assert(out@ =~= simple_json_text(node@, old(state)@.curr_indent as int));
    }
    out
}

/// The attribute text of an element: its attribute object, or nothing when it has none.
pub open spec fn attributes_text_of(indent: int, attrs: Seq<XmlAttributeView>) -> Seq<char> {
    if attrs.len() > 0 {
        attributes_object(indent, attrs)
    } else {
        Seq::empty()
    }
}

/// An element's name, or `unknown` when it has none.
pub open spec fn key_or_unknown(k: Option<Seq<char>>) -> Seq<char> {
    match k {
        Some(x) => x,
        None => "unknown"@,
    }
}

/// The runs of neighbouring results with equal names, in order (what `Itertools::group_by`
/// on the name gives).
pub open spec fn key_runs(items: Seq<NodeStrResultView>) -> Seq<Seq<NodeStrResultView>>
    decreases items.len(),
{
    if items.len() == 0 {
        Seq::empty()
    } else {
        let prev = key_runs(items.drop_last());
        let x = items.last();
        if prev.len() > 0 && prev.last().last().key == x.key {
            prev.update(prev.len() - 1, prev.last().push(x))
        } else {
            prev.push(seq![x])
        }
    }
}

/// Grouping by name keeps every result, in order: the groups, joined, give back the results.
pub proof fn lemma_key_runs_keep_items(items: Seq<NodeStrResultView>)
    ensures
        key_runs(items).flatten() == items,
{
    lemma_key_runs_flatten_alt(items);
    key_runs(items).lemma_flatten_and_flatten_alt_are_equivalent();
}

proof fn lemma_key_runs_flatten_alt(items: Seq<NodeStrResultView>)
    ensures
        key_runs(items).flatten_alt() == items,
    decreases items.len(),
{
    if items.len() > 0 {
        lemma_key_runs_flatten_alt(items.drop_last());
        let prev = key_runs(items.drop_last());
        let x = items.last();
        let k = key_runs(items);
        if prev.len() > 0 && prev.last().last().key == x.key {
            assert(k.drop_last() =~= prev.drop_last());
            assert(k.last() == prev.last().push(x));
            assert(prev.flatten_alt() == prev.drop_last().flatten_alt() + prev.last());
            assert(k.flatten_alt() == k.drop_last().flatten_alt() + k.last());
            let a = prev.drop_last().flatten_alt();
            assert(a + prev.last().push(x) =~= (a + prev.last()).push(x));
            assert(items =~= items.drop_last().push(x));
            assert(k.flatten_alt() =~= items);
        } else {
            assert(k.drop_last() =~= prev);
            assert(k.flatten_alt() == k.drop_last().flatten_alt() + k.last());
            assert(k.flatten_alt() =~= items);
        }
    } else {
        assert(key_runs(items).len() == 0);
        assert(items =~= Seq::<NodeStrResultView>::empty());
    }
}

/// Neighbouring groups have different names, and within a group all share the first's name.
pub proof fn lemma_key_runs_are_runs(items: Seq<NodeStrResultView>)
    ensures
        forall|i: int, j: int|
            0 <= i < key_runs(items).len() && 0 <= j < key_runs(items)[i].len() ==> (#[trigger] key_runs(items)[i][j]).key
                == key_runs(items)[i][0].key,
        forall|i: int|
            0 < i < key_runs(items).len() ==> (#[trigger] key_runs(items)[i])[0].key != key_runs(items)[i - 1].last().key,
    decreases items.len(),
{
    if items.len() > 0 {
        lemma_key_runs_are_runs(items.drop_last());
        lemma_key_runs_nonempty(items.drop_last());
        lemma_key_runs_nonempty(items);
        let prev = key_runs(items.drop_last());
        let x = items.last();
        let k = key_runs(items);
        if prev.len() > 0 && prev.last().last().key == x.key {
            assert forall|i: int, j: int| 0 <= i < k.len() && 0 <= j < k[i].len() implies (#[trigger] k[i][j]).key == k[i][0].key by {
                if i < k.len() - 1 {
                    assert(k[i] == prev[i]);
                } else {
                    assert(k[i] == prev.last().push(x));
                    if j < k[i].len() - 1 {
                        assert(k[i][j] == prev[i][j]);
                        assert(prev[i].len() > 0);
                        assert(k[i][0] == prev[i][0]);
                    } else {
                        assert(prev[i].len() > 0);
                        assert(prev[i][prev[i].len() - 1].key == prev[i][0].key);
                    }
                }
            }
            assert forall|i: int| 0 < i < k.len() implies (#[trigger] k[i])[0].key != k[i - 1].last().key by {
                assert(k[i - 1] == prev[i - 1]);
                if i < k.len() - 1 {
                    assert(k[i] == prev[i]);
                } else {
                    assert(k[i] == prev.last().push(x));
                    assert(prev[i].len() > 0);
                    assert(k[i][0] == prev[i][0]);
                }
            }
        } else {
            assert forall|i: int, j: int| 0 <= i < k.len() && 0 <= j < k[i].len() implies (#[trigger] k[i][j]).key == k[i][0].key by {
                if i < k.len() - 1 {
                    assert(k[i] == prev[i]);
                }
            }
            assert forall|i: int| 0 < i < k.len() implies (#[trigger] k[i])[0].key != k[i - 1].last().key by {
                assert(k[i - 1] == prev[i - 1]);
                if i < k.len() - 1 {
                    assert(k[i] == prev[i]);
                }
            }
        }
    }
}

/// The views of a list of groups of results.
pub open spec fn groups_view(v: Seq<Vec<NodeStrResult>>) -> Seq<Seq<NodeStrResultView>> {
    v.map_values(|g: Vec<NodeStrResult>| results_view(g@))
}

/// Groups `items` into runs of neighbours with equal names (`Itertools::group_by` on the
/// name, each group collected). The itertools documentation states that consecutive elements
/// with the same key form one group, which [`key_runs`] writes out.
#[verifier::external_body]
pub(crate) fn group_by_key(items: &Vec<NodeStrResult>) -> (r: Vec<Vec<NodeStrResult>>)
    ensures
        groups_view(r@) == key_runs(results_view(items@)),
{
    let grouped = items.iter().group_by(|x| &x.key);
    let mut out: Vec<Vec<NodeStrResult>> = Vec::new();
    for (_, g) in &grouped {
        out.push(g.cloned().collect());
    }
    out
}

pub(crate) proof fn lemma_key_runs_nonempty(items: Seq<NodeStrResultView>)
    ensures
        forall|i: int| 0 <= i < key_runs(items).len() ==> #[trigger] key_runs(items)[i].len() > 0,
    decreases items.len(),
{
    if items.len() > 0 {
        lemma_key_runs_nonempty(items.drop_last());
        let prev = key_runs(items.drop_last());
        let x = items.last();
        if prev.len() > 0 && prev.last().last().key == x.key {
            assert(prev[prev.len() - 1].len() > 0);
            assert forall|i: int| 0 <= i < key_runs(items).len() implies #[trigger] key_runs(items)[i].len() > 0 by {
                if i < prev.len() - 1 {
                    assert(key_runs(items)[i] == prev[i]);
                }
            }
        } else {
            assert forall|i: int| 0 <= i < key_runs(items).len() implies #[trigger] key_runs(items)[i].len() > 0 by {
                if i < prev.len() {
                    assert(key_runs(items)[i] == prev[i]);
                }
            }
        }
    }
}

/// The JSON of one group of equally named results: an array member for several, an object
/// member for one (`None` where building it panics).
pub open spec fn node_json(g: Seq<NodeStrResultView>, indent: int) -> Option<Seq<char>> {
    if g.len() > 1 {
        Some(array_json_text(g, indent))
    } else if object_json_defined(g[0]) {
        Some(object_json_text(g[0], indent))
    } else {
        None
    }
}

/// The JSON of each group, or `None` when one of them cannot be built.
pub open spec fn groups_json(gs: Seq<Seq<NodeStrResultView>>, indent: int) -> Option<Seq<Seq<char>>>
    decreases gs.len(),
{
    if gs.len() == 0 {
        Some(Seq::empty())
    } else {
        match (groups_json(gs.drop_last(), indent), node_json(gs.last(), indent)) {
            (Some(p), Some(x)) => Some(p.push(x)),
            _ => None,
        }
    }
}

/// The JSON text of what an element holds: its plain value as a member, or its children's
/// groups, each as a member, one after the other.
pub open spec fn node_result_json(r: ChildNodesOrKeyValView, indent: int) -> Option<Seq<char>> {
    match r {
        ChildNodesOrKeyValView::KeyValue(n) => Some(simple_json_text(n, indent)),
        ChildNodesOrKeyValView::ChildNodes(c) => match groups_json(key_runs(c), indent) {
            Some(parts) => Some(joined(parts, ",\n"@)),
            None => None,
        },
    }
}

fn node_to_json(nodes: &Vec<NodeStrResult>, state: &mut State) -> (r: Option<String>)
    requires
        nodes@.len() >= 1,
    ensures
        final(state)@ == old(state)@,
        opt_text(r) == node_json(results_view(nodes@), old(state)@.curr_indent as int),
{
    if nodes.len() > 1 {
        Some(build_array_json(nodes, state))
    } else {
        let s = nodes[0].str_value.as_str();
        let defined = match remove_third_last(s) {
            Some(_) => {
                if nodes[0].xml_attributes_str.as_str().is_empty() {
                    proof {
                        reveal_strlit("null");
                    }
                    remove_third_last("null").is_some()
                } else {
                    remove_third_last(nodes[0].xml_attributes_str.as_str()).is_some()
                }
            },
            None => false,
        };
        proof {
            assert(results_view(nodes@)[0] == nodes@[0]@);
        }
        if defined {
            Some(build_object_json(&nodes[0], state))
        } else {
            None
        }
    }
}

/// Writes the plain value `str_val` (or `null` when it is empty) as the innermost element's
/// result, with its name (or `unknown`) and its attribute text.
pub fn add_key_val_node_result(state: &mut State, str_val: &String)
    requires
        old(state)@.nodes.len() > 0,
    ensures
        final(state)@ == old(state)@.with_last_result(
            NodeStrResultView {
                str_value: or_null(str_val@),
                xml_attributes_str: attributes_text_of(
                    old(state)@.curr_indent as int,
                    old(state)@.nodes.last().xml_attributes,
                ),
                key: key_or_unknown(old(state)@.nodes.last().node_key),
                is_object: false,
            },
        ),
{
    let len = state.nodes.len() - 1;
    let key = match &state.nodes[len].node_key {
        Some(some_key) => some_key.clone(),
        None => string_of("unknown"),
    };
    let attrs = copy_attributes(&state.nodes[len].xml_attributes);
    let mut xml_attributes_str = String::new();
    let _ = get_xml_attributes(&attrs, state, &mut xml_attributes_str);
    let new_str = if str_val.as_str().is_empty() {
        string_of("null")
    } else {
        str_val.clone()
    };
    proof {
        reveal_strlit("null");
        reveal_strlit("unknown");
    }
    let node_res = NodeStrResult { str_value: new_str, xml_attributes_str, key, is_object: false };
    state.update_node_result(node_res);
}

pub(crate) fn copy_attributes(v: &Vec<XmlAttribute>) -> (r: Vec<XmlAttribute>)
    ensures
        attributes_view(r@) == attributes_view(v@),
{
    let mut r: Vec<XmlAttribute> = Vec::new();
    let mut i: usize = 0;
    while i < v.len()
        invariant
            i <= v.len(),
            r.len() == i,
            attributes_view(r@) =~= attributes_view(v@).take(i as int),
        decreases v.len() - i,
    {
        let x = XmlAttribute { attribute_key: v[i].attribute_key.clone(), attribute_val: v[i].attribute_val.clone() };
        let ghost r0 = r@;
        r.push(x);
        proof {
            assert forall|j: int| 0 <= j < i + 1 implies #[trigger] attributes_view(r@)[j] == attributes_view(v@).take(
                i + 1,
            )[j] by {
                if j < i {
                    assert(r@[j] == r0[j]);
                    assert(attributes_view(r0)[j] == attributes_view(v@).take(i as int)[j]);
                }
            }
            assert(attributes_view(r@) =~= attributes_view(v@).take(i + 1));
        }
        i = i + 1;
    }
    proof {
        assert(attributes_view(v@).take(v.len() as int) =~= attributes_view(v@));
    }
    r
}

fn child_nodes_or_key_val_handling(state: &mut State) -> (r: Option<String>)
    requires
        old(state)@.nodes.len() > 0,
    ensures
        final(state)@ == old(state)@,
        opt_text(r) == node_result_json(old(state)@.nodes.last().node_result, old(state)@.curr_indent as int),
{
    let len = state.nodes.len() - 1;
    let ghost nr = state@.nodes.last().node_result;
    let ghost indent = state.curr_indent as int;
    match &state.nodes[len].node_result {
        ChildNodesOrKeyVal::KeyValue(node_res) => {
            let n = NodeStrResult {
                xml_attributes_str: node_res.xml_attributes_str.clone(),
                str_value: node_res.str_value.clone(),
                key: node_res.key.clone(),
                is_object: node_res.is_object,
            };
            Some(build_json_simple_val(&n, state))
        },
        ChildNodesOrKeyVal::ChildNodes(child_nodes) => {
            proof {
                assert(nr == ChildNodesOrKeyValView::ChildNodes(results_view(child_nodes@)));
            }
            let groups = group_by_key(child_nodes);
            let ghost cv = results_view(child_nodes@);
            let ghost gs = key_runs(cv);
            proof {
                lemma_key_runs_nonempty(results_view(child_nodes@));
            }
            let mut parts: Vec<String> = Vec::new();
            let mut i: usize = 0;
            while i < groups.len()
                invariant
                    i <= groups.len(),
                    groups_view(groups@) == gs,
                    forall|k: int| 0 <= k < gs.len() ==> #[trigger] gs[k].len() > 0,
                    groups_json(gs.take(i as int), indent) == Some(texts_view(parts@)),
                    state@ == old(state)@,
                    indent == state.curr_indent as int,
                    nr == old(state)@.nodes.last().node_result,
                    nr == ChildNodesOrKeyValView::ChildNodes(cv),
                    gs == key_runs(cv),
                decreases groups.len() - i,
            {
                proof {
                    assert(groups_view(groups@)[i as int] == results_view(groups@[i as int]@));
                    assert(gs.take(i + 1).drop_last() =~= gs.take(i as int));
                }
                match node_to_json(&groups[i], state) {
                    Some(x) => {
                        let ghost p0 = parts@;
                        parts.push(x);
                        proof {
                            crate::text::lemma_texts_push(p0, x);
                        }
                    },
                    None => {
                        proof {
                            lemma_groups_json_none(gs, i as int, indent);
                        }
                        return None;
                    },
                }
                i = i + 1;
            }
            proof {
                assert(gs.take(groups.len() as int) =~= gs);
            }
            Some(join(&parts, ",\n"))
        },
    }
}

proof fn lemma_groups_json_none(gs: Seq<Seq<NodeStrResultView>>, i: int, indent: int)
    requires
        0 <= i < gs.len(),
        node_json(gs[i], indent) is None,
    ensures
        groups_json(gs, indent) is None,
    decreases gs.len(),
{
    if i < gs.len() - 1 {
        assert(gs.drop_last()[i] == gs[i]);
        lemma_groups_json_none(gs.drop_last(), i, indent);
    }
}

/// The error for a removal that `String::remove` refuses.
pub open spec fn removal_message() -> Seq<char> {
    "cannot remove a char at the given byte index"@
}

/// What `json_construct` does in state `s`: the innermost element's JSON is handed to the
/// element under it, with its name and attribute text; for the outermost element it is
/// appended to the output as an object.
pub open spec fn constructed(s: StateView, r: Result<(), String>, t: StateView) -> bool {
    let n = s.nodes.last();
    match node_result_json(n.node_result, s.curr_indent as int) {
        None => r is Err && r->Err_0@ == removal_message(),
        Some(x) => r is Ok && if s.nodes.len() > 1 {
            t == s.with_parent_result(
                NodeStrResultView {
                    str_value: x,
                    xml_attributes_str: attributes_text_of(s.curr_indent as int, n.xml_attributes),
                    key: key_or_unknown(n.node_key),
                    is_object: true,
                },
            )
        } else {
            t == (StateView {
                curr_json: if s.curr_json.len() == 0 {
                    "{\n"@ + x + "\n}"@
                } else {
                    s.curr_json + ",\n{\n"@ + x + "\n}"@
                },
                ..s
            })
        },
    }
}

/// Hands the innermost element's JSON on (see [`constructed`]).
pub fn json_construct(state: &mut State) -> (r: Result<(), String>)
    requires
        old(state)@.nodes.len() > 0,
        forall|e: Result<(), String>, t: StateView| #[trigger] constructed(old(state)@, e, t) ==> e is Ok,
    ensures
        constructed(old(state)@, r, final(state)@),
{
    let len = state.nodes.len() - 1;
    let final_node_str = match child_nodes_or_key_val_handling(state) {
        Some(x) => x,
        None => {
            let msg = string_of("cannot remove a char at the given byte index");
            proof {
                reveal_strlit("cannot remove a char at the given byte index");
            }
            return Err(msg);
        },
    };
    let key = match &state.nodes[len].node_key {
        Some(some_key) => some_key.clone(),
        None => string_of("unknown"),
    };
    proof {
        reveal_strlit("unknown");
    }
    if state.nodes.len() > 1 {
        let attrs = copy_attributes(&state.nodes[len].xml_attributes);
        let mut xml_attributes_str = String::new();
        get_xml_attributes(&attrs, state, &mut xml_attributes_str);
        state.update_node_result_parent(NodeStrResult { str_value: final_node_str, xml_attributes_str, key, is_object: true });
    } else {
        let mut out = String::new();
        if state.curr_json.as_str().is_empty() {
            push_str(&mut out, "{\n");
        } else {
            push_str(&mut out, state.curr_json.as_str());
            push_str(&mut out, ",\n{\n");
        }
        push_str(&mut out, final_node_str.as_str());
        push_str(&mut out, "\n}");
        proof {
            reveal_strlit("{\n");
            reveal_strlit(",\n{\n");
            reveal_strlit("\n}");
        }
        state.curr_json = out;
        proof {
            assert(state@.curr_json =~= (if old(state)@.curr_json.len() == 0 {
                "{\n"@ + final_node_str@ + "\n}"@
            } else {
                old(state)@.curr_json + ",\n{\n"@ + final_node_str@ + "\n}"@
            }));
        }
    }
    Ok(())
}

} // verus!
