use vstd::prelude::*;

use crate::json_to_xml::state::{State, StateView};
use crate::text::{
    chars_of, chars_range, join, joined, occurs_at, occurs_at_exec, push_str, replace_all, replaced,
    string_of, texts_view, utf8_char_len, utf8_char_len_exec, utf8_len,
};
use super::models::{
    attrs_view, attr_lists_view, strings_view, XmlAttribute, XmlAttributeArrayinfo,
    XmlAttributeArrayinfoView, XmlAttributeNoAttributeInfo, XmlAttributeObjectInfo,
    XmlAttributeObjectInfoView, XmlAttributeView,
};

verus! {

/// The first position at or after `from` where `p` occurs in `s`, or -1;
/// an empty `p` occurs at every position up to the end.
pub open spec fn first_match_from(s: Seq<char>, p: Seq<char>, from: int) -> int
    decreases s.len() + 1 - from,
{
    if from < 0 || from > s.len() {
        -1
    } else if p.len() == 0 {
        from
    } else if from + p.len() > s.len() {
        -1
    } else if occurs_at(s, p, from) {
        from
    } else {
        first_match_from(s, p, from + 1)
    }
}

/// `s` with the text from the first occurrence of `key` up to the second one cut out, as
/// `remove_str_chunk_by_key` computes it: the occurrences are found by character, their
/// positions are counted in UTF-8 bytes and then used as character counts. `None` when
/// `key` occurs fewer than two times.
pub open spec fn chunk_removed(s: Seq<char>, key: Seq<char>) -> Option<Seq<char>> {
    let m0 = first_match_from(s, key, 0);
    let step = if key.len() == 0 { 1 } else { key.len() as int };
    let m1 = first_match_from(s, key, m0 + step);
    if m0 < 0 || m1 < 0 {
        None
    } else {
        let b0 = utf8_len(s.take(m0)) as int;
        let b1 = utf8_len(s.take(m1)) as int;
        let c0 = if b0 < s.len() { b0 } else { s.len() as int };
        let c1 = if b1 < s.len() { b1 } else { s.len() as int };
        Some(s.take(c0) + s.skip(c1))
    }
}

/// The message of the failure when an attribute group's id is not found twice.
pub open spec fn missing_group_id_message() -> Seq<char> {
    "attribute group id not found twice in the output"@
}

fn first_match_from_exec(v: &Vec<char>, p: &Vec<char>, from: usize) -> (r: Option<usize>)
    ensures
        match r {
            Some(i) => i as int == first_match_from(v@, p@, from as int),
            None => first_match_from(v@, p@, from as int) == -1,
        },
        r matches Some(i) ==> i <= v.len(),
{
    if from > v.len() {
        return None;
    }
    if p.len() == 0 {
        return Some(from);
    }
    let mut i = from;
    while i <= v.len() && p.len() <= v.len() - i
        invariant
            from <= i,
            p.len() > 0,
            from <= v.len(),
            i <= v.len() + 1,
            first_match_from(v@, p@, from as int) == first_match_from(v@, p@, i as int),
        decreases v.len() + 1 - i,
    {
        if occurs_at_exec(v, p, i) {
            return Some(i);
        }
        i = i + 1;
    }
    None
}

fn clamped_byte_offset(v: &Vec<char>, m: usize) -> (r: usize)
    requires
        m <= v.len(),
    ensures
        r == (if utf8_len(v@.take(m as int)) < v.len() { utf8_len(v@.take(m as int)) as int } else { v.len() as int }),
{
    let mut b: usize = 0;
    let mut i: usize = 0;
    while i < m
        invariant
            i <= m <= v.len(),
            b == (if utf8_len(v@.take(i as int)) < v.len() { utf8_len(v@.take(i as int)) as int } else { v.len() as int }),
        decreases m - i,
    {
        let x = utf8_char_len_exec(v[i]);
        proof {
            assert(v@.take(i + 1).drop_last() =~= v@.take(i as int));
        }
        if b < v.len() && x < v.len() - b {
            b = b + x;
        } else {
            b = v.len();
        }
        i = i + 1;
    }
    b
}

/// Cuts out of `str_val` the text from the first occurrence of `str_key` up to the second
/// (see [`chunk_removed`]). Fails, leaving `str_val` unchanged, when `str_key` is not found twice.
pub fn remove_str_chunk_by_key(str_val: &mut String, str_key: &String) -> (r: Result<(), String>)
    ensures
        chunk_removed(old(str_val)@, str_key@) matches Some(t) ==> r is Ok && final(str_val)@ == t,
        chunk_removed(old(str_val)@, str_key@) is None ==> r is Err && r->Err_0@
            == missing_group_id_message() && final(str_val)@ == old(str_val)@,
{
    let v = chars_of(str_val.as_str());
    let p = chars_of(str_key.as_str());
    let m0 = match first_match_from_exec(&v, &p, 0) {
        Some(m) => m,
        None => return Err(string_of("attribute group id not found twice in the output")),
    };
    let step: usize = if p.len() == 0 { 1 } else { p.len() };
    if m0 > v.len() || step - 1 > v.len() - m0 {
        proof {
            assert(first_match_from(v@, p@, m0 + step) == -1);
        }
        return Err(string_of("attribute group id not found twice in the output"));
    }
    if step - 1 == v.len() - m0 {
        proof {
            assert(first_match_from(v@, p@, m0 + step) == -1);
        }
        return Err(string_of("attribute group id not found twice in the output"));
    }
    let m1 = match first_match_from_exec(&v, &p, m0 + step) {
        Some(m) => m,
        None => return Err(string_of("attribute group id not found twice in the output")),
    };
    let c0 = clamped_byte_offset(&v, m0);
    let c1 = clamped_byte_offset(&v, m1);
    let mut out = chars_range(&v, 0, c0);
    let rest = chars_range(&v, c1, v.len());
    push_str(&mut out, rest.as_str());
    proof {
        assert(v@.subrange(0, c0 as int) =~= v@.take(c0 as int));
        assert(v@.subrange(c1 as int, v.len() as int) =~= v@.skip(c1 as int));
    }
    *str_val = out;
    Ok(())
}

/// The text of one attribute: `key="value"`, or nothing for an empty key.
pub open spec fn attribute_text(a: XmlAttributeView) -> Seq<char> {
    if a.key.len() == 0 {
        Seq::empty()
    } else {
        a.key + "=\""@ + a.value + "\""@
    }
}

/// The attributes `v` written out, separated by single spaces.
pub open spec fn attributes_text(v: Seq<XmlAttributeView>) -> Seq<char> {
    joined(v.map_values(|a: XmlAttributeView| attribute_text(a)), " "@)
}

/// An attribute with a non-empty key is written as its key, `="`, its value and a closing
/// `"`; a list of attributes is written as each attribute's text, with one space before
/// each attribute after the first.
pub proof fn lemma_attribute_text(a: XmlAttributeView, rest: Seq<XmlAttributeView>)
    requires
        a.key.len() > 0,
    ensures
        ({
            let w = attributes_text(seq![a]);
            let k = a.key.len() as int;
            let n = a.value.len() as int;
            &&& w.len() == k + n + 3
            &&& w.subrange(0, k) == a.key
            &&& w[k] == '='
            &&& w[k + 1] == '"'
            &&& w.subrange(k + 2, k + 2 + n) == a.value
            &&& w[k + 2 + n] == '"'
        }),
        rest.len() > 0 ==> attributes_text(rest.push(a)) == attributes_text(rest) + " "@ + attributes_text(seq![a]),
{
    reveal_strlit("=\"");
    reveal_strlit("\"");
    let w = attributes_text(seq![a]);
    let k = a.key.len() as int;
    let n = a.value.len() as int;
    let m = seq![a].map_values(|x: XmlAttributeView| attribute_text(x));
    assert(m =~= seq![attribute_text(a)]);
    assert(w == attribute_text(a));
    assert(w.subrange(0, k) =~= a.key);
    assert(w.subrange(k + 2, k + 2 + n) =~= a.value);
    if rest.len() > 0 {
        let l = rest.push(a).map_values(|x: XmlAttributeView| attribute_text(x));
        assert(l.drop_last() =~= rest.map_values(|x: XmlAttributeView| attribute_text(x)));
        assert(l.last() == attribute_text(a));
    }
}

fn attribute_string(a: &XmlAttribute) -> (r: String)
    ensures
        r@ == attribute_text(a@),
{
    if a.xml_atrribute_key.as_str().is_empty() {
        String::new()
    } else {
        let mut s = a.xml_atrribute_key.clone();
        push_str(&mut s, "=\"");
        push_str(&mut s, a.xml_attribute_value.as_str());
        push_str(&mut s, "\"");
        s
    }
}

fn attributes_string(v: &Vec<XmlAttribute>) -> (r: String)
    ensures
        r@ == attributes_text(attrs_view(v@)),
{
    let mut parts: Vec<String> = Vec::new();
    let mut i: usize = 0;
    while i < v.len()
        invariant
            i <= v.len(),
            parts@.len() == i,
            forall|k: int| 0 <= k < i ==> (#[trigger] parts@[k])@ == attribute_text(v@[k]@),
        decreases v.len() - i,
    {
        let s = attribute_string(&v[i]);
        parts.push(s);
        i = i + 1;
    }
    proof {
        assert(texts_view(parts@) =~= attrs_view(v@).map_values(|a: XmlAttributeView| attribute_text(a)));
    }
    join(&parts, " ")
}

/// The attribute text of each item of an array group.
pub fn construct_xml_attributes_str_vec(xml_attributes_info: &XmlAttributeArrayinfo) -> (r: Vec<String>)
    ensures
        texts_view(r@) == xml_attributes_info@.attributes.map_values(|l: Seq<XmlAttributeView>| attributes_text(l)),
{
    let mut out: Vec<String> = Vec::new();
    let mut i: usize = 0;
    while i < xml_attributes_info.attributes.len()
        invariant
            i <= xml_attributes_info.attributes.len(),
            out@.len() == i,
            forall|k: int| 0 <= k < i ==> (#[trigger] out@[k])@ == attributes_text(attrs_view(xml_attributes_info.attributes@[k]@)),
        decreases xml_attributes_info.attributes.len() - i,
    {
        let s = attributes_string(&xml_attributes_info.attributes[i]);
        out.push(s);
        i = i + 1;
    }
    proof {
        assert(texts_view(out@) =~= xml_attributes_info@.attributes.map_values(|l: Seq<XmlAttributeView>| attributes_text(l)));
    }
    out
}

/// The attribute text of an object group.
pub fn construct_xml_attributes_str(xml_attributes_info: &XmlAttributeObjectInfo) -> (r: String)
    ensures
        r@ == attributes_text(xml_attributes_info@.attributes),
{
    attributes_string(&xml_attributes_info.attributes)
}

/// `x` after replacing, in order, the first `k` ids: id `i` by text `i`, or by nothing when there is no text `i`.
pub open spec fn ids_replaced(x: Seq<char>, ids: Seq<Seq<char>>, texts: Seq<Seq<char>>, k: int) -> Seq<char>
    decreases k,
{
    if k <= 0 {
        x
    } else {
        replaced(
            ids_replaced(x, ids, texts, k - 1),
            ids[k - 1],
            if k - 1 < texts.len() { texts[k - 1] } else { Seq::empty() },
        )
    }
}

/// The output after an array group ends, or `None` when its id is not found twice.
pub open spec fn array_end_text(x: Seq<char>, a: XmlAttributeArrayinfoView) -> Option<Seq<char>> {
    match chunk_removed(x, a.object_id) {
        Some(y) => Some(ids_replaced(
            y,
            a.unique_key_ids,
            a.attributes.map_values(|l: Seq<XmlAttributeView>| attributes_text(l)),
            a.unique_key_ids.len() as int,
        )),
        None => None,
    }
}

/// The output after an object group ends, or `None` when its id is not found twice.
pub open spec fn object_end_text(x: Seq<char>, o: XmlAttributeObjectInfoView) -> Option<Seq<char>> {
    let t = attributes_text(o.attributes);
    if t.len() != 0 {
        chunk_removed(ids_replaced(x, o.unique_key_ids, Seq::new(o.unique_key_ids.len(), |i: int| t), o.unique_key_ids.len() as int), o.object_id)
    } else {
        Some(replaced(ids_replaced(x, o.unique_key_ids, Seq::empty(), o.unique_key_ids.len() as int), o.object_id, Seq::empty()))
    }
}

fn replace_ids(state: &mut State, ids: &Vec<String>, texts: &Vec<String>)
    ensures
        final(state)@ == (StateView {
            curr_xml: ids_replaced(old(state)@.curr_xml, strings_view(ids@), texts_view(texts@), ids@.len() as int),
            ..old(state)@
        }),
{
    let mut i: usize = 0;
    while i < ids.len()
        invariant
            i <= ids.len(),
            state@ == (StateView {
                curr_xml: ids_replaced(old(state)@.curr_xml, strings_view(ids@), texts_view(texts@), i as int),
                ..old(state)@
            }),
        decreases ids.len() - i,
    {
        let ghost before = state@;
        proof {
            reveal_strlit("");
            assert(""@ =~= Seq::<char>::empty());
            assert(strings_view(ids@)[i as int] == ids@[i as int]@);
            if i < texts.len() {
                assert(texts_view(texts@)[i as int] == texts@[i as int]@);
            }
        }
        if texts.len() != 0 && texts.len() - 1 >= i {
            state.curr_xml = replace_all(state.curr_xml.as_str(), ids[i].as_str(), texts[i].as_str());
        } else {
            state.curr_xml = replace_all(state.curr_xml.as_str(), ids[i].as_str(), "");
        }
        i = i + 1;
        proof {
            assert(state@.curr_xml == ids_replaced(old(state)@.curr_xml, strings_view(ids@), texts_view(texts@), i as int));
            assert(state@ =~= (StateView {
                curr_xml: ids_replaced(old(state)@.curr_xml, strings_view(ids@), texts_view(texts@), i as int),
                ..old(state)@
            }));
        }
    }
}

/// Writes the attributes of an ended array group into the place-holders of its items and
/// cuts out the group's own element. Fails when the group's id is not found twice.
pub fn check_end_xml_attributes_array_handling(state: &mut State, xml_attributes_array_info: XmlAttributeArrayinfo) -> (r: Result<(), String>)
    ensures
        array_end_text(old(state)@.curr_xml, xml_attributes_array_info@) matches Some(t) ==> r is Ok && final(state)@ == (StateView { curr_xml: t, ..old(state)@ }),
        array_end_text(old(state)@.curr_xml, xml_attributes_array_info@) is None ==> r is Err && r->Err_0@ == missing_group_id_message()
            && final(state)@ == (StateView { curr_xml: final(state)@.curr_xml, ..old(state)@ }),
{
    let xml_attibutes_vec_str = construct_xml_attributes_str_vec(&xml_attributes_array_info);
    let res = remove_str_chunk_by_key(&mut state.curr_xml, &xml_attributes_array_info.object_id);
    if res.is_err() {
        return res;
    }
    replace_ids(state, &xml_attributes_array_info.unique_key_ids, &xml_attibutes_vec_str);
    Ok(())
}

/// Writes the attributes of an ended object group into its place-holders and cuts out the
/// group's own element; with no attribute text the place-holders and the group id are just
/// deleted. Fails when the group's id is needed and not found twice.
pub fn check_end_xml_attributes_object_handling(state: &mut State, xml_attributes_object_info: XmlAttributeObjectInfo) -> (r: Result<(), String>)
    ensures
        object_end_text(old(state)@.curr_xml, xml_attributes_object_info@) matches Some(t) ==> r is Ok && final(state)@ == (StateView { curr_xml: t, ..old(state)@ }),
        object_end_text(old(state)@.curr_xml, xml_attributes_object_info@) is None ==> r is Err && r->Err_0@ == missing_group_id_message()
            && final(state)@ == (StateView { curr_xml: final(state)@.curr_xml, ..old(state)@ }),
{
    let text = construct_xml_attributes_str(&xml_attributes_object_info);
    let n = xml_attributes_object_info.unique_key_ids.len();
    if text.as_str().is_empty() {
        let none: Vec<String> = Vec::new();
        replace_ids(state, &xml_attributes_object_info.unique_key_ids, &none);
        proof {
            assert(texts_view(none@) =~= Seq::empty());
        }
        state.curr_xml = replace_all(state.curr_xml.as_str(), xml_attributes_object_info.object_id.as_str(), "");
        proof {
            reveal_strlit("");
            assert(""@ =~= Seq::<char>::empty());
        }
        Ok(())
    } else {
        let mut texts: Vec<String> = Vec::new();
        let mut i: usize = 0;
        while i < n
            invariant
                i <= n,
                texts@.len() == i,
                forall|k: int| 0 <= k < i ==> (#[trigger] texts@[k])@ == text@,
            decreases n - i,
        {
            texts.push(text.clone());
            i = i + 1;
        }
        proof {
            assert(texts_view(texts@) =~= Seq::new(n as nat, |i: int| text@));
        }
        replace_ids(state, &xml_attributes_object_info.unique_key_ids, &texts);
        remove_str_chunk_by_key(&mut state.curr_xml, &xml_attributes_object_info.object_id)
    }
}

/// Deletes the place-holders written for a key that got no attributes.
pub fn check_end_xml_no_attributes_handling(state: &mut State, keys_info: XmlAttributeNoAttributeInfo)
    ensures
        final(state)@ == (StateView {
            curr_xml: ids_replaced(old(state)@.curr_xml, strings_view(keys_info.unique_key_ids@), Seq::empty(), keys_info.unique_key_ids@.len() as int),
            ..old(state)@
        }),
{
    let none: Vec<String> = Vec::new();
    proof {
        assert(texts_view(none@) =~= Seq::empty());
    }
    replace_ids(state, &keys_info.unique_key_ids, &none);
}

} // verus!
