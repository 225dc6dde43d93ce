use vstd::prelude::*;

use crate::bindings::{camel_case_of, to_camel_case};
use crate::text::{
    chars_of, chars_range, has_prefix, has_substring, join, joined, lemma_absent_after, lemma_occurs_chars,
    lemma_replaced_first_absent, lemma_replaced_first_prefix, nat_digits, occurs_at, push_str, replace_first,
    replaced_first, starts_with, string_of, texts_view, usize_to_string,
};
use super::{
    params_view, procedures_view, upper, upper_text, OracleDbType, ParamView, ParameterDirection, StoredProcedure,
    StoredProcedureParameter, StoredProcedureView,
};

verus! {

/// The name of a direction in the JSON.
pub open spec fn direction_text(d: ParameterDirection) -> Seq<char> {
    match d {
        ParameterDirection::Input => "Input"@,
        ParameterDirection::Output => "Output"@,
        ParameterDirection::InputOutput => "InputOutput"@,
    }
}

/// The name of a type in the JSON.
pub open spec fn type_text(t: OracleDbType) -> Seq<char> {
    match t {
        OracleDbType::RefCursor => "Refcursor"@,
        OracleDbType::Varchar2 => "Varchar2"@,
    }
}

/// The JSON object that describes parameter `p`.
pub open spec fn param_meta_text(p: ParamView) -> Seq<char> {
    let ind = "    "@;
    ind + "{\n"@ + ind + " \"paramName\": \""@ + p.param_name + "\",\n"@ + ind + " \"paramValue\": \"\",\n"@ + ind
        + " \"paramDirection\": \""@ + direction_text(p.param_direction) + "\",\n"@ + ind + " \"paramType\": \""@
        + type_text(p.param_type) + "\",\n"@ + ind + " \"position\": \""@ + nat_digits(p.position as nat) + "\"\n"@
        + ind + "}"@
}

fn construct_json_meta_data_param_decision(stored_proc_param: &StoredProcedureParameter) -> (r: String)
    ensures
        r@ == param_meta_text(stored_proc_param@),
{
    let indentation_str = string_of("    ");
    let param_direction = match stored_proc_param.param_direction {
        ParameterDirection::Input => string_of("Input"),
        ParameterDirection::Output => string_of("Output"),
        ParameterDirection::InputOutput => string_of("InputOutput"),
    };
    let param_type = match stored_proc_param.param_type {
        OracleDbType::RefCursor => string_of("Refcursor"),
        OracleDbType::Varchar2 => string_of("Varchar2"),
    };
    let position = usize_to_string(stored_proc_param.position);
    let mut out = indentation_str.clone();
    push_str(&mut out, "{\n");
    push_str(&mut out, indentation_str.as_str());
    push_str(&mut out, " \"paramName\": \"");
    push_str(&mut out, stored_proc_param.param_name.as_str());
    push_str(&mut out, "\",\n");
    push_str(&mut out, indentation_str.as_str());
    push_str(&mut out, " \"paramValue\": \"\",\n");
    push_str(&mut out, indentation_str.as_str());
    push_str(&mut out, " \"paramDirection\": \"");
    push_str(&mut out, param_direction.as_str());
    push_str(&mut out, "\",\n");
    push_str(&mut out, indentation_str.as_str());
    push_str(&mut out, " \"paramType\": \"");
    push_str(&mut out, param_type.as_str());
    push_str(&mut out, "\",\n");
    push_str(&mut out, indentation_str.as_str());
    push_str(&mut out, " \"position\": \"");
    push_str(&mut out, position.as_str());
    push_str(&mut out, "\"\n");
    push_str(&mut out, indentation_str.as_str());
    push_str(&mut out, "}");
    proof {
        assert(param_direction@ == direction_text(stored_proc_param@.param_direction));
        assert(param_type@ == type_text(stored_proc_param@.param_type));
        assert(out@ =~= param_meta_text(stored_proc_param@));
    }
    out
}

/// The full name of a procedure: prefixed by the package and a dot when there is a package.
pub open spec fn full_name(package_name: Seq<char>, name: Seq<char>) -> Seq<char> {
    if package_name.len() > 0 {
        package_name + "."@ + name
    } else {
        name
    }
}

/// The JSON members that describe procedure `sp`: its full name and its parameters.
pub open spec fn meta_data_text(sp: StoredProcedureView, package_name: Seq<char>) -> Seq<char> {
    let ind = "   "@;
    let params = joined(sp.params.map_values(|p: ParamView| param_meta_text(p)), ",\n"@);
    let info = ind + "\"info\": {\n"@ + ind + " \"procedureName\": \""@ + full_name(package_name, sp.procedure_name)
        + "\"\n"@ + ind + "}"@;
    info + ",\n"@ + ind + "\"params\": [\n"@ + params + "\n"@ + ind + "]"@
}

fn construct_json_meta_data(stored_proc: &StoredProcedure, package_name: &String) -> (r: String)
    ensures
        r@ == meta_data_text(stored_proc@, package_name@),
{
    let ghost ps = params_view(stored_proc.params@);
    let ghost spec_items = ps.map_values(|p: ParamView| param_meta_text(p));
    let mut items: Vec<String> = Vec::new();
    let mut i: usize = 0;
    while i < stored_proc.params.len()
        invariant
            i <= stored_proc.params.len(),
            ps == params_view(stored_proc.params@),
            spec_items == ps.map_values(|p: ParamView| param_meta_text(p)),
            texts_view(items@) =~= spec_items.take(i as int),
        decreases stored_proc.params.len() - i,
    {
        let x = construct_json_meta_data_param_decision(&stored_proc.params[i]);
        proof {
            assert(ps[i as int] == stored_proc.params@[i as int]@);
        }
        let ghost i0 = items@;
        items.push(x);
        proof {
            crate::text::lemma_texts_push(i0, x);
            assert(spec_items.take(i + 1) =~= spec_items.take(i as int).push(spec_items[i as int]));
        }
        i = i + 1;
    }
    proof {
        assert(texts_view(items@) =~= spec_items);
    }
    let params = join(&items, ",\n");
    let procedure_name_full = if !package_name.as_str().is_empty() {
        let mut f = package_name.clone();
        push_str(&mut f, ".");
        push_str(&mut f, stored_proc.info.procedure_name.as_str());
        f
    } else {
        stored_proc.info.procedure_name.clone()
    };
    let mut out = string_of("   ");
    push_str(&mut out, "\"info\": {\n");
    push_str(&mut out, "   ");
    push_str(&mut out, " \"procedureName\": \"");
    push_str(&mut out, procedure_name_full.as_str());
    push_str(&mut out, "\"\n");
    push_str(&mut out, "   ");
    push_str(&mut out, "}");
    push_str(&mut out, ",\n");
    push_str(&mut out, "   ");
    push_str(&mut out, "\"params\": [\n");
    push_str(&mut out, params.as_str());
    push_str(&mut out, "\n");
    push_str(&mut out, "   ");
    push_str(&mut out, "]");
    proof {
        assert(procedure_name_full@ =~= full_name(package_name@, stored_proc@.procedure_name));
        assert(out@ =~= meta_data_text(stored_proc@, package_name@));
    }
    out
}

/// A parameter name as a class member: upper-cased, without the first `PI_`, `I_` and
/// `P_IN_`, then in camel case.
pub open spec fn modified_param_name(s: Seq<char>) -> Seq<char> {
    camel_case_of(replaced_first(replaced_first(replaced_first(upper(s), "PI_"@, Seq::empty()), "I_"@, Seq::empty()), "P_IN_"@, Seq::empty()))
}

/// A name whose upper-case form holds none of `PI_`, `I_` and `P_IN_` becomes its
/// upper-case form in camel case.
pub proof fn lemma_plain_param_name(y: Seq<char>)
    requires
        !has_substring(upper(y), "PI_"@),
        !has_substring(upper(y), "I_"@),
        !has_substring(upper(y), "P_IN_"@),
    ensures
        modified_param_name(y) == camel_case_of(upper(y)),
{
    lemma_replaced_first_absent(upper(y), "PI_"@, Seq::empty());
    lemma_replaced_first_absent(upper(y), "I_"@, Seq::empty());
    lemma_replaced_first_absent(upper(y), "P_IN_"@, Seq::empty());
}

/// A leading `PI_` (in any case) is dropped: the member name of `x` is that of `y` when
/// `x` upper-cased is `PI_` followed by `y` upper-cased, and `y` holds no `PI_` of its own.
pub proof fn lemma_pi_prefix_dropped(x: Seq<char>, y: Seq<char>)
    requires
        upper(x) == "PI_"@ + upper(y),
        !has_substring(upper(y), "PI_"@),
    ensures
        modified_param_name(x) == modified_param_name(y),
{
    lemma_replaced_first_prefix("PI_"@, upper(y), Seq::empty());
    assert(Seq::<char>::empty() + upper(y) =~= upper(y));
    lemma_replaced_first_absent(upper(y), "PI_"@, Seq::empty());
}

/// A leading `I_` (in any case) is dropped: the member name of `x` is that of `y` when
/// `x` upper-cased is `I_` followed by `y` upper-cased, and `y` holds neither `PI_` nor `I_`.
pub proof fn lemma_i_prefix_dropped(x: Seq<char>, y: Seq<char>)
    requires
        upper(x) == "I_"@ + upper(y),
        !has_substring(upper(y), "PI_"@),
        !has_substring(upper(y), "I_"@),
    ensures
        modified_param_name(x) == modified_param_name(y),
{
    reveal_strlit("I_");
    reveal_strlit("PI_");
    let a = "I_"@;
    let b = upper(y);
    assert forall|i: int| 0 <= i < a.len() implies !occurs_at(a + b, "PI_"@, i) by {
        if occurs_at(a + b, "PI_"@, i) {
            lemma_occurs_chars(a + b, "PI_"@, i);
            assert((a + b)[i + 0] == "PI_"@[0]);
        }
    }
    lemma_absent_after(a, b, "PI_"@);
    lemma_replaced_first_absent(a + b, "PI_"@, Seq::empty());
    lemma_replaced_first_prefix(a, b, Seq::empty());
    assert(Seq::<char>::empty() + b =~= b);
    lemma_replaced_first_absent(b, "PI_"@, Seq::empty());
    lemma_replaced_first_absent(b, "I_"@, Seq::empty());
}

/// A leading `P_IN_` (in any case) is dropped: the member name of `x` is that of `y` when
/// `x` upper-cased is `P_IN_` followed by `y` upper-cased, and `y` holds none of `PI_`, `I_`
/// and `P_IN_`; both are then `y` upper-cased in camel case.
pub proof fn lemma_p_in_prefix_dropped(x: Seq<char>, y: Seq<char>)
    requires
        upper(x) == "P_IN_"@ + upper(y),
        !has_substring(upper(y), "PI_"@),
        !has_substring(upper(y), "I_"@),
        !has_substring(upper(y), "P_IN_"@),
    ensures
        modified_param_name(x) == modified_param_name(y),
        modified_param_name(x) == camel_case_of(upper(y)),
{
    reveal_strlit("I_");
    reveal_strlit("PI_");
    reveal_strlit("P_IN_");
    let a = "P_IN_"@;
    let b = upper(y);
    assert forall|i: int| 0 <= i < a.len() implies !occurs_at(a + b, "PI_"@, i) by {
        if occurs_at(a + b, "PI_"@, i) {
            lemma_occurs_chars(a + b, "PI_"@, i);
            assert((a + b)[i + 0] == "PI_"@[0]);
            assert((a + b)[i + 1] == "PI_"@[1]);
        }
    }
    assert forall|i: int| 0 <= i < a.len() implies !occurs_at(a + b, "I_"@, i) by {
        if occurs_at(a + b, "I_"@, i) {
            lemma_occurs_chars(a + b, "I_"@, i);
            assert((a + b)[i + 0] == "I_"@[0]);
            assert((a + b)[i + 1] == "I_"@[1]);
        }
    }
    lemma_absent_after(a, b, "PI_"@);
    lemma_absent_after(a, b, "I_"@);
    lemma_replaced_first_absent(a + b, "PI_"@, Seq::empty());
    lemma_replaced_first_absent(a + b, "I_"@, Seq::empty());
    lemma_replaced_first_prefix(a, b, Seq::empty());
    assert(Seq::<char>::empty() + b =~= b);
    lemma_plain_param_name(y);
}

fn modify_param_name(str_val: &String) -> (r: String)
    ensures
        r@ == modified_param_name(str_val@),
{
    let u = upper_text(str_val.as_str());
    let a = replace_first(u.as_str(), "PI_", "");
    let b = replace_first(a.as_str(), "I_", "");
    let c = replace_first(b.as_str(), "P_IN_", "");
    proof {
        assert(""@ =~= Seq::<char>::empty()) by {
            reveal_strlit("");
        }
    }
    to_camel_case(c.as_str())
}

/// The names of the parameters of `ps` that are passed in (in or in-out), in order.
pub open spec fn in_param_names(ps: Seq<ParamView>) -> Seq<Seq<char>>
    decreases ps.len(),
{
    if ps.len() == 0 {
        Seq::empty()
    } else {
        let prev = in_param_names(ps.drop_last());
        if ps.last().param_direction != ParameterDirection::Output {
            prev.push(ps.last().param_name)
        } else {
            prev
        }
    }
}

/// `v` without its first character (empty stays empty).
pub open spec fn without_first(v: Seq<char>) -> Seq<char> {
    if v.len() >= 1 {
        v.skip(1)
    } else {
        Seq::empty()
    }
}

/// The class names of the in-parameters: when every name starts with `I` (in either case)
/// that letter is dropped from each.
pub open spec fn class_names(names: Seq<Seq<char>>) -> Seq<Seq<char>> {
    if forall|i: int| 0 <= i < names.len() ==> has_prefix(upper(#[trigger] names[i]), "I"@) {
        names.map_values(|x: Seq<char>| without_first(x))
    } else {
        names
    }
}

/// One class member line for parameter name `n`.
pub open spec fn class_line(n: Seq<char>) -> Seq<char> {
    "   "@ + " \""@ + modified_param_name(n) + "\": \"\""@
}

/// The class members of procedure `sp`: one empty string member per in-parameter.
pub open spec fn class_text(sp: StoredProcedureView) -> Seq<char> {
    joined(class_names(in_param_names(sp.params)).map_values(|n: Seq<char>| class_line(n)), ",\n"@)
}

fn construct_json_for_class(stored_proc: &StoredProcedure) -> (r: String)
    ensures
        r@ == class_text(stored_proc@),
{
    let ghost ps = params_view(stored_proc.params@);
    let mut in_params: Vec<String> = Vec::new();
    let mut i: usize = 0;
    while i < stored_proc.params.len()
        invariant
            i <= stored_proc.params.len(),
            ps == params_view(stored_proc.params@),
            texts_view(in_params@) == in_param_names(ps.take(i as int)),
        decreases stored_proc.params.len() - i,
    {
        proof {
            assert(ps.take(i + 1).drop_last() =~= ps.take(i as int));
            assert(ps[i as int] == stored_proc.params@[i as int]@);
        }
        if stored_proc.params[i].param_direction != ParameterDirection::Output {
            let ghost i0 = in_params@;
            let n = stored_proc.params[i].param_name.clone();
            in_params.push(n);
            proof {
                crate::text::lemma_texts_push(i0, n);
            }
        }
        i = i + 1;
    }
    proof {
        assert(ps.take(stored_proc.params.len() as int) =~= ps);
    }
    let ghost names = in_param_names(ps);
    let mut all_i = true;
    let mut k: usize = 0;
    while k < in_params.len()
        invariant
            k <= in_params.len(),
            texts_view(in_params@) == names,
            all_i == (forall|j: int| 0 <= j < k ==> has_prefix(upper(#[trigger] names[j]), "I"@)),
        decreases in_params.len() - k,
    {
        let u = upper_text(in_params[k].as_str());
        proof {
            reveal_strlit("I");
            assert(names[k as int] == in_params@[k as int]@);
        }
        if !starts_with(u.as_str(), "I") {
            all_i = false;
        }
        k = k + 1;
    }
    let ghost chosen = class_names(names);
    let ghost lines_spec = chosen.map_values(|n: Seq<char>| class_line(n));
    let mut lines: Vec<String> = Vec::new();
    let mut m: usize = 0;
    while m < in_params.len()
        invariant
            m <= in_params.len(),
            texts_view(in_params@) == names,
            all_i == (forall|j: int| 0 <= j < names.len() ==> has_prefix(upper(#[trigger] names[j]), "I"@)),
            chosen == class_names(names),
            lines_spec == chosen.map_values(|n: Seq<char>| class_line(n)),
            texts_view(lines@) =~= lines_spec.take(m as int),
        decreases in_params.len() - m,
    {
        let name = if all_i {
            let cs = chars_of(in_params[m].as_str());
            if cs.len() >= 1 {
                chars_range(&cs, 1, cs.len())
            } else {
                String::new()
            }
        } else {
            in_params[m].clone()
        };
        proof {
            assert(names[m as int] == in_params@[m as int]@);
            assert(name@ == chosen[m as int]);
        }
        let modified = modify_param_name(&name);
        let mut line = string_of("   ");
        push_str(&mut line, " \"");
        push_str(&mut line, modified.as_str());
        push_str(&mut line, "\": \"\"");
        proof {
            assert(line@ =~= class_line(chosen[m as int]));
        }
        let ghost l0 = lines@;
        lines.push(line);
        proof {
            crate::text::lemma_texts_push(l0, line);
            assert(lines_spec.take(m + 1) =~= lines_spec.take(m as int).push(lines_spec[m as int]));
        }
        m = m + 1;
    }
    proof {
        assert(texts_view(lines@) =~= lines_spec);
    }
    join(&lines, ",\n")
}

/// The JSON object of procedure `sp`: its meta data and its class members.
pub open spec fn procedure_json_text(sp: StoredProcedureView, package_name: Seq<char>) -> Seq<char> {
    let ind = " "@;
    ind + "{\n"@ + ind + " \"metaData\": {\n"@ + meta_data_text(sp, package_name) + "\n"@ + ind + " },\n"@ + ind
        + " \"class\": {\n"@ + class_text(sp) + "\n"@ + ind + " }\n"@ + ind + "}"@
}

/// The JSON array of the procedures `procs`, one object each.
pub open spec fn procedures_json_text(procs: Seq<StoredProcedureView>, package_name: Seq<char>) -> Seq<char> {
    "[\n"@ + joined(procs.map_values(|sp: StoredProcedureView| procedure_json_text(sp, package_name)), ",\n"@) + "\n]"@
}

/// Builds the JSON array that describes the stored procedures (see [`procedures_json_text`]).
pub fn construct_json_data(stored_procedures: Vec<StoredProcedure>, package_name: &String) -> (r: String)
    ensures
        r@ == procedures_json_text(procedures_view(stored_procedures@), package_name@),
{
    let ghost pv = procedures_view(stored_procedures@);
    let ghost spec_items = pv.map_values(|sp: StoredProcedureView| procedure_json_text(sp, package_name@));
    let mut items: Vec<String> = Vec::new();
    let mut i: usize = 0;
    while i < stored_procedures.len()
        invariant
            i <= stored_procedures.len(),
            pv == procedures_view(stored_procedures@),
            spec_items == pv.map_values(|sp: StoredProcedureView| procedure_json_text(sp, package_name@)),
            texts_view(items@) =~= spec_items.take(i as int),
        decreases stored_procedures.len() - i,
    {
        let meta_data = construct_json_meta_data(&stored_procedures[i], package_name);
        let json_class_data = construct_json_for_class(&stored_procedures[i]);
        let mut item = string_of(" ");
        push_str(&mut item, "{\n");
        push_str(&mut item, " ");
        push_str(&mut item, " \"metaData\": {\n");
        push_str(&mut item, meta_data.as_str());
        push_str(&mut item, "\n");
        push_str(&mut item, " ");
        push_str(&mut item, " },\n");
        push_str(&mut item, " ");
        push_str(&mut item, " \"class\": {\n");
        push_str(&mut item, json_class_data.as_str());
        push_str(&mut item, "\n");
        push_str(&mut item, " ");
        push_str(&mut item, " }\n");
        push_str(&mut item, " ");
        push_str(&mut item, "}");
        proof {
            assert(pv[i as int] == stored_procedures@[i as int]@);
            assert(item@ =~= procedure_json_text(pv[i as int], package_name@));
        }
        let ghost i0 = items@;
        items.push(item);
        proof {
            crate::text::lemma_texts_push(i0, item);
            assert(spec_items.take(i + 1) =~= spec_items.take(i as int).push(spec_items[i as int]));
        }
        i = i + 1;
    }
    proof {
        assert(texts_view(items@) =~= spec_items);
    }
    let array_cntnt = join(&items, ",\n");
    let mut out = string_of("[\n");
    push_str(&mut out, array_cntnt.as_str());
    push_str(&mut out, "\n]");
    proof {
        assert(out@ =~= procedures_json_text(pv, package_name@));
    }
    out
}

} // verus!
