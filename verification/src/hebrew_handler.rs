use vstd::prelude::*;

use crate::text::{replace_all, replaced};
use self::letter_codes::{coded_text, lemma_letters_to_guids};

pub mod letter_codes;
pub mod round_trip;

verus! {

/// The GUID texts that stand for the Hebrew letters, each with its letter, in table order.
pub open spec fn hebrew_table() -> Seq<(Seq<char>, Seq<char>)> {
    seq![
        ("810cc936-b443-46d9-ac5e-646e2f6fea68"@, "ק"@),
        ("1b1a3310-8c1a-4823-bb08-55a69a836387"@, "ר"@),
        ("0befe91b-b117-426e-bb0f-f4a6652f4711"@, "א"@),
        ("db5d4f5b-3670-4766-b2c5-a8e187226276"@, "ט"@),
        ("fc70d64d-79d1-4119-932d-66517e8bd1a9"@, "ו"@),
        ("ab42380a-ed4c-4931-af0a-d38be8029298"@, "ן"@),
        ("f8601c36-fc31-4032-a25a-7c4284a66baf"@, "ם"@),
        ("5e2ba150-1369-418a-8faa-995960b41c05"@, "פ"@),
        ("6a20a60a-3be8-42cc-8e8c-9aff51128e45"@, "ף"@),
        ("d1a8c944-a623-45c8-8f57-811d302376d6"@, "ך"@),
        ("3a53210c-9d73-496c-a110-b9caa9837ddd"@, "ל"@),
        ("c4f6348b-f69b-4bb6-9cc5-a33b39b36bfe"@, "ח"@),
        ("7fd481ce-294c-4112-909c-9bf5eaa38351"@, "י"@),
        ("e540ba32-f6b0-43c6-92af-28a4404a2675"@, "ע"@),
        ("a80d5945-81d1-4dbf-9188-7e1af8ac809c"@, "כ"@),
        ("fc96d236-4660-4afd-93c7-39415d39cdfd"@, "ג"@),
        ("2d3cab03-b04a-45b2-ae09-8331eea51094"@, "ד"@),
        ("09d07874-5797-4255-a769-f900b047b3a2"@, "ש"@),
        ("b12df03d-4b36-4003-bb4f-4ec5443ffdcd"@, "ז"@),
        ("a895da10-5605-455a-821d-019b55ec54b3"@, "ס"@),
        ("3badcfc5-8923-4465-9fd3-af5c77111384"@, "ב"@),
        ("d600421a-c5b2-41cf-ab6d-949840320c83"@, "ה"@),
        ("6c08bdc0-33c0-449b-b20b-b6cb8a22e186"@, "נ"@),
        ("f0c89f4a-7f67-49d0-8bc0-0f8fd7e73fbc"@, "מ"@),
        ("0a05976a-14b4-44cf-8cf8-f9c947ec884e"@, "צ"@),
        ("9f9d74af-99cc-4242-b9e9-ce1bb29b193d"@, "ת"@),
        ("ddfe1abc-a747-4f30-9a6c-15a5340bf45a"@, "ץ"@)
    ]
}

/// `s` after the pairs `table`, in order, have had their replacement done: each letter by its
/// GUID text when `to_non_hebrew` holds, each GUID text by its letter otherwise.
pub open spec fn replaced_by_table(s: Seq<char>, table: Seq<(Seq<char>, Seq<char>)>, to_non_hebrew: bool) -> Seq<char>
    decreases table.len(),
{
    if table.len() == 0 {
        s
    } else {
        let prev = replaced_by_table(s, table.drop_last(), to_non_hebrew);
        let (guid, letter) = table.last();
        if to_non_hebrew {
            replaced(prev, letter, guid)
        } else {
            replaced(prev, guid, letter)
        }
    }
}

fn hebrew_pair(i: usize) -> (r: (&'static str, &'static str))
    requires
        i < 27,
    ensures
        r.0@ == hebrew_table()[i as int].0,
        r.1@ == hebrew_table()[i as int].1,
{
    match i {
        0 => ("810cc936-b443-46d9-ac5e-646e2f6fea68", "ק"),
        1 => ("1b1a3310-8c1a-4823-bb08-55a69a836387", "ר"),
        2 => ("0befe91b-b117-426e-bb0f-f4a6652f4711", "א"),
        3 => ("db5d4f5b-3670-4766-b2c5-a8e187226276", "ט"),
        4 => ("fc70d64d-79d1-4119-932d-66517e8bd1a9", "ו"),
        5 => ("ab42380a-ed4c-4931-af0a-d38be8029298", "ן"),
        6 => ("f8601c36-fc31-4032-a25a-7c4284a66baf", "ם"),
        7 => ("5e2ba150-1369-418a-8faa-995960b41c05", "פ"),
        8 => ("6a20a60a-3be8-42cc-8e8c-9aff51128e45", "ף"),
        9 => ("d1a8c944-a623-45c8-8f57-811d302376d6", "ך"),
        10 => ("3a53210c-9d73-496c-a110-b9caa9837ddd", "ל"),
        11 => ("c4f6348b-f69b-4bb6-9cc5-a33b39b36bfe", "ח"),
        12 => ("7fd481ce-294c-4112-909c-9bf5eaa38351", "י"),
        13 => ("e540ba32-f6b0-43c6-92af-28a4404a2675", "ע"),
        14 => ("a80d5945-81d1-4dbf-9188-7e1af8ac809c", "כ"),
        15 => ("fc96d236-4660-4afd-93c7-39415d39cdfd", "ג"),
        16 => ("2d3cab03-b04a-45b2-ae09-8331eea51094", "ד"),
        17 => ("09d07874-5797-4255-a769-f900b047b3a2", "ש"),
        18 => ("b12df03d-4b36-4003-bb4f-4ec5443ffdcd", "ז"),
        19 => ("a895da10-5605-455a-821d-019b55ec54b3", "ס"),
        20 => ("3badcfc5-8923-4465-9fd3-af5c77111384", "ב"),
        21 => ("d600421a-c5b2-41cf-ab6d-949840320c83", "ה"),
        22 => ("6c08bdc0-33c0-449b-b20b-b6cb8a22e186", "נ"),
        23 => ("f0c89f4a-7f67-49d0-8bc0-0f8fd7e73fbc", "מ"),
        24 => ("0a05976a-14b4-44cf-8cf8-f9c947ec884e", "צ"),
        25 => ("9f9d74af-99cc-4242-b9e9-ce1bb29b193d", "ת"),
        _ => ("ddfe1abc-a747-4f30-9a6c-15a5340bf45a", "ץ"),
    }
}

/// Replaces the Hebrew letters of `str_val` by the GUID texts that stand for them
/// (`to_non_hebrew`), or those GUID texts by their letters, one letter after the other in
/// the order of [`hebrew_table`].
pub fn hebrew_str_to_non_hebrew(str_val: &mut String, to_non_hebrew: bool)
    ensures
        final(str_val)@ == replaced_by_table(old(str_val)@, hebrew_table(), to_non_hebrew),
        to_non_hebrew ==> final(str_val)@ == coded_text(old(str_val)@),
{
    let ghost orig = str_val@;
    let n: usize = 27;
    let mut i: usize = 0;
    while i < n
        invariant
            n == hebrew_table().len(),
            i <= n,
            str_val@ == replaced_by_table(old(str_val)@, hebrew_table().take(i as int), to_non_hebrew),
        decreases n - i,
    {
        let (key, key_val) = hebrew_pair(i);
        let next = if to_non_hebrew {
            replace_all(str_val.as_str(), key_val, key)
        } else {
            replace_all(str_val.as_str(), key, key_val)
        };
        *str_val = next;
        proof {
            assert(hebrew_table().take(i + 1).drop_last() =~= hebrew_table().take(i as int));
        }
        i = i + 1;
    }
    proof {
        assert(hebrew_table().take(n as int) =~= hebrew_table());
        lemma_letters_to_guids(orig);
    }
}

/// Every character of `s` is below `c`.
pub open spec fn all_below(s: Seq<char>, c: char) -> bool {
    forall|i: int| 0 <= i < s.len() ==> (#[trigger] s[i] as int) < (c as int)
}

/// Each letter of `table` is a single character from `א` on, and each GUID text is made of
/// characters below `א`.
pub open spec fn table_well_formed(table: Seq<(Seq<char>, Seq<char>)>) -> bool {
    forall|k: int|
        0 <= k < table.len() ==> (#[trigger] table[k]).1.len() == 1 && (table[k].1[0] as int) >= ('א' as int)
            && all_below(table[k].0, 'א')
}

pub(crate) proof fn lemma_table_well_formed()
    ensures
        table_well_formed(hebrew_table()),
{
    reveal_strlit("810cc936-b443-46d9-ac5e-646e2f6fea68");
    reveal_strlit("ק");
    reveal_strlit("1b1a3310-8c1a-4823-bb08-55a69a836387");
    reveal_strlit("ר");
    reveal_strlit("0befe91b-b117-426e-bb0f-f4a6652f4711");
    reveal_strlit("א");
    reveal_strlit("db5d4f5b-3670-4766-b2c5-a8e187226276");
    reveal_strlit("ט");
    reveal_strlit("fc70d64d-79d1-4119-932d-66517e8bd1a9");
    reveal_strlit("ו");
    reveal_strlit("ab42380a-ed4c-4931-af0a-d38be8029298");
    reveal_strlit("ן");
    reveal_strlit("f8601c36-fc31-4032-a25a-7c4284a66baf");
    reveal_strlit("ם");
    reveal_strlit("5e2ba150-1369-418a-8faa-995960b41c05");
    reveal_strlit("פ");
    reveal_strlit("6a20a60a-3be8-42cc-8e8c-9aff51128e45");
    reveal_strlit("ף");
    reveal_strlit("d1a8c944-a623-45c8-8f57-811d302376d6");
    reveal_strlit("ך");
    reveal_strlit("3a53210c-9d73-496c-a110-b9caa9837ddd");
    reveal_strlit("ל");
    reveal_strlit("c4f6348b-f69b-4bb6-9cc5-a33b39b36bfe");
    reveal_strlit("ח");
    reveal_strlit("7fd481ce-294c-4112-909c-9bf5eaa38351");
    reveal_strlit("י");
    reveal_strlit("e540ba32-f6b0-43c6-92af-28a4404a2675");
    reveal_strlit("ע");
    reveal_strlit("a80d5945-81d1-4dbf-9188-7e1af8ac809c");
    reveal_strlit("כ");
    reveal_strlit("fc96d236-4660-4afd-93c7-39415d39cdfd");
    reveal_strlit("ג");
    reveal_strlit("2d3cab03-b04a-45b2-ae09-8331eea51094");
    reveal_strlit("ד");
    reveal_strlit("09d07874-5797-4255-a769-f900b047b3a2");
    reveal_strlit("ש");
    reveal_strlit("b12df03d-4b36-4003-bb4f-4ec5443ffdcd");
    reveal_strlit("ז");
    reveal_strlit("a895da10-5605-455a-821d-019b55ec54b3");
    reveal_strlit("ס");
    reveal_strlit("3badcfc5-8923-4465-9fd3-af5c77111384");
    reveal_strlit("ב");
    reveal_strlit("d600421a-c5b2-41cf-ab6d-949840320c83");
    reveal_strlit("ה");
    reveal_strlit("6c08bdc0-33c0-449b-b20b-b6cb8a22e186");
    reveal_strlit("נ");
    reveal_strlit("f0c89f4a-7f67-49d0-8bc0-0f8fd7e73fbc");
    reveal_strlit("מ");
    reveal_strlit("0a05976a-14b4-44cf-8cf8-f9c947ec884e");
    reveal_strlit("צ");
    reveal_strlit("9f9d74af-99cc-4242-b9e9-ce1bb29b193d");
    reveal_strlit("ת");
    reveal_strlit("ddfe1abc-a747-4f30-9a6c-15a5340bf45a");
    reveal_strlit("ץ");
    let t = hebrew_table();
    assert forall|k: int| 0 <= k < t.len() implies (#[trigger] t[k]).1.len() == 1 && (t[k].1[0] as int) >= ('א' as int)
        && all_below(t[k].0, 'א') by {
        assert(0 <= k < 27);
    }
}

proof fn lemma_replaced_removes_char(s: Seq<char>, c: char, r: Seq<char>)
    requires
        !r.contains(c),
    ensures
        !replaced(s, seq![c], r).contains(c),
    decreases s.len(),
{
    if s.len() >= 1 {
        lemma_replaced_removes_char(s.skip(1), c, r);
        if s.take(1) == seq![c] {
            assert(replaced(s, seq![c], r) == r + replaced(s.skip(1), seq![c], r));
        } else {
            assert(s[0] != c) by {
                if s[0] == c {
                    assert(s.take(1) =~= seq![c]);
                }
            }
            assert(replaced(s, seq![c], r) == seq![s[0]] + replaced(s.skip(1), seq![c], r));
        }
    }
}

proof fn lemma_replaced_keeps_absent(s: Seq<char>, p: Seq<char>, r: Seq<char>, c: char)
    requires
        p.len() > 0,
        !s.contains(c),
        !r.contains(c),
    ensures
        !replaced(s, p, r).contains(c),
    decreases s.len(),
{
    if s.len() >= p.len() {
        if s.take(p.len() as int) == p {
            assert(!s.skip(p.len() as int).contains(c)) by {
                if s.skip(p.len() as int).contains(c) {
                    let i = choose|i: int| 0 <= i < s.skip(p.len() as int).len() && s.skip(p.len() as int)[i] == c;
                    assert(s[i + p.len()] == c);
                }
            }
            lemma_replaced_keeps_absent(s.skip(p.len() as int), p, r, c);
        } else {
            assert(!s.skip(1).contains(c)) by {
                if s.skip(1).contains(c) {
                    let i = choose|i: int| 0 <= i < s.skip(1).len() && s.skip(1)[i] == c;
                    assert(s[i + 1] == c);
                }
            }
            assert(s[0] != c);
            lemma_replaced_keeps_absent(s.skip(1), p, r, c);
        }
    }
}

proof fn lemma_table_removes_letters(s: Seq<char>, table: Seq<(Seq<char>, Seq<char>)>)
    requires
        table_well_formed(table),
    ensures
        forall|j: int| 0 <= j < table.len() ==> !replaced_by_table(s, table, true).contains(#[trigger] table[j].1[0]),
    decreases table.len(),
{
    if table.len() > 0 {
        let prefix = table.drop_last();
        assert(table_well_formed(prefix)) by {
            assert forall|k: int| 0 <= k < prefix.len() implies (#[trigger] prefix[k]).1.len() == 1 && (prefix[k].1[0] as int)
                >= ('א' as int) && all_below(prefix[k].0, 'א') by {
                assert(prefix[k] == table[k]);
            }
        }
        lemma_table_removes_letters(s, prefix);
        let prev = replaced_by_table(s, prefix, true);
        let (guid, letter) = table.last();
        let last = table.len() - 1;
        assert(table[last] == table.last());
        assert(letter =~= seq![letter[0]]);
        assert forall|j: int| 0 <= j < table.len() implies !replaced_by_table(s, table, true).contains(
            #[trigger] table[j].1[0],
        ) by {
            let c = table[j].1[0];
            assert(!guid.contains(c)) by {
                if guid.contains(c) {
                    let i = choose|i: int| 0 <= i < guid.len() && guid[i] == c;
                    assert(all_below(table[last].0, 'א'));
                    assert((guid[i] as int) < ('א' as int));
                }
            }
            if j == last {
                lemma_replaced_removes_char(prev, c, guid);
            } else {
                assert(prefix[j] == table[j]);
                lemma_replaced_keeps_absent(prev, letter, guid, c);
            }
        }
    }
}

/// Converting to non-Hebrew leaves none of the letters of [`hebrew_table`] in the text.
pub proof fn lemma_no_hebrew_letter_left(s: Seq<char>)
    ensures
        forall|j: int|
            0 <= j < hebrew_table().len() ==> !replaced_by_table(s, hebrew_table(), true).contains(
                #[trigger] hebrew_table()[j].1[0],
            ),
{
    lemma_table_well_formed();
    lemma_table_removes_letters(s, hebrew_table());
}

} // verus!
