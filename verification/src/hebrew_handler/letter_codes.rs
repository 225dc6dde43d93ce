//! Which GUID text each Hebrew letter becomes.
use vstd::prelude::*;

use super::{hebrew_table, replaced_by_table};
use super::round_trip::{
    encoded_piece, encoded_pieces, guid_at, lemma_encode, lemma_letter_index, lemma_round_trip, letter_at,
    letter_index, piece_text, pieces_text,
};

verus! {

/// The GUID text that stands for Hebrew letter `c`; any other character stands for itself.
pub open spec fn letter_code(c: char) -> Seq<char> {
    match c {
        'א' => "0befe91b-b117-426e-bb0f-f4a6652f4711"@,
        'ב' => "3badcfc5-8923-4465-9fd3-af5c77111384"@,
        'ג' => "fc96d236-4660-4afd-93c7-39415d39cdfd"@,
        'ד' => "2d3cab03-b04a-45b2-ae09-8331eea51094"@,
        'ה' => "d600421a-c5b2-41cf-ab6d-949840320c83"@,
        'ו' => "fc70d64d-79d1-4119-932d-66517e8bd1a9"@,
        'ז' => "b12df03d-4b36-4003-bb4f-4ec5443ffdcd"@,
        'ח' => "c4f6348b-f69b-4bb6-9cc5-a33b39b36bfe"@,
        'ט' => "db5d4f5b-3670-4766-b2c5-a8e187226276"@,
        'י' => "7fd481ce-294c-4112-909c-9bf5eaa38351"@,
        'ך' => "d1a8c944-a623-45c8-8f57-811d302376d6"@,
        'כ' => "a80d5945-81d1-4dbf-9188-7e1af8ac809c"@,
        'ל' => "3a53210c-9d73-496c-a110-b9caa9837ddd"@,
        'ם' => "f8601c36-fc31-4032-a25a-7c4284a66baf"@,
        'מ' => "f0c89f4a-7f67-49d0-8bc0-0f8fd7e73fbc"@,
        'ן' => "ab42380a-ed4c-4931-af0a-d38be8029298"@,
        'נ' => "6c08bdc0-33c0-449b-b20b-b6cb8a22e186"@,
        'ס' => "a895da10-5605-455a-821d-019b55ec54b3"@,
        'ע' => "e540ba32-f6b0-43c6-92af-28a4404a2675"@,
        'ף' => "6a20a60a-3be8-42cc-8e8c-9aff51128e45"@,
        'פ' => "5e2ba150-1369-418a-8faa-995960b41c05"@,
        'ץ' => "ddfe1abc-a747-4f30-9a6c-15a5340bf45a"@,
        'צ' => "0a05976a-14b4-44cf-8cf8-f9c947ec884e"@,
        'ק' => "810cc936-b443-46d9-ac5e-646e2f6fea68"@,
        'ר' => "1b1a3310-8c1a-4823-bb08-55a69a836387"@,
        'ש' => "09d07874-5797-4255-a769-f900b047b3a2"@,
        'ת' => "9f9d74af-99cc-4242-b9e9-ce1bb29b193d"@,
        _ => seq![c],
    }
}

/// Text `s` with each character replaced by what it stands for.
pub open spec fn coded_text(s: Seq<char>) -> Seq<char>
    decreases s.len(),
{
    if s.len() == 0 {
        Seq::empty()
    } else {
        letter_code(s[0]) + coded_text(s.skip(1))
    }
}

/// Each letter of the table has as its code the GUID text that the table pairs it with,
/// and a character that is none of the table's letters stands for itself.
proof fn lemma_table_codes()
    ensures
        forall|j: int| 0 <= j < 27 ==> letter_code(#[trigger] letter_at(j)) == guid_at(j),
        forall|c: char| (forall|j: int| 0 <= j < 27 ==> #[trigger] letter_at(j) != c) ==> letter_code(c) == seq![c],
{
    reveal_strlit("810cc936-b443-46d9-ac5e-646e2f6fea68");
    reveal_strlit("ק");
    reveal_strlit("1b1a3310-8c1a-4823-bb08-55a69a836387");
    reveal_strlit("ר");
    reveal_strlit("0befe91b-b117-426e-bb0f-f4a6652f4711");
    reveal_strlit("א");
    reveal_strlit("db5d4f5b-3670-4766-b2c5-a8e187226276");
    reveal_strlit("ט");
    reveal_strlit("fc70d64d-79d1-4119-932d-66517e8bd1a9");
    reveal_strlit("ו");
    reveal_strlit("ab42380a-ed4c-4931-af0a-d38be8029298");
    reveal_strlit("ן");
    reveal_strlit("f8601c36-fc31-4032-a25a-7c4284a66baf");
    reveal_strlit("ם");
    reveal_strlit("5e2ba150-1369-418a-8faa-995960b41c05");
    reveal_strlit("פ");
    reveal_strlit("6a20a60a-3be8-42cc-8e8c-9aff51128e45");
    reveal_strlit("ף");
    reveal_strlit("d1a8c944-a623-45c8-8f57-811d302376d6");
    reveal_strlit("ך");
    reveal_strlit("3a53210c-9d73-496c-a110-b9caa9837ddd");
    reveal_strlit("ל");
    reveal_strlit("c4f6348b-f69b-4bb6-9cc5-a33b39b36bfe");
    reveal_strlit("ח");
    reveal_strlit("7fd481ce-294c-4112-909c-9bf5eaa38351");
    reveal_strlit("י");
    reveal_strlit("e540ba32-f6b0-43c6-92af-28a4404a2675");
    reveal_strlit("ע");
    reveal_strlit("a80d5945-81d1-4dbf-9188-7e1af8ac809c");
    reveal_strlit("כ");
    reveal_strlit("fc96d236-4660-4afd-93c7-39415d39cdfd");
    reveal_strlit("ג");
    reveal_strlit("2d3cab03-b04a-45b2-ae09-8331eea51094");
    reveal_strlit("ד");
    reveal_strlit("09d07874-5797-4255-a769-f900b047b3a2");
    reveal_strlit("ש");
    reveal_strlit("b12df03d-4b36-4003-bb4f-4ec5443ffdcd");
    reveal_strlit("ז");
    reveal_strlit("a895da10-5605-455a-821d-019b55ec54b3");
    reveal_strlit("ס");
    reveal_strlit("3badcfc5-8923-4465-9fd3-af5c77111384");
    reveal_strlit("ב");
    reveal_strlit("d600421a-c5b2-41cf-ab6d-949840320c83");
    reveal_strlit("ה");
    reveal_strlit("6c08bdc0-33c0-449b-b20b-b6cb8a22e186");
    reveal_strlit("נ");
    reveal_strlit("f0c89f4a-7f67-49d0-8bc0-0f8fd7e73fbc");
    reveal_strlit("מ");
    reveal_strlit("0a05976a-14b4-44cf-8cf8-f9c947ec884e");
    reveal_strlit("צ");
    reveal_strlit("9f9d74af-99cc-4242-b9e9-ce1bb29b193d");
    reveal_strlit("ת");
    reveal_strlit("ddfe1abc-a747-4f30-9a6c-15a5340bf45a");
    reveal_strlit("ץ");
    assert forall|j: int| 0 <= j < 27 implies letter_code(#[trigger] letter_at(j)) == guid_at(j) by {
        assert(0 <= j < 27);
    }
    assert forall|c: char| (forall|j: int| 0 <= j < 27 ==> #[trigger] letter_at(j) != c) implies letter_code(c) == seq![c] by {
        assert(letter_at(0) != c);
        assert(letter_at(1) != c);
        assert(letter_at(2) != c);
        assert(letter_at(3) != c);
        assert(letter_at(4) != c);
        assert(letter_at(5) != c);
        assert(letter_at(6) != c);
        assert(letter_at(7) != c);
        assert(letter_at(8) != c);
        assert(letter_at(9) != c);
        assert(letter_at(10) != c);
        assert(letter_at(11) != c);
        assert(letter_at(12) != c);
        assert(letter_at(13) != c);
        assert(letter_at(14) != c);
        assert(letter_at(15) != c);
        assert(letter_at(16) != c);
        assert(letter_at(17) != c);
        assert(letter_at(18) != c);
        assert(letter_at(19) != c);
        assert(letter_at(20) != c);
        assert(letter_at(21) != c);
        assert(letter_at(22) != c);
        assert(letter_at(23) != c);
        assert(letter_at(24) != c);
        assert(letter_at(25) != c);
        assert(letter_at(26) != c);
    }
}

/// A character that is none of the first `n` letters of the table has no index below `n`.
proof fn lemma_no_letter_index(c: char, n: int)
    requires
        0 <= n,
        letter_index(c, n) == -1,
    ensures
        forall|j: int| 0 <= j < n ==> letter_at(j) != c,
    decreases n,
{
    if n > 0 {
        lemma_no_letter_index(c, n - 1);
    }
}

/// A character, once the whole table has been applied, stands for its code.
proof fn lemma_piece_code(c: char)
    ensures
        piece_text(encoded_piece(c, 27)) == letter_code(c),
{
    lemma_letter_index(c, 27);
    lemma_table_codes();
    if letter_index(c, 27) < 0 {
        lemma_no_letter_index(c, 27);
    }
}

/// Converting to non-Hebrew replaces each Hebrew letter by its own GUID text (`ק` by
/// `810cc936-b443-46d9-ac5e-646e2f6fea68`, `ר` by `1b1a3310-8c1a-4823-bb08-55a69a836387`, and
/// so on as [`letter_code`] lists them) and keeps every other character.
pub proof fn lemma_letters_to_guids(s: Seq<char>)
    ensures
        replaced_by_table(s, hebrew_table(), true) == coded_text(s),
{
    lemma_encode(s, 27);
    assert(hebrew_table().take(27) =~= hebrew_table());
    lemma_coded_pieces(s);
}

/// Converting back turns each letter's GUID text into that letter again: a text without
/// `-`, written with each Hebrew letter as its GUID text, converts back to the text itself.
pub proof fn lemma_guids_to_letters(s: Seq<char>)
    requires
        !s.contains('-'),
    ensures
        replaced_by_table(coded_text(s), hebrew_table(), false) == s,
{
    lemma_letters_to_guids(s);
    lemma_round_trip(s);
}

proof fn lemma_coded_pieces(s: Seq<char>)
    ensures
        pieces_text(encoded_pieces(s, 27)) == coded_text(s),
    decreases s.len(),
{
    if s.len() > 0 {
        lemma_coded_pieces(s.skip(1));
        lemma_piece_code(s[0]);
        let ps = encoded_pieces(s, 27);
        assert(ps.skip(1) =~= encoded_pieces(s.skip(1), 27));
        assert(ps[0] == encoded_piece(s[0], 27));
    }
}

} // verus!
