//! Converting a text to non-Hebrew and back gives the text again.
//!
//! The proof follows the text through both conversions as a sequence of pieces: a piece
//! is a character of the text, or the GUID text that stands for one letter of the table.
//! Each replacement of a letter turns that letter's characters into its GUID pieces, and
//! each replacement of a GUID text turns exactly that GUID's pieces back into the letter:
//! the hyphens at fixed places of the GUID texts keep any other match from lining up, as
//! long as the text itself holds no `-`.
use vstd::prelude::*;

use crate::text::replaced;
use super::{all_below, hebrew_table, lemma_table_well_formed, replaced_by_table, table_well_formed};

verus! {

/// A piece of a text during the conversion: a character of the text, or the GUID text
/// that stands for the letter at an index of [`hebrew_table`].
pub enum Piece {
    Char(char),
    Code(usize),
}

/// The GUID text at index `j` of [`hebrew_table`].
pub open spec fn guid_at(j: int) -> Seq<char> {
    hebrew_table()[j].0
}

/// The letter at index `j` of [`hebrew_table`].
pub open spec fn letter_at(j: int) -> char {
    hebrew_table()[j].1[0]
}

/// The text that piece `p` stands for.
pub open spec fn piece_text(p: Piece) -> Seq<char> {
    match p {
        Piece::Char(c) => seq![c],
        Piece::Code(j) => guid_at(j as int),
    }
}

/// The text that the pieces `ps` stand for, one after the other.
pub open spec fn pieces_text(ps: Seq<Piece>) -> Seq<char>
    decreases ps.len(),
{
    if ps.len() == 0 {
        Seq::empty()
    } else {
        piece_text(ps[0]) + pieces_text(ps.skip(1))
    }
}

/// Piece `p`, when it is a GUID text, is one of the table.
pub open spec fn piece_in_table(p: Piece) -> bool {
    match p {
        Piece::Char(_) => true,
        Piece::Code(j) => j < 27,
    }
}

/// Every GUID piece of `ps` is one of the table, and no character piece is a `-`.
pub open spec fn pieces_ok(ps: Seq<Piece>, hyphens_allowed: bool) -> bool {
    forall|k: int|
        0 <= k < ps.len() ==> piece_in_table(#[trigger] ps[k]) && (hyphens_allowed || ps[k] != Piece::Char('-'))
}

/// Position `t` of a GUID text holds a `-`.
pub open spec fn is_hyphen_pos(t: int) -> bool {
    t == 8 || t == 13 || t == 18 || t == 23
}

/// The first index below `n` whose letter is `c`, or -1 when there is none.
pub open spec fn letter_index(c: char, n: int) -> int
    decreases n,
{
    if n <= 0 {
        -1
    } else {
        let k = letter_index(c, n - 1);
        if k >= 0 {
            k
        } else if letter_at(n - 1) == c {
            n - 1
        } else {
            -1
        }
    }
}

/// Character `c` after the letters of the first `n` table entries have been replaced.
pub open spec fn encoded_piece(c: char, n: int) -> Piece {
    let k = letter_index(c, n);
    if k >= 0 {
        Piece::Code(k as usize)
    } else {
        Piece::Char(c)
    }
}

/// Text `s` after the letters of the first `n` table entries have been replaced.
pub open spec fn encoded_pieces(s: Seq<char>, n: int) -> Seq<Piece> {
    s.map_values(|c: char| encoded_piece(c, n))
}

/// Character `c` of a converted text after the GUID texts of the first `m` table entries
/// have been replaced back.
pub open spec fn decoded_piece(c: char, m: int) -> Piece {
    let k = letter_index(c, 27);
    if k >= m {
        Piece::Code(k as usize)
    } else {
        Piece::Char(c)
    }
}

/// Text `s`, converted, after the GUID texts of the first `m` table entries have been
/// replaced back.
pub open spec fn decoded_pieces(s: Seq<char>, m: int) -> Seq<Piece> {
    s.map_values(|c: char| decoded_piece(c, m))
}

pub(crate) proof fn lemma_letter_index(c: char, n: int)
    requires
        0 <= n,
    ensures
        letter_index(c, n) == -1 || (0 <= letter_index(c, n) < n && letter_at(letter_index(c, n)) == c),
    decreases n,
{
    if n > 0 {
        lemma_letter_index(c, n - 1);
    }
}

/// The facts of the table that the proof uses: each GUID text has 36 characters, with `-`
/// exactly at its four fixed places, and no two GUID texts are equal.
proof fn lemma_guid_shape()
    ensures
        forall|j: int| 0 <= j < 27 ==> (#[trigger] guid_at(j)).len() == 36,
        forall|j: int, t: int|
            0 <= j < 27 && 0 <= t < 36 ==> ((#[trigger] guid_at(j)[t] == '-') <==> is_hyphen_pos(t)),
        forall|i: int, j: int| 0 <= i < 27 && 0 <= j < 27 && i != j ==> #[trigger] guid_at(i) != #[trigger] guid_at(j),
{
    reveal_strlit("810cc936-b443-46d9-ac5e-646e2f6fea68");
    reveal_strlit("1b1a3310-8c1a-4823-bb08-55a69a836387");
    reveal_strlit("0befe91b-b117-426e-bb0f-f4a6652f4711");
    reveal_strlit("db5d4f5b-3670-4766-b2c5-a8e187226276");
    reveal_strlit("fc70d64d-79d1-4119-932d-66517e8bd1a9");
    reveal_strlit("ab42380a-ed4c-4931-af0a-d38be8029298");
    reveal_strlit("f8601c36-fc31-4032-a25a-7c4284a66baf");
    reveal_strlit("5e2ba150-1369-418a-8faa-995960b41c05");
    reveal_strlit("6a20a60a-3be8-42cc-8e8c-9aff51128e45");
    reveal_strlit("d1a8c944-a623-45c8-8f57-811d302376d6");
    reveal_strlit("3a53210c-9d73-496c-a110-b9caa9837ddd");
    reveal_strlit("c4f6348b-f69b-4bb6-9cc5-a33b39b36bfe");
    reveal_strlit("7fd481ce-294c-4112-909c-9bf5eaa38351");
    reveal_strlit("e540ba32-f6b0-43c6-92af-28a4404a2675");
    reveal_strlit("a80d5945-81d1-4dbf-9188-7e1af8ac809c");
    reveal_strlit("fc96d236-4660-4afd-93c7-39415d39cdfd");
    reveal_strlit("2d3cab03-b04a-45b2-ae09-8331eea51094");
    reveal_strlit("09d07874-5797-4255-a769-f900b047b3a2");
    reveal_strlit("b12df03d-4b36-4003-bb4f-4ec5443ffdcd");
    reveal_strlit("a895da10-5605-455a-821d-019b55ec54b3");
    reveal_strlit("3badcfc5-8923-4465-9fd3-af5c77111384");
    reveal_strlit("d600421a-c5b2-41cf-ab6d-949840320c83");
    reveal_strlit("6c08bdc0-33c0-449b-b20b-b6cb8a22e186");
    reveal_strlit("f0c89f4a-7f67-49d0-8bc0-0f8fd7e73fbc");
    reveal_strlit("0a05976a-14b4-44cf-8cf8-f9c947ec884e");
    reveal_strlit("9f9d74af-99cc-4242-b9e9-ce1bb29b193d");
    reveal_strlit("ddfe1abc-a747-4f30-9a6c-15a5340bf45a");
    assert forall|j: int| 0 <= j < 27 implies (#[trigger] guid_at(j)).len() == 36 by {}
    assert forall|j: int, t: int| 0 <= j < 27 && 0 <= t < 36 implies ((#[trigger] guid_at(j)[t] == '-')
        <==> is_hyphen_pos(t)) by {}
    assert forall|i: int, j: int| 0 <= i < 27 && 0 <= j < 27 && i != j implies #[trigger] guid_at(i)
        != #[trigger] guid_at(j) by {
        assert(guid_at(i)[0] != guid_at(j)[0] || guid_at(i)[1] != guid_at(j)[1] || guid_at(i)[2] != guid_at(j)[2]);
    }
}

/// The letters and GUID texts of the table in the terms of this proof.
proof fn lemma_letters()
    ensures
        forall|j: int| 0 <= j < 27 ==> (#[trigger] hebrew_table()[j]).1 == seq![letter_at(j)],
        forall|j: int, c: char| 0 <= j < 27 && ('א' as int) <= (c as int) ==> !#[trigger] guid_at(j).contains(c),
        forall|j: int| 0 <= j < 27 ==> ('א' as int) <= (#[trigger] letter_at(j) as int),
{
    lemma_table_well_formed();
    let t = hebrew_table();
    assert forall|j: int| 0 <= j < 27 implies (#[trigger] hebrew_table()[j]).1 == seq![letter_at(j)] by {
        assert(t[j].1.len() == 1);
        assert(t[j].1 =~= seq![letter_at(j)]);
    }
    assert forall|j: int, c: char| 0 <= j < 27 && ('א' as int) <= (c as int) implies !#[trigger] guid_at(j).contains(c) by {
        assert(all_below(t[j].0, 'א'));
        if guid_at(j).contains(c) {
            let i = choose|i: int| 0 <= i < guid_at(j).len() && guid_at(j)[i] == c;
            assert((guid_at(j)[i] as int) < ('א' as int));
        }
    }
    assert forall|j: int| 0 <= j < 27 implies ('א' as int) <= (#[trigger] letter_at(j) as int) by {
        assert(t[j].1.len() == 1);
    }
}

/// The characters of `s`, each as a piece of its own.
pub open spec fn chars_as_pieces(s: Seq<char>) -> Seq<Piece> {
    s.map_values(|c: char| char_piece(c))
}

/// Character `c` as a piece.
pub open spec fn char_piece(c: char) -> Piece {
    Piece::Char(c)
}

/// A text made of character pieces only is the text of those characters.
proof fn lemma_text_of_chars(s: Seq<char>)
    ensures
        pieces_text(chars_as_pieces(s)) == s,
    decreases s.len(),
{
    let ps = chars_as_pieces(s);
    if s.len() > 0 {
        lemma_text_of_chars(s.skip(1));
        assert(ps.skip(1) =~= chars_as_pieces(s.skip(1))) by {
            assert forall|k: int| 0 <= k < s.len() - 1 implies #[trigger] ps.skip(1)[k] == chars_as_pieces(s.skip(1))[k] by {
                assert(ps.skip(1)[k] == ps[k + 1]);
            }
        }
        assert(s =~= seq![s[0]] + s.skip(1));
    }
}

/// Replacing a character that a prefix does not hold leaves that prefix as it is.
proof fn lemma_replaced_after_prefix(a: Seq<char>, b: Seq<char>, c: char, r: Seq<char>)
    requires
        !a.contains(c),
    ensures
        replaced(a + b, seq![c], r) == a + replaced(b, seq![c], r),
    decreases a.len(),
{
    if a.len() == 0 {
        assert(a + b =~= b);
    } else {
        let s = a + b;
        assert(a[0] != c);
        assert(s.take(1) != seq![c]) by {
            assert(s.take(1)[0] == a[0]);
        }
        assert(!a.skip(1).contains(c)) by {
            if a.skip(1).contains(c) {
                let i = choose|i: int| 0 <= i < a.skip(1).len() && a.skip(1)[i] == c;
                assert(a[i + 1] == c);
            }
        }
        lemma_replaced_after_prefix(a.skip(1), b, c, r);
        assert(s.skip(1) =~= a.skip(1) + b);
        assert(seq![s[0]] + (a.skip(1) + replaced(b, seq![c], r)) =~= a + replaced(b, seq![c], r));
    }
}

/// Piece `p` after the letter at index `n` has been replaced by its GUID text.
pub open spec fn letter_replaced(p: Piece, n: int) -> Piece {
    if p == Piece::Char(letter_at(n)) {
        Piece::Code(n as usize)
    } else {
        p
    }
}

/// Replacing the letter at index `n` in the text of some pieces turns the pieces of that
/// letter into its GUID pieces.
proof fn lemma_letter_step(ps: Seq<Piece>, n: int)
    requires
        0 <= n < 27,
        pieces_ok(ps, true),
    ensures
        replaced(pieces_text(ps), seq![letter_at(n)], guid_at(n)) == pieces_text(
            ps.map_values(|p: Piece| letter_replaced(p, n)),
        ),
    decreases ps.len(),
{
    lemma_letters();
    let c = letter_at(n);
    let g = guid_at(n);
    let mapped = ps.map_values(|p: Piece| letter_replaced(p, n));
    if ps.len() > 0 {
        let rest = ps.skip(1);
        assert(pieces_ok(rest, true)) by {
            assert forall|k: int| 0 <= k < rest.len() implies piece_in_table(#[trigger] rest[k]) by {
                assert(rest[k] == ps[k + 1]);
            }
        }
        lemma_letter_step(rest, n);
        assert(mapped.skip(1) =~= rest.map_values(|p: Piece| letter_replaced(p, n)));
        let r = pieces_text(rest);
        let s = pieces_text(ps);
        assert(piece_in_table(ps[0]));
        match ps[0] {
            Piece::Char(d) => {
                assert(s =~= seq![d] + r);
                assert(s.take(1) =~= seq![d]);
                assert(s.skip(1) =~= r);
            },
            Piece::Code(j) => {
                assert(s == guid_at(j as int) + r);
                assert(!guid_at(j as int).contains(c));
                lemma_replaced_after_prefix(guid_at(j as int), r, c, g);
            },
        }
    }
}

proof fn lemma_encode_step(s: Seq<char>, n: int)
    requires
        0 <= n < 27,
    ensures
        pieces_text(encoded_pieces(s, n + 1)) == replaced(pieces_text(encoded_pieces(s, n)), seq![letter_at(n)], guid_at(n)),
{
    let ps = encoded_pieces(s, n);
    assert(pieces_ok(ps, true)) by {
        assert forall|k: int| 0 <= k < ps.len() implies piece_in_table(#[trigger] ps[k]) by {
            lemma_letter_index(s[k], n);
        }
    }
    lemma_letter_step(ps, n);
    assert(ps.map_values(|p: Piece| letter_replaced(p, n)) =~= encoded_pieces(s, n + 1)) by {
        assert forall|k: int| 0 <= k < s.len() implies #[trigger] letter_replaced(ps[k], n) == encoded_piece(s[k], n + 1) by {
            lemma_letter_index(s[k], n);
        }
    }
}

/// Converting to non-Hebrew with the first `n` table entries gives the text of the encoded pieces.
pub(crate) proof fn lemma_encode(s: Seq<char>, n: int)
    requires
        0 <= n <= 27,
    ensures
        replaced_by_table(s, hebrew_table().take(n), true) == pieces_text(encoded_pieces(s, n)),
    decreases n,
{
    if n == 0 {
        assert(encoded_pieces(s, 0) =~= chars_as_pieces(s));
        lemma_text_of_chars(s);
    } else {
        lemma_encode(s, n - 1);
        lemma_encode_step(s, n - 1);
        lemma_letters();
        let t = hebrew_table().take(n);
        assert(t.drop_last() =~= hebrew_table().take(n - 1));
        assert(t.last() == hebrew_table()[n - 1]);
    }
}

/// Within the first eight characters of the text of pieces without `-` there is no `-`:
/// a GUID text has its first `-` at its ninth character.
proof fn lemma_no_early_hyphen(ps: Seq<Piece>, m: int)
    requires
        pieces_ok(ps, false),
        0 <= m < 8,
        m < pieces_text(ps).len(),
    ensures
        pieces_text(ps)[m] != '-',
    decreases ps.len(),
{
    lemma_guid_shape();
    let rest = ps.skip(1);
    assert(pieces_ok(rest, false)) by {
        assert forall|k: int| 0 <= k < rest.len() implies piece_in_table(#[trigger] rest[k]) && rest[k] != Piece::Char(
            '-',
        ) by {
            assert(rest[k] == ps[k + 1]);
        }
    }
    assert(piece_in_table(ps[0]) && ps[0] != Piece::Char('-'));
    match ps[0] {
        Piece::Char(c) => {
            if m > 0 {
                lemma_no_early_hyphen(rest, m - 1);
            }
        },
        Piece::Code(j) => {
            assert(pieces_text(ps) == guid_at(j as int) + pieces_text(rest));
            assert(pieces_text(ps)[m] == guid_at(j as int)[m]);
        },
    }
}

/// Scanning for a GUID text from inside another GUID piece finds no match before the
/// pieces that follow it: the hyphens never line up.
proof fn lemma_guid_tail(ps: Seq<Piece>, i: int, j: int, k: int, l: Seq<char>)
    requires
        pieces_ok(ps, false),
        0 <= i < 27,
        0 <= j < 27,
        1 <= k <= 36,
    ensures
        replaced(guid_at(j).skip(k) + pieces_text(ps), guid_at(i), l) == guid_at(j).skip(k) + replaced(
            pieces_text(ps),
            guid_at(i),
            l,
        ),
    decreases 36 - k,
{
    lemma_guid_shape();
    let x = guid_at(j).skip(k);
    let r = pieces_text(ps);
    let s = x + r;
    let g = guid_at(i);
    if k == 36 {
        assert(x =~= Seq::<char>::empty());
        assert(s =~= r);
    } else if s.len() < 36 {
    } else {
        assert(s.take(36) != g) by {
            if k < 28 && k != 5 && k != 10 && k != 15 {
                assert(s.take(36)[8] == guid_at(j)[k + 8]);
                assert(!is_hyphen_pos(k + 8));
                assert(g[8] == '-');
            } else if k < 28 {
                let m = 28 - k;
                assert(s.take(36)[m] == guid_at(j)[28]);
                assert(g[m] == '-');
            } else {
                lemma_no_early_hyphen(ps, k - 28);
                assert(s.take(36)[8] == r[k - 28]);
                assert(g[8] == '-');
            }
        }
        lemma_guid_tail(ps, i, j, k + 1, l);
        assert(s.skip(1) =~= guid_at(j).skip(k + 1) + r);
        assert(seq![s[0]] + (guid_at(j).skip(k + 1) + replaced(r, g, l)) =~= x + replaced(r, g, l));
    }
}

/// Piece `p` after the GUID text at index `i` has been replaced by its letter.
pub open spec fn guid_replaced(p: Piece, i: int) -> Piece {
    if p == Piece::Code(i as usize) {
        Piece::Char(letter_at(i))
    } else {
        p
    }
}

/// Replacing the GUID text at index `i` in the text of pieces without `-` turns exactly
/// the pieces of that GUID back into its letter.
proof fn lemma_guid_step(ps: Seq<Piece>, i: int)
    requires
        0 <= i < 27,
        pieces_ok(ps, false),
    ensures
        replaced(pieces_text(ps), guid_at(i), seq![letter_at(i)]) == pieces_text(
            ps.map_values(|p: Piece| guid_replaced(p, i)),
        ),
    decreases ps.len(),
{
    lemma_guid_shape();
    let l = seq![letter_at(i)];
    let g = guid_at(i);
    let mapped = ps.map_values(|p: Piece| guid_replaced(p, i));
    if ps.len() > 0 {
        let rest = ps.skip(1);
        assert(pieces_ok(rest, false)) by {
            assert forall|k: int| 0 <= k < rest.len() implies piece_in_table(#[trigger] rest[k]) && rest[k]
                != Piece::Char('-') by {
                assert(rest[k] == ps[k + 1]);
            }
        }
        lemma_guid_step(rest, i);
        assert(mapped.skip(1) =~= rest.map_values(|p: Piece| guid_replaced(p, i)));
        let r = pieces_text(rest);
        let s = pieces_text(ps);
        assert(piece_in_table(ps[0]) && ps[0] != Piece::Char('-'));
        match ps[0] {
            Piece::Char(c) => {
                assert(s =~= seq![c] + r);
                if s.len() >= 36 {
                    lemma_no_early_hyphen(rest, 7);
                    assert(s.take(36)[8] == r[7]);
                    assert(s.take(36) != g);
                    assert(s.skip(1) =~= r);
                }
            },
            Piece::Code(j) => {
                assert(s == guid_at(j as int) + r);
                if j as int == i {
                    assert(s.take(36) =~= g);
                    assert(s.skip(36) =~= r);
                } else {
                    assert(s.take(36) =~= guid_at(j as int));
                    lemma_guid_tail(rest, i, j as int, 1, l);
                    assert(s.skip(1) =~= guid_at(j as int).skip(1) + r);
                    assert(seq![s[0]] + (guid_at(j as int).skip(1) + replaced(r, g, l)) =~= guid_at(j as int) + replaced(
                        r,
                        g,
                        l,
                    ));
                }
            },
        }
    }
}

proof fn lemma_decode_step(s: Seq<char>, m: int)
    requires
        0 <= m < 27,
        !s.contains('-'),
    ensures
        pieces_text(decoded_pieces(s, m + 1)) == replaced(pieces_text(decoded_pieces(s, m)), guid_at(m), seq![letter_at(m)]),
{
    let ps = decoded_pieces(s, m);
    assert(pieces_ok(ps, false)) by {
        assert forall|k: int| 0 <= k < ps.len() implies piece_in_table(#[trigger] ps[k]) && ps[k] != Piece::Char('-') by {
            lemma_letter_index(s[k], 27);
            lemma_letters();
            if ps[k] == Piece::Char('-') {
                assert(s[k] == '-');
            }
        }
    }
    lemma_guid_step(ps, m);
    assert(ps.map_values(|p: Piece| guid_replaced(p, m)) =~= decoded_pieces(s, m + 1)) by {
        assert forall|k: int| 0 <= k < s.len() implies #[trigger] guid_replaced(ps[k], m) == decoded_piece(s[k], m + 1) by {
            lemma_letter_index(s[k], 27);
        }
    }
}

/// Converting back with the first `m` table entries gives the text of the decoded pieces.
proof fn lemma_decode(s: Seq<char>, m: int)
    requires
        0 <= m <= 27,
        !s.contains('-'),
    ensures
        replaced_by_table(pieces_text(decoded_pieces(s, 0)), hebrew_table().take(m), false) == pieces_text(
            decoded_pieces(s, m),
        ),
    decreases m,
{
    if m > 0 {
        lemma_decode(s, m - 1);
        lemma_decode_step(s, m - 1);
        lemma_letters();
        let t = hebrew_table().take(m);
        assert(t.drop_last() =~= hebrew_table().take(m - 1));
        assert(t.last() == hebrew_table()[m - 1]);
    } else {
        assert(hebrew_table().take(0).len() == 0);
    }
}

/// Converting a text to non-Hebrew and then back gives the text again, provided the text
/// holds no `-` (with a `-`, the text itself can hold or complete one of the GUID texts,
/// which the way back then turns into a letter).
pub proof fn lemma_round_trip(s: Seq<char>)
    requires
        !s.contains('-'),
    ensures
        replaced_by_table(replaced_by_table(s, hebrew_table(), true), hebrew_table(), false) == s,
{
    assert(hebrew_table().take(27) =~= hebrew_table());
    lemma_encode(s, 27);
    assert(encoded_pieces(s, 27) =~= decoded_pieces(s, 0));
    lemma_decode(s, 27);
    assert(decoded_pieces(s, 27) =~= chars_as_pieces(s)) by {
        assert forall|k: int| 0 <= k < s.len() implies #[trigger] decoded_pieces(s, 27)[k] == chars_as_pieces(s)[k] by {
            lemma_letter_index(s[k], 27);
        }
    }
    lemma_text_of_chars(s);
}

} // verus!
