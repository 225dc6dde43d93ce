use vstd::prelude::*;
use vstd::string::*;

verus! {

/// The characters of an optional string.
pub open spec fn opt_string_view(o: Option<String>) -> Option<Seq<char>> {
    match o {
        Some(s) => Some(s@),
        None => None,
    }
}

/// Appends one character to a string (`String::push`).
#[verifier::external_body]
pub(crate) fn push_char(s: &mut String, c: char)
    ensures
        final(s)@ == old(s)@.push(c),
{
    s.push(c);
}

/// Appends `t` to `s`.
pub fn push_str(s: &mut String, t: &str)
    ensures
        final(s)@ == old(s)@ + t@,
{
    s.append(t);
}

/// A fresh string holding the characters of `t`.
pub fn string_of(t: &str) -> (r: String)
    ensures
        r@ == t@,
{
    String::from_str(t)
}

/// The string holding the single character `c`.
pub fn char_to_string(c: char) -> (r: String)
    ensures
        r@ == seq![c],
{
    let mut s = String::new();
    push_char(&mut s, c);
    proof {
        assert(s@ =~= seq![c]);
    }
    s
}

/// The characters of `s`, in order.
pub fn chars_of(s: &str) -> (r: Vec<char>)
    ensures
        r@ == s@,
{
    let mut r: Vec<char> = Vec::new();
    for c in it: s.chars()
        invariant
            r@ == it.seq().take(it.index() as int),
    {
        r.push(c);
    }
    r
}

/// Whether `a` and `b` hold the same characters.
pub fn str_eq(a: &str, b: &str) -> (r: bool)
    ensures
        r == (a@ == b@),
{
    let av = chars_of(a);
    let bv = chars_of(b);
    if av.len() != bv.len() {
        return false;
    }
    let mut i: usize = 0;
    while i < av.len()
        invariant
            av@ == a@,
            bv@ == b@,
            av.len() == bv.len(),
            i <= av.len(),
            forall|j: int| 0 <= j < i ==> av@[j] == bv@[j],
        decreases av.len() - i,
    {
        if av[i] != bv[i] {
            return false;
        }
        i = i + 1;
    }
    proof {
        assert(av@ =~= bv@);
    }
    true
}


/// `p` occurs in `s` starting at position `i`.
pub open spec fn occurs_at(s: Seq<char>, p: Seq<char>, i: int) -> bool {
    0 <= i && i + p.len() <= s.len() && s.subrange(i, i + p.len()) == p
}

/// `s` begins with `p`.
pub open spec fn has_prefix(s: Seq<char>, p: Seq<char>) -> bool {
    occurs_at(s, p, 0)
}

/// `s` ends with `p`.
pub open spec fn has_suffix(s: Seq<char>, p: Seq<char>) -> bool {
    p.len() <= s.len() && occurs_at(s, p, s.len() - p.len())
}

/// `p` occurs somewhere in `s`.
pub open spec fn has_substring(s: Seq<char>, p: Seq<char>) -> bool {
    exists|i: int| occurs_at(s, p, i)
}

/// Every occurrence of `p` in `s`, taken from the left without overlap, replaced by `r`.
/// An empty `p` matches before every character and at the end.
pub open spec fn replaced(s: Seq<char>, p: Seq<char>, r: Seq<char>) -> Seq<char>
    decreases s.len(),
{
    if p.len() == 0 {
        if s.len() == 0 {
            r
        } else {
            r + seq![s[0]] + replaced(s.skip(1), p, r)
        }
    } else if s.len() < p.len() {
        s
    } else if s.take(p.len() as int) == p {
        r + replaced(s.skip(p.len() as int), p, r)
    } else {
        seq![s[0]] + replaced(s.skip(1), p, r)
    }
}

/// `i` is the first position where `p` occurs in `s`.
pub open spec fn first_occurrence(s: Seq<char>, p: Seq<char>, i: int) -> bool {
    occurs_at(s, p, i) && forall|j: int| 0 <= j < i ==> !occurs_at(s, p, j)
}

/// `s` with the first occurrence of `p`, if any, replaced by `r` (`str::replacen(p, r, 1)`).
pub open spec fn replaced_first(s: Seq<char>, p: Seq<char>, r: Seq<char>) -> Seq<char> {
    if exists|i: int| first_occurrence(s, p, i) {
        let i = choose|i: int| first_occurrence(s, p, i);
        s.take(i) + r + s.skip(i + p.len())
    } else {
        s
    }
}

/// Replacing the first occurrence of a text that does not occur changes nothing.
pub proof fn lemma_replaced_first_absent(s: Seq<char>, p: Seq<char>, r: Seq<char>)
    requires
        !has_substring(s, p),
    ensures
        replaced_first(s, p, r) == s,
{
}

/// Replacing the first occurrence of `p` in a text that begins with `p` replaces that beginning.
pub proof fn lemma_replaced_first_prefix(p: Seq<char>, y: Seq<char>, r: Seq<char>)
    ensures
        replaced_first(p + y, p, r) == r + y,
{
    let s = p + y;
    assert(s.subrange(0, p.len() as int) =~= p);
    assert(first_occurrence(s, p, 0));
    let i = choose|i: int| first_occurrence(s, p, i);
    assert(i == 0) by {
        if i > 0 {
            assert(!occurs_at(s, p, 0));
        }
    }
    assert(s.skip(p.len() as int) =~= y);
    assert(s.take(0) =~= Seq::<char>::empty());
    assert(replaced_first(s, p, r) =~= r + y);
}

/// A text that does not occur in `b`, nor anywhere in `a + b` from a position inside `a`,
/// does not occur in `a + b`.
pub proof fn lemma_absent_after(a: Seq<char>, b: Seq<char>, p: Seq<char>)
    requires
        !has_substring(b, p),
        forall|i: int| 0 <= i < a.len() ==> !occurs_at(a + b, p, i),
    ensures
        !has_substring(a + b, p),
{
    assert forall|i: int| !occurs_at(a + b, p, i) by {
        if i >= a.len() && occurs_at(a + b, p, i) {
            assert((a + b).subrange(i, i + p.len()) =~= b.subrange(i - a.len(), i - a.len() + p.len()));
            assert(occurs_at(b, p, i - a.len()));
        }
    }
}

/// The characters of an occurrence are those of the text that occurs.
pub proof fn lemma_occurs_chars(s: Seq<char>, p: Seq<char>, i: int)
    requires
        occurs_at(s, p, i),
    ensures
        forall|j: int| 0 <= j < p.len() ==> s[i + j] == #[trigger] p[j],
{
    assert forall|j: int| 0 <= j < p.len() implies s[i + j] == #[trigger] p[j] by {
        assert(s.subrange(i, i + p.len())[j] == s[i + j]);
    }
}

/// `s` with the first occurrence of `from`, if any, replaced by `to` (`str::replacen(from, to, 1)`).
pub fn replace_first(s: &str, from: &str, to: &str) -> (r: String)
    ensures
        r@ == replaced_first(s@, from@, to@),
{
    let v = chars_of(s);
    let p = chars_of(from);
    let mut i: usize = 0;
    while i < v.len() && !occurs_at_exec(&v, &p, i)
        invariant
            v@ == s@,
            p@ == from@,
            i <= v.len(),
            forall|j: int| 0 <= j < i ==> !occurs_at(s@, from@, j),
        decreases v.len() - i,
    {
        i = i + 1;
    }
    if i <= v.len() && occurs_at_exec(&v, &p, i) {
        let mut t = chars_range(&v, 0, i);
        push_str(&mut t, to);
        let rest = chars_range(&v, i + p.len(), v.len());
        push_str(&mut t, rest.as_str());
        proof {
            assert(first_occurrence(s@, from@, i as int));
            let k = choose|k: int| first_occurrence(s@, from@, k);
            assert(k == i) by {
                if k < i {
                } else if k > i {
                }
            }
            assert(t@ =~= replaced_first(s@, from@, to@));
        }
        t
    } else {
        proof {
            assert forall|k: int| !first_occurrence(s@, from@, k) by {
                if 0 <= k < i {
                } else if k > i {
                    assert(!occurs_at(s@, from@, k));
                }
            }
        }
        string_of(s)
    }
}

/// Whether `v` holds `p` at position `i`.
pub fn occurs_at_exec(v: &Vec<char>, p: &Vec<char>, i: usize) -> (r: bool)
    ensures
        r == occurs_at(v@, p@, i as int),
{
    if i > v.len() || p.len() > v.len() - i {
        return false;
    }
    let mut j: usize = 0;
    while j < p.len()
        invariant
            i + p.len() <= v.len(),
            j <= p.len(),
            forall|k: int| 0 <= k < j ==> v@[i + k] == p@[k],
        decreases p.len() - j,
    {
        if v[i + j] != p[j] {
            proof {
                assert(v@.subrange(i as int, i + p.len())[j as int] != p@[j as int]);
            }
            return false;
        }
        j = j + 1;
    }
    proof {
        assert(v@.subrange(i as int, i + p.len()) =~= p@);
    }
    true
}

/// Whether `s` begins with `p` (`str::starts_with`).
pub fn starts_with(s: &str, p: &str) -> (r: bool)
    ensures
        r == has_prefix(s@, p@),
{
    let v = chars_of(s);
    let w = chars_of(p);
    occurs_at_exec(&v, &w, 0)
}

/// Whether `s` ends with `p` (`str::ends_with`).
pub fn ends_with(s: &str, p: &str) -> (r: bool)
    ensures
        r == has_suffix(s@, p@),
{
    let v = chars_of(s);
    let w = chars_of(p);
    if w.len() > v.len() {
        return false;
    }
    occurs_at_exec(&v, &w, v.len() - w.len())
}

/// Whether `p` occurs in `s` (`str::contains`).
pub fn contains_str(s: &str, p: &str) -> (r: bool)
    ensures
        r == has_substring(s@, p@),
{
    let v = chars_of(s);
    let w = chars_of(p);
    if w.len() > v.len() {
        proof {
            assert forall|i: int| !occurs_at(s@, p@, i) by {}
        }
        return false;
    }
    let limit = v.len() - w.len();
    let mut i: usize = 0;
    while i < limit
        invariant
            v@ == s@,
            w@ == p@,
            limit == v.len() - w.len(),
            i <= limit,
            forall|k: int| 0 <= k < i ==> !occurs_at(s@, p@, k),
        decreases limit - i,
    {
        if occurs_at_exec(&v, &w, i) {
            return true;
        }
        i = i + 1;
    }
    if occurs_at_exec(&v, &w, limit) {
        return true;
    }
    proof {
        assert forall|k: int| !occurs_at(s@, p@, k) by {
            if 0 <= k && k < limit {
            }
        }
    }
    false
}

proof fn lemma_replaced_step(s: Seq<char>, p: Seq<char>, r: Seq<char>, i: int)
    requires
        p.len() > 0,
        0 <= i <= s.len(),
    ensures
        s.skip(i).len() >= p.len() && s.skip(i).take(p.len() as int) == p ==> replaced(s.skip(i), p, r)
            == r + replaced(s.skip(i + p.len()), p, r),
        !(s.skip(i).len() >= p.len() && s.skip(i).take(p.len() as int) == p) && i < s.len()
            ==> replaced(s.skip(i), p, r) == seq![s[i]] + replaced(s.skip(i + 1), p, r),
{
    if i + p.len() <= s.len() {
        assert(s.skip(i).skip(p.len() as int) =~= s.skip(i + p.len()));
    }
    if i < s.len() {
        assert(s.skip(i).skip(1) =~= s.skip(i + 1));
    }
}

/// `s` with every occurrence of `from` replaced by `to` (`str::replace`).
pub fn replace_all(s: &str, from: &str, to: &str) -> (r: String)
    ensures
        r@ == replaced(s@, from@, to@),
{
    let v = chars_of(s);
    let p = chars_of(from);
    let mut out = String::new();
    proof {
        assert(s@.skip(0) =~= s@);
        assert(out@ + replaced(s@, from@, to@) =~= replaced(s@, from@, to@));
    }
    if p.len() == 0 {
        let mut i: usize = 0;
        while i < v.len()
            invariant
                v@ == s@,
                p@ == from@,
                from@.len() == 0,
                i <= v.len(),
                out@ + replaced(s@.skip(i as int), from@, to@) == replaced(s@, from@, to@),
            decreases v.len() - i,
        {
            proof {
                assert(s@.skip(i as int).skip(1) =~= s@.skip(i + 1));
            }
            let ghost before = out@;
            push_str(&mut out, to);
            push_char(&mut out, v[i]);
            proof {
                assert(replaced(s@.skip(i as int), from@, to@) == to@ + seq![s@[i as int]] + replaced(s@.skip(i + 1), from@, to@));
                assert(out@ + replaced(s@.skip(i + 1), from@, to@) =~= before + replaced(s@.skip(i as int), from@, to@));
            }
            i = i + 1;
        }
        let ghost before = out@;
        push_str(&mut out, to);
        proof {
            assert(s@.skip(i as int).len() == 0);
            assert(replaced(s@.skip(i as int), from@, to@) == to@);
        }
        return out;
    }
    let mut i: usize = 0;
    while i < v.len()
        invariant
            v@ == s@,
            p@ == from@,
            p.len() > 0,
            i <= v.len(),
            out@ + replaced(s@.skip(i as int), from@, to@) == replaced(s@, from@, to@),
        decreases v.len() - i,
    {
        proof {
            lemma_replaced_step(s@, from@, to@, i as int);
        }
        if occurs_at_exec(&v, &p, i) {
            proof {
                assert(s@.skip(i as int).take(p.len() as int) =~= s@.subrange(i as int, i + p.len()));
            }
            push_str(&mut out, to);
            i = i + p.len();
        } else {
            proof {
                if s@.skip(i as int).len() >= p.len() {
                    assert(s@.skip(i as int).take(p.len() as int) =~= s@.subrange(i as int, i + p.len()));
                }
            }
            push_char(&mut out, v[i]);
            i = i + 1;
        }
    }
    proof {
        assert(s@.skip(i as int).len() == 0);
        assert(replaced(s@.skip(i as int), from@, to@) == s@.skip(i as int));
        assert(out@ + s@.skip(i as int) =~= out@);
    }
    out
}


/// The decimal digit character for `d` (0..=9).
pub open spec fn digit_char(d: int) -> char {
    (d + 48) as char
}

/// The decimal digits of `n`, most significant first, without sign.
pub open spec fn nat_digits(n: nat) -> Seq<char>
    decreases n,
{
    if n < 10 {
        seq![digit_char(n as int)]
    } else {
        nat_digits(n / 10) + seq![digit_char((n % 10) as int)]
    }
}

/// The decimal notation of `n`, as `i32::to_string` writes it.
pub open spec fn decimal(n: int) -> Seq<char> {
    if n < 0 {
        seq!['-'] + nat_digits((-n) as nat)
    } else {
        nat_digits(n as nat)
    }
}

fn u64_to_string(n: u64) -> (r: String)
    ensures
        r@ == nat_digits(n as nat),
    decreases n,
{
    let d = (n % 10) as u32;
    let c = char_from_digit(d);
    if n < 10 {
        char_to_string(c)
    } else {
        let mut s = u64_to_string(n / 10);
        push_char(&mut s, c);
        s
    }
}

/// The character of decimal digit `d`.
pub fn char_from_digit(d: u32) -> (c: char)
    requires
        d < 10,
    ensures
        c == digit_char(d as int),
{
    match d {
        0 => '0',
        1 => '1',
        2 => '2',
        3 => '3',
        4 => '4',
        5 => '5',
        6 => '6',
        7 => '7',
        8 => '8',
        _ => '9',
    }
}

/// The decimal notation of `n` (`i32::to_string`).
pub fn i32_to_string(n: i32) -> (r: String)
    ensures
        r@ == decimal(n as int),
{
    if n < 0 {
        let m: i64 = -(n as i64);
        let digits = u64_to_string(m as u64);
        let mut s = char_to_string('-');
        push_str(&mut s, digits.as_str());
        s
    } else {
        u64_to_string(n as u64)
    }
}

/// The decimal notation of `n` (`usize::to_string`).
pub fn usize_to_string(n: usize) -> (r: String)
    ensures
        r@ == nat_digits(n as nat),
{
    u64_to_string(n as u64)
}

/// `c` is an ASCII decimal digit.
pub open spec fn is_digit(c: char) -> bool {
    '0' <= c && c <= '9'
}

/// The value of the ASCII decimal digits `s` (most significant first).
pub open spec fn digits_value(s: Seq<char>) -> int
    decreases s.len(),
{
    if s.len() == 0 {
        0
    } else {
        digits_value(s.drop_last()) * 10 + (s.last() as int - 48)
    }
}

/// The sign character that `parse::<i32>` accepts at the front, if any.
pub open spec fn signless(s: Seq<char>) -> Seq<char> {
    if s.len() > 0 && (s[0] == '+' || s[0] == '-') {
        s.skip(1)
    } else {
        s
    }
}

/// The value `parse::<i32>` reads from `s`, sign included, when the digits are well formed.
pub open spec fn signed_value(s: Seq<char>) -> int {
    if s.len() > 0 && s[0] == '-' {
        -digits_value(s.skip(1))
    } else {
        digits_value(signless(s))
    }
}

/// `s.parse::<i32>()` succeeds: an optional `+` or `-`, then at least one ASCII digit,
/// and the value fits in an `i32`.
pub open spec fn parses_as_i32(s: Seq<char>) -> bool {
    let d = signless(s);
    &&& d.len() > 0
    &&& forall|i: int| 0 <= i < d.len() ==> is_digit(#[trigger] d[i])
    &&& i32::MIN <= signed_value(s) <= i32::MAX
}

proof fn lemma_digits_value_nonneg(s: Seq<char>)
    requires
        forall|i: int| 0 <= i < s.len() ==> is_digit(#[trigger] s[i]),
    ensures
        digits_value(s) >= 0,
    decreases s.len(),
{
    if s.len() > 0 {
        assert forall|i: int| 0 <= i < s.drop_last().len() implies is_digit(#[trigger] s.drop_last()[i]) by {
            assert(s.drop_last()[i] == s[i]);
        }
        lemma_digits_value_nonneg(s.drop_last());
    }
}

proof fn lemma_digits_value_prefix(s: Seq<char>, i: int)
    requires
        0 <= i <= s.len(),
        forall|k: int| 0 <= k < s.len() ==> is_digit(#[trigger] s[k]),
    ensures
        digits_value(s) >= digits_value(s.take(i)),
    decreases s.len() - i,
{
    if i < s.len() {
        lemma_digits_value_prefix(s, i + 1);
        assert(s.take(i + 1).drop_last() =~= s.take(i));
        assert forall|k: int| 0 <= k < s.take(i).len() implies is_digit(#[trigger] s.take(i)[k]) by {
            assert(s.take(i)[k] == s[k]);
        }
        lemma_digits_value_nonneg(s.take(i));
    } else {
        assert(s.take(i) =~= s);
    }
}

/// Whether `s.parse::<i32>()` would succeed.
pub fn parses_as_i32_exec(s: &str) -> (r: bool)
    ensures
        r == parses_as_i32(s@),
{
    let v = chars_of(s);
    let mut start: usize = 0;
    let mut negative = false;
    if v.len() > 0 && (v[0] == '+' || v[0] == '-') {
        start = 1;
        negative = v[0] == '-';
    }
    let ghost d = signless(s@);
    proof {
        assert(d =~= v@.skip(start as int));
    }
    if start >= v.len() {
        return false;
    }
    let limit: i64 = if negative { 2147483648 } else { 2147483647 };
    let mut acc: i64 = 0;
    let mut i: usize = start;
    while i < v.len()
        invariant
            v@ == s@,
            d == v@.skip(start as int),
            d == signless(s@),
            negative == (s@.len() > 0 && s@[0] == '-'),
            start <= i <= v.len(),
            forall|k: int| 0 <= k < i - start ==> is_digit(#[trigger] d[k]),
            acc == digits_value(d.take(i - start)),
            0 <= acc <= limit,
            limit == (if negative { 2147483648int } else { 2147483647int }),
        decreases v.len() - i,
    {
        let c = v[i];
        if !('0' <= c && c <= '9') {
            proof {
                assert(d.len() == v.len() - start);
                assert(d[i - start] == c);
                assert(!is_digit(d[i - start]));
            }
            return false;
        }
        let dv = (c as u32 - 48) as i64;
        proof {
            assert(d.take(i - start + 1).drop_last() =~= d.take(i - start));
            assert(d[i - start] == c);
            assert(d.take(i - start + 1).last() == c);
            assert(digits_value(d.take(i - start + 1)) == acc * 10 + dv);
        }
        if acc > (limit - dv) / 10 {
            proof {
                assert(acc * 10 + dv > limit) by (nonlinear_arith)
                    requires acc > (limit - dv) / 10, 0 <= dv <= 9, limit >= 0;
                assert forall|k: int| 0 <= k < i - start + 1 implies is_digit(#[trigger] d[k]) by {}
                assert(d.len() == v.len() - start);
                if forall|k: int| 0 <= k < d.len() ==> is_digit(#[trigger] d[k]) {
                    lemma_digits_value_prefix(d, i - start + 1);
                    if s@.len() > 0 && s@[0] == '-' {
                        assert(negative);
                        assert(signed_value(s@) == -digits_value(d));
                    } else {
                        assert(!negative);
                        assert(signed_value(s@) == digits_value(d));
                    }
                }
            }
            return false;
        }
        acc = acc * 10 + dv;
        i = i + 1;
    }
    proof {
        assert(d.take(i - start) =~= d);
        if s@.len() > 0 && s@[0] == '-' {
            assert(negative);
        }
    }
    true
}

/// `c` is white space in the sense of `char::is_whitespace` (the Unicode `White_Space` property).
pub open spec fn is_white_space(c: char) -> bool {
    ||| ('\u{9}' <= c && c <= '\u{d}')
    ||| c == ' '
    ||| c == '\u{85}'
    ||| c == '\u{a0}'
    ||| c == '\u{1680}'
    ||| ('\u{2000}' <= c && c <= '\u{200a}')
    ||| c == '\u{2028}'
    ||| c == '\u{2029}'
    ||| c == '\u{202f}'
    ||| c == '\u{205f}'
    ||| c == '\u{3000}'
}

/// Whether `c` is white space (`char::is_whitespace`).
pub fn is_white_space_exec(c: char) -> (r: bool)
    ensures
        r == is_white_space(c),
{
    ('\u{9}' <= c && c <= '\u{d}') || c == ' ' || c == '\u{85}' || c == '\u{a0}' || c == '\u{1680}'
        || ('\u{2000}' <= c && c <= '\u{200a}') || c == '\u{2028}' || c == '\u{2029}' || c
        == '\u{202f}' || c == '\u{205f}' || c == '\u{3000}'
}

/// The number of white-space characters at the front of `s`.
pub open spec fn leading_ws(s: Seq<char>) -> nat
    decreases s.len(),
{
    if s.len() > 0 && is_white_space(s[0]) {
        1 + leading_ws(s.skip(1))
    } else {
        0
    }
}

/// The number of white-space characters at the end of `s`.
pub open spec fn trailing_ws(s: Seq<char>) -> nat
    decreases s.len(),
{
    if s.len() > 0 && is_white_space(s.last()) {
        1 + trailing_ws(s.drop_last())
    } else {
        0
    }
}

/// `s` without white space at its start (`str::trim_start`).
pub open spec fn trimmed_start(s: Seq<char>) -> Seq<char> {
    s.skip(leading_ws(s) as int)
}

/// `s` without white space at its end (`str::trim_end`).
pub open spec fn trimmed_end(s: Seq<char>) -> Seq<char> {
    s.take(s.len() - trailing_ws(s))
}

/// `s` without white space at either end (`str::trim`).
pub open spec fn trimmed(s: Seq<char>) -> Seq<char> {
    trimmed_end(trimmed_start(s))
}

proof fn lemma_leading_ws(s: Seq<char>, i: int)
    requires
        0 <= i <= s.len(),
        forall|k: int| 0 <= k < i ==> is_white_space(#[trigger] s[k]),
    ensures
        leading_ws(s) == i + leading_ws(s.skip(i)),
    decreases i,
{
    if i > 0 {
        lemma_leading_ws(s.skip(1), i - 1);
        assert(s.skip(1).skip(i - 1) =~= s.skip(i));
    } else {
        assert(s.skip(0) =~= s);
    }
}

proof fn lemma_leading_ws_bound(s: Seq<char>)
    ensures
        leading_ws(s) <= s.len(),
    decreases s.len(),
{
    if s.len() > 0 {
        lemma_leading_ws_bound(s.skip(1));
    }
}

proof fn lemma_trailing_ws(s: Seq<char>, j: int)
    requires
        0 <= j <= s.len(),
        forall|k: int| j <= k < s.len() ==> is_white_space(#[trigger] s[k]),
    ensures
        trailing_ws(s) == (s.len() - j) + trailing_ws(s.take(j)),
    decreases s.len() - j,
{
    if j < s.len() {
        assert forall|k: int| j <= k < s.drop_last().len() implies is_white_space(#[trigger] s.drop_last()[k]) by {
            assert(s.drop_last()[k] == s[k]);
        }
        lemma_trailing_ws(s.drop_last(), j);
        assert(s.drop_last().take(j) =~= s.take(j));
    } else {
        assert(s.take(j) =~= s);
    }
}

proof fn lemma_trailing_ws_bound(s: Seq<char>)
    ensures
        trailing_ws(s) <= s.len(),
    decreases s.len(),
{
    if s.len() > 0 {
        lemma_trailing_ws_bound(s.drop_last());
    }
}

proof fn lemma_leading_ws_stops(s: Seq<char>)
    ensures
        leading_ws(s) <= s.len(),
        leading_ws(s) < s.len() ==> !is_white_space(s[leading_ws(s) as int]),
    decreases s.len(),
{
    if s.len() > 0 && is_white_space(s[0]) {
        lemma_leading_ws_stops(s.skip(1));
    }
}

proof fn lemma_trailing_ws_stops(s: Seq<char>)
    ensures
        trailing_ws(s) <= s.len(),
        trailing_ws(s) < s.len() ==> !is_white_space(s[s.len() - trailing_ws(s) - 1]),
    decreases s.len(),
{
    if s.len() > 0 && is_white_space(s.last()) {
        lemma_trailing_ws_stops(s.drop_last());
    }
}

/// A trimmed text is empty, or starts and ends with a character that is not white space.
pub proof fn lemma_trimmed_ends(s: Seq<char>)
    ensures
        trimmed(s).len() == 0 || (!is_white_space(trimmed(s)[0]) && !is_white_space(trimmed(s).last())),
{
    let t = trimmed_start(s);
    lemma_leading_ws_stops(s);
    lemma_trailing_ws_stops(t);
    let u = trimmed(s);
    if u.len() > 0 {
        assert(u[0] == t[0]);
        assert(t[0] == s[leading_ws(s) as int]);
        assert(u.last() == t[t.len() - trailing_ws(t) - 1]);
    }
}

/// The characters of `v` from `lo` up to `hi`.
pub fn chars_range(v: &Vec<char>, lo: usize, hi: usize) -> (r: String)
    requires
        lo <= hi <= v.len(),
    ensures
        r@ == v@.subrange(lo as int, hi as int),
{
    let mut s = String::new();
    let mut i = lo;
    while i < hi
        invariant
            lo <= i <= hi <= v.len(),
            s@ == v@.subrange(lo as int, i as int),
        decreases hi - i,
    {
        push_char(&mut s, v[i]);
        proof {
            assert(v@.subrange(lo as int, i + 1) =~= v@.subrange(lo as int, i as int).push(v@[i as int]));
        }
        i = i + 1;
    }
    s
}

/// `s` without white space at its start (`str::trim_start`).
pub fn trim_start(s: &str) -> (r: String)
    ensures
        r@ == trimmed_start(s@),
{
    let v = chars_of(s);
    let mut i: usize = 0;
    while i < v.len() && is_white_space_exec(v[i])
        invariant
            v@ == s@,
            i <= v.len(),
            forall|k: int| 0 <= k < i ==> is_white_space(#[trigger] s@[k]),
        decreases v.len() - i,
    {
        i = i + 1;
    }
    proof {
        lemma_leading_ws(s@, i as int);
        if i < v.len() {
            assert(s@.skip(i as int)[0] == s@[i as int]);
        }
        assert(leading_ws(s@.skip(i as int)) == 0);
        assert(v@.subrange(i as int, v.len() as int) =~= s@.skip(i as int));
    }
    chars_range(&v, i, v.len())
}

/// `s` without white space at its end (`str::trim_end`).
pub fn trim_end(s: &str) -> (r: String)
    ensures
        r@ == trimmed_end(s@),
{
    let v = chars_of(s);
    let mut j: usize = v.len();
    while j > 0 && is_white_space_exec(v[j - 1])
        invariant
            v@ == s@,
            j <= v.len(),
            forall|k: int| j <= k < s@.len() ==> is_white_space(#[trigger] s@[k]),
        decreases j,
    {
        j = j - 1;
    }
    proof {
        lemma_trailing_ws(s@, j as int);
        if j > 0 {
            assert(s@.take(j as int).last() == s@[j - 1]);
        }
        assert(trailing_ws(s@.take(j as int)) == 0);
        assert(v@.subrange(0, j as int) =~= s@.take(j as int));
    }
    chars_range(&v, 0, j)
}

/// `s` without white space at either end (`str::trim`).
pub fn trim(s: &str) -> (r: String)
    ensures
        r@ == trimmed(s@),
{
    let a = trim_start(s);
    trim_end(a.as_str())
}


/// The texts `items` joined with `sep` between neighbours (`Itertools::join`).
pub open spec fn joined(items: Seq<Seq<char>>, sep: Seq<char>) -> Seq<char>
    decreases items.len(),
{
    if items.len() == 0 {
        Seq::empty()
    } else if items.len() == 1 {
        items[0]
    } else {
        joined(items.drop_last(), sep) + sep + items.last()
    }
}

/// The characters of a list of strings.
pub open spec fn texts_view(v: Seq<String>) -> Seq<Seq<char>> {
    v.map_values(|s: String| s@)
}

/// The characters of a list of strings after a push are those before, then the new one's.
pub proof fn lemma_texts_push(v: Seq<String>, x: String)
    ensures
        texts_view(v.push(x)) == texts_view(v).push(x@),
{
    assert(texts_view(v.push(x)) =~= texts_view(v).push(x@));
}

/// The strings of `items` joined with `sep` between neighbours.
pub fn join(items: &Vec<String>, sep: &str) -> (r: String)
    ensures
        r@ == joined(texts_view(items@), sep@),
{
    let mut out = String::new();
    let mut i: usize = 0;
    while i < items.len()
        invariant
            i <= items.len(),
            out@ == joined(texts_view(items@).take(i as int), sep@),
        decreases items.len() - i,
    {
        proof {
            let t = texts_view(items@).take(i + 1);
            assert(t.drop_last() =~= texts_view(items@).take(i as int));
            assert(t.last() == items@[i as int]@);
            if i == 0 {
                assert(texts_view(items@).take(0) =~= Seq::<Seq<char>>::empty());
            }
        }
        if i > 0 {
            push_str(&mut out, sep);
        }
        push_str(&mut out, items[i].as_str());
        proof {
            if i == 0 {
                assert(out@ =~= items@[0]@);
            }
        }
        i = i + 1;
    }
    proof {
        assert(texts_view(items@).take(items.len() as int) =~= texts_view(items@));
    }
    out
}

/// The number of bytes of `c` in UTF-8.
pub open spec fn utf8_char_len(c: char) -> nat {
    if (c as int) < 0x80 {
        1
    } else if (c as int) < 0x800 {
        2
    } else if (c as int) < 0x10000 {
        3
    } else {
        4
    }
}

/// The number of bytes of `s` in UTF-8.
pub open spec fn utf8_len(s: Seq<char>) -> nat
    decreases s.len(),
{
    if s.len() == 0 {
        0
    } else {
        utf8_len(s.drop_last()) + utf8_char_len(s.last())
    }
}

/// The number of bytes of `c` in UTF-8 (`char::len_utf8`).
pub fn utf8_char_len_exec(c: char) -> (r: usize)
    ensures
        r == utf8_char_len(c),
{
    if (c as u32) < 0x80 {
        1
    } else if (c as u32) < 0x800 {
        2
    } else if (c as u32) < 0x10000 {
        3
    } else {
        4
    }
}

pub(crate) proof fn lemma_utf8_len_grows(s: Seq<char>, i: int, k: int)
    requires
        0 <= i < k <= s.len(),
    ensures
        utf8_len(s.take(i)) < utf8_len(s.take(k)),
    decreases k - i,
{
    assert(s.take(k).drop_last() =~= s.take(k - 1));
    if i < k - 1 {
        lemma_utf8_len_grows(s, i, k - 1);
    }
}

/// `k` is the position of the character of `s` that starts at byte `b`.
pub open spec fn char_starts_at_byte(s: Seq<char>, b: int, k: int) -> bool {
    0 <= k < s.len() && utf8_len(s.take(k)) == b
}

/// The byte length of `s` in UTF-8 (`str::len`, which counts the bytes of the UTF-8 encoding).
#[verifier::external_body]
pub(crate) fn utf8_byte_len(s: &str) -> (r: usize)
    ensures
        r == utf8_len(s@),
{
    s.len()
}

/// The position of the character of `v` that starts at byte `b`, if one starts there.
pub fn char_index_at_byte(v: &Vec<char>, b: usize) -> (r: Option<usize>)
    ensures
        match r {
            Some(k) => char_starts_at_byte(v@, b as int, k as int),
            None => forall|k: int| !char_starts_at_byte(v@, b as int, k),
        },
{
    let mut i: usize = 0;
    let mut acc: usize = 0;
    proof {
        assert(v@.take(0) =~= Seq::<char>::empty());
    }
    while i < v.len()
        invariant
            i <= v.len(),
            acc == utf8_len(v@.take(i as int)),
            acc <= b,
            forall|k: int| 0 <= k < i ==> utf8_len(v@.take(k)) != b,
        decreases v.len() - i,
    {
        if acc == b {
            return Some(i);
        }
        let x = utf8_char_len_exec(v[i]);
        proof {
            assert(v@.take(i + 1).drop_last() =~= v@.take(i as int));
        }
        if x > b - acc {
            proof {
                assert forall|k: int| !char_starts_at_byte(v@, b as int, k) by {
                    if 0 <= k < v.len() && k > i + 1 {
                        lemma_utf8_len_grows(v@, i + 1, k);
                    }
                }
            }
            return None;
        }
        acc = acc + x;
        i = i + 1;
    }
    proof {
        assert forall|k: int| !char_starts_at_byte(v@, b as int, k) by {}
    }
    None
}

/// `s` without the character that starts at byte `b` (`String::remove`), or `None` where
/// `String::remove` panics: no character starts at that byte.
pub fn remove_at_byte(s: &str, b: usize) -> (r: Option<String>)
    ensures
        match r {
            Some(t) => exists|k: int| #[trigger] char_starts_at_byte(s@, b as int, k) && t@ == s@.remove(k),
            None => forall|k: int| !char_starts_at_byte(s@, b as int, k),
        },
{
    let v = chars_of(s);
    match char_index_at_byte(&v, b) {
        Some(k) => {
            let mut t = chars_range(&v, 0, k);
            let rest = chars_range(&v, k + 1, v.len());
            push_str(&mut t, rest.as_str());
            proof {
                assert(t@ =~= s@.remove(k as int));
                assert(char_starts_at_byte(s@, b as int, k as int));
            }
            Some(t)
        },
        None => None,
    }
}

} // verus!
