//! Verified text primitives: character-level string equality, decimal
//! numbers, substring search and whitespace trimming, shared by the URL
//! and HTML modules.

use vstd::prelude::*;

verus! {

/// Appends the given char to the end of the string.
/// Relies on std's `String::push`, whose documentation promises exactly that.
pub assume_specification[ String::push ](s: &mut String, ch: char)
    ensures
        final(s)@ == old(s)@.push(ch),
;

/// Character-level equality of two string slices.
pub fn str_eq(a: &str, b: &str) -> (r: bool)
    ensures
        r == (a@ == b@),
{
    let alen = a.unicode_len();
    let blen = b.unicode_len();
    if alen != blen {
        return false;
    }
    let mut i: usize = 0;
    while i < alen
        invariant
            i <= alen,
            alen == a@.len(),
            alen == b@.len(),
            forall|j: int| 0 <= j < i ==> a@[j] == b@[j],
        decreases alen - i,
    {
        if a.get_char(i) != b.get_char(i) {
            return false;
        }
        i += 1;
    }
    proof {
        assert(a@ =~= b@);
    }
    true
}

pub open spec fn is_dec_digit(c: char) -> bool {
    '0' <= c && c <= '9'
}

pub open spec fn digit_val(c: char) -> nat
    recommends
        is_dec_digit(c),
{
    (c as nat - 48) as nat
}

/// The decimal digit character for a value below ten.
pub open spec fn digit_char_spec(v: nat) -> char
    recommends
        v < 10,
{
    if v == 0 {
        '0'
    } else if v == 1 {
        '1'
    } else if v == 2 {
        '2'
    } else if v == 3 {
        '3'
    } else if v == 4 {
        '4'
    } else if v == 5 {
        '5'
    } else if v == 6 {
        '6'
    } else if v == 7 {
        '7'
    } else if v == 8 {
        '8'
    } else {
        '9'
    }
}

pub fn digit_char(v: u8) -> (c: char)
    requires
        v < 10,
    ensures
        c == digit_char_spec(v as nat),
        is_dec_digit(c),
        digit_val(c) == v as nat,
{
    match v {
        0 => '0',
        1 => '1',
        2 => '2',
        3 => '3',
        4 => '4',
        5 => '5',
        6 => '6',
        7 => '7',
        8 => '8',
        _ => '9',
    }
}

pub open spec fn all_digits(s: Seq<char>) -> bool {
    forall|i: int| 0 <= i < s.len() ==> is_dec_digit(#[trigger] s[i])
}

/// The numeric value of a digit string, most significant digit first.
pub open spec fn dec_val(s: Seq<char>) -> nat
    decreases s.len(),
{
    if s.len() == 0 {
        0
    } else {
        dec_val(s.drop_last()) * 10 + digit_val(s.last())
    }
}

/// The canonical decimal rendering of a number: no sign, no leading zeros.
pub open spec fn dec_chars_of(n: nat) -> Seq<char>
    decreases n,
{
    if n < 10 {
        seq![digit_char_spec(n)]
    } else {
        dec_chars_of(n / 10).push(digit_char_spec(n % 10))
    }
}

pub proof fn lemma_dec_chars_of_digits(n: nat)
    ensures
        dec_chars_of(n).len() > 0,
        all_digits(dec_chars_of(n)),
    decreases n,
{
    if n >= 10 {
        lemma_dec_chars_of_digits(n / 10);
    }
}

/// Rendering a number and reading the digits back yields the number.
pub proof fn lemma_dec_chars_of_val(n: nat)
    ensures
        dec_val(dec_chars_of(n)) == n,
    decreases n,
{
    if n < 10 {
        let s = seq![digit_char_spec(n)];
        assert(s.drop_last() =~= Seq::<char>::empty());
        assert(dec_val(s) == dec_val(s.drop_last()) * 10 + digit_val(s.last()));
    } else {
        lemma_dec_chars_of_val(n / 10);
        assert(dec_chars_of(n).drop_last() =~= dec_chars_of(n / 10));
        assert(dec_val(dec_chars_of(n)) == (n / 10) * 10 + n % 10);
        assert((n / 10) * 10 + n % 10 == n) by (nonlinear_arith);
    }
}

/// Renders a number in canonical decimal form.
pub fn render_u32(n: u32) -> (r: String)
    ensures
        r@ == dec_chars_of(n as nat),
    decreases n,
{
    if n < 10 {
        let mut s = String::new();
        s.push(digit_char(n as u8));
        proof {
            assert(s@ =~= dec_chars_of(n as nat));
        }
        s
    } else {
        let mut s = render_u32(n / 10);
        s.push(digit_char((n % 10) as u8));
        proof {
            assert(s@ =~= dec_chars_of(n as nat));
        }
        s
    }
}

/// A digit string parses iff it is non-empty, all digits, and its value fits.
pub open spec fn parse_dec_spec(s: Seq<char>) -> Option<u32> {
    if s.len() > 0 && all_digits(s) && dec_val(s) <= u32::MAX {
        Some(dec_val(s) as u32)
    } else {
        None
    }
}

pub proof fn lemma_dec_val_take_le(s: Seq<char>, j: int)
    requires
        0 <= j <= s.len(),
    ensures
        dec_val(s.take(j)) <= dec_val(s),
    decreases s.len(),
{
    if j < s.len() {
        lemma_dec_val_take_le(s.drop_last(), j);
        assert(s.drop_last().take(j) =~= s.take(j));
        let v = dec_val(s.drop_last());
        assert(v * 10 >= v) by (nonlinear_arith);
    } else {
        assert(s.take(j) =~= s);
    }
}

/// Reads a decimal number, rejecting empty text, any non-digit character,
/// and values that do not fit.
pub fn parse_u32(s: &str) -> (r: Option<u32>)
    ensures
        r == parse_dec_spec(s@),
{
    let len = s.unicode_len();
    if len == 0 {
        return None;
    }
    let mut val: u64 = 0;
    let mut i: usize = 0;
    while i < len
        invariant
            0 < len == s@.len(),
            i <= len,
            all_digits(s@.take(i as int)),
            val == dec_val(s@.take(i as int)),
            val <= u32::MAX,
        decreases len - i,
    {
        let c = s.get_char(i);
        let cv = c as u32;
        if cv < 48 || cv > 57 {
            proof {
                assert(!is_dec_digit(s@[i as int]));
            }
            return None;
        }
        let d = (cv - 48) as u64;
        proof {
            assert(s@.take(i as int + 1).drop_last() =~= s@.take(i as int));
        }
        let next = val * 10 + d;
        if next > u32::MAX as u64 {
            proof {
                lemma_dec_val_take_le(s@, i as int + 1);
                assert(s@.take(s@.len() as int) =~= s@);
            }
            return None;
        }
        val = next;
        i += 1;
    }
    proof {
        assert(s@.take(len as int) =~= s@);
    }
    Some(val as u32)
}

/// The pattern occurs in `s` at position `i`.
pub open spec fn matches_at(s: Seq<char>, pat: Seq<char>, i: int) -> bool {
    0 <= i && i + pat.len() <= s.len() && s.subrange(i, i + pat.len()) == pat
}

/// The position of the first occurrence of the pattern, if any.
/// The empty pattern is never found.
pub open spec fn find_first(s: Seq<char>, pat: Seq<char>) -> Option<int>
    decreases s.len(),
{
    if s.len() < pat.len() || pat.len() == 0 {
        None
    } else if s.subrange(0, pat.len() as int) == pat {
        Some(0)
    } else {
        match find_first(s.drop_first(), pat) {
            None => None,
            Some(i) => Some(i + 1),
        }
    }
}

proof fn lemma_matches_at_shift(s: Seq<char>, pat: Seq<char>, i: int)
    requires
        s.len() >= 1,
        i >= 1,
    ensures
        matches_at(s, pat, i) == matches_at(s.drop_first(), pat, i - 1),
{
    if i - 1 + pat.len() <= s.drop_first().len() {
        assert(s.drop_first().subrange(i - 1, i - 1 + pat.len()) =~= s.subrange(
            i,
            i + pat.len(),
        ));
        if matches_at(s, pat, i) {
            assert(s.drop_first().subrange(i - 1, i - 1 + pat.len()) =~= pat);
        }
        if matches_at(s.drop_first(), pat, i - 1) {
            assert(s.subrange(i, i + pat.len()) =~= pat);
        }
    }
}

pub proof fn lemma_find_first_some(s: Seq<char>, pat: Seq<char>, i: int)
    requires
        pat.len() > 0,
        matches_at(s, pat, i),
        forall|j: int| 0 <= j < i ==> !matches_at(s, pat, j),
    ensures
        find_first(s, pat) == Some(i),
    decreases s.len(),
{
    if s.subrange(0, pat.len() as int) == pat {
        assert(matches_at(s, pat, 0));
        assert(i == 0);
    } else {
        assert(!matches_at(s, pat, 0));
        assert(i >= 1);
        lemma_matches_at_shift(s, pat, i);
        assert forall|j: int| 0 <= j < i - 1 implies !matches_at(s.drop_first(), pat, j) by {
            lemma_matches_at_shift(s, pat, j + 1);
        }
        lemma_find_first_some(s.drop_first(), pat, i - 1);
    }
}

pub proof fn lemma_find_first_none(s: Seq<char>, pat: Seq<char>)
    requires
        pat.len() > 0,
        forall|j: int| !matches_at(s, pat, j),
    ensures
        find_first(s, pat) == None::<int>,
    decreases s.len(),
{
    if s.len() < pat.len() {
    } else {
        assert(!matches_at(s, pat, 0));
        assert forall|j: int| !matches_at(s.drop_first(), pat, j) by {
            if j >= 0 {
                lemma_matches_at_shift(s, pat, j + 1);
                assert(!matches_at(s, pat, j + 1));
            }
        }
        lemma_find_first_none(s.drop_first(), pat);
    }
}

pub proof fn lemma_find_first_is_match(s: Seq<char>, pat: Seq<char>)
    ensures
        find_first(s, pat) matches Some(i) ==> matches_at(s, pat, i),
    decreases s.len(),
{
    if s.len() < pat.len() || pat.len() == 0 {
    } else if s.subrange(0, pat.len() as int) == pat {
    } else {
        lemma_find_first_is_match(s.drop_first(), pat);
        if let Some(i) = find_first(s.drop_first(), pat) {
            lemma_matches_at_shift(s, pat, i + 1);
        }
    }
}

/// Finds the first occurrence of `pat` in `s`, by character position.
pub fn find_sub(s: &str, pat: &str) -> (r: Option<usize>)
    ensures
        match r {
            Some(i) => find_first(s@, pat@) == Some(i as int),
            None => find_first(s@, pat@) == None::<int>,
        },
{
    let slen = s.unicode_len();
    let plen = pat.unicode_len();
    if plen == 0 {
        return None;
    }
    if plen > slen {
        proof {
            lemma_find_first_none(s@, pat@);
        }
        return None;
    }
    let mut i: usize = 0;
    while i <= slen - plen
        invariant
            0 < plen == pat@.len(),
            slen == s@.len(),
            plen <= slen,
            i <= slen - plen + 1,
            forall|j: int| 0 <= j < i ==> !matches_at(s@, pat@, j),
        decreases slen - i,
    {
        let piece = s.substring_char(i, i + plen);
        if str_eq(piece, pat) {
            proof {
                lemma_find_first_some(s@, pat@, i as int);
            }
            return Some(i);
        }
        i += 1;
    }
    proof {
        lemma_find_first_none(s@, pat@);
    }
    None
}

/// Reports whether every character is a decimal digit.
pub fn check_all_digits(s: &str) -> (r: bool)
    ensures
        r == all_digits(s@),
{
    let len = s.unicode_len();
    let mut i: usize = 0;
    while i < len
        invariant
            len == s@.len(),
            i <= len,
            forall|j: int| 0 <= j < i ==> is_dec_digit(#[trigger] s@[j]),
        decreases len - i,
    {
        let cv = s.get_char(i) as u32;
        if cv < 48 || cv > 57 {
            proof {
                assert(!is_dec_digit(s@[i as int]));
            }
            return false;
        }
        i += 1;
    }
    true
}

/// `s` begins with the given prefix.
pub open spec fn has_prefix(s: Seq<char>, pre: Seq<char>) -> bool {
    s.len() >= pre.len() && s.subrange(0, pre.len() as int) == pre
}

pub fn starts_with_str(s: &str, pre: &str) -> (r: bool)
    ensures
        r == has_prefix(s@, pre@),
{
    let slen = s.unicode_len();
    let plen = pre.unicode_len();
    if plen > slen {
        return false;
    }
    str_eq(s.substring_char(0, plen), pre)
}

/// The whitespace characters the extractors trim: ASCII whitespace plus the
/// next-line and no-break-space characters that HTML text commonly carries.
pub open spec fn is_space(c: char) -> bool {
    c == ' ' || c == '\t' || c == '\n' || c == '\r' || c == '\u{0B}' || c == '\u{0C}' || c
        == '\u{85}' || c == '\u{A0}'
}

pub fn is_space_char(c: char) -> (r: bool)
    ensures
        r == is_space(c),
{
    c == ' ' || c == '\t' || c == '\n' || c == '\r' || c == '\u{0B}' || c == '\u{0C}' || c
        == '\u{85}' || c == '\u{A0}'
}

pub open spec fn first_non_space(s: Seq<char>) -> int
    decreases s.len(),
{
    if s.len() == 0 {
        0
    } else if !is_space(s[0]) {
        0
    } else {
        1 + first_non_space(s.drop_first())
    }
}

pub open spec fn last_non_space_end(s: Seq<char>) -> int
    decreases s.len(),
{
    if s.len() == 0 {
        0
    } else if !is_space(s.last()) {
        s.len() as int
    } else {
        last_non_space_end(s.drop_last())
    }
}

/// The string with leading and trailing whitespace removed.
pub open spec fn trimmed(s: Seq<char>) -> Seq<char> {
    if first_non_space(s) >= last_non_space_end(s) {
        Seq::empty()
    } else {
        s.subrange(first_non_space(s), last_non_space_end(s))
    }
}

pub proof fn lemma_first_non_space(s: Seq<char>)
    ensures
        0 <= first_non_space(s) <= s.len(),
        forall|j: int| 0 <= j < first_non_space(s) ==> is_space(#[trigger] s[j]),
        first_non_space(s) < s.len() ==> !is_space(s[first_non_space(s)]),
    decreases s.len(),
{
    if s.len() > 0 && is_space(s[0]) {
        lemma_first_non_space(s.drop_first());
        assert forall|j: int| 0 <= j < first_non_space(s) implies is_space(#[trigger] s[j]) by {
            if j >= 1 {
                assert(s[j] == s.drop_first()[j - 1]);
            }
        }
    }
}

pub proof fn lemma_last_non_space_end(s: Seq<char>)
    ensures
        0 <= last_non_space_end(s) <= s.len(),
        forall|j: int| last_non_space_end(s) <= j < s.len() ==> is_space(#[trigger] s[j]),
        last_non_space_end(s) > 0 ==> !is_space(s[last_non_space_end(s) - 1]),
    decreases s.len(),
{
    if s.len() > 0 && is_space(s.last()) {
        lemma_last_non_space_end(s.drop_last());
        assert forall|j: int| last_non_space_end(s) <= j < s.len() implies is_space(
            #[trigger] s[j],
        ) by {
            if j < s.len() - 1 {
                assert(s[j] == s.drop_last()[j]);
            }
        }
    }
}

/// Removes leading and trailing whitespace.
pub fn trim_str(s: &str) -> (r: String)
    ensures
        r@ == trimmed(s@),
{
    proof {
        lemma_first_non_space(s@);
        lemma_last_non_space_end(s@);
    }
    let len = s.unicode_len();
    let mut start: usize = 0;
    while start < len && is_space_char(s.get_char(start))
        invariant
            len == s@.len(),
            start <= len,
            forall|j: int| 0 <= j < start ==> is_space(#[trigger] s@[j]),
        decreases len - start,
    {
        start += 1;
    }
    proof {
        let fns = first_non_space(s@);
        if start < fns {
            assert(is_space(s@[start as int]));
        }
        if fns < start {
            assert(is_space(s@[fns]));
        }
        assert(start == fns);
    }
    let mut end: usize = len;
    while end > start && is_space_char(s.get_char(end - 1))
        invariant
            len == s@.len(),
            start <= end <= len,
            start == first_non_space(s@),
            forall|j: int| end <= j < len ==> is_space(#[trigger] s@[j]),
        decreases end,
    {
        end -= 1;
    }
    if start >= end {
        proof {
            let lnse = last_non_space_end(s@);
            if end > start {
            } else {
                // every index is either below first_non_space or at/after end
                if lnse > end {
                    assert(is_space(s@[lnse - 1]));
                }
                assert(lnse <= end);
            }
            assert(trimmed(s@) =~= Seq::<char>::empty());
        }
        return String::new();
    }
    proof {
        let lnse = last_non_space_end(s@);
        // end > start: s[end-1] is not a space, so lnse > end - 1; and
        // everything from end on is space, so lnse <= end.
        assert(!is_space(s@[end - 1]));
        if lnse < end {
            assert(is_space(s@[end - 1]));
        }
        if lnse > end {
            assert(is_space(s@[lnse - 1]));
        }
        assert(lnse == end);
    }
    let piece = s.substring_char(start, end);
    piece.to_owned()
}

} // verus!
