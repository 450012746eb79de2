//! Character-level text utilities: searching, trimming, tokens, and
//! conversion between numbers and their hexadecimal or decimal texts.
//!
//! Lines are handled as vectors of characters so that every step of
//! the assembler's lexing can be specified over `Seq<char>`.

use vstd::prelude::*;

verus! {

/// The whitespace that separates tokens.
pub open spec fn is_space(c: char) -> bool {
    c == ' ' || c == '\t' || c == '\r' || c == '\n'
}

/// Whitespace test on one character.
pub fn is_space_char(c: char) -> (r: bool)
    ensures
        r == is_space(c),
{
    c == ' ' || c == '\t' || c == '\r' || c == '\n'
}

/// The first index at or after `i` holding `c`, or the length when
/// `c` does not occur there.
pub open spec fn first_ix_from(s: Seq<char>, c: char, i: int) -> int
    decreases s.len() - i,
{
    if i < 0 || i >= s.len() {
        s.len() as int
    } else if s[i] == c {
        i
    } else {
        first_ix_from(s, c, i + 1)
    }
}

/// The first index holding `c`, or the length.
pub open spec fn first_ix(s: Seq<char>, c: char) -> int {
    first_ix_from(s, c, 0)
}

pub proof fn lemma_first_ix_from(s: Seq<char>, c: char, i: int)
    requires
        0 <= i <= s.len(),
    ensures
        i <= first_ix_from(s, c, i) <= s.len(),
        forall|j: int| i <= j < first_ix_from(s, c, i) ==> s[j] != c,
        first_ix_from(s, c, i) < s.len() ==> s[first_ix_from(s, c, i)] == c,
    decreases s.len() - i,
{
    if i < s.len() && s[i] != c {
        lemma_first_ix_from(s, c, i + 1);
    }
}

/// The first index at or after `i` holding a non-space character, or
/// the length.
pub open spec fn first_nonspace_from(s: Seq<char>, i: int) -> int
    decreases s.len() - i,
{
    if i < 0 || i >= s.len() {
        s.len() as int
    } else if !is_space(s[i]) {
        i
    } else {
        first_nonspace_from(s, i + 1)
    }
}

pub proof fn lemma_first_nonspace_from(s: Seq<char>, i: int)
    requires
        0 <= i <= s.len(),
    ensures
        i <= first_nonspace_from(s, i) <= s.len(),
        forall|j: int| i <= j < first_nonspace_from(s, i) ==> is_space(s[j]),
        first_nonspace_from(s, i) < s.len() ==> !is_space(s[first_nonspace_from(s, i)]),
    decreases s.len() - i,
{
    if i < s.len() && is_space(s[i]) {
        lemma_first_nonspace_from(s, i + 1);
    }
}

/// The first index at or after `i` holding a space, or the length.
pub open spec fn first_space_from(s: Seq<char>, i: int) -> int
    decreases s.len() - i,
{
    if i < 0 || i >= s.len() {
        s.len() as int
    } else if is_space(s[i]) {
        i
    } else {
        first_space_from(s, i + 1)
    }
}

pub proof fn lemma_first_space_from(s: Seq<char>, i: int)
    requires
        0 <= i <= s.len(),
    ensures
        i <= first_space_from(s, i) <= s.len(),
        forall|j: int| i <= j < first_space_from(s, i) ==> !is_space(s[j]),
        first_space_from(s, i) < s.len() ==> is_space(s[first_space_from(s, i)]),
    decreases s.len() - i,
{
    if i < s.len() && !is_space(s[i]) {
        lemma_first_space_from(s, i + 1);
    }
}

/// The length of `s` with trailing whitespace removed.
pub open spec fn end_trimmed(s: Seq<char>) -> int
    decreases s.len(),
{
    if s.len() == 0 {
        0
    } else if is_space(s.last()) {
        end_trimmed(s.drop_last())
    } else {
        s.len() as int
    }
}

pub proof fn lemma_end_trimmed(s: Seq<char>)
    ensures
        0 <= end_trimmed(s) <= s.len(),
        forall|j: int| end_trimmed(s) <= j < s.len() ==> is_space(s[j]),
        end_trimmed(s) > 0 ==> !is_space(s[end_trimmed(s) - 1]),
    decreases s.len(),
{
    if s.len() > 0 && is_space(s.last()) {
        lemma_end_trimmed(s.drop_last());
        assert forall|j: int| end_trimmed(s) <= j < s.len() implies is_space(s[j]) by {
            if j < s.len() - 1 {
                assert(s.drop_last()[j] == s[j]);
            }
        }
    }
}

/// `s` with leading and trailing whitespace removed.
pub open spec fn trim_spec(s: Seq<char>) -> Seq<char> {
    let a = first_nonspace_from(s, 0);
    let b = end_trimmed(s);
    if a >= b {
        Seq::<char>::empty()
    } else {
        s.subrange(a, b)
    }
}

/// The characters of a string, in order.
pub fn line_chars(s: &str) -> (v: Vec<char>)
    ensures
        v@ == s@,
{
    let n = s.unicode_len();
    let mut v: Vec<char> = Vec::new();
    let mut i: usize = 0;
    while i < n
        invariant
            i <= n,
            n == s@.len(),
            v@ =~= s@.take(i as int),
        decreases n - i,
    {
        let c = s.get_char(i);
        v.push(c);
        proof {
            assert(v@ =~= s@.take(i + 1));
        }
        i = i + 1;
    }
    proof {
        assert(s@.take(n as int) =~= s@);
    }
    v
}

/// The window `v[a..b]` as a fresh vector.
pub fn subvec(v: &Vec<char>, a: usize, b: usize) -> (r: Vec<char>)
    requires
        a <= b <= v@.len(),
    ensures
        r@ == v@.subrange(a as int, b as int),
{
    let mut r: Vec<char> = Vec::new();
    let mut i: usize = a;
    while i < b
        invariant
            a <= i <= b <= v@.len(),
            r@ =~= v@.subrange(a as int, i as int),
        decreases b - i,
    {
        r.push(v[i]);
        proof {
            assert(r@ =~= v@.subrange(a as int, i + 1));
        }
        i = i + 1;
    }
    r
}

/// The first index holding `c`, or the vector's length.
pub fn find_char(v: &Vec<char>, c: char) -> (r: usize)
    ensures
        r == first_ix(v@, c),
{
    let mut i: usize = 0;
    while i < v.len()
        invariant
            i <= v@.len(),
            forall|j: int| 0 <= j < i ==> v@[j] != c,
        decreases v@.len() - i,
    {
        if v[i] == c {
            proof {
                lemma_first_ix_from(v@, c, 0);
            }
            return i;
        }
        i = i + 1;
    }
    proof {
        lemma_first_ix_from(v@, c, 0);
    }
    i
}

/// The first non-space index at or after `from`, or the length.
pub fn find_nonspace_from(v: &Vec<char>, from: usize) -> (r: usize)
    requires
        from <= v@.len(),
    ensures
        r == first_nonspace_from(v@, from as int),
{
    let mut i: usize = from;
    while i < v.len()
        invariant
            from <= i <= v@.len(),
            forall|j: int| from <= j < i ==> is_space(v@[j]),
        decreases v@.len() - i,
    {
        if !is_space_char(v[i]) {
            proof {
                lemma_first_nonspace_from(v@, from as int);
            }
            return i;
        }
        i = i + 1;
    }
    proof {
        lemma_first_nonspace_from(v@, from as int);
    }
    i
}

/// The first space index at or after `from`, or the length.
pub fn find_space_from(v: &Vec<char>, from: usize) -> (r: usize)
    requires
        from <= v@.len(),
    ensures
        r == first_space_from(v@, from as int),
{
    let mut i: usize = from;
    while i < v.len()
        invariant
            from <= i <= v@.len(),
            forall|j: int| from <= j < i ==> !is_space(v@[j]),
        decreases v@.len() - i,
    {
        if is_space_char(v[i]) {
            proof {
                lemma_first_space_from(v@, from as int);
            }
            return i;
        }
        i = i + 1;
    }
    proof {
        lemma_first_space_from(v@, from as int);
    }
    i
}

/// The length of `v` without its trailing whitespace.
pub fn find_end_trimmed(v: &Vec<char>) -> (r: usize)
    ensures
        r == end_trimmed(v@),
{
    let mut i: usize = v.len();
    while i > 0
        invariant
            i <= v@.len(),
            forall|j: int| i <= j < v@.len() ==> is_space(v@[j]),
        decreases i,
    {
        if !is_space_char(v[i - 1]) {
            proof {
                lemma_end_trimmed(v@);
            }
            return i;
        }
        i = i - 1;
    }
    proof {
        lemma_end_trimmed(v@);
    }
    i
}

/// `v` with leading and trailing whitespace removed.
pub fn trim_chars(v: &Vec<char>) -> (r: Vec<char>)
    ensures
        r@ == trim_spec(v@),
{
    let a = find_nonspace_from(v, 0);
    let b = find_end_trimmed(v);
    if a >= b {
        Vec::new()
    } else {
        proof {
            lemma_first_nonspace_from(v@, 0);
            lemma_end_trimmed(v@);
        }
        subvec(v, a, b)
    }
}

/// Character-for-character equality of a vector window with a string.
pub fn window_eq_str(v: &Vec<char>, a: usize, b: usize, s: &str) -> (r: bool)
    requires
        a <= b <= v@.len(),
    ensures
        r == (v@.subrange(a as int, b as int) == s@),
{
    let n = s.unicode_len();
    if n != b - a {
        return false;
    }
    let mut i: usize = 0;
    while i < n
        invariant
            i <= n,
            n == b - a,
            a <= b <= v@.len(),
            n == s@.len(),
            forall|j: int| 0 <= j < i ==> v@[a + j] == s@[j],
        decreases n - i,
    {
        if v[a + i] != s.get_char(i) {
            proof {
                assert(v@.subrange(a as int, b as int)[i as int] != s@[i as int]);
            }
            return false;
        }
        i = i + 1;
    }
    proof {
        assert(v@.subrange(a as int, b as int) =~= s@);
    }
    true
}

/// Character-for-character equality of a whole vector with a string.
pub fn chars_eq_str(v: &Vec<char>, s: &str) -> (r: bool)
    ensures
        r == (v@ == s@),
{
    let r = window_eq_str(v, 0, v.len(), s);
    proof {
        assert(v@.subrange(0, v@.len() as int) =~= v@);
    }
    r
}

/// Character-for-character equality of two vectors.
pub fn chars_eq(a: &Vec<char>, b: &Vec<char>) -> (r: bool)
    ensures
        r == (a@ == b@),
{
    if a.len() != b.len() {
        return false;
    }
    let mut i: usize = 0;
    while i < a.len()
        invariant
            i <= a@.len(),
            a@.len() == b@.len(),
            forall|j: int| 0 <= j < i ==> a@[j] == b@[j],
        decreases a@.len() - i,
    {
        if a[i] != b[i] {
            return false;
        }
        i = i + 1;
    }
    proof {
        assert(a@ =~= b@);
    }
    true
}

/// The sixteen uppercase hexadecimal digit characters.
pub open spec fn hex_char(n: int) -> char {
    if n == 0 {
        '0'
    } else if n == 1 {
        '1'
    } else if n == 2 {
        '2'
    } else if n == 3 {
        '3'
    } else if n == 4 {
        '4'
    } else if n == 5 {
        '5'
    } else if n == 6 {
        '6'
    } else if n == 7 {
        '7'
    } else if n == 8 {
        '8'
    } else if n == 9 {
        '9'
    } else if n == 10 {
        'A'
    } else if n == 11 {
        'B'
    } else if n == 12 {
        'C'
    } else if n == 13 {
        'D'
    } else if n == 14 {
        'E'
    } else {
        'F'
    }
}

/// The numeric value of a hexadecimal digit character, upper or lower
/// case, or sixteen when the character is no such digit.
pub open spec fn hex_digit_val(c: char) -> int {
    if c == '0' {
        0
    } else if c == '1' {
        1
    } else if c == '2' {
        2
    } else if c == '3' {
        3
    } else if c == '4' {
        4
    } else if c == '5' {
        5
    } else if c == '6' {
        6
    } else if c == '7' {
        7
    } else if c == '8' {
        8
    } else if c == '9' {
        9
    } else if c == 'A' || c == 'a' {
        10
    } else if c == 'B' || c == 'b' {
        11
    } else if c == 'C' || c == 'c' {
        12
    } else if c == 'D' || c == 'd' {
        13
    } else if c == 'E' || c == 'e' {
        14
    } else if c == 'F' || c == 'f' {
        15
    } else {
        16
    }
}

/// Whether `c` is a hexadecimal digit.
pub open spec fn is_hex_digit(c: char) -> bool {
    hex_digit_val(c) < 16
}

/// Whether every character of `s` is a hexadecimal digit.
pub open spec fn all_hex_digits(s: Seq<char>) -> bool {
    forall|i: int| 0 <= i < s.len() ==> is_hex_digit(s[i])
}

/// The value of a hexadecimal digit string, folding from the left.
pub open spec fn hex_value(s: Seq<char>) -> int
    decreases s.len(),
{
    if s.len() == 0 {
        0
    } else {
        16 * hex_value(s.drop_last()) + hex_digit_val(s.last())
    }
}

/// A hexadecimal digit string has a non-negative value.
pub proof fn lemma_hex_value_nonneg(s: Seq<char>)
    requires
        all_hex_digits(s),
    ensures
        hex_value(s) >= 0,
    decreases s.len(),
{
    if s.len() > 0 {
        lemma_hex_value_nonneg(s.drop_last());
    }
}

/// The numeric value of a hexadecimal digit character, or sixteen.
pub fn hex_digit_of(c: char) -> (r: u16)
    ensures
        r == hex_digit_val(c),
{
    match c {
        '0' => 0,
        '1' => 1,
        '2' => 2,
        '3' => 3,
        '4' => 4,
        '5' => 5,
        '6' => 6,
        '7' => 7,
        '8' => 8,
        '9' => 9,
        'A' | 'a' => 10,
        'B' | 'b' => 11,
        'C' | 'c' => 12,
        'D' | 'd' => 13,
        'E' | 'e' => 14,
        'F' | 'f' => 15,
        _ => 16,
    }
}

/// Parse a hexadecimal digit string into a sixteen-bit word. Returns
/// the value exactly when the text is non-empty, holds hexadecimal
/// digits only, and its value fits in sixteen bits.
pub fn parse_hex_u16(v: &Vec<char>) -> (r: Option<u16>)
    ensures
        r is Some <==> (v@.len() > 0 && all_hex_digits(v@) && hex_value(v@) <= 0xFFFF),
        r is Some ==> r->0 == hex_value(v@),
{
    if v.len() == 0 {
        return None;
    }
    let mut val: u32 = 0;
    let mut i: usize = 0;
    while i < v.len()
        invariant
            i <= v@.len(),
            forall|j: int| 0 <= j < i ==> is_hex_digit(v@[j]),
            (val <= 0xFFFF && val == hex_value(v@.take(i as int))) || (val == 0x10000 && hex_value(
                v@.take(i as int),
            ) > 0xFFFF),
        decreases v@.len() - i,
    {
        let d = hex_digit_of(v[i]);
        if d >= 16 {
            return None;
        }
        proof {
            assert(v@.take(i + 1).drop_last() =~= v@.take(i as int));
            assert(v@.take(i + 1).last() == v@[i as int]);
            lemma_hex_value_nonneg(v@.take(i as int));
        }
        if val > 0xFFFF || 16 * val + d as u32 > 0xFFFF {
            val = 0x10000;
        } else {
            val = 16 * val + d as u32;
        }
        i = i + 1;
    }
    proof {
        assert(v@.take(v@.len() as int) =~= v@);
    }
    if val > 0xFFFF {
        None
    } else {
        Some(val as u16)
    }
}

/// The four-character uppercase hexadecimal text of a word.
pub open spec fn hex4(w: u16) -> Seq<char> {
    seq![
        hex_char(w as int / 4096),
        hex_char((w as int / 256) % 16),
        hex_char((w as int / 16) % 16),
        hex_char(w as int % 16),
    ]
}

/// One hexadecimal digit as a string literal.
fn hex_digit_str(n: u16) -> (r: &'static str)
    requires
        n < 16,
    ensures
        r@ =~= seq![hex_char(n as int)],
{
    proof {
        reveal_strlit("0");
        reveal_strlit("1");
        reveal_strlit("2");
        reveal_strlit("3");
        reveal_strlit("4");
        reveal_strlit("5");
        reveal_strlit("6");
        reveal_strlit("7");
        reveal_strlit("8");
        reveal_strlit("9");
        reveal_strlit("A");
        reveal_strlit("B");
        reveal_strlit("C");
        reveal_strlit("D");
        reveal_strlit("E");
        reveal_strlit("F");
    }
    match n {
        0 => "0",
        1 => "1",
        2 => "2",
        3 => "3",
        4 => "4",
        5 => "5",
        6 => "6",
        7 => "7",
        8 => "8",
        9 => "9",
        10 => "A",
        11 => "B",
        12 => "C",
        13 => "D",
        14 => "E",
        _ => "F",
    }
}

/// Render a word as four uppercase hexadecimal characters.
pub fn to_hex4(w: u16) -> (r: String)
    ensures
        r@ =~= hex4(w),
{
    let mut s = String::new();
    s.append(hex_digit_str(w / 4096));
    s.append(hex_digit_str((w / 256) % 16));
    s.append(hex_digit_str((w / 16) % 16));
    s.append(hex_digit_str(w % 16));
    s
}

/// The numeric value of a decimal digit character, or ten.
pub open spec fn dec_digit_val(c: char) -> int {
    if c == '0' {
        0
    } else if c == '1' {
        1
    } else if c == '2' {
        2
    } else if c == '3' {
        3
    } else if c == '4' {
        4
    } else if c == '5' {
        5
    } else if c == '6' {
        6
    } else if c == '7' {
        7
    } else if c == '8' {
        8
    } else if c == '9' {
        9
    } else {
        10
    }
}

/// Whether `c` is a decimal digit.
pub open spec fn is_dec_digit(c: char) -> bool {
    dec_digit_val(c) < 10
}

/// Whether every character of `s` is a decimal digit.
pub open spec fn all_dec_digits(s: Seq<char>) -> bool {
    forall|i: int| 0 <= i < s.len() ==> is_dec_digit(s[i])
}

/// The value of a decimal digit string, folding from the left.
pub open spec fn dec_value(s: Seq<char>) -> int
    decreases s.len(),
{
    if s.len() == 0 {
        0
    } else {
        10 * dec_value(s.drop_last()) + dec_digit_val(s.last())
    }
}

/// A decimal digit string has a non-negative value.
pub proof fn lemma_dec_value_nonneg(s: Seq<char>)
    requires
        all_dec_digits(s),
    ensures
        dec_value(s) >= 0,
    decreases s.len(),
{
    if s.len() > 0 {
        lemma_dec_value_nonneg(s.drop_last());
    }
}

/// The numeric value of a decimal digit character, or ten.
pub fn dec_digit_of(c: char) -> (r: u16)
    ensures
        r == dec_digit_val(c),
{
    match c {
        '0' => 0,
        '1' => 1,
        '2' => 2,
        '3' => 3,
        '4' => 4,
        '5' => 5,
        '6' => 6,
        '7' => 7,
        '8' => 8,
        '9' => 9,
        _ => 10,
    }
}

/// Parse an unsigned decimal digit string, clamped at `2^16`: the
/// result is the exact value when that value fits below `2^16`, and
/// `2^16` itself when the text's value is at least that big.
pub fn parse_dec_clamped(v: &Vec<char>, from: usize) -> (r: Option<u32>)
    requires
        from <= v@.len(),
    ensures
        r is Some <==> (from < v@.len() && all_dec_digits(v@.skip(from as int))),
        r is Some ==> {
            let n = dec_value(v@.skip(from as int));
            (n <= 0xFFFF && r->0 == n) || (n > 0xFFFF && r->0 == 0x10000)
        },
{
    if from >= v.len() {
        return None;
    }
    let ghost digits = v@.skip(from as int);
    let mut val: u32 = 0;
    let mut i: usize = from;
    while i < v.len()
        invariant
            from <= i <= v@.len(),
            digits == v@.skip(from as int),
            forall|j: int| from <= j < i ==> is_dec_digit(v@[j]),
            (val <= 0xFFFF && val == dec_value(digits.take(i - from))) || (val == 0x10000
                && dec_value(digits.take(i - from)) > 0xFFFF),
        decreases v@.len() - i,
    {
        let d = dec_digit_of(v[i]);
        if d >= 10 {
            proof {
                assert(digits[i - from] == v@[i as int]);
            }
            return None;
        }
        proof {
            assert(digits.take(i - from + 1).drop_last() =~= digits.take(i - from));
            assert(digits.take(i - from + 1).last() == v@[i as int]);
            assert(forall|j: int| 0 <= j < i - from ==> digits[j] == v@[from + j]);
            lemma_dec_value_nonneg(digits.take(i - from));
        }
        if val > 0xFFFF || 10 * val + d as u32 > 0xFFFF {
            val = 0x10000;
        } else {
            val = 10 * val + d as u32;
        }
        i = i + 1;
    }
    proof {
        assert(digits.take(v@.len() - from) =~= digits);
        assert(forall|j: int| 0 <= j < digits.len() ==> digits[j] == v@[from + j]);
    }
    Some(val)
}

/// The decimal text of a non-negative number, without sign or
/// padding.
pub open spec fn dec_str(n: int) -> Seq<char>
    decreases n,
{
    if n < 10 {
        seq![hex_char(if n < 0 { 0 } else { n })]
    } else {
        dec_str(n / 10) + seq![hex_char(n % 10)]
    }
}

/// Render a number as its decimal text.
pub fn to_dec_string(n: u64) -> (r: String)
    ensures
        r@ =~= dec_str(n as int),
    decreases n,
{
    if n < 10 {
        let mut s = String::new();
        s.append(hex_digit_str(n as u16));
        s
    } else {
        let mut s = to_dec_string(n / 10);
        s.append(hex_digit_str((n % 10) as u16));
        s
    }
}

} // verus!
