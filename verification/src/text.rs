//! Character-level string helpers: equality, trimming, ASCII case folding, decimal numbers.
use vstd::prelude::*;
use vstd::string::*;

verus! {

/// Character-wise equality of two string slices.
pub fn str_eq(a: &str, b: &str) -> (r: bool)
    ensures
        r == (a@ == b@),
{
    let n = a.unicode_len();
    if n != b.unicode_len() {
        return false;
    }
    let mut i: usize = 0;
    while i < n
        invariant
            n == a@.len(),
            n == b@.len(),
            i <= n,
            forall|j: int| 0 <= j < i ==> a@[j] == b@[j],
        decreases n - i,
    {
        if a.get_char(i) != b.get_char(i) {
            return false;
        }
        i = i + 1;
    }
    assert(a@ =~= b@);
    true
}

/// Unicode white space, as `char::is_whitespace` classifies it.
pub open spec fn is_white(c: char) -> bool {
    ('\t' <= c <= '\r') || c == ' ' || c == '\u{85}' || c == '\u{A0}' || c == '\u{1680}' || (
    '\u{2000}' <= c <= '\u{200A}') || c == '\u{2028}' || c == '\u{2029}' || c == '\u{202F}' || c
        == '\u{205F}' || c == '\u{3000}'
}

pub fn is_whitespace(c: char) -> (r: bool)
    ensures
        r == is_white(c),
{
    ('\t' <= c && c <= '\r') || c == ' ' || c == '\u{85}' || c == '\u{A0}' || c == '\u{1680}' || (
    '\u{2000}' <= c && c <= '\u{200A}') || c == '\u{2028}' || c == '\u{2029}' || c == '\u{202F}'
        || c == '\u{205F}' || c == '\u{3000}'
}

pub open spec fn trim_start_chars(s: Seq<char>) -> Seq<char>
    decreases s.len(),
{
    if s.len() > 0 && is_white(s[0]) {
        trim_start_chars(s.subrange(1, s.len() as int))
    } else {
        s
    }
}

pub open spec fn trim_end_chars(s: Seq<char>) -> Seq<char>
    decreases s.len(),
{
    if s.len() > 0 && is_white(s.last()) {
        trim_end_chars(s.drop_last())
    } else {
        s
    }
}

/// The characters without leading and trailing white space.
pub open spec fn trim_chars(s: Seq<char>) -> Seq<char> {
    trim_end_chars(trim_start_chars(s))
}

/// `s` without leading and trailing white space.
pub fn trimmed(s: &str) -> (r: &str)
    ensures
        r@ == trim_chars(s@),
{
    let n = s.unicode_len();
    let mut i: usize = 0;
    assert(s@.subrange(0, n as int) =~= s@);
    while i < n && is_whitespace(s.get_char(i))
        invariant
            n == s@.len(),
            i <= n,
            trim_start_chars(s@) == trim_start_chars(s@.subrange(i as int, n as int)),
        decreases n - i,
    {
        proof {
            let t = s@.subrange(i as int, n as int);
            assert(t.subrange(1, t.len() as int) =~= s@.subrange(i + 1, n as int));
        }
        i = i + 1;
    }
    proof {
        let t = s@.subrange(i as int, n as int);
        if t.len() > 0 {
            assert(t[0] == s@[i as int]);
        }
    }
    let mut j: usize = n;
    while j > i && is_whitespace(s.get_char(j - 1))
        invariant
            n == s@.len(),
            i <= j <= n,
            trim_end_chars(s@.subrange(i as int, n as int)) == trim_end_chars(
                s@.subrange(i as int, j as int),
            ),
        decreases j,
    {
        proof {
            let t = s@.subrange(i as int, j as int);
            assert(t.drop_last() =~= s@.subrange(i as int, j - 1));
        }
        j = j - 1;
    }
    proof {
        let t = s@.subrange(i as int, j as int);
        if t.len() > 0 {
            assert(t.last() == s@[j - 1]);
        }
    }
    s.substring_char(i, j)
}

/// ASCII letters folded to lower case; other characters unchanged.
pub open spec fn ascii_lower(c: char) -> char {
    if 'A' <= c <= 'Z' {
        ((c as u32) + 32) as char
    } else {
        c
    }
}

pub fn lower_char(c: char) -> (r: char)
    ensures
        r == ascii_lower(c),
{
    if 'A' <= c && c <= 'Z' {
        let v = (c as u32) + 32;
        assert(0x61 <= v <= 0x7a);
        char_from_ascii(v)
    } else {
        c
    }
}

fn char_from_ascii(v: u32) -> (c: char)
    requires
        v < 128,
    ensures
        c == v as char,
{
    v as u8 as char
}

/// Equality up to ASCII case, as `str::eq_ignore_ascii_case` decides it.
pub open spec fn same_ignoring_ascii_case(a: Seq<char>, b: Seq<char>) -> bool {
    a.len() == b.len() && forall|i: int| 0 <= i < a.len() ==> ascii_lower(a[i]) == ascii_lower(b[i])
}

pub fn eq_ignore_ascii_case(a: &str, b: &str) -> (r: bool)
    ensures
        r == same_ignoring_ascii_case(a@, b@),
{
    let n = a.unicode_len();
    if n != b.unicode_len() {
        return false;
    }
    let mut i: usize = 0;
    while i < n
        invariant
            n == a@.len(),
            n == b@.len(),
            i <= n,
            forall|j: int| 0 <= j < i ==> ascii_lower(a@[j]) == ascii_lower(b@[j]),
        decreases n - i,
    {
        if lower_char(a.get_char(i)) != lower_char(b.get_char(i)) {
            return false;
        }
        i = i + 1;
    }
    true
}

/// The decimal digits of `n`, most significant first, without leading zeros.
pub open spec fn decimal(n: nat) -> Seq<char>
    decreases n,
{
    if n < 10 {
        seq![digit_char(n)]
    } else {
        decimal(n / 10) + seq![digit_char(n % 10)]
    }
}

pub open spec fn digit_char(d: nat) -> char {
    if d == 0 {
        '0'
    } else if d == 1 {
        '1'
    } else if d == 2 {
        '2'
    } else if d == 3 {
        '3'
    } else if d == 4 {
        '4'
    } else if d == 5 {
        '5'
    } else if d == 6 {
        '6'
    } else if d == 7 {
        '7'
    } else if d == 8 {
        '8'
    } else {
        '9'
    }
}

fn digit_str(d: u8) -> (s: &'static str)
    requires
        d < 10,
    ensures
        s@ == seq![digit_char(d as nat)],
{
    proof {
        reveal_strlit("0");
        reveal_strlit("1");
        reveal_strlit("2");
        reveal_strlit("3");
        reveal_strlit("4");
        reveal_strlit("5");
        reveal_strlit("6");
        reveal_strlit("7");
        reveal_strlit("8");
        reveal_strlit("9");
    }
    if d == 0 {
        "0"
    } else if d == 1 {
        "1"
    } else if d == 2 {
        "2"
    } else if d == 3 {
        "3"
    } else if d == 4 {
        "4"
    } else if d == 5 {
        "5"
    } else if d == 6 {
        "6"
    } else if d == 7 {
        "7"
    } else if d == 8 {
        "8"
    } else {
        "9"
    }
}

/// Append the decimal representation of `n` to `out`.
pub fn push_decimal(out: &mut String, n: u128)
    ensures
        final(out)@ == old(out)@ + decimal(n as nat),
{
    let mut digits: Vec<u8> = Vec::new();
    let mut m = n;
    while m >= 10
        invariant
            decimal(n as nat) == decimal(m as nat) + digits_seq(digits@),
            forall|i: int| 0 <= i < digits@.len() ==> digits@[i] < 10,
        decreases m,
    {
        let d = (m % 10) as u8;
        proof {
            assert(decimal(m as nat) == decimal((m / 10) as nat) + seq![digit_char((m % 10) as nat)]);
            lemma_digits_push(digits@, d);
            assert(decimal((m / 10) as nat) + seq![digit_char((m % 10) as nat)] + digits_seq(digits@)
                =~= decimal((m / 10) as nat) + (seq![digit_char(d as nat)] + digits_seq(digits@)));
        }
        digits.push(d);
        m = m / 10;
    }
    let last = m as u8;
    out.append(digit_str(last));
    proof {
        assert(digits@.subrange(digits@.len() as int, digits@.len() as int) =~= Seq::<u8>::empty());
        assert(out@ =~= old(out)@ + seq![digit_char(m as nat)] + digits_seq(Seq::<u8>::empty()));
    }
    let mut i: usize = digits.len();
    while i > 0
        invariant
            i <= digits@.len(),
            forall|j: int| 0 <= j < digits@.len() ==> digits@[j] < 10,
            decimal(n as nat) == seq![digit_char(m as nat)] + digits_seq(digits@),
            final_prefix(out@, old(out)@, m, digits@, i as int),
        decreases i,
    {
        i = i - 1;
        let d = digits[i];
        let ghost before = out@;
        proof {
            lemma_digits_split(digits@, i as int);
        }
        out.append(digit_str(d));
        proof {
            let lead = seq![digit_char(m as nat)];
            let rest = digits_seq(digits@.subrange(i + 1, digits@.len() as int));
            assert(out@ =~= old(out)@ + lead + (rest + seq![digit_char(d as nat)]));
        }
    }
    proof {
        assert(digits@.subrange(0, digits@.len() as int) =~= digits@);
        assert(out@ =~= old(out)@ + (seq![digit_char(m as nat)] + digits_seq(digits@)));
    }
}

/// `out` holds the original text, the leading digit and the digits stored at `i..` (stored
/// least significant first).
spec fn final_prefix(out: Seq<char>, orig: Seq<char>, m: u128, digits: Seq<u8>, i: int) -> bool {
    out == orig + seq![digit_char(m as nat)] + digits_seq(digits.subrange(i, digits.len() as int))
}

/// Digits stored least significant first, as characters most significant first.
pub open spec fn digits_seq(d: Seq<u8>) -> Seq<char>
    decreases d.len(),
{
    if d.len() == 0 {
        Seq::empty()
    } else {
        digits_seq(d.subrange(1, d.len() as int)) + seq![digit_char(d[0] as nat)]
    }
}

proof fn lemma_digits_push(d: Seq<u8>, x: u8)
    ensures
        digits_seq(d.push(x)) == seq![digit_char(x as nat)] + digits_seq(d),
    decreases d.len(),
{
    let p = d.push(x);
    if d.len() == 0 {
        assert(p.subrange(1, 1) =~= Seq::<u8>::empty());
        assert(p[0] == x);
        assert(digits_seq(p) == digits_seq(p.subrange(1, 1)) + seq![digit_char(p[0] as nat)]);
        assert(seq![digit_char(x as nat)] + Seq::<char>::empty() =~= seq![digit_char(x as nat)]);
        assert(Seq::<char>::empty() + seq![digit_char(x as nat)] =~= seq![digit_char(x as nat)]);
    } else {
        let t = d.subrange(1, d.len() as int);
        lemma_digits_push(t, x);
        assert(p[0] == d[0]);
        assert(d.push(x).subrange(1, d.len() as int + 1) =~= t.push(x));
        assert(seq![digit_char(x as nat)] + digits_seq(t) + seq![digit_char(d[0] as nat)] =~= seq![
            digit_char(x as nat),
        ] + (digits_seq(t) + seq![digit_char(d[0] as nat)]));
    }
}

proof fn lemma_digits_split(d: Seq<u8>, i: int)
    requires
        0 <= i < d.len(),
    ensures
        digits_seq(d.subrange(i, d.len() as int)) == digits_seq(d.subrange(i + 1, d.len() as int))
            + seq![digit_char(d[i] as nat)],
{
    let t = d.subrange(i, d.len() as int);
    assert(t.subrange(1, t.len() as int) =~= d.subrange(i + 1, d.len() as int));
}

/// Two literal pieces around a decimal number.
pub fn with_number(prefix: &str, n: u128) -> (r: String)
    ensures
        r@ == prefix@ + decimal(n as nat),
{
    let mut s = String::from_str(prefix);
    push_decimal(&mut s, n);
    s
}


/// Appends one character; `String::push`, which vstd leaves unspecified.
#[verifier::external_body]
pub(crate) fn push_char(s: &mut String, c: char)
    ensures
        final(s)@ == old(s)@.push(c),
{
    s.push(c);
}

/// The first index at or after `i` where `pat` occurs in `s`.
pub open spec fn find_from(s: Seq<char>, pat: Seq<char>, i: int) -> Option<int>
    decreases s.len() + 1 - i,
{
    if i < 0 || i + pat.len() > s.len() {
        None
    } else if s.subrange(i, i + pat.len()) == pat {
        Some(i)
    } else {
        find_from(s, pat, i + 1)
    }
}

/// The first index of `c` in `s`, or the length of `s` when it does not occur.
pub open spec fn index_or_len(s: Seq<char>, c: char) -> int
    decreases s.len(),
{
    if s.len() == 0 {
        0
    } else if s[0] == c {
        0
    } else {
        1 + index_or_len(s.subrange(1, s.len() as int), c)
    }
}

pub open spec fn starts_with(s: Seq<char>, p: Seq<char>) -> bool {
    p.len() <= s.len() && s.subrange(0, p.len() as int) == p
}

pub open spec fn ends_with(s: Seq<char>, p: Seq<char>) -> bool {
    p.len() <= s.len() && s.subrange(s.len() - p.len(), s.len() as int) == p
}

/// Whether `pat` occurs in `s` at `at`.
pub fn occurs_at(s: &[char], pat: &str, at: usize) -> (r: bool)
    ensures
        r == (at + pat@.len() <= s@.len() && s@.subrange(at as int, at + pat@.len()) == pat@),
{
    let m = pat.unicode_len();
    let n = s.len();
    if m > n || at > n - m {
        return false;
    }
    let mut j: usize = 0;
    while j < m
        invariant
            m == pat@.len(),
            n == s@.len(),
            at + m <= n,
            j <= m,
            forall|q: int| 0 <= q < j ==> s@[at + q] == pat@[q],
        decreases m - j,
    {
        if s[at + j] != pat.get_char(j) {
            assert(s@.subrange(at as int, at + m)[j as int] != pat@[j as int]);
            return false;
        }
        j = j + 1;
    }
    assert(s@.subrange(at as int, at + m) =~= pat@);
    true
}

/// The first occurrence of `pat` in `s` at or after `from`.
pub fn find(s: &[char], pat: &str, from: usize) -> (r: Option<usize>)
    requires
        from <= s@.len(),
    ensures
        match r {
            Some(i) => find_from(s@, pat@, from as int) == Some(i as int) && from <= i && i
                + pat@.len() <= s@.len(),
            None => find_from(s@, pat@, from as int) is None,
        },
{
    let n = s.len();
    let m = pat.unicode_len();
    if m > n {
        return None;
    }
    let mut i = from;
    while i <= n - m
        invariant
            n == s@.len(),
            m == pat@.len(),
            m <= n,
            from <= i,
            find_from(s@, pat@, from as int) == find_from(s@, pat@, i as int),
        decreases n - i,
    {
        if occurs_at(s, pat, i) {
            return Some(i);
        }
        proof {
            if m == 0 {
                assert(s@.subrange(i as int, i as int) =~= pat@);
            }
        }
        i = i + 1;
    }
    None
}

/// The characters of a string slice.
pub fn chars_of(s: &str) -> (r: Vec<char>)
    ensures
        r@ == s@,
{
    let n = s.unicode_len();
    let mut v: Vec<char> = Vec::new();
    let mut i: usize = 0;
    while i < n
        invariant
            n == s@.len(),
            i <= n,
            v@ == s@.subrange(0, i as int),
        decreases n - i,
    {
        v.push(s.get_char(i));
        proof {
            assert(s@.subrange(0, i + 1) =~= s@.subrange(0, i as int).push(s@[i as int]));
        }
        i = i + 1;
    }
    proof {
        assert(s@.subrange(0, n as int) =~= s@);
    }
    v
}

/// A string holding `s[from..to]`.
pub fn string_of(s: &[char], from: usize, to: usize) -> (r: String)
    requires
        from <= to <= s@.len(),
    ensures
        r@ == s@.subrange(from as int, to as int),
{
    let mut r = String::new();
    let mut i = from;
    while i < to
        invariant
            from <= i <= to <= s@.len(),
            r@ == s@.subrange(from as int, i as int),
        decreases to - i,
    {
        push_char(&mut r, s[i]);
        proof {
            assert(s@.subrange(from as int, i + 1) =~= s@.subrange(from as int, i as int).push(
                s@[i as int],
            ));
        }
        i = i + 1;
    }
    r
}

/// The characters of `s` with ASCII letters folded to lower case.
pub open spec fn lower_chars(s: Seq<char>) -> Seq<char> {
    s.map_values(|c: char| ascii_lower(c))
}

pub fn lowered(s: &str) -> (r: Vec<char>)
    ensures
        r@ == lower_chars(s@),
{
    let n = s.unicode_len();
    let mut v: Vec<char> = Vec::new();
    let mut i: usize = 0;
    while i < n
        invariant
            n == s@.len(),
            i <= n,
            v@ == lower_chars(s@.subrange(0, i as int)),
        decreases n - i,
    {
        v.push(lower_char(s.get_char(i)));
        proof {
            assert(lower_chars(s@.subrange(0, i + 1)) =~= lower_chars(s@.subrange(0, i as int)).push(
                ascii_lower(s@[i as int]),
            ));
        }
        i = i + 1;
    }
    proof {
        assert(s@.subrange(0, n as int) =~= s@);
    }
    v
}

/// A copy of `s[from..to]`.
pub fn copy_range(s: &[char], from: usize, to: usize) -> (r: Vec<char>)
    requires
        from <= to <= s@.len(),
    ensures
        r@ == s@.subrange(from as int, to as int),
{
    let mut v: Vec<char> = Vec::new();
    let mut i = from;
    while i < to
        invariant
            from <= i <= to <= s@.len(),
            v@ == s@.subrange(from as int, i as int),
        decreases to - i,
    {
        v.push(s[i]);
        proof {
            assert(s@.subrange(from as int, i + 1) =~= s@.subrange(from as int, i as int).push(
                s@[i as int],
            ));
        }
        i = i + 1;
    }
    v
}

/// The first index of `c` in `s`, or its length.
pub fn index_of_or_len(s: &[char], c: char) -> (r: usize)
    ensures
        r == index_or_len(s@, c),
        r <= s@.len(),
{
    let n = s.len();
    let mut i: usize = 0;
    proof {
        assert(s@.subrange(0, n as int) =~= s@);
        lemma_index_or_len_bound(s@, c);
    }
    while i < n
        invariant
            n == s@.len(),
            i <= n,
            index_or_len(s@, c) == i + index_or_len(s@.subrange(i as int, n as int), c),
            index_or_len(s@.subrange(i as int, n as int), c) <= n - i,
        decreases n - i,
    {
        let t = Ghost(s@.subrange(i as int, n as int));
        if s[i] == c {
            assert(t@[0] == c);
            return i;
        }
        proof {
            assert(t@.subrange(1, t@.len() as int) =~= s@.subrange(i + 1, n as int));
            lemma_index_or_len_bound(s@.subrange(i + 1, n as int), c);
        }
        i = i + 1;
    }
    proof {
        assert(s@.subrange(n as int, n as int).len() == 0);
    }
    n
}

proof fn lemma_index_or_len_bound(s: Seq<char>, c: char)
    ensures
        0 <= index_or_len(s, c) <= s.len(),
    decreases s.len(),
{
    if s.len() > 0 && s[0] != c {
        lemma_index_or_len_bound(s.subrange(1, s.len() as int), c);
    }
}

/// Whether the characters are exactly those of `pat`.
pub fn chars_equal(v: &[char], pat: &str) -> (r: bool)
    ensures
        r == (v@ == pat@),
{
    let n = v.len();
    let r = n == pat.unicode_len() && occurs_at(v, pat, 0);
    proof {
        assert(v@.subrange(0, n as int) =~= v@);
    }
    r
}

pub open spec fn hex_digit(d: nat) -> char {
    if d < 10 {
        digit_char(d)
    } else if d == 10 {
        'A'
    } else if d == 11 {
        'B'
    } else if d == 12 {
        'C'
    } else if d == 13 {
        'D'
    } else if d == 14 {
        'E'
    } else {
        'F'
    }
}

/// The eight upper-case hexadecimal digits of `n`, most significant first.
pub open spec fn hex8(n: u32) -> Seq<char> {
    Seq::new(8, |i: int| hex_digit(((n >> ((28 - 4 * i) as u32)) & 0xf) as nat))
}

fn hex_str(d: u32) -> (s: &'static str)
    requires
        d < 16,
    ensures
        s@ == seq![hex_digit(d as nat)],
{
    if d < 10 {
        digit_str(d as u8)
    } else {
        proof {
            reveal_strlit("A");
            reveal_strlit("B");
            reveal_strlit("C");
            reveal_strlit("D");
            reveal_strlit("E");
            reveal_strlit("F");
        }
        if d == 10 {
            "A"
        } else if d == 11 {
            "B"
        } else if d == 12 {
            "C"
        } else if d == 13 {
            "D"
        } else if d == 14 {
            "E"
        } else {
            "F"
        }
    }
}

/// Append the eight hexadecimal digits of `n` to `out`.
pub fn push_hex8(out: &mut String, n: u32)
    ensures
        final(out)@ == old(out)@ + hex8(n),
{
    let mut i: u32 = 0;
    while i < 8
        invariant
            i <= 8,
            out@ == old(out)@ + hex8(n).subrange(0, i as int),
        decreases 8 - i,
    {
        let sh: u32 = 28 - 4 * i;
        let d = (n >> sh) & 0xf;
        assert(d < 16) by (bit_vector)
            requires
                d == (n >> sh) & 0xf,
        ;
        out.append(hex_str(d));
        proof {
            assert(hex8(n).subrange(0, i + 1) =~= hex8(n).subrange(0, i as int).push(
                hex_digit(d as nat),
            ));
        }
        i = i + 1;
    }
    proof {
        assert(hex8(n).subrange(0, 8) =~= hex8(n));
    }
}

/// The decimal digits of `n`, left-padded with zeros to at least `width` characters.
pub open spec fn padded(n: nat, width: nat) -> Seq<char> {
    let d = decimal(n);
    if d.len() >= width {
        d
    } else {
        Seq::new((width - d.len()) as nat, |i: int| '0') + d
    }
}

pub proof fn lemma_decimal_len(n: nat)
    ensures
        decimal(n).len() >= 1,
        n < 10 ==> decimal(n).len() == 1,
        10 <= n < 100 ==> decimal(n).len() == 2,
    decreases n,
{
    if n >= 10 {
        lemma_decimal_len(n / 10);
    }
}

/// Append `n` in decimal, zero-padded to `width` digits.
pub fn push_padded(out: &mut String, n: u128, width: usize)
    ensures
        final(out)@ == old(out)@ + padded(n as nat, width as nat),
{
    let mut digits = String::new();
    push_decimal(&mut digits, n);
    let len = digits.as_str().unicode_len();
    let mut k: usize = len;
    let ghost base = out@;
    while k < width
        invariant
            len == decimal(n as nat).len(),
            len <= k,
            k <= width || k == len,
            out@ == base + Seq::new((k - len) as nat, |i: int| '0'),
        decreases width - k,
    {
        proof {
            reveal_strlit("0");
        }
        out.append("0");
        proof {
            assert(base + Seq::new((k + 1 - len) as nat, |i: int| '0') =~= base + Seq::new(
                (k - len) as nat,
                |i: int| '0',
            ) + seq!['0']);
        }
        k = k + 1;
    }
    out.append(digits.as_str());
    proof {
        if len >= width {
            assert(Seq::new(0, |i: int| '0') + decimal(n as nat) =~= decimal(n as nat));
            assert(out@ =~= base + decimal(n as nat));
        } else {
            assert(out@ =~= base + (Seq::new((width - len) as nat, |i: int| '0') + decimal(n as nat)));
        }
    }
}

/// Whether `pat` occurs anywhere in `s`.
pub fn contains_str(s: &str, pat: &str) -> (r: bool)
    ensures
        r == find_from(s@, pat@, 0) is Some,
{
    let chars = chars_of(s);
    find(chars.as_slice(), pat, 0).is_some()
}
} // verus!
