//! Text helpers shared by the interpreter: conversions between strings and
//! character vectors, decimal integers, line splitting and trimming.
//!
//! Every contract is stated over `Seq<char>`, the view of a string.

use vstd::prelude::*;

verus! {

/// Trusted: `==` of `str` (std). Two string slices compare equal exactly when
/// they hold the same characters.
#[verifier::external_body]
pub(crate) fn str_eq(a: &str, b: &str) -> (r: bool)
    ensures
        r == (a@ == b@),
{
    a == b
}

/// Trusted: `String::push` (std). The character is appended at the end and
/// nothing else changes.
#[verifier::external_body]
pub(crate) fn push_char(s: &mut String, c: char)
    ensures
        final(s)@ == old(s)@.push(c),
{
    s.push(c)
}

/// The characters of `s`, in order.
pub fn chars_of(s: &str) -> (v: Vec<char>)
    ensures
        v@ == s@,
{
    let mut v: Vec<char> = Vec::new();
    for c in it: s.chars()
        invariant
            it.seq() == s@,
            v@ == s@.take(it.index()),
    {
        v.push(c);
        assert(s@.take(it.index() + 1) =~= s@.take(it.index()).push(c));
    }
    assert(s@.take(s@.len() as int) =~= s@);
    v
}

/// The string made of `v[from..to]`.
pub fn string_of(v: &Vec<char>, from: usize, to: usize) -> (s: String)
    requires
        from <= to <= v.len(),
    ensures
        s@ == v@.subrange(from as int, to as int),
{
    let mut s = String::new();
    let mut i: usize = from;
    while i < to
        invariant
            from <= i <= to <= v.len(),
            s@ == v@.subrange(from as int, i as int),
        decreases to - i,
    {
        push_char(&mut s, v[i]);
        assert(v@.subrange(from as int, i + 1) =~= v@.subrange(from as int, i as int).push(v@[i as int]));
        i = i + 1;
    }
    s
}

/// A copy of a list of strings.
pub fn copy_strings(v: &[String]) -> (r: Vec<String>)
    ensures
        r.deep_view() == v.deep_view(),
{
    let mut r: Vec<String> = Vec::new();
    let mut i: usize = 0;
    while i < v.len()
        invariant
            i <= v.len(),
            r.len() == i,
            forall|k: int| 0 <= k < i ==> r@[k]@ == v@[k]@,
        decreases v.len() - i,
    {
        r.push(v[i].clone());
        i = i + 1;
    }
    assert(r.deep_view() =~= v.deep_view());
    r
}

/// `a` followed by `b`.
pub fn join2(a: &str, b: &str) -> (r: String)
    ensures
        r@ == a@ + b@,
{
    let mut r = a.to_string();
    r.append(b);
    r
}

/// `a`, `b` and `c` in a row.
pub fn join3(a: &str, b: &str, c: &str) -> (r: String)
    ensures
        r@ == a@ + b@ + c@,
{
    let mut r = a.to_string();
    r.append(b);
    r.append(c);
    r
}

// ---------------------------------------------------------------------------
// Decimal integers
// ---------------------------------------------------------------------------

/// True for a decimal digit of ASCII.
pub open spec fn is_digit(c: char) -> bool {
    '0' <= c && c <= '9'
}

/// The number that a decimal digit stands for.
pub open spec fn digit_value(c: char) -> int {
    c as int - 48
}

/// The number that a row of decimal digits writes.
pub open spec fn digits_value(s: Seq<char>) -> int
    decreases s.len(),
{
    if s.len() == 0 {
        0
    } else {
        digits_value(s.drop_last()) * 10 + digit_value(s.last())
    }
}

/// True when every character is a decimal digit.
pub open spec fn all_digits(s: Seq<char>) -> bool {
    forall|i: int| 0 <= i < s.len() ==> is_digit(#[trigger] s[i])
}

/// True when the text starts with a sign character.
pub open spec fn has_sign(s: Seq<char>) -> bool {
    s.len() > 0 && (s[0] == '-' || s[0] == '+')
}

/// The digits of a signed decimal, that is the text without its sign.
pub open spec fn unsigned_part(s: Seq<char>) -> Seq<char> {
    if has_sign(s) {
        s.skip(1)
    } else {
        s
    }
}

/// The mathematical value of a signed decimal.
pub open spec fn signed_value(s: Seq<char>) -> int {
    if s.len() > 0 && s[0] == '-' {
        -digits_value(unsigned_part(s))
    } else {
        digits_value(unsigned_part(s))
    }
}

/// What a token means as a 64-bit signed integer: an optional `+` or `-`,
/// then at least one decimal digit and nothing else, the value within range.
pub open spec fn parse_int(s: Seq<char>) -> Option<i64> {
    let digits = unsigned_part(s);
    if digits.len() == 0 || !all_digits(digits) {
        None
    } else if i64::MIN <= signed_value(s) <= i64::MAX {
        Some(signed_value(s) as i64)
    } else {
        None
    }
}

proof fn lemma_digits_value_bounds(s: Seq<char>)
    requires
        all_digits(s),
    ensures
        digits_value(s) >= 0,
    decreases s.len(),
{
    if s.len() > 0 {
        lemma_digits_value_bounds(s.drop_last());
        assert(is_digit(s[s.len() - 1]));
    }
}

/// A longer row of digits writes a number at least as large as any prefix.
proof fn lemma_digits_value_grows(s: Seq<char>, k: int)
    requires
        all_digits(s),
        0 <= k <= s.len(),
    ensures
        digits_value(s.take(k)) <= digits_value(s),
    decreases s.len() - k,
{
    if k == s.len() {
        assert(s.take(k) =~= s);
    } else {
        lemma_digits_value_grows(s, k + 1);
        let t = s.take(k + 1);
        assert(t.drop_last() =~= s.take(k));
        assert(t.last() == s[k]);
        assert(is_digit(s[k]));
        assert forall|i: int| 0 <= i < s.take(k).len() implies is_digit(#[trigger] s.take(k)[i]) by {
            assert(s.take(k)[i] == s[i]);
        }
        lemma_digits_value_bounds(s.take(k));
    }
}

/// Reads a token as a 64-bit signed integer.
#[verifier::loop_isolation(false)]
pub fn to_int(s: &str) -> (r: Option<i64>)
    ensures
        r == parse_int(s@),
{
    let v = chars_of(s);
    let n = v.len();
    let mut start: usize = 0;
    let mut negative = false;
    if n > 0 && (v[0] == '-' || v[0] == '+') {
        negative = v[0] == '-';
        start = 1;
    }
    let ghost digits = unsigned_part(s@);
    assert(digits =~= v@.subrange(start as int, n as int));
    if start == n {
        return None;
    }
    let mut acc: i128 = 0;
    let mut i: usize = start;
    while i < n
        invariant
            start <= i <= n,
            n == v.len(),
            digits == v@.subrange(start as int, n as int),
            all_digits(digits.take(i - start)),
            acc == digits_value(digits.take(i - start)),
            0 <= acc <= 9223372036854775808,
        decreases n - i,
    {
        let c = v[i];
        if !('0' <= c && c <= '9') {
            assert(!is_digit(digits[i - start]));
            return None;
        }
        let d: i128 = (c as u32 - 48) as i128;
        proof {
            let t = digits.take(i - start + 1);
            assert(t.drop_last() =~= digits.take(i - start));
            assert(t.last() == c);
            assert forall|k: int| 0 <= k < t.len() implies is_digit(#[trigger] t[k]) by {
                if k < i - start {
                    assert(digits.take(i - start)[k] == t[k]);
                }
            }
        }
        acc = acc * 10 + d;
        if acc > 9223372036854775808 {
            // The remaining characters decide only whether the text is a number
            // at all: its value is out of range either way.
            let mut j: usize = i + 1;
            while j < n
                invariant
                    i < j <= n,
                    n == v.len(),
                    digits == v@.subrange(start as int, n as int),
                    all_digits(digits.take(j - start)),
                decreases n - j,
            {
                let cj = v[j];
                if !('0' <= cj && cj <= '9') {
                    assert(!is_digit(digits[j - start]));
                    return None;
                }
                proof {
                    let t = digits.take(j - start + 1);
                    assert forall|k: int| 0 <= k < t.len() implies is_digit(#[trigger] t[k]) by {
                        if k < j - start {
                            assert(digits.take(j - start)[k] == t[k]);
                        }
                    }
                }
                j = j + 1;
            }
            proof {
                assert(digits.take(n - start) =~= digits);
                lemma_digits_value_grows(digits, i - start + 1);
            }
            return None;
        }
        i = i + 1;
    }
    proof {
        assert(digits.take(n - start) =~= digits);
    }
    if negative {
        Some((-acc) as i64)
    } else if acc > 9223372036854775807 {
        None
    } else {
        Some(acc as i64)
    }
}

/// The decimal digit that stands for a number from 0 to 9.
pub open spec fn digit_char(d: int) -> char
    recommends
        0 <= d <= 9,
{
    (d + 48) as char
}

/// The decimal digits of a natural number, without leading zeros.
pub open spec fn nat_digits(n: nat) -> Seq<char>
    decreases n,
{
    if n < 10 {
        seq![digit_char(n as int)]
    } else {
        nat_digits(n / 10).push(digit_char((n % 10) as int))
    }
}

/// How an integer is written: a minus sign if it is negative, then its digits.
pub open spec fn int_text(n: int) -> Seq<char> {
    if n < 0 {
        "-"@ + nat_digits((-n) as nat)
    } else {
        nat_digits(n as nat)
    }
}

fn digit_to_char(d: u8) -> (c: char)
    requires
        d <= 9,
    ensures
        c == digit_char(d as int),
{
    (d + 48) as char
}

/// Writes a natural number in decimal.
#[verifier::loop_isolation(false)]
pub fn format_u64(n: u64) -> (r: String)
    ensures
        r@ == nat_digits(n as nat),
{
    let mut rest: u64 = n;
    // Digits from the least significant one.
    let mut low: Vec<char> = Vec::new();
    while rest >= 10
        invariant
            nat_digits(n as nat) == nat_digits(rest as nat) + low@.reverse(),
        decreases rest,
    {
        let d = digit_to_char((rest % 10) as u8);
        proof {
            let before = low@;
            assert(nat_digits(rest as nat) == nat_digits((rest / 10) as nat).push(d));
            assert(before.push(d).reverse() =~= seq![d] + before.reverse());
            assert(nat_digits((rest / 10) as nat).push(d) + before.reverse() =~= nat_digits(
                (rest / 10) as nat,
            ) + (seq![d] + before.reverse()));
        }
        low.push(d);
        rest = rest / 10;
    }
    let d = digit_to_char(rest as u8);
    proof {
        let before = low@;
        assert(before.push(d).reverse() =~= seq![d] + before.reverse());
        assert(nat_digits(rest as nat) =~= seq![d]);
    }
    low.push(d);
    assert(nat_digits(n as nat) == low@.reverse());
    let mut r = String::new();
    let mut i: usize = low.len();
    while i > 0
        invariant
            i <= low.len(),
            r@ == low@.reverse().take(low.len() - i),
        decreases i,
    {
        i = i - 1;
        push_char(&mut r, low[i]);
        assert(low@.reverse().take(low.len() - i) =~= low@.reverse().take(low.len() - i - 1).push(
            low@[i as int],
        ));
    }
    assert(low@.reverse().take(low.len() as int) =~= low@.reverse());
    r
}

/// Writes an integer in decimal.
pub fn format_int(n: i64) -> (r: String)
    ensures
        r@ == int_text(n as int),
{
    if n < 0 {
        let magnitude = (-(n as i128)) as u64;
        join2("-", format_u64(magnitude).as_str())
    } else {
        format_u64(n as u64)
    }
}

/// Writes a count in decimal.
pub fn format_count(n: usize) -> (r: String)
    ensures
        r@ == nat_digits(n as nat),
{
    format_u64(n as u64)
}

proof fn lemma_nat_digits(n: nat)
    ensures
        all_digits(nat_digits(n)),
        nat_digits(n).len() > 0,
        digits_value(nat_digits(n)) == n,
        !has_sign(nat_digits(n)),
    decreases n,
{
    if n < 10 {
        let s = nat_digits(n);
        assert(s.len() == 1 && s[0] == digit_char(n as int));
        assert(s.drop_last().len() == 0);
        assert(digits_value(s.drop_last()) == 0);
    } else {
        lemma_nat_digits(n / 10);
        let head = nat_digits(n / 10);
        let s = head.push(digit_char((n % 10) as int));
        assert(s.drop_last() =~= head);
        assert(s.last() == digit_char((n % 10) as int));
        assert(s[0] == head[0]);
    }
}

/// What is written reads back: the decimal text of a 64-bit integer reads
/// as that integer.
pub proof fn lemma_int_text_reads_back(n: i64)
    ensures
        parse_int(int_text(n as int)) == Some(n),
{
    if n < 0 {
        let digits = nat_digits((-n) as nat);
        lemma_nat_digits((-n) as nat);
        let s = "-"@ + digits;
        reveal_strlit("-");
        assert(s[0] == '-');
        assert(s.skip(1) =~= digits);
    } else {
        lemma_nat_digits(n as nat);
    }
}

// ---------------------------------------------------------------------------
// Searching and splitting
// ---------------------------------------------------------------------------

/// The place of the first `c` in `s`, or the length of `s` if there is none.
pub open spec fn first_index(s: Seq<char>, c: char) -> int
    decreases s.len(),
{
    if s.len() == 0 || s[0] == c {
        0
    } else {
        1 + first_index(s.skip(1), c)
    }
}

/// The place of the last `c` in `s`, or -1 if there is none.
pub open spec fn last_index(s: Seq<char>, c: char) -> int
    decreases s.len(),
{
    if s.len() == 0 {
        -1
    } else if s.last() == c {
        s.len() - 1
    } else {
        last_index(s.drop_last(), c)
    }
}

/// The first place of a character is the place before which it does not occur
/// and at which it does.
pub proof fn lemma_first_index(s: Seq<char>, c: char, k: int)
    requires
        0 <= k <= s.len(),
        forall|i: int| 0 <= i < k ==> s[i] != c,
        k == s.len() || s[k] == c,
    ensures
        first_index(s, c) == k,
    decreases k,
{
    if k > 0 {
        let t = s.skip(1);
        assert forall|i: int| 0 <= i < k - 1 implies t[i] != c by {
            assert(t[i] == s[i + 1]);
        }
        lemma_first_index(t, c, k - 1);
    }
}

/// The last place of a character is the place behind which it does not occur
/// and at which it does.
pub proof fn lemma_last_index(s: Seq<char>, c: char, k: int)
    requires
        -1 <= k < s.len(),
        forall|i: int| k < i < s.len() ==> s[i] != c,
        k == -1 || s[k] == c,
    ensures
        last_index(s, c) == k,
    decreases s.len(),
{
    if s.len() > 0 && k < s.len() - 1 {
        let t = s.drop_last();
        assert forall|i: int| k < i < t.len() implies t[i] != c by {
            assert(t[i] == s[i]);
        }
        lemma_last_index(t, c, k);
    }
}

/// The first `c` at or after `from`, or the length if there is none.
pub fn find_from(v: &Vec<char>, from: usize, c: char) -> (k: usize)
    requires
        from <= v.len(),
    ensures
        from <= k <= v.len(),
        k - from == first_index(v@.skip(from as int), c),
        k < v.len() ==> v@[k as int] == c,
        forall|i: int| from <= i < k ==> v@[i] != c,
{
    let mut k: usize = from;
    while k < v.len() && v[k] != c
        invariant
            from <= k <= v.len(),
            forall|i: int| from <= i < k ==> v@[i] != c,
        decreases v.len() - k,
    {
        k = k + 1;
    }
    proof {
        let t = v@.skip(from as int);
        assert forall|i: int| 0 <= i < k - from implies t[i] != c by {
            assert(t[i] == v@[from + i]);
        }
        lemma_first_index(t, c, k - from);
    }
    k
}

/// True when `s` holds the character `c`.
pub fn has_char(s: &str, c: char) -> (r: bool)
    ensures
        r == s@.contains(c),
{
    let v = chars_of(s);
    let k = find_from(&v, 0, c);
    proof {
        assert(v@.skip(0) =~= v@);
        if k < v.len() {
        } else {
            assert forall|i: int| 0 <= i < v@.len() implies v@[i] != c by {
                lemma_first_index_none(v@, c, i);
            }
        }
    }
    k < v.len()
}

/// Where the first place of a character is the end of the text, the character
/// does not occur.
pub proof fn lemma_first_index_none(s: Seq<char>, c: char, i: int)
    requires
        first_index(s, c) == s.len(),
        0 <= i < s.len(),
    ensures
        s[i] != c,
    decreases s.len(),
{
    lemma_first_index_bound(s.skip(1), c);
    if i > 0 {
        lemma_first_index_none(s.skip(1), c, i - 1);
    }
}

/// The first place of a character lies within the text or at its end.
pub proof fn lemma_first_index_bound(s: Seq<char>, c: char)
    ensures
        0 <= first_index(s, c) <= s.len(),
    decreases s.len(),
{
    if s.len() > 0 && s[0] != c {
        lemma_first_index_bound(s.skip(1), c);
    }
}

/// True when `s` starts with the character `c`.
pub fn starts_with_char(s: &str, c: char) -> (r: bool)
    ensures
        r == (s@.len() > 0 && s@[0] == c),
{
    let v = chars_of(s);
    v.len() > 0 && v[0] == c
}

/// The pieces of `s` between occurrences of `sep`; a text without `sep` is
/// one piece, also when it is empty.
pub open spec fn split_on(s: Seq<char>, sep: char) -> Seq<Seq<char>>
    decreases s.len(),
{
    let i = first_index(s, sep);
    if 0 <= i < s.len() {
        seq![s.take(i)] + split_on(s.skip(i + 1), sep)
    } else {
        seq![s]
    }
}

/// Splits `s` at every `sep`.
pub fn split_at_char(s: &str, sep: char) -> (r: Vec<String>)
    ensures
        r.deep_view() == split_on(s@, sep),
{
    let v = chars_of(s);
    let mut r: Vec<String> = Vec::new();
    let mut start: usize = 0;
    proof {
        assert(v@.skip(0) =~= v@);
        assert(r.deep_view() + split_on(v@, sep) =~= split_on(v@, sep));
    }
    loop
        invariant
            v@ == s@,
            start <= v.len(),
            r.deep_view() + split_on(v@.skip(start as int), sep) == split_on(v@, sep),
        decreases v.len() - start,
    {
        let k = find_from(&v, start, sep);
        let piece = string_of(&v, start, k);
        let ghost before = r.deep_view();
        let ghost rest = v@.skip(start as int);
        r.push(piece);
        assert(r.deep_view() =~= before.push(piece@));
        assert(rest.take(k - start) =~= v@.subrange(start as int, k as int));
        if k == v.len() {
            proof {
                assert(rest.take(k - start) =~= rest);
                assert(before + seq![rest] =~= before.push(rest));
            }
            return r;
        }
        proof {
            assert(rest.skip(k - start + 1) =~= v@.skip(k + 1));
            assert(before + (seq![rest.take(k - start)] + split_on(v@.skip(k + 1), sep)) =~= before.push(
                piece@,
            ) + split_on(v@.skip(k + 1), sep));
        }
        start = k + 1;
    }
}

/// A line without the carriage return that may end it.
pub open spec fn strip_cr(line: Seq<char>) -> Seq<char> {
    if line.len() > 0 && line.last() == '\r' {
        line.drop_last()
    } else {
        line
    }
}

/// The lines of a text. A line ends at a line feed, or at a carriage return
/// followed by one; the last line need not be ended. Blank lines count.
pub open spec fn split_lines(s: Seq<char>) -> Seq<Seq<char>>
    decreases s.len(),
{
    let i = first_index(s, '\n');
    if s.len() == 0 {
        Seq::empty()
    } else if 0 <= i < s.len() {
        seq![strip_cr(s.take(i))] + split_lines(s.skip(i + 1))
    } else {
        seq![s]
    }
}

/// The lines of a text, in order.
pub fn lines_of(s: &str) -> (r: Vec<String>)
    ensures
        r.deep_view() == split_lines(s@),
{
    let v = chars_of(s);
    let mut r: Vec<String> = Vec::new();
    let mut start: usize = 0;
    proof {
        assert(v@.skip(0) =~= v@);
        assert(r.deep_view() + split_lines(v@) =~= split_lines(v@));
    }
    while start < v.len()
        invariant
            v@ == s@,
            start <= v.len(),
            r.deep_view() + split_lines(v@.skip(start as int)) == split_lines(v@),
        decreases v.len() - start,
    {
        let k = find_from(&v, start, '\n');
        let ghost before = r.deep_view();
        let ghost rest = v@.skip(start as int);
        assert(rest.take(k - start) =~= v@.subrange(start as int, k as int));
        if k == v.len() {
            let piece = string_of(&v, start, k);
            r.push(piece);
            proof {
                assert(r.deep_view() =~= before.push(piece@));
                assert(rest.take(k - start) =~= rest);
                assert(before + seq![rest] =~= before.push(rest));
                assert(v@.skip(v@.len() as int).len() == 0);
                assert(r.deep_view() + split_lines(v@.skip(v@.len() as int)) =~= r.deep_view());
            }
            start = k;
        } else {
            let end = if k > start && v[k - 1] == '\r' {
                k - 1
            } else {
                k
            };
            let piece = string_of(&v, start, end);
            r.push(piece);
            proof {
                assert(r.deep_view() =~= before.push(piece@));
                assert(piece@ =~= strip_cr(rest.take(k - start)));
                assert(rest.skip(k - start + 1) =~= v@.skip(k + 1));
                assert(before + (seq![strip_cr(rest.take(k - start))] + split_lines(v@.skip(k + 1)))
                    =~= before.push(piece@) + split_lines(v@.skip(k + 1)));
            }
            start = k + 1;
        }
    }
    proof {
        assert(v@.skip(start as int).len() == 0);
        assert(r.deep_view() + Seq::<Seq<char>>::empty() =~= r.deep_view());
    }
    r
}

// ---------------------------------------------------------------------------
// Order
// ---------------------------------------------------------------------------

/// The order of strings: character by character, by code point, a proper
/// prefix before the longer text.
pub open spec fn lex_le(a: Seq<char>, b: Seq<char>) -> bool
    decreases a.len(),
{
    if a.len() == 0 {
        true
    } else if b.len() == 0 {
        false
    } else if a[0] != b[0] {
        a[0] < b[0]
    } else {
        lex_le(a.skip(1), b.skip(1))
    }
}

/// True when `a` comes before `b` in the order of strings, or equals it.
pub fn str_le(a: &str, b: &str) -> (r: bool)
    ensures
        r == lex_le(a@, b@),
{
    let x = chars_of(a);
    let y = chars_of(b);
    let mut i: usize = 0;
    assert(x@.skip(0) =~= x@ && y@.skip(0) =~= y@);
    while i < x.len() && i < y.len() && x[i] == y[i]
        invariant
            i <= x.len(),
            i <= y.len(),
            lex_le(x@, y@) == lex_le(x@.skip(i as int), y@.skip(i as int)),
        decreases x.len() - i,
    {
        assert(x@.skip(i as int).skip(1) =~= x@.skip(i + 1));
        assert(y@.skip(i as int).skip(1) =~= y@.skip(i + 1));
        i = i + 1;
    }
    if i == x.len() {
        true
    } else if i == y.len() {
        false
    } else {
        x[i] < y[i]
    }
}

/// The order of strings as a relation.
pub open spec fn lex_order() -> spec_fn(Seq<char>, Seq<char>) -> bool {
    |a: Seq<char>, b: Seq<char>| lex_le(a, b)
}

/// The strings of `s` in the order of strings.
pub open spec fn sorted(s: Seq<Seq<char>>) -> Seq<Seq<char>> {
    s.sort_by(lex_order())
}

proof fn lemma_lex_reflexive(a: Seq<char>)
    ensures
        lex_le(a, a),
    decreases a.len(),
{
    if a.len() > 0 {
        lemma_lex_reflexive(a.skip(1));
    }
}

proof fn lemma_lex_connected(a: Seq<char>, b: Seq<char>)
    ensures
        lex_le(a, b) || lex_le(b, a),
    decreases a.len(),
{
    if a.len() > 0 && b.len() > 0 && a[0] == b[0] {
        lemma_lex_connected(a.skip(1), b.skip(1));
    }
}

proof fn lemma_lex_antisymmetric(a: Seq<char>, b: Seq<char>)
    requires
        lex_le(a, b),
        lex_le(b, a),
    ensures
        a == b,
    decreases a.len(),
{
    if a.len() > 0 {
        lemma_lex_antisymmetric(a.skip(1), b.skip(1));
        assert(a =~= seq![a[0]] + a.skip(1));
        assert(b =~= seq![b[0]] + b.skip(1));
    } else {
        assert(a =~= b);
    }
}

proof fn lemma_lex_transitive(a: Seq<char>, b: Seq<char>, c: Seq<char>)
    requires
        lex_le(a, b),
        lex_le(b, c),
    ensures
        lex_le(a, c),
    decreases a.len(),
{
    if a.len() > 0 && a[0] == b[0] && b[0] == c[0] {
        lemma_lex_transitive(a.skip(1), b.skip(1), c.skip(1));
    }
}

/// The order of strings is a total order.
pub proof fn lemma_lex_total_ordering()
    ensures
        vstd::relations::total_ordering(lex_order()),
{
    let r = lex_order();
    assert forall|x: Seq<char>| #[trigger] r(x, x) by {
        lemma_lex_reflexive(x);
    }
    assert forall|x: Seq<char>, y: Seq<char>| #[trigger] r(x, y) && #[trigger] r(y, x) implies x
        == y by {
        lemma_lex_antisymmetric(x, y);
    }
    assert forall|x: Seq<char>, y: Seq<char>, z: Seq<char>| #[trigger] r(x, y) && #[trigger] r(
        y,
        z,
    ) implies r(x, z) by {
        lemma_lex_transitive(x, y, z);
    }
    assert forall|x: Seq<char>, y: Seq<char>| #[trigger] r(x, y) || #[trigger] r(y, x) by {
        lemma_lex_connected(x, y);
    }
}

/// Sorting puts the strings in order and keeps each as often as it was there.
pub proof fn lemma_sorted(s: Seq<Seq<char>>)
    ensures
        vstd::relations::sorted_by(sorted(s), lex_order()),
        sorted(s).to_multiset() == s.to_multiset(),
{
    lemma_lex_total_ordering();
    s.lemma_sort_by_ensures(lex_order());
}

/// There is one way only to put strings in order: a list that is in order
/// and holds each string as often as `s` does is `sorted(s)`.
pub proof fn lemma_sorted_is_unique(r: Seq<Seq<char>>, s: Seq<Seq<char>>)
    requires
        vstd::relations::sorted_by(r, lex_order()),
        r.to_multiset() == s.to_multiset(),
    ensures
        r == sorted(s),
{
    lemma_sorted(s);
    lemma_lex_total_ordering();
    vstd::seq_lib::lemma_sorted_unique(r, sorted(s), lex_order());
}

/// Puts the strings in order.
pub fn sort_strings(v: Vec<String>) -> (r: Vec<String>)
    ensures
        r.deep_view() == sorted(v.deep_view()),
{
    let mut r: Vec<String> = Vec::new();
    let mut k: usize = 0;
    assert(v.deep_view().take(0) =~= Seq::<Seq<char>>::empty());
    assert(r.deep_view() =~= Seq::<Seq<char>>::empty());
    while k < v.len()
        invariant
            k <= v.len(),
            vstd::relations::sorted_by(r.deep_view(), lex_order()),
            r.deep_view().to_multiset() == v.deep_view().take(k as int).to_multiset(),
        decreases v.len() - k,
    {
        let x = v[k].clone();
        let ghost before = r.deep_view();
        let mut i: usize = r.len();
        while i > 0 && !str_le(r[i - 1].as_str(), x.as_str())
            invariant
                i <= r.len(),
                r.deep_view() == before,
                forall|j: int| i <= j < r.len() ==> !lex_le(#[trigger] before[j], x@),
            decreases i,
        {
            i = i - 1;
        }
        r.insert(i, x);
        proof {
            let after = r.deep_view();
            assert(after =~= before.insert(i as int, x@));
            vstd::seq_lib::to_multiset_insert(before, i as int, x@);
            let t = v.deep_view().take(k + 1);
            assert(t.drop_last() =~= v.deep_view().take(k as int));
            assert(t =~= v.deep_view().take(k as int).push(x@));
            vstd::seq_lib::to_multiset_build(v.deep_view().take(k as int), x@);
            assert forall|a: int, b: int| 0 <= a < b < after.len() implies #[trigger] lex_order()(
                after[a],
                after[b],
            ) by {
                if b < i {
                    assert(lex_order()(before[a], before[b]));
                } else if b == i {
                    // after[a] is before[a] with a < i, and after[b] is x
                    if a < i - 1 {
                        assert(lex_order()(before[a], before[i - 1]));
                        lemma_lex_transitive(before[a], before[i - 1], x@);
                    }
                } else if a < i {
                    assert(lex_order()(before[a], before[b - 1]));
                } else if a == i {
                    assert(!lex_le(before[b - 1], x@));
                    lemma_lex_connected(before[b - 1], x@);
                } else {
                    assert(lex_order()(before[a - 1], before[b - 1]));
                }
            }
        }
        k = k + 1;
    }
    proof {
        assert(v.deep_view().take(v.len() as int) =~= v.deep_view());
        lemma_sorted_is_unique(r.deep_view(), v.deep_view());
    }
    r
}

/// Two lists without repetitions that hold the same strings hold each as often.
pub proof fn lemma_same_items(a: Seq<Seq<char>>, b: Seq<Seq<char>>)
    requires
        a.no_duplicates(),
        b.no_duplicates(),
        a.to_set() == b.to_set(),
    ensures
        a.to_multiset() == b.to_multiset(),
{
    broadcast use vstd::seq_lib::group_to_multiset_ensures;

    a.lemma_multiset_has_no_duplicates();
    b.lemma_multiset_has_no_duplicates();
    assert forall|x: Seq<char>| a.to_multiset().count(x) == b.to_multiset().count(x) by {
        assert(a.contains(x) == a.to_set().contains(x));
        assert(b.contains(x) == b.to_set().contains(x));
        if a.contains(x) {
            assert(a.to_multiset().contains(x));
            assert(b.to_multiset().contains(x));
        } else {
            assert(a.to_multiset().count(x) == 0);
            assert(b.to_multiset().count(x) == 0);
        }
    }
    assert(a.to_multiset() =~= b.to_multiset());
}

// ---------------------------------------------------------------------------
// Trimming
// ---------------------------------------------------------------------------

/// The characters with the Unicode property White_Space.
pub open spec fn is_whitespace(c: char) -> bool {
    let u = c as u32;
    (0x09 <= u && u <= 0x0D) || u == 0x20 || u == 0x85 || u == 0xA0 || u == 0x1680 || (0x2000 <= u
        && u <= 0x200A) || u == 0x2028 || u == 0x2029 || u == 0x202F || u == 0x205F || u == 0x3000
}

/// True for a whitespace character.
pub fn is_space(c: char) -> (r: bool)
    ensures
        r == is_whitespace(c),
{
    let u = c as u32;
    (0x09 <= u && u <= 0x0D) || u == 0x20 || u == 0x85 || u == 0xA0 || u == 0x1680 || (0x2000 <= u
        && u <= 0x200A) || u == 0x2028 || u == 0x2029 || u == 0x202F || u == 0x205F || u == 0x3000
}

/// The text without the whitespace at its end.
pub open spec fn trim_end(s: Seq<char>) -> Seq<char>
    decreases s.len(),
{
    if s.len() > 0 && is_whitespace(s.last()) {
        trim_end(s.drop_last())
    } else {
        s
    }
}

/// The text without the whitespace at its start.
pub open spec fn trim_start(s: Seq<char>) -> Seq<char>
    decreases s.len(),
{
    if s.len() > 0 && is_whitespace(s[0]) {
        trim_start(s.skip(1))
    } else {
        s
    }
}

/// The text without the whitespace at its start and at its end.
pub open spec fn trim(s: Seq<char>) -> Seq<char> {
    trim_end(trim_start(s))
}

/// How many characters `trim_end` keeps of `v[from..]`, counted from `from`.
fn trimmed_end(v: &Vec<char>, from: usize) -> (end: usize)
    requires
        from <= v.len(),
    ensures
        from <= end <= v.len(),
        v@.subrange(from as int, end as int) == trim_end(v@.skip(from as int)),
{
    let ghost all = v@.skip(from as int);
    let mut end: usize = v.len();
    assert(all.take(all.len() as int) =~= all);
    while end > from && is_space(v[end - 1])
        invariant
            from <= end <= v.len(),
            all == v@.skip(from as int),
            trim_end(all) == trim_end(all.take(end - from)),
        decreases end,
    {
        assert(all.take(end - from).drop_last() =~= all.take(end - from - 1));
        end = end - 1;
    }
    assert(all.take(end - from) =~= v@.subrange(from as int, end as int));
    end
}

/// Removes the whitespace at the end.
pub fn trimmed_at_end(s: &str) -> (r: String)
    ensures
        r@ == trim_end(s@),
{
    let v = chars_of(s);
    assert(v@.skip(0) =~= v@);
    let end = trimmed_end(&v, 0);
    string_of(&v, 0, end)
}

/// Removes the whitespace at both ends.
pub fn trimmed(s: &str) -> (r: String)
    ensures
        r@ == trim(s@),
{
    let v = chars_of(s);
    let mut from: usize = 0;
    assert(v@.skip(0) =~= v@);
    while from < v.len() && is_space(v[from])
        invariant
            from <= v.len(),
            trim_start(v@) == trim_start(v@.skip(from as int)),
        decreases v.len() - from,
    {
        assert(v@.skip(from as int).skip(1) =~= v@.skip(from + 1));
        from = from + 1;
    }
    let end = trimmed_end(&v, from);
    string_of(&v, from, end)
}

// ---------------------------------------------------------------------------
// Byte offsets
// ---------------------------------------------------------------------------

/// How many bytes the UTF-8 encoding of a text takes.
pub open spec fn byte_len(s: Seq<char>) -> nat {
    vstd::utf8::encode_utf8(s).len()
}

/// How many bytes the UTF-8 encoding of a character takes.
pub open spec fn utf8_width(c: char) -> nat {
    let u = c as u32;
    if u < 0x80 {
        1
    } else if u < 0x800 {
        2
    } else if u < 0x10000 {
        3
    } else {
        4
    }
}

proof fn lemma_encode_concat(a: Seq<char>, b: Seq<char>)
    ensures
        vstd::utf8::encode_utf8(a + b) == vstd::utf8::encode_utf8(a) + vstd::utf8::encode_utf8(b),
    decreases a.len(),
{
    if a.len() == 0 {
        assert(a + b =~= b);
        assert(vstd::utf8::encode_utf8(a) + vstd::utf8::encode_utf8(b) =~= vstd::utf8::encode_utf8(
            b,
        ));
    } else {
        assert((a + b).drop_first() =~= a.drop_first() + b);
        lemma_encode_concat(a.drop_first(), b);
        assert(vstd::utf8::encode_utf8(a + b) =~= vstd::utf8::encode_utf8(a)
            + vstd::utf8::encode_utf8(b));
    }
}

/// A text with one more character takes as many bytes more as the
/// character does.
pub proof fn lemma_byte_len_push(s: Seq<char>, c: char)
    ensures
        byte_len(s.push(c)) == byte_len(s) + utf8_width(c),
{
    lemma_encode_concat(s, seq![c]);
    assert(s.push(c) =~= s + seq![c]);
    assert(seq![c].drop_first() =~= Seq::<char>::empty());
    vstd::utf8::char_is_scalar(c);
    assert(vstd::utf8::encode_utf8(Seq::<char>::empty()) =~= Seq::<u8>::empty());
    assert(vstd::utf8::encode_utf8(seq![c]) =~= vstd::utf8::encode_scalar(c as u32)
        + vstd::utf8::encode_utf8(seq![c].drop_first()));
    assert(vstd::utf8::encode_utf8(seq![c]) =~= vstd::utf8::encode_scalar(c as u32));
}

/// The start of a text takes no more bytes than the text.
pub proof fn lemma_byte_len_prefix(s: Seq<char>, k: int)
    requires
        0 <= k <= s.len(),
    ensures
        byte_len(s.take(k)) <= byte_len(s),
{
    lemma_encode_concat(s.take(k), s.skip(k));
    assert(s.take(k) + s.skip(k) =~= s);
}

/// How many bytes the UTF-8 encoding of a character takes.
pub fn width_of(c: char) -> (w: usize)
    ensures
        w == utf8_width(c),
        1 <= w <= 4,
{
    let u = c as u32;
    if u < 0x80 {
        1
    } else if u < 0x800 {
        2
    } else if u < 0x10000 {
        3
    } else {
        4
    }
}

/// How many characters of a line end at or before the byte offset `pos`,
/// counted from character `k` on.
pub open spec fn chars_within_from(line: Seq<char>, pos: usize, k: int) -> int
    decreases line.len() - k,
{
    if 0 <= k < line.len() && byte_len(line.take(k + 1)) <= pos {
        chars_within_from(line, pos, k + 1)
    } else {
        k
    }
}

/// How many characters of a line end at or before the byte offset `pos`.
pub open spec fn chars_within(line: Seq<char>, pos: usize) -> int {
    chars_within_from(line, pos, 0)
}

} // verus!
