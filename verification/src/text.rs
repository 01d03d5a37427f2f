//! Character-level text helpers that the rest of the library is specified over.

use vstd::prelude::*;

verus! {

/// Appends one character to a string.
///
/// Trusted: `String::push` is documented to append the given character to the
/// end of the string and to change nothing else.
#[verifier::external_body]
pub(crate) fn push_char(s: &mut String, c: char)
    ensures
        final(s)@ == old(s)@.push(c),
{
    s.push(c);
}

/// The characters of `s`, in order.
pub fn chars_of(s: &str) -> (out: Vec<char>)
    ensures
        out@ == s@,
{
    broadcast use vstd::string::axiom_spec_iter;
    let mut out: Vec<char> = Vec::new();
    for c in it: s.chars()
        invariant
            it.seq() == s@,
            out@ == s@.take(it.index() as int),
    {
        out.push(c);
        assert(s@.take(it.index() + 1) =~= s@.take(it.index() as int).push(c));
    }
    assert(s@.take(s@.len() as int) =~= s@);
    out
}

/// The string made of the characters `v[from..to]`.
pub fn string_of(v: &Vec<char>, from: usize, to: usize) -> (out: String)
    requires
        from <= to <= v@.len(),
    ensures
        out@ == v@.subrange(from as int, to as int),
{
    let mut out = String::new();
    let mut i: usize = from;
    while i < to
        invariant
            from <= i <= to <= v@.len(),
            out@ == v@.subrange(from as int, i as int),
        decreases to - i,
    {
        push_char(&mut out, v[i]);
        i = i + 1;
        assert(out@ =~= v@.subrange(from as int, i as int));
    }
    assert(v@.subrange(from as int, from as int) =~= Seq::<char>::empty());
    out
}

/// The views of a sequence of strings.
pub open spec fn strs_view(v: Seq<String>) -> Seq<Seq<char>> {
    v.map_values(|s: String| s@)
}

/// The least index `i >= from` with `s[i] == c`, or `s.len()` if there is none.
pub open spec fn find_from(s: Seq<char>, c: char, from: int) -> int
    decreases s.len() - from,
{
    if from >= s.len() {
        s.len() as int
    } else if s[from] == c {
        from
    } else {
        find_from(s, c, from + 1)
    }
}

/// `find_from` returns the first occurrence at or after `from`.
pub proof fn lemma_find_from(s: Seq<char>, c: char, from: int)
    requires
        0 <= from <= s.len(),
    ensures
        from <= find_from(s, c, from) <= s.len(),
        find_from(s, c, from) < s.len() ==> s[find_from(s, c, from)] == c,
        forall|j: int| from <= j < find_from(s, c, from) ==> s[j] != c,
    decreases s.len() - from,
{
    if from < s.len() && s[from] != c {
        lemma_find_from(s, c, from + 1);
    }
}

/// Whether `c` occurs in `s`.
pub open spec fn contains_char(s: Seq<char>, c: char) -> bool {
    find_from(s, c, 0) < s.len()
}

/// `s` split at the first occurrence of `c`, which is left out; `None` where `c`
/// does not occur.
pub open spec fn split_once_of(s: Seq<char>, c: char) -> Option<(Seq<char>, Seq<char>)> {
    let i = find_from(s, c, 0);
    if i < s.len() {
        Some((s.subrange(0, i), s.subrange(i + 1, s.len() as int)))
    } else {
        None
    }
}

/// `s` without one trailing carriage return.
pub open spec fn strip_cr(s: Seq<char>) -> Seq<char> {
    if s.len() > 0 && s.last() == '\r' {
        s.drop_last()
    } else {
        s
    }
}

/// The lines of `s` from position `from` on: see [`lines_of`].
pub open spec fn lines_from(s: Seq<char>, from: int) -> Seq<Seq<char>>
    decreases s.len() - from,
{
    if from < 0 || from >= s.len() {
        Seq::empty()
    } else {
        let i = find_from(s, '\n', from);
        if from <= i < s.len() {
            seq![strip_cr(s.subrange(from, i))] + lines_from(s, i + 1)
        } else {
            seq![s.subrange(from, s.len() as int)]
        }
    }
}

/// The lines of `s`. A line ends at a line feed, or at a carriage return directly
/// followed by a line feed; the terminator is not part of the line. The last line
/// needs no terminator, and a text that ends with one has no empty line after it.
pub open spec fn lines_of(s: Seq<char>) -> Seq<Seq<char>> {
    lines_from(s, 0)
}

/// The first line of `s`, empty where `s` has no line.
pub open spec fn first_line_of(s: Seq<char>) -> Seq<char> {
    if lines_of(s).len() > 0 {
        lines_of(s)[0]
    } else {
        Seq::empty()
    }
}

/// The position of the first `c` in `v[from..]`, or `v.len()`.
pub fn find_char(v: &Vec<char>, c: char, from: usize) -> (i: usize)
    requires
        from <= v@.len(),
    ensures
        i == find_from(v@, c, from as int),
        from <= i <= v@.len(),
        i < v@.len() ==> v@[i as int] == c,
{
    let n: usize = v.len();
    let mut i: usize = from;
    while i < n && v[i] != c
        invariant
            n == v@.len(),
            from <= i <= n,
            find_from(v@, c, from as int) == find_from(v@, c, i as int),
        decreases n - i,
    {
        i = i + 1;
    }
    i
}

/// Splits `s` at the first occurrence of `c`.
pub fn split_once(s: &str, c: char) -> (out: Option<(String, String)>)
    ensures
        match (out, split_once_of(s@, c)) {
            (Some(got), Some(want)) => got.0@ == want.0 && got.1@ == want.1,
            (None, None) => true,
            _ => false,
        },
{
    let v = chars_of(s);
    let i: usize = find_char(&v, c, 0);
    if i < v.len() {
        Some((string_of(&v, 0, i), string_of(&v, i + 1, v.len())))
    } else {
        None
    }
}

/// The lines of `s`, as [`lines_of`] defines them.
pub fn lines(s: &str) -> (out: Vec<String>)
    ensures
        strs_view(out@) == lines_of(s@),
{
    let v = chars_of(s);
    let n: usize = v.len();
    let mut out: Vec<String> = Vec::new();
    let mut start: usize = 0;
    assert(strs_view(out@) =~= Seq::<Seq<char>>::empty());
    while start < n
        invariant
            n == v@.len(),
            v@ == s@,
            start <= n,
            strs_view(out@) + lines_from(v@, start as int) == lines_of(s@),
        decreases n - start,
    {
        let ghost before = strs_view(out@);
        let i: usize = find_char(&v, '\n', start);
        if i >= n {
            let line = string_of(&v, start, n);
            out.push(line);
            assert(strs_view(out@) =~= before.push(v@.subrange(start as int, n as int)));
            assert(before + lines_from(v@, start as int) =~= strs_view(out@) + lines_from(
                v@,
                n as int,
            ));
            start = n;
        } else {
            let end: usize = if i > start && v[i - 1] == '\r' {
                i - 1
            } else {
                i
            };
            assert(v@.subrange(start as int, end as int) =~= strip_cr(
                v@.subrange(start as int, i as int),
            ));
            let line = string_of(&v, start, end);
            out.push(line);
            assert(strs_view(out@) =~= before.push(v@.subrange(start as int, end as int)));
            assert(before + lines_from(v@, start as int) =~= strs_view(out@) + lines_from(
                v@,
                i + 1,
            ));
            start = i + 1;
        }
    }
    assert(strs_view(out@) + lines_from(v@, start as int) =~= strs_view(out@));
    out
}

/// Whether `c` is white space: the characters that Unicode gives the property
/// `White_Space`.
pub open spec fn is_whitespace_of(c: char) -> bool {
    let u = c as u32;
    ||| 0x09 <= u <= 0x0d
    ||| u == 0x20
    ||| u == 0x85
    ||| u == 0xa0
    ||| u == 0x1680
    ||| 0x2000 <= u <= 0x200a
    ||| u == 0x2028
    ||| u == 0x2029
    ||| u == 0x202f
    ||| u == 0x205f
    ||| u == 0x3000
}

/// `s` without the white space at its end.
pub open spec fn trim_end_of(s: Seq<char>) -> Seq<char>
    decreases s.len(),
{
    if s.len() > 0 && is_whitespace_of(s.last()) {
        trim_end_of(s.drop_last())
    } else {
        s
    }
}

/// What `trim_end_of` returns is a prefix of `s` that does not end in white space,
/// and all that it leaves out is white space.
pub proof fn lemma_trim_end(s: Seq<char>)
    ensures
        trim_end_of(s).len() <= s.len(),
        trim_end_of(s) == s.take(trim_end_of(s).len() as int),
        trim_end_of(s).len() > 0 ==> !is_whitespace_of(trim_end_of(s).last()),
        forall|j: int| trim_end_of(s).len() <= j < s.len() ==> is_whitespace_of(s[j]),
    decreases s.len(),
{
    if s.len() > 0 && is_whitespace_of(s.last()) {
        lemma_trim_end(s.drop_last());
        let t = trim_end_of(s);
        assert(s.drop_last().take(t.len() as int) =~= s.take(t.len() as int));
        assert forall|j: int| t.len() <= j < s.len() implies is_whitespace_of(s[j]) by {
            if j < s.len() - 1 {
                assert(s.drop_last()[j] == s[j]);
            }
        }
    } else {
        assert(s.take(s.len() as int) =~= s);
    }
}

/// Whether `c` is white space.
pub fn is_whitespace(c: char) -> (b: bool)
    ensures
        b == is_whitespace_of(c),
{
    let u: u32 = c as u32;
    (0x09 <= u && u <= 0x0d) || u == 0x20 || u == 0x85 || u == 0xa0 || u == 0x1680 || (0x2000 <= u
        && u <= 0x200a) || u == 0x2028 || u == 0x2029 || u == 0x202f || u == 0x205f || u == 0x3000
}

/// `s` without the white space at its end.
pub fn trim_end(s: &str) -> (out: String)
    ensures
        out@ == trim_end_of(s@),
{
    let v = chars_of(s);
    let mut end: usize = v.len();
    assert(v@.take(end as int) =~= v@);
    while end > 0 && is_whitespace(v[end - 1])
        invariant
            end <= v@.len(),
            trim_end_of(v@) == trim_end_of(v@.take(end as int)),
        decreases end,
    {
        assert(v@.take(end as int).drop_last() =~= v@.take(end - 1));
        end = end - 1;
    }
    assert(v@.take(end as int) =~= v@.subrange(0, end as int));
    string_of(&v, 0, end)
}

/// The decimal digit for `d`.
pub open spec fn digit_of(d: nat) -> char {
    if d == 0 {
        '0'
    } else if d == 1 {
        '1'
    } else if d == 2 {
        '2'
    } else if d == 3 {
        '3'
    } else if d == 4 {
        '4'
    } else if d == 5 {
        '5'
    } else if d == 6 {
        '6'
    } else if d == 7 {
        '7'
    } else if d == 8 {
        '8'
    } else {
        '9'
    }
}

/// `n` in decimal, without leading zeros.
pub open spec fn decimal_of(n: nat) -> Seq<char>
    decreases n,
{
    if n < 10 {
        seq![digit_of(n)]
    } else {
        decimal_of(n / 10).push(digit_of(n % 10))
    }
}

/// `i` in decimal, with a minus sign where it is negative.
pub open spec fn signed_decimal_of(i: int) -> Seq<char> {
    if i < 0 {
        seq!['-'] + decimal_of((-i) as nat)
    } else {
        decimal_of(i as nat)
    }
}

fn digit(d: u64) -> (c: char)
    requires
        d < 10,
    ensures
        c == digit_of(d as nat),
{
    if d == 0 {
        '0'
    } else if d == 1 {
        '1'
    } else if d == 2 {
        '2'
    } else if d == 3 {
        '3'
    } else if d == 4 {
        '4'
    } else if d == 5 {
        '5'
    } else if d == 6 {
        '6'
    } else if d == 7 {
        '7'
    } else if d == 8 {
        '8'
    } else {
        '9'
    }
}

/// `n` in decimal.
pub fn decimal(n: u64) -> (out: String)
    ensures
        out@ == decimal_of(n as nat),
    decreases n,
{
    if n < 10 {
        let mut out = String::new();
        push_char(&mut out, digit(n));
        assert(out@ =~= seq![digit_of(n as nat)]);
        out
    } else {
        let mut out = decimal(n / 10);
        push_char(&mut out, digit(n % 10));
        out
    }
}

/// `i` in decimal, with its sign.
pub fn signed_decimal(i: i64) -> (out: String)
    ensures
        out@ == signed_decimal_of(i as int),
{
    if i < 0 {
        let magnitude: u64 = if i == i64::MIN {
            9223372036854775808
        } else {
            (0 - i) as u64
        };
        let digits = decimal(magnitude);
        let mut out = String::new();
        push_char(&mut out, '-');
        out.append(digits.as_str());
        assert(out@ =~= seq!['-'] + digits@);
        out
    } else {
        decimal(i as u64)
    }
}

/// Whether `c` is one of the digits `0` to `9`.
pub open spec fn is_digit_of(c: char) -> bool {
    '0' <= c <= '9'
}

/// The value of the digit `c`.
pub open spec fn digit_value_of(c: char) -> nat {
    (c as u32 - '0' as u32) as nat
}

/// Whether `s` holds digits only.
pub open spec fn all_digits(s: Seq<char>) -> bool {
    forall|i: int| 0 <= i < s.len() ==> is_digit_of(#[trigger] s[i])
}

/// The number that the digits `s` write in decimal.
pub open spec fn digits_value(s: Seq<char>) -> nat
    decreases s.len(),
{
    if s.len() == 0 {
        0
    } else {
        digits_value(s.drop_last()) * 10 + digit_value_of(s.last())
    }
}

/// The digits of `s`: `s` without one leading plus sign.
pub open spec fn unsigned_digits(s: Seq<char>) -> Seq<char> {
    if s.len() > 0 && s[0] == '+' {
        s.skip(1)
    } else {
        s
    }
}

/// The number that `s` writes: an optional plus sign and then at least one digit,
/// the whole no greater than `u64::MAX`. Anything else is no number.
pub open spec fn parse_u64_of(s: Seq<char>) -> Option<u64> {
    let d = unsigned_digits(s);
    if d.len() > 0 && all_digits(d) && digits_value(d) <= u64::MAX {
        Some(digits_value(d) as u64)
    } else {
        None
    }
}

/// A number is no smaller than the number that fewer of its digits write.
pub proof fn lemma_digits_value_grows(s: Seq<char>, k: int)
    requires
        0 <= k <= s.len(),
    ensures
        digits_value(s.take(k)) <= digits_value(s),
    decreases s.len() - k,
{
    if k == s.len() {
        assert(s.take(k) =~= s);
    } else {
        lemma_digits_value_grows(s, k + 1);
        assert(s.take(k + 1).drop_last() =~= s.take(k));
    }
}

/// Reads a decimal number, as [`parse_u64_of`] defines it.
pub fn parse_u64(s: &str) -> (out: Option<u64>)
    ensures
        out == parse_u64_of(s@),
{
    let v = chars_of(s);
    let n: usize = v.len();
    let start: usize = if n > 0 && v[0] == '+' {
        1
    } else {
        0
    };
    let ghost d = unsigned_digits(v@);
    assert(d =~= v@.subrange(start as int, n as int));
    if start == n {
        return None;
    }
    let mut value: u64 = 0;
    let mut i: usize = start;
    assert(d.take(0) =~= Seq::<char>::empty());
    while i < n
        invariant
            start <= i <= n,
            n == v@.len(),
            v@ == s@,
            d == unsigned_digits(s@),
            d == v@.subrange(start as int, n as int),
            all_digits(d.take(i - start)),
            value == digits_value(d.take(i - start)),
        decreases n - i,
    {
        let c: char = v[i];
        assert(c == d[i - start]);
        if c < '0' || c > '9' {
            assert(!is_digit_of(d[i - start]));
            return None;
        }
        let dv: u64 = (c as u32 - '0' as u32) as u64;
        proof {
            assert(d.take(i - start + 1).drop_last() =~= d.take(i - start));
            assert(d.take(i - start + 1).last() == c);
            assert(digits_value(d.take(i - start + 1)) == value * 10 + dv);
            lemma_digits_value_grows(d, i - start + 1);
        }
        if value > (u64::MAX - dv) / 10 {
            return None;
        }
        value = value * 10 + dv;
        i = i + 1;
        assert forall|j: int| 0 <= j < d.take(i - start).len() implies is_digit_of(
            #[trigger] d.take(i - start)[j],
        ) by {
            if j < i - start - 1 {
                assert(d.take(i - start - 1)[j] == d.take(i - start)[j]);
            }
        }
    }
    assert(d.take(n - start) =~= d);
    Some(value)
}

/// Whether `a` comes before `b` from position `i` on, given that they agree before it.
pub open spec fn lt_from(a: Seq<char>, b: Seq<char>, i: int) -> bool
    decreases a.len() - i,
{
    if i >= b.len() {
        false
    } else if i >= a.len() {
        true
    } else if a[i] != b[i] {
        (a[i] as u32) < (b[i] as u32)
    } else {
        lt_from(a, b, i + 1)
    }
}

/// Whether `a` comes before `b` in the order of strings: at the first position
/// where they differ `a` has the smaller character, or `a` is a proper prefix of `b`.
pub open spec fn lt_of(a: Seq<char>, b: Seq<char>) -> bool {
    lt_from(a, b, 0)
}

/// Whether `a` comes before `b` in the order of strings.
pub fn str_lt(a: &str, b: &str) -> (r: bool)
    ensures
        r == lt_of(a@, b@),
{
    let x = chars_of(a);
    let y = chars_of(b);
    let mut i: usize = 0;
    while i < x.len() && i < y.len() && x[i] == y[i]
        invariant
            x@ == a@,
            y@ == b@,
            i <= x@.len(),
            i <= y@.len(),
            lt_of(a@, b@) == lt_from(a@, b@, i as int),
        decreases x@.len() - i,
    {
        i = i + 1;
    }
    if i >= y.len() {
        false
    } else if i >= x.len() {
        true
    } else {
        (x[i] as u32) < (y[i] as u32)
    }
}

proof fn lemma_lt_from_irreflexive(a: Seq<char>, i: int)
    requires
        0 <= i,
    ensures
        !lt_from(a, a, i),
    decreases a.len() - i,
{
    if i < a.len() {
        lemma_lt_from_irreflexive(a, i + 1);
    }
}

proof fn lemma_lt_from_asymmetric(a: Seq<char>, b: Seq<char>, i: int)
    requires
        0 <= i,
        lt_from(a, b, i),
    ensures
        !lt_from(b, a, i),
    decreases a.len() - i,
{
    if i < a.len() && i < b.len() && a[i] == b[i] {
        lemma_lt_from_asymmetric(a, b, i + 1);
    }
}

proof fn lemma_lt_from_transitive(a: Seq<char>, b: Seq<char>, c: Seq<char>, i: int)
    requires
        0 <= i,
        lt_from(a, b, i),
        lt_from(b, c, i),
    ensures
        lt_from(a, c, i),
    decreases a.len() - i,
{
    if i < a.len() && a[i] == b[i] && b[i] == c[i] {
        lemma_lt_from_transitive(a, b, c, i + 1);
    }
}

proof fn lemma_lt_from_total(a: Seq<char>, b: Seq<char>, i: int)
    requires
        0 <= i <= a.len(),
        i <= b.len(),
        forall|j: int| 0 <= j < i ==> a[j] == b[j],
    ensures
        lt_from(a, b, i) || lt_from(b, a, i) || a == b,
    decreases a.len() - i,
{
    if i < a.len() && i < b.len() {
        if a[i] == b[i] {
            lemma_lt_from_total(a, b, i + 1);
        } else {
            let x = a[i];
            let y = b[i];
            vstd::utf8::char_u32_cast(x, x as u32);
            vstd::utf8::char_u32_cast(y, y as u32);
        }
    } else if i == a.len() && i == b.len() {
        assert(a =~= b);
    }
}

/// No string comes before itself.
pub proof fn lemma_lt_irreflexive(a: Seq<char>)
    ensures
        !lt_of(a, a),
{
    lemma_lt_from_irreflexive(a, 0);
}

/// Of two strings at most one comes before the other.
pub proof fn lemma_lt_asymmetric(a: Seq<char>, b: Seq<char>)
    requires
        lt_of(a, b),
    ensures
        !lt_of(b, a),
{
    lemma_lt_from_asymmetric(a, b, 0);
}

/// The order of strings is transitive.
pub proof fn lemma_lt_transitive(a: Seq<char>, b: Seq<char>, c: Seq<char>)
    requires
        lt_of(a, b),
        lt_of(b, c),
    ensures
        lt_of(a, c),
{
    lemma_lt_from_transitive(a, b, c, 0);
}

/// Two different strings are ordered one way or the other.
pub proof fn lemma_lt_total(a: Seq<char>, b: Seq<char>)
    ensures
        lt_of(a, b) || lt_of(b, a) || a == b,
{
    lemma_lt_from_total(a, b, 0);
}

/// The parts one after the other, with `sep` between each two.
pub open spec fn joined_of(parts: Seq<Seq<char>>, sep: Seq<char>) -> Seq<char>
    decreases parts.len(),
{
    if parts.len() == 0 {
        Seq::empty()
    } else if parts.len() == 1 {
        parts[0]
    } else {
        joined_of(parts.drop_last(), sep) + sep + parts.last()
    }
}

/// The parts one after the other, with `sep` between each two.
pub fn join(parts: &Vec<String>, sep: &str) -> (out: String)
    ensures
        out@ == joined_of(strs_view(parts@), sep@),
{
    let mut out = String::new();
    let mut i: usize = 0;
    assert(strs_view(parts@).take(0) =~= Seq::<Seq<char>>::empty());
    while i < parts.len()
        invariant
            i <= parts@.len(),
            out@ == joined_of(strs_view(parts@).take(i as int), sep@),
        decreases parts@.len() - i,
    {
        let ghost upto = strs_view(parts@).take(i + 1);
        assert(upto.drop_last() =~= strs_view(parts@).take(i as int));
        assert(upto.last() == parts@[i as int]@);
        if i > 0 {
            out.append(sep);
        }
        out.append(parts[i].as_str());
        assert(out@ =~= joined_of(upto, sep@));
        i = i + 1;
    }
    assert(strs_view(parts@).take(i as int) =~= strs_view(parts@));
    out
}

/// The pieces of `s` from position `from` on: see [`split_of`].
pub open spec fn split_from(s: Seq<char>, c: char, from: int) -> Seq<Seq<char>>
    decreases s.len() - from,
{
    if from < 0 || from > s.len() {
        Seq::empty()
    } else {
        let i = find_from(s, c, from);
        if from <= i < s.len() {
            seq![s.subrange(from, i)] + split_from(s, c, i + 1)
        } else {
            seq![s.subrange(from, s.len() as int)]
        }
    }
}

/// The pieces into which the occurrences of `c` cut `s`; there is one more piece
/// than there are occurrences, and a piece may be empty.
pub open spec fn split_of(s: Seq<char>, c: char) -> Seq<Seq<char>> {
    split_from(s, c, 0)
}

/// The pieces into which the occurrences of `c` cut `s`.
pub fn split(s: &str, c: char) -> (out: Vec<String>)
    ensures
        strs_view(out@) == split_of(s@, c),
{
    let v = chars_of(s);
    let n: usize = v.len();
    let mut out: Vec<String> = Vec::new();
    let mut start: usize = 0;
    assert(strs_view(out@) =~= Seq::<Seq<char>>::empty());
    loop
        invariant
            n == v@.len(),
            v@ == s@,
            start <= n,
            strs_view(out@) + split_from(v@, c, start as int) == split_of(s@, c),
        decreases n - start,
    {
        let ghost before = strs_view(out@);
        let i: usize = find_char(&v, c, start);
        if i >= n {
            let piece = string_of(&v, start, n);
            out.push(piece);
            assert(strs_view(out@) =~= before.push(v@.subrange(start as int, n as int)));
            assert(strs_view(out@) =~= before + split_from(v@, c, start as int));
            return out;
        }
        let piece = string_of(&v, start, i);
        out.push(piece);
        assert(strs_view(out@) =~= before.push(v@.subrange(start as int, i as int)));
        assert(before + split_from(v@, c, start as int) =~= strs_view(out@) + split_from(
            v@,
            c,
            i + 1,
        ));
        start = i + 1;
    }
}

} // verus!
