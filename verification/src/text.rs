//! Character sequences: the text operations that the protocol rules are
//! stated with, each as a specification on `Seq<char>` and an executable
//! function on `&[char]` proved against it.

use vstd::prelude::*;

verus! {

/// `String::push`, which vstd leaves without a specification: the string
/// afterwards is the string before with `c` at its end.
pub assume_specification[ String::push ](s: &mut String, c: char)
    ensures
        final(s)@ == old(s)@.push(c),
;

/// The characters that Unicode gives the property `White_Space`.
pub open spec fn is_whitespace(c: char) -> bool {
    let u = c as u32;
    ||| 0x09 <= u <= 0x0D
    ||| u == 0x20
    ||| u == 0x85
    ||| u == 0xA0
    ||| u == 0x1680
    ||| 0x2000 <= u <= 0x200A
    ||| u == 0x2028
    ||| u == 0x2029
    ||| u == 0x202F
    ||| u == 0x205F
    ||| u == 0x3000
}

/// `s` begins with `prefix`.
pub open spec fn starts_with(s: Seq<char>, prefix: Seq<char>) -> bool {
    prefix.len() <= s.len() && s.subrange(0, prefix.len() as int) == prefix
}

/// `s` ends with `suffix`.
pub open spec fn ends_with(s: Seq<char>, suffix: Seq<char>) -> bool {
    suffix.len() <= s.len() && s.subrange(s.len() - suffix.len(), s.len() as int) == suffix
}

/// `s` without its leading white space.
pub open spec fn trim_start(s: Seq<char>) -> Seq<char>
    decreases s.len(),
{
    if s.len() > 0 && is_whitespace(s[0]) {
        trim_start(s.subrange(1, s.len() as int))
    } else {
        s
    }
}

/// `s` without its trailing white space.
pub open spec fn trim_end(s: Seq<char>) -> Seq<char>
    decreases s.len(),
{
    if s.len() > 0 && is_whitespace(s.last()) {
        trim_end(s.drop_last())
    } else {
        s
    }
}

/// `s` without its leading and trailing white space.
pub open spec fn trim(s: Seq<char>) -> Seq<char> {
    trim_end(trim_start(s))
}

/// `s` after `prefix` has been taken from its front as often as it stands
/// there. An empty `prefix` takes nothing.
pub open spec fn strip_repeated_prefix(s: Seq<char>, prefix: Seq<char>) -> Seq<char>
    decreases s.len(),
{
    if prefix.len() > 0 && starts_with(s, prefix) {
        strip_repeated_prefix(s.subrange(prefix.len() as int, s.len() as int), prefix)
    } else {
        s
    }
}

/// Whether `c` is white space.
pub fn char_is_whitespace(c: char) -> (r: bool)
    ensures
        r == is_whitespace(c),
{
    let u: u32 = c as u32;
    (0x09 <= u && u <= 0x0D) || u == 0x20 || u == 0x85 || u == 0xA0 || u == 0x1680 || (0x2000 <= u
        && u <= 0x200A) || u == 0x2028 || u == 0x2029 || u == 0x202F || u == 0x205F || u == 0x3000
}

/// The characters of a string slice, in order.
pub fn chars_of(s: &str) -> (v: Vec<char>)
    ensures
        v@ == s@,
{
    let mut v: Vec<char> = Vec::new();
    for c in it: s.chars()
        invariant
            it.seq() == s@,
            v@ == s@.take(it.index() as int),
    {
        v.push(c);
    }
    v
}

/// The string made of the given characters, in order.
pub fn string_of(v: &[char]) -> (s: String)
    ensures
        s@ == v@,
{
    let mut s = String::new();
    let mut i: usize = 0;
    while i < v.len()
        invariant
            i <= v.len(),
            s@ == v@.take(i as int),
        decreases v.len() - i,
    {
        s.push(v[i]);
        i = i + 1;
    }
    s
}

/// The characters of `v` from index `from` up to `to`.
pub fn subvec(v: &[char], from: usize, to: usize) -> (r: Vec<char>)
    requires
        from <= to <= v.len(),
    ensures
        r@ == v@.subrange(from as int, to as int),
{
    let mut r: Vec<char> = Vec::new();
    let mut i: usize = from;
    while i < to
        invariant
            from <= i <= to <= v.len(),
            r@ == v@.subrange(from as int, i as int),
        decreases to - i,
    {
        r.push(v[i]);
        i = i + 1;
    }
    r
}

/// Whether two character slices hold the same characters.
pub fn same_chars(a: &[char], b: &[char]) -> (r: bool)
    ensures
        r == (a@ == b@),
{
    if a.len() != b.len() {
        return false;
    }
    let mut i: usize = 0;
    while i < a.len()
        invariant
            i <= a.len(),
            a.len() == b.len(),
            a@.take(i as int) == b@.take(i as int),
        decreases a.len() - i,
    {
        if a[i] != b[i] {
            return false;
        }
        i = i + 1;
        assert(a@.take(i as int) == a@.take(i - 1).push(a@[i - 1]));
        assert(b@.take(i as int) == b@.take(i - 1).push(b@[i - 1]));
    }
    assert(a@ == a@.take(a.len() as int));
    assert(b@ == b@.take(b.len() as int));
    true
}

/// Whether `s` begins with `prefix`.
pub fn has_prefix(s: &[char], prefix: &[char]) -> (r: bool)
    ensures
        r == starts_with(s@, prefix@),
{
    if prefix.len() > s.len() {
        return false;
    }
    let mut i: usize = 0;
    while i < prefix.len()
        invariant
            i <= prefix.len() <= s.len(),
            s@.subrange(0, i as int) == prefix@.subrange(0, i as int),
        decreases prefix.len() - i,
    {
        if s[i] != prefix[i] {
            assert(s@.subrange(0, prefix.len() as int)[i as int] != prefix@[i as int]);
            return false;
        }
        i = i + 1;
        assert(s@.subrange(0, i as int) == s@.subrange(0, i - 1).push(s@[i - 1]));
        assert(prefix@.subrange(0, i as int) == prefix@.subrange(0, i - 1).push(prefix@[i - 1]));
    }
    assert(prefix@ == prefix@.subrange(0, prefix.len() as int));
    true
}

/// Whether `s` ends with `suffix`.
pub fn has_suffix(s: &[char], suffix: &[char]) -> (r: bool)
    ensures
        r == ends_with(s@, suffix@),
{
    if suffix.len() > s.len() {
        return false;
    }
    let base: usize = s.len() - suffix.len();
    let mut i: usize = 0;
    while i < suffix.len()
        invariant
            i <= suffix.len() <= s.len(),
            base == s.len() - suffix.len(),
            s@.subrange(base as int, base + i) == suffix@.subrange(0, i as int),
        decreases suffix.len() - i,
    {
        if s[base + i] != suffix[i] {
            assert(s@.subrange(base as int, s.len() as int)[i as int] != suffix@[i as int]);
            return false;
        }
        i = i + 1;
        assert(s@.subrange(base as int, base + i) == s@.subrange(base as int, base + i - 1).push(
            s@[base + i - 1],
        ));
        assert(suffix@.subrange(0, i as int) == suffix@.subrange(0, i - 1).push(suffix@[i - 1]));
    }
    assert(suffix@ == suffix@.subrange(0, suffix.len() as int));
    true
}

/// `s` without its leading and trailing white space.
pub fn trimmed(s: &[char]) -> (r: Vec<char>)
    ensures
        r@ == trim(s@),
{
    let n: usize = s.len();
    let mut a: usize = 0;
    assert(s@.subrange(0, n as int) == s@);
    while a < n && char_is_whitespace(s[a])
        invariant
            a <= n == s.len(),
            trim_start(s@) == trim_start(s@.subrange(a as int, n as int)),
        decreases n - a,
    {
        assert(s@.subrange(a as int, n as int).subrange(1, n - a) == s@.subrange(a + 1, n as int));
        a = a + 1;
    }
    let mut b: usize = n;
    while b > a && char_is_whitespace(s[b - 1])
        invariant
            a <= b <= n == s.len(),
            trim(s@) == trim_end(s@.subrange(a as int, b as int)),
        decreases b,
    {
        assert(s@.subrange(a as int, b as int).drop_last() == s@.subrange(a as int, b - 1));
        b = b - 1;
    }
    subvec(s, a, b)
}

/// `s` after `prefix` has been taken from its front as often as it stands
/// there.
pub fn without_repeated_prefix(s: &[char], prefix: &[char]) -> (r: Vec<char>)
    ensures
        r@ == strip_repeated_prefix(s@, prefix@),
{
    let n: usize = s.len();
    let mut pos: usize = 0;
    assert(s@.subrange(0, n as int) == s@);
    if prefix.len() > 0 {
        while has_prefix(&s[pos..n], prefix)
            invariant
                pos <= n == s.len(),
                prefix.len() > 0,
                strip_repeated_prefix(s@, prefix@) == strip_repeated_prefix(
                    s@.subrange(pos as int, n as int),
                    prefix@,
                ),
            decreases n - pos,
        {
            assert(s@.subrange(pos as int, n as int).subrange(prefix.len() as int, n - pos)
                == s@.subrange(pos + prefix.len(), n as int));
            pos = pos + prefix.len();
        }
    }
    subvec(s, pos, n)
}

/// The views of the vectors of `v`, in order.
pub open spec fn views(v: Seq<Vec<char>>) -> Seq<Seq<char>> {
    Seq::new(v.len(), |i: int| v[i]@)
}

/// `line` without one carriage return at its end.
pub open spec fn strip_cr(line: Seq<char>) -> Seq<char> {
    if line.len() > 0 && line.last() == '\r' {
        line.drop_last()
    } else {
        line
    }
}

/// How many characters of `s` stand before the first `c` in it: all of them
/// where `c` is not in `s`.
pub open spec fn len_before(s: Seq<char>, c: char) -> nat
    decreases s.len(),
{
    if s.len() == 0 || s[0] == c {
        0
    } else {
        1 + len_before(s.subrange(1, s.len() as int), c)
    }
}

/// The lines of `s`. A line ends at a line feed; the line feed, and one
/// carriage return before it, are not part of the line. Text after the last
/// line feed is a line of its own, kept as it is; an empty string has no
/// lines.
pub open spec fn lines(s: Seq<char>) -> Seq<Seq<char>>
    decreases s.len(),
{
    let n = len_before(s, '\n') as int;
    if s.len() == 0 {
        Seq::empty()
    } else if n >= s.len() {
        seq![s]
    } else {
        seq![strip_cr(s.take(n))] + lines(s.skip(n + 1))
    }
}

/// The pieces into which the separator cuts `s`: one more than there are
/// separators, any of them possibly empty.
pub open spec fn split(s: Seq<char>, sep: char) -> Seq<Seq<char>>
    decreases s.len(),
{
    let n = len_before(s, sep) as int;
    if n >= s.len() {
        seq![s]
    } else {
        seq![s.take(n)] + split(s.skip(n + 1), sep)
    }
}

/// Where the first `c` of `s` stands at index `k`, or `s` has `k` characters
/// and no `c`, `k` characters stand before the first `c`.
pub proof fn lemma_len_before(s: Seq<char>, c: char, k: int)
    requires
        0 <= k <= s.len(),
        forall|i: int| 0 <= i < k ==> s[i] != c,
        k < s.len() ==> s[k] == c,
    ensures
        len_before(s, c) == k,
    decreases k,
{
    if k > 0 {
        lemma_len_before(s.subrange(1, s.len() as int), c, k - 1);
    }
}

/// A separator cuts a sequence into one piece at least.
pub proof fn lemma_split_is_not_empty(s: Seq<char>, sep: char)
    ensures
        split(s, sep).len() >= 1,
{
}

/// The lines of `s`.
pub fn split_lines(s: &[char]) -> (r: Vec<Vec<char>>)
    ensures
        views(r@) == lines(s@),
{
    let n: usize = s.len();
    let mut r: Vec<Vec<char>> = Vec::new();
    let mut start: usize = 0;
    let mut pos: usize = 0;
    assert(s@.skip(0) == s@);
    while pos < n
        invariant
            start <= pos <= n == s.len(),
            forall|i: int| start <= i < pos ==> s@[i] != '\n',
            lines(s@) == views(r@) + lines(s@.skip(start as int)),
        decreases n - pos,
    {
        if s[pos] == '\n' {
            let end: usize = if pos > start && s[pos - 1] == '\r' {
                pos - 1
            } else {
                pos
            };
            let line = subvec(s, start, end);
            let ghost before = r@;
            r.push(line);
            proof {
                let rest = s@.skip(start as int);
                lemma_len_before(rest, '\n', pos - start);
                assert(rest.take(pos - start) == s@.subrange(start as int, pos as int));
                assert(rest.skip(pos - start + 1) == s@.skip(pos + 1));
                assert(line@ == strip_cr(s@.subrange(start as int, pos as int)));
                assert(views(r@) == views(before) + seq![line@]);
            }
            start = pos + 1;
        }
        pos = pos + 1;
    }
    if start < n {
        let line = subvec(s, start, n);
        let ghost before = r@;
        r.push(line);
        proof {
            let rest = s@.skip(start as int);
            lemma_len_before(rest, '\n', n - start);
            assert(line@ == rest);
            assert(views(r@) == views(before) + seq![line@]);
        }
    }
    r
}

/// The pieces into which the separator cuts `s`.
pub fn split_chars(s: &[char], sep: char) -> (r: Vec<Vec<char>>)
    ensures
        views(r@) == split(s@, sep),
{
    let n: usize = s.len();
    let mut r: Vec<Vec<char>> = Vec::new();
    let mut start: usize = 0;
    let mut pos: usize = 0;
    assert(s@.skip(0) == s@);
    while pos < n
        invariant
            start <= pos <= n == s.len(),
            forall|i: int| start <= i < pos ==> s@[i] != sep,
            split(s@, sep) == views(r@) + split(s@.skip(start as int), sep),
        decreases n - pos,
    {
        if s[pos] == sep {
            let piece = subvec(s, start, pos);
            let ghost before = r@;
            r.push(piece);
            proof {
                let rest = s@.skip(start as int);
                lemma_len_before(rest, sep, pos - start);
                assert(rest.take(pos - start) == s@.subrange(start as int, pos as int));
                assert(rest.skip(pos - start + 1) == s@.skip(pos + 1));
                assert(views(r@) == views(before) + seq![piece@]);
            }
            start = pos + 1;
        }
        pos = pos + 1;
    }
    let piece = subvec(s, start, n);
    let ghost before = r@;
    r.push(piece);
    proof {
        let rest = s@.skip(start as int);
        lemma_len_before(rest, sep, n - start);
        assert(piece@ == rest);
        assert(views(r@) == views(before) + seq![piece@]);
    }
    r
}

/// A decimal digit.
pub open spec fn is_digit(c: char) -> bool {
    '0' <= c <= '9'
}

/// The number that a decimal digit stands for.
pub open spec fn digit_value(c: char) -> nat {
    (c as u32 - '0' as u32) as nat
}

/// Every character of `s` is a decimal digit.
pub open spec fn all_digits(s: Seq<char>) -> bool {
    forall|i: int| 0 <= i < s.len() ==> is_digit(#[trigger] s[i])
}

/// The number that a sequence of decimal digits stands for.
pub open spec fn decimal_value(s: Seq<char>) -> nat
    decreases s.len(),
{
    if s.len() == 0 {
        0
    } else {
        decimal_value(s.drop_last()) * 10 + digit_value(s.last())
    }
}

/// The integer that `s` is the decimal numeral of: an optional sign, `+` or
/// `-`, then one digit or more and nothing else.
pub open spec fn parse_int(s: Seq<char>) -> Option<int> {
    let signed = s.len() > 0 && (s[0] == '-' || s[0] == '+');
    let digits = if signed {
        s.subrange(1, s.len() as int)
    } else {
        s
    };
    if digits.len() > 0 && all_digits(digits) {
        if s[0] == '-' {
            Some(-(decimal_value(digits) as int))
        } else {
            Some(decimal_value(digits) as int)
        }
    } else {
        None
    }
}

/// The `i32` that `s` is the decimal numeral of, if it is one and the number
/// fits.
pub open spec fn parse_i32(s: Seq<char>) -> Option<i32> {
    match parse_int(s) {
        Some(v) => if i32::MIN <= v <= i32::MAX {
            Some(v as i32)
        } else {
            None
        },
        None => None,
    }
}

proof fn lemma_decimal_value_step(s: Seq<char>, k: int)
    requires
        0 <= k < s.len(),
    ensures
        decimal_value(s.take(k + 1)) == decimal_value(s.take(k)) * 10 + digit_value(s[k]),
        all_digits(s.take(k)) && is_digit(s[k]) ==> all_digits(s.take(k + 1)),
{
    assert(s.take(k + 1).drop_last() == s.take(k));
    assert(s.take(k + 1).last() == s[k]);
}

/// The number that the digits of `s` from index `first` on stand for, cut off
/// at 2^31 + 1; `None` where there is no digit or something else than digits.
fn parse_magnitude(s: &[char], first: usize) -> (r: Option<u64>)
    requires
        first <= s.len(),
    ensures
        ({
            let digits = s@.subrange(first as int, s.len() as int);
            &&& r is Some <==> digits.len() > 0 && all_digits(digits)
            &&& r matches Some(v) ==> v == if decimal_value(digits) <= 0x8000_0000 {
                decimal_value(digits)
            } else {
                0x8000_0001
            }
        }),
{
    let n: usize = s.len();
    if first == n {
        return None;
    }
    let ghost digits = s@.subrange(first as int, n as int);
    let mut acc: u64 = 0;
    let mut i: usize = first;
    while i < n
        invariant
            first <= i <= n == s.len(),
            digits == s@.subrange(first as int, n as int),
            all_digits(digits.take(i - first)),
            acc <= 0x8000_0001,
            acc == if decimal_value(digits.take(i - first)) <= 0x8000_0000 {
                decimal_value(digits.take(i - first))
            } else {
                0x8000_0001
            },
        decreases n - i,
    {
        let c: char = s[i];
        proof {
            lemma_decimal_value_step(digits, i - first);
        }
        if !('0' <= c && c <= '9') {
            assert(!is_digit(digits[i - first]));
            return None;
        }
        let d: u64 = (c as u32 - '0' as u32) as u64;
        acc = acc * 10 + d;
        if acc > 0x8000_0000 {
            acc = 0x8000_0001;
        }
        i = i + 1;
    }
    assert(digits.take(n - first) == digits);
    Some(acc)
}

/// The `i32` that `s` is the decimal numeral of.
pub fn parse_decimal_i32(s: &[char]) -> (r: Option<i32>)
    ensures
        r == parse_i32(s@),
{
    let n: usize = s.len();
    if n == 0 {
        return None;
    }
    let negative: bool = s[0] == '-';
    let first: usize = if s[0] == '-' || s[0] == '+' {
        1
    } else {
        0
    };
    assert(s@.subrange(0, n as int) == s@);
    match parse_magnitude(s, first) {
        None => None,
        Some(v) => {
            if negative {
                if v <= 0x8000_0000 {
                    let m: i64 = -(v as i64);
                    Some(m as i32)
                } else {
                    None
                }
            } else if v < 0x8000_0000 {
                Some(v as i32)
            } else {
                None
            }
        },
    }
}

/// The hexadecimal digit for a number below 16, in upper case.
pub open spec fn hex_digit(n: u8) -> char {
    if n < 10 {
        (48 + n) as u8 as char
    } else {
        (55 + n) as u8 as char
    }
}

/// A byte as two hexadecimal digits.
pub open spec fn hex_byte(b: u8) -> Seq<char> {
    seq![hex_digit(b / 16), hex_digit(b % 16)]
}

/// The bytes as two hexadecimal digits each, with a comma and a space
/// between one byte and the next.
pub open spec fn hex_items(bytes: Seq<u8>) -> Seq<char>
    decreases bytes.len(),
{
    if bytes.len() == 0 {
        Seq::empty()
    } else if bytes.len() == 1 {
        hex_byte(bytes[0])
    } else {
        hex_items(bytes.drop_last()) + seq![',', ' '] + hex_byte(bytes.last())
    }
}

/// The bytes as a list in square brackets, such as `[0A, FF]`.
pub open spec fn hex_list(bytes: Seq<u8>) -> Seq<char> {
    seq!['['] + hex_items(bytes) + seq![']']
}

fn hex_digit_char(n: u8) -> (c: char)
    requires
        n < 16,
    ensures
        c == hex_digit(n),
{
    if n < 10 {
        (48 + n) as char
    } else {
        (55 + n) as char
    }
}

/// Appends to `out` the bytes as a list in square brackets, such as
/// `[0A, FF]`.
pub fn push_hex_list(out: &mut String, bytes: &[u8])
    ensures
        final(out)@ == old(out)@ + hex_list(bytes@),
{
    out.push('[');
    let mut i: usize = 0;
    while i < bytes.len()
        invariant
            i <= bytes.len(),
            out@ == old(out)@ + seq!['['] + hex_items(bytes@.take(i as int)),
        decreases bytes.len() - i,
    {
        let ghost before = out@;
        if i > 0 {
            out.push(',');
            out.push(' ');
        }
        let b: u8 = bytes[i];
        out.push(hex_digit_char(b / 16));
        out.push(hex_digit_char(b % 16));
        proof {
            let next = bytes@.take(i + 1);
            assert(next.drop_last() == bytes@.take(i as int));
            assert(next.last() == b);
            if i > 0 {
                assert(out@ == before + seq![',', ' '] + hex_byte(b));
            } else {
                assert(out@ == before + hex_byte(b));
            }
        }
        i = i + 1;
    }
    assert(bytes@.take(bytes.len() as int) == bytes@);
    out.push(']');
}

} // verus!
