//! Character and string helpers: whitespace, trimming, decimal numbers and
//! concatenation, each described on the sequence of characters of a string.
use vstd::prelude::*;
use vstd::utf8::encode_utf8_decode_utf8;

verus! {

/// `String::push` of std: appends one character.
pub assume_specification[ std::string::String::push ](s: &mut std::string::String, c: char)
    ensures
        final(s)@ == old(s)@.push(c),
;

// ---------------------------------------------------------------------------
// Between strings and characters
// ---------------------------------------------------------------------------
/// The characters of `s`, in order.
pub fn to_chars(s: &str) -> (r: Vec<char>)
    ensures
        r@ == s@,
{
    let mut r: Vec<char> = Vec::new();
    for c in it: s.chars()
        invariant
            r@ == it.seq().take(it.index() as int),
            it.seq() == s@,
    {
        r.push(c);
    }
    proof {
        assert(r@ =~= s@);
    }
    r
}

/// The string made of `chars`.
pub fn from_chars(chars: &[char]) -> (r: String)
    ensures
        r@ == chars@,
{
    let mut r: String = String::new();
    let mut i: usize = 0;
    while i < chars.len()
        invariant
            i <= chars@.len(),
            r@ == chars@.take(i as int),
        decreases chars@.len() - i,
    {
        r.push(chars[i]);
        proof {
            assert(chars@.take(i as int).push(chars@[i as int]) =~= chars@.take(i + 1));
        }
        i = i + 1;
    }
    proof {
        assert(chars@.take(chars@.len() as int) =~= chars@);
    }
    r
}

/// Whether two byte sequences are the same.
fn bytes_equal(a: &[u8], b: &[u8]) -> (r: bool)
    ensures
        r == (a@ == b@),
{
    if a.len() != b.len() {
        return false;
    }
    let mut i: usize = 0;
    while i < a.len()
        invariant
            i <= a@.len(),
            a@.len() == b@.len(),
            a@.take(i as int) == b@.take(i as int),
        decreases a@.len() - i,
    {
        if a[i] != b[i] {
            return false;
        }
        proof {
            assert(a@.take(i + 1) =~= a@.take(i as int).push(a@[i as int]));
            assert(b@.take(i + 1) =~= b@.take(i as int).push(b@[i as int]));
        }
        i = i + 1;
    }
    proof {
        assert(a@.take(a@.len() as int) =~= a@);
        assert(b@.take(b@.len() as int) =~= b@);
    }
    true
}

/// Whether two strings hold the same characters.
pub fn str_equal(a: &str, b: &str) -> (r: bool)
    ensures
        r == (a@ == b@),
{
    proof {
        encode_utf8_decode_utf8(a@);
        encode_utf8_decode_utf8(b@);
    }
    bytes_equal(a.as_bytes(), b.as_bytes())
}

/// A copy of `s` as an owned string.
pub fn owned(s: &str) -> (r: String)
    ensures
        r@ == s@,
{
    s.to_owned()
}

/// `a` followed by `b`.
pub fn cat2(a: &str, b: &str) -> (r: String)
    ensures
        r@ == a@ + b@,
{
    let mut r: String = a.to_owned();
    r.append(b);
    r
}

/// `a`, `b` and `c`, one after the other.
pub fn cat3(a: &str, b: &str, c: &str) -> (r: String)
    ensures
        r@ == a@ + b@ + c@,
{
    let mut r: String = cat2(a, b);
    r.append(c);
    r
}

/// Four strings, one after the other.
pub fn cat4(a: &str, b: &str, c: &str, d: &str) -> (r: String)
    ensures
        r@ == a@ + b@ + c@ + d@,
{
    let mut r: String = cat3(a, b, c);
    r.append(d);
    r
}

/// Five strings, one after the other.
pub fn cat5(a: &str, b: &str, c: &str, d: &str, e: &str) -> (r: String)
    ensures
        r@ == a@ + b@ + c@ + d@ + e@,
{
    let mut r: String = cat4(a, b, c, d);
    r.append(e);
    r
}

/// Six strings, one after the other.
pub fn cat6(a: &str, b: &str, c: &str, d: &str, e: &str, f: &str) -> (r: String)
    ensures
        r@ == a@ + b@ + c@ + d@ + e@ + f@,
{
    let mut r: String = cat5(a, b, c, d, e);
    r.append(f);
    r
}

/// Seven strings, one after the other.
pub fn cat7(a: &str, b: &str, c: &str, d: &str, e: &str, f: &str, g: &str) -> (r: String)
    ensures
        r@ == a@ + b@ + c@ + d@ + e@ + f@ + g@,
{
    let mut r: String = cat6(a, b, c, d, e, f);
    r.append(g);
    r
}

/// The strings `parts` with `separator` between each two neighbours.
pub open spec fn joined(parts: Seq<Seq<char>>, separator: Seq<char>) -> Seq<char>
    decreases parts.len(),
{
    if parts.len() == 0 {
        Seq::empty()
    } else if parts.len() == 1 {
        parts[0]
    } else {
        joined(parts.drop_last(), separator) + separator + parts.last()
    }
}

/// The sequence of the views of `parts`.
pub open spec fn string_views(parts: Seq<String>) -> Seq<Seq<char>> {
    Seq::new(parts.len(), |i: int| parts[i]@)
}

/// Joins `parts`, with `separator` between each two neighbours.
pub fn join(parts: &Vec<String>, separator: &str) -> (r: String)
    ensures
        r@ == joined(string_views(parts@), separator@),
{
    let mut r: String = String::new();
    let mut i: usize = 0;
    while i < parts.len()
        invariant
            i <= parts@.len(),
            r@ == joined(string_views(parts@).take(i as int), separator@),
        decreases parts@.len() - i,
    {
        let ghost prefix = string_views(parts@).take(i + 1);
        proof {
            assert(prefix.drop_last() =~= string_views(parts@).take(i as int));
            assert(prefix.last() == parts@[i as int]@);
        }
        if i > 0 {
            r.append(separator);
        } else {
            proof {
                assert(r@ =~= Seq::<char>::empty());
                assert(Seq::<char>::empty() + parts@[0]@ =~= parts@[0]@);
            }
        }
        r.append(parts[i].as_str());
        i = i + 1;
    }
    proof {
        assert(string_views(parts@).take(parts@.len() as int) =~= string_views(parts@));
    }
    r
}

// ---------------------------------------------------------------------------
// Classes of characters
// ---------------------------------------------------------------------------
/// Whether `c` has the Unicode property `White_Space`.
pub open spec fn whitespace(c: char) -> bool {
    ||| '\u{9}' <= c <= '\u{d}'
    ||| c == ' '
    ||| c == '\u{85}'
    ||| c == '\u{a0}'
    ||| c == '\u{1680}'
    ||| '\u{2000}' <= c <= '\u{200a}'
    ||| c == '\u{2028}'
    ||| c == '\u{2029}'
    ||| c == '\u{202f}'
    ||| c == '\u{205f}'
    ||| c == '\u{3000}'
}

/// Whether `c` is whitespace.
pub fn is_whitespace(c: char) -> (r: bool)
    ensures
        r == whitespace(c),
{
    ('\u{9}' <= c && c <= '\u{d}') || c == ' ' || c == '\u{85}' || c == '\u{a0}' || c
        == '\u{1680}' || ('\u{2000}' <= c && c <= '\u{200a}') || c == '\u{2028}' || c == '\u{2029}'
        || c == '\u{202f}' || c == '\u{205f}' || c == '\u{3000}'
}

/// Whether `c` is an ASCII punctuation character: a printable ASCII character
/// that is neither a letter, nor a digit, nor the space.
pub open spec fn ascii_punctuation(c: char) -> bool {
    ||| '!' <= c <= '/'
    ||| ':' <= c <= '@'
    ||| '[' <= c <= '`'
    ||| '{' <= c <= '~'
}

/// Whether `c` is an ASCII punctuation character.
pub fn is_ascii_punctuation(c: char) -> (r: bool)
    ensures
        r == ascii_punctuation(c),
{
    ('!' <= c && c <= '/') || (':' <= c && c <= '@') || ('[' <= c && c <= '`') || ('{' <= c && c
        <= '~')
}

/// Whether `c` is one of `0` to `9`.
pub open spec fn ascii_digit(c: char) -> bool {
    '0' <= c <= '9'
}

/// Whether `c` is one of `0` to `9`.
pub fn is_ascii_digit(c: char) -> (r: bool)
    ensures
        r == ascii_digit(c),
{
    '0' <= c && c <= '9'
}

/// `c` in lower case, where it is an ASCII letter.
pub open spec fn ascii_lower(c: char) -> char {
    if 'A' <= c <= 'Z' {
        ((c as u32) + 32) as char
    } else {
        c
    }
}

/// `c` in lower case, where it is an ASCII letter.
pub fn to_ascii_lower(c: char) -> (r: char)
    ensures
        r == ascii_lower(c),
{
    match c {
        'A' => 'a',
        'B' => 'b',
        'C' => 'c',
        'D' => 'd',
        'E' => 'e',
        'F' => 'f',
        'G' => 'g',
        'H' => 'h',
        'I' => 'i',
        'J' => 'j',
        'K' => 'k',
        'L' => 'l',
        'M' => 'm',
        'N' => 'n',
        'O' => 'o',
        'P' => 'p',
        'Q' => 'q',
        'R' => 'r',
        'S' => 's',
        'T' => 't',
        'U' => 'u',
        'V' => 'v',
        'W' => 'w',
        'X' => 'x',
        'Y' => 'y',
        'Z' => 'z',
        _ => c,
    }
}

/// The lowercase mapping of `c`, as `char::to_lowercase` of std gives it.
pub uninterp spec fn char_lowercase(c: char) -> Seq<char>;

/// `char::to_lowercase` of std: the characters of the lowercase mapping of
/// `c`, which depends on `c` alone. Of the ASCII characters, `A` to `Z` become
/// `a` to `z`, and the others stay.
#[verifier::external_body]
fn lowercase_chars(c: char) -> (r: Vec<char>)
    ensures
        r@ == char_lowercase(c),
        c <= '\u{7f}' ==> r@ == seq![ascii_lower(c)],
{
    c.to_lowercase().collect()
}

/// `c` in lower case.
pub open spec fn lowered_char(c: char) -> Seq<char> {
    if c <= '\u{7f}' {
        seq![ascii_lower(c)]
    } else {
        char_lowercase(c)
    }
}

/// `c` in lower case.
pub fn lower_char(c: char) -> (r: Vec<char>)
    ensures
        r@ == lowered_char(c),
{
    lowercase_chars(c)
}

// ---------------------------------------------------------------------------
// Trimming
// ---------------------------------------------------------------------------
/// `s` without its leading whitespace.
pub open spec fn trimmed_start(s: Seq<char>) -> Seq<char>
    decreases s.len(),
{
    if s.len() > 0 && whitespace(s[0]) {
        trimmed_start(s.drop_first())
    } else {
        s
    }
}

/// `s` without its trailing whitespace.
pub open spec fn trimmed_end(s: Seq<char>) -> Seq<char>
    decreases s.len(),
{
    if s.len() > 0 && whitespace(s.last()) {
        trimmed_end(s.drop_last())
    } else {
        s
    }
}

/// `s` without whitespace at either end.
pub open spec fn trimmed(s: Seq<char>) -> Seq<char> {
    trimmed_end(trimmed_start(s))
}

/// Trims a sequence of characters at both ends.
pub fn trim_chars(s: &[char]) -> (r: Vec<char>)
    ensures
        r@ == trimmed(s@),
{
    let mut start: usize = 0;
    proof {
        assert(s@.skip(0) =~= s@);
    }
    while start < s.len() && is_whitespace(s[start])
        invariant
            start <= s@.len(),
            trimmed_start(s@) == trimmed_start(s@.skip(start as int)),
        decreases s@.len() - start,
    {
        proof {
            assert(s@.skip(start as int).drop_first() =~= s@.skip(start + 1));
        }
        start = start + 1;
    }
    let ghost rest = s@.skip(start as int);
    proof {
        assert(trimmed_start(s@) == rest);
    }
    let mut end: usize = s.len();
    while end > start && is_whitespace(s[end - 1])
        invariant
            start <= end <= s@.len(),
            rest == s@.skip(start as int),
            trimmed_end(rest) == trimmed_end(s@.subrange(start as int, end as int)),
        decreases end,
    {
        proof {
            assert(s@.subrange(start as int, end as int).drop_last() =~= s@.subrange(
                start as int,
                end - 1,
            ));
        }
        end = end - 1;
    }
    let mut r: Vec<char> = Vec::new();
    let mut i: usize = start;
    while i < end
        invariant
            start <= i <= end <= s@.len(),
            r@ == s@.subrange(start as int, i as int),
        decreases end - i,
    {
        r.push(s[i]);
        proof {
            assert(s@.subrange(start as int, i as int).push(s@[i as int]) =~= s@.subrange(
                start as int,
                i + 1,
            ));
        }
        i = i + 1;
    }
    r
}

/// `s` without whitespace at either end.
pub fn trim(s: &str) -> (r: String)
    ensures
        r@ == trimmed(s@),
{
    let chars = to_chars(s);
    let kept = trim_chars(chars.as_slice());
    from_chars(kept.as_slice())
}

// ---------------------------------------------------------------------------
// Decimal numbers
// ---------------------------------------------------------------------------
/// The character for the digit `d`, which is below ten.
pub open spec fn digit_char(d: int) -> char {
    ('0' as int + d) as char
}

/// `n` written in decimal, without leading zeros.
pub open spec fn decimal(n: nat) -> Seq<char>
    decreases n,
{
    if n < 10 {
        seq![digit_char(n as int)]
    } else {
        decimal(n / 10).push(digit_char(n as int % 10))
    }
}

fn digit(d: u64) -> (c: char)
    requires
        d < 10,
    ensures
        c == digit_char(d as int),
{
    match d {
        0 => '0',
        1 => '1',
        2 => '2',
        3 => '3',
        4 => '4',
        5 => '5',
        6 => '6',
        7 => '7',
        8 => '8',
        _ => '9',
    }
}

/// `n` written in decimal.
pub fn format_u64(n: u64) -> (r: String)
    ensures
        r@ == decimal(n as nat),
    decreases n,
{
    if n < 10 {
        let mut r: String = String::new();
        r.push(digit(n));
        proof {
            assert(r@ =~= decimal(n as nat));
        }
        r
    } else {
        let mut r: String = format_u64(n / 10);
        r.push(digit(n % 10));
        r
    }
}

/// `n` written in decimal.
pub fn format_usize(n: usize) -> (r: String)
    ensures
        r@ == decimal(n as nat),
{
    format_u64(n as u64)
}

/// `n` written in decimal, with a minus sign in front where it is negative.
pub open spec fn signed_decimal(n: int) -> Seq<char> {
    if n < 0 {
        seq!['-'] + decimal((-n) as nat)
    } else {
        decimal(n as nat)
    }
}

/// `n` written in decimal.
pub fn format_i64(n: i64) -> (r: String)
    ensures
        r@ == signed_decimal(n as int),
{
    if n < 0 {
        let magnitude: u64 = (-(n as i128)) as u64;
        let digits = format_u64(magnitude);
        let mut r: String = String::new();
        r.push('-');
        proof {
            assert(r@ =~= seq!['-']);
        }
        r.append(digits.as_str());
        r
    } else {
        format_u64(n as u64)
    }
}

/// Where neither end is whitespace, trimming changes nothing.
pub proof fn lemma_trim_nothing(s: Seq<char>)
    requires
        s.len() > 0,
        !whitespace(s[0]),
        !whitespace(s.last()),
    ensures
        trimmed(s) == s,
{
}

/// `s` without its leading whitespace.
pub fn trim_start(s: &str) -> (r: String)
    ensures
        r@ == trimmed_start(s@),
{
    let chars = to_chars(s);
    let mut start: usize = 0;
    let mut out: Vec<char> = Vec::new();
    assert(chars@.skip(0) =~= chars@);
    while start < chars.len() && is_whitespace(chars[start])
        invariant
            start <= chars@.len(),
            trimmed_start(chars@) == trimmed_start(chars@.skip(start as int)),
        decreases chars@.len() - start,
    {
        assert(chars@.skip(start as int).drop_first() =~= chars@.skip(start + 1));
        start = start + 1;
    }
    let mut i: usize = start;
    while i < chars.len()
        invariant
            start <= i <= chars@.len(),
            out@ == chars@.subrange(start as int, i as int),
        decreases chars@.len() - i,
    {
        out.push(chars[i]);
        assert(chars@.subrange(start as int, i + 1) =~= chars@.subrange(
            start as int,
            i as int,
        ).push(chars@[i as int]));
        i = i + 1;
    }
    assert(out@ =~= chars@.skip(start as int));
    from_chars(out.as_slice())
}

/// `s` without its trailing whitespace.
pub fn trim_end(s: &str) -> (r: String)
    ensures
        r@ == trimmed_end(s@),
{
    let chars = to_chars(s);
    let mut end: usize = chars.len();
    let mut out: Vec<char> = Vec::new();
    assert(chars@.take(end as int) =~= chars@);
    while end > 0 && is_whitespace(chars[end - 1])
        invariant
            end <= chars@.len(),
            trimmed_end(chars@) == trimmed_end(chars@.take(end as int)),
        decreases end,
    {
        assert(chars@.take(end as int).drop_last() =~= chars@.take(end - 1));
        end = end - 1;
    }
    let mut i: usize = 0;
    while i < end
        invariant
            i <= end <= chars@.len(),
            out@ == chars@.take(i as int),
        decreases end - i,
    {
        out.push(chars[i]);
        assert(chars@.take(i + 1) =~= chars@.take(i as int).push(chars@[i as int]));
        i = i + 1;
    }
    from_chars(out.as_slice())
}

/// A number is told by its digits.
pub proof fn lemma_decimal_tells(a: nat, b: nat)
    requires
        decimal(a) == decimal(b),
    ensures
        a == b,
    decreases a,
{
    assert(decimal(a).last() == digit_char((a % 10) as int));
    assert(decimal(b).last() == digit_char((b % 10) as int));
    if a >= 10 && b >= 10 {
        assert(decimal(a / 10) =~= decimal(a).drop_last());
        assert(decimal(b / 10) =~= decimal(b).drop_last());
        lemma_decimal_tells(a / 10, b / 10);
    } else if a >= 10 {
        lemma_decimal_some(a / 10);
    } else if b >= 10 {
        lemma_decimal_some(b / 10);
    }
}

/// Every number has a digit.
proof fn lemma_decimal_some(n: nat)
    ensures
        decimal(n).len() > 0,
{
}

/// Whether all of a text is whitespace.
pub open spec fn all_whitespace(s: Seq<char>) -> bool {
    forall|i: int| 0 <= i < s.len() ==> whitespace(#[trigger] s[i])
}

proof fn lemma_trim_start(a: Seq<char>, t: Seq<char>)
    requires
        all_whitespace(a),
    ensures
        trimmed_start(a + t) == trimmed_start(t),
    decreases a.len(),
{
    if a.len() == 0 {
        assert(a + t =~= t);
    } else {
        assert(whitespace(a[0]));
        assert((a + t)[0] == a[0]);
        assert((a + t).drop_first() =~= a.drop_first() + t);
        assert forall|i: int| 0 <= i < a.drop_first().len() implies whitespace(
            #[trigger] a.drop_first()[i],
        ) by {
            assert(whitespace(a[i + 1]));
        }
        lemma_trim_start(a.drop_first(), t);
    }
}

proof fn lemma_trim_end(t: Seq<char>, b: Seq<char>)
    requires
        all_whitespace(b),
    ensures
        trimmed_end(t + b) == trimmed_end(t),
    decreases b.len(),
{
    if b.len() == 0 {
        assert(t + b =~= t);
    } else {
        assert(whitespace(b[b.len() - 1]));
        assert((t + b).last() == b.last());
        assert((t + b).drop_last() =~= t + b.drop_last());
        assert forall|i: int| 0 <= i < b.drop_last().len() implies whitespace(
            #[trigger] b.drop_last()[i],
        ) by {
            assert(whitespace(b[i]));
        }
        lemma_trim_end(t, b.drop_last());
    }
}

/// Trimming takes off the whitespace at both ends, all of it and nothing else.
pub proof fn law_trim(a: Seq<char>, t: Seq<char>, b: Seq<char>)
    requires
        all_whitespace(a),
        all_whitespace(b),
        t.len() > 0 ==> !whitespace(t[0]) && !whitespace(t.last()),
    ensures
        trimmed(a + t + b) == t,
        trimmed_start(a + t) == t,
        trimmed_end(t + b) == t,
{
    assert(a + t + b =~= a + (t + b));
    lemma_trim_start(a, t + b);
    lemma_trim_end(t, b);
    lemma_trim_start(a, t);
    if t.len() == 0 {
        assert(t + b =~= b);
        assert(b + Seq::<char>::empty() =~= b);
        lemma_trim_start(b, Seq::empty());
        assert(t =~= Seq::empty());
    } else {
        assert((t + b)[0] == t[0]);
    }
}

/// A number is written with digits alone, and with a zero in front only where it is
/// nothing else; ten times as much is written with a zero more.
pub proof fn law_decimal(n: nat, i: int)
    requires
        0 <= i < decimal(n).len(),
    ensures
        '0' <= decimal(n)[i] <= '9',
        n > 0 ==> decimal(n)[0] != '0',
        n == 0 ==> decimal(n) == seq!['0'],
        n > 0 ==> decimal(10 * n) == decimal(n).push('0'),
    decreases n,
{
    if n >= 10 {
        lemma_decimal_some(n / 10);
        law_decimal(n / 10, 0);
        if i < decimal(n / 10).len() {
            law_decimal(n / 10, i);
        }
    }
    if n > 0 {
        assert((10 * n) / 10 == n);
        assert((10 * n) as int % 10 == 0);
    }
}

/// Parts are joined in their order, with the separator between each two.
pub proof fn law_join(a: Seq<Seq<char>>, b: Seq<Seq<char>>, separator: Seq<char>, part: Seq<char>)
    ensures
        joined(Seq::empty(), separator) == Seq::<char>::empty(),
        joined(seq![part], separator) == part,
        a.len() > 0 && b.len() > 0 ==> joined(a + b, separator) == joined(a, separator) + separator
            + joined(b, separator),
    decreases b.len(),
{
    if a.len() > 0 && b.len() > 0 {
        assert((a + b).drop_last() =~= a + b.drop_last());
        assert((a + b).last() == b.last());
        if b.len() == 1 {
            assert(a + b.drop_last() =~= a);
        } else {
            law_join(a, b.drop_last(), separator, part);
            assert(joined(a, separator) + separator + joined(b.drop_last(), separator) + separator
                + b.last() =~= joined(a, separator) + separator + (joined(b.drop_last(), separator)
                + separator + b.last()));
        }
    }
}

/// In lower case the letters from A to Z are those from a to z, and every other
/// character is itself.
pub proof fn law_ascii_lower(c: char)
    ensures
        'A' <= c <= 'Z' ==> ascii_lower(c) as int == c as int + 32,
        !('A' <= c <= 'Z') ==> ascii_lower(c) == c,
{
}

/// Whitespace is what Unicode says it is: the controls from tab to carriage return, the
/// space, and others by their numbers.
pub proof fn law_whitespace(c: char)
    ensures
        whitespace(c) <==> ({
            let n = c as u32;
            ||| 9 <= n <= 13
            ||| n == 32
            ||| n == 133
            ||| n == 160
            ||| n == 5760
            ||| 8192 <= n <= 8202
            ||| n == 8232
            ||| n == 8233
            ||| n == 8239
            ||| n == 8287
            ||| n == 12288
        }),
{
}

/// Each visible ASCII character is one of a digit, a letter and a mark of punctuation, and
/// nothing else is one of these.
pub proof fn law_visible_characters(c: char)
    ensures
        ({
            let letter = ('a' <= c && c <= 'z') || ('A' <= c && c <= 'Z');
            &&& (ascii_digit(c) || letter || ascii_punctuation(c)) <==> 33 <= c as u32 <= 126
            &&& !(ascii_digit(c) && letter)
            &&& !(ascii_digit(c) && ascii_punctuation(c))
            &&& !(letter && ascii_punctuation(c))
            &&& ascii_digit(c) <==> 48 <= c as u32 <= 57
        }),
{
}

/// A negative number is written as the positive one with a sign before it.
pub proof fn law_signed(n: nat)
    ensures
        signed_decimal(n as int) == decimal(n),
        n > 0 ==> signed_decimal(-(n as int)) == seq!['-'] + decimal(n),
{
}

} // verus!
