//! Splitting and searching text.
use vstd::prelude::*;
use crate::text::ascii_digit;
use crate::text::decimal;
use crate::text::from_chars;
use crate::text::is_ascii_digit;
use crate::text::is_whitespace;
use crate::text::string_views;
use crate::text::to_chars;
use crate::text::whitespace;

verus! {

// ---------------------------------------------------------------------------
// Splitting
// ---------------------------------------------------------------------------
/// The parts of `s` between the occurrences of `at`.
pub open spec fn split(s: Seq<char>, at: char) -> Seq<Seq<char>>
    decreases s.len(),
{
    if s.len() == 0 {
        seq![Seq::empty()]
    } else {
        let parts = split(s.drop_last(), at);
        if s.last() == at {
            parts.push(Seq::empty())
        } else {
            parts.drop_last().push(parts.last().push(s.last()))
        }
    }
}

/// There is always a part.
pub proof fn lemma_split_some(s: Seq<char>, at: char)
    ensures
        split(s, at).len() >= 1,
    decreases s.len(),
{
    if s.len() > 0 {
        lemma_split_some(s.drop_last(), at);
    }
}

/// Splits `s` at each `at`.
pub fn split_on(s: &str, at: char) -> (r: Vec<String>)
    ensures
        string_views(r@) == split(s@, at),
        r@.len() >= 1,
{
    let chars = to_chars(s);
    let mut out: Vec<String> = Vec::new();
    let mut part: Vec<char> = Vec::new();
    let mut i: usize = 0;
    proof {
        assert(chars@.take(0) =~= Seq::empty());
        assert(string_views(out@).push(part@) =~= seq![Seq::<char>::empty()]);
    }
    while i < chars.len()
        invariant
            i <= chars@.len(),
            string_views(out@).push(part@) == split(chars@.take(i as int), at),
        decreases chars@.len() - i,
    {
        let ghost parts = split(chars@.take(i as int), at);
        proof {
            assert(chars@.take(i + 1).drop_last() =~= chars@.take(i as int));
            assert(parts.last() == part@);
            assert(parts.drop_last() =~= string_views(out@));
        }
        if chars[i] == at {
            out.push(from_chars(part.as_slice()));
            part = Vec::new();
            proof {
                assert(string_views(out@) =~= parts);
                assert(part@ =~= Seq::<char>::empty());
            }
        } else {
            part.push(chars[i]);
        }
        i = i + 1;
    }
    proof {
        assert(chars@.take(chars@.len() as int) =~= chars@);
    }
    let ghost parts = string_views(out@).push(part@);
    out.push(from_chars(part.as_slice()));
    proof {
        assert(string_views(out@) =~= parts);
    }
    out
}

// ---------------------------------------------------------------------------
// Searching
// ---------------------------------------------------------------------------
/// Whether `p` stands in `s` at `i`.
pub open spec fn occurs_at(s: Seq<char>, p: Seq<char>, i: int) -> bool {
    0 <= i && i + p.len() <= s.len() && s.subrange(i, i + p.len()) == p
}

/// The first place from `i` on at which `p` stands in `s`.
pub open spec fn occurrence_from(s: Seq<char>, p: Seq<char>, i: int) -> Option<int>
    decreases s.len() - i + 1,
{
    if i + p.len() > s.len() {
        None
    } else if occurs_at(s, p, i) {
        Some(i)
    } else {
        occurrence_from(s, p, i + 1)
    }
}

/// The first place at which `p` stands in `s`.
pub open spec fn occurrence(s: Seq<char>, p: Seq<char>) -> Option<int> {
    occurrence_from(s, p, 0)
}

/// What is found stands there, and nowhere before.
pub proof fn lemma_occurrence(s: Seq<char>, p: Seq<char>, i: int)
    requires
        0 <= i,
    ensures
        match occurrence_from(s, p, i) {
            Some(at) => i <= at && occurs_at(s, p, at) && forall|j: int|
                i <= j < at ==> !#[trigger] occurs_at(s, p, j),
            None => forall|j: int| i <= j ==> !#[trigger] occurs_at(s, p, j),
        },
    decreases s.len() - i + 1,
{
    if i + p.len() > s.len() {
    } else if occurs_at(s, p, i) {
    } else {
        lemma_occurrence(s, p, i + 1);
    }
}

/// Whether `p` stands in `s` at `i`.
pub fn stands_at(s: &Vec<char>, p: &Vec<char>, i: usize) -> (r: bool)
    ensures
        r == occurs_at(s@, p@, i as int),
{
    if i > s.len() || p.len() > s.len() - i {
        return false;
    }
    let mut k: usize = 0;
    while k < p.len()
        invariant
            k <= p@.len(),
            i <= s@.len(),
            p@.len() <= s@.len() - i,
            s.len() == s@.len(),
            forall|j: int| 0 <= j < k ==> s@[i + j] == p@[j],
        decreases p@.len() - k,
    {
        if s[i + k] != p[k] {
            assert(s@.subrange(i as int, i + p@.len())[k as int] != p@[k as int]);
            return false;
        }
        k = k + 1;
    }
    assert(s@.subrange(i as int, i + p@.len()) =~= p@);
    true
}

/// The first place at which `p` stands in `s`.
pub fn find(s: &Vec<char>, p: &Vec<char>) -> (r: Option<usize>)
    ensures
        match r {
            Some(i) => occurrence(s@, p@) == Some(i as int) && i + p@.len() <= s@.len(),
            None => occurrence(s@, p@) is None,
        },
{
    let mut i: usize = 0;
    loop
        invariant
            i <= s@.len(),
            occurrence(s@, p@) == occurrence_from(s@, p@, i as int),
        decreases s@.len() - i,
    {
        if p.len() > s.len() - i {
            return None;
        }
        if stands_at(s, p, i) {
            return Some(i);
        }
        if i == s.len() {
            assert(occurrence_from(s@, p@, i + 1) is None);
            return None;
        }
        i = i + 1;
    }
}

/// Whether `c` stands in `s`.
pub fn has_char(s: &Vec<char>, c: char) -> (r: bool)
    ensures
        r == s@.contains(c),
{
    let mut i: usize = 0;
    while i < s.len()
        invariant
            i <= s@.len(),
            forall|j: int| 0 <= j < i ==> s@[j] != c,
        decreases s@.len() - i,
    {
        if s[i] == c {
            return true;
        }
        i = i + 1;
    }
    false
}

/// The characters from `start` up to `end`.
pub fn slice(s: &Vec<char>, start: usize, end: usize) -> (r: Vec<char>)
    requires
        start <= end <= s@.len(),
    ensures
        r@ == s@.subrange(start as int, end as int),
{
    let mut out: Vec<char> = Vec::new();
    let mut i: usize = start;
    while i < end
        invariant
            start <= i <= end <= s@.len(),
            out@ == s@.subrange(start as int, i as int),
        decreases end - i,
    {
        out.push(s[i]);
        proof {
            assert(s@.subrange(start as int, i + 1) =~= s@.subrange(start as int, i as int).push(
                s@[i as int],
            ));
        }
        i = i + 1;
    }
    out
}

/// A string without `at` is one part.
pub proof fn lemma_split_whole(s: Seq<char>, at: char)
    requires
        !s.contains(at),
    ensures
        split(s, at) == seq![s],
    decreases s.len(),
{
    if s.len() > 0 {
        let shorter = s.drop_last();
        assert forall|i: int| 0 <= i < shorter.len() implies shorter[i] != at by {
            assert(s[i] == shorter[i]);
        }
        assert(s[s.len() - 1] != at);
        lemma_split_whole(shorter, at);
        assert(shorter.push(s.last()) =~= s);
        assert(split(s, at) =~= seq![s]);
    } else {
        assert(s =~= Seq::empty());
    }
}

/// The parts of two strings joined by `at` are those of the two.
pub proof fn lemma_split_join(a: Seq<char>, b: Seq<char>, at: char)
    ensures
        split(a + seq![at] + b, at) == split(a, at) + split(b, at),
    decreases b.len(),
{
    let whole = a + seq![at] + b;
    lemma_split_some(b, at);
    if b.len() == 0 {
        assert(whole.drop_last() =~= a);
        assert(b =~= Seq::empty());
        assert(split(whole, at) =~= split(a, at) + split(b, at));
    } else {
        assert(whole.drop_last() =~= a + seq![at] + b.drop_last());
        lemma_split_join(a, b.drop_last(), at);
        lemma_split_some(b.drop_last(), at);
        let parts = split(whole.drop_last(), at);
        let last_parts = split(b.drop_last(), at);
        assert(parts.last() == last_parts.last());
        assert(split(whole, at) =~= split(a, at) + split(b, at));
    }
}

// ---------------------------------------------------------------------------
// Trimming off some characters
// ---------------------------------------------------------------------------
/// `s` without the characters of `set` at its start.
pub open spec fn without_leading(s: Seq<char>, set: Seq<char>) -> Seq<char>
    decreases s.len(),
{
    if s.len() > 0 && set.contains(s[0]) {
        without_leading(s.drop_first(), set)
    } else {
        s
    }
}

/// `s` without the characters of `set` at its end.
pub open spec fn without_trailing(s: Seq<char>, set: Seq<char>) -> Seq<char>
    decreases s.len(),
{
    if s.len() > 0 && set.contains(s.last()) {
        without_trailing(s.drop_last(), set)
    } else {
        s
    }
}

/// `s` without the characters of `set` at its start.
pub fn trim_leading(s: &Vec<char>, set: &Vec<char>) -> (r: Vec<char>)
    ensures
        r@ == without_leading(s@, set@),
{
    let mut start: usize = 0;
    assert(s@.skip(0) =~= s@);
    while start < s.len() && has_char(set, s[start])
        invariant
            start <= s@.len(),
            without_leading(s@, set@) == without_leading(s@.skip(start as int), set@),
        decreases s@.len() - start,
    {
        assert(s@.skip(start as int).drop_first() =~= s@.skip(start + 1));
        start = start + 1;
    }
    let out = slice(s, start, s.len());
    assert(out@ =~= s@.skip(start as int));
    out
}

/// `s` without the characters of `set` at its end.
pub fn trim_trailing(s: &Vec<char>, set: &Vec<char>) -> (r: Vec<char>)
    ensures
        r@ == without_trailing(s@, set@),
{
    let mut end: usize = s.len();
    assert(s@.take(end as int) =~= s@);
    while end > 0 && has_char(set, s[end - 1])
        invariant
            end <= s@.len(),
            without_trailing(s@, set@) == without_trailing(s@.take(end as int), set@),
        decreases end,
    {
        assert(s@.take(end as int).drop_last() =~= s@.take(end - 1));
        end = end - 1;
    }
    let out = slice(s, 0, end);
    assert(out@ =~= s@.take(end as int));
    out
}

/// The first place of a character of `set` from `i` on.
pub open spec fn first_of_from(s: Seq<char>, set: Seq<char>, i: int) -> Option<int>
    decreases s.len() - i,
{
    if i < 0 || i >= s.len() {
        None
    } else if set.contains(s[i]) {
        Some(i)
    } else {
        first_of_from(s, set, i + 1)
    }
}

/// The first place of a character of `set`.
pub open spec fn first_of(s: Seq<char>, set: Seq<char>) -> Option<int> {
    first_of_from(s, set, 0)
}

/// The first place of a character of `set`.
pub fn find_any(s: &Vec<char>, set: &Vec<char>) -> (r: Option<usize>)
    ensures
        match r {
            Some(i) => first_of(s@, set@) == Some(i as int) && i < s@.len(),
            None => first_of(s@, set@) is None,
        },
{
    let mut i: usize = 0;
    while i < s.len()
        invariant
            i <= s@.len(),
            first_of(s@, set@) == first_of_from(s@, set@, i as int),
        decreases s@.len() - i,
    {
        if has_char(set, s[i]) {
            return Some(i);
        }
        i = i + 1;
    }
    None
}

// ---------------------------------------------------------------------------
// Words
// ---------------------------------------------------------------------------
/// The words of `s`, with whitespace between them, and the word that is open at
/// its end.
pub open spec fn words_and_open(s: Seq<char>) -> (Seq<Seq<char>>, Seq<char>)
    decreases s.len(),
{
    if s.len() == 0 {
        (Seq::empty(), Seq::empty())
    } else {
        let (words, open) = words_and_open(s.drop_last());
        if !whitespace(s.last()) {
            (words, open.push(s.last()))
        } else if open.len() > 0 {
            (words.push(open), Seq::empty())
        } else {
            (words, open)
        }
    }
}

/// The words of `s`: its longest parts without whitespace.
pub open spec fn words(s: Seq<char>) -> Seq<Seq<char>> {
    let (closed, open) = words_and_open(s);
    if open.len() > 0 {
        closed.push(open)
    } else {
        closed
    }
}

/// The words of `s`.
pub fn split_words(s: &str) -> (r: Vec<String>)
    ensures
        string_views(r@) == words(s@),
{
    let chars = to_chars(s);
    let mut out: Vec<String> = Vec::new();
    let mut part: Vec<char> = Vec::new();
    let mut i: usize = 0;
    assert(chars@.take(0) =~= Seq::empty());
    assert(string_views(out@) =~= Seq::empty());
    assert(part@ =~= Seq::empty());
    while i < chars.len()
        invariant
            i <= chars@.len(),
            (string_views(out@), part@) == words_and_open(chars@.take(i as int)),
        decreases chars@.len() - i,
    {
        let ghost so_far = string_views(out@);
        assert(chars@.take(i + 1).drop_last() =~= chars@.take(i as int));
        if !is_whitespace(chars[i]) {
            part.push(chars[i]);
        } else if part.len() > 0 {
            let ghost word = part@;
            out.push(from_chars(part.as_slice()));
            part = Vec::new();
            assert(string_views(out@) =~= so_far.push(word));
            assert(part@ =~= Seq::empty());
        }
        i = i + 1;
    }
    assert(chars@.take(chars@.len() as int) =~= chars@);
    if part.len() > 0 {
        let ghost so_far = string_views(out@);
        out.push(from_chars(part.as_slice()));
        assert(string_views(out@) =~= so_far.push(part@));
    }
    out
}

proof fn lemma_words_clean(s: Seq<char>)
    ensures
        forall|c: char| #[trigger] words_and_open(s).1.contains(c) ==> !whitespace(c),
        forall|i: int|
            #![trigger words_and_open(s).0[i]]
            0 <= i < words_and_open(s).0.len() ==> words_and_open(s).0[i].len() > 0 && forall|
                c: char,
            | #[trigger]
                words_and_open(s).0[i].contains(c) ==> !whitespace(c),
    decreases s.len(),
{
    if s.len() > 0 {
        lemma_words_clean(s.drop_last());
        let (closed, open) = words_and_open(s.drop_last());
        let (after, rest) = words_and_open(s);
        assert forall|c: char| #[trigger] rest.contains(c) implies !whitespace(c) by {
            let k = choose|k: int| 0 <= k < rest.len() && rest[k] == c;
            if !whitespace(s.last()) {
                if k < open.len() {
                    assert(open[k] == c);
                    assert(open.contains(c));
                }
            } else {
                assert(open.contains(c));
            }
        }
        assert forall|i: int|
            #![trigger after[i]]
            0 <= i < after.len() implies after[i].len() > 0 && forall|c: char| #[trigger]
            after[i].contains(c) ==> !whitespace(c) by {
            if i < closed.len() {
                assert(after[i] == closed[i]);
            } else {
                assert(after[i] == open);
            }
        }
    }
}

/// No word is empty, and none has whitespace in it.
pub proof fn law_words(s: Seq<char>, i: int)
    requires
        0 <= i < words(s).len(),
    ensures
        words(s)[i].len() > 0,
        forall|c: char| #[trigger] words(s)[i].contains(c) ==> !whitespace(c),
{
    lemma_words_clean(s);
    let (closed, open) = words_and_open(s);
    if i < closed.len() {
        assert(words(s)[i] == closed[i]);
    } else {
        assert(words(s)[i] == open);
    }
}

// ---------------------------------------------------------------------------
// Numbers
// ---------------------------------------------------------------------------
/// Whether all of `s` are digits.
pub open spec fn all_digits(s: Seq<char>) -> bool {
    forall|i: int| 0 <= i < s.len() ==> ascii_digit(#[trigger] s[i])
}

/// The value of digits.
pub open spec fn digits_value(s: Seq<char>) -> int
    decreases s.len(),
{
    if s.len() == 0 {
        0
    } else {
        digits_value(s.drop_last()) * 10 + (s.last() as int - '0' as int)
    }
}

/// The number that digits tell, where there are any and it is not above `most`.
pub open spec fn number_up_to(s: Seq<char>, most: int) -> Option<int> {
    if s.len() > 0 && all_digits(s) && digits_value(s) <= most {
        Some(digits_value(s))
    } else {
        None
    }
}

/// The number of a word, which may have a plus before its digits, where it is
/// not above `most`.
pub open spec fn signed_number_up_to(s: Seq<char>, most: int) -> Option<int> {
    if s.len() > 0 && s[0] == '+' {
        number_up_to(s.drop_first(), most)
    } else {
        number_up_to(s, most)
    }
}

/// Whether all of `s` are digits.
pub fn is_all_digits(s: &Vec<char>) -> (r: bool)
    ensures
        r == all_digits(s@),
{
    let mut i: usize = 0;
    while i < s.len()
        invariant
            i <= s@.len(),
            forall|k: int| 0 <= k < i ==> ascii_digit(#[trigger] s@[k]),
        decreases s@.len() - i,
    {
        if !is_ascii_digit(s[i]) {
            assert(!ascii_digit(s@[i as int]));
            return false;
        }
        i = i + 1;
    }
    true
}

pub proof fn lemma_digits_grow(s: Seq<char>, n: int)
    requires
        all_digits(s),
        0 <= n <= s.len(),
    ensures
        0 <= digits_value(s.take(n)) <= digits_value(s),
    decreases s.len() - n,
{
    if n == s.len() {
        assert(s.take(n) =~= s);
        lemma_digits_not_negative(s);
    } else {
        lemma_digits_grow(s, n + 1);
        let longer = s.take(n + 1);
        assert(longer.drop_last() =~= s.take(n));
        assert(longer.last() == s[n]);
        assert(all_digits(s.take(n))) by {
            assert forall|i: int| 0 <= i < n implies ascii_digit(#[trigger] s.take(n)[i]) by {
                assert(ascii_digit(s[i]));
            }
        }
        assert(ascii_digit(s[n]));
        lemma_digits_not_negative(s.take(n));
    }
}

pub proof fn lemma_digits_not_negative(s: Seq<char>)
    requires
        all_digits(s),
    ensures
        digits_value(s) >= 0,
    decreases s.len(),
{
    if s.len() > 0 {
        assert(ascii_digit(s[s.len() - 1]));
        assert(all_digits(s.drop_last())) by {
            assert forall|i: int| 0 <= i < s.len() - 1 implies ascii_digit(
                #[trigger] s.drop_last()[i],
            ) by {
                assert(ascii_digit(s[i]));
            }
        }
        lemma_digits_not_negative(s.drop_last());
    }
}

/// The number that digits tell, where there are any and it is not above `most`.
pub fn parse_number(s: &Vec<char>, most: u64) -> (r: Option<u64>)
    ensures
        match r {
            Some(n) => number_up_to(s@, most as int) == Some(n as int),
            None => number_up_to(s@, most as int) is None,
        },
{
    if s.len() == 0 || !is_all_digits(s) {
        return None;
    }
    let mut value: u64 = 0;
    let mut i: usize = 0;
    while i < s.len()
        invariant
            i <= s@.len(),
            all_digits(s@),
            s@.len() > 0,
            value <= most,
            value == digits_value(s@.take(i as int)),
        decreases s@.len() - i,
    {
        proof {
            assert(s@.take(i + 1).drop_last() =~= s@.take(i as int));
            assert(s@.take(i + 1).last() == s@[i as int]);
            assert(ascii_digit(s@[i as int]));
            lemma_digits_grow(s@, i + 1);
        }
        let digit: u64 = (s[i] as u32 - '0' as u32) as u64;
        match value.checked_mul(10) {
            Some(tens) => {
                match tens.checked_add(digit) {
                    Some(next) => {
                        if next > most {
                            return None;
                        }
                        value = next;
                    },
                    None => {
                        return None;
                    },
                }
            },
            None => {
                return None;
            },
        }
        i = i + 1;
    }
    assert(s@.take(s@.len() as int) =~= s@);
    Some(value)
}

/// The number of a word, which may have a plus before its digits, where it is
/// not above `most`.
pub fn parse_signed_number(s: &Vec<char>, most: u64) -> (r: Option<u64>)
    ensures
        match r {
            Some(n) => signed_number_up_to(s@, most as int) == Some(n as int),
            None => signed_number_up_to(s@, most as int) is None,
        },
{
    if s.len() > 0 && s[0] == '+' {
        let rest = slice(s, 1, s.len());
        assert(rest@ =~= s@.drop_first());
        return parse_number(&rest, most);
    }
    parse_number(s, most)
}

// ---------------------------------------------------------------------------
// What holds of it
// ---------------------------------------------------------------------------
/// Whether all of a text are characters of a set.
pub open spec fn all_of(s: Seq<char>, set: Seq<char>) -> bool {
    forall|i: int| 0 <= i < s.len() ==> set.contains(#[trigger] s[i])
}

/// What is taken off at the start are characters of the set, all of them up to the
/// first other one, and nothing else.
pub proof fn law_without_leading(gap: Seq<char>, t: Seq<char>, set: Seq<char>)
    requires
        all_of(gap, set),
        t.len() > 0 ==> !set.contains(t[0]),
    ensures
        without_leading(gap + t, set) == t,
    decreases gap.len(),
{
    if gap.len() == 0 {
        assert(gap + t =~= t);
    } else {
        assert(set.contains(gap[0]));
        assert((gap + t)[0] == gap[0]);
        assert((gap + t).drop_first() =~= gap.drop_first() + t);
        assert forall|i: int| 0 <= i < gap.drop_first().len() implies set.contains(
            #[trigger] gap.drop_first()[i],
        ) by {
            assert(set.contains(gap[i + 1]));
        }
        law_without_leading(gap.drop_first(), t, set);
    }
}

/// What is taken off at the end are characters of the set, all of them back to the
/// last other one, and nothing else.
pub proof fn law_without_trailing(t: Seq<char>, gap: Seq<char>, set: Seq<char>)
    requires
        all_of(gap, set),
        t.len() > 0 ==> !set.contains(t.last()),
    ensures
        without_trailing(t + gap, set) == t,
    decreases gap.len(),
{
    if gap.len() == 0 {
        assert(t + gap =~= t);
    } else {
        assert(set.contains(gap[gap.len() - 1]));
        assert((t + gap).last() == gap.last());
        assert((t + gap).drop_last() =~= t + gap.drop_last());
        assert forall|i: int| 0 <= i < gap.drop_last().len() implies set.contains(
            #[trigger] gap.drop_last()[i],
        ) by {
            assert(set.contains(gap[i]));
        }
        law_without_trailing(t, gap.drop_last(), set);
    }
}

proof fn lemma_words_open(s: Seq<char>, t: Seq<char>)
    requires
        forall|i: int| 0 <= i < t.len() ==> !whitespace(#[trigger] t[i]),
    ensures
        words_and_open(s + t) == (words_and_open(s).0, words_and_open(s).1 + t),
    decreases t.len(),
{
    if t.len() == 0 {
        assert(s + t =~= s);
        assert(words_and_open(s).1 + t =~= words_and_open(s).1);
    } else {
        assert(!whitespace(t[t.len() - 1]));
        assert((s + t).drop_last() =~= s + t.drop_last());
        assert forall|i: int| 0 <= i < t.drop_last().len() implies !whitespace(
            #[trigger] t.drop_last()[i],
        ) by {
            assert(!whitespace(t[i]));
        }
        lemma_words_open(s, t.drop_last());
        assert((words_and_open(s).1 + t.drop_last()).push(t.last()) =~= words_and_open(s).1 + t);
    }
}

proof fn lemma_words_apart(s: Seq<char>, c: char, t: Seq<char>)
    requires
        whitespace(c),
    ensures
        words_and_open(s + seq![c] + t) == (
            words(s) + words_and_open(t).0,
            words_and_open(t).1,
        ),
    decreases t.len(),
{
    let whole = s + seq![c] + t;
    if t.len() == 0 {
        assert(whole.drop_last() =~= s);
        assert(words(s) + words_and_open(t).0 =~= words(s));
        assert(words_and_open(t).1 =~= Seq::empty());
        if words_and_open(s).1.len() == 0 {
            assert(words_and_open(s).1 =~= Seq::empty());
        }
    } else {
        assert(whole.drop_last() =~= s + seq![c] + t.drop_last());
        lemma_words_apart(s, c, t.drop_last());
        let (closed, open) = words_and_open(t.drop_last());
        assert((words(s) + closed).push(open) =~= words(s) + closed.push(open));
    }
}

/// A text without whitespace is one word, and whitespace parts the words before it
/// from those behind it.
pub proof fn law_words_of(word: Seq<char>, s: Seq<char>, c: char, t: Seq<char>)
    requires
        word.len() > 0,
        forall|i: int| 0 <= i < word.len() ==> !whitespace(#[trigger] word[i]),
        whitespace(c),
    ensures
        words(Seq::empty()) == Seq::<Seq<char>>::empty(),
        words(word) == seq![word],
        words(s + seq![c] + t) == words(s) + words(t),
{
    lemma_words_open(Seq::empty(), word);
    assert(Seq::<char>::empty() + word =~= word);
    assert(words(word) =~= seq![word]);
    lemma_words_apart(s, c, t);
    let (closed, open) = words_and_open(t);
    if open.len() > 0 {
        assert((words(s) + closed).push(open) =~= words(s) + closed.push(open));
    }
    assert(words(Seq::empty()) =~= Seq::empty());
}

/// A number is read from its digits, where it is not too large.
pub proof fn law_number_is_read(n: nat, most: int)
    ensures
        number_up_to(decimal(n), most) == (if n <= most {
            Some(n as int)
        } else {
            None
        }),
        n <= most ==> signed_number_up_to(decimal(n), most) == Some(n as int),
        n <= most ==> signed_number_up_to(seq!['+'] + decimal(n), most) == Some(n as int),
{
    lemma_decimal_digits(n);
    assert((seq!['+'] + decimal(n)).drop_first() =~= decimal(n));
    assert(ascii_digit(decimal(n)[0]));
}

/// The digits of a number tell it.
pub proof fn lemma_decimal_digits(n: nat)
    ensures
        decimal(n).len() > 0,
        all_digits(decimal(n)),
        digits_value(decimal(n)) == n,
    decreases n,
{
    if n >= 10 {
        lemma_decimal_digits(n / 10);
        assert(decimal(n).drop_last() =~= decimal(n / 10));
        assert forall|i: int| 0 <= i < decimal(n).len() implies ascii_digit(
            #[trigger] decimal(n)[i],
        ) by {
            if i < decimal(n / 10).len() {
                assert(decimal(n)[i] == decimal(n / 10)[i]);
            }
        }
    } else {
        reveal_with_fuel(digits_value, 2);
        assert(decimal(n).drop_last() =~= Seq::empty());
    }
}

/// What is no number is not read as one: nothing at all, or a text with anything
/// but digits in it.
pub proof fn law_no_number(s: Seq<char>, i: int, most: int)
    requires
        s.len() == 0 || (0 <= i < s.len() && !('0' <= s[i] <= '9')),
    ensures
        number_up_to(s, most) is None,
{
    if s.len() > 0 {
        assert(!ascii_digit(s[i]));
    }
}

/// A text is found where it stands first: it stands there, and nowhere before.
pub proof fn law_found_first(s: Seq<char>, p: Seq<char>, i: int)
    ensures
        occurrence(s, p) matches Some(at) ==> {
            &&& 0 <= at
            &&& at + p.len() <= s.len()
            &&& s.subrange(at, at + p.len()) == p
            &&& 0 <= i < at ==> !(i + p.len() <= s.len() && s.subrange(i, i + p.len()) == p)
        },
        occurrence(s, p) is None ==> !(0 <= i && i + p.len() <= s.len() && s.subrange(
            i,
            i + p.len(),
        ) == p),
{
    lemma_occurrence(s, p, 0);
    if 0 <= i && i + p.len() <= s.len() && s.subrange(i, i + p.len()) =~= p {
        assert(occurs_at(s, p, i));
    }
}

/// The first character of a set is found where it stands first: it stands there, and
/// none stands before.
pub proof fn law_first_of(before: Seq<char>, c: char, after: Seq<char>, set: Seq<char>)
    requires
        forall|i: int| 0 <= i < before.len() ==> !set.contains(#[trigger] before[i]),
    ensures
        set.contains(c) ==> first_of(before + (seq![c] + after), set) == Some(before.len() as int),
        first_of(before, set) is None,
{
    lemma_first_of_from(before, c, after, set, 0);
    lemma_none_from(before, set, 0);
}

proof fn lemma_first_of_from(
    before: Seq<char>,
    c: char,
    after: Seq<char>,
    set: Seq<char>,
    i: int,
)
    requires
        forall|k: int| 0 <= k < before.len() ==> !set.contains(#[trigger] before[k]),
        0 <= i <= before.len(),
    ensures
        set.contains(c) ==> first_of_from(before + (seq![c] + after), set, i) == Some(
            before.len() as int,
        ),
    decreases before.len() - i,
{
    let s = before + (seq![c] + after);
    if i < before.len() {
        assert(s[i] == before[i]);
        lemma_first_of_from(before, c, after, set, i + 1);
    } else {
        assert(s[i] == c);
    }
}

proof fn lemma_none_from(s: Seq<char>, set: Seq<char>, i: int)
    requires
        forall|k: int| 0 <= k < s.len() ==> !set.contains(#[trigger] s[k]),
        0 <= i <= s.len(),
    ensures
        first_of_from(s, set, i) is None,
    decreases s.len() - i,
{
    if i < s.len() {
        lemma_none_from(s, set, i + 1);
    }
}

/// A number may have a plus before it, and only one.
pub proof fn law_plus_before_a_number(n: nat, most: int)
    ensures
        signed_number_up_to(seq!['+'] + decimal(n), most) == number_up_to(decimal(n), most),
        signed_number_up_to(decimal(n), most) == number_up_to(decimal(n), most),
        signed_number_up_to(seq!['+', '+'] + decimal(n), most) is None,
        number_up_to(seq!['+'] + decimal(n), most) is None,
{
    lemma_decimal_digits(n);
    let once = seq!['+'] + decimal(n);
    let twice = seq!['+', '+'] + decimal(n);
    assert(once.drop_first() =~= decimal(n));
    assert(twice.drop_first() =~= once);
    assert(once[0] == '+' && twice[0] == '+');
    assert(ascii_digit(decimal(n)[0]));
    assert(!ascii_digit('+'));
}

} // verus!
