//! Finding and comparing the CHECK constraints of a CREATE TABLE statement.
use vstd::prelude::*;
use crate::text::ascii_lower;
use crate::text::from_chars;
use crate::text::is_whitespace;
use crate::text::lower_char;
use crate::text::lowered_char;
use crate::text::to_ascii_lower;
use crate::text::to_chars;
use crate::text::{string_views, whitespace};

verus! {

// ---------------------------------------------------------------------------
// Characters
// ---------------------------------------------------------------------------
/// Whether `c` can stand in an identifier.
pub open spec fn identifier_char(c: char) -> bool {
    ||| 'a' <= c <= 'z'
    ||| 'A' <= c <= 'Z'
    ||| '0' <= c <= '9'
    ||| c == '_'
    ||| c == '$'
    ||| c as u32 >= 0x80
}

/// Whether `c` can stand in an identifier; all that is not ASCII can.
pub fn is_identifier_char(c: char) -> (r: bool)
    ensures
        r == identifier_char(c),
{
    ('a' <= c && c <= 'z') || ('A' <= c && c <= 'Z') || ('0' <= c && c <= '9') || c == '_' || c
        == '$' || c as u32 >= 0x80
}

/// Whether `c` is ASCII whitespace.
pub open spec fn ascii_space(c: char) -> bool {
    c == ' ' || c == '\t' || c == '\n' || c == '\u{c}' || c == '\r'
}

fn is_ascii_space(c: char) -> (r: bool)
    ensures
        r == ascii_space(c),
{
    c == ' ' || c == '\t' || c == '\n' || c == '\u{c}' || c == '\r'
}

// ---------------------------------------------------------------------------
// Strings, comments and quoted identifiers
// ---------------------------------------------------------------------------
/// Whether `c` stands at `i`.
pub open spec fn char_at(s: Seq<char>, i: int, c: char) -> bool {
    0 <= i < s.len() && s[i] == c
}

/// The end of what is quoted by `quote`, from `j` inside it on: a doubled
/// quote does not end it, and without an end it goes on to the end of the text.
pub open spec fn quoted_end(s: Seq<char>, j: int, quote: char) -> int
    decreases s.len() - j,
{
    if j >= s.len() {
        s.len() as int
    } else if s[j] != quote {
        quoted_end(s, j + 1, quote)
    } else if char_at(s, j + 1, quote) {
        quoted_end(s, j + 2, quote)
    } else {
        j + 1
    }
}

/// The position of the first `c` from `j` on, or the end of the text.
pub open spec fn first_from(s: Seq<char>, j: int, c: char) -> int
    decreases s.len() - j,
{
    if j >= s.len() {
        s.len() as int
    } else if s[j] == c {
        j
    } else {
        first_from(s, j + 1, c)
    }
}

/// The end of a block comment, from `j` inside it on.
pub open spec fn block_end(s: Seq<char>, j: int) -> int
    decreases s.len() - j,
{
    if j + 1 >= s.len() {
        s.len() as int
    } else if s[j] == '*' && s[j + 1] == '/' {
        j + 2
    } else {
        block_end(s, j + 1)
    }
}

/// Just behind `position`, or the end of the text.
pub open spec fn behind(s: Seq<char>, position: int) -> int {
    if position < s.len() {
        position + 1
    } else {
        s.len() as int
    }
}

/// Whether a comment starts at `i`.
pub open spec fn comment_at(s: Seq<char>, i: int) -> bool {
    ||| char_at(s, i, '-') && char_at(s, i + 1, '-')
    ||| char_at(s, i, '/') && char_at(s, i + 1, '*')
}

/// The end of the string, comment or quoted identifier that starts at `i`;
/// `i` itself where none does.
pub open spec fn element_end(s: Seq<char>, i: int) -> int {
    if char_at(s, i, '\'') {
        quoted_end(s, i + 1, '\'')
    } else if char_at(s, i, '-') && char_at(s, i + 1, '-') {
        first_from(s, i + 2, '\n')
    } else if char_at(s, i, '/') && char_at(s, i + 1, '*') {
        block_end(s, i + 2)
    } else if char_at(s, i, '"') {
        quoted_end(s, i + 1, '"')
    } else if char_at(s, i, '[') {
        behind(s, first_from(s, i + 1, ']'))
    } else if char_at(s, i, '`') {
        behind(s, first_from(s, i + 1, '`'))
    } else {
        i
    }
}

proof fn lemma_quoted_end(s: Seq<char>, j: int, quote: char)
    requires
        0 <= j <= s.len(),
    ensures
        j <= quoted_end(s, j, quote) <= s.len(),
    decreases s.len() - j,
{
    if j < s.len() {
        if s[j] != quote {
            lemma_quoted_end(s, j + 1, quote);
        } else if char_at(s, j + 1, quote) {
            lemma_quoted_end(s, j + 2, quote);
        }
    }
}

proof fn lemma_first_from(s: Seq<char>, j: int, c: char)
    requires
        0 <= j <= s.len(),
    ensures
        j <= first_from(s, j, c) <= s.len(),
    decreases s.len() - j,
{
    if j < s.len() && s[j] != c {
        lemma_first_from(s, j + 1, c);
    }
}

proof fn lemma_block_end(s: Seq<char>, j: int)
    requires
        0 <= j <= s.len(),
    ensures
        j <= block_end(s, j) <= s.len(),
    decreases s.len() - j,
{
    if j + 1 < s.len() && !(s[j] == '*' && s[j + 1] == '/') {
        lemma_block_end(s, j + 1);
    }
}

/// An element ends behind its start and within the text.
pub proof fn lemma_element_end(s: Seq<char>, i: int)
    requires
        0 <= i < s.len(),
    ensures
        i <= element_end(s, i) <= s.len(),
        comment_at(s, i) ==> element_end(s, i) > i,
{
    lemma_quoted_end(s, i + 1, '\'');
    lemma_quoted_end(s, i + 1, '"');
    lemma_first_from(s, i + 1, ']');
    lemma_first_from(s, i + 1, '`');
    if i + 2 <= s.len() {
        lemma_first_from(s, i + 2, '\n');
        lemma_block_end(s, i + 2);
    }
}

fn find_quoted_end(s: &Vec<char>, start: usize, quote: char) -> (r: usize)
    requires
        start <= s@.len(),
    ensures
        r == quoted_end(s@, start as int, quote),
        start <= r <= s@.len(),
{
    proof {
        lemma_quoted_end(s@, start as int, quote);
    }
    let mut j: usize = start;
    while j < s.len()
        invariant
            start <= j <= s@.len(),
            quoted_end(s@, start as int, quote) == quoted_end(s@, j as int, quote),
            start <= quoted_end(s@, start as int, quote) <= s@.len(),
        decreases s@.len() - j,
    {
        if s[j] == quote {
            if j + 1 < s.len() && s[j + 1] == quote {
                j = j + 2;
            } else {
                return j + 1;
            }
        } else {
            j = j + 1;
        }
    }
    s.len()
}

fn find_first_from(s: &Vec<char>, start: usize, c: char) -> (r: usize)
    requires
        start <= s@.len(),
    ensures
        r == first_from(s@, start as int, c),
        start <= r <= s@.len(),
{
    let mut j: usize = start;
    while j < s.len() && s[j] != c
        invariant
            start <= j <= s@.len(),
            first_from(s@, start as int, c) == first_from(s@, j as int, c),
        decreases s@.len() - j,
    {
        j = j + 1;
    }
    j
}

fn find_block_end(s: &Vec<char>, start: usize) -> (r: usize)
    requires
        start <= s@.len(),
    ensures
        r == block_end(s@, start as int),
        start <= r <= s@.len(),
{
    let mut j: usize = start;
    while j < s.len() && j + 1 < s.len()
        invariant
            start <= j <= s@.len(),
            block_end(s@, start as int) == block_end(s@, j as int),
        decreases s@.len() - j,
    {
        if s[j] == '*' && s[j + 1] == '/' {
            return j + 2;
        }
        j = j + 1;
    }
    s.len()
}

/// The end of the string, comment or quoted identifier that starts at `i`;
/// `i` itself where none does.
pub fn skip_lexical_element(s: &Vec<char>, i: usize) -> (r: usize)
    requires
        i < s@.len(),
    ensures
        r == element_end(s@, i as int),
        i <= r <= s@.len(),
{
    proof {
        lemma_element_end(s@, i as int);
    }
    let c: char = s[i];
    let more: bool = s.len() - i > 1;
    if c == '\'' {
        find_quoted_end(s, i + 1, '\'')
    } else if c == '-' && more && s[i + 1] == '-' {
        find_first_from(s, i + 2, '\n')
    } else if c == '/' && more && s[i + 1] == '*' {
        find_block_end(s, i + 2)
    } else if c == '"' {
        find_quoted_end(s, i + 1, '"')
    } else if c == '[' || c == '`' {
        let close: char = if c == '[' {
            ']'
        } else {
            '`'
        };
        let position: usize = find_first_from(s, i + 1, close);
        if position < s.len() {
            position + 1
        } else {
            s.len()
        }
    } else {
        i
    }
}

// ---------------------------------------------------------------------------
// CHECK clauses
// ---------------------------------------------------------------------------
/// Whether the ASCII word `word`, given in lower case, stands at `i` in either
/// case, with no identifier character before or behind it.
pub open spec fn word_at(s: Seq<char>, i: int, word: Seq<char>) -> bool {
    &&& i + word.len() <= s.len()
    &&& forall|k: int| 0 <= k < word.len() ==> ascii_lower(#[trigger] s[i + k]) == word[k]
    &&& i + word.len() < s.len() ==> !identifier_char(s[i + word.len()])
    &&& i > 0 ==> !identifier_char(s[i - 1])
}

/// Whether `word` stands at `i`.
fn is_word_at(s: &Vec<char>, i: usize, word: &str) -> (r: bool)
    requires
        i <= s@.len(),
    ensures
        r == word_at(s@, i as int, word@),
{
    let letters = to_chars(word);
    if s.len() - i < letters.len() {
        return false;
    }
    let mut k: usize = 0;
    while k < letters.len()
        invariant
            k <= letters@.len(),
            letters@ == word@,
            i <= s@.len(),
            s.len() - i >= letters@.len(),
            forall|j: int| 0 <= j < k ==> ascii_lower(#[trigger] s@[i + j]) == word@[j],
        decreases letters@.len() - k,
    {
        if to_ascii_lower(s[i + k]) != letters[k] {
            proof {
                assert(ascii_lower(s@[i + k]) != word@[k as int]);
            }
            return false;
        }
        k = k + 1;
    }
    let end: usize = i + letters.len();
    if end < s.len() && is_identifier_char(s[end]) {
        return false;
    }
    if i > 0 && is_identifier_char(s[i - 1]) {
        return false;
    }
    true
}

/// The first position from `i` on that is neither whitespace nor part of a
/// string, comment or quoted identifier that starts where it is looked for.
pub open spec fn after_spacing(s: Seq<char>, i: int) -> int
    decreases s.len() - i,
{
    if i < 0 || i >= s.len() {
        i
    } else if ascii_space(s[i]) {
        after_spacing(s, i + 1)
    } else if i < element_end(s, i) <= s.len() {
        after_spacing(s, element_end(s, i))
    } else {
        i
    }
}

/// The position of the bracket that closes `depth` open ones, from `i` on.
pub open spec fn closing_bracket(s: Seq<char>, i: int, depth: int) -> Option<int>
    decreases s.len() - i,
{
    if i < 0 || i >= s.len() {
        None
    } else if i < element_end(s, i) <= s.len() {
        closing_bracket(s, element_end(s, i), depth)
    } else if s[i] == '(' {
        closing_bracket(s, i + 1, depth + 1)
    } else if s[i] == ')' {
        if depth == 1 {
            Some(i)
        } else {
            closing_bracket(s, i + 1, depth - 1)
        }
    } else {
        closing_bracket(s, i + 1, depth)
    }
}

/// The last position of the CHECK clause that starts at `i`, if one does.
pub open spec fn clause_end(s: Seq<char>, i: int) -> Option<int> {
    let open = after_spacing(s, i + 5);
    if word_at(s, i, "check"@) && char_at(s, open, '(') {
        closing_bracket(s, open, 0)
    } else {
        None
    }
}

/// The CHECK clauses from `i` on; what stands in strings, comments and quoted
/// identifiers is no clause.
pub open spec fn clauses_from(s: Seq<char>, i: int) -> Seq<Seq<char>>
    decreases s.len() - i,
{
    if i < 0 || i >= s.len() {
        Seq::empty()
    } else if i < element_end(s, i) <= s.len() {
        clauses_from(s, element_end(s, i))
    } else {
        match clause_end(s, i) {
            Some(end) if i <= end < s.len() => seq![s.subrange(i, end + 1)] + clauses_from(
                s,
                end + 1,
            ),
            _ => clauses_from(s, i + 1),
        }
    }
}

/// The CHECK clauses of a statement.
pub open spec fn check_clauses(s: Seq<char>) -> Seq<Seq<char>> {
    clauses_from(s, 0)
}

proof fn lemma_after_spacing(s: Seq<char>, i: int)
    requires
        0 <= i <= s.len(),
    ensures
        i <= after_spacing(s, i) <= s.len(),
    decreases s.len() - i,
{
    if i < s.len() {
        if ascii_space(s[i]) {
            lemma_after_spacing(s, i + 1);
        } else if i < element_end(s, i) <= s.len() {
            lemma_after_spacing(s, element_end(s, i));
        }
    }
}

proof fn lemma_closing_bracket(s: Seq<char>, i: int, depth: int)
    requires
        0 <= i <= s.len(),
    ensures
        closing_bracket(s, i, depth) matches Some(end) ==> i <= end < s.len(),
    decreases s.len() - i,
{
    if i < s.len() {
        if i < element_end(s, i) <= s.len() {
            lemma_closing_bracket(s, element_end(s, i), depth);
        } else if s[i] == '(' {
            lemma_closing_bracket(s, i + 1, depth + 1);
        } else if s[i] == ')' {
            if depth != 1 {
                lemma_closing_bracket(s, i + 1, depth - 1);
            }
        } else {
            lemma_closing_bracket(s, i + 1, depth);
        }
    }
}

fn skip_spacing(s: &Vec<char>, start: usize) -> (r: usize)
    requires
        start <= s@.len(),
    ensures
        r == after_spacing(s@, start as int),
        start <= r <= s@.len(),
{
    let mut i: usize = start;
    while i < s.len()
        invariant
            start <= i <= s@.len(),
            after_spacing(s@, start as int) == after_spacing(s@, i as int),
        decreases s@.len() - i,
    {
        if is_ascii_space(s[i]) {
            i = i + 1;
        } else {
            let end: usize = skip_lexical_element(s, i);
            if end == i {
                return i;
            }
            i = end;
        }
    }
    i
}

/// The bracket that matches the open bracket at `start`.
fn find_closing_bracket(s: &Vec<char>, start: usize) -> (r: Option<usize>)
    requires
        start < s@.len(),
        s@[start as int] == '(',
    ensures
        match r {
            Some(end) => closing_bracket(s@, start as int, 0) == Some(end as int) && start <= end
                < s@.len(),
            None => closing_bracket(s@, start as int, 0) is None,
        },
{
    let mut i: usize = start;
    let mut depth: usize = 0;
    while i < s.len()
        invariant
            start <= i <= s@.len(),
            start < s@.len(),
            s@[start as int] == '(',
            depth <= i - start,
            i > start ==> depth >= 1,
            closing_bracket(s@, start as int, 0) == closing_bracket(s@, i as int, depth as int),
        decreases s@.len() - i,
    {
        let end: usize = skip_lexical_element(s, i);
        if end != i {
            i = end;
        } else {
            if s[i] == '(' {
                depth = depth + 1;
            } else if s[i] == ')' {
                if depth == 1 {
                    return Some(i);
                }
                depth = depth - 1;
            }
            i = i + 1;
        }
    }
    None
}

/// The CHECK clauses of a statement, as they are written.
pub fn extract_check_constraints(sql: &str) -> (r: Vec<String>)
    ensures
        string_views(r@) == check_clauses(sql@),
{
    let s = to_chars(sql);
    let mut clauses: Vec<String> = Vec::new();
    let mut i: usize = 0;
    proof {
        reveal_strlit("check");
        assert(string_views(clauses@) =~= Seq::empty());
        assert(Seq::<Seq<char>>::empty() + check_clauses(sql@) =~= check_clauses(sql@));
    }
    while i < s.len()
        invariant
            i <= s@.len(),
            s@ == sql@,
            "check"@.len() == 5,
            check_clauses(sql@) == string_views(clauses@) + clauses_from(s@, i as int),
        decreases s@.len() - i,
    {
        proof {
            lemma_element_end(s@, i as int);
        }
        let skipped: usize = skip_lexical_element(&s, i);
        if skipped != i {
            i = skipped;
            continue ;
        }
        let end: Option<usize> = find_clause_end(&s, i);
        match end {
            Some(end) => {
                let mut clause: Vec<char> = Vec::new();
                let mut k: usize = i;
                while k <= end
                    invariant
                        i <= k <= end + 1,
                        end < s.len(),
                        clause@ == s@.subrange(i as int, k as int),
                    decreases end + 1 - k,
                {
                    clause.push(s[k]);
                    k = k + 1;
                    proof {
                        assert(clause@ =~= s@.subrange(i as int, k as int));
                    }
                }
                let ghost earlier = string_views(clauses@);
                let text = from_chars(clause.as_slice());
                clauses.push(text);
                proof {
                    let found = s@.subrange(i as int, end + 1);
                    assert(string_views(clauses@) =~= earlier.push(found));
                    assert(earlier + (seq![found] + clauses_from(s@, end + 1))
                        =~= earlier.push(found) + clauses_from(s@, end + 1));
                }
                i = end + 1;
            },
            None => {
                i = i + 1;
            },
        }
    }
    proof {
        assert(string_views(clauses@) + Seq::<Seq<char>>::empty() =~= string_views(clauses@));
    }
    clauses
}

fn find_clause_end(s: &Vec<char>, i: usize) -> (r: Option<usize>)
    requires
        i < s@.len(),
    ensures
        match r {
            Some(end) => clause_end(s@, i as int) == Some(end as int) && i <= end < s@.len(),
            None => clause_end(s@, i as int) is None,
        },
{
    proof {
        reveal_strlit("check");
    }
    if !is_word_at(s, i, "check") {
        return None;
    }
    let length: usize = s.len();
    proof {
        assert(i + 5 <= length);
    }
    let open: usize = skip_spacing(s, i + 5);
    if open < s.len() && s[open] == '(' {
        find_closing_bracket(s, open)
    } else {
        None
    }
}

// ---------------------------------------------------------------------------
// Comparing clauses
// ---------------------------------------------------------------------------
/// The first position from `i` on that is neither whitespace nor part of a comment.
pub open spec fn after_comments(s: Seq<char>, i: int) -> int
    decreases s.len() - i,
{
    if i < 0 || i >= s.len() {
        i
    } else if ascii_space(s[i]) {
        after_comments(s, i + 1)
    } else if comment_at(s, i) && i < element_end(s, i) <= s.len() {
        after_comments(s, element_end(s, i))
    } else {
        i
    }
}

/// The first position from `i` on that holds no identifier character.
pub open spec fn after_identifier(s: Seq<char>, i: int) -> int
    decreases s.len() - i,
{
    if 0 <= i < s.len() && identifier_char(s[i]) {
        after_identifier(s, i + 1)
    } else {
        i
    }
}

/// Just behind the name that stands at `i`, bare or quoted.
pub open spec fn after_name(s: Seq<char>, i: int) -> int {
    if char_at(s, i, '"') || char_at(s, i, '[') || char_at(s, i, '`') {
        element_end(s, i)
    } else {
        after_identifier(s, i)
    }
}

/// `s` in lower case and without whitespace.
pub open spec fn squeezed(s: Seq<char>) -> Seq<char>
    decreases s.len(),
{
    if s.len() == 0 {
        Seq::empty()
    } else if whitespace(s.last()) {
        squeezed(s.drop_last())
    } else {
        squeezed(s.drop_last()) + lowered_char(s.last())
    }
}

/// A CHECK clause in a form that can be compared: without the name of its
/// constraint, in lower case, without whitespace.
pub open spec fn normal_check(s: Seq<char>) -> Seq<char> {
    let start = after_comments(s, 0);
    if word_at(s, start, "constraint"@) {
        let name = after_comments(s, start + 10);
        squeezed(s.skip(after_comments(s, after_name(s, name))))
    } else {
        squeezed(s)
    }
}

/// The first position from `start` on that is neither whitespace nor part of a comment.
pub fn skip_whitespace_and_comments(s: &Vec<char>, start: usize) -> (r: usize)
    requires
        start <= s@.len(),
    ensures
        r == after_comments(s@, start as int),
        start <= r <= s@.len(),
{
    let mut i: usize = start;
    while i < s.len()
        invariant
            start <= i <= s@.len(),
            after_comments(s@, start as int) == after_comments(s@, i as int),
        decreases s@.len() - i,
    {
        if is_ascii_space(s[i]) {
            i = i + 1;
        } else {
            let more: bool = i + 1 < s.len();
            let comment: bool = (s[i] == '-' && more && s[i + 1] == '-') || (s[i] == '/' && more
                && s[i + 1] == '*');
            if !comment {
                return i;
            }
            proof {
                lemma_element_end(s@, i as int);
            }
            i = skip_lexical_element(s, i);
        }
    }
    i
}

/// `sql` in lower case and without whitespace.
pub fn normalize_sql(sql: &str) -> (r: String)
    ensures
        r@ == squeezed(sql@),
{
    let s = to_chars(sql);
    proof {
        assert(s@.skip(0) =~= s@);
    }
    normalize_chars(&s, 0)
}

fn normalize_chars(s: &Vec<char>, start: usize) -> (r: String)
    requires
        start <= s@.len(),
    ensures
        r@ == squeezed(s@.skip(start as int)),
{
    let mut kept: Vec<char> = Vec::new();
    let mut i: usize = start;
    let ghost rest = s@.skip(start as int);
    proof {
        assert(rest.take(0) =~= Seq::<char>::empty());
    }
    while i < s.len()
        invariant
            start <= i <= s@.len(),
            rest == s@.skip(start as int),
            kept@ == squeezed(rest.take(i - start)),
        decreases s@.len() - i,
    {
        let c: char = s[i];
        proof {
            assert(rest.take(i + 1 - start).drop_last() =~= rest.take(i - start));
            assert(rest.take(i + 1 - start).last() == c);
        }
        if !is_whitespace(c) {
            let mut lower = lower_char(c);
            kept.append(&mut lower);
        }
        i = i + 1;
    }
    proof {
        assert(rest.take(rest.len() as int) =~= rest);
    }
    from_chars(kept.as_slice())
}

/// A CHECK clause in a form that can be compared.
pub fn normalize_check(clause: &str) -> (r: String)
    ensures
        r@ == normal_check(clause@),
{
    let s = to_chars(clause);
    proof {
        reveal_strlit("constraint");
        assert(s@.skip(0) =~= s@);
    }
    let start: usize = skip_whitespace_and_comments(&s, 0);
    if !is_word_at(&s, start, "constraint") {
        return normalize_chars(&s, 0);
    }
    let mut name: usize = skip_whitespace_and_comments(&s, start + 10);
    if name < s.len() && (s[name] == '"' || s[name] == '[' || s[name] == '`') {
        name = skip_lexical_element(&s, name);
    } else {
        let ghost first = name as int;
        while name < s.len() && is_identifier_char(s[name])
            invariant
                name <= s@.len(),
                after_identifier(s@, first) == after_identifier(s@, name as int),
            decreases s@.len() - name,
        {
            name = name + 1;
        }
    }
    let rest: usize = skip_whitespace_and_comments(&s, name);
    normalize_chars(&s, rest)
}

// ---------------------------------------------------------------------------
// Laws
// ---------------------------------------------------------------------------
/// A text that is one string, comment or quoted identifier holds no clause,
/// whatever stands in it.
pub proof fn law_elements_hide_checks(s: Seq<char>)
    requires
        s.len() > 0,
        element_end(s, 0) == s.len(),
    ensures
        check_clauses(s) == Seq::<Seq<char>>::empty(),
{
    reveal_with_fuel(clauses_from, 2);
}

/// Every clause that is found is a part of the text.
pub proof fn law_clauses_are_parts(s: Seq<char>, i: int, k: int)
    requires
        0 <= i <= s.len(),
        0 <= k < clauses_from(s, i).len(),
    ensures
        exists|a: int, b: int|
            i <= a < b <= s.len() && clauses_from(s, i)[k] == #[trigger] s.subrange(a, b),
    decreases s.len() - i,
{
    if i < s.len() {
        lemma_element_end(s, i);
        if i < element_end(s, i) {
            law_clauses_are_parts(s, element_end(s, i), k);
        } else {
            match clause_end(s, i) {
                Some(end) if i <= end < s.len() => {
                    if k == 0 {
                        assert(clauses_from(s, i)[0] == s.subrange(i, end + 1));
                    } else {
                        law_clauses_are_parts(s, end + 1, k - 1);
                    }
                },
                _ => {
                    law_clauses_are_parts(s, i + 1, k);
                },
            }
        }
    }
}

proof fn lemma_quote_ends(s: Seq<char>, j: int, end: int, quote: char)
    requires
        0 <= j <= end < s.len(),
        forall|k: int| j <= k < end ==> #[trigger] s[k] != quote,
        s[end] == quote,
        !char_at(s, end + 1, quote),
    ensures
        quoted_end(s, j, quote) == end + 1,
    decreases end - j,
{
    if j < end {
        lemma_quote_ends(s, j + 1, end, quote);
    }
}

proof fn lemma_first_there(s: Seq<char>, j: int, end: int, c: char)
    requires
        0 <= j <= end <= s.len(),
        forall|k: int| j <= k < end ==> #[trigger] s[k] != c,
        end < s.len() ==> s[end] == c,
    ensures
        first_from(s, j, c) == end,
    decreases end - j,
{
    if j < end {
        lemma_first_there(s, j + 1, end, c);
    }
}

proof fn lemma_block_ends(s: Seq<char>, j: int, end: int)
    requires
        0 <= j <= end,
        end + 1 < s.len(),
        forall|k: int| j <= k < end ==> #[trigger] s[k] != '*',
        s[end] == '*',
        s[end + 1] == '/',
    ensures
        block_end(s, j) == end + 2,
    decreases end - j,
{
    if j < end {
        lemma_block_ends(s, j + 1, end);
    }
}

/// A string goes from a quote to the next, a quoted name likewise, one in square brackets
/// to the closing bracket, and one in backticks to the next backtick.
pub proof fn law_where_quotes_end(before: Seq<char>, inner: Seq<char>, rest: Seq<char>, quote: char)
    requires
        !inner.contains(quote),
        rest.len() > 0 ==> rest[0] != quote,
    ensures
        ({
            let s = before + (seq![quote] + (inner + (seq![quote] + rest)));
            let n = before.len() as int;
            quote == '\'' || quote == '"' || quote == '`' ==> element_end(s, n) == n + inner.len()
                + 2
        }),
{
    let s = before + (seq![quote] + (inner + (seq![quote] + rest)));
    let n = before.len() as int;
    let end = n + 1 + inner.len();
    assert(s[n] == quote);
    assert(s[end] == quote);
    assert forall|k: int| n + 1 <= k < end implies #[trigger] s[k] != quote by {
        assert(s[k] == inner[k - n - 1]);
    }
    if rest.len() > 0 {
        assert(s[end + 1] == rest[0]);
    }
    lemma_quote_ends(s, n + 1, end, quote);
    lemma_first_there(s, n + 1, end, quote);
}

/// A quote that is doubled does not end a string.
pub proof fn law_doubled_quote(s: Seq<char>, j: int, quote: char)
    requires
        0 <= j,
        j + 1 < s.len(),
        s[j] == quote,
        s[j + 1] == quote,
    ensures
        quoted_end(s, j, quote) == quoted_end(s, j + 2, quote),
{
}

/// A name in square brackets ends with the bracket, a comment of one line before the next
/// line, and a comment of several lines behind its closing mark.
pub proof fn law_where_comments_end(before: Seq<char>, inner: Seq<char>, rest: Seq<char>)
    ensures
        ({
            let n = before.len() as int;
            &&& !inner.contains(']') ==> element_end(
                before + (seq!['['] + (inner + (seq![']'] + rest))),
                n,
            ) == n + inner.len() + 2
            &&& !inner.contains('\n') ==> element_end(
                before + (seq!['-', '-'] + (inner + (seq!['\n'] + rest))),
                n,
            ) == n + inner.len() + 2
            &&& !inner.contains('*') ==> element_end(
                before + (seq!['/', '*'] + (inner + (seq!['*', '/'] + rest))),
                n,
            ) == n + inner.len() + 4
        }),
{
    let n = before.len() as int;
    let m = inner.len() as int;
    if !inner.contains(']') {
        let s = before + (seq!['['] + (inner + (seq![']'] + rest)));
        assert(s[n] == '[');
        assert(s[n + 1 + m] == ']');
        assert forall|k: int| n + 1 <= k < n + 1 + m implies #[trigger] s[k] != ']' by {
            assert(s[k] == inner[k - n - 1]);
        }
        lemma_first_there(s, n + 1, n + 1 + m, ']');
    }
    if !inner.contains('\n') {
        let s = before + (seq!['-', '-'] + (inner + (seq!['\n'] + rest)));
        assert(s[n] == '-' && s[n + 1] == '-');
        assert(s[n + 2 + m] == '\n');
        assert forall|k: int| n + 2 <= k < n + 2 + m implies #[trigger] s[k] != '\n' by {
            assert(s[k] == inner[k - n - 2]);
        }
        lemma_first_there(s, n + 2, n + 2 + m, '\n');
    }
    if !inner.contains('*') {
        let s = before + (seq!['/', '*'] + (inner + (seq!['*', '/'] + rest)));
        assert(s[n] == '/' && s[n + 1] == '*');
        assert(s[n + 2 + m] == '*' && s[n + 3 + m] == '/');
        assert forall|k: int| n + 2 <= k < n + 2 + m implies #[trigger] s[k] != '*' by {
            assert(s[k] == inner[k - n - 2]);
        }
        lemma_block_ends(s, n + 2, n + 2 + m);
    }
}

/// Whether a character neither begins what is quoted or a comment nor is a bracket.
pub open spec fn ordinary(c: char) -> bool {
    c != '\'' && c != '"' && c != '[' && c != '`' && c != '-' && c != '/' && c != '(' && c != ')'
}

proof fn lemma_no_element(s: Seq<char>, i: int)
    requires
        0 <= i < s.len(),
        s[i] != '\'' && s[i] != '"' && s[i] != '[' && s[i] != '`' && s[i] != '-' && s[i] != '/',
    ensures
        element_end(s, i) == i,
{
}

proof fn lemma_closes(s: Seq<char>, i: int, end: int)
    requires
        0 <= i <= end < s.len(),
        forall|k: int| i <= k < end ==> ordinary(#[trigger] s[k]),
        s[end] == ')',
    ensures
        closing_bracket(s, i, 1) == Some(end),
    decreases end - i,
{
    if i < end {
        assert(ordinary(s[i]));
        lemma_no_element(s, i);
        lemma_closes(s, i + 1, end);
    } else {
        lemma_no_element(s, i);
    }
}

proof fn lemma_spaces_pass(s: Seq<char>, i: int, end: int)
    requires
        0 <= i <= end < s.len(),
        forall|k: int| i <= k < end ==> ascii_space(#[trigger] s[k]),
        !ascii_space(s[end]),
        element_end(s, end) == end,
    ensures
        after_spacing(s, i) == end,
        after_comments(s, i) == end,
    decreases end - i,
{
    if i < end {
        assert(ascii_space(s[i]));
        lemma_spaces_pass(s, i + 1, end);
    }
}

proof fn lemma_clause_at(s: Seq<char>, n: int, open: int, end: int)
    requires
        0 <= n,
        n + 5 <= open < end < s.len(),
        forall|k: int| 0 <= k < 5 ==> ascii_lower(#[trigger] s[n + k]) == "check"@[k],
        n > 0 ==> !identifier_char(s[n - 1]),
        forall|k: int| n + 5 <= k < open ==> ascii_space(#[trigger] s[k]),
        s[open] == '(',
        forall|k: int| open + 1 <= k < end ==> ordinary(#[trigger] s[k]),
        s[end] == ')',
    ensures
        clauses_from(s, n) == seq![s.subrange(n, end + 1)] + clauses_from(s, end + 1),
{
    reveal_strlit("check");
    assert("check"@.len() == 5);
    assert("check"@[0] == 'c');
    assert(ascii_lower(s[n + 0]) == 'c');
    lemma_no_element(s, n);
    lemma_no_element(s, open);
    assert(!ascii_space(s[open]));
    lemma_spaces_pass(s, n + 5, open);
    if open > n + 5 {
        assert(ascii_space(s[n + 5]));
    }
    assert(word_at(s, n, "check"@));
    lemma_closes(s, open + 1, end);
    assert(closing_bracket(s, open, 0) == closing_bracket(s, open + 1, 1));
    assert(clause_end(s, n) == Some(end));
}

/// A CHECK clause is found where it stands, in letters of either case, from its word to
/// the bracket that closes it; what follows is searched for more.
pub proof fn law_clause_is_found(
    before: Seq<char>,
    word: Seq<char>,
    spaces: Seq<char>,
    inner: Seq<char>,
    rest: Seq<char>,
)
    requires
        word.len() == 5,
        forall|k: int| 0 <= k < 5 ==> ascii_lower(#[trigger] word[k]) == "check"@[k],
        before.len() > 0 ==> !identifier_char(before.last()),
        forall|k: int| 0 <= k < spaces.len() ==> ascii_space(#[trigger] spaces[k]),
        forall|k: int| 0 <= k < inner.len() ==> ordinary(#[trigger] inner[k]),
    ensures
        ({
            let clause = word + (spaces + (seq!['('] + (inner + seq![')'])));
            let s = before + (clause + rest);
            clauses_from(s, before.len() as int) == seq![clause] + clauses_from(
                s,
                (before.len() + clause.len()) as int,
            )
        }),
{
    let clause = word + (spaces + (seq!['('] + (inner + seq![')'])));
    let s = before + (clause + rest);
    let n = before.len() as int;
    let open = n + 5 + spaces.len();
    let end = open + 1 + inner.len();
    assert(clause.len() == 7 + spaces.len() + inner.len());
    assert forall|k: int| 0 <= k < clause.len() implies #[trigger] s[n + k] == clause[k] by {
    }
    assert forall|k: int| 0 <= k < 5 implies ascii_lower(#[trigger] s[n + k]) == "check"@[k] by {
        assert(clause[k] == word[k]);
    }
    if n > 0 {
        assert(s[n - 1] == before.last());
    }
    assert forall|k: int| n + 5 <= k < open implies ascii_space(#[trigger] s[k]) by {
        assert(s[n + (k - n)] == clause[k - n]);
        assert(clause[k - n] == spaces[k - n - 5]);
    }
    assert(s[n + (open - n)] == clause[open - n]);
    assert(clause[open - n] == '(');
    assert forall|k: int| open + 1 <= k < end implies ordinary(#[trigger] s[k]) by {
        assert(s[n + (k - n)] == clause[k - n]);
        assert(clause[k - n] == inner[k - open - 1]);
    }
    assert(s[n + (end - n)] == clause[end - n]);
    assert(clause[end - n] == ')');
    lemma_clause_at(s, n, open, end);
    assert(s.subrange(n, end + 1) =~= clause);
}

/// Clauses are compared in lower case and without whitespace, each part by itself.
pub proof fn law_squeezed(left: Seq<char>, right: Seq<char>, c: char)
    ensures
        whitespace(c) ==> squeezed(seq![c]) == Seq::<char>::empty(),
        !whitespace(c) ==> squeezed(seq![c]) == lowered_char(c),
        squeezed(left + right) == squeezed(left) + squeezed(right),
    decreases right.len(),
{
    reveal_with_fuel(squeezed, 2);
    assert(seq![c].drop_last() =~= Seq::empty());
    assert(Seq::<char>::empty() + lowered_char(c) =~= lowered_char(c));
    if right.len() == 0 {
        assert(left + right =~= left);
        assert(squeezed(left) + squeezed(right) =~= squeezed(left));
    } else {
        law_squeezed(left, right.drop_last(), c);
        assert((left + right).drop_last() =~= left + right.drop_last());
        assert((left + right).last() == right.last());
        assert(squeezed(left + right) =~= squeezed(left) + squeezed(right));
    }
}

/// The name of a constraint counts for nothing: with it and without it a clause is the
/// same.
pub proof fn law_name_of_a_constraint(name: Seq<char>, clause: Seq<char>)
    requires
        name.len() > 0,
        forall|k: int| 0 <= k < name.len() ==> identifier_char(#[trigger] name[k]),
        clause.len() > 0,
        clause[0] == 'c' || clause[0] == 'C',
        !word_at(clause, 0, "constraint"@),
    ensures
        normal_check("constraint"@ + (seq![' '] + (name + (seq![' '] + clause)))) == squeezed(
            clause,
        ),
        normal_check(clause) == squeezed(clause),
{
    reveal_strlit("constraint");
    let word = "constraint"@;
    let s = word + (seq![' '] + (name + (seq![' '] + clause)));
    let n = name.len() as int;
    assert(word.len() == 10);
    assert(s[0] == 'c');
    lemma_no_element(s, 0);
    lemma_no_element(clause, 0);
    lemma_spaces_pass(s, 0, 0);
    lemma_spaces_pass(clause, 0, 0);
    assert forall|k: int| 0 <= k < 10 implies ascii_lower(#[trigger] s[0 + k]) == word[k] by {
        assert(s[k] == word[k]);
    }
    assert(s[10] == ' ');
    assert(word_at(s, 0, word));
    assert(s[11] == name[0]);
    assert(identifier_char(name[0]));
    lemma_no_element(s, 11);
    lemma_spaces_pass(s, 10, 11);
    assert forall|k: int| 11 <= k < 11 + n implies identifier_char(#[trigger] s[k]) by {
        assert(s[k] == name[k - 11]);
    }
    assert(s[11 + n] == ' ');
    lemma_identifier_ends(s, 11, 11 + n);
    assert(s[12 + n] == clause[0]);
    lemma_no_element(s, 12 + n);
    lemma_spaces_pass(s, 11 + n, 12 + n);
    assert(s.skip(12 + n) =~= clause);
}

proof fn lemma_identifier_ends(s: Seq<char>, i: int, end: int)
    requires
        0 <= i <= end < s.len(),
        forall|k: int| i <= k < end ==> identifier_char(#[trigger] s[k]),
        !identifier_char(s[end]),
    ensures
        after_identifier(s, i) == end,
    decreases end - i,
{
    if i < end {
        assert(identifier_char(s[i]));
        lemma_identifier_ends(s, i + 1, end);
    }
}

} // verus!
