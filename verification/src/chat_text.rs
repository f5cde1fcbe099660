//! The text of chat commands.
use vstd::prelude::*;
use crate::config::checks::lowered;
use crate::config::checks::to_lowered;
use crate::scan::{all_of, law_without_leading, law_without_trailing, law_words_of};
use crate::scan::occurs_at;
use crate::scan::slice;
use crate::scan::split_words;
use crate::scan::stands_at;
use crate::scan::trim_leading;
use crate::scan::trim_trailing;
use crate::scan::without_leading;
use crate::scan::without_trailing;
use crate::scan::words;
use crate::text::from_chars;
use crate::text::is_whitespace;
use crate::text::join;
use crate::text::joined;
use crate::text::law_trim;
use crate::text::owned;
use crate::text::str_equal;
use crate::text::to_chars;
use crate::text::trim_chars;
use crate::text::trimmed;
use crate::text::whitespace;

verus! {

/// What stands between a command and its argument.
pub open spec fn separators() -> Seq<char> {
    seq!['：', ':', ' ', '\t']
}

/// Brackets that end a message.
pub open spec fn closers() -> Seq<char> {
    seq![']', '】']
}

/// What stands between a command and its argument.
pub fn separator_chars() -> (r: Vec<char>)
    ensures
        r@ == separators(),
{
    let set = vec!['：', ':', ' ', '\t'];
    assert(set@ =~= separators());
    set
}

/// Brackets that end a message.
pub fn closer_chars() -> (r: Vec<char>)
    ensures
        r@ == closers(),
{
    let set = vec![']', '】'];
    assert(set@ =~= closers());
    set
}

/// A command with what was said behind it.
#[derive(Debug)]
pub struct CommandSyntax<T> {
    pub matched: &'static str,
    pub argument: String,
    pub command: T,
}

/// What stands behind a prefix, in which ASCII letters may be in either case.
pub open spec fn after_prefix(text: Seq<char>, prefix: Seq<char>) -> Option<Seq<char>> {
    if prefix.len() <= text.len() && lowered(text.take(prefix.len() as int)) == lowered(prefix) {
        Some(text.skip(prefix.len() as int))
    } else {
        None
    }
}

/// What stands behind a prefix, in which ASCII letters may be in either case.
pub fn strip_ascii_case_prefix(text: &str, prefix: &str) -> (r: Option<String>)
    ensures
        match r {
            Some(rest) => after_prefix(text@, prefix@) == Some(rest@),
            None => after_prefix(text@, prefix@) is None,
        },
{
    let chars = to_chars(text);
    let start: usize = to_chars(prefix).len();
    if chars.len() < start {
        return None;
    }
    let head = slice(&chars, 0, start);
    assert(head@ =~= text@.take(prefix@.len() as int));
    let head_text = from_chars(head.as_slice());
    if !str_equal(to_lowered(head_text.as_str()).as_str(), to_lowered(prefix).as_str()) {
        return None;
    }
    let rest = slice(&chars, start, chars.len());
    assert(rest@ =~= text@.skip(prefix@.len() as int));
    Some(from_chars(rest.as_slice()))
}

/// The argument behind a command: without what separates it, without brackets
/// that end the message, without whitespace around it.
pub open spec fn argument_of(rest: Seq<char>) -> Seq<char> {
    trimmed(without_trailing(without_leading(rest, separators()), closers()))
}

/// The argument behind a command.
pub fn clean_argument(rest: &str) -> (r: String)
    ensures
        r@ == argument_of(rest@),
{
    let chars = to_chars(rest);
    let started = trim_leading(&chars, &separator_chars());
    let ended = trim_trailing(&started, &closer_chars());
    from_chars(trim_chars(ended.as_slice()).as_slice())
}

/// The argument of a command, where a text is that command: nothing follows it
/// with a slash, and there is no argument where none is allowed.
pub open spec fn prefixed_argument(
    text: Seq<char>,
    prefix: Seq<char>,
    allows_argument: bool,
) -> Option<Seq<char>> {
    match after_prefix(text, prefix) {
        Some(rest) => if rest.len() > 0 && rest[0] == '/' {
            None
        } else if allows_argument || argument_of(rest).len() == 0 {
            Some(argument_of(rest))
        } else {
            None
        },
        None => None,
    }
}

/// The argument of a command, where a text is that command.
pub fn parse_prefixed_command(text: &str, prefix: &str, allows_argument: bool) -> (r: Option<
    String,
>)
    ensures
        match r {
            Some(argument) => prefixed_argument(text@, prefix@, allows_argument) == Some(
                argument@,
            ),
            None => prefixed_argument(text@, prefix@, allows_argument) is None,
        },
{
    match strip_ascii_case_prefix(text, prefix) {
        Some(rest) => {
            let chars = to_chars(rest.as_str());
            if chars.len() > 0 && chars[0] == '/' {
                return None;
            }
            let argument = clean_argument(rest.as_str());
            if allows_argument || to_chars(argument.as_str()).len() == 0 {
                Some(argument)
            } else {
                None
            }
        },
        None => None,
    }
}

/// What stands behind a prefix that is written exactly so.
pub open spec fn after_exact_prefix(text: Seq<char>, prefix: Seq<char>) -> Option<Seq<char>> {
    if occurs_at(text, prefix, 0) {
        Some(text.skip(prefix.len() as int))
    } else {
        None
    }
}

/// What stands behind a prefix that is written exactly so.
pub fn strip_exact_prefix(text: &str, prefix: &str) -> (r: Option<String>)
    ensures
        match r {
            Some(rest) => after_exact_prefix(text@, prefix@) == Some(rest@),
            None => after_exact_prefix(text@, prefix@) is None,
        },
{
    let chars = to_chars(text);
    let head = to_chars(prefix);
    if !stands_at(&chars, &head, 0) {
        return None;
    }
    let rest = slice(&chars, head.len(), chars.len());
    assert(rest@ =~= text@.skip(prefix@.len() as int));
    Some(from_chars(rest.as_slice()))
}

/// The argument of a shortcut, where there is one.
pub open spec fn shortcut(payload: Seq<char>, prefix: Seq<char>) -> Option<Seq<char>> {
    match after_exact_prefix(payload, prefix) {
        Some(rest) => {
            let value = trimmed(without_leading(rest, separators()));
            if value.len() > 0 {
                Some(value)
            } else {
                None
            }
        },
        None => None,
    }
}

/// The argument of a shortcut, where there is one.
pub fn shortcut_argument(payload: &str, prefix: &str) -> (r: Option<String>)
    ensures
        match r {
            Some(value) => shortcut(payload@, prefix@) == Some(value@),
            None => shortcut(payload@, prefix@) is None,
        },
{
    match strip_exact_prefix(payload, prefix) {
        Some(rest) => {
            let started = trim_leading(&to_chars(rest.as_str()), &separator_chars());
            let value = trim_chars(started.as_slice());
            if value.len() > 0 {
                Some(from_chars(value.as_slice()))
            } else {
                None
            }
        },
        None => None,
    }
}

/// A text without whitespace.
pub open spec fn compact(s: Seq<char>) -> Seq<char>
    decreases s.len(),
{
    if s.len() == 0 {
        Seq::empty()
    } else if whitespace(s.last()) {
        compact(s.drop_last())
    } else {
        compact(s.drop_last()).push(s.last())
    }
}

/// A text without whitespace.
pub fn compact_command(payload: &str) -> (r: String)
    ensures
        r@ == compact(payload@),
{
    let chars = to_chars(payload);
    let mut out: Vec<char> = Vec::new();
    let mut i: usize = 0;
    assert(chars@.take(0) =~= Seq::empty());
    assert(out@ =~= Seq::empty());
    while i < chars.len()
        invariant
            i <= chars@.len(),
            out@ == compact(chars@.take(i as int)),
        decreases chars@.len() - i,
    {
        assert(chars@.take(i + 1).drop_last() =~= chars@.take(i as int));
        if !is_whitespace(chars[i]) {
            out.push(chars[i]);
        }
        i = i + 1;
    }
    assert(chars@.take(chars@.len() as int) =~= chars@);
    from_chars(out.as_slice())
}

/// Whether a command can end before a character, or where there is none.
pub open spec fn command_boundary(c: Option<char>) -> bool {
    match c {
        None => true,
        Some(c) => {
            ||| whitespace(c)
            ||| c == '，'
            ||| c == ','
            ||| c == '。'
            ||| c == '.'
            ||| c == '!'
            ||| c == '！'
            ||| c == '?'
            ||| c == '？'
            ||| c == ']'
            ||| c == '】'
        },
    }
}

/// Whether a command can end before a character, or where there is none.
pub fn is_command_boundary(c: Option<char>) -> (r: bool)
    ensures
        r == command_boundary(c),
{
    match c {
        None => true,
        Some(c) => is_whitespace(c) || c == '，' || c == ',' || c == '。' || c == '.' || c == '!'
            || c == '！' || c == '?' || c == '？' || c == ']' || c == '】',
    }
}

/// The first character of a text.
pub open spec fn first_char(s: Seq<char>) -> Option<char> {
    if s.len() > 0 {
        Some(s[0])
    } else {
        None
    }
}

/// The first character of a text.
pub fn leading_char(text: &str) -> (r: Option<char>)
    ensures
        r == first_char(text@),
{
    let chars = to_chars(text);
    if chars.len() > 0 {
        Some(chars[0])
    } else {
        None
    }
}

/// What a text is compared by: its form for comparison, or, where that is empty,
/// its words with a space between each two.
pub open spec fn identity_of(text: Seq<char>, normalized: Seq<char>) -> Seq<char> {
    if normalized.len() == 0 {
        joined(words(text), " "@)
    } else {
        normalized
    }
}

/// What a text is compared by. `normalized` is its form for comparison.
pub fn command_identity(text: &str, normalized: &str) -> (r: String)
    ensures
        r@ == identity_of(text@, normalized@),
{
    if to_chars(normalized).len() == 0 {
        join(&split_words(text), " ")
    } else {
        owned(normalized)
    }
}

// ---------------------------------------------------------------------------
// What holds of it
// ---------------------------------------------------------------------------
/// Whether a text is made of what may stand between a command and its argument.
pub open spec fn gap(s: Seq<char>) -> bool {
    forall|i: int|
        0 <= i < s.len() ==> (#[trigger] s[i] == '：' || s[i] == ':' || s[i] == ' ' || s[i]
            == '\t')
}

/// Whether a text is made of brackets that end a message.
pub open spec fn brackets(s: Seq<char>) -> bool {
    forall|i: int| 0 <= i < s.len() ==> (#[trigger] s[i] == ']' || s[i] == '】')
}

/// Whether a text can be an argument: it neither starts with what stands before one
/// nor ends with what stands behind one, and has no whitespace at either end.
pub open spec fn clean(s: Seq<char>) -> bool {
    s.len() > 0 ==> {
        &&& !whitespace(s[0])
        &&& !whitespace(s.last())
        &&& s[0] != '：'
        &&& s[0] != ':'
        &&& s.last() != ']'
        &&& s.last() != '】'
    }
}

pub proof fn lemma_gap(s: Seq<char>)
    ensures
        gap(s) ==> all_of(s, separators()),
        brackets(s) ==> all_of(s, closers()),
{
    assert(separators()[0] == '：' && separators()[1] == ':' && separators()[2] == ' '
        && separators()[3] == '\t');
    assert(closers()[0] == ']' && closers()[1] == '】');
}

pub proof fn lemma_whitespace_apart()
    ensures
        whitespace(' '),
        whitespace('\t'),
        !whitespace('：'),
        !whitespace(':'),
        !whitespace('/'),
        !whitespace(']'),
        !whitespace('】'),
{
}

/// What stands behind a command, a gap and before closing brackets is its argument.
pub proof fn law_argument(before: Seq<char>, argument: Seq<char>, after: Seq<char>)
    requires
        gap(before),
        clean(argument),
        brackets(after),
    ensures
        argument_of(before + (argument + after)) == argument,
{
    lemma_gap(before);
    lemma_gap(after);
    lemma_whitespace_apart();
    let rest = argument + after;
    if rest.len() > 0 {
        assert(!separators().contains(rest[0])) by {
            if argument.len() > 0 {
                assert(rest[0] == argument[0]);
            } else {
                assert(rest[0] == after[0]);
            }
        }
    }
    law_without_leading(before, rest, separators());
    law_without_trailing(argument, after, closers());
    law_trim(Seq::empty(), argument, Seq::empty());
    assert(Seq::<char>::empty() + argument + Seq::<char>::empty() =~= argument);
}

/// A command with an argument is read as the command and that argument, where it may
/// have one; where it may have none, only without one is it the command. Its letters
/// may be in either case.
pub proof fn law_command_and_argument(
    word: Seq<char>,
    prefix: Seq<char>,
    before: Seq<char>,
    argument: Seq<char>,
    after: Seq<char>,
)
    requires
        word.len() == prefix.len(),
        lowered(word) == lowered(prefix),
        gap(before),
        clean(argument),
        brackets(after),
        before.len() == 0 && argument.len() > 0 ==> argument[0] != '/',
    ensures
        prefixed_argument(word + (before + (argument + after)), prefix, true) == Some(argument),
        prefixed_argument(word + (before + (argument + after)), prefix, false) == (
        if argument.len() == 0 {
            Some(argument)
        } else {
            None
        }),
{
    let rest = before + (argument + after);
    lemma_whole_prefix(word, rest);
    law_argument(before, argument, after);
    if rest.len() > 0 {
        if before.len() > 0 {
            assert(rest[0] == before[0]);
        } else if argument.len() > 0 {
            assert(rest[0] == argument[0]);
        } else {
            assert(rest[0] == after[0]);
        }
    }
}

pub proof fn lemma_whole_prefix(word: Seq<char>, rest: Seq<char>)
    ensures
        (word + rest).take(word.len() as int) == word,
        (word + rest).skip(word.len() as int) == rest,
        after_prefix(word + rest, word) == Some(rest),
        after_exact_prefix(word + rest, word) == Some(rest),
{
    assert((word + rest).take(word.len() as int) =~= word);
    assert((word + rest).skip(word.len() as int) =~= rest);
    assert((word + rest).subrange(0, word.len() as int) =~= word);
}

/// A command is not read from a text that starts otherwise, and not where a slash
/// follows it.
pub proof fn law_other_text_is_no_command(
    text: Seq<char>,
    prefix: Seq<char>,
    rest: Seq<char>,
    allows_argument: bool,
)
    ensures
        text.len() < prefix.len() || lowered(text.take(prefix.len() as int)) != lowered(prefix)
            ==> prefixed_argument(text, prefix, allows_argument) is None && after_prefix(
            text,
            prefix,
        ) is None,
        prefixed_argument(prefix + (seq!['/'] + rest), prefix, allows_argument) is None,
        after_exact_prefix(text, prefix) is Some ==> text == prefix + text.skip(
            prefix.len() as int,
        ),
        !(text.len() >= prefix.len() && text.take(prefix.len() as int) == prefix)
            ==> after_exact_prefix(text, prefix) is None,
{
    lemma_whole_prefix(prefix, seq!['/'] + rest);
    assert((seq!['/'] + rest)[0] == '/');
    if after_exact_prefix(text, prefix) is Some {
        assert(text.subrange(0, prefix.len() as int) =~= text.take(prefix.len() as int));
        assert(text =~= prefix + text.skip(prefix.len() as int));
    }
}

/// The argument of a shortcut is what follows it behind a gap; with nothing there it is
/// no shortcut.
pub proof fn law_shortcut(prefix: Seq<char>, before: Seq<char>, argument: Seq<char>)
    requires
        gap(before),
        clean(argument),
    ensures
        shortcut(prefix + (before + argument), prefix) == (if argument.len() == 0 {
            None
        } else {
            Some(argument)
        }),
{
    lemma_gap(before);
    lemma_whitespace_apart();
    lemma_whole_prefix(prefix, before + argument);
    law_without_leading(before, argument, separators());
    law_trim(Seq::empty(), argument, Seq::empty());
    assert(Seq::<char>::empty() + argument + Seq::<char>::empty() =~= argument);
}

/// All whitespace is left out of a text, and nothing else: a text without any stays,
/// and what stands on either side of a place is treated alike.
pub proof fn law_compact(left: Seq<char>, right: Seq<char>, c: char)
    ensures
        compact(Seq::empty()) == Seq::<char>::empty(),
        compact(seq![c]) == (if whitespace(c) {
            Seq::empty()
        } else {
            seq![c]
        }),
        compact(left + right) == compact(left) + compact(right),
    decreases right.len(),
{
    reveal_with_fuel(compact, 2);
    assert(seq![c].drop_last() =~= Seq::empty());
    assert(Seq::<char>::empty().push(c) =~= seq![c]);
    if right.len() == 0 {
        assert(left + right =~= left);
        assert(compact(left) + compact(right) =~= compact(left));
    } else {
        law_compact(left, right.drop_last(), c);
        assert((left + right).drop_last() =~= left + right.drop_last());
        assert((left + right).last() == right.last());
        if !whitespace(right.last()) {
            assert(compact(left + right) =~= compact(left) + compact(right));
        }
    }
}

/// A command can end at the end of a text, before whitespace, punctuation and closing
/// brackets, and before nothing else.
pub proof fn law_boundary(c: char)
    ensures
        command_boundary(None),
        whitespace(c) ==> command_boundary(Some(c)),
        seq!['，', ',', '。', '.', '!', '！', '?', '？', ']', '】'].contains(c)
            ==> command_boundary(Some(c)),
        !whitespace(c) && !seq!['，', ',', '。', '.', '!', '！', '?', '？', ']', '】'].contains(c)
            ==> !command_boundary(Some(c)),
{
    let marks = seq!['，', ',', '。', '.', '!', '！', '?', '？', ']', '】'];
    assert(marks[0] == '，' && marks[1] == ',' && marks[2] == '。' && marks[3] == '.' && marks[4]
        == '!' && marks[5] == '！' && marks[6] == '?' && marks[7] == '？' && marks[8] == ']'
        && marks[9] == '】');
}

/// A text is compared by its form for comparison; one that has none by its words, so
/// that whitespace round it or doubled makes no difference.
pub proof fn law_identity(text: Seq<char>, normalized: Seq<char>, word: Seq<char>)
    requires
        word.len() > 0,
        forall|i: int| 0 <= i < word.len() ==> !whitespace(#[trigger] word[i]),
    ensures
        normalized.len() > 0 ==> identity_of(text, normalized) == normalized,
        identity_of(word, Seq::empty()) == word,
        identity_of(seq![' '] + word, Seq::empty()) == word,
        identity_of(text + seq![' ', ' '] + word, Seq::empty()) == identity_of(
            text + seq![' '] + word,
            Seq::empty(),
        ),
{
    law_words_of(word, Seq::empty(), ' ', word);
    law_words_of(word, text, ' ', word);
    law_words_of(word, text, ' ', seq![' '] + word);
    law_words_of(word, Seq::empty(), ' ', Seq::empty());
    assert(Seq::<char>::empty() + seq![' '] + word =~= seq![' '] + word);
    assert(text + seq![' ', ' '] + word =~= text + seq![' '] + (seq![' '] + word));
    assert(Seq::<Seq<char>>::empty() + words(word) =~= words(word));
    assert(words(text) + words(seq![' '] + word) =~= words(text) + words(word));
    reveal_with_fuel(joined, 2);
    assert(joined(seq![word], " "@) =~= word);
}

} // verus!
