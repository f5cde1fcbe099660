//! Errors of single fields of a configuration, and how the field is found in
//! the text of an error.
use vstd::prelude::*;
use crate::scan::find;
use crate::scan::has_char;
use crate::scan::{lemma_occurrence, lemma_split_join, lemma_split_whole};
use crate::scan::occurrence;
use crate::scan::occurs_at;
use crate::scan::slice;
use crate::scan::split;
use crate::scan::split_on;
use crate::text::ascii_digit;
use crate::text::cat2;
use crate::text::cat3;
use crate::text::decimal;
use crate::text::format_usize;
use crate::text::from_chars;
use crate::text::is_ascii_digit;
use crate::text::owned;
use crate::text::to_chars;

verus! {

/// An error of one field.
#[derive(Clone, Debug)]
pub struct ConfigFieldError {
    /// The section of the field, or nothing where it is not known.
    pub section: String,
    /// The dotted path of the field, or nothing where it is not known.
    pub field: String,
    pub message: String,
}

/// An error of one field, as plain values.
#[verifier::ext_equal]
pub struct FieldErrorView {
    pub section: Seq<char>,
    pub field: Seq<char>,
    pub message: Seq<char>,
}

impl View for ConfigFieldError {
    type V = FieldErrorView;

    open spec fn view(&self) -> FieldErrorView {
        FieldErrorView { section: self.section@, field: self.field@, message: self.message@ }
    }
}

/// The views of errors.
pub open spec fn error_views(errors: Seq<ConfigFieldError>) -> Seq<FieldErrorView> {
    Seq::new(errors.len(), |i: int| errors[i]@)
}

/// The errors of a configuration.
#[derive(Debug)]
pub struct ConfigFieldErrors {
    pub errors: Vec<ConfigFieldError>,
}

/// One line for each error.
pub open spec fn error_lines(errors: Seq<FieldErrorView>) -> Seq<char>
    decreases errors.len(),
{
    if errors.len() == 0 {
        Seq::empty()
    } else {
        error_lines(errors.drop_last()) + ("\n- "@ + errors.last().message)
    }
}

impl ConfigFieldErrors {
    /// The text of the errors.
    pub fn message(&self) -> (r: String)
        ensures
            r@ == "配置校验失败，共 "@ + decimal(self.errors@.len()) + " 个字段错误:"@
                + error_lines(error_views(self.errors@)),
    {
        let count = format_usize(self.errors.len());
        let head = cat3("配置校验失败，共 ", count.as_str(), " 个字段错误:");
        let mut lines: String = String::new();
        let mut i: usize = 0;
        let ghost views = error_views(self.errors@);
        while i < self.errors.len()
            invariant
                i <= self.errors@.len(),
                views == error_views(self.errors@),
                lines@ == error_lines(views.take(i as int)),
            decreases self.errors@.len() - i,
        {
            let line = cat2("\n- ", self.errors[i].message.as_str());
            proof {
                assert(views.take(i + 1).drop_last() =~= views.take(i as int));
                assert(views.take(i + 1).last() == self.errors@[i as int]@);
            }
            lines = cat2(lines.as_str(), line.as_str());
            i = i + 1;
        }
        assert(views.take(views.len() as int) =~= views);
        cat2(head.as_str(), lines.as_str())
    }
}

// ---------------------------------------------------------------------------
// The field in the text of an error
// ---------------------------------------------------------------------------
/// Whether a path can start with `c`.
pub open spec fn path_start(c: char) -> bool {
    'a' <= c <= 'z' || c == '_'
}

/// Whether a path can go on with `c`.
pub open spec fn path_part(c: char) -> bool {
    path_start(c) || ascii_digit(c) || c == '.'
}

/// How many characters at the start of `s` can be parts of a path.
pub open spec fn path_length(s: Seq<char>) -> nat
    decreases s.len(),
{
    if s.len() == 0 || !path_part(s[0]) {
        0
    } else {
        1 + path_length(s.drop_first())
    }
}

/// The first path in a text that has a dot. A path is as long as can be.
pub open spec fn dotted_path(s: Seq<char>) -> Option<Seq<char>>
    decreases s.len(),
{
    if s.len() == 0 {
        None
    } else if !path_start(s[0]) {
        dotted_path(s.drop_first())
    } else {
        let n = path_length(s);
        if s.take(n as int).contains('.') {
            Some(s.take(n as int))
        } else {
            proof {
                lemma_path_length(s);
            }
            dotted_path(s.skip(n as int))
        }
    }
}

/// What stands between `opening` and the next backtick.
pub open spec fn backticked_after(s: Seq<char>, opening: Seq<char>) -> Option<Seq<char>> {
    match occurrence(s, opening) {
        Some(i) => {
            let rest = s.skip(i + opening.len());
            match occurrence(rest, seq!['`']) {
                Some(end) => Some(rest.take(end)),
                None => None,
            }
        },
        None => None,
    }
}

/// The field that a missing, unknown or repeated field's error names.
pub open spec fn backticked_field(s: Seq<char>) -> Option<Seq<char>> {
    match backticked_after(s, "missing field `"@) {
        Some(field) => Some(field),
        None => match backticked_after(s, "unknown field `"@) {
            Some(field) => Some(field),
            None => backticked_after(s, "duplicate field `"@),
        },
    }
}

/// The field that an error's text names, and its section.
pub open spec fn named_field(message: Seq<char>) -> (Seq<char>, Seq<char>) {
    match dotted_path(message) {
        Some(field) => (field, split(field, '.')[0]),
        None => match backticked_field(message) {
            Some(field) => (
                field,
                if field.contains('.') {
                    split(field, '.')[0]
                } else {
                    Seq::empty()
                },
            ),
            None => (Seq::empty(), Seq::empty()),
        },
    }
}

fn is_path_part(c: char) -> (r: bool)
    ensures
        r == path_part(c),
{
    ('a' <= c && c <= 'z') || c == '_' || is_ascii_digit(c) || c == '.'
}

pub proof fn lemma_path_length(s: Seq<char>)
    ensures
        path_length(s) <= s.len(),
    decreases s.len(),
{
    if s.len() > 0 && path_part(s[0]) {
        lemma_path_length(s.drop_first());
    }
}

/// The first path in a text that has a dot.
pub fn extract_dotted_path(message: &str) -> (r: Option<String>)
    ensures
        match r {
            Some(field) => dotted_path(message@) == Some(field@),
            None => dotted_path(message@) is None,
        },
{
    let s = to_chars(message);
    let mut i: usize = 0;
    assert(s@.skip(0) =~= s@);
    while i < s.len()
        invariant
            i <= s@.len(),
            s@ == message@,
            dotted_path(message@) == dotted_path(s@.skip(i as int)),
        decreases s@.len() - i,
    {
        let ghost here = s@.skip(i as int);
        let start = i;
        let first = s[i];
        if !(('a' <= first && first <= 'z') || first == '_') {
            assert(here.drop_first() =~= s@.skip(i + 1));
            i = i + 1;
        } else {
            let mut end: usize = i;
            assert(s@.skip(end as int) =~= here);
            while end < s.len() && is_path_part(s[end])
                invariant
                    start <= end <= s@.len(),
                    here == s@.skip(start as int),
                    path_length(here) == (end - start) + path_length(s@.skip(end as int)),
                decreases s@.len() - end,
            {
                assert(s@.skip(end as int).drop_first() =~= s@.skip(end + 1));
                end = end + 1;
            }
            assert(path_length(here) == end - start);
            let token = slice(&s, start, end);
            assert(token@ =~= here.take((end - start) as int));
            if has_char(&token, '.') {
                return Some(from_chars(token.as_slice()));
            }
            assert(end > start) by {
                assert(path_part(here[0]));
            }
            assert(here.skip((end - start) as int) =~= s@.skip(end as int));
            i = end;
        }
    }
    assert(s@.skip(i as int).len() == 0);
    None
}

fn find_backticked(s: &Vec<char>, opening: &str) -> (r: Option<String>)
    ensures
        match r {
            Some(field) => backticked_after(s@, opening@) == Some(field@),
            None => backticked_after(s@, opening@) is None,
        },
{
    let pattern = to_chars(opening);
    match find(s, &pattern) {
        Some(i) => {
            assert(s.len() == s@.len());
            let rest = slice(s, i + pattern.len(), s.len());
            assert(rest@ =~= s@.skip(i + opening@.len()));
            let mut tick: Vec<char> = Vec::new();
            tick.push('`');
            assert(tick@ =~= seq!['`']);
            match find(&rest, &tick) {
                Some(end) => {
                    let field = slice(&rest, 0, end);
                    assert(field@ =~= rest@.take(end as int));
                    Some(from_chars(field.as_slice()))
                },
                None => None,
            }
        },
        None => None,
    }
}

/// The field that a missing, unknown or repeated field's error names.
pub fn extract_backticked_field(message: &str) -> (r: Option<String>)
    ensures
        match r {
            Some(field) => backticked_field(message@) == Some(field@),
            None => backticked_field(message@) is None,
        },
{
    let s = to_chars(message);
    let missing = find_backticked(&s, "missing field `");
    if missing.is_some() {
        return missing;
    }
    let unknown = find_backticked(&s, "unknown field `");
    if unknown.is_some() {
        return unknown;
    }
    find_backticked(&s, "duplicate field `")
}

/// The field that an error's text names, and its section.
pub fn extract_field_path(message: &str) -> (r: (String, String))
    ensures
        (r.0@, r.1@) == named_field(message@),
{
    if let Some(field) = extract_dotted_path(message) {
        let parts = split_on(field.as_str(), '.');
        return (field, parts[0].clone());
    }
    if let Some(field) = extract_backticked_field(message) {
        let chars = to_chars(field.as_str());
        if has_char(&chars, '.') {
            let parts = split_on(field.as_str(), '.');
            return (field, parts[0].clone());
        }
        return (field, String::new());
    }
    (String::new(), String::new())
}

/// The error of the field that a text names.
pub open spec fn field_error(message: Seq<char>) -> FieldErrorView {
    FieldErrorView {
        section: named_field(message).1,
        field: named_field(message).0,
        message,
    }
}

/// The error of the field that a text names.
pub fn field_errors_from_message(message: &str) -> (r: ConfigFieldErrors)
    ensures
        error_views(r.errors@) == seq![field_error(message@)],
{
    let (field, section) = extract_field_path(message);
    let mut errors: Vec<ConfigFieldError> = Vec::new();
    errors.push(ConfigFieldError { section, field, message: owned(message) });
    assert(error_views(errors@) =~= seq![field_error(message@)]);
    ConfigFieldErrors { errors }
}

/// The error of the first text, from the outermost cause inward, that names a
/// field; the outermost text where none does.
pub open spec fn chain_error(messages: Seq<Seq<char>>, from: int) -> FieldErrorView
    decreases messages.len() - from,
{
    if from >= messages.len() {
        FieldErrorView {
            section: Seq::empty(),
            field: Seq::empty(),
            message: messages[0],
        }
    } else if named_field(messages[from]).0.len() > 0 {
        field_error(messages[from])
    } else {
        chain_error(messages, from + 1)
    }
}

/// The error of the first text, from the outermost cause inward, that names a
/// field; the outermost text where none does. `messages` holds the texts of an
/// error and of its causes.
pub fn field_errors_from_chain(messages: &Vec<String>) -> (r: ConfigFieldErrors)
    requires
        messages@.len() > 0,
    ensures
        error_views(r.errors@) == seq![chain_error(crate::text::string_views(messages@), 0)],
{
    let ghost views = crate::text::string_views(messages@);
    let mut i: usize = 0;
    while i < messages.len()
        invariant
            i <= messages@.len(),
            messages@.len() > 0,
            views == crate::text::string_views(messages@),
            chain_error(views, 0) == chain_error(views, i as int),
        decreases messages@.len() - i,
    {
        let (field, section) = extract_field_path(messages[i].as_str());
        if to_chars(field.as_str()).len() > 0 {
            let mut errors: Vec<ConfigFieldError> = Vec::new();
            errors.push(ConfigFieldError { section, field, message: messages[i].clone() });
            assert(error_views(errors@) =~= seq![field_error(views[i as int])]);
            return ConfigFieldErrors { errors };
        }
        i = i + 1;
    }
    let mut errors: Vec<ConfigFieldError> = Vec::new();
    errors.push(
        ConfigFieldError {
            section: String::new(),
            field: String::new(),
            message: messages[0].clone(),
        },
    );
    assert(error_views(errors@) =~= seq![chain_error(views, i as int)]);
    ConfigFieldErrors { errors }
}

// ---------------------------------------------------------------------------
// What holds of it
// ---------------------------------------------------------------------------
/// Whether a text has neither small letters nor underscores, with which a path begins.
pub open spec fn no_path_begins(s: Seq<char>) -> bool {
    forall|i: int| 0 <= i < s.len() ==> !('a' <= #[trigger] s[i] <= 'z') && s[i] != '_'
}

/// Whether a text is a path: it begins with a small letter or an underscore, and is made
/// of these, digits and dots.
pub open spec fn a_path(s: Seq<char>) -> bool {
    &&& s.len() > 0
    &&& 'a' <= s[0] <= 'z' || s[0] == '_'
    &&& forall|i: int|
        0 <= i < s.len() ==> ('a' <= #[trigger] s[i] <= 'z' || s[i] == '_' || '0' <= s[i] <= '9'
            || s[i] == '.')
}

proof fn lemma_length_of_path(path: Seq<char>, after: Seq<char>)
    requires
        forall|i: int| 0 <= i < path.len() ==> path_part(#[trigger] path[i]),
        after.len() > 0 ==> !path_part(after[0]),
    ensures
        path_length(path + after) == path.len(),
    decreases path.len(),
{
    let s = path + after;
    if path.len() == 0 {
        assert(s =~= after);
    } else {
        assert(s[0] == path[0]);
        assert(s.drop_first() =~= path.drop_first() + after);
        assert forall|i: int| 0 <= i < path.drop_first().len() implies path_part(
            #[trigger] path.drop_first()[i],
        ) by {
            assert(path.drop_first()[i] == path[i + 1]);
        }
        lemma_length_of_path(path.drop_first(), after);
    }
}

/// The field that an error is about is the first path with a dot in it, as long as it
/// can be, and its section is what stands before the first dot.
pub proof fn law_field_is_found(
    before: Seq<char>,
    section: Seq<char>,
    rest: Seq<char>,
    after: Seq<char>,
)
    requires
        no_path_begins(before),
        a_path(section + seq!['.'] + rest),
        !section.contains('.'),
        after.len() > 0 ==> !('a' <= after[0] <= 'z') && after[0] != '_' && !('0' <= after[0]
            <= '9') && after[0] != '.',
    ensures
        ({
            let path = section + seq!['.'] + rest;
            let message = before + (path + after);
            &&& named_field(message) == (path, section)
            &&& field_error(message) == (FieldErrorView { section, field: path, message })
        }),
{
    let path = section + seq!['.'] + rest;
    lemma_found_behind(before, path, after, section.len() as int);
    lemma_split_join(section, rest, '.');
    lemma_split_whole(section, '.');
    assert((seq![section] + split(rest, '.'))[0] == section);
}

proof fn lemma_found_behind(before: Seq<char>, path: Seq<char>, after: Seq<char>, dot: int)
    requires
        no_path_begins(before),
        a_path(path),
        0 <= dot < path.len(),
        path[dot] == '.',
        after.len() > 0 ==> !path_part(after[0]),
    ensures
        dotted_path(before + (path + after)) == Some(path),
    decreases before.len(),
{
    let s = before + (path + after);
    if before.len() == 0 {
        assert(s =~= path + after);
        assert(s[0] == path[0]);
        assert forall|i: int| 0 <= i < path.len() implies path_part(#[trigger] path[i]) by {
        }
        lemma_length_of_path(path, after);
        assert(s.take(path.len() as int) =~= path);
        assert(path.contains('.'));
    } else {
        assert(s[0] == before[0]);
        assert(s.drop_first() =~= before.drop_first() + (path + after));
        assert forall|i: int| 0 <= i < before.drop_first().len() implies !('a' <= (
        #[trigger] before.drop_first()[i]) <= 'z') && before.drop_first()[i] != '_' by {
            assert(before.drop_first()[i] == before[i + 1]);
        }
        lemma_found_behind(before.drop_first(), path, after, dot);
    }
}

proof fn lemma_no_dot(s: Seq<char>)
    requires
        !s.contains('.'),
    ensures
        dotted_path(s) is None,
    decreases s.len(),
{
    if s.len() > 0 {
        if !path_start(s[0]) {
            assert forall|i: int| 0 <= i < s.drop_first().len() implies s.drop_first()[i]
                != '.' by {
                assert(s.drop_first()[i] == s[i + 1]);
            }
            lemma_no_dot(s.drop_first());
        } else {
            let n = path_length(s) as int;
            lemma_path_length(s);
            assert forall|i: int| 0 <= i < n implies s.take(n)[i] != '.' by {
                assert(s.take(n)[i] == s[i]);
            }
            assert forall|i: int| 0 <= i < s.skip(n).len() implies s.skip(n)[i] != '.' by {
                assert(s.skip(n)[i] == s[n + i]);
            }
            lemma_no_dot(s.skip(n));
        }
    }
}

/// What stands between a word and the next backtick is what the word tells of.
pub proof fn law_between_backticks(opening: Seq<char>, name: Seq<char>, rest: Seq<char>)
    requires
        opening.len() > 0,
        !name.contains('`'),
    ensures
        backticked_after(opening + (name + (seq!['`'] + rest)), opening) == Some(name),
{
    let s = opening + (name + (seq!['`'] + rest));
    let behind = name + (seq!['`'] + rest);
    let n = name.len() as int;
    assert(s.subrange(0, opening.len() as int) =~= opening);
    assert(occurs_at(s, opening, 0));
    lemma_occurrence(s, opening, 0);
    assert(s.skip(opening.len() as int) =~= behind);
    assert(behind.subrange(n, n + 1) =~= seq!['`']);
    assert(occurs_at(behind, seq!['`'], n));
    lemma_occurrence(behind, seq!['`'], 0);
    let at = occurrence(behind, seq!['`'])->0;
    assert(behind.subrange(at, at + 1)[0] == behind[at]);
    if at < n {
        assert(behind[at] == name[at]);
        assert(name.contains('`'));
    }
    assert(behind.take(n) =~= name);
}

/// Where no path with a dot is named, the field that is missing is named by the error that
/// says so; without a dot in its name it has no section.
pub proof fn law_missing_field_is_found(name: Seq<char>, rest: Seq<char>)
    requires
        !name.contains('`'),
        !name.contains('.'),
        !rest.contains('.'),
    ensures
        named_field("missing field `"@ + (name + (seq!['`'] + rest))) == (
            name,
            Seq::<char>::empty(),
        ),
{
    reveal_strlit("missing field `");
    let opening = "missing field `"@;
    let s = opening + (name + (seq!['`'] + rest));
    assert(opening.len() == 15);
    assert forall|i: int| 0 <= i < s.len() implies s[i] != '.' by {
        if i < 15 {
            assert(s[i] == opening[i]);
        } else if i < 15 + name.len() {
            assert(s[i] == name[i - 15]);
        } else if i > 15 + name.len() {
            assert(s[i] == rest[i - 16 - name.len()]);
        }
    }
    lemma_no_dot(s);
    law_between_backticks(opening, name, rest);
}

/// Fields that are unknown or given twice are found likewise, where none is missing.
pub proof fn law_other_fields_are_found(message: Seq<char>, name: Seq<char>, rest: Seq<char>)
    requires
        !name.contains('`'),
        !message.contains('.'),
        occurrence(message, "missing field `"@) is None,
    ensures
        message == "unknown field `"@ + (name + (seq!['`'] + rest)) ==> named_field(message).0
            == name,
        message == "duplicate field `"@ + (name + (seq!['`'] + rest)) && occurrence(
            message,
            "unknown field `"@,
        ) is None ==> named_field(message).0 == name,
        occurrence(message, "unknown field `"@) is None && occurrence(
            message,
            "duplicate field `"@,
        ) is None ==> named_field(message) == (Seq::<char>::empty(), Seq::<char>::empty()),
{
    reveal_strlit("unknown field `");
    reveal_strlit("duplicate field `");
    assert("unknown field `"@.len() == 15);
    assert("duplicate field `"@.len() == 17);
    lemma_no_dot(message);
    law_between_backticks("unknown field `"@, name, rest);
    law_between_backticks("duplicate field `"@, name, rest);
}

/// Of several causes the first that names a field is told; where none does, the first is,
/// without a field.
pub proof fn law_first_cause_with_a_field(messages: Seq<Seq<char>>, k: int)
    requires
        messages.len() > 0,
        0 <= k <= messages.len(),
        forall|i: int| 0 <= i < k ==> named_field(#[trigger] messages[i]).0.len() == 0,
    ensures
        k < messages.len() && named_field(messages[k]).0.len() > 0 ==> chain_error(messages, 0)
            == field_error(messages[k]),
        k == messages.len() ==> chain_error(messages, 0) == (FieldErrorView {
            section: Seq::empty(),
            field: Seq::empty(),
            message: messages[0],
        }),
{
    lemma_chain_from(messages, k, 0);
}

proof fn lemma_chain_from(messages: Seq<Seq<char>>, k: int, from: int)
    requires
        messages.len() > 0,
        0 <= from <= k <= messages.len(),
        forall|i: int| 0 <= i < k ==> named_field(#[trigger] messages[i]).0.len() == 0,
    ensures
        k < messages.len() && named_field(messages[k]).0.len() > 0 ==> chain_error(messages, from)
            == field_error(messages[k]),
        k == messages.len() ==> chain_error(messages, from) == (FieldErrorView {
            section: Seq::empty(),
            field: Seq::empty(),
            message: messages[0],
        }),
    decreases k - from,
{
    if from < k {
        assert(named_field(messages[from]).0.len() == 0);
        lemma_chain_from(messages, k, from + 1);
    }
}

/// Each error is told on a line of its own, in order.
pub proof fn law_lines_of_errors(errors: Seq<FieldErrorView>, error: FieldErrorView)
    ensures
        error_lines(Seq::empty()) == Seq::<char>::empty(),
        error_lines(errors.push(error)) == error_lines(errors) + ("\n- "@ + error.message),
{
    assert(errors.push(error).drop_last() =~= errors);
}

} // verus!
