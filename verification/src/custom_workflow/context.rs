//! What a workflow was called with, and how that is put into its texts.
use vstd::prelude::*;
use crate::chat_text::after_exact_prefix;
use crate::chat_text::strip_exact_prefix;
use crate::custom_workflow::calling::CustomWorkflowCommand;
use crate::custom_workflow::calling::WorkflowCommandView;
use crate::scan::find;
use crate::scan::parse_signed_number;
use crate::scan::slice;
use crate::scan::split_words;
use crate::scan::{
    all_digits, digits_value, lemma_occurrence, occurrence, occurrence_from, occurs_at,
    signed_number_up_to, words,
};
use crate::text::from_chars;
use crate::text::str_equal;
use crate::text::string_views;
use crate::text::to_chars;
use crate::text::trim;
use crate::text::{ascii_digit, decimal, trimmed};

verus! {

/// A call of a workflow.
#[derive(Clone, Debug, PartialEq, Eq)]
pub struct CustomWorkflowInvocation {
    pub command: CustomWorkflowCommand,
    pub username: String,
    pub message_type: String,
    pub user_command: String,
}

/// A call of a workflow, as plain values.
#[verifier::ext_equal]
pub struct InvocationView {
    pub command: WorkflowCommandView,
    pub username: Seq<char>,
    pub message_type: Seq<char>,
    pub user_command: Seq<char>,
}

impl View for CustomWorkflowInvocation {
    type V = InvocationView;

    open spec fn view(&self) -> InvocationView {
        InvocationView {
            command: self.command@,
            username: self.username@,
            message_type: self.message_type@,
            user_command: self.user_command@,
        }
    }
}

/// What a workflow was called with.
#[derive(Debug)]
pub struct WorkflowContext {
    pub workflow: String,
    pub command: String,
    pub args: String,
    pub argv: Vec<String>,
    pub username: String,
    pub message_type: String,
    pub user_command: String,
}

impl View for WorkflowContext {
    type V = InvocationView;

    open spec fn view(&self) -> InvocationView {
        InvocationView {
            command: WorkflowCommandView {
                name: self.command@,
                workflow: self.workflow@,
                args: self.args@,
            },
            username: self.username@,
            message_type: self.message_type@,
            user_command: self.user_command@,
        }
    }
}

/// What a name in a text stands for. An argument is numbered from one.
pub open spec fn variable(key: Seq<char>, call: InvocationView) -> Option<Seq<char>> {
    if key == "workflow"@ || key == "workflow_name"@ {
        Some(call.command.workflow)
    } else if key == "command"@ || key == "command_name"@ {
        Some(call.command.name)
    } else if key == "args"@ || key == "param"@ || key == "params"@ {
        Some(call.command.args)
    } else if key == "username"@ || key == "user"@ {
        Some(call.username)
    } else if key == "message_type"@ {
        Some(call.message_type)
    } else if key == "user_command"@ {
        Some(call.user_command)
    } else {
        match after_exact_prefix(key, "arg"@) {
            Some(number) => match signed_number_up_to(number, usize::MAX as int) {
                Some(n) => if 1 <= n <= words(call.command.args).len() {
                    Some(words(call.command.args)[n - 1])
                } else {
                    None
                },
                None => None,
            },
            None => None,
        }
    }
}

/// What opens a name in a text.
pub open spec fn opening() -> Seq<char> {
    seq!['{', '{']
}

/// What closes a name in a text.
pub open spec fn closing() -> Seq<char> {
    seq!['}', '}']
}

/// What stands for a name in a text: what it stands for, or the name as it is
/// written where it stands for nothing.
pub open spec fn filled(name: Seq<char>, call: InvocationView) -> Seq<char> {
    match variable(trimmed(name), call) {
        Some(value) => value,
        None => opening() + name + closing(),
    }
}

/// A text with what its names stand for. A name that is not closed is none.
pub open spec fn rendered(text: Seq<char>, call: InvocationView) -> Seq<char>
    decreases text.len(),
{
    match occurrence(text, opening()) {
        Some(start) => {
            let behind = text.skip(start + 2);
            match occurrence(behind, closing()) {
                Some(end) => {
                    proof {
                        lemma_occurrence(text, opening(), 0);
                        lemma_occurrence(behind, closing(), 0);
                    }
                    text.take(start) + filled(behind.take(end), call) + rendered(
                        behind.skip(end + 2),
                        call,
                    )
                },
                None => text,
            }
        },
        None => text,
    }
}

impl WorkflowContext {
    /// What a workflow was called with.
    pub fn new(invocation: &CustomWorkflowInvocation) -> (r: Self)
        ensures
            r@ == invocation@,
            r.wf(),
    {
        WorkflowContext {
            workflow: invocation.command.workflow.clone(),
            command: invocation.command.name.clone(),
            args: invocation.command.args.clone(),
            argv: split_words(invocation.command.args.as_str()),
            username: invocation.username.clone(),
            message_type: invocation.message_type.clone(),
            user_command: invocation.user_command.clone(),
        }
    }

    /// The single arguments are the words of all of them.
    pub open spec fn wf(&self) -> bool {
        string_views(self.argv@) == words(self.args@)
    }

    /// What a name in a text stands for.
    pub fn variable(&self, key: &str) -> (r: Option<String>)
        requires
            self.wf(),
        ensures
            match r {
                Some(value) => variable(key@, self@) == Some(value@),
                None => variable(key@, self@) is None,
            },
    {
        if str_equal(key, "workflow") || str_equal(key, "workflow_name") {
            return Some(self.workflow.clone());
        }
        if str_equal(key, "command") || str_equal(key, "command_name") {
            return Some(self.command.clone());
        }
        if str_equal(key, "args") || str_equal(key, "param") || str_equal(key, "params") {
            return Some(self.args.clone());
        }
        if str_equal(key, "username") || str_equal(key, "user") {
            return Some(self.username.clone());
        }
        if str_equal(key, "message_type") {
            return Some(self.message_type.clone());
        }
        if str_equal(key, "user_command") {
            return Some(self.user_command.clone());
        }
        match strip_exact_prefix(key, "arg") {
            Some(number) => match parse_signed_number(
                &to_chars(number.as_str()),
                usize::MAX as u64,
            ) {
                Some(n) => {
                    if n >= 1 && n <= self.argv.len() as u64 {
                        let index: usize = n as usize - 1;
                        assert(string_views(self.argv@)[index as int] == self.argv@[index as int]@);
                        Some(self.argv[index].clone())
                    } else {
                        None
                    }
                },
                None => None,
            },
            None => None,
        }
    }

    /// A text with what its names stand for.
    pub fn render(&self, text: &str) -> (r: String)
        requires
            self.wf(),
        ensures
            r@ == rendered(text@, self@),
    {
        let open = vec!['{', '{'];
        assert(open@ =~= opening());
        let close = vec!['}', '}'];
        assert(close@ =~= closing());
        let mut out: Vec<char> = Vec::new();
        let mut rest = to_chars(text);
        assert(out@ + rendered(rest@, self@) =~= rendered(text@, self@));
        loop
            invariant
                self.wf(),
                open@ == opening(),
                close@ == closing(),
                out@ + rendered(rest@, self@) == rendered(text@, self@),
            decreases rest@.len(),
        {
            let ghost whole = out@;
            let start: usize = match find(&rest, &open) {
                Some(start) => start,
                None => {
                    out.append(&mut rest);
                    return from_chars(out.as_slice());
                },
            };
            let length: usize = rest.len();
            let behind = slice(&rest, start + 2, length);
            assert(behind@ =~= rest@.skip(start + 2));
            let end: usize = match find(&behind, &close) {
                Some(end) => end,
                None => {
                    out.append(&mut rest);
                    return from_chars(out.as_slice());
                },
            };
            let mut head = slice(&rest, 0, start);
            assert(head@ =~= rest@.take(start as int));
            let mut name = slice(&behind, 0, end);
            assert(name@ =~= behind@.take(end as int));
            let behind_length: usize = behind.len();
            let next = slice(&behind, end + 2, behind_length);
            assert(next@ =~= behind@.skip(end + 2));
            let ghost head_view = head@;
            let ghost name_view = name@;
            out.append(&mut head);
            match self.variable(trim(from_chars(name.as_slice()).as_str()).as_str()) {
                Some(value) => {
                    let mut value = to_chars(value.as_str());
                    out.append(&mut value);
                },
                None => {
                    out.push('{');
                    out.push('{');
                    out.append(&mut name);
                    out.push('}');
                    out.push('}');
                },
            }
            assert(out@ =~= whole + head_view + filled(name_view, self@));
            assert(out@ + rendered(next@, self@) =~= whole + (head_view + filled(name_view, self@)
                + rendered(next@, self@)));
            rest = next;
        }
    }
}

/// A text without names stays as it is.
pub proof fn law_plain_text_stays(text: Seq<char>, call: InvocationView)
    requires
        forall|i: int| !#[trigger] occurs_at(text, opening(), i),
    ensures
        rendered(text, call) == text,
{
    lemma_occurrence(text, opening(), 0);
}

/// A name that stands for nothing stays as it is written.
pub proof fn law_unknown_name_stays(name: Seq<char>, call: InvocationView)
    requires
        variable(trimmed(name), call) is None,
        !name.contains('}'),
    ensures
        rendered(opening() + name + closing(), call) == opening() + name + closing(),
{
    let text = opening() + name + closing();
    let behind = name + closing();
    let n = name.len() as int;
    assert(occurrence(text, opening()) == Some(0int)) by {
        assert(text.subrange(0, 2) =~= opening());
    }
    assert(text.skip(2) =~= behind);
    assert(occurrence(behind, closing()) == Some(n)) by {
        lemma_closed_from(name, 0);
    }
    assert(behind.take(n) =~= name);
    assert(behind.skip(n + 2) =~= Seq::empty());
    assert(text.take(0) =~= Seq::empty());
    assert(rendered(Seq::empty(), call) == Seq::<char>::empty());
    assert(Seq::<char>::empty() + text + Seq::<char>::empty() =~= text);
}

/// A name without a closing bracket is closed behind its end.
proof fn lemma_closed_from(name: Seq<char>, i: int)
    requires
        !name.contains('}'),
        0 <= i <= name.len(),
    ensures
        occurrence_from(name + closing(), closing(), i) == Some(name.len() as int),
    decreases name.len() - i,
{
    let behind = name + closing();
    if i == name.len() {
        assert(behind.subrange(i, i + 2) =~= closing());
    } else {
        assert(behind.subrange(i, i + 2)[0] == name[i]);
        assert(closing()[0] == '}');
        lemma_closed_from(name, i + 1);
    }
}

/// An argument's name stands for the word of that number.
pub proof fn law_argument_by_number(n: nat, call: InvocationView)
    requires
        1 <= n <= usize::MAX,
        n <= words(call.command.args).len(),
    ensures
        variable("arg"@ + decimal(n), call) == Some(words(call.command.args)[n - 1]),
{
    let key = "arg"@ + decimal(n);
    reveal_strlit("arg");
    reveal_strlit("workflow");
    reveal_strlit("workflow_name");
    reveal_strlit("command");
    reveal_strlit("command_name");
    reveal_strlit("args");
    reveal_strlit("param");
    reveal_strlit("params");
    reveal_strlit("username");
    reveal_strlit("user");
    reveal_strlit("message_type");
    reveal_strlit("user_command");
    lemma_decimal_read(n);
    assert(key[0] == 'a');
    assert(key[3] == decimal(n)[0]);
    assert("args"@[3] == 's');
    assert("workflow"@[0] == 'w' && "workflow_name"@[0] == 'w');
    assert("command"@[0] == 'c' && "command_name"@[0] == 'c');
    assert("param"@[0] == 'p' && "params"@[0] == 'p');
    assert("username"@[0] == 'u' && "user"@[0] == 'u' && "user_command"@[0] == 'u');
    assert("message_type"@[0] == 'm');
    assert(key.subrange(0, 3) =~= "arg"@);
    assert(key.skip(3) =~= decimal(n));
}

/// A name in a text stands for what its meaning says: the workflow, the command by
/// which it was called, what was said behind the command, who called, in which kind
/// of message, and the whole command.
pub proof fn law_names_stand_for_the_call(call: InvocationView)
    ensures
        variable("workflow"@, call) == Some(call.command.workflow),
        variable("workflow_name"@, call) == Some(call.command.workflow),
        variable("command"@, call) == Some(call.command.name),
        variable("command_name"@, call) == Some(call.command.name),
        variable("args"@, call) == Some(call.command.args),
        variable("param"@, call) == Some(call.command.args),
        variable("params"@, call) == Some(call.command.args),
        variable("username"@, call) == Some(call.username),
        variable("user"@, call) == Some(call.username),
        variable("message_type"@, call) == Some(call.message_type),
        variable("user_command"@, call) == Some(call.user_command),
{
    reveal_strlit("workflow");
    reveal_strlit("workflow_name");
    reveal_strlit("command");
    reveal_strlit("command_name");
    reveal_strlit("args");
    reveal_strlit("param");
    reveal_strlit("params");
    reveal_strlit("username");
    reveal_strlit("user");
    reveal_strlit("message_type");
    reveal_strlit("user_command");
    assert("workflow"@[0] == 'w' && "workflow_name"@[0] == 'w');
    assert("command"@[0] == 'c' && "command_name"@[0] == 'c');
    assert("args"@[0] == 'a' && "param"@[0] == 'p' && "params"@[0] == 'p');
    assert("username"@[0] == 'u' && "user"@[0] == 'u' && "user_command"@[0] == 'u');
    assert("message_type"@[0] == 'm');
    assert("username"@.len() == 8 && "user"@.len() == 4 && "user_command"@.len() == 12);
}

/// A name in a text is replaced by what it stands for, with the text before it and
/// the rest behind it around that.
pub proof fn law_name_is_replaced(
    front: Seq<char>,
    name: Seq<char>,
    behind: Seq<char>,
    call: InvocationView,
    value: Seq<char>,
)
    requires
        !front.contains('{'),
        !name.contains('}'),
        variable(trimmed(name), call) == Some(value),
    ensures
        rendered(front + opening() + name + closing() + behind, call) == front + value + rendered(
            behind,
            call,
        ),
{
    let text = front + opening() + name + closing() + behind;
    let n = front.len() as int;
    let m = name.len() as int;
    let rest = text.skip(n + 2);
    assert(text =~= front + opening() + (name + closing() + behind));
    lemma_first_mark(front, '{', name + closing() + behind, 0);
    assert(rest =~= name + closing() + behind);
    lemma_first_mark(name, '}', behind, 0);
    assert(text.take(n) =~= front);
    assert(rest.take(m) =~= name);
    assert(rest.skip(m + 2) =~= behind);
}

/// A mark that is written twice is found behind a text without it.
proof fn lemma_first_mark(front: Seq<char>, mark: char, behind: Seq<char>, i: int)
    requires
        !front.contains(mark),
        0 <= i <= front.len(),
    ensures
        occurrence_from(front + seq![mark, mark] + behind, seq![mark, mark], i) == Some(
            front.len() as int,
        ),
    decreases front.len() - i,
{
    let text = front + seq![mark, mark] + behind;
    let sign = seq![mark, mark];
    assert(sign.len() == 2);
    assert(text.len() == front.len() + 2 + behind.len());
    if i == front.len() {
        assert(text.subrange(i, i + 2) =~= sign);
    } else {
        assert(text.subrange(i, i + 2)[0] == front[i]);
        assert(sign[0] == mark);
        lemma_first_mark(front, mark, behind, i + 1);
    }
}

/// An argument that the call does not have has no name.
pub proof fn law_argument_numbers(n: nat, call: InvocationView)
    requires
        n <= usize::MAX,
        n == 0 || n > words(call.command.args).len(),
    ensures
        variable("arg"@ + decimal(n), call) is None,
{
    let key = "arg"@ + decimal(n);
    reveal_strlit("arg");
    reveal_strlit("workflow");
    reveal_strlit("workflow_name");
    reveal_strlit("command");
    reveal_strlit("command_name");
    reveal_strlit("args");
    reveal_strlit("param");
    reveal_strlit("params");
    reveal_strlit("username");
    reveal_strlit("user");
    reveal_strlit("message_type");
    reveal_strlit("user_command");
    lemma_decimal_read(n);
    assert(key[0] == 'a');
    assert(key[3] == decimal(n)[0]);
    assert("args"@[3] == 's');
    assert("workflow"@[0] == 'w' && "workflow_name"@[0] == 'w');
    assert("command"@[0] == 'c' && "command_name"@[0] == 'c');
    assert("param"@[0] == 'p' && "params"@[0] == 'p');
    assert("username"@[0] == 'u' && "user"@[0] == 'u' && "user_command"@[0] == 'u');
    assert("message_type"@[0] == 'm');
    assert(key.subrange(0, 3) =~= "arg"@);
    assert(key.skip(3) =~= decimal(n));
}

/// The digits of a number tell it.
proof fn lemma_decimal_read(n: nat)
    ensures
        decimal(n).len() > 0,
        all_digits(decimal(n)),
        digits_value(decimal(n)) == n,
    decreases n,
{
    if n >= 10 {
        lemma_decimal_read(n / 10);
        assert(decimal(n).drop_last() =~= decimal(n / 10));
        assert forall|i: int| 0 <= i < decimal(n).len() implies ascii_digit(
            #[trigger] decimal(n)[i],
        ) by {
            if i < decimal(n / 10).len() {
                assert(decimal(n)[i] == decimal(n / 10)[i]);
            }
        }
    } else {
        reveal_with_fuel(digits_value, 2);
        assert(decimal(n).drop_last() =~= Seq::empty());
    }
}

/// A name stands between two opening and two closing braces; one that is not closed is
/// none, and the text stays.
pub proof fn law_braces(front: Seq<char>, behind: Seq<char>, call: InvocationView)
    requires
        !behind.contains('}'),
        !front.contains('{'),
    ensures
        opening() == seq!['{', '{'],
        closing() == seq!['}', '}'],
        rendered(front + seq!['{', '{'] + behind, call) == front + seq!['{', '{'] + behind,
{
    let text = front + seq!['{', '{'] + behind;
    let n = front.len() as int;
    lemma_occurrence(text, opening(), 0);
    match occurrence(text, opening()) {
        Some(start) => {
            assert(text.subrange(start, start + 2)[0] == text[start]);
            assert(text[start] == '{');
            if start < n {
                assert(text[start] == front[start]);
                assert(front.contains('{'));
            }
            let rest = text.skip(start + 2);
            lemma_occurrence(rest, closing(), 0);
            match occurrence(rest, closing()) {
                Some(end) => {
                    assert(rest.subrange(end, end + 2)[0] == rest[end]);
                    assert(rest[end] == text[start + 2 + end]);
                    assert(text[start + 2 + end] == behind[start + end - n]);
                    assert(behind.contains('}'));
                },
                None => {},
            }
        },
        None => {},
    }
}

} // verus!
