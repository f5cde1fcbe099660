//! Carrying out workflows.
use vstd::prelude::*;
use crate::custom_workflow::calling::list_workflows;
use crate::custom_workflow::calling::parse_text;
use crate::custom_workflow::calling::remote_match;
use crate::custom_workflow::calling::CustomWorkflowMatch;
use crate::custom_workflow::calling::CustomWorkflowSummary;
use crate::custom_workflow::calling::{
    chat_call, remote_call, summaries, summary_views, wide_brackets_only, WorkflowMatchView,
};
use crate::custom_workflow::context::CustomWorkflowInvocation;
use crate::custom_workflow::definition::CustomWorkflowConfig;
use crate::custom_workflow::operation::copy_operation;
use crate::custom_workflow::operation::WorkflowOperation;
use crate::custom_workflow::operation::OperationView;
use crate::custom_workflow::planning::parse_confirmation;
use crate::custom_workflow::planning::prepare;
use crate::custom_workflow::planning::AcceptedText;
use crate::custom_workflow::planning::WorkflowConfirmation;
use crate::custom_workflow::planning::WorkflowConfirmationDecision;
use crate::custom_workflow::planning::WorkflowDefaults;
use crate::custom_workflow::planning::WorkflowPlan;
use crate::custom_workflow::planning::{
    decision_in, plan_of, plan_outcome, ConfirmationView, PlanView,
};
use crate::ports::{answer_of, carried_out, extends, failure_of, Exchange};

verus! {

/// What came of waiting for an answer.
#[derive(Clone, Debug, PartialEq, Eq)]
pub enum FreshMessageOutcome {
    Message(String),
    Timeout,
    Stopped,
}

/// What came of waiting for an answer, as plain values.
#[verifier::ext_equal]
pub enum FreshMessageView {
    Message(Seq<char>),
    Timeout,
    Stopped,
}

impl View for FreshMessageOutcome {
    type V = FreshMessageView;

    open spec fn view(&self) -> FreshMessageView {
        match self {
            FreshMessageOutcome::Message(text) => FreshMessageView::Message(text@),
            FreshMessageOutcome::Timeout => FreshMessageView::Timeout,
            FreshMessageOutcome::Stopped => FreshMessageView::Stopped,
        }
    }
}

/// Whether a workflow ran to its end.
#[derive(Clone, Copy, Debug, PartialEq, Eq, Structural)]
pub enum WorkflowCompletion {
    Completed,
    Cancelled,
}

/// What is asked of the outside to carry out a workflow. A wait for an answer
/// goes with what came of it, where something did.
#[verifier::ext_equal]
pub enum WorkflowRequest {
    SendHall(Seq<char>),
    Await {
        confirmation: ConfirmationView,
        accepts_text: AcceptedText,
        outcome: Option<FreshMessageView>,
    },
    Operation { workflow: Seq<char>, operation: OperationView },
}

/// What came of waiting, where something did.
pub open spec fn awaited(r: Result<FreshMessageOutcome, String>) -> Option<FreshMessageView> {
    match r {
        Ok(outcome) => Some(outcome@),
        Err(_) => None,
    }
}

/// What was asked of a port, and how it was answered. It stands in proofs only.
pub type WorkflowCalls = Seq<Exchange<WorkflowRequest>>;

/// How workflows are carried out.
pub trait CustomWorkflowExecutionPort {
    /// What was asked so far, and how it was answered.
    spec fn calls(&self) -> WorkflowCalls;

    /// Says something in the hall.
    fn send_hall(&mut self, message: &str) -> (r: Result<(), String>)
        ensures
            final(self).calls() == old(self).calls().push(
                Exchange {
                    request: WorkflowRequest::SendHall(message@),
                    failure: failure_of(r),
                },
            ),
    ;

    /// Waits for a message that answers a question.
    fn wait_for_fresh_message(
        &mut self,
        confirmation: &WorkflowConfirmation,
        accepts_text: AcceptedText,
    ) -> (r: Result<FreshMessageOutcome, String>)
        ensures
            final(self).calls() == old(self).calls().push(
                Exchange {
                    request: WorkflowRequest::Await {
                        confirmation: confirmation@,
                        accepts_text,
                        outcome: awaited(r),
                    },
                    failure: failure_of(r),
                },
            ),
    ;

    /// Does what an operation asks for.
    fn execute_operation(&mut self, workflow: &str, operation: WorkflowOperation) -> (r: Result<
        (),
        String,
    >)
        ensures
            final(self).calls() == old(self).calls().push(
                Exchange {
                    request: WorkflowRequest::Operation {
                        workflow: workflow@,
                        operation: operation@,
                    },
                    failure: failure_of(r),
                },
            ),
    ;
}

// ---------------------------------------------------------------------------
// What is asked, in order
// ---------------------------------------------------------------------------
/// What is asked of the outside once a plan may run: its operations, and then
/// what is said at its end.
pub open spec fn plan_requests(plan: PlanView) -> Seq<WorkflowRequest> {
    let operations = Seq::new(
        plan.operations.len(),
        |i: int|
            WorkflowRequest::Operation { workflow: plan.workflow, operation: plan.operations[i] },
    );
    match plan.success_message {
        Some(message) => operations.push(WorkflowRequest::SendHall(message)),
        None => operations,
    }
}

/// A plan was run.
pub open spec fn ran(
    before: Seq<Exchange<WorkflowRequest>>,
    after: Seq<Exchange<WorkflowRequest>>,
    plan: PlanView,
    r: Result<WorkflowCompletion, Seq<char>>,
) -> bool {
    match r {
        Ok(completion) => completion == WorkflowCompletion::Completed && carried_out(
            before,
            after,
            plan_requests(plan),
            None,
        ),
        Err(reason) => carried_out(before, after, plan_requests(plan), Some(reason)),
    }
}

/// An answer was awaited, and the plan run if it was a consent.
pub open spec fn answered(
    before: Seq<Exchange<WorkflowRequest>>,
    after: Seq<Exchange<WorkflowRequest>>,
    confirmation: ConfirmationView,
    plan: PlanView,
    r: Result<WorkflowCompletion, Seq<char>>,
) -> bool {
    let n = before.len() as int;
    let here = after.take(n + 1);
    let cancelled = Ok::<WorkflowCompletion, Seq<char>>(WorkflowCompletion::Cancelled);
    &&& extends(before, after)
    &&& after.len() > n
    &&& match after[n].request {
        WorkflowRequest::Await { confirmation: asked, accepts_text, outcome } => asked
            == confirmation && accepts_text == AcceptedText::Confirmation && match (
            after[n].failure,
            outcome,
        ) {
            (Some(reason), _) => after.len() == n + 1 && r == Err::<WorkflowCompletion, Seq<char>>(
                reason,
            ),
            (None, Some(FreshMessageView::Message(text))) => if decision_in(text) == Some(
                WorkflowConfirmationDecision::Confirm,
            ) {
                ran(here, after, plan, r)
            } else {
                after.len() == n + 1 && r == cancelled
            },
            (None, Some(FreshMessageView::Timeout)) => {
                &&& after.len() == n + 2
                &&& after[n + 1].request == WorkflowRequest::SendHall("自定义流程确认超时,已取消"@)
                &&& match after[n + 1].failure {
                    Some(reason) => r == Err::<WorkflowCompletion, Seq<char>>(reason),
                    None => r == cancelled,
                }
            },
            (None, Some(FreshMessageView::Stopped)) => after.len() == n + 1 && r == cancelled,
            (None, None) => false,
        },
        _ => false,
    }
}

/// A plan was carried out: where it has a question, that was asked first.
pub open spec fn performed(
    before: Seq<Exchange<WorkflowRequest>>,
    after: Seq<Exchange<WorkflowRequest>>,
    plan: PlanView,
    r: Result<WorkflowCompletion, Seq<char>>,
) -> bool {
    match plan.confirmation {
        None => ran(before, after, plan, r),
        Some(confirmation) => {
            let n = before.len() as int;
            &&& extends(before, after)
            &&& after.len() > n
            &&& after[n].request == WorkflowRequest::SendHall(confirmation.message)
            &&& match after[n].failure {
                Some(reason) => after.len() == n + 1 && r == Err::<WorkflowCompletion, Seq<char>>(
                    reason,
                ),
                None => answered(after.take(n + 1), after, confirmation, plan, r),
            }
        },
    }
}

/// A workflow was carried out: nothing is asked of the outside unless there is a
/// plan.
pub open spec fn executed(
    before: Seq<Exchange<WorkflowRequest>>,
    after: Seq<Exchange<WorkflowRequest>>,
    plan: Result<PlanView, Seq<char>>,
    r: Result<WorkflowCompletion, Seq<char>>,
) -> bool {
    match plan {
        Err(reason) => after == before && r == Err::<WorkflowCompletion, Seq<char>>(reason),
        Ok(plan) => performed(before, after, plan, r),
    }
}

/// The first `n` requests were made and granted.
spec fn granted(
    before: Seq<Exchange<WorkflowRequest>>,
    after: Seq<Exchange<WorkflowRequest>>,
    requests: Seq<WorkflowRequest>,
    n: int,
) -> bool {
    &&& after.len() == before.len() + n
    &&& after.take(before.len() as int) == before
    &&& forall|i: int|
        0 <= i < n ==> (#[trigger] after[before.len() + i]).request == requests[i] && after[
            before.len() + i].failure is None
}

/// One request more.
proof fn lemma_one_more(
    before: Seq<Exchange<WorkflowRequest>>,
    now: Seq<Exchange<WorkflowRequest>>,
    requests: Seq<WorkflowRequest>,
    n: int,
    failure: Option<Seq<char>>,
)
    requires
        0 <= n < requests.len(),
        granted(before, now, requests, n),
    ensures
        failure is None ==> granted(
            before,
            now.push(Exchange { request: requests[n], failure }),
            requests,
            n + 1,
        ),
        failure is Some ==> carried_out(
            before,
            now.push(Exchange { request: requests[n], failure }),
            requests,
            failure,
        ),
{
    let after = now.push(Exchange { request: requests[n], failure });
    assert(after.take(before.len() as int) =~= now.take(before.len() as int));
    assert forall|i: int| 0 <= i < n implies #[trigger] after[before.len() + i] == now[before.len()
        + i] by {}
}

/// All requests were made and granted.
proof fn lemma_all_granted(
    before: Seq<Exchange<WorkflowRequest>>,
    after: Seq<Exchange<WorkflowRequest>>,
    requests: Seq<WorkflowRequest>,
)
    requires
        granted(before, after, requests, requests.len() as int),
    ensures
        carried_out(before, after, requests, None),
{
    if requests.len() > 0 {
        assert(after[before.len() + (requests.len() - 1)].failure is None);
    }
}

// ---------------------------------------------------------------------------
// The service
// ---------------------------------------------------------------------------
/// The workflows that can be called.
#[derive(Debug)]
pub struct CustomWorkflowService {
    pub config: CustomWorkflowConfig,
    pub defaults: WorkflowDefaults,
}

impl CustomWorkflowService {
    /// The workflows of a configuration.
    pub fn new(config: CustomWorkflowConfig, defaults: WorkflowDefaults) -> (r: Self)
        ensures
            r.config == config,
            r.defaults == defaults,
    {
        CustomWorkflowService { config, defaults }
    }

    /// Whether workflows can be called.
    pub fn enabled(&self) -> (r: bool)
        ensures
            r == self.config.enabled,
    {
        self.config.enabled
    }

    /// The workflow that a message calls. A friend's message with a name in wide
    /// brackets only cannot be taken apart.
    pub fn parse_chat(&self, text: &str, message_type: &str) -> (r: Option<CustomWorkflowMatch>)
        requires
            self.config.enabled && message_type@ == "pink"@ ==> !wide_brackets_only(text@),
        ensures
            match r {
                Some(found) => chat_call(self.config, text@, message_type@) == Some(found@),
                None => chat_call(self.config, text@, message_type@) is None,
            },
    {
        parse_text(&self.config, text, message_type)
    }

    /// The workflows that are switched on, in order.
    pub fn list(&self) -> (r: Vec<CustomWorkflowSummary>)
        ensures
            summary_views(r@) == summaries(self.config.workflows@),
    {
        list_workflows(&self.config)
    }

    /// A call from the console: the workflow of a name, with arguments.
    pub fn prepare_remote(&self, name: &str, args: &str) -> (r: Result<CustomWorkflowMatch, String>)
        ensures
            match r {
                Ok(found) => remote_call(self.config, name@, args@) == Ok::<
                    WorkflowMatchView,
                    Seq<char>,
                >(found@),
                Err(reason) => remote_call(self.config, name@, args@) == Err::<
                    WorkflowMatchView,
                    Seq<char>,
                >(reason@),
            },
    {
        remote_match(&self.config, name, args)
    }

    /// The plan of a call, or why there is none.
    pub fn prepare(&self, invocation: &CustomWorkflowInvocation) -> (r: Result<
        WorkflowPlan,
        String,
    >)
        ensures
            plan_outcome(r) == plan_of(self.config, self.defaults, invocation@),
    {
        prepare(&self.config, &self.defaults, invocation)
    }

    /// Carries out a call: plans it whole, asks the question it may have, and
    /// does one operation after the other until one fails.
    pub fn execute<P: CustomWorkflowExecutionPort>(
        &self,
        invocation: &CustomWorkflowInvocation,
        port: &mut P,
    ) -> (r: Result<WorkflowCompletion, String>)
        ensures
            executed(
                old(port).calls(),
                final(port).calls(),
                plan_of(self.config, self.defaults, invocation@),
                answer_of(r),
            ),
    {
        let plan = match self.prepare(invocation) {
            Ok(plan) => plan,
            Err(reason) => {
                return Err(reason);
            },
        };
        let ghost view = plan@;
        let ghost c0 = port.calls();
        if let Some(confirmation) = &plan.confirmation {
            let asked = port.send_hall(confirmation.message.as_str());
            let ghost c1 = port.calls();
            assert(c1.take(c0.len() as int) =~= c0);
            assert(c1.take(c0.len() as int + 1) =~= c1);
            if let Err(reason) = asked {
                return Err(reason);
            }
            let outcome = port.wait_for_fresh_message(
                confirmation,
                AcceptedText::Confirmation,
            );
            let ghost c2 = port.calls();
            proof {
                assert(c2.take(c1.len() as int) =~= c1);
                assert(c2.take(c2.len() as int) =~= c2);
                lemma_question(c0, c1, c2, c2);
            }
            let confirmed = match outcome {
                Err(reason) => {
                    return Err(reason);
                },
                Ok(FreshMessageOutcome::Message(message)) => {
                    match parse_confirmation(message.as_str()) {
                        Some(WorkflowConfirmationDecision::Confirm) => true,
                        _ => false,
                    }
                },
                Ok(FreshMessageOutcome::Timeout) => {
                    let told = port.send_hall("自定义流程确认超时,已取消");
                    proof {
                        assert(port.calls().take(c2.len() as int) =~= c2);
                        lemma_question(c0, c1, c2, port.calls());
                    }
                    if let Err(reason) = told {
                        return Err(reason);
                    }
                    false
                },
                Ok(FreshMessageOutcome::Stopped) => false,
            };
            if !confirmed {
                return Ok(WorkflowCompletion::Cancelled);
            }
            let r = run_plan(&plan, port);
            proof {
                lemma_question(c0, c1, c2, port.calls());
            }
            return r;
        }
        run_plan(&plan, port)
    }
}

/// What was asked first stays first.
proof fn lemma_question(
    c0: Seq<Exchange<WorkflowRequest>>,
    c1: Seq<Exchange<WorkflowRequest>>,
    c2: Seq<Exchange<WorkflowRequest>>,
    after: Seq<Exchange<WorkflowRequest>>,
)
    requires
        c1.len() == c0.len() + 1,
        c1.take(c0.len() as int) == c0,
        c2.len() == c1.len() + 1,
        c2.take(c1.len() as int) == c1,
        after.len() >= c2.len(),
        after.take(c2.len() as int) == c2,
    ensures
        extends(c0, after),
        extends(c1, after),
        after.take(c0.len() as int + 1) == c1,
        after.take(c1.len() as int + 1) == c2,
        after[c0.len() as int] == c1.last(),
        after[c1.len() as int] == c2.last(),
{
    assert(after.take(c1.len() as int) =~= c2.take(c1.len() as int));
    assert(after.take(c0.len() as int) =~= c1.take(c0.len() as int));
    assert(after.take(c2.len() as int)[c1.len() as int] == after[c1.len() as int]);
    assert(after.take(c1.len() as int)[c0.len() as int] == after[c0.len() as int]);
}

/// Does one operation of a plan after the other until one fails, and says what is
/// said at its end.
fn run_plan<P: CustomWorkflowExecutionPort>(plan: &WorkflowPlan, port: &mut P) -> (r: Result<
    WorkflowCompletion,
    String,
>)
    ensures
        ran(old(port).calls(), final(port).calls(), plan@, answer_of(r)),
        extends(old(port).calls(), final(port).calls()),
{
    let ghost start = port.calls();
    let ghost requests = plan_requests(plan@);
    let mut i: usize = 0;
    assert(start.take(start.len() as int) =~= start);
    while i < plan.operations.len()
        invariant
            i <= plan.operations@.len(),
            requests == plan_requests(plan@),
            start == old(port).calls(),
            granted(start, port.calls(), requests, i as int),
        decreases plan.operations@.len() - i,
    {
        let ghost now = port.calls();
        let operation = copy_operation(&plan.operations[i]);
        assert(requests[i as int] == (WorkflowRequest::Operation {
            workflow: plan.workflow@,
            operation: operation@,
        }));
        let outcome = port.execute_operation(plan.workflow.as_str(), operation);
        proof {
            lemma_one_more(start, now, requests, i as int, failure_of(outcome));
        }
        if let Err(reason) = outcome {
            return Err(reason);
        }
        i = i + 1;
    }
    if let Some(message) = &plan.success_message {
        let ghost now = port.calls();
        let outcome = port.send_hall(message.as_str());
        proof {
            lemma_one_more(start, now, requests, i as int, failure_of(outcome));
        }
        if let Err(reason) = outcome {
            return Err(reason);
        }
    }
    proof {
        lemma_all_granted(start, port.calls(), requests);
    }
    Ok(WorkflowCompletion::Completed)
}

// ---------------------------------------------------------------------------
// What holds of it
// ---------------------------------------------------------------------------
/// Without a plan that is complete, nothing is asked of the outside.
pub proof fn law_no_plan_no_call(
    before: Seq<Exchange<WorkflowRequest>>,
    after: Seq<Exchange<WorkflowRequest>>,
    plan: Result<PlanView, Seq<char>>,
    r: Result<WorkflowCompletion, Seq<char>>,
)
    requires
        executed(before, after, plan, r),
        plan is Err,
    ensures
        after == before,
        r is Err,
{
}

/// A workflow that was cancelled did nothing.
pub proof fn law_cancelled_does_nothing(
    before: Seq<Exchange<WorkflowRequest>>,
    after: Seq<Exchange<WorkflowRequest>>,
    plan: Result<PlanView, Seq<char>>,
    i: int,
)
    requires
        executed(before, after, plan, Ok(WorkflowCompletion::Cancelled)),
        before.len() <= i < after.len(),
    ensures
        after[i].request !is Operation,
{
    let n = before.len() as int;
    assert(after.take(n + 1).len() == n + 1);
}

/// A workflow that ran to its end did all that its plan asks for, in order; and
/// where it has a question, that was answered with consent before.
pub proof fn law_completed_did_all(
    before: Seq<Exchange<WorkflowRequest>>,
    after: Seq<Exchange<WorkflowRequest>>,
    plan: PlanView,
    k: int,
)
    requires
        executed(before, after, Ok(plan), Ok(WorkflowCompletion::Completed)),
        0 <= k < plan.operations.len(),
    ensures
        ({
            let first = before.len() + (if plan.confirmation is Some {
                2int
            } else {
                0int
            });
            &&& first + k < after.len()
            &&& after[first + k].request == (WorkflowRequest::Operation {
                workflow: plan.workflow,
                operation: plan.operations[k],
            })
            &&& after[first + k].failure is None
        }),
        plan.confirmation is Some ==> {
            &&& after[before.len() as int + 1].request matches WorkflowRequest::Await {
                outcome: Some(FreshMessageView::Message(text)),
                ..
            }
            &&& decision_in(text) == Some(WorkflowConfirmationDecision::Confirm)
        },
{
    let requests = plan_requests(plan);
    let start = if plan.confirmation is Some {
        after.take(before.len() as int + 1 + 1)
    } else {
        before
    };
    if plan.confirmation is Some {
        assert(after.take(before.len() as int + 1).len() == before.len() + 1);
        assert(ran(start, after, plan, Ok(WorkflowCompletion::Completed)));
    }
    assert(carried_out(start, after, requests, None));
    assert(after[start.len() + k].request == requests[k]);
}

/// A question is asked first and its answer awaited. With consent the workflow runs to its
/// end or fails; with another answer, or where the program stops, it is cancelled and
/// nothing more is done; where no answer comes, the hall is told so.
pub proof fn law_answer_decides(
    before: Seq<Exchange<WorkflowRequest>>,
    after: Seq<Exchange<WorkflowRequest>>,
    plan: PlanView,
    confirmation: ConfirmationView,
    r: Result<WorkflowCompletion, Seq<char>>,
)
    requires
        executed(before, after, Ok(plan), r),
        plan.confirmation == Some(confirmation),
    ensures
        ({
            let n = before.len() as int;
            &&& after.len() > n
            &&& after[n].request == WorkflowRequest::SendHall(confirmation.message)
            &&& after[n].failure matches Some(reason) ==> after.len() == n + 1 && r == Err::<
                WorkflowCompletion,
                Seq<char>,
            >(reason)
            &&& after[n].failure is None ==> {
                &&& after.len() > n + 1
                &&& after[n + 1].request matches WorkflowRequest::Await {
                    confirmation: asked,
                    accepts_text,
                    outcome,
                }
                &&& asked == confirmation
                &&& accepts_text == AcceptedText::Confirmation
                &&& after[n + 1].failure matches Some(reason) ==> after.len() == n + 2 && r
                    == Err::<WorkflowCompletion, Seq<char>>(reason)
                &&& after[n + 1].failure is None ==> {
                    &&& outcome matches Some(FreshMessageView::Message(text)) ==> {
                        &&& decision_in(text) == Some(WorkflowConfirmationDecision::Confirm) ==> r
                            != Ok::<WorkflowCompletion, Seq<char>>(WorkflowCompletion::Cancelled)
                        &&& decision_in(text) == Some(WorkflowConfirmationDecision::Confirm)
                            && plan.operations.len() > 0 ==> after.len() > n + 2 && after[n
                            + 2].request == (WorkflowRequest::Operation {
                            workflow: plan.workflow,
                            operation: plan.operations[0],
                        })
                        &&& decision_in(text) != Some(WorkflowConfirmationDecision::Confirm)
                            ==> after.len() == n + 2 && r == Ok::<WorkflowCompletion, Seq<char>>(
                            WorkflowCompletion::Cancelled,
                        )
                    }
                    &&& outcome == Some(FreshMessageView::Stopped) ==> after.len() == n + 2 && r
                        == Ok::<WorkflowCompletion, Seq<char>>(WorkflowCompletion::Cancelled)
                    &&& outcome == Some(FreshMessageView::Timeout) ==> after.len() == n + 3
                        && after[n + 2].request == WorkflowRequest::SendHall(
                        "自定义流程确认超时,已取消"@,
                    ) && (after[n + 2].failure is None ==> r == Ok::<
                        WorkflowCompletion,
                        Seq<char>,
                    >(WorkflowCompletion::Cancelled))
                }
            }
        }),
{
    let n = before.len() as int;
    if after[n].failure is None {
        let start = after.take(n + 1);
        assert(start.len() == n + 1);
        assert(answered(start, after, confirmation, plan, r));
        let here = after.take(n + 2);
        assert(here.len() == n + 2);
        let requests = plan_requests(plan);
        if ran(here, after, plan, r) && plan.operations.len() > 0 {
            let zero: int = 0;
            assert(after[here.len() + zero].request == requests[0]);
        }
    }
}

/// What a workflow that ran to its end said last is the message of its success, where it
/// has one; and without a question it does its operations at once, and nothing else.
pub proof fn law_success_is_told(
    before: Seq<Exchange<WorkflowRequest>>,
    after: Seq<Exchange<WorkflowRequest>>,
    plan: PlanView,
    message: Seq<char>,
)
    requires
        executed(before, after, Ok(plan), Ok(WorkflowCompletion::Completed)),
        plan.confirmation is None,
    ensures
        plan.success_message == Some(message) ==> after.len() == before.len()
            + plan.operations.len() + 1 && after.last().request == WorkflowRequest::SendHall(
            message,
        ) && after.last().failure is None,
        plan.success_message is None ==> after.len() == before.len() + plan.operations.len(),
{
    let requests = plan_requests(plan);
    if plan.success_message == Some(message) {
        let k = plan.operations.len() as int;
        assert(after[before.len() + k].request == requests[k]);
        assert(after.last() == after[before.len() + k]);
    }
}

/// An operation that fails ends the workflow with its reason: none of those behind it is
/// done.
pub proof fn law_failed_operation_ends(
    before: Seq<Exchange<WorkflowRequest>>,
    after: Seq<Exchange<WorkflowRequest>>,
    plan: PlanView,
    r: Result<WorkflowCompletion, Seq<char>>,
    k: int,
)
    requires
        executed(before, after, Ok(plan), r),
        plan.confirmation is None,
        0 <= k < after.len() - before.len(),
        after[before.len() + k].failure is Some,
    ensures
        after.len() == before.len() + k + 1,
        r == Err::<WorkflowCompletion, Seq<char>>(after[before.len() + k].failure->0),
        k < plan.operations.len() ==> after[before.len() + k].request
            == (WorkflowRequest::Operation {
            workflow: plan.workflow,
            operation: plan.operations[k],
        }),
{
    let requests = plan_requests(plan);
    assert(after[before.len() + k].request == requests[k]);
}

} // verus!
