//! Which of the entertainments goes on: at most one at a time.
use vstd::prelude::*;

verus! {

/// The entertainments.
#[derive(Clone, Copy, Debug, PartialEq, Eq, Structural)]
pub enum EntertainmentKind {
    IdiomChain,
    Landlord,
    RunFast,
    TurtleSoup,
    Undercover,
}

impl EntertainmentKind {
    /// What the entertainment is called in chat.
    pub open spec fn spec_label(self) -> Seq<char> {
        match self {
            EntertainmentKind::IdiomChain => "成语接龙"@,
            EntertainmentKind::Landlord => "斗地主"@,
            EntertainmentKind::RunFast => "跑得快"@,
            EntertainmentKind::TurtleSoup => "海龟汤"@,
            EntertainmentKind::Undercover => "谁是卧底"@,
        }
    }

    /// What the entertainment is called in chat.
    pub fn label(self) -> (r: &'static str)
        ensures
            r@ == self.spec_label(),
    {
        match self {
            EntertainmentKind::IdiomChain => "成语接龙",
            EntertainmentKind::Landlord => "斗地主",
            EntertainmentKind::RunFast => "跑得快",
            EntertainmentKind::TurtleSoup => "海龟汤",
            EntertainmentKind::Undercover => "谁是卧底",
        }
    }
}

/// What an attempt to start an entertainment gives.
#[derive(Clone, Copy, Debug, PartialEq, Eq, Structural)]
pub enum AcquireOutcome {
    Acquired,
    AlreadyOwned,
    Occupied(EntertainmentKind),
}

/// What an attempt to start `kind` gives while `active` goes on.
pub open spec fn acquire_outcome(
    active: Option<EntertainmentKind>,
    kind: EntertainmentKind,
) -> AcquireOutcome {
    match active {
        None => AcquireOutcome::Acquired,
        Some(current) => if current == kind {
            AcquireOutcome::AlreadyOwned
        } else {
            AcquireOutcome::Occupied(current)
        },
    }
}

/// What goes on after an attempt to start `kind`.
pub open spec fn after_acquire(
    active: Option<EntertainmentKind>,
    kind: EntertainmentKind,
) -> Option<EntertainmentKind> {
    match active {
        None => Some(kind),
        Some(current) => Some(current),
    }
}

/// What goes on after `kind` has been released.
pub open spec fn after_release(
    active: Option<EntertainmentKind>,
    kind: EntertainmentKind,
) -> Option<EntertainmentKind> {
    if active == Some(kind) {
        None
    } else {
        active
    }
}

/// The entertainment that goes on, if any.
#[derive(Debug)]
pub struct EntertainmentState {
    pub active: Option<EntertainmentKind>,
}

impl Default for EntertainmentState {
    fn default() -> (r: Self)
        ensures
            r.active is None,
    {
        EntertainmentState { active: None }
    }
}

impl EntertainmentState {
    /// No entertainment goes on.
    pub fn new() -> (r: Self)
        ensures
            r.active is None,
    {
        EntertainmentState { active: None }
    }

    /// Starts `kind` if nothing goes on.
    pub fn try_acquire(&mut self, kind: EntertainmentKind) -> (r: AcquireOutcome)
        ensures
            r == acquire_outcome(old(self).active, kind),
            final(self).active == after_acquire(old(self).active, kind),
    {
        match self.active {
            None => {
                self.active = Some(kind);
                AcquireOutcome::Acquired
            },
            Some(current) => if current == kind {
                AcquireOutcome::AlreadyOwned
            } else {
                AcquireOutcome::Occupied(current)
            },
        }
    }

    /// Ends `kind` if it goes on.
    pub fn release(&mut self, kind: EntertainmentKind)
        ensures
            final(self).active == after_release(old(self).active, kind),
    {
        match self.active {
            Some(current) => if current == kind {
                self.active = None;
            },
            None => {},
        }
    }

    /// What goes on.
    pub fn active(&self) -> (r: Option<EntertainmentKind>)
        ensures
            r == self.active,
    {
        self.active
    }
}

/// Only one entertainment goes on: while one does, no other can be started.
pub proof fn law_one_entertainment(
    active: Option<EntertainmentKind>,
    kind: EntertainmentKind,
    other: EntertainmentKind,
)
    requires
        acquire_outcome(active, kind) is Acquired,
    ensures
        acquire_outcome(after_acquire(active, kind), other) !is Acquired,
        after_acquire(after_acquire(active, kind), other) == Some(kind),
{
}

/// Releasing undoes a successful start.
pub proof fn law_release_undoes_acquire(
    active: Option<EntertainmentKind>,
    kind: EntertainmentKind,
)
    requires
        acquire_outcome(active, kind) is Acquired,
    ensures
        after_release(after_acquire(active, kind), kind) == active,
{
}

/// Whatever is asked for starts where nothing goes on; who asks again is told that it
/// goes on already, and who asks for something else is told what goes on. Each of these
/// leaves what goes on as it is.
pub proof fn law_starting(current: EntertainmentKind, kind: EntertainmentKind)
    ensures
        acquire_outcome(None, kind) == AcquireOutcome::Acquired,
        after_acquire(None, kind) == Some(kind),
        acquire_outcome(Some(kind), kind) == AcquireOutcome::AlreadyOwned,
        current != kind ==> acquire_outcome(Some(current), kind) == AcquireOutcome::Occupied(
            current,
        ),
        after_acquire(Some(current), kind) == Some(current),
{
}

/// What goes on ends when it is released, and only then: to release another
/// entertainment changes nothing.
pub proof fn law_releasing(current: EntertainmentKind, kind: EntertainmentKind)
    ensures
        after_release(Some(kind), kind) is None,
        current != kind ==> after_release(Some(current), kind) == Some(current),
        after_release(None, kind) is None,
{
}

/// No two entertainments are called alike.
pub proof fn law_names_differ(one: EntertainmentKind, other: EntertainmentKind)
    ensures
        one.spec_label() == other.spec_label() <==> one == other,
        one.spec_label().len() > 0,
{
    reveal_strlit("成语接龙");
    reveal_strlit("斗地主");
    reveal_strlit("跑得快");
    reveal_strlit("海龟汤");
    reveal_strlit("谁是卧底");
    assert("成语接龙"@[0] == '成');
    assert("斗地主"@[0] == '斗');
    assert("跑得快"@[0] == '跑');
    assert("海龟汤"@[0] == '海');
    assert("谁是卧底"@[0] == '谁');
}

} // verus!
