//! One entertainment at a time.
use miliastra::entertainment::AcquireOutcome;
use miliastra::entertainment::EntertainmentKind;
use miliastra::entertainment::EntertainmentState;

#[test]
fn only_one_entertainment_module_can_be_active() {
    let mut state = EntertainmentState::new();

    assert_eq!(
        state.try_acquire(EntertainmentKind::IdiomChain),
        AcquireOutcome::Acquired
    );
    assert_eq!(
        state.try_acquire(EntertainmentKind::IdiomChain),
        AcquireOutcome::AlreadyOwned
    );
    assert_eq!(
        state.try_acquire(EntertainmentKind::TurtleSoup),
        AcquireOutcome::Occupied(EntertainmentKind::IdiomChain)
    );

    state.release(EntertainmentKind::IdiomChain);
    assert_eq!(state.active(), None);
}

#[test]
fn releasing_another_entertainment_changes_nothing() {
    let mut state = EntertainmentState::new();
    state.try_acquire(EntertainmentKind::RunFast);
    state.release(EntertainmentKind::Landlord);
    assert_eq!(state.active(), Some(EntertainmentKind::RunFast));
    assert_eq!(EntertainmentKind::RunFast.label(), "跑得快");
    assert_eq!(EntertainmentKind::Landlord.label(), "斗地主");
}
