//! How long the hall lasts, as far as it is known.
use vstd::prelude::*;
use crate::hall::HALL_EXPIRING_WARNING_MINUTES;

verus! {

/// How many minutes the hall had left, when that was read, and whether its end
/// was announced.
#[derive(Clone, Copy, Debug, PartialEq, Eq, Structural)]
pub struct HallRuntimeState {
    pub remaining_minutes: Option<u32>,
    pub remaining_updated_at: Option<u64>,
    pub expiring_warning_sent: bool,
}

/// Nothing is known of the hall.
pub open spec fn nothing_known() -> HallRuntimeState {
    HallRuntimeState {
        remaining_minutes: None,
        remaining_updated_at: None,
        expiring_warning_sent: false,
    }
}

impl Default for HallRuntimeState {
    fn default() -> (r: Self)
        ensures
            r == nothing_known(),
    {
        HallRuntimeState {
            remaining_minutes: None,
            remaining_updated_at: None,
            expiring_warning_sent: false,
        }
    }
}

/// What is to be changed of what is known.
#[derive(Clone, Copy, Debug, PartialEq, Eq, Structural)]
pub struct HallStatePatch {
    pub remaining_minutes: Option<Option<u32>>,
    pub remaining_updated_at: Option<Option<u64>>,
    pub expiring_warning_sent: Option<bool>,
}

impl Default for HallStatePatch {
    fn default() -> (r: Self)
        ensures
            r == (HallStatePatch {
                remaining_minutes: None,
                remaining_updated_at: None,
                expiring_warning_sent: None,
            }),
    {
        HallStatePatch {
            remaining_minutes: None,
            remaining_updated_at: None,
            expiring_warning_sent: None,
        }
    }
}

/// What is known after so many minutes were read.
pub open spec fn updated(state: HallRuntimeState, minutes: u32, at: u64) -> HallRuntimeState {
    if minutes == 0 {
        nothing_known()
    } else {
        HallRuntimeState {
            remaining_minutes: Some(minutes),
            remaining_updated_at: Some(at),
            expiring_warning_sent: state.expiring_warning_sent && minutes
                <= HALL_EXPIRING_WARNING_MINUTES,
        }
    }
}

/// What is known after a change.
pub open spec fn patched(state: HallRuntimeState, patch: HallStatePatch) -> HallRuntimeState {
    HallRuntimeState {
        remaining_minutes: match patch.remaining_minutes {
            Some(value) => value,
            None => state.remaining_minutes,
        },
        remaining_updated_at: match patch.remaining_updated_at {
            Some(value) => value,
            None => state.remaining_updated_at,
        },
        expiring_warning_sent: match patch.expiring_warning_sent {
            Some(value) => value,
            None => state.expiring_warning_sent,
        },
    }
}

impl HallRuntimeState {
    /// So many minutes were read. With none left, nothing is known; with enough
    /// left, the end is to be announced again.
    pub fn update_remaining_minutes(&mut self, minutes: u32, updated_at: u64)
        ensures
            *final(self) == updated(*old(self), minutes, updated_at),
    {
        if minutes == 0 {
            self.clear_remaining_minutes();
            return ;
        }
        self.remaining_minutes = Some(minutes);
        self.remaining_updated_at = Some(updated_at);
        if minutes > HALL_EXPIRING_WARNING_MINUTES {
            self.expiring_warning_sent = false;
        }
    }

    /// Nothing is known any more.
    pub fn clear_remaining_minutes(&mut self)
        ensures
            *final(self) == nothing_known(),
    {
        self.remaining_minutes = None;
        self.remaining_updated_at = None;
        self.expiring_warning_sent = false;
    }

    /// Nothing is known any more. Tells whether something was.
    pub fn clear_countdown_cache(&mut self) -> (r: bool)
        ensures
            *final(self) == nothing_known(),
            r == (*old(self) != nothing_known()),
    {
        let had_cache = self.remaining_minutes.is_some() || self.remaining_updated_at.is_some()
            || self.expiring_warning_sent;
        if had_cache {
            self.clear_remaining_minutes();
        }
        had_cache
    }

    /// How many minutes the hall has left.
    pub fn remaining_minutes_now(&self) -> (r: Option<u32>)
        ensures
            r == self.remaining_minutes,
    {
        self.remaining_minutes
    }

    /// Changes what the patch names.
    pub fn apply_patch(&mut self, patch: HallStatePatch)
        ensures
            *final(self) == patched(*old(self), patch),
    {
        if let Some(value) = patch.remaining_minutes {
            self.remaining_minutes = value;
        }
        if let Some(value) = patch.remaining_updated_at {
            self.remaining_updated_at = value;
        }
        if let Some(value) = patch.expiring_warning_sent {
            self.expiring_warning_sent = value;
        }
    }
}

/// What is known of the hall, as it was last written.
#[derive(Clone, Copy, Debug, PartialEq, Eq, Structural)]
pub struct PersistentHallState {
    pub state: HallRuntimeState,
}

impl PersistentHallState {
    /// What is known of the hall.
    pub fn state(&self) -> (r: &HallRuntimeState)
        ensures
            *r == self.state,
    {
        &self.state
    }

    /// Takes over `next` where something changed and it could be written.
    /// `saved` is how writing it went; without a change nothing is written.
    pub fn update(
        &mut self,
        next: HallRuntimeState,
        changed: bool,
        saved: Result<(), String>,
    ) -> (r: Result<bool, String>)
        ensures
            final(self).state == (if changed && saved is Ok {
                next
            } else {
                old(self).state
            }),
            match r {
                Ok(answer) => answer == changed && (changed ==> saved is Ok),
                Err(reason) => changed && saved == Err::<(), String>(reason),
            },
    {
        if !changed {
            return Ok(false);
        }
        match saved {
            Ok(()) => {
                self.state = next;
                Ok(true)
            },
            Err(reason) => Err(reason),
        }
    }
}

// ---------------------------------------------------------------------------
// The countdown
// ---------------------------------------------------------------------------
/// A second, in nanoseconds.
pub const SECOND: u128 = 1_000_000_000;

/// What is known of the hall, and the moment at which it was so. Moments are in
/// nanoseconds from the first that the clock can name.
#[derive(Clone, Copy, Debug, PartialEq, Eq, Structural)]
pub struct HallStateService {
    pub state: HallRuntimeState,
    pub countdown_updated_at: Option<u128>,
}

/// The moment at which the minutes that are known were read. `now` is the moment
/// at which the wall clock shows `unix_seconds`.
pub open spec fn countdown_anchor(
    state: HallRuntimeState,
    now: u128,
    unix_seconds: u64,
) -> Option<u128> {
    match (state.remaining_minutes, state.remaining_updated_at) {
        (Some(minutes), Some(updated_at)) => if minutes == 0 {
            None
        } else if unix_seconds <= updated_at || (unix_seconds - updated_at) * SECOND > now {
            Some(now)
        } else {
            Some((now - (unix_seconds - updated_at) * SECOND) as u128)
        },
        _ => None,
    }
}

/// What is left of some minutes. Whole minutes count that have passed.
pub open spec fn minutes_left(minutes: u32, read_at: u128, now: u128) -> u32 {
    let passed = if now >= read_at {
        ((now - read_at) / (60 * SECOND)) as u32
    } else {
        0
    };
    if passed <= minutes {
        (minutes - passed) as u32
    } else {
        0
    }
}

/// What is known of the hall at a moment.
pub open spec fn seen_at(service: HallStateService, now: u128) -> HallRuntimeState {
    match (service.state.remaining_minutes, service.countdown_updated_at) {
        (Some(minutes), Some(read_at)) => HallRuntimeState {
            remaining_minutes: Some(minutes_left(minutes, read_at, now)),
            ..service.state
        },
        _ => service.state,
    }
}

impl HallStateService {
    /// A service that starts with what is known.
    pub fn from_state(state: HallRuntimeState, now: u128, unix_seconds: u64) -> (r: Self)
        ensures
            r.state == state,
            r.countdown_updated_at == countdown_anchor(state, now, unix_seconds),
    {
        let mut service = HallStateService { state, countdown_updated_at: None };
        service.refresh_countdown_anchor(now, unix_seconds);
        service
    }

    /// A service at its start: what was known from an earlier run is forgotten.
    /// Tells whether something was, and is to be written.
    pub fn load(state: HallRuntimeState, now: u128, unix_seconds: u64) -> (r: (Self, bool))
        ensures
            r.0 == (HallStateService { state: nothing_known(), countdown_updated_at: None }),
            r.1 == (state != nothing_known()),
    {
        let mut service = HallStateService::from_state(state, now, unix_seconds);
        let cleared = service.clear_countdown_cache();
        (service, cleared)
    }

    /// What is known of the hall now.
    pub fn snapshot(&self, now: u128) -> (r: HallRuntimeState)
        ensures
            r == seen_at(*self, now),
    {
        let mut snapshot = self.state;
        if let (Some(minutes), Some(updated_at)) = (
            snapshot.remaining_minutes,
            self.countdown_updated_at,
        ) {
            let elapsed: u128 = if now >= updated_at {
                now - updated_at
            } else {
                0
            };
            let minute: u128 = 60 * SECOND;
            let elapsed_minutes: u32 = (elapsed / minute) as u32;
            snapshot.remaining_minutes = Some(minutes.saturating_sub(elapsed_minutes));
        }
        snapshot
    }

    /// Changes what the patch names. What is known is then to be written.
    pub fn patch(&mut self, patch: HallStatePatch, now: u128, unix_seconds: u64)
        ensures
            final(self).state == patched(old(self).state, patch),
            final(self).countdown_updated_at == (if patch.remaining_minutes is Some
                || patch.remaining_updated_at is Some {
                countdown_anchor(patched(old(self).state, patch), now, unix_seconds)
            } else {
                old(self).countdown_updated_at
            }),
    {
        let countdown_changed = patch.remaining_minutes.is_some()
            || patch.remaining_updated_at.is_some();
        self.state.apply_patch(patch);
        if countdown_changed {
            self.refresh_countdown_anchor(now, unix_seconds);
        }
    }

    /// So many minutes were read just now. What is known is then to be written.
    pub fn update_remaining_minutes(&mut self, minutes: u32, now: u128, unix_seconds: u64)
        ensures
            final(self).state == updated(old(self).state, minutes, unix_seconds),
            final(self).countdown_updated_at == (if minutes > 0 {
                Some(now)
            } else {
                None
            }),
    {
        self.state.update_remaining_minutes(minutes, unix_seconds);
        self.countdown_updated_at = if minutes > 0 {
            Some(now)
        } else {
            None
        };
    }

    /// Nothing is known any more. What is known is then to be written.
    pub fn clear_remaining_minutes(&mut self)
        ensures
            *final(self) == (HallStateService {
                state: nothing_known(),
                countdown_updated_at: None,
            }),
    {
        self.state.clear_remaining_minutes();
        self.countdown_updated_at = None;
    }

    /// Nothing is known any more. Tells whether something was, and is to be
    /// written.
    pub fn clear_countdown_cache(&mut self) -> (r: bool)
        ensures
            *final(self) == (HallStateService {
                state: nothing_known(),
                countdown_updated_at: None,
            }),
            r == (old(self).state != nothing_known()),
    {
        let cleared = self.state.clear_countdown_cache();
        self.countdown_updated_at = None;
        cleared
    }

    /// Finds the moment again at which the minutes that are known were read.
    fn refresh_countdown_anchor(&mut self, now: u128, unix_seconds: u64)
        ensures
            final(self).state == old(self).state,
            final(self).countdown_updated_at == countdown_anchor(
                old(self).state,
                now,
                unix_seconds,
            ),
    {
        self.countdown_updated_at = match (
            self.state.remaining_minutes,
            self.state.remaining_updated_at,
        ) {
            (Some(minutes), Some(updated_at)) => if minutes == 0 {
                None
            } else {
                let elapsed: u128 = unix_seconds.saturating_sub(updated_at) as u128 * SECOND;
                if elapsed > now {
                    Some(now)
                } else {
                    Some(now - elapsed)
                }
            },
            _ => None,
        };
    }
}

/// A hall that was never read, or was left, is not counted down.
pub open spec fn counts(service: HallStateService) -> bool {
    service.countdown_updated_at is Some ==> service.state.remaining_minutes is Some
        && service.state.remaining_minutes->0 > 0
}

/// The minutes that are shown never grow while nothing new is read.
pub proof fn law_countdown_falls(minutes: u32, read_at: u128, now: u128, later: u128)
    requires
        read_at <= now <= later,
        (later - read_at) / (60 * SECOND as int) <= u32::MAX,
    ensures
        minutes_left(minutes, read_at, later) <= minutes_left(minutes, read_at, now) <= minutes,
{
    vstd::arithmetic::div_mod::lemma_div_is_ordered(
        now - read_at,
        later - read_at,
        60 * SECOND as int,
    );
}

/// Minutes that were just read are shown as they were read.
pub proof fn law_read_is_shown(service: HallStateService, minutes: u32, now: u128, at: u64)
    requires
        minutes > 0,
    ensures
        seen_at(
            HallStateService {
                state: updated(service.state, minutes, at),
                countdown_updated_at: Some(now),
            },
            now,
        ).remaining_minutes == Some(minutes),
{
}

/// An announcement is made again only for a hall that was read to last longer
/// than the time of the announcement, or to have ended.
pub proof fn law_announced_once(state: HallRuntimeState, minutes: u32, at: u64)
    requires
        state.expiring_warning_sent,
        0 < minutes <= HALL_EXPIRING_WARNING_MINUTES,
    ensures
        updated(state, minutes, at).expiring_warning_sent,
{
}

/// A countdown that stands with its moment stays so, whatever is done.
pub proof fn law_countdown_stands(
    service: HallStateService,
    patch: HallStatePatch,
    minutes: u32,
    now: u128,
    unix_seconds: u64,
)
    requires
        counts(service),
    ensures
        counts(
            HallStateService {
                state: updated(service.state, minutes, unix_seconds),
                countdown_updated_at: if minutes > 0 {
                    Some(now)
                } else {
                    None
                },
            },
        ),
        counts(
            HallStateService {
                state: patched(service.state, patch),
                countdown_updated_at: if patch.remaining_minutes is Some
                    || patch.remaining_updated_at is Some {
                    countdown_anchor(patched(service.state, patch), now, unix_seconds)
                } else {
                    service.countdown_updated_at
                },
            },
        ),
{
}

/// Minutes that are read are known with the moment of reading; none left is as good as
/// nothing known. With more than ten minutes left the hall is announced again.
pub proof fn law_reading(state: HallRuntimeState, minutes: u32, at: u64)
    ensures
        minutes == 0 ==> updated(state, minutes, at) == (HallRuntimeState {
            remaining_minutes: None,
            remaining_updated_at: None,
            expiring_warning_sent: false,
        }),
        minutes > 0 ==> updated(state, minutes, at).remaining_minutes == Some(minutes)
            && updated(state, minutes, at).remaining_updated_at == Some(at),
        minutes > 10 ==> !updated(state, minutes, at).expiring_warning_sent,
        0 < minutes <= 10 ==> updated(state, minutes, at).expiring_warning_sent
            == state.expiring_warning_sent,
{
}

/// A change sets what it names and leaves the rest.
pub proof fn law_patching(state: HallRuntimeState, minutes: Option<u32>, at: Option<u64>, sent: bool)
    ensures
        patched(
            state,
            HallStatePatch {
                remaining_minutes: None,
                remaining_updated_at: None,
                expiring_warning_sent: None,
            },
        ) == state,
        patched(
            state,
            HallStatePatch {
                remaining_minutes: Some(minutes),
                remaining_updated_at: None,
                expiring_warning_sent: None,
            },
        ) == (HallRuntimeState { remaining_minutes: minutes, ..state }),
        patched(
            state,
            HallStatePatch {
                remaining_minutes: None,
                remaining_updated_at: Some(at),
                expiring_warning_sent: None,
            },
        ) == (HallRuntimeState { remaining_updated_at: at, ..state }),
        patched(
            state,
            HallStatePatch {
                remaining_minutes: None,
                remaining_updated_at: None,
                expiring_warning_sent: Some(sent),
            },
        ) == (HallRuntimeState { expiring_warning_sent: sent, ..state }),
{
}

/// After so many whole minutes, so many fewer are left, and none once all have passed;
/// before the moment of reading none has passed.
pub proof fn law_minutes_pass(minutes: u32, read_at: u128, passed: u32, part: nat, now: u128)
    requires
        part < 60_000_000_000,
    ensures
        now == read_at + passed * 60_000_000_000 + part ==> minutes_left(minutes, read_at, now) == (
        if passed <= minutes {
            minutes - passed
        } else {
            0
        }),
        now < read_at ==> minutes_left(minutes, read_at, now) == minutes,
{
    if now == read_at + passed * 60_000_000_000 + part {
        vstd::arithmetic::div_mod::lemma_fundamental_div_mod_converse(
            now - read_at,
            60_000_000_000,
            passed as int,
            part as int,
        );
    }
}

/// What was known before goes on counting from the moment it was read at: a service that
/// starts whole minutes later shows so many fewer.
pub proof fn law_counting_goes_on(
    minutes: u32,
    read_at: u64,
    sent: bool,
    passed: u32,
    now: u128,
    unix_seconds: u64,
)
    requires
        minutes > 0,
        unix_seconds == read_at + passed * 60,
        now >= passed * 60_000_000_000,
    ensures
        ({
            let state = HallRuntimeState {
                remaining_minutes: Some(minutes),
                remaining_updated_at: Some(read_at),
                expiring_warning_sent: sent,
            };
            let service = HallStateService {
                state,
                countdown_updated_at: countdown_anchor(state, now, unix_seconds),
            };
            &&& seen_at(service, now).remaining_minutes == Some(
                (if passed <= minutes {
                    minutes - passed
                } else {
                    0
                }) as u32,
            )
            &&& seen_at(service, now).remaining_updated_at == Some(read_at)
            &&& seen_at(service, now).expiring_warning_sent == sent
        }),
{
    let anchor = (now - passed * 60_000_000_000) as u128;
    assert((unix_seconds - read_at) * SECOND == passed * 60_000_000_000) by (nonlinear_arith)
        requires
            unix_seconds - read_at == passed * 60,
            SECOND == 1_000_000_000,
    ;
    law_minutes_pass(minutes, anchor, passed, 0, now);
}

/// Where nothing is known, nothing is counted.
pub proof fn law_nothing_to_count(
    state: HallRuntimeState,
    now: u128,
    unix_seconds: u64,
)
    requires
        state.remaining_minutes is None || state.remaining_minutes == Some(0u32)
            || state.remaining_updated_at is None,
    ensures
        countdown_anchor(state, now, unix_seconds) is None,
        seen_at(HallStateService { state, countdown_updated_at: None }, now) == state,
{
}

} // verus!
