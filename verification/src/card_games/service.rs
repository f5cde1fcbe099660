//! The card games as a service: starting them one at a time, and delivering
//! what they announce.
use vstd::prelude::*;
use crate::card_games::game::LandlordGame;
use crate::card_games::game::{
    delivery_retried, handled, optional_outcome, ticked, GameModel,
};
use crate::card_games::table::{found_player, StateView};
use crate::card_games::LandlordCommand;
use crate::card_games::LandlordConfig;
use crate::card_games::LandlordOutcome;
use crate::card_games::{public_outcome, OutcomeView};
use crate::entertainment::AcquireOutcome;
use crate::entertainment::EntertainmentKind;
use crate::entertainment::EntertainmentState;
use crate::entertainment::{acquire_outcome, after_release};
use crate::ports::answer_of;
use crate::text::cat2;
use crate::text::cat3;
use crate::text::owned;
use crate::text::str_equal;

verus! {

// ---------------------------------------------------------------------------
// Types
// ---------------------------------------------------------------------------
/// The right to open a room, held while the player is being verified.
#[derive(Clone, Copy, Debug, PartialEq, Eq, Structural)]
pub struct CardGameStartReservation {
    pub token: u64,
    pub kind: EntertainmentKind,
}

impl CardGameStartReservation {
    /// The game that is reserved.
    pub fn kind(self) -> (r: EntertainmentKind)
        ensures
            r == self.kind,
    {
        self.kind
    }
}

/// Whether a room may be opened.
#[derive(Clone, Debug, PartialEq, Eq)]
pub enum CardGameStartGate {
    Ready { reservation: CardGameStartReservation },
    Reply(String),
}

/// Whether a room may be opened, as plain values.
pub enum GateView {
    Ready(CardGameStartReservation),
    Reply(Seq<char>),
}

impl View for CardGameStartGate {
    type V = GateView;

    open spec fn view(&self) -> GateView {
        match self {
            CardGameStartGate::Ready { reservation } => GateView::Ready(*reservation),
            CardGameStartGate::Reply(reply) => GateView::Reply(reply@),
        }
    }
}

/// Why a request to the service failed.
#[derive(Clone, Debug, PartialEq, Eq)]
pub enum CardGameError {
    NotAStartCommand,
    ReservationMismatch,
    ReservationInactive,
    HandUndelivered(String),
    DealUndelivered(String),
    Port(String),
}

/// Why a request to the service failed, as plain values.
pub enum ErrorView {
    NotAStartCommand,
    ReservationMismatch,
    ReservationInactive,
    HandUndelivered(Seq<char>),
    DealUndelivered(Seq<char>),
    Port(Seq<char>),
}

impl View for CardGameError {
    type V = ErrorView;

    open spec fn view(&self) -> ErrorView {
        match self {
            CardGameError::NotAStartCommand => ErrorView::NotAStartCommand,
            CardGameError::ReservationMismatch => ErrorView::ReservationMismatch,
            CardGameError::ReservationInactive => ErrorView::ReservationInactive,
            CardGameError::HandUndelivered(player) => ErrorView::HandUndelivered(player@),
            CardGameError::DealUndelivered(player) => ErrorView::DealUndelivered(player@),
            CardGameError::Port(message) => ErrorView::Port(message@),
        }
    }
}

/// The text of an error.
pub open spec fn error_text(error: ErrorView) -> Seq<char> {
    match error {
        ErrorView::NotAStartCommand => "card game start gate requires a start command"@,
        ErrorView::ReservationMismatch => "card game start reservation does not match command"@,
        ErrorView::ReservationInactive => "card game start reservation is no longer active"@,
        ErrorView::HandUndelivered(player) => "牌局手牌发送失败：好友列表未找到 "@ + player,
        ErrorView::DealUndelivered(player) => "牌局发牌失败：好友列表未找到 "@ + player,
        ErrorView::Port(message) => message,
    }
}

impl CardGameError {
    /// The text of this error.
    pub fn message(&self) -> (r: String)
        ensures
            r@ == error_text(self@),
    {
        match self {
            CardGameError::NotAStartCommand => owned(
                "card game start gate requires a start command",
            ),
            CardGameError::ReservationMismatch => owned(
                "card game start reservation does not match command",
            ),
            CardGameError::ReservationInactive => owned(
                "card game start reservation is no longer active",
            ),
            CardGameError::HandUndelivered(player) => cat2(
                "牌局手牌发送失败：好友列表未找到 ",
                player.as_str(),
            ),
            CardGameError::DealUndelivered(player) => cat2(
                "牌局发牌失败：好友列表未找到 ",
                player.as_str(),
            ),
            CardGameError::Port(message) => message.clone(),
        }
    }
}

/// The service's state.
pub struct CardGameState {
    pub game: LandlordGame,
    pub pending_start: Option<CardGameStartReservation>,
    pub next_reservation_token: u64,
}

/// The card games as a service. Which entertainment goes on is shared with the
/// other entertainments and handed to each request.
pub struct CardGameService {
    pub state: CardGameState,
    pub enabled: bool,
}

/// The service and the entertainment that goes on, as plain values.
#[verifier::ext_equal]
pub struct World {
    pub game: GameModel,
    pub pending: Option<CardGameStartReservation>,
    pub next_token: u64,
    pub enabled: bool,
    pub active: Option<EntertainmentKind>,
}

impl CardGameService {
    /// The service beside the entertainment that goes on.
    pub open spec fn world(&self, entertainment: &EntertainmentState) -> World {
        World {
            game: self.state.game@,
            pending: self.state.pending_start,
            next_token: self.state.next_reservation_token,
            enabled: self.enabled,
            active: entertainment.active,
        }
    }

    /// The invariant of the table, which is open exactly where the service is.
    pub open spec fn wf(&self) -> bool {
        self.state.game.wf() && self.enabled == self.state.game@.config.enabled
    }
}

// ---------------------------------------------------------------------------
// Starting
// ---------------------------------------------------------------------------
/// The entertainment that a start command asks for.
pub open spec fn kind_of(command: LandlordCommand) -> Option<EntertainmentKind> {
    match command {
        LandlordCommand::Start => Some(EntertainmentKind::Landlord),
        LandlordCommand::RunFastStart => Some(EntertainmentKind::RunFast),
        _ => None,
    }
}

/// Whether an entertainment is one of the card games.
pub open spec fn card_game(kind: EntertainmentKind) -> bool {
    kind == EntertainmentKind::Landlord || kind == EntertainmentKind::RunFast
}

/// Whether an entertainment is one of the card games.
pub fn is_card_game_kind(kind: EntertainmentKind) -> (r: bool)
    ensures
        r == card_game(kind),
{
    match kind {
        EntertainmentKind::Landlord => true,
        EntertainmentKind::RunFast => true,
        _ => false,
    }
}

/// The entertainment that a start command asks for.
pub fn card_game_kind(command: &LandlordCommand) -> (r: Result<EntertainmentKind, CardGameError>)
    ensures
        match r {
            Ok(kind) => kind_of(*command) == Some(kind),
            Err(error) => kind_of(*command) is None && error@ is NotAStartCommand,
        },
{
    match command {
        LandlordCommand::Start => Ok(EntertainmentKind::Landlord),
        LandlordCommand::RunFastStart => Ok(EntertainmentKind::RunFast),
        _ => Err(CardGameError::NotAStartCommand),
    }
}

/// The token after `token`; no token is 0.
pub open spec fn token_after(token: u64) -> u64 {
    if token == u64::MAX {
        1
    } else {
        (token + 1) as u64
    }
}

/// A request to open a room: reserved if nothing stands in the way.
pub open spec fn prepared(w: World, command: LandlordCommand) -> (
    World,
    Result<GateView, ErrorView>,
) {
    match kind_of(command) {
        None => (w, Err(ErrorView::NotAStartCommand)),
        Some(kind) => if !w.enabled {
            (w, Ok(GateView::Reply(kind.spec_label() + "未启用"@)))
        } else if w.game.state !is Idle || w.pending is Some {
            (w, Ok(GateView::Reply("已有牌局或房间进行中"@)))
        } else {
            match acquire_outcome(w.active, kind) {
                AcquireOutcome::Acquired => {
                    let reservation = CardGameStartReservation { token: w.next_token, kind };
                    (
                        World {
                            pending: Some(reservation),
                            next_token: token_after(w.next_token),
                            active: Some(kind),
                            ..w
                        },
                        Ok(GateView::Ready(reservation)),
                    )
                },
                AcquireOutcome::AlreadyOwned => (w, Ok(GateView::Reply("已有牌局或房间进行中"@))),
                AcquireOutcome::Occupied(active) => (
                    w,
                    Ok(
                        GateView::Reply(
                            active.spec_label() + "正在进行，请结束后再开始"@ + kind.spec_label(),
                        ),
                    ),
                ),
            }
        },
    }
}

/// A reservation is given up, if it is the one that is held.
pub open spec fn canceled(w: World, reservation: CardGameStartReservation) -> (World, bool) {
    if w.pending == Some(reservation) {
        (
            World { pending: None, active: after_release(w.active, reservation.kind), ..w },
            true,
        )
    } else {
        (w, false)
    }
}

/// The card game that goes on is released.
pub open spec fn released(w: World) -> World {
    World {
        active: match w.active {
            Some(kind) if card_game(kind) => None,
            other => other,
        },
        ..w
    }
}

/// After an answer that ended the game, the entertainment is released.
pub open spec fn finished(w: World, ended: bool) -> World {
    if ended {
        released(w)
    } else {
        w
    }
}

/// A reservation is used to open the room.
pub open spec fn completed(
    w: World,
    player: Seq<char>,
    command: LandlordCommand,
    reservation: CardGameStartReservation,
    now: int,
) -> (World, Result<OutcomeView, ErrorView>) {
    match kind_of(command) {
        None => (w, Err(ErrorView::NotAStartCommand)),
        Some(kind) => if reservation.kind != kind {
            (w, Err(ErrorView::ReservationMismatch))
        } else if w.pending != Some(reservation) {
            (w, Err(ErrorView::ReservationInactive))
        } else {
            let (game, outcome) = handled(w.game, player, command, now);
            let after = World {
                game,
                pending: None,
                active: if outcome.action != "created"@ {
                    after_release(w.active, kind)
                } else {
                    w.active
                },
                ..w
            };
            (finished(after, outcome.ended), Ok(outcome))
        },
    }
}

// ---------------------------------------------------------------------------
// Commands
// ---------------------------------------------------------------------------
/// A player's command. One that reports a conflict is refused while another
/// kind of entertainment goes on.
pub open spec fn served(
    w: World,
    player: Seq<char>,
    command: LandlordCommand,
    reports_conflict: bool,
    now: int,
) -> (World, OutcomeView) {
    match w.active {
        Some(active) if reports_conflict && !card_game(active) => (
            w,
            public_outcome(
                "occupied"@,
                active.spec_label() + "正在进行，请结束后再开始牌局"@,
            ),
        ),
        _ => {
            let (game, outcome) = handled(w.game, player, command, now);
            (finished(World { game, ..w }, outcome.ended), outcome)
        },
    }
}

/// Everything is cleared: the reservation, the table and the entertainment.
pub open spec fn aborted(w: World) -> (World, bool) {
    let reserved = w.active matches Some(kind) && card_game(kind);
    (
        released(World { game: w.game.with(StateView::Idle), pending: None, ..w }),
        w.pending is Some || w.game.state !is Idle || reserved,
    )
}

/// The card game that `player` could join.
pub open spec fn joinable(w: World, player: Seq<char>) -> Option<EntertainmentKind> {
    match (w.active, w.game.state) {
        (Some(kind), StateView::Lobby(lobby)) if card_game(kind) && found_player(
            lobby.players,
            player,
        ) is None => Some(kind),
        _ => None,
    }
}

impl CardGameService {
    /// A service without a game, shuffling from `seed`.
    pub fn new(config: LandlordConfig, seed: u64) -> (r: CardGameService)
        ensures
            r.wf(),
            r.state.game@ == (GameModel { config, state: StateView::Idle, rng: seed }),
            r.state.pending_start is None,
            r.state.next_reservation_token == 1,
            r.enabled == config.enabled,
    {
        CardGameService {
            state: CardGameState {
                game: LandlordGame::new(config, seed),
                pending_start: None,
                next_reservation_token: 1,
            },
            enabled: config.enabled,
        }
    }

    /// Whether there is a room, a game or a reservation.
    pub fn is_active(&self) -> (r: bool)
        ensures
            r == (self.state.game@.state !is Idle || self.state.pending_start is Some),
    {
        self.state.game.is_active() || self.state.pending_start.is_some()
    }

    fn holds(&self, reservation: CardGameStartReservation) -> (r: bool)
        ensures
            r == (self.state.pending_start == Some(reservation)),
    {
        match self.state.pending_start {
            Some(pending) => pending == reservation,
            None => false,
        }
    }

    /// Reserves the right to open a room.
    pub fn prepare_start(
        &mut self,
        entertainment: &mut EntertainmentState,
        command: &LandlordCommand,
    ) -> (r: Result<CardGameStartGate, CardGameError>)
        requires
            old(self).wf(),
        ensures
            final(self).wf(),
            final(self).world(final(entertainment)) == prepared(
                old(self).world(old(entertainment)),
                *command,
            ).0,
            match (r, prepared(old(self).world(old(entertainment)), *command).1) {
                (Ok(gate), Ok(expected)) => gate@ == expected,
                (Err(error), Err(expected)) => error@ == expected,
                _ => false,
            },
    {
        let kind = match card_game_kind(command) {
            Ok(kind) => kind,
            Err(error) => {
                return Err(error);
            },
        };
        if !self.enabled {
            return Ok(CardGameStartGate::Reply(cat2(kind.label(), "未启用")));
        }
        if self.is_active() {
            return Ok(CardGameStartGate::Reply(owned("已有牌局或房间进行中")));
        }
        match entertainment.try_acquire(kind) {
            AcquireOutcome::Acquired => {
                let token: u64 = self.state.next_reservation_token;
                let reservation = CardGameStartReservation { token, kind };
                self.state.next_reservation_token = if token == u64::MAX {
                    1
                } else {
                    token + 1
                };
                self.state.pending_start = Some(reservation);
                Ok(CardGameStartGate::Ready { reservation })
            },
            AcquireOutcome::AlreadyOwned => Ok(
                CardGameStartGate::Reply(owned("已有牌局或房间进行中")),
            ),
            AcquireOutcome::Occupied(active) => Ok(
                CardGameStartGate::Reply(
                    cat3(active.label(), "正在进行，请结束后再开始", kind.label()),
                ),
            ),
        }
    }

    /// Gives up a reservation; tells whether it was held.
    pub fn cancel_start(
        &mut self,
        entertainment: &mut EntertainmentState,
        reservation: CardGameStartReservation,
    ) -> (r: bool)
        requires
            old(self).wf(),
        ensures
            final(self).wf(),
            (final(self).world(final(entertainment)), r) == canceled(
                old(self).world(old(entertainment)),
                reservation,
            ),
    {
        if self.holds(reservation) {
            self.state.pending_start = None;
            entertainment.release(reservation.kind);
            true
        } else {
            false
        }
    }

    fn release_active_card_game(&self, entertainment: &mut EntertainmentState)
        ensures
            self.world(final(entertainment)) == released(self.world(old(entertainment))),
    {
        if let Some(kind) = entertainment.active() {
            if is_card_game_kind(kind) {
                entertainment.release(kind);
            }
        }
    }

    fn finish_outcome(&self, entertainment: &mut EntertainmentState, outcome: &LandlordOutcome)
        ensures
            self.world(final(entertainment)) == finished(
                self.world(old(entertainment)),
                outcome.ended,
            ),
    {
        if outcome.ended {
            self.release_active_card_game(entertainment);
        }
    }

    /// Releases the entertainment if the answer to be delivered ended the game.
    pub fn begin_delivery(&self, entertainment: &mut EntertainmentState, outcome: &LandlordOutcome)
        ensures
            self.world(final(entertainment)) == finished(
                self.world(old(entertainment)),
                outcome.ended,
            ),
    {
        self.finish_outcome(entertainment, outcome)
    }

    /// Opens the room that was reserved.
    pub fn complete_start(
        &mut self,
        entertainment: &mut EntertainmentState,
        player: &str,
        command: &LandlordCommand,
        reservation: CardGameStartReservation,
        now: u128,
    ) -> (r: Result<LandlordOutcome, CardGameError>)
        requires
            old(self).wf(),
        ensures
            final(self).wf(),
            final(self).world(final(entertainment)) == completed(
                old(self).world(old(entertainment)),
                player@,
                *command,
                reservation,
                now as int,
            ).0,
            match (
                r,
                completed(
                    old(self).world(old(entertainment)),
                    player@,
                    *command,
                    reservation,
                    now as int,
                ).1,
            ) {
                (Ok(outcome), Ok(expected)) => outcome@ == expected,
                (Err(error), Err(expected)) => error@ == expected,
                _ => false,
            },
    {
        let kind = match card_game_kind(command) {
            Ok(kind) => kind,
            Err(error) => {
                return Err(error);
            },
        };
        if reservation.kind != kind {
            return Err(CardGameError::ReservationMismatch);
        }
        if !self.holds(reservation) {
            return Err(CardGameError::ReservationInactive);
        }
        self.state.pending_start = None;
        let outcome = self.state.game.handle(player, command, now);
        if !str_equal(outcome.action, "created") {
            entertainment.release(kind);
        }
        self.finish_outcome(entertainment, &outcome);
        Ok(outcome)
    }

    /// Carries out a player's command. `reports_conflict` tells whether the
    /// command is refused while another kind of entertainment goes on.
    pub fn handle(
        &mut self,
        entertainment: &mut EntertainmentState,
        player: &str,
        command: &LandlordCommand,
        reports_conflict: bool,
        now: u128,
    ) -> (r: LandlordOutcome)
        requires
            old(self).wf(),
        ensures
            final(self).wf(),
            (final(self).world(final(entertainment)), r@) == served(
                old(self).world(old(entertainment)),
                player@,
                *command,
                reports_conflict,
                now as int,
            ),
    {
        if reports_conflict {
            if let Some(active) = entertainment.active() {
                if !is_card_game_kind(active) {
                    return LandlordOutcome::public(
                        "occupied",
                        cat2(active.label(), "正在进行，请结束后再开始牌局"),
                    );
                }
            }
        }
        let outcome = self.state.game.handle(player, command, now);
        self.finish_outcome(entertainment, &outcome);
        outcome
    }

    /// Brings the table to `now`. The entertainment is released when what is
    /// announced here is delivered.
    pub fn tick(&mut self, now: u128, clock_active: bool) -> (r: Option<LandlordOutcome>)
        requires
            old(self).wf(),
        ensures
            final(self).wf(),
            (final(self).state.game@, optional_outcome(r)) == ticked(
                old(self).state.game@,
                now as int,
                clock_active,
            ),
            final(self).state.pending_start == old(self).state.pending_start,
            final(self).state.next_reservation_token == old(self).state.next_reservation_token,
            final(self).enabled == old(self).enabled,
    {
        self.state.game.tick(now, clock_active)
    }

    /// Clears everything; tells whether there was anything to clear.
    pub fn abort(&mut self, entertainment: &mut EntertainmentState) -> (r: bool)
        requires
            old(self).wf(),
        ensures
            final(self).wf(),
            (final(self).world(final(entertainment)), r) == aborted(
                old(self).world(old(entertainment)),
            ),
    {
        let pending: bool = self.state.pending_start.is_some();
        self.state.pending_start = None;
        let active: bool = self.state.game.abort();
        let reserved: bool = match entertainment.active() {
            Some(kind) => is_card_game_kind(kind),
            None => false,
        };
        self.release_active_card_game(entertainment);
        pending || active || reserved
    }

    /// The card game that `player` could join.
    pub fn lobby_kind_for_join(&self, entertainment: &EntertainmentState, player: &str) -> (r:
        Option<EntertainmentKind>)
        ensures
            r == joinable(self.world(entertainment), player@),
    {
        match entertainment.active() {
            Some(kind) => if is_card_game_kind(kind) && self.state.game.is_lobby()
                && !self.state.game.lobby_contains(player) {
                Some(kind)
            } else {
                None
            },
            None => None,
        }
    }

    /// Lets a player ask for their hand again at once.
    pub fn retry_hand_delivery(&mut self, player: &str)
        requires
            old(self).wf(),
        ensures
            final(self).wf(),
            final(self).state.game@ == delivery_retried(old(self).state.game@, player@),
            final(self).state.pending_start == old(self).state.pending_start,
            final(self).state.next_reservation_token == old(self).state.next_reservation_token,
            final(self).enabled == old(self).enabled,
    {
        self.state.game.retry_hand_delivery(player)
    }
}


// ---------------------------------------------------------------------------
// Delivery
// ---------------------------------------------------------------------------
/// A call to the port, with its answer.
pub enum PortCall {
    VerifyFriend { player: Seq<char>, message: Seq<char>, answer: Result<bool, Seq<char>> },
    SendFriend { player: Seq<char>, message: Seq<char>, answer: Result<bool, Seq<char>> },
    SendHall { message: Seq<char>, answer: Result<(), Seq<char>> },
}

/// What was asked of a port, and how it was answered. It stands in proofs only.
pub type CardGameCalls = Seq<PortCall>;

/// The way to the players: friend messages and the public hall. Each call is
/// recorded with its answer.
pub trait CardGameDeliveryPort {
    /// The calls made so far.
    spec fn calls(&self) -> CardGameCalls;

    /// Whether `player` is a friend who can be reached; sends `message` to them.
    fn verify_friend(&mut self, player: &str, message: &str) -> (r: Result<bool, String>)
        ensures
            final(self).calls() == old(self).calls().push(
                PortCall::VerifyFriend {
                    player: player@,
                    message: message@,
                    answer: answer_of(r),
                },
            ),
    ;

    /// Sends `message` to `player`; the answer tells whether they were found.
    fn send_friend(&mut self, player: &str, message: &str) -> (r: Result<bool, String>)
        ensures
            final(self).calls() == old(self).calls().push(
                PortCall::SendFriend {
                    player: player@,
                    message: message@,
                    answer: answer_of(r),
                },
            ),
    ;

    /// Sends `message` to the hall.
    fn send_hall(&mut self, message: &str) -> (r: Result<(), String>)
        ensures
            final(self).calls() == old(self).calls().push(
                PortCall::SendHall { message: message@, answer: answer_of(r) },
            ),
    ;
}

/// The result of a request, as plain values.
pub open spec fn result_view(r: Result<(), CardGameError>) -> Result<(), ErrorView> {
    match r {
        Ok(()) => Ok(()),
        Err(error) => Err(error@),
    }
}

/// What becomes of the request to send `reply` to the hall, given the calls
/// that were made; nothing where the calls are not those that are made.
pub open spec fn hall_sent(w: World, reply: Seq<char>, calls: Seq<PortCall>) -> Option<
    (World, Result<(), ErrorView>),
> {
    if calls.len() != 1 {
        None
    } else {
        match calls[0] {
            PortCall::SendHall { message, answer } if message == reply => Some(
                (
                    w,
                    match answer {
                        Ok(()) => Ok(()),
                        Err(error) => Err(ErrorView::Port(error)),
                    },
                ),
            ),
            _ => None,
        }
    }
}

/// What becomes of the deliveries from `next` on and of the public reply of
/// `outcome`, given the calls that were made: where a player cannot be
/// reached, the game is cleared.
pub open spec fn delivered_from(
    w: World,
    outcome: OutcomeView,
    next: int,
    calls: Seq<PortCall>,
) -> Option<(World, Result<(), ErrorView>)>
    decreases outcome.private_deliveries.len() - next,
{
    if next >= outcome.private_deliveries.len() {
        match outcome.public_reply {
            Some(reply) => hall_sent(w, reply, calls),
            None => if calls.len() == 0 {
                Some((w, Ok(())))
            } else {
                None
            },
        }
    } else if calls.len() == 0 {
        None
    } else {
        let delivery = outcome.private_deliveries[next];
        match calls[0] {
            PortCall::SendFriend { player, message, answer } if player == delivery.player
                && message == delivery.message => match answer {
                Ok(true) => delivered_from(w, outcome, next + 1, calls.skip(1)),
                Ok(false) => if calls.len() == 1 {
                    Some((aborted(w).0, Err(ErrorView::DealUndelivered(player))))
                } else {
                    None
                },
                Err(error) => if calls.len() == 1 {
                    Some((aborted(w).0, Err(ErrorView::Port(error))))
                } else {
                    None
                },
            },
            _ => None,
        }
    }
}

/// What becomes of the delivery of `outcome`, given the calls that were made.
pub open spec fn delivered(w: World, outcome: OutcomeView, calls: Seq<PortCall>) -> Option<
    (World, Result<(), ErrorView>),
> {
    delivered_from(finished(w, outcome.ended), outcome, 0, calls)
}

/// What becomes of a start command, given the calls that were made.
pub open spec fn start_executed(
    w: World,
    player: Seq<char>,
    command: LandlordCommand,
    now: int,
    calls: Seq<PortCall>,
) -> Option<(World, Result<(), ErrorView>)> {
    match prepared(w, command) {
        (after, Err(error)) => if calls.len() == 0 {
            Some((after, Err(error)))
        } else {
            None
        },
        (after, Ok(GateView::Reply(reply))) => hall_sent(after, reply, calls),
        (after, Ok(GateView::Ready(reservation))) => if calls.len() == 0 {
            None
        } else {
            let label = reservation.kind.spec_label();
            match calls[0] {
                PortCall::VerifyFriend { player: to, message, answer } if to == player && message
                    == label + "报名成功，请回到大厅等待组局"@ => match answer {
                    Err(error) => if calls.len() == 1 {
                        Some((canceled(after, reservation).0, Err(ErrorView::Port(error))))
                    } else {
                        None
                    },
                    Ok(false) => hall_sent(
                        canceled(after, reservation).0,
                        label + "报名失败：好友列表未找到唯一昵称"@,
                        calls.skip(1),
                    ),
                    Ok(true) => match completed(after, player, command, reservation, now) {
                        (opened, Ok(outcome)) => delivered(opened, outcome, calls.skip(1)),
                        (opened, Err(error)) => if calls.len() == 1 {
                            Some((opened, Err(error)))
                        } else {
                            None
                        },
                    },
                },
                _ => None,
            }
        },
    }
}

/// What becomes of a command to join, given the calls that were made.
pub open spec fn join_executed(
    w: World,
    player: Seq<char>,
    reports_conflict: bool,
    now: int,
    calls: Seq<PortCall>,
) -> Option<(World, Result<(), ErrorView>)> {
    let (after, outcome) = served(w, player, LandlordCommand::Join, reports_conflict, now);
    match joinable(w, player) {
        None => delivered(after, outcome, calls),
        Some(kind) => if calls.len() == 0 {
            None
        } else {
            match calls[0] {
                PortCall::VerifyFriend { player: to, message, answer } if to == player && message
                    == kind.spec_label() + "报名成功，请回到大厅等待开局"@ => match answer {
                    Err(error) => if calls.len() == 1 {
                        Some((w, Err(ErrorView::Port(error))))
                    } else {
                        None
                    },
                    Ok(false) => hall_sent(
                        w,
                        kind.spec_label() + "报名失败：好友列表未找到唯一昵称"@,
                        calls.skip(1),
                    ),
                    Ok(true) => delivered(after, outcome, calls.skip(1)),
                },
                _ => None,
            }
        },
    }
}

/// What becomes of a question for the hand, given the calls that were made.
pub open spec fn hand_executed(
    w: World,
    player: Seq<char>,
    reports_conflict: bool,
    now: int,
    calls: Seq<PortCall>,
) -> Option<(World, Result<(), ErrorView>)> {
    let (after, outcome) = served(w, player, LandlordCommand::Hand, reports_conflict, now);
    match outcome.private_reply {
        None => if calls.len() == 0 {
            Some((after, Ok(())))
        } else {
            None
        },
        Some(reply) => if calls.len() != 1 {
            None
        } else {
            let retried = World { game: delivery_retried(after.game, player), ..after };
            match calls[0] {
                PortCall::SendFriend { player: to, message, answer } if to == player && message
                    == reply => Some(
                    match answer {
                        Ok(true) => (after, Ok(())),
                        Ok(false) => (retried, Err(ErrorView::HandUndelivered(player))),
                        Err(error) => (retried, Err(ErrorView::Port(error))),
                    },
                ),
                _ => None,
            }
        },
    }
}

/// What becomes of a command, given the calls that were made.
pub open spec fn executed(
    w: World,
    player: Seq<char>,
    command: LandlordCommand,
    reports_conflict: bool,
    now: int,
    calls: Seq<PortCall>,
) -> Option<(World, Result<(), ErrorView>)> {
    match command {
        LandlordCommand::Start | LandlordCommand::RunFastStart => start_executed(
            w,
            player,
            command,
            now,
            calls,
        ),
        LandlordCommand::Join => join_executed(w, player, reports_conflict, now, calls),
        LandlordCommand::Hand => hand_executed(w, player, reports_conflict, now, calls),
        _ => {
            let (after, outcome) = served(w, player, command, reports_conflict, now);
            delivered(after, outcome, calls)
        },
    }
}

/// The calls that were made since the port had made `before`.
pub open spec fn new_calls(before: Seq<PortCall>, after: Seq<PortCall>) -> Seq<PortCall> {
    after.skip(before.len() as int)
}

/// Sends a message to the hall.
fn send_to_hall<P: CardGameDeliveryPort>(port: &mut P, message: &str, Ghost(w): Ghost<World>) -> (r:
    Result<(), CardGameError>)
    ensures
        final(port).calls().len() >= old(port).calls().len(),
        final(port).calls().take(old(port).calls().len() as int) == old(port).calls(),
        hall_sent(w, message@, new_calls(old(port).calls(), final(port).calls())) == Some(
            (w, result_view(r)),
        ),
{
    let ghost before = port.calls();
    let answer = port.send_hall(message);
    proof {
        assert(port.calls().take(before.len() as int) =~= before);
        let calls = new_calls(before, port.calls());
        assert(calls.len() == 1);
        assert(calls[0] == port.calls()[before.len() as int]);
    }
    match answer {
        Ok(()) => Ok(()),
        Err(error) => Err(CardGameError::Port(error)),
    }
}

impl CardGameService {
    /// Delivers an answer: first the messages to single players, then the
    /// public one. Where a player cannot be reached, the game is cleared.
    pub fn deliver<P: CardGameDeliveryPort>(
        &mut self,
        entertainment: &mut EntertainmentState,
        outcome: LandlordOutcome,
        port: &mut P,
    ) -> (r: Result<(), CardGameError>)
        requires
            old(self).wf(),
        ensures
            final(self).wf(),
            final(port).calls().len() >= old(port).calls().len(),
            final(port).calls().take(old(port).calls().len() as int) == old(port).calls(),
            delivered(
                old(self).world(old(entertainment)),
                outcome@,
                new_calls(old(port).calls(), final(port).calls()),
            ) == Some((final(self).world(final(entertainment)), result_view(r))),
    {
        let ghost before = port.calls();
        self.begin_delivery(entertainment, &outcome);
        let ghost w = self.world(entertainment);
        let mut next: usize = 0;
        proof {
            assert(before.take(before.len() as int) =~= before);
        }
        while next < outcome.private_deliveries.len()
            invariant
                next <= outcome.private_deliveries@.len(),
                before == old(port).calls(),
                w == finished(old(self).world(old(entertainment)), outcome@.ended),
                self.wf(),
                self.world(entertainment) == w,
                port.calls().len() == before.len() + next,
                port.calls().take(before.len() as int) == before,
                forall|calls: Seq<PortCall>|
                    #![trigger delivered_from(w, outcome@, next as int, calls)]
                    delivered_from(
                        w,
                        outcome@,
                        0,
                        port.calls().skip(before.len() as int) + calls,
                    ) == delivered_from(w, outcome@, next as int, calls),
            decreases outcome.private_deliveries@.len() - next,
        {
            let ghost made = port.calls().skip(before.len() as int);
            let ghost earlier = port.calls();
            let delivery = &outcome.private_deliveries[next];
            let answer = port.send_friend(delivery.player.as_str(), delivery.message.as_str());
            let ghost call = PortCall::SendFriend {
                player: delivery.player@,
                message: delivery.message@,
                answer: answer_of(answer),
            };
            proof {
                assert(outcome@.private_deliveries[next as int] == delivery@);
                assert(port.calls().take(before.len() as int) =~= before);
                assert(new_calls(before, port.calls()) =~= made + seq![call]);
                assert(delivered_from(w, outcome@, 0, made + seq![call]) == delivered_from(
                    w,
                    outcome@,
                    next as int,
                    seq![call],
                ));
                assert forall|calls: Seq<PortCall>|
                    #![trigger delivered_from(w, outcome@, next + 1, calls)]
                    answer_of(answer) == Ok::<bool, Seq<char>>(true) implies delivered_from(
                    w,
                    outcome@,
                    0,
                    port.calls().skip(before.len() as int) + calls,
                ) == delivered_from(w, outcome@, next + 1, calls) by {
                    let rest = seq![call] + calls;
                    assert(port.calls().skip(before.len() as int) + calls =~= made + rest);
                    assert(rest.skip(1) =~= calls);
                    assert(rest[0] == call);
                    assert(delivered_from(w, outcome@, 0, made + rest) == delivered_from(
                        w,
                        outcome@,
                        next as int,
                        rest,
                    ));
                }
            }
            match answer {
                Ok(true) => {},
                Ok(false) => {
                    let player = delivery.player.clone();
                    self.abort(entertainment);
                    return Err(CardGameError::DealUndelivered(player));
                },
                Err(error) => {
                    self.abort(entertainment);
                    return Err(CardGameError::Port(error));
                },
            }
            next = next + 1;
        }
        let ghost made = port.calls().skip(before.len() as int);
        let ghost earlier = port.calls();
        match &outcome.public_reply {
            Some(reply) => {
                let r = send_to_hall(port, reply.as_str(), Ghost(w));
                proof {
                    let calls = new_calls(earlier, port.calls());
                    assert(new_calls(before, port.calls()) =~= made + calls) by {
                        assert(port.calls() =~= earlier + calls);
                    }
                    assert(port.calls().take(before.len() as int) =~= earlier.take(
                        before.len() as int,
                    ));
                    assert(delivered_from(w, outcome@, 0, made + calls) == delivered_from(
                        w,
                        outcome@,
                        next as int,
                        calls,
                    ));
                }
                r
            },
            None => {
                proof {
                    let none = Seq::<PortCall>::empty();
                    assert(new_calls(before, port.calls()) =~= made + none);
                    assert(delivered_from(w, outcome@, 0, made + none) == delivered_from(
                        w,
                        outcome@,
                        next as int,
                        none,
                    ));
                }
                Ok(())
            },
        }
    }
}


/// The calls of two stages, one after the other.
proof fn lemma_calls(start: Seq<PortCall>, middle: Seq<PortCall>, end: Seq<PortCall>)
    requires
        middle.len() >= start.len(),
        middle.take(start.len() as int) == start,
        end.len() >= middle.len(),
        end.take(middle.len() as int) == middle,
    ensures
        end.take(start.len() as int) == start,
        new_calls(start, end) == new_calls(start, middle) + new_calls(middle, end),
{
    assert(end =~= middle + new_calls(middle, end));
    assert(end.take(start.len() as int) =~= middle.take(start.len() as int));
    assert(new_calls(start, end) =~= new_calls(start, middle) + new_calls(middle, end));
}

/// One call and those after it.
proof fn lemma_first_call(start: Seq<PortCall>, call: PortCall, end: Seq<PortCall>)
    requires
        end.len() >= start.len() + 1,
        end.take((start.len() + 1) as int) == start.push(call),
    ensures
        end.take(start.len() as int) == start,
        new_calls(start, end).len() >= 1,
        new_calls(start, end)[0] == call,
        new_calls(start, end).skip(1) == new_calls(start.push(call), end),
{
    assert(start.push(call).take(start.len() as int) =~= start);
    lemma_calls(start, start.push(call), end);
    assert(new_calls(start, start.push(call)) =~= seq![call]);
    assert(new_calls(start, end).skip(1) =~= new_calls(start.push(call), end));
}

impl CardGameService {
    /// Carries out a player's command and delivers the answer. `reports_conflict`
    /// tells whether the command is refused while another kind of
    /// entertainment goes on.
    pub fn execute<P: CardGameDeliveryPort>(
        &mut self,
        entertainment: &mut EntertainmentState,
        player: &str,
        command: &LandlordCommand,
        reports_conflict: bool,
        port: &mut P,
        now: u128,
    ) -> (r: Result<(), CardGameError>)
        requires
            old(self).wf(),
        ensures
            final(self).wf(),
            final(port).calls().len() >= old(port).calls().len(),
            final(port).calls().take(old(port).calls().len() as int) == old(port).calls(),
            executed(
                old(self).world(old(entertainment)),
                player@,
                *command,
                reports_conflict,
                now as int,
                new_calls(old(port).calls(), final(port).calls()),
            ) == Some((final(self).world(final(entertainment)), result_view(r))),
    {
        match command {
            LandlordCommand::Start => self.execute_start(entertainment, player, command, port, now),
            LandlordCommand::RunFastStart => self.execute_start(
                entertainment,
                player,
                command,
                port,
                now,
            ),
            LandlordCommand::Join => self.execute_join(
                entertainment,
                player,
                reports_conflict,
                port,
                now,
            ),
            LandlordCommand::Hand => self.execute_hand(
                entertainment,
                player,
                reports_conflict,
                port,
                now,
            ),
            _ => {
                let outcome = self.handle(entertainment, player, command, reports_conflict, now);
                self.deliver(entertainment, outcome, port)
            },
        }
    }

    fn execute_start<P: CardGameDeliveryPort>(
        &mut self,
        entertainment: &mut EntertainmentState,
        player: &str,
        command: &LandlordCommand,
        port: &mut P,
        now: u128,
    ) -> (r: Result<(), CardGameError>)
        requires
            old(self).wf(),
        ensures
            final(self).wf(),
            final(port).calls().len() >= old(port).calls().len(),
            final(port).calls().take(old(port).calls().len() as int) == old(port).calls(),
            start_executed(
                old(self).world(old(entertainment)),
                player@,
                *command,
                now as int,
                new_calls(old(port).calls(), final(port).calls()),
            ) == Some((final(self).world(final(entertainment)), result_view(r))),
    {
        let ghost before = port.calls();
        proof {
            assert(before.take(before.len() as int) =~= before);
        }
        let reservation = match self.prepare_start(entertainment, command) {
            Err(error) => {
                return Err(error);
            },
            Ok(CardGameStartGate::Reply(reply)) => {
                return send_to_hall(port, reply.as_str(), Ghost(self.world(entertainment)));
            },
            Ok(CardGameStartGate::Ready { reservation }) => reservation,
        };
        let label = reservation.kind().label();
        let message = cat2(label, "报名成功，请回到大厅等待组局");
        let answer = port.verify_friend(player, message.as_str());
        let ghost call = PortCall::VerifyFriend {
            player: player@,
            message: message@,
            answer: answer_of(answer),
        };
        let ghost asked = port.calls();
        proof {
            assert(asked.take((before.len() + 1) as int) =~= before.push(call));
            lemma_first_call(before, call, asked);
            assert(new_calls(asked, asked) =~= Seq::<PortCall>::empty());
        }
        match answer {
            Err(error) => {
                self.cancel_start(entertainment, reservation);
                Err(CardGameError::Port(error))
            },
            Ok(false) => {
                self.cancel_start(entertainment, reservation);
                let reply = cat2(label, "报名失败：好友列表未找到唯一昵称");
                let r = send_to_hall(port, reply.as_str(), Ghost(self.world(entertainment)));
                proof {
                    assert(port.calls().take((before.len() + 1) as int) == before.push(call));
                    lemma_first_call(before, call, port.calls());
                }
                r
            },
            Ok(true) => {
                let outcome = match self.complete_start(
                    entertainment,
                    player,
                    command,
                    reservation,
                    now,
                ) {
                    Ok(outcome) => outcome,
                    Err(error) => {
                        return Err(error);
                    },
                };
                let r = self.deliver(entertainment, outcome, port);
                proof {
                    assert(port.calls().take((before.len() + 1) as int) == before.push(call));
                    lemma_first_call(before, call, port.calls());
                }
                r
            },
        }
    }

    fn execute_join<P: CardGameDeliveryPort>(
        &mut self,
        entertainment: &mut EntertainmentState,
        player: &str,
        reports_conflict: bool,
        port: &mut P,
        now: u128,
    ) -> (r: Result<(), CardGameError>)
        requires
            old(self).wf(),
        ensures
            final(self).wf(),
            final(port).calls().len() >= old(port).calls().len(),
            final(port).calls().take(old(port).calls().len() as int) == old(port).calls(),
            join_executed(
                old(self).world(old(entertainment)),
                player@,
                reports_conflict,
                now as int,
                new_calls(old(port).calls(), final(port).calls()),
            ) == Some((final(self).world(final(entertainment)), result_view(r))),
    {
        let ghost before = port.calls();
        let command = LandlordCommand::Join;
        let kind = match self.lobby_kind_for_join(entertainment, player) {
            Some(kind) => kind,
            None => {
                let outcome = self.handle(entertainment, player, &command, reports_conflict, now);
                return self.deliver(entertainment, outcome, port);
            },
        };
        let message = cat2(kind.label(), "报名成功，请回到大厅等待开局");
        let answer = port.verify_friend(player, message.as_str());
        let ghost call = PortCall::VerifyFriend {
            player: player@,
            message: message@,
            answer: answer_of(answer),
        };
        let ghost asked = port.calls();
        proof {
            assert(asked.take((before.len() + 1) as int) =~= before.push(call));
            lemma_first_call(before, call, asked);
            assert(new_calls(asked, asked) =~= Seq::<PortCall>::empty());
        }
        match answer {
            Err(error) => Err(CardGameError::Port(error)),
            Ok(false) => {
                let reply = cat2(kind.label(), "报名失败：好友列表未找到唯一昵称");
                let r = send_to_hall(port, reply.as_str(), Ghost(self.world(entertainment)));
                proof {
                    assert(port.calls().take((before.len() + 1) as int) == before.push(call));
                    lemma_first_call(before, call, port.calls());
                }
                r
            },
            Ok(true) => {
                let outcome = self.handle(entertainment, player, &command, reports_conflict, now);
                let r = self.deliver(entertainment, outcome, port);
                proof {
                    assert(port.calls().take((before.len() + 1) as int) == before.push(call));
                    lemma_first_call(before, call, port.calls());
                }
                r
            },
        }
    }

    fn execute_hand<P: CardGameDeliveryPort>(
        &mut self,
        entertainment: &mut EntertainmentState,
        player: &str,
        reports_conflict: bool,
        port: &mut P,
        now: u128,
    ) -> (r: Result<(), CardGameError>)
        requires
            old(self).wf(),
        ensures
            final(self).wf(),
            final(port).calls().len() >= old(port).calls().len(),
            final(port).calls().take(old(port).calls().len() as int) == old(port).calls(),
            hand_executed(
                old(self).world(old(entertainment)),
                player@,
                reports_conflict,
                now as int,
                new_calls(old(port).calls(), final(port).calls()),
            ) == Some((final(self).world(final(entertainment)), result_view(r))),
    {
        let ghost before = port.calls();
        proof {
            assert(before.take(before.len() as int) =~= before);
        }
        let command = LandlordCommand::Hand;
        let outcome = self.handle(entertainment, player, &command, reports_conflict, now);
        let message = match outcome.private_reply {
            Some(message) => message,
            None => {
                return Ok(());
            },
        };
        let answer = port.send_friend(player, message.as_str());
        let ghost call = PortCall::SendFriend {
            player: player@,
            message: message@,
            answer: answer_of(answer),
        };
        proof {
            assert(port.calls().take((before.len() + 1) as int) =~= before.push(call));
            lemma_first_call(before, call, port.calls());
            assert(new_calls(before, port.calls()).len() == 1);
        }
        match answer {
            Ok(true) => Ok(()),
            Ok(false) => {
                self.retry_hand_delivery(player);
                Err(CardGameError::HandUndelivered(owned(player)))
            },
            Err(error) => {
                self.retry_hand_delivery(player);
                Err(CardGameError::Port(error))
            },
        }
    }

    /// The task of delivering what the clock announced.
    pub fn delivery_task(&self, outcome: LandlordOutcome) -> (r: CardGameDeliveryTask)
        ensures
            r.outcome == outcome,
    {
        CardGameDeliveryTask { outcome }
    }

    fn cancel_delivery(
        &mut self,
        entertainment: &mut EntertainmentState,
        outcome: &LandlordOutcome,
    ) -> (r: bool)
        requires
            old(self).wf(),
        ensures
            final(self).wf(),
            (final(self).world(final(entertainment)), r) == delivery_canceled(
                old(self).world(old(entertainment)),
                outcome@,
            ),
    {
        if outcome.ended || outcome.private_deliveries.len() > 0 {
            self.abort(entertainment)
        } else {
            false
        }
    }
}

/// A delivery that is given up clears the game where it ended the game or
/// dealt cards.
pub open spec fn delivery_canceled(w: World, outcome: OutcomeView) -> (World, bool) {
    if outcome.ended || outcome.private_deliveries.len() > 0 {
        aborted(w)
    } else {
        (w, false)
    }
}

/// The task of delivering what the clock announced.
pub struct CardGameDeliveryTask {
    pub outcome: LandlordOutcome,
}

impl CardGameDeliveryTask {
    /// What the task is called in the log.
    pub fn label(&self) -> (r: String)
        ensures
            r@ == "发送牌局计时结果("@ + self.outcome.action@ + ")"@,
    {
        cat3("发送牌局计时结果(", self.outcome.action, ")")
    }

    /// Delivers.
    pub fn execute<P: CardGameDeliveryPort>(
        self,
        service: &mut CardGameService,
        entertainment: &mut EntertainmentState,
        port: &mut P,
    ) -> (r: Result<(), CardGameError>)
        requires
            old(service).wf(),
        ensures
            final(service).wf(),
            final(port).calls().len() >= old(port).calls().len(),
            final(port).calls().take(old(port).calls().len() as int) == old(port).calls(),
            delivered(
                old(service).world(old(entertainment)),
                self.outcome@,
                new_calls(old(port).calls(), final(port).calls()),
            ) == Some((final(service).world(final(entertainment)), result_view(r))),
    {
        service.deliver(entertainment, self.outcome, port)
    }

    /// Gives the delivery up; tells whether that cleared anything.
    pub fn cancel(&self, service: &mut CardGameService, entertainment: &mut EntertainmentState) -> (r:
        bool)
        requires
            old(service).wf(),
        ensures
            final(service).wf(),
            (final(service).world(final(entertainment)), r) == delivery_canceled(
                old(service).world(old(entertainment)),
                self.outcome@,
            ),
    {
        service.cancel_delivery(entertainment, &self.outcome)
    }
}

// ---------------------------------------------------------------------------
// Laws
// ---------------------------------------------------------------------------
/// Giving up a reservation undoes it, except that its token is used up.
pub proof fn law_cancel_undoes_prepare(w: World, command: LandlordCommand)
    requires
        prepared(w, command).1 matches Ok(GateView::Ready(_)),
    ensures
        ({
            let (after, gate) = prepared(w, command);
            let reservation = gate->Ok_0->Ready_0;
            &&& canceled(after, reservation).1
            &&& canceled(after, reservation).0 == (World { next_token: after.next_token, ..w })
        }),
{
}

/// While a reservation is held, no second one is given.
pub proof fn law_one_reservation(w: World, first: LandlordCommand, second: LandlordCommand)
    requires
        prepared(w, first).1 matches Ok(GateView::Ready(_)),
    ensures
        !(prepared(prepared(w, first).0, second).1 matches Ok(GateView::Ready(_))),
        prepared(prepared(w, first).0, second).0 == prepared(w, first).0,
{
}

/// Only the reservation that is held opens a room.
pub proof fn law_stale_reservation_opens_nothing(
    w: World,
    player: Seq<char>,
    command: LandlordCommand,
    reservation: CardGameStartReservation,
    now: int,
)
    requires
        w.pending != Some(reservation),
    ensures
        completed(w, player, command, reservation, now).1 is Err,
        completed(w, player, command, reservation, now).0 == w,
{
}

/// After an abort neither a game nor a reservation nor a card game as the
/// entertainment is left, and aborting again does nothing.
pub proof fn law_abort_clears(w: World)
    ensures
        ({
            let (after, _) = aborted(w);
            &&& after.game.state is Idle
            &&& after.pending is None
            &&& !(after.active matches Some(kind) && card_game(kind))
            &&& aborted(after) == (after, false)
        }),
{
}

/// A room is reserved for the game that was asked for where card games are switched on,
/// the table is free, no room is reserved and nothing else goes on; the entertainment is
/// then taken, and the reservation has a number of its own. Else it is said why not, and
/// nothing changes.
pub proof fn law_reserving(w: World, command: LandlordCommand)
    requires
        command == LandlordCommand::Start || command == LandlordCommand::RunFastStart,
    ensures
        ({
            let kind = if command == LandlordCommand::Start {
                EntertainmentKind::Landlord
            } else {
                EntertainmentKind::RunFast
            };
            let (after, gate) = prepared(w, command);
            let free = w.game.state is Idle && w.pending is None;
            &&& w.enabled && free && w.active is None ==> {
                let reservation = CardGameStartReservation { token: w.next_token, kind };
                &&& gate == Ok::<GateView, ErrorView>(GateView::Ready(reservation))
                &&& after.pending == Some(reservation)
                &&& after.active == Some(kind)
                &&& after.game == w.game
                &&& after.next_token != w.next_token
                &&& after.next_token != 0
            }
            &&& !w.enabled ==> after == w && gate == Ok::<GateView, ErrorView>(
                GateView::Reply(kind.spec_label() + "未启用"@),
            )
            &&& w.enabled && !free ==> after == w && gate == Ok::<GateView, ErrorView>(
                GateView::Reply("已有牌局或房间进行中"@),
            )
            &&& w.enabled && free && w.active == Some(kind) ==> after == w && gate == Ok::<
                GateView,
                ErrorView,
            >(GateView::Reply("已有牌局或房间进行中"@))
            &&& w.enabled && free ==> (w.active matches Some(other) ==> (other != kind ==> after
                == w && gate == Ok::<GateView, ErrorView>(
                GateView::Reply(other.spec_label() + "正在进行，请结束后再开始"@ + kind.spec_label()),
            )))
        }),
{
}

/// Only the commands that start a game reserve a room.
pub proof fn law_only_starts_reserve(w: World, command: LandlordCommand)
    ensures
        command != LandlordCommand::Start && command != LandlordCommand::RunFastStart ==> prepared(
            w,
            command,
        ) == (w, Err::<GateView, ErrorView>(ErrorView::NotAStartCommand)),
        kind_of(LandlordCommand::Start) == Some(EntertainmentKind::Landlord),
        kind_of(LandlordCommand::RunFastStart) == Some(EntertainmentKind::RunFast),
{
}

/// A reservation that is held is given up, with the entertainment that it took; one that
/// is not held changes nothing.
pub proof fn law_giving_up(w: World, reservation: CardGameStartReservation)
    ensures
        w.pending == Some(reservation) ==> {
            let (after, given_up) = canceled(w, reservation);
            &&& given_up
            &&& after.pending is None
            &&& after.game == w.game
            &&& w.active == Some(reservation.kind) ==> after.active is None
            &&& w.active != Some(reservation.kind) ==> after.active == w.active
        },
        w.pending != Some(reservation) ==> canceled(w, reservation) == (w, false),
{
}

/// A reserved room is opened by the command that it was reserved for: the reservation is
/// used up, and the entertainment stays taken where the room was opened.
pub proof fn law_opening_what_is_reserved(
    w: World,
    player: Seq<char>,
    command: LandlordCommand,
    reservation: CardGameStartReservation,
    now: int,
)
    requires
        command == LandlordCommand::Start || command == LandlordCommand::RunFastStart,
    ensures
        ({
            let kind = if command == LandlordCommand::Start {
                EntertainmentKind::Landlord
            } else {
                EntertainmentKind::RunFast
            };
            let (after, result) = completed(w, player, command, reservation, now);
            &&& reservation.kind != kind ==> after == w && result == Err::<OutcomeView, ErrorView>(
                ErrorView::ReservationMismatch,
            )
            &&& reservation.kind == kind && w.pending != Some(reservation) ==> after == w && result
                == Err::<OutcomeView, ErrorView>(ErrorView::ReservationInactive)
            &&& reservation.kind == kind && w.pending == Some(reservation) ==> {
                &&& result == Ok::<OutcomeView, ErrorView>(
                    handled(w.game, player, command, now).1,
                )
                &&& after.game == handled(w.game, player, command, now).0
                &&& after.pending is None
                &&& w.game.config.enabled && w.game.state is Idle ==> after.active == w.active
                    && after.game.state is Lobby
                &&& w.game.state !is Idle && w.active == Some(kind) ==> after.active is None
            }
        }),
{
    reveal_strlit("created");
    reveal_strlit("disabled");
    reveal_strlit("already-active");
    assert("created"@.len() == 7 && "disabled"@.len() == 8 && "already-active"@.len() == 14);
}

/// A command is carried out at the table, unless it reports a conflict and another kind of
/// entertainment goes on. A game that ends releases the card game, and no other
/// entertainment.
pub proof fn law_serving(
    w: World,
    player: Seq<char>,
    command: LandlordCommand,
    reports_conflict: bool,
    now: int,
)
    ensures
        ({
            let (after, told) = served(w, player, command, reports_conflict, now);
            let other = w.active matches Some(kind) && kind != EntertainmentKind::Landlord && kind
                != EntertainmentKind::RunFast;
            &&& reports_conflict && other ==> after == w && told.action == "occupied"@ && !told.ended
            &&& !(reports_conflict && other) ==> {
                &&& told == handled(w.game, player, command, now).1
                &&& after.game == handled(w.game, player, command, now).0
                &&& after.pending == w.pending
                &&& !told.ended ==> after.active == w.active
                &&& told.ended && !other ==> after.active is None
                &&& told.ended && other ==> after.active == w.active
            }
        }),
{
}

/// To break off clears the table and the reservation and releases a card game, and no
/// other entertainment; it tells whether there was anything to clear.
pub proof fn law_breaking_off(w: World)
    ensures
        ({
            let (after, cleared) = aborted(w);
            let playing = w.active == Some(EntertainmentKind::Landlord) || w.active == Some(
                EntertainmentKind::RunFast,
            );
            &&& after.game.state is Idle
            &&& after.pending is None
            &&& playing ==> after.active is None
            &&& !playing ==> after.active == w.active
            &&& cleared <==> w.pending is Some || w.game.state !is Idle || playing
        }),
{
}

/// A room can be joined by who is not in it, while it waits and its game is the
/// entertainment that goes on.
pub proof fn law_who_can_join(w: World, player: Seq<char>)
    ensures
        w.game.state !is Lobby ==> joinable(w, player) is None,
        w.active != Some(EntertainmentKind::Landlord) && w.active != Some(
            EntertainmentKind::RunFast,
        ) ==> joinable(w, player) is None,
        w.game.state matches StateView::Lobby(lobby) ==> {
            &&& found_player(lobby.players, player) is Some ==> joinable(w, player) is None
            &&& found_player(lobby.players, player) is None && (w.active == Some(
                EntertainmentKind::Landlord,
            ) || w.active == Some(EntertainmentKind::RunFast)) ==> joinable(w, player) == w.active
        },
{
}

/// Who starts a game has to be reached as a friend first. Who cannot be reached opens no
/// room: the reservation is given up, and the hall is told.
pub proof fn law_starter_is_reached(
    w: World,
    player: Seq<char>,
    now: int,
    calls: Seq<PortCall>,
)
    requires
        w.enabled,
        w.game.state is Idle,
        w.pending is None,
        w.active is None,
        executed(w, player, LandlordCommand::Start, true, now, calls) is Some,
    ensures
        ({
            let (after, result) = executed(w, player, LandlordCommand::Start, true, now, calls)->0;
            &&& calls.len() >= 1
            &&& calls[0] matches PortCall::VerifyFriend { player: to, message, answer }
            &&& to == player
            &&& message == "斗地主"@ + "报名成功，请回到大厅等待组局"@
            &&& answer matches Err(error) ==> calls.len() == 1 && result == Err::<(), ErrorView>(
                ErrorView::Port(error),
            ) && after.game == w.game && after.active is None && after.pending is None
            &&& answer == Ok::<bool, Seq<char>>(false) ==> {
                &&& calls.len() == 2
                &&& calls[1] matches PortCall::SendHall { message: said, .. }
                &&& said == "斗地主"@ + "报名失败：好友列表未找到唯一昵称"@
                &&& after.game == w.game
                &&& after.active is None
                &&& after.pending is None
            }
            &&& answer == Ok::<bool, Seq<char>>(true) && w.game.config.enabled ==> {
                &&& calls.len() == 2
                &&& calls[1] is SendHall
                &&& after.game.state is Lobby
                &&& after.active == Some(EntertainmentKind::Landlord)
                &&& after.pending is None
            }
        }),
{
    reveal_strlit("created");
    reveal_strlit("disabled");
    reveal_strlit("already-active");
    assert("created"@.len() == 7 && "disabled"@.len() == 8 && "already-active"@.len() == 14);
    reveal_with_fuel(delivered_from, 2);
    if calls.len() > 1 {
        assert(calls.skip(1)[0] == calls[1]);
    }
}

/// Who joins a room has to be reached as a friend first; who cannot be reached does not
/// join, and nothing changes.
pub proof fn law_joiner_is_reached(
    w: World,
    player: Seq<char>,
    reports_conflict: bool,
    now: int,
    calls: Seq<PortCall>,
)
    requires
        joinable(w, player) is Some,
        executed(w, player, LandlordCommand::Join, reports_conflict, now, calls) is Some,
    ensures
        ({
            let (after, result) = executed(
                w,
                player,
                LandlordCommand::Join,
                reports_conflict,
                now,
                calls,
            )->0;
            let label = joinable(w, player)->0.spec_label();
            &&& calls.len() >= 1
            &&& calls[0] matches PortCall::VerifyFriend { player: to, message, answer }
            &&& to == player
            &&& message == label + "报名成功，请回到大厅等待开局"@
            &&& answer matches Err(error) ==> calls.len() == 1 && after == w && result == Err::<
                (),
                ErrorView,
            >(ErrorView::Port(error))
            &&& answer == Ok::<bool, Seq<char>>(false) ==> {
                &&& calls.len() == 2
                &&& calls[1] matches PortCall::SendHall { message: said, .. }
                &&& said == label + "报名失败：好友列表未找到唯一昵称"@
                &&& after == w
            }
        }),
{
    if calls.len() > 1 {
        assert(calls.skip(1)[0] == calls[1]);
    }
}

/// A hand that was asked for is sent to who asked alone; where that fails it may be asked
/// for again at once.
pub proof fn law_hand_is_sent(
    w: World,
    player: Seq<char>,
    reports_conflict: bool,
    now: int,
    calls: Seq<PortCall>,
)
    requires
        executed(w, player, LandlordCommand::Hand, reports_conflict, now, calls) is Some,
    ensures
        ({
            let (after, result) = executed(
                w,
                player,
                LandlordCommand::Hand,
                reports_conflict,
                now,
                calls,
            )->0;
            let (asked, told) = served(w, player, LandlordCommand::Hand, reports_conflict, now);
            &&& told.private_reply is None ==> calls.len() == 0 && after == asked && result is Ok
            &&& told.private_reply matches Some(reply) ==> {
                &&& calls.len() == 1
                &&& calls[0] matches PortCall::SendFriend { player: to, message, answer }
                &&& to == player
                &&& message == reply
                &&& answer == Ok::<bool, Seq<char>>(true) ==> after == asked && result is Ok
                &&& answer == Ok::<bool, Seq<char>>(false) ==> after.game == delivery_retried(
                    asked.game,
                    player,
                ) && result == Err::<(), ErrorView>(ErrorView::HandUndelivered(player))
                &&& answer matches Err(error) ==> after.game == delivery_retried(
                    asked.game,
                    player,
                ) && result == Err::<(), ErrorView>(ErrorView::Port(error))
            }
        }),
{
}

/// What a deal tells is sent to the players one after the other, each their own message.
/// Where one cannot be reached the game is broken off and nobody else is told; where all
/// are, the hall hears of it.
pub proof fn law_deal_is_delivered(
    w: World,
    outcome: OutcomeView,
    next: int,
    calls: Seq<PortCall>,
)
    requires
        0 <= next < outcome.private_deliveries.len(),
        delivered_from(w, outcome, next, calls) is Some,
    ensures
        ({
            let (after, result) = delivered_from(w, outcome, next, calls)->0;
            let delivery = outcome.private_deliveries[next];
            &&& calls.len() >= 1
            &&& calls[0] matches PortCall::SendFriend { player, message, answer }
            &&& player == delivery.player
            &&& message == delivery.message
            &&& answer == Ok::<bool, Seq<char>>(false) ==> calls.len() == 1 && after == aborted(
                w,
            ).0 && result == Err::<(), ErrorView>(ErrorView::DealUndelivered(player))
            &&& answer matches Err(error) ==> calls.len() == 1 && after == aborted(w).0 && result
                == Err::<(), ErrorView>(ErrorView::Port(error))
            &&& answer == Ok::<bool, Seq<char>>(true) ==> delivered_from(
                w,
                outcome,
                next + 1,
                calls.skip(1),
            ) == Some((after, result))
        }),
{
}

/// What has no messages for players is said in the hall alone.
pub proof fn law_answer_is_said(w: World, outcome: OutcomeView, calls: Seq<PortCall>)
    requires
        outcome.private_deliveries.len() == 0,
        delivered(w, outcome, calls) is Some,
    ensures
        outcome.public_reply is None ==> calls.len() == 0,
        outcome.public_reply matches Some(reply) ==> {
            &&& calls.len() == 1
            &&& calls[0] matches PortCall::SendHall { message, answer }
            &&& message == reply
            &&& answer is Ok ==> (delivered(w, outcome, calls)->0).1 is Ok
            &&& answer matches Err(error) ==> (delivered(w, outcome, calls)->0).1 == Err::<
                (),
                ErrorView,
            >(ErrorView::Port(error))
        },
{
}

/// A delivery that is given up breaks the game off where it ends it or deals cards, and
/// else changes nothing.
pub proof fn law_delivery_given_up(w: World, outcome: OutcomeView)
    ensures
        outcome.ended || outcome.private_deliveries.len() > 0 ==> delivery_canceled(w, outcome)
            == aborted(w),
        !outcome.ended && outcome.private_deliveries.len() == 0 ==> delivery_canceled(w, outcome)
            == (w, false),
{
}

/// What went wrong is told: who could not be reached, in a deal in other words than in an
/// answer to one player; and what a port says as it stands.
pub proof fn law_errors_are_told(player: Seq<char>, message: Seq<char>)
    ensures
        error_text(ErrorView::Port(message)) == message,
        error_text(ErrorView::HandUndelivered(player)) == "牌局手牌发送失败：好友列表未找到 "@
            + player,
        error_text(ErrorView::DealUndelivered(player)) == "牌局发牌失败：好友列表未找到 "@
            + player,
        error_text(ErrorView::NotAStartCommand) == "card game start gate requires a start command"@,
        error_text(ErrorView::ReservationMismatch)
            == "card game start reservation does not match command"@,
        error_text(ErrorView::ReservationInactive)
            == "card game start reservation is no longer active"@,
{
}

} // verus!
