//! A table from the first player's room to the last card.
use vstd::prelude::*;
use crate::card_games::cards::Card;
use crate::card_games::dealing::deal;
use crate::card_games::dealing::deal_hunan_run_fast;
use crate::card_games::dealing::SplitMix64;
use crate::card_games::dealing::{
    drawn_index, hand_views, landlord_deal, law_landlord_deal, law_run_fast_deal, next_state,
    run_fast_deal, spade_three_holder,
};
use crate::card_games::hands::find_spade_three;
use crate::card_games::hands::format_hand;
use crate::card_games::hands::format_play;
use crate::card_games::hands::parse_cards;
use crate::card_games::hands::take_cards_for_play;
use crate::card_games::hands::{
    first_marked, hand_text, lemma_take_for_play_subset, parsed_cards, play_text,
    take_for_play_result,
};
use crate::card_games::patterns::classify_for_variant;
use crate::card_games::patterns::CardGameVariant;
use crate::card_games::patterns::PlayPattern;
use crate::card_games::patterns::{forms, law_one_pattern};
use crate::card_games::playing::forced_run_fast_action;
use crate::card_games::playing::format_remaining;
use crate::card_games::playing::lowest_beating_play_for_variant;
use crate::card_games::playing::pass_playing;
use crate::card_games::playing::play_cards;
use crate::card_games::playing::report_one_largest_single;
use crate::card_games::playing::timeout_action;
use crate::card_games::playing::ActionOrigin;
use crate::card_games::playing::ForcedRunFastAction;
use crate::card_games::playing::{
    after_pass, after_play, after_timeout, forced_action, lowest_beating, pass_outcome,
    play_outcome, remaining_text, report_one, ForcedView,
};
use crate::card_games::table::find_player;
use crate::card_games::table::in_seconds;
use crate::card_games::table::law_found_by_name;
use crate::card_games::table::ActiveTimer;
use crate::card_games::table::Bidding;
use crate::card_games::table::GameState;
use crate::card_games::table::Lobby;
use crate::card_games::table::Player;
use crate::card_games::table::Playing;
use crate::card_games::table::{
    found_player, key_of, lemma_key_of_trimmed, lemma_same_seats, new_player, player_views,
    same_seats, seated, seconds, time_between, BiddingView, LobbyView, PlayerView, PlayingView,
    StateView,
};
use crate::card_games::LandlordCommand;
use crate::card_games::LandlordConfig;
use crate::card_games::LandlordOutcome;
use crate::card_games::LandlordPrivateDelivery;
use crate::card_games::{
    ended_outcome, private_outcome, public_outcome, DeliveryView, OutcomeView,
};
use crate::sorting::sort;
use crate::sorting::{lemma_sorted, sorted};
use crate::text::cat2;
use crate::text::cat3;
use crate::text::cat4;
use crate::text::cat5;
use crate::text::cat6;
use crate::text::format_usize;
use crate::text::join;
use crate::text::owned;
use crate::text::trim;
use crate::text::{decimal, joined, string_views, trimmed};

verus! {

/// A table at which one card game at a time is played.
pub struct LandlordGame {
    pub config: LandlordConfig,
    pub state: GameState,
    pub rng: SplitMix64,
}

/// A table, as plain values.
#[verifier::ext_equal]
pub struct GameModel {
    pub config: LandlordConfig,
    pub state: StateView,
    pub rng: u64,
}

impl View for LandlordGame {
    type V = GameModel;

    open spec fn view(&self) -> GameModel {
        GameModel { config: self.config, state: self.state@, rng: self.rng.state }
    }
}

impl GameModel {
    /// The table with another phase of the game.
    pub open spec fn with(self, state: StateView) -> GameModel {
        GameModel { state, ..self }
    }
}

// ---------------------------------------------------------------------------
// Opening a room
// ---------------------------------------------------------------------------
/// A player opens a room: the table after it, and the answer.
pub open spec fn created(
    game: GameModel,
    player: Seq<char>,
    variant: CardGameVariant,
    now: int,
) -> (GameModel, OutcomeView) {
    if !game.config.enabled {
        (game, public_outcome("disabled"@, variant.spec_label() + "未启用"@))
    } else if game.state !is Idle {
        (game, public_outcome("already-active"@, "已有牌局或房间进行中"@))
    } else {
        (
            game.with(
                StateView::Lobby(
                    LobbyView {
                        players: seq![new_player(player)],
                        variant,
                        timer: ActiveTimer::started(now),
                    },
                ),
            ),
            public_outcome(
                "created"@,
                trimmed(player) + "创建了"@ + variant.spec_label() + "房间，还需2人，发送 #加入 参加"@,
            ),
        )
    }
}

// ---------------------------------------------------------------------------
// Joining
// ---------------------------------------------------------------------------
/// The players with the hands that they were dealt.
pub open spec fn with_hands(players: Seq<PlayerView>, hands: Seq<Seq<Card>>) -> Seq<PlayerView> {
    Seq::new(players.len(), |i: int| PlayerView { hand: hands[i], ..players[i] })
}

/// The players at the start of a new deal.
pub open spec fn dealt_anew(players: Seq<PlayerView>, hands: Seq<Seq<Card>>) -> Seq<PlayerView> {
    Seq::new(
        players.len(),
        |i: int|
            PlayerView {
                hand: hands[i],
                timeouts: 0,
                trustee: false,
                last_hand_reply: None,
                ..players[i]
            },
    )
}

/// The messages that tell the players their hands.
pub open spec fn hand_deliveries(
    players: Seq<PlayerView>,
    variant: CardGameVariant,
) -> Seq<DeliveryView> {
    Seq::new(
        players.len(),
        |i: int|
            DeliveryView {
                player: players[i].name,
                message: variant.spec_label() + "初始手牌("@ + decimal(players[i].hand.len())
                    + "张): "@ + hand_text(players[i].hand),
            },
    )
}

/// A game of run-fast that starts with `players`.
pub open spec fn run_fast_started(game: GameModel, players: Seq<PlayerView>, now: int) -> (
    GameModel,
    OutcomeView,
) {
    let (hands, rng) = run_fast_deal(game.rng);
    let seats = with_hands(players, hands);
    let first = spade_three_holder(hands);
    (
        GameModel {
            rng,
            state: StateView::Playing(
                PlayingView {
                    players: seats,
                    variant: CardGameVariant::HunanRunFast,
                    landlord: first,
                    current: first,
                    last_play: None,
                    consecutive_passes: 0,
                    timer: ActiveTimer::started(now),
                    warning_sent: false,
                    turns: 0,
                    bombs: 0,
                    opening_spade_three_required: true,
                },
            ),
            ..game
        },
        OutcomeView {
            private_deliveries: hand_deliveries(seats, CardGameVariant::HunanRunFast),
            ..public_outcome(
                "run-fast-started"@,
                "跑得快已发手牌，"@ + seats[first].name + "持有黑桃3并先出；第一手必须包含黑桃3"@,
            )
        },
    )
}

/// A bidding that starts with `players`, who have been dealt their hands.
pub open spec fn bidding_started(
    game: GameModel,
    players: Seq<PlayerView>,
    bottom: Seq<Card>,
    rng: u64,
    now: int,
) -> GameModel {
    GameModel {
        rng: next_state(rng),
        state: StateView::Bidding(
            BiddingView {
                players,
                bottom,
                current: drawn_index(rng, 3) as int,
                decisions: 0,
                candidate: None,
                timer: ActiveTimer::started(now),
                warning_sent: false,
            },
        ),
        ..game
    }
}

/// A game of fight-the-landlord that starts with `players`.
pub open spec fn landlord_started(game: GameModel, players: Seq<PlayerView>, now: int) -> (
    GameModel,
    OutcomeView,
) {
    let (hands, bottom, rng) = landlord_deal(game.rng);
    let seats = with_hands(players, hands);
    (
        bidding_started(game, seats, bottom, rng, now),
        OutcomeView {
            private_deliveries: hand_deliveries(seats, CardGameVariant::Landlord),
            ..public_outcome(
                "bidding-started"@,
                "斗地主已发手牌，随机由"@ + seats[drawn_index(rng, 3) as int].name
                    + "开始抢地主；发送 #抢 或 #不抢"@,
            )
        },
    )
}

/// A player joins the room; the third one starts the game.
pub open spec fn joined_room(game: GameModel, player: Seq<char>, now: int) -> (
    GameModel,
    OutcomeView,
) {
    match game.state {
        StateView::Lobby(lobby) => if found_player(lobby.players, player) is Some {
            (
                game,
                public_outcome(
                    "duplicate-player"@,
                    "你已经加入本局"@ + lobby.variant.spec_label(),
                ),
            )
        } else {
            let players = lobby.players.push(new_player(player));
            if players.len() < 3 {
                (
                    game.with(
                        StateView::Lobby(
                            LobbyView { players, timer: ActiveTimer::started(now), ..lobby },
                        ),
                    ),
                    public_outcome(
                        "joined"@,
                        trimmed(player) + "加入"@ + lobby.variant.spec_label() + "，还需1人"@,
                    ),
                )
            } else if lobby.variant == CardGameVariant::HunanRunFast {
                run_fast_started(game, players, now)
            } else {
                landlord_started(game, players, now)
            }
        },
        _ => (game, public_outcome("no-lobby"@, "当前没有等待加入的牌局房间"@)),
    }
}

// ---------------------------------------------------------------------------
// Bidding
// ---------------------------------------------------------------------------
/// The game starts with `landlord`, who takes up the bottom cards and leads.
pub open spec fn landlord_chosen(
    game: GameModel,
    bidding: BiddingView,
    landlord: int,
    now: int,
) -> (GameModel, OutcomeView) {
    let p = bidding.players[landlord];
    let hand = sorted(p.hand + bidding.bottom);
    (
        game.with(
            StateView::Playing(
                PlayingView {
                    players: bidding.players.update(landlord, PlayerView { hand, ..p }),
                    variant: CardGameVariant::Landlord,
                    landlord,
                    current: landlord,
                    last_play: None,
                    consecutive_passes: 0,
                    timer: ActiveTimer::started(now),
                    warning_sent: false,
                    turns: 0,
                    bombs: 0,
                    opening_spade_three_required: false,
                },
            ),
        ),
        OutcomeView {
            private_deliveries: seq![
                DeliveryView {
                    player: p.name,
                    message: "地主手牌("@ + decimal(hand.len()) + "张): "@ + hand_text(hand),
                },
            ],
            ..public_outcome(
                "landlord-selected"@,
                p.name + "成为地主并先出牌；底牌: "@ + play_text(bidding.bottom),
            )
        },
    )
}

/// All three have declined: the cards are dealt anew.
pub open spec fn redealt(game: GameModel, players: Seq<PlayerView>, now: int) -> (
    GameModel,
    OutcomeView,
) {
    let (hands, bottom, rng) = landlord_deal(game.rng);
    let seats = dealt_anew(players, hands);
    (
        bidding_started(game, seats, bottom, rng, now),
        OutcomeView {
            private_deliveries: hand_deliveries(seats, CardGameVariant::Landlord),
            ..public_outcome(
                "redealt"@,
                "三人均未抢地主，已重新发牌；随机由"@ + seats[drawn_index(rng, 3) as int].name + "开始"@,
            )
        },
    )
}

/// A player bids for the landlord or declines: the last of the three to bid
/// becomes the landlord.
pub open spec fn bid_made(game: GameModel, player: Seq<char>, rob: bool, now: int) -> (
    GameModel,
    OutcomeView,
) {
    match game.state {
        StateView::Bidding(bidding) => match found_player(bidding.players, player) {
            None => (game, public_outcome("not-player"@, "你不在本局斗地主中"@)),
            Some(index) => if index != bidding.current {
                (
                    game,
                    public_outcome(
                        "wrong-bidder"@,
                        "现在轮到"@ + bidding.players[bidding.current].name + "抢地主"@,
                    ),
                )
            } else {
                let candidate = if rob {
                    Some(index)
                } else {
                    bidding.candidate
                };
                let next = (bidding.current + 1) % 3;
                if bidding.decisions + 1 < 3 {
                    (
                        game.with(
                            StateView::Bidding(
                                BiddingView {
                                    candidate,
                                    decisions: bidding.decisions + 1,
                                    current: next,
                                    timer: ActiveTimer::started(now),
                                    warning_sent: false,
                                    ..bidding
                                },
                            ),
                        ),
                        public_outcome(
                            if rob {
                                "robbed"@
                            } else {
                                "declined"@
                            },
                            bidding.players[index].name + (if rob {
                                "抢地主"@
                            } else {
                                "不抢"@
                            }) + "；轮到"@ + bidding.players[next].name + "抢地主"@,
                        ),
                    )
                } else {
                    match candidate {
                        Some(landlord) => landlord_chosen(game, bidding, landlord, now),
                        None => redealt(game, bidding.players, now),
                    }
                }
            },
        },
        _ => (game, public_outcome("not-bidding"@, "当前不在抢地主阶段"@)),
    }
}

// ---------------------------------------------------------------------------
// Playing and passing on request
// ---------------------------------------------------------------------------
/// The table after a play: it is cleared where the play ended the game.
pub open spec fn settled(game: GameModel, after: PlayingView, ended: bool) -> GameModel {
    game.with(
        if ended {
            StateView::Idle
        } else {
            StateView::Playing(after)
        },
    )
}

/// The pattern of a play, as far as the rules allow it.
pub open spec fn pattern_of(
    ranks: Seq<crate::card_games::cards::Rank>,
    variant: CardGameVariant,
) -> Option<PlayPattern> {
    if exists|p: PlayPattern| forms(ranks, p, variant) {
        Some(choose|p: PlayPattern| forms(ranks, p, variant))
    } else {
        None
    }
}

/// Why cards may not be played, or what is played.
pub enum PlayVerdict {
    Refused { action: Seq<char>, reply: Seq<char> },
    Accepted { cards: Seq<Card>, pattern: PlayPattern },
}

/// What becomes of the request of the player to move to play `text`.
pub open spec fn play_verdict(playing: PlayingView, text: Seq<char>) -> PlayVerdict {
    let current = playing.current;
    let hand = playing.players[current].hand;
    let opening = playing.variant == CardGameVariant::HunanRunFast
        && playing.opening_spade_three_required;
    match parsed_cards(text) {
        Err(message) => PlayVerdict::Refused { action: "invalid-cards"@, reply: message },
        Ok(ranks) => if ranks.len() == 0 {
            PlayVerdict::Refused { action: "empty-play"@, reply: "请输入要出的牌"@ }
        } else {
            match take_for_play_result(hand, ranks, opening) {
                Err(message) => PlayVerdict::Refused { action: "missing-card"@, reply: message },
                Ok(cards) => if opening && first_marked(cards) is None {
                    PlayVerdict::Refused {
                        action: "spade-three-required"@,
                        reply: "首手必须包含黑桃3"@,
                    }
                } else {
                    match pattern_of(ranks, playing.variant) {
                        None => PlayVerdict::Refused {
                            action: "invalid-pattern"@,
                            reply: "这组牌不是当前玩法的有效牌型"@,
                        },
                        Some(pattern) => if violates_report_one(playing, pattern) {
                            PlayVerdict::Refused {
                                action: "must-play-largest-single"@,
                                reply: "下家已报单，出单张时必须出手中最大牌"@,
                            }
                        } else {
                            match playing.to_beat() {
                                Some(previous) if !pattern.spec_beats(
                                    previous,
                                ) => PlayVerdict::Refused {
                                    action: "cannot-beat"@,
                                    reply: pattern.spec_label() + "压不过上一手"@
                                        + previous.spec_label(),
                                },
                                _ => PlayVerdict::Accepted { cards, pattern },
                            }
                        },
                    }
                },
            }
        },
    }
}

/// Whether the pattern is a single other than the one that must be played.
pub open spec fn violates_report_one(playing: PlayingView, pattern: PlayPattern) -> bool {
    match (report_one(playing, playing.current), pattern) {
        (Some(largest), PlayPattern::Single(rank)) => rank != largest.rank,
        _ => false,
    }
}

/// Whose request it is to play or pass: the index of the player to move, or
/// the refusal.
pub open spec fn turn_of(playing: PlayingView, player: Seq<char>) -> Result<int, OutcomeView> {
    match found_player(playing.players, player) {
        None => Err(
            public_outcome("not-player"@, "你不在本局"@ + playing.variant.spec_label() + "中"@),
        ),
        Some(index) => if index != playing.current {
            Err(
                public_outcome(
                    "wrong-turn"@,
                    "现在轮到"@ + playing.players[playing.current].name + "出牌"@,
                ),
            )
        } else {
            Ok(index)
        },
    }
}

/// A player asks to play the cards written in `text`.
pub open spec fn play_requested(
    game: GameModel,
    player: Seq<char>,
    text: Seq<char>,
    now: int,
) -> (GameModel, OutcomeView) {
    match game.state {
        StateView::Playing(playing) => match turn_of(playing, player) {
            Err(refusal) => (game, refusal),
            Ok(index) => match play_verdict(playing, text) {
                PlayVerdict::Refused { action, reply } => (game, public_outcome(action, reply)),
                PlayVerdict::Accepted { cards, pattern } => {
                    let after = after_play(
                        playing,
                        index,
                        cards,
                        pattern,
                        now,
                        ActionOrigin::Manual,
                    );
                    let outcome = play_outcome(
                        after,
                        index,
                        cards,
                        pattern,
                        ActionOrigin::Manual,
                    );
                    (settled(game, after, outcome.ended), outcome)
                },
            },
        },
        _ => (game, public_outcome("no-game"@, "当前没有进行中的牌局"@)),
    }
}

/// A player asks to pass.
pub open spec fn pass_requested(game: GameModel, player: Seq<char>, now: int) -> (
    GameModel,
    OutcomeView,
) {
    match game.state {
        StateView::Playing(playing) => match turn_of(playing, player) {
            Err(refusal) => (game, refusal),
            Ok(index) => match playing.to_beat() {
                None => (game, public_outcome("cannot-pass"@, "你是本轮领出者，不能过牌"@)),
                Some(previous) => if playing.variant == CardGameVariant::HunanRunFast
                    && lowest_beating(
                    playing.players[index].hand,
                    previous,
                    playing.variant,
                ) is Some {
                    (game, public_outcome("must-play"@, "跑得快有牌能压时不能过牌"@))
                } else {
                    (
                        game.with(
                            StateView::Playing(
                                after_pass(playing, index, now, ActionOrigin::Manual),
                            ),
                        ),
                        pass_outcome(playing, index, now, ActionOrigin::Manual),
                    )
                },
            },
        },
        _ => (game, public_outcome("no-game"@, "当前没有进行中的牌局"@)),
    }
}

// ---------------------------------------------------------------------------
// Showing a hand
// ---------------------------------------------------------------------------
/// The players of a dealt game and the game's name.
pub open spec fn dealt_players(state: StateView) -> Option<(Seq<PlayerView>, Seq<char>)> {
    match state {
        StateView::Bidding(game) => Some(
            (game.players, CardGameVariant::Landlord.spec_label()),
        ),
        StateView::Playing(game) => Some((game.players, game.variant.spec_label())),
        _ => None,
    }
}

/// The phase with other players.
pub open spec fn with_players(state: StateView, players: Seq<PlayerView>) -> StateView {
    match state {
        StateView::Bidding(game) => StateView::Bidding(BiddingView { players, ..game }),
        StateView::Playing(game) => StateView::Playing(PlayingView { players, ..game }),
        _ => state,
    }
}

/// Whether the player was shown their hand less than the cooldown ago.
pub open spec fn cooling_down(p: PlayerView, now: int, cooldown_seconds: int) -> bool {
    match p.last_hand_reply {
        Some(last) => time_between(last as int, now) < seconds(cooldown_seconds),
        None => false,
    }
}

/// A player asks to see their hand.
pub open spec fn hand_requested(game: GameModel, player: Seq<char>, now: int) -> (
    GameModel,
    OutcomeView,
) {
    match dealt_players(game.state) {
        None => (game, private_outcome("no-game"@, "当前没有已发牌的牌局"@)),
        Some((players, label)) => match found_player(players, player) {
            None => (game, private_outcome("not-player"@, "你不在本局"@ + label + "中"@)),
            Some(index) => {
                let p = players[index];
                if cooling_down(p, now, game.config.hand_cooldown_seconds as int) {
                    (
                        game,
                        OutcomeView {
                            action: "hand-cooldown"@,
                            public_reply: None,
                            private_reply: None,
                            private_deliveries: Seq::empty(),
                            ended: false,
                        },
                    )
                } else {
                    (
                        game.with(
                            with_players(
                                game.state,
                                players.update(
                                    index,
                                    PlayerView { last_hand_reply: Some(now as u128), ..p },
                                ),
                            ),
                        ),
                        private_outcome(
                            "hand"@,
                            "当前手牌("@ + decimal(p.hand.len()) + "张): "@ + hand_text(p.hand),
                        ),
                    )
                }
            },
        },
    }
}

/// A hand that could not be delivered may be asked for again at once.
pub open spec fn delivery_retried(game: GameModel, player: Seq<char>) -> GameModel {
    match dealt_players(game.state) {
        None => game,
        Some((players, label)) => match found_player(players, player) {
            None => game,
            Some(index) => game.with(
                with_players(
                    game.state,
                    players.update(
                        index,
                        PlayerView { last_hand_reply: None, ..players[index] },
                    ),
                ),
            ),
        },
    }
}

// ---------------------------------------------------------------------------
// Status and leaving
// ---------------------------------------------------------------------------
/// The names of the players, in order.
pub open spec fn names_text(players: Seq<PlayerView>) -> Seq<char> {
    joined(Seq::new(players.len(), |i: int| players[i].name), "、"@)
}

/// The last play as the status shows it.
pub open spec fn last_play_text(playing: PlayingView) -> Seq<char> {
    match playing.last_play {
        None => "无"@,
        Some(last) => playing.players[last.player].name + ":"@ + play_text(last.cards) + "["@
            + last.pattern.spec_label() + "]"@,
    }
}

/// The answer to a question for the status.
pub open spec fn status_outcome(state: StateView) -> OutcomeView {
    match state {
        StateView::Idle => public_outcome("idle"@, "当前没有牌局房间或进行中的牌局"@),
        StateView::Lobby(lobby) => public_outcome(
            "lobby-status"@,
            lobby.variant.spec_label() + "等待加入: "@ + names_text(lobby.players) + "，还需"@
                + decimal((3 - lobby.players.len()) as nat) + "人"@,
        ),
        StateView::Bidding(game) => public_outcome(
            "bidding-status"@,
            "斗地主抢地主中；轮到:"@ + game.players[game.current].name + "；当前抢地主:"@ + (
            match game.candidate {
                Some(index) => game.players[index].name,
                None => "暂无"@,
            }),
        ),
        StateView::Playing(game) => public_outcome(
            "playing-status"@,
            if game.variant == CardGameVariant::HunanRunFast {
                "跑得快；轮到:"@ + game.players[game.current].name + "；剩余:"@ + remaining_text(
                    game.players,
                ) + "；上一手:"@ + last_play_text(game)
            } else {
                "地主:"@ + game.players[game.landlord].name + "；轮到:"@
                    + game.players[game.current].name + "；剩余:"@ + remaining_text(game.players)
                    + "；上一手:"@ + last_play_text(game)
            },
        ),
    }
}

/// A player leaves: the creator closes the room, another player only leaves
/// it, and who leaves a dealt game ends it.
pub open spec fn left(game: GameModel, player: Seq<char>) -> (GameModel, OutcomeView) {
    match game.state {
        StateView::Idle => (game, public_outcome("idle"@, "当前没有牌局房间或进行中的牌局"@)),
        StateView::Lobby(lobby) => match found_player(lobby.players, player) {
            None => (
                game,
                public_outcome(
                    "not-player"@,
                    "你不在当前"@ + lobby.variant.spec_label() + "房间中"@,
                ),
            ),
            Some(index) => if index == 0 {
                (
                    game.with(StateView::Idle),
                    ended_outcome(
                        "lobby-canceled"@,
                        lobby.players[index].name + "取消了"@ + lobby.variant.spec_label()
                            + "房间"@,
                    ),
                )
            } else {
                (
                    game.with(
                        StateView::Lobby(
                            LobbyView { players: lobby.players.remove(index), ..lobby },
                        ),
                    ),
                    public_outcome(
                        "left-lobby"@,
                        lobby.players[index].name + "退出了"@ + lobby.variant.spec_label()
                            + "房间"@,
                    ),
                )
            },
        },
        StateView::Bidding(bidding) => match found_player(bidding.players, player) {
            None => (game, public_outcome("not-player"@, "你不在本局斗地主中"@)),
            Some(index) => (
                game.with(StateView::Idle),
                ended_outcome(
                    "game-aborted"@,
                    bidding.players[index].name + "退出，斗地主牌局已结束"@,
                ),
            ),
        },
        StateView::Playing(playing) => match found_player(playing.players, player) {
            None => (
                game,
                public_outcome(
                    "not-player"@,
                    "你不在本局"@ + playing.variant.spec_label() + "中"@,
                ),
            ),
            Some(index) => (
                game.with(StateView::Idle),
                ended_outcome(
                    "game-aborted"@,
                    playing.players[index].name + "退出，"@ + playing.variant.spec_label()
                        + "牌局已结束"@,
                ),
            ),
        },
    }
}


// ---------------------------------------------------------------------------
// The clock
// ---------------------------------------------------------------------------
/// A time limit, which is at least one second, in nanoseconds.
pub open spec fn limit(configured_seconds: u64) -> int {
    if configured_seconds < 1 {
        seconds(1)
    } else {
        seconds(configured_seconds as int)
    }
}

/// Whether it is time to warn: within the last thirty seconds, once.
pub open spec fn warning_due(elapsed: int, limit: int, warning_sent: bool) -> bool {
    !warning_sent && elapsed >= limit - seconds(30) && elapsed < limit
}

/// The clock of a room.
pub open spec fn lobby_ticked(game: GameModel, lobby: LobbyView, now: int, active: bool) -> (
    GameModel,
    Option<OutcomeView>,
) {
    let timer = lobby.timer.ticked(now, active);
    if timer.elapsed < limit(game.config.lobby_timeout_seconds) {
        (game.with(StateView::Lobby(LobbyView { timer, ..lobby })), None)
    } else {
        (
            game.with(StateView::Idle),
            Some(
                ended_outcome(
                    "lobby-timeout"@,
                    lobby.variant.spec_label() + "组局等待超时，房间已取消"@,
                ),
            ),
        )
    }
}

/// The clock of a bidding: a bidder who is too late has declined.
pub open spec fn bidding_ticked(
    game: GameModel,
    bidding: BiddingView,
    now: int,
    active: bool,
) -> (GameModel, Option<OutcomeView>) {
    let timer = bidding.timer.ticked(now, active);
    let ticked = BiddingView { timer, ..bidding };
    let name = bidding.players[bidding.current].name;
    let timeout = limit(game.config.turn_timeout_seconds);
    if !active {
        (game.with(StateView::Bidding(ticked)), None)
    } else if warning_due(timer.elapsed as int, timeout, bidding.warning_sent) {
        (
            game.with(StateView::Bidding(BiddingView { warning_sent: true, ..ticked })),
            Some(public_outcome("bid-warning"@, name + "抢地主剩余30秒"@)),
        )
    } else if timer.elapsed < timeout {
        (game.with(StateView::Bidding(ticked)), None)
    } else {
        let (after, outcome) = bid_made(
            game.with(StateView::Bidding(ticked)),
            name,
            false,
            now,
        );
        (
            after,
            Some(
                OutcomeView {
                    public_reply: Some(
                        name + "抢地主超时，按不抢处理；"@ + outcome.public_reply->0,
                    ),
                    ..outcome
                },
            ),
        )
    }
}

/// The game after the player to move had to pass: the message is kept back
/// where the next move follows at once.
pub open spec fn forced_pass(playing: PlayingView, now: int) -> (PlayingView, OutcomeView) {
    let after = after_pass(playing, playing.current, now, ActionOrigin::Forced);
    let outcome = pass_outcome(playing, playing.current, now, ActionOrigin::Forced);
    if after.last_play is Some && (forced_action(after) is Some
        || after.players[after.current].trustee) {
        (after, OutcomeView { public_reply: None, ..outcome })
    } else {
        (after, outcome)
    }
}

/// The clock of a game in play.
pub open spec fn playing_ticked(
    game: GameModel,
    playing: PlayingView,
    now: int,
    active: bool,
) -> (GameModel, Option<OutcomeView>) {
    let timer = playing.timer.ticked(now, active);
    let ticked = PlayingView { timer, ..playing };
    let current = playing.current;
    let timeout = limit(game.config.turn_timeout_seconds);
    if !active {
        (game.with(StateView::Playing(ticked)), None)
    } else {
        match forced_action(ticked) {
            Some(ForcedView::Pass) => {
                let (after, outcome) = forced_pass(ticked, now);
                (game.with(StateView::Playing(after)), Some(outcome))
            },
            Some(ForcedView::Play { cards, pattern }) => {
                let after = after_play(
                    ticked,
                    current,
                    cards,
                    pattern,
                    now,
                    ActionOrigin::Forced,
                );
                let outcome = play_outcome(after, current, cards, pattern, ActionOrigin::Forced);
                (settled(game, after, outcome.ended), Some(outcome))
            },
            None => if !playing.players[current].trustee && warning_due(
                timer.elapsed as int,
                timeout,
                playing.warning_sent,
            ) {
                (
                    game.with(StateView::Playing(PlayingView { warning_sent: true, ..ticked })),
                    Some(
                        public_outcome(
                            "turn-warning"@,
                            playing.players[current].name + "出牌剩余30秒"@,
                        ),
                    ),
                )
            } else if playing.players[current].trustee || timer.elapsed >= timeout {
                let (after, outcome) = after_timeout(
                    ticked,
                    game.config.trustee_after_timeouts as int,
                    now,
                );
                (settled(game, after, outcome.ended), Some(outcome))
            } else {
                (game.with(StateView::Playing(ticked)), None)
            },
        }
    }
}

/// The table at `now`, and what is announced.
pub open spec fn ticked(game: GameModel, now: int, active: bool) -> (
    GameModel,
    Option<OutcomeView>,
) {
    match game.state {
        StateView::Idle => (game, None),
        StateView::Lobby(lobby) => lobby_ticked(game, lobby, now, active),
        StateView::Bidding(bidding) => bidding_ticked(game, bidding, now, active),
        StateView::Playing(playing) => playing_ticked(game, playing, now, active),
    }
}

/// A player's command.
pub open spec fn handled(
    game: GameModel,
    player: Seq<char>,
    command: LandlordCommand,
    now: int,
) -> (GameModel, OutcomeView) {
    match command {
        LandlordCommand::Start => created(game, player, CardGameVariant::Landlord, now),
        LandlordCommand::RunFastStart => created(
            game,
            player,
            CardGameVariant::HunanRunFast,
            now,
        ),
        LandlordCommand::Join => joined_room(game, player, now),
        LandlordCommand::Rob => bid_made(game, player, true, now),
        LandlordCommand::Decline => bid_made(game, player, false, now),
        LandlordCommand::Status => (game, status_outcome(game.state)),
        LandlordCommand::Play(cards) => play_requested(game, player, cards@, now),
        LandlordCommand::Pass => pass_requested(game, player, now),
        LandlordCommand::Hand => hand_requested(game, player, now),
        LandlordCommand::Exit => left(game, player),
    }
}

/// What an optional answer says.
pub open spec fn optional_outcome(r: Option<LandlordOutcome>) -> Option<OutcomeView> {
    match r {
        Some(outcome) => Some(outcome@),
        None => None,
    }
}

// ---------------------------------------------------------------------------
// The table
// ---------------------------------------------------------------------------
/// The messages that tell the players their hands.
pub fn initial_hand_deliveries(players: &Vec<Player>, variant: CardGameVariant) -> (r: Vec<
    LandlordPrivateDelivery,
>)
    ensures
        Seq::new(r@.len(), |i: int| r@[i]@) == hand_deliveries(player_views(players@), variant),
{
    let mut deliveries: Vec<LandlordPrivateDelivery> = Vec::new();
    let ghost expected = hand_deliveries(player_views(players@), variant);
    let mut i: usize = 0;
    while i < players.len()
        invariant
            i <= players@.len(),
            expected == hand_deliveries(player_views(players@), variant),
            deliveries@.len() == i,
            forall|j: int| 0 <= j < i ==> (#[trigger] deliveries@[j])@ == expected[j],
        decreases players@.len() - i,
    {
        let count = format_usize(players[i].hand.len());
        let hand = format_hand(&players[i].hand);
        let message = cat5(variant.label(), "初始手牌(", count.as_str(), "张): ", hand.as_str());
        deliveries.push(
            LandlordPrivateDelivery { player: players[i].name.clone(), message },
        );
        i = i + 1;
    }
    proof {
        assert(Seq::new(deliveries@.len(), |i: int| deliveries@[i]@) =~= expected);
    }
    deliveries
}

/// Gives each player the hand dealt to them.
fn give_hands(players: &mut Vec<Player>, hands: Vec<Vec<Card>>)
    requires
        old(players)@.len() == hands@.len(),
    ensures
        final(players)@.len() == old(players)@.len(),
        player_views(final(players)@) == with_hands(
            player_views(old(players)@),
            hand_views(hands@),
        ),
{
    let ghost start = player_views(players@);
    let ghost dealt = hand_views(hands@);
    let mut rest = hands;
    let mut i: usize = players.len();
    while i > 0
        invariant
            i <= players@.len(),
            players@.len() == start.len(),
            dealt.len() == start.len(),
            rest@.len() == i,
            forall|j: int| 0 <= j < i ==> (#[trigger] rest@[j])@ == dealt[j],
            forall|j: int| 0 <= j < i ==> (#[trigger] players@[j])@ == start[j],
            forall|j: int|
                i <= j < players@.len() ==> (#[trigger] players@[j])@ == (PlayerView {
                    hand: dealt[j],
                    ..start[j]
                }),
        decreases i,
    {
        i = i - 1;
        if let Some(hand) = rest.pop() {
            players[i].hand = hand;
        }
    }
    proof {
        assert(player_views(players@) =~= with_hands(start, dealt));
    }
}

/// Clears what the players did in an earlier deal.
fn start_anew(players: &mut Vec<Player>)
    ensures
        final(players)@.len() == old(players)@.len(),
        forall|j: int|
            0 <= j < old(players)@.len() ==> (#[trigger] final(players)@[j])@ == (PlayerView {
                timeouts: 0,
                trustee: false,
                last_hand_reply: None,
                ..old(players)@[j]@
            }),
{
    let ghost start = players@;
    let mut i: usize = 0;
    while i < players.len()
        invariant
            i <= players@.len(),
            players@.len() == start.len(),
            forall|j: int| i <= j < players@.len() ==> players@[j] == start[j],
            forall|j: int|
                0 <= j < i ==> (#[trigger] players@[j])@ == (PlayerView {
                    timeouts: 0,
                    trustee: false,
                    last_hand_reply: None,
                    ..start[j]@
                }),
        decreases players@.len() - i,
    {
        players[i].timeouts = 0;
        players[i].trustee = false;
        players[i].last_hand_reply = None;
        i = i + 1;
    }
}

impl LandlordGame {
    /// The table's invariant.
    pub open spec fn wf(&self) -> bool {
        self@.state.wf()
    }

    /// A table without a game, shuffling from `seed`.
    pub fn new(config: LandlordConfig, seed: u64) -> (r: LandlordGame)
        ensures
            r.wf(),
            r@ == (GameModel { config, state: StateView::Idle, rng: seed }),
    {
        LandlordGame::with_seed(config, seed)
    }

    /// A table without a game, shuffling from `seed`.
    pub fn with_seed(config: LandlordConfig, seed: u64) -> (r: LandlordGame)
        ensures
            r.wf(),
            r@ == (GameModel { config, state: StateView::Idle, rng: seed }),
    {
        LandlordGame { config, state: GameState::Idle, rng: SplitMix64::new(seed) }
    }

    /// Whether there is a room or a game.
    pub fn is_active(&self) -> (r: bool)
        ensures
            r == (self@.state !is Idle),
    {
        match self.state {
            GameState::Idle => false,
            _ => true,
        }
    }

    /// Whether a room waits for players.
    pub fn is_lobby(&self) -> (r: bool)
        ensures
            r == (self@.state is Lobby),
    {
        match self.state {
            GameState::Lobby(_) => true,
            _ => false,
        }
    }

    /// Whether `player` waits in the room.
    pub fn lobby_contains(&self, player: &str) -> (r: bool)
        ensures
            r == (self@.state matches StateView::Lobby(lobby) && found_player(
                lobby.players,
                player@,
            ) is Some),
    {
        match &self.state {
            GameState::Lobby(lobby) => find_player(&lobby.players, player).is_some(),
            _ => false,
        }
    }

    /// Clears the table; tells whether there was anything to clear.
    pub fn abort(&mut self) -> (r: bool)
        ensures
            final(self).wf(),
            final(self)@ == old(self)@.with(StateView::Idle),
            r == (old(self)@.state !is Idle),
    {
        let active = self.is_active();
        self.state = GameState::Idle;
        active
    }

    fn take_state(&mut self) -> (r: GameState)
        ensures
            r == old(self).state,
            final(self).state is Idle,
            final(self).config == old(self).config,
            final(self).rng == old(self).rng,
    {
        let mut state = GameState::Idle;
        core::mem::swap(&mut state, &mut self.state);
        state
    }

    /// Lets a player ask for their hand again at once.
    pub fn retry_hand_delivery(&mut self, player: &str)
        requires
            old(self).wf(),
        ensures
            final(self).wf(),
            final(self)@ == delivery_retried(old(self)@, player@),
    {
        let ghost start = self@;
        match self.take_state() {
            GameState::Bidding(mut game) => {
                let ghost before = game@;
                if let Some(index) = find_player(&game.players, player) {
                    game.players[index].last_hand_reply = None;
                    proof {
                        lemma_player_updated(
                            before.players,
                            game@.players,
                            index as int,
                            PlayerView { last_hand_reply: None, ..before.players[index as int] },
                        );
                    }
                }
                self.state = GameState::Bidding(game);
            },
            GameState::Playing(mut game) => {
                let ghost before = game@;
                if let Some(index) = find_player(&game.players, player) {
                    game.players[index].last_hand_reply = None;
                    proof {
                        lemma_player_updated(
                            before.players,
                            game@.players,
                            index as int,
                            PlayerView { last_hand_reply: None, ..before.players[index as int] },
                        );
                    }
                }
                self.state = GameState::Playing(game);
            },
            other => {
                self.state = other;
            },
        }
    }
}

/// A player's fields other than name and key have changed.
proof fn lemma_player_updated(
    before: Seq<PlayerView>,
    after: Seq<PlayerView>,
    index: int,
    p: PlayerView,
)
    requires
        seated(before),
        0 <= index < before.len(),
        after.len() == before.len(),
        forall|i: int| 0 <= i < before.len() && i != index ==> after[i] == before[i],
        after[index] == p,
        p.name == before[index].name,
        p.key == before[index].key,
    ensures
        after == before.update(index, p),
        seated(after),
{
    assert(after =~= before.update(index, p));
    assert(same_seats(before, after));
    lemma_same_seats(before, after);
}


/// A new player whom nobody at the table is called like.
proof fn lemma_player_seated(players: Seq<PlayerView>, name: Seq<char>)
    requires
        seated(players),
        found_player(players, name) is None,
    ensures
        seated(players.push(new_player(name))),
{
    let after = players.push(new_player(name));
    lemma_key_of_trimmed(name);
    lemma_not_found(players, key_of(name));
    assert forall|i: int| 0 <= i < after.len() implies (#[trigger] after[i]).key == key_of(
        after[i].name,
    ) by {
        if i < players.len() {
            assert(after[i] == players[i]);
        }
    }
    assert forall|i: int, j: int| 0 <= i < j < after.len() implies (#[trigger] after[i]).key != (
    #[trigger] after[j]).key by {
        assert(after[i] == players[i]);
        if j < players.len() {
            assert(after[j] == players[j]);
        }
    }
}

proof fn lemma_not_found(players: Seq<PlayerView>, key: Seq<char>)
    requires
        crate::card_games::table::position_by_key(players, key) >= players.len(),
    ensures
        forall|i: int| 0 <= i < players.len() ==> (#[trigger] players[i]).key != key,
    decreases players.len(),
{
    if players.len() > 0 {
        lemma_not_found(players.skip(1), key);
        assert forall|i: int| 0 <= i < players.len() implies (#[trigger] players[i]).key
            != key by {
            if i > 0 {
                assert(players[i] == players.skip(1)[i - 1]);
            }
        }
    }
}

/// Hands are dealt to the players who sit there.
proof fn lemma_hands_given(players: Seq<PlayerView>, hands: Seq<Seq<Card>>)
    requires
        seated(players),
        players.len() == 3,
        hands.len() == 3,
        forall|i: int| 0 <= i < 3 ==> (#[trigger] hands[i]).len() > 0,
    ensures
        seated(with_hands(players, hands)),
        seated(dealt_anew(players, hands)),
        forall|i: int| 0 <= i < 3 ==> (#[trigger] with_hands(players, hands)[i]).hand.len() > 0,
        forall|i: int| 0 <= i < 3 ==> (#[trigger] dealt_anew(players, hands)[i]).hand.len() > 0,
{
    assert(same_seats(players, with_hands(players, hands)));
    lemma_same_seats(players, with_hands(players, hands));
    assert(same_seats(players, dealt_anew(players, hands)));
    lemma_same_seats(players, dealt_anew(players, hands));
}

impl LandlordGame {
    /// Opens a room for fight-the-landlord.
    pub fn create(&mut self, player: &str, now: u128) -> (r: LandlordOutcome)
        requires
            old(self).wf(),
        ensures
            final(self).wf(),
            (final(self)@, r@) == created(
                old(self)@,
                player@,
                CardGameVariant::Landlord,
                now as int,
            ),
    {
        self.create_variant(player, CardGameVariant::Landlord, now)
    }

    /// Opens a room for run-fast.
    pub fn create_run_fast(&mut self, player: &str, now: u128) -> (r: LandlordOutcome)
        requires
            old(self).wf(),
        ensures
            final(self).wf(),
            (final(self)@, r@) == created(
                old(self)@,
                player@,
                CardGameVariant::HunanRunFast,
                now as int,
            ),
    {
        self.create_variant(player, CardGameVariant::HunanRunFast, now)
    }

    fn create_variant(&mut self, player: &str, variant: CardGameVariant, now: u128) -> (r:
        LandlordOutcome)
        requires
            old(self).wf(),
        ensures
            final(self).wf(),
            (final(self)@, r@) == created(old(self)@, player@, variant, now as int),
    {
        if !self.config.enabled {
            return LandlordOutcome::public("disabled", cat2(variant.label(), "未启用"));
        }
        if self.is_active() {
            return LandlordOutcome::public("already-active", owned("已有牌局或房间进行中"));
        }
        let creator = Player::new(player);
        let mut players: Vec<Player> = Vec::new();
        players.push(creator);
        proof {
            assert(player_views(players@) =~= seq![new_player(player@)]);
            lemma_key_of_trimmed(player@);
        }
        self.state = GameState::Lobby(Lobby { players, variant, timer: ActiveTimer::new(now) });
        let name = trim(player);
        LandlordOutcome::public(
            "created",
            cat4(name.as_str(), "创建了", variant.label(), "房间，还需2人，发送 #加入 参加"),
        )
    }

    /// Joins the room; the third player starts the game.
    pub fn join(&mut self, player: &str, now: u128) -> (r: LandlordOutcome)
        requires
            old(self).wf(),
        ensures
            final(self).wf(),
            (final(self)@, r@) == joined_room(old(self)@, player@, now as int),
    {
        let ghost start = self@;
        let mut lobby = match self.take_state() {
            GameState::Lobby(lobby) => lobby,
            other => {
                self.state = other;
                return LandlordOutcome::public("no-lobby", owned("当前没有等待加入的牌局房间"));
            },
        };
        let ghost before = lobby@;
        let variant = lobby.variant;
        if find_player(&lobby.players, player).is_some() {
            self.state = GameState::Lobby(lobby);
            return LandlordOutcome::public(
                "duplicate-player",
                cat2("你已经加入本局", variant.label()),
            );
        }
        proof {
            lemma_player_seated(before.players, player@);
        }
        lobby.players.push(Player::new(player));
        lobby.timer.reset(now);
        let ghost seats = before.players.push(new_player(player@));
        proof {
            assert(lobby@.players =~= seats);
        }
        if lobby.players.len() < 3 {
            self.state = GameState::Lobby(lobby);
            let name = trim(player);
            return LandlordOutcome::public(
                "joined",
                cat4(name.as_str(), "加入", variant.label(), "，还需1人"),
            );
        }
        let players = lobby.players;
        if variant == CardGameVariant::HunanRunFast {
            self.start_run_fast(players, now)
        } else {
            self.start_bidding(players, now)
        }
    }

    fn start_run_fast(&mut self, players: Vec<Player>, now: u128) -> (r: LandlordOutcome)
        requires
            players@.len() == 3,
            seated(player_views(players@)),
        ensures
            final(self).wf(),
            (final(self)@, r@) == run_fast_started(
                old(self)@,
                player_views(players@),
                now as int,
            ),
    {
        let variant = CardGameVariant::HunanRunFast;
        let mut players = players;
        let ghost before = player_views(players@);
        proof {
            law_run_fast_deal(self.rng.state);
        }
        let (hands, first) = deal_hunan_run_fast(&mut self.rng);
        let ghost dealt = hand_views(hands@);
        proof {
            lemma_hands_given(before, dealt);
        }
        give_hands(&mut players, hands);
        let text = cat3(
            "跑得快已发手牌，",
            players[first].name.as_str(),
            "持有黑桃3并先出；第一手必须包含黑桃3",
        );
        let deliveries = initial_hand_deliveries(&players, variant);
        self.state = GameState::Playing(
            Playing {
                players,
                variant,
                landlord: first,
                current: first,
                last_play: None,
                consecutive_passes: 0,
                timer: ActiveTimer::new(now),
                warning_sent: false,
                turns: 0,
                bombs: 0,
                opening_spade_three_required: true,
            },
        );
        LandlordOutcome::public("run-fast-started", text).with_private_deliveries(deliveries)
    }

    fn start_bidding(&mut self, players: Vec<Player>, now: u128) -> (r: LandlordOutcome)
        requires
            players@.len() == 3,
            seated(player_views(players@)),
        ensures
            final(self).wf(),
            (final(self)@, r@) == landlord_started(
                old(self)@,
                player_views(players@),
                now as int,
            ),
    {
        let mut players = players;
        let ghost before = player_views(players@);
        proof {
            law_landlord_deal(self.rng.state);
        }
        let (hands, bottom) = deal(&mut self.rng);
        let ghost dealt = hand_views(hands@);
        proof {
            lemma_hands_given(before, dealt);
        }
        give_hands(&mut players, hands);
        let first: usize = self.rng.index(players.len());
        let text = cat3(
            "斗地主已发手牌，随机由",
            players[first].name.as_str(),
            "开始抢地主；发送 #抢 或 #不抢",
        );
        let deliveries = initial_hand_deliveries(&players, CardGameVariant::Landlord);
        self.state = GameState::Bidding(
            Bidding {
                players,
                bottom,
                current: first,
                decisions: 0,
                candidate: None,
                timer: ActiveTimer::new(now),
                warning_sent: false,
            },
        );
        LandlordOutcome::public("bidding-started", text).with_private_deliveries(deliveries)
    }

    /// Bids for the landlord, or declines.
    pub fn bid(&mut self, player: &str, rob: bool, now: u128) -> (r: LandlordOutcome)
        requires
            old(self).wf(),
        ensures
            final(self).wf(),
            (final(self)@, r@) == bid_made(old(self)@, player@, rob, now as int),
            r.public_reply is Some,
    {
        let mut bidding = match self.take_state() {
            GameState::Bidding(bidding) => bidding,
            other => {
                self.state = other;
                return LandlordOutcome::public("not-bidding", owned("当前不在抢地主阶段"));
            },
        };
        let ghost before = bidding@;
        let index: usize = match find_player(&bidding.players, player) {
            Some(index) => index,
            None => {
                self.state = GameState::Bidding(bidding);
                return LandlordOutcome::public("not-player", owned("你不在本局斗地主中"));
            },
        };
        if index != bidding.current {
            let text = cat3(
                "现在轮到",
                bidding.players[bidding.current].name.as_str(),
                "抢地主",
            );
            self.state = GameState::Bidding(bidding);
            return LandlordOutcome::public("wrong-bidder", text);
        }
        if rob {
            bidding.candidate = Some(index);
        }
        if bidding.decisions + 1 < 3 {
            bidding.decisions = bidding.decisions + 1;
            bidding.current = (bidding.current + 1) % bidding.players.len();
            bidding.timer.reset(now);
            bidding.warning_sent = false;
            let (action, verb) = if rob {
                ("robbed", "抢地主")
            } else {
                ("declined", "不抢")
            };
            let text = cat5(
                bidding.players[index].name.as_str(),
                verb,
                "；轮到",
                bidding.players[bidding.current].name.as_str(),
                "抢地主",
            );
            self.state = GameState::Bidding(bidding);
            return LandlordOutcome::public(action, text);
        }
        match bidding.candidate {
            Some(landlord) => self.choose_landlord(bidding, landlord, now),
            None => self.redeal(bidding.players, now),
        }
    }

    fn choose_landlord(&mut self, bidding: Bidding, landlord: usize, now: u128) -> (r:
        LandlordOutcome)
        requires
            bidding@.wf(),
            landlord < 3,
        ensures
            final(self).wf(),
            (final(self)@, r@) == landlord_chosen(
                old(self)@,
                bidding@,
                landlord as int,
                now as int,
            ),
            r.public_reply is Some,
    {
        let ghost before = bidding@;
        let mut players = bidding.players;
        let mut bottom = bidding.bottom;
        let bottom_text = format_play(&bottom);
        let ghost p = before.players[landlord as int];
        proof {
            assert(p == players@[landlord as int]@);
        }
        players[landlord].hand.append(&mut bottom);
        sort(&mut players[landlord].hand);
        proof {
            lemma_sorted(p.hand + before.bottom);
            lemma_player_updated(
                before.players,
                player_views(players@),
                landlord as int,
                PlayerView { hand: sorted(p.hand + before.bottom), ..p },
            );
            assert forall|i: int| 0 <= i < 3 implies (#[trigger] player_views(
                players@,
            )[i]).hand.len() > 0 by {
                assert(before.players[i].hand.len() > 0);
            }
        }
        let count = format_usize(players[landlord].hand.len());
        let shown = format_hand(&players[landlord].hand);
        let message = cat4("地主手牌(", count.as_str(), "张): ", shown.as_str());
        let mut deliveries: Vec<LandlordPrivateDelivery> = Vec::new();
        deliveries.push(
            LandlordPrivateDelivery { player: players[landlord].name.clone(), message },
        );
        let text = cat3(
            players[landlord].name.as_str(),
            "成为地主并先出牌；底牌: ",
            bottom_text.as_str(),
        );
        self.state = GameState::Playing(
            Playing {
                players,
                variant: CardGameVariant::Landlord,
                landlord,
                current: landlord,
                last_play: None,
                consecutive_passes: 0,
                timer: ActiveTimer::new(now),
                warning_sent: false,
                turns: 0,
                bombs: 0,
                opening_spade_three_required: false,
            },
        );
        let r = LandlordOutcome::public("landlord-selected", text).with_private_deliveries(
            deliveries,
        );
        proof {
            assert(r@.private_deliveries =~= landlord_chosen(
                old(self)@,
                before,
                landlord as int,
                now as int,
            ).1.private_deliveries);
        }
        r
    }

    fn redeal(&mut self, players: Vec<Player>, now: u128) -> (r: LandlordOutcome)
        requires
            players@.len() == 3,
            seated(player_views(players@)),
        ensures
            final(self).wf(),
            (final(self)@, r@) == redealt(old(self)@, player_views(players@), now as int),
            r.public_reply is Some,
    {
        let mut players = players;
        let ghost before = player_views(players@);
        proof {
            law_landlord_deal(self.rng.state);
        }
        let (hands, bottom) = deal(&mut self.rng);
        let ghost dealt = hand_views(hands@);
        proof {
            lemma_hands_given(before, dealt);
        }
        give_hands(&mut players, hands);
        let ghost given = players@;
        start_anew(&mut players);
        proof {
            assert forall|j: int| 0 <= j < 3 implies #[trigger] player_views(players@)[j]
                == dealt_anew(before, dealt)[j] by {
                assert(player_views(given)[j] == with_hands(before, dealt)[j]);
                assert(players@[j]@.hand == given[j]@.hand);
            }
            assert(player_views(players@) =~= dealt_anew(before, dealt));
        }
        let first: usize = self.rng.index(players.len());
        let text = cat3(
            "三人均未抢地主，已重新发牌；随机由",
            players[first].name.as_str(),
            "开始",
        );
        let deliveries = initial_hand_deliveries(&players, CardGameVariant::Landlord);
        self.state = GameState::Bidding(
            Bidding {
                players,
                bottom,
                current: first,
                decisions: 0,
                candidate: None,
                timer: ActiveTimer::new(now),
                warning_sent: false,
            },
        );
        LandlordOutcome::public("redealt", text).with_private_deliveries(deliveries)
    }
}


/// The elapsed time and the limits, as the clock reads them.
fn limit_of(configured_seconds: u64) -> (r: u128)
    ensures
        r == limit(configured_seconds),
{
    if configured_seconds < 1 {
        in_seconds(1)
    } else {
        in_seconds(configured_seconds)
    }
}

fn is_warning_due(elapsed: u128, limit: u128, warning_sent: bool) -> (r: bool)
    ensures
        r == warning_due(elapsed as int, limit as int, warning_sent),
{
    let margin: u128 = in_seconds(30);
    let warning_at: u128 = if limit > margin {
        limit - margin
    } else {
        0
    };
    !warning_sent && elapsed >= warning_at && elapsed < limit
}

/// The index of the player to move if `player` is that player, else the refusal.
fn check_turn(game: &Playing, player: &str) -> (r: Result<usize, LandlordOutcome>)
    requires
        game@.wf(),
    ensures
        match r {
            Ok(index) => turn_of(game@, player@) == Ok::<int, OutcomeView>(index as int) && index
                == game.current,
            Err(refusal) => turn_of(game@, player@) == Err::<int, OutcomeView>(refusal@),
        },
{
    match find_player(&game.players, player) {
        None => Err(
            LandlordOutcome::public("not-player", cat3("你不在本局", game.variant.label(), "中")),
        ),
        Some(index) => if index != game.current {
            Err(
                LandlordOutcome::public(
                    "wrong-turn",
                    cat3("现在轮到", game.players[game.current].name.as_str(), "出牌"),
                ),
            )
        } else {
            Ok(index)
        },
    }
}

/// What the player to move may play for `text`, or the refusal.
fn check_play(game: &Playing, text: &str) -> (r: Result<
    (Vec<Card>, PlayPattern),
    LandlordOutcome,
>)
    requires
        game@.wf(),
    ensures
        match r {
            Ok((cards, pattern)) => {
                &&& play_verdict(game@, text@) == PlayVerdict::Accepted { cards: cards@, pattern }
                &&& cards@.len() > 0
                &&& cards@.to_multiset().subset_of(
                    game@.players[game.current as int].hand.to_multiset(),
                )
            },
            Err(refusal) => exists|action: Seq<char>, reply: Seq<char>|
                play_verdict(game@, text@) == (PlayVerdict::Refused { action, reply }) && refusal@
                    == #[trigger] public_outcome(action, reply),
        },
{
    let current: usize = game.current;
    let opening: bool = game.variant == CardGameVariant::HunanRunFast
        && game.opening_spade_three_required;
    let ranks = match parse_cards(text) {
        Ok(ranks) => ranks,
        Err(message) => {
            return Err(LandlordOutcome::public("invalid-cards", message));
        },
    };
    if ranks.len() == 0 {
        return Err(LandlordOutcome::public("empty-play", owned("请输入要出的牌")));
    }
    let cards = match take_cards_for_play(&game.players[current].hand, &ranks, opening) {
        Ok(cards) => cards,
        Err(message) => {
            return Err(LandlordOutcome::public("missing-card", message));
        },
    };
    proof {
        lemma_take_for_play_subset(game@.players[current as int].hand, ranks@, opening);
    }
    if opening && find_spade_three(&cards).is_none() {
        return Err(LandlordOutcome::public("spade-three-required", owned("首手必须包含黑桃3")));
    }
    let pattern = match classify_for_variant(&ranks, game.variant) {
        Some(pattern) => pattern,
        None => {
            return Err(
                LandlordOutcome::public("invalid-pattern", owned("这组牌不是当前玩法的有效牌型")),
            );
        },
    };
    proof {
        let chosen = choose|p: PlayPattern| forms(ranks@, p, game.variant);
        law_one_pattern(ranks@, pattern, chosen, game.variant);
    }
    if let PlayPattern::Single(rank) = pattern {
        if let Some(largest) = report_one_largest_single(game, current) {
            if rank != largest.rank {
                return Err(
                    LandlordOutcome::public(
                        "must-play-largest-single",
                        owned("下家已报单，出单张时必须出手中最大牌"),
                    ),
                );
            }
        }
    }
    if let Some(last) = &game.last_play {
        if last.player != current && !pattern.beats(&last.pattern) {
            return Err(
                LandlordOutcome::public(
                    "cannot-beat",
                    cat3(pattern.label(), "压不过上一手", last.pattern.label()),
                ),
            );
        }
    }
    Ok((cards, pattern))
}

impl LandlordGame {
    /// Plays the cards written in `text`.
    pub fn play(&mut self, player: &str, text: &str, now: u128) -> (r: LandlordOutcome)
        requires
            old(self).wf(),
        ensures
            final(self).wf(),
            (final(self)@, r@) == play_requested(old(self)@, player@, text@, now as int),
    {
        let mut game = match self.take_state() {
            GameState::Playing(game) => game,
            other => {
                self.state = other;
                return LandlordOutcome::public("no-game", owned("当前没有进行中的牌局"));
            },
        };
        let index: usize = match check_turn(&game, player) {
            Ok(index) => index,
            Err(refusal) => {
                self.state = GameState::Playing(game);
                return refusal;
            },
        };
        let (cards, pattern) = match check_play(&game, text) {
            Ok(play) => play,
            Err(refusal) => {
                self.state = GameState::Playing(game);
                return refusal;
            },
        };
        let outcome = play_cards(&mut game, index, cards, pattern, now, ActionOrigin::Manual);
        self.settle(game, outcome.ended);
        outcome
    }

    /// Puts the game back on the table, unless it is over.
    fn settle(&mut self, game: Playing, ended: bool)
        requires
            !ended ==> game@.wf(),
            old(self).state is Idle,
        ensures
            final(self).wf(),
            final(self)@ == settled(old(self)@, game@, ended),
    {
        if !ended {
            self.state = GameState::Playing(game);
        }
    }

    /// Passes.
    pub fn pass(&mut self, player: &str, now: u128) -> (r: LandlordOutcome)
        requires
            old(self).wf(),
        ensures
            final(self).wf(),
            (final(self)@, r@) == pass_requested(old(self)@, player@, now as int),
    {
        let mut game = match self.take_state() {
            GameState::Playing(game) => game,
            other => {
                self.state = other;
                return LandlordOutcome::public("no-game", owned("当前没有进行中的牌局"));
            },
        };
        let index: usize = match check_turn(&game, player) {
            Ok(index) => index,
            Err(refusal) => {
                self.state = GameState::Playing(game);
                return refusal;
            },
        };
        let previous: Option<PlayPattern> = match &game.last_play {
            Some(last) => if last.player != index {
                Some(last.pattern)
            } else {
                None
            },
            None => None,
        };
        let outcome = match previous {
            None => LandlordOutcome::public("cannot-pass", owned("你是本轮领出者，不能过牌")),
            Some(previous) => if game.variant == CardGameVariant::HunanRunFast
                && lowest_beating_play_for_variant(
                &game.players[index].hand,
                &previous,
                game.variant,
            ).is_some() {
                LandlordOutcome::public("must-play", owned("跑得快有牌能压时不能过牌"))
            } else {
                pass_playing(&mut game, index, now, ActionOrigin::Manual)
            },
        };
        self.state = GameState::Playing(game);
        outcome
    }

    /// Shows a player their hand.
    pub fn hand(&mut self, player: &str, now: u128) -> (r: LandlordOutcome)
        requires
            old(self).wf(),
        ensures
            final(self).wf(),
            (final(self)@, r@) == hand_requested(old(self)@, player@, now as int),
    {
        let cooldown: u64 = self.config.hand_cooldown_seconds;
        match self.take_state() {
            GameState::Bidding(mut game) => {
                let outcome = show_hand(
                    &mut game.players,
                    CardGameVariant::Landlord.label(),
                    player,
                    cooldown,
                    now,
                );
                self.state = GameState::Bidding(game);
                outcome
            },
            GameState::Playing(mut game) => {
                let label = game.variant.label();
                let ghost before = game@;
                let outcome = show_hand(&mut game.players, label, player, cooldown, now);
                self.state = GameState::Playing(game);
                outcome
            },
            other => {
                self.state = other;
                LandlordOutcome::private("no-game", owned("当前没有已发牌的牌局"))
            },
        }
    }

    /// Tells what goes on at the table.
    pub fn status(&self) -> (r: LandlordOutcome)
        requires
            self.wf(),
        ensures
            r@ == status_outcome(self@.state),
    {
        match &self.state {
            GameState::Idle => LandlordOutcome::public("idle", owned("当前没有牌局房间或进行中的牌局")),
            GameState::Lobby(lobby) => {
                let names = format_names(&lobby.players);
                let missing = format_usize(3 - lobby.players.len());
                LandlordOutcome::public(
                    "lobby-status",
                    cat6(
                        lobby.variant.label(),
                        "等待加入: ",
                        names.as_str(),
                        "，还需",
                        missing.as_str(),
                        "人",
                    ),
                )
            },
            GameState::Bidding(game) => {
                let candidate: &str = match game.candidate {
                    Some(index) => game.players[index].name.as_str(),
                    None => "暂无",
                };
                LandlordOutcome::public(
                    "bidding-status",
                    cat4(
                        "斗地主抢地主中；轮到:",
                        game.players[game.current].name.as_str(),
                        "；当前抢地主:",
                        candidate,
                    ),
                )
            },
            GameState::Playing(game) => {
                let last = format_last_play(game);
                let remaining = format_remaining(&game.players);
                let current = game.players[game.current].name.as_str();
                let reply = if game.variant == CardGameVariant::HunanRunFast {
                    cat6(
                        "跑得快；轮到:",
                        current,
                        "；剩余:",
                        remaining.as_str(),
                        "；上一手:",
                        last.as_str(),
                    )
                } else {
                    let start = cat4(
                        "地主:",
                        game.players[game.landlord].name.as_str(),
                        "；轮到:",
                        current,
                    );
                    cat5(
                        start.as_str(),
                        "；剩余:",
                        remaining.as_str(),
                        "；上一手:",
                        last.as_str(),
                    )
                };
                LandlordOutcome::public("playing-status", reply)
            },
        }
    }

    /// Leaves the room or the game.
    pub fn exit(&mut self, player: &str) -> (r: LandlordOutcome)
        requires
            old(self).wf(),
        ensures
            final(self).wf(),
            (final(self)@, r@) == left(old(self)@, player@),
    {
        match self.take_state() {
            GameState::Idle => LandlordOutcome::public("idle", owned("当前没有牌局房间或进行中的牌局")),
            GameState::Lobby(mut lobby) => {
                let label = lobby.variant.label();
                match find_player(&lobby.players, player) {
                    None => {
                        self.state = GameState::Lobby(lobby);
                        LandlordOutcome::public("not-player", cat3("你不在当前", label, "房间中"))
                    },
                    Some(index) => {
                        if index == 0 {
                            LandlordOutcome::ended(
                                "lobby-canceled",
                                cat4(
                                    lobby.players[index].name.as_str(),
                                    "取消了",
                                    label,
                                    "房间",
                                ),
                            )
                        } else {
                            let ghost before = lobby@;
                            let gone = lobby.players.remove(index);
                            proof {
                                assert(lobby@.players =~= before.players.remove(index as int));
                                assert(lobby@.players =~= before.players.take(1));
                                assert(seated(before.players.take(1)));
                            }
                            self.state = GameState::Lobby(lobby);
                            LandlordOutcome::public(
                                "left-lobby",
                                cat4(gone.name.as_str(), "退出了", label, "房间"),
                            )
                        }
                    },
                }
            },
            GameState::Bidding(game) => match find_player(&game.players, player) {
                None => {
                    self.state = GameState::Bidding(game);
                    LandlordOutcome::public("not-player", owned("你不在本局斗地主中"))
                },
                Some(index) => LandlordOutcome::ended(
                    "game-aborted",
                    cat2(game.players[index].name.as_str(), "退出，斗地主牌局已结束"),
                ),
            },
            GameState::Playing(game) => {
                let label = game.variant.label();
                match find_player(&game.players, player) {
                    None => {
                        self.state = GameState::Playing(game);
                        LandlordOutcome::public("not-player", cat3("你不在本局", label, "中"))
                    },
                    Some(index) => LandlordOutcome::ended(
                        "game-aborted",
                        cat4(game.players[index].name.as_str(), "退出，", label, "牌局已结束"),
                    ),
                }
            },
        }
    }

    /// Carries out a player's command.
    pub fn handle(&mut self, player: &str, command: &LandlordCommand, now: u128) -> (r:
        LandlordOutcome)
        requires
            old(self).wf(),
        ensures
            final(self).wf(),
            (final(self)@, r@) == handled(old(self)@, player@, *command, now as int),
    {
        match command {
            LandlordCommand::Start => self.create(player, now),
            LandlordCommand::RunFastStart => self.create_run_fast(player, now),
            LandlordCommand::Join => self.join(player, now),
            LandlordCommand::Rob => self.bid(player, true, now),
            LandlordCommand::Decline => self.bid(player, false, now),
            LandlordCommand::Status => self.status(),
            LandlordCommand::Play(cards) => self.play(player, cards.as_str(), now),
            LandlordCommand::Pass => self.pass(player, now),
            LandlordCommand::Hand => self.hand(player, now),
            LandlordCommand::Exit => self.exit(player),
        }
    }
}

/// The names of the players, in order.
fn format_names(players: &Vec<Player>) -> (r: String)
    ensures
        r@ == names_text(player_views(players@)),
{
    let mut names: Vec<String> = Vec::new();
    let ghost views = player_views(players@);
    let mut i: usize = 0;
    while i < players.len()
        invariant
            i <= players@.len(),
            views == player_views(players@),
            names@.len() == i,
            forall|j: int| 0 <= j < i ==> (#[trigger] names@[j])@ == views[j].name,
        decreases players@.len() - i,
    {
        names.push(players[i].name.clone());
        i = i + 1;
    }
    proof {
        assert(string_views(names@) =~= Seq::new(views.len(), |i: int| views[i].name));
    }
    join(&names, "、")
}

/// The last play as the status shows it.
fn format_last_play(game: &Playing) -> (r: String)
    requires
        game@.wf(),
    ensures
        r@ == last_play_text(game@),
{
    match &game.last_play {
        None => owned("无"),
        Some(last) => {
            let cards = format_play(&last.cards);
            cat6(
                game.players[last.player].name.as_str(),
                ":",
                cards.as_str(),
                "[",
                last.pattern.label(),
                "]",
            )
        },
    }
}

/// Shows a player their hand, unless they have just seen it.
fn show_hand(
    players: &mut Vec<Player>,
    label: &str,
    player: &str,
    cooldown_seconds: u64,
    now: u128,
) -> (r: LandlordOutcome)
    requires
        seated(player_views(old(players)@)),
    ensures
        ({
            let views = player_views(old(players)@);
            match found_player(views, player@) {
                None => {
                    &&& player_views(final(players)@) == views
                    &&& r@ == private_outcome("not-player"@, "你不在本局"@ + label@ + "中"@)
                },
                Some(index) => {
                    let p = views[index];
                    if cooling_down(p, now as int, cooldown_seconds as int) {
                        &&& player_views(final(players)@) == views
                        &&& r@ == (OutcomeView {
                            action: "hand-cooldown"@,
                            public_reply: None,
                            private_reply: None,
                            private_deliveries: Seq::empty(),
                            ended: false,
                        })
                    } else {
                        &&& player_views(final(players)@) == views.update(
                            index,
                            PlayerView { last_hand_reply: Some(now), ..p },
                        )
                        &&& r@ == private_outcome(
                            "hand"@,
                            "当前手牌("@ + decimal(p.hand.len()) + "张): "@ + hand_text(p.hand),
                        )
                    }
                },
            }
        }),
        seated(player_views(final(players)@)),
        final(players)@.len() == old(players)@.len(),
        forall|i: int|
            0 <= i < old(players)@.len() ==> (#[trigger] player_views(final(players)@)[i]).hand
                == player_views(old(players)@)[i].hand,
{
    let ghost views = player_views(players@);
    let index: usize = match find_player(players, player) {
        Some(index) => index,
        None => {
            return LandlordOutcome::private("not-player", cat3("你不在本局", label, "中"));
        },
    };
    let cooldown: u128 = in_seconds(cooldown_seconds);
    let cooling: bool = match players[index].last_hand_reply {
        Some(last) => (if now > last {
            now - last
        } else {
            0
        }) < cooldown,
        None => false,
    };
    if cooling {
        let r = LandlordOutcome {
            action: "hand-cooldown",
            public_reply: None,
            private_reply: None,
            private_deliveries: Vec::new(),
            ended: false,
        };
        proof {
            assert(r@.private_deliveries =~= Seq::empty());
        }
        return r;
    }
    players[index].last_hand_reply = Some(now);
    proof {
        lemma_player_updated(
            views,
            player_views(players@),
            index as int,
            PlayerView { last_hand_reply: Some(now), ..views[index as int] },
        );
    }
    let count = format_usize(players[index].hand.len());
    let hand = format_hand(&players[index].hand);
    LandlordOutcome::private(
        "hand",
        cat4("当前手牌(", count.as_str(), "张): ", hand.as_str()),
    )
}


impl LandlordGame {
    /// Brings the table to `now`; what has to be announced is the result.
    pub fn tick(&mut self, now: u128, clock_active: bool) -> (r: Option<LandlordOutcome>)
        requires
            old(self).wf(),
        ensures
            final(self).wf(),
            (final(self)@, optional_outcome(r)) == ticked(old(self)@, now as int, clock_active),
    {
        match self.take_state() {
            GameState::Idle => None,
            GameState::Lobby(lobby) => self.tick_lobby(lobby, now, clock_active),
            GameState::Bidding(game) => self.tick_bidding(game, now, clock_active),
            GameState::Playing(game) => self.tick_playing(game, now, clock_active),
        }
    }

    fn tick_lobby(&mut self, lobby: Lobby, now: u128, clock_active: bool) -> (r: Option<
        LandlordOutcome,
    >)
        requires
            lobby@.wf(),
            old(self).state is Idle,
        ensures
            final(self).wf(),
            (final(self)@, optional_outcome(r)) == lobby_ticked(
                old(self)@,
                lobby@,
                now as int,
                clock_active,
            ),
    {
        let mut lobby = lobby;
        lobby.timer.tick(now, clock_active);
        if lobby.timer.elapsed < limit_of(self.config.lobby_timeout_seconds) {
            self.state = GameState::Lobby(lobby);
            return None;
        }
        Some(
            LandlordOutcome::ended(
                "lobby-timeout",
                cat2(lobby.variant.label(), "组局等待超时，房间已取消"),
            ),
        )
    }

    fn tick_bidding(&mut self, game: Bidding, now: u128, clock_active: bool) -> (r: Option<
        LandlordOutcome,
    >)
        requires
            game@.wf(),
            old(self).state is Idle,
        ensures
            final(self).wf(),
            (final(self)@, optional_outcome(r)) == bidding_ticked(
                old(self)@,
                game@,
                now as int,
                clock_active,
            ),
    {
        let mut game = game;
        game.timer.tick(now, clock_active);
        if !clock_active {
            self.state = GameState::Bidding(game);
            return None;
        }
        let timeout: u128 = limit_of(self.config.turn_timeout_seconds);
        if is_warning_due(game.timer.elapsed, timeout, game.warning_sent) {
            game.warning_sent = true;
            let text = cat2(game.players[game.current].name.as_str(), "抢地主剩余30秒");
            self.state = GameState::Bidding(game);
            return Some(LandlordOutcome::public("bid-warning", text));
        }
        if game.timer.elapsed < timeout {
            self.state = GameState::Bidding(game);
            return None;
        }
        let name = game.players[game.current].name.clone();
        self.state = GameState::Bidding(game);
        let outcome = self.bid(name.as_str(), false, now);
        let text = match &outcome.public_reply {
            Some(reply) => cat3(name.as_str(), "抢地主超时，按不抢处理；", reply.as_str()),
            None => String::new(),
        };
        Some(
            LandlordOutcome {
                action: outcome.action,
                public_reply: Some(text),
                private_reply: outcome.private_reply,
                private_deliveries: outcome.private_deliveries,
                ended: outcome.ended,
            },
        )
    }

    fn tick_playing(&mut self, game: Playing, now: u128, clock_active: bool) -> (r: Option<
        LandlordOutcome,
    >)
        requires
            game@.wf(),
            old(self).state is Idle,
        ensures
            final(self).wf(),
            (final(self)@, optional_outcome(r)) == playing_ticked(
                old(self)@,
                game@,
                now as int,
                clock_active,
            ),
    {
        let mut game = game;
        game.timer.tick(now, clock_active);
        if !clock_active {
            self.state = GameState::Playing(game);
            return None;
        }
        let current: usize = game.current;
        match forced_run_fast_action(&game) {
            Some(ForcedRunFastAction::Pass) => {
                let outcome = make_forced_pass(&mut game, now);
                self.state = GameState::Playing(game);
                return Some(outcome);
            },
            Some(ForcedRunFastAction::Play { cards, pattern }) => {
                let outcome = play_cards(
                    &mut game,
                    current,
                    cards,
                    pattern,
                    now,
                    ActionOrigin::Forced,
                );
                self.settle(game, outcome.ended);
                return Some(outcome);
            },
            None => {},
        }
        let trustee: bool = game.players[current].trustee;
        let timeout: u128 = limit_of(self.config.turn_timeout_seconds);
        if !trustee && is_warning_due(game.timer.elapsed, timeout, game.warning_sent) {
            game.warning_sent = true;
            let text = cat2(game.players[current].name.as_str(), "出牌剩余30秒");
            self.state = GameState::Playing(game);
            return Some(LandlordOutcome::public("turn-warning", text));
        }
        if trustee || game.timer.elapsed >= timeout {
            let outcome = timeout_action(&mut game, self.config.trustee_after_timeouts, now);
            self.settle(game, outcome.ended);
            Some(outcome)
        } else {
            self.state = GameState::Playing(game);
            None
        }
    }
}

/// Passes for a player who cannot beat the last play.
fn make_forced_pass(game: &mut Playing, now: u128) -> (r: LandlordOutcome)
    requires
        old(game)@.wf(),
        old(game)@.to_beat() is Some,
    ensures
        final(game)@.wf(),
        (final(game)@, r@) == forced_pass(old(game)@, now as int),
{
    let current: usize = game.current;
    let outcome = pass_playing(game, current, now, ActionOrigin::Forced);
    let next: usize = game.current;
    if game.last_play.is_some() && (forced_run_fast_action(game).is_some()
        || game.players[next].trustee) {
        LandlordOutcome {
            action: outcome.action,
            public_reply: None,
            private_reply: outcome.private_reply,
            private_deliveries: outcome.private_deliveries,
            ended: outcome.ended,
        }
    } else {
        outcome
    }
}

// ---------------------------------------------------------------------------
// Laws
// ---------------------------------------------------------------------------
/// While the clock stands still, nothing happens in a dealt game: only the
/// moment of the last tick moves on, and a room closes only if its time had
/// run out before.
pub proof fn law_clock_pauses(game: GameModel, now: int)
    ensures
        ({
            let (after, outcome) = ticked(game, now, false);
            match game.state {
                StateView::Idle => after == game && outcome is None,
                StateView::Lobby(lobby) => (outcome is None <==> lobby.timer.elapsed < limit(
                    game.config.lobby_timeout_seconds,
                )),
                StateView::Bidding(bidding) => outcome is None && after == game.with(
                    StateView::Bidding(
                        BiddingView {
                            timer: ActiveTimer {
                                last_tick: now as u128,
                                ..bidding.timer
                            },
                            ..bidding
                        },
                    ),
                ),
                StateView::Playing(playing) => outcome is None && after == game.with(
                    StateView::Playing(
                        PlayingView {
                            timer: ActiveTimer {
                                last_tick: now as u128,
                                ..playing.timer
                            },
                            ..playing
                        },
                    ),
                ),
            }
        }),
{
}

/// A command by someone who is not at the table changes nothing, except that
/// they may open a room or join one.
pub proof fn law_strangers_change_nothing(
    game: GameModel,
    player: Seq<char>,
    command: LandlordCommand,
    now: int,
)
    requires
        command !is Start,
        command !is RunFastStart,
        command !is Join,
        match game.state {
            StateView::Idle => true,
            StateView::Lobby(lobby) => found_player(lobby.players, player) is None,
            StateView::Bidding(bidding) => found_player(bidding.players, player) is None,
            StateView::Playing(playing) => found_player(playing.players, player) is None,
        },
    ensures
        handled(game, player, command, now).0 == game,
        !handled(game, player, command, now).1.ended,
{
}

/// A second room is never opened while there is a room or a game.
pub proof fn law_one_game_at_a_time(
    game: GameModel,
    player: Seq<char>,
    variant: CardGameVariant,
    now: int,
)
    requires
        game.state !is Idle,
    ensures
        created(game, player, variant, now).0 == game,
{
}

/// A command or a tick clears the table exactly when its answer says that the
/// game has ended, as long as there was one.
pub proof fn law_ended_clears(
    game: GameModel,
    player: Seq<char>,
    command: LandlordCommand,
    now: int,
)
    requires
        game.state.wf(),
        game.state !is Idle,
    ensures
        handled(game, player, command, now).1.ended <==> handled(
            game,
            player,
            command,
            now,
        ).0.state is Idle,
{
}

/// The clock clears the table exactly when it announces that the game has ended.
pub proof fn law_tick_ended_clears(game: GameModel, now: int, active: bool)
    requires
        game.state.wf(),
        game.state !is Idle,
    ensures
        ({
            let (after, outcome) = ticked(game, now, active);
            after.state is Idle <==> (outcome matches Some(o) && o.ended)
        }),
{
}

/// After a play the turn goes to the next player; two passes give the lead
/// back to the player who played, with nothing left to beat.
pub proof fn law_two_passes_return_the_lead(
    playing: PlayingView,
    cards: Seq<Card>,
    pattern: PlayPattern,
    now: int,
    origin: ActionOrigin,
    first: ActionOrigin,
    second: ActionOrigin,
)
    requires
        playing.wf(),
        after_play(
            playing,
            playing.current,
            cards,
            pattern,
            now,
            origin,
        ).players[playing.current].hand.len() > 0,
    ensures
        ({
            let leader = playing.current;
            let played = after_play(playing, leader, cards, pattern, now, origin);
            let once = after_pass(played, played.current, now, first);
            let twice = after_pass(once, once.current, now, second);
            &&& played.current == (leader + 1) % 3
            &&& once.current == (leader + 2) % 3
            &&& twice.current == leader
            &&& twice.last_play is None
        }),
{
}

/// A play takes exactly the played cards from the player's hand and leaves
/// the other hands alone.
pub proof fn law_play_moves_cards(
    playing: PlayingView,
    cards: Seq<Card>,
    pattern: PlayPattern,
    now: int,
    origin: ActionOrigin,
)
    requires
        playing.wf(),
        cards.to_multiset().subset_of(playing.players[playing.current].hand.to_multiset()),
    ensures
        ({
            let after = after_play(playing, playing.current, cards, pattern, now, origin);
            &&& after.players[playing.current].hand.to_multiset()
                == playing.players[playing.current].hand.to_multiset().sub(cards.to_multiset())
            &&& forall|i: int|
                0 <= i < 3 && i != playing.current ==> (#[trigger] after.players[i])
                    == playing.players[i]
        }),
{
    crate::card_games::hands::lemma_removed(playing.players[playing.current].hand, cards);
}

/// The bidder whom the clock finds too late is the one who declines.
pub proof fn law_late_bidder_declines(bidding: BiddingView)
    requires
        bidding.wf(),
    ensures
        found_player(bidding.players, bidding.players[bidding.current].name) == Some(
            bidding.current,
        ),
{
    law_found_by_name(bidding.players, bidding.current);
}

/// The last of three bidders who bids becomes the landlord, leads, and holds
/// the bottom cards besides their own.
pub proof fn law_landlord_leads(
    game: GameModel,
    bidding: BiddingView,
    landlord: int,
    now: int,
)
    requires
        bidding.wf(),
        0 <= landlord < 3,
    ensures
        ({
            let (after, outcome) = landlord_chosen(game, bidding, landlord, now);
            &&& after.state matches StateView::Playing(playing)
            &&& playing.landlord == landlord
            &&& playing.current == landlord
            &&& playing.players[landlord].hand.len() == bidding.players[landlord].hand.len()
                + bidding.bottom.len()
            &&& playing.players[landlord].hand.to_multiset() == (bidding.players[landlord].hand
                + bidding.bottom).to_multiset()
        }),
{
    lemma_sorted(bidding.players[landlord].hand + bidding.bottom);
}

/// Cards that are accepted are in the hand, form their pattern, and beat what
/// lies; the opener of run-fast shows the three of spades, and a single that
/// must be the largest is.
pub proof fn law_accepted_play_is_legal(playing: PlayingView, text: Seq<char>)
    requires
        playing.wf(),
        play_verdict(playing, text) is Accepted,
    ensures
        match play_verdict(playing, text) {
            PlayVerdict::Accepted { cards, pattern } => {
                &&& cards.len() > 0
                &&& cards.to_multiset().subset_of(
                    playing.players[playing.current].hand.to_multiset(),
                )
                &&& parsed_cards(text) matches Ok(ranks) && forms(ranks, pattern, playing.variant)
                &&& playing.to_beat() matches Some(previous) ==> pattern.spec_beats(previous)
                &&& playing.opening_spade_three_required ==> first_marked(cards) is Some
                &&& !violates_report_one(playing, pattern)
            },
            _ => false,
        },
{
    let hand = playing.players[playing.current].hand;
    let opening = playing.variant == CardGameVariant::HunanRunFast
        && playing.opening_spade_three_required;
    let ranks = parsed_cards(text)->Ok_0;
    lemma_take_for_play_subset(hand, ranks, opening);
}

/// Who becomes the landlord of three who bid one after the other: the last who
/// wants to.
pub open spec fn last_to_rob(first: int, b0: bool, b1: bool, b2: bool) -> Option<int> {
    if b2 {
        Some((first + 2) % 3)
    } else if b1 {
        Some((first + 1) % 3)
    } else if b0 {
        Some(first)
    } else {
        None
    }
}

/// What comes of three bids in turn. The last who bid becomes the landlord, leads,
/// and holds the three bottom cards besides their own, twenty in all, which they
/// alone are told; where nobody bid the cards are dealt anew and the bidding begins
/// again.
pub proof fn law_three_bids(
    game: GameModel,
    bidding: BiddingView,
    b0: bool,
    b1: bool,
    b2: bool,
    t0: int,
    t1: int,
    t2: int,
)
    requires
        game.state == StateView::Bidding(bidding),
        bidding.wf(),
        bidding.decisions == 0,
    ensures
        ({
            let first = bidding.current;
            let once = bid_made(game, bidding.players[first].name, b0, t0).0;
            let twice = bid_made(once, bidding.players[(first + 1) % 3].name, b1, t1).0;
            let (after, outcome) = bid_made(
                twice,
                bidding.players[(first + 2) % 3].name,
                b2,
                t2,
            );
            match last_to_rob(first, b0, b1, b2) {
                Some(landlord) => {
                    let p = bidding.players[landlord];
                    &&& after.state matches StateView::Playing(playing)
                    &&& playing.landlord == landlord
                    &&& playing.current == landlord
                    &&& playing.players.len() == 3
                    &&& playing.players[landlord].hand == sorted(p.hand + bidding.bottom)
                    &&& playing.players[landlord].hand.len() == 20
                    &&& forall|i: int|
                        0 <= i < 3 && i != landlord ==> (#[trigger] playing.players[i])
                            == bidding.players[i]
                    &&& outcome.private_deliveries.len() == 1
                    &&& outcome.private_deliveries[0].player == p.name
                },
                None => {
                    let (hands, bottom, _) = landlord_deal(game.rng);
                    &&& outcome.action == "redealt"@
                    &&& outcome.private_deliveries.len() == 3
                    &&& after.state matches StateView::Bidding(anew)
                    &&& anew.decisions == 0
                    &&& anew.candidate is None
                    &&& anew.players.len() == 3
                    &&& anew.bottom == bottom
                    &&& anew.bottom.len() == 3
                    &&& forall|i: int|
                        0 <= i < 3 ==> (#[trigger] anew.players[i]).hand == hands[i]
                            && anew.players[i].hand.len() == 17 && anew.players[i].name
                            == bidding.players[i].name
                },
            }
        }),
{
    let first = bidding.current;
    law_found_by_name(bidding.players, first);
    law_found_by_name(bidding.players, (first + 1) % 3);
    law_found_by_name(bidding.players, (first + 2) % 3);
    law_landlord_deal(game.rng);
    match last_to_rob(first, b0, b1, b2) {
        Some(landlord) => {
            let p = bidding.players[landlord];
            lemma_sorted(p.hand + bidding.bottom);
            assert(p.hand.len() == 17);
        },
        None => {
            let hands = landlord_deal(game.rng).0;
            assert forall|i: int| 0 <= i < 3 implies #[trigger] dealt_anew(
                bidding.players,
                hands,
            )[i].hand == hands[i] && hands[i].len() == 17 by {}
        },
    }
}

} // verus!
