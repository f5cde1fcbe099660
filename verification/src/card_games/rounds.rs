//! What the commands of players and the clock do to a table.
use vstd::prelude::*;
use crate::card_games::cards::{Card, Rank};
use crate::card_games::dealing::{
    all_cards, landlord_deck, law_landlord_deal, law_run_fast_deal, run_fast_deck,
};
use crate::card_games::game::{
    bid_made, created, delivery_retried, handled, landlord_chosen, law_landlord_leads, left,
    pass_requested, play_requested, play_verdict, ticked, GameModel, PlayVerdict,
};
use crate::card_games::hands::{
    first_marked, hand_text, parsed_cards, play_text, take_for_play_result,
};
use crate::card_games::patterns::{forms, law_one_pattern, CardGameVariant, PlayPattern};
use crate::card_games::playing::{
    after_pass, after_play, after_timeout, forced_action, lowest_beating, pass_outcome, report_one,
    ActionOrigin,
};
use crate::card_games::table::{
    found_player, law_new_player, ActiveTimer, BiddingView, LobbyView, PlayerView, PlayingView,
    StateView,
};
use crate::card_games::{LandlordCommand, OutcomeView};
use crate::text::{decimal, joined, trimmed};

verus! {

/// Whether an answer is one to the whole table that ends nothing.
pub open spec fn told_all(told: OutcomeView, action: Seq<char>) -> bool {
    &&& told.action == action
    &&& told.public_reply is Some
    &&& told.private_reply is None
    &&& told.private_deliveries.len() == 0
    &&& !told.ended
}

/// A room is opened where card games are switched on and the table is free: for the game
/// that was asked for, with who asked in it alone. Else the table stays.
pub proof fn law_opening_a_room(game: GameModel, player: Seq<char>, now: int)
    requires
        0 <= now <= u128::MAX,
    ensures
        ({
            let (landlord, first) = handled(game, player, LandlordCommand::Start, now);
            let (run_fast, second) = handled(game, player, LandlordCommand::RunFastStart, now);
            &&& !game.config.enabled ==> landlord == game && run_fast == game && told_all(
                first,
                "disabled"@,
            ) && told_all(second, "disabled"@)
            &&& game.config.enabled && game.state !is Idle ==> landlord == game && run_fast == game
                && told_all(first, "already-active"@) && told_all(second, "already-active"@)
            &&& game.config.enabled && game.state is Idle ==> {
                &&& landlord.state matches StateView::Lobby(lobby)
                &&& lobby.variant == CardGameVariant::Landlord
                &&& lobby.players.len() == 1
                &&& lobby.players[0].name == trimmed(player)
                &&& lobby.timer == (ActiveTimer { elapsed: 0, last_tick: now as u128 })
                &&& told_all(first, "created"@)
                &&& run_fast.state matches StateView::Lobby(other)
                &&& other.variant == CardGameVariant::HunanRunFast
                &&& other.players.len() == 1
                &&& other.players[0].name == trimmed(player)
                &&& other.timer == (ActiveTimer { elapsed: 0, last_tick: now as u128 })
                &&& told_all(second, "created"@)
                &&& landlord.config == game.config
                &&& landlord.rng == game.rng
            }
        }),
{
}

/// A room is joined once by each; the second player waits for a third. Where no room
/// waits, and where the player sits in it, the table stays.
pub proof fn law_joining(game: GameModel, lobby: LobbyView, player: Seq<char>, now: int)
    requires
        0 <= now <= u128::MAX,
    ensures
        ({
            let (after, told) = handled(game, player, LandlordCommand::Join, now);
            &&& game.state !is Lobby ==> after == game && told_all(told, "no-lobby"@)
            &&& game.state == StateView::Lobby(lobby) ==> {
                &&& found_player(lobby.players, player) is Some ==> after == game && told_all(
                    told,
                    "duplicate-player"@,
                )
                &&& found_player(lobby.players, player) is None && lobby.players.len() == 1 ==> {
                    &&& after.state matches StateView::Lobby(more)
                    &&& more.players.len() == 2
                    &&& more.players[0] == lobby.players[0]
                    &&& more.players[1].name == trimmed(player)
                    &&& more.players[1].hand.len() == 0
                    &&& more.variant == lobby.variant
                    &&& more.timer == (ActiveTimer { elapsed: 0, last_tick: now as u128 })
                    &&& told_all(told, "joined"@)
                }
            }
        }),
{
    law_new_player(player);
}

/// The third player starts the game: in fight-the-landlord each gets seventeen cards and
/// three are left for the landlord, together the deck, and bidding begins with nobody
/// ahead. Each player is told their own hand.
pub proof fn law_third_starts_bidding(
    game: GameModel,
    lobby: LobbyView,
    player: Seq<char>,
    now: int,
)
    requires
        game.state == StateView::Lobby(lobby),
        lobby.wf(),
        lobby.players.len() == 2,
        lobby.variant == CardGameVariant::Landlord,
        found_player(lobby.players, player) is None,
        0 <= now <= u128::MAX,
    ensures
        ({
            let (after, told) = handled(game, player, LandlordCommand::Join, now);
            &&& after.state matches StateView::Bidding(bidding)
            &&& bidding.players.len() == 3
            &&& bidding.players[0].name == lobby.players[0].name
            &&& bidding.players[1].name == lobby.players[1].name
            &&& bidding.players[2].name == trimmed(player)
            &&& bidding.players[0].hand.len() == 17
            &&& bidding.players[1].hand.len() == 17
            &&& bidding.players[2].hand.len() == 17
            &&& bidding.bottom.len() == 3
            &&& all_cards(
                bidding.players[0].hand,
                bidding.players[1].hand,
                bidding.players[2].hand,
            ).add(bidding.bottom.to_multiset()) == landlord_deck().to_multiset()
            &&& 0 <= bidding.current < 3
            &&& bidding.decisions == 0
            &&& bidding.candidate is None
            &&& !bidding.warning_sent
            &&& bidding.timer == (ActiveTimer { elapsed: 0, last_tick: now as u128 })
            &&& told.action == "bidding-started"@
            &&& !told.ended
            &&& told.private_deliveries.len() == 3
            &&& forall|i: int|
                0 <= i < 3 ==> (#[trigger] told.private_deliveries[i]).player
                    == bidding.players[i].name && told.private_deliveries[i].message == "斗地主"@
                    + "初始手牌("@ + decimal(17) + "张): "@ + hand_text(bidding.players[i].hand)
        }),
{
    law_landlord_deal(game.rng);
    law_new_player(player);
    let hands = crate::card_games::dealing::landlord_deal(game.rng).0;
    assert(hands[0].len() == 17 && hands[1].len() == 17 && hands[2].len() == 17);
}

/// In run-fast each of the three gets sixteen cards, together the deck; who holds the three
/// of spades leads, and leads with it.
pub proof fn law_third_starts_run_fast(
    game: GameModel,
    lobby: LobbyView,
    player: Seq<char>,
    now: int,
)
    requires
        game.state == StateView::Lobby(lobby),
        lobby.wf(),
        lobby.players.len() == 2,
        lobby.variant == CardGameVariant::HunanRunFast,
        found_player(lobby.players, player) is None,
        0 <= now <= u128::MAX,
    ensures
        ({
            let (after, told) = handled(game, player, LandlordCommand::Join, now);
            &&& after.state matches StateView::Playing(playing)
            &&& playing.variant == CardGameVariant::HunanRunFast
            &&& playing.players.len() == 3
            &&& playing.players[0].name == lobby.players[0].name
            &&& playing.players[1].name == lobby.players[1].name
            &&& playing.players[2].name == trimmed(player)
            &&& playing.players[0].hand.len() == 16
            &&& playing.players[1].hand.len() == 16
            &&& playing.players[2].hand.len() == 16
            &&& all_cards(
                playing.players[0].hand,
                playing.players[1].hand,
                playing.players[2].hand,
            ) == run_fast_deck().to_multiset()
            &&& 0 <= playing.current < 3
            &&& first_marked(playing.players[playing.current].hand) is Some
            &&& playing.opening_spade_three_required
            &&& playing.last_play is None
            &&& playing.turns == 0
            &&& playing.bombs == 0
            &&& !playing.warning_sent
            &&& playing.timer == (ActiveTimer { elapsed: 0, last_tick: now as u128 })
            &&& told.action == "run-fast-started"@
            &&& !told.ended
            &&& told.private_deliveries.len() == 3
            &&& forall|i: int|
                0 <= i < 3 ==> (#[trigger] told.private_deliveries[i]).player
                    == playing.players[i].name && told.private_deliveries[i].message == "跑得快"@
                    + "初始手牌("@ + decimal(16) + "张): "@ + hand_text(playing.players[i].hand)
        }),
{
    law_run_fast_deal(game.rng);
    law_new_player(player);
    let hands = crate::card_games::dealing::run_fast_deal(game.rng).0;
    assert(hands[0].len() == 16 && hands[1].len() == 16 && hands[2].len() == 16);
}

/// Bids are made by the player whose turn it is. The first two pass the turn on; who robs
/// is ahead, who declines leaves who is ahead. With the third the player who is ahead
/// becomes the landlord.
pub proof fn law_a_bid(
    game: GameModel,
    bidding: BiddingView,
    player: Seq<char>,
    rob: bool,
    now: int,
)
    requires
        game.state == StateView::Bidding(bidding),
        bidding.wf(),
        0 <= now <= u128::MAX,
    ensures
        ({
            let (after, told) = handled(
                game,
                player,
                if rob {
                    LandlordCommand::Rob
                } else {
                    LandlordCommand::Decline
                },
                now,
            );
            &&& found_player(bidding.players, player) is None ==> after == game && told_all(
                told,
                "not-player"@,
            )
            &&& found_player(bidding.players, player) matches Some(i) ==> (i != bidding.current
                ==> after == game && told_all(told, "wrong-bidder"@))
            &&& found_player(bidding.players, player) == Some(bidding.current) ==> {
                &&& bidding.decisions < 2 ==> {
                    &&& after.state matches StateView::Bidding(next)
                    &&& next.players == bidding.players
                    &&& next.bottom == bidding.bottom
                    &&& next.current == (bidding.current + 1) % 3
                    &&& next.decisions == bidding.decisions + 1
                    &&& rob ==> next.candidate == Some(bidding.current) && told_all(
                        told,
                        "robbed"@,
                    )
                    &&& !rob ==> next.candidate == bidding.candidate && told_all(
                        told,
                        "declined"@,
                    )
                    &&& next.timer == (ActiveTimer { elapsed: 0, last_tick: now as u128 })
                    &&& !next.warning_sent
                }
                &&& bidding.decisions == 2 && rob ==> {
                    &&& after.state matches StateView::Playing(playing)
                    &&& playing.landlord == bidding.current
                }
                &&& bidding.decisions == 2 && !rob && bidding.candidate is Some ==> {
                    &&& after.state matches StateView::Playing(playing)
                    &&& playing.landlord == bidding.candidate->0
                }
                &&& bidding.decisions == 2 && !rob && bidding.candidate is None ==> {
                    &&& after.state matches StateView::Bidding(again)
                    &&& again.decisions == 0
                    &&& again.candidate is None
                    &&& told.action == "redealt"@
                    &&& told.private_deliveries.len() == 3
                }
            }
        }),
{
}

/// The landlord takes up the three cards that were left and leads, with nothing to beat;
/// the others keep their hands.
pub proof fn law_the_landlord(
    game: GameModel,
    bidding: BiddingView,
    landlord: int,
    now: int,
    i: int,
)
    requires
        bidding.wf(),
        0 <= landlord < 3,
        0 <= now <= u128::MAX,
    ensures
        ({
            let (after, told) = landlord_chosen(game, bidding, landlord, now);
            &&& after.state matches StateView::Playing(playing)
            &&& playing.variant == CardGameVariant::Landlord
            &&& playing.current == landlord
            &&& playing.landlord == landlord
            &&& playing.players[landlord].hand.len() == 20
            &&& playing.players[landlord].hand.to_multiset() == (bidding.players[landlord].hand
                + bidding.bottom).to_multiset()
            &&& 0 <= i < 3 && i != landlord ==> playing.players[i] == bidding.players[i]
            &&& playing.to_beat() is None
            &&& playing.turns == 0
            &&& playing.bombs == 0
            &&& !playing.opening_spade_three_required
            &&& told.action == "landlord-selected"@
            &&& !told.ended
            &&& told.private_deliveries.len() == 1
            &&& told.private_deliveries[0].player == bidding.players[landlord].name
        }),
{
    law_landlord_leads(game, bidding, landlord, now);
}

/// Only the player whose turn it is plays and passes; the table stays for anybody else,
/// and where no game is in play.
pub proof fn law_whose_turn(
    game: GameModel,
    playing: PlayingView,
    player: Seq<char>,
    text: Seq<char>,
    now: int,
)
    ensures
        game.state !is Playing ==> play_requested(game, player, text, now).0 == game && told_all(
            play_requested(game, player, text, now).1,
            "no-game"@,
        ) && pass_requested(game, player, now).0 == game && told_all(
            pass_requested(game, player, now).1,
            "no-game"@,
        ),
        game.state == StateView::Playing(playing) ==> {
            &&& found_player(playing.players, player) is None ==> {
                &&& play_requested(game, player, text, now).0 == game
                &&& told_all(play_requested(game, player, text, now).1, "not-player"@)
                &&& pass_requested(game, player, now).0 == game
                &&& told_all(pass_requested(game, player, now).1, "not-player"@)
            }
            &&& found_player(playing.players, player) matches Some(i) ==> (i != playing.current
                ==> {
                &&& play_requested(game, player, text, now).0 == game
                &&& told_all(play_requested(game, player, text, now).1, "wrong-turn"@)
                &&& pass_requested(game, player, now).0 == game
                &&& told_all(pass_requested(game, player, now).1, "wrong-turn"@)
            })
        },
{
}

/// A play that is refused leaves the table; one that is accepted is made, and clears the
/// table where it empties the hand.
pub proof fn law_playing(
    game: GameModel,
    playing: PlayingView,
    player: Seq<char>,
    text: Seq<char>,
    now: int,
)
    requires
        game.state == StateView::Playing(playing),
        found_player(playing.players, player) == Some(playing.current),
    ensures
        ({
            let (after, told) = play_requested(game, player, text, now);
            match play_verdict(playing, text) {
                PlayVerdict::Refused { action, reply } => after == game && told_all(told, action)
                    && told.public_reply == Some(reply),
                PlayVerdict::Accepted { cards, pattern } => {
                    let next = after_play(
                        playing,
                        playing.current,
                        cards,
                        pattern,
                        now,
                        ActionOrigin::Manual,
                    );
                    &&& next.players[playing.current].hand.len() > 0 ==> after.state
                        == StateView::Playing(next) && told_all(told, "played"@)
                    &&& next.players[playing.current].hand.len() == 0 ==> after.state is Idle
                        && told.ended && told.action == "won"@
                },
            }
        }),
{
}

/// What is written as cards of the hand, forms a pattern and beats what lies is accepted
/// as that pattern: with the three of spades where the game opens, and not as a single
/// that is not the largest where the next player has one card left.
pub proof fn law_good_play_is_accepted(
    playing: PlayingView,
    text: Seq<char>,
    ranks: Seq<Rank>,
    cards: Seq<Card>,
    p: PlayPattern,
)
    requires
        playing.wf(),
        parsed_cards(text) == Ok::<Seq<Rank>, Seq<char>>(ranks),
        ranks.len() > 0,
        take_for_play_result(
            playing.players[playing.current].hand,
            ranks,
            playing.opening_spade_three_required,
        ) == Ok::<Seq<Card>, Seq<char>>(cards),
        playing.opening_spade_three_required ==> first_marked(cards) is Some,
        forms(ranks, p, playing.variant),
        report_one(playing, playing.current) matches Some(card) ==> (p matches PlayPattern::Single(
            rank,
        ) ==> rank == card.rank),
        playing.to_beat() matches Some(previous) ==> p.spec_beats(previous),
    ensures
        play_verdict(playing, text) == (PlayVerdict::Accepted { cards, pattern: p }),
{
    let q = choose|q: PlayPattern| forms(ranks, q, playing.variant);
    law_one_pattern(ranks, p, q, playing.variant);
}

/// Why a play is refused: what is written is no cards, or none; the hand lacks one; the
/// game opens and the three of spades is missing; the cards form no pattern; the single is
/// not the largest where it has to be; the pattern does not beat what lies.
pub proof fn law_bad_play_is_refused(
    playing: PlayingView,
    text: Seq<char>,
    ranks: Seq<Rank>,
    cards: Seq<Card>,
    p: PlayPattern,
    previous: PlayPattern,
)
    requires
        playing.wf(),
    ensures
        ({
            let verdict = play_verdict(playing, text);
            let taken = take_for_play_result(
                playing.players[playing.current].hand,
                ranks,
                playing.opening_spade_three_required,
            );
            let read = parsed_cards(text) == Ok::<Seq<Rank>, Seq<char>>(ranks);
            let held = taken == Ok::<Seq<Card>, Seq<char>>(cards) && (
            playing.opening_spade_three_required ==> first_marked(cards) is Some);
            &&& parsed_cards(text) matches Err(reason) ==> verdict == (PlayVerdict::Refused {
                action: "invalid-cards"@,
                reply: reason,
            })
            &&& read && ranks.len() == 0 ==> (verdict matches PlayVerdict::Refused { action, .. }
                && action == "empty-play"@)
            &&& read && ranks.len() > 0 && taken is Err ==> (verdict matches PlayVerdict::Refused {
                action,
                reply,
            } && action == "missing-card"@ && Err::<Seq<Card>, Seq<char>>(reply) == taken)
            &&& read && ranks.len() > 0 && taken == Ok::<Seq<Card>, Seq<char>>(cards)
                && playing.opening_spade_three_required && first_marked(cards) is None ==> (verdict
                matches PlayVerdict::Refused { action, .. } && action == "spade-three-required"@)
            &&& read && ranks.len() > 0 && held && (forall|q: PlayPattern|
                !#[trigger] forms(ranks, q, playing.variant)) ==> (verdict
                matches PlayVerdict::Refused { action, .. } && action == "invalid-pattern"@)
            &&& read && ranks.len() > 0 && held && forms(ranks, p, playing.variant) && (report_one(
                playing,
                playing.current,
            ) matches Some(card) && p is Single && p->Single_0 != card.rank) ==> (verdict
                matches PlayVerdict::Refused { action, .. } && action
                == "must-play-largest-single"@)
            &&& read && ranks.len() > 0 && held && forms(ranks, p, playing.variant) && p !is Single
                && playing.to_beat() == Some(previous) && !p.spec_beats(previous) ==> (verdict
                matches PlayVerdict::Refused { action, .. } && action == "cannot-beat"@)
            &&& read && ranks.len() > 0 && held && forms(ranks, p, playing.variant) && report_one(
                playing,
                playing.current,
            ) is None && playing.to_beat() == Some(previous) && !p.spec_beats(previous) ==> (verdict
                matches PlayVerdict::Refused { action, .. } && action == "cannot-beat"@)
        }),
{
    if exists|q: PlayPattern| forms(ranks, q, playing.variant) {
        let q = choose|q: PlayPattern| forms(ranks, q, playing.variant);
        if forms(ranks, p, playing.variant) {
            law_one_pattern(ranks, p, q, playing.variant);
        }
    }
}

/// Who leads cannot pass, nor in run-fast who can beat what lies; anybody else may.
pub proof fn law_passing(game: GameModel, playing: PlayingView, player: Seq<char>, now: int)
    requires
        game.state == StateView::Playing(playing),
        found_player(playing.players, player) == Some(playing.current),
    ensures
        ({
            let (after, told) = handled(game, player, LandlordCommand::Pass, now);
            let hand = playing.players[playing.current].hand;
            &&& playing.to_beat() is None ==> after == game && told_all(told, "cannot-pass"@)
            &&& playing.to_beat() matches Some(previous) ==> {
                let can_beat = lowest_beating(hand, previous, playing.variant) is Some;
                &&& playing.variant == CardGameVariant::HunanRunFast && can_beat ==> after == game
                    && told_all(told, "must-play"@)
                &&& playing.variant == CardGameVariant::Landlord || !can_beat ==> after.state
                    == StateView::Playing(
                    after_pass(playing, playing.current, now, ActionOrigin::Manual),
                ) && told_all(told, "passed"@)
            }
        }),
{
}

/// Who asks for their hand is told it in private, though not again before the pause is
/// over; who is not in the game is told that, and nobody else's hand. Nothing but the
/// moment of the answer changes.
pub proof fn law_asking_for_a_hand(
    game: GameModel,
    playing: PlayingView,
    player: Seq<char>,
    now: int,
)
    requires
        game.state == StateView::Playing(playing),
        0 <= now <= u128::MAX,
    ensures
        ({
            let (after, told) = handled(game, player, LandlordCommand::Hand, now);
            &&& told.public_reply is None
            &&& told.private_deliveries.len() == 0
            &&& !told.ended
            &&& found_player(playing.players, player) is None ==> after == game && told.action
                == "not-player"@ && told.private_reply is Some
            &&& found_player(playing.players, player) matches Some(i) ==> {
                let p = playing.players[i];
                let pause = game.config.hand_cooldown_seconds * 1_000_000_000;
                let again = p.last_hand_reply matches Some(last) && last <= now && now - last
                    < pause;
                let long_ago = p.last_hand_reply is None || (p.last_hand_reply matches Some(last)
                    && last <= now && now - last >= pause);
                &&& again ==> after == game && told.action == "hand-cooldown"@
                    && told.private_reply is None
                &&& long_ago ==> {
                    &&& told.action == "hand"@
                    &&& told.private_reply == Some(
                        "当前手牌("@ + decimal(p.hand.len()) + "张): "@ + hand_text(p.hand),
                    )
                    &&& after.state == StateView::Playing(
                        PlayingView {
                            players: playing.players.update(
                                i,
                                PlayerView { last_hand_reply: Some(now as u128), ..p },
                            ),
                            ..playing
                        },
                    )
                }
            }
        }),
{
}

/// Before cards are dealt there is no hand to ask for; while there is bidding there is.
pub proof fn law_when_hands_are_told(game: GameModel, player: Seq<char>, now: int)
    ensures
        game.state is Idle || game.state is Lobby ==> handled(
            game,
            player,
            LandlordCommand::Hand,
            now,
        ).0 == game && handled(game, player, LandlordCommand::Hand, now).1.action == "no-game"@,
        game.state matches StateView::Bidding(bidding) ==> (found_player(bidding.players, player)
            matches Some(i) ==> (bidding.players[i].last_hand_reply is None ==> handled(
            game,
            player,
            LandlordCommand::Hand,
            now,
        ).1.private_reply == Some(
            "当前手牌("@ + decimal(bidding.players[i].hand.len()) + "张): "@ + hand_text(
                bidding.players[i].hand,
            ),
        ))),
{
}

/// Whose hand could not be delivered may ask for it at once.
pub proof fn law_asking_again(game: GameModel, playing: PlayingView, player: Seq<char>, i: int)
    requires
        game.state == StateView::Playing(playing),
        found_player(playing.players, player) == Some(i),
        0 <= i < playing.players.len(),
    ensures
        delivery_retried(game, player).state matches StateView::Playing(after)
            && after.players[i].last_hand_reply is None && after.players[i].hand
            == playing.players[i].hand && after.current == playing.current,
{
}

/// Who opened a room closes it by leaving, and another player only leaves it; who leaves
/// a game that was dealt ends it. Who is not in it leaves nothing.
pub proof fn law_leaving(game: GameModel, player: Seq<char>, now: int)
    requires
        game.state.wf(),
    ensures
        ({
            let (after, told) = handled(game, player, LandlordCommand::Exit, now);
            &&& game.state is Idle ==> after == game && told_all(told, "idle"@)
            &&& game.state matches StateView::Lobby(lobby) ==> {
                &&& found_player(lobby.players, player) is None ==> after == game && told_all(
                    told,
                    "not-player"@,
                )
                &&& found_player(lobby.players, player) == Some(0int) ==> after.state is Idle
                    && told.ended && told.action == "lobby-canceled"@
                &&& found_player(lobby.players, player) == Some(1int) && lobby.players.len() == 2
                    ==> {
                    &&& after.state matches StateView::Lobby(less)
                    &&& less.players == seq![lobby.players[0]]
                    &&& less.variant == lobby.variant
                    &&& less.timer == lobby.timer
                    &&& told_all(told, "left-lobby"@)
                }
            }
            &&& game.state matches StateView::Bidding(bidding) ==> {
                &&& found_player(bidding.players, player) is None ==> after == game && told_all(
                    told,
                    "not-player"@,
                )
                &&& found_player(bidding.players, player) is Some ==> after.state is Idle
                    && told.ended && told.action == "game-aborted"@
            }
            &&& game.state matches StateView::Playing(playing) ==> {
                &&& found_player(playing.players, player) is None ==> after == game && told_all(
                    told,
                    "not-player"@,
                )
                &&& found_player(playing.players, player) is Some ==> after.state is Idle
                    && told.ended && told.action == "game-aborted"@
            }
            &&& after.config == game.config
            &&& after.rng == game.rng
        }),
{
    match game.state {
        StateView::Lobby(lobby) => {
            if lobby.players.len() == 2 {
                assert(lobby.players.remove(1) =~= seq![lobby.players[0]]);
            }
        },
        _ => {},
    }
}

/// To ask how things stand changes nothing, and tells the table in which phase it is and
/// whose turn it is.
pub proof fn law_asking_how_things_stand(game: GameModel, player: Seq<char>, now: int)
    ensures
        ({
            let (after, told) = handled(game, player, LandlordCommand::Status, now);
            &&& after == game
            &&& game.state is Idle ==> told_all(told, "idle"@)
            &&& game.state is Lobby ==> told_all(told, "lobby-status"@)
            &&& game.state is Bidding ==> told_all(told, "bidding-status"@)
            &&& game.state is Playing ==> told_all(told, "playing-status"@)
            &&& game.state matches StateView::Bidding(bidding) ==> {
                let turn = "斗地主抢地主中；轮到:"@ + bidding.players[bidding.current].name
                    + "；当前抢地主:"@;
                &&& bidding.candidate is None ==> told.public_reply == Some(turn + "暂无"@)
                &&& bidding.candidate matches Some(i) ==> told.public_reply == Some(
                    turn + bidding.players[i].name,
                )
            }
        }),
{
}

/// A room that nobody joins in time is closed; before that only its timer goes on. The
/// time is at least one second.
pub proof fn law_room_closes(game: GameModel, lobby: LobbyView, now: int, active: bool)
    requires
        game.state == StateView::Lobby(lobby),
    ensures
        ({
            let (after, told) = ticked(game, now, active);
            let timer = lobby.timer.ticked(now, active);
            let patience: int = if game.config.lobby_timeout_seconds == 0 {
                1_000_000_000
            } else {
                game.config.lobby_timeout_seconds * 1_000_000_000
            };
            &&& timer.elapsed < patience ==> told is None && after.state == StateView::Lobby(
                LobbyView { timer, ..lobby },
            )
            &&& timer.elapsed >= patience ==> after.state is Idle && (told matches Some(outcome)
                && outcome.ended && outcome.action == "lobby-timeout"@)
        }),
{
}

/// Who bids is warned once within the last thirty seconds, and has declined when the time
/// is over. While the clock is not active nothing happens.
pub proof fn law_bidding_clock(
    game: GameModel,
    bidding: BiddingView,
    now: int,
    active: bool,
)
    requires
        game.state == StateView::Bidding(bidding),
        bidding.wf(),
        game.config.turn_timeout_seconds >= 30,
    ensures
        ({
            let (after, told) = ticked(game, now, active);
            let timer = bidding.timer.ticked(now, active);
            let patience = game.config.turn_timeout_seconds * 1_000_000_000;
            let waits = BiddingView { timer, ..bidding };
            &&& !active ==> told is None && after.state == StateView::Bidding(waits)
            &&& active && timer.elapsed < patience - 30_000_000_000 ==> told is None && after.state
                == StateView::Bidding(waits)
            &&& active && patience - 30_000_000_000 <= timer.elapsed < patience
                && bidding.warning_sent ==> told is None && after.state == StateView::Bidding(waits)
            &&& active && patience - 30_000_000_000 <= timer.elapsed < patience
                && !bidding.warning_sent ==> {
                &&& told matches Some(outcome)
                &&& told_all(outcome, "bid-warning"@)
                &&& after.state == StateView::Bidding(BiddingView { warning_sent: true, ..waits })
            }
            &&& active && timer.elapsed >= patience ==> {
                &&& told is Some
                &&& after == bid_made(
                    game.with(StateView::Bidding(waits)),
                    bidding.players[bidding.current].name,
                    false,
                    now,
                ).0
            }
        }),
{
}

/// Who is to play is warned once within the last thirty seconds, and is moved for when the
/// time is over, or at once where moves are made for them. What run-fast forces is done at
/// once. While the clock is not active nothing happens.
pub proof fn law_playing_clock(
    game: GameModel,
    playing: PlayingView,
    now: int,
    active: bool,
)
    requires
        game.state == StateView::Playing(playing),
        playing.wf(),
        game.config.turn_timeout_seconds >= 30,
    ensures
        ({
            let (after, told) = ticked(game, now, active);
            let timer = playing.timer.ticked(now, active);
            let patience = game.config.turn_timeout_seconds * 1_000_000_000;
            let waits = PlayingView { timer, ..playing };
            let trustee = playing.players[playing.current].trustee;
            let moved = after_timeout(waits, game.config.trustee_after_timeouts as int, now);
            &&& !active ==> told is None && after.state == StateView::Playing(waits)
            &&& active && forced_action(waits) is Some ==> told is Some
            &&& active && forced_action(waits) is None ==> {
                &&& !trustee && timer.elapsed < patience - 30_000_000_000 ==> told is None
                    && after.state == StateView::Playing(waits)
                &&& !trustee && patience - 30_000_000_000 <= timer.elapsed < patience
                    && playing.warning_sent ==> told is None && after.state == StateView::Playing(
                    waits,
                )
                &&& !trustee && patience - 30_000_000_000 <= timer.elapsed < patience
                    && !playing.warning_sent ==> {
                    &&& told matches Some(outcome)
                    &&& told_all(outcome, "turn-warning"@)
                    &&& after.state == StateView::Playing(
                        PlayingView { warning_sent: true, ..waits },
                    )
                }
                &&& trustee || timer.elapsed >= patience ==> {
                    &&& told == Some(moved.1)
                    &&& moved.1.ended ==> after.state is Idle
                    &&& !moved.1.ended ==> after.state == StateView::Playing(moved.0)
                }
            }
        }),
{
}

/// A free table waits for nothing.
pub proof fn law_free_table(game: GameModel, now: int, active: bool)
    requires
        game.state is Idle,
    ensures
        ticked(game, now, active).0 == game,
        ticked(game, now, active).1 is None,
{
}

/// Who asks how a room stands hears who is in it and how many are missing.
pub proof fn law_how_a_room_stands(
    game: GameModel,
    lobby: LobbyView,
    player: Seq<char>,
    now: int,
)
    requires
        game.state == StateView::Lobby(lobby),
    ensures
        ({
            let reply = handled(game, player, LandlordCommand::Status, now).1.public_reply;
            let label = lobby.variant.spec_label() + "等待加入: "@;
            &&& lobby.players.len() == 1 ==> reply == Some(
                label + lobby.players[0].name + "，还需"@ + decimal(2) + "人"@,
            )
            &&& lobby.players.len() == 2 ==> reply == Some(
                label + (lobby.players[0].name + "、"@ + lobby.players[1].name) + "，还需"@
                    + decimal(1) + "人"@,
            )
        }),
{
    let names = Seq::new(lobby.players.len(), |i: int| lobby.players[i].name);
    if lobby.players.len() == 2 {
        assert(names.drop_last().len() == 1);
        assert(names.drop_last()[0] == lobby.players[0].name);
        assert(joined(names.drop_last(), "、"@) == lobby.players[0].name);
        assert(joined(names, "、"@) == lobby.players[0].name + "、"@ + lobby.players[1].name);
    }
}

/// Who asks how a game stands hears whose turn it is, how many cards each of the three
/// holds and what was played last and by whom; and in a game with a landlord, who that is.
pub proof fn law_how_a_game_stands(
    game: GameModel,
    playing: PlayingView,
    player: Seq<char>,
    now: int,
)
    requires
        game.state == StateView::Playing(playing),
        playing.players.len() == 3,
    ensures
        ({
            let reply = handled(game, player, LandlordCommand::Status, now).1.public_reply;
            let people = playing.players;
            let left = people[0].name + " "@ + decimal(people[0].hand.len()) + "张"@ + "、"@ + (
            people[1].name + " "@ + decimal(people[1].hand.len()) + "张"@) + "、"@ + (
            people[2].name + " "@ + decimal(people[2].hand.len()) + "张"@);
            let whose = "轮到:"@ + people[playing.current].name + "；剩余:"@ + left
                + "；上一手:"@;
            let before = if playing.variant == CardGameVariant::HunanRunFast {
                "跑得快；"@
            } else {
                "地主:"@ + people[playing.landlord].name + "；"@
            };
            &&& playing.last_play is None ==> reply == Some(before + whose + "无"@)
            &&& playing.last_play matches Some(last) ==> reply == Some(
                before + whose + (people[last.player].name + ":"@ + play_text(last.cards) + "["@
                    + last.pattern.spec_label() + "]"@),
            )
        }),
{
    let people = playing.players;
    let parts = Seq::new(
        people.len(),
        |i: int| people[i].name + " "@ + decimal(people[i].hand.len()) + "张"@,
    );
    assert(parts.drop_last().drop_last().len() == 1);
    assert(joined(parts.drop_last().drop_last(), "、"@) == parts[0]);
    assert(joined(parts.drop_last(), "、"@) == parts[0] + "、"@ + parts[1]);
    assert(joined(parts, "、"@) == parts[0] + "、"@ + parts[1] + "、"@ + parts[2]);
    reveal_strlit("跑得快；轮到:");
    reveal_strlit("跑得快；");
    reveal_strlit("；轮到:");
    reveal_strlit("；");
    reveal_strlit("轮到:");
    assert("跑得快；轮到:"@ =~= "跑得快；"@ + "轮到:"@);
    assert("；轮到:"@ =~= "；"@ + "轮到:"@);
    let told = handled(game, player, LandlordCommand::Status, now).1.public_reply->0;
    let last = match playing.last_play {
        None => "无"@,
        Some(last) => people[last.player].name + ":"@ + play_text(last.cards) + "["@
            + last.pattern.spec_label() + "]"@,
    };
    let rest = people[playing.current].name + "；剩余:"@ + joined(parts, "、"@)
        + "；上一手:"@ + last;
    if playing.variant == CardGameVariant::HunanRunFast {
        assert(told =~= "跑得快；轮到:"@ + rest);
        assert("跑得快；"@ + ("轮到:"@ + people[playing.current].name + "；剩余:"@ + joined(
            parts,
            "、"@,
        ) + "；上一手:"@) + last =~= told);
    } else {
        assert(told =~= "地主:"@ + people[playing.landlord].name + "；轮到:"@ + rest);
        assert(("地主:"@ + people[playing.landlord].name + "；"@) + ("轮到:"@
            + people[playing.current].name + "；剩余:"@ + joined(parts, "、"@) + "；上一手:"@)
            + last =~= told);
    }
}

/// That somebody leaves is told by their name: who opened a room closes it, another only
/// leaves it, and a game under way ends.
pub proof fn law_leaving_is_told(game: GameModel, player: Seq<char>, now: int)
    ensures
        ({
            let reply = handled(game, player, LandlordCommand::Exit, now).1.public_reply;
            &&& game.state matches StateView::Lobby(lobby) ==> {
                let label = lobby.variant.spec_label();
                &&& found_player(lobby.players, player) == Some(0int) ==> reply == Some(
                    lobby.players[0].name + "取消了"@ + label + "房间"@,
                )
                &&& found_player(lobby.players, player) == Some(1int) ==> reply == Some(
                    lobby.players[1].name + "退出了"@ + label + "房间"@,
                )
            }
            &&& game.state matches StateView::Bidding(bidding) ==> (found_player(
                bidding.players,
                player,
            ) matches Some(i) ==> reply == Some(
                bidding.players[i].name + "退出，斗地主牌局已结束"@,
            ))
            &&& game.state matches StateView::Playing(playing) ==> (found_player(
                playing.players,
                player,
            ) matches Some(i) ==> reply == Some(
                playing.players[i].name + "退出，"@ + playing.variant.spec_label()
                    + "牌局已结束"@,
            ))
        }),
{
}

/// All hear who is the landlord and which cards lay apart; the landlord alone hears their
/// hand of twenty cards.
pub proof fn law_landlord_is_told(
    game: GameModel,
    bidding: BiddingView,
    landlord: int,
    now: int,
)
    requires
        bidding.wf(),
        0 <= landlord < 3,
        0 <= now <= u128::MAX,
    ensures
        ({
            let (after, told) = landlord_chosen(game, bidding, landlord, now);
            &&& after.state matches StateView::Playing(playing)
            &&& told.public_reply == Some(
                bidding.players[landlord].name + "成为地主并先出牌；底牌: "@ + play_text(
                    bidding.bottom,
                ),
            )
            &&& told.private_deliveries.len() == 1
            &&& told.private_deliveries[0].message == "地主手牌("@ + decimal(20) + "张): "@
                + hand_text(playing.players[landlord].hand)
        }),
{
    law_landlord_leads(game, bidding, landlord, now);
    law_the_landlord(game, bidding, landlord, now, 0);
}

/// Who cannot beat the last play passes at once. Nothing is said of it where the next move
/// comes by itself too, being forced or made for somebody.
pub proof fn law_silent_passes(game: GameModel, playing: PlayingView, now: int)
    requires
        game.state == StateView::Playing(playing),
        forced_action(PlayingView { timer: playing.timer.ticked(now, true), ..playing })
            is Some,
        forced_action(PlayingView { timer: playing.timer.ticked(now, true), ..playing })->0
            is Pass,
    ensures
        ({
            let running = PlayingView { timer: playing.timer.ticked(now, true), ..playing };
            let passed = after_pass(running, playing.current, now, ActionOrigin::Forced);
            let (after, told) = ticked(game, now, true);
            &&& after.state == StateView::Playing(passed)
            &&& told is Some
            &&& passed.last_play is Some && forced_action(passed) is Some
                ==> told->0.public_reply is None
            &&& passed.last_play is Some && passed.players[passed.current].trustee
                ==> told->0.public_reply is None
            &&& passed.last_play is None || (forced_action(passed) is None
                && !passed.players[passed.current].trustee) ==> told->0.public_reply
                == pass_outcome(
                running,
                playing.current,
                now,
                ActionOrigin::Forced,
            ).public_reply
        }),
{
}

} // verus!
