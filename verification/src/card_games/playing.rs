//! The moves of a game in play: playing cards, passing, and what the clock forces.
use vstd::prelude::*;
use crate::card_games::cards::card_ranks;
use crate::card_games::cards::Card;
use crate::card_games::cards::Rank;
use crate::card_games::cards::ranks_of;
use crate::card_games::hands::first_marked;
use crate::card_games::hands::lemma_first_marked_found;
use crate::card_games::hands::lemma_largest_card;
use crate::card_games::hands::find_largest_card;
use crate::card_games::hands::format_play;
use crate::card_games::hands::format_play_compact;
use crate::card_games::hands::remove_cards;
use crate::card_games::hands::take_cards;
use crate::card_games::hands::take_cards_for_play;
use crate::card_games::hands::{
    compact_play_text, largest_card, lemma_removed, lemma_take_for_play_subset, lemma_taken_subset,
    lemma_taken_succeeds, play_text, removed, take_for_play_result, taken,
};
use crate::card_games::patterns::CardGameVariant;
use crate::card_games::patterns::PlayPattern;
use crate::card_games::search::find_legal_plays;
use crate::card_games::search::find_lowest_play;
use crate::card_games::search::LegalPlays;
use crate::card_games::search::RunFastPlayFilter;
use crate::card_games::search::{
    cannot_beat, law_only_play_unique, lowest_play, no_legal_play, only_legal_play,
};
use crate::card_games::table::ActiveTimer;
use crate::card_games::table::LastPlay;
use crate::card_games::table::Player;
use crate::card_games::table::Playing;
use crate::card_games::table::{
    lemma_same_seats, player_views, same_seats, LastPlayView, PlayerView, PlayingView,
};
use crate::card_games::LandlordOutcome;
use crate::card_games::{ended_outcome, public_outcome, OutcomeView};
use crate::text::cat3;
use crate::text::cat4;
use crate::text::cat5;
use crate::text::cat6;
use crate::text::cat7;
use crate::text::format_u64;
use crate::text::format_usize;
use crate::text::join;
use crate::text::{decimal, joined, string_views};

verus! {

/// Why a move is made: a player asked for it, the time ran out, or it is the
/// only move there is.
#[derive(Clone, Copy, Debug, PartialEq, Eq, Structural)]
pub enum ActionOrigin {
    Manual,
    Timeout,
    Forced,
}

/// One more, up to the largest 32-bit number.
pub open spec fn counted(n: int) -> int {
    if n < u32::MAX {
        n + 1
    } else {
        n
    }
}

/// The player after `player`.
pub open spec fn next_player(player: int) -> int {
    (player + 1) % 3
}

/// A copy of a string.
fn copy(s: &String) -> (r: String)
    ensures
        r@ == s@,
{
    s.clone()
}

// ---------------------------------------------------------------------------
// Turns
// ---------------------------------------------------------------------------
/// The game with the turn passed on to the next player.
pub open spec fn turn_passed_on(game: PlayingView, now: int) -> PlayingView {
    PlayingView {
        current: next_player(game.current),
        timer: ActiveTimer::started(now),
        warning_sent: false,
        ..game
    }
}

/// Passes the turn on to the next player.
pub fn advance_turn(game: &mut Playing, now: u128)
    requires
        old(game).players@.len() == 3,
        old(game).current < 3,
    ensures
        final(game)@ == turn_passed_on(old(game)@, now as int),
{
    game.current = (game.current + 1) % game.players.len();
    game.timer.reset(now);
    game.warning_sent = false;
}

/// What is added to a message where a player's moves are made for them.
pub open spec fn trustee_note(trustee: bool) -> Seq<char> {
    if trustee {
        "并进入托管"@
    } else {
        ""@
    }
}

/// What is added to a message where a player's moves are made for them.
pub fn trustee_suffix(game: &Playing, player: usize) -> (r: &'static str)
    requires
        player < game.players@.len(),
    ensures
        r@ == trustee_note(game@.players[player as int].trustee),
{
    if game.players[player].trustee {
        "并进入托管"
    } else {
        ""
    }
}

// ---------------------------------------------------------------------------
// Playing cards
// ---------------------------------------------------------------------------
/// The player after playing `cards`.
pub open spec fn player_after(p: PlayerView, cards: Seq<Card>, origin: ActionOrigin) -> PlayerView {
    PlayerView {
        hand: removed(p.hand, cards),
        timeouts: if origin == ActionOrigin::Manual {
            0
        } else {
            p.timeouts
        },
        ..p
    }
}

/// The game after `player` has played `cards`. Where the hand is empty then,
/// the game is over and the turn stays.
pub open spec fn after_play(
    game: PlayingView,
    player: int,
    cards: Seq<Card>,
    pattern: PlayPattern,
    now: int,
    origin: ActionOrigin,
) -> PlayingView {
    let p = player_after(game.players[player], cards, origin);
    let counted_game = PlayingView {
        players: game.players.update(player, p),
        opening_spade_three_required: false,
        turns: counted(game.turns),
        bombs: if pattern.bomb() {
            counted(game.bombs)
        } else {
            game.bombs
        },
        ..game
    };
    if p.hand.len() == 0 {
        counted_game
    } else {
        turn_passed_on(
            PlayingView {
                last_play: Some(LastPlayView { player, cards, pattern }),
                consecutive_passes: 0,
                ..counted_game
            },
            now,
        )
    }
}

/// The side a player is on.
pub open spec fn role_text(player: int, landlord: int) -> Seq<char> {
    if player == landlord {
        "地主"@
    } else {
        "农民"@
    }
}

/// The verb for a play in run-fast.
pub open spec fn run_fast_verb(origin: ActionOrigin, trustee: bool) -> Seq<char> {
    match origin {
        ActionOrigin::Manual => "出"@,
        ActionOrigin::Timeout => if trustee {
            "托管出"@
        } else {
            "超时出"@
        },
        ActionOrigin::Forced => "自动出"@,
    }
}

/// The verb for a play in fight-the-landlord.
pub open spec fn landlord_verb(origin: ActionOrigin, trustee: bool) -> Seq<char> {
    match origin {
        ActionOrigin::Manual => "出牌"@,
        _ => "超时"@ + trustee_note(trustee) + "，自动出"@,
    }
}

/// How many cards each player has left.
pub open spec fn remaining_text(players: Seq<PlayerView>) -> Seq<char> {
    joined(
        Seq::new(
            players.len(),
            |i: int| players[i].name + " "@ + decimal(players[i].hand.len()) + "张"@,
        ),
        "、"@,
    )
}

/// The message after a play in run-fast; `game` is the game after it.
pub open spec fn run_fast_play_text(
    game: PlayingView,
    player: int,
    cards: Seq<Card>,
    pattern: PlayPattern,
    origin: ActionOrigin,
) -> Seq<char> {
    let p = game.players[player];
    let start = p.name + run_fast_verb(origin, p.trustee) + ":"@ + compact_play_text(cards) + "["@
        + pattern.spec_label() + "]"@;
    if p.hand.len() == 0 {
        let first = if player == 0 {
            1int
        } else {
            0int
        };
        let second = if player == 2 {
            1int
        } else {
            2int
        };
        start + "，获胜；其余:"@ + decimal(game.players[first].hand.len()) + "张/"@ + decimal(
            game.players[second].hand.len(),
        ) + "张"@
    } else {
        start + " 余"@ + decimal(p.hand.len()) + "，轮到"@ + game.players[game.current].name
    }
}

/// The message after a play in fight-the-landlord; `game` is the game after it.
pub open spec fn landlord_play_text(
    game: PlayingView,
    player: int,
    cards: Seq<Card>,
    pattern: PlayPattern,
    origin: ActionOrigin,
) -> Seq<char> {
    let p = game.players[player];
    let start = p.name + "("@ + role_text(player, game.landlord) + ")"@;
    if p.hand.len() == 0 {
        start + "出完"@ + play_text(cards) + "["@ + pattern.spec_label() + "]，"@ + (if player
            == game.landlord {
            "地主方"@
        } else {
            "农民方"@
        }) + "获胜。剩余:"@ + remaining_text(game.players) + "；炸弹"@ + decimal(game.bombs as nat)
            + "次；共"@ + decimal(game.turns as nat) + "手"@
    } else {
        start + landlord_verb(origin, p.trustee) + " "@ + play_text(cards) + "["@
            + pattern.spec_label() + "]，剩余"@ + decimal(p.hand.len()) + "张；轮到"@
            + game.players[game.current].name
    }
}

/// What is announced after a play; `game` is the game after it.
pub open spec fn play_outcome(
    game: PlayingView,
    player: int,
    cards: Seq<Card>,
    pattern: PlayPattern,
    origin: ActionOrigin,
) -> OutcomeView {
    let text = if game.variant == CardGameVariant::HunanRunFast {
        run_fast_play_text(game, player, cards, pattern, origin)
    } else {
        landlord_play_text(game, player, cards, pattern, origin)
    };
    if game.players[player].hand.len() == 0 {
        ended_outcome("won"@, text)
    } else {
        public_outcome(
            match origin {
                ActionOrigin::Manual => "played"@,
                ActionOrigin::Timeout => "auto-play"@,
                ActionOrigin::Forced => "forced-play"@,
            },
            text,
        )
    }
}

fn run_fast_verb_of(origin: ActionOrigin, trustee: bool) -> (r: &'static str)
    ensures
        r@ == run_fast_verb(origin, trustee),
{
    match origin {
        ActionOrigin::Manual => "出",
        ActionOrigin::Timeout => if trustee {
            "托管出"
        } else {
            "超时出"
        },
        ActionOrigin::Forced => "自动出",
    }
}

/// How many cards each player has left, written out.
pub fn format_remaining(players: &Vec<Player>) -> (r: String)
    ensures
        r@ == remaining_text(player_views(players@)),
{
    let mut parts: Vec<String> = Vec::new();
    let ghost views = player_views(players@);
    let mut i: usize = 0;
    while i < players.len()
        invariant
            i <= players@.len(),
            views == player_views(players@),
            parts@.len() == i,
            forall|j: int|
                0 <= j < i ==> (#[trigger] parts@[j])@ == views[j].name + " "@ + decimal(
                    views[j].hand.len(),
                ) + "张"@,
        decreases players@.len() - i,
    {
        let n = format_usize(players[i].hand.len());
        parts.push(cat4(players[i].name.as_str(), " ", n.as_str(), "张"));
        i = i + 1;
    }
    proof {
        assert(string_views(parts@) =~= Seq::new(
            views.len(),
            |i: int| views[i].name + " "@ + decimal(views[i].hand.len()) + "张"@,
        ));
    }
    join(&parts, "、")
}

fn describe_run_fast_play(
    game: &Playing,
    player: usize,
    cards: &Vec<Card>,
    pattern: &PlayPattern,
    origin: ActionOrigin,
) -> (r: String)
    requires
        game.players@.len() == 3,
        player < 3,
        game.current < 3,
    ensures
        r@ == run_fast_play_text(game@, player as int, cards@, *pattern, origin),
{
    let verb = run_fast_verb_of(origin, game.players[player].trustee);
    let played = format_play_compact(cards);
    let start = cat7(
        game.players[player].name.as_str(),
        verb,
        ":",
        played.as_str(),
        "[",
        pattern.label(),
        "]",
    );
    if game.players[player].hand.len() == 0 {
        let first: usize = if player == 0 {
            1
        } else {
            0
        };
        let second: usize = if player == 2 {
            1
        } else {
            2
        };
        let a = format_usize(game.players[first].hand.len());
        let b = format_usize(game.players[second].hand.len());
        cat6(start.as_str(), "，获胜；其余:", a.as_str(), "张/", b.as_str(), "张")
    } else {
        let left = format_usize(game.players[player].hand.len());
        cat5(
            start.as_str(),
            " 余",
            left.as_str(),
            "，轮到",
            game.players[game.current].name.as_str(),
        )
    }
}

fn describe_landlord_play(
    game: &Playing,
    player: usize,
    cards: &Vec<Card>,
    pattern: &PlayPattern,
    origin: ActionOrigin,
) -> (r: String)
    requires
        game.players@.len() == 3,
        player < 3,
        game.current < 3,
    ensures
        r@ == landlord_play_text(game@, player as int, cards@, *pattern, origin),
{
    let role = if player == game.landlord {
        "地主"
    } else {
        "农民"
    };
    let played = format_play(cards);
    let start = cat4(game.players[player].name.as_str(), "(", role, ")");
    if game.players[player].hand.len() == 0 {
        let winner = if player == game.landlord {
            "地主方"
        } else {
            "农民方"
        };
        let summary = format_remaining(&game.players);
        let bombs = format_u64(game.bombs as u64);
        let turns = format_u64(game.turns as u64);
        let middle = cat7(
            start.as_str(),
            "出完",
            played.as_str(),
            "[",
            pattern.label(),
            "]，",
            winner,
        );
        cat6(
            cat3(middle.as_str(), "获胜。剩余:", summary.as_str()).as_str(),
            "；炸弹",
            bombs.as_str(),
            "次；共",
            turns.as_str(),
            "手",
        )
    } else {
        let verb: String = match origin {
            ActionOrigin::Manual => "出牌".to_owned(),
            _ => cat3("超时", trustee_suffix(game, player), "，自动出"),
        };
        let left = format_usize(game.players[player].hand.len());
        let middle = cat7(
            start.as_str(),
            verb.as_str(),
            " ",
            played.as_str(),
            "[",
            pattern.label(),
            "]，剩余",
        );
        cat4(
            middle.as_str(),
            left.as_str(),
            "张；轮到",
            game.players[game.current].name.as_str(),
        )
    }
}


/// Plays `cards` for the player whose turn it is.
pub fn play_cards(
    game: &mut Playing,
    player: usize,
    cards: Vec<Card>,
    pattern: PlayPattern,
    now: u128,
    origin: ActionOrigin,
) -> (r: LandlordOutcome)
    requires
        old(game)@.wf(),
        player == old(game).current,
        cards@.to_multiset().subset_of(old(game)@.players[player as int].hand.to_multiset()),
        origin == ActionOrigin::Forced ==> old(game).variant == CardGameVariant::HunanRunFast,
    ensures
        final(game)@ == after_play(
            old(game)@,
            player as int,
            cards@,
            pattern,
            now as int,
            origin,
        ),
        r@ == play_outcome(final(game)@, player as int, cards@, pattern, origin),
        final(game)@.players[player as int].hand.len() > 0 ==> final(game)@.wf(),
        r.ended == (final(game)@.players[player as int].hand.len() == 0),
{
    let ghost start = game@;
    proof {
        assert(start.players[player as int] == game.players@[player as int]@);
        lemma_removed(start.players[player as int].hand, cards@);
    }
    game.opening_spade_three_required = false;
    if origin == ActionOrigin::Manual {
        game.players[player].timeouts = 0;
    }
    remove_cards(&mut game.players[player].hand, &cards);
    game.turns = game.turns.saturating_add(1);
    if pattern.is_bomb() {
        game.bombs = game.bombs.saturating_add(1);
    }
    proof {
        assert(game@.players =~= start.players.update(
            player as int,
            player_after(start.players[player as int], cards@, origin),
        ));
    }
    let finished: bool = game.players[player].hand.len() == 0;
    if finished {
        let text = if game.variant == CardGameVariant::HunanRunFast {
            describe_run_fast_play(game, player, &cards, &pattern, origin)
        } else {
            describe_landlord_play(game, player, &cards, &pattern, origin)
        };
        return LandlordOutcome::ended("won", text);
    }
    game.consecutive_passes = 0;
    advance_turn(game, now);
    let text = if game.variant == CardGameVariant::HunanRunFast {
        describe_run_fast_play(game, player, &cards, &pattern, origin)
    } else {
        describe_landlord_play(game, player, &cards, &pattern, origin)
    };
    game.last_play = Some(LastPlay { player, cards, pattern });
    let action = match origin {
        ActionOrigin::Manual => "played",
        ActionOrigin::Timeout => "auto-play",
        ActionOrigin::Forced => "forced-play",
    };
    proof {
        let p = player_after(start.players[player as int], cards@, origin);
        assert forall|i: int| 0 <= i < 3 implies (#[trigger] game@.players[i]).hand.len() > 0 by {
            if i != player {
                assert(game@.players[i] == start.players[i]);
            }
        }
        assert(same_seats(start.players, game@.players));
        lemma_same_seats(start.players, game@.players);
    }
    LandlordOutcome::public(action, text)
}

// ---------------------------------------------------------------------------
// Passing
// ---------------------------------------------------------------------------
/// The game after the player to move has passed: the second pass in a row
/// gives the lead back to the player who played last.
pub open spec fn after_pass(
    game: PlayingView,
    player: int,
    now: int,
    origin: ActionOrigin,
) -> PlayingView {
    let p = game.players[player];
    let counted_game = PlayingView {
        players: if origin == ActionOrigin::Manual {
            game.players.update(player, PlayerView { timeouts: 0, ..p })
        } else {
            game.players
        },
        turns: counted(game.turns),
        ..game
    };
    if game.consecutive_passes >= 1 {
        PlayingView {
            current: game.last_play->0.player,
            last_play: None,
            consecutive_passes: 0,
            timer: ActiveTimer::started(now),
            warning_sent: false,
            ..counted_game
        }
    } else {
        turn_passed_on(
            PlayingView { consecutive_passes: game.consecutive_passes + 1, ..counted_game },
            now,
        )
    }
}

/// The message after a pass: `next` is to play, as the new leader if the trick
/// is over.
pub open spec fn pass_text(
    variant: CardGameVariant,
    origin: ActionOrigin,
    new_trick: bool,
    name: Seq<char>,
    next: Seq<char>,
) -> Seq<char> {
    if variant == CardGameVariant::HunanRunFast {
        match origin {
            ActionOrigin::Manual => if new_trick {
                name + "过，"@ + next + "领出"@
            } else {
                name + "过，轮到"@ + next
            },
            ActionOrigin::Timeout => if new_trick {
                name + "超时过，"@ + next + "领出"@
            } else {
                name + "超时过，轮到"@ + next
            },
            ActionOrigin::Forced => if new_trick {
                "双方无牌可压，"@ + next + "领出"@
            } else {
                name + "无牌可压，轮到"@ + next
            },
        }
    } else if new_trick {
        name + "过牌，重新由"@ + next + "领出"@
    } else {
        name + "过牌，轮到"@ + next
    }
}

/// What is announced after a pass; `game` is the game before it.
pub open spec fn pass_outcome(
    game: PlayingView,
    player: int,
    now: int,
    origin: ActionOrigin,
) -> OutcomeView {
    let after = after_pass(game, player, now, origin);
    public_outcome(
        match origin {
            ActionOrigin::Manual => "passed"@,
            ActionOrigin::Timeout => "auto-pass"@,
            ActionOrigin::Forced => "forced-pass"@,
        },
        pass_text(
            game.variant,
            origin,
            game.consecutive_passes >= 1,
            game.players[player].name,
            after.players[after.current].name,
        ),
    )
}

fn describe_pass(
    variant: CardGameVariant,
    origin: ActionOrigin,
    new_trick: bool,
    name: &str,
    next: &str,
) -> (r: String)
    ensures
        r@ == pass_text(variant, origin, new_trick, name@, next@),
{
    if variant == CardGameVariant::HunanRunFast {
        match origin {
            ActionOrigin::Manual => if new_trick {
                cat4(name, "过，", next, "领出")
            } else {
                cat3(name, "过，轮到", next)
            },
            ActionOrigin::Timeout => if new_trick {
                cat4(name, "超时过，", next, "领出")
            } else {
                cat3(name, "超时过，轮到", next)
            },
            ActionOrigin::Forced => if new_trick {
                cat3("双方无牌可压，", next, "领出")
            } else {
                cat3(name, "无牌可压，轮到", next)
            },
        }
    } else if new_trick {
        cat4(name, "过牌，重新由", next, "领出")
    } else {
        cat3(name, "过牌，轮到", next)
    }
}

/// Passes for the player whose turn it is and who has a play to answer.
pub fn pass_playing(game: &mut Playing, player: usize, now: u128, origin: ActionOrigin) -> (r:
    LandlordOutcome)
    requires
        old(game)@.wf(),
        player == old(game).current,
        old(game)@.to_beat() is Some,
    ensures
        final(game)@ == after_pass(old(game)@, player as int, now as int, origin),
        final(game)@.wf(),
        r@ == pass_outcome(old(game)@, player as int, now as int, origin),
{
    let ghost start = game@;
    let leader: usize = match &game.last_play {
        Some(last) => last.player,
        None => 0,
    };
    proof {
        assert(start.last_play->0.player == leader);
        assert(start.players[player as int] == game.players@[player as int]@);
    }
    if origin == ActionOrigin::Manual {
        game.players[player].timeouts = 0;
    }
    proof {
        assert(game@.players =~= if origin == ActionOrigin::Manual {
            start.players.update(
                player as int,
                PlayerView { timeouts: 0, ..start.players[player as int] },
            )
        } else {
            start.players
        });
    }
    game.turns = game.turns.saturating_add(1);
    let new_trick: bool = game.consecutive_passes >= 1;
    if new_trick {
        game.current = leader;
        game.last_play = None;
        game.consecutive_passes = 0;
        game.timer.reset(now);
        game.warning_sent = false;
    } else {
        game.consecutive_passes = game.consecutive_passes + 1;
        advance_turn(game, now);
    }
    let text = describe_pass(
        game.variant,
        origin,
        new_trick,
        game.players[player].name.as_str(),
        game.players[game.current].name.as_str(),
    );
    let action = match origin {
        ActionOrigin::Manual => "passed",
        ActionOrigin::Timeout => "auto-pass",
        ActionOrigin::Forced => "forced-pass",
    };
    proof {
        assert forall|i: int| 0 <= i < 3 implies (#[trigger] game@.players[i]).hand.len() > 0 by {
            assert(start.players[i].hand.len() > 0);
        }
        assert(game@ == after_pass(start, player as int, now as int, origin));
        assert(same_seats(start.players, game@.players));
        lemma_same_seats(start.players, game@.players);
        assert(game@.players[player as int].name == start.players[player as int].name);
        assert(game@.players[game.current as int] == game.players@[game.current as int]@);
    }
    LandlordOutcome::public(action, text)
}


// ---------------------------------------------------------------------------
// What the rules of run-fast force
// ---------------------------------------------------------------------------
/// The largest card of a player in run-fast whose next player has one card
/// left: the only single that player may play.
pub open spec fn report_one(game: PlayingView, player: int) -> Option<Card> {
    if game.variant == CardGameVariant::HunanRunFast && game.players[next_player(
        player,
    )].hand.len() == 1 && game.players[player].hand.len() > 0 {
        Some(largest_card(game.players[player].hand))
    } else {
        None
    }
}

/// The only single that `player` may play, where the next player has one card left.
pub fn report_one_largest_single(game: &Playing, player: usize) -> (r: Option<Card>)
    requires
        game.players@.len() == 3,
        player < 3,
    ensures
        r == report_one(game@, player as int),
{
    let next: usize = (player + 1) % game.players.len();
    if game.variant == CardGameVariant::HunanRunFast && game.players[next].hand.len() == 1
        && game.players[player].hand.len() > 0 {
        Some(find_largest_card(&game.players[player].hand))
    } else {
        None
    }
}

/// The lowest cards of a hand that beat `previous`.
pub open spec fn lowest_beating(
    hand: Seq<Card>,
    previous: PlayPattern,
    variant: CardGameVariant,
) -> Option<(Seq<Card>, PlayPattern)> {
    match lowest_play(ranks_of(hand), previous, variant) {
        Some((ranks, pattern)) => Some((taken(hand.to_multiset(), ranks)->Ok_0, pattern)),
        None => None,
    }
}

/// The lowest cards of a hand that beat `previous` in fight-the-landlord.
pub fn lowest_beating_play(hand: &Vec<Card>, previous: &PlayPattern) -> (r: Option<
    (Vec<Card>, PlayPattern),
>)
    ensures
        match r {
            Some((cards, pattern)) => lowest_beating(hand@, *previous, CardGameVariant::Landlord)
                == Some((cards@, pattern)),
            None => lowest_beating(hand@, *previous, CardGameVariant::Landlord) is None,
        },
{
    lowest_beating_play_for_variant(hand, previous, CardGameVariant::Landlord)
}

/// The lowest cards of a hand that beat `previous` in the given game.
pub fn lowest_beating_play_for_variant(
    hand: &Vec<Card>,
    previous: &PlayPattern,
    variant: CardGameVariant,
) -> (r: Option<(Vec<Card>, PlayPattern)>)
    ensures
        match r {
            Some((cards, pattern)) => {
                &&& lowest_beating(hand@, *previous, variant) == Some((cards@, pattern))
                &&& cards@.len() > 0
                &&& cards@.to_multiset().subset_of(hand@.to_multiset())
                &&& pattern.spec_beats(*previous)
            },
            None => {
                &&& lowest_beating(hand@, *previous, variant) is None
                &&& cannot_beat(ranks_of(hand@), *previous, variant)
            },
        },
{
    let ranks = card_ranks(hand);
    let (chosen, pattern) = match find_lowest_play(&ranks, previous, variant) {
        Some(play) => play,
        None => {
            return None;
        },
    };
    proof {
        lemma_taken_succeeds(hand@, chosen@);
        lemma_taken_subset(hand@.to_multiset(), chosen@);
    }
    match take_cards(hand, &chosen) {
        Ok(cards) => {
            proof {
                assert(ranks_of(cards@).len() == cards@.len());
            }
            Some((cards, pattern))
        },
        Err(_) => None,
    }
}

/// A move that run-fast leaves no choice about.
pub enum ForcedRunFastAction {
    Pass,
    Play { cards: Vec<Card>, pattern: PlayPattern },
}

/// A forced move, as plain values.
pub enum ForcedView {
    Pass,
    Play { cards: Seq<Card>, pattern: PlayPattern },
}

impl View for ForcedRunFastAction {
    type V = ForcedView;

    open spec fn view(&self) -> ForcedView {
        match self {
            ForcedRunFastAction::Pass => ForcedView::Pass,
            ForcedRunFastAction::Play { cards, pattern } => ForcedView::Play {
                cards: cards@,
                pattern: *pattern,
            },
        }
    }
}

/// What the play of the player to move has to heed.
pub open spec fn play_filter(game: PlayingView) -> RunFastPlayFilter {
    RunFastPlayFilter {
        previous: game.to_beat(),
        requires_spade_three: game.opening_spade_three_required,
        required_single: match report_one(game, game.current) {
            Some(card) => Some(card.rank),
            None => None,
        },
    }
}

/// The move that run-fast forces on the player to move: to pass where nothing
/// beats the last play, or to make the only legal play.
pub open spec fn forced_action(game: PlayingView) -> Option<ForcedView> {
    let hand = game.players[game.current].hand;
    let filter = play_filter(game);
    if game.variant != CardGameVariant::HunanRunFast {
        None
    } else if no_legal_play(ranks_of(hand), filter) {
        if filter.previous is Some {
            Some(ForcedView::Pass)
        } else {
            None
        }
    } else if exists|t: Seq<Rank>, q: PlayPattern|
        only_legal_play(t, q, ranks_of(hand), filter) {
        let (t, q) = choose|t: Seq<Rank>, q: PlayPattern|
            only_legal_play(t, q, ranks_of(hand), filter);
        Some(
            ForcedView::Play {
                cards: take_for_play_result(hand, t, filter.requires_spade_three)->Ok_0,
                pattern: q,
            },
        )
    } else {
        None
    }
}

/// The move that run-fast forces on the player to move.
pub fn forced_run_fast_action(game: &Playing) -> (r: Option<ForcedRunFastAction>)
    requires
        game@.wf(),
    ensures
        match r {
            Some(action) => forced_action(game@) == Some(action@),
            None => forced_action(game@) is None,
        },
        r is Some ==> game.variant == CardGameVariant::HunanRunFast,
        r matches Some(ForcedRunFastAction::Pass) ==> game@.to_beat() is Some,
        r matches Some(ForcedRunFastAction::Play { cards, .. }) ==> cards@.len() > 0
            && cards@.to_multiset().subset_of(
            game@.players[game.current as int].hand.to_multiset(),
        ),
{
    if game.variant != CardGameVariant::HunanRunFast {
        return None;
    }
    let current: usize = game.current;
    let previous: Option<PlayPattern> = match &game.last_play {
        Some(last) => if last.player != current {
            Some(last.pattern)
        } else {
            None
        },
        None => None,
    };
    let required_single: Option<Rank> = match report_one_largest_single(game, current) {
        Some(card) => Some(card.rank),
        None => None,
    };
    let filter = RunFastPlayFilter {
        previous,
        requires_spade_three: game.opening_spade_three_required,
        required_single,
    };
    proof {
        assert(filter == play_filter(game@));
    }
    let hand: &Vec<Card> = &game.players[current].hand;
    let ranks = card_ranks(hand);
    match find_legal_plays(&ranks, &filter) {
        LegalPlays::Zero => if previous.is_some() {
            Some(ForcedRunFastAction::Pass)
        } else {
            None
        },
        LegalPlays::One(chosen, pattern) => {
            proof {
                lemma_taken_succeeds(hand@, chosen@);
                let (t, q) = choose|t: Seq<Rank>, q: PlayPattern|
                    only_legal_play(t, q, ranks_of(hand@), filter);
                law_only_play_unique(chosen@, pattern, t, q, ranks_of(hand@), filter);
                lemma_take_for_play_subset(hand@, chosen@, filter.requires_spade_three);
            }
            match take_cards_for_play(hand, &chosen, filter.requires_spade_three) {
                Ok(cards) => Some(ForcedRunFastAction::Play { cards, pattern }),
                Err(_) => None,
            }
        },
        LegalPlays::Several => None,
    }
}

// ---------------------------------------------------------------------------
// When the time runs out
// ---------------------------------------------------------------------------
/// The game with one more timeout of the player to move, whose moves are made
/// for them from `trustee_after` timeouts on.
pub open spec fn timeout_counted(game: PlayingView, trustee_after: int) -> PlayingView {
    let p = game.players[game.current];
    let timeouts = counted(p.timeouts);
    let limit = if trustee_after < 1 {
        1
    } else {
        trustee_after
    };
    PlayingView {
        players: game.players.update(
            game.current,
            PlayerView { timeouts, trustee: p.trustee || timeouts >= limit, ..p },
        ),
        ..game
    }
}

/// What is done for the player to move when the time runs out.
pub enum TimeoutMove {
    Play { cards: Seq<Card>, pattern: PlayPattern },
    Pass { text: Seq<char> },
}

/// The card that is led when the time runs out.
pub open spec fn timeout_lead(game: PlayingView) -> Card {
    let hand = game.players[game.current].hand;
    if game.opening_spade_three_required {
        first_marked(hand)->0
    } else {
        match report_one(game, game.current) {
            Some(card) => card,
            None => hand[0],
        }
    }
}

/// The move that is made when the time runs out: the lead of a single card;
/// in run-fast, or for a player whose moves are made for them, the lowest play
/// that beats the last one; else a pass. `game` counts the timeout already.
pub open spec fn timeout_move(game: PlayingView, now: int) -> TimeoutMove {
    let p = game.players[game.current];
    let after = after_pass(game, game.current, now, ActionOrigin::Timeout);
    let next = after.players[after.current].name;
    match game.to_beat() {
        None => {
            let card = timeout_lead(game);
            TimeoutMove::Play { cards: seq![card], pattern: PlayPattern::Single(card.rank) }
        },
        Some(previous) => if game.variant == CardGameVariant::HunanRunFast {
            match lowest_beating(p.hand, previous, game.variant) {
                Some((cards, pattern)) => match report_one(game, game.current) {
                    Some(card) if pattern is Single && PlayPattern::Single(card.rank).spec_beats(
                        previous,
                    ) => TimeoutMove::Play {
                        cards: seq![card],
                        pattern: PlayPattern::Single(card.rank),
                    },
                    _ => TimeoutMove::Play { cards, pattern },
                },
                None => TimeoutMove::Pass {
                    text: p.name + "超时且无牌可压，自动过牌；轮到"@ + next,
                },
            }
        } else if !p.trustee {
            TimeoutMove::Pass { text: p.name + "超时，自动过牌；轮到"@ + next }
        } else {
            match lowest_beating(p.hand, previous, game.variant) {
                Some((cards, pattern)) => TimeoutMove::Play { cards, pattern },
                None => TimeoutMove::Pass {
                    text: p.name + "超时"@ + trustee_note(p.trustee) + "，自动过牌；轮到"@ + next,
                },
            }
        },
    }
}

/// The game after the time has run out, and what is announced.
pub open spec fn after_timeout(game: PlayingView, trustee_after: int, now: int) -> (
    PlayingView,
    OutcomeView,
) {
    let counted_game = timeout_counted(game, trustee_after);
    match timeout_move(counted_game, now) {
        TimeoutMove::Play { cards, pattern } => {
            let after = after_play(
                counted_game,
                game.current,
                cards,
                pattern,
                now,
                ActionOrigin::Timeout,
            );
            (after, play_outcome(after, game.current, cards, pattern, ActionOrigin::Timeout))
        },
        TimeoutMove::Pass { text } => (
            after_pass(counted_game, game.current, now, ActionOrigin::Timeout),
            public_outcome("auto-pass"@, text),
        ),
    }
}

/// A card that stands in a hand can be played alone.
proof fn lemma_single_card(hand: Seq<Card>, card: Card)
    requires
        hand.contains(card),
    ensures
        seq![card].to_multiset().subset_of(hand.to_multiset()),
{
    broadcast use vstd::seq_lib::group_to_multiset_ensures;
    broadcast use vstd::multiset::group_multiset_axioms;

    assert(seq![card] =~= Seq::<Card>::empty().push(card));
    assert forall|c: Card| seq![card].to_multiset().count(c) <= hand.to_multiset().count(c) by {
        if c == card {
            assert(hand.to_multiset().count(card) > 0);
        }
    }
}

/// Makes the move for the player whose time has run out.
pub fn timeout_action(game: &mut Playing, trustee_after: u32, now: u128) -> (r: LandlordOutcome)
    requires
        old(game)@.wf(),
    ensures
        (final(game)@, r@) == after_timeout(old(game)@, trustee_after as int, now as int),
        !r.ended ==> final(game)@.wf(),
{
    let ghost start = game@;
    let current: usize = game.current;
    let limit: u32 = if trustee_after < 1 {
        1
    } else {
        trustee_after
    };
    proof {
        assert(start.players[current as int] == game.players@[current as int]@);
    }
    let timeouts: u32 = game.players[current].timeouts.saturating_add(1);
    game.players[current].timeouts = timeouts;
    if timeouts >= limit {
        game.players[current].trustee = true;
    }
    let ghost counted_game = timeout_counted(start, trustee_after as int);
    proof {
        assert(game@.players =~= counted_game.players);
        assert(game@ == counted_game);
        assert forall|i: int| 0 <= i < 3 implies (#[trigger] game@.players[i]).hand.len() > 0 by {
            assert(start.players[i].hand.len() > 0);
        }
        assert(same_seats(start.players, game@.players));
        lemma_same_seats(start.players, game@.players);
        assert(game@.wf());
        assert(game@.players[current as int] == game.players@[current as int]@);
    }
    let previous: Option<PlayPattern> = match &game.last_play {
        Some(last) => if last.player != current {
            Some(last.pattern)
        } else {
            None
        },
        None => None,
    };
    proof {
        assert(previous == game@.to_beat());
    }
    match previous {
        None => {
            let card: Card = choose_lead(game);
            let cards: Vec<Card> = vec![card];
            proof {
                assert(cards@ =~= seq![card]);
                lemma_single_card(game@.players[current as int].hand, card);
            }
            play_cards(
                game,
                current,
                cards,
                PlayPattern::Single(card.rank),
                now,
                ActionOrigin::Timeout,
            )
        },
        Some(previous) => {
            let run_fast: bool = game.variant == CardGameVariant::HunanRunFast;
            if !run_fast && !game.players[current].trustee {
                let name = copy(&game.players[current].name);
                pass_playing(game, current, now, ActionOrigin::Timeout);
                proof {
                    assert(game@.players[game.current as int] == game.players@[game.current as int]@);
                }
                return LandlordOutcome::public(
                    "auto-pass",
                    cat3(
                        name.as_str(),
                        "超时，自动过牌；轮到",
                        game.players[game.current].name.as_str(),
                    ),
                );
            }
            match lowest_beating_play_for_variant(
                &game.players[current].hand,
                &previous,
                game.variant,
            ) {
                Some((cards, pattern)) => {
                    let (cards, pattern) = if run_fast {
                        answer_with_largest(game, cards, pattern, &previous)
                    } else {
                        (cards, pattern)
                    };
                    play_cards(game, current, cards, pattern, now, ActionOrigin::Timeout)
                },
                None => {
                    let name = copy(&game.players[current].name);
                    let suffix = trustee_suffix(game, current);
                    pass_playing(game, current, now, ActionOrigin::Timeout);
                    proof {
                        assert(game@.players[game.current as int]
                            == game.players@[game.current as int]@);
                    }
                    let next = game.players[game.current].name.as_str();
                    let text = if run_fast {
                        cat3(name.as_str(), "超时且无牌可压，自动过牌；轮到", next)
                    } else {
                        cat5(name.as_str(), "超时", suffix, "，自动过牌；轮到", next)
                    };
                    LandlordOutcome::public("auto-pass", text)
                },
            }
        },
    }
}

/// The card that is led when the time runs out.
fn choose_lead(game: &Playing) -> (r: Card)
    requires
        game@.wf(),
    ensures
        r == timeout_lead(game@),
        game@.players[game.current as int].hand.contains(r),
{
    let ghost hand = game@.players[game.current as int].hand;
    proof {
        assert(game@.players[game.current as int] == game.players@[game.current as int]@);
        assert(game@.players[game.current as int].hand.len() > 0);
        lemma_first_marked_found(hand);
        lemma_largest_card(hand);
        assert(hand.contains(hand[0]));
    }
    if game.opening_spade_three_required {
        if let Some(card) = crate::card_games::hands::find_spade_three(
            &game.players[game.current].hand,
        ) {
            return card;
        }
    }
    match report_one_largest_single(game, game.current) {
        Some(card) => card,
        None => game.players[game.current].hand[0],
    }
}

/// The play that answers `previous`: instead of another single, the single
/// that must be played while the next player has one card left.
fn answer_with_largest(
    game: &Playing,
    cards: Vec<Card>,
    pattern: PlayPattern,
    previous: &PlayPattern,
) -> (r: (Vec<Card>, PlayPattern))
    requires
        game@.wf(),
        cards@.len() > 0,
        cards@.to_multiset().subset_of(game@.players[game.current as int].hand.to_multiset()),
    ensures
        r.0@.len() > 0,
        r.0@.to_multiset().subset_of(game@.players[game.current as int].hand.to_multiset()),
        (r.0@, r.1) == (match report_one(game@, game.current as int) {
            Some(card) if pattern is Single && PlayPattern::Single(card.rank).spec_beats(
                *previous,
            ) => (seq![card], PlayPattern::Single(card.rank)),
            _ => (cards@, pattern),
        }),
{
    if let PlayPattern::Single(_) = pattern {
        if let Some(card) = report_one_largest_single(game, game.current) {
            let largest = PlayPattern::Single(card.rank);
            if largest.beats(previous) {
                let single: Vec<Card> = vec![card];
                proof {
                    let hand = game@.players[game.current as int].hand;
                    assert(single@ =~= seq![card]);
                    lemma_largest_card(hand);
                    lemma_single_card(hand, card);
                }
                return (single, largest);
            }
        }
    }
    (cards, pattern)
}

/// When the time runs out, what is played is in the hand and beats what lies;
/// nobody passes who leads, nor in run-fast one who has a lowest play.
pub proof fn law_timeout_move_is_legal(playing: PlayingView, now: int)
    requires
        playing.wf(),
    ensures
        match timeout_move(playing, now) {
            TimeoutMove::Play { cards, pattern } => {
                &&& cards.len() > 0
                &&& cards.to_multiset().subset_of(
                    playing.players[playing.current].hand.to_multiset(),
                )
                &&& playing.to_beat() matches Some(previous) ==> pattern.spec_beats(previous)
                &&& playing.opening_spade_three_required ==> first_marked(cards) is Some
            },
            TimeoutMove::Pass { text } => {
                &&& playing.to_beat() matches Some(previous)
                &&& playing.variant == CardGameVariant::HunanRunFast ==> lowest_beating(
                    playing.players[playing.current].hand,
                    previous,
                    playing.variant,
                ) is None
            },
        },
{
    let hand = playing.players[playing.current].hand;
    assert(hand.len() > 0);
    assert(hand.contains(hand[0]));
    lemma_single_card(hand, hand[0]);
    lemma_first_marked_found(hand);
    lemma_largest_card(hand);
    if first_marked(hand) is Some {
        let card = first_marked(hand)->0;
        lemma_single_card(hand, card);
        assert(seq![card][0] == card);
        assert(first_marked(seq![card]) == Some(card));
    }
    lemma_single_card(hand, largest_card(hand));
    match playing.to_beat() {
        Some(previous) => {
            if lowest_play(ranks_of(hand), previous, playing.variant) is Some {
                let (ranks, pattern) = lowest_play(ranks_of(hand), previous, playing.variant)->0;
                lemma_taken_succeeds(hand, ranks);
                lemma_taken_subset(hand.to_multiset(), ranks);
                assert(ranks_of(taken(hand.to_multiset(), ranks)->Ok_0).len() == ranks.len());
            }
        },
        None => {},
    }
}

} // verus!
