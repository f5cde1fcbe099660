//! How a card game goes on: what a play, a pass and a lapse of time do to it.
use vstd::prelude::*;
use crate::card_games::cards::{ranks_of, Card, Rank};
use crate::card_games::hands::{
    compact_play_text, first_marked, lemma_largest_card, lemma_removed, play_text,
};
use crate::card_games::patterns::{CardGameVariant, PlayPattern};
use crate::card_games::playing::{
    after_pass, after_play, after_timeout, forced_action, lowest_beating, pass_outcome, play_filter,
    play_outcome, remaining_text, report_one, timeout_counted, timeout_move, ActionOrigin,
    ForcedView, TimeoutMove,
};
use crate::card_games::search::{
    law_only_play_unique, legal, no_legal_play, only_legal_play, selectable,
};
use crate::card_games::table::{LastPlayView, PlayingView};
use crate::text::{decimal, law_join};

verus! {

/// Who is next: the players follow each other in a circle of three.
pub open spec fn follows(player: int, next: int) -> bool {
    ||| player == 0 && next == 1
    ||| player == 1 && next == 2
    ||| player == 2 && next == 0
}

/// A play takes the cards out of the hand and lays them down to be beaten by the next
/// player, whose time starts; the hands of the others stay. It counts one turn, and one
/// bomb where it is one.
pub proof fn law_a_play(
    game: PlayingView,
    cards: Seq<Card>,
    pattern: PlayPattern,
    now: int,
    origin: ActionOrigin,
    i: int,
)
    requires
        game.wf(),
        cards.to_multiset().subset_of(game.players[game.current].hand.to_multiset()),
        0 <= now <= u128::MAX,
    ensures
        ({
            let player = game.current;
            let before = game.players[player];
            let after = after_play(game, player, cards, pattern, now, origin);
            &&& after.players.len() == 3
            &&& 0 <= i < 3 && i != player ==> after.players[i] == game.players[i]
            &&& after.players[player].hand.to_multiset() == before.hand.to_multiset().sub(
                cards.to_multiset(),
            )
            &&& after.players[player].hand.len() == before.hand.len() - cards.len()
            &&& after.players[player].name == before.name
            &&& after.players[player].key == before.key
            &&& after.players[player].trustee == before.trustee
            &&& origin == ActionOrigin::Manual ==> after.players[player].timeouts == 0
            &&& origin != ActionOrigin::Manual ==> after.players[player].timeouts
                == before.timeouts
            &&& after.variant == game.variant
            &&& after.landlord == game.landlord
            &&& !after.opening_spade_three_required
            &&& game.turns < u32::MAX ==> after.turns == game.turns + 1
            &&& game.bombs < u32::MAX && (pattern is Bomb || pattern is JokerBomb) ==> after.bombs
                == game.bombs + 1
            &&& pattern !is Bomb && pattern !is JokerBomb ==> after.bombs == game.bombs
            &&& cards.len() < before.hand.len() ==> {
                &&& follows(player, after.current)
                &&& after.last_play == Some(LastPlayView { player, cards, pattern })
                &&& after.consecutive_passes == 0
                &&& after.timer.elapsed == 0
                &&& after.timer.last_tick == now
                &&& !after.warning_sent
                &&& after.to_beat() == Some(pattern)
            }
            &&& cards.len() == before.hand.len() ==> after.current == player
        }),
{
    lemma_removed(game.players[game.current].hand, cards);
}

/// A pass leaves all hands. After the first the next player has to beat the same play;
/// after the second the player who made it leads, with nothing to beat.
pub proof fn law_a_pass(game: PlayingView, now: int, origin: ActionOrigin, i: int)
    requires
        game.wf(),
        game.last_play is Some,
        0 <= now <= u128::MAX,
    ensures
        ({
            let player = game.current;
            let last = game.last_play->0;
            let after = after_pass(game, player, now, origin);
            &&& after.players.len() == 3
            &&& 0 <= i < 3 ==> after.players[i].hand == game.players[i].hand
                && after.players[i].name == game.players[i].name && after.players[i].trustee
                == game.players[i].trustee
            &&& origin == ActionOrigin::Manual ==> after.players[player].timeouts == 0
            &&& origin != ActionOrigin::Manual ==> after.players[player].timeouts
                == game.players[player].timeouts
            &&& after.bombs == game.bombs
            &&& after.landlord == game.landlord
            &&& after.variant == game.variant
            &&& game.turns < u32::MAX ==> after.turns == game.turns + 1
            &&& after.timer.elapsed == 0
            &&& after.timer.last_tick == now
            &&& !after.warning_sent
            &&& game.consecutive_passes == 0 ==> {
                &&& follows(player, after.current)
                &&& after.last_play == game.last_play
                &&& after.consecutive_passes == 1
                &&& after.to_beat() == Some(last.pattern)
            }
            &&& game.consecutive_passes == 1 ==> {
                &&& after.current == last.player
                &&& after.last_play is None
                &&& after.consecutive_passes == 0
                &&& after.to_beat() is None
            }
        }),
{
}

/// A play that empties the hand wins the game and ends it; any other play is announced
/// and does not.
pub proof fn law_winning(
    game: PlayingView,
    player: int,
    cards: Seq<Card>,
    pattern: PlayPattern,
    origin: ActionOrigin,
)
    requires
        0 <= player < game.players.len(),
    ensures
        ({
            let told = play_outcome(game, player, cards, pattern, origin);
            &&& told.public_reply is Some
            &&& told.private_reply is None
            &&& told.private_deliveries.len() == 0
            &&& told.ended <==> game.players[player].hand.len() == 0
            &&& game.players[player].hand.len() == 0 ==> told.action == "won"@
            &&& game.players[player].hand.len() > 0 && origin == ActionOrigin::Manual
                ==> told.action == "played"@
            &&& game.players[player].hand.len() > 0 && origin == ActionOrigin::Timeout
                ==> told.action == "auto-play"@
            &&& game.players[player].hand.len() > 0 && origin == ActionOrigin::Forced
                ==> told.action == "forced-play"@
        }),
{
}

/// In fight-the-landlord a play is told with the side of who made it, what was played, how
/// many cards are left and who is next. A win is one of the landlord or of the farmers,
/// and is told with the cards that all have left, the bombs and the turns.
pub proof fn law_landlord_play_is_told(
    game: PlayingView,
    player: int,
    cards: Seq<Card>,
    pattern: PlayPattern,
)
    requires
        game.variant == CardGameVariant::Landlord,
        game.players.len() == 3,
        0 <= player < 3,
    ensures
        ({
            let name = game.players[player].name;
            let hand = game.players[player].hand;
            let told = play_outcome(game, player, cards, pattern, ActionOrigin::Manual);
            &&& hand.len() == 0 && player == game.landlord ==> told.public_reply == Some(
                name + "("@ + "地主"@ + ")"@ + "出完"@ + play_text(cards) + "["@
                    + pattern.spec_label() + "]，"@ + "地主方"@ + "获胜。剩余:"@ + remaining_text(
                    game.players,
                ) + "；炸弹"@ + decimal(game.bombs as nat) + "次；共"@ + decimal(game.turns as nat)
                    + "手"@,
            )
            &&& hand.len() == 0 && player != game.landlord ==> told.public_reply == Some(
                name + "("@ + "农民"@ + ")"@ + "出完"@ + play_text(cards) + "["@
                    + pattern.spec_label() + "]，"@ + "农民方"@ + "获胜。剩余:"@ + remaining_text(
                    game.players,
                ) + "；炸弹"@ + decimal(game.bombs as nat) + "次；共"@ + decimal(game.turns as nat)
                    + "手"@,
            )
            &&& hand.len() > 0 && player == game.landlord ==> told.public_reply == Some(
                name + "("@ + "地主"@ + ")"@ + "出牌"@ + " "@ + play_text(cards) + "["@
                    + pattern.spec_label() + "]，剩余"@ + decimal(hand.len()) + "张；轮到"@
                    + game.players[game.current].name,
            )
            &&& hand.len() > 0 && player != game.landlord ==> told.public_reply == Some(
                name + "("@ + "农民"@ + ")"@ + "出牌"@ + " "@ + play_text(cards) + "["@
                    + pattern.spec_label() + "]，剩余"@ + decimal(hand.len()) + "张；轮到"@
                    + game.players[game.current].name,
            )
        }),
{
}

/// The cards that all have left are told of each player in turn.
pub proof fn law_cards_left_are_told(game: PlayingView)
    requires
        game.players.len() == 3,
    ensures
        ({
            let first = game.players[0].name + " "@ + decimal(game.players[0].hand.len()) + "张"@;
            let second = game.players[1].name + " "@ + decimal(game.players[1].hand.len()) + "张"@;
            let third = game.players[2].name + " "@ + decimal(game.players[2].hand.len()) + "张"@;
            remaining_text(game.players) == first + "、"@ + second + "、"@ + third
        }),
{
    let parts = Seq::new(
        game.players.len(),
        |i: int| game.players[i].name + " "@ + decimal(game.players[i].hand.len()) + "张"@,
    );
    law_join(seq![parts[0], parts[1]], seq![parts[2]], "、"@, parts[2]);
    law_join(seq![parts[0]], seq![parts[1]], "、"@, parts[1]);
    law_join(seq![parts[0]], seq![parts[1]], "、"@, parts[0]);
    assert(seq![parts[0]] + seq![parts[1]] =~= seq![parts[0], parts[1]]);
    assert(seq![parts[0], parts[1]] + seq![parts[2]] =~= parts);
}

/// In run-fast a play is told with what was played, how many cards are left and who is
/// next; a win with how many cards the two others have left.
pub proof fn law_run_fast_play_is_told(
    game: PlayingView,
    player: int,
    cards: Seq<Card>,
    pattern: PlayPattern,
)
    requires
        game.variant == CardGameVariant::HunanRunFast,
        game.players.len() == 3,
        0 <= player < 3,
    ensures
        ({
            let start = game.players[player].name + "出"@ + ":"@ + compact_play_text(cards) + "["@
                + pattern.spec_label() + "]"@;
            let told = play_outcome(game, player, cards, pattern, ActionOrigin::Manual);
            &&& game.players[player].hand.len() > 0 ==> told.public_reply->0 == start + " 余"@
                + decimal(game.players[player].hand.len()) + "，轮到"@
                + game.players[game.current].name
            &&& game.players[player].hand.len() == 0 && player == 0 ==> told.public_reply->0
                == start + "，获胜；其余:"@ + decimal(game.players[1].hand.len()) + "张/"@ + decimal(
                game.players[2].hand.len(),
            ) + "张"@
            &&& game.players[player].hand.len() == 0 && player == 1 ==> told.public_reply->0
                == start + "，获胜；其余:"@ + decimal(game.players[0].hand.len()) + "张/"@ + decimal(
                game.players[2].hand.len(),
            ) + "张"@
            &&& game.players[player].hand.len() == 0 && player == 2 ==> told.public_reply->0
                == start + "，获胜；其余:"@ + decimal(game.players[0].hand.len()) + "张/"@ + decimal(
                game.players[1].hand.len(),
            ) + "张"@
        }),
{
}

/// A pass is told with who is next, and that they lead where it was the second; it ends
/// no game.
pub proof fn law_pass_is_told(game: PlayingView, now: int)
    requires
        game.wf(),
        game.last_play is Some,
    ensures
        ({
            let name = game.players[game.current].name;
            let told = pass_outcome(game, game.current, now, ActionOrigin::Manual);
            let leader = game.players[game.last_play->0.player].name;
            let next = game.players[(game.current + 1) % 3].name;
            &&& told.action == "passed"@
            &&& !told.ended
            &&& told.private_reply is None
            &&& game.variant == CardGameVariant::Landlord && game.consecutive_passes == 0
                ==> told.public_reply == Some(name + "过牌，轮到"@ + next)
            &&& game.variant == CardGameVariant::Landlord && game.consecutive_passes == 1
                ==> told.public_reply == Some(name + "过牌，重新由"@ + leader + "领出"@)
            &&& game.variant == CardGameVariant::HunanRunFast && game.consecutive_passes == 0
                ==> told.public_reply == Some(name + "过，轮到"@ + next)
            &&& game.variant == CardGameVariant::HunanRunFast && game.consecutive_passes == 1
                ==> told.public_reply == Some(name + "过，"@ + leader + "领出"@)
        }),
{
}

/// A lapse of time counts for the player to move alone. From the given number of lapses
/// on, and at the first where that number is none, moves are made for the player, and
/// once they are they stay so.
pub proof fn law_lapses_count(game: PlayingView, trustee_after: u32, i: int)
    requires
        game.wf(),
    ensures
        ({
            let before = game.players[game.current];
            let after = timeout_counted(game, trustee_after as int);
            let player = after.players[game.current];
            &&& before.timeouts < u32::MAX ==> player.timeouts == before.timeouts + 1
            &&& before.trustee ==> player.trustee
            &&& !before.trustee && before.timeouts < u32::MAX && trustee_after >= 1 ==> (
            player.trustee <==> before.timeouts + 1 >= trustee_after)
            &&& before.timeouts < u32::MAX && trustee_after == 0 && before.timeouts >= 0
                ==> player.trustee
            &&& player.hand == before.hand
            &&& player.name == before.name
            &&& 0 <= i < 3 && i != game.current ==> after.players[i] == game.players[i]
            &&& after.current == game.current
            &&& after.last_play == game.last_play
            &&& after.turns == game.turns
        }),
{
}

/// Who leads when the time runs out leads a single card: the three of spades where the
/// game opens with it, the largest where the next player has one card left in run-fast,
/// and else the first of the hand.
pub proof fn law_lapse_of_a_leader(game: PlayingView, now: int)
    requires
        game.wf(),
        game.to_beat() is None,
    ensures
        timeout_move(game, now) matches TimeoutMove::Play { cards, pattern } && cards.len() == 1
            && pattern == PlayPattern::Single(cards[0].rank) && {
            let hand = game.players[game.current].hand;
            let next = game.players[(game.current + 1) % 3].hand;
            &&& game.opening_spade_three_required ==> Some(cards[0]) == first_marked(hand)
            &&& !game.opening_spade_three_required && game.variant
                == CardGameVariant::HunanRunFast && next.len() == 1 ==> forall|i: int|
                0 <= i < hand.len() ==> (#[trigger] hand[i]).rank.value() <= cards[0].rank.value()
            &&& !game.opening_spade_three_required && (game.variant == CardGameVariant::Landlord
                || next.len() > 1) ==> cards[0] == hand[0]
        },
{
    lemma_largest_card(game.players[game.current].hand);
}

/// Who has something to beat when the time runs out passes in fight-the-landlord, unless
/// moves are made for them; then, and always in run-fast, the lowest play that beats it is
/// made, and passed where there is none.
pub proof fn law_lapse_of_a_follower(game: PlayingView, previous: PlayPattern, now: int)
    requires
        game.wf(),
        game.to_beat() == Some(previous),
    ensures
        ({
            let player = game.players[game.current];
            let lowest = lowest_beating(player.hand, previous, game.variant);
            let moved = timeout_move(game, now);
            &&& game.variant == CardGameVariant::Landlord && !player.trustee ==> moved is Pass
            &&& game.variant == CardGameVariant::Landlord && player.trustee ==> (moved is Pass
                <==> lowest is None)
            &&& game.variant == CardGameVariant::Landlord && player.trustee ==> (lowest
                matches Some((cards, pattern)) ==> moved == (TimeoutMove::Play { cards, pattern }))
            &&& game.variant == CardGameVariant::HunanRunFast ==> (moved is Pass <==> lowest
                is None)
            &&& game.variant == CardGameVariant::HunanRunFast && game.players[(game.current + 1)
                % 3].hand.len() != 1 ==> (lowest matches Some((cards, pattern)) ==> moved == (
            TimeoutMove::Play { cards, pattern }))
        }),
{
}

/// When the time runs out the lapse is counted and the move is made; the hands of the
/// others stay, and the turn goes on.
pub proof fn law_lapse_moves_on(game: PlayingView, trustee_after: u32, now: int)
    requires
        game.wf(),
    ensures
        ({
            let counted = timeout_counted(game, trustee_after as int);
            let (after, told) = after_timeout(game, trustee_after as int, now);
            &&& timeout_move(counted, now) matches TimeoutMove::Pass { text } ==> {
                &&& after == after_pass(counted, game.current, now, ActionOrigin::Timeout)
                &&& told.action == "auto-pass"@
                &&& told.public_reply == Some(text)
                &&& !told.ended
            }
            &&& timeout_move(counted, now) matches TimeoutMove::Play { cards, pattern } ==> {
                &&& after == after_play(
                    counted,
                    game.current,
                    cards,
                    pattern,
                    now,
                    ActionOrigin::Timeout,
                )
                &&& told.ended <==> after.players[game.current].hand.len() == 0
            }
        }),
{
}

/// In run-fast a player whose next player has one card left may play only their largest
/// card as a single; nobody else, and nobody in fight-the-landlord, is bound so.
pub proof fn law_last_card_is_heeded(game: PlayingView, player: int, i: int)
    requires
        game.wf(),
        0 <= player < 3,
    ensures
        ({
            let hand = game.players[player].hand;
            let next = game.players[(player + 1) % 3].hand;
            &&& game.variant == CardGameVariant::HunanRunFast && next.len() == 1 ==> (report_one(
                game,
                player,
            ) matches Some(card) && hand.contains(card) && (0 <= i < hand.len()
                ==> hand[i].rank.value() <= card.rank.value()))
            &&& game.variant == CardGameVariant::Landlord || next.len() != 1 ==> report_one(
                game,
                player,
            ) is None
        }),
{
    lemma_largest_card(game.players[player].hand);
}

/// In run-fast who cannot beat what lies passes, and who has only one legal play makes it;
/// with a choice, and in fight-the-landlord, nothing is forced.
pub proof fn law_what_is_forced(
    game: PlayingView,
    a: Seq<Rank>,
    p: PlayPattern,
    b: Seq<Rank>,
    q: PlayPattern,
)
    requires
        game.wf(),
    ensures
        ({
            let hand = ranks_of(game.players[game.current].hand);
            let filter = play_filter(game);
            &&& game.variant == CardGameVariant::Landlord ==> forced_action(game) is None
            &&& game.variant == CardGameVariant::HunanRunFast ==> {
                &&& no_legal_play(hand, filter) && game.to_beat() is Some ==> forced_action(game)
                    == Some(ForcedView::Pass)
                &&& forced_action(game) == Some(ForcedView::Pass) ==> no_legal_play(hand, filter)
                    && game.to_beat() is Some
                &&& selectable(a, hand) && legal(a, p, filter) && selectable(b, hand) && legal(
                    b,
                    q,
                    filter,
                ) && a != b ==> forced_action(game) is None
                &&& only_legal_play(a, p, hand, filter) ==> (forced_action(game) matches Some(
                    ForcedView::Play { pattern, .. },
                ) && pattern == p)
            }
        }),
{
    let hand = ranks_of(game.players[game.current].hand);
    let filter = play_filter(game);
    if only_legal_play(a, p, hand, filter) {
        let (t, r) = choose|t: Seq<Rank>, r: PlayPattern| only_legal_play(t, r, hand, filter);
        law_only_play_unique(a, p, t, r, hand, filter);
        assert(legal(a, p, filter));
    }
}

/// What a play has to heed in run-fast: it beats what lies, has the three of spades where
/// the game opens, and is, as a single, the largest card where the next player has one
/// left.
pub proof fn law_what_a_play_heeds(
    game: PlayingView,
    selection: Seq<Rank>,
    p: PlayPattern,
    required: Rank,
)
    requires
        game.wf(),
        legal(selection, p, play_filter(game)),
    ensures
        game.to_beat() matches Some(previous) ==> p.spec_beats(previous),
        game.opening_spade_three_required ==> crate::card_games::cards::occurrences(
            selection,
            Rank::Three.value(),
        ) > 0,
        report_one(game, game.current) matches Some(card) ==> (p matches PlayPattern::Single(rank)
            ==> rank == card.rank),
{
}

/// A play that the clock makes in a game with a landlord is told as such, and so is that
/// the assistant now plays for somebody.
pub proof fn law_lapse_is_told(
    game: PlayingView,
    player: int,
    cards: Seq<Card>,
    pattern: PlayPattern,
)
    requires
        game.variant == CardGameVariant::Landlord,
        game.players.len() == 3,
        0 <= player < 3,
        game.players[player].hand.len() > 0,
    ensures
        ({
            let p = game.players[player];
            let role = if player == game.landlord {
                "地主"@
            } else {
                "农民"@
            };
            let how = if p.trustee {
                "超时"@ + "并进入托管"@ + "，自动出"@
            } else {
                "超时"@ + "，自动出"@
            };
            play_outcome(game, player, cards, pattern, ActionOrigin::Timeout).public_reply == Some(
                p.name + "("@ + role + ")"@ + how + " "@ + play_text(cards) + "["@
                    + pattern.spec_label() + "]，剩余"@ + decimal(p.hand.len()) + "张；轮到"@
                    + game.players[game.current].name,
            )
        }),
{
    reveal_strlit("");
    assert("超时"@ + ""@ + "，自动出"@ =~= "超时"@ + "，自动出"@);
}

/// Somebody for whom the assistant plays, and who has nothing to beat the last play with,
/// passes, and that is told.
pub proof fn law_lapse_without_cards_is_told(game: PlayingView, now: int)
    requires
        game.variant == CardGameVariant::Landlord,
        game.players[game.current].trustee,
        game.to_beat() is Some,
        lowest_beating(
            game.players[game.current].hand,
            game.to_beat()->0,
            CardGameVariant::Landlord,
        ) is None,
    ensures
        ({
            let after = after_pass(game, game.current, now, ActionOrigin::Timeout);
            timeout_move(game, now) == (TimeoutMove::Pass {
                text: game.players[game.current].name + "超时"@ + "并进入托管"@
                    + "，自动过牌；轮到"@ + after.players[after.current].name,
            })
        }),
{
}

} // verus!
