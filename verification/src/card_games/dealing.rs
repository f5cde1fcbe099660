//! Shuffling and dealing.
use vstd::multiset::Multiset;
use vstd::prelude::*;
use crate::card_games::cards::Card;
use crate::card_games::cards::Rank;
use crate::card_games::hands::find_spade_three;
use crate::card_games::hands::{first_marked, lemma_first_marked_found, marked};
use crate::sorting::sort;
use crate::sorting::{lemma_sorted, sorted};

verus! {

// ---------------------------------------------------------------------------
// Random numbers
// ---------------------------------------------------------------------------
/// The state of the generator after one step.
pub open spec fn next_state(state: u64) -> u64 {
    state.wrapping_add(0x9e3779b97f4a7c15)
}

/// The number that the generator draws in the state `state`.
pub open spec fn mixed(state: u64) -> u64 {
    let a = (state ^ (state >> 30)).wrapping_mul(0xbf58476d1ce4e5b9);
    let b = (a ^ (a >> 27)).wrapping_mul(0x94d049bb133111eb);
    b ^ (b >> 31)
}

/// The SplitMix64 generator.
pub struct SplitMix64 {
    pub state: u64,
}

impl SplitMix64 {
    /// A generator that starts from `seed`.
    pub fn new(seed: u64) -> (r: SplitMix64)
        ensures
            r.state == seed,
    {
        SplitMix64 { state: seed }
    }

    /// Draws a number.
    pub fn next(&mut self) -> (r: u64)
        ensures
            final(self).state == next_state(old(self).state),
            r == mixed(final(self).state),
    {
        self.state = self.state.wrapping_add(0x9e3779b97f4a7c15);
        let state: u64 = self.state;
        let a: u64 = (state ^ (state >> 30)).wrapping_mul(0xbf58476d1ce4e5b9);
        let b: u64 = (a ^ (a >> 27)).wrapping_mul(0x94d049bb133111eb);
        b ^ (b >> 31)
    }

    /// Draws an index below `len`, or 0 where `len` is 0.
    pub fn index(&mut self, len: usize) -> (r: usize)
        ensures
            final(self).state == next_state(old(self).state),
            r == drawn_index(old(self).state, len as nat),
            len > 0 ==> r < len,
    {
        let bound: u64 = if len == 0 {
            1
        } else {
            len as u64
        };
        (self.next() % bound) as usize
    }

    /// Shuffles `values`.
    pub fn shuffle<T: Copy>(&mut self, values: &mut Vec<T>)
        ensures
            (final(values)@, final(self).state) == shuffled(
                old(values)@,
                old(self).state,
                old(values)@.len() - 1,
            ),
    {
        if values.len() == 0 {
            return ;
        }
        let ghost start = (values@, self.state);
        let mut index: usize = values.len() - 1;
        while index >= 1
            invariant
                index < values.len(),
                values@.len() == start.0.len(),
                shuffled(start.0, start.1, start.0.len() - 1) == shuffled(
                    values@,
                    self.state,
                    index as int,
                ),
            decreases index,
        {
            let ghost before = values@;
            let other: usize = self.index(index + 1);
            let a: T = values[index];
            let b: T = values[other];
            values.set(index, b);
            values.set(other, a);
            proof {
                assert(values@ =~= swapped(before, index as int, other as int));
            }
            index = index - 1;
        }
    }
}

/// The index below `len` that is drawn in the state `state`.
pub open spec fn drawn_index(state: u64, len: nat) -> nat {
    (mixed(next_state(state)) as nat) % (if len == 0 {
        1
    } else {
        len
    })
}

/// `values` with the items at `i` and `j` exchanged.
pub open spec fn swapped<T>(values: Seq<T>, i: int, j: int) -> Seq<T> {
    values.update(i, values[j]).update(j, values[i])
}

/// What shuffling gives, and the state of the generator after it: from
/// position `index` down, each item is exchanged with a random one before it
/// or itself.
pub open spec fn shuffled<T>(values: Seq<T>, state: u64, index: int) -> (Seq<T>, u64)
    decreases index,
{
    if index < 1 {
        (values, state)
    } else {
        shuffled(
            swapped(values, index, drawn_index(state, (index + 1) as nat) as int),
            next_state(state),
            index - 1,
        )
    }
}

/// Shuffling neither adds nor loses an item.
pub proof fn law_shuffle_permutes<T>(values: Seq<T>, state: u64, index: int)
    requires
        index < values.len(),
    ensures
        shuffled(values, state, index).0.to_multiset() == values.to_multiset(),
        shuffled(values, state, index).0.len() == values.len(),
    decreases index,
{
    if index >= 1 {
        let j = drawn_index(state, (index + 1) as nat) as int;
        lemma_swapped(values, index, j);
        law_shuffle_permutes(swapped(values, index, j), next_state(state), index - 1);
    }
}

proof fn lemma_swapped<T>(values: Seq<T>, i: int, j: int)
    requires
        0 <= i < values.len(),
        0 <= j < values.len(),
    ensures
        swapped(values, i, j).to_multiset() == values.to_multiset(),
        swapped(values, i, j).len() == values.len(),
{
    broadcast use vstd::multiset::group_multiset_axioms;

    vstd::seq_lib::to_multiset_update(values, i, values[j]);
    let once = values.update(i, values[j]);
    vstd::seq_lib::to_multiset_update(once, j, values[i]);
    vstd::seq_lib::to_multiset_contains(values, values[i]);
    vstd::seq_lib::to_multiset_contains(values, values[j]);
    vstd::seq_lib::to_multiset_contains(once, once[j]);
    assert(values.contains(values[i]));
    assert(values.contains(values[j]));
    assert(once.contains(once[j]));
    assert(swapped(values, i, j).to_multiset() =~= values.to_multiset());
}

/// A seed for the generator from the time in nanoseconds and the number of
/// the running process.
pub fn seed_from(nanos: u128, process_id: u32) -> (r: u64)
    ensures
        r == (nanos as u64) ^ rotated_left_17(process_id as u64),
{
    let low: u64 = nanos as u64;
    let id: u64 = process_id as u64;
    low ^ ((id << 17) | (id >> 47))
}

/// `x` with its bits rotated to the left by 17 places.
pub open spec fn rotated_left_17(x: u64) -> u64 {
    (x << 17) | (x >> 47)
}

// ---------------------------------------------------------------------------
// Decks
// ---------------------------------------------------------------------------
/// The deck of fight-the-landlord: four cards of each rank from three to two,
/// and two jokers.
pub open spec fn landlord_deck() -> Seq<Card> {
    Seq::new(
        54,
        |i: int|
            Card::plain(
                Rank::of(
                    if i < 52 {
                        3 + i / 4
                    } else {
                        i - 36
                    },
                ),
            ),
    )
}

/// The deck of run-fast: four cards of each rank from three to king, one of
/// the threes being the three of spades, three aces and one two.
pub open spec fn run_fast_deck() -> Seq<Card> {
    Seq::new(
        48,
        |i: int|
            if i < 44 {
                Card { rank: Rank::of(3 + i / 4), spade_three: i == 0 }
            } else if i < 47 {
                Card::plain(Rank::Ace)
            } else {
                Card::plain(Rank::Two)
            },
    )
}

fn make_landlord_deck() -> (r: Vec<Card>)
    ensures
        r@ == landlord_deck(),
{
    let mut deck: Vec<Card> = Vec::new();
    let mut i: u8 = 0;
    while i < 52
        invariant
            i <= 52,
            deck@ == landlord_deck().take(i as int),
        decreases 52 - i,
    {
        deck.push(Card::new(Rank::from_u8(3 + i / 4)));
        i = i + 1;
        proof {
            assert(deck@ =~= landlord_deck().take(i as int));
        }
    }
    deck.push(Card::new(Rank::SmallJoker));
    deck.push(Card::new(Rank::BigJoker));
    proof {
        assert(deck@ =~= landlord_deck());
    }
    deck
}

fn make_run_fast_deck() -> (r: Vec<Card>)
    ensures
        r@ == run_fast_deck(),
{
    let mut deck: Vec<Card> = Vec::new();
    let mut i: u8 = 0;
    while i < 44
        invariant
            i <= 44,
            deck@ == run_fast_deck().take(i as int),
        decreases 44 - i,
    {
        deck.push(Card { rank: Rank::from_u8(3 + i / 4), spade_three: i == 0 });
        i = i + 1;
        proof {
            assert(deck@ =~= run_fast_deck().take(i as int));
        }
    }
    deck.push(Card::new(Rank::Ace));
    deck.push(Card::new(Rank::Ace));
    deck.push(Card::new(Rank::Ace));
    deck.push(Card::new(Rank::Two));
    proof {
        assert(deck@ =~= run_fast_deck());
    }
    deck
}

// ---------------------------------------------------------------------------
// Dealing
// ---------------------------------------------------------------------------
/// The `n` cards that player `player` gets when three players are dealt in
/// turn from the end of `deck`.
pub open spec fn dealt(deck: Seq<Card>, n: nat, player: int) -> Seq<Card> {
    Seq::new(n, |i: int| deck[deck.len() - 1 - (3 * i + player)])
}

/// The three hands and what is left of the deck hold what the deck held.
proof fn lemma_dealt(deck: Seq<Card>, n: nat)
    requires
        3 * n <= deck.len(),
    ensures
        dealt(deck, n, 0).to_multiset().add(dealt(deck, n, 1).to_multiset()).add(
            dealt(deck, n, 2).to_multiset(),
        ).add(deck.take(deck.len() - 3 * n).to_multiset()) == deck.to_multiset(),
    decreases n,
{
    broadcast use vstd::multiset::group_multiset_axioms;
    broadcast use vstd::seq_lib::group_to_multiset_ensures;

    let total = dealt(deck, n, 0).to_multiset().add(dealt(deck, n, 1).to_multiset()).add(
        dealt(deck, n, 2).to_multiset(),
    ).add(deck.take(deck.len() - 3 * n).to_multiset());
    if n == 0 {
        assert(deck.take(deck.len() as int) =~= deck);
        assert(dealt(deck, 0, 0) =~= Seq::<Card>::empty());
        assert(dealt(deck, 0, 1) =~= Seq::<Card>::empty());
        assert(dealt(deck, 0, 2) =~= Seq::<Card>::empty());
        assert(total =~= deck.to_multiset());
    } else {
        let m = (n - 1) as nat;
        lemma_dealt(deck, m);
        let top = deck.len() - 3 * m;
        let a = deck[top - 1];
        let b = deck[top - 2];
        let c = deck[top - 3];
        assert(dealt(deck, n, 0) =~= dealt(deck, m, 0).push(a));
        assert(dealt(deck, n, 1) =~= dealt(deck, m, 1).push(b));
        assert(dealt(deck, n, 2) =~= dealt(deck, m, 2).push(c));
        let rest = deck.take(top - 3);
        assert(deck.take(top) =~= rest.push(c).push(b).push(a));
        let earlier = dealt(deck, m, 0).to_multiset().add(dealt(deck, m, 1).to_multiset()).add(
            dealt(deck, m, 2).to_multiset(),
        ).add(deck.take(top).to_multiset());
        assert(total =~= earlier);
    }
}

fn deal_hand(deck: &Vec<Card>, n: usize, player: usize) -> (r: Vec<Card>)
    requires
        3 * n <= deck@.len(),
        player < 3,
    ensures
        r@ == sorted(dealt(deck@, n as nat, player as int)),
{
    let mut hand: Vec<Card> = Vec::new();
    let mut i: usize = 0;
    while i < n
        invariant
            i <= n,
            3 * n <= deck@.len(),
            player < 3,
            hand@ == dealt(deck@, i as nat, player as int),
        decreases n - i,
    {
        hand.push(deck[deck.len() - 1 - (3 * i + player)]);
        i = i + 1;
        proof {
            assert(hand@ =~= dealt(deck@, i as nat, player as int));
        }
    }
    sort(&mut hand);
    hand
}

/// The cards of three hands together.
pub open spec fn all_cards(a: Seq<Card>, b: Seq<Card>, c: Seq<Card>) -> Multiset<Card> {
    a.to_multiset().add(b.to_multiset()).add(c.to_multiset())
}

/// The hands and the bottom cards that are dealt in fight-the-landlord from
/// the generator's state, and the state after dealing.
pub open spec fn landlord_deal(state: u64) -> (Seq<Seq<Card>>, Seq<Card>, u64) {
    let (deck, after) = shuffled(landlord_deck(), state, 53);
    (
        seq![sorted(dealt(deck, 17, 0)), sorted(dealt(deck, 17, 1)), sorted(dealt(deck, 17, 2))],
        sorted(deck.take(3)),
        after,
    )
}

/// The hands that are dealt in run-fast from the generator's state, and the
/// state after dealing.
pub open spec fn run_fast_deal(state: u64) -> (Seq<Seq<Card>>, u64) {
    let (deck, after) = shuffled(run_fast_deck(), state, 47);
    (
        seq![sorted(dealt(deck, 16, 0)), sorted(dealt(deck, 16, 1)), sorted(dealt(deck, 16, 2))],
        after,
    )
}

/// The first of three hands that holds the three of spades.
pub open spec fn spade_three_holder(hands: Seq<Seq<Card>>) -> int {
    if first_marked(hands[0]) is Some {
        0
    } else if first_marked(hands[1]) is Some {
        1
    } else {
        2
    }
}

/// Dealing in fight-the-landlord gives each of three players 17 cards and
/// leaves 3; together they are the deck.
pub proof fn law_landlord_deal(state: u64)
    ensures
        landlord_deal(state).0.len() == 3,
        forall|i: int| 0 <= i < 3 ==> (#[trigger] landlord_deal(state).0[i]).len() == 17,
        landlord_deal(state).1.len() == 3,
        ({
            let (hands, bottom, _) = landlord_deal(state);
            all_cards(hands[0], hands[1], hands[2]).add(bottom.to_multiset())
                == landlord_deck().to_multiset()
        }),
{
    let (deck, after) = shuffled(landlord_deck(), state, 53);
    law_shuffle_permutes(landlord_deck(), state, 53);
    lemma_dealt(deck, 17);
    lemma_sorted(dealt(deck, 17, 0));
    lemma_sorted(dealt(deck, 17, 1));
    lemma_sorted(dealt(deck, 17, 2));
    lemma_sorted(deck.take(3));
}

/// Dealing in run-fast gives each of three players 16 cards, together the
/// whole deck, and the first holder of the three of spades does hold it.
pub proof fn law_run_fast_deal(state: u64)
    ensures
        run_fast_deal(state).0.len() == 3,
        forall|i: int| 0 <= i < 3 ==> (#[trigger] run_fast_deal(state).0[i]).len() == 16,
        ({
            let hands = run_fast_deal(state).0;
            all_cards(hands[0], hands[1], hands[2]) == run_fast_deck().to_multiset()
        }),
        first_marked(run_fast_deal(state).0[spade_three_holder(run_fast_deal(state).0)]) is Some,
{
    broadcast use vstd::multiset::group_multiset_axioms;

    let (deck, after) = shuffled(run_fast_deck(), state, 47);
    law_shuffle_permutes(run_fast_deck(), state, 47);
    lemma_dealt(deck, 16);
    lemma_sorted(dealt(deck, 16, 0));
    lemma_sorted(dealt(deck, 16, 1));
    lemma_sorted(dealt(deck, 16, 2));
    let hands = run_fast_deal(state).0;
    assert(deck.take(0) =~= Seq::<Card>::empty());
    assert(deck.take(0).to_multiset() =~= Multiset::empty()) by {
        broadcast use vstd::seq_lib::group_to_multiset_ensures;

    }
    assert(all_cards(hands[0], hands[1], hands[2]).add(deck.take(0).to_multiset()) =~= all_cards(
        hands[0],
        hands[1],
        hands[2],
    ));
    let spade = marked(Rank::Three);
    assert(run_fast_deck()[0] == spade);
    assert(run_fast_deck().contains(spade));
    vstd::seq_lib::to_multiset_contains(run_fast_deck(), spade);
    assert(all_cards(hands[0], hands[1], hands[2]).count(spade) > 0);
    lemma_marked_in_hand(hands[0]);
    lemma_marked_in_hand(hands[1]);
    lemma_marked_in_hand(hands[2]);
}

/// Where the three of spades is in a hand, it is found there.
proof fn lemma_marked_in_hand(hand: Seq<Card>)
    ensures
        hand.to_multiset().count(marked(Rank::Three)) > 0 ==> first_marked(hand) is Some,
{
    vstd::seq_lib::to_multiset_contains(hand, marked(Rank::Three));
    lemma_first_marked_found(hand);
    if hand.contains(marked(Rank::Three)) {
        let i = choose|i: int| 0 <= i < hand.len() && hand[i] == marked(Rank::Three);
        assert(hand[i].spade_three);
    }
}

/// The run-fast deck holds exactly one three of spades, three aces, one two
/// and no joker.
pub proof fn law_run_fast_deck()
    ensures
        run_fast_deck().len() == 48,
        forall|i: int|
            0 <= i < 48 ==> ((#[trigger] run_fast_deck()[i]).spade_three <==> i == 0),
        forall|i: int|
            0 <= i < 48 ==> (#[trigger] run_fast_deck()[i]).rank != Rank::SmallJoker
                && run_fast_deck()[i].rank != Rank::BigJoker,
        forall|i: int|
            0 <= i < 48 ==> ((#[trigger] run_fast_deck()[i]).rank == Rank::Ace <==> 44 <= i < 47),
        forall|i: int|
            0 <= i < 48 ==> ((#[trigger] run_fast_deck()[i]).rank == Rank::Two <==> i == 47),
{
}

/// The views of three hands.
pub open spec fn hand_views(hands: Seq<Vec<Card>>) -> Seq<Seq<Card>> {
    Seq::new(hands.len(), |i: int| hands[i]@)
}

/// Deals for fight-the-landlord: three hands of 17 cards and 3 bottom cards.
pub fn deal(rng: &mut SplitMix64) -> (r: (Vec<Vec<Card>>, Vec<Card>))
    ensures
        (hand_views(r.0@), r.1@, final(rng).state) == landlord_deal(old(rng).state),
        r.0@.len() == 3,
{
    let mut deck = make_landlord_deck();
    proof {
        law_shuffle_permutes(landlord_deck(), rng.state, 53);
    }
    rng.shuffle(&mut deck);
    let mut hands: Vec<Vec<Card>> = Vec::new();
    hands.push(deal_hand(&deck, 17, 0));
    hands.push(deal_hand(&deck, 17, 1));
    hands.push(deal_hand(&deck, 17, 2));
    let ghost whole = deck@;
    deck.truncate(3);
    proof {
        assert(deck@ =~= whole.take(3));
    }
    sort(&mut deck);
    proof {
        assert(hand_views(hands@) =~= landlord_deal(old(rng).state).0);
    }
    (hands, deck)
}

/// Deals for run-fast: three hands of 16 cards, and the holder of the three of
/// spades.
pub fn deal_hunan_run_fast(rng: &mut SplitMix64) -> (r: (Vec<Vec<Card>>, usize))
    ensures
        (hand_views(r.0@), final(rng).state) == run_fast_deal(old(rng).state),
        r.0@.len() == 3,
        r.1 == spade_three_holder(hand_views(r.0@)),
        r.1 < 3,
        first_marked(hand_views(r.0@)[r.1 as int]) is Some,
{
    let mut deck = make_run_fast_deck();
    proof {
        law_shuffle_permutes(run_fast_deck(), rng.state, 47);
        law_run_fast_deal(rng.state);
    }
    rng.shuffle(&mut deck);
    let mut hands: Vec<Vec<Card>> = Vec::new();
    hands.push(deal_hand(&deck, 16, 0));
    hands.push(deal_hand(&deck, 16, 1));
    hands.push(deal_hand(&deck, 16, 2));
    proof {
        assert(hand_views(hands@) =~= run_fast_deal(old(rng).state).0);
    }
    let first: usize = if find_spade_three(&hands[0]).is_some() {
        0
    } else if find_spade_three(&hands[1]).is_some() {
        1
    } else {
        2
    };
    (hands, first)
}

/// Each step of the generator adds the same odd number, and what is drawn is mixed by two
/// odd factors and three shifts, all without regard to what overflows.
pub proof fn law_generator(state: u64)
    ensures
        next_state(state) == (state + 0x9e3779b97f4a7c15) % 0x1_0000_0000_0000_0000,
        next_state(state) != state,
        ({
            let a = ((state ^ (state / 0x4000_0000)) * 0xbf58476d1ce4e5b9)
                % 0x1_0000_0000_0000_0000;
            let b = (((a as u64) ^ ((a as u64) / 0x800_0000)) * 0x94d049bb133111eb)
                % 0x1_0000_0000_0000_0000;
            mixed(state) == (b as u64) ^ ((b as u64) / 0x8000_0000)
        }),
{
    let first = state >> 30;
    assert(state >> 30 == state / 0x4000_0000) by (bit_vector);
    let a = (state ^ (state >> 30)).wrapping_mul(0xbf58476d1ce4e5b9);
    assert(a >> 27 == a / 0x800_0000) by (bit_vector);
    let b = (a ^ (a >> 27)).wrapping_mul(0x94d049bb133111eb);
    assert(b >> 31 == b / 0x8000_0000) by (bit_vector);
}

/// What is drawn lies below what it is drawn from.
pub proof fn law_drawn_index(state: u64, len: nat)
    requires
        len > 0,
    ensures
        0 <= drawn_index(state, len) < len,
        drawn_index(state, len) == (mixed(next_state(state)) as int) % (len as int),
{
}

/// To shuffle is to draw the last item among all, then the one before it among the rest,
/// and so on: the last item is the one that was drawn, and the rest is shuffled from the
/// next state of the generator.
pub proof fn law_shuffle_draws<T>(values: Seq<T>, state: u64)
    requires
        values.len() >= 2,
    ensures
        ({
            let n = values.len() as int;
            let drawn = drawn_index(state, values.len()) as int;
            let rest = swapped(values, n - 1, drawn).drop_last();
            &&& shuffled(values, state, n - 1).0.last() == values[drawn]
            &&& shuffled(values, state, n - 1).0.drop_last() == shuffled(
                rest,
                next_state(state),
                n - 2,
            ).0
        }),
{
    let n = values.len() as int;
    let drawn = drawn_index(state, values.len()) as int;
    let next = swapped(values, n - 1, drawn);
    lemma_shuffle_leaves_last(next, next_state(state), n - 2);
}

proof fn lemma_shuffle_leaves_last<T>(values: Seq<T>, state: u64, index: int)
    requires
        values.len() > 0,
        index < values.len() - 1,
    ensures
        shuffled(values, state, index).0.len() == values.len(),
        shuffled(values, state, index).0.last() == values.last(),
        shuffled(values, state, index).0.drop_last() == shuffled(
            values.drop_last(),
            state,
            index,
        ).0,
    decreases index,
{
    if index >= 1 {
        let j = drawn_index(state, (index + 1) as nat) as int;
        lemma_shuffle_leaves_last(swapped(values, index, j), next_state(state), index - 1);
        assert(swapped(values, index, j).drop_last() =~= swapped(values.drop_last(), index, j));
    }
}

/// The deck of fight-the-landlord has four cards of each rank from three to two and two
/// jokers.
pub proof fn law_landlord_deck(k: int, j: int)
    requires
        0 <= k < 13,
        0 <= j < 4,
    ensures
        landlord_deck().len() == 54,
        landlord_deck()[4 * k + j].rank.value() == 3 + k,
        landlord_deck()[52].rank == Rank::SmallJoker,
        landlord_deck()[53].rank == Rank::BigJoker,
        forall|i: int| 0 <= i < 54 ==> !(#[trigger] landlord_deck()[i]).spade_three,
{
    assert((4 * k + j) / 4 == k);
    assert(landlord_deck()[4 * k + j].rank == Rank::of(3 + k));
}

/// The deck of run-fast has four cards of each rank from three to king.
pub proof fn law_run_fast_fours(k: int, j: int)
    requires
        0 <= k < 11,
        0 <= j < 4,
    ensures
        run_fast_deck()[4 * k + j].rank.value() == 3 + k,
{
    assert((4 * k + j) / 4 == k);
    assert(run_fast_deck()[4 * k + j].rank == Rank::of(3 + k));
}

/// Cards are dealt one by one from the end of the deck, to the three players in turn.
pub proof fn law_dealt_in_turn(deck: Seq<Card>, n: nat, i: int)
    requires
        3 * n <= deck.len(),
        0 <= i < n,
    ensures
        dealt(deck, n, 0)[i] == deck.reverse()[3 * i],
        dealt(deck, n, 1)[i] == deck.reverse()[3 * i + 1],
        dealt(deck, n, 2)[i] == deck.reverse()[3 * i + 2],
{
}

/// A seed changes with the time, and rotating loses no bit of the number of the process.
pub proof fn law_seeds(x: u64, y: u64)
    ensures
        rotated_left_17(x) == rotated_left_17(y) ==> x == y,
        x < 0x8000_0000_0000 ==> rotated_left_17(x) == x * 0x20000,
{
    assert(((x << 17) | (x >> 47)) == ((y << 17) | (y >> 47)) ==> x == y) by (bit_vector);
    assert(x < 0x8000_0000_0000 ==> ((x << 17) | (x >> 47)) == x * 0x20000) by (bit_vector);
}

} // verus!
