//! Ranks, cards, and how often each rank occurs among some cards.
use vstd::prelude::*;
use crate::sorting::SortKey;

verus! {

/// The rank of a card, in ascending order.
#[derive(Clone, Copy, Debug, PartialEq, Eq, PartialOrd, Ord, Hash, Structural)]
pub enum Rank {
    Three,
    Four,
    Five,
    Six,
    Seven,
    Eight,
    Nine,
    Ten,
    Jack,
    Queen,
    King,
    Ace,
    Two,
    SmallJoker,
    BigJoker,
}

/// The value of the lowest rank.
pub const LOWEST: u8 = 3;

/// The value of the ace, the highest rank that can stand in a run.
pub const HIGHEST_IN_RUN: u8 = 14;

/// One more than the value of the highest rank.
pub const VALUES_END: u8 = 18;

impl Rank {
    /// The value that orders the ranks: 3 for the three up to 17 for the big joker.
    pub open spec fn value(self) -> int {
        match self {
            Rank::Three => 3,
            Rank::Four => 4,
            Rank::Five => 5,
            Rank::Six => 6,
            Rank::Seven => 7,
            Rank::Eight => 8,
            Rank::Nine => 9,
            Rank::Ten => 10,
            Rank::Jack => 11,
            Rank::Queen => 12,
            Rank::King => 13,
            Rank::Ace => 14,
            Rank::Two => 15,
            Rank::SmallJoker => 16,
            Rank::BigJoker => 17,
        }
    }

    /// The value of this rank as a number.
    pub fn to_u8(self) -> (r: u8)
        ensures
            r == self.value(),
    {
        match self {
            Rank::Three => 3,
            Rank::Four => 4,
            Rank::Five => 5,
            Rank::Six => 6,
            Rank::Seven => 7,
            Rank::Eight => 8,
            Rank::Nine => 9,
            Rank::Ten => 10,
            Rank::Jack => 11,
            Rank::Queen => 12,
            Rank::King => 13,
            Rank::Ace => 14,
            Rank::Two => 15,
            Rank::SmallJoker => 16,
            Rank::BigJoker => 17,
        }
    }

    /// The rank with value `v`, which lies between 3 and 17.
    pub open spec fn of(v: int) -> Rank {
        if v <= 3 {
            Rank::Three
        } else if v == 4 {
            Rank::Four
        } else if v == 5 {
            Rank::Five
        } else if v == 6 {
            Rank::Six
        } else if v == 7 {
            Rank::Seven
        } else if v == 8 {
            Rank::Eight
        } else if v == 9 {
            Rank::Nine
        } else if v == 10 {
            Rank::Ten
        } else if v == 11 {
            Rank::Jack
        } else if v == 12 {
            Rank::Queen
        } else if v == 13 {
            Rank::King
        } else if v == 14 {
            Rank::Ace
        } else if v == 15 {
            Rank::Two
        } else if v == 16 {
            Rank::SmallJoker
        } else {
            Rank::BigJoker
        }
    }

    /// The rank with value `v`.
    pub fn from_u8(v: u8) -> (r: Rank)
        requires
            LOWEST <= v < VALUES_END,
        ensures
            r == Rank::of(v as int),
            r.value() == v,
    {
        match v {
            3 => Rank::Three,
            4 => Rank::Four,
            5 => Rank::Five,
            6 => Rank::Six,
            7 => Rank::Seven,
            8 => Rank::Eight,
            9 => Rank::Nine,
            10 => Rank::Ten,
            11 => Rank::Jack,
            12 => Rank::Queen,
            13 => Rank::King,
            14 => Rank::Ace,
            15 => Rank::Two,
            16 => Rank::SmallJoker,
            _ => Rank::BigJoker,
        }
    }

    /// What the rank is called in chat.
    pub open spec fn spec_label(self) -> Seq<char> {
        match self {
            Rank::Three => "3"@,
            Rank::Four => "4"@,
            Rank::Five => "5"@,
            Rank::Six => "6"@,
            Rank::Seven => "7"@,
            Rank::Eight => "8"@,
            Rank::Nine => "9"@,
            Rank::Ten => "10"@,
            Rank::Jack => "J"@,
            Rank::Queen => "Q"@,
            Rank::King => "K"@,
            Rank::Ace => "A"@,
            Rank::Two => "2"@,
            Rank::SmallJoker => "小王"@,
            Rank::BigJoker => "大王"@,
        }
    }

    /// What the rank is called in chat.
    pub fn label(self) -> (r: &'static str)
        ensures
            r@ == self.spec_label(),
    {
        match self {
            Rank::Three => "3",
            Rank::Four => "4",
            Rank::Five => "5",
            Rank::Six => "6",
            Rank::Seven => "7",
            Rank::Eight => "8",
            Rank::Nine => "9",
            Rank::Ten => "10",
            Rank::Jack => "J",
            Rank::Queen => "Q",
            Rank::King => "K",
            Rank::Ace => "A",
            Rank::Two => "2",
            Rank::SmallJoker => "小王",
            Rank::BigJoker => "大王",
        }
    }

    /// The place of this rank in a run: its value up to the ace, nothing above it.
    pub fn sequence_value(self) -> (r: Option<u8>)
        ensures
            r == (if self.value() <= HIGHEST_IN_RUN {
                Some(self.value() as u8)
            } else {
                None::<u8>
            }),
    {
        let v: u8 = self.to_u8();
        if v <= HIGHEST_IN_RUN {
            Some(v)
        } else {
            None
        }
    }
}

/// The rank of a number card, picture card, ace or two with value `value`.
pub fn rank_from_value(value: u8) -> (r: Option<Rank>)
    ensures
        r matches Some(rank) ==> rank.value() == value && rank.value() <= 15,
        r is None <==> !(3 <= value <= 15),
{
    if value < 3 || value > 15 {
        None
    } else {
        Some(Rank::from_u8(value))
    }
}

/// Values and ranks correspond one to one.
pub proof fn lemma_rank_value(r: Rank)
    ensures
        LOWEST <= r.value() < VALUES_END,
        Rank::of(r.value()) == r,
{
}

/// The ranks ascend from the three over the ace and the two to the jokers, and no
/// two are equal.
pub proof fn law_ranks_ascend(a: Rank, b: Rank)
    ensures
        Rank::Three.value() < Rank::Four.value() < Rank::Five.value() < Rank::Six.value()
            < Rank::Seven.value() < Rank::Eight.value() < Rank::Nine.value() < Rank::Ten.value()
            < Rank::Jack.value() < Rank::Queen.value() < Rank::King.value() < Rank::Ace.value()
            < Rank::Two.value() < Rank::SmallJoker.value() < Rank::BigJoker.value(),
        a != b ==> a.value() < b.value() || b.value() < a.value(),
        Rank::of(a.value()) == a,
{
}

impl SortKey for Rank {
    open spec fn sort_key(self) -> int {
        self.value()
    }

    proof fn lemma_key_injective(a: Self, b: Self) {
        lemma_rank_value(a);
        lemma_rank_value(b);
    }

    fn key(&self) -> (r: u8) {
        self.to_u8()
    }
}

/// A card. Suits do not matter, except that one card is the three of spades.
#[derive(Clone, Copy, Debug, PartialEq, Eq, Structural)]
pub struct Card {
    pub rank: Rank,
    pub spade_three: bool,
}

impl Card {
    /// A card that is not the three of spades.
    pub open spec fn plain(rank: Rank) -> Card {
        Card { rank, spade_three: false }
    }

    /// A card that is not the three of spades.
    pub fn new(rank: Rank) -> (r: Card)
        ensures
            r == Card::plain(rank),
    {
        Card { rank, spade_three: false }
    }
}

impl SortKey for Card {
    open spec fn sort_key(self) -> int {
        2 * self.rank.value() + if self.spade_three {
            1int
        } else {
            0int
        }
    }

    proof fn lemma_key_injective(a: Self, b: Self) {
        lemma_rank_value(a.rank);
        lemma_rank_value(b.rank);
        assert(a.rank.value() == b.rank.value());
    }

    fn key(&self) -> (r: u8) {
        proof {
            lemma_rank_value(self.rank);
        }
        let v: u8 = self.rank.to_u8();
        if self.spade_three {
            2 * v + 1
        } else {
            2 * v
        }
    }
}

// ---------------------------------------------------------------------------
// Counting ranks
// ---------------------------------------------------------------------------
/// The ranks of `cards`.
pub open spec fn ranks_of(cards: Seq<Card>) -> Seq<Rank> {
    Seq::new(cards.len(), |i: int| cards[i].rank)
}

/// How often a rank with value `v` occurs in `ranks`.
pub open spec fn occurrences(ranks: Seq<Rank>, v: int) -> nat
    decreases ranks.len(),
{
    if ranks.len() == 0 {
        0
    } else {
        occurrences(ranks.drop_last(), v) + if ranks.last().value() == v {
            1nat
        } else {
            0nat
        }
    }
}

/// The ranks of `cards`, as a vector.
pub fn card_ranks(cards: &Vec<Card>) -> (r: Vec<Rank>)
    ensures
        r@ == ranks_of(cards@),
{
    let mut r: Vec<Rank> = Vec::new();
    let mut i: usize = 0;
    while i < cards.len()
        invariant
            i <= cards@.len(),
            r@ == ranks_of(cards@).take(i as int),
        decreases cards@.len() - i,
    {
        r.push(cards[i].rank);
        i = i + 1;
        proof {
            assert(r@ =~= ranks_of(cards@).take(i as int));
        }
    }
    proof {
        assert(r@ =~= ranks_of(cards@));
    }
    r
}

/// How often each rank occurs, indexed by the value of the rank less 3.
pub struct RankCounts {
    pub counts: Vec<usize>,
}

impl RankCounts {
    /// Whether these are the counts of `ranks`.
    pub open spec fn counts_of(&self, ranks: Seq<Rank>) -> bool {
        &&& self.counts@.len() == 15
        &&& forall|v: int|
            LOWEST <= v < VALUES_END ==> #[trigger] occurrences(ranks, v) == self.counts@[v - 3]
    }

    /// How often the rank with value `v` occurs.
    pub fn at(&self, v: u8) -> (r: usize)
        requires
            self.counts@.len() == 15,
            LOWEST <= v < VALUES_END,
        ensures
            r == self.counts@[v - 3],
    {
        self.counts[(v - 3) as usize]
    }

    /// How often `rank` occurs, if it does.
    pub fn get(&self, rank: &Rank) -> (r: Option<usize>)
        requires
            self.counts@.len() == 15,
        ensures
            r == (if self.counts@[rank.value() - 3] == 0 {
                None
            } else {
                Some(self.counts@[rank.value() - 3])
            }),
    {
        proof {
            lemma_rank_value(*rank);
        }
        let n: usize = self.at(rank.to_u8());
        if n == 0 {
            None
        } else {
            Some(n)
        }
    }

    /// Whether `rank` occurs.
    pub fn contains_key(&self, rank: &Rank) -> (r: bool)
        requires
            self.counts@.len() == 15,
        ensures
            r == (self.counts@[rank.value() - 3] > 0),
    {
        self.get(rank).is_some()
    }
}

/// Counts how often each rank occurs.
pub fn rank_counts(ranks: &Vec<Rank>) -> (r: RankCounts)
    ensures
        r.counts_of(ranks@),
{
    let mut counts: Vec<usize> = Vec::new();
    let mut filled: usize = 0;
    while filled < 15
        invariant
            filled <= 15,
            counts@.len() == filled,
            forall|j: int| 0 <= j < filled ==> counts@[j] == 0,
        decreases 15 - filled,
    {
        counts.push(0);
        filled = filled + 1;
    }
    let mut i: usize = 0;
    proof {
        assert(ranks@.take(0) =~= Seq::<Rank>::empty());
    }
    while i < ranks.len()
        invariant
            i <= ranks@.len(),
            counts@.len() == 15,
            forall|v: int|
                LOWEST <= v < VALUES_END ==> #[trigger] occurrences(ranks@.take(i as int), v)
                    == counts@[v - 3],
        decreases ranks@.len() - i,
    {
        let rank: Rank = ranks[i];
        proof {
            lemma_rank_value(rank);
            assert(ranks@.take(i + 1).drop_last() =~= ranks@.take(i as int));
            lemma_occurrences_bound(ranks@.take(i as int), rank.value());
        }
        let index: usize = (rank.to_u8() - 3) as usize;
        let next: usize = counts[index] + 1;
        counts.set(index, next);
        proof {
            assert forall|v: int| LOWEST <= v < VALUES_END implies #[trigger] occurrences(
                ranks@.take(i + 1),
                v,
            ) == counts@[v - 3] by {
                assert(occurrences(ranks@.take(i as int), v) == if v - 3 == index {
                    counts@[v - 3] - 1
                } else {
                    counts@[v - 3] as int
                });
            }
        }
        i = i + 1;
    }
    proof {
        assert(ranks@.take(ranks@.len() as int) =~= ranks@);
    }
    RankCounts { counts }
}

/// A rank occurs at most as often as there are ranks.
pub proof fn lemma_occurrences_bound(ranks: Seq<Rank>, v: int)
    ensures
        occurrences(ranks, v) <= ranks.len(),
    decreases ranks.len(),
{
    if ranks.len() > 0 {
        lemma_occurrences_bound(ranks.drop_last(), v);
    }
}

/// Two different ranks together occur at most as often as there are ranks.
pub proof fn lemma_two_occurrences(ranks: Seq<Rank>, v: int, w: int)
    requires
        v != w,
    ensures
        occurrences(ranks, v) + occurrences(ranks, w) <= ranks.len(),
    decreases ranks.len(),
{
    if ranks.len() > 0 {
        lemma_two_occurrences(ranks.drop_last(), v, w);
    }
}

/// A rank that stands in `ranks` occurs there.
pub proof fn lemma_occurs(ranks: Seq<Rank>, i: int)
    requires
        0 <= i < ranks.len(),
    ensures
        occurrences(ranks, ranks[i].value()) >= 1,
    decreases ranks.len(),
{
    if i < ranks.len() - 1 {
        lemma_occurs(ranks.drop_last(), i);
    }
}

/// Where a rank occurs, it stands somewhere.
pub proof fn lemma_occurs_somewhere(ranks: Seq<Rank>, v: int) -> (i: int)
    requires
        occurrences(ranks, v) >= 1,
    ensures
        0 <= i < ranks.len(),
        ranks[i].value() == v,
    decreases ranks.len(),
{
    if ranks.last().value() == v {
        ranks.len() - 1
    } else {
        lemma_occurs_somewhere(ranks.drop_last(), v)
    }
}

/// Counting agrees with the multiset of the ranks.
pub proof fn lemma_occurrences_multiset(ranks: Seq<Rank>, r: Rank)
    ensures
        occurrences(ranks, r.value()) == ranks.to_multiset().count(r),
    decreases ranks.len(),
{
    broadcast use vstd::seq_lib::group_to_multiset_ensures;
    broadcast use vstd::multiset::group_multiset_axioms;

    if ranks.len() == 0 {
    } else {
        let front = ranks.drop_last();
        lemma_occurrences_multiset(front, r);
        assert(ranks =~= front.push(ranks.last()));
        lemma_rank_value(r);
        lemma_rank_value(ranks.last());
    }
}

/// Occurrences in two sequences, one after the other, add up.
pub proof fn lemma_occurrences_add(a: Seq<Rank>, b: Seq<Rank>, v: int)
    ensures
        occurrences(a + b, v) == occurrences(a, v) + occurrences(b, v),
    decreases b.len(),
{
    if b.len() == 0 {
        assert(a + b =~= a);
    } else {
        assert((a + b).drop_last() =~= a + b.drop_last());
        lemma_occurrences_add(a, b.drop_last(), v);
    }
}

} // verus!
