//! The patterns in which cards can be played, and which pattern beats which.
use vstd::prelude::*;
use crate::card_games::cards::Rank;
use crate::card_games::cards::RankCounts;
use crate::card_games::cards::rank_counts;
use crate::card_games::cards::HIGHEST_IN_RUN;
use crate::card_games::cards::LOWEST;
use crate::card_games::cards::VALUES_END;
use crate::card_games::cards::{
    lemma_occurrences_add, lemma_occurrences_bound, lemma_occurrences_multiset, lemma_occurs,
    lemma_occurs_somewhere, lemma_rank_value, lemma_two_occurrences, occurrences,
};

verus! {

/// The two games that are played.
#[derive(Clone, Copy, Debug, PartialEq, Eq, Structural)]
pub enum CardGameVariant {
    Landlord,
    HunanRunFast,
}

impl CardGameVariant {
    /// What the game is called in chat.
    pub open spec fn spec_label(self) -> Seq<char> {
        match self {
            CardGameVariant::Landlord => "斗地主"@,
            CardGameVariant::HunanRunFast => "跑得快"@,
        }
    }

    /// What the game is called in chat.
    pub fn label(self) -> (r: &'static str)
        ensures
            r@ == self.spec_label(),
    {
        match self {
            CardGameVariant::Landlord => "斗地主",
            CardGameVariant::HunanRunFast => "跑得快",
        }
    }
}

/// A pattern in which cards are played, with the rank that decides its strength.
#[derive(Clone, Copy, Debug, PartialEq, Eq, Structural)]
pub enum PlayPattern {
    Single(Rank),
    Pair(Rank),
    Triple(Rank),
    TripleSingle(Rank),
    TriplePair(Rank),
    Straight { high: Rank, length: usize },
    PairStraight { high: Rank, length: usize },
    Airplane { high: Rank, triples: usize },
    AirplaneSingles { high: Rank, triples: usize },
    AirplanePairs { high: Rank, triples: usize },
    FourTwoSingles(Rank),
    FourTwoPairs(Rank),
    Bomb(Rank),
    JokerBomb,
}

impl PlayPattern {
    /// What the pattern is called in chat.
    pub open spec fn spec_label(self) -> Seq<char> {
        match self {
            PlayPattern::Single(_) => "单张"@,
            PlayPattern::Pair(_) => "对子"@,
            PlayPattern::Triple(_) => "三张"@,
            PlayPattern::TripleSingle(_) => "三带一"@,
            PlayPattern::TriplePair(_) => "三带二"@,
            PlayPattern::Straight { .. } => "顺子"@,
            PlayPattern::PairStraight { .. } => "连对"@,
            PlayPattern::Airplane { .. } => "飞机"@,
            PlayPattern::AirplaneSingles { .. } => "飞机带单"@,
            PlayPattern::AirplanePairs { .. } => "飞机带对"@,
            PlayPattern::FourTwoSingles(_) => "四带二单"@,
            PlayPattern::FourTwoPairs(_) => "四带二对"@,
            PlayPattern::Bomb(_) => "炸弹"@,
            PlayPattern::JokerBomb => "王炸"@,
        }
    }

    /// What the pattern is called in chat.
    pub fn label(&self) -> (r: &'static str)
        ensures
            r@ == self.spec_label(),
    {
        match self {
            PlayPattern::Single(_) => "单张",
            PlayPattern::Pair(_) => "对子",
            PlayPattern::Triple(_) => "三张",
            PlayPattern::TripleSingle(_) => "三带一",
            PlayPattern::TriplePair(_) => "三带二",
            PlayPattern::Straight { .. } => "顺子",
            PlayPattern::PairStraight { .. } => "连对",
            PlayPattern::Airplane { .. } => "飞机",
            PlayPattern::AirplaneSingles { .. } => "飞机带单",
            PlayPattern::AirplanePairs { .. } => "飞机带对",
            PlayPattern::FourTwoSingles(_) => "四带二单",
            PlayPattern::FourTwoPairs(_) => "四带二对",
            PlayPattern::Bomb(_) => "炸弹",
            PlayPattern::JokerBomb => "王炸",
        }
    }

    /// Whether the pattern is a bomb of either kind.
    pub open spec fn bomb(self) -> bool {
        self is Bomb || self is JokerBomb
    }

    /// Whether the pattern is a bomb of either kind.
    pub fn is_bomb(&self) -> (r: bool)
        ensures
            r == self.bomb(),
    {
        match self {
            PlayPattern::Bomb(_) => true,
            PlayPattern::JokerBomb => true,
            _ => false,
        }
    }

    /// The value of the rank that decides the pattern's strength; the pair of
    /// jokers is above every rank.
    pub open spec fn spec_strength(self) -> int {
        match self {
            PlayPattern::Single(rank) => rank.value(),
            PlayPattern::Pair(rank) => rank.value(),
            PlayPattern::Triple(rank) => rank.value(),
            PlayPattern::TripleSingle(rank) => rank.value(),
            PlayPattern::TriplePair(rank) => rank.value(),
            PlayPattern::Straight { high, .. } => high.value(),
            PlayPattern::PairStraight { high, .. } => high.value(),
            PlayPattern::Airplane { high, .. } => high.value(),
            PlayPattern::AirplaneSingles { high, .. } => high.value(),
            PlayPattern::AirplanePairs { high, .. } => high.value(),
            PlayPattern::FourTwoSingles(rank) => rank.value(),
            PlayPattern::FourTwoPairs(rank) => rank.value(),
            PlayPattern::Bomb(rank) => rank.value(),
            PlayPattern::JokerBomb => 255,
        }
    }

    /// The strength of the pattern among those of its shape.
    pub fn strength(&self) -> (r: u8)
        ensures
            r == self.spec_strength(),
    {
        match self {
            PlayPattern::Single(rank) => rank.to_u8(),
            PlayPattern::Pair(rank) => rank.to_u8(),
            PlayPattern::Triple(rank) => rank.to_u8(),
            PlayPattern::TripleSingle(rank) => rank.to_u8(),
            PlayPattern::TriplePair(rank) => rank.to_u8(),
            PlayPattern::Straight { high, .. } => high.to_u8(),
            PlayPattern::PairStraight { high, .. } => high.to_u8(),
            PlayPattern::Airplane { high, .. } => high.to_u8(),
            PlayPattern::AirplaneSingles { high, .. } => high.to_u8(),
            PlayPattern::AirplanePairs { high, .. } => high.to_u8(),
            PlayPattern::FourTwoSingles(rank) => rank.to_u8(),
            PlayPattern::FourTwoPairs(rank) => rank.to_u8(),
            PlayPattern::Bomb(rank) => rank.to_u8(),
            PlayPattern::JokerBomb => 255,
        }
    }

    /// Whether two patterns have the same shape: the same kind, and for runs
    /// the same length.
    pub open spec fn same_shape(self, other: PlayPattern) -> bool {
        match (self, other) {
            (PlayPattern::Single(_), PlayPattern::Single(_)) => true,
            (PlayPattern::Pair(_), PlayPattern::Pair(_)) => true,
            (PlayPattern::Triple(_), PlayPattern::Triple(_)) => true,
            (PlayPattern::TripleSingle(_), PlayPattern::TripleSingle(_)) => true,
            (PlayPattern::TriplePair(_), PlayPattern::TriplePair(_)) => true,
            (
                PlayPattern::Straight { length: left, .. },
                PlayPattern::Straight { length: right, .. },
            ) => left == right,
            (
                PlayPattern::PairStraight { length: left, .. },
                PlayPattern::PairStraight { length: right, .. },
            ) => left == right,
            (
                PlayPattern::Airplane { triples: left, .. },
                PlayPattern::Airplane { triples: right, .. },
            ) => left == right,
            (
                PlayPattern::AirplaneSingles { triples: left, .. },
                PlayPattern::AirplaneSingles { triples: right, .. },
            ) => left == right,
            (
                PlayPattern::AirplanePairs { triples: left, .. },
                PlayPattern::AirplanePairs { triples: right, .. },
            ) => left == right,
            (PlayPattern::FourTwoSingles(_), PlayPattern::FourTwoSingles(_)) => true,
            (PlayPattern::FourTwoPairs(_), PlayPattern::FourTwoPairs(_)) => true,
            (PlayPattern::Bomb(_), PlayPattern::Bomb(_)) => true,
            (PlayPattern::JokerBomb, PlayPattern::JokerBomb) => true,
            _ => false,
        }
    }

    /// Whether the pattern beats `previous`: the pair of jokers beats all
    /// else, a bomb beats all that is no bomb, and otherwise a pattern beats
    /// the weaker ones of its shape.
    pub open spec fn spec_beats(self, previous: PlayPattern) -> bool {
        ||| self.same_shape(previous) && self.spec_strength() > previous.spec_strength()
        ||| self is JokerBomb && previous !is JokerBomb
        ||| self is Bomb && !previous.bomb()
    }

    /// Whether the pattern beats `previous`.
    pub fn beats(&self, previous: &PlayPattern) -> (r: bool)
        ensures
            r == self.spec_beats(*previous),
    {
        match (self, previous) {
            (PlayPattern::JokerBomb, PlayPattern::JokerBomb) => false,
            (PlayPattern::JokerBomb, _) => true,
            (_, PlayPattern::JokerBomb) => false,
            (PlayPattern::Bomb(left), PlayPattern::Bomb(right)) => left.to_u8() > right.to_u8(),
            (PlayPattern::Bomb(_), _) => true,
            (_, PlayPattern::Bomb(_)) => false,
            (PlayPattern::Single(left), PlayPattern::Single(right)) => left.to_u8()
                > right.to_u8(),
            (PlayPattern::Pair(left), PlayPattern::Pair(right)) => left.to_u8() > right.to_u8(),
            (PlayPattern::Triple(left), PlayPattern::Triple(right)) => left.to_u8()
                > right.to_u8(),
            (PlayPattern::TripleSingle(left), PlayPattern::TripleSingle(right)) => left.to_u8()
                > right.to_u8(),
            (PlayPattern::TriplePair(left), PlayPattern::TriplePair(right)) => left.to_u8()
                > right.to_u8(),
            (PlayPattern::FourTwoSingles(left), PlayPattern::FourTwoSingles(right)) => left.to_u8()
                > right.to_u8(),
            (PlayPattern::FourTwoPairs(left), PlayPattern::FourTwoPairs(right)) => left.to_u8()
                > right.to_u8(),
            (
                PlayPattern::Straight { high: left, length: left_len },
                PlayPattern::Straight { high: right, length: right_len },
            ) => *left_len == *right_len && left.to_u8() > right.to_u8(),
            (
                PlayPattern::PairStraight { high: left, length: left_len },
                PlayPattern::PairStraight { high: right, length: right_len },
            ) => *left_len == *right_len && left.to_u8() > right.to_u8(),
            (
                PlayPattern::Airplane { high: left, triples: left_len },
                PlayPattern::Airplane { high: right, triples: right_len },
            ) => *left_len == *right_len && left.to_u8() > right.to_u8(),
            (
                PlayPattern::AirplaneSingles { high: left, triples: left_len },
                PlayPattern::AirplaneSingles { high: right, triples: right_len },
            ) => *left_len == *right_len && left.to_u8() > right.to_u8(),
            (
                PlayPattern::AirplanePairs { high: left, triples: left_len },
                PlayPattern::AirplanePairs { high: right, triples: right_len },
            ) => *left_len == *right_len && left.to_u8() > right.to_u8(),
            _ => false,
        }
    }
}

/// No pattern beats itself.
pub proof fn law_beats_irreflexive(p: PlayPattern)
    ensures
        !p.spec_beats(p),
{
}

/// Of two patterns, at most one beats the other.
pub proof fn law_beats_asymmetric(p: PlayPattern, q: PlayPattern)
    requires
        p.spec_beats(q),
    ensures
        !q.spec_beats(p),
{
}

/// What beats a pattern that beats a third beats the third too.
pub proof fn law_beats_transitive(p: PlayPattern, q: PlayPattern, r: PlayPattern)
    requires
        p.spec_beats(q),
        q.spec_beats(r),
    ensures
        p.spec_beats(r),
{
}

/// Apart from bombs, a pattern beats only patterns of its own shape.
pub proof fn law_beats_needs_same_shape(p: PlayPattern, q: PlayPattern)
    requires
        p.spec_beats(q),
        !p.bomb(),
    ensures
        p.same_shape(q),
        p.spec_strength() > q.spec_strength(),
{
}

// ---------------------------------------------------------------------------
// Which cards form which pattern
// ---------------------------------------------------------------------------
/// Whether the values from `high - length + 1` to `high`, none above the ace,
/// occur `copies` times each.
pub open spec fn has_body(ranks: Seq<Rank>, copies: nat, length: int, high: int) -> bool {
    &&& LOWEST <= high - length + 1
    &&& high <= HIGHEST_IN_RUN
    &&& forall|v: int| high - length < v <= high ==> #[trigger] occurrences(ranks, v) == copies
}

/// Whether `ranks` is a run: `length` values in a row up to `high`, none above
/// the ace, each `copies` times, and nothing else.
pub open spec fn is_run(ranks: Seq<Rank>, copies: nat, length: int, high: int) -> bool {
    &&& has_body(ranks, copies, length, high)
    &&& forall|v: int|
        LOWEST <= v < VALUES_END && !(high - length < v <= high) ==> #[trigger] occurrences(
            ranks,
            v,
        ) == 0
}

/// The least number of pairs in a run of pairs.
pub open spec fn least_pairs(variant: CardGameVariant) -> int {
    match variant {
        CardGameVariant::Landlord => 3,
        CardGameVariant::HunanRunFast => 2,
    }
}

/// Whether cards with these ranks form the pattern `p` in the given game.
pub open spec fn forms(ranks: Seq<Rank>, p: PlayPattern, variant: CardGameVariant) -> bool {
    match p {
        PlayPattern::Single(r) => ranks.len() == 1 && ranks[0] == r,
        PlayPattern::Pair(r) => ranks.len() == 2 && occurrences(ranks, r.value()) == 2,
        PlayPattern::Triple(r) => ranks.len() == 3 && occurrences(ranks, r.value()) == 3,
        PlayPattern::Bomb(r) => ranks.len() == 4 && occurrences(ranks, r.value()) == 4,
        PlayPattern::JokerBomb => {
            &&& ranks.len() == 2
            &&& occurrences(ranks, Rank::SmallJoker.value()) == 1
            &&& occurrences(ranks, Rank::BigJoker.value()) == 1
        },
        PlayPattern::TripleSingle(r) => ranks.len() == 4 && occurrences(ranks, r.value()) == 3,
        PlayPattern::TriplePair(r) => {
            &&& ranks.len() == 5
            &&& occurrences(ranks, r.value()) == 3
            &&& exists|v: int| LOWEST <= v < VALUES_END && #[trigger] occurrences(ranks, v) == 2
        },
        PlayPattern::Straight { high, length } => {
            &&& ranks.len() == length
            &&& length >= 5
            &&& is_run(ranks, 1, length as int, high.value())
        },
        PlayPattern::PairStraight { high, length } => {
            &&& ranks.len() == 2 * length
            &&& length >= least_pairs(variant)
            &&& is_run(ranks, 2, length as int, high.value())
        },
        PlayPattern::Airplane { high, triples } => {
            &&& ranks.len() == 3 * triples
            &&& triples >= 2
            &&& is_run(ranks, 3, triples as int, high.value())
        },
        PlayPattern::AirplaneSingles { high, triples } => {
            &&& ranks.len() == 4 * triples
            &&& triples >= 2
            &&& has_body(ranks, 3, triples as int, high.value())
            &&& forall|v: int|
                LOWEST <= v < VALUES_END && !(high.value() - triples < v <= high.value())
                    ==> #[trigger] occurrences(ranks, v) <= 2
        },
        PlayPattern::AirplanePairs { high, triples } => {
            &&& ranks.len() == 5 * triples
            &&& triples >= 2
            &&& has_body(ranks, 3, triples as int, high.value())
            &&& forall|v: int|
                LOWEST <= v < VALUES_END && !(high.value() - triples < v <= high.value()) ==> {
                    ||| #[trigger] occurrences(ranks, v) == 0
                    ||| occurrences(ranks, v) == 2
                }
        },
        PlayPattern::FourTwoSingles(r) => ranks.len() == 6 && occurrences(ranks, r.value()) == 4,
        PlayPattern::FourTwoPairs(r) => {
            &&& ranks.len() == 8
            &&& occurrences(ranks, r.value()) == 4
            &&& forall|v: int|
                LOWEST <= v < VALUES_END && v != r.value() ==> {
                    ||| #[trigger] occurrences(ranks, v) == 0
                    ||| occurrences(ranks, v) == 2
                }
        },
    }
}

/// Whether cards with these ranks form no pattern at all.
pub open spec fn forms_nothing(ranks: Seq<Rank>, variant: CardGameVariant) -> bool {
    forall|p: PlayPattern| !#[trigger] forms(ranks, p, variant)
}

/// How often the deciding rank of the pattern occurs.
spec fn copies(p: PlayPattern) -> nat {
    match p {
        PlayPattern::Single(_) => 1,
        PlayPattern::Straight { .. } => 1,
        PlayPattern::Pair(_) => 2,
        PlayPattern::PairStraight { .. } => 2,
        PlayPattern::FourTwoSingles(_) => 4,
        PlayPattern::FourTwoPairs(_) => 4,
        PlayPattern::Bomb(_) => 4,
        PlayPattern::JokerBomb => 0,
        _ => 3,
    }
}

/// The number of triples where the pattern is an airplane, with or without wings.
spec fn airplane(p: PlayPattern) -> Option<int> {
    match p {
        PlayPattern::Airplane { triples, .. } => Some(triples as int),
        PlayPattern::AirplaneSingles { triples, .. } => Some(triples as int),
        PlayPattern::AirplanePairs { triples, .. } => Some(triples as int),
        _ => None,
    }
}

/// Cards form at most one pattern.
pub proof fn law_one_pattern(
    ranks: Seq<Rank>,
    p: PlayPattern,
    q: PlayPattern,
    variant: CardGameVariant,
)
    requires
        forms(ranks, p, variant),
        forms(ranks, q, variant),
    ensures
        p == q,
{
    lemma_same_strength(ranks, p, q, variant);
    lemma_same_shape(ranks, p, q, variant);
    lemma_shape_and_strength(p, q);
}

/// A pattern is known by its shape and its strength.
proof fn lemma_shape_and_strength(p: PlayPattern, q: PlayPattern)
    requires
        p.same_shape(q),
        p.spec_strength() == q.spec_strength(),
    ensures
        p == q,
{
    assert forall|r: Rank| Rank::of(#[trigger] r.value()) == r by {
        lemma_rank_value(r);
    }
}

proof fn lemma_copies(ranks: Seq<Rank>, p: PlayPattern, variant: CardGameVariant)
    requires
        forms(ranks, p, variant),
    ensures
        p !is JokerBomb ==> occurrences(ranks, p.spec_strength()) == copies(p),
{
    if p is Single {
        lemma_occurs(ranks, 0);
        lemma_occurrences_bound(ranks, p.spec_strength());
    }
}

proof fn lemma_airplane(ranks: Seq<Rank>, p: PlayPattern, v: int, variant: CardGameVariant)
    requires
        forms(ranks, p, variant),
        airplane(p) is Some,
        LOWEST <= v < VALUES_END,
    ensures
        airplane(p)->0 >= 2,
        LOWEST <= p.spec_strength() - airplane(p)->0 + 1,
        p.spec_strength() <= HIGHEST_IN_RUN,
        p.spec_strength() - airplane(p)->0 < v <= p.spec_strength() ==> occurrences(ranks, v) == 3,
        !(p.spec_strength() - airplane(p)->0 < v <= p.spec_strength()) ==> occurrences(ranks, v)
            <= 2,
{
}

proof fn lemma_same_triples(
    ranks: Seq<Rank>,
    p: PlayPattern,
    q: PlayPattern,
    variant: CardGameVariant,
)
    requires
        forms(ranks, p, variant),
        forms(ranks, q, variant),
        airplane(p) is Some,
        airplane(q) is Some,
        p.spec_strength() == q.spec_strength(),
    ensures
        airplane(p)->0 == airplane(q)->0,
{
    let a = p.spec_strength();
    lemma_airplane(ranks, p, a, variant);
    lemma_airplane(ranks, q, a, variant);
    if airplane(p)->0 < airplane(q)->0 {
        lemma_airplane(ranks, p, a - airplane(p)->0, variant);
        lemma_airplane(ranks, q, a - airplane(p)->0, variant);
    } else if airplane(q)->0 < airplane(p)->0 {
        lemma_airplane(ranks, p, a - airplane(q)->0, variant);
        lemma_airplane(ranks, q, a - airplane(q)->0, variant);
    }
}

/// The number of cards of a pattern.
spec fn pattern_size(p: PlayPattern) -> int {
    match p {
        PlayPattern::Single(_) => 1,
        PlayPattern::Pair(_) => 2,
        PlayPattern::Triple(_) => 3,
        PlayPattern::TripleSingle(_) => 4,
        PlayPattern::TriplePair(_) => 5,
        PlayPattern::Straight { length, .. } => length as int,
        PlayPattern::PairStraight { length, .. } => 2 * length,
        PlayPattern::Airplane { triples, .. } => 3 * triples,
        PlayPattern::AirplaneSingles { triples, .. } => 4 * triples,
        PlayPattern::AirplanePairs { triples, .. } => 5 * triples,
        PlayPattern::FourTwoSingles(_) => 6,
        PlayPattern::FourTwoPairs(_) => 8,
        PlayPattern::Bomb(_) => 4,
        PlayPattern::JokerBomb => 2,
    }
}

/// A pattern is at least as long as its kind asks.
proof fn lemma_pattern_size(ranks: Seq<Rank>, p: PlayPattern, variant: CardGameVariant)
    requires
        forms(ranks, p, variant),
    ensures
        ranks.len() == pattern_size(p),
        p is Straight ==> pattern_size(p) >= 5,
        p is PairStraight ==> pattern_size(p) >= 4,
        airplane(p) is Some ==> pattern_size(p) >= 6,
{
}

proof fn lemma_same_shape(
    ranks: Seq<Rank>,
    p: PlayPattern,
    q: PlayPattern,
    variant: CardGameVariant,
)
    requires
        forms(ranks, p, variant),
        forms(ranks, q, variant),
        p.spec_strength() == q.spec_strength(),
    ensures
        p.same_shape(q),
{
    lemma_copies(ranks, p, variant);
    lemma_copies(ranks, q, variant);
    lemma_pattern_size(ranks, p, variant);
    lemma_pattern_size(ranks, q, variant);
    if airplane(p) is Some && airplane(q) is Some {
        lemma_same_triples(ranks, p, q, variant);
    }
    lemma_shape_by_size(p, q);
}

proof fn lemma_shape_by_size(p: PlayPattern, q: PlayPattern)
    requires
        p.spec_strength() == q.spec_strength(),
        p !is JokerBomb ==> copies(p) == copies(q),
        pattern_size(p) == pattern_size(q),
        p is Straight ==> pattern_size(p) >= 5,
        p is PairStraight ==> pattern_size(p) >= 4,
        q is Straight ==> pattern_size(q) >= 5,
        q is PairStraight ==> pattern_size(q) >= 4,
        airplane(p) is Some ==> pattern_size(p) >= 6,
        airplane(q) is Some ==> pattern_size(q) >= 6,
        airplane(p) is Some && airplane(q) is Some ==> airplane(p)->0 == airplane(q)->0,
    ensures
        p.same_shape(q),
{
}

#[verifier::spinoff_prover]
#[verifier::rlimit(40)]
proof fn lemma_same_strength(
    ranks: Seq<Rank>,
    p: PlayPattern,
    q: PlayPattern,
    variant: CardGameVariant,
)
    requires
        forms(ranks, p, variant),
        forms(ranks, q, variant),
    ensures
        p.spec_strength() == q.spec_strength(),
{
    lemma_strength_occurs(ranks, p, variant);
    lemma_strength_occurs(ranks, q, variant);
    let a = p.spec_strength();
    let b = q.spec_strength();
    if a != b {
        if p is JokerBomb || q is JokerBomb {
            lemma_two_occurrences(ranks, 16, 17);
            if a != 16 {
                lemma_two_occurrences(ranks, a, 16);
            }
            if b != 16 {
                lemma_two_occurrences(ranks, b, 16);
            }
        } else {
            lemma_two_occurrences(ranks, a, b);
        }
    }
}

/// The deciding rank of a pattern occurs among its cards.
proof fn lemma_strength_occurs(ranks: Seq<Rank>, p: PlayPattern, variant: CardGameVariant)
    requires
        forms(ranks, p, variant),
    ensures
        p !is JokerBomb ==> LOWEST <= p.spec_strength() < VALUES_END,
        p !is JokerBomb ==> occurrences(ranks, p.spec_strength()) >= 1,
{
    match p {
        PlayPattern::Single(r) => {
            lemma_occurs(ranks, 0);
        },
        _ => {},
    }
}


// ---------------------------------------------------------------------------
// Recognising a pattern
// ---------------------------------------------------------------------------
/// The lowest rank that occurs exactly `size` times.
fn group_rank(counts: &RankCounts, size: usize, Ghost(ranks): Ghost<Seq<Rank>>) -> (r: Option<
    Rank,
>)
    requires
        counts.counts_of(ranks),
    ensures
        match r {
            Some(rank) => {
                &&& occurrences(ranks, rank.value()) == size
                &&& forall|v: int|
                    LOWEST <= v < rank.value() ==> #[trigger] occurrences(ranks, v) != size
            },
            None => forall|v: int|
                LOWEST <= v < VALUES_END ==> #[trigger] occurrences(ranks, v) != size,
        },
{
    let mut v: u8 = LOWEST;
    while v < VALUES_END
        invariant
            LOWEST <= v <= VALUES_END,
            counts.counts_of(ranks),
            forall|w: int| LOWEST <= w < v ==> #[trigger] occurrences(ranks, w) != size,
        decreases VALUES_END - v,
    {
        proof {
            assert(occurrences(ranks, v as int) == counts.counts@[v - 3]);
        }
        if counts.at(v) == size {
            return Some(Rank::from_u8(v));
        }
        v = v + 1;
    }
    None
}

/// Whether the cards are one run of values up to the ace, each `copies` times;
/// the result is the highest rank and the number of values.
fn consecutive(counts: &RankCounts, copies: usize, Ghost(ranks): Ghost<Seq<Rank>>) -> (r: Option<
    (Rank, usize),
>)
    requires
        counts.counts_of(ranks),
        copies > 0,
    ensures
        match r {
            Some((high, length)) => length >= 1 && is_run(
                ranks,
                copies as nat,
                length as int,
                high.value(),
            ),
            None => forall|high: int, length: int|
                length >= 1 ==> !#[trigger] is_run(ranks, copies as nat, length, high),
        },
{
    let mut low: u8 = LOWEST;
    while low < VALUES_END && counts.at(low) == 0
        invariant
            LOWEST <= low <= VALUES_END,
            counts.counts_of(ranks),
            forall|w: int| LOWEST <= w < low ==> #[trigger] occurrences(ranks, w) == 0,
        decreases VALUES_END - low,
    {
        proof {
            assert(occurrences(ranks, low as int) == counts.counts@[low - 3]);
        }
        low = low + 1;
    }
    let mut end: u8 = low;
    while end < VALUES_END && counts.at(end) == copies
        invariant
            LOWEST <= low <= end <= VALUES_END,
            counts.counts_of(ranks),
            forall|w: int| low <= w < end ==> #[trigger] occurrences(ranks, w) == copies,
        decreases VALUES_END - end,
    {
        proof {
            assert(occurrences(ranks, end as int) == counts.counts@[end - 3]);
        }
        end = end + 1;
    }
    let mut rest: u8 = end;
    while rest < VALUES_END && counts.at(rest) == 0
        invariant
            end <= rest <= VALUES_END,
            LOWEST <= end,
            counts.counts_of(ranks),
            forall|w: int| end <= w < rest ==> #[trigger] occurrences(ranks, w) == 0,
        decreases VALUES_END - rest,
    {
        proof {
            assert(occurrences(ranks, rest as int) == counts.counts@[rest - 3]);
        }
        rest = rest + 1;
    }
    if low < end && rest == VALUES_END && end - 1 <= HIGHEST_IN_RUN {
        let high: Rank = Rank::from_u8(end - 1);
        let length: usize = (end - low) as usize;
        proof {
            assert(is_run(ranks, copies as nat, length as int, high.value()));
        }
        Some((high, length))
    } else {
        proof {
            assert forall|high: int, length: int| length >= 1 implies !#[trigger] is_run(
                ranks,
                copies as nat,
                length,
                high,
            ) by {
                if is_run(ranks, copies as nat, length, high) {
                    let bottom = high - length + 1;
                    assert(occurrences(ranks, bottom) == copies);
                    assert(occurrences(ranks, high) == copies);
                    assert(low <= bottom);
                    if low < VALUES_END {
                        assert(occurrences(ranks, low as int) == counts.counts@[low - 3]);
                        assert(occurrences(ranks, low as int) > 0);
                        assert(bottom <= low);
                    }
                    if end < VALUES_END {
                        assert(occurrences(ranks, end as int) == counts.counts@[end - 3]);
                        assert(occurrences(ranks, end as int) != copies);
                        assert(high < end);
                    }
                    if rest < VALUES_END {
                        assert(occurrences(ranks, rest as int) == counts.counts@[rest - 3]);
                        assert(occurrences(ranks, rest as int) != 0);
                    }
                    assert(end - 1 <= high) by {
                        assert(low < end);
                        assert(occurrences(ranks, end - 1) == copies);
                    }
                }
            }
        }
        None
    }
}

/// What may stand beside the triples of an airplane: nothing, cards that are
/// no triple, or pairs.
#[derive(Clone, Copy, PartialEq, Eq, Structural)]
enum Wings {
    Bare,
    Singles,
    Pairs,
}

spec fn wings_fit(wings: Wings, n: nat) -> bool {
    match wings {
        Wings::Bare => n == 0,
        Wings::Singles => n <= 2,
        Wings::Pairs => n == 0 || n == 2,
    }
}

fn check_wings(wings: Wings, n: usize) -> (r: bool)
    ensures
        r == wings_fit(wings, n as nat),
{
    match wings {
        Wings::Bare => n == 0,
        Wings::Singles => n <= 2,
        Wings::Pairs => n == 0 || n == 2,
    }
}

spec fn is_airplane(ranks: Seq<Rank>, wings: Wings, triples: int, high: int) -> bool {
    &&& has_body(ranks, 3, triples, high)
    &&& forall|v: int|
        LOWEST <= v < VALUES_END && !(high - triples < v <= high) ==> wings_fit(
            wings,
            #[trigger] occurrences(ranks, v),
        )
}

fn check_airplane(
    counts: &RankCounts,
    wings: Wings,
    triples: u8,
    high: u8,
    Ghost(ranks): Ghost<Seq<Rank>>,
) -> (r: bool)
    requires
        counts.counts_of(ranks),
        LOWEST <= high - triples + 1,
        high <= HIGHEST_IN_RUN,
    ensures
        r == is_airplane(ranks, wings, triples as int, high as int),
{
    let mut v: u8 = LOWEST;
    while v < VALUES_END
        invariant
            LOWEST <= v <= VALUES_END,
            counts.counts_of(ranks),
            LOWEST <= high - triples + 1,
            high <= HIGHEST_IN_RUN,
            forall|w: int|
                LOWEST <= w < v && high - triples < w <= high ==> #[trigger] occurrences(ranks, w)
                    == 3,
            forall|w: int|
                LOWEST <= w < v && !(high - triples < w <= high) ==> wings_fit(
                    wings,
                    #[trigger] occurrences(ranks, w),
                ),
        decreases VALUES_END - v,
    {
        proof {
            assert(occurrences(ranks, v as int) == counts.counts@[v - 3]);
        }
        let n: usize = counts.at(v);
        if high - triples < v && v <= high {
            if n != 3 {
                return false;
            }
        } else if !check_wings(wings, n) {
            return false;
        }
        v = v + 1;
    }
    true
}

fn airplane_high(
    counts: &RankCounts,
    wings: Wings,
    triples: usize,
    Ghost(ranks): Ghost<Seq<Rank>>,
) -> (r: Option<Rank>)
    requires
        counts.counts_of(ranks),
        triples >= 1,
    ensures
        match r {
            Some(high) => is_airplane(ranks, wings, triples as int, high.value()),
            None => forall|high: int| !#[trigger] is_airplane(ranks, wings, triples as int, high),
        },
{
    if triples > 12 {
        return None;
    }
    let length: u8 = triples as u8;
    let mut high: u8 = LOWEST + length - 1;
    while high <= HIGHEST_IN_RUN
        invariant
            LOWEST + length - 1 <= high <= HIGHEST_IN_RUN + 1,
            1 <= length <= 12,
            length == triples,
            counts.counts_of(ranks),
            forall|h: int| h < high ==> !#[trigger] is_airplane(ranks, wings, triples as int, h),
        decreases HIGHEST_IN_RUN + 1 - high,
    {
        if check_airplane(counts, wings, length, high, Ghost(ranks)) {
            return Some(Rank::from_u8(high));
        }
        high = high + 1;
    }
    None
}

/// The airplane, with or without wings, that the cards form.
fn classify_airplane(
    counts: &RankCounts,
    len: usize,
    variant: CardGameVariant,
    Ghost(ranks): Ghost<Seq<Rank>>,
) -> (r: Option<PlayPattern>)
    requires
        counts.counts_of(ranks),
        ranks.len() == len,
    ensures
        match r {
            Some(p) => forms(ranks, p, variant),
            None => forall|p: PlayPattern|
                #![trigger forms(ranks, p, variant)]
                (p is Airplane || p is AirplaneSingles || p is AirplanePairs) ==> !forms(
                    ranks,
                    p,
                    variant,
                ),
        },
{
    if len % 3 == 0 && len / 3 >= 2 {
        let triples: usize = len / 3;
        if let Some(high) = airplane_high(counts, Wings::Bare, triples, Ghost(ranks)) {
            proof {
                assert(is_run(ranks, 3, triples as int, high.value()));
            }
            return Some(PlayPattern::Airplane { high, triples });
        }
    }
    if len % 4 == 0 && len / 4 >= 2 {
        let triples: usize = len / 4;
        if let Some(high) = airplane_high(counts, Wings::Singles, triples, Ghost(ranks)) {
            return Some(PlayPattern::AirplaneSingles { high, triples });
        }
    }
    if len % 5 == 0 && len / 5 >= 2 {
        let triples: usize = len / 5;
        if let Some(high) = airplane_high(counts, Wings::Pairs, triples, Ghost(ranks)) {
            return Some(PlayPattern::AirplanePairs { high, triples });
        }
    }
    proof {
        assert forall|p: PlayPattern|
            #![trigger forms(ranks, p, variant)]
            (p is Airplane || p is AirplaneSingles || p is AirplanePairs) implies !forms(
            ranks,
            p,
            variant,
        ) by {
            if forms(ranks, p, variant) {
                match p {
                    PlayPattern::Airplane { high, triples } => {
                        assert(is_airplane(ranks, Wings::Bare, triples as int, high.value()));
                    },
                    PlayPattern::AirplaneSingles { high, triples } => {
                        assert(is_airplane(ranks, Wings::Singles, triples as int, high.value()));
                    },
                    PlayPattern::AirplanePairs { high, triples } => {
                        assert(is_airplane(ranks, Wings::Pairs, triples as int, high.value()));
                    },
                    _ => {},
                }
            }
        }
    }
    None
}

/// Whether all ranks but `rank` occur twice or not at all.
fn others_are_pairs(counts: &RankCounts, rank: Rank, Ghost(ranks): Ghost<Seq<Rank>>) -> (r: bool)
    requires
        counts.counts_of(ranks),
    ensures
        r == forall|v: int|
            LOWEST <= v < VALUES_END && v != rank.value() ==> {
                ||| #[trigger] occurrences(ranks, v) == 0
                ||| occurrences(ranks, v) == 2
            },
{
    let mut v: u8 = LOWEST;
    while v < VALUES_END
        invariant
            LOWEST <= v <= VALUES_END,
            counts.counts_of(ranks),
            forall|w: int|
                LOWEST <= w < v && w != rank.value() ==> {
                    ||| #[trigger] occurrences(ranks, w) == 0
                    ||| occurrences(ranks, w) == 2
                },
        decreases VALUES_END - v,
    {
        proof {
            assert(occurrences(ranks, v as int) == counts.counts@[v - 3]);
        }
        let n: usize = counts.at(v);
        if v != rank.to_u8() && n != 0 && n != 2 {
            return false;
        }
        v = v + 1;
    }
    true
}

/// The pattern that cards with these ranks form in fight-the-landlord.
pub fn classify(ranks: &Vec<Rank>) -> (r: Option<PlayPattern>)
    ensures
        match r {
            Some(p) => forms(ranks@, p, CardGameVariant::Landlord),
            None => forms_nothing(ranks@, CardGameVariant::Landlord),
        },
{
    classify_for_variant(ranks, CardGameVariant::Landlord)
}

/// The pattern that cards with these ranks form in the given game.
pub fn classify_for_variant(ranks: &Vec<Rank>, variant: CardGameVariant) -> (r: Option<PlayPattern>)
    ensures
        match r {
            Some(p) => forms(ranks@, p, variant),
            None => forms_nothing(ranks@, variant),
        },
{
    let counts: RankCounts = rank_counts(ranks);
    let len: usize = ranks.len();
    let ghost g = ranks@;
    if len == 1 {
        return Some(PlayPattern::Single(ranks[0]));
    }
    if len == 2 {
        proof {
            assert(occurrences(g, 16) == counts.counts@[13]);
            assert(occurrences(g, 17) == counts.counts@[14]);
        }
        if counts.at(16) == 1 && counts.at(17) == 1 {
            return Some(PlayPattern::JokerBomb);
        }
        if let Some(rank) = group_rank(&counts, 2, Ghost(g)) {
            return Some(PlayPattern::Pair(rank));
        }
    }
    if len == 3 {
        if let Some(rank) = group_rank(&counts, 3, Ghost(g)) {
            return Some(PlayPattern::Triple(rank));
        }
    }
    if len == 4 {
        if let Some(rank) = group_rank(&counts, 4, Ghost(g)) {
            return Some(PlayPattern::Bomb(rank));
        }
        if let Some(rank) = group_rank(&counts, 3, Ghost(g)) {
            return Some(PlayPattern::TripleSingle(rank));
        }
    }
    if len == 5 {
        if let Some(rank) = group_rank(&counts, 3, Ghost(g)) {
            if let Some(pair) = group_rank(&counts, 2, Ghost(g)) {
                proof {
                    lemma_rank_value(pair);
                }
                return Some(PlayPattern::TriplePair(rank));
            }
        }
    }
    if len >= 5 {
        if let Some((high, length)) = consecutive(&counts, 1, Ghost(g)) {
            proof {
                lemma_run_size(g, 1, length as int, high.value());
            }
            return Some(PlayPattern::Straight { high, length });
        }
    }
    if len >= 6 || (len == 4 && variant == CardGameVariant::HunanRunFast) {
        if let Some((high, length)) = consecutive(&counts, 2, Ghost(g)) {
            proof {
                lemma_run_size(g, 2, length as int, high.value());
            }
            return Some(PlayPattern::PairStraight { high, length });
        }
    }
    if len == 6 {
        if let Some(rank) = group_rank(&counts, 4, Ghost(g)) {
            return Some(PlayPattern::FourTwoSingles(rank));
        }
    }
    if len == 8 {
        if let Some(rank) = group_rank(&counts, 4, Ghost(g)) {
            if others_are_pairs(&counts, rank, Ghost(g)) {
                return Some(PlayPattern::FourTwoPairs(rank));
            }
        }
    }
    let airplane = classify_airplane(&counts, len, variant, Ghost(g));
    proof {
        if airplane is None {
            assert forall|p: PlayPattern| !#[trigger] forms(g, p, variant) by {
                if forms(g, p, variant) {
                    lemma_strength_occurs(g, p, variant);
                    lemma_copies(g, p, variant);
                    assert(occurrences(g, p.spec_strength()) >= 0);
                    match p {
                        PlayPattern::Straight { high, length } => {
                            assert(is_run(g, 1, length as int, high.value()));
                        },
                        PlayPattern::PairStraight { high, length } => {
                            assert(is_run(g, 2, length as int, high.value()));
                        },
                        _ => {},
                    }
                }
            }
        }
    }
    airplane
}

/// A run has as many cards as its values have copies.
proof fn lemma_run_size(ranks: Seq<Rank>, copies: nat, length: int, high: int)
    requires
        is_run(ranks, copies, length, high),
        length >= 1,
    ensures
        ranks.len() == copies * length,
{
    lemma_total(ranks);
    lemma_run_total(ranks, copies, length, high, VALUES_END as int);
}

/// The number of cards whose value is below `end`.
spec fn total_below(ranks: Seq<Rank>, end: int) -> nat
    decreases end,
{
    if end <= LOWEST {
        0
    } else {
        total_below(ranks, end - 1) + occurrences(ranks, end - 1)
    }
}

proof fn lemma_total(ranks: Seq<Rank>)
    ensures
        total_below(ranks, VALUES_END as int) == ranks.len(),
    decreases ranks.len(),
{
    if ranks.len() == 0 {
        lemma_total_empty(ranks, VALUES_END as int);
    } else {
        lemma_total(ranks.drop_last());
        lemma_rank_value(ranks.last());
        lemma_total_push(ranks, VALUES_END as int);
    }
}

proof fn lemma_total_empty(ranks: Seq<Rank>, end: int)
    requires
        ranks.len() == 0,
    ensures
        total_below(ranks, end) == 0,
    decreases end,
{
    if end > LOWEST {
        lemma_total_empty(ranks, end - 1);
    }
}

proof fn lemma_total_push(ranks: Seq<Rank>, end: int)
    requires
        ranks.len() > 0,
    ensures
        total_below(ranks, end) == total_below(ranks.drop_last(), end) + if LOWEST
            <= ranks.last().value() < end {
            1nat
        } else {
            0nat
        },
    decreases end,
{
    if end > LOWEST {
        lemma_total_push(ranks, end - 1);
    }
}

proof fn lemma_run_total(ranks: Seq<Rank>, copies: nat, length: int, high: int, end: int)
    requires
        is_run(ranks, copies, length, high),
        length >= 1,
        end <= VALUES_END,
    ensures
        end <= high - length + 1 ==> total_below(ranks, end) == 0,
        high - length + 1 <= end <= high + 1 ==> total_below(ranks, end) == copies * (end - (high
            - length + 1)),
        end > high ==> total_below(ranks, end) == copies * length,
    decreases end,
{
    let low = high - length + 1;
    if end > LOWEST {
        lemma_run_total(ranks, copies, length, high, end - 1);
        assert(occurrences(ranks, end - 1) >= 0);
        if low < end <= high + 1 {
            assert(copies * (end - 1 - low) + copies == copies * (end - low)) by (nonlinear_arith);
        }
        if end == high + 1 {
            assert(end - low == length);
        }
        if end == low {
            assert(copies * 0 == 0) by (nonlinear_arith);
        }
    } else {
        assert(copies * 0 == 0) by (nonlinear_arith);
    }
}

// ---------------------------------------------------------------------------
// What the patterns are for
// ---------------------------------------------------------------------------
/// Between two plays of the same kind, and for runs of the same length, the higher
/// rank decides: it beats the lower one, and nothing else does.
pub proof fn law_higher_rank_wins(a: Rank, b: Rank, n: usize)
    ensures
        PlayPattern::Single(a).spec_beats(PlayPattern::Single(b)) <==> a.value() > b.value(),
        PlayPattern::Pair(a).spec_beats(PlayPattern::Pair(b)) <==> a.value() > b.value(),
        PlayPattern::Triple(a).spec_beats(PlayPattern::Triple(b)) <==> a.value() > b.value(),
        PlayPattern::TripleSingle(a).spec_beats(PlayPattern::TripleSingle(b)) <==> a.value()
            > b.value(),
        PlayPattern::TriplePair(a).spec_beats(PlayPattern::TriplePair(b)) <==> a.value()
            > b.value(),
        PlayPattern::FourTwoSingles(a).spec_beats(PlayPattern::FourTwoSingles(b)) <==> a.value()
            > b.value(),
        PlayPattern::FourTwoPairs(a).spec_beats(PlayPattern::FourTwoPairs(b)) <==> a.value()
            > b.value(),
        PlayPattern::Bomb(a).spec_beats(PlayPattern::Bomb(b)) <==> a.value() > b.value(),
        (PlayPattern::Straight { high: a, length: n }).spec_beats(
            PlayPattern::Straight { high: b, length: n },
        ) <==> a.value() > b.value(),
        (PlayPattern::PairStraight { high: a, length: n }).spec_beats(
            PlayPattern::PairStraight { high: b, length: n },
        ) <==> a.value() > b.value(),
        (PlayPattern::Airplane { high: a, triples: n }).spec_beats(
            PlayPattern::Airplane { high: b, triples: n },
        ) <==> a.value() > b.value(),
        (PlayPattern::AirplaneSingles { high: a, triples: n }).spec_beats(
            PlayPattern::AirplaneSingles { high: b, triples: n },
        ) <==> a.value() > b.value(),
        (PlayPattern::AirplanePairs { high: a, triples: n }).spec_beats(
            PlayPattern::AirplanePairs { high: b, triples: n },
        ) <==> a.value() > b.value(),
{
}

/// Of two patterns of one shape the stronger beats the weaker.
pub proof fn law_stronger_beats(p: PlayPattern, q: PlayPattern)
    requires
        p.same_shape(q),
    ensures
        p.spec_beats(q) <==> p.spec_strength() > q.spec_strength(),
        p != q ==> p.spec_beats(q) || q.spec_beats(p),
{
    if p.spec_strength() == q.spec_strength() {
        lemma_shape_and_strength(p, q);
    }
}

/// Every pattern has its own shape, and two of one shape have a third in common.
pub proof fn law_shapes(p: PlayPattern, q: PlayPattern, r: PlayPattern)
    ensures
        p.same_shape(p),
        p.same_shape(q) ==> q.same_shape(p),
        p.same_shape(q) && q.same_shape(r) ==> p.same_shape(r),
{
}

/// Four of a kind beat whatever is neither four of a kind nor the two jokers, and
/// the two jokers beat whatever they are not; neither is beaten by anything less.
pub proof fn law_bombs_beat_the_rest(rank: Rank, p: PlayPattern)
    ensures
        p !is Bomb && p !is JokerBomb ==> PlayPattern::Bomb(rank).spec_beats(p)
            && !p.spec_beats(PlayPattern::Bomb(rank)),
        p !is JokerBomb ==> PlayPattern::JokerBomb.spec_beats(p),
        !p.spec_beats(PlayPattern::JokerBomb),
{
}

/// What is no bomb beats only what is of its own kind, and a run only one of its
/// own length.
pub proof fn law_kinds_do_not_mix(p: PlayPattern, q: PlayPattern)
    requires
        p.spec_beats(q),
    ensures
        p is Single ==> q is Single,
        p is Pair ==> q is Pair,
        p is Triple ==> q is Triple,
        p is TripleSingle ==> q is TripleSingle,
        p is TriplePair ==> q is TriplePair,
        p is FourTwoSingles ==> q is FourTwoSingles,
        p is FourTwoPairs ==> q is FourTwoPairs,
        p matches PlayPattern::Straight { length, .. } ==> (q matches PlayPattern::Straight {
            length: other,
            ..
        } && length == other),
        p matches PlayPattern::PairStraight { length, .. } ==> (
        q matches PlayPattern::PairStraight { length: other, .. } && length == other),
        p matches PlayPattern::Airplane { triples, .. } ==> (q matches PlayPattern::Airplane {
            triples: other,
            ..
        } && triples == other),
        p matches PlayPattern::AirplaneSingles { triples, .. } ==> (
        q matches PlayPattern::AirplaneSingles { triples: other, .. } && triples == other),
        p matches PlayPattern::AirplanePairs { triples, .. } ==> (
        q matches PlayPattern::AirplanePairs { triples: other, .. } && triples == other),
{
}

/// How often each value occurs is how often its rank does.
proof fn lemma_counts(ranks: Seq<Rank>)
    ensures
        forall|r: Rank|
            occurrences(ranks, #[trigger] r.value()) == ranks.to_multiset().count(r),
        forall|v: int|
            LOWEST <= v < VALUES_END ==> #[trigger] occurrences(ranks, v)
                == ranks.to_multiset().count(Rank::of(v)),
{
    assert forall|r: Rank| occurrences(ranks, #[trigger] r.value()) == ranks.to_multiset().count(
        r,
    ) by {
        lemma_occurrences_multiset(ranks, r);
    }
    assert forall|v: int| LOWEST <= v < VALUES_END implies #[trigger] occurrences(ranks, v)
        == ranks.to_multiset().count(Rank::of(v)) by {
        lemma_occurrences_multiset(ranks, Rank::of(v));
    }
}

/// The order in which cards are named does not matter.
pub proof fn law_cards_in_any_order(
    a: Seq<Rank>,
    b: Seq<Rank>,
    p: PlayPattern,
    variant: CardGameVariant,
)
    requires
        a.to_multiset() == b.to_multiset(),
        forms(a, p, variant),
    ensures
        forms(b, p, variant),
{
    broadcast use vstd::seq_lib::group_to_multiset_ensures;
    lemma_counts(a);
    lemma_counts(b);
    assert(a.to_multiset().len() == a.len());
    assert(b.to_multiset().len() == b.len());
    assert(a.len() == b.len());
    assert forall|v: int| LOWEST <= v < VALUES_END implies #[trigger] occurrences(b, v)
        == occurrences(a, v) by {}
    match p {
        PlayPattern::Single(r) => {
            lemma_occurs(a, 0);
            lemma_occurs(b, 0);
            lemma_rank_value(a[0]);
            lemma_rank_value(b[0]);
            assert(a.to_multiset().count(a[0]) == 1) by {
                lemma_occurrences_bound(a, a[0].value());
                assert(occurrences(a, a[0].value()) == 1);
            }
            assert(occurrences(b, a[0].value()) == 1);
            let at = lemma_occurs_somewhere(b, a[0].value());
            lemma_rank_value(b[at]);
        },
        PlayPattern::TriplePair(r) => {
            let v = choose|v: int| LOWEST <= v < VALUES_END && #[trigger] occurrences(a, v) == 2;
            lemma_rank_value(r);
            assert(occurrences(b, v) == 2);
        },
        _ => {
            assert forall|r: Rank| occurrences(b, #[trigger] r.value()) == occurrences(
                a,
                r.value(),
            ) by {}
        },
    }
}

/// Some cards of one rank.
pub open spec fn of_a_kind(rank: Rank, n: nat) -> Seq<Rank> {
    Seq::new(n, |i: int| rank)
}

proof fn lemma_of_a_kind(rank: Rank, n: nat, v: int)
    ensures
        occurrences(of_a_kind(rank, n), v) == if rank.value() == v {
            n
        } else {
            0
        },
    decreases n,
{
    if n > 0 {
        assert(of_a_kind(rank, n).drop_last() =~= of_a_kind(rank, (n - 1) as nat));
        lemma_of_a_kind(rank, (n - 1) as nat, v);
    }
}

/// One card is a single, two of a rank are a pair, three are three of a kind and
/// four are a bomb, whatever the rank and the game. The two jokers are their own
/// bomb.
pub proof fn law_equal_ranks(rank: Rank, variant: CardGameVariant)
    ensures
        forms(of_a_kind(rank, 1), PlayPattern::Single(rank), variant),
        forms(of_a_kind(rank, 2), PlayPattern::Pair(rank), variant),
        forms(of_a_kind(rank, 3), PlayPattern::Triple(rank), variant),
        forms(of_a_kind(rank, 4), PlayPattern::Bomb(rank), variant),
        forms(seq![Rank::SmallJoker, Rank::BigJoker], PlayPattern::JokerBomb, variant),
{
    lemma_of_a_kind(rank, 2, rank.value());
    lemma_of_a_kind(rank, 3, rank.value());
    lemma_of_a_kind(rank, 4, rank.value());
    let jokers = seq![Rank::SmallJoker, Rank::BigJoker];
    reveal_with_fuel(occurrences, 3);
    assert(jokers.drop_last() =~= seq![Rank::SmallJoker]);
    assert(jokers.drop_last().drop_last() =~= Seq::empty());
}

/// Three of a kind may carry one other card, or two of another rank; four of a
/// kind may carry two other cards, or two pairs.
pub proof fn law_what_is_carried(
    rank: Rank,
    other: Rank,
    third: Rank,
    variant: CardGameVariant,
)
    requires
        rank != other,
        rank != third,
    ensures
        forms(of_a_kind(rank, 3) + of_a_kind(other, 1), PlayPattern::TripleSingle(rank), variant),
        forms(of_a_kind(rank, 3) + of_a_kind(other, 2), PlayPattern::TriplePair(rank), variant),
        forms(
            of_a_kind(rank, 4) + of_a_kind(other, 1) + of_a_kind(third, 1),
            PlayPattern::FourTwoSingles(rank),
            variant,
        ),
        other != third ==> forms(
            of_a_kind(rank, 4) + of_a_kind(other, 2) + of_a_kind(third, 2),
            PlayPattern::FourTwoPairs(rank),
            variant,
        ),
{
    lemma_rank_value(rank);
    lemma_rank_value(other);
    lemma_rank_value(third);
    let pairs = of_a_kind(rank, 4) + of_a_kind(other, 2) + of_a_kind(third, 2);
    assert forall|v: int| true implies {
        &&& #[trigger] occurrences(of_a_kind(rank, 3) + of_a_kind(other, 1), v) == occurrences(
            of_a_kind(rank, 3),
            v,
        ) + occurrences(of_a_kind(other, 1), v)
    } by {
        lemma_occurrences_add(of_a_kind(rank, 3), of_a_kind(other, 1), v);
    }
    assert forall|v: int|
        #[trigger] occurrences(of_a_kind(rank, 3) + of_a_kind(other, 2), v) == if v
            == rank.value() {
            3nat
        } else if v == other.value() {
            2nat
        } else {
            0nat
        } by {
        lemma_occurrences_add(of_a_kind(rank, 3), of_a_kind(other, 2), v);
        lemma_of_a_kind(rank, 3, v);
        lemma_of_a_kind(other, 2, v);
    }
    assert(occurrences(of_a_kind(rank, 3) + of_a_kind(other, 2), other.value()) == 2);
    lemma_of_a_kind(rank, 3, rank.value());
    lemma_of_a_kind(other, 1, rank.value());
    let singles = of_a_kind(rank, 4) + of_a_kind(other, 1) + of_a_kind(third, 1);
    lemma_of_a_kind(rank, 4, rank.value());
    lemma_of_a_kind(third, 1, rank.value());
    lemma_occurrences_add(of_a_kind(rank, 4) + of_a_kind(other, 1), of_a_kind(third, 1), rank.value());
    lemma_occurrences_add(of_a_kind(rank, 4), of_a_kind(other, 1), rank.value());
    assert(occurrences(singles, rank.value()) == 4);
    if other != third {
        assert forall|v: int|
            #[trigger] occurrences(pairs, v) == if v == rank.value() {
                4nat
            } else if v == other.value() || v == third.value() {
                2nat
            } else {
                0nat
            } by {
            lemma_occurrences_add(of_a_kind(rank, 4) + of_a_kind(other, 2), of_a_kind(third, 2), v);
            lemma_occurrences_add(of_a_kind(rank, 4), of_a_kind(other, 2), v);
            lemma_of_a_kind(rank, 4, v);
            lemma_of_a_kind(other, 2, v);
            lemma_of_a_kind(third, 2, v);
        }
    }
}

/// Ranks in a row from one with a value on.
pub open spec fn in_a_row(low: int, n: nat) -> Seq<Rank> {
    Seq::new(n, |i: int| Rank::of(low + i))
}

proof fn lemma_in_a_row(low: int, n: nat, v: int)
    requires
        LOWEST <= low,
        low + n <= VALUES_END,
    ensures
        occurrences(in_a_row(low, n), v) == if low <= v < low + n {
            1nat
        } else {
            0nat
        },
    decreases n,
{
    if n > 0 {
        assert(in_a_row(low, n).drop_last() =~= in_a_row(low, (n - 1) as nat));
        lemma_in_a_row(low, (n - 1) as nat, v);
        assert(Rank::of(low + n - 1).value() == low + n - 1);
    }
}

/// Five ranks or more in a row up to the ace are a straight; pairs in a row are a
/// run of pairs, from three on, and in run-fast from two on; two or more triples in
/// a row are an airplane.
pub proof fn law_rows(low: int, n: nat, variant: CardGameVariant)
    requires
        3 <= low,
        1 <= n,
        low + n - 1 <= 14,
    ensures
        n >= 5 ==> forms(
            in_a_row(low, n),
            PlayPattern::Straight { high: Rank::of(low + n - 1), length: n as usize },
            variant,
        ),
        n >= 3 || (n == 2 && variant is HunanRunFast) ==> forms(
            in_a_row(low, n) + in_a_row(low, n),
            PlayPattern::PairStraight { high: Rank::of(low + n - 1), length: n as usize },
            variant,
        ),
        n >= 2 ==> forms(
            in_a_row(low, n) + in_a_row(low, n) + in_a_row(low, n),
            PlayPattern::Airplane { high: Rank::of(low + n - 1), triples: n as usize },
            variant,
        ),
{
    let one = in_a_row(low, n);
    let high = Rank::of(low + n - 1);
    assert(high.value() == low + n - 1);
    assert forall|v: int| #[trigger] occurrences(one, v) == if low <= v < low + n {
        1nat
    } else {
        0nat
    } by {
        lemma_in_a_row(low, n, v);
    }
    assert forall|v: int| #[trigger] occurrences(one + one, v) == 2 * occurrences(one, v) by {
        lemma_occurrences_add(one, one, v);
    }
    assert forall|v: int| #[trigger] occurrences(one + one + one, v) == 3 * occurrences(
        one,
        v,
    ) by {
        lemma_occurrences_add(one, one, v);
        lemma_occurrences_add(one + one, one, v);
    }
    assert(is_run(one, 1, n as int, high.value()));
    assert(is_run(one + one, 2, n as int, high.value()));
    assert(is_run(one + one + one, 3, n as int, high.value()));
}

/// Triples in a row may carry as many single cards as there are triples, of which
/// no three are equal and none is of a rank of the triples; or as many pairs.
pub proof fn law_wings(low: int, n: nat, wings: Seq<Rank>, variant: CardGameVariant)
    requires
        3 <= low,
        2 <= n,
        low + n - 1 <= 14,
        forall|i: int| 0 <= i < wings.len() ==> !(low <= (#[trigger] wings[i]).value() < low + n),
    ensures
        wings.len() == n && (forall|r: Rank| wings.to_multiset().count(r) <= 2) ==> forms(
            in_a_row(low, n) + in_a_row(low, n) + in_a_row(low, n) + wings,
            PlayPattern::AirplaneSingles { high: Rank::of(low + n - 1), triples: n as usize },
            variant,
        ),
        wings.len() == 2 * n && (forall|r: Rank|
            wings.to_multiset().count(r) == 0 || wings.to_multiset().count(r) == 2) ==> forms(
            in_a_row(low, n) + in_a_row(low, n) + in_a_row(low, n) + wings,
            PlayPattern::AirplanePairs { high: Rank::of(low + n - 1), triples: n as usize },
            variant,
        ),
{
    let one = in_a_row(low, n);
    let body = one + one + one;
    let all = body + wings;
    let high = Rank::of(low + n - 1);
    assert(high.value() == low + n - 1);
    lemma_counts(wings);
    assert forall|v: int| LOWEST <= v < VALUES_END implies #[trigger] occurrences(all, v) == (
    if low <= v < low + n {
        3nat
    } else {
        wings.to_multiset().count(Rank::of(v))
    }) by {
        lemma_in_a_row(low, n, v);
        lemma_occurrences_add(one, one, v);
        lemma_occurrences_add(one + one, one, v);
        lemma_occurrences_add(body, wings, v);
        assert(occurrences(wings, v) == wings.to_multiset().count(Rank::of(v)));
        if low <= v < low + n && occurrences(wings, v) >= 1 {
            let at = lemma_occurs_somewhere(wings, v);
        }
    }
    assert(has_body(all, 3, n as int, high.value()));
}

/// No run is shorter than it may be, or goes beyond the ace: a straight has five
/// cards or more, a run of pairs three pairs, or two in run-fast, an airplane two
/// triples; and no two and no joker stands in any of them.
pub proof fn law_runs_are_long_enough(
    ranks: Seq<Rank>,
    p: PlayPattern,
    variant: CardGameVariant,
    i: int,
)
    requires
        forms(ranks, p, variant),
        0 <= i < ranks.len(),
    ensures
        p is Straight ==> ranks.len() >= 5,
        p is PairStraight && variant is Landlord ==> ranks.len() >= 6,
        p is PairStraight ==> ranks.len() >= 4 && ranks.len() % 2 == 0,
        p is Airplane ==> ranks.len() >= 6 && ranks.len() % 3 == 0,
        p is AirplaneSingles ==> ranks.len() >= 8 && ranks.len() % 4 == 0,
        p is AirplanePairs ==> ranks.len() >= 10 && ranks.len() % 5 == 0,
        p is Straight || p is PairStraight || p is Airplane ==> ranks[i].value()
            <= Rank::Ace.value(),
        p is Straight ==> ranks.to_multiset().count(ranks[i]) == 1,
        p is PairStraight ==> ranks.to_multiset().count(ranks[i]) == 2,
        p is Airplane ==> ranks.to_multiset().count(ranks[i]) == 3,
{
    lemma_occurs(ranks, i);
    lemma_rank_value(ranks[i]);
    lemma_counts(ranks);
    assert(occurrences(ranks, ranks[i].value()) >= 1);
}

/// A pattern has the number of cards that its name says.
pub proof fn law_pattern_sizes(ranks: Seq<Rank>, p: PlayPattern, variant: CardGameVariant)
    requires
        forms(ranks, p, variant),
    ensures
        p is Single ==> ranks.len() == 1,
        p is Pair || p is JokerBomb ==> ranks.len() == 2,
        p is Triple ==> ranks.len() == 3,
        p is TripleSingle || p is Bomb ==> ranks.len() == 4,
        p is TriplePair ==> ranks.len() == 5,
        p is FourTwoSingles ==> ranks.len() == 6,
        p is FourTwoPairs ==> ranks.len() == 8,
        p matches PlayPattern::Straight { length, .. } ==> ranks.len() == length,
        p matches PlayPattern::PairStraight { length, .. } ==> ranks.len() == 2 * length,
        p matches PlayPattern::Airplane { triples, .. } ==> ranks.len() == 3 * triples,
        p matches PlayPattern::AirplaneSingles { triples, .. } ==> ranks.len() == 4 * triples,
        p matches PlayPattern::AirplanePairs { triples, .. } ==> ranks.len() == 5 * triples,
{
}

/// The rank that decides a pattern stands among its cards: in pairs twice, in what
/// carries triples three times, in what is made of four of a kind four times; and a
/// run ends in it.
pub proof fn law_deciding_rank(ranks: Seq<Rank>, p: PlayPattern, variant: CardGameVariant)
    requires
        forms(ranks, p, variant),
    ensures
        p matches PlayPattern::Single(r) ==> ranks.to_multiset().count(r) == 1,
        p matches PlayPattern::Pair(r) ==> ranks.to_multiset().count(r) == 2,
        p matches PlayPattern::Triple(r) ==> ranks.to_multiset().count(r) == 3,
        p matches PlayPattern::TripleSingle(r) ==> ranks.to_multiset().count(r) == 3,
        p matches PlayPattern::TriplePair(r) ==> ranks.to_multiset().count(r) == 3,
        p matches PlayPattern::FourTwoSingles(r) ==> ranks.to_multiset().count(r) == 4,
        p matches PlayPattern::FourTwoPairs(r) ==> ranks.to_multiset().count(r) == 4,
        p matches PlayPattern::Bomb(r) ==> ranks.to_multiset().count(r) == 4,
        p matches PlayPattern::Straight { high, .. } ==> (forall|i: int|
            0 <= i < ranks.len() ==> (#[trigger] ranks[i]).value() <= high.value()),
        p matches PlayPattern::PairStraight { high, .. } ==> (forall|i: int|
            0 <= i < ranks.len() ==> (#[trigger] ranks[i]).value() <= high.value()),
        p matches PlayPattern::Airplane { high, .. } ==> (forall|i: int|
            0 <= i < ranks.len() ==> (#[trigger] ranks[i]).value() <= high.value()),
{
    lemma_counts(ranks);
    if p is Single {
        lemma_copies(ranks, p, variant);
    }
    assert forall|i: int| 0 <= i < ranks.len() && (p is Straight || p is PairStraight
        || p is Airplane) implies (#[trigger] ranks[i]).value() <= p.spec_strength() by {
        lemma_occurs(ranks, i);
        lemma_rank_value(ranks[i]);
        assert(occurrences(ranks, ranks[i].value()) >= 1);
    }
}

/// No two kinds of patterns are called alike, and a pattern is called by its kind alone.
pub proof fn law_patterns_are_called(p: PlayPattern, q: PlayPattern)
    ensures
        p is Single ==> (p.spec_label() == q.spec_label() <==> q is Single),
        p is Pair ==> (p.spec_label() == q.spec_label() <==> q is Pair),
        p is Triple ==> (p.spec_label() == q.spec_label() <==> q is Triple),
        p is TripleSingle ==> (p.spec_label() == q.spec_label() <==> q is TripleSingle),
        p is TriplePair ==> (p.spec_label() == q.spec_label() <==> q is TriplePair),
        p is Straight ==> (p.spec_label() == q.spec_label() <==> q is Straight),
        p is PairStraight ==> (p.spec_label() == q.spec_label() <==> q is PairStraight),
        p is Airplane ==> (p.spec_label() == q.spec_label() <==> q is Airplane),
        p is AirplaneSingles ==> (p.spec_label() == q.spec_label() <==> q is AirplaneSingles),
        p is AirplanePairs ==> (p.spec_label() == q.spec_label() <==> q is AirplanePairs),
        p is FourTwoSingles ==> (p.spec_label() == q.spec_label() <==> q is FourTwoSingles),
        p is FourTwoPairs ==> (p.spec_label() == q.spec_label() <==> q is FourTwoPairs),
        p is Bomb ==> (p.spec_label() == q.spec_label() <==> q is Bomb),
        p is JokerBomb ==> (p.spec_label() == q.spec_label() <==> q is JokerBomb),
{
    reveal_strlit("单张");
    reveal_strlit("对子");
    reveal_strlit("三张");
    reveal_strlit("三带一");
    reveal_strlit("三带二");
    reveal_strlit("顺子");
    reveal_strlit("连对");
    reveal_strlit("飞机");
    reveal_strlit("飞机带单");
    reveal_strlit("飞机带对");
    reveal_strlit("四带二单");
    reveal_strlit("四带二对");
    reveal_strlit("炸弹");
    reveal_strlit("王炸");
    assert("单张"@.len() == 2 && "单张"@[0] == '单');
    assert("对子"@.len() == 2 && "对子"@[0] == '对');
    assert("三张"@.len() == 2 && "三张"@[0] == '三');
    assert("三带一"@.len() == 3 && "三带一"@[2] == '一');
    assert("三带二"@.len() == 3 && "三带二"@[2] == '二');
    assert("顺子"@.len() == 2 && "顺子"@[0] == '顺');
    assert("连对"@.len() == 2 && "连对"@[0] == '连');
    assert("飞机"@.len() == 2 && "飞机"@[0] == '飞');
    assert("飞机带单"@.len() == 4 && "飞机带单"@[0] == '飞' && "飞机带单"@[3] == '单');
    assert("飞机带对"@.len() == 4 && "飞机带对"@[0] == '飞' && "飞机带对"@[3] == '对');
    assert("四带二单"@.len() == 4 && "四带二单"@[0] == '四' && "四带二单"@[3] == '单');
    assert("四带二对"@.len() == 4 && "四带二对"@[0] == '四' && "四带二对"@[3] == '对');
    assert("炸弹"@.len() == 2 && "炸弹"@[0] == '炸');
    assert("王炸"@.len() == 2 && "王炸"@[0] == '王');
}

} // verus!
