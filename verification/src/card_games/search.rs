//! Search through the plays that a hand allows.
use vstd::prelude::*;
use crate::card_games::cards::Rank;
use crate::card_games::cards::RankCounts;
use crate::card_games::cards::LOWEST;
use crate::card_games::cards::VALUES_END;
use crate::card_games::cards::{
    lemma_occurrences_add, lemma_occurrences_multiset, lemma_occurs, lemma_rank_value, occurrences,
    rank_counts,
};
use crate::card_games::patterns::classify_for_variant;
use crate::card_games::patterns::CardGameVariant;
use crate::card_games::patterns::PlayPattern;
use crate::card_games::patterns::{forms, law_one_pattern};
use crate::sorting::{ascending, lemma_sorted_is};

verus! {

// ---------------------------------------------------------------------------
// Selections from a hand
// ---------------------------------------------------------------------------
/// Whether `selection` can be taken from a hand with the ranks `hand`: in
/// ascending order, with at most as many of each rank as the hand holds.
pub open spec fn selectable(selection: Seq<Rank>, hand: Seq<Rank>) -> bool {
    &&& ascending(selection)
    &&& forall|v: int|
        LOWEST <= v < VALUES_END ==> #[trigger] occurrences(selection, v) <= occurrences(hand, v)
}

/// Whether two selections hold the same number of each rank below the value `end`.
pub open spec fn agree_below(a: Seq<Rank>, b: Seq<Rank>, end: int) -> bool {
    forall|v: int| LOWEST <= v < end ==> #[trigger] occurrences(a, v) == occurrences(b, v)
}

/// Whether `a` holds fewer of the lowest rank below `end` in which the two differ.
pub open spec fn earlier_below(a: Seq<Rank>, b: Seq<Rank>, end: int) -> bool {
    exists|v: int|
        LOWEST <= v < end && #[trigger] occurrences(a, v) < occurrences(b, v) && agree_below(
            a,
            b,
            v,
        )
}

/// Whether `a` holds fewer of the lowest rank in which the two differ.
pub open spec fn earlier(a: Seq<Rank>, b: Seq<Rank>) -> bool {
    earlier_below(a, b, VALUES_END as int)
}

/// Of two selections, at most one is the earlier.
proof fn lemma_earlier_asymmetric(a: Seq<Rank>, b: Seq<Rank>)
    requires
        earlier(a, b),
    ensures
        !earlier(b, a),
        a != b,
{
    let v = choose|v: int|
        LOWEST <= v < VALUES_END && #[trigger] occurrences(a, v) < occurrences(b, v)
            && agree_below(a, b, v);
    if earlier(b, a) {
        let w = choose|w: int|
            LOWEST <= w < VALUES_END && #[trigger] occurrences(b, w) < occurrences(a, w)
                && agree_below(b, a, w);
        if v < w {
            assert(occurrences(b, v) == occurrences(a, v));
        } else if w < v {
            assert(occurrences(a, w) == occurrences(b, w));
        }
    }
}

/// Selections in ascending order with the same number of each rank are the same.
proof fn lemma_agree_is_equal(a: Seq<Rank>, b: Seq<Rank>)
    requires
        ascending(a),
        ascending(b),
        agree_below(a, b, VALUES_END as int),
    ensures
        a == b,
{
    assert forall|r: Rank| a.to_multiset().count(r) == b.to_multiset().count(r) by {
        lemma_rank_value(r);
        lemma_occurrences_multiset(a, r);
        lemma_occurrences_multiset(b, r);
        assert(occurrences(a, r.value()) == occurrences(b, r.value()));
    }
    assert(a.to_multiset() =~= b.to_multiset());
    lemma_sorted_is(a, a);
    lemma_sorted_is(a, b);
}

/// `n` times the same rank.
spec fn repeated(rank: Rank, n: nat) -> Seq<Rank> {
    Seq::new(n, |i: int| rank)
}

proof fn lemma_repeated(rank: Rank, n: nat, v: int)
    ensures
        occurrences(repeated(rank, n), v) == if v == rank.value() {
            n
        } else {
            0
        },
    decreases n,
{
    if n > 0 {
        assert(repeated(rank, n).drop_last() =~= repeated(rank, (n - 1) as nat));
        lemma_repeated(rank, (n - 1) as nat, v);
    }
}

/// Whether all ranks of `selection` have a value below `end`.
spec fn all_below(selection: Seq<Rank>, end: int) -> bool {
    forall|i: int| 0 <= i < selection.len() ==> (#[trigger] selection[i]).value() < end
}

proof fn lemma_none_above(selection: Seq<Rank>, end: int, v: int)
    requires
        all_below(selection, end),
        v >= end,
    ensures
        occurrences(selection, v) == 0,
    decreases selection.len(),
{
    if selection.len() > 0 {
        lemma_none_above(selection.drop_last(), end, v);
    }
}

/// What the search knows after adding `n` cards of the value `end` to `base`.
proof fn lemma_extended(base: Seq<Rank>, rank: Rank, n: nat)
    requires
        ascending(base),
        all_below(base, rank.value()),
    ensures
        ascending(base + repeated(rank, n)),
        all_below(base + repeated(rank, n), rank.value() + 1),
        forall|v: int|
            v != rank.value() ==> #[trigger] occurrences(base + repeated(rank, n), v)
                == occurrences(base, v),
        occurrences(base + repeated(rank, n), rank.value()) == n,
{
    let whole = base + repeated(rank, n);
    assert forall|v: int| v != rank.value() implies #[trigger] occurrences(whole, v)
        == occurrences(base, v) by {
        lemma_occurrences_add(base, repeated(rank, n), v);
        lemma_repeated(rank, n, v);
    }
    lemma_occurrences_add(base, repeated(rank, n), rank.value());
    lemma_repeated(rank, n, rank.value());
    lemma_none_above(base, rank.value(), rank.value());
}

/// How the selections before an extended selection relate to its base.
proof fn lemma_extended_order(base: Seq<Rank>, rank: Rank, n: nat, t: Seq<Rank>)
    requires
        ascending(base),
        all_below(base, rank.value()),
    ensures
        earlier_below(t, base + repeated(rank, n), rank.value() + 1) <==> {
            ||| earlier_below(t, base, rank.value())
            ||| agree_below(t, base, rank.value()) && occurrences(t, rank.value()) < n
        },
        agree_below(t, base + repeated(rank, n), rank.value() + 1) <==> agree_below(
            t,
            base,
            rank.value(),
        ) && occurrences(t, rank.value()) == n,
{
    lemma_rank_value(rank);
    lemma_extended(base, rank, n);
    let whole = base + repeated(rank, n);
    let end = rank.value();
    assert forall|v: int| LOWEST <= v <= end implies (agree_below(t, whole, v) <==> agree_below(
        t,
        base,
        v,
    )) by {
        if agree_below(t, whole, v) {
            assert forall|u: int| LOWEST <= u < v implies #[trigger] occurrences(t, u)
                == occurrences(base, u) by {
                assert(occurrences(whole, u) == occurrences(base, u));
            }
        }
        if agree_below(t, base, v) {
            assert forall|u: int| LOWEST <= u < v implies #[trigger] occurrences(t, u)
                == occurrences(whole, u) by {
                assert(occurrences(whole, u) == occurrences(base, u));
            }
        }
    }
    if earlier_below(t, whole, end + 1) {
        let v = choose|v: int|
            LOWEST <= v < end + 1 && #[trigger] occurrences(t, v) < occurrences(whole, v)
                && agree_below(t, whole, v);
        if v < end {
            assert(occurrences(whole, v) == occurrences(base, v));
            assert(earlier_below(t, base, end));
        }
    }
    if earlier_below(t, base, end) {
        let v = choose|v: int|
            LOWEST <= v < end && #[trigger] occurrences(t, v) < occurrences(base, v)
                && agree_below(t, base, v);
        assert(occurrences(whole, v) == occurrences(base, v));
        assert(occurrences(t, v) < occurrences(whole, v) && agree_below(t, whole, v));
    }
    if agree_below(t, base, end) && occurrences(t, end) < n {
        assert(occurrences(t, end) < occurrences(whole, end) && agree_below(t, whole, end));
    }
    if agree_below(t, whole, end + 1) {
        assert(agree_below(t, whole, end));
        assert(occurrences(t, end) == occurrences(whole, end));
    }
}

// ---------------------------------------------------------------------------
// The lowest play that beats another
// ---------------------------------------------------------------------------
/// Whether `selection` forms the pattern `p`, and `p` beats `previous`.
pub open spec fn beating(
    selection: Seq<Rank>,
    p: PlayPattern,
    previous: PlayPattern,
    variant: CardGameVariant,
) -> bool {
    forms(selection, p, variant) && p.spec_beats(previous)
}

/// Whether spending `n` cards on `p` is cheaper than spending `m` cards on
/// `q`: bombs are dearer than all else, then strength decides, then the number
/// of cards.
pub open spec fn cheaper(p: PlayPattern, n: nat, q: PlayPattern, m: nat) -> bool {
    if p.bomb() != q.bomb() {
        q.bomb()
    } else if p.spec_strength() != q.spec_strength() {
        p.spec_strength() < q.spec_strength()
    } else {
        n < m
    }
}

/// Whether the first play is preferred to the second: it is cheaper, or as
/// cheap and the earlier selection.
pub open spec fn preferred(a: Seq<Rank>, p: PlayPattern, b: Seq<Rank>, q: PlayPattern) -> bool {
    ||| cheaper(p, a.len(), q, b.len())
    ||| !cheaper(q, b.len(), p, a.len()) && earlier(a, b)
}

/// Whether the play is the lowest that a hand allows against `previous`.
pub open spec fn is_lowest(
    selection: Seq<Rank>,
    p: PlayPattern,
    hand: Seq<Rank>,
    previous: PlayPattern,
    variant: CardGameVariant,
) -> bool {
    &&& selectable(selection, hand)
    &&& beating(selection, p, previous, variant)
    &&& forall|t: Seq<Rank>, q: PlayPattern|
        selectable(t, hand) && #[trigger] beating(t, q, previous, variant) ==> t == selection
            || preferred(selection, p, t, q)
}

/// Whether a hand allows no play against `previous`.
pub open spec fn cannot_beat(
    hand: Seq<Rank>,
    previous: PlayPattern,
    variant: CardGameVariant,
) -> bool {
    forall|t: Seq<Rank>, q: PlayPattern|
        selectable(t, hand) ==> !#[trigger] beating(t, q, previous, variant)
}

/// There is at most one lowest play.
pub proof fn law_lowest_unique(
    a: Seq<Rank>,
    p: PlayPattern,
    b: Seq<Rank>,
    q: PlayPattern,
    hand: Seq<Rank>,
    previous: PlayPattern,
    variant: CardGameVariant,
)
    requires
        is_lowest(a, p, hand, previous, variant),
        is_lowest(b, q, hand, previous, variant),
    ensures
        a == b,
        p == q,
{
    if a != b {
        assert(preferred(a, p, b, q));
        assert(preferred(b, q, a, p));
        if earlier(a, b) {
            lemma_earlier_asymmetric(a, b);
        }
    }
    law_one_pattern(a, p, q, variant);
}

/// The lowest play that a hand allows against `previous`.
pub open spec fn lowest_play(
    hand: Seq<Rank>,
    previous: PlayPattern,
    variant: CardGameVariant,
) -> Option<(Seq<Rank>, PlayPattern)> {
    if exists|t: Seq<Rank>, q: PlayPattern| is_lowest(t, q, hand, previous, variant) {
        let (t, q) = choose|t: Seq<Rank>, q: PlayPattern|
            is_lowest(t, q, hand, previous, variant);
        Some((t, q))
    } else {
        None
    }
}

spec fn best_view(best: Option<(Vec<Rank>, PlayPattern)>) -> Option<(Seq<Rank>, PlayPattern)> {
    match best {
        Some((ranks, p)) => Some((ranks@, p)),
        None => None,
    }
}

/// Whether `best` is the lowest play among the selections that `seen` holds of.
spec fn best_so_far(
    best: Option<(Seq<Rank>, PlayPattern)>,
    hand: Seq<Rank>,
    previous: PlayPattern,
    variant: CardGameVariant,
    seen: spec_fn(Seq<Rank>) -> bool,
) -> bool {
    match best {
        None => forall|t: Seq<Rank>, q: PlayPattern|
            selectable(t, hand) && seen(t) ==> !#[trigger] beating(t, q, previous, variant),
        Some((b, p)) => {
            &&& selectable(b, hand)
            &&& seen(b)
            &&& beating(b, p, previous, variant)
            &&& forall|t: Seq<Rank>, q: PlayPattern|
                selectable(t, hand) && seen(t) && #[trigger] beating(t, q, previous, variant) ==> t
                    == b || preferred(b, p, t, q)
        },
    }
}

/// Only the selections that `seen` holds of matter, not how it is written.
proof fn lemma_best_same_seen(
    best: Option<(Seq<Rank>, PlayPattern)>,
    hand: Seq<Rank>,
    previous: PlayPattern,
    variant: CardGameVariant,
    seen: spec_fn(Seq<Rank>) -> bool,
    other: spec_fn(Seq<Rank>) -> bool,
)
    requires
        best_so_far(best, hand, previous, variant, seen),
        forall|t: Seq<Rank>| selectable(t, hand) ==> (#[trigger] seen(t) <==> other(t)),
    ensures
        best_so_far(best, hand, previous, variant, other),
{
    match best {
        None => {
            assert forall|t: Seq<Rank>, q: PlayPattern| selectable(t, hand) && other(t) implies
                !#[trigger] beating(t, q, previous, variant) by {
                assert(seen(t));
            }
        },
        Some((b, p)) => {
            assert(seen(b));
            assert forall|t: Seq<Rank>, q: PlayPattern|
                selectable(t, hand) && other(t) && #[trigger] beating(
                    t,
                    q,
                    previous,
                    variant,
                ) implies t == b || preferred(b, p, t, q) by {
                assert(seen(t));
            }
        },
    }
}

/// The selections before `selected`, looking at values below `end`.
spec fn seen_before(selected: Seq<Rank>, end: int) -> spec_fn(Seq<Rank>) -> bool {
    |t: Seq<Rank>| earlier_below(t, selected, end)
}

/// The selections before `selected` and those that continue it.
spec fn seen_through(selected: Seq<Rank>, end: int) -> spec_fn(Seq<Rank>) -> bool {
    |t: Seq<Rank>| earlier_below(t, selected, end) || agree_below(t, selected, end)
}

/// Tries all selections that continue `selected` with ranks from `value` on,
/// in ascending order, and keeps the best play found.
fn collect_beating_plays(
    counts: &RankCounts,
    value: u8,
    selected: &mut Vec<Rank>,
    previous: &PlayPattern,
    variant: CardGameVariant,
    best: &mut Option<(Vec<Rank>, PlayPattern)>,
    Ghost(hand): Ghost<Seq<Rank>>,
)
    requires
        counts.counts_of(hand),
        LOWEST <= value <= VALUES_END,
        selectable(old(selected)@, hand),
        all_below(old(selected)@, value as int),
        best_so_far(
            best_view(*old(best)),
            hand,
            *previous,
            variant,
            seen_before(old(selected)@, value as int),
        ),
    ensures
        final(selected)@ == old(selected)@,
        best_so_far(
            best_view(*final(best)),
            hand,
            *previous,
            variant,
            seen_through(old(selected)@, value as int),
        ),
    decreases VALUES_END - value,
{
    let ghost base = selected@;
    if value == VALUES_END {
        finish_beating_play(selected, previous, variant, best, Ghost(hand));
        return ;
    }
    let rank: Rank = Rank::from_u8(value);
    let count: usize = counts.at(value);
    let length: usize = selected.len();
    proof {
        assert(occurrences(hand, value as int) == counts.counts@[value - 3]);
    }
    let mut take: usize = 0;
    proof {
        assert(base + repeated(rank, 0) =~= base);
        lemma_extended(base, rank, 0);
        assert forall|t: Seq<Rank>| selectable(t, hand) implies (#[trigger] seen_before(
            base,
            value as int,
        )(t) <==> seen_before(base + repeated(rank, 0), value + 1)(t)) by {
            lemma_extended_order(base, rank, 0, t);
        }
        lemma_best_same_seen(
            best_view(*best),
            hand,
            *previous,
            variant,
            seen_before(base, value as int),
            seen_before(base + repeated(rank, 0), value + 1),
        );
    }
    loop
        invariant_except_break
            selected@ == base + repeated(rank, take as nat),
            best_so_far(
                best_view(*best),
                hand,
                *previous,
                variant,
                seen_before(base + repeated(rank, take as nat), value + 1),
            ),
        invariant
            counts.counts_of(hand),
            LOWEST <= value < VALUES_END,
            rank == Rank::of(value as int),
            rank.value() == value,
            count == occurrences(hand, value as int),
            take <= count,
            base.len() == length,
            selectable(base, hand),
            all_below(base, value as int),
        ensures
            selected@.take(length as int) == base,
            selected@.len() >= length,
            best_so_far(
                best_view(*best),
                hand,
                *previous,
                variant,
                seen_through(base, value as int),
            ),
        decreases count - take,
    {
        proof {
            lemma_extended(base, rank, take as nat);
            assert(selectable(selected@, hand)) by {
                assert forall|v: int| LOWEST <= v < VALUES_END implies #[trigger] occurrences(
                    selected@,
                    v,
                ) <= occurrences(hand, v) by {
                    if v != rank.value() {
                        assert(occurrences(selected@, v) == occurrences(base, v));
                    }
                }
            }
        }
        collect_beating_plays(counts, value + 1, selected, previous, variant, best, Ghost(hand));
        let ghost current = base + repeated(rank, take as nat);
        if take == count {
            proof {
                assert forall|t: Seq<Rank>| selectable(t, hand) implies (#[trigger] seen_through(
                    current,
                    value + 1,
                )(t) <==> seen_through(base, value as int)(t)) by {
                    lemma_extended_order(base, rank, take as nat, t);
                    assert(occurrences(t, value as int) <= count);
                }
                lemma_best_same_seen(
                    best_view(*best),
                    hand,
                    *previous,
                    variant,
                    seen_through(current, value + 1),
                    seen_through(base, value as int),
                );
                assert(selected@.take(length as int) =~= base);
            }
            break ;
        }
        selected.push(rank);
        proof {
            let next = base + repeated(rank, (take + 1) as nat);
            assert(selected@ =~= next);
            assert forall|t: Seq<Rank>| selectable(t, hand) implies (#[trigger] seen_through(
                current,
                value + 1,
            )(t) <==> seen_before(next, value + 1)(t)) by {
                lemma_extended_order(base, rank, take as nat, t);
                lemma_extended_order(base, rank, (take + 1) as nat, t);
            }
            lemma_best_same_seen(
                best_view(*best),
                hand,
                *previous,
                variant,
                seen_through(current, value + 1),
                seen_before(next, value + 1),
            );
        }
        take = take + 1;
    }
    selected.truncate(length);
    proof {
        assert(selected@ =~= base);
    }
}

/// Weighs the complete selection `selected` against the best play so far.
fn finish_beating_play(
    selected: &Vec<Rank>,
    previous: &PlayPattern,
    variant: CardGameVariant,
    best: &mut Option<(Vec<Rank>, PlayPattern)>,
    Ghost(hand): Ghost<Seq<Rank>>,
)
    requires
        selectable(selected@, hand),
        best_so_far(
            best_view(*old(best)),
            hand,
            *previous,
            variant,
            seen_before(selected@, VALUES_END as int),
        ),
    ensures
        best_so_far(
            best_view(*final(best)),
            hand,
            *previous,
            variant,
            seen_through(selected@, VALUES_END as int),
        ),
{
    let ghost end = VALUES_END as int;
    let ghost before = seen_before(selected@, end);
    let ghost through = seen_through(selected@, end);
    let ghost old_best = best_view(*best);
    proof {
        assert forall|t: Seq<Rank>| selectable(t, hand) && #[trigger] through(t) implies before(t)
            || t == selected@ by {
            if agree_below(t, selected@, end) {
                lemma_agree_is_equal(t, selected@);
            }
        }
        assert(through(selected@));
    }
    let pattern = match classify_for_variant(selected, variant) {
        Some(pattern) => pattern,
        None => {
            proof {
                lemma_best_extend_without(old_best, hand, *previous, variant, selected@);
            }
            return ;
        },
    };
    if !pattern.beats(previous) {
        proof {
            assert forall|q: PlayPattern| !beating(selected@, q, *previous, variant) by {
                if beating(selected@, q, *previous, variant) {
                    law_one_pattern(selected@, pattern, q, variant);
                }
            }
            lemma_best_extend_without(old_best, hand, *previous, variant, selected@);
        }
        return ;
    }
    let replace: bool = match best {
        None => true,
        Some((ranks, current)) => is_cheaper(&pattern, selected.len(), current, ranks.len()),
    };
    proof {
        assert(beating(selected@, pattern, *previous, variant));
        assert forall|t: Seq<Rank>| selectable(t, hand) && #[trigger] before(t) implies earlier(
            t,
            selected@,
        ) by {}
        assert forall|q: PlayPattern| #[trigger] beating(selected@, q, *previous, variant) implies q
            == pattern by {
            law_one_pattern(selected@, pattern, q, variant);
        }
        if let Some((b, p)) = old_best {
            assert(before(b));
            assert forall|t: Seq<Rank>, q: PlayPattern|
                selectable(t, hand) && through(t) && #[trigger] beating(
                    t,
                    q,
                    *previous,
                    variant,
                ) implies t == selected@ || (before(t) && (t == b || preferred(b, p, t, q))) by {}
            assert forall|t: Seq<Rank>, q: PlayPattern|
                t == b && #[trigger] beating(t, q, *previous, variant) implies q == p by {
                law_one_pattern(b, p, q, variant);
            }
        }
    }
    if replace {
        let copy = copy_ranks(selected);
        *best = Some((copy, pattern));
    }
}

/// Leaving out a selection that is no play changes nothing.
proof fn lemma_best_extend_without(
    best: Option<(Seq<Rank>, PlayPattern)>,
    hand: Seq<Rank>,
    previous: PlayPattern,
    variant: CardGameVariant,
    selected: Seq<Rank>,
)
    requires
        ascending(selected),
        best_so_far(
            best,
            hand,
            previous,
            variant,
            seen_before(selected, VALUES_END as int),
        ),
        forall|q: PlayPattern| !beating(selected, q, previous, variant),
    ensures
        best_so_far(
            best,
            hand,
            previous,
            variant,
            seen_through(selected, VALUES_END as int),
        ),
{
    let end = VALUES_END as int;
    assert forall|t: Seq<Rank>, q: PlayPattern|
        selectable(t, hand) && seen_through(selected, end)(t) && #[trigger] beating(
            t,
            q,
            previous,
            variant,
        ) implies seen_before(selected, end)(t) by {
        if agree_below(t, selected, end) {
            lemma_agree_is_equal(t, selected);
        }
    }
    if let Some((b, p)) = best {
        assert(seen_before(selected, end)(b));
    }
}

/// Whether spending `n` cards on `p` is cheaper than spending `m` on `q`.
fn is_cheaper(p: &PlayPattern, n: usize, q: &PlayPattern, m: usize) -> (r: bool)
    ensures
        r == cheaper(*p, n as nat, *q, m as nat),
{
    let left: bool = p.is_bomb();
    let right: bool = q.is_bomb();
    if left != right {
        right
    } else if p.strength() != q.strength() {
        p.strength() < q.strength()
    } else {
        n < m
    }
}

/// A copy of `ranks`.
pub fn copy_ranks(ranks: &Vec<Rank>) -> (r: Vec<Rank>)
    ensures
        r@ == ranks@,
{
    let mut r: Vec<Rank> = Vec::new();
    let mut i: usize = 0;
    while i < ranks.len()
        invariant
            i <= ranks@.len(),
            r@ == ranks@.take(i as int),
        decreases ranks@.len() - i,
    {
        r.push(ranks[i]);
        i = i + 1;
        proof {
            assert(r@ =~= ranks@.take(i as int));
        }
    }
    proof {
        assert(r@ =~= ranks@);
    }
    r
}

/// The lowest play that a hand with the ranks `hand` allows against `previous`.
pub fn find_lowest_play(
    hand: &Vec<Rank>,
    previous: &PlayPattern,
    variant: CardGameVariant,
) -> (r: Option<(Vec<Rank>, PlayPattern)>)
    ensures
        match r {
            Some((ranks, p)) => {
                &&& lowest_play(hand@, *previous, variant) == Some((ranks@, p))
                &&& is_lowest(ranks@, p, hand@, *previous, variant)
            },
            None => {
                &&& lowest_play(hand@, *previous, variant) is None
                &&& cannot_beat(hand@, *previous, variant)
            },
        },
{
    let counts: RankCounts = rank_counts(hand);
    let mut selected: Vec<Rank> = Vec::new();
    let mut best: Option<(Vec<Rank>, PlayPattern)> = None;
    let ghost start = selected@;
    proof {
        assert forall|v: int| LOWEST <= v < VALUES_END implies #[trigger] occurrences(start, v)
            <= occurrences(hand@, v) by {}
    }
    collect_beating_plays(
        &counts,
        LOWEST,
        &mut selected,
        previous,
        variant,
        &mut best,
        Ghost(hand@),
    );
    proof {
        let all = seen_through(start, LOWEST as int);
        assert forall|t: Seq<Rank>| #[trigger] all(t) by {
            assert(agree_below(t, start, LOWEST as int));
        }
        match best_view(best) {
            Some((b, p)) => {
                assert forall|t: Seq<Rank>, q: PlayPattern|
                    selectable(t, hand@) && #[trigger] beating(
                        t,
                        q,
                        *previous,
                        variant,
                    ) implies t == b || preferred(b, p, t, q) by {
                    assert(all(t));
                }
                assert(is_lowest(b, p, hand@, *previous, variant));
                let (t, q) = choose|t: Seq<Rank>, q: PlayPattern|
                    is_lowest(t, q, hand@, *previous, variant);
                law_lowest_unique(b, p, t, q, hand@, *previous, variant);
            },
            None => {
                assert forall|t: Seq<Rank>, q: PlayPattern| selectable(t, hand@) implies
                    !#[trigger] beating(t, q, *previous, variant) by {
                    assert(all(t));
                }
            },
        }
    }
    best
}


// ---------------------------------------------------------------------------
// The plays that run-fast allows
// ---------------------------------------------------------------------------
/// What a play in run-fast has to heed: the play it answers, the three of
/// spades in the opening play, and the single that must be played while the
/// next player has one card left.
#[derive(Clone, Copy)]
pub struct RunFastPlayFilter {
    pub previous: Option<PlayPattern>,
    pub requires_spade_three: bool,
    pub required_single: Option<Rank>,
}

/// Whether `selection` is a legal play of the pattern `p`.
pub open spec fn legal(selection: Seq<Rank>, p: PlayPattern, filter: RunFastPlayFilter) -> bool {
    &&& forms(selection, p, CardGameVariant::HunanRunFast)
    &&& filter.requires_spade_three ==> occurrences(selection, Rank::Three.value()) > 0
    &&& filter.previous matches Some(previous) ==> p.spec_beats(previous)
    &&& p matches PlayPattern::Single(rank) ==> (filter.required_single matches Some(required)
        ==> rank == required)
}

/// Whether a hand allows no legal play.
pub open spec fn no_legal_play(hand: Seq<Rank>, filter: RunFastPlayFilter) -> bool {
    forall|t: Seq<Rank>, q: PlayPattern| selectable(t, hand) ==> !#[trigger] legal(t, q, filter)
}

/// Whether the play is the only legal one that a hand allows.
pub open spec fn only_legal_play(
    selection: Seq<Rank>,
    p: PlayPattern,
    hand: Seq<Rank>,
    filter: RunFastPlayFilter,
) -> bool {
    &&& selectable(selection, hand)
    &&& legal(selection, p, filter)
    &&& forall|t: Seq<Rank>, q: PlayPattern|
        selectable(t, hand) && #[trigger] legal(t, q, filter) ==> t == selection
}

/// A hand has at most one only legal play.
pub proof fn law_only_play_unique(
    a: Seq<Rank>,
    p: PlayPattern,
    b: Seq<Rank>,
    q: PlayPattern,
    hand: Seq<Rank>,
    filter: RunFastPlayFilter,
)
    requires
        only_legal_play(a, p, hand, filter),
        only_legal_play(b, q, hand, filter),
    ensures
        a == b,
        p == q,
{
    law_one_pattern(a, p, q, CardGameVariant::HunanRunFast);
}

/// The selections of the plays in `options`.
spec fn options_view(options: Seq<(Vec<Rank>, PlayPattern)>) -> Seq<(Seq<Rank>, PlayPattern)> {
    Seq::new(options.len(), |i: int| (options[i].0@, options[i].1))
}

/// Whether `options` holds the first legal plays among the selections that
/// `seen` holds of: all of them where there are fewer than two, else two.
spec fn options_so_far(
    options: Seq<(Seq<Rank>, PlayPattern)>,
    hand: Seq<Rank>,
    filter: RunFastPlayFilter,
    seen: spec_fn(Seq<Rank>) -> bool,
) -> bool {
    &&& options.len() <= 2
    &&& forall|i: int|
        0 <= i < options.len() ==> {
            &&& selectable((#[trigger] options[i]).0, hand)
            &&& seen(options[i].0)
            &&& legal(options[i].0, options[i].1, filter)
        }
    &&& options.len() == 2 ==> options[0].0 != options[1].0
    &&& options.len() == 0 ==> forall|t: Seq<Rank>, q: PlayPattern|
        selectable(t, hand) && seen(t) ==> !#[trigger] legal(t, q, filter)
    &&& options.len() == 1 ==> forall|t: Seq<Rank>, q: PlayPattern|
        selectable(t, hand) && seen(t) && #[trigger] legal(t, q, filter) ==> t == options[0].0
}

proof fn lemma_options_same_seen(
    options: Seq<(Seq<Rank>, PlayPattern)>,
    hand: Seq<Rank>,
    filter: RunFastPlayFilter,
    seen: spec_fn(Seq<Rank>) -> bool,
    other: spec_fn(Seq<Rank>) -> bool,
)
    requires
        options_so_far(options, hand, filter, seen),
        forall|t: Seq<Rank>| selectable(t, hand) && #[trigger] seen(t) ==> other(t),
        options.len() < 2 ==> forall|t: Seq<Rank>|
            selectable(t, hand) && #[trigger] other(t) ==> seen(t),
    ensures
        options_so_far(options, hand, filter, other),
{
    assert forall|i: int| 0 <= i < options.len() implies other((#[trigger] options[i]).0) by {
        assert(seen(options[i].0));
    }
}

/// Tries all selections that continue `selected` with ranks from `value` on,
/// in ascending order, and collects up to two legal plays.
fn collect_run_fast_legal_plays(
    counts: &RankCounts,
    value: u8,
    selected: &mut Vec<Rank>,
    filter: &RunFastPlayFilter,
    options: &mut Vec<(Vec<Rank>, PlayPattern)>,
    Ghost(hand): Ghost<Seq<Rank>>,
)
    requires
        counts.counts_of(hand),
        LOWEST <= value <= VALUES_END,
        selectable(old(selected)@, hand),
        all_below(old(selected)@, value as int),
        options_so_far(
            options_view(old(options)@),
            hand,
            *filter,
            seen_before(old(selected)@, value as int),
        ),
    ensures
        final(selected)@ == old(selected)@,
        options_so_far(
            options_view(final(options)@),
            hand,
            *filter,
            seen_through(old(selected)@, value as int),
        ),
    decreases VALUES_END - value,
{
    let ghost base = selected@;
    if options.len() >= 2 {
        proof {
            lemma_options_same_seen(
                options_view(options@),
                hand,
                *filter,
                seen_before(base, value as int),
                seen_through(base, value as int),
            );
        }
        return ;
    }
    if value == VALUES_END {
        finish_run_fast_play(selected, filter, options, Ghost(hand));
        return ;
    }
    let rank: Rank = Rank::from_u8(value);
    let count: usize = counts.at(value);
    let length: usize = selected.len();
    proof {
        assert(occurrences(hand, value as int) == counts.counts@[value - 3]);
    }
    let mut take: usize = 0;
    proof {
        assert(base + repeated(rank, 0) =~= base);
        lemma_extended(base, rank, 0);
        assert forall|t: Seq<Rank>| selectable(t, hand) implies (#[trigger] seen_before(
            base,
            value as int,
        )(t) <==> seen_before(base + repeated(rank, 0), value + 1)(t)) by {
            lemma_extended_order(base, rank, 0, t);
        }
        lemma_options_same_seen(
            options_view(options@),
            hand,
            *filter,
            seen_before(base, value as int),
            seen_before(base + repeated(rank, 0), value + 1),
        );
    }
    loop
        invariant_except_break
            selected@ == base + repeated(rank, take as nat),
            options_so_far(
                options_view(options@),
                hand,
                *filter,
                seen_before(base + repeated(rank, take as nat), value + 1),
            ),
        invariant
            counts.counts_of(hand),
            LOWEST <= value < VALUES_END,
            rank == Rank::of(value as int),
            rank.value() == value,
            count == occurrences(hand, value as int),
            take <= count,
            base.len() == length,
            selectable(base, hand),
            all_below(base, value as int),
        ensures
            selected@.take(length as int) == base,
            selected@.len() >= length,
            options_so_far(
                options_view(options@),
                hand,
                *filter,
                seen_through(base, value as int),
            ),
        decreases count - take,
    {
        proof {
            lemma_extended(base, rank, take as nat);
            assert(selectable(selected@, hand)) by {
                assert forall|v: int| LOWEST <= v < VALUES_END implies #[trigger] occurrences(
                    selected@,
                    v,
                ) <= occurrences(hand, v) by {
                    if v != rank.value() {
                        assert(occurrences(selected@, v) == occurrences(base, v));
                    }
                }
            }
        }
        collect_run_fast_legal_plays(counts, value + 1, selected, filter, options, Ghost(hand));
        let ghost current = base + repeated(rank, take as nat);
        if take == count || options.len() >= 2 {
            proof {
                assert forall|t: Seq<Rank>|
                    selectable(t, hand) && #[trigger] seen_through(
                        current,
                        value + 1,
                    )(t) implies seen_through(base, value as int)(t) by {
                    lemma_extended_order(base, rank, take as nat, t);
                }
                if take == count {
                    assert forall|t: Seq<Rank>|
                        selectable(t, hand) && #[trigger] seen_through(
                            base,
                            value as int,
                        )(t) implies seen_through(current, value + 1)(t) by {
                        lemma_extended_order(base, rank, take as nat, t);
                        assert(occurrences(t, value as int) <= count);
                    }
                }
                lemma_options_same_seen(
                    options_view(options@),
                    hand,
                    *filter,
                    seen_through(current, value + 1),
                    seen_through(base, value as int),
                );
                assert(selected@.take(length as int) =~= base);
            }
            break ;
        }
        selected.push(rank);
        proof {
            let next = base + repeated(rank, (take + 1) as nat);
            assert(selected@ =~= next);
            assert forall|t: Seq<Rank>| selectable(t, hand) implies (#[trigger] seen_through(
                current,
                value + 1,
            )(t) <==> #[trigger] seen_before(next, value + 1)(t)) by {
                lemma_extended_order(base, rank, take as nat, t);
                lemma_extended_order(base, rank, (take + 1) as nat, t);
            }
            lemma_options_same_seen(
                options_view(options@),
                hand,
                *filter,
                seen_through(current, value + 1),
                seen_before(next, value + 1),
            );
        }
        take = take + 1;
    }
    selected.truncate(length);
    proof {
        assert(selected@ =~= base);
    }
}

/// Adds the complete selection `selected` to `options` if it is a legal play.
fn finish_run_fast_play(
    selected: &Vec<Rank>,
    filter: &RunFastPlayFilter,
    options: &mut Vec<(Vec<Rank>, PlayPattern)>,
    Ghost(hand): Ghost<Seq<Rank>>,
)
    requires
        selectable(selected@, hand),
        old(options)@.len() < 2,
        options_so_far(
            options_view(old(options)@),
            hand,
            *filter,
            seen_before(selected@, VALUES_END as int),
        ),
    ensures
        options_so_far(
            options_view(final(options)@),
            hand,
            *filter,
            seen_through(selected@, VALUES_END as int),
        ),
{
    let ghost end = VALUES_END as int;
    let ghost before = seen_before(selected@, end);
    let ghost through = seen_through(selected@, end);
    let ghost old_options = options_view(options@);
    proof {
        assert forall|t: Seq<Rank>| selectable(t, hand) && #[trigger] through(t) implies before(t)
            || t == selected@ by {
            if agree_below(t, selected@, end) {
                lemma_agree_is_equal(t, selected@);
            }
        }
        assert(through(selected@));
        assert forall|i: int| 0 <= i < old_options.len() implies (#[trigger] old_options[i]).0
            != selected@ by {
            assert(before(old_options[i].0));
            lemma_earlier_asymmetric(old_options[i].0, selected@);
        }
    }
    let is_legal: Option<PlayPattern> = legal_pattern(selected, filter);
    match is_legal {
        Some(pattern) => {
            let copy = copy_ranks(selected);
            options.push((copy, pattern));
            proof {
                let new_options = options_view(options@);
                assert(new_options =~= old_options.push((selected@, pattern)));
                assert forall|i: int| 0 <= i < new_options.len() implies {
                    &&& selectable((#[trigger] new_options[i]).0, hand)
                    &&& through(new_options[i].0)
                    &&& legal(new_options[i].0, new_options[i].1, *filter)
                } by {
                    if i < old_options.len() {
                        assert(new_options[i] == old_options[i]);
                    }
                }
            }
        },
        None => {
            proof {
                assert forall|i: int| 0 <= i < old_options.len() implies through(
                    (#[trigger] old_options[i]).0,
                ) by {}
                assert(options_so_far(old_options, hand, *filter, through));
            }
        },
    }
}

/// The pattern of which `selected` is a legal play.
fn legal_pattern(selected: &Vec<Rank>, filter: &RunFastPlayFilter) -> (r: Option<PlayPattern>)
    ensures
        match r {
            Some(p) => legal(selected@, p, *filter),
            None => forall|p: PlayPattern| !#[trigger] legal(selected@, p, *filter),
        },
{
    let variant = CardGameVariant::HunanRunFast;
    let pattern = match classify_for_variant(selected, variant) {
        Some(pattern) => pattern,
        None => {
            return None;
        },
    };
    proof {
        assert forall|q: PlayPattern| #[trigger] legal(selected@, q, *filter) implies q
            == pattern by {
            law_one_pattern(selected@, pattern, q, variant);
        }
    }
    if filter.requires_spade_three && !contains_rank(selected, Rank::Three) {
        return None;
    }
    if let Some(previous) = filter.previous {
        if !pattern.beats(&previous) {
            return None;
        }
    }
    if let PlayPattern::Single(rank) = pattern {
        if let Some(required) = filter.required_single {
            if rank != required {
                return None;
            }
        }
    }
    Some(pattern)
}

/// Whether `rank` stands in `ranks`.
pub fn contains_rank(ranks: &Vec<Rank>, rank: Rank) -> (r: bool)
    ensures
        r == (occurrences(ranks@, rank.value()) > 0),
        r == ranks@.contains(rank),
{
    proof {
        lemma_rank_value(rank);
        if occurrences(ranks@, rank.value()) > 0 {
            let i = crate::card_games::cards::lemma_occurs_somewhere(ranks@, rank.value());
            lemma_rank_value(ranks@[i]);
            assert(ranks@[i] == rank);
        }
    }
    let mut i: usize = 0;
    while i < ranks.len()
        invariant
            i <= ranks@.len(),
            forall|j: int| 0 <= j < i ==> ranks@[j] != rank,
        decreases ranks@.len() - i,
    {
        if ranks[i] == rank {
            proof {
                lemma_occurs(ranks@, i as int);
            }
            return true;
        }
        i = i + 1;
    }
    false
}

/// The legal plays of a hand, as far as they matter: none, the only one, or two.
pub enum LegalPlays {
    Zero,
    One(Vec<Rank>, PlayPattern),
    Several,
}

/// Finds out whether a hand with the ranks `hand` allows no, one or several
/// legal plays in run-fast.
pub fn find_legal_plays(hand: &Vec<Rank>, filter: &RunFastPlayFilter) -> (r: LegalPlays)
    ensures
        match r {
            LegalPlays::Zero => no_legal_play(hand@, *filter),
            LegalPlays::One(ranks, p) => only_legal_play(ranks@, p, hand@, *filter),
            LegalPlays::Several => {
                &&& !no_legal_play(hand@, *filter)
                &&& forall|t: Seq<Rank>, q: PlayPattern|
                    !#[trigger] only_legal_play(t, q, hand@, *filter)
            },
        },
{
    let counts: RankCounts = rank_counts(hand);
    let mut selected: Vec<Rank> = Vec::new();
    let mut options: Vec<(Vec<Rank>, PlayPattern)> = Vec::new();
    let ghost start = selected@;
    proof {
        assert forall|v: int| LOWEST <= v < VALUES_END implies #[trigger] occurrences(start, v)
            <= occurrences(hand@, v) by {}
    }
    collect_run_fast_legal_plays(
        &counts,
        LOWEST,
        &mut selected,
        filter,
        &mut options,
        Ghost(hand@),
    );
    proof {
        let all = seen_through(start, LOWEST as int);
        assert forall|t: Seq<Rank>| #[trigger] all(t) by {
            assert(agree_below(t, start, LOWEST as int));
        }
        let view = options_view(options@);
        assert forall|t: Seq<Rank>, q: PlayPattern|
            selectable(t, hand@) && #[trigger] legal(t, q, *filter) implies all(t) by {}
        if view.len() == 2 {
            assert(selectable(view[0].0, hand@) && legal(view[0].0, view[0].1, *filter));
            assert(selectable(view[1].0, hand@) && legal(view[1].0, view[1].1, *filter));
        }
        if view.len() == 1 {
            assert(view[0].0 == options@[0].0@);
        }
    }
    if options.len() == 0 {
        LegalPlays::Zero
    } else if options.len() == 1 {
        match options.pop() {
            Some((ranks, pattern)) => LegalPlays::One(ranks, pattern),
            None => LegalPlays::Zero,
        }
    } else {
        LegalPlays::Several
    }
}

/// A play without a bomb is cheaper than one with, then the weaker one, then the one of
/// fewer cards; and no play is cheaper than itself.
pub proof fn law_cheaper(p: PlayPattern, n: nat, q: PlayPattern, m: nat)
    ensures
        !p.bomb() && q.bomb() ==> cheaper(p, n, q, m) && !cheaper(q, m, p, n),
        p.bomb() == q.bomb() && p.spec_strength() < q.spec_strength() ==> cheaper(p, n, q, m)
            && !cheaper(q, m, p, n),
        p.bomb() == q.bomb() && p.spec_strength() == q.spec_strength() ==> (cheaper(p, n, q, m)
            <==> n < m),
        !cheaper(p, n, p, n),
{
}

/// The lowest play against another is made of cards of the hand, forms its pattern, beats
/// the other, and no other play of the hand that beats it is cheaper.
pub proof fn law_lowest_play(
    hand: Seq<Rank>,
    previous: PlayPattern,
    variant: CardGameVariant,
    t: Seq<Rank>,
    q: PlayPattern,
)
    requires
        lowest_play(hand, previous, variant) is Some,
        selectable(t, hand),
        forms(t, q, variant),
        q.spec_beats(previous),
    ensures
        ({
            let (selection, p) = lowest_play(hand, previous, variant)->0;
            &&& selectable(selection, hand)
            &&& forms(selection, p, variant)
            &&& p.spec_beats(previous)
            &&& t != selection ==> !cheaper(q, t.len(), p, selection.len())
        }),
{
    let (selection, p) = lowest_play(hand, previous, variant)->0;
    assert(is_lowest(selection, p, hand, previous, variant));
    assert(beating(t, q, previous, variant));
}

/// A selection of a hand has its cards in ascending order, and of each rank from three to
/// the big joker no more than the hand.
pub proof fn law_selectable(selection: Seq<Rank>, hand: Seq<Rank>)
    ensures
        selectable(selection, hand) <==> ({
            &&& forall|i: int, j: int|
                0 <= i < j < selection.len() ==> (#[trigger] selection[i]).value() <= (
                #[trigger] selection[j]).value()
            &&& forall|v: int|
                3 <= v <= 17 ==> #[trigger] occurrences(selection, v) <= occurrences(hand, v)
        }),
{
}

/// A legal play of run-fast forms a pattern and heeds all that it has to: each of these
/// alone makes it illegal.
pub proof fn law_legal(
    selection: Seq<Rank>,
    p: PlayPattern,
    previous: PlayPattern,
    required: Rank,
)
    requires
        forms(selection, p, CardGameVariant::HunanRunFast),
    ensures
        legal(
            selection,
            p,
            RunFastPlayFilter {
                previous: None,
                requires_spade_three: false,
                required_single: None,
            },
        ),
        legal(
            selection,
            p,
            RunFastPlayFilter {
                previous: Some(previous),
                requires_spade_three: false,
                required_single: None,
            },
        ) <==> p.spec_beats(previous),
        legal(
            selection,
            p,
            RunFastPlayFilter {
                previous: None,
                requires_spade_three: true,
                required_single: None,
            },
        ) <==> occurrences(selection, 3) > 0,
        legal(
            selection,
            p,
            RunFastPlayFilter {
                previous: None,
                requires_spade_three: false,
                required_single: Some(required),
            },
        ) <==> (p is Single ==> p == PlayPattern::Single(required)),
{
}

} // verus!
