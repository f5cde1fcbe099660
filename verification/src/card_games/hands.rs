//! Reading cards from chat, writing them out, and taking them from a hand.
use vstd::multiset::Multiset;
use vstd::prelude::*;
use crate::card_games::cards::card_ranks;
use crate::card_games::cards::Card;
use crate::card_games::cards::Rank;
use crate::card_games::cards::{
    lemma_occurrences_multiset, lemma_rank_value, occurrences, ranks_of, };
use crate::card_games::search::contains_rank;
use crate::card_games::search::selectable;
use crate::sorting::lemma_sorted;
use crate::sorting::sort;
use crate::sorting::sorted;
use crate::text::cat2;
use crate::text::is_whitespace;
use crate::text::law_join;
use crate::text::join;
use crate::text::to_chars;
use crate::text::{joined, string_views, whitespace};

verus! {

// ---------------------------------------------------------------------------
// Reading cards
// ---------------------------------------------------------------------------
/// Whether `c` may stand between cards.
pub open spec fn separator(c: char) -> bool {
    whitespace(c) || c == ',' || c == '，' || c == '、'
}

/// `s` without the separators.
pub open spec fn without_separators(s: Seq<char>) -> Seq<char>
    decreases s.len(),
{
    if s.len() == 0 {
        Seq::empty()
    } else if separator(s.last()) {
        without_separators(s.drop_last())
    } else {
        without_separators(s.drop_last()).push(s.last())
    }
}

/// The rank that a single character stands for, in either case.
pub open spec fn char_rank(c: char) -> Option<Rank> {
    if c == '3' {
        Some(Rank::Three)
    } else if c == '4' {
        Some(Rank::Four)
    } else if c == '5' {
        Some(Rank::Five)
    } else if c == '6' {
        Some(Rank::Six)
    } else if c == '7' {
        Some(Rank::Seven)
    } else if c == '8' {
        Some(Rank::Eight)
    } else if c == '9' {
        Some(Rank::Nine)
    } else if c == 'J' || c == 'j' {
        Some(Rank::Jack)
    } else if c == 'Q' || c == 'q' {
        Some(Rank::Queen)
    } else if c == 'K' || c == 'k' {
        Some(Rank::King)
    } else if c == 'A' || c == 'a' {
        Some(Rank::Ace)
    } else if c == '2' {
        Some(Rank::Two)
    } else {
        None
    }
}

/// The rank that `s` starts with, and the number of characters it takes.
pub open spec fn first_rank(s: Seq<char>) -> Option<(Rank, int)>
    recommends
        s.len() > 0,
{
    if s.len() >= 2 && s[0] == '小' && s[1] == '王' {
        Some((Rank::SmallJoker, 2int))
    } else if s.len() >= 2 && s[0] == '大' && s[1] == '王' {
        Some((Rank::BigJoker, 2int))
    } else if s.len() >= 2 && s[0] == '1' && s[1] == '0' {
        Some((Rank::Ten, 2int))
    } else {
        match char_rank(s[0]) {
            Some(rank) => Some((rank, 1int)),
            None => None,
        }
    }
}

/// The ranks written in `s`, in the order in which they are written, or the
/// first character that starts no rank.
pub open spec fn read_ranks(s: Seq<char>) -> Result<Seq<Rank>, char>
    decreases s.len(),
{
    if s.len() == 0 {
        Ok(Seq::empty())
    } else {
        match first_rank(s) {
            Some((rank, n)) => match read_ranks(s.skip(n)) {
                Ok(rest) => Ok(seq![rank] + rest),
                Err(c) => Err(c),
            },
            None => Err(s[0]),
        }
    }
}

/// What `parse_cards` gives for `s`.
pub open spec fn parsed_cards(s: Seq<char>) -> Result<Seq<Rank>, Seq<char>> {
    match read_ranks(without_separators(s)) {
        Ok(ranks) => Ok(sorted(ranks)),
        Err(c) => Err("无法识别牌面: "@ + seq![c]),
    }
}

/// `found` put in front of what remains to be read.
spec fn after(found: Seq<Rank>, rest: Result<Seq<Rank>, char>) -> Result<Seq<Rank>, char> {
    match rest {
        Ok(ranks) => Ok(found + ranks),
        Err(c) => Err(c),
    }
}

fn rank_of_char(c: char) -> (r: Option<Rank>)
    ensures
        r == char_rank(c),
{
    match c {
        '3' => Some(Rank::Three),
        '4' => Some(Rank::Four),
        '5' => Some(Rank::Five),
        '6' => Some(Rank::Six),
        '7' => Some(Rank::Seven),
        '8' => Some(Rank::Eight),
        '9' => Some(Rank::Nine),
        'J' => Some(Rank::Jack),
        'j' => Some(Rank::Jack),
        'Q' => Some(Rank::Queen),
        'q' => Some(Rank::Queen),
        'K' => Some(Rank::King),
        'k' => Some(Rank::King),
        'A' => Some(Rank::Ace),
        'a' => Some(Rank::Ace),
        '2' => Some(Rank::Two),
        _ => None,
    }
}

/// The ranks written in `text`, in ascending order; separators are skipped.
pub fn parse_cards(text: &str) -> (r: Result<Vec<Rank>, String>)
    ensures
        match r {
            Ok(ranks) => parsed_cards(text@) == Ok::<Seq<Rank>, Seq<char>>(ranks@),
            Err(message) => parsed_cards(text@) == Err::<Seq<Rank>, Seq<char>>(message@),
        },
{
    let chars = to_chars(text);
    let mut compact: Vec<char> = Vec::new();
    let mut i: usize = 0;
    proof {
        assert(chars@.take(0) =~= Seq::<char>::empty());
    }
    while i < chars.len()
        invariant
            i <= chars@.len(),
            compact@ == without_separators(chars@.take(i as int)),
        decreases chars@.len() - i,
    {
        let c: char = chars[i];
        proof {
            assert(chars@.take(i + 1).drop_last() =~= chars@.take(i as int));
        }
        if !(is_whitespace(c) || c == ',' || c == '，' || c == '、') {
            compact.push(c);
        }
        i = i + 1;
    }
    proof {
        assert(chars@.take(chars@.len() as int) =~= chars@);
    }
    let ghost full = compact@;
    let mut ranks: Vec<Rank> = Vec::new();
    let mut at: usize = 0;
    proof {
        assert(full.skip(0) =~= full);
        assert(after(Seq::empty(), read_ranks(full)) == read_ranks(full)) by {
            match read_ranks(full) {
                Ok(rest) => {
                    assert(Seq::<Rank>::empty() + rest =~= rest);
                },
                Err(c) => {},
            }
        }
    }
    while at < compact.len()
        invariant
            at <= compact@.len(),
            compact@ == full,
            full == without_separators(text@),
            read_ranks(full) == after(ranks@, read_ranks(full.skip(at as int))),
        decreases compact@.len() - at,
    {
        let ghost rest = full.skip(at as int);
        let more: bool = at + 1 < compact.len();
        let first: char = compact[at];
        let (rank, consumed): (Rank, usize) = if more && first == '小' && compact[at + 1] == '王' {
            (Rank::SmallJoker, 2)
        } else if more && first == '大' && compact[at + 1] == '王' {
            (Rank::BigJoker, 2)
        } else if more && first == '1' && compact[at + 1] == '0' {
            (Rank::Ten, 2)
        } else {
            match rank_of_char(first) {
                Some(rank) => (rank, 1),
                None => {
                    let mut shown: String = String::new();
                    shown.push(first);
                    proof {
                        assert(shown@ =~= seq![first]);
                    }
                    return Err(cat2("无法识别牌面: ", shown.as_str()));
                },
            }
        };
        proof {
            assert(first_rank(rest) == Some((rank, consumed as int)));
            assert(rest.skip(consumed as int) =~= full.skip(at + consumed));
            match read_ranks(full.skip(at + consumed)) {
                Ok(tail) => {
                    assert(ranks@ + (seq![rank] + tail) =~= ranks@.push(rank) + tail);
                },
                Err(c) => {},
            }
        }
        ranks.push(rank);
        at = at + consumed;
    }
    proof {
        assert(read_ranks(full.skip(at as int)) == Ok::<Seq<Rank>, char>(Seq::empty()));
        assert(ranks@ + Seq::<Rank>::empty() =~= ranks@);
    }
    sort(&mut ranks);
    Ok(ranks)
}

// ---------------------------------------------------------------------------
// Writing cards
// ---------------------------------------------------------------------------
/// How a card of a hand is written.
pub open spec fn card_label(card: Card) -> Seq<char> {
    if card.spade_three {
        "♠3"@
    } else {
        card.rank.spec_label()
    }
}

/// A hand as it is shown to its owner.
pub open spec fn hand_text(hand: Seq<Card>) -> Seq<char> {
    joined(Seq::new(hand.len(), |i: int| card_label(hand[i])), " "@)
}

/// The labels of `ranks` with `between` between them.
pub open spec fn ranks_text(ranks: Seq<Rank>, between: Seq<char>) -> Seq<char> {
    joined(Seq::new(ranks.len(), |i: int| ranks[i].spec_label()), between)
}

/// Played cards as they are announced: sorted, with spaces between them.
pub open spec fn play_text(cards: Seq<Card>) -> Seq<char> {
    ranks_text(sorted(ranks_of(cards)), " "@)
}

/// Played cards in the shortest form: sorted, with nothing between them.
pub open spec fn compact_play_text(cards: Seq<Card>) -> Seq<char> {
    ranks_text(sorted(ranks_of(cards)), ""@)
}

/// Writes out a hand.
pub fn format_hand(hand: &Vec<Card>) -> (r: String)
    ensures
        r@ == hand_text(hand@),
{
    let mut labels: Vec<String> = Vec::new();
    let mut i: usize = 0;
    while i < hand.len()
        invariant
            i <= hand@.len(),
            labels@.len() == i,
            forall|j: int| 0 <= j < i ==> (#[trigger] labels@[j])@ == card_label(hand@[j]),
        decreases hand@.len() - i,
    {
        let label: String = if hand[i].spade_three {
            "♠3".to_owned()
        } else {
            hand[i].rank.label().to_owned()
        };
        labels.push(label);
        i = i + 1;
    }
    proof {
        assert(string_views(labels@) =~= Seq::new(hand@.len(), |i: int| card_label(hand@[i])));
    }
    join(&labels, " ")
}

fn format_ranks(ranks: &Vec<Rank>, between: &str) -> (r: String)
    ensures
        r@ == ranks_text(ranks@, between@),
{
    let mut labels: Vec<String> = Vec::new();
    let mut i: usize = 0;
    while i < ranks.len()
        invariant
            i <= ranks@.len(),
            labels@.len() == i,
            forall|j: int| 0 <= j < i ==> (#[trigger] labels@[j])@ == ranks@[j].spec_label(),
        decreases ranks@.len() - i,
    {
        labels.push(ranks[i].label().to_owned());
        i = i + 1;
    }
    proof {
        assert(string_views(labels@) =~= Seq::new(ranks@.len(), |i: int| ranks@[i].spec_label()));
    }
    join(&labels, between)
}

/// Writes out played cards.
pub fn format_play(cards: &Vec<Card>) -> (r: String)
    ensures
        r@ == play_text(cards@),
{
    let mut ranks = card_ranks(cards);
    sort(&mut ranks);
    format_ranks(&ranks, " ")
}

/// Writes out played cards in the shortest form.
pub fn format_play_compact(cards: &Vec<Card>) -> (r: String)
    ensures
        r@ == compact_play_text(cards@),
{
    let mut ranks = card_ranks(cards);
    sort(&mut ranks);
    format_ranks(&ranks, "")
}

// ---------------------------------------------------------------------------
// Taking cards
// ---------------------------------------------------------------------------
/// The card of rank `rank` that counts as the three of spades.
pub open spec fn marked(rank: Rank) -> Card {
    Card { rank, spade_three: true }
}

/// The cards that are taken from `available` for `ranks`, one after the other:
/// the three of spades only where no other card of the rank is left. Fails
/// with the first rank of which nothing is left.
pub open spec fn taken(available: Multiset<Card>, ranks: Seq<Rank>) -> Result<Seq<Card>, Rank>
    decreases ranks.len(),
{
    if ranks.len() == 0 {
        Ok(Seq::empty())
    } else {
        let rank = ranks[0];
        let card = if available.count(Card::plain(rank)) > 0 {
            Card::plain(rank)
        } else {
            marked(rank)
        };
        if available.count(card) == 0 {
            Err(rank)
        } else {
            match taken(available.remove(card), ranks.skip(1)) {
                Ok(rest) => Ok(seq![card] + rest),
                Err(missing) => Err(missing),
            }
        }
    }
}

/// What `take_cards` gives.
pub open spec fn take_result(hand: Seq<Card>, ranks: Seq<Rank>) -> Result<Seq<Card>, Seq<char>> {
    match taken(hand.to_multiset(), ranks) {
        Ok(cards) => Ok(cards),
        Err(rank) => Err("手牌中缺少 "@ + rank.spec_label()),
    }
}

spec fn after_cards(found: Seq<Card>, rest: Result<Seq<Card>, Rank>) -> Result<Seq<Card>, Rank> {
    match rest {
        Ok(cards) => Ok(found + cards),
        Err(rank) => Err(rank),
    }
}

/// The position of `card` in `cards`.
fn position_of(cards: &Vec<Card>, card: Card) -> (r: Option<usize>)
    ensures
        match r {
            Some(i) => i < cards@.len() && cards@[i as int] == card && cards@.index_of_first(card)
                == Some(i as int) && cards@.to_multiset().count(card) > 0,
            None => !cards@.contains(card) && cards@.to_multiset().count(card) == 0,
        },
{
    broadcast use vstd::seq_lib::group_to_multiset_ensures;

    let mut i: usize = 0;
    while i < cards.len()
        invariant
            i <= cards@.len(),
            forall|j: int| 0 <= j < i ==> cards@[j] != card,
        decreases cards@.len() - i,
    {
        if cards[i] == card {
            proof {
                assert(cards@.contains(card));
                cards@.index_of_first_ensures(card);
                vstd::seq_lib::to_multiset_contains(cards@, card);
            }
            return Some(i);
        }
        i = i + 1;
    }
    None
}

/// A copy of `cards`.
pub fn copy_cards(cards: &Vec<Card>) -> (r: Vec<Card>)
    ensures
        r@ == cards@,
{
    let mut r: Vec<Card> = Vec::new();
    let mut i: usize = 0;
    while i < cards.len()
        invariant
            i <= cards@.len(),
            r@ == cards@.take(i as int),
        decreases cards@.len() - i,
    {
        r.push(cards[i]);
        i = i + 1;
        proof {
            assert(r@ =~= cards@.take(i as int));
        }
    }
    proof {
        assert(r@ =~= cards@);
    }
    r
}

/// Takes cards with the given ranks from a hand, which stays as it is.
pub fn take_cards(hand: &Vec<Card>, ranks: &Vec<Rank>) -> (r: Result<Vec<Card>, String>)
    ensures
        match r {
            Ok(cards) => take_result(hand@, ranks@) == Ok::<Seq<Card>, Seq<char>>(cards@),
            Err(message) => take_result(hand@, ranks@) == Err::<Seq<Card>, Seq<char>>(message@),
        },
{
    broadcast use vstd::seq_lib::group_to_multiset_ensures;

    let mut available = copy_cards(hand);
    let mut cards: Vec<Card> = Vec::new();
    let mut i: usize = 0;
    let ghost whole = taken(hand@.to_multiset(), ranks@);
    proof {
        assert(ranks@.skip(0) =~= ranks@);
        if let Ok(all) = whole {
            assert(Seq::<Card>::empty() + all =~= all);
        }
    }
    while i < ranks.len()
        invariant
            i <= ranks@.len(),
            whole == taken(hand@.to_multiset(), ranks@),
            whole == after_cards(
                cards@,
                taken(available@.to_multiset(), ranks@.skip(i as int)),
            ),
        decreases ranks@.len() - i,
    {
        let rank: Rank = ranks[i];
        let ghost rest = ranks@.skip(i as int);
        let ghost before = available@;
        let plain = position_of(&available, Card::new(rank));
        let found = match plain {
            Some(index) => Some(index),
            None => position_of(&available, Card { rank, spade_three: true }),
        };
        let index: usize = match found {
            Some(index) => index,
            None => {
                return Err(cat2("手牌中缺少 ", rank.label()));
            },
        };
        let card = available.remove(index);
        let ghost kept = cards@;
        cards.push(card);
        proof {
            assert(rest[0] == rank);
            assert(rest.skip(1) =~= ranks@.skip(i + 1));
            vstd::seq_lib::to_multiset_remove(before, index as int);
            assert(card == before[index as int]);
            assert(before.to_multiset().count(card) > 0);
            assert(card == if before.to_multiset().count(Card::plain(rank)) > 0 {
                Card::plain(rank)
            } else {
                marked(rank)
            });
            let next = taken(available@.to_multiset(), ranks@.skip(i + 1));
            assert(taken(before.to_multiset(), rest) == after_cards(seq![card], next));
            if let Ok(tail) = next {
                assert(kept + (seq![card] + tail) =~= cards@ + tail);
            }
        }
        i = i + 1;
    }
    proof {
        assert(cards@ + Seq::<Card>::empty() =~= cards@);
    }
    Ok(cards)
}

/// The cards taken are in the hand.
pub proof fn lemma_taken_subset(available: Multiset<Card>, ranks: Seq<Rank>)
    requires
        taken(available, ranks) is Ok,
    ensures
        taken(available, ranks)->Ok_0.to_multiset().subset_of(available),
        ranks_of(taken(available, ranks)->Ok_0) == ranks,
    decreases ranks.len(),
{
    broadcast use vstd::seq_lib::group_to_multiset_ensures;
    broadcast use vstd::multiset::group_multiset_axioms;

    let cards = taken(available, ranks)->Ok_0;
    if ranks.len() == 0 {
        assert(ranks_of(cards) =~= ranks);
    } else {
        let card = cards[0];
        let rest = taken(available.remove(card), ranks.skip(1))->Ok_0;
        lemma_taken_subset(available.remove(card), ranks.skip(1));
        vstd::seq_lib::lemma_multiset_commutative(seq![card], rest);
        assert(seq![card] =~= Seq::<Card>::empty().push(card));
        assert forall|c: Card| cards.to_multiset().count(c) <= available.count(c) by {
            assert(rest.to_multiset().count(c) <= available.remove(card).count(c));
        }
        assert(ranks_of(cards) =~= seq![ranks[0]] + ranks_of(rest));
        assert(ranks_of(cards) =~= ranks);
    }
}

/// Where a hand holds enough cards of each rank, taking them succeeds.
pub proof fn lemma_taken_succeeds(hand: Seq<Card>, ranks: Seq<Rank>)
    requires
        selectable(ranks, ranks_of(hand)),
    ensures
        taken(hand.to_multiset(), ranks) is Ok,
{
    assert forall|r: Rank| ranks.to_multiset().count(r) <= rank_count(hand.to_multiset(), r) by {
        lemma_rank_value(r);
        lemma_occurrences_multiset(ranks, r);
        assert(occurrences(ranks, r.value()) <= occurrences(ranks_of(hand), r.value()));
        lemma_rank_count(hand, r);
    }
    lemma_taken_counts(hand.to_multiset(), ranks);
}

/// How many cards of a rank there are.
spec fn rank_count(cards: Multiset<Card>, r: Rank) -> nat {
    cards.count(Card::plain(r)) + cards.count(marked(r))
}

proof fn lemma_rank_count(hand: Seq<Card>, r: Rank)
    ensures
        occurrences(ranks_of(hand), r.value()) == rank_count(hand.to_multiset(), r),
    decreases hand.len(),
{
    broadcast use vstd::seq_lib::group_to_multiset_ensures;
    broadcast use vstd::multiset::group_multiset_axioms;

    if hand.len() > 0 {
        let front = hand.drop_last();
        lemma_rank_count(front, r);
        assert(ranks_of(hand).drop_last() =~= ranks_of(front));
        assert(hand =~= front.push(hand.last()));
        lemma_rank_value(r);
        lemma_rank_value(hand.last().rank);
    }
}

proof fn lemma_taken_counts(available: Multiset<Card>, ranks: Seq<Rank>)
    requires
        forall|r: Rank| #[trigger] ranks.to_multiset().count(r) <= rank_count(available, r),
    ensures
        taken(available, ranks) is Ok,
    decreases ranks.len(),
{
    broadcast use vstd::seq_lib::group_to_multiset_ensures;
    broadcast use vstd::multiset::group_multiset_axioms;

    if ranks.len() > 0 {
        let rank = ranks[0];
        assert(ranks.contains(rank));
        assert(ranks.to_multiset().count(rank) > 0);
        let card = if available.count(Card::plain(rank)) > 0 {
            Card::plain(rank)
        } else {
            marked(rank)
        };
        assert(available.count(card) > 0);
        assert(ranks.skip(1) =~= ranks.remove(0));
        assert forall|r: Rank| #[trigger] ranks.skip(1).to_multiset().count(r) <= rank_count(
            available.remove(card),
            r,
        ) by {
            assert(ranks.to_multiset().count(r) <= rank_count(available, r));
        }
        lemma_taken_counts(available.remove(card), ranks.skip(1));
    }
}

/// The first card in `cards` that is the three of spades.
pub open spec fn first_marked(cards: Seq<Card>) -> Option<Card>
    decreases cards.len(),
{
    if cards.len() == 0 {
        None
    } else if cards[0].spade_three {
        Some(cards[0])
    } else {
        first_marked(cards.skip(1))
    }
}

/// The position of the first card of rank three, or the number of cards.
pub open spec fn first_three(cards: Seq<Card>) -> int
    decreases cards.len(),
{
    if cards.len() == 0 || cards[0].rank == Rank::Three {
        0
    } else {
        1 + first_three(cards.skip(1))
    }
}

/// `cards` with its first three replaced by the three of spades of `hand`,
/// where the play requires it and does not hold it yet.
pub open spec fn with_spade_three(
    cards: Seq<Card>,
    hand: Seq<Card>,
    ranks: Seq<Rank>,
    requires_spade_three: bool,
) -> Seq<Card> {
    match first_marked(hand) {
        Some(card) if requires_spade_three && ranks.contains(Rank::Three) && first_marked(
            cards,
        ) is None && first_three(cards) < cards.len() => cards.update(first_three(cards), card),
        _ => cards,
    }
}

/// What `take_cards_for_play` gives.
pub open spec fn take_for_play_result(
    hand: Seq<Card>,
    ranks: Seq<Rank>,
    requires_spade_three: bool,
) -> Result<Seq<Card>, Seq<char>> {
    match take_result(hand, ranks) {
        Ok(cards) => Ok(with_spade_three(cards, hand, ranks, requires_spade_three)),
        Err(message) => Err(message),
    }
}

proof fn lemma_first_marked(cards: Seq<Card>, n: int)
    requires
        0 <= n <= cards.len(),
        forall|j: int| 0 <= j < n ==> !(#[trigger] cards[j]).spade_three,
    ensures
        first_marked(cards) == first_marked(cards.skip(n)),
    decreases n,
{
    if n == 0 {
        assert(cards.skip(0) =~= cards);
    } else {
        assert(!cards[0].spade_three);
        assert forall|j: int| 0 <= j < n - 1 implies !(#[trigger] cards.skip(1)[j]).spade_three by {
            assert(cards.skip(1)[j] == cards[j + 1]);
        }
        lemma_first_marked(cards.skip(1), n - 1);
        assert(cards.skip(1).skip(n - 1) =~= cards.skip(n));
    }
}

/// The first three of spades among `cards`.
pub fn find_spade_three(cards: &Vec<Card>) -> (r: Option<Card>)
    ensures
        r == first_marked(cards@),
{
    let mut i: usize = 0;
    while i < cards.len()
        invariant
            i <= cards@.len(),
            forall|j: int| 0 <= j < i ==> !(#[trigger] cards@[j]).spade_three,
        decreases cards@.len() - i,
    {
        if cards[i].spade_three {
            proof {
                lemma_first_marked(cards@, i as int);
                assert(cards@.skip(i as int)[0] == cards@[i as int]);
            }
            return Some(cards[i]);
        }
        i = i + 1;
    }
    proof {
        lemma_first_marked(cards@, i as int);
    }
    None
}

proof fn lemma_first_three(cards: Seq<Card>, n: int)
    requires
        0 <= n <= cards.len(),
        forall|j: int| 0 <= j < n ==> (#[trigger] cards[j]).rank != Rank::Three,
    ensures
        first_three(cards) == n + first_three(cards.skip(n)),
    decreases n,
{
    if n == 0 {
        assert(cards.skip(0) =~= cards);
    } else {
        assert(cards[0].rank != Rank::Three);
        assert forall|j: int| 0 <= j < n - 1 implies (#[trigger] cards.skip(1)[j]).rank
            != Rank::Three by {
            assert(cards.skip(1)[j] == cards[j + 1]);
        }
        lemma_first_three(cards.skip(1), n - 1);
        assert(cards.skip(1).skip(n - 1) =~= cards.skip(n));
    }
}

fn position_of_three(cards: &Vec<Card>) -> (r: usize)
    ensures
        r == first_three(cards@),
        r <= cards@.len(),
{
    let mut i: usize = 0;
    while i < cards.len()
        invariant
            i <= cards@.len(),
            forall|j: int| 0 <= j < i ==> (#[trigger] cards@[j]).rank != Rank::Three,
        decreases cards@.len() - i,
    {
        if cards[i].rank == Rank::Three {
            proof {
                lemma_first_three(cards@, i as int);
                assert(cards@.skip(i as int)[0] == cards@[i as int]);
            }
            return i;
        }
        i = i + 1;
    }
    proof {
        lemma_first_three(cards@, i as int);
    }
    i
}

/// Takes cards with the given ranks for a play; where the play has to hold the
/// three of spades, that card is taken for one of the threes.
pub fn take_cards_for_play(
    hand: &Vec<Card>,
    ranks: &Vec<Rank>,
    requires_spade_three: bool,
) -> (r: Result<Vec<Card>, String>)
    ensures
        match r {
            Ok(cards) => take_for_play_result(hand@, ranks@, requires_spade_three) == Ok::<
                Seq<Card>,
                Seq<char>,
            >(cards@),
            Err(message) => take_for_play_result(hand@, ranks@, requires_spade_three) == Err::<
                Seq<Card>,
                Seq<char>,
            >(message@),
        },
{
    let mut cards = match take_cards(hand, ranks) {
        Ok(cards) => cards,
        Err(message) => {
            return Err(message);
        },
    };
    if requires_spade_three && contains_rank(ranks, Rank::Three) && find_spade_three(
        &cards,
    ).is_none() {
        if let Some(card) = find_spade_three(hand) {
            let index: usize = position_of_three(&cards);
            if index < cards.len() {
                cards.set(index, card);
            }
        }
    }
    Ok(cards)
}

/// A card found by `first_marked` stands among the cards.
pub proof fn lemma_first_marked_found(cards: Seq<Card>)
    ensures
        match first_marked(cards) {
            Some(card) => card.spade_three && cards.contains(card),
            None => forall|i: int| 0 <= i < cards.len() ==> !(#[trigger] cards[i]).spade_three,
        },
    decreases cards.len(),
{
    if cards.len() > 0 {
        if cards[0].spade_three {
            assert(cards.contains(cards[0]));
        } else {
            let rest = cards.skip(1);
            lemma_first_marked_found(rest);
            match first_marked(rest) {
                Some(card) => {
                    let i = choose|i: int| 0 <= i < rest.len() && rest[i] == card;
                    assert(cards[i + 1] == card);
                },
                None => {
                    assert forall|i: int| 0 <= i < cards.len() implies !(
                    #[trigger] cards[i]).spade_three by {
                        if i > 0 {
                            assert(rest[i - 1] == cards[i]);
                        }
                    }
                },
            }
        }
    }
}

proof fn lemma_first_three_found(cards: Seq<Card>)
    ensures
        0 <= first_three(cards) <= cards.len(),
        first_three(cards) < cards.len() ==> cards[first_three(cards)].rank == Rank::Three,
    decreases cards.len(),
{
    if cards.len() > 0 && cards[0].rank != Rank::Three {
        lemma_first_three_found(cards.skip(1));
    }
}

/// The cards taken for a play are in the hand.
pub proof fn lemma_take_for_play_subset(
    hand: Seq<Card>,
    ranks: Seq<Rank>,
    requires_spade_three: bool,
)
    requires
        take_for_play_result(hand, ranks, requires_spade_three) is Ok,
    ensures
        take_for_play_result(hand, ranks, requires_spade_three)->Ok_0.to_multiset().subset_of(
            hand.to_multiset(),
        ),
        take_for_play_result(hand, ranks, requires_spade_three)->Ok_0.len() == ranks.len(),
{
    broadcast use vstd::seq_lib::group_to_multiset_ensures;
    broadcast use vstd::multiset::group_multiset_axioms;

    let plain = taken(hand.to_multiset(), ranks)->Ok_0;
    lemma_taken_subset(hand.to_multiset(), ranks);
    let cards = take_for_play_result(hand, ranks, requires_spade_three)->Ok_0;
    assert(ranks_of(plain).len() == plain.len());
    if cards != plain {
        let card = first_marked(hand)->0;
        let at = first_three(plain);
        lemma_first_marked_found(hand);
        lemma_first_marked_found(plain);
        lemma_first_three_found(plain);
        vstd::seq_lib::to_multiset_update(plain, at, card);
        assert(!plain.contains(card));
        assert(plain.to_multiset().count(card) == 0);
        assert(hand.to_multiset().count(card) > 0);
        assert forall|c: Card| cards.to_multiset().count(c) <= hand.to_multiset().count(c) by {
            assert(plain.to_multiset().count(c) <= hand.to_multiset().count(c));
        }
    }
}

// ---------------------------------------------------------------------------
// Removing cards
// ---------------------------------------------------------------------------
/// `hand` without `cards`; of equal cards the first ones leave.
pub open spec fn removed(hand: Seq<Card>, cards: Seq<Card>) -> Seq<Card>
    decreases cards.len(),
{
    if cards.len() == 0 {
        hand
    } else {
        removed(hand.remove_value(cards[0]), cards.skip(1))
    }
}

/// Removing cards takes exactly those cards from the hand.
pub proof fn lemma_removed(hand: Seq<Card>, cards: Seq<Card>)
    requires
        cards.to_multiset().subset_of(hand.to_multiset()),
    ensures
        removed(hand, cards).to_multiset() == hand.to_multiset().sub(cards.to_multiset()),
        removed(hand, cards).len() == hand.len() - cards.len(),
    decreases cards.len(),
{
    broadcast use vstd::seq_lib::group_to_multiset_ensures;
    broadcast use vstd::multiset::group_multiset_axioms;

    if cards.len() == 0 {
        assert(hand.to_multiset().sub(cards.to_multiset()) =~= hand.to_multiset());
    } else {
        lemma_remove_first(hand, cards);
        let rest = hand.remove_value(cards[0]);
        lemma_removed(rest, cards.skip(1));
        assert(rest.to_multiset().sub(cards.skip(1).to_multiset()) =~= hand.to_multiset().sub(
            cards.to_multiset(),
        )) by {
            assert forall|c: Card| #[trigger]
                rest.to_multiset().sub(cards.skip(1).to_multiset()).count(c)
                    == hand.to_multiset().sub(cards.to_multiset()).count(c) by {
                assert(cards.to_multiset().count(c) <= hand.to_multiset().count(c));
                assert(cards.skip(1).to_multiset() == cards.to_multiset().remove(cards[0]));
                assert(rest.to_multiset() == hand.to_multiset().remove(cards[0]));
                assert(cards.contains(cards[0]));
                assert(cards.to_multiset().count(cards[0]) > 0);
            }
        }
    }
}

proof fn lemma_remove_first(hand: Seq<Card>, cards: Seq<Card>)
    requires
        cards.len() > 0,
        cards.to_multiset().subset_of(hand.to_multiset()),
    ensures
        hand.contains(cards[0]),
        hand.remove_value(cards[0]).len() == hand.len() - 1,
        hand.remove_value(cards[0]).to_multiset() == hand.to_multiset().remove(cards[0]),
        cards.skip(1).to_multiset() == cards.to_multiset().remove(cards[0]),
        cards.skip(1).to_multiset().subset_of(hand.remove_value(cards[0]).to_multiset()),
{
    broadcast use vstd::seq_lib::group_to_multiset_ensures;
    broadcast use vstd::multiset::group_multiset_axioms;

    let card = cards[0];
    assert(cards.contains(card));
    assert(cards.to_multiset().count(card) > 0);
    assert(hand.to_multiset().count(card) > 0);
    hand.index_of_first_ensures(card);
    assert(cards.skip(1) =~= cards.remove(0));
    let rest = hand.remove_value(card);
    assert forall|c: Card| cards.skip(1).to_multiset().count(c) <= rest.to_multiset().count(c) by {
        assert(cards.to_multiset().count(c) <= hand.to_multiset().count(c));
    }
}

/// Removes `cards` from a hand that holds them.
pub fn remove_cards(hand: &mut Vec<Card>, cards: &Vec<Card>)
    requires
        cards@.to_multiset().subset_of(old(hand)@.to_multiset()),
    ensures
        final(hand)@ == removed(old(hand)@, cards@),
{
    let ghost start = hand@;
    let mut i: usize = 0;
    proof {
        assert(cards@.skip(0) =~= cards@);
    }
    while i < cards.len()
        invariant
            i <= cards@.len(),
            cards@.skip(i as int).to_multiset().subset_of(hand@.to_multiset()),
            removed(start, cards@) == removed(hand@, cards@.skip(i as int)),
        decreases cards@.len() - i,
    {
        let ghost rest = cards@.skip(i as int);
        proof {
            lemma_remove_first(hand@, rest);
            assert(rest[0] == cards@[i as int]);
            assert(rest.skip(1) =~= cards@.skip(i + 1));
        }
        if let Some(index) = position_of(hand, cards[i]) {
            hand.remove(index);
        }
        i = i + 1;
    }
}

// ---------------------------------------------------------------------------
// The largest card
// ---------------------------------------------------------------------------
/// The card of the highest rank; of equal ranks the last one.
pub open spec fn largest_card(hand: Seq<Card>) -> Card
    recommends
        hand.len() > 0,
    decreases hand.len(),
{
    if hand.len() <= 1 || hand.last().rank.value() >= largest_card(hand.drop_last()).rank.value() {
        hand.last()
    } else {
        largest_card(hand.drop_last())
    }
}

/// The largest card is in the hand, and no card is above it.
pub proof fn lemma_largest_card(hand: Seq<Card>)
    requires
        hand.len() > 0,
    ensures
        hand.contains(largest_card(hand)),
        forall|i: int|
            0 <= i < hand.len() ==> (#[trigger] hand[i]).rank.value() <= largest_card(
                hand,
            ).rank.value(),
    decreases hand.len(),
{
    if hand.len() == 1 {
        assert(hand[0] == largest_card(hand));
    } else {
        let front = hand.drop_last();
        lemma_largest_card(front);
        let i = choose|i: int| 0 <= i < front.len() && front[i] == largest_card(front);
        assert(hand[i] == largest_card(front));
        assert(hand[hand.len() - 1] == hand.last());
        assert forall|i: int| 0 <= i < hand.len() implies (#[trigger] hand[i]).rank.value()
            <= largest_card(hand).rank.value() by {
            if i < front.len() {
                assert(front[i] == hand[i]);
            }
        }
    }
}

/// The card of the highest rank in a hand that is not empty.
pub fn find_largest_card(hand: &Vec<Card>) -> (r: Card)
    requires
        hand@.len() > 0,
    ensures
        r == largest_card(hand@),
{
    let mut best: Card = hand[0];
    let mut i: usize = 1;
    proof {
        assert(hand@.take(1).last() == hand@[0]);
    }
    while i < hand.len()
        invariant
            1 <= i <= hand@.len(),
            best == largest_card(hand@.take(i as int)),
        decreases hand@.len() - i,
    {
        proof {
            assert(hand@.take(i + 1).drop_last() =~= hand@.take(i as int));
        }
        if hand[i].rank.to_u8() >= best.rank.to_u8() {
            best = hand[i];
        }
        i = i + 1;
    }
    proof {
        assert(hand@.take(hand@.len() as int) =~= hand@);
    }
    best
}

// ---------------------------------------------------------------------------
// What holds of it
// ---------------------------------------------------------------------------
proof fn lemma_labels()
    ensures
        Rank::Three.spec_label() == seq!['3'],
        Rank::Four.spec_label() == seq!['4'],
        Rank::Five.spec_label() == seq!['5'],
        Rank::Six.spec_label() == seq!['6'],
        Rank::Seven.spec_label() == seq!['7'],
        Rank::Eight.spec_label() == seq!['8'],
        Rank::Nine.spec_label() == seq!['9'],
        Rank::Ten.spec_label() == seq!['1', '0'],
        Rank::Jack.spec_label() == seq!['J'],
        Rank::Queen.spec_label() == seq!['Q'],
        Rank::King.spec_label() == seq!['K'],
        Rank::Ace.spec_label() == seq!['A'],
        Rank::Two.spec_label() == seq!['2'],
        Rank::SmallJoker.spec_label() == seq!['小', '王'],
        Rank::BigJoker.spec_label() == seq!['大', '王'],
{
    reveal_strlit("3");
    reveal_strlit("4");
    reveal_strlit("5");
    reveal_strlit("6");
    reveal_strlit("7");
    reveal_strlit("8");
    reveal_strlit("9");
    reveal_strlit("10");
    reveal_strlit("J");
    reveal_strlit("Q");
    reveal_strlit("K");
    reveal_strlit("A");
    reveal_strlit("2");
    reveal_strlit("小王");
    reveal_strlit("大王");
}

/// A card is read as it is written, whatever follows it.
pub proof fn law_card_is_read(rank: Rank, rest: Seq<char>)
    ensures
        read_ranks(rank.spec_label() + rest) == (match read_ranks(rest) {
            Ok(more) => Ok::<Seq<Rank>, char>(seq![rank] + more),
            Err(c) => Err::<Seq<Rank>, char>(c),
        }),
{
    lemma_labels();
    let label = rank.spec_label();
    let text = label + rest;
    assert(label.len() == 1 || label.len() == 2);
    assert(text[0] == label[0]);
    if label.len() == 2 {
        assert(text[1] == label[1]);
        assert(text.skip(2) =~= rest);
    } else {
        assert(text.skip(1) =~= rest);
    }
}

/// Letters are read in either case.
pub proof fn law_case_of_letters(rest: Seq<char>)
    ensures
        read_ranks(seq!['j'] + rest) == read_ranks(seq!['J'] + rest),
        read_ranks(seq!['q'] + rest) == read_ranks(seq!['Q'] + rest),
        read_ranks(seq!['k'] + rest) == read_ranks(seq!['K'] + rest),
        read_ranks(seq!['a'] + rest) == read_ranks(seq!['A'] + rest),
{
    assert((seq!['j'] + rest).skip(1) =~= rest && (seq!['J'] + rest).skip(1) =~= rest);
    assert((seq!['q'] + rest).skip(1) =~= rest && (seq!['Q'] + rest).skip(1) =~= rest);
    assert((seq!['k'] + rest).skip(1) =~= rest && (seq!['K'] + rest).skip(1) =~= rest);
    assert((seq!['a'] + rest).skip(1) =~= rest && (seq!['A'] + rest).skip(1) =~= rest);
    assert((seq!['j'] + rest)[0] == 'j' && (seq!['J'] + rest)[0] == 'J');
    assert((seq!['q'] + rest)[0] == 'q' && (seq!['Q'] + rest)[0] == 'Q');
    assert((seq!['k'] + rest)[0] == 'k' && (seq!['K'] + rest)[0] == 'K');
    assert((seq!['a'] + rest)[0] == 'a' && (seq!['A'] + rest)[0] == 'A');
}

/// The characters with which a card can begin.
pub open spec fn begins_card(c: char) -> bool {
    seq![
        '3', '4', '5', '6', '7', '8', '9', '1', 'J', 'j', 'Q', 'q', 'K', 'k', 'A', 'a', '2', '小',
        '大',
    ].contains(c)
}

/// A character that begins no card is told as what cannot be read.
pub proof fn law_other_character(c: char, rest: Seq<char>)
    ensures
        !begins_card(c) ==> read_ranks(seq![c] + rest) == Err::<Seq<Rank>, char>(c),
        !begins_card(c) && !separator(c) ==> parsed_cards(seq![c]) == Err::<Seq<Rank>, Seq<char>>(
            "无法识别牌面: "@ + seq![c],
        ),
{
    let starts = seq![
        '3', '4', '5', '6', '7', '8', '9', '1', 'J', 'j', 'Q', 'q', 'K', 'k', 'A', 'a', '2', '小',
        '大',
    ];
    assert(starts[0] == '3' && starts[1] == '4' && starts[2] == '5' && starts[3] == '6'
        && starts[4] == '7' && starts[5] == '8' && starts[6] == '9' && starts[7] == '1'
        && starts[8] == 'J' && starts[9] == 'j' && starts[10] == 'Q' && starts[11] == 'q'
        && starts[12] == 'K' && starts[13] == 'k' && starts[14] == 'A' && starts[15] == 'a'
        && starts[16] == '2' && starts[17] == '小' && starts[18] == '大');
    assert((seq![c] + rest)[0] == c);
    assert(seq![c][0] == c);
    law_separators(Seq::empty(), seq![c], c);
}

/// Whitespace and commas between cards count for nothing, anything else counts.
pub proof fn law_separators(left: Seq<char>, right: Seq<char>, c: char)
    ensures
        whitespace(c) || c == ',' || c == '，' || c == '、' ==> without_separators(seq![c])
            == Seq::<char>::empty(),
        !whitespace(c) && c != ',' && c != '，' && c != '、' ==> without_separators(seq![c])
            == seq![c],
        without_separators(left + right) == without_separators(left) + without_separators(right),
    decreases right.len(),
{
    reveal_with_fuel(without_separators, 2);
    assert(seq![c].drop_last() =~= Seq::empty());
    assert(Seq::<char>::empty().push(c) =~= seq![c]);
    if right.len() == 0 {
        assert(left + right =~= left);
        assert(without_separators(left) + without_separators(right) =~= without_separators(left));
    } else {
        law_separators(left, right.drop_last(), c);
        assert((left + right).drop_last() =~= left + right.drop_last());
        assert((left + right).last() == right.last());
        assert(without_separators(left + right) =~= without_separators(left) + without_separators(
            right,
        ));
    }
}

/// The labels of some ranks one behind the other.
spec fn labels_of(ranks: Seq<Rank>) -> Seq<char>
    decreases ranks.len(),
{
    if ranks.len() == 0 {
        Seq::empty()
    } else {
        labels_of(ranks.drop_last()) + ranks.last().spec_label()
    }
}

proof fn lemma_labels_are_read(ranks: Seq<Rank>, rest: Seq<char>)
    ensures
        read_ranks(labels_of(ranks) + rest) == (match read_ranks(rest) {
            Ok(more) => Ok::<Seq<Rank>, char>(ranks + more),
            Err(c) => Err::<Seq<Rank>, char>(c),
        }),
    decreases ranks.len(),
{
    if ranks.len() == 0 {
        assert(labels_of(ranks) + rest =~= rest);
        match read_ranks(rest) {
            Ok(more) => {
                assert(ranks + more =~= more);
            },
            Err(_) => {},
        }
    } else {
        let label = ranks.last().spec_label();
        law_card_is_read(ranks.last(), rest);
        lemma_labels_are_read(ranks.drop_last(), label + rest);
        assert(labels_of(ranks) + rest =~= labels_of(ranks.drop_last()) + (label + rest));
        match read_ranks(rest) {
            Ok(more) => {
                assert(ranks.drop_last() + (seq![ranks.last()] + more) =~= ranks + more);
            },
            Err(_) => {},
        }
    }
}

proof fn lemma_label_has_no_separator(rank: Rank)
    ensures
        without_separators(rank.spec_label()) == rank.spec_label(),
{
    lemma_labels();
    let label = rank.spec_label();
    assert forall|i: int| 0 <= i < label.len() implies !separator(#[trigger] label[i]) by {
    }
    lemma_nothing_between(label);
}

proof fn lemma_nothing_between(s: Seq<char>)
    requires
        forall|i: int| 0 <= i < s.len() ==> !separator(#[trigger] s[i]),
    ensures
        without_separators(s) == s,
    decreases s.len(),
{
    if s.len() > 0 {
        assert forall|i: int| 0 <= i < s.drop_last().len() implies !separator(
            #[trigger] s.drop_last()[i],
        ) by {
            assert(s.drop_last()[i] == s[i]);
        }
        lemma_nothing_between(s.drop_last());
        assert(s.drop_last().push(s.last()) =~= s);
    }
}

proof fn lemma_only_separators(s: Seq<char>)
    requires
        forall|i: int| 0 <= i < s.len() ==> separator(#[trigger] s[i]),
    ensures
        without_separators(s) == Seq::<char>::empty(),
    decreases s.len(),
{
    if s.len() > 0 {
        assert(separator(s[s.len() - 1]));
        assert forall|i: int| 0 <= i < s.drop_last().len() implies separator(
            #[trigger] s.drop_last()[i],
        ) by {
            assert(s.drop_last()[i] == s[i]);
        }
        lemma_only_separators(s.drop_last());
    }
}

proof fn lemma_text_of_labels(ranks: Seq<Rank>, between: Seq<char>)
    requires
        forall|i: int| 0 <= i < between.len() ==> separator(#[trigger] between[i]),
    ensures
        without_separators(ranks_text(ranks, between)) == labels_of(ranks),
    decreases ranks.len(),
{
    let parts = Seq::new(ranks.len(), |i: int| ranks[i].spec_label());
    let none = Seq::<Seq<char>>::empty();
    if ranks.len() == 0 {
        assert(parts =~= none);
        law_join(none, none, between, between);
    } else {
        let before = ranks.drop_last();
        let label = ranks.last().spec_label();
        let earlier = Seq::new(before.len(), |i: int| before[i].spec_label());
        assert(parts =~= earlier + seq![label]);
        lemma_text_of_labels(before, between);
        lemma_label_has_no_separator(ranks.last());
        lemma_only_separators(between);
        law_join(earlier, seq![label], between, label);
        if before.len() == 0 {
            assert(earlier + seq![label] =~= seq![label]);
            assert(labels_of(before) + label =~= label);
        } else {
            law_separators(joined(earlier, between) + between, label, ' ');
            law_separators(joined(earlier, between), between, ' ');
            assert(without_separators(joined(earlier, between)) + Seq::<char>::empty()
                =~= without_separators(joined(earlier, between)));
        }
    }
}

/// Cards that are written one behind the other, with whitespace or commas between them or
/// with nothing, are read as those cards, in order of their ranks.
pub proof fn law_cards_are_read(ranks: Seq<Rank>, between: Seq<char>)
    requires
        forall|i: int| 0 <= i < between.len() ==> separator(#[trigger] between[i]),
    ensures
        parsed_cards(ranks_text(ranks, between)) == Ok::<Seq<Rank>, Seq<char>>(sorted(ranks)),
{
    lemma_text_of_labels(ranks, between);
    lemma_labels_are_read(ranks, Seq::empty());
    assert(labels_of(ranks) + Seq::<char>::empty() =~= labels_of(ranks));
    assert(ranks + Seq::<Rank>::empty() =~= ranks);
}

/// Cards that were announced can be written back as they were announced: they are read as
/// the same cards.
pub proof fn law_announced_cards_are_read(cards: Seq<Card>)
    ensures
        ({
            let (spaced, close) = (parsed_cards(play_text(cards)), parsed_cards(
                compact_play_text(cards),
            ));
            &&& spaced == close
            &&& spaced matches Ok(ranks) && ranks.to_multiset() == ranks_of(cards).to_multiset()
        }),
{
    let ranks = sorted(ranks_of(cards));
    reveal_strlit(" ");
    reveal_strlit("");
    assert(" "@[0] == ' ');
    assert(whitespace(' '));
    law_cards_are_read(ranks, " "@);
    law_cards_are_read(ranks, ""@);
    lemma_sorted(ranks_of(cards));
    lemma_sorted(ranks);
}

/// Cards are taken from a hand exactly where it holds enough of each rank; what is taken
/// has those ranks, in order, and is in the hand.
pub proof fn law_taking(hand: Seq<Card>, ranks: Seq<Rank>)
    ensures
        take_result(hand, ranks) is Ok <==> selectable_from(ranks, hand),
        take_result(hand, ranks) matches Ok(cards) ==> ranks_of(cards) == ranks
            && cards.to_multiset().subset_of(hand.to_multiset()),
{
    broadcast use vstd::seq_lib::group_to_multiset_ensures;

    if take_result(hand, ranks) is Ok {
        let cards = taken(hand.to_multiset(), ranks)->Ok_0;
        lemma_taken_subset(hand.to_multiset(), ranks);
        assert forall|r: Rank| ranks.to_multiset().count(r) <= ranks_of(hand).to_multiset().count(
            r,
        ) by {
            lemma_occurrences_multiset(ranks, r);
            lemma_occurrences_multiset(ranks_of(hand), r);
            lemma_rank_count(hand, r);
            lemma_rank_count(cards, r);
            assert(cards.to_multiset().count(Card::plain(r)) <= hand.to_multiset().count(
                Card::plain(r),
            ));
            assert(cards.to_multiset().count(marked(r)) <= hand.to_multiset().count(marked(r)));
        }
    } else if selectable_from(ranks, hand) {
        assert forall|r: Rank| ranks.to_multiset().count(r) <= rank_count(
            hand.to_multiset(),
            r,
        ) by {
            lemma_occurrences_multiset(ranks, r);
            lemma_occurrences_multiset(ranks_of(hand), r);
            lemma_rank_count(hand, r);
            assert(ranks.to_multiset().count(r) <= ranks_of(hand).to_multiset().count(r));
        }
        lemma_taken_counts(hand.to_multiset(), ranks);
    }
}

/// Whether a hand holds enough cards of each rank.
pub open spec fn selectable_from(ranks: Seq<Rank>, hand: Seq<Card>) -> bool {
    forall|r: Rank|
        #[trigger] ranks.to_multiset().count(r) <= ranks_of(hand).to_multiset().count(r)
}

/// Where a game opens, who holds the three of spades and plays a three plays that one.
pub proof fn law_opening_with_the_three_of_spades(hand: Seq<Card>, ranks: Seq<Rank>)
    requires
        take_result(hand, ranks) is Ok,
        ranks.contains(Rank::Three),
        first_marked(hand) is Some,
    ensures
        take_for_play_result(hand, ranks, true) matches Ok(cards) && first_marked(cards) is Some,
        take_for_play_result(hand, ranks, false) == take_result(hand, ranks),
{
    let plain = taken(hand.to_multiset(), ranks)->Ok_0;
    lemma_taken_subset(hand.to_multiset(), ranks);
    lemma_first_marked_found(hand);
    if first_marked(plain) is None {
        lemma_first_three_found(plain);
        let k = choose|k: int| 0 <= k < ranks.len() && ranks[k] == Rank::Three;
        assert(ranks_of(plain)[k] == plain[k].rank);
        lemma_three_is_found(plain, k);
        let at = first_three(plain);
        let card = first_marked(hand)->0;
        let cards = plain.update(at, card);
        assert(cards[at].spade_three);
        lemma_marked_is_found(cards, at);
    }
}

proof fn lemma_three_is_found(cards: Seq<Card>, k: int)
    requires
        0 <= k < cards.len(),
        cards[k].rank == Rank::Three,
    ensures
        0 <= first_three(cards) <= k,
    decreases cards.len(),
{
    if cards[0].rank != Rank::Three {
        assert(cards.skip(1)[k - 1] == cards[k]);
        lemma_three_is_found(cards.skip(1), k - 1);
    }
}

proof fn lemma_marked_is_found(cards: Seq<Card>, k: int)
    requires
        0 <= k < cards.len(),
        cards[k].spade_three,
    ensures
        first_marked(cards) is Some,
    decreases cards.len(),
{
    if !cards[0].spade_three {
        assert(cards.skip(1)[k - 1] == cards[k]);
        lemma_marked_is_found(cards.skip(1), k - 1);
    }
}

/// A card that is missing is told by its rank.
pub proof fn law_missing_card_is_told(hand: Seq<Card>, rank: Rank, rest: Seq<Rank>)
    requires
        forall|i: int| 0 <= i < hand.len() ==> (#[trigger] hand[i]).rank != rank,
    ensures
        take_result(hand, seq![rank] + rest) == Err::<Seq<Card>, Seq<char>>(
            "手牌中缺少 "@ + rank.spec_label(),
        ),
{
    broadcast use vstd::seq_lib::group_to_multiset_ensures;

    assert((seq![rank] + rest)[0] == rank);
    assert(!hand.contains(Card::plain(rank)));
    assert(!hand.contains(marked(rank)));
    assert(hand.to_multiset().count(Card::plain(rank)) == 0);
    assert(hand.to_multiset().count(marked(rank)) == 0);
}

/// A hand is shown card by card with a space between each two, the three of spades with
/// its suit and any other card by its rank.
pub proof fn law_hand_is_shown(hand: Seq<Card>, card: Card)
    ensures
        hand_text(Seq::empty()) == Seq::<char>::empty(),
        hand_text(seq![card]) == (if card.spade_three {
            "♠3"@
        } else {
            card.rank.spec_label()
        }),
        hand.len() > 0 ==> hand_text(hand.push(card)) == hand_text(hand) + " "@ + hand_text(
            seq![card],
        ),
{
    let parts = Seq::new(hand.len(), |i: int| card_label(hand[i]));
    let all = hand.push(card);
    let none = Seq::<Seq<char>>::empty();
    assert(Seq::new(all.len(), |i: int| card_label(all[i])) =~= parts + seq![card_label(card)]);
    assert(Seq::new(seq![card].len(), |i: int| card_label(seq![card][i])) =~= seq![
        card_label(card),
    ]);
    assert(Seq::new(Seq::<Card>::empty().len(), |i: int| card_label(Seq::<Card>::empty()[i]))
        =~= none);
    law_join(parts, seq![card_label(card)], " "@, card_label(card));
}

} // verus!
