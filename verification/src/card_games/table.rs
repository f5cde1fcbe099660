//! The state of a table: players, the lobby, bidding and play.
use vstd::prelude::*;
use crate::card_games::cards::Card;
use crate::card_games::hands::first_marked;
use crate::card_games::patterns::CardGameVariant;
use crate::card_games::patterns::PlayPattern;
use crate::text::ascii_lower;
use crate::text::from_chars;
use crate::text::is_ascii_punctuation;
use crate::text::is_whitespace;
use crate::text::lower_char;
use crate::text::lowered_char;
use crate::text::str_equal;
use crate::text::to_chars;
use crate::text::trim;
use crate::text::{ascii_punctuation, trimmed, whitespace};

verus! {

// ---------------------------------------------------------------------------
// Time
// ---------------------------------------------------------------------------
/// Nanoseconds in a second.
pub const NANOS: u128 = 1_000_000_000;

/// The longest time that a timer counts, in nanoseconds.
pub const LONGEST: u128 = 18_446_744_073_709_551_615_999_999_999;

/// `n` seconds in nanoseconds.
pub open spec fn seconds(n: int) -> int {
    n * NANOS
}

/// `n` seconds in nanoseconds.
pub fn in_seconds(n: u64) -> (r: u128)
    ensures
        r == seconds(n as int),
        r <= LONGEST,
{
    (n as u128) * NANOS
}

/// The time from `earlier` to `later`, or nothing where it is none.
pub open spec fn time_between(earlier: int, later: int) -> int {
    if later > earlier {
        later - earlier
    } else {
        0
    }
}

/// A timer that runs only while the clock is active. Times are nanoseconds
/// from a fixed moment.
#[derive(Clone, Copy, Debug, PartialEq, Eq, Structural)]
pub struct ActiveTimer {
    pub elapsed: u128,
    pub last_tick: u128,
}

impl ActiveTimer {
    /// A timer that starts at `now`.
    pub open spec fn started(now: int) -> ActiveTimer {
        ActiveTimer { elapsed: 0, last_tick: now as u128 }
    }

    /// The timer at `now`.
    pub open spec fn ticked(self, now: int, active: bool) -> ActiveTimer {
        let total = self.elapsed + time_between(self.last_tick as int, now);
        ActiveTimer {
            elapsed: if !active {
                self.elapsed
            } else if total > LONGEST {
                LONGEST
            } else {
                total as u128
            },
            last_tick: now as u128,
        }
    }

    /// A timer that starts at `now`.
    pub fn new(now: u128) -> (r: ActiveTimer)
        ensures
            r == ActiveTimer::started(now as int),
    {
        ActiveTimer { elapsed: 0, last_tick: now }
    }

    /// Brings the timer to `now`; the time since the last tick counts only if
    /// the clock is active.
    pub fn tick(&mut self, now: u128, active: bool)
        ensures
            *final(self) == old(self).ticked(now as int, active),
    {
        if active {
            let passed: u128 = if now > self.last_tick {
                now - self.last_tick
            } else {
                0
            };
            self.elapsed = if self.elapsed > LONGEST || passed > LONGEST - self.elapsed {
                LONGEST
            } else {
                self.elapsed + passed
            };
        }
        self.last_tick = now;
    }

    /// Starts the timer again at `now`.
    pub fn reset(&mut self, now: u128)
        ensures
            *final(self) == ActiveTimer::started(now as int),
    {
        self.elapsed = 0;
        self.last_tick = now;
    }
}

// ---------------------------------------------------------------------------
// Players
// ---------------------------------------------------------------------------
/// The key by which a name is recognised: lower case, without whitespace and
/// ASCII punctuation.
pub open spec fn key_of(name: Seq<char>) -> Seq<char>
    decreases name.len(),
{
    if name.len() == 0 {
        Seq::empty()
    } else {
        let c = name.last();
        if whitespace(c) || ascii_punctuation(c) {
            key_of(name.drop_last())
        } else {
            key_of(name.drop_last()) + lowered_char(c)
        }
    }
}

/// The key by which a name is recognised.
pub fn player_key(name: &str) -> (r: String)
    ensures
        r@ == key_of(name@),
{
    let chars = to_chars(name);
    let mut key: Vec<char> = Vec::new();
    let mut i: usize = 0;
    proof {
        assert(chars@.take(0) =~= Seq::<char>::empty());
    }
    while i < chars.len()
        invariant
            i <= chars@.len(),
            key@ == key_of(chars@.take(i as int)),
        decreases chars@.len() - i,
    {
        let c: char = chars[i];
        proof {
            assert(chars@.take(i + 1).drop_last() =~= chars@.take(i as int));
        }
        if !is_whitespace(c) && !is_ascii_punctuation(c) {
            let mut lower = lower_char(c);
            key.append(&mut lower);
        }
        i = i + 1;
    }
    proof {
        assert(chars@.take(chars@.len() as int) =~= chars@);
    }
    from_chars(key.as_slice())
}

/// Names that differ only in the case of ASCII letters are taken for the same.
pub proof fn law_case_is_ignored(a: Seq<char>, b: Seq<char>)
    requires
        a.len() == b.len(),
        forall|i: int| 0 <= i < a.len() ==> ascii_lower(#[trigger] a[i]) == ascii_lower(b[i]),
    ensures
        key_of(a) == key_of(b),
    decreases a.len(),
{
    if a.len() > 0 {
        let last = a.len() - 1;
        assert forall|i: int| 0 <= i < last implies ascii_lower(#[trigger] a.drop_last()[i])
            == ascii_lower(b.drop_last()[i]) by {
            assert(ascii_lower(a[i]) == ascii_lower(b[i]));
        }
        law_case_is_ignored(a.drop_last(), b.drop_last());
        assert(ascii_lower(a[last]) == ascii_lower(b[last]));
        assert(lowered_char(a[last]) == lowered_char(b[last]));
    }
}

/// A player at the table.
pub struct Player {
    pub name: String,
    pub key: String,
    pub hand: Vec<Card>,
    pub timeouts: u32,
    pub trustee: bool,
    pub last_hand_reply: Option<u128>,
}

/// What a player is, as plain values.
#[verifier::ext_equal]
pub struct PlayerView {
    pub name: Seq<char>,
    pub key: Seq<char>,
    pub hand: Seq<Card>,
    pub timeouts: int,
    pub trustee: bool,
    pub last_hand_reply: Option<u128>,
}

impl View for Player {
    type V = PlayerView;

    open spec fn view(&self) -> PlayerView {
        PlayerView {
            name: self.name@,
            key: self.key@,
            hand: self.hand@,
            timeouts: self.timeouts as int,
            trustee: self.trustee,
            last_hand_reply: self.last_hand_reply,
        }
    }
}

/// A player who has just sat down.
pub open spec fn new_player(name: Seq<char>) -> PlayerView {
    PlayerView {
        name: trimmed(name),
        key: key_of(name),
        hand: Seq::empty(),
        timeouts: 0,
        trustee: false,
        last_hand_reply: None,
    }
}

impl Player {
    /// A player who has just sat down.
    pub fn new(name: &str) -> (r: Player)
        ensures
            r@ == new_player(name@),
    {
        Player {
            name: trim(name),
            key: player_key(name),
            hand: Vec::new(),
            timeouts: 0,
            trustee: false,
            last_hand_reply: None,
        }
    }
}

/// The views of the players.
pub open spec fn player_views(players: Seq<Player>) -> Seq<PlayerView> {
    Seq::new(players.len(), |i: int| players[i]@)
}

/// The position of the first player with the given key, or the number of players.
pub open spec fn position_by_key(players: Seq<PlayerView>, key: Seq<char>) -> int
    decreases players.len(),
{
    if players.len() == 0 || players[0].key == key {
        0
    } else {
        1 + position_by_key(players.skip(1), key)
    }
}

/// The player with the given name.
pub open spec fn found_player(players: Seq<PlayerView>, name: Seq<char>) -> Option<int> {
    let i = position_by_key(players, key_of(name));
    if i < players.len() {
        Some(i)
    } else {
        None
    }
}

/// Whether each player is recognised by their name, and no two by the same one.
pub open spec fn seated(players: Seq<PlayerView>) -> bool {
    &&& forall|i: int|
        0 <= i < players.len() ==> (#[trigger] players[i]).key == key_of(players[i].name)
    &&& forall|i: int, j: int|
        0 <= i < j < players.len() ==> (#[trigger] players[i]).key != (#[trigger] players[j]).key
}

/// Whether the same players sit in the same places.
pub open spec fn same_seats(a: Seq<PlayerView>, b: Seq<PlayerView>) -> bool {
    &&& a.len() == b.len()
    &&& forall|i: int|
        0 <= i < a.len() ==> (#[trigger] a[i]).name == b[i].name && a[i].key == b[i].key
}

/// Being seated depends on names and keys alone.
pub proof fn lemma_same_seats(a: Seq<PlayerView>, b: Seq<PlayerView>)
    requires
        seated(a),
        same_seats(a, b),
    ensures
        seated(b),
{
    assert forall|i: int| 0 <= i < b.len() implies (#[trigger] b[i]).key == key_of(b[i].name) by {
        assert(a[i].key == key_of(a[i].name));
    }
    assert forall|i: int, j: int| 0 <= i < j < b.len() implies (#[trigger] b[i]).key != (
    #[trigger] b[j]).key by {
        assert(a[i].key != a[j].key);
    }
}

/// A seated player is found by their name.
pub proof fn law_found_by_name(players: Seq<PlayerView>, i: int)
    requires
        seated(players),
        0 <= i < players.len(),
    ensures
        found_player(players, players[i].name) == Some(i),
{
    let key = key_of(players[i].name);
    assert forall|j: int| 0 <= j < i implies (#[trigger] players[j]).key != key by {
        assert(players[j].key != players[i].key);
    }
    lemma_position(players, key, i);
    assert(players.skip(i)[0] == players[i]);
}

/// Whitespace around a name does not change its key.
pub proof fn lemma_key_of_trimmed(name: Seq<char>)
    ensures
        key_of(trimmed(name)) == key_of(name),
{
    lemma_key_of_trimmed_start(name);
    lemma_key_of_trimmed_end(crate::text::trimmed_start(name));
}

proof fn lemma_key_of_trimmed_end(name: Seq<char>)
    ensures
        key_of(crate::text::trimmed_end(name)) == key_of(name),
    decreases name.len(),
{
    if name.len() > 0 && whitespace(name.last()) {
        lemma_key_of_trimmed_end(name.drop_last());
    }
}

proof fn lemma_key_of_trimmed_start(name: Seq<char>)
    ensures
        key_of(crate::text::trimmed_start(name)) == key_of(name),
    decreases name.len(),
{
    if name.len() > 0 && whitespace(name[0]) {
        lemma_key_of_skip(name);
        lemma_key_of_trimmed_start(name.drop_first());
    }
}

proof fn lemma_key_of_skip(name: Seq<char>)
    requires
        name.len() > 0,
        whitespace(name[0]),
    ensures
        key_of(name.drop_first()) == key_of(name),
    decreases name.len(),
{
    if name.len() == 1 {
        assert(name.drop_last() =~= Seq::<char>::empty());
        assert(name.drop_first() =~= Seq::<char>::empty());
    } else {
        lemma_key_of_skip(name.drop_last());
        assert(name.drop_last().drop_first() =~= name.drop_first().drop_last());
    }
}

proof fn lemma_position(players: Seq<PlayerView>, key: Seq<char>, n: int)
    requires
        0 <= n <= players.len(),
        forall|j: int| 0 <= j < n ==> (#[trigger] players[j]).key != key,
    ensures
        position_by_key(players, key) == n + position_by_key(players.skip(n), key),
    decreases n,
{
    if n == 0 {
        assert(players.skip(0) =~= players);
    } else {
        assert(players[0].key != key);
        assert forall|j: int| 0 <= j < n - 1 implies (#[trigger] players.skip(1)[j]).key
            != key by {
            assert(players.skip(1)[j] == players[j + 1]);
        }
        lemma_position(players.skip(1), key, n - 1);
        assert(players.skip(1).skip(n - 1) =~= players.skip(n));
    }
}

/// Finds the player with the given name; names are compared by their keys.
pub fn find_player(players: &Vec<Player>, name: &str) -> (r: Option<usize>)
    ensures
        match r {
            Some(i) => i < players@.len() && found_player(player_views(players@), name@) == Some(
                i as int,
            ),
            None => found_player(player_views(players@), name@) is None,
        },
{
    let key = player_key(name);
    let ghost views = player_views(players@);
    let mut i: usize = 0;
    while i < players.len()
        invariant
            i <= players@.len(),
            views == player_views(players@),
            key@ == key_of(name@),
            forall|j: int| 0 <= j < i ==> (#[trigger] views[j]).key != key@,
        decreases players@.len() - i,
    {
        if str_equal(players[i].key.as_str(), key.as_str()) {
            proof {
                lemma_position(views, key@, i as int);
                assert(views.skip(i as int)[0] == views[i as int]);
                assert(views[i as int].key == key@);
            }
            return Some(i);
        }
        proof {
            assert(views[i as int].key == players@[i as int].key@);
        }
        i = i + 1;
    }
    proof {
        lemma_position(views, key@, i as int);
    }
    None
}

// ---------------------------------------------------------------------------
// The phases of a game
// ---------------------------------------------------------------------------
/// A room that waits for players.
pub struct Lobby {
    pub players: Vec<Player>,
    pub variant: CardGameVariant,
    pub timer: ActiveTimer,
}

/// The bidding for the landlord.
pub struct Bidding {
    pub players: Vec<Player>,
    pub bottom: Vec<Card>,
    pub current: usize,
    pub decisions: u8,
    pub candidate: Option<usize>,
    pub timer: ActiveTimer,
    pub warning_sent: bool,
}

/// The play that has to be beaten.
pub struct LastPlay {
    pub player: usize,
    pub cards: Vec<Card>,
    pub pattern: PlayPattern,
}

/// A game in play.
pub struct Playing {
    pub players: Vec<Player>,
    pub variant: CardGameVariant,
    pub landlord: usize,
    pub current: usize,
    pub last_play: Option<LastPlay>,
    pub consecutive_passes: u8,
    pub timer: ActiveTimer,
    pub warning_sent: bool,
    pub turns: u32,
    pub bombs: u32,
    pub opening_spade_three_required: bool,
}

/// The phase of a game.
pub enum GameState {
    Idle,
    Lobby(Lobby),
    Bidding(Bidding),
    Playing(Playing),
}

#[verifier::ext_equal]
pub struct LobbyView {
    pub players: Seq<PlayerView>,
    pub variant: CardGameVariant,
    pub timer: ActiveTimer,
}

#[verifier::ext_equal]
pub struct BiddingView {
    pub players: Seq<PlayerView>,
    pub bottom: Seq<Card>,
    pub current: int,
    pub decisions: int,
    pub candidate: Option<int>,
    pub timer: ActiveTimer,
    pub warning_sent: bool,
}

#[verifier::ext_equal]
pub struct LastPlayView {
    pub player: int,
    pub cards: Seq<Card>,
    pub pattern: PlayPattern,
}

#[verifier::ext_equal]
pub struct PlayingView {
    pub players: Seq<PlayerView>,
    pub variant: CardGameVariant,
    pub landlord: int,
    pub current: int,
    pub last_play: Option<LastPlayView>,
    pub consecutive_passes: int,
    pub timer: ActiveTimer,
    pub warning_sent: bool,
    pub turns: int,
    pub bombs: int,
    pub opening_spade_three_required: bool,
}

#[verifier::ext_equal]
pub enum StateView {
    Idle,
    Lobby(LobbyView),
    Bidding(BiddingView),
    Playing(PlayingView),
}

impl View for Lobby {
    type V = LobbyView;

    open spec fn view(&self) -> LobbyView {
        LobbyView {
            players: player_views(self.players@),
            variant: self.variant,
            timer: self.timer,
        }
    }
}

impl View for Bidding {
    type V = BiddingView;

    open spec fn view(&self) -> BiddingView {
        BiddingView {
            players: player_views(self.players@),
            bottom: self.bottom@,
            current: self.current as int,
            decisions: self.decisions as int,
            candidate: match self.candidate {
                Some(index) => Some(index as int),
                None => None,
            },
            timer: self.timer,
            warning_sent: self.warning_sent,
        }
    }
}

impl View for LastPlay {
    type V = LastPlayView;

    open spec fn view(&self) -> LastPlayView {
        LastPlayView { player: self.player as int, cards: self.cards@, pattern: self.pattern }
    }
}

impl View for Playing {
    type V = PlayingView;

    open spec fn view(&self) -> PlayingView {
        PlayingView {
            players: player_views(self.players@),
            variant: self.variant,
            landlord: self.landlord as int,
            current: self.current as int,
            last_play: match self.last_play {
                Some(last) => Some(last@),
                None => None,
            },
            consecutive_passes: self.consecutive_passes as int,
            timer: self.timer,
            warning_sent: self.warning_sent,
            turns: self.turns as int,
            bombs: self.bombs as int,
            opening_spade_three_required: self.opening_spade_three_required,
        }
    }
}

impl View for GameState {
    type V = StateView;

    open spec fn view(&self) -> StateView {
        match self {
            GameState::Idle => StateView::Idle,
            GameState::Lobby(lobby) => StateView::Lobby(lobby@),
            GameState::Bidding(game) => StateView::Bidding(game@),
            GameState::Playing(game) => StateView::Playing(game@),
        }
    }
}

impl LobbyView {
    /// One or two players wait.
    pub open spec fn wf(self) -> bool {
        1 <= self.players.len() <= 2 && seated(self.players)
    }
}

impl BiddingView {
    /// Three players with 17 cards each bid for three more, at most twice so far;
    /// before the first has decided nobody is ahead.
    pub open spec fn wf(self) -> bool {
        &&& self.players.len() == 3
        &&& seated(self.players)
        &&& 0 <= self.current < 3
        &&& 0 <= self.decisions < 3
        &&& self.candidate matches Some(index) ==> 0 <= index < 3
        &&& self.decisions == 0 ==> self.candidate is None
        &&& forall|i: int| 0 <= i < 3 ==> (#[trigger] self.players[i]).hand.len() == 17
        &&& self.bottom.len() == 3
    }
}

impl PlayingView {
    /// Three players hold cards; who is to play and who has led fit together;
    /// only the opener of run-fast owes the three of spades, and holds it.
    pub open spec fn wf(self) -> bool {
        &&& self.players.len() == 3
        &&& seated(self.players)
        &&& 0 <= self.landlord < 3
        &&& 0 <= self.current < 3
        &&& 0 <= self.consecutive_passes <= 1
        &&& 0 <= self.turns <= u32::MAX
        &&& 0 <= self.bombs <= u32::MAX
        &&& match self.last_play {
            Some(last) => {
                &&& 0 <= last.player < 3
                &&& self.current == (last.player + 1 + self.consecutive_passes) % 3
            },
            None => self.consecutive_passes == 0,
        }
        &&& forall|i: int| 0 <= i < 3 ==> (#[trigger] self.players[i]).hand.len() > 0
        &&& self.opening_spade_three_required ==> {
            &&& self.variant == CardGameVariant::HunanRunFast
            &&& self.last_play is None
            &&& first_marked(self.players[self.current].hand) is Some
        }
    }

    /// The pattern that the player to move has to beat.
    pub open spec fn to_beat(self) -> Option<PlayPattern> {
        match self.last_play {
            Some(last) if last.player != self.current => Some(last.pattern),
            _ => None,
        }
    }
}

impl StateView {
    /// The phase's own invariant.
    pub open spec fn wf(self) -> bool {
        match self {
            StateView::Idle => true,
            StateView::Lobby(lobby) => lobby.wf(),
            StateView::Bidding(game) => game.wf(),
            StateView::Playing(game) => game.wf(),
        }
    }
}

/// A player is found by the key of their name alone: who is found has it, the first of
/// those who do, and where nobody is found nobody does.
pub proof fn law_who_is_found(players: Seq<PlayerView>, name: Seq<char>, j: int)
    ensures
        found_player(players, name) matches Some(i) ==> {
            &&& 0 <= i < players.len()
            &&& players[i].key == key_of(name)
            &&& 0 <= j < i ==> players[j].key != key_of(name)
        },
        found_player(players, name) is None && 0 <= j < players.len() ==> players[j].key != key_of(
            name,
        ),
{
    lemma_first_position(players, key_of(name), j);
}

proof fn lemma_first_position(players: Seq<PlayerView>, key: Seq<char>, j: int)
    ensures
        0 <= position_by_key(players, key) <= players.len(),
        position_by_key(players, key) < players.len() ==> players[position_by_key(
            players,
            key,
        )].key == key,
        0 <= j < position_by_key(players, key) ==> players[j].key != key,
    decreases players.len(),
{
    if players.len() > 0 && players[0].key != key {
        lemma_first_position(players.skip(1), key, j - 1);
        if 0 < j < players.len() {
            assert(players.skip(1)[j - 1] == players[j]);
        }
        let at = position_by_key(players.skip(1), key);
        if at < players.skip(1).len() {
            assert(players.skip(1)[at] == players[at + 1]);
        }
    }
}

/// Whitespace and punctuation in a name count for nothing, any other character counts in
/// lower case, and each part of a name counts by itself.
pub proof fn law_key(left: Seq<char>, right: Seq<char>, c: char)
    ensures
        whitespace(c) || ascii_punctuation(c) ==> key_of(seq![c]) == Seq::<char>::empty(),
        !whitespace(c) && !ascii_punctuation(c) ==> key_of(seq![c]) == lowered_char(c),
        key_of(left + right) == key_of(left) + key_of(right),
    decreases right.len(),
{
    reveal_with_fuel(key_of, 2);
    assert(seq![c].drop_last() =~= Seq::empty());
    assert(Seq::<char>::empty() + lowered_char(c) =~= lowered_char(c));
    if right.len() == 0 {
        assert(left + right =~= left);
        assert(key_of(left) + key_of(right) =~= key_of(left));
    } else {
        law_key(left, right.drop_last(), c);
        assert((left + right).drop_last() =~= left + right.drop_last());
        assert((left + right).last() == right.last());
        assert(key_of(left + right) =~= key_of(left) + key_of(right));
    }
}

/// A timer counts the time that passes while the clock is active, and none while it is
/// not; either way it goes on from now.
pub proof fn law_timer_counts(timer: ActiveTimer, passed: nat, now: int)
    requires
        now == timer.last_tick + passed,
        now <= u128::MAX,
        timer.elapsed + passed <= LONGEST,
    ensures
        timer.ticked(now, true).elapsed == timer.elapsed + passed,
        timer.ticked(now, true).last_tick == now,
        timer.ticked(now, false).elapsed == timer.elapsed,
        timer.ticked(now, false).last_tick == now,
        ActiveTimer::started(now).elapsed == 0,
        ActiveTimer::started(now).last_tick == now,
        seconds(1) == 1_000_000_000,
{
}

/// Who sits down has the name without the whitespace round it, no cards, and no lapse of
/// time to their account.
pub proof fn law_new_player(name: Seq<char>)
    ensures
        new_player(name).name == trimmed(name),
        new_player(name).key == key_of(trimmed(name)),
        new_player(name).hand.len() == 0,
        new_player(name).timeouts == 0,
        !new_player(name).trustee,
        new_player(name).last_hand_reply is None,
{
    lemma_key_of_trimmed(name);
}

} // verus!
