//! Card games for three players: fight-the-landlord and run-fast.
pub mod cards;
pub mod dealing;
pub mod game;
pub mod hands;
pub mod patterns;
pub mod playing;
pub mod rounds;
pub mod search;
pub mod service;
pub mod table;
pub mod turns;

use vstd::prelude::*;

verus! {

/// The settings of the card games.
#[derive(Clone, Copy, Debug)]
pub struct LandlordConfig {
    pub enabled: bool,
    pub lobby_timeout_seconds: u64,
    pub turn_timeout_seconds: u64,
    pub trustee_after_timeouts: u32,
    pub hand_cooldown_seconds: u64,
}

/// The settings where nothing else is configured.
pub open spec fn default_landlord_config() -> LandlordConfig {
    LandlordConfig {
        enabled: true,
        lobby_timeout_seconds: 120,
        turn_timeout_seconds: 90,
        trustee_after_timeouts: 2,
        hand_cooldown_seconds: 10,
    }
}

impl Default for LandlordConfig {
    fn default() -> (r: Self)
        ensures
            r == default_landlord_config(),
    {
        LandlordConfig {
            enabled: true,
            lobby_timeout_seconds: 120,
            turn_timeout_seconds: 90,
            trustee_after_timeouts: 2,
            hand_cooldown_seconds: 10,
        }
    }
}

/// What a player can ask of the card games.
#[derive(Clone, Debug, PartialEq, Eq)]
pub enum LandlordCommand {
    Start,
    RunFastStart,
    Join,
    Rob,
    Decline,
    Status,
    Play(String),
    Pass,
    Hand,
    Exit,
}

/// What the card games answer.
#[derive(Clone, Debug, PartialEq, Eq)]
pub struct LandlordOutcome {
    pub action: &'static str,
    pub public_reply: Option<String>,
    pub private_reply: Option<String>,
    pub private_deliveries: Vec<LandlordPrivateDelivery>,
    pub ended: bool,
}

/// A message to one player.
#[derive(Clone, Debug, PartialEq, Eq)]
pub struct LandlordPrivateDelivery {
    pub player: String,
    pub message: String,
}

/// A message to one player, as plain values.
#[verifier::ext_equal]
pub struct DeliveryView {
    pub player: Seq<char>,
    pub message: Seq<char>,
}

/// What the card games answer, as plain values.
#[verifier::ext_equal]
pub struct OutcomeView {
    pub action: Seq<char>,
    pub public_reply: Option<Seq<char>>,
    pub private_reply: Option<Seq<char>>,
    pub private_deliveries: Seq<DeliveryView>,
    pub ended: bool,
}

/// The characters of an optional string.
pub open spec fn optional_view(s: Option<String>) -> Option<Seq<char>> {
    match s {
        Some(s) => Some(s@),
        None => None,
    }
}

impl View for LandlordPrivateDelivery {
    type V = DeliveryView;

    open spec fn view(&self) -> DeliveryView {
        DeliveryView { player: self.player@, message: self.message@ }
    }
}

impl View for LandlordOutcome {
    type V = OutcomeView;

    open spec fn view(&self) -> OutcomeView {
        OutcomeView {
            action: self.action@,
            public_reply: optional_view(self.public_reply),
            private_reply: optional_view(self.private_reply),
            private_deliveries: Seq::new(
                self.private_deliveries@.len(),
                |i: int| self.private_deliveries@[i]@,
            ),
            ended: self.ended,
        }
    }
}

/// An answer to the whole table.
pub open spec fn public_outcome(action: Seq<char>, reply: Seq<char>) -> OutcomeView {
    OutcomeView {
        action,
        public_reply: Some(reply),
        private_reply: None,
        private_deliveries: Seq::empty(),
        ended: false,
    }
}

/// An answer to the player who asked.
pub open spec fn private_outcome(action: Seq<char>, reply: Seq<char>) -> OutcomeView {
    OutcomeView {
        action,
        public_reply: None,
        private_reply: Some(reply),
        private_deliveries: Seq::empty(),
        ended: false,
    }
}

/// An answer to the whole table that ends the game.
pub open spec fn ended_outcome(action: Seq<char>, reply: Seq<char>) -> OutcomeView {
    OutcomeView { ended: true, ..public_outcome(action, reply) }
}

impl LandlordOutcome {
    /// An answer to the whole table.
    pub fn public(action: &'static str, reply: String) -> (r: LandlordOutcome)
        ensures
            r@ == public_outcome(action@, reply@),
    {
        let r = LandlordOutcome {
            action,
            public_reply: Some(reply),
            private_reply: None,
            private_deliveries: Vec::new(),
            ended: false,
        };
        proof {
            assert(r@.private_deliveries =~= Seq::empty());
        }
        r
    }

    /// An answer to the player who asked.
    pub fn private(action: &'static str, reply: String) -> (r: LandlordOutcome)
        ensures
            r@ == private_outcome(action@, reply@),
    {
        let r = LandlordOutcome {
            action,
            public_reply: None,
            private_reply: Some(reply),
            private_deliveries: Vec::new(),
            ended: false,
        };
        proof {
            assert(r@.private_deliveries =~= Seq::empty());
        }
        r
    }

    /// An answer to the whole table that ends the game.
    pub fn ended(action: &'static str, reply: String) -> (r: LandlordOutcome)
        ensures
            r@ == ended_outcome(action@, reply@),
    {
        let r = LandlordOutcome {
            action,
            public_reply: Some(reply),
            private_reply: None,
            private_deliveries: Vec::new(),
            ended: true,
        };
        proof {
            assert(r@.private_deliveries =~= Seq::empty());
        }
        r
    }

    /// The answer together with messages to single players.
    pub fn with_private_deliveries(self, deliveries: Vec<LandlordPrivateDelivery>) -> (r:
        LandlordOutcome)
        ensures
            r@ == (OutcomeView {
                private_deliveries: Seq::new(deliveries@.len(), |i: int| deliveries@[i]@),
                ..self@
            }),
    {
        LandlordOutcome {
            action: self.action,
            public_reply: self.public_reply,
            private_reply: self.private_reply,
            private_deliveries: deliveries,
            ended: self.ended,
        }
    }
}

} // verus!
