//! The card games as a service.
use miliastra::card_games::service::CardGameCalls;
use miliastra::card_games::service::CardGameDeliveryPort;
use miliastra::card_games::service::CardGameError;
use miliastra::card_games::service::CardGameService;
use miliastra::card_games::service::CardGameStartGate;
use miliastra::card_games::table::NANOS;
use miliastra::card_games::LandlordCommand;
use miliastra::card_games::LandlordConfig;
use miliastra::card_games::LandlordOutcome;
use miliastra::card_games::LandlordPrivateDelivery;
use miliastra::entertainment::EntertainmentKind;
use miliastra::entertainment::EntertainmentState;

struct Port {
    events: Vec<String>,
    verified: Result<bool, String>,
    found: Result<bool, String>,
}

fn port() -> Port {
    Port { events: Vec::new(), verified: Ok(true), found: Ok(true) }
}

impl CardGameDeliveryPort for Port {
    fn calls(&self) -> CardGameCalls {
        unreachable!("stands in proofs only")
    }

    fn verify_friend(&mut self, player: &str, message: &str) -> Result<bool, String> {
        self.events.push(format!("verify:{player}:{message}"));
        self.verified.clone()
    }

    fn send_friend(&mut self, player: &str, message: &str) -> Result<bool, String> {
        self.events.push(format!("friend:{player}:{message}"));
        self.found.clone()
    }

    fn send_hall(&mut self, message: &str) -> Result<(), String> {
        self.events.push(format!("hall:{message}"));
        Ok(())
    }
}

const NOW: u128 = 1_000 * NANOS;

#[test]
fn a_start_is_reserved_until_it_is_completed_or_cancelled() {
    let mut entertainment = EntertainmentState::new();
    let mut service = CardGameService::new(LandlordConfig::default(), 7);
    let gate = service.prepare_start(&mut entertainment, &LandlordCommand::Start).unwrap();
    let reservation = match gate {
        CardGameStartGate::Ready { reservation } => reservation,
        CardGameStartGate::Reply(reply) => panic!("{reply}"),
    };
    assert_eq!(reservation.kind(), EntertainmentKind::Landlord);
    assert_eq!(entertainment.active(), Some(EntertainmentKind::Landlord));
    assert_eq!(
        service.prepare_start(&mut entertainment, &LandlordCommand::RunFastStart),
        Ok(CardGameStartGate::Reply("已有牌局或房间进行中".to_string()))
    );
    assert_eq!(
        service.complete_start(
            &mut entertainment,
            "甲",
            &LandlordCommand::RunFastStart,
            reservation,
            NOW
        ),
        Err(CardGameError::ReservationMismatch)
    );
    assert!(service.cancel_start(&mut entertainment, reservation));
    assert!(!service.cancel_start(&mut entertainment, reservation));
    assert_eq!(entertainment.active(), None);
    assert_eq!(
        service.complete_start(&mut entertainment, "甲", &LandlordCommand::Start, reservation, NOW),
        Err(CardGameError::ReservationInactive)
    );
    assert_eq!(
        service.prepare_start(&mut entertainment, &LandlordCommand::Pass),
        Err(CardGameError::NotAStartCommand)
    );
    assert_eq!(
        CardGameError::ReservationInactive.message(),
        "card game start reservation is no longer active"
    );
}

#[test]
fn a_room_is_opened_for_a_friend_only() {
    let mut entertainment = EntertainmentState::new();
    let mut service = CardGameService::new(LandlordConfig::default(), 7);
    let mut unknown = port();
    unknown.verified = Ok(false);
    service
        .execute(&mut entertainment, "甲", &LandlordCommand::Start, true, &mut unknown, NOW)
        .unwrap();
    assert_eq!(
        unknown.events,
        [
            "verify:甲:斗地主报名成功，请回到大厅等待组局",
            "hall:斗地主报名失败：好友列表未找到唯一昵称"
        ]
    );
    assert!(!service.is_active());
    assert_eq!(entertainment.active(), None);

    let mut broken = port();
    broken.verified = Err("offline".to_string());
    assert_eq!(
        service.execute(&mut entertainment, "甲", &LandlordCommand::Start, true, &mut broken, NOW),
        Err(CardGameError::Port("offline".to_string()))
    );
    assert_eq!(entertainment.active(), None);

    let mut friend = port();
    service
        .execute(&mut entertainment, "甲", &LandlordCommand::Start, true, &mut friend, NOW)
        .unwrap();
    assert_eq!(friend.events.len(), 2);
    assert!(service.is_active());
    assert_eq!(
        service.lobby_kind_for_join(&entertainment, "乙"),
        Some(EntertainmentKind::Landlord)
    );
    assert_eq!(service.lobby_kind_for_join(&entertainment, "甲"), None);
    assert!(service.abort(&mut entertainment));
    assert!(!service.is_active());
}

#[test]
fn other_entertainment_keeps_rooms_closed() {
    let mut entertainment = EntertainmentState::new();
    entertainment.try_acquire(EntertainmentKind::TurtleSoup);
    let mut service = CardGameService::new(LandlordConfig::default(), 7);
    assert_eq!(
        service.prepare_start(&mut entertainment, &LandlordCommand::Start),
        Ok(CardGameStartGate::Reply("海龟汤正在进行，请结束后再开始斗地主".to_string()))
    );
    let outcome = service.handle(&mut entertainment, "甲", &LandlordCommand::Join, true, NOW);
    assert_eq!(
        outcome.public_reply.as_deref(),
        Some("海龟汤正在进行，请结束后再开始牌局")
    );
    assert!(!service.abort(&mut entertainment));
    let disabled = LandlordConfig { enabled: false, ..LandlordConfig::default() };
    let mut closed = CardGameService::new(disabled, 7);
    assert_eq!(
        closed.prepare_start(&mut entertainment, &LandlordCommand::RunFastStart),
        Ok(CardGameStartGate::Reply("跑得快未启用".to_string()))
    );
}

#[test]
fn an_undelivered_hand_clears_the_game() {
    let mut entertainment = EntertainmentState::new();
    entertainment.try_acquire(EntertainmentKind::Landlord);
    let mut service = CardGameService::new(LandlordConfig::default(), 7);
    let outcome = || LandlordOutcome {
        action: "dealt",
        public_reply: Some("发牌完成".to_string()),
        private_reply: None,
        private_deliveries: vec![LandlordPrivateDelivery {
            player: "甲".to_string(),
            message: "手牌".to_string(),
        }],
        ended: false,
    };
    let mut lost = port();
    lost.found = Ok(false);
    assert_eq!(
        service.deliver(&mut entertainment, outcome(), &mut lost),
        Err(CardGameError::DealUndelivered("甲".to_string()))
    );
    assert_eq!(lost.events, ["friend:甲:手牌"]);
    assert_eq!(entertainment.active(), None);

    entertainment.try_acquire(EntertainmentKind::Landlord);
    let mut reached = port();
    let task = service.delivery_task(outcome());
    assert_eq!(task.label(), "发送牌局计时结果(dealt)");
    task.execute(&mut service, &mut entertainment, &mut reached).unwrap();
    assert_eq!(reached.events, ["friend:甲:手牌", "hall:发牌完成"]);
    assert_eq!(entertainment.active(), Some(EntertainmentKind::Landlord));
    assert!(service.delivery_task(outcome()).cancel(&mut service, &mut entertainment));
    assert_eq!(entertainment.active(), None);
}
