//! The card games: cards, patterns, and games from the first card to the last.
use miliastra::card_games::LandlordCommand;
use miliastra::card_games::LandlordConfig;
use miliastra::card_games::cards::Card;
use miliastra::card_games::cards::Rank;
use miliastra::card_games::cards::rank_counts;
use miliastra::card_games::cards::rank_from_value;
use miliastra::card_games::dealing::SplitMix64;
use miliastra::card_games::dealing::deal;
use miliastra::card_games::game::LandlordGame;
use miliastra::card_games::hands::format_play;
use miliastra::card_games::hands::parse_cards;
use miliastra::card_games::patterns::CardGameVariant;
use miliastra::card_games::patterns::PlayPattern;
use miliastra::card_games::patterns::classify;
use miliastra::card_games::patterns::classify_for_variant;
use miliastra::card_games::playing::lowest_beating_play;
use miliastra::card_games::table::ActiveTimer;
use miliastra::card_games::table::GameState;
use miliastra::card_games::table::LastPlay;
use miliastra::card_games::table::NANOS;
use miliastra::card_games::table::Player;
use miliastra::card_games::table::Playing;

/// The width of a line of chat: forty characters of full width.
const MAX_CHAT_WIDTH: usize = 80;

/// The width of a text: ASCII is half as wide as the rest.
fn display_width(text: &str) -> usize {
    text.chars().map(|c| if c.is_ascii() { 1 } else { 2 }).sum()
}

fn ranks(text: &str) -> Vec<Rank> {
    parse_cards(text).unwrap()
}

fn finish_bidding_with_all_players_robbing(game: &mut LandlordGame, now: u128) {
    for _ in 0..3 {
        let GameState::Bidding(bidding) = &game.state else {
            panic!("expected bidding")
        };
        let player = bidding.players[bidding.current].name.clone();
        game.handle(&player, &LandlordCommand::Rob, now);
    }
    assert!(matches!(game.state, GameState::Playing(_)));
}

#[test]
fn parses_compact_and_separated_cards() {
    assert_eq!(ranks("33441010jQKA2小王大王").len(), 13);
    assert_eq!(
        ranks("10 10，J、j"),
        vec![Rank::Ten, Rank::Ten, Rank::Jack, Rank::Jack]
    );
    assert!(parse_cards("♠3").is_err());
    assert!(parse_cards("王").is_err());
}

#[test]
fn classifies_complete_supported_pattern_set() {
    for (text, label) in [
        ("3", "单张"),
        ("33", "对子"),
        ("333", "三张"),
        ("3334", "三带一"),
        ("33344", "三带二"),
        ("34567", "顺子"),
        ("334455", "连对"),
        ("333444", "飞机"),
        ("33344455", "飞机带单"),
        ("3334445566", "飞机带对"),
        ("333345", "四带二单"),
        ("33334455", "四带二对"),
        ("3333", "炸弹"),
        ("小王大王", "王炸"),
    ] {
        assert_eq!(
            classify(&ranks(text)).map(|item| item.label()),
            Some(label),
            "{text}"
        );
    }
    assert!(classify(&ranks("JQKA2")).is_none());
    assert!(classify(&ranks("3334445555")).is_none());
}

#[test]
fn compares_only_matching_shapes_except_bombs() {
    assert!(
        classify(&ranks("45678"))
            .unwrap()
            .beats(&classify(&ranks("34567")).unwrap())
    );
    assert!(
        !classify(&ranks("456789"))
            .unwrap()
            .beats(&classify(&ranks("34567")).unwrap())
    );
    assert!(
        classify(&ranks("3333"))
            .unwrap()
            .beats(&classify(&ranks("AA")).unwrap())
    );
    assert!(
        classify(&ranks("小王大王"))
            .unwrap()
            .beats(&classify(&ranks("2222")).unwrap())
    );
}

#[test]
fn trustee_uses_the_lowest_legal_beating_play_before_passing() {
    let hand = ranks("445555小王大王")
        .into_iter()
        .map(Card::new)
        .collect::<Vec<_>>();
    let previous = classify(&ranks("33")).unwrap();
    let (cards, pattern) = lowest_beating_play(&hand, &previous).expect("beating pair");

    assert_eq!(pattern, PlayPattern::Pair(Rank::Four));
    assert_eq!(format_play(&cards), "4 4");
}

#[test]
fn classic_deal_gives_each_player_seventeen_cards_and_three_bottom_cards() {
    for seed in 0..100 {
        let mut rng = SplitMix64::new(seed);
        let (hands, bottom) = deal(&mut rng);
        assert!(hands.iter().all(|hand| hand.len() == 17));
        assert_eq!(bottom.len(), 3);
        assert_eq!(hands.iter().map(Vec::len).sum::<usize>() + bottom.len(), 54);
    }
}

#[test]
fn hunan_run_fast_deals_sixteen_cards_and_spade_three_leads() {
    let now = 1_000 * NANOS;
    let mut game = LandlordGame::with_seed(LandlordConfig::default(), 41);
    assert_eq!(game.create_run_fast("甲", now).action, "created");
    assert_eq!(game.join("乙", now).action, "joined");

    let outcome = game.join("丙", now);

    assert_eq!(outcome.action, "run-fast-started");
    assert_eq!(outcome.private_deliveries.len(), 3);
    assert!(
        outcome
            .private_deliveries
            .iter()
            .all(|delivery| delivery.message.contains("初始手牌(16张)"))
    );
    let GameState::Playing(playing) = &game.state else {
        panic!("expected playing")
    };
    assert_eq!(playing.variant, CardGameVariant::HunanRunFast);
    assert!(playing.players.iter().all(|player| player.hand.len() == 16));
    let dealt_ranks = playing
        .players
        .iter()
        .flat_map(|player| player.hand.iter().map(|card| card.rank))
        .collect::<Vec<_>>();
    let dealt_counts = rank_counts(&dealt_ranks);
    assert_eq!(dealt_counts.get(&Rank::Ace), Some(3));
    assert_eq!(dealt_counts.get(&Rank::Two), Some(1));
    assert!(!dealt_counts.contains_key(&Rank::SmallJoker));
    assert!(!dealt_counts.contains_key(&Rank::BigJoker));
    assert_eq!(
        playing
            .players
            .iter()
            .flat_map(|player| &player.hand)
            .filter(|card| card.spade_three)
            .count(),
        1
    );
    assert!(
        playing.players[playing.current]
            .hand
            .iter()
            .any(|card| card.spade_three)
    );
    assert!(playing.opening_spade_three_required);
}

#[test]
fn hunan_run_fast_first_play_uses_spade_three() {
    let now = 1_000 * NANOS;
    let mut game = LandlordGame::with_seed(LandlordConfig::default(), 43);
    game.create_run_fast("甲", now);
    game.join("乙", now);
    game.join("丙", now);
    let (player, other_rank) = {
        let GameState::Playing(playing) = &game.state else {
            panic!("expected playing")
        };
        let current = &playing.players[playing.current];
        let other_rank = current
            .hand
            .iter()
            .find(|card| card.rank != Rank::Three)
            .expect("opening hand has a non-three")
            .rank;
        (current.name.clone(), other_rank)
    };

    assert_eq!(
        game.play(&player, other_rank.label(), now).action,
        "spade-three-required"
    );
    assert_eq!(game.play(&player, "3", now).action, "played");
    let GameState::Playing(playing) = &game.state else {
        panic!("expected playing")
    };
    assert!(!playing.opening_spade_three_required);
    assert!(
        playing
            .players
            .iter()
            .flat_map(|player| &player.hand)
            .all(|card| !card.spade_three)
    );
}

#[test]
fn hunan_run_fast_uses_confirmed_triple_pair_straight_and_four_card_rules() {
    assert_eq!(
        classify_for_variant(&ranks("AAA"), CardGameVariant::HunanRunFast),
        Some(PlayPattern::Triple(Rank::Ace))
    );
    assert_eq!(
        classify_for_variant(&ranks("AAA4"), CardGameVariant::HunanRunFast),
        Some(PlayPattern::TripleSingle(Rank::Ace))
    );
    assert_eq!(
        classify_for_variant(&ranks("3344"), CardGameVariant::HunanRunFast),
        Some(PlayPattern::PairStraight {
            high: Rank::Four,
            length: 2,
        })
    );
    assert_eq!(
        classify_for_variant(&ranks("444456"), CardGameVariant::HunanRunFast),
        Some(PlayPattern::FourTwoSingles(Rank::Four))
    );
    assert_eq!(
        classify_for_variant(&ranks("44445566"), CardGameVariant::HunanRunFast),
        Some(PlayPattern::FourTwoPairs(Rank::Four))
    );
    assert_eq!(
        classify_for_variant(&ranks("4444356"), CardGameVariant::HunanRunFast),
        None
    );
}

#[test]
fn hunan_run_fast_cannot_pass_when_a_beating_play_exists() {
    let now = 1_000 * NANOS;
    let mut game = LandlordGame::with_seed(LandlordConfig::default(), 1);
    game.state = GameState::Playing(Playing {
        players: vec![
            Player {
                hand: vec![Card::new(Rank::Five)],
                ..Player::new("甲")
            },
            Player {
                hand: vec![Card::new(Rank::Six)],
                ..Player::new("乙")
            },
            Player {
                hand: vec![Card::new(Rank::Seven)],
                ..Player::new("丙")
            },
        ],
        variant: CardGameVariant::HunanRunFast,
        landlord: 2,
        current: 0,
        last_play: Some(LastPlay {
            player: 2,
            cards: vec![Card::new(Rank::Four)],
            pattern: PlayPattern::Single(Rank::Four),
        }),
        consecutive_passes: 0,
        timer: ActiveTimer::new(now),
        warning_sent: false,
        turns: 1,
        bombs: 0,
        opening_spade_three_required: false,
    });

    assert_eq!(game.pass("甲", now).action, "must-play");
}

#[test]
fn hunan_run_fast_can_pass_when_no_beating_play_exists() {
    let now = 1_000 * NANOS;
    let mut game = LandlordGame::with_seed(LandlordConfig::default(), 1);
    game.state = GameState::Playing(Playing {
        players: vec![
            Player {
                hand: vec![Card::new(Rank::Three)],
                ..Player::new("甲")
            },
            Player {
                hand: vec![Card::new(Rank::Six)],
                ..Player::new("乙")
            },
            Player {
                hand: vec![Card::new(Rank::Seven)],
                ..Player::new("丙")
            },
        ],
        variant: CardGameVariant::HunanRunFast,
        landlord: 2,
        current: 0,
        last_play: Some(LastPlay {
            player: 2,
            cards: vec![Card::new(Rank::Four)],
            pattern: PlayPattern::Single(Rank::Four),
        }),
        consecutive_passes: 0,
        timer: ActiveTimer::new(now),
        warning_sent: false,
        turns: 1,
        bombs: 0,
        opening_spade_three_required: false,
    });

    let outcome = game.pass("甲", now);
    assert_eq!(outcome.action, "passed");
    assert_eq!(outcome.public_reply.as_deref(), Some("甲过，轮到乙"));
}

#[test]
fn hunan_run_fast_immediately_passes_with_no_legal_play() {
    let now = 1_000 * NANOS;
    let mut game = LandlordGame::with_seed(LandlordConfig::default(), 1);
    game.state = GameState::Playing(Playing {
        players: vec![
            Player {
                hand: vec![Card::new(Rank::Four)],
                ..Player::new("甲")
            },
            Player {
                hand: vec![Card::new(Rank::Six), Card::new(Rank::Seven)],
                ..Player::new("乙")
            },
            Player {
                hand: vec![Card::new(Rank::Eight), Card::new(Rank::Nine)],
                ..Player::new("丙")
            },
        ],
        variant: CardGameVariant::HunanRunFast,
        landlord: 2,
        current: 0,
        last_play: Some(LastPlay {
            player: 2,
            cards: vec![Card::new(Rank::Five)],
            pattern: PlayPattern::Single(Rank::Five),
        }),
        consecutive_passes: 0,
        timer: ActiveTimer::new(now),
        warning_sent: false,
        turns: 1,
        bombs: 0,
        opening_spade_three_required: false,
    });

    let outcome = game.tick(now, true).expect("forced pass");

    assert_eq!(outcome.action, "forced-pass");
    assert_eq!(outcome.public_reply.as_deref(), Some("甲无牌可压，轮到乙"));
    let GameState::Playing(playing) = &game.state else {
        panic!("expected playing")
    };
    assert_eq!(playing.current, 1);
    assert_eq!(playing.players[0].timeouts, 0);
    assert!(!playing.players[0].trustee);
}

#[test]
fn hunan_run_fast_combines_two_forced_passes_into_one_message() {
    let now = 1_000 * NANOS;
    let mut game = LandlordGame::with_seed(LandlordConfig::default(), 1);
    game.state = GameState::Playing(Playing {
        players: vec![
            Player {
                hand: vec![Card::new(Rank::Three), Card::new(Rank::Four)],
                ..Player::new("甲")
            },
            Player {
                hand: vec![Card::new(Rank::Five)],
                ..Player::new("乙")
            },
            Player {
                hand: vec![Card::new(Rank::Six)],
                ..Player::new("丙")
            },
        ],
        variant: CardGameVariant::HunanRunFast,
        landlord: 0,
        current: 1,
        last_play: Some(LastPlay {
            player: 0,
            cards: vec![Card::new(Rank::King)],
            pattern: PlayPattern::Single(Rank::King),
        }),
        consecutive_passes: 0,
        timer: ActiveTimer::new(now),
        warning_sent: false,
        turns: 1,
        bombs: 0,
        opening_spade_three_required: false,
    });

    let first = game.tick(now, true).expect("first forced pass");
    assert_eq!(first.action, "forced-pass");
    assert!(first.public_reply.is_none());

    let second = game.tick(now, true).expect("second forced pass");
    assert_eq!(second.action, "forced-pass");
    assert_eq!(second.public_reply.as_deref(), Some("双方无牌可压，甲领出"));
    let GameState::Playing(playing) = &game.state else {
        panic!("expected playing")
    };
    assert_eq!(playing.current, 0);
    assert!(playing.last_play.is_none());
}

#[test]
fn hunan_run_fast_immediately_plays_the_only_legal_option() {
    let now = 1_000 * NANOS;
    let mut game = LandlordGame::with_seed(LandlordConfig::default(), 1);
    game.state = GameState::Playing(Playing {
        players: vec![
            Player {
                hand: vec![
                    Card::new(Rank::Four),
                    Card::new(Rank::Four),
                    Card::new(Rank::Five),
                ],
                ..Player::new("甲")
            },
            Player {
                hand: vec![Card::new(Rank::Six), Card::new(Rank::Seven)],
                ..Player::new("乙")
            },
            Player {
                hand: vec![Card::new(Rank::Eight)],
                ..Player::new("丙")
            },
        ],
        variant: CardGameVariant::HunanRunFast,
        landlord: 2,
        current: 0,
        last_play: Some(LastPlay {
            player: 2,
            cards: vec![Card::new(Rank::Three), Card::new(Rank::Three)],
            pattern: PlayPattern::Pair(Rank::Three),
        }),
        consecutive_passes: 0,
        timer: ActiveTimer::new(now),
        warning_sent: false,
        turns: 1,
        bombs: 0,
        opening_spade_three_required: false,
    });

    let outcome = game.tick(now, true).expect("forced play");

    assert_eq!(outcome.action, "forced-play");
    assert_eq!(
        outcome.public_reply.as_deref(),
        Some("甲自动出:44[对子] 余1，轮到乙")
    );
    let GameState::Playing(playing) = &game.state else {
        panic!("expected playing")
    };
    assert_eq!(playing.players[0].hand, vec![Card::new(Rank::Five)]);
    assert_eq!(playing.players[0].timeouts, 0);
    assert!(!playing.players[0].trustee);
}

#[test]
fn hunan_run_fast_play_message_fits_forty_fullwidth_characters() {
    let now = 1_000 * NANOS;
    let mut game = LandlordGame::with_seed(LandlordConfig::default(), 1);
    game.state = GameState::Playing(Playing {
        players: vec![
            Player {
                hand: vec![
                    Card::new(Rank::Four),
                    Card::new(Rank::Four),
                    Card::new(Rank::Five),
                ],
                ..Player::new("甲甲甲甲甲甲甲甲")
            },
            Player {
                hand: vec![Card::new(Rank::Six), Card::new(Rank::Seven)],
                ..Player::new("乙乙乙乙乙乙乙乙")
            },
            Player {
                hand: vec![Card::new(Rank::Eight)],
                ..Player::new("丙丙丙丙丙丙丙丙")
            },
        ],
        variant: CardGameVariant::HunanRunFast,
        landlord: 2,
        current: 0,
        last_play: Some(LastPlay {
            player: 2,
            cards: vec![Card::new(Rank::Three), Card::new(Rank::Three)],
            pattern: PlayPattern::Pair(Rank::Three),
        }),
        consecutive_passes: 0,
        timer: ActiveTimer::new(now),
        warning_sent: false,
        turns: 1,
        bombs: 0,
        opening_spade_three_required: false,
    });

    let reply = game
        .tick(now, true)
        .and_then(|outcome| outcome.public_reply)
        .expect("forced play reply");

    assert!(display_width(&reply) <= MAX_CHAT_WIDTH, "{reply}");
}

#[test]
fn hunan_run_fast_waits_when_multiple_legal_options_exist() {
    let now = 1_000 * NANOS;
    let mut game = LandlordGame::with_seed(LandlordConfig::default(), 1);
    game.state = GameState::Playing(Playing {
        players: vec![
            Player {
                hand: vec![
                    Card::new(Rank::Four),
                    Card::new(Rank::Four),
                    Card::new(Rank::Five),
                    Card::new(Rank::Five),
                ],
                ..Player::new("甲")
            },
            Player {
                hand: vec![Card::new(Rank::Six), Card::new(Rank::Seven)],
                ..Player::new("乙")
            },
            Player {
                hand: vec![Card::new(Rank::Eight)],
                ..Player::new("丙")
            },
        ],
        variant: CardGameVariant::HunanRunFast,
        landlord: 2,
        current: 0,
        last_play: Some(LastPlay {
            player: 2,
            cards: vec![Card::new(Rank::Three), Card::new(Rank::Three)],
            pattern: PlayPattern::Pair(Rank::Three),
        }),
        consecutive_passes: 0,
        timer: ActiveTimer::new(now),
        warning_sent: false,
        turns: 1,
        bombs: 0,
        opening_spade_three_required: false,
    });

    assert!(game.tick(now, true).is_none());
    let GameState::Playing(playing) = &game.state else {
        panic!("expected playing")
    };
    assert_eq!(playing.current, 0);
    assert_eq!(playing.players[0].hand.len(), 4);
}

#[test]
fn hunan_run_fast_timeout_play_uses_compact_message() {
    let now = 1_000 * NANOS;
    let config = LandlordConfig {
        turn_timeout_seconds: 1,
        ..LandlordConfig::default()
    };
    let mut game = LandlordGame::with_seed(config, 1);
    game.state = GameState::Playing(Playing {
        players: vec![
            Player {
                hand: vec![
                    Card::new(Rank::Four),
                    Card::new(Rank::Four),
                    Card::new(Rank::Five),
                    Card::new(Rank::Five),
                ],
                ..Player::new("甲")
            },
            Player {
                hand: vec![Card::new(Rank::Six), Card::new(Rank::Seven)],
                ..Player::new("乙")
            },
            Player {
                hand: vec![Card::new(Rank::Eight)],
                ..Player::new("丙")
            },
        ],
        variant: CardGameVariant::HunanRunFast,
        landlord: 2,
        current: 0,
        last_play: Some(LastPlay {
            player: 2,
            cards: vec![Card::new(Rank::Three), Card::new(Rank::Three)],
            pattern: PlayPattern::Pair(Rank::Three),
        }),
        consecutive_passes: 0,
        timer: ActiveTimer::new(now),
        warning_sent: false,
        turns: 1,
        bombs: 0,
        opening_spade_three_required: false,
    });

    let outcome = game
        .tick(now + 1 * NANOS, true)
        .expect("timeout play");

    assert_eq!(outcome.action, "auto-play");
    assert_eq!(
        outcome.public_reply.as_deref(),
        Some("甲超时出:44[对子] 余2，轮到乙")
    );
}

#[test]
fn hunan_run_fast_requires_largest_single_when_next_player_has_one_card() {
    let now = 1_000 * NANOS;
    let mut game = LandlordGame::with_seed(LandlordConfig::default(), 1);
    game.state = GameState::Playing(Playing {
        players: vec![
            Player {
                hand: vec![Card::new(Rank::Five), Card::new(Rank::King)],
                ..Player::new("甲")
            },
            Player {
                hand: vec![Card::new(Rank::Six)],
                ..Player::new("乙")
            },
            Player {
                hand: vec![Card::new(Rank::Seven), Card::new(Rank::Eight)],
                ..Player::new("丙")
            },
        ],
        variant: CardGameVariant::HunanRunFast,
        landlord: 0,
        current: 0,
        last_play: None,
        consecutive_passes: 0,
        timer: ActiveTimer::new(now),
        warning_sent: false,
        turns: 0,
        bombs: 0,
        opening_spade_three_required: false,
    });

    assert_eq!(game.play("甲", "5", now).action, "must-play-largest-single");
    let outcome = game.play("甲", "K", now);
    assert_eq!(outcome.action, "played");
    assert_eq!(
        outcome.public_reply.as_deref(),
        Some("甲出:K[单张] 余1，轮到乙")
    );
}

#[test]
fn hunan_run_fast_report_one_constraint_can_leave_one_forced_option() {
    let now = 1_000 * NANOS;
    let mut game = LandlordGame::with_seed(LandlordConfig::default(), 1);
    game.state = GameState::Playing(Playing {
        players: vec![
            Player {
                hand: vec![Card::new(Rank::Five), Card::new(Rank::King)],
                ..Player::new("甲")
            },
            Player {
                hand: vec![Card::new(Rank::Six)],
                ..Player::new("乙")
            },
            Player {
                hand: vec![Card::new(Rank::Seven), Card::new(Rank::Eight)],
                ..Player::new("丙")
            },
        ],
        variant: CardGameVariant::HunanRunFast,
        landlord: 0,
        current: 0,
        last_play: None,
        consecutive_passes: 0,
        timer: ActiveTimer::new(now),
        warning_sent: false,
        turns: 0,
        bombs: 0,
        opening_spade_three_required: false,
    });

    assert_eq!(
        game.tick(now, true).expect("report-one forced play").action,
        "forced-play"
    );
    let GameState::Playing(playing) = &game.state else {
        panic!("expected playing")
    };
    assert_eq!(playing.players[0].hand, vec![Card::new(Rank::Five)]);
}

#[test]
fn hunan_run_fast_first_empty_hand_wins() {
    let now = 1_000 * NANOS;
    let mut game = LandlordGame::with_seed(LandlordConfig::default(), 1);
    game.state = GameState::Playing(Playing {
        players: vec![
            Player {
                hand: vec![Card::new(Rank::King)],
                ..Player::new("甲")
            },
            Player {
                hand: vec![Card::new(Rank::Six), Card::new(Rank::Seven)],
                ..Player::new("乙")
            },
            Player {
                hand: vec![Card::new(Rank::Eight), Card::new(Rank::Nine)],
                ..Player::new("丙")
            },
        ],
        variant: CardGameVariant::HunanRunFast,
        landlord: 0,
        current: 0,
        last_play: None,
        consecutive_passes: 0,
        timer: ActiveTimer::new(now),
        warning_sent: false,
        turns: 0,
        bombs: 0,
        opening_spade_three_required: false,
    });

    let outcome = game.play("甲", "K", now);

    assert!(outcome.ended);
    assert!(
        outcome
            .public_reply
            .is_some_and(|reply| reply.contains("获胜"))
    );
    assert!(!game.is_active());
}

#[test]
fn hunan_run_fast_leader_with_one_option_immediately_wins() {
    let now = 1_000 * NANOS;
    let mut game = LandlordGame::with_seed(LandlordConfig::default(), 1);
    game.state = GameState::Playing(Playing {
        players: vec![
            Player {
                hand: vec![Card::new(Rank::King)],
                ..Player::new("甲")
            },
            Player {
                hand: vec![Card::new(Rank::Six), Card::new(Rank::Seven)],
                ..Player::new("乙")
            },
            Player {
                hand: vec![Card::new(Rank::Eight), Card::new(Rank::Nine)],
                ..Player::new("丙")
            },
        ],
        variant: CardGameVariant::HunanRunFast,
        landlord: 0,
        current: 0,
        last_play: None,
        consecutive_passes: 0,
        timer: ActiveTimer::new(now),
        warning_sent: false,
        turns: 0,
        bombs: 0,
        opening_spade_three_required: false,
    });

    let outcome = game.tick(now, true).expect("forced winning play");

    assert_eq!(outcome.action, "won");
    assert!(outcome.ended);
    assert_eq!(
        outcome.public_reply.as_deref(),
        Some("甲自动出:K[单张]，获胜；其余:2张/2张")
    );
    assert!(!game.is_active());
}

#[test]
fn three_players_receive_hands_then_random_player_starts_bidding() {
    let now = 1_000 * NANOS;
    let mut game = LandlordGame::with_seed(LandlordConfig::default(), 7);
    assert_eq!(game.create("甲", now).action, "created");
    assert_eq!(game.join("乙", now).action, "joined");
    let outcome = game.join("丙", now);
    assert_eq!(outcome.action, "bidding-started");
    assert_eq!(outcome.private_deliveries.len(), 3);
    let GameState::Bidding(bidding) = &game.state else {
        panic!("expected bidding")
    };
    assert!(bidding.current < 3);
    assert!(bidding.players.iter().all(|player| player.hand.len() == 17));
    assert_eq!(bidding.bottom.len(), 3);

    finish_bidding_with_all_players_robbing(&mut game, now);
    let GameState::Playing(playing) = &game.state else {
        panic!("expected playing")
    };
    assert_eq!(playing.current, playing.landlord);
    assert_eq!(playing.players[playing.landlord].hand.len(), 20);
}

#[test]
fn last_player_to_rob_becomes_landlord_and_leads() {
    let now = 1_000 * NANOS;
    let mut game = LandlordGame::with_seed(LandlordConfig::default(), 29);
    game.create("甲", now);
    game.join("乙", now);
    game.join("丙", now);

    let mut last_robber = String::new();
    for rob in [true, false, true] {
        let GameState::Bidding(bidding) = &game.state else {
            panic!("expected bidding")
        };
        let player = bidding.players[bidding.current].name.clone();
        if rob {
            last_robber = player.clone();
        }
        game.handle(
            &player,
            if rob {
                &LandlordCommand::Rob
            } else {
                &LandlordCommand::Decline
            },
            now,
        );
    }

    let GameState::Playing(playing) = &game.state else {
        panic!("expected playing")
    };
    assert_eq!(playing.players[playing.landlord].name, last_robber);
    assert_eq!(playing.current, playing.landlord);
    assert_eq!(playing.players[playing.landlord].hand.len(), 20);
}

#[test]
fn all_players_declining_redeals_and_sends_new_hands() {
    let now = 1_000 * NANOS;
    let mut game = LandlordGame::with_seed(LandlordConfig::default(), 31);
    game.create("甲", now);
    game.join("乙", now);
    game.join("丙", now);

    let mut final_outcome = None;
    for _ in 0..3 {
        let GameState::Bidding(bidding) = &game.state else {
            panic!("expected bidding")
        };
        let player = bidding.players[bidding.current].name.clone();
        final_outcome = Some(game.handle(&player, &LandlordCommand::Decline, now));
    }
    let outcome = final_outcome.expect("third bidding outcome");
    assert_eq!(outcome.action, "redealt");
    assert_eq!(outcome.private_deliveries.len(), 3);
    let GameState::Bidding(bidding) = &game.state else {
        panic!("expected bidding")
    };
    assert_eq!(bidding.decisions, 0);
    assert!(bidding.players.iter().all(|player| player.hand.len() == 17));
    assert_eq!(bidding.bottom.len(), 3);
}

#[test]
fn bidding_timeout_counts_as_decline() {
    let now = 1_000 * NANOS;
    let config = LandlordConfig {
        turn_timeout_seconds: 1,
        ..LandlordConfig::default()
    };
    let mut game = LandlordGame::with_seed(config, 37);
    game.create("甲", now);
    game.join("乙", now);
    game.join("丙", now);
    let GameState::Bidding(bidding) = &game.state else {
        panic!("expected bidding")
    };
    let first = bidding.current;

    let outcome = game
        .tick(now + 1 * NANOS, true)
        .expect("bidding timeout");
    assert_eq!(outcome.action, "declined");
    let GameState::Bidding(bidding) = &game.state else {
        panic!("expected bidding")
    };
    assert_eq!(bidding.decisions, 1);
    assert_ne!(bidding.current, first);
}

#[test]
fn hand_is_private_and_rate_limited() {
    let now = 1_000 * NANOS;
    let mut game = LandlordGame::with_seed(LandlordConfig::default(), 11);
    game.create("甲", now);
    game.join("乙", now);
    game.join("丙", now);
    let first = game.hand("甲", now);
    assert!(
        first
            .private_reply
            .as_deref()
            .is_some_and(|reply| reply.contains("当前手牌"))
    );
    assert_eq!(
        game.hand("甲", now + 9 * NANOS).action,
        "hand-cooldown"
    );
    assert_eq!(
        game.hand("甲", now + 10 * NANOS).action,
        "hand"
    );
}

#[test]
fn successful_manual_action_clears_consecutive_timeout_count() {
    let now = 1_000 * NANOS;
    let mut game = LandlordGame::with_seed(LandlordConfig::default(), 17);
    game.create("甲", now);
    game.join("乙", now);
    game.join("丙", now);
    finish_bidding_with_all_players_robbing(&mut game, now);
    let GameState::Playing(playing) = &mut game.state else {
        panic!("expected playing")
    };
    let current = playing.current;
    playing.players[current].timeouts = 1;
    let name = playing.players[current].name.clone();
    let card = playing.players[current].hand[0].rank.label().to_string();

    assert_eq!(game.play(&name, &card, now).action, "played");
    let GameState::Playing(playing) = &game.state else {
        panic!("expected playing")
    };
    assert_eq!(playing.players[current].timeouts, 0);
}

#[test]
fn clock_pauses_while_ui_is_busy_and_times_out_when_active() {
    let now = 1_000 * NANOS;
    let config = LandlordConfig {
        turn_timeout_seconds: 90,
        ..LandlordConfig::default()
    };
    let mut game = LandlordGame::with_seed(config, 13);
    game.create("甲", now);
    game.join("乙", now);
    game.join("丙", now);
    finish_bidding_with_all_players_robbing(&mut game, now);
    assert!(game.tick(now + 100 * NANOS, false).is_none());
    assert!(
        game.tick(now + 189 * NANOS, true)
            .is_some_and(|item| item.action == "turn-warning")
    );
    assert!(game.tick(now + 190 * NANOS, true).is_some());
}

#[test]
fn first_timeout_passes_instead_of_spending_a_beating_card() {
    let now = 1_000 * NANOS;
    let config = LandlordConfig {
        turn_timeout_seconds: 1,
        trustee_after_timeouts: 2,
        ..LandlordConfig::default()
    };
    let players = vec![
        Player {
            hand: vec![Card::new(Rank::Three), Card::new(Rank::Five)],
            ..Player::new("甲")
        },
        Player {
            hand: vec![Card::new(Rank::Four), Card::new(Rank::Six)],
            ..Player::new("乙")
        },
        Player {
            hand: vec![Card::new(Rank::Seven)],
            ..Player::new("丙")
        },
    ];
    let mut game = LandlordGame::with_seed(config, 1);
    game.state = GameState::Playing(Playing {
        players,
        variant: CardGameVariant::Landlord,
        landlord: 0,
        current: 0,
        last_play: None,
        consecutive_passes: 0,
        timer: ActiveTimer::new(now),
        warning_sent: false,
        turns: 0,
        bombs: 0,
        opening_spade_three_required: false,
    });
    assert_eq!(game.play("甲", "3", now).action, "played");

    let outcome = game
        .tick(now + 1 * NANOS, true)
        .expect("timeout outcome");
    assert_eq!(outcome.action, "auto-pass");
    let GameState::Playing(playing) = &game.state else {
        panic!("expected playing")
    };
    assert_eq!(playing.players[1].hand.len(), 2);
    assert!(!playing.players[1].trustee);
}

#[test]
fn two_passes_return_the_lead_to_last_player() {
    let now = 1_000 * NANOS;
    let players = vec![
        Player {
            hand: vec![Card::new(Rank::Three), Card::new(Rank::Four)],
            ..Player::new("甲")
        },
        Player {
            hand: vec![Card::new(Rank::Five)],
            ..Player::new("乙")
        },
        Player {
            hand: vec![Card::new(Rank::Six)],
            ..Player::new("丙")
        },
    ];
    let mut game = LandlordGame::with_seed(LandlordConfig::default(), 1);
    game.state = GameState::Playing(Playing {
        players,
        variant: CardGameVariant::Landlord,
        landlord: 0,
        current: 0,
        last_play: None,
        consecutive_passes: 0,
        timer: ActiveTimer::new(now),
        warning_sent: false,
        turns: 0,
        bombs: 0,
        opening_spade_three_required: false,
    });
    assert_eq!(game.play("甲", "3", now).action, "played");
    assert_eq!(game.pass("乙", now).action, "passed");
    assert_eq!(game.pass("丙", now).action, "passed");
    let GameState::Playing(playing) = &game.state else {
        panic!("expected playing")
    };
    assert_eq!(playing.current, 0);
    assert!(playing.last_play.is_none());
}

#[test]
fn playing_the_last_card_ends_and_clears_the_game() {
    let now = 1_000 * NANOS;
    let mut game = LandlordGame::with_seed(LandlordConfig::default(), 19);
    game.create("甲", now);
    game.join("乙", now);
    game.join("丙", now);
    finish_bidding_with_all_players_robbing(&mut game, now);
    let (name, card) = {
        let GameState::Playing(playing) = &mut game.state else {
            panic!("expected playing")
        };
        let current = playing.current;
        let card = playing.players[current].hand[0];
        playing.players[current].hand = vec![card];
        (playing.players[current].name.clone(), card.rank.label())
    };

    let outcome = game.play(&name, card, now);
    assert!(outcome.ended);
    assert_eq!(outcome.action, "won");
    assert!(!game.is_active());
}

#[test]
fn lobby_creator_cancels_but_joiner_only_leaves() {
    let now = 1_000 * NANOS;
    let mut game = LandlordGame::with_seed(LandlordConfig::default(), 23);
    game.create("甲", now);
    game.join("乙", now);

    let left = game.exit("乙");
    assert_eq!(left.action, "left-lobby");
    assert!(game.is_lobby());
    let canceled = game.exit("甲");
    assert_eq!(canceled.action, "lobby-canceled");
    assert!(canceled.ended);
    assert!(!game.is_active());
}

#[test]
fn ranks_have_values() {
    assert_eq!(rank_from_value(3), Some(Rank::Three));
    assert_eq!(rank_from_value(15), Some(Rank::Two));
    assert_eq!(rank_from_value(2), None);
    assert_eq!(rank_from_value(16), None);
    assert_eq!(Rank::Ace.sequence_value(), Some(14));
    assert_eq!(Rank::Two.sequence_value(), None);
    assert_eq!(Rank::SmallJoker.sequence_value(), None);
}
