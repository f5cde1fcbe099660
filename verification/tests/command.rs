//! Commands on their way to a feature.
use miliastra::administration::AdministrationCommand;
use miliastra::card_games::LandlordCommand;
use miliastra::command::CardGameCommand;
use miliastra::command::CardGameRequest;
use miliastra::command::CommandAuthority;
use miliastra::command::CommandEnvelope;
use miliastra::command::CommandForms;
use miliastra::command::CommandObservation;
use miliastra::command::CommandPrefix;
use miliastra::command::FeatureCommandMatch;
use miliastra::command::FeatureRequest;
use miliastra::command::IdiomChainKind;
use miliastra::command::IdiomChainRequest;
use miliastra::command::ModuleCommand;
use miliastra::command::RoutedCommand;
use miliastra::command::TurtleSoupKind;
use miliastra::command::TurtleSoupRequest;
use miliastra::command::UndercoverKind;
use miliastra::command::UndercoverRequest;
use miliastra::hall::HallCommand;

fn request() -> FeatureRequest {
    FeatureRequest { lock_key: "feature:key".to_string() }
}

fn idiom_chain(kind: IdiomChainKind) -> ModuleCommand {
    ModuleCommand::IdiomChain(IdiomChainRequest { kind, lock_key: "idiom:key".to_string() })
}

fn turtle_soup(kind: TurtleSoupKind) -> ModuleCommand {
    ModuleCommand::TurtleSoup(TurtleSoupRequest { kind, lock_key: "soup:key".to_string() })
}

fn undercover(kind: UndercoverKind) -> ModuleCommand {
    ModuleCommand::Undercover(UndercoverRequest { kind, lock_key: "undercover:key".to_string() })
}

fn card_game(command: CardGameCommand) -> ModuleCommand {
    ModuleCommand::CardGame(CardGameRequest { command, lock_key: "card:key".to_string() })
}

fn forms() -> CommandForms {
    CommandForms {
        speaker: "友".to_string(),
        workflow: "流程".to_string(),
        args: "参数".to_string(),
    }
}

#[test]
fn an_envelope_is_made_of_what_was_said() {
    let seen = CommandObservation { frame_id: Some(3), captured_at: Some(5), message_id: None };
    let envelope = CommandEnvelope::new("友: @时间", "友", "blue", "@时间", seen).unwrap();
    assert_eq!(envelope.username(), "友");
    assert_eq!(envelope.user_command(), "@时间");
    assert_eq!(envelope.message_type(), "blue");
    assert_eq!(envelope.prefix(), CommandPrefix::At);
    assert_eq!(envelope.authority(), CommandAuthority::HallMember);
    assert_eq!(*envelope.observation(), seen);
    let private = envelope.with_authority(CommandAuthority::Friend);
    assert_eq!(private.message_type(), "pink");
    assert_eq!(private.authority(), CommandAuthority::Friend);
    assert_eq!(envelope.with_command_text("别的").command_text(), "别的");

    let none = CommandObservation::default();
    assert!(CommandEnvelope::new("x", " ", "blue", "@时间", none).is_none());
    assert!(CommandEnvelope::new("x", "友", "yellow", "@时间", none).is_none());
    assert!(CommandEnvelope::new("x", "友", "blue", "时间", none).is_none());
}

#[test]
fn a_routed_command_keeps_where_it_came_from() {
    let seen = CommandObservation { frame_id: None, captured_at: Some(5), message_id: Some(9) };
    let envelope = CommandEnvelope::new("友: @时间", "友", "pink", "@时间", seen).unwrap();
    let matched = FeatureCommandMatch::new("时间", "时间", HallCommand::Time);
    let routed = RoutedCommand::from_envelope(&envelope, matched.map(ModuleCommand::Hall));
    assert_eq!(routed.matched, "时间");
    assert_eq!(routed.raw, "时间");
    assert_eq!(routed.user_command, "@时间");
    assert_eq!(routed.message_type, "pink");
    assert_eq!(routed.username, "友");
    assert_eq!(routed.authority, CommandAuthority::Friend);
    assert_eq!(routed.observation, seen);
    assert!(matches!(routed.command, ModuleCommand::Hall(HallCommand::Time)));

    let console = RoutedCommand::console("时间", "时间", ModuleCommand::Hall(HallCommand::Time), 7);
    assert_eq!(console.user_command, "@时间");
    assert_eq!(console.username, "控制台");
    assert_eq!(console.message_type, "控制台");
    assert_eq!(console.observation.captured_at, Some(7));
    assert!(console.role.is_none() && console.permission_required.is_none());
}

#[test]
fn locks_and_senders_depend_on_the_feature() {
    let table = |command| card_game(CardGameCommand::Table(command));
    assert!(table(LandlordCommand::Start).requires_hall_sender());
    assert!(table(LandlordCommand::Play("3".to_string())).requires_hall_sender());
    assert!(!table(LandlordCommand::Status).requires_hall_sender());
    assert!(!card_game(CardGameCommand::Retry).requires_hall_sender());
    assert!(table(LandlordCommand::Join).scopes_lock_to_actor());
    assert_eq!(table(LandlordCommand::Join).lock_key(&forms()), "card:key");

    assert!(undercover(UndercoverKind::Other).scopes_lock_to_actor());
    assert!(undercover(UndercoverKind::Other).requires_hall_sender());
    assert!(!undercover(UndercoverKind::Retry).requires_hall_sender());
    assert_eq!(undercover(UndercoverKind::Retry).lock_key(&forms()), "undercover:key");
    for kind in [IdiomChainKind::Start, IdiomChainKind::Submit, IdiomChainKind::Stop] {
        assert!(idiom_chain(kind).requires_hall_sender());
    }
    assert!(!idiom_chain(IdiomChainKind::Other).requires_hall_sender());
    assert!(!idiom_chain(IdiomChainKind::Start).scopes_lock_to_actor());
    assert_eq!(idiom_chain(IdiomChainKind::Stop).lock_key(&forms()), "idiom:key");
    assert!(turtle_soup(TurtleSoupKind::Start).requires_hall_sender());
    assert!(!turtle_soup(TurtleSoupKind::Other).requires_hall_sender());
    assert_eq!(turtle_soup(TurtleSoupKind::Start).lock_key(&forms()), "soup:key");
    assert!(ModuleCommand::Invite(request()).requires_hall_sender());
    assert!(ModuleCommand::Moderation(request()).requires_hall_sender());
    assert!(!ModuleCommand::SongRequest(request()).requires_hall_sender());
    assert!(!ModuleCommand::Playback(request()).requires_hall_sender());
    assert!(!ModuleCommand::Hall(HallCommand::Time).requires_hall_sender());
    let help = ModuleCommand::Administration(AdministrationCommand::Help);
    assert!(!help.requires_hall_sender());
    assert_eq!(help.lock_key(&forms()), AdministrationCommand::Help.lock_key());
    let time = ModuleCommand::Hall(HallCommand::Time);
    assert_eq!(time.lock_key(&forms()), HallCommand::Time.lock_key("友"));
    assert_eq!(ModuleCommand::Playback(request()).lock_key(&forms()), "feature:key");
}
