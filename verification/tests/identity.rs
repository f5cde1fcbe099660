//! Names and the people behind them.
use miliastra::identity::IdentityAccess;
use miliastra::identity::IdentityConfig;
use miliastra::identity::IdentityMapping;
use miliastra::identity::IdentityRole;

fn mapping(nickname: &str, id: u128, role: IdentityRole) -> IdentityMapping {
    IdentityMapping { nickname: nickname.to_owned(), id, role, note: String::new() }
}

fn sample_config() -> IdentityConfig {
    let mut owner = mapping("派蒙本蒙", 1, IdentityRole::Owner);
    owner.note = "主人备注".to_string();
    IdentityConfig {
        mappings: vec![
            owner,
            mapping("管理小助手", 2, IdentityRole::Admin),
            mapping("好友甲", 3, IdentityRole::Friend),
        ],
    }
}

#[test]
fn resolve_matches_exactly_and_never_maps_unknown() {
    let access = IdentityAccess::new(sample_config());
    let owner = access.resolve("派蒙本蒙").expect("主人应被解析");
    assert_eq!(owner.id, 1);
    assert_eq!(owner.role, IdentityRole::Owner);
    assert_eq!(owner.display_name(), "主人备注");
    assert_eq!(access.display_name("管理小助手"), "管理小助手");
    assert_eq!(access.display_name("主人备注"), "主人备注");
    assert_eq!(access.role_of("主人备注"), None);
    assert_eq!(access.display_name("陌生人"), "陌生人");
    assert!(access.resolve("派蒙本蒙 ").is_none(), "尾部空白不模糊匹配");
    assert!(access.resolve("陌生人").is_none(), "未知昵称不映射");
    assert_eq!(access.canonical_name("派蒙本蒙"), "派蒙本蒙");
    assert_eq!(access.canonical_name("陌生人"), "陌生人");
}

#[test]
fn replace_display_names_maps_longest_names_and_preserves_unknown_text() {
    let mut config = sample_config();
    config.mappings.push(IdentityMapping {
        nickname: "好友".to_string(),
        id: 4,
        role: IdentityRole::Friend,
        note: "短备注".to_string(),
    });
    let access = IdentityAccess::new(config);
    assert_eq!(
        access.replace_display_names("@派蒙本蒙的请求,@好友甲已处理,陌生人"),
        "@主人备注的请求,@短备注甲已处理,陌生人"
    );
    assert_eq!(access.replace_display_names("好友甲好友"), "短备注甲短备注");
}

#[test]
fn the_longest_of_several_names_is_shown() {
    let noted = |nickname: &str, id: u128, note: &str| IdentityMapping {
        nickname: nickname.to_string(),
        id,
        role: IdentityRole::Friend,
        note: note.to_string(),
    };
    let access = IdentityAccess::new(IdentityConfig {
        mappings: vec![noted("好友", 1, "短"), noted("好友甲", 2, " 长 "), noted("好友甲", 3, "后")],
    });
    assert_eq!(access.replace_display_names("好友甲和好友乙"), "长和短乙");
    assert_eq!(access.replace_display_names(""), "");
}

#[test]
fn replace_display_names_ignores_empty_notes() {
    let access = IdentityAccess::new(sample_config());
    assert_eq!(
        access.replace_display_names("管理小助手和好友甲"),
        "管理小助手和好友甲"
    );
}

#[test]
fn role_hierarchy_includes_lower_levels() {
    let access = IdentityAccess::new(sample_config());
    assert!(access.is_owner("派蒙本蒙"));
    assert!(access.is_admin_or_above("派蒙本蒙"));
    assert!(access.is_friend_or_above("派蒙本蒙"));
    assert!(!access.is_owner("管理小助手"));
    assert!(access.is_admin_or_above("管理小助手"));
    assert!(access.is_friend_or_above("管理小助手"));
    assert!(!access.is_admin_or_above("好友甲"));
    assert!(access.is_friend_or_above("好友甲"));
    assert!(!access.is_friend_or_above("陌生人"));
}

#[test]
fn replace_takes_effect_immediately() {
    let mut access = IdentityAccess::new(IdentityConfig::default());
    assert!(access.resolve("派蒙本蒙").is_none());
    access.replace(sample_config());
    assert!(access.is_owner("派蒙本蒙"));
}

#[test]
fn validate_rejects_duplicate_nickname_uuid_and_multiple_owners() {
    let duplicate = IdentityConfig {
        mappings: vec![
            mapping("甲", 1, IdentityRole::Friend),
            mapping("甲", 2, IdentityRole::Friend),
        ],
    };
    assert_eq!(duplicate.validate(), Err("identity.mappings 昵称重复: 甲".to_string()));

    let duplicate_id = IdentityConfig {
        mappings: vec![
            mapping("甲", 9, IdentityRole::Friend),
            mapping("乙", 9, IdentityRole::Friend),
        ],
    };
    assert!(duplicate_id.validate().is_err(), "UUID 全局唯一，重复须拒绝");

    let two_owners = IdentityConfig {
        mappings: vec![
            mapping("甲", 1, IdentityRole::Owner),
            mapping("乙", 2, IdentityRole::Owner),
        ],
    };
    assert_eq!(
        two_owners.validate(),
        Err("identity.mappings 最多允许一位主人（owner），当前 2 位".to_string())
    );

    let unnamed = IdentityConfig { mappings: vec![mapping(" ", 1, IdentityRole::Friend)] };
    assert_eq!(unnamed.validate(), Err("identity.mappings 存在空昵称".to_string()));

    assert!(sample_config().validate().is_ok());
    assert!(IdentityConfig::default().validate().is_ok());
}

#[test]
fn a_number_that_stands_twice_is_written_in_groups() {
    let id = 0x936d_a01f_9abd_4d9d_80c7_02af_85c8_22a8;
    let config = IdentityConfig {
        mappings: vec![
            mapping("甲", id, IdentityRole::Friend),
            mapping("乙", id, IdentityRole::Friend),
        ],
    };
    assert_eq!(
        config.validate(),
        Err("identity.mappings UUID 重复: 936da01f-9abd-4d9d-80c7-02af85c822a8".to_string())
    );
    assert_eq!(
        config.validate().unwrap_err(),
        format!("identity.mappings UUID 重复: {}", uuid::Uuid::from_u128(id))
    );
}
