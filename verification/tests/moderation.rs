use kovi_plugins::bot_check::{
    invite_applies, is_group_request, member_activity_excuses, on_chat, on_unban, try_on_chat,
    screen_invite, screen_invite_member, screen_invite_user, user_level_excuses, BanConfig, BanData,
    ChatBanAction, InviteAction, InviteBanConfig, InviteStep,
};
use kovi_plugins::command::BotCommand;
use kovi_plugins::event::{ChatEvent, Segment};
use std::collections::HashSet;
use std::time::Duration;

fn config(patterns: &[&str]) -> BanConfig {
    let mut c = BanConfig::new();
    c.enable_group = HashSet::from([100]);
    let sources: Vec<String> = patterns.iter().map(|s| s.to_string()).collect();
    c.chat_regex_list = BanConfig::load_regex_list(&sources);
    c
}

fn at(qq: &str) -> Segment {
    Segment { kind: "at".to_string(), data: vec![("qq".to_string(), qq.to_string())] }
}

fn group_event(group: Option<i64>, message: Vec<Segment>) -> ChatEvent {
    ChatEvent { self_id: 1, user_id: 2, group_id: group, text: None, message }
}

#[test]
fn shut_up_duration_is_capped() {
    let mut c = BanConfig::new();
    assert_eq!(c.chat_shut_up_duration(), Duration::from_secs(2332799));
    c.chat_shut_up_time = Some(60);
    assert_eq!(c.chat_shut_up_duration(), Duration::from_secs(60));
    c.chat_shut_up_time = Some(99_999_999);
    assert_eq!(c.chat_shut_up_duration(), Duration::from_secs(2332799));
    assert_eq!(c.chat_shut_up_secs(), 2332799);
}

#[test]
fn kick_can_request_defaults_to_true() {
    let mut c = BanConfig::new();
    assert!(c.kick_can_request_or_default());
    c.kick_can_request = Some(false);
    assert!(!c.kick_can_request_or_default());
}

#[test]
fn invalid_patterns_are_skipped() {
    let c = config(&["(", "fo+", "[z-a]", "bar$"]);
    let kept: Vec<String> = c.chat_regex_list.iter().map(|p| p.source().clone()).collect();
    assert_eq!(kept, vec!["fo+".to_string(), "bar$".to_string()]);
}

#[test]
fn regex_hits() {
    let c = config(&["fo+", "^bad"]);
    assert!(c.hit_by_regex("xxfoooo"));
    assert!(c.hit_by_regex("bad word"));
    assert!(!c.hit_by_regex("a bad word"));
    assert!(!c.hit_by_regex("f"));
    assert!(!config(&[]).hit_by_regex("anything"));
}

#[test]
fn chat_hits_escalate_to_ban_then_kick() {
    let mut c = config(&["spam"]);
    c.enable_chat_shut_up = Some(2);
    c.enable_chat_kick = Some(3);
    c.chat_shut_up_time = Some(600);
    let mut d = BanData::new();
    let a1 = on_chat(&c, &mut d, 100, 7, "spam!");
    assert!(matches!(a1, ChatBanAction::Warn));
    assert_eq!(a1.notice(7), Some("爆了".to_string()));
    assert_eq!(d.chat_times(100, 7), 1);
    let a2 = on_chat(&c, &mut d, 100, 7, "more spam");
    assert!(matches!(a2, ChatBanAction::Ban { secs: 600, times: 2 }));
    assert_eq!(
        a2.notice(7),
        Some("用户7 因为触发违禁词达到次数2 已被封禁600s！如需申诉请联系管理员 (哈气)".to_string())
    );
    let a3 = on_chat(&c, &mut d, 100, 7, "spam");
    assert!(matches!(a3, ChatBanAction::Kick { can_request: true, times: 3 }));
    assert_eq!(
        a3.notice(7),
        Some("用户7 因为触发违禁词达到次数3 已被踢出！！如需申诉请联系管理员 (哈气)".to_string())
    );
    assert_eq!(d.chat_times(100, 7), 0);
}

#[test]
fn chat_outside_moderated_groups_or_without_hit_does_nothing() {
    let mut c = config(&["spam"]);
    c.enable_chat_kick = Some(1);
    let mut d = BanData::new();
    assert!(matches!(on_chat(&c, &mut d, 200, 7, "spam"), ChatBanAction::Nothing));
    assert!(matches!(on_chat(&c, &mut d, 100, 7, "hello"), ChatBanAction::Nothing));
    assert_eq!(d.chat_times(200, 7), 0);
    assert_eq!(d.chat_times(100, 7), 0);
}

#[test]
fn chat_hit_without_thresholds_only_counts() {
    let c = config(&["spam"]);
    let mut d = BanData::new();
    let a = on_chat(&c, &mut d, 100, 7, "spam");
    assert!(matches!(a, ChatBanAction::Nothing));
    assert_eq!(a.notice(7), None);
    assert_eq!(d.chat_times(100, 7), 1);
}

#[test]
fn try_on_chat_refuses_saturated_counter() {
    let c = config(&["spam"]);
    let mut d = BanData::new();
    d.chat_action_times.entry(100).or_default().insert(7, i32::MAX);
    assert!(try_on_chat(&c, &mut d, 100, 7, "spam").is_none());
    assert_eq!(d.chat_times(100, 7), i32::MAX);
    assert!(matches!(try_on_chat(&c, &mut d, 100, 7, "ok"), Some(ChatBanAction::Nothing)));
}

#[test]
fn invite_screening() {
    assert!(is_group_request("group"));
    assert!(!is_group_request("friend"));
    let mut c = BanConfig::new();
    c.enable_group = HashSet::from([100]);
    assert!(invite_applies(&c, "invite", 100));
    assert!(!invite_applies(&c, "add", 100));
    assert!(!invite_applies(&c, "invite", 101));
    assert!(member_activity_excuses(&c, "1"));
    assert!(user_level_excuses(&c, 0));
    c.enable_invite_ban = Some(InviteBanConfig { min_level: Some(10), min_activate: Some(5) });
    assert!(member_activity_excuses(&c, "5"));
    assert!(!member_activity_excuses(&c, "4"));
    assert!(member_activity_excuses(&c, "lv4"));
    assert!(user_level_excuses(&c, 10));
    assert!(!user_level_excuses(&c, 9));
}

#[test]
fn invites_are_counted_and_kick_at_threshold() {
    let mut c = BanConfig::new();
    c.enable_invite_kick = Some(2);
    c.kick_can_request = Some(false);
    let mut d = BanData::new();
    let a1 = d.record_invite(&c, 100, 9);
    assert!(matches!(a1, InviteAction::Notify { times: 1 }));
    assert_eq!(a1.notice(9), Some("用户9 邀请群成员达到次数1".to_string()));
    let a2 = d.record_invite(&c, 100, 9);
    assert!(matches!(a2, InviteAction::Kick { can_request: false, times: 2 }));
    assert_eq!(
        a2.notice(9),
        Some("用户9 因为邀请群成员达到次数2 已被踢出！如需申诉请联系管理员".to_string())
    );
    assert_eq!(d.invite_times(100, 9), 2);
    let none = BanConfig::new();
    assert!(matches!(d.record_invite(&none, 100, 9), InviteAction::Nothing));
}

#[test]
fn unban_clears_counters_of_named_users() {
    let mut d = BanData::new();
    let c = config(&["x"]);
    on_chat(&c, &mut d, 100, 5, "x");
    on_chat(&c, &mut d, 100, 6, "x");
    d.record_invite(&c, 100, 5);
    let e = group_event(Some(100), vec![at("5")]);
    let cmd = BotCommand { cmd: "$unban".to_string(), args: vec!["8".to_string(), "oops".to_string()], event: e };
    let targets = on_unban(&mut d, &cmd);
    assert_eq!(targets, vec![5, 8]);
    assert_eq!(d.chat_times(100, 5), 0);
    assert_eq!(d.invite_times(100, 5), 0);
    assert_eq!(d.chat_times(100, 6), 1);
    let outside = BotCommand { cmd: "$unban".to_string(), args: vec!["6".to_string()], event: group_event(None, vec![]) };
    assert!(on_unban(&mut d, &outside).is_empty());
    assert_eq!(d.chat_times(100, 6), 1);
}

#[test]
fn reset_user_law_on_values() {
    let mut d = BanData::new();
    let c = config(&["x"]);
    on_chat(&c, &mut d, 100, 2, "x");
    on_chat(&c, &mut d, 100, 3, "x");
    assert_eq!(d.chat_times(100, 2), 1);
    d.reset_user(100, 2);
    assert_eq!(d.chat_times(100, 2), 0);
    assert_eq!(d.chat_times(100, 3), 1);
}

#[test]
fn invite_is_counted_only_after_all_screens() {
    let mut c = BanConfig::new();
    c.enable_group = HashSet::from([100]);
    assert!(matches!(screen_invite(&c, "friend", "invite", 100), InviteStep::Pass));
    assert!(matches!(screen_invite(&c, "group", "add", 100), InviteStep::Pass));
    assert!(matches!(screen_invite(&c, "group", "invite", 101), InviteStep::Pass));
    assert!(matches!(screen_invite(&c, "group", "invite", 100), InviteStep::FetchMember));
    assert!(matches!(screen_invite_member(&c, "1"), InviteStep::Pass));
    assert!(matches!(screen_invite_user(&c, 0), InviteStep::Pass));
    c.enable_invite_ban = Some(InviteBanConfig { min_level: Some(10), min_activate: Some(5) });
    assert!(matches!(screen_invite_member(&c, "5"), InviteStep::Pass));
    assert!(matches!(screen_invite_member(&c, "x"), InviteStep::Pass));
    assert!(matches!(screen_invite_member(&c, "4"), InviteStep::FetchUser));
    assert!(matches!(screen_invite_user(&c, 10), InviteStep::Pass));
    assert!(matches!(screen_invite_user(&c, 9), InviteStep::Count));
}
