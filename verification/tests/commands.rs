use kovi_plugins::command::{command_of, super_user_verdict, BotCommand, BotCommandBuilder, CommandRoute};
use kovi_plugins::emoji::{
    attack_emoji, get_targets, mark_reply, monkey_command, quoted_messages, register_cmd,
    EmojiAttackConfig, EmojiAttackData, MarkOp, MonkeyCmd,
};
use kovi_plugins::event::{ChatEvent, Segment};
use kovi_plugins::qq_tools::{fetch_failed_reply, raw_msg_step, register_tool_cmd, QQToolsConfig, RawMsgStep};
use kovi_plugins::shell::register_shell_cmd;
use std::collections::HashSet;
use std::time::Duration;

fn seg(kind: &str, key: &str, value: &str) -> Segment {
    Segment { kind: kind.to_string(), data: vec![(key.to_string(), value.to_string())] }
}

fn event(group: Option<i64>, message: Vec<Segment>) -> ChatEvent {
    ChatEvent { self_id: 10, user_id: 20, group_id: group, text: None, message }
}

fn command(text: &str, group: Option<i64>, message: Vec<Segment>) -> BotCommand {
    BotCommand::from_str(text, event(group, message))
}

#[test]
fn from_str_splits_words() {
    let c = command("  $monkey  add\t123 ", Some(1), vec![]);
    assert_eq!(c.cmd, "$monkey");
    assert_eq!(c.args, vec!["add".to_string(), "123".to_string()]);
    assert!(c.is_for("$monkey"));
    assert!(!c.is_for("$shell"));
    let lone = command("$raw_msg", None, vec![]);
    assert!(lone.args.is_empty());
}

#[test]
fn registry_routes_commands() {
    let mut b = BotCommandBuilder::new();
    register_tool_cmd(&mut b);
    register_cmd(&mut b);
    register_shell_cmd(&mut b);
    b.on_super_command("$unban");
    b.on_common_command("$both");
    b.on_super_command("$both");
    assert!(matches!(b.route("$raw_msg", true), CommandRoute::Exec));
    assert!(matches!(b.route("$monkey", true), CommandRoute::NeedSuperUser));
    assert!(matches!(b.route("$both", true), CommandRoute::NeedSuperUser));
    assert!(matches!(b.route("$nope", true), CommandRoute::Unknown));
    assert!(matches!(b.route("$raw_msg", false), CommandRoute::OutOfContext));
    let c = command("$shell new", Some(1), vec![]);
    assert!(matches!(c.invoke_command(&b, true), CommandRoute::NeedSuperUser));
    assert!(matches!(super_user_verdict(true), CommandRoute::Exec));
    assert!(matches!(super_user_verdict(false), CommandRoute::Denied));
}

#[test]
fn emoji_wait_defaults_to_300ms() {
    let mut c = EmojiAttackConfig { allow_monkey_groups: HashSet::new(), emoji: vec![], wait_ms: None };
    assert_eq!(c.wait_duration(), Duration::from_millis(300));
    c.wait_ms = Some(50);
    assert_eq!(c.wait_duration(), Duration::from_millis(50));
}

#[test]
fn marks_stop_at_first_change() {
    let mut d = EmojiAttackData::new();
    assert!(d.apply_mark(MarkOp::Add, 1, &vec![5, 6]));
    let cfg = EmojiAttackConfig { allow_monkey_groups: HashSet::from([1]), emoji: vec![], wait_ms: None };
    assert!(d.should_react(&cfg, 1, 5));
    assert!(!d.should_react(&cfg, 1, 6));
    assert!(d.apply_mark(MarkOp::Add, 1, &vec![5, 6]));
    assert!(d.should_react(&cfg, 1, 6));
    assert!(!d.apply_mark(MarkOp::Add, 1, &vec![5, 6]));
    assert!(!d.apply_mark(MarkOp::Add, 1, &vec![]));
    assert!(d.apply_mark(MarkOp::Del, 1, &vec![7, 6, 5]));
    assert!(!d.should_react(&cfg, 1, 6));
    assert!(d.should_react(&cfg, 1, 5));
    assert!(!d.apply_mark(MarkOp::Del, 1, &vec![7]));
    assert!(d.apply_mark(MarkOp::Clean, 1, &vec![]));
    assert!(!d.should_react(&cfg, 1, 5));
    assert_eq!(mark_reply(true), "操作成功喵！");
    assert_eq!(mark_reply(false), "操作失败喵！");
}

#[test]
fn mark_then_unmark_law_on_values() {
    let mut d = EmojiAttackData::new();
    let cfg = EmojiAttackConfig { allow_monkey_groups: HashSet::from([1]), emoji: vec![], wait_ms: None };
    d.apply_mark(MarkOp::Add, 1, &vec![3]);
    d.apply_mark(MarkOp::Add, 1, &vec![4]);
    d.apply_mark(MarkOp::Add, 1, &vec![3]);
    d.apply_mark(MarkOp::Del, 1, &vec![3]);
    assert!(!d.should_react(&cfg, 1, 3));
    assert!(d.should_react(&cfg, 1, 4));
}

#[test]
fn reactions_need_an_allowed_group() {
    let mut d = EmojiAttackData::new();
    d.apply_mark(MarkOp::Add, 2, &vec![5]);
    let cfg = EmojiAttackConfig { allow_monkey_groups: HashSet::from([1]), emoji: vec![], wait_ms: None };
    assert!(!d.should_react(&cfg, 2, 5));
}

#[test]
fn targets_of_marking_commands() {
    let c = command("$monkey add 30 x 40", Some(1), vec![seg("at", "qq", "10"), seg("at", "qq", "11")]);
    assert_eq!(get_targets(&c), vec![11, 30, 40]);
    let c = command("$monkey", Some(1), vec![seg("at", "qq", "12")]);
    assert_eq!(get_targets(&c), vec![12]);
}

#[test]
fn monkey_subcommands() {
    assert!(matches!(monkey_command(&command("$monkey add 1", Some(1), vec![])), MonkeyCmd::Mark(MarkOp::Add)));
    assert!(matches!(monkey_command(&command("$monkey del", Some(1), vec![])), MonkeyCmd::Mark(MarkOp::Del)));
    assert!(matches!(monkey_command(&command("$monkey clean", Some(1), vec![])), MonkeyCmd::Mark(MarkOp::Clean)));
    assert!(matches!(monkey_command(&command("$monkey atk", Some(1), vec![])), MonkeyCmd::Atk));
    assert!(matches!(monkey_command(&command("$monkey once", Some(1), vec![])), MonkeyCmd::Once));
    assert!(matches!(monkey_command(&command("$monkey", Some(1), vec![])), MonkeyCmd::Ignore));
    assert!(matches!(monkey_command(&command("$monkey add", None, vec![])), MonkeyCmd::Ignore));
    assert!(matches!(monkey_command(&command("$monkey boom", Some(1), vec![])), MonkeyCmd::Ignore));
}

#[test]
fn attack_emoji_lists() {
    let cfg = EmojiAttackConfig { allow_monkey_groups: HashSet::new(), emoji: vec!["66".to_string(), "76".to_string()], wait_ms: None };
    let expected: Vec<String> = (1..=21).filter(|x| *x != 17).map(|x: i32| x.to_string()).collect();
    assert_eq!(attack_emoji(&MonkeyCmd::Atk, &cfg), expected);
    assert_eq!(attack_emoji(&MonkeyCmd::Once, &cfg), cfg.emoji);
    assert!(attack_emoji(&MonkeyCmd::Ignore, &cfg).is_empty());
    let c = command("$monkey atk", Some(1), vec![seg("reply", "id", "99"), seg("reply", "id", "x"), seg("reply", "id", "-5")]);
    assert_eq!(quoted_messages(&c), vec![99, -5]);
}

#[test]
fn raw_msg_steps() {
    let cfg = QQToolsConfig { allow_exec_groups: HashSet::from([1]) };
    assert!(matches!(raw_msg_step(&cfg, &command("$raw_msg", None, vec![])), RawMsgStep::Ignore));
    assert!(matches!(raw_msg_step(&cfg, &command("$raw_msg", Some(2), vec![seg("reply", "id", "3")])), RawMsgStep::Ignore));
    assert!(matches!(raw_msg_step(&cfg, &command("$raw_msg", Some(1), vec![])), RawMsgStep::NotFound));
    assert!(matches!(
        raw_msg_step(&cfg, &command("$raw_msg", Some(1), vec![seg("reply", "id", "99999999999"), seg("reply", "id", "42")])),
        RawMsgStep::Fetch { group_id: 1, msg_id: 42 }
    ));
    assert_eq!(fetch_failed_reply("timeout"), "坏掉了喵: timeout");
}

#[test]
fn only_dollar_texts_are_commands() {
    assert!(command_of("hello $shell", event(Some(1), vec![])).is_none());
    assert!(command_of("", event(Some(1), vec![])).is_none());
    let c = command_of("$shell  lock 3", event(Some(1), vec![])).expect("a command");
    assert_eq!(c.cmd, "$shell");
    assert_eq!(c.args, vec!["lock", "3"]);
    let c = command_of("$", event(None, vec![])).expect("a command");
    assert_eq!(c.cmd, "$");
    assert!(c.args.is_empty());
}
