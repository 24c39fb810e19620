use kovi_plugins::chat::{
    at_me_step, first_choice_content, part_pause_ms, reply_plan, method_me_reply, route_by_text, route_group_chat,
    smart_question, AtMeStep, ChatConfig, ChatMessage, ChatModelCallConfig, ChatRoute,
    ChatRouteError, NyaCatMemory, SyncControl,
};
use kovi_plugins::dev_utils::get_at_targets;
use kovi_plugins::event::{ChatEvent, Segment};
use kovi_plugins::text::split_at_tag;
use std::collections::HashSet;

fn model(max: usize, exp: u64) -> ChatModelCallConfig {
    ChatModelCallConfig {
        key: String::new(),
        endpoint: String::new(),
        max_tokens: 100,
        role_model: "m".to_string(),
        role_prompt: "你是一只猫娘".to_string(),
        role_context_expiration_time_second: exp,
        role_max_message: max,
        dot_wait_tag: String::new(),
        dot_wait_time_ms: 0,
        dot_wait_pre_char_ms: None,
        smart_model: "s".to_string(),
        smart_prompt: "请回答".to_string(),
    }
}

fn seg(kind: &str, key: &str, value: &str) -> Segment {
    Segment { kind: kind.to_string(), data: vec![(key.to_string(), value.to_string())] }
}

fn event(group: Option<i64>, text: Option<&str>, message: Vec<Segment>) -> ChatEvent {
    ChatEvent { self_id: 10, user_id: 20, group_id: group, text: text.map(|s| s.to_string()), message }
}

fn texts(v: &[ChatMessage]) -> Vec<String> {
    v.iter()
        .map(|m| match m {
            ChatMessage::System(s) => format!("S:{s}"),
            ChatMessage::User(s) => format!("U:{s}"),
            ChatMessage::Assistant(s) => format!("A:{s}"),
        })
        .collect()
}

#[test]
fn switch_reads_back() {
    let mut s = SyncControl::new();
    assert!(s.running());
    s.set_bot_run(false);
    assert!(!s.running());
    s.set_bot_run(true);
    assert!(s.running());
}

#[test]
fn at_targets_are_read_from_at_segments() {
    let e = event(Some(1), None, vec![
        seg("at", "qq", "10"),
        seg("text", "text", "hi"),
        seg("at", "qq", "all"),
        seg("at", "name", "5"),
        seg("at", "qq", "-3"),
    ]);
    assert_eq!(get_at_targets(&e), vec![10, -3]);
}

#[test]
fn routing_group_messages() {
    let cfg = ChatConfig { allow_groups: HashSet::from([1]), model: model(5, 60) };
    assert!(matches!(route_group_chat(&cfg, &event(None, Some("x"), vec![])), Err(ChatRouteError::NoGroupId)));
    assert!(matches!(route_group_chat(&cfg, &event(Some(2), Some("x"), vec![])), Ok(ChatRoute::Ignore)));
    assert!(matches!(route_group_chat(&cfg, &event(Some(1), Some("x"), vec![seg("at", "qq", "10")])), Ok(ChatRoute::AtMe)));
    assert!(matches!(route_group_chat(&cfg, &event(Some(1), Some("x"), vec![seg("at", "qq", "11")])), Ok(ChatRoute::NeedBotInfo)));
    let e = event(Some(1), Some("小白你好"), vec![]);
    assert!(matches!(route_by_text(&e, Some("小白")), ChatRoute::CallMe));
    assert!(matches!(route_by_text(&e, None), ChatRoute::Ignore));
    let e2 = event(Some(1), Some("这只猫娘"), vec![]);
    assert!(matches!(route_by_text(&e2, Some("小白")), ChatRoute::MethodMe));
    assert!(matches!(route_by_text(&event(Some(1), None, vec![]), Some("")), ChatRoute::Ignore));
    assert_eq!(method_me_reply(true), Some("是不是有人叫我喵"));
    assert_eq!(method_me_reply(false), None);
}

#[test]
fn at_me_steps() {
    assert!(matches!(at_me_step(&event(Some(1), None, vec![]), true), AtMeStep::Ignore));
    assert!(matches!(at_me_step(&event(Some(1), Some("$shell"), vec![]), true), AtMeStep::Ignore));
    assert!(matches!(at_me_step(&event(Some(1), Some("hi"), vec![]), false), AtMeStep::Ignore));
    assert!(matches!(at_me_step(&event(Some(1), Some(""), vec![]), true), AtMeStep::AskWhat));
    match at_me_step(&event(Some(1), Some("在吗"), vec![]), true) {
        AtMeStep::Ask { ctx_id, question } => {
            assert_eq!(ctx_id, 1);
            assert_eq!(question, "在吗");
        }
        _ => panic!("expected a question"),
    }
    match at_me_step(&event(None, Some("hi"), vec![]), true) {
        AtMeStep::Ask { ctx_id, .. } => assert_eq!(ctx_id, 20),
        _ => panic!("expected a question"),
    }
}

#[test]
fn memory_keeps_a_window() {
    let m = model(2, 100);
    let mut mem = NyaCatMemory::new();
    let r1 = mem.load_mem(&m, 1, "q1", 1000);
    assert_eq!(texts(&r1), vec!["S:你是一只猫娘", "U:q1"]);
    mem.save_mem(1, "a1", 1001);
    let r2 = mem.load_mem(&m, 1, "q2", 1002);
    assert_eq!(texts(&r2), vec!["S:你是一只猫娘", "A:a1", "U:q2"]);
    let r3 = mem.load_mem(&m, 2, "other", 1002);
    assert_eq!(texts(&r3), vec!["S:你是一只猫娘", "U:other"]);
    assert_eq!(mem.messages(1).len(), 2);
}

#[test]
fn memory_forgets_old_messages() {
    let m = model(10, 60);
    let mut mem = NyaCatMemory::new();
    mem.load_mem(&m, 1, "old", 1000);
    mem.save_mem(1, "old answer", 1010);
    let r = mem.load_mem(&m, 1, "new", 1065);
    assert_eq!(texts(&r), vec!["S:你是一只猫娘", "A:old answer", "U:new"]);
    let r = mem.load_mem(&m, 1, "newer", 2000);
    assert_eq!(texts(&r), vec!["S:你是一只猫娘", "U:newer"]);
    assert!(mem.clock_consistent(1, 2000));
    assert!(!mem.clock_consistent(1, 1999));
}

#[test]
fn zero_window_forgets_everything() {
    let m = model(0, 60);
    let mut mem = NyaCatMemory::new();
    let r = mem.load_mem(&m, 1, "q", 5);
    assert_eq!(texts(&r), vec!["S:你是一只猫娘"]);
    assert!(mem.messages(1).is_empty());
}

#[test]
fn clean_forgets_all() {
    let m = model(3, 60);
    let mut mem = NyaCatMemory::new();
    mem.load_mem(&m, 1, "q", 5);
    mem.save_mem(2, "a", 5);
    mem.clean();
    assert!(mem.messages(1).is_empty());
    assert!(mem.messages(2).is_empty());
}

#[test]
fn model_questions_and_answers() {
    assert_eq!(smart_question(&model(1, 1), "1+1?"), "请回答\n1+1?");
    assert_eq!(first_choice_content(&vec![]), None);
    assert_eq!(first_choice_content(&vec![None, Some("x".to_string())]), None);
    assert_eq!(first_choice_content(&vec![Some("喵".to_string())]), Some("喵".to_string()));
}

#[test]
fn split_at_tag_cuts_at_each_separator() {
    assert_eq!(split_at_tag("喵。喵喵。", "。"), vec!["喵", "喵喵", ""]);
    assert_eq!(split_at_tag("a||b|c", "||"), vec!["a", "b|c"]);
    assert_eq!(split_at_tag("aaa", "aa"), vec!["", "a"]);
    assert_eq!(split_at_tag("no tag", ""), vec!["no tag"]);
    assert_eq!(split_at_tag("", "|"), vec![""]);
    let parts = split_at_tag("x|y|z", "|");
    assert_eq!(parts.join("|"), "x|y|z");
}

#[test]
fn pauses_grow_with_part_length() {
    let mut m = model(3, 10);
    m.dot_wait_time_ms = 300;
    assert_eq!(part_pause_ms(&m, 5), 300);
    m.dot_wait_pre_char_ms = Some(20);
    assert_eq!(part_pause_ms(&m, 5), 400);
    assert_eq!(part_pause_ms(&m, 0), 300);
    m.dot_wait_pre_char_ms = Some(u64::MAX);
    assert_eq!(part_pause_ms(&m, 2), u64::MAX);
}

#[test]
fn long_answers_become_several_messages() {
    let mut m = model(3, 10);
    m.dot_wait_tag = "|".to_string();
    m.dot_wait_time_ms = 100;
    m.dot_wait_pre_char_ms = Some(10);
    let plan = reply_plan(&m, "你好|今天天气不错喵");
    assert_eq!(plan, vec![("你好".to_string(), 120), ("今天天气不错喵".to_string(), 170)]);
    m.dot_wait_tag = String::new();
    let plan = reply_plan(&m, "a|b");
    assert_eq!(plan, vec![("a|b".to_string(), 130)]);
}
