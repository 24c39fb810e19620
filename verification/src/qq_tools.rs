//! The tools plugin: `$raw_msg` shows the raw form of a quoted message.
use vstd::prelude::*;
use vstd::string::StringExecFns;
use std::collections::HashSet;
use crate::command::{BotCommand, BotCommandBuilder};
use crate::event::{first_segment_i32, first_segment_i32_exec};

verus! {

broadcast use vstd::std_specs::hash::group_hash_axioms;

/// Settings of the tools plugin.
pub struct QQToolsConfig {
    /// Groups where the tools may be used.
    pub allow_exec_groups: HashSet<i64>,
}

/// Registers `$raw_msg` as a command anyone may use.
pub fn register_tool_cmd(b: &mut BotCommandBuilder)
    ensures
        final(b).common_names() == old(b).common_names().insert("$raw_msg"@),
        final(b).super_names() == old(b).super_names(),
{
    b.on_common_command("$raw_msg");
}

/// What `$raw_msg` does.
pub enum RawMsgStep {
    /// Nothing: not in a group, or not in an allowed one.
    Ignore,
    /// Say that no quoted message was found.
    NotFound,
    /// Fetch message `msg_id` and post its raw form to `group_id`.
    Fetch { group_id: i64, msg_id: i32 },
}

pub open spec fn raw_msg_spec(cfg: QQToolsConfig, c: BotCommand) -> RawMsgStep {
    match c.event.group_id {
        None => RawMsgStep::Ignore,
        Some(g) => if !cfg.allow_exec_groups@.contains(g) {
            RawMsgStep::Ignore
        } else {
            match first_segment_i32(c.event.message@, "reply"@, "id"@) {
                Some(id) => RawMsgStep::Fetch { group_id: g, msg_id: id },
                None => RawMsgStep::NotFound,
            }
        },
    }
}

/// Decides what `$raw_msg` does: in an allowed group, the first quoted
/// message whose id reads as an `i32` is fetched.
pub fn raw_msg_step(cfg: &QQToolsConfig, c: &BotCommand) -> (r: RawMsgStep)
    ensures
        r == raw_msg_spec(*cfg, *c),
{
    let g = match c.event.group_id {
        Some(g) => g,
        None => {
            return RawMsgStep::Ignore;
        },
    };
    if !cfg.allow_exec_groups.contains(&g) {
        return RawMsgStep::Ignore;
    }
    match first_segment_i32_exec(&c.event.message, "reply", "id") {
        Some(id) => RawMsgStep::Fetch { group_id: g, msg_id: id },
        None => RawMsgStep::NotFound,
    }
}

/// Reply when no quoted message was found.
pub const NOT_FOUND_REPLY: &'static str = "未找到需要打印的消息喵！";

/// Reply when fetching the message failed with `echo`.
pub fn fetch_failed_reply(echo: &str) -> (r: String)
    ensures
        r@ == "坏掉了喵: "@ + echo@,
{
    let mut s = String::from_str("坏掉了喵: ");
    s.append(echo);
    s
}

} // verus!
