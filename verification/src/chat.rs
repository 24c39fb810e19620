//! The role-play chat plugin: its settings, the on/off switch, the routing
//! of group messages and the per-conversation memory sent to the model.
use vstd::prelude::*;
use vstd::string::StringExecFns;
use std::collections::{HashMap, HashSet};
use crate::event::{ChatEvent, segment_i64s};
use crate::dev_utils::get_at_targets;
use crate::text::{has_prefix, occurs_in, split_at_tag, split_tag, text_contains, text_starts_with, views_of};

verus! {

broadcast use vstd::std_specs::hash::group_hash_axioms;

/// How the chat model is called and how the role-play bot behaves.
pub struct ChatModelCallConfig {
    /// API key of the completion service.
    pub key: String,
    /// Base URL of the completion service.
    pub endpoint: String,
    /// Token limit of one answer.
    pub max_tokens: u16,
    /// Model used for role play.
    pub role_model: String,
    /// System prompt of the role play.
    pub role_prompt: String,
    /// How long a remembered message stays in the conversation, in seconds.
    pub role_context_expiration_time_second: u64,
    /// How many remembered messages a conversation keeps.
    pub role_max_message: usize,
    /// Separator at which long answers are cut into several messages.
    pub dot_wait_tag: String,
    /// Pause between the parts of a long answer, in milliseconds.
    pub dot_wait_time_ms: u64,
    /// When set, the pause also grows with each part's length.
    pub dot_wait_pre_char_ms: Option<u64>,
    /// Model used for plain questions.
    pub smart_model: String,
    /// Prompt put in front of plain questions.
    pub smart_prompt: String,
}

/// Settings of the chat plugin.
pub struct ChatConfig {
    /// Groups the bot talks in.
    pub allow_groups: HashSet<i64>,
    pub model: ChatModelCallConfig,
}

/// The switch that turns the bot's answers on and off (on at start).
pub struct SyncControl {
    live: bool,
}

impl View for SyncControl {
    type V = bool;

    closed spec fn view(&self) -> bool {
        self.live
    }
}

impl SyncControl {
    /// The switch in its initial position: on.
    pub fn new() -> (s: SyncControl)
        ensures
            s@,
    {
        SyncControl { live: true }
    }

    /// Turns answering on or off.
    pub fn set_bot_run(&mut self, run: bool)
        ensures
            final(self)@ == run,
    {
        self.live = run;
    }

    /// Whether the bot answers.
    pub fn running(&self) -> (b: bool)
        ensures
            b == self@,
    {
        self.live
    }
}

// ---------------------------------------------------------------------
// Routing group messages
// ---------------------------------------------------------------------

/// Where a group message goes.
pub enum ChatRoute {
    /// Not for the bot.
    Ignore,
    /// The bot was mentioned: answer the message as a question.
    AtMe,
    /// Look up the bot's nickname, then route by text.
    NeedBotInfo,
    /// The message names the bot: answer it as a question.
    CallMe,
    /// The message speaks of the bot's kind: a short reply.
    MethodMe,
}

/// Why a group message cannot be routed.
pub enum ChatRouteError {
    /// The event carries no group.
    NoGroupId,
}

/// First step of routing a group message: it must come from a group the
/// bot talks in; a message that mentions the bot is answered; for anything
/// else the bot's nickname is needed.
pub fn route_group_chat(cfg: &ChatConfig, e: &ChatEvent) -> (r: Result<ChatRoute, ChatRouteError>)
    ensures
        e.group_id is None ==> r == Err::<ChatRoute, ChatRouteError>(ChatRouteError::NoGroupId),
        e.group_id matches Some(g) ==> r == Ok::<ChatRoute, ChatRouteError>(
            if !cfg.allow_groups@.contains(g) {
                ChatRoute::Ignore
            } else if segment_i64s(e.message@, "at"@, "qq"@).contains(e.self_id) {
                ChatRoute::AtMe
            } else {
                ChatRoute::NeedBotInfo
            },
        ),
{
    let g = match e.group_id {
        Some(g) => g,
        None => {
            return Err(ChatRouteError::NoGroupId);
        },
    };
    if !cfg.allow_groups.contains(&g) {
        return Ok(ChatRoute::Ignore);
    }
    let targets = get_at_targets(e);
    let n = targets.len();
    let mut i: usize = 0;
    while i < n
        invariant
            n == targets@.len(),
            targets@ == segment_i64s(e.message@, "at"@, "qq"@),
            e.group_id == Some(g),
            cfg.allow_groups@.contains(g),
            i <= n,
            forall|k: int| 0 <= k < i ==> targets@[k] != e.self_id,
        decreases n - i,
    {
        if targets[i] == e.self_id {
            assert(targets@.contains(e.self_id));
            return Ok(ChatRoute::AtMe);
        }
        i = i + 1;
    }
    Ok(ChatRoute::NeedBotInfo)
}

pub open spec fn text_has(text: Option<String>, needle: Seq<char>) -> bool {
    match text {
        Some(t) => occurs_in(t@, needle),
        None => false,
    }
}

/// Second step of routing, once the bot's nickname is known (or could not
/// be looked up): a message naming the bot is answered, one speaking of
/// 猫娘 gets a short reply.
pub fn route_by_text(e: &ChatEvent, bot_nickname: Option<&str>) -> (r: ChatRoute)
    ensures
        r == (if bot_nickname matches Some(nick) && text_has(e.text, nick@) {
            ChatRoute::CallMe
        } else if text_has(e.text, "猫娘"@) {
            ChatRoute::MethodMe
        } else {
            ChatRoute::Ignore
        }),
{
    match &e.text {
        Some(t) => {
            match bot_nickname {
                Some(nick) => {
                    if text_contains(t.as_str(), nick) {
                        return ChatRoute::CallMe;
                    }
                },
                None => {},
            }
            if text_contains(t.as_str(), "猫娘") {
                ChatRoute::MethodMe
            } else {
                ChatRoute::Ignore
            }
        },
        None => ChatRoute::Ignore,
    }
}

/// Reply to a message that speaks of the bot's kind.
pub const METHOD_ME_REPLY: &'static str = "是不是有人叫我喵";

/// Reply to a mention without a question.
pub const ASK_WHAT_REPLY: &'static str = "叫我什么事喵？";

/// Reply when the model fails.
pub const MODEL_FAILED_REPLY: &'static str = "不想理你喵";

/// What to do with a message addressed to the bot.
pub enum AtMeStep {
    /// Nothing: a command, no text, or the bot is switched off.
    Ignore,
    /// Ask what the sender wants.
    AskWhat,
    /// Put the question to the model in conversation `ctx_id`.
    Ask { ctx_id: i64, question: String },
}

pub open spec fn at_me_spec(e: ChatEvent, running: bool) -> AtMeStep {
    match e.text {
        None => AtMeStep::Ignore,
        Some(t) => if has_prefix(t@, "$"@) || !running {
            AtMeStep::Ignore
        } else if t@.len() > 0 {
            AtMeStep::Ask {
                ctx_id: match e.group_id {
                    Some(g) => g,
                    None => e.user_id,
                },
                question: t,
            }
        } else {
            AtMeStep::AskWhat
        },
    }
}

/// Decides how to treat a message addressed to the bot: commands (text
/// starting with `$`) and messages without text are left alone, as is
/// everything while the bot is switched off; an empty text gets a "what is
/// it" reply; anything else is a question for the conversation of the group
/// (or of the sender outside groups).
pub fn at_me_step(e: &ChatEvent, running: bool) -> (r: AtMeStep)
    ensures
        r == at_me_spec(*e, running),
{
    match &e.text {
        None => AtMeStep::Ignore,
        Some(t) => {
            if text_starts_with(t.as_str(), "$") || !running {
                AtMeStep::Ignore
            } else if t.as_str().unicode_len() > 0 {
                let ctx_id = match e.group_id {
                    Some(g) => g,
                    None => e.user_id,
                };
                AtMeStep::Ask { ctx_id, question: t.clone() }
            } else {
                AtMeStep::AskWhat
            }
        },
    }
}

/// The reply to a message speaking of the bot's kind, if the bot is on.
pub fn method_me_reply(running: bool) -> (r: Option<&'static str>)
    ensures
        r == (if running {
            Some(METHOD_ME_REPLY)
        } else {
            None
        }),
{
    if running {
        Some(METHOD_ME_REPLY)
    } else {
        None
    }
}

// ---------------------------------------------------------------------
// Questions and answers of the model
// ---------------------------------------------------------------------

/// The text sent for a plain question: the configured prompt, a line
/// break, then the question.
pub fn smart_question(model: &ChatModelCallConfig, q: &str) -> (r: String)
    ensures
        r@ == model.smart_prompt@ + "\n"@ + q@,
{
    let mut s = model.smart_prompt.clone();
    s.append("\n");
    s.append(q);
    s
}

/// The pause before a part of `len` characters is sent, in milliseconds:
/// the configured pause, plus `len` times the per-character pause when one
/// is configured (held at `u64::MAX`).
pub open spec fn part_pause_spec(model: ChatModelCallConfig, len: nat) -> u64 {
    match model.dot_wait_pre_char_ms {
        None => model.dot_wait_time_ms,
        Some(p) => if model.dot_wait_time_ms + len * p <= u64::MAX {
            (model.dot_wait_time_ms + len * p) as u64
        } else {
            u64::MAX
        },
    }
}

/// How a long answer is sent: its parts between the occurrences of
/// `dot_wait_tag`, in order, each with the pause to wait before sending it.
pub open spec fn reply_plan_spec(model: ChatModelCallConfig, answer: Seq<char>) -> Seq<(Seq<char>, u64)> {
    split_tag(answer, model.dot_wait_tag@).map_values(
        |p: Seq<char>| (p, part_pause_spec(model, p.len())),
    )
}

/// The pause before a part of `len` characters (see `part_pause_spec`).
pub fn part_pause_ms(model: &ChatModelCallConfig, len: usize) -> (ms: u64)
    ensures
        ms == part_pause_spec(*model, len as nat),
{
    match model.dot_wait_pre_char_ms {
        None => model.dot_wait_time_ms,
        Some(p) => {
            let extra = (len as u64).checked_mul(p);
            match extra {
                Some(x) => match model.dot_wait_time_ms.checked_add(x) {
                    Some(t) => t,
                    None => u64::MAX,
                },
                None => {
                    proof {
                        if p > 0 {
                            assert(len * p >= len) by (nonlinear_arith)
                                requires p >= 1;
                        }
                    }
                    u64::MAX
                },
            }
        },
    }
}

/// Cuts an answer into the messages that are sent one after another, each
/// with its pause (see `reply_plan_spec`).
pub fn reply_plan(model: &ChatModelCallConfig, answer: &str) -> (plan: Vec<(String, u64)>)
    ensures
        plan@.len() == reply_plan_spec(*model, answer@).len(),
        forall|i: int|
            0 <= i < plan@.len() ==> (#[trigger] plan@[i]).0@ == reply_plan_spec(*model, answer@)[i].0
                && plan@[i].1 == reply_plan_spec(*model, answer@)[i].1,
{
    let parts = split_at_tag(answer, model.dot_wait_tag.as_str());
    let ghost pv = views_of(parts@);
    let mut plan: Vec<(String, u64)> = Vec::new();
    let n = parts.len();
    let mut i: usize = 0;
    while i < n
        invariant
            n == parts@.len(),
            pv == views_of(parts@),
            pv == split_tag(answer@, model.dot_wait_tag@),
            i <= n,
            plan@.len() == i,
            forall|k: int|
                0 <= k < i ==> (#[trigger] plan@[k]).0@ == pv[k] && plan@[k].1 == part_pause_spec(
                    *model,
                    pv[k].len(),
                ),
        decreases n - i,
    {
        let part = parts[i].clone();
        let len = part.unicode_len();
        let ms = part_pause_ms(model, len);
        plan.push((part, ms));
        i = i + 1;
    }
    plan
}

/// The answer in a completion: the content of its first choice; `None`
/// when there is no choice or the first has no content.
pub fn first_choice_content(choices: &Vec<Option<String>>) -> (r: Option<String>)
    ensures
        choices@.len() == 0 ==> r is None,
        choices@.len() > 0 ==> match choices@[0] {
            Some(c) => r matches Some(a) && a@ == c@,
            None => r is None,
        },
{
    if choices.len() == 0 {
        return None;
    }
    match &choices[0] {
        Some(c) => Some(c.clone()),
        None => None,
    }
}

// ---------------------------------------------------------------------
// Conversation memory
// ---------------------------------------------------------------------

/// A message of a conversation with the model.
pub enum ChatMessage {
    System(String),
    User(String),
    Assistant(String),
}

/// The content of a message, by role.
pub ghost enum MessageView {
    System(Seq<char>),
    User(Seq<char>),
    Assistant(Seq<char>),
}

impl View for ChatMessage {
    type V = MessageView;

    open spec fn view(&self) -> MessageView {
        match self {
            ChatMessage::System(s) => MessageView::System(s@),
            ChatMessage::User(s) => MessageView::User(s@),
            ChatMessage::Assistant(s) => MessageView::Assistant(s@),
        }
    }
}

impl ChatMessage {
    /// An equal copy.
    pub fn duplicate(&self) -> (r: ChatMessage)
        ensures
            r@ == self@,
    {
        match self {
            ChatMessage::System(s) => ChatMessage::System(s.clone()),
            ChatMessage::User(s) => ChatMessage::User(s.clone()),
            ChatMessage::Assistant(s) => ChatMessage::Assistant(s.clone()),
        }
    }
}

/// Time (Unix seconds) and content of each remembered message, oldest first.
pub type History = Seq<(u64, MessageView)>;

pub open spec fn entries_view(v: Seq<(u64, ChatMessage)>) -> History {
    v.map_values(|e: (u64, ChatMessage)| (e.0, e.1@))
}

pub open spec fn messages_view(v: Seq<ChatMessage>) -> Seq<MessageView> {
    v.map_values(|m: ChatMessage| m@)
}

/// Whether the entry at `i` of a conversation of `hist.len()` entries may be
/// the oldest one kept: fewer than `max` entries follow it and it is
/// younger than `exp` seconds.
pub open spec fn keeps_from(hist: History, i: int, now: u64, max: usize, exp: u64) -> bool {
    &&& hist.len() - 1 - i < max
    &&& now - hist[i].0 < exp
}

/// The position of the oldest entry kept (from `i` on), `hist.len()` when none is.
pub open spec fn first_kept(hist: History, i: int, now: u64, max: usize, exp: u64) -> int
    decreases hist.len() - i,
{
    if i >= hist.len() {
        hist.len() as int
    } else if keeps_from(hist, i, now, max, exp) {
        i
    } else {
        first_kept(hist, i + 1, now, max, exp)
    }
}

/// The conversation after a question asked at `now`: the question is
/// appended, then the oldest entries are forgotten until the oldest left is
/// younger than `exp` seconds and at most `max` entries remain.
pub open spec fn window_after(
    hist: History,
    question: Seq<char>,
    now: u64,
    max: usize,
    exp: u64,
) -> History {
    let h = hist.push((now, MessageView::User(question)));
    h.skip(first_kept(h, 0, now, max, exp))
}

pub open spec fn all_at_most(hist: History, now: u64) -> bool {
    forall|i: int| 0 <= i < hist.len() ==> #[trigger] hist[i].0 <= now
}

/// Remembered conversations, one per group or user.
pub struct NyaCatMemory {
    user_memory: HashMap<i64, Vec<(u64, ChatMessage)>>,
}

impl NyaCatMemory {
    /// The remembered messages of conversation `id`, oldest first.
    pub closed spec fn history(&self, id: i64) -> History {
        if self.user_memory@.contains_key(id) {
            entries_view(self.user_memory@[id]@)
        } else {
            seq![]
        }
    }

    /// Nothing remembered.
    pub fn new() -> (m: NyaCatMemory)
        ensures
            forall|id: i64| m.history(id) == Seq::<(u64, MessageView)>::empty(),
    {
        NyaCatMemory { user_memory: HashMap::new() }
    }

    /// Forgets every conversation.
    pub fn clean(&mut self)
        ensures
            forall|id: i64| final(self).history(id) == Seq::<(u64, MessageView)>::empty(),
    {
        self.user_memory.clear();
    }

    /// Whether every message of conversation `id` was remembered no later than `now`.
    pub fn clock_consistent(&self, id: i64, now: u64) -> (b: bool)
        ensures
            b == all_at_most(self.history(id), now),
    {
        match self.user_memory.get(&id) {
            Some(v) => {
                let n = v.len();
                let mut i: usize = 0;
                assert(self.history(id) == entries_view(v@));
                while i < n
                    invariant
                        n == v@.len(),
                        self.history(id) == entries_view(v@),
                        i <= n,
                        forall|k: int| 0 <= k < i ==> #[trigger] v@[k].0 <= now,
                    decreases n - i,
                {
                    if v[i].0 > now {
                        assert(entries_view(v@)[i as int].0 > now);
                        return false;
                    }
                    i = i + 1;
                }
                assert forall|k: int| 0 <= k < entries_view(v@).len() implies #[trigger] entries_view(
                    v@,
                )[k].0 <= now by {
                    assert(v@[k].0 <= now);
                }
                true
            },
            None => true,
        }
    }

    /// The messages of conversation `id`, oldest first.
    pub fn messages(&self, id: i64) -> (r: Vec<(u64, ChatMessage)>)
        ensures
            entries_view(r@) == self.history(id),
    {
        match self.user_memory.get(&id) {
            Some(v) => {
                let n = v.len();
                let mut out: Vec<(u64, ChatMessage)> = Vec::new();
                let mut i: usize = 0;
                while i < n
                    invariant
                        n == v@.len(),
                        i <= n,
                        entries_view(out@) == entries_view(v@.take(i as int)),
                    decreases n - i,
                {
                    let ghost prev = entries_view(out@);
                    out.push((v[i].0, v[i].1.duplicate()));
                    assert(entries_view(out@) =~= prev.push((v@[i as int].0, v@[i as int].1@)));
                    assert(entries_view(v@.take(i + 1)) =~= entries_view(v@.take(i as int)).push(
                        (v@[i as int].0, v@[i as int].1@),
                    ));
                    i = i + 1;
                }
                assert(v@.take(n as int) =~= v@);
                out
            },
            None => {
                let out: Vec<(u64, ChatMessage)> = Vec::new();
                assert(entries_view(out@) =~= Seq::<(u64, MessageView)>::empty());
                out
            },
        }
    }

    /// Records the question `new_msg` asked at `now` in conversation `user_id`,
    /// forgets what falls out of the window, and returns what is sent to the
    /// model: the system prompt followed by the remembered messages.
    pub fn load_mem(
        &mut self,
        model: &ChatModelCallConfig,
        user_id: i64,
        new_msg: &str,
        now: u64,
    ) -> (r: Vec<ChatMessage>)
        requires
            all_at_most(old(self).history(user_id), now),
        ensures
            final(self).history(user_id) == window_after(
                old(self).history(user_id),
                new_msg@,
                now,
                model.role_max_message,
                model.role_context_expiration_time_second,
            ),
            forall|id: i64| id != user_id ==> final(self).history(id) == old(self).history(id),
            messages_view(r@) == seq![MessageView::System(model.role_prompt@)]
                + final(self).history(user_id).map_values(|e: (u64, MessageView)| e.1),
    {
        let mut arr = match self.user_memory.remove(&user_id) {
            Some(v) => v,
            None => Vec::new(),
        };
        let ghost old_hist = old(self).history(user_id);
        assert(entries_view(arr@) =~= old_hist);
        let q = String::from_str(new_msg);
        arr.push((now, ChatMessage::User(q)));
        let ghost h = entries_view(arr@);
        assert(h =~= old_hist.push((now, MessageView::User(new_msg@))));
        let max = model.role_max_message;
        let exp = model.role_context_expiration_time_second;
        let n = arr.len();
        let mut k: usize = 0;
        while k < n && !(n - 1 - k < max && now - arr[k].0 < exp)
            invariant
                n == arr@.len(),
                h == entries_view(arr@),
                h == old_hist.push((now, MessageView::User(new_msg@))),
                all_at_most(old_hist, now),
                k <= n,
                max == model.role_max_message,
                exp == model.role_context_expiration_time_second,
                first_kept(h, 0, now, max, exp) == first_kept(h, k as int, now, max, exp),
            decreases n - k,
        {
            assert(h[k as int].0 == arr@[k as int].0);
            assert(k + 1 < n ==> old_hist[k as int].0 <= now);
            k = k + 1;
        }
        let kept = arr.split_off(k);
        assert(entries_view(kept@) =~= h.skip(k as int));
        let mut r: Vec<ChatMessage> = Vec::new();
        r.push(ChatMessage::System(model.role_prompt.clone()));
        let m = kept.len();
        let mut i: usize = 0;
        while i < m
            invariant
                m == kept@.len(),
                i <= m,
                r@.len() == i + 1,
                r@[0]@ == MessageView::System(model.role_prompt@),
                forall|j: int| 1 <= j <= i ==> #[trigger] r@[j]@ == kept@[j - 1].1@,
            decreases m - i,
        {
            r.push(kept[i].1.duplicate());
            i = i + 1;
        }
        let ghost w = entries_view(kept@);
        self.user_memory.insert(user_id, kept);
        let ghost expect = seq![MessageView::System(model.role_prompt@)] + w.map_values(
            |e: (u64, MessageView)| e.1,
        );
        assert forall|j: int| 0 <= j < r@.len() implies #[trigger] messages_view(r@)[j]
            == expect[j] by {
            if j > 0 {
                assert(r@[j]@ == kept@[j - 1].1@);
            }
        }
        assert(messages_view(r@) =~= expect);
        r
    }

    /// Records the model's answer given at `now` in conversation `user_id`.
    pub fn save_mem(&mut self, user_id: i64, new_chat_msg: &str, now: u64)
        ensures
            final(self).history(user_id) == old(self).history(user_id).push(
                (now, MessageView::Assistant(new_chat_msg@)),
            ),
            forall|id: i64| id != user_id ==> final(self).history(id) == old(self).history(id),
    {
        let mut arr = match self.user_memory.remove(&user_id) {
            Some(v) => v,
            None => Vec::new(),
        };
        assert(entries_view(arr@) =~= old(self).history(user_id));
        arr.push((now, ChatMessage::Assistant(String::from_str(new_chat_msg))));
        assert(entries_view(arr@) =~= old(self).history(user_id).push(
            (now, MessageView::Assistant(new_chat_msg@)),
        ));
        self.user_memory.insert(user_id, arr);
    }
}

} // verus!
