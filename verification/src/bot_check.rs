//! Group moderation: configuration, banned-word patterns, per-user strike
//! counters and the decisions taken on chat messages and group invitations.
use vstd::prelude::*;
use vstd::string::StringExecFns;
use std::collections::{HashMap, HashSet};
use std::time::Duration;
use crate::duration::{duration_from_secs, secs_duration};
use crate::text::{decimal, push_decimal, parse_i32, parse_i32_spec, text_eq, views_of};
use crate::command::{BotCommand, parse_i64_args, parsed_i64s};
use crate::dev_utils::get_at_targets;
use crate::event::segment_i64s;

verus! {

broadcast use vstd::std_specs::hash::group_hash_axioms;

// ---------------------------------------------------------------------
// Patterns
// ---------------------------------------------------------------------

#[verifier::external_type_specification]
#[verifier::external_body]
pub struct ExRegex(regex::Regex);

/// Whether `regex::Regex::new` accepts `pattern`.
pub uninterp spec fn regex_valid(pattern: Seq<char>) -> bool;

/// Whether the regular expression `pattern` matches somewhere in `text`
/// (what `Regex::is_match` reports).
pub uninterp spec fn regex_matches(pattern: Seq<char>, text: Seq<char>) -> bool;

/// A banned-word pattern together with its compiled form.
pub struct CompiledPattern {
    source: String,
    re: regex::Regex,
}

impl CompiledPattern {
    /// The pattern's source text.
    pub closed spec fn source_view(&self) -> Seq<char> {
        self.source@
    }

    /// The pattern's source text.
    pub fn source(&self) -> (r: &String)
        ensures
            r@ == self.source_view(),
    {
        &self.source
    }
}

/// Calls `regex::Regex::new(pattern)`. Claims that it succeeds exactly when
/// the pattern is valid, and that the compiled form kept beside the source
/// is the one built from that source; nothing is stated of what the pattern
/// matches.
#[verifier::external_body]
fn compile_pattern(pattern: &str) -> (r: Option<CompiledPattern>)
    ensures
        r is Some <==> regex_valid(pattern@),
        r matches Some(c) ==> c.source_view() == pattern@,
{
    match regex::Regex::new(pattern) {
        Ok(re) => Some(CompiledPattern { source: pattern.to_string(), re }),
        Err(_) => None,
    }
}

/// Calls `regex::Regex::is_match` on the compiled form of `p`. Claims that
/// the answer depends only on the pattern's source and the text.
#[verifier::external_body]
fn pattern_is_match(p: &CompiledPattern, text: &str) -> (b: bool)
    ensures
        b == regex_matches(p.source_view(), text@),
{
    p.re.is_match(text)
}

pub open spec fn valid_sources(sources: Seq<String>) -> Seq<Seq<char>>
    decreases sources.len(),
{
    if sources.len() == 0 {
        seq![]
    } else {
        let rest = valid_sources(sources.drop_last());
        if regex_valid(sources.last()@) {
            rest.push(sources.last()@)
        } else {
            rest
        }
    }
}

pub open spec fn pattern_sources(ps: Seq<CompiledPattern>) -> Seq<Seq<char>> {
    ps.map_values(|p: CompiledPattern| p.source_view())
}

/// Whether some pattern of the list matches `text`.
pub open spec fn hits(ps: Seq<CompiledPattern>, text: Seq<char>) -> bool {
    exists|i: int| 0 <= i < ps.len() && regex_matches(#[trigger] ps[i].source_view(), text)
}

// ---------------------------------------------------------------------
// Configuration
// ---------------------------------------------------------------------

/// Thresholds for banning members who invite others into a group.
pub struct InviteBanConfig {
    /// Invitations from users whose account level is below this are counted.
    pub min_level: Option<i32>,
    /// Invitations from members whose group activity level is below this are counted.
    pub min_activate: Option<i32>,
}

/// Moderation settings.
pub struct BanConfig {
    /// Groups that are moderated.
    pub enable_group: HashSet<i64>,
    /// Strikes after which a member is muted.
    pub enable_chat_shut_up: Option<i32>,
    /// Mute length in seconds (capped at 2332799).
    pub chat_shut_up_time: Option<u64>,
    /// Strikes after which a member is removed.
    pub enable_chat_kick: Option<i32>,
    /// When invitations are counted.
    pub enable_invite_ban: Option<InviteBanConfig>,
    /// Counted invitations after which the inviter is removed.
    pub enable_invite_kick: Option<i32>,
    /// Whether a removed member may ask to join again (default yes).
    pub kick_can_request: Option<bool>,
    /// Banned-word patterns.
    pub chat_regex_list: Vec<CompiledPattern>,
    pub llm_hit_prompt: Option<String>,
    pub hit_min_len: Option<u64>,
    pub hit_max_len: Option<u64>,
    pub open_api_key: Option<String>,
    pub open_api_endpoint: Option<String>,
}

/// The longest mute the chat platform accepts, in seconds.
pub const MAX_SHUT_UP_SECS: u64 = 2332799;

pub open spec fn shut_up_secs(time: Option<u64>) -> u64 {
    let t = match time {
        Some(t) => t,
        None => u64::MAX,
    };
    if t < MAX_SHUT_UP_SECS {
        t
    } else {
        MAX_SHUT_UP_SECS
    }
}

pub open spec fn can_request_or_default(v: Option<bool>) -> bool {
    match v {
        Some(b) => b,
        None => true,
    }
}

impl BanConfig {
    /// The settings with nothing enabled.
    pub fn new() -> (c: BanConfig)
        ensures
            c.enable_group@ == Set::<i64>::empty(),
            c.enable_chat_shut_up is None,
            c.chat_shut_up_time is None,
            c.enable_chat_kick is None,
            c.enable_invite_ban is None,
            c.enable_invite_kick is None,
            c.kick_can_request is None,
            c.chat_regex_list@.len() == 0,
            c.llm_hit_prompt is None,
            c.hit_min_len is None,
            c.hit_max_len is None,
            c.open_api_key is None,
            c.open_api_endpoint is None,
    {
        BanConfig {
            enable_group: HashSet::new(),
            enable_chat_shut_up: None,
            chat_shut_up_time: None,
            enable_chat_kick: None,
            enable_invite_ban: None,
            enable_invite_kick: None,
            kick_can_request: None,
            chat_regex_list: Vec::new(),
            llm_hit_prompt: None,
            hit_min_len: None,
            hit_max_len: None,
            open_api_key: None,
            open_api_endpoint: None,
        }
    }

    /// Compiles the pattern sources, dropping those that are not valid
    /// regular expressions and keeping the order of the rest.
    pub fn load_regex_list(sources: &Vec<String>) -> (r: Vec<CompiledPattern>)
        ensures
            pattern_sources(r@) == valid_sources(sources@),
    {
        let n = sources.len();
        let mut out: Vec<CompiledPattern> = Vec::new();
        let mut i: usize = 0;
        while i < n
            invariant
                n == sources@.len(),
                i <= n,
                pattern_sources(out@) == valid_sources(sources@.take(i as int)),
            decreases n - i,
        {
            assert(sources@.take(i + 1).drop_last() =~= sources@.take(i as int));
            assert(sources@.take(i + 1).last() == sources@[i as int]);
            let ghost before = pattern_sources(out@);
            match compile_pattern(sources[i].as_str()) {
                Some(p) => {
                    out.push(p);
                    assert(pattern_sources(out@) =~= before.push(sources@[i as int]@));
                },
                None => {},
            }
            i = i + 1;
        }
        assert(sources@.take(n as int) =~= sources@);
        out
    }

    /// How long a member is muted: the configured length capped at
    /// 2332799 seconds, the cap itself when none is configured.
    pub fn chat_shut_up_duration(&self) -> (d: Duration)
        ensures
            d == secs_duration(shut_up_secs(self.chat_shut_up_time)),
    {
        duration_from_secs(self.chat_shut_up_secs())
    }

    /// The mute length in seconds.
    pub fn chat_shut_up_secs(&self) -> (s: u64)
        ensures
            s == shut_up_secs(self.chat_shut_up_time),
    {
        let t = match self.chat_shut_up_time {
            Some(t) => t,
            None => u64::MAX,
        };
        if t < MAX_SHUT_UP_SECS {
            t
        } else {
            MAX_SHUT_UP_SECS
        }
    }

    /// Whether a removed member may ask to join again; yes unless configured otherwise.
    pub fn kick_can_request_or_default(&self) -> (b: bool)
        ensures
            b == can_request_or_default(self.kick_can_request),
    {
        match self.kick_can_request {
            Some(b) => b,
            None => true,
        }
    }

    /// Whether `group_id` is moderated.
    pub fn watches(&self, group_id: i64) -> (b: bool)
        ensures
            b == self.enable_group@.contains(group_id),
    {
        self.enable_group.contains(&group_id)
    }

    /// Whether some banned-word pattern matches `text`.
    pub fn hit_by_regex(&self, text: &str) -> (b: bool)
        ensures
            b == hits(self.chat_regex_list@, text@),
    {
        let n = self.chat_regex_list.len();
        let mut found = false;
        let mut i: usize = 0;
        while i < n
            invariant
                n == self.chat_regex_list@.len(),
                i <= n,
                found == exists|k: int|
                    0 <= k < i && regex_matches(
                        #[trigger] self.chat_regex_list@[k].source_view(),
                        text@,
                    ),
            decreases n - i,
        {
            let m = pattern_is_match(&self.chat_regex_list[i], text);
            found = found || m;
            i = i + 1;
        }
        found
    }
}

// ---------------------------------------------------------------------
// Strike counters
// ---------------------------------------------------------------------

/// Counters per group, then per user.
pub open spec fn inner_view(m: Map<i64, HashMap<i64, i32>>, g: i64) -> Map<i64, i32> {
    if m.contains_key(g) {
        m[g]@
    } else {
        Map::empty()
    }
}

/// The count of user `u` in group `g` (zero when there is none).
pub open spec fn count_of(m: Map<i64, HashMap<i64, i32>>, g: i64, u: i64) -> int {
    if inner_view(m, g).contains_key(u) {
        inner_view(m, g)[u] as int
    } else {
        0
    }
}

/// `new` is `old` with the counters of group `g` replaced by `inner`.
pub open spec fn group_replaced(
    old: Map<i64, HashMap<i64, i32>>,
    new: Map<i64, HashMap<i64, i32>>,
    g: i64,
    inner: Map<i64, i32>,
) -> bool {
    &&& new.dom() == old.dom().insert(g)
    &&& forall|h: i64| h != g && old.contains_key(h) ==> new[h] == old[h]
    &&& new[g]@ == inner
}

proof fn lemma_group_replaced_twice(
    a: Map<i64, HashMap<i64, i32>>,
    b: Map<i64, HashMap<i64, i32>>,
    c: Map<i64, HashMap<i64, i32>>,
    g: i64,
    ib: Map<i64, i32>,
    ic: Map<i64, i32>,
)
    requires
        group_replaced(a, b, g, ib),
        group_replaced(b, c, g, ic),
    ensures
        group_replaced(a, c, g, ic),
{
    assert(c.dom() =~= a.dom().insert(g));
}

/// Sets the counter of `u` in group `g` to `v`.
fn set_count(m: &mut HashMap<i64, HashMap<i64, i32>>, g: i64, u: i64, v: i32)
    ensures
        group_replaced(old(m)@, final(m)@, g, inner_view(old(m)@, g).insert(u, v)),
{
    let mut inner = match m.remove(&g) {
        Some(x) => x,
        None => HashMap::new(),
    };
    inner.insert(u, v);
    m.insert(g, inner);
    assert(m@.dom() =~= old(m)@.dom().insert(g));
}

/// Removes the counter of `u` in group `g` (the group's entry stays).
fn drop_count(m: &mut HashMap<i64, HashMap<i64, i32>>, g: i64, u: i64)
    ensures
        group_replaced(old(m)@, final(m)@, g, inner_view(old(m)@, g).remove(u)),
{
    let mut inner = match m.remove(&g) {
        Some(x) => x,
        None => HashMap::new(),
    };
    inner.remove(&u);
    m.insert(g, inner);
    assert(m@.dom() =~= old(m)@.dom().insert(g));
}

/// Reads the counter of `u` in group `g`.
fn get_count(m: &HashMap<i64, HashMap<i64, i32>>, g: i64, u: i64) -> (c: i32)
    ensures
        c as int == count_of(m@, g, u),
{
    match m.get(&g) {
        Some(inner) => match inner.get(&u) {
            Some(c) => *c,
            None => 0,
        },
        None => 0,
    }
}

/// Strike counters kept across messages.
pub struct BanData {
    /// Banned-word hits per group and user.
    pub chat_action_times: HashMap<i64, HashMap<i64, i32>>,
    /// Counted invitations per group and user.
    pub invite_action_times: HashMap<i64, HashMap<i64, i32>>,
}

/// What happens to a member whose message hit a banned word.
pub enum ChatBanAction {
    /// Removed from the group; the member's counter is cleared.
    Kick { can_request: bool, times: i32 },
    /// Muted for `secs` seconds.
    Ban { secs: u64, times: i32 },
    /// Only a warning, since some threshold is configured but not reached.
    Warn,
    /// Nothing, since no threshold is configured (or the group is not moderated,
    /// or no pattern matched).
    Nothing,
}

/// What happens to a member whose group invitation was counted.
pub enum InviteAction {
    /// Removed from the group; a notice goes to the group.
    Kick { can_request: bool, times: i32 },
    /// A notice goes to the group.
    Notify { times: i32 },
    /// Nothing.
    Nothing,
}

pub open spec fn reaches(threshold: Option<i32>, times: int) -> bool {
    match threshold {
        Some(v) => times >= v,
        None => false,
    }
}

/// The decision taken on the `times`-th hit of a member.
pub open spec fn chat_decision(cfg: BanConfig, times: i32) -> ChatBanAction {
    if reaches(cfg.enable_chat_kick, times as int) {
        ChatBanAction::Kick {
            can_request: can_request_or_default(cfg.kick_can_request),
            times,
        }
    } else if reaches(cfg.enable_chat_shut_up, times as int) {
        ChatBanAction::Ban { secs: shut_up_secs(cfg.chat_shut_up_time), times }
    } else if cfg.enable_chat_kick is Some || cfg.enable_chat_shut_up is Some {
        ChatBanAction::Warn
    } else {
        ChatBanAction::Nothing
    }
}

/// The decision taken on the `times`-th counted invitation of a member.
pub open spec fn invite_decision(cfg: BanConfig, times: i32) -> InviteAction {
    if reaches(cfg.enable_invite_kick, times as int) {
        InviteAction::Kick { can_request: can_request_or_default(cfg.kick_can_request), times }
    } else if cfg.enable_invite_kick is Some {
        InviteAction::Notify { times }
    } else {
        InviteAction::Nothing
    }
}

impl BanData {
    /// No counters.
    pub fn new() -> (d: BanData)
        ensures
            d.chat_action_times@ == Map::<i64, HashMap<i64, i32>>::empty(),
            d.invite_action_times@ == Map::<i64, HashMap<i64, i32>>::empty(),
    {
        BanData { chat_action_times: HashMap::new(), invite_action_times: HashMap::new() }
    }

    pub open spec fn chat_count(&self, g: i64, u: i64) -> int {
        count_of(self.chat_action_times@, g, u)
    }

    pub open spec fn invite_count(&self, g: i64, u: i64) -> int {
        count_of(self.invite_action_times@, g, u)
    }

    /// Banned-word hits of `u` in `g`.
    pub fn chat_times(&self, g: i64, u: i64) -> (c: i32)
        ensures
            c == self.chat_count(g, u),
    {
        get_count(&self.chat_action_times, g, u)
    }

    /// Counted invitations of `u` in `g`.
    pub fn invite_times(&self, g: i64, u: i64) -> (c: i32)
        ensures
            c == self.invite_count(g, u),
    {
        get_count(&self.invite_action_times, g, u)
    }

    /// Counts one more banned-word hit of `u` in `g` and decides what happens:
    /// removal once the kick threshold is reached (the counter is then
    /// cleared), a mute once the mute threshold is reached, else a warning
    /// when some threshold is configured.
    pub fn record_chat_hit(&mut self, cfg: &BanConfig, g: i64, u: i64) -> (a: ChatBanAction)
        requires
            old(self).chat_count(g, u) < i32::MAX,
        ensures
            a == chat_decision(*cfg, (old(self).chat_count(g, u) + 1) as i32),
            final(self).invite_action_times@ == old(self).invite_action_times@,
            a is Kick ==> group_replaced(
                old(self).chat_action_times@,
                final(self).chat_action_times@,
                g,
                inner_view(old(self).chat_action_times@, g).remove(u),
            ),
            !(a is Kick) ==> group_replaced(
                old(self).chat_action_times@,
                final(self).chat_action_times@,
                g,
                inner_view(old(self).chat_action_times@, g).insert(
                    u,
                    (old(self).chat_count(g, u) + 1) as i32,
                ),
            ),
            final(self).chat_count(g, u) == if a is Kick {
                0
            } else {
                old(self).chat_count(g, u) + 1
            },
            forall|h: i64, v: i64|
                (h != g || v != u) ==> #[trigger] final(self).chat_count(h, v) == old(
                    self,
                ).chat_count(h, v),
    {
        let ghost s0 = self.chat_action_times@;
        let times = get_count(&self.chat_action_times, g, u) + 1;
        set_count(&mut self.chat_action_times, g, u, times);
        let kick = match cfg.enable_chat_kick {
            Some(v) => times >= v,
            None => false,
        };
        let shut = match cfg.enable_chat_shut_up {
            Some(v) => times >= v,
            None => false,
        };
        assert forall|h: i64, v: i64| (h != g || v != u) implies #[trigger] count_of(
            self.chat_action_times@,
            h,
            v,
        ) == count_of(s0, h, v) by {
            lemma_count_after_replace(s0, self.chat_action_times@, g, inner_view(s0, g).insert(u, times), h, v);
        }
        proof { lemma_count_after_replace(s0, self.chat_action_times@, g, inner_view(s0, g).insert(u, times), g, u); }
        if kick {
            let ghost mid = self.chat_action_times@;
            drop_count(&mut self.chat_action_times, g, u);
            proof {
                lemma_group_replaced_twice(
                    old(self).chat_action_times@,
                    mid,
                    self.chat_action_times@,
                    g,
                    inner_view(old(self).chat_action_times@, g).insert(u, times),
                    inner_view(mid, g).remove(u),
                );
                assert forall|h: i64, v: i64| (h != g || v != u) implies #[trigger] count_of(
                    self.chat_action_times@,
                    h,
                    v,
                ) == count_of(s0, h, v) by {
                    lemma_count_after_replace(mid, self.chat_action_times@, g, inner_view(mid, g).remove(u), h, v);
                }
                lemma_count_after_replace(mid, self.chat_action_times@, g, inner_view(mid, g).remove(u), g, u);
            }
            assert(inner_view(mid, g).remove(u) =~= inner_view(
                old(self).chat_action_times@,
                g,
            ).remove(u));
            ChatBanAction::Kick { can_request: cfg.kick_can_request_or_default(), times }
        } else if shut {
            ChatBanAction::Ban { secs: cfg.chat_shut_up_secs(), times }
        } else if cfg.enable_chat_kick.is_some() || cfg.enable_chat_shut_up.is_some() {
            ChatBanAction::Warn
        } else {
            ChatBanAction::Nothing
        }
    }

    /// Counts one more invitation of `u` in `g` and decides what happens.
    pub fn record_invite(&mut self, cfg: &BanConfig, g: i64, u: i64) -> (a: InviteAction)
        requires
            old(self).invite_count(g, u) < i32::MAX,
        ensures
            a == invite_decision(*cfg, (old(self).invite_count(g, u) + 1) as i32),
            final(self).chat_action_times@ == old(self).chat_action_times@,
            group_replaced(
                old(self).invite_action_times@,
                final(self).invite_action_times@,
                g,
                inner_view(old(self).invite_action_times@, g).insert(
                    u,
                    (old(self).invite_count(g, u) + 1) as i32,
                ),
            ),
            final(self).invite_count(g, u) == old(self).invite_count(g, u) + 1,
            forall|h: i64, v: i64|
                (h != g || v != u) ==> #[trigger] final(self).invite_count(h, v) == old(
                    self,
                ).invite_count(h, v),
    {
        let ghost s0 = self.invite_action_times@;
        let times = get_count(&self.invite_action_times, g, u) + 1;
        set_count(&mut self.invite_action_times, g, u, times);
        assert forall|h: i64, v: i64| (h != g || v != u) implies #[trigger] count_of(
            self.invite_action_times@,
            h,
            v,
        ) == count_of(s0, h, v) by {
            lemma_count_after_replace(s0, self.invite_action_times@, g, inner_view(s0, g).insert(u, times), h, v);
        }
        proof { lemma_count_after_replace(s0, self.invite_action_times@, g, inner_view(s0, g).insert(u, times), g, u); }
        let kick = match cfg.enable_invite_kick {
            Some(v) => times >= v,
            None => false,
        };
        if kick {
            InviteAction::Kick { can_request: cfg.kick_can_request_or_default(), times }
        } else if cfg.enable_invite_kick.is_some() {
            InviteAction::Notify { times }
        } else {
            InviteAction::Nothing
        }
    }

    /// Clears both counters of `u` in `g` (pardon).
    pub fn reset_user(&mut self, g: i64, u: i64)
        ensures
            group_replaced(
                old(self).chat_action_times@,
                final(self).chat_action_times@,
                g,
                inner_view(old(self).chat_action_times@, g).insert(u, 0),
            ),
            group_replaced(
                old(self).invite_action_times@,
                final(self).invite_action_times@,
                g,
                inner_view(old(self).invite_action_times@, g).insert(u, 0),
            ),
            final(self).chat_count(g, u) == 0,
            final(self).invite_count(g, u) == 0,
            forall|h: i64, v: i64|
                (h != g || v != u) ==> #[trigger] final(self).chat_count(h, v) == old(
                    self,
                ).chat_count(h, v),
            forall|h: i64, v: i64|
                (h != g || v != u) ==> #[trigger] final(self).invite_count(h, v) == old(
                    self,
                ).invite_count(h, v),
    {
        let ghost c0 = self.chat_action_times@;
        let ghost i0 = self.invite_action_times@;
        set_count(&mut self.invite_action_times, g, u, 0);
        set_count(&mut self.chat_action_times, g, u, 0);
        assert forall|h: i64, v: i64| true implies {
            &&& count_of(self.chat_action_times@, h, v) == if h == g && v == u {
                0
            } else {
                count_of(c0, h, v)
            }
            &&& count_of(self.invite_action_times@, h, v) == if h == g && v == u {
                0
            } else {
                count_of(i0, h, v)
            }
        } by {
            lemma_count_after_replace(c0, self.chat_action_times@, g, inner_view(c0, g).insert(u, 0), h, v);
            lemma_count_after_replace(i0, self.invite_action_times@, g, inner_view(i0, g).insert(u, 0), h, v);
        }
    }
}


// ---------------------------------------------------------------------
// Chat messages
// ---------------------------------------------------------------------

/// Handles a group message: when the group is moderated and some
/// banned-word pattern matches the text, counts a hit and decides what
/// happens; otherwise does nothing.
pub fn on_chat(
    cfg: &BanConfig,
    data: &mut BanData,
    group_id: i64,
    user_id: i64,
    human_text: &str,
) -> (a: ChatBanAction)
    requires
        !cfg.enable_group@.contains(group_id) || !hits(cfg.chat_regex_list@, human_text@)
            || old(data).chat_count(group_id, user_id) < i32::MAX,
    ensures
        !(cfg.enable_group@.contains(group_id) && hits(cfg.chat_regex_list@, human_text@)) ==> {
            &&& a is Nothing
            &&& *final(data) == *old(data)
        },
        cfg.enable_group@.contains(group_id) && hits(cfg.chat_regex_list@, human_text@) ==> {
            &&& a == chat_decision(*cfg, (old(data).chat_count(group_id, user_id) + 1) as i32)
            &&& final(data).invite_action_times@ == old(data).invite_action_times@
            &&& final(data).chat_count(group_id, user_id) == if a is Kick {
                0
            } else {
                old(data).chat_count(group_id, user_id) + 1
            }
            &&& forall|h: i64, v: i64|
                (h != group_id || v != user_id) ==> #[trigger] final(data).chat_count(h, v) == old(
                    data,
                ).chat_count(h, v)
        },
{
    if !cfg.watches(group_id) {
        return ChatBanAction::Nothing;
    }
    if cfg.hit_by_regex(human_text) {
        data.record_chat_hit(cfg, group_id, user_id)
    } else {
        ChatBanAction::Nothing
    }
}

/// `on_chat`, except that when the member's counter cannot grow any more it
/// leaves everything unchanged and answers `None`.
pub fn try_on_chat(
    cfg: &BanConfig,
    data: &mut BanData,
    group_id: i64,
    user_id: i64,
    human_text: &str,
) -> (a: Option<ChatBanAction>)
    ensures
        a is None <==> (cfg.enable_group@.contains(group_id) && hits(
            cfg.chat_regex_list@,
            human_text@,
        ) && old(data).chat_count(group_id, user_id) == i32::MAX),
        a is None ==> *final(data) == *old(data),
        !(cfg.enable_group@.contains(group_id) && hits(cfg.chat_regex_list@, human_text@)) ==> {
            &&& a == Some(ChatBanAction::Nothing)
            &&& *final(data) == *old(data)
        },
        a is Some && cfg.enable_group@.contains(group_id) && hits(
            cfg.chat_regex_list@,
            human_text@,
        ) ==> {
            &&& a == Some(
                chat_decision(*cfg, (old(data).chat_count(group_id, user_id) + 1) as i32),
            )
            &&& final(data).invite_action_times@ == old(data).invite_action_times@
            &&& final(data).chat_count(group_id, user_id) == if a->0 is Kick {
                0
            } else {
                old(data).chat_count(group_id, user_id) + 1
            }
            &&& forall|h: i64, v: i64|
                (h != group_id || v != user_id) ==> #[trigger] final(data).chat_count(h, v) == old(
                    data,
                ).chat_count(h, v)
        },
{
    if cfg.watches(group_id) && cfg.hit_by_regex(human_text) && data.chat_times(group_id, user_id)
        == i32::MAX {
        return None;
    }
    Some(on_chat(cfg, data, group_id, user_id, human_text))
}

pub open spec fn chat_kick_text(user_id: i64, times: i32) -> Seq<char> {
    "用户"@ + decimal(user_id as int) + " 因为触发违禁词达到次数"@ + decimal(times as int)
        + " 已被踢出！！如需申诉请联系管理员 (哈气)"@
}

pub open spec fn chat_ban_text(user_id: i64, times: i32, secs: u64) -> Seq<char> {
    "用户"@ + decimal(user_id as int) + " 因为触发违禁词达到次数"@ + decimal(times as int)
        + " 已被封禁"@ + decimal(secs as int) + "s！如需申诉请联系管理员 (哈气)"@
}

pub open spec fn chat_notice_text(a: ChatBanAction, user_id: i64) -> Option<Seq<char>> {
    match a {
        ChatBanAction::Kick { times, .. } => Some(chat_kick_text(user_id, times)),
        ChatBanAction::Ban { secs, times } => Some(chat_ban_text(user_id, times, secs)),
        ChatBanAction::Warn => Some("爆了"@),
        ChatBanAction::Nothing => None,
    }
}

pub open spec fn invite_notice_text(a: InviteAction, user_id: i64) -> Option<Seq<char>> {
    match a {
        InviteAction::Kick { times, .. } => Some(
            "用户"@ + decimal(user_id as int) + " 因为邀请群成员达到次数"@ + decimal(times as int)
                + " 已被踢出！如需申诉请联系管理员"@,
        ),
        InviteAction::Notify { times } => Some(
            "用户"@ + decimal(user_id as int) + " 邀请群成员达到次数"@ + decimal(times as int),
        ),
        InviteAction::Nothing => None,
    }
}

impl ChatBanAction {
    /// The reply quoted under the offending message.
    pub fn notice(&self, user_id: i64) -> (r: Option<String>)
        ensures
            match r {
                Some(t) => chat_notice_text(*self, user_id) == Some(t@),
                None => chat_notice_text(*self, user_id) is None,
            },
    {
        match self {
            ChatBanAction::Kick { times, .. } => {
                let mut s = String::from_str("用户");
                push_decimal(&mut s, user_id);
                s.append(" 因为触发违禁词达到次数");
                push_decimal(&mut s, *times as i64);
                s.append(" 已被踢出！！如需申诉请联系管理员 (哈气)");
                Some(s)
            },
            ChatBanAction::Ban { secs, times } => {
                let mut s = String::from_str("用户");
                push_decimal(&mut s, user_id);
                s.append(" 因为触发违禁词达到次数");
                push_decimal(&mut s, *times as i64);
                s.append(" 已被封禁");
                crate::text::push_decimal_unsigned(&mut s, *secs);
                s.append("s！如需申诉请联系管理员 (哈气)");
                Some(s)
            },
            ChatBanAction::Warn => Some(String::from_str("爆了")),
            ChatBanAction::Nothing => None,
        }
    }
}

impl InviteAction {
    /// The message sent to the group.
    pub fn notice(&self, user_id: i64) -> (r: Option<String>)
        ensures
            match r {
                Some(t) => invite_notice_text(*self, user_id) == Some(t@),
                None => invite_notice_text(*self, user_id) is None,
            },
    {
        match self {
            InviteAction::Kick { times, .. } => {
                let mut s = String::from_str("用户");
                push_decimal(&mut s, user_id);
                s.append(" 因为邀请群成员达到次数");
                push_decimal(&mut s, *times as i64);
                s.append(" 已被踢出！如需申诉请联系管理员");
                Some(s)
            },
            InviteAction::Notify { times } => {
                let mut s = String::from_str("用户");
                push_decimal(&mut s, user_id);
                s.append(" 邀请群成员达到次数");
                push_decimal(&mut s, *times as i64);
                Some(s)
            },
            InviteAction::Nothing => None,
        }
    }
}

// ---------------------------------------------------------------------
// Group invitations
// ---------------------------------------------------------------------

/// Only group requests are looked at.
pub fn is_group_request(request_type: &str) -> (b: bool)
    ensures
        b == (request_type@ == "group"@),
{
    text_eq(request_type, "group")
}

/// A group request is examined when it is an invitation into a moderated group.
pub fn invite_applies(cfg: &BanConfig, sub_type: &str, group_id: i64) -> (b: bool)
    ensures
        b == (sub_type@ == "invite"@ && cfg.enable_group@.contains(group_id)),
{
    text_eq(sub_type, "invite") && cfg.watches(group_id)
}

pub open spec fn activity_excuses(cfg: BanConfig, member_level: Seq<char>) -> bool {
    match cfg.enable_invite_ban {
        Some(ib) => match ib.min_activate {
            Some(min) => match parse_i32_spec(member_level) {
                Some(level) => level >= min,
                None => true,
            },
            None => true,
        },
        None => true,
    }
}

pub open spec fn level_excuses(cfg: BanConfig, user_level: i64) -> bool {
    match cfg.enable_invite_ban {
        Some(ib) => match ib.min_level {
            Some(min) => user_level >= min,
            None => true,
        },
        None => true,
    }
}

/// Whether the inviter's group activity level lets the invitation pass:
/// yes unless a minimum activity is configured and the level reads as an
/// `i32` below it.
pub fn member_activity_excuses(cfg: &BanConfig, member_level: &str) -> (b: bool)
    ensures
        b == activity_excuses(*cfg, member_level@),
{
    match &cfg.enable_invite_ban {
        Some(ib) => match ib.min_activate {
            Some(min) => match parse_i32(member_level) {
                Some(level) => level >= min,
                None => true,
            },
            None => true,
        },
        None => true,
    }
}

/// Whether the inviter's account level lets the invitation pass: yes unless
/// a minimum level is configured and the level is below it.
pub fn user_level_excuses(cfg: &BanConfig, user_level: i64) -> (b: bool)
    ensures
        b == level_excuses(*cfg, user_level),
{
    match &cfg.enable_invite_ban {
        Some(ib) => match ib.min_level {
            Some(min) => user_level >= min as i64,
            None => true,
        },
        None => true,
    }
}


/// Where the screening of a group request stands.
pub enum InviteStep {
    /// The request is let pass and not counted.
    Pass,
    /// Fetch the inviter's member record in the group next.
    FetchMember,
    /// Fetch the inviter's account record next.
    FetchUser,
    /// Count the invitation (`BanData::record_invite`).
    Count,
}

/// First screen: only an invitation (`group` request of sub-type `invite`)
/// into a moderated group goes on.
pub open spec fn screen_invite_spec(cfg: BanConfig, request_type: Seq<char>, sub_type: Seq<char>, group_id: i64) -> InviteStep {
    if request_type == "group"@ && sub_type == "invite"@ && cfg.enable_group@.contains(group_id) {
        InviteStep::FetchMember
    } else {
        InviteStep::Pass
    }
}

/// Second screen: an inviter whose group activity excuses them passes.
pub open spec fn member_step_spec(cfg: BanConfig, member_level: Seq<char>) -> InviteStep {
    if activity_excuses(cfg, member_level) {
        InviteStep::Pass
    } else {
        InviteStep::FetchUser
    }
}

/// Third screen: an inviter whose account level excuses them passes.
pub open spec fn user_step_spec(cfg: BanConfig, user_level: i64) -> InviteStep {
    if level_excuses(cfg, user_level) {
        InviteStep::Pass
    } else {
        InviteStep::Count
    }
}

/// Whether an invitation is counted: it is one into a moderated group, and
/// neither the inviter's group activity nor their account level excuses it.
pub open spec fn invite_counted(
    cfg: BanConfig,
    request_type: Seq<char>,
    sub_type: Seq<char>,
    group_id: i64,
    member_level: Seq<char>,
    user_level: i64,
) -> bool {
    &&& request_type == "group"@
    &&& sub_type == "invite"@
    &&& cfg.enable_group@.contains(group_id)
    &&& !activity_excuses(cfg, member_level)
    &&& !level_excuses(cfg, user_level)
}

/// First screen of a group request (see `screen_invite_spec`).
pub fn screen_invite(cfg: &BanConfig, request_type: &str, sub_type: &str, group_id: i64) -> (s: InviteStep)
    ensures
        s == screen_invite_spec(*cfg, request_type@, sub_type@, group_id),
{
    if is_group_request(request_type) && invite_applies(cfg, sub_type, group_id) {
        InviteStep::FetchMember
    } else {
        InviteStep::Pass
    }
}

/// Second screen, on the inviter's group activity level as the member
/// record gives it (see `member_step_spec`).
pub fn screen_invite_member(cfg: &BanConfig, member_level: &str) -> (s: InviteStep)
    ensures
        s == member_step_spec(*cfg, member_level@),
{
    if member_activity_excuses(cfg, member_level) {
        InviteStep::Pass
    } else {
        InviteStep::FetchUser
    }
}

/// Third screen, on the inviter's account level (see `user_step_spec`).
pub fn screen_invite_user(cfg: &BanConfig, user_level: i64) -> (s: InviteStep)
    ensures
        s == user_step_spec(*cfg, user_level),
{
    if user_level_excuses(cfg, user_level) {
        InviteStep::Pass
    } else {
        InviteStep::Count
    }
}

// ---------------------------------------------------------------------
// Pardons
// ---------------------------------------------------------------------

proof fn lemma_count_after_replace(
    old: Map<i64, HashMap<i64, i32>>,
    new: Map<i64, HashMap<i64, i32>>,
    g: i64,
    inner: Map<i64, i32>,
    h: i64,
    v: i64,
)
    requires
        group_replaced(old, new, g, inner),
    ensures
        count_of(new, h, v) == if h == g {
            if inner.contains_key(v) {
                inner[v] as int
            } else {
                0
            }
        } else {
            count_of(old, h, v)
        },
{
}

/// The accounts a `$unban` command names: those mentioned, then every
/// argument that reads as an `i64`.
pub open spec fn unban_targets(c: BotCommand) -> Seq<i64> {
    segment_i64s(c.event.message@, "at"@, "qq"@) + parsed_i64s(views_of(c.args@))
}

/// Handles `$unban` in a group: clears both counters of every account the
/// command names and returns them (their mutes are then lifted); outside
/// groups does nothing and returns no account.
pub fn on_unban(data: &mut BanData, c: &BotCommand) -> (targets: Vec<i64>)
    ensures
        c.event.group_id is None ==> targets@.len() == 0 && *final(data) == *old(data),
        c.event.group_id matches Some(g) ==> {
            &&& targets@ == unban_targets(*c)
            &&& forall|h: i64, v: i64|
                #![trigger final(data).chat_count(h, v)]
                #![trigger final(data).invite_count(h, v)]
                (h == g && targets@.contains(v)) ==> final(data).chat_count(h, v) == 0
                    && final(data).invite_count(h, v) == 0
            &&& forall|h: i64, v: i64|
                #![trigger final(data).chat_count(h, v)]
                #![trigger final(data).invite_count(h, v)]
                !(h == g && targets@.contains(v)) ==> final(data).chat_count(h, v)
                    == old(data).chat_count(h, v) && final(data).invite_count(h, v)
                    == old(data).invite_count(h, v)
        },
{
    let g = match c.event.group_id {
        Some(g) => g,
        None => {
            return Vec::new();
        },
    };
    let mut targets = get_at_targets(&c.event);
    let mut rest = parse_i64_args(&c.args, 0);
    assert(views_of(c.args@).skip(0) =~= views_of(c.args@));
    targets.append(&mut rest);
    let n = targets.len();
    let mut i: usize = 0;
    while i < n
        invariant
            n == targets@.len(),
            i <= n,
            forall|h: i64, v: i64|
                #![trigger data.chat_count(h, v)]
                #![trigger data.invite_count(h, v)]
                (h == g && targets@.take(i as int).contains(v)) ==> data.chat_count(h, v) == 0
                    && data.invite_count(h, v) == 0,
            forall|h: i64, v: i64|
                #![trigger data.chat_count(h, v)]
                #![trigger data.invite_count(h, v)]
                !(h == g && targets@.take(i as int).contains(v)) ==> data.chat_count(h, v)
                    == old(data).chat_count(h, v) && data.invite_count(h, v) == old(
                    data,
                ).invite_count(h, v),
        decreases n - i,
    {
        let t = targets[i];
        let ghost before = *data;
        data.reset_user(g, t);
        assert forall|v: i64| targets@.take(i + 1).contains(v) <==> (targets@.take(
            i as int,
        ).contains(v) || v == t) by {
            assert(targets@.take(i + 1) =~= targets@.take(i as int).push(t));
            vstd::seq_lib::lemma_seq_contains_after_push(targets@.take(i as int), t, v);
        }
        assert forall|h: i64, v: i64| !(h == g && targets@.take(i + 1).contains(v)) implies #[trigger] data.chat_count(h, v)
            == old(data).chat_count(h, v) && data.invite_count(h, v) == old(data).invite_count(h, v) by {
            assert(before.chat_count(h, v) == old(data).chat_count(h, v));
            assert(before.invite_count(h, v) == old(data).invite_count(h, v));
        }
        assert forall|h: i64, v: i64| (h == g && targets@.take(i + 1).contains(v)) implies #[trigger] data.chat_count(h, v)
            == 0 && data.invite_count(h, v) == 0 by {
            if v != t {
                assert(before.chat_count(h, v) == 0);
                assert(before.invite_count(h, v) == 0);
            }
        }
        i = i + 1;
    }
    assert(targets@.take(n as int) =~= targets@);
    targets
}

} // verus!
