//! The emoji plugin: members marked in a group get reactions on every
//! message, and super users can add reactions to a quoted message.
use vstd::prelude::*;
use vstd::string::StringExecFns;
use std::collections::{HashMap, HashSet};
use std::time::Duration;
use crate::command::{BotCommand, BotCommandBuilder, parse_i64_args, parsed_i64s};
use crate::dev_utils::get_at_targets;
use crate::duration::{duration_from_millis, millis_duration};
use crate::event::{collect_segment_i64s, segment_i64s};
use crate::text::{decimal, push_decimal_unsigned, text_eq, views_of};

verus! {

broadcast use vstd::std_specs::hash::group_hash_axioms;

/// Settings of the emoji plugin.
pub struct EmojiAttackConfig {
    /// Groups where marked members get reactions.
    pub allow_monkey_groups: HashSet<i64>,
    /// The reactions (emoji ids) put on their messages, in order.
    pub emoji: Vec<String>,
    /// Pause between two reactions in milliseconds (300 by default).
    pub wait_ms: Option<u64>,
}

pub open spec fn wait_ms_or_default(w: Option<u64>) -> u64 {
    match w {
        Some(ms) => ms,
        None => 300,
    }
}

impl EmojiAttackConfig {
    /// The pause between two reactions.
    pub fn wait_duration(&self) -> (d: Duration)
        ensures
            d == millis_duration(wait_ms_or_default(self.wait_ms)),
    {
        let ms = match self.wait_ms {
            Some(ms) => ms,
            None => 300,
        };
        duration_from_millis(ms)
    }
}

/// The marked members of each group.
pub struct EmojiAttackData {
    pub group_users: HashMap<i64, HashSet<i64>>,
}

pub open spec fn members_of(m: Map<i64, HashSet<i64>>, g: i64) -> Set<i64> {
    if m.contains_key(g) {
        m[g]@
    } else {
        Set::empty()
    }
}

/// Whether a message of `user` in `group` gets reactions.
pub open spec fn reacts(cfg: EmojiAttackConfig, data: EmojiAttackData, group: i64, user: i64) -> bool {
    cfg.allow_monkey_groups@.contains(group) && members_of(data.group_users@, group).contains(
        user,
    )
}

/// The first position in `targets` whose member is (when `present`) or is
/// not (otherwise) in `set`.
pub open spec fn first_with(targets: Seq<i64>, set: Set<i64>, present: bool) -> int
    decreases targets.len(),
{
    if targets.len() == 0 {
        0
    } else if set.contains(targets[0]) == present {
        0
    } else {
        1 + first_with(targets.drop_first(), set, present)
    }
}

proof fn lemma_first_with(targets: Seq<i64>, set: Set<i64>, present: bool)
    ensures
        0 <= first_with(targets, set, present) <= targets.len(),
        forall|i: int|
            0 <= i < first_with(targets, set, present) ==> set.contains(#[trigger] targets[i])
                != present,
        first_with(targets, set, present) < targets.len() ==> set.contains(
            targets[first_with(targets, set, present)],
        ) == present,
    decreases targets.len(),
{
    if targets.len() > 0 && set.contains(targets[0]) != present {
        lemma_first_with(targets.drop_first(), set, present);
        assert forall|i: int| 0 <= i < first_with(targets, set, present) implies set.contains(
            #[trigger] targets[i],
        ) != present by {
            if i > 0 {
                assert(targets[i] == targets.drop_first()[i - 1]);
            }
        }
    }
}

/// The marking commands.
#[derive(Clone, Copy)]
pub enum MarkOp {
    Add,
    Del,
    Clean,
}

/// The marked members of `g` after `op`: `Add` marks the first target not
/// yet marked, `Del` unmarks the first target that is marked, `Clean`
/// unmarks everyone.
pub open spec fn members_after(old_set: Set<i64>, op: MarkOp, targets: Seq<i64>) -> Set<i64> {
    match op {
        MarkOp::Add => {
            let k = first_with(targets, old_set, false);
            if k < targets.len() {
                old_set.insert(targets[k])
            } else {
                old_set
            }
        },
        MarkOp::Del => {
            let k = first_with(targets, old_set, true);
            if k < targets.len() {
                old_set.remove(targets[k])
            } else {
                old_set
            }
        },
        MarkOp::Clean => Set::empty(),
    }
}

/// Whether `op` reports success.
pub open spec fn op_succeeds(old_set: Set<i64>, op: MarkOp, targets: Seq<i64>) -> bool {
    match op {
        MarkOp::Add => first_with(targets, old_set, false) < targets.len(),
        MarkOp::Del => first_with(targets, old_set, true) < targets.len(),
        MarkOp::Clean => true,
    }
}

impl EmojiAttackData {
    /// Nobody marked.
    pub fn new() -> (d: EmojiAttackData)
        ensures
            d.group_users@ == Map::<i64, HashSet<i64>>::empty(),
    {
        EmojiAttackData { group_users: HashMap::new() }
    }

    /// Whether a message of `user` in `group` gets reactions: the group must
    /// allow them and the user must be marked there.
    pub fn should_react(&self, cfg: &EmojiAttackConfig, group: i64, user: i64) -> (b: bool)
        ensures
            b == reacts(*cfg, *self, group, user),
    {
        if !cfg.allow_monkey_groups.contains(&group) {
            return false;
        }
        match self.group_users.get(&group) {
            Some(s) => s.contains(&user),
            None => false,
        }
    }

    /// Applies a marking command for `group` to `targets`, in order, stopping
    /// at the first target the command changes; reports whether one changed
    /// (`Clean` always succeeds).
    pub fn apply_mark(&mut self, op: MarkOp, group: i64, targets: &Vec<i64>) -> (ok: bool)
        ensures
            members_of(final(self).group_users@, group) == members_after(
                members_of(old(self).group_users@, group),
                op,
                targets@,
            ),
            ok == op_succeeds(members_of(old(self).group_users@, group), op, targets@),
            forall|h: i64|
                h != group ==> members_of(final(self).group_users@, h) == members_of(
                    old(self).group_users@,
                    h,
                ),
    {
        let ghost old_set = members_of(self.group_users@, group);
        let mut set = match self.group_users.remove(&group) {
            Some(s) => s,
            None => HashSet::new(),
        };
        assert(set@ == old_set);
        let ok = match op {
            MarkOp::Clean => {
                set.clear();
                true
            },
            MarkOp::Add => {
                proof {
                    lemma_first_with(targets@, old_set, false);
                }
                let n = targets.len();
                let mut i: usize = 0;
                let mut done = false;
                while i < n && !done
                    invariant
                        n == targets@.len(),
                        i <= n,
                        !done ==> set@ == old_set && i <= first_with(targets@, old_set, false),
                        !done ==> forall|j: int| 0 <= j < i ==> old_set.contains(#[trigger] targets@[j]),
                        done ==> i >= 1 && first_with(targets@, old_set, false) == i - 1
                            && set@ == old_set.insert(targets@[i - 1]),
                        0 <= first_with(targets@, old_set, false) <= targets@.len(),
                        forall|j: int|
                            0 <= j < first_with(targets@, old_set, false) ==> old_set.contains(
                                #[trigger] targets@[j],
                            ),
                        first_with(targets@, old_set, false) < targets@.len() ==> !old_set.contains(
                            targets@[first_with(targets@, old_set, false)],
                        ),
                    decreases n - i,
                {
                    let t = targets[i];
                    let added = set.insert(t);
                    if added {
                        done = true;
                    } else {
                        assert(set@ =~= old_set);
                    }
                    i = i + 1;
                }
                done
            },
            MarkOp::Del => {
                proof {
                    lemma_first_with(targets@, old_set, true);
                }
                let n = targets.len();
                let mut i: usize = 0;
                let mut done = false;
                while i < n && !done
                    invariant
                        n == targets@.len(),
                        i <= n,
                        !done ==> set@ == old_set && i <= first_with(targets@, old_set, true),
                        done ==> i >= 1 && first_with(targets@, old_set, true) == i - 1
                            && set@ == old_set.remove(targets@[i - 1]),
                        0 <= first_with(targets@, old_set, true) <= targets@.len(),
                        forall|j: int|
                            0 <= j < first_with(targets@, old_set, true) ==> !old_set.contains(
                                #[trigger] targets@[j],
                            ),
                        first_with(targets@, old_set, true) < targets@.len() ==> old_set.contains(
                            targets@[first_with(targets@, old_set, true)],
                        ),
                    decreases n - i,
                {
                    let t = targets[i];
                    let removed = set.remove(&t);
                    if removed {
                        done = true;
                    } else {
                        assert(set@ =~= old_set);
                    }
                    i = i + 1;
                }
                done
            },
        };
        self.group_users.insert(group, set);
        ok
    }
}

/// Registers `$monkey` as a super-user command.
pub fn register_cmd(b: &mut BotCommandBuilder)
    ensures
        final(b).super_names() == old(b).super_names().insert("$monkey"@),
        final(b).common_names() == old(b).common_names(),
{
    b.on_super_command("$monkey");
}

/// Reply to a marking command.
pub fn mark_reply(ok: bool) -> (r: &'static str)
    ensures
        r == (if ok {
            "操作成功喵！"
        } else {
            "操作失败喵！"
        }),
{
    if ok {
        "操作成功喵！"
    } else {
        "操作失败喵！"
    }
}

/// The members a marking command names: the accounts mentioned (other than
/// the bot), then each argument after the sub-command that reads as an `i64`.
pub open spec fn targets_spec(c: BotCommand) -> Seq<i64> {
    let at = without(segment_i64s(c.event.message@, "at"@, "qq"@), c.event.self_id);
    let args = views_of(c.args@);
    if args.len() > 1 {
        at + parsed_i64s(args.drop_first())
    } else {
        at
    }
}

/// `s` without the occurrences of `x`.
pub open spec fn without(s: Seq<i64>, x: i64) -> Seq<i64>
    decreases s.len(),
{
    if s.len() == 0 {
        seq![]
    } else if s.last() == x {
        without(s.drop_last(), x)
    } else {
        without(s.drop_last(), x).push(s.last())
    }
}

/// The members a marking command names.
pub fn get_targets(c: &BotCommand) -> (r: Vec<i64>)
    ensures
        r@ == targets_spec(*c),
{
    let at = get_at_targets(&c.event);
    let mut targets: Vec<i64> = Vec::new();
    let n = at.len();
    let mut i: usize = 0;
    let ghost self_id = c.event.self_id;
    while i < n
        invariant
            n == at@.len(),
            i <= n,
            self_id == c.event.self_id,
            targets@ == without(at@.take(i as int), self_id),
        decreases n - i,
    {
        assert(at@.take(i + 1).drop_last() =~= at@.take(i as int));
        if at[i] != c.event.self_id {
            targets.push(at[i]);
        }
        i = i + 1;
    }
    assert(at@.take(n as int) =~= at@);
    if c.args.len() > 1 {
        let mut rest = parse_i64_args(&c.args, 1);
        assert(views_of(c.args@).skip(1) =~= views_of(c.args@).drop_first());
        targets.append(&mut rest);
    }
    targets
}

/// What a `$monkey` command asks for.
pub enum MonkeyCmd {
    /// Not from a group, or no known sub-command.
    Ignore,
    /// Change the marks.
    Mark(MarkOp),
    /// React to the quoted messages with every standard emoji.
    Atk,
    /// React to the quoted messages with the configured emoji.
    Once,
}

pub open spec fn monkey_spec(c: BotCommand) -> MonkeyCmd {
    let sub = if c.args@.len() > 0 {
        c.args@[0]@
    } else {
        Seq::<char>::empty()
    };
    if c.event.group_id is None {
        MonkeyCmd::Ignore
    } else if sub == "add"@ {
        MonkeyCmd::Mark(MarkOp::Add)
    } else if sub == "del"@ {
        MonkeyCmd::Mark(MarkOp::Del)
    } else if sub == "clean"@ {
        MonkeyCmd::Mark(MarkOp::Clean)
    } else if sub == "atk"@ {
        MonkeyCmd::Atk
    } else if sub == "once"@ {
        MonkeyCmd::Once
    } else {
        MonkeyCmd::Ignore
    }
}

/// Reads the sub-command of a `$monkey` command (its first argument).
pub fn monkey_command(c: &BotCommand) -> (r: MonkeyCmd)
    ensures
        r == monkey_spec(*c),
{
    if c.event.group_id.is_none() {
        return MonkeyCmd::Ignore;
    }
    let empty = String::new();
    let sub: &String = if c.args.len() > 0 {
        &c.args[0]
    } else {
        &empty
    };
    if text_eq(sub.as_str(), "add") {
        MonkeyCmd::Mark(MarkOp::Add)
    } else if text_eq(sub.as_str(), "del") {
        MonkeyCmd::Mark(MarkOp::Del)
    } else if text_eq(sub.as_str(), "clean") {
        MonkeyCmd::Mark(MarkOp::Clean)
    } else if text_eq(sub.as_str(), "atk") {
        MonkeyCmd::Atk
    } else if text_eq(sub.as_str(), "once") {
        MonkeyCmd::Once
    } else {
        MonkeyCmd::Ignore
    }
}

/// The messages a command quotes: the `id` of each `reply` segment, read as `i64`.
pub fn quoted_messages(c: &BotCommand) -> (r: Vec<i64>)
    ensures
        r@ == segment_i64s(c.event.message@, "reply"@, "id"@),
{
    collect_segment_i64s(&c.event.message, "reply", "id")
}

/// The standard emoji ids 1 to 21, without 17.
pub open spec fn standard_emoji() -> Seq<Seq<char>> {
    Seq::new(20, |i: int| decimal(if i < 16 { i + 1 } else { i + 2 }))
}

/// The reactions an attack uses: the standard emoji for `Atk`, the
/// configured ones for `Once`, none otherwise.
pub fn attack_emoji(cmd: &MonkeyCmd, cfg: &EmojiAttackConfig) -> (r: Vec<String>)
    ensures
        views_of(r@) == (match cmd {
            MonkeyCmd::Atk => standard_emoji(),
            MonkeyCmd::Once => views_of(cfg.emoji@),
            _ => Seq::<Seq<char>>::empty(),
        }),
{
    let mut out: Vec<String> = Vec::new();
    match cmd {
        MonkeyCmd::Atk => {
            let mut x: u64 = 1;
            while x <= 21
                invariant
                    1 <= x <= 22,
                    views_of(out@) == standard_emoji().take(if x <= 17 { x - 1 } else { x - 2 }),
                decreases 22 - x,
            {
                if x != 17 {
                    let mut s = String::new();
                    push_decimal_unsigned(&mut s, x);
                    let ghost before = views_of(out@);
                    out.push(s);
                    let ghost k: int = if x < 17 { x - 1 } else { x - 2 };
                    assert(views_of(out@) =~= before.push(decimal(x as int)));
                    assert(standard_emoji().take(k + 1) =~= standard_emoji().take(k).push(
                        decimal(x as int),
                    ));
                }
                x = x + 1;
            }
            assert(standard_emoji().take(20) =~= standard_emoji());
        },
        MonkeyCmd::Once => {
            let n = cfg.emoji.len();
            let mut i: usize = 0;
            while i < n
                invariant
                    n == cfg.emoji@.len(),
                    i <= n,
                    views_of(out@) == views_of(cfg.emoji@).take(i as int),
                decreases n - i,
            {
                let ghost before = views_of(out@);
                out.push(cfg.emoji[i].clone());
                assert(views_of(out@) =~= before.push(cfg.emoji@[i as int]@));
                assert(views_of(cfg.emoji@).take(i + 1) =~= views_of(cfg.emoji@).take(i as int).push(
                    cfg.emoji@[i as int]@,
                ));
                i = i + 1;
            }
            assert(views_of(cfg.emoji@).take(n as int) =~= views_of(cfg.emoji@));
        },
        _ => {
            assert(views_of(out@) =~= Seq::<Seq<char>>::empty());
        },
    }
    out
}

} // verus!
