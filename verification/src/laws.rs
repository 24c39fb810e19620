//! Properties that hold across the library's operations.
use vstd::prelude::*;
use crate::text::{all_digits, has_prefix, decimal, digit_char, digits_value, is_digit, is_ws, nat_digits,
    join_with, parse_i64_spec, parse_usize_spec, split_tag, split_tag_from, split_ws, split_ws_from};
use crate::shell::{
    NO_OWNER, NO_SHELL_REPLY, ShellCmd, ShellState, ShellStepView, lock_spec, new_shell_spec,
    shell_spec, shell_step_spec, unlock_spec, use_spec,
};
use crate::emoji::{MarkOp, first_with, members_after, op_succeeds};
use crate::command::{BotCommandBuilder, route_spec};
use crate::chat::{AtMeStep, History, MessageView, all_at_most, at_me_spec, first_kept, keeps_from,
    window_after};
use crate::event::ChatEvent;
use crate::bot_check::{
    BanConfig, ChatBanAction, InviteAction, MAX_SHUT_UP_SECS, chat_decision, invite_counted,
    invite_decision, member_step_spec, screen_invite_spec, shut_up_secs, user_step_spec,
};

verus! {

proof fn lemma_digit_char(d: nat)
    requires
        d < 10,
    ensures
        is_digit(digit_char(d)),
        digit_char(d) as int - '0' as int == d,
{
}

proof fn lemma_nat_digits(n: nat)
    ensures
        nat_digits(n).len() >= 1,
        all_digits(nat_digits(n)),
        digits_value(nat_digits(n)) == n,
        is_digit(nat_digits(n)[0]),
    decreases n,
{
    if n < 10 {
        lemma_digit_char(n);
        let s = nat_digits(n);
        assert(s.drop_last() =~= Seq::<char>::empty());
        assert(digits_value(s.drop_last()) == 0);
        assert(s.last() == digit_char(n));
        assert(digits_value(s) == digits_value(s.drop_last()) * 10 + (s.last() as int - '0' as int));
    } else {
        lemma_nat_digits(n / 10);
        lemma_digit_char(n % 10);
        let s = nat_digits(n);
        assert(s.drop_last() =~= nat_digits(n / 10));
        assert forall|i: int| 0 <= i < s.len() implies is_digit(#[trigger] s[i]) by {
            if i < s.len() - 1 {
                assert(s[i] == nat_digits(n / 10)[i]);
            }
        }
        assert(s.last() == digit_char(n % 10));
        assert(digits_value(s) == digits_value(s.drop_last()) * 10 + (s.last() as int - '0' as int));
        assert((n / 10) * 10 + n % 10 == n);
    }
}

/// Reading back the decimal representation of an `i64` gives the number:
/// `int_to_string(n).parse::<i64>() == Ok(n)`.
pub proof fn law_decimal_reads_back(n: i64)
    ensures
        parse_i64_spec(decimal(n as int)) == Some(n as int),
{
    if n < 0 {
        let m = (-n) as nat;
        lemma_nat_digits(m);
        let s = decimal(n as int);
        assert(s.drop_first() =~= nat_digits(m));
    } else {
        lemma_nat_digits(n as nat);
    }
}

/// Reading back the decimal representation of a `usize` gives the number.
pub proof fn law_decimal_reads_back_usize(n: usize)
    ensures
        parse_usize_spec(decimal(n as int)) == Some(n as int),
{
    lemma_nat_digits(n as nat);
}

/// A user who creates a shell is bound to it.
pub proof fn law_new_shell_binds_creator(s: ShellState, owner: i64)
    ensures
        shell_spec(new_shell_spec(s, owner).0, owner) == Some(new_shell_spec(s, owner).1),
{
}

/// Taking a free shell makes the taker its owner and binds the taker to it.
pub proof fn law_lock_binds(s: ShellState, uid: i64, sid: usize)
    requires
        lock_spec(s, uid, sid).1,
    ensures
        lock_spec(s, uid, sid).0.owners[sid] == uid,
        shell_spec(lock_spec(s, uid, sid).0, uid) == Some(sid),
{
}

/// A shell taken by an account cannot be taken by another one until it is
/// given back.
pub proof fn law_lock_exclusive(s: ShellState, u1: i64, u2: i64, sid: usize)
    requires
        u1 != NO_OWNER,
        lock_spec(s, u1, sid).1,
    ensures
        !lock_spec(lock_spec(s, u1, sid).0, u2, sid).1,
{
}

/// Giving back a shell just taken restores the owners as they were; the
/// taker is no longer bound to any shell.
pub proof fn law_lock_unlock_roundtrip(s: ShellState, uid: i64, sid: usize)
    requires
        lock_spec(s, uid, sid).1,
    ensures
        unlock_spec(lock_spec(s, uid, sid).0, uid, sid).1,
        unlock_spec(lock_spec(s, uid, sid).0, uid, sid).0 == (ShellState {
            owners: s.owners,
            bindings: s.bindings.remove(uid),
            next: s.next,
        }),
{
    let l = lock_spec(s, uid, sid).0;
    let u = unlock_spec(l, uid, sid).0;
    assert(u.owners =~= s.owners);
    assert(u.bindings =~= s.bindings.remove(uid));
}

/// Only its owner can switch to a shell or give it back.
pub proof fn law_only_owner(s: ShellState, uid: i64, sid: usize)
    ensures
        use_spec(s, uid, sid).1 <==> (s.owners.contains_key(sid) && s.owners[sid] == uid),
        unlock_spec(s, uid, sid).1 <==> (s.owners.contains_key(sid) && s.owners[sid] == uid),
        !use_spec(s, uid, sid).1 ==> use_spec(s, uid, sid).0 == s,
        unlock_spec(s, uid, sid).0.owners == (if unlock_spec(s, uid, sid).1 {
            s.owners.insert(sid, NO_OWNER)
        } else {
            s.owners
        }),
{
}

/// Marking a member and then unmarking the same member leaves that member
/// unmarked and everybody else as before.
pub proof fn law_mark_then_unmark(members: Set<i64>, t: i64)
    ensures
        members_after(members_after(members, MarkOp::Add, seq![t]), MarkOp::Del, seq![t])
            == members.remove(t),
{
    let one = seq![t];
    assert(one.drop_first() =~= Seq::<i64>::empty());
    let after_add = members_after(members, MarkOp::Add, one);
    assert(after_add.contains(t));
    assert(first_with(one, after_add, true) == 0);
    if members.contains(t) {
        assert(first_with(one.drop_first(), members, false) == 0);
        assert(first_with(one, members, false) == 1);
        assert(after_add == members);
    } else {
        assert(first_with(one, members, false) == 0);
    }
    assert(members_after(after_add, MarkOp::Del, one) =~= members.remove(t));
}

/// `Clean` unmarks everyone and reports success.
pub proof fn law_clean_empties(members: Set<i64>, targets: Seq<i64>)
    ensures
        members_after(members, MarkOp::Clean, targets) == Set::<i64>::empty(),
        op_succeeds(members, MarkOp::Clean, targets),
{
}

/// Once a command is registered for super users, asking for it where
/// commands are accepted always calls for a super-user check; out of
/// context nothing ever runs.
pub proof fn law_super_command_needs_super_user(
    before: BotCommandBuilder,
    after: BotCommandBuilder,
    cmd: Seq<char>,
    other: Seq<char>,
)
    requires
        after.super_names() == before.super_names().insert(cmd),
        after.common_names() == before.common_names(),
    ensures
        route_spec(after, cmd, true) is NeedSuperUser,
        route_spec(after, other, false) is OutOfContext,
{
}

/// A common command that is not also a super-user command runs for anyone.
pub proof fn law_common_command_runs(
    before: BotCommandBuilder,
    after: BotCommandBuilder,
    cmd: Seq<char>,
)
    requires
        after.common_names() == before.common_names().insert(cmd),
        after.super_names() == before.super_names(),
        !before.super_names().contains(cmd),
    ensures
        route_spec(after, cmd, true) is Exec,
{
}

/// After a question, a conversation holds at most the configured number of
/// messages, all recorded no later than the question, the newest of them
/// being the question itself whenever the window and the lifetime are not
/// zero.
pub proof fn law_window_bounded(
    hist: History,
    question: Seq<char>,
    now: u64,
    max: usize,
    exp: u64,
)
    requires
        all_at_most(hist, now),
    ensures
        window_after(hist, question, now, max, exp).len() <= max,
        all_at_most(window_after(hist, question, now, max, exp), now),
        max > 0 && exp > 0 ==> window_after(hist, question, now, max, exp).len() >= 1 && window_after(
            hist,
            question,
            now,
            max,
            exp,
        ).last() == (now, MessageView::User(question)),
{
    let h = hist.push((now, MessageView::User(question)));
    lemma_first_kept_is_first(h, 0, now, max, exp);
    let k = first_kept(h, 0, now, max, exp);
    let w = h.skip(k);
    assert forall|i: int| 0 <= i < w.len() implies #[trigger] w[i].0 <= now by {
        if k + i < hist.len() {
            assert(w[i] == hist[k + i]);
        }
    }
    if max > 0 && exp > 0 {
        assert(keeps_from(h, h.len() - 1, now, max, exp));
        assert(k <= h.len() - 1);
        assert(w.last() == h.last());
    }
}

proof fn lemma_first_kept_is_first(hist: History, i: int, now: u64, max: usize, exp: u64)
    requires
        0 <= i <= hist.len(),
    ensures
        i <= first_kept(hist, i, now, max, exp) <= hist.len(),
        first_kept(hist, i, now, max, exp) < hist.len() ==> keeps_from(
            hist,
            first_kept(hist, i, now, max, exp),
            now,
            max,
            exp,
        ),
        forall|j: int|
            i <= j < hist.len() && keeps_from(hist, j, now, max, exp) ==> first_kept(
                hist,
                i,
                now,
                max,
                exp,
            ) <= j,
    decreases hist.len() - i,
{
    if i < hist.len() && !keeps_from(hist, i, now, max, exp) {
        lemma_first_kept_is_first(hist, i + 1, now, max, exp);
    }
}

/// A mute never exceeds what the platform accepts.
pub proof fn law_mute_capped(time: Option<u64>)
    ensures
        shut_up_secs(time) <= MAX_SHUT_UP_SECS,
        forall|t: u64| time == Some(t) && t <= MAX_SHUT_UP_SECS ==> shut_up_secs(time) == t,
        forall|t: u64| time == Some(t) && t >= MAX_SHUT_UP_SECS ==> shut_up_secs(time) == MAX_SHUT_UP_SECS,
        time is None ==> shut_up_secs(time) == MAX_SHUT_UP_SECS,
        MAX_SHUT_UP_SECS == 2332799,
{
}


pub open spec fn is_word(t: Seq<char>) -> bool {
    t.len() > 0 && forall|i: int| 0 <= i < t.len() ==> !is_ws(#[trigger] t[i])
}

proof fn lemma_split_from_words(s: Seq<char>, cur: Seq<char>)
    requires
        forall|i: int| 0 <= i < cur.len() ==> !is_ws(#[trigger] cur[i]),
    ensures
        forall|k: int| 0 <= k < split_ws_from(s, cur).len() ==> is_word(
            #[trigger] split_ws_from(s, cur)[k],
        ),
    decreases s.len(),
{
    if s.len() == 0 {
        if cur.len() > 0 {
            assert(split_ws_from(s, cur) == seq![cur]);
            assert(is_word(cur));
        } else {
            assert(split_ws_from(s, cur).len() == 0);
        }
    } else if is_ws(s[0]) {
        lemma_split_from_words(s.drop_first(), seq![]);
        let head: Seq<Seq<char>> = if cur.len() > 0 {
            seq![cur]
        } else {
            seq![]
        };
        let rest = split_ws_from(s.drop_first(), seq![]);
        assert(split_ws_from(s, cur) == head + rest);
        assert(cur.len() > 0 ==> is_word(cur));
        assert forall|k: int| 0 <= k < split_ws_from(s, cur).len() implies is_word(
            #[trigger] split_ws_from(s, cur)[k],
        ) by {
            if k >= head.len() {
                assert(split_ws_from(s, cur)[k] == rest[k - head.len()]);
            }
        }
    } else {
        let next = cur.push(s[0]);
        assert forall|i: int| 0 <= i < next.len() implies !is_ws(#[trigger] next[i]) by {
            if i < cur.len() {
                assert(next[i] == cur[i]);
            }
        }
        lemma_split_from_words(s.drop_first(), next);
        assert(split_ws_from(s, cur) == split_ws_from(s.drop_first(), next));
    }
}

/// Every word that splitting at white space yields is non-empty and holds
/// no white space.
pub proof fn law_split_yields_words(s: Seq<char>)
    ensures
        forall|k: int| 0 <= k < split_ws(s).len() ==> is_word(#[trigger] split_ws(s)[k]),
{
    lemma_split_from_words(s, seq![]);
}

/// An invitation reaches the counter only by passing all three screens in
/// turn (group invitation into a moderated group, inviter's activity, then
/// inviter's account level), and every other request is let pass at the
/// first screen that stops it.
pub proof fn law_invite_counted_after_all_screens(
    cfg: BanConfig,
    request_type: Seq<char>,
    sub_type: Seq<char>,
    group_id: i64,
    member_level: Seq<char>,
    user_level: i64,
)
    ensures
        (screen_invite_spec(cfg, request_type, sub_type, group_id) is FetchMember
            && member_step_spec(cfg, member_level) is FetchUser
            && user_step_spec(cfg, user_level) is Count) <==> invite_counted(
            cfg,
            request_type,
            sub_type,
            group_id,
            member_level,
            user_level,
        ),
        screen_invite_spec(cfg, request_type, sub_type, group_id) is Pass
            || screen_invite_spec(cfg, request_type, sub_type, group_id) is FetchMember,
        member_step_spec(cfg, member_level) is Pass || member_step_spec(cfg, member_level) is FetchUser,
        user_step_spec(cfg, user_level) is Pass || user_step_spec(cfg, user_level) is Count,
{
}

proof fn lemma_join_cons(a: Seq<char>, parts: Seq<Seq<char>>, sep: Seq<char>)
    requires
        parts.len() >= 1,
    ensures
        join_with(seq![a] + parts, sep) == a + sep + join_with(parts, sep),
    decreases parts.len(),
{
    let all = seq![a] + parts;
    if parts.len() == 1 {
        assert(all.drop_last() =~= seq![a]);
        assert(all.last() == parts[0]);
        assert(join_with(seq![a], sep) == a);
        assert(join_with(all, sep) == join_with(all.drop_last(), sep) + sep + all.last());
        assert(join_with(parts, sep) == parts[0]);
    } else {
        lemma_join_cons(a, parts.drop_last(), sep);
        assert(all.drop_last() =~= seq![a] + parts.drop_last());
        assert(all.last() == parts.last());
        assert(join_with(all, sep) == join_with(all.drop_last(), sep) + sep + all.last());
        assert(join_with(parts, sep) == join_with(parts.drop_last(), sep) + sep + parts.last());
        assert(a + sep + join_with(parts.drop_last(), sep) + sep + parts.last() =~= a + sep + (
        join_with(parts.drop_last(), sep) + sep + parts.last()));
    }
}

proof fn lemma_split_tag_joins(s: Seq<char>, tag: Seq<char>, cur: Seq<char>)
    ensures
        split_tag_from(s, tag, cur).len() >= 1,
        join_with(split_tag_from(s, tag, cur), tag) == cur + s,
    decreases s.len(),
{
    if tag.len() > 0 && crate::text::has_prefix(s, tag) {
        let rest = s.skip(tag.len() as int);
        lemma_split_tag_joins(rest, tag, seq![]);
        lemma_join_cons(cur, split_tag_from(rest, tag, seq![]), tag);
        assert(seq![] + rest =~= rest);
        assert(s =~= s.take(tag.len() as int) + rest);
        assert(cur + tag + rest =~= cur + s);
    } else if s.len() == 0 {
        assert(seq![cur].len() == 1);
        assert(cur + s =~= cur);
    } else {
        lemma_split_tag_joins(s.drop_first(), tag, cur.push(s[0]));
        assert(cur.push(s[0]) + s.drop_first() =~= cur + s);
    }
}

/// Cutting an answer at its separator loses nothing: the parts joined with
/// the separator give the answer back, for every separator (an empty one
/// cuts nothing).
pub proof fn law_split_tag_rejoins(s: Seq<char>, tag: Seq<char>)
    ensures
        join_with(split_tag(s, tag), tag) == s,
        split_tag(s, tag).len() >= 1,
{
    lemma_split_tag_joins(s, tag, seq![]);
    assert(seq![] + s =~= s);
}

/// Every banned-word hit whose count has reached the mute threshold, and not
/// the kick threshold, mutes the member again for the configured time: not
/// only the hit that first reaches it.
pub proof fn law_mute_at_every_hit_past_threshold(cfg: BanConfig, times: i32, mute_at: i32)
    requires
        cfg.enable_chat_shut_up == Some(mute_at),
        times >= mute_at,
        forall|k: i32| cfg.enable_chat_kick == Some(k) ==> times < k,
    ensures
        chat_decision(cfg, times) == (ChatBanAction::Ban { secs: shut_up_secs(cfg.chat_shut_up_time), times }),
{
}

/// Every hit whose count has reached the kick threshold removes the member,
/// and below both thresholds a configured threshold only warns.
pub proof fn law_chat_thresholds(cfg: BanConfig, times: i32)
    ensures
        forall|k: i32| cfg.enable_chat_kick == Some(k) && times >= k ==> (#[trigger] chat_decision(
            cfg,
            times,
        )) is Kick,
        (forall|k: i32| cfg.enable_chat_kick == Some(k) ==> times < k) && (forall|m: i32|
            cfg.enable_chat_shut_up == Some(m) ==> times < m) ==> (chat_decision(cfg, times) is Warn
            <==> (cfg.enable_chat_kick is Some || cfg.enable_chat_shut_up is Some)),
        cfg.enable_chat_kick is None && cfg.enable_chat_shut_up is None ==> chat_decision(cfg, times) is Nothing,
{
}

/// A removal lets the member ask to join again exactly as configured, and
/// when nothing is configured it does: for chat hits and for invitations.
pub proof fn law_kick_can_request_defaults_to_true(cfg: BanConfig, times: i32)
    ensures
        chat_decision(cfg, times) is Kick ==> chat_decision(cfg, times)->Kick_can_request == match cfg.kick_can_request {
            Some(b) => b,
            None => true,
        },
        invite_decision(cfg, times) is Kick ==> invite_decision(cfg, times)->Kick_can_request == match cfg.kick_can_request {
            Some(b) => b,
            None => true,
        },
        cfg.kick_can_request is None && chat_decision(cfg, times) is Kick ==> chat_decision(cfg, times)->Kick_can_request,
        cfg.kick_can_request is None && invite_decision(cfg, times) is Kick ==> invite_decision(cfg, times)->Kick_can_request,
        chat_decision(cfg, times) is Kick ==> chat_decision(cfg, times)->Kick_times == times,
        invite_decision(cfg, times) is Kick ==> invite_decision(cfg, times)->Kick_times == times,
{
}

/// Every counted invitation whose count has reached the kick threshold
/// removes the inviter; below it, a configured threshold only notifies.
pub proof fn law_invite_thresholds(cfg: BanConfig, times: i32, k: i32)
    requires
        cfg.enable_invite_kick == Some(k),
    ensures
        times >= k ==> invite_decision(cfg, times) is Kick,
        times < k ==> invite_decision(cfg, times) == (InviteAction::Notify { times }),
{
}

/// While the bot is switched off, nothing addressed to it is answered,
/// whatever the text.
pub proof fn law_switched_off_is_silent(e: ChatEvent)
    ensures
        at_me_spec(e, false) is Ignore,
{
}

/// A successful switch binds the user to the shell switched to, and only
/// the switching user's binding changes.
pub proof fn law_use_binds(s: ShellState, uid: i64, sid: usize)
    ensures
        use_spec(s, uid, sid).1 ==> shell_spec(use_spec(s, uid, sid).0, uid) == Some(sid),
        use_spec(s, uid, sid).0.owners == s.owners,
        forall|v: i64| v != uid ==> shell_spec(#[trigger] use_spec(s, uid, sid).0, v) == shell_spec(s, v),
{
}

/// Code runs in the shell its sender is bound to, and without one it does
/// not run; running code changes no bookkeeping.
pub proof fn law_eval_runs_in_senders_shell(s: ShellState, uid: i64, code: String)
    ensures
        shell_step_spec(s, uid, ShellCmd::Eval(code)).0 == s,
        shell_spec(s, uid) matches Some(id) ==> shell_step_spec(s, uid, ShellCmd::Eval(code)).1
            == ShellStepView::Eval(id, code@),
        shell_spec(s, uid) is None ==> shell_step_spec(s, uid, ShellCmd::Eval(code)).1
            == ShellStepView::Reply(NO_SHELL_REPLY@),
{
}

/// A shell made by one user stays the one their code runs in when another
/// user makes a shell afterwards.
pub proof fn law_eval_after_two_new_shells(s: ShellState, u1: i64, u2: i64, code: String)
    requires
        u1 != u2,
    ensures
        ({
            let (s1, id1) = new_shell_spec(s, u1);
            let (s2, _id2) = new_shell_spec(s1, u2);
            shell_step_spec(s2, u1, ShellCmd::Eval(code)).1 == ShellStepView::Eval(id1, code@)
        }),
{
    let (s1, id1) = new_shell_spec(s, u1);
    let (s2, id2) = new_shell_spec(s1, u2);
    assert(shell_spec(s1, u1) == Some(id1));
    assert(s2.bindings[u1] == s1.bindings[u1]);
    assert(s1.owners.contains_key(id1));
    assert(s2.owners.contains_key(id1));
    assert(shell_spec(s2, u1) == Some(id1));
}

/// While the bot is on, a message addressed to it that is no command is
/// answered: an empty text with a question back, any other text is put to
/// the model as the question of the group's conversation (the sender's
/// outside groups); commands and messages without text are left alone.
pub proof fn law_at_me_answers(e: ChatEvent)
    ensures
        e.text is None ==> at_me_spec(e, true) is Ignore,
        e.text matches Some(t) && has_prefix(t@, "$"@) ==> at_me_spec(e, true) is Ignore,
        e.text matches Some(t) && t@.len() == 0 ==> at_me_spec(e, true) is AskWhat,
        e.text matches Some(t) ==> (t@.len() > 0 && !has_prefix(t@, "$"@) ==> at_me_spec(e, true) == (AtMeStep::Ask {
            ctx_id: match e.group_id {
                Some(g) => g,
                None => e.user_id,
            },
            question: t,
        })),
{
    if let Some(t) = e.text {
        if t@.len() == 0 {
            reveal_strlit("$");
            assert(!has_prefix(t@, "$"@));
        }
    }
}

} // verus!
