//! The JavaScript shell plugin: which shells exist, who owns them, which
//! shell each user is bound to, and how `$shell` commands are read.
use vstd::prelude::*;
use vstd::string::StringExecFns;
use std::collections::HashMap;
use crate::command::BotCommandBuilder;
use crate::text::{decimal, join, join_with, parse_usize, parse_usize_spec, push_decimal,
    push_decimal_unsigned, text_eq, views_of};

verus! {

broadcast use vstd::std_specs::hash::group_hash_axioms;

/// Owner value of a shell nobody owns.
pub const NO_OWNER: i64 = -1;

/// The bookkeeping of shells, as a mathematical value.
pub ghost struct ShellState {
    /// The owner of each shell (`NO_OWNER` when it is free).
    pub owners: Map<usize, i64>,
    /// The shell each user is bound to.
    pub bindings: Map<i64, usize>,
    /// The number the next shell gets.
    pub next: usize,
}

/// Creating a shell for `owner`: it gets the next number (numbers wrap
/// around at the top), its owner is `owner` unless a shell of that number
/// already exists, and `owner` is bound to it.
pub open spec fn new_shell_spec(s: ShellState, owner: i64) -> (ShellState, usize) {
    let id = s.next;
    (
        ShellState {
            owners: if s.owners.contains_key(id) {
                s.owners
            } else {
                s.owners.insert(id, owner)
            },
            bindings: s.bindings.insert(owner, id),
            next: if s.next < usize::MAX {
                (s.next + 1) as usize
            } else {
                0
            },
        },
        id,
    )
}

/// The shell `uid` is bound to, if it exists.
pub open spec fn shell_spec(s: ShellState, uid: i64) -> Option<usize> {
    if s.bindings.contains_key(uid) && s.owners.contains_key(s.bindings[uid]) {
        Some(s.bindings[uid])
    } else {
        None
    }
}

/// Switching `uid` to shell `sid`: allowed when `uid` owns it.
pub open spec fn use_spec(s: ShellState, uid: i64, sid: usize) -> (ShellState, bool) {
    if s.owners.contains_key(sid) && s.owners[sid] == uid {
        (ShellState { bindings: s.bindings.insert(uid, sid), ..s }, true)
    } else {
        (s, false)
    }
}

/// Taking shell `sid` for `uid`: allowed when it is free; `uid` then owns it
/// and is bound to it.
pub open spec fn lock_spec(s: ShellState, uid: i64, sid: usize) -> (ShellState, bool) {
    if s.owners.contains_key(sid) && s.owners[sid] == NO_OWNER {
        (
            ShellState {
                owners: s.owners.insert(sid, uid),
                bindings: s.bindings.insert(uid, sid),
                next: s.next,
            },
            true,
        )
    } else {
        (s, false)
    }
}

/// Giving shell `sid` back: `uid`'s binding to it is dropped in any case;
/// the shell becomes free when `uid` owns it, and only then is this a success.
pub open spec fn unlock_spec(s: ShellState, uid: i64, sid: usize) -> (ShellState, bool) {
    let bindings = if s.bindings.contains_key(uid) && s.bindings[uid] == sid {
        s.bindings.remove(uid)
    } else {
        s.bindings
    };
    if s.owners.contains_key(sid) && s.owners[sid] == uid {
        (ShellState { owners: s.owners.insert(sid, NO_OWNER), bindings, next: s.next }, true)
    } else {
        (ShellState { owners: s.owners, bindings, next: s.next }, false)
    }
}

/// The shells and their users.
pub struct ShellMemory {
    instance_owner: HashMap<usize, i64>,
    id_gen: usize,
    user_shell: HashMap<i64, usize>,
}

impl View for ShellMemory {
    type V = ShellState;

    closed spec fn view(&self) -> ShellState {
        ShellState {
            owners: self.instance_owner@,
            bindings: self.user_shell@,
            next: self.id_gen,
        }
    }
}

impl ShellMemory {
    /// No shells.
    pub fn new() -> (m: ShellMemory)
        ensures
            m@ == (ShellState { owners: Map::empty(), bindings: Map::empty(), next: 0 }),
    {
        ShellMemory { instance_owner: HashMap::new(), id_gen: 0, user_shell: HashMap::new() }
    }

    /// Creates a shell for `owner` and binds `owner` to it; returns its number.
    pub fn new_shell(&mut self, owner: i64) -> (id: usize)
        ensures
            (final(self)@, id) == new_shell_spec(old(self)@, owner),
    {
        let id = self.id_gen;
        self.id_gen = if self.id_gen < usize::MAX {
            self.id_gen + 1
        } else {
            0
        };
        self.user_shell.insert(owner, id);
        if !self.instance_owner.contains_key(&id) {
            self.instance_owner.insert(id, owner);
        }
        id
    }

    /// The shell `uid` is bound to, if it exists.
    pub fn shell(&self, uid: i64) -> (r: Option<usize>)
        ensures
            r == shell_spec(self@, uid),
    {
        match self.user_shell.get(&uid) {
            Some(sid) => {
                if self.instance_owner.contains_key(sid) {
                    Some(*sid)
                } else {
                    None
                }
            },
            None => None,
        }
    }

    /// The owner of shell `sid`, if it exists.
    pub fn owner(&self, sid: usize) -> (r: Option<i64>)
        ensures
            r == (if self@.owners.contains_key(sid) {
                Some(self@.owners[sid])
            } else {
                None
            }),
    {
        match self.instance_owner.get(&sid) {
            Some(o) => Some(*o),
            None => None,
        }
    }

    /// The owner of every shell.
    pub fn owner_table(&self) -> (r: &HashMap<usize, i64>)
        ensures
            r@ == self@.owners,
    {
        &self.instance_owner
    }

    /// Binds `uid` to shell `sid` when `uid` owns it.
    pub fn use_shell(&mut self, uid: i64, sid: usize) -> (r: Result<(), ()>)
        ensures
            (final(self)@, r is Ok) == use_spec(old(self)@, uid, sid),
    {
        let owned = match self.instance_owner.get(&sid) {
            Some(o) => *o == uid,
            None => false,
        };
        if owned {
            self.user_shell.insert(uid, sid);
            Ok(())
        } else {
            Err(())
        }
    }

    /// Takes the free shell `sid` for `uid`.
    pub fn lock_shell(&mut self, uid: i64, sid: usize) -> (r: Result<(), ()>)
        ensures
            (final(self)@, r is Ok) == lock_spec(old(self)@, uid, sid),
    {
        let free = match self.instance_owner.get(&sid) {
            Some(o) => *o == NO_OWNER,
            None => false,
        };
        if free {
            self.instance_owner.insert(sid, uid);
            self.user_shell.insert(uid, sid);
            Ok(())
        } else {
            Err(())
        }
    }

    /// Gives shell `sid` back on behalf of `uid`.
    pub fn unlock_shell(&mut self, uid: i64, sid: usize) -> (r: Result<(), ()>)
        ensures
            (final(self)@, r is Ok) == unlock_spec(old(self)@, uid, sid),
    {
        let bound = match self.user_shell.get(&uid) {
            Some(x) => *x == sid,
            None => false,
        };
        if bound {
            self.user_shell.remove(&uid);
        }
        let owned = match self.instance_owner.get(&sid) {
            Some(o) => *o == uid,
            None => false,
        };
        if owned {
            self.instance_owner.insert(sid, NO_OWNER);
            Ok(())
        } else {
            Err(())
        }
    }
}

// ---------------------------------------------------------------------
// Reading `$shell` commands
// ---------------------------------------------------------------------

/// Registers `$shell` as a super-user command.
pub fn register_shell_cmd(b: &mut BotCommandBuilder)
    ensures
        final(b).super_names() == old(b).super_names().insert("$shell"@),
        final(b).common_names() == old(b).common_names(),
{
    b.on_super_command("$shell");
}

/// What a `$shell` command asks for.
pub enum ShellCmd {
    /// No sub-command.
    Missing,
    Help,
    /// Take a shell; `None` when the number is missing or unreadable.
    Lock(Option<usize>),
    /// Give a shell back.
    Unlock(Option<usize>),
    /// Switch to a shell.
    Use(Option<usize>),
    List,
    New,
    /// Run the words, joined by spaces, as JavaScript.
    Eval(String),
}

pub open spec fn shell_number(args: Seq<Seq<char>>) -> Option<usize> {
    if args.len() > 1 {
        match parse_usize_spec(args[1]) {
            Some(n) => Some(n as usize),
            None => None,
        }
    } else {
        None
    }
}

/// The sub-command the arguments of a `$shell` command ask for.
pub open spec fn shell_cmd_matches(c: ShellCmd, args: Seq<Seq<char>>) -> bool {
    if args.len() == 0 {
        c is Missing
    } else if args[0] == "help"@ {
        c is Help
    } else if args[0] == "lock"@ {
        c == ShellCmd::Lock(shell_number(args))
    } else if args[0] == "unlock"@ {
        c == ShellCmd::Unlock(shell_number(args))
    } else if args[0] == "use"@ {
        c == ShellCmd::Use(shell_number(args))
    } else if args[0] == "list"@ {
        c is List
    } else if args[0] == "new"@ {
        c is New
    } else {
        c matches ShellCmd::Eval(code) && code@ == join_with(args, " "@)
    }
}

fn shell_number_exec(args: &Vec<String>) -> (r: Option<usize>)
    ensures
        r == shell_number(views_of(args@)),
{
    if args.len() > 1 {
        parse_usize(args[1].as_str())
    } else {
        None
    }
}

/// Reads the sub-command of a `$shell` command from its arguments.
pub fn parse_shell_cmd(args: &Vec<String>) -> (r: ShellCmd)
    ensures
        shell_cmd_matches(r, views_of(args@)),
{
    if args.len() == 0 {
        return ShellCmd::Missing;
    }
    let sub = args[0].as_str();
    if text_eq(sub, "help") {
        ShellCmd::Help
    } else if text_eq(sub, "lock") {
        ShellCmd::Lock(shell_number_exec(args))
    } else if text_eq(sub, "unlock") {
        ShellCmd::Unlock(shell_number_exec(args))
    } else if text_eq(sub, "use") {
        ShellCmd::Use(shell_number_exec(args))
    } else if text_eq(sub, "list") {
        ShellCmd::List
    } else if text_eq(sub, "new") {
        ShellCmd::New
    } else {
        ShellCmd::Eval(join(args, " "))
    }
}

/// Reply to `$shell help`.
pub const HELP_REPLY: &'static str = "$shell 指令目前支持Js Shell的喵。使用$shell new 创建新shell，$shell use 切换绑定的shell,$shell lock 锁定个人上下文shell $shell unlock 解锁个人上下文 $shell list shell和所有者列表";

/// Reply when no sub-command is given.
pub const MISSING_REPLY: &'static str = "请指定命令喵";

/// Reply when a shell cannot be taken.
pub const LOCK_FAILED_REPLY: &'static str = "shell不存在或者shell已经被使用了喵";

/// Reply when a shell was given back.
pub const UNLOCK_OK_REPLY: &'static str = "shell解绑成功喵";

/// Reply when a shell does not exist or belongs to someone else.
pub const NOT_YOURS_REPLY: &'static str = "shell不存在或者shell不是你的喵";

/// Reply when the user switched shells.
pub const USE_OK_REPLY: &'static str = "shell上下文切换成功喵";

/// Reply when the user has no shell to run code in.
pub const NO_SHELL_REPLY: &'static str = "你没有锁定自己的shell喵";

/// Reply when code was handed to the shell.
pub const TASK_CREATED_REPLY: &'static str = "异步任务创建成功喵！";

/// Reply when the shell's engine has stopped; `on_receive` tells whether it
/// was noticed while waiting for the result rather than while submitting.
pub fn engine_stopped_reply(reason: &str, on_receive: bool) -> (r: String)
    ensures
        r@ == (if on_receive {
            "Js引擎已经停止运行了喵!原因："@
        } else {
            "Js引擎已经停止运行了喵。原因："@
        }) + reason@,
{
    let mut s = if on_receive {
        String::from_str("Js引擎已经停止运行了喵!原因：")
    } else {
        String::from_str("Js引擎已经停止运行了喵。原因：")
    };
    s.append(reason);
    s
}

/// Reply when the shell number is missing or unreadable.
pub const BAD_NUMBER_REPLY: &'static str = "参数必须是shell编号喵,请检查参数是否正确喵";

pub open spec fn lock_ok_text(n: usize) -> Seq<char> {
    "shell绑定成功喵。现在shell"@ + decimal(n as int) + "是你的了喵"@
}

pub open spec fn new_ok_text(id: usize) -> Seq<char> {
    "shell创建成功喵！现在"@ + decimal(id as int) + "是你的了喵"@
}

/// Reply when a shell was taken.
pub fn lock_ok_reply(n: usize) -> (r: String)
    ensures
        r@ == lock_ok_text(n),
{
    let mut s = String::from_str("shell绑定成功喵。现在shell");
    push_decimal_unsigned(&mut s, n as u64);
    s.append("是你的了喵");
    s
}

/// Reply when a shell was created.
pub fn new_ok_reply(id: usize) -> (r: String)
    ensures
        r@ == new_ok_text(id),
{
    let mut s = String::from_str("shell创建成功喵！现在");
    push_decimal_unsigned(&mut s, id as u64);
    s.append("是你的了喵");
    s
}

pub open spec fn list_line(sid: usize, owner: i64, nick: Seq<char>) -> Seq<char> {
    "编号"@ + decimal(sid as int) + "的shell属于"@ + decimal(owner as int) + "("@ + nick + ")喵"@
}

pub open spec fn list_lines(entries: Seq<(usize, i64, String)>) -> Seq<Seq<char>> {
    seq!["Shel列表如下喵："@] + entries.map_values(
        |e: (usize, i64, String)| list_line(e.0, e.1, e.2@),
    )
}

/// Reply to `$shell list`: a title line, then one line per shell with its
/// number, its owner and the owner's nickname.
pub fn list_reply(entries: &Vec<(usize, i64, String)>) -> (r: String)
    ensures
        r@ == join_with(list_lines(entries@), "\n"@),
{
    let mut lines: Vec<String> = Vec::new();
    lines.push(String::from_str("Shel列表如下喵："));
    let n = entries.len();
    let mut i: usize = 0;
    while i < n
        invariant
            n == entries@.len(),
            i <= n,
            views_of(lines@) == list_lines(entries@.take(i as int)),
        decreases n - i,
    {
        let mut s = String::from_str("编号");
        push_decimal_unsigned(&mut s, entries[i].0 as u64);
        s.append("的shell属于");
        push_decimal(&mut s, entries[i].1);
        s.append("(");
        s.append(entries[i].2.as_str());
        s.append(")喵");
        let ghost before = views_of(lines@);
        lines.push(s);
        assert(views_of(lines@) =~= before.push(
            list_line(entries@[i as int].0, entries@[i as int].1, entries@[i as int].2@),
        ));
        assert(list_lines(entries@.take(i + 1)) =~= list_lines(entries@.take(i as int)).push(
            list_line(entries@[i as int].0, entries@[i as int].1, entries@[i as int].2@),
        ));
        i = i + 1;
    }
    assert(entries@.take(n as int) =~= entries@);
    join(&lines, "\n")
}


// ---------------------------------------------------------------------
// Running `$shell` commands
// ---------------------------------------------------------------------

/// What the host does after the library has run a `$shell` command.
pub enum ShellStep {
    /// Answer with this text; nothing else is left to do.
    Reply(String),
    /// Shell `id` was created: start its engine, then answer with the text.
    Started(usize, String),
    /// Look up each owner's nickname, then answer with `list_reply`.
    List,
    /// Answer that the task was created, then run `code` on shell `id`.
    Eval(usize, String),
}

/// A `ShellStep` with its texts taken by their views.
pub ghost enum ShellStepView {
    Reply(Seq<char>),
    Started(usize, Seq<char>),
    List,
    Eval(usize, Seq<char>),
}

impl View for ShellStep {
    type V = ShellStepView;

    open spec fn view(&self) -> ShellStepView {
        match self {
            ShellStep::Reply(t) => ShellStepView::Reply(t@),
            ShellStep::Started(id, t) => ShellStepView::Started(*id, t@),
            ShellStep::List => ShellStepView::List,
            ShellStep::Eval(id, code) => ShellStepView::Eval(*id, code@),
        }
    }
}

/// The new bookkeeping and the next step after `uid` sent `cmd`: the
/// number-taking sub-commands answer the missing-number reply without a
/// number, and otherwise answer by whether the operation succeeded; `new`
/// creates a shell; running code needs a shell bound to `uid`.
pub open spec fn shell_step_spec(s: ShellState, uid: i64, cmd: ShellCmd) -> (ShellState, ShellStepView) {
    match cmd {
        ShellCmd::Missing => (s, ShellStepView::Reply(MISSING_REPLY@)),
        ShellCmd::Help => (s, ShellStepView::Reply(HELP_REPLY@)),
        ShellCmd::Lock(n) => match n {
            None => (s, ShellStepView::Reply(BAD_NUMBER_REPLY@)),
            Some(sid) => {
                let (t, ok) = lock_spec(s, uid, sid);
                (t, ShellStepView::Reply(if ok { lock_ok_text(sid) } else { LOCK_FAILED_REPLY@ }))
            },
        },
        ShellCmd::Unlock(n) => match n {
            None => (s, ShellStepView::Reply(BAD_NUMBER_REPLY@)),
            Some(sid) => {
                let (t, ok) = unlock_spec(s, uid, sid);
                (t, ShellStepView::Reply(if ok { UNLOCK_OK_REPLY@ } else { NOT_YOURS_REPLY@ }))
            },
        },
        ShellCmd::Use(n) => match n {
            None => (s, ShellStepView::Reply(BAD_NUMBER_REPLY@)),
            Some(sid) => {
                let (t, ok) = use_spec(s, uid, sid);
                (t, ShellStepView::Reply(if ok { USE_OK_REPLY@ } else { NOT_YOURS_REPLY@ }))
            },
        },
        ShellCmd::List => (s, ShellStepView::List),
        ShellCmd::New => {
            let (t, id) = new_shell_spec(s, uid);
            (t, ShellStepView::Started(id, new_ok_text(id)))
        },
        ShellCmd::Eval(code) => match shell_spec(s, uid) {
            None => (s, ShellStepView::Reply(NO_SHELL_REPLY@)),
            Some(id) => (s, ShellStepView::Eval(id, code@)),
        },
    }
}

/// Runs the `$shell` command `cmd` of `uid` on the bookkeeping and says what
/// the host does next.
pub fn shell_step(mem: &mut ShellMemory, uid: i64, cmd: ShellCmd) -> (r: ShellStep)
    ensures
        (final(mem)@, r@) == shell_step_spec(old(mem)@, uid, cmd),
{
    match cmd {
        ShellCmd::Missing => ShellStep::Reply(String::from_str(MISSING_REPLY)),
        ShellCmd::Help => ShellStep::Reply(String::from_str(HELP_REPLY)),
        ShellCmd::Lock(n) => match n {
            None => ShellStep::Reply(String::from_str(BAD_NUMBER_REPLY)),
            Some(sid) => match mem.lock_shell(uid, sid) {
                Ok(_) => ShellStep::Reply(lock_ok_reply(sid)),
                Err(_) => ShellStep::Reply(String::from_str(LOCK_FAILED_REPLY)),
            },
        },
        ShellCmd::Unlock(n) => match n {
            None => ShellStep::Reply(String::from_str(BAD_NUMBER_REPLY)),
            Some(sid) => match mem.unlock_shell(uid, sid) {
                Ok(_) => ShellStep::Reply(String::from_str(UNLOCK_OK_REPLY)),
                Err(_) => ShellStep::Reply(String::from_str(NOT_YOURS_REPLY)),
            },
        },
        ShellCmd::Use(n) => match n {
            None => ShellStep::Reply(String::from_str(BAD_NUMBER_REPLY)),
            Some(sid) => match mem.use_shell(uid, sid) {
                Ok(_) => ShellStep::Reply(String::from_str(USE_OK_REPLY)),
                Err(_) => ShellStep::Reply(String::from_str(NOT_YOURS_REPLY)),
            },
        },
        ShellCmd::List => ShellStep::List,
        ShellCmd::New => {
            let id = mem.new_shell(uid);
            ShellStep::Started(id, new_ok_reply(id))
        },
        ShellCmd::Eval(code) => match mem.shell(uid) {
            None => ShellStep::Reply(String::from_str(NO_SHELL_REPLY)),
            Some(id) => ShellStep::Eval(id, code),
        },
    }
}

/// The text `kovi::chrono` gives for the UTC time `secs` seconds after the
/// Unix epoch in the form `%Y-%m-%d %H:%M:%S`; `None` when out of range.
pub uninterp spec fn utc_time_text(secs: i64) -> Option<Seq<char>>;

/// Calls `chrono::DateTime::from_timestamp(secs, 0)` and formats the result
/// with `%Y-%m-%d %H:%M:%S`. Trusted to depend on `secs` alone; nothing is
/// stated of the calendar arithmetic.
#[verifier::external_body]
fn format_utc_time(secs: i64) -> (r: Option<String>)
    ensures
        match r {
            Some(t) => utc_time_text(secs) == Some(t@),
            None => utc_time_text(secs) is None,
        },
{
    match kovi::chrono::DateTime::from_timestamp(secs, 0) {
        Some(d) => Some(d.format("%Y-%m-%d %H:%M:%S").to_string()),
        None => None,
    }
}

pub open spec fn eval_reply_text(time: Seq<char>, output: Seq<char>) -> Seq<char> {
    "任务"@ + time + "的执行结果如下："@ + output
}

/// Reply with the output of code submitted at `submitted` (Unix seconds);
/// `None` when that time cannot be written as a date.
pub fn eval_result_reply(submitted: i64, output: &str) -> (r: Option<String>)
    ensures
        match utc_time_text(submitted) {
            Some(t) => r matches Some(s) && s@ == eval_reply_text(t, output@),
            None => r is None,
        },
{
    match format_utc_time(submitted) {
        Some(t) => {
            let mut s = String::from_str("任务");
            s.append(t.as_str());
            s.append("的执行结果如下：");
            s.append(output);
            Some(s)
        },
        None => None,
    }
}

} // verus!
