//! Commands typed in chat (`$name arg ...`): parsing, the registry of known
//! commands, and the decision whether a command may run.
use vstd::prelude::*;
use vstd::string::StringExecFns;
use crate::event::ChatEvent;
use crate::text::{has_prefix, parse_i64, parse_i64_spec, split_whitespace, split_ws, text_eq,
    text_starts_with, views_of};

verus! {

/// A command read from a message.
pub struct BotCommand {
    /// The first word, e.g. `$shell`.
    pub cmd: String,
    /// The remaining words.
    pub args: Vec<String>,
    /// The message the command came in.
    pub event: ChatEvent,
}

impl BotCommand {
    /// Reads a command from the text `s`: its first word is the command,
    /// the other words are its arguments.
    pub fn from_str(s: &str, e: ChatEvent) -> (c: BotCommand)
        requires
            split_ws(s@).len() > 0,
        ensures
            c.cmd@ == split_ws(s@)[0],
            views_of(c.args@) == split_ws(s@).drop_first(),
            c.event == e,
    {
        let mut words = split_whitespace(s);
        let ghost all = words@;
        let cmd = words.remove(0);
        assert(views_of(words@) =~= views_of(all).drop_first());
        BotCommand { cmd, args: words, event: e }
    }

    /// Whether this command is the one named `name`.
    pub fn is_for(&self, name: &str) -> (b: bool)
        ensures
            b == (self.cmd@ == name@),
    {
        text_eq(self.cmd.as_str(), name)
    }

    /// Decides whether this command may run, given the registry and whether
    /// the message came from a place where commands are accepted.
    pub fn invoke_command(&self, registry: &BotCommandBuilder, in_context: bool) -> (r:
        CommandRoute)
        ensures
            r == route_spec(*registry, self.cmd@, in_context),
    {
        registry.route(self.cmd.as_str(), in_context)
    }
}

/// Whether a message text is a command: it starts with `$` and holds a word.
pub open spec fn is_command_text(text: Seq<char>) -> bool {
    has_prefix(text, "$"@) && split_ws(text).len() > 0
}

/// The command a message text holds, if it is one (see `is_command_text`).
pub fn command_of(text: &str, e: ChatEvent) -> (r: Option<BotCommand>)
    ensures
        match r {
            None => !is_command_text(text@),
            Some(c) => is_command_text(text@) && c.cmd@ == split_ws(text@)[0] && views_of(c.args@)
                == split_ws(text@).drop_first() && c.event == e,
        },
{
    if text_starts_with(text, "$") {
        let words = split_whitespace(text);
        if words.len() > 0 {
            return Some(BotCommand::from_str(text, e));
        }
    }
    None
}

/// Whether a command may run.
pub enum CommandRoute {
    /// Commands are not accepted where the message came from.
    OutOfContext,
    /// A command for super users: run it if the sender is one.
    NeedSuperUser,
    /// Run it.
    Exec,
    /// A super-user command from someone who is none.
    Denied,
    /// No such command.
    Unknown,
}

/// Reply when commands are not accepted where the message came from.
pub const OUT_OF_CONTEXT_REPLY: &'static str = "不认识的环境喵，害怕喵";

/// Reply when a super-user command comes from someone else.
pub const NOT_SUPER_USER_REPLY: &'static str = "你是谁喵！我不认识你喵！哒咩！";

/// Reply to an unknown command.
pub const UNKNOWN_COMMAND_REPLY: &'static str = "不认识的命令喵！每日疑惑1/1";

/// The names of the commands anyone may use and of those only super users may use.
pub struct BotCommandBuilder {
    super_command: Vec<String>,
    common_command: Vec<String>,
}

pub open spec fn names_of(v: Seq<String>) -> Set<Seq<char>> {
    views_of(v).to_set()
}

pub open spec fn route_spec(reg: BotCommandBuilder, cmd: Seq<char>, in_context: bool) -> CommandRoute {
    if !in_context {
        CommandRoute::OutOfContext
    } else if reg.super_names().contains(cmd) {
        CommandRoute::NeedSuperUser
    } else if reg.common_names().contains(cmd) {
        CommandRoute::Exec
    } else {
        CommandRoute::Unknown
    }
}

fn find_name(v: &Vec<String>, name: &str) -> (b: bool)
    ensures
        b == names_of(v@).contains(name@),
{
    let n = v.len();
    let mut i: usize = 0;
    while i < n
        invariant
            n == v@.len(),
            i <= n,
            forall|k: int| 0 <= k < i ==> v@[k]@ != name@,
        decreases n - i,
    {
        if text_eq(v[i].as_str(), name) {
            assert(views_of(v@)[i as int] == name@);
            return true;
        }
        i = i + 1;
    }
    assert(!views_of(v@).contains(name@)) by {
        if views_of(v@).contains(name@) {
            let k = choose|k: int| 0 <= k < views_of(v@).len() && views_of(v@)[k] == name@;
            assert(v@[k]@ == name@);
        }
    }
    false
}

fn add_name(v: &mut Vec<String>, name: &str)
    ensures
        names_of(final(v)@) == names_of(old(v)@).insert(name@),
{
    if !find_name(v, name) {
        let ghost before = views_of(v@);
        v.push(String::from_str(name));
        assert(views_of(v@) =~= before.push(name@));
        proof {
            before.lemma_push_to_set_commute(name@);
        }
        assert(names_of(v@) =~= names_of(old(v)@).insert(name@));
    } else {
        assert(names_of(old(v)@).insert(name@) =~= names_of(old(v)@));
    }
}

impl BotCommandBuilder {
    pub closed spec fn super_names(&self) -> Set<Seq<char>> {
        names_of(self.super_command@)
    }

    pub closed spec fn common_names(&self) -> Set<Seq<char>> {
        names_of(self.common_command@)
    }

    /// No commands.
    pub fn new() -> (b: BotCommandBuilder)
        ensures
            b.super_names() == Set::<Seq<char>>::empty(),
            b.common_names() == Set::<Seq<char>>::empty(),
    {
        let b = BotCommandBuilder { super_command: Vec::new(), common_command: Vec::new() };
        assert(names_of(b.super_command@) =~= Set::<Seq<char>>::empty());
        assert(names_of(b.common_command@) =~= Set::<Seq<char>>::empty());
        b
    }

    /// Registers a command anyone may use.
    pub fn on_common_command(&mut self, cmd: &str)
        ensures
            final(self).common_names() == old(self).common_names().insert(cmd@),
            final(self).super_names() == old(self).super_names(),
    {
        add_name(&mut self.common_command, cmd);
    }

    /// Registers a command only super users may use.
    pub fn on_super_command(&mut self, cmd: &str)
        ensures
            final(self).super_names() == old(self).super_names().insert(cmd@),
            final(self).common_names() == old(self).common_names(),
    {
        add_name(&mut self.super_command, cmd);
    }

    /// Decides whether the command `cmd` may run: nothing runs out of
    /// context; a super-user command needs a super user (even when it is
    /// also registered for everyone); a common command runs; anything else
    /// is unknown.
    pub fn route(&self, cmd: &str, in_context: bool) -> (r: CommandRoute)
        ensures
            r == route_spec(*self, cmd@, in_context),
    {
        if !in_context {
            CommandRoute::OutOfContext
        } else if find_name(&self.super_command, cmd) {
            CommandRoute::NeedSuperUser
        } else if find_name(&self.common_command, cmd) {
            CommandRoute::Exec
        } else {
            CommandRoute::Unknown
        }
    }
}

/// The outcome of a super-user command once the sender has been checked.
pub fn super_user_verdict(is_super_user: bool) -> (r: CommandRoute)
    ensures
        r == (if is_super_user {
            CommandRoute::Exec
        } else {
            CommandRoute::Denied
        }),
{
    if is_super_user {
        CommandRoute::Exec
    } else {
        CommandRoute::Denied
    }
}


/// The words that read as `i64`, in order.
pub open spec fn parsed_i64s(words: Seq<Seq<char>>) -> Seq<i64>
    decreases words.len(),
{
    if words.len() == 0 {
        seq![]
    } else {
        let rest = parsed_i64s(words.drop_last());
        match parse_i64_spec(words.last()) {
            Some(x) => rest.push(x as i64),
            None => rest,
        }
    }
}

/// The arguments from position `from` on that read as `i64`, in order.
pub fn parse_i64_args(args: &Vec<String>, from: usize) -> (r: Vec<i64>)
    requires
        from <= args@.len(),
    ensures
        r@ == parsed_i64s(views_of(args@).skip(from as int)),
{
    let n = args.len();
    let mut out: Vec<i64> = Vec::new();
    let mut i: usize = from;
    assert(views_of(args@).subrange(from as int, from as int) =~= Seq::<Seq<char>>::empty());
    while i < n
        invariant
            n == args@.len(),
            from <= i <= n,
            out@ == parsed_i64s(views_of(args@).subrange(from as int, i as int)),
        decreases n - i,
    {
        assert(views_of(args@).subrange(from as int, i + 1).drop_last() =~= views_of(
            args@,
        ).subrange(from as int, i as int));
        assert(views_of(args@).subrange(from as int, i + 1).last() == args@[i as int]@);
        match parse_i64(args[i].as_str()) {
            Some(x) => out.push(x),
            None => {},
        }
        i = i + 1;
    }
    assert(views_of(args@).subrange(from as int, n as int) =~= views_of(args@).skip(from as int));
    out
}

} // verus!
