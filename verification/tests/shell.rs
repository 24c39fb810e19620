use kovi_plugins::shell::{
    eval_result_reply, list_reply, lock_ok_reply, new_ok_reply, parse_shell_cmd, shell_step, ShellCmd, ShellMemory,
    ShellStep, BAD_NUMBER_REPLY, HELP_REPLY, LOCK_FAILED_REPLY, MISSING_REPLY, NOT_YOURS_REPLY, NO_OWNER,
    NO_SHELL_REPLY, UNLOCK_OK_REPLY, USE_OK_REPLY,
};

fn words(s: &str) -> Vec<String> {
    s.split_whitespace().map(|x| x.to_string()).collect()
}

#[test]
fn new_shell_binds_creator() {
    let mut m = ShellMemory::new();
    assert_eq!(m.new_shell(7), 0);
    assert_eq!(m.new_shell(8), 1);
    assert_eq!(m.shell(7), Some(0));
    assert_eq!(m.shell(8), Some(1));
    assert_eq!(m.owner(0), Some(7));
    assert_eq!(m.shell(9), None);
}

#[test]
fn use_needs_ownership() {
    let mut m = ShellMemory::new();
    m.new_shell(7);
    m.new_shell(8);
    assert_eq!(m.use_shell(7, 1), Err(()));
    assert_eq!(m.use_shell(8, 0), Err(()));
    assert_eq!(m.use_shell(7, 0), Ok(()));
    assert_eq!(m.use_shell(7, 5), Err(()));
}

#[test]
fn lock_unlock_roundtrip() {
    let mut m = ShellMemory::new();
    m.new_shell(7);
    assert_eq!(m.lock_shell(9, 0), Err(()));
    assert_eq!(m.unlock_shell(7, 0), Ok(()));
    assert_eq!(m.owner(0), Some(NO_OWNER));
    assert_eq!(m.shell(7), None);
    assert_eq!(m.lock_shell(9, 0), Ok(()));
    assert_eq!(m.shell(9), Some(0));
    assert_eq!(m.lock_shell(7, 0), Err(()));
    assert_eq!(m.unlock_shell(7, 0), Err(()));
    assert_eq!(m.unlock_shell(9, 0), Ok(()));
    assert_eq!(m.owner(0), Some(NO_OWNER));
    assert_eq!(m.unlock_shell(9, 3), Err(()));
    assert_eq!(m.owner_table().len(), 1);
}

#[test]
fn shell_subcommands() {
    assert!(matches!(parse_shell_cmd(&words("")), ShellCmd::Missing));
    assert!(matches!(parse_shell_cmd(&words("help")), ShellCmd::Help));
    assert!(matches!(parse_shell_cmd(&words("lock 3")), ShellCmd::Lock(Some(3))));
    assert!(matches!(parse_shell_cmd(&words("lock x")), ShellCmd::Lock(None)));
    assert!(matches!(parse_shell_cmd(&words("unlock")), ShellCmd::Unlock(None)));
    assert!(matches!(parse_shell_cmd(&words("use 0")), ShellCmd::Use(Some(0))));
    assert!(matches!(parse_shell_cmd(&words("list")), ShellCmd::List));
    assert!(matches!(parse_shell_cmd(&words("new")), ShellCmd::New));
    match parse_shell_cmd(&words("let  x = 1;   x + 1")) {
        ShellCmd::Eval(code) => assert_eq!(code, "let x = 1; x + 1"),
        _ => panic!("expected code"),
    }
}

#[test]
fn shell_replies() {
    assert_eq!(lock_ok_reply(3), "shell绑定成功喵。现在shell3是你的了喵");
    assert_eq!(new_ok_reply(12), "shell创建成功喵！现在12是你的了喵");
    let r = list_reply(&vec![(0, 7, "阿猫".to_string()), (1, -1, "Unknown".to_string())]);
    assert_eq!(r, "Shel列表如下喵：\n编号0的shell属于7(阿猫)喵\n编号1的shell属于-1(Unknown)喵");
    assert_eq!(list_reply(&vec![]), "Shel列表如下喵：");
}

#[test]
fn eval_reply_shows_the_submission_time() {
    assert_eq!(eval_result_reply(0, "2"), Some("任务1970-01-01 00:00:00的执行结果如下：2".to_string()));
    assert_eq!(
        eval_result_reply(1700000000, "undefined"),
        Some("任务2023-11-14 22:13:20的执行结果如下：undefined".to_string())
    );
    assert_eq!(eval_result_reply(i64::MAX, "x"), None);
}

#[test]
fn engine_stopped_replies() {
    assert_eq!(kovi_plugins::shell::engine_stopped_reply("none", false), "Js引擎已经停止运行了喵。原因：none");
    assert_eq!(kovi_plugins::shell::engine_stopped_reply("x", true), "Js引擎已经停止运行了喵!原因：x");
}

fn reply_of(step: ShellStep) -> String {
    match step {
        ShellStep::Reply(t) => t,
        _ => panic!("expected a reply"),
    }
}

#[test]
fn shell_steps_answer_each_subcommand() {
    let mut m = ShellMemory::new();
    assert_eq!(reply_of(shell_step(&mut m, 7, parse_shell_cmd(&words("")))), MISSING_REPLY);
    assert_eq!(reply_of(shell_step(&mut m, 7, parse_shell_cmd(&words("help")))), HELP_REPLY);
    assert_eq!(reply_of(shell_step(&mut m, 7, parse_shell_cmd(&words("lock x")))), BAD_NUMBER_REPLY);
    assert_eq!(reply_of(shell_step(&mut m, 7, parse_shell_cmd(&words("use")))), BAD_NUMBER_REPLY);
    assert_eq!(reply_of(shell_step(&mut m, 7, parse_shell_cmd(&words("1+1")))), NO_SHELL_REPLY);
    match shell_step(&mut m, 7, parse_shell_cmd(&words("new"))) {
        ShellStep::Started(id, text) => {
            assert_eq!(id, 0);
            assert_eq!(text, "shell创建成功喵！现在0是你的了喵");
        }
        _ => panic!("expected a new shell"),
    }
    assert_eq!(m.shell(7), Some(0));
    match shell_step(&mut m, 7, parse_shell_cmd(&words("1 + 1"))) {
        ShellStep::Eval(id, code) => {
            assert_eq!(id, 0);
            assert_eq!(code, "1 + 1");
        }
        _ => panic!("expected code to run"),
    }
    assert!(matches!(shell_step(&mut m, 7, parse_shell_cmd(&words("list"))), ShellStep::List));
    assert_eq!(reply_of(shell_step(&mut m, 8, parse_shell_cmd(&words("lock 0")))), LOCK_FAILED_REPLY);
    assert_eq!(reply_of(shell_step(&mut m, 8, parse_shell_cmd(&words("use 0")))), NOT_YOURS_REPLY);
    assert_eq!(reply_of(shell_step(&mut m, 8, parse_shell_cmd(&words("unlock 0")))), NOT_YOURS_REPLY);
    assert_eq!(reply_of(shell_step(&mut m, 7, parse_shell_cmd(&words("unlock 0")))), UNLOCK_OK_REPLY);
    assert_eq!(m.owner(0), Some(NO_OWNER));
    assert_eq!(
        reply_of(shell_step(&mut m, 8, parse_shell_cmd(&words("lock 0")))),
        "shell绑定成功喵。现在shell0是你的了喵"
    );
    assert_eq!(m.shell(8), Some(0));
    assert_eq!(reply_of(shell_step(&mut m, 8, parse_shell_cmd(&words("use 0")))), USE_OK_REPLY);
}
