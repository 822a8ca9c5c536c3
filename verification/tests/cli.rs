use ab_tui::cli::{
    check_send, error_line, list_line, needs_file, plan, register_args, registered_line, send_args,
    send_end, unknown_command, Cmd, Plan, SendArgs, Source,
};

fn args(v: &[&str]) -> Vec<String> {
    v.iter().map(|s| s.to_string()).collect()
}

fn refused(v: &[&str]) -> String {
    send_args(&args(v)).unwrap_err().message
}

fn message_for(to: &str, from: &str, source: Source, value: &str) -> SendArgs {
    SendArgs {
        to: to.into(),
        from: from.into(),
        source,
        value: value.into(),
    }
}

#[test]
fn a_call_is_planned_by_its_first_argument() {
    assert!(matches!(plan(&args(&[])), Plan::Usage(1)));
    for help in ["-h", "--help", "help"] {
        assert!(matches!(plan(&args(&[help])), Plan::Usage(0)));
    }
    assert!(matches!(
        plan(&args(&["__implemented-commands"])),
        Plan::Implemented
    ));
    assert!(matches!(
        plan(&args(&["register", "a", "%1"])),
        Plan::Run {
            cmd: Cmd::Register,
            ensure_dirs: true
        }
    ));
    assert!(matches!(
        plan(&args(&["list"])),
        Plan::Run {
            cmd: Cmd::List,
            ensure_dirs: false
        }
    ));
    assert!(matches!(
        plan(&args(&["send"])),
        Plan::Run {
            cmd: Cmd::Send,
            ensure_dirs: true
        }
    ));
}

#[test]
fn commands_that_only_read_make_no_directory() {
    for c in ["status", "await", "idle", "hook"] {
        assert!(matches!(
            plan(&args(&[c])),
            Plan::Run { cmd: Cmd::Unknown(n), ensure_dirs: false } if n == c
        ));
    }
    assert!(matches!(
        plan(&args(&["spawn"])),
        Plan::Run { cmd: Cmd::Unknown(n), ensure_dirs: true } if n == "spawn"
    ));
    assert_eq!(unknown_command("frob").message, "未知指令：frob");
    assert_eq!(error_line("未知指令：frob"), "agent-bridge: 未知指令：frob");
}

#[test]
fn register_takes_two_arguments() {
    assert_eq!(
        register_args(&args(&["w1", "main:1.0"])).unwrap(),
        ("w1".to_string(), "main:1.0".to_string())
    );
    for v in [vec![], vec!["w1"], vec!["w1", "t", "x"]] {
        assert_eq!(
            register_args(&args(&v)).unwrap_err().message,
            "用法：agent-bridge register <agent> <tmux-target>"
        );
    }
    assert_eq!(registered_line("w1", "%5"), "已註冊 agent 'w1' → pane %5");
}

#[test]
fn list_parts_its_columns_by_tabs() {
    assert_eq!(list_line("w1", "%5", "ready"), "w1\t%5\tready");
    assert_eq!(list_line("w1", "", ""), "w1\t\t");
}

#[test]
fn send_reads_its_options_in_any_order() {
    let s = send_args(&args(&["w1", "--message", "hello", "--from", "boss"])).unwrap();
    assert_eq!(s, message_for("w1", "boss", Source::Text, "hello"));
    let s = send_args(&args(&["w1", "--from", "x", "--message-file", "-", "--from", "boss"])).unwrap();
    assert_eq!(s, message_for("w1", "boss", Source::File, "-"));
    let s = send_args(&args(&["w1", "--from", "--message", "--message", "--from"])).unwrap();
    assert_eq!(s, message_for("w1", "--message", Source::Text, "--from"));
}

#[test]
fn send_says_what_its_options_lack() {
    assert_eq!(
        refused(&[]),
        "用法：agent-bridge send <agent> --from <sender> (--message <text> | --message-file <path>)"
    );
    assert_eq!(refused(&["w1", "--from"]), "--from 需要參數");
    assert_eq!(refused(&["w1", "--message"]), "--message 需要參數");
    assert_eq!(refused(&["w1", "--message-file"]), "--message-file 需要參數");
    let both = "--message 與 --message-file 只能擇一";
    assert_eq!(refused(&["w1", "--message", "a", "--message", "b"]), both);
    assert_eq!(refused(&["w1", "--message", "a", "--message-file", "b"]), both);
    assert_eq!(refused(&["w1", "--message-file", "a", "--message", "b"]), both);
    assert_eq!(refused(&["w1", "--to", "b"]), "未知參數：--to");
    assert_eq!(refused(&["w1", "--message", "a"]), "send 需要 --from <sender>");
    assert_eq!(refused(&["w1", "--from", "", "--message", "a"]), "send 需要 --from <sender>");
    assert_eq!(refused(&["w1", "--from", "boss"]), "send 需要 --message 或 --message-file");
}

#[test]
fn send_checks_the_file_before_the_names() {
    let ok = message_for("w1", "boss", Source::Text, "hello");
    assert!(!needs_file(&ok));
    assert!(check_send(&ok, false).is_ok());

    let file = message_for("w 1", "boss", Source::File, "note.md");
    assert!(needs_file(&file));
    assert_eq!(
        check_send(&file, false).unwrap_err().message,
        "找不到訊息檔：note.md"
    );
    assert_eq!(
        check_send(&file, true).unwrap_err().message,
        "agent 名稱不合法（僅允許 [A-Za-z0-9_-]+）：w 1"
    );
    let stdin = message_for("w1", "", Source::File, "-");
    assert!(!needs_file(&stdin));
    assert_eq!(
        check_send(&stdin, false).unwrap_err().message,
        "sender 名稱不合法（僅允許 [A-Za-z0-9_-]+）："
    );
}

#[test]
fn send_never_succeeds() {
    let s = message_for("w1", "boss", Source::Text, "hello");
    assert_eq!(
        send_end(&s, false).message,
        "未註冊的 agent：w1（先用 agent-bridge register）"
    );
    assert!(send_end(&s, true).message.starts_with("尚未實作：send 成功路徑"));
}
