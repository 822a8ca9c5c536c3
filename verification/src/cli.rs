//! What the command line takes and answers.

use crate::action::Error;
use crate::registry;
use crate::registry::is_valid_name;
use crate::text;
use crate::text::{copy_text, same};
use vstd::prelude::*;
use vstd::string::*;

verus! {

/// A command.
#[derive(Clone, Debug, PartialEq, Eq)]
pub enum Cmd {
    Register,
    List,
    Send,
    Unknown(String),
}

/// What a call of the program does.
#[derive(Clone, Debug, PartialEq, Eq)]
pub enum Plan {
    /// The list of the commands is shown, and the program ends with a code.
    Usage(u8),
    /// The names of the commands that are complete are shown.
    Implemented,
    /// A command is run, after the directories were made where it may write.
    Run { cmd: Cmd, ensure_dirs: bool },
}

/// Whether a command only reads.
pub open spec fn read_only(cmd: Seq<char>) -> bool {
    cmd == "status"@ || cmd == "await"@ || cmd == "idle"@ || cmd == "list"@ || cmd == "hook"@
}

/// Whether a call of the program does what its arguments say.
pub open spec fn plans(args: Seq<Seq<char>>, p: Plan) -> bool {
    if args.len() == 0 {
        p == Plan::Usage(1)
    } else if args[0] == "-h"@ || args[0] == "--help"@ || args[0] == "help"@ {
        p == Plan::Usage(0)
    } else if args[0] == "__implemented-commands"@ {
        p == Plan::Implemented
    } else {
        &&& p matches Plan::Run { cmd, ensure_dirs }
        &&& ensure_dirs == !read_only(args[0])
        &&& if args[0] == "register"@ {
            cmd == Cmd::Register
        } else if args[0] == "list"@ {
            cmd == Cmd::List
        } else if args[0] == "send"@ {
            cmd == Cmd::Send
        } else {
            cmd matches Cmd::Unknown(c) && c@ == args[0]
        }
    }
}

/// What a call of the program does. Without arguments, and with a command that is not known,
/// it fails; asked for help, it does not. A command that only reads makes no directory.
pub fn plan(args: &Vec<String>) -> (r: Plan)
    ensures
        plans(text::texts(args@), r),
{
    proof {
        assert(text::texts(args@).len() == args@.len());
        if args@.len() > 0 {
            assert(text::texts(args@)[0] == args@[0]@);
        }
    }
    if args.len() == 0 {
        return Plan::Usage(1);
    }
    let cmd = args[0].as_str();
    if same(cmd, "-h") || same(cmd, "--help") || same(cmd, "help") {
        return Plan::Usage(0);
    }
    if same(cmd, "__implemented-commands") {
        return Plan::Implemented;
    }
    let reads = same(cmd, "status") || same(cmd, "await") || same(cmd, "idle") || same(cmd, "list")
        || same(cmd, "hook");
    let c = if same(cmd, "register") {
        Cmd::Register
    } else if same(cmd, "list") {
        Cmd::List
    } else if same(cmd, "send") {
        Cmd::Send
    } else {
        Cmd::Unknown(copy_text(cmd))
    };
    Plan::Run { cmd: c, ensure_dirs: !reads }
}

/// The text of an error on the command line.
pub fn error_line(message: &str) -> (r: String)
    ensures
        r@ == "agent-bridge: "@ + message@,
{
    let mut s = copy_text("agent-bridge: ");
    s.append(message);
    s
}

/// The error of a command that is not known.
pub fn unknown_command(cmd: &str) -> (r: Error)
    ensures
        r.message@ == "未知指令："@ + cmd@,
{
    let mut s = copy_text("未知指令：");
    s.append(cmd);
    Error::new(s)
}

/// The agent and the tmux target of `register`; it takes exactly two arguments.
pub fn register_args(args: &Vec<String>) -> (r: Result<(String, String), Error>)
    ensures
        match r {
            Ok((name, target)) => args@.len() == 2 && name@ == args@[0]@ && target@ == args@[1]@,
            Err(e) => args@.len() != 2 && e.message@
                == "用法：agent-bridge register <agent> <tmux-target>"@,
        },
{
    if args.len() != 2 {
        return Err(
            Error::new(copy_text("用法：agent-bridge register <agent> <tmux-target>")),
        );
    }
    Ok((copy_text(args[0].as_str()), copy_text(args[1].as_str())))
}

/// What `register` says.
pub fn registered_line(name: &str, pane: &str) -> (r: String)
    ensures
        r@ == "已註冊 agent '"@ + name@ + "' \u{2192} pane "@ + pane@,
{
    let mut s = copy_text("已註冊 agent '");
    s.append(name);
    s.append("' \u{2192} pane ");
    s.append(pane);
    s
}

/// A line of `list`.
pub fn list_line(name: &str, pane: &str, ready: &str) -> (r: String)
    ensures
        r@ == name@ + "\t"@ + pane@ + "\t"@ + ready@,
{
    let mut s = copy_text(name);
    s.append("\t");
    s.append(pane);
    s.append("\t");
    s.append(ready);
    s
}

/// Where the message of `send` comes from.
#[derive(Clone, Copy, Debug, PartialEq, Eq, Structural)]
pub enum Source {
    Missing,
    Text,
    File,
}

/// The arguments of `send`.
#[derive(Clone, Debug, PartialEq, Eq)]
pub struct SendArgs {
    pub to: String,
    pub from: String,
    pub source: Source,
    /// The message, or the file that it is in.
    pub value: String,
}

/// The options of `send` that were read so far.
pub struct Options {
    pub from: Seq<char>,
    pub source: Source,
    pub value: Seq<char>,
}

/// The options of `send` from `i` on, or the first error.
pub open spec fn options(args: Seq<Seq<char>>, i: int, o: Options) -> Result<Options, Seq<char>>
    decreases args.len() - i,
{
    if i < 0 || i >= args.len() {
        Ok(o)
    } else if args[i] == "--from"@ {
        if i + 1 >= args.len() {
            Err("--from 需要參數"@)
        } else {
            options(args, i + 2, Options { from: args[i + 1], ..o })
        }
    } else if args[i] == "--message"@ {
        if i + 1 >= args.len() {
            Err("--message 需要參數"@)
        } else if o.source != Source::Missing {
            Err("--message 與 --message-file 只能擇一"@)
        } else {
            options(args, i + 2, Options { source: Source::Text, value: args[i + 1], ..o })
        }
    } else if args[i] == "--message-file"@ {
        if i + 1 >= args.len() {
            Err("--message-file 需要參數"@)
        } else if o.source != Source::Missing {
            Err("--message 與 --message-file 只能擇一"@)
        } else {
            options(args, i + 2, Options { source: Source::File, value: args[i + 1], ..o })
        }
    } else {
        Err("未知參數："@ + args[i])
    }
}

/// No options.
pub open spec fn no_options() -> Options {
    Options { from: Seq::empty(), source: Source::Missing, value: Seq::empty() }
}

/// The arguments of `send`, or the first error: every option is known and has a value, the
/// message is given once, and so are the sender and a message.
pub open spec fn send_request(args: Seq<Seq<char>>) -> Result<Options, Seq<char>> {
    if args.len() == 0 {
        Err(
            "用法：agent-bridge send <agent> --from <sender> (--message <text> | --message-file <path>)"@,
        )
    } else {
        match options(args, 1, no_options()) {
            Err(e) => Err(e),
            Ok(o) => if o.from.len() == 0 {
                Err("send 需要 --from <sender>"@)
            } else if o.source == Source::Missing {
                Err("send 需要 --message 或 --message-file"@)
            } else {
                Ok(o)
            },
        }
    }
}

/// The options as far as they were read.
spec fn as_options(from: Seq<char>, source: Source, value: Seq<char>) -> Options {
    Options { from, source, value }
}

/// The error with a message.
fn error(message: &str) -> (r: Error)
    ensures
        r.message@ == message@,
{
    Error::new(copy_text(message))
}

/// The options of `send`.
fn read_options(args: &Vec<String>) -> (r: Result<(String, Source, String), Error>)
    requires
        args@.len() > 0,
    ensures
        match (r, options(text::texts(args@), 1, no_options())) {
            (Ok((from, source, value)), Ok(o)) => as_options(from@, source, value@) == o,
            (Err(e), Err(m)) => e.message@ == m,
            _ => false,
        },
{
    let ghost av = text::texts(args@);
    let mut from = String::new();
    let mut source = Source::Missing;
    let mut value = String::new();
    let mut i: usize = 1;
    proof {
        assert(av.len() == args@.len());
        assert(as_options(from@, source, value@) == no_options());
    }
    while i < args.len()
        invariant
            1 <= i <= args@.len(),
            av == text::texts(args@),
            av.len() == args@.len(),
            options(av, 1, no_options()) == options(
                av,
                i as int,
                as_options(from@, source, value@),
            ),
        decreases args@.len() - i,
    {
        proof {
            assert(av[i as int] == args@[i as int]@);
        }
        let a = args[i].as_str();
        let last = i + 1 >= args.len();
        if !last {
            proof {
                assert(av[i + 1] == args@[i + 1]@);
            }
        }
        if same(a, "--from") {
            if last {
                return Err(error("--from 需要參數"));
            }
            from = copy_text(args[i + 1].as_str());
        } else if same(a, "--message") {
            if last {
                return Err(error("--message 需要參數"));
            }
            if source != Source::Missing {
                return Err(error("--message 與 --message-file 只能擇一"));
            }
            source = Source::Text;
            value = copy_text(args[i + 1].as_str());
        } else if same(a, "--message-file") {
            if last {
                return Err(error("--message-file 需要參數"));
            }
            if source != Source::Missing {
                return Err(error("--message 與 --message-file 只能擇一"));
            }
            source = Source::File;
            value = copy_text(args[i + 1].as_str());
        } else {
            let mut s = copy_text("未知參數：");
            s.append(a);
            return Err(Error::new(s));
        }
        i += 2;
    }
    Ok((from, source, value))
}

/// The arguments of `send`.
pub fn send_args(args: &Vec<String>) -> (r: Result<SendArgs, Error>)
    ensures
        match (r, send_request(text::texts(args@))) {
            (Ok(s), Ok(o)) => s.to@ == args@[0]@ && (Options {
                from: s.from@,
                source: s.source,
                value: s.value@,
            }) == o,
            (Err(e), Err(m)) => e.message@ == m,
            _ => false,
        },
{
    proof {
        assert(text::texts(args@).len() == args@.len());
    }
    if args.len() == 0 {
        return Err(
            error(
                "用法：agent-bridge send <agent> --from <sender> (--message <text> | --message-file <path>)",
            ),
        );
    }
    let (from, source, value) = match read_options(args) {
        Ok(o) => o,
        Err(e) => {
            return Err(e);
        },
    };
    if from.as_str().is_empty() {
        return Err(error("send 需要 --from <sender>"));
    }
    if source == Source::Missing {
        return Err(error("send 需要 --message 或 --message-file"));
    }
    Ok(SendArgs { to: copy_text(args[0].as_str()), from, source, value })
}

/// Whether the message of `send` is in a file that has to be there. A dash is the standard
/// input.
pub open spec fn file_needed(s: SendArgs) -> bool {
    s.source == Source::File && s.value@ != "-"@
}

/// Whether the message of `send` is in a file that has to be there.
pub fn needs_file(s: &SendArgs) -> (r: bool)
    ensures
        r == file_needed(*s),
{
    s.source == Source::File && !same(s.value.as_str(), "-")
}

/// What is wrong with the file or the names of `send`.
pub open spec fn send_fault(s: SendArgs, file_there: bool) -> Option<Seq<char>> {
    if file_needed(s) && !file_there {
        Some("找不到訊息檔："@ + s.value@)
    } else if !registry::valid_name(s.to@) {
        Some("agent 名稱不合法（僅允許 [A-Za-z0-9_-]+）："@ + s.to@)
    } else if !registry::valid_name(s.from@) {
        Some("sender 名稱不合法（僅允許 [A-Za-z0-9_-]+）："@ + s.from@)
    } else {
        None
    }
}

/// An error with a text behind its message.
fn error_of(message: &str, about: &str) -> (r: Error)
    ensures
        r.message@ == message@ + about@,
{
    let mut s = copy_text(message);
    s.append(about);
    Error::new(s)
}

/// Checks the file and the names of `send`, in this order; `file_there` says whether the file
/// is there. Only a name that is in order is ever looked for in the registry.
pub fn check_send(s: &SendArgs, file_there: bool) -> (r: Result<(), Error>)
    ensures
        match send_fault(*s, file_there) {
            Some(m) => r matches Err(e) && e.message@ == m,
            None => r is Ok,
        },
{
    if needs_file(s) && !file_there {
        return Err(error_of("找不到訊息檔：", s.value.as_str()));
    }
    if !is_valid_name(s.to.as_str()) {
        return Err(
            error_of("agent 名稱不合法（僅允許 [A-Za-z0-9_-]+）：", s.to.as_str()),
        );
    }
    if !is_valid_name(s.from.as_str()) {
        return Err(
            error_of("sender 名稱不合法（僅允許 [A-Za-z0-9_-]+）：", s.from.as_str()),
        );
    }
    Ok(())
}

/// How `send` ends after its checks. `registered` says whether the registry knows the agent.
/// Tasks are not made yet: a `send` that could succeed says so instead of making half a task.
pub fn send_end(s: &SendArgs, registered: bool) -> (r: Error)
    ensures
        r.message@ == (if registered {
            "尚未實作：send 成功路徑（M0.5 spike 範圍僅涵蓋分組 2 錯誤路徑，task 建立見 CLI-SEND-1，留待下一階段）"@
        } else {
            "未註冊的 agent："@ + s.to@ + "（先用 agent-bridge register）"@
        }),
{
    if !registered {
        let mut m = copy_text("未註冊的 agent：");
        m.append(s.to.as_str());
        m.append("（先用 agent-bridge register）");
        return Error::new(m);
    }
    error(
        "尚未實作：send 成功路徑（M0.5 spike 範圍僅涵蓋分組 2 錯誤路徑，task 建立見 CLI-SEND-1，留待下一階段）",
    )
}

} // verus!
