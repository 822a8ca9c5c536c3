//! What the arguments of the command line ask for.

use crate::cli;
use crate::cli::{Cmd, Options, Plan, SendArgs, Source};
use crate::registry;
use vstd::prelude::*;

verus! {

/// Without arguments the usage is shown as an error, and when asked for as none. A command that
/// only reads does not make the directories.
pub proof fn what_a_command_line_asks_for(args: Seq<Seq<char>>, p: Plan)
    requires
        cli::plans(args, p),
    ensures
        args.len() == 0 ==> p == Plan::Usage(1),
        args.len() > 0 && (args[0] == "-h"@ || args[0] == "--help"@ || args[0] == "help"@) ==> p
            == Plan::Usage(0),
        args.len() > 0 && args[0] == "register"@ ==> p == (Plan::Run {
            cmd: Cmd::Register,
            ensure_dirs: true,
        }),
        args.len() > 0 && args[0] == "send"@ ==> p == (Plan::Run {
            cmd: Cmd::Send,
            ensure_dirs: true,
        }),
        args.len() > 0 && args[0] == "list"@ ==> p == (Plan::Run {
            cmd: Cmd::List,
            ensure_dirs: false,
        }),
        args.len() > 0 && args[0] == "__implemented-commands"@ ==> p == Plan::Implemented,
        args.len() > 0 && args[0] != "-h"@ && args[0] != "--help"@ && args[0] != "help"@ && args[0]
            != "register"@ && args[0] != "send"@ && args[0] != "list"@ && args[0]
            != "__implemented-commands"@ ==> (p matches Plan::Run { cmd, ensure_dirs } && (cmd
            matches Cmd::Unknown(c) && c@ == args[0]) && ensure_dirs == (args[0] != "status"@
            && args[0] != "await"@ && args[0] != "idle"@ && args[0] != "hook"@)),
{
    reveal_strlit("-h");
    reveal_strlit("--help");
    reveal_strlit("help");
    reveal_strlit("register");
    reveal_strlit("send");
    reveal_strlit("list");
    reveal_strlit("status");
    reveal_strlit("await");
    reveal_strlit("idle");
    reveal_strlit("hook");
    reveal_strlit("__implemented-commands");
    assert("-h"@[0] == '-' && "--help"@[0] == '-' && "help"@[0] == 'h' && "register"@[0] == 'r'
        && "send"@[0] == 's' && "list"@[0] == 'l' && "status"@[0] == 's' && "await"@[0] == 'a'
        && "idle"@[0] == 'i' && "hook"@[0] == 'h' && "__implemented-commands"@[0] == '_');
    assert("send"@[1] == 'e' && "status"@[1] == 't' && "help"@[1] == 'e' && "hook"@[1] == 'o'
        && "-h"@[1] == 'h' && "--help"@[1] == '-');
}

/// The options of a command are read from left to right, each with the argument behind it.
pub proof fn how_options_are_read(args: Seq<Seq<char>>, i: int, o: Options)
    requires
        0 <= i < args.len(),
    ensures
        args[i] == "--from"@ && i + 1 < args.len() ==> cli::options(args, i, o) == cli::options(
            args,
            i + 2,
            Options { from: args[i + 1], source: o.source, value: o.value },
        ),
        args[i] == "--message"@ && i + 1 < args.len() && o.source == Source::Missing
            ==> cli::options(args, i, o) == cli::options(
            args,
            i + 2,
            Options { from: o.from, source: Source::Text, value: args[i + 1] },
        ),
        args[i] == "--message-file"@ && i + 1 < args.len() && o.source == Source::Missing
            ==> cli::options(args, i, o) == cli::options(
            args,
            i + 2,
            Options { from: o.from, source: Source::File, value: args[i + 1] },
        ),
        cli::options(args, args.len() as int, o) == Ok::<Options, Seq<char>>(o),
{
    lemma_option_names();
}

/// An option without its argument, a second message, and anything else are errors.
pub proof fn which_options_are_refused(args: Seq<Seq<char>>, i: int, o: Options)
    requires
        0 <= i < args.len(),
    ensures
        args[i] == "--from"@ && i + 1 == args.len() ==> cli::options(args, i, o) == Err::<
            Options,
            Seq<char>,
        >("--from 需要參數"@),
        args[i] == "--message"@ && i + 1 == args.len() ==> cli::options(args, i, o) == Err::<
            Options,
            Seq<char>,
        >("--message 需要參數"@),
        args[i] == "--message-file"@ && i + 1 == args.len() ==> cli::options(args, i, o) == Err::<
            Options,
            Seq<char>,
        >("--message-file 需要參數"@),
        (args[i] == "--message"@ || args[i] == "--message-file"@) && i + 1 < args.len() && o.source
            != Source::Missing ==> cli::options(args, i, o) == Err::<Options, Seq<char>>(
            "--message 與 --message-file 只能擇一"@,
        ),
        args[i] != "--from"@ && args[i] != "--message"@ && args[i] != "--message-file"@
            ==> cli::options(args, i, o) == Err::<Options, Seq<char>>("未知參數："@ + args[i]),
{
    lemma_option_names();
}

/// The names of the options differ.
proof fn lemma_option_names()
    ensures
        "--from"@ != "--message"@,
        "--from"@ != "--message-file"@,
        "--message"@ != "--message-file"@,
{
    reveal_strlit("--from");
    reveal_strlit("--message");
    reveal_strlit("--message-file");
    assert("--from"@.len() == 6 && "--message"@.len() == 9 && "--message-file"@.len() == 14);
}

/// A message is sent where the options can be read, a sender is named and there is a message; the
/// errors come in this order.
pub proof fn when_a_message_can_be_sent(args: Seq<Seq<char>>)
    ensures
        args.len() == 0 ==> cli::send_request(args) == Err::<Options, Seq<char>>(
            "用法：agent-bridge send <agent> --from <sender> (--message <text> | --message-file <path>)"@,
        ),
        args.len() > 0 ==> ({
            let none = Options { from: Seq::empty(), source: Source::Missing, value: Seq::empty() };
            match cli::options(args, 1, none) {
                Err(e) => cli::send_request(args) == Err::<Options, Seq<char>>(e),
                Ok(o) => cli::send_request(args) == (if o.from.len() == 0 {
                    Err::<Options, Seq<char>>("send 需要 --from <sender>"@)
                } else if o.source == Source::Missing {
                    Err::<Options, Seq<char>>("send 需要 --message 或 --message-file"@)
                } else {
                    Ok::<Options, Seq<char>>(o)
                }),
            }
        }),
{
}

/// A message is looked for in a file unless the file is the standard input. A file that is not
/// there, and a name that is not valid, are refused in this order.
pub proof fn which_messages_are_refused(s: SendArgs, there: bool)
    ensures
        cli::file_needed(s) <==> s.source == Source::File && s.value@ != "-"@,
        ({
            let fault = cli::send_fault(s, there);
            let lost = s.source == Source::File && s.value@ != "-"@ && !there;
            &&& lost ==> fault == Some("找不到訊息檔："@ + s.value@)
            &&& !lost && !registry::valid_name(s.to@) ==> fault == Some(
                "agent 名稱不合法（僅允許 [A-Za-z0-9_-]+）："@ + s.to@,
            )
            &&& !lost && registry::valid_name(s.to@) && !registry::valid_name(s.from@) ==> fault
                == Some("sender 名稱不合法（僅允許 [A-Za-z0-9_-]+）："@ + s.from@)
            &&& !lost && registry::valid_name(s.to@) && registry::valid_name(s.from@) ==> fault
                is None
        }),
{
}

} // verus!
