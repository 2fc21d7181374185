//! Command-line arguments, and the commands typed on the console of a hub
//! running in the foreground.
use vstd::prelude::*;
use crate::text::{chars_equal, chars_of, string_of, trim, trim_has_no_outer_whitespace, trim_keeps_a_last_non_whitespace, trimmed_range};

verus! {

/// Command-line arguments of the hub.
pub struct Cli {
    /// Disable colored output.
    pub no_color: bool,
    /// Verbosity (-v for verbose, -vv for debug).
    pub verbose: u8,
    /// Path to a config file (overrides the default search).
    pub config: Option<String>,
    /// The subcommand.
    pub command: Commands,
}

/// Available subcommands.
pub enum Commands {
    /// Start all configured MCP servers, in the background when `daemon`.
    Start { daemon: bool },
    /// Stop all running servers.
    Stop,
    /// Restart a specific server by name.
    Restart(RestartArgs),
    /// Show the status of the servers of a running daemon.
    Status,
    /// Show recent log lines of a running daemon.
    Logs(LogsArgs),
    /// Add a server to `./mcp-hub.toml` interactively.
    Init,
}

/// Arguments of the `restart` subcommand.
pub struct RestartArgs {
    /// Name of the server to restart.
    pub name: String,
}

/// Arguments of the `logs` subcommand.
pub struct LogsArgs {
    /// Keep printing new lines as they arrive.
    pub follow: bool,
    /// Only lines of this server.
    pub server: Option<String>,
    /// How many recent lines to show.
    pub lines: usize,
}

/// A command typed on the console.
pub enum ConsoleCommand {
    /// `restart <name>`.
    Restart { name: String },
    /// `status`.
    Status,
    /// `logs`: recent lines of all servers.
    LogsAll,
    /// `logs <name>`: recent lines of one server.
    LogsFor { name: String },
    /// `help`.
    Help,
    /// Anything else.
    Unknown { input: String },
}

/// The meaning of a console command.
pub enum ConsoleIntent {
    Restart(Seq<char>),
    Status,
    LogsAll,
    LogsFor(Seq<char>),
    Help,
    Unknown(Seq<char>),
}

impl View for ConsoleCommand {
    type V = ConsoleIntent;

    open spec fn view(&self) -> ConsoleIntent {
        match self {
            ConsoleCommand::Restart { name } => ConsoleIntent::Restart(name@),
            ConsoleCommand::Status => ConsoleIntent::Status,
            ConsoleCommand::LogsAll => ConsoleIntent::LogsAll,
            ConsoleCommand::LogsFor { name } => ConsoleIntent::LogsFor(name@),
            ConsoleCommand::Help => ConsoleIntent::Help,
            ConsoleCommand::Unknown { input } => ConsoleIntent::Unknown(input@),
        }
    }
}

/// `s` starts with `p`.
pub open spec fn starts_with(s: Seq<char>, p: Seq<char>) -> bool {
    p.len() <= s.len() && s.take(p.len() as int) == p
}

/// The meaning of a (trimmed, non-empty) console input.
pub open spec fn console_intent(input: Seq<char>) -> ConsoleIntent {
    if starts_with(input, "restart "@) {
        ConsoleIntent::Restart(trim(input.skip("restart "@.len() as int)))
    } else if input == "status"@ {
        ConsoleIntent::Status
    } else if input == "logs"@ {
        ConsoleIntent::LogsAll
    } else if starts_with(input, "logs "@) {
        ConsoleIntent::LogsFor(trim(input.skip("logs "@.len() as int)))
    } else if input == "help"@ {
        ConsoleIntent::Help
    } else {
        ConsoleIntent::Unknown(input)
    }
}

/// A server name typed after `restart ` or `logs ` is read back as that
/// name, and the single words `status`, `logs` and `help` are their own
/// commands.
pub proof fn console_commands_name_their_server(name: Seq<char>)
    requires
        trim(name) == name,
    ensures
        console_intent("restart "@ + name) == ConsoleIntent::Restart(name),
        console_intent("logs "@ + name) == ConsoleIntent::LogsFor(name),
        console_intent("status"@) == ConsoleIntent::Status,
        console_intent("logs"@) == ConsoleIntent::LogsAll,
        console_intent("help"@) == ConsoleIntent::Help,
{
    reveal_strlit("restart ");
    reveal_strlit("logs ");
    reveal_strlit("status");
    reveal_strlit("logs");
    reveal_strlit("help");
    let r = "restart "@ + name;
    assert(r.take(8) =~= "restart "@);
    assert(r.skip(8) =~= name);
    let l = "logs "@ + name;
    assert(l[0] == 'l');
    assert(!starts_with(l, "restart "@)) by {
        if starts_with(l, "restart "@) {
            assert(l.take(8)[0] == 'r');
        }
    }
    assert(l != "status"@) by {
        if l == "status"@ {
            assert(l[0] == 's');
        }
    }
    assert(l != "logs"@) by {
        if l == "logs"@ {
            assert(l.len() == 4);
        }
    }
    assert(l.take(5) =~= "logs "@);
    assert(l.skip(5) =~= name);
    assert(!starts_with("status"@, "restart "@));
    assert(!starts_with("logs"@, "restart "@));
    assert(!starts_with("help"@, "restart "@));
    assert("logs"@ != "status"@) by {
        assert("logs"@[0] != "status"@[0]);
    }
    assert("help"@ != "status"@) by {
        assert("help"@[0] != "status"@[0]);
    }
    assert("help"@ != "logs"@) by {
        assert("help"@[0] != "logs"@[0]);
    }
    assert(!starts_with("help"@, "logs "@));
}

fn has_prefix(cs: &Vec<char>, p: &str) -> (b: bool)
    ensures
        b == starts_with(cs@, p@),
{
    let pc = chars_of(p);
    if pc.len() > cs.len() {
        return false;
    }
    for i in 0..pc.len()
        invariant
            pc@ == p@,
            pc@.len() <= cs@.len(),
            forall|k: int| 0 <= k < i ==> cs@[k] == pc@[k],
    {
        if cs[i] != pc[i] {
            return false;
        }
    }
    assert(cs@.take(pc@.len() as int) =~= pc@);
    true
}

fn is_word(cs: &Vec<char>, w: &str) -> (b: bool)
    ensures
        b == (cs@ == w@),
{
    let wc = chars_of(w);
    chars_equal(cs, &wc)
}

/// Interpret one line typed on the console: blank input is ignored
/// (`None`), otherwise the trimmed input is a command.
pub fn parse_console_line(line: &str) -> (r: Option<ConsoleCommand>)
    ensures
        trim(line@).len() == 0 ==> r is None,
        trim(line@).len() > 0 ==> (r matches Some(c) && c@ == console_intent(trim(line@))),
        r matches Some(ConsoleCommand::Restart { name }) ==> name@.len() > 0,
{
    let raw = chars_of(line);
    let cs = trimmed_range(&raw, 0, raw.len());
    assert(raw@.subrange(0, raw@.len() as int) == raw@);
    if cs.len() == 0 {
        return None;
    }
    let input = &cs;
    if has_prefix(input, "restart ") {
        let k = chars_of("restart ").len();
        let name = trimmed_range(input, k, input.len());
        assert(input@.subrange(k as int, input@.len() as int) == input@.skip(k as int));
        proof {
            reveal_strlit("restart ");
            trim_has_no_outer_whitespace(line@);
            assert("restart "@.len() == 8);
            assert("restart "@[7] == ' ');
            assert(input@.take(8)[7] == input@[7]);
            assert(input@[7] == ' ');
            assert(input@.len() > 8);
            let u = input@.skip(8);
            assert(u.last() == input@.last());
            trim_keeps_a_last_non_whitespace(u);
        }
        Some(ConsoleCommand::Restart { name: string_of(&name) })
    } else if is_word(input, "status") {
        Some(ConsoleCommand::Status)
    } else if is_word(input, "logs") {
        Some(ConsoleCommand::LogsAll)
    } else if has_prefix(input, "logs ") {
        let k = chars_of("logs ").len();
        let name = trimmed_range(input, k, input.len());
        assert(input@.subrange(k as int, input@.len() as int) == input@.skip(k as int));
        Some(ConsoleCommand::LogsFor { name: string_of(&name) })
    } else if is_word(input, "help") {
        Some(ConsoleCommand::Help)
    } else {
        Some(ConsoleCommand::Unknown { input: string_of(input) })
    }
}

} // verus!
