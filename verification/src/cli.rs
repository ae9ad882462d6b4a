//! Top-level command line decisions: log format, help requests, command
//! descriptions, and which invocations the native implementation serves.
use vstd::prelude::*;
use crate::args::{options_supported, supported_from};
use crate::text::{str_eq, str_views, views};

verus! {

/// The one-line description of a top-level command.
pub open spec fn description_of(command: Seq<char>) -> Seq<char> {
    if command == "up"@ {
        "Create and run dev container"@
    } else if command == "set-up"@ {
        "Set up an existing container as a dev container"@
    } else if command == "build"@ {
        "Build a dev container image"@
    } else if command == "run-user-commands"@ {
        "Run user commands"@
    } else if command == "read-configuration"@ {
        "Read configuration"@
    } else if command == "outdated"@ {
        "Show current and available versions"@
    } else if command == "upgrade"@ {
        "Upgrade lockfile"@
    } else if command == "exec"@ {
        "Execute a command on a running dev container"@
    } else if command == "features"@ {
        "Features commands"@
    } else if command == "templates"@ {
        "Templates commands"@
    } else {
        "Native devcontainer command"@
    }
}

/// The one-line description of a top-level command.
pub fn command_description(command: &str) -> (r: &'static str)
    ensures
        r@ == description_of(command@),
{
    if str_eq(command, "up") {
        "Create and run dev container"
    } else if str_eq(command, "set-up") {
        "Set up an existing container as a dev container"
    } else if str_eq(command, "build") {
        "Build a dev container image"
    } else if str_eq(command, "run-user-commands") {
        "Run user commands"
    } else if str_eq(command, "read-configuration") {
        "Read configuration"
    } else if str_eq(command, "outdated") {
        "Show current and available versions"
    } else if str_eq(command, "upgrade") {
        "Upgrade lockfile"
    } else if str_eq(command, "exec") {
        "Execute a command on a running dev container"
    } else if str_eq(command, "features") {
        "Features commands"
    } else if str_eq(command, "templates") {
        "Templates commands"
    } else {
        "Native devcontainer command"
    }
}

/// A leading `--log-format <value>` (with a command after it) selects the log
/// format and is skipped; otherwise the format is `text` and nothing is skipped.
pub fn parse_log_format(args: &[String]) -> (r: (&str, usize))
    ensures
        args.len() >= 3 && args@[0]@ == "--log-format"@ ==> r.0@ == args@[1]@ && r.1 == 2,
        !(args.len() >= 3 && args@[0]@ == "--log-format"@) ==> r.0@ == "text"@ && r.1 == 0,
{
    if args.len() >= 3 && str_eq(args[0].as_str(), "--log-format") {
        return (args[1].as_str(), 2);
    }
    ("text", 0)
}

/// Whether the first argument asks for help.
pub fn is_command_help_request(args: &[String]) -> (r: bool)
    ensures
        r == (args.len() > 0 && (args@[0]@ == "--help"@ || args@[0]@ == "-h"@)),
{
    if args.len() == 0 {
        return false;
    }
    str_eq(args[0].as_str(), "--help") || str_eq(args[0].as_str(), "-h")
}

/// A collection command is served natively when it lists (`list`, `ls`, or no subcommand).
pub fn should_use_native_collection(args: &[String]) -> (r: bool)
    ensures
        r == (args.len() == 0 || args@[0]@ == "list"@ || args@[0]@ == "ls"@),
{
    if args.len() == 0 {
        return true;
    }
    str_eq(args[0].as_str(), "list") || str_eq(args[0].as_str(), "ls")
}

/// The options with a value that native `read-configuration` accepts here.
pub open spec fn read_value_options() -> Seq<Seq<char>> {
    seq!["--workspace-folder"@, "--config"@]
}

/// The flags that native `read-configuration` accepts here.
pub open spec fn read_flag_options() -> Seq<Seq<char>> {
    seq!["--include-merged-configuration"@, "--include-features-configuration"@]
}

/// Whether `read-configuration` with these arguments is served natively.
pub fn should_use_native_read_configuration(args: &[String]) -> (r: bool)
    ensures
        r == supported_from(views(args@), 0, read_value_options(), read_flag_options()),
{
    let value_options: [&str; 2] = ["--workspace-folder", "--config"];
    let flag_options: [&str; 2] = [
        "--include-merged-configuration",
        "--include-features-configuration",
    ];
    proof {
        assert(str_views(value_options@) =~= read_value_options());
        assert(str_views(flag_options@) =~= read_flag_options());
    }
    options_supported(args, &value_options, &flag_options)
}

/// The top-level commands, in the order the help lists them.
pub open spec fn top_level_commands() -> Seq<Seq<char>> {
    seq![
        "read-configuration"@,
        "build"@,
        "up"@,
        "set-up"@,
        "run-user-commands"@,
        "outdated"@,
        "upgrade"@,
        "exec"@,
        "features"@,
        "templates"@,
    ]
}

/// Whether the command is one of the top-level commands.
pub fn is_supported_command(command: &str) -> (r: bool)
    ensures
        r == top_level_commands().contains(command@),
{
    let commands: [&str; 10] = [
        "read-configuration",
        "build",
        "up",
        "set-up",
        "run-user-commands",
        "outdated",
        "upgrade",
        "exec",
        "features",
        "templates",
    ];
    proof {
        assert(str_views(commands@) =~= top_level_commands());
    }
    let mut i: usize = 0;
    while i < 10
        invariant
            i <= 10,
            commands@.len() == 10,
            str_views(commands@) == top_level_commands(),
            forall|q: int| 0 <= q < i ==> top_level_commands()[q] != command@,
        decreases 10 - i,
    {
        if str_eq(commands[i], command) {
            proof {
                assert(top_level_commands()[i as int] == command@);
            }
            return true;
        }
        i = i + 1;
    }
    false
}

/// What `features list` or `templates list` prints natively: an empty list.
pub open spec fn collection_payload_of(command: Seq<char>) -> Seq<char> {
    if command == "features"@ {
        "{\"features\":[]}"@
    } else if command == "templates"@ {
        "{\"templates\":[]}"@
    } else {
        "{}"@
    }
}

/// What a natively served collection listing prints.
pub fn native_collection_payload(command: &str) -> (r: &'static str)
    ensures
        r@ == collection_payload_of(command@),
{
    if str_eq(command, "features") {
        "{\"features\":[]}"
    } else if str_eq(command, "templates") {
        "{\"templates\":[]}"
    } else {
        "{}"
    }
}

/// `  - command: description` for each command.
pub open spec fn command_lines(commands: Seq<Seq<char>>) -> Seq<char>
    decreases commands.len(),
{
    if commands.len() == 0 {
        Seq::empty()
    } else {
        command_lines(commands.drop_last()) + "  - "@ + commands.last() + ": "@ + description_of(commands.last())
            + "\n"@
    }
}

/// The general help: usage, the commands with their descriptions, and the references.
pub open spec fn help_text_of() -> Seq<char> {
    "devcontainer (native Rust CLI)\n"@ + "\nUsage:\n  devcontainer [--log-format text|json] <command> [args...]\n\n"@
        + "Supported top-level commands:\n"@ + command_lines(top_level_commands()) + "\nReference:\n"@
        + "  - docs/cli/command-reference.md (generated from pinned upstream metadata)\n"@
        + "  - docs/upstream/parity-inventory.md (measured native parity inventory)\n"@
}

fn push_str_chars(out: &mut Vec<char>, s: &str)
    ensures
        final(out)@ == old(out)@ + s@,
{
    let c = crate::text::chars_of(s);
    crate::text::append_chars(out, &c);
}

/// The general help text.
pub fn help_text() -> (r: String)
    ensures
        r@ == help_text_of(),
{
    let commands: [&str; 10] = [
        "read-configuration",
        "build",
        "up",
        "set-up",
        "run-user-commands",
        "outdated",
        "upgrade",
        "exec",
        "features",
        "templates",
    ];
    let mut out: Vec<char> = Vec::new();
    push_str_chars(&mut out, "devcontainer (native Rust CLI)\n");
    push_str_chars(&mut out, "\nUsage:\n  devcontainer [--log-format text|json] <command> [args...]\n\n");
    push_str_chars(&mut out, "Supported top-level commands:\n");
    let ghost head = out@;
    let ghost cs = top_level_commands();
    proof {
        assert(commands@.map_values(|c: &str| c@) =~= cs);
        assert(cs.take(0) =~= Seq::<Seq<char>>::empty());
    }
    let mut i: usize = 0;
    while i < 10
        invariant
            i <= 10,
            commands@.map_values(|c: &str| c@) == cs,
            cs == top_level_commands(),
            out@ == head + command_lines(cs.take(i as int)),
        decreases 10 - i,
    {
        proof {
            assert(cs.take(i + 1).drop_last() =~= cs.take(i as int));
            assert(cs.take(i + 1).last() == commands@[i as int]@);
        }
        push_str_chars(&mut out, "  - ");
        push_str_chars(&mut out, commands[i]);
        push_str_chars(&mut out, ": ");
        push_str_chars(&mut out, command_description(commands[i]));
        push_str_chars(&mut out, "\n");
        proof {
            assert(out@ =~= head + command_lines(cs.take(i + 1)));
        }
        i = i + 1;
    }
    proof {
        assert(cs.take(10) =~= cs);
    }
    push_str_chars(&mut out, "\nReference:\n");
    push_str_chars(&mut out, "  - docs/cli/command-reference.md (generated from pinned upstream metadata)\n");
    push_str_chars(&mut out, "  - docs/upstream/parity-inventory.md (measured native parity inventory)\n");
    proof {
        assert(out@ =~= help_text_of());
    }
    crate::text::string_of(&out)
}

/// What the help of a command says after its description.
pub open spec fn command_help_body(command: Seq<char>) -> Seq<char> {
    if command == "read-configuration"@ {
        "Usage:\n  devcontainer read-configuration [--workspace-folder <path>] [--config <path>]\n"@
            + "\nNative support:\n"@ + "  - resolves .devcontainer/devcontainer.json or .devcontainer.json\n"@
            + "  - supports --workspace-folder and --config\n"@
    } else if command == "features"@ {
        "Usage:\n  devcontainer features <list|ls|resolve-dependencies|info|test|package|publish|generate-docs>\n"@
            + "\nNative support:\n"@ + "  - list / ls\n"@ + "  - resolve-dependencies\n"@
            + "  - info manifest <feature>\n"@ + "  - test <project-folder>\n"@ + "  - package <target>\n"@
            + "  - publish <target>\n"@ + "  - generate-docs <target>\n"@
            + "  - published OCI flows remain partial; see docs/upstream/parity-inventory.md\n"@
    } else if command == "templates"@ {
        "Usage:\n  devcontainer templates <list|ls|apply|metadata|publish|generate-docs>\n"@ + "\nNative support:\n"@
            + "  - list / ls\n"@ + "  - apply <target>\n"@ + "  - metadata <target>\n"@ + "  - publish <target>\n"@
            + "  - generate-docs <target>\n"@
            + "  - published OCI flows remain partial; see docs/upstream/parity-inventory.md\n"@
    } else if command == "build"@ || command == "up"@ || command == "exec"@ {
        "Usage:\n  devcontainer "@ + command + " [args...]\n"@ + "\nCurrent state:\n"@
            + "  - native runtime path is available\n"@
            + "  - upstream feature integration and some option coverage remain partial\n"@
    } else if command == "set-up"@ || command == "run-user-commands"@ || command == "outdated"@ || command
        == "upgrade"@ {
        "Usage:\n  devcontainer "@ + command + " [args...]\n"@ + "\nNative support:\n"@
            + "  - set-up / run-user-commands invoke lifecycle hooks in-container\n"@
            + "  - outdated / upgrade are native, but still rely on fixture/manual catalog data\n"@
    } else {
        "Usage:\n  devcontainer "@ + command + " [args...]\n"@
    }
}

/// The help of one command: its description, usage and support notes, and the references.
pub open spec fn command_help_text_of(command: Seq<char>) -> Seq<char> {
    description_of(command) + "\n"@ + command_help_body(command) + "\nReference:\n"@
        + "  - docs/cli/command-reference.md\n"@ + "  - docs/upstream/parity-inventory.md\n"@
}

fn command_help_body_exec(command: &str, out: &mut Vec<char>)
    ensures
        final(out)@ == old(out)@ + command_help_body(command@),
{
    let ghost start = out@;
    if str_eq(command, "read-configuration") {
        push_str_chars(out, "Usage:\n  devcontainer read-configuration [--workspace-folder <path>] [--config <path>]\n");
        push_str_chars(out, "\nNative support:\n");
        push_str_chars(out, "  - resolves .devcontainer/devcontainer.json or .devcontainer.json\n");
        push_str_chars(out, "  - supports --workspace-folder and --config\n");
    } else if str_eq(command, "features") {
        push_str_chars(
            out,
            "Usage:\n  devcontainer features <list|ls|resolve-dependencies|info|test|package|publish|generate-docs>\n",
        );
        push_str_chars(out, "\nNative support:\n");
        push_str_chars(out, "  - list / ls\n");
        push_str_chars(out, "  - resolve-dependencies\n");
        push_str_chars(out, "  - info manifest <feature>\n");
        push_str_chars(out, "  - test <project-folder>\n");
        push_str_chars(out, "  - package <target>\n");
        push_str_chars(out, "  - publish <target>\n");
        push_str_chars(out, "  - generate-docs <target>\n");
        push_str_chars(out, "  - published OCI flows remain partial; see docs/upstream/parity-inventory.md\n");
    } else if str_eq(command, "templates") {
        push_str_chars(out, "Usage:\n  devcontainer templates <list|ls|apply|metadata|publish|generate-docs>\n");
        push_str_chars(out, "\nNative support:\n");
        push_str_chars(out, "  - list / ls\n");
        push_str_chars(out, "  - apply <target>\n");
        push_str_chars(out, "  - metadata <target>\n");
        push_str_chars(out, "  - publish <target>\n");
        push_str_chars(out, "  - generate-docs <target>\n");
        push_str_chars(out, "  - published OCI flows remain partial; see docs/upstream/parity-inventory.md\n");
    } else if str_eq(command, "build") || str_eq(command, "up") || str_eq(command, "exec") {
        push_str_chars(out, "Usage:\n  devcontainer ");
        push_str_chars(out, command);
        push_str_chars(out, " [args...]\n");
        push_str_chars(out, "\nCurrent state:\n");
        push_str_chars(out, "  - native runtime path is available\n");
        push_str_chars(out, "  - upstream feature integration and some option coverage remain partial\n");
    } else if str_eq(command, "set-up") || str_eq(command, "run-user-commands") || str_eq(command, "outdated")
        || str_eq(command, "upgrade") {
        push_str_chars(out, "Usage:\n  devcontainer ");
        push_str_chars(out, command);
        push_str_chars(out, " [args...]\n");
        push_str_chars(out, "\nNative support:\n");
        push_str_chars(out, "  - set-up / run-user-commands invoke lifecycle hooks in-container\n");
        push_str_chars(out, "  - outdated / upgrade are native, but still rely on fixture/manual catalog data\n");
    } else {
        push_str_chars(out, "Usage:\n  devcontainer ");
        push_str_chars(out, command);
        push_str_chars(out, " [args...]\n");
    }
    proof {
        assert(out@ =~= start + command_help_body(command@));
    }
}

/// The help text of one command.
pub fn command_help_text(command: &str) -> (r: String)
    ensures
        r@ == command_help_text_of(command@),
{
    let mut out: Vec<char> = Vec::new();
    push_str_chars(&mut out, command_description(command));
    push_str_chars(&mut out, "\n");
    command_help_body_exec(command, &mut out);
    push_str_chars(&mut out, "\nReference:\n");
    push_str_chars(&mut out, "  - docs/cli/command-reference.md\n");
    push_str_chars(&mut out, "  - docs/upstream/parity-inventory.md\n");
    proof {
        assert(out@ =~= command_help_text_of(command@));
    }
    crate::text::string_of(&out)
}

} // verus!
