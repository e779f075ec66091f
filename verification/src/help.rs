//! The help texts and the version line.
use vstd::prelude::*;
use crate::text::{views, push_line, push_string_line, str_eq};

verus! {

/// The lines of the general help.
pub open spec fn pretty_help_lines() -> Seq<Seq<char>> {
    seq![
        "Usage: envsynx <command>"@,
        ""@,
        "Commands:"@,
        "  envsynx help             Show this help message."@,
        "  envsynx version          Show the current version of the application."@,
        "  envsynx login            Open the website to authorize this CLI."@,
        "  envsynx init <name>      Initialize a new project."@,
        "  envsynx list             List the available projects."@,
        "  envsynx project <name>   Show information about a specific project."@,
        "  envsynx sync <project>   Synchronize all local env files with the website."@,
        "  envsynx dir              Show all env files in the current directory."@,
        ""@,
        "For more information, run: envsynx help <command>"@,
    ]
}

/// The lines of the help on `cmd`; the general help where `cmd` is empty.
pub open spec fn help_lines(cmd: Seq<char>) -> Seq<Seq<char>> {
    if cmd.len() == 0 {
        pretty_help_lines()
    } else if cmd == "version"@ {
        seq!["Help for version command."@]
    } else if cmd == "login"@ {
        seq!["Usage: envsynx login [--api http://localhost:3000] [--token <token>]"@]
    } else if cmd == "init"@ {
        seq![
            "Usage: envsynx init <name> [--environment Development|Staging|Production] [--slug <slug>]"@,
        ]
    } else if cmd == "list"@ {
        seq!["Usage: envsynx list"@]
    } else if cmd == "project"@ {
        seq!["Usage: envsynx project <name-or-slug>"@]
    } else if cmd == "sync"@ {
        seq!["Usage: envsynx sync <project-name-or-slug>"@]
    } else if cmd == "dir"@ {
        seq!["Usage: envsynx dir"@]
    } else {
        seq!["No help available for: "@ + cmd]
    }
}

/// The help for no command is the general help, which lists every command
/// (the browser login and the sync among them); each command has its own
/// usage line; any other name gets the notice that names it.
pub proof fn lemma_help_lines(cmd: Seq<char>)
    ensures
        help_lines(cmd).len() >= 1,
        cmd.len() == 0 ==> help_lines(cmd).len() == 13 && help_lines(cmd)[0]
            == "Usage: envsynx <command>"@ && help_lines(cmd)[5]
            == "  envsynx login            Open the website to authorize this CLI."@
            && help_lines(cmd)[9]
            == "  envsynx sync <project>   Synchronize all local env files with the website."@
            && help_lines(cmd)[12] == "For more information, run: envsynx help <command>"@,
        cmd == "login"@ ==> help_lines(cmd) == seq![
            "Usage: envsynx login [--api http://localhost:3000] [--token <token>]"@,
        ],
        cmd == "sync"@ ==> help_lines(cmd) == seq!["Usage: envsynx sync <project-name-or-slug>"@],
        cmd == "project"@ ==> help_lines(cmd) == seq!["Usage: envsynx project <name-or-slug>"@],
        cmd.len() > 0 && cmd != "version"@ && cmd != "login"@ && cmd != "init"@ && cmd != "list"@
            && cmd != "project"@ && cmd != "sync"@ && cmd != "dir"@ ==> help_lines(cmd) == seq![
            "No help available for: "@ + cmd,
        ],
{
    reveal_strlit("version");
    reveal_strlit("login");
    reveal_strlit("init");
    reveal_strlit("list");
    reveal_strlit("project");
    reveal_strlit("sync");
    reveal_strlit("dir");
    if cmd == "login"@ {
        assert(cmd.len() == 5);
        assert(cmd != "version"@);
    }
    if cmd == "sync"@ {
        assert(cmd.len() == 4);
        assert(cmd[0] == 's');
        assert("list"@[0] == 'l' && "init"@[0] == 'i');
        assert(cmd != "version"@);
        assert(cmd != "login"@);
        assert(cmd != "init"@ && cmd != "list"@);
    }
    if cmd == "project"@ {
        assert(cmd.len() == 7);
        assert(cmd[0] == 'p' && "version"@[0] == 'v');
        assert(cmd != "version"@);
        assert(cmd != "login"@ && cmd != "init"@ && cmd != "list"@);
    }
}

/// The general help, line by line.
pub fn pretty_help() -> (lines: Vec<String>)
    ensures
        views(lines@) == pretty_help_lines(),
{
    let mut lines: Vec<String> = Vec::new();
    push_line(&mut lines, "Usage: envsynx <command>");
    push_line(&mut lines, "");
    push_line(&mut lines, "Commands:");
    push_line(&mut lines, "  envsynx help             Show this help message.");
    push_line(&mut lines, "  envsynx version          Show the current version of the application.");
    push_line(&mut lines, "  envsynx login            Open the website to authorize this CLI.");
    push_line(&mut lines, "  envsynx init <name>      Initialize a new project.");
    push_line(&mut lines, "  envsynx list             List the available projects.");
    push_line(&mut lines, "  envsynx project <name>   Show information about a specific project.");
    push_line(&mut lines, "  envsynx sync <project>   Synchronize all local env files with the website.");
    push_line(&mut lines, "  envsynx dir              Show all env files in the current directory.");
    push_line(&mut lines, "");
    push_line(&mut lines, "For more information, run: envsynx help <command>");
    assert(views(lines@) =~= pretty_help_lines());
    lines
}

/// The help on `cmd`, line by line: the usage of that command, the
/// general help where `cmd` is empty, and a notice for an unknown one.
pub fn help(cmd: &str) -> (lines: Vec<String>)
    ensures
        views(lines@) == help_lines(cmd@),
{
    if cmd.is_empty() {
        return pretty_help();
    }
    let mut lines: Vec<String> = Vec::new();
    if str_eq(cmd, "version") {
        push_line(&mut lines, "Help for version command.");
    } else if str_eq(cmd, "login") {
        push_line(&mut lines, "Usage: envsynx login [--api http://localhost:3000] [--token <token>]");
    } else if str_eq(cmd, "init") {
        push_line(
            &mut lines,
            "Usage: envsynx init <name> [--environment Development|Staging|Production] [--slug <slug>]",
        );
    } else if str_eq(cmd, "list") {
        push_line(&mut lines, "Usage: envsynx list");
    } else if str_eq(cmd, "project") {
        push_line(&mut lines, "Usage: envsynx project <name-or-slug>");
    } else if str_eq(cmd, "sync") {
        push_line(&mut lines, "Usage: envsynx sync <project-name-or-slug>");
    } else if str_eq(cmd, "dir") {
        push_line(&mut lines, "Usage: envsynx dir");
    } else {
        push_string_line(&mut lines, String::from_str("No help available for: ").concat(cmd));
    }
    assert(views(lines@) =~= help_lines(cmd@));
    lines
}

/// The version line for the version `version` of the package.
pub fn get_version(version: &str) -> (line: String)
    ensures
        line@ == "Version "@ + version@,
{
    String::from_str("Version ").concat(version)
}

} // verus!
