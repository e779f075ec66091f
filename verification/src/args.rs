//! Command-line arguments: which command runs, option values and the
//! positional argument, and the requests that `login`, `init`, `project`
//! and `sync` make of them.
use vstd::prelude::*;
use vstd::utf8::encode_utf8;
use crate::text::{starts_with, str_eq};
use crate::url::{encode, percent_encode, url_decoded, lemma_decode_encode};

verus! {

/// An argument that starts with `--`.
pub open spec fn is_flag(s: Seq<char>) -> bool {
    "--"@.is_prefix_of(s)
}

/// What `option_value(args, name)` gives: the argument after the first
/// `name` that has an argument after it, unless that argument is a flag.
pub open spec fn option_spec(args: Seq<String>, name: Seq<char>) -> Option<String>
    decreases args.len(),
{
    if args.len() < 2 {
        None
    } else if args[0]@ == name {
        if is_flag(args[1]@) {
            None
        } else {
            Some(args[1])
        }
    } else {
        option_spec(args.drop_first(), name)
    }
}

/// An option's value is never a flag, and it is the argument right after
/// an occurrence of the option's name.
pub proof fn lemma_option_spec(args: Seq<String>, name: Seq<char>)
    ensures
        option_spec(args, name) matches Some(v) ==> !is_flag(v@) && exists|i: int|
            1 <= i < args.len() && args[i] == v && #[trigger] args[i - 1]@ == name,
    decreases args.len(),
{
    if args.len() >= 2 {
        if args[0]@ == name {
            if !is_flag(args[1]@) {
                assert(args[1 - 1]@ == name);
            }
        } else {
            let rest = args.drop_first();
            lemma_option_spec(rest, name);
            if let Some(v) = option_spec(rest, name) {
                let i = choose|i: int| 1 <= i < rest.len() && rest[i] == v && #[trigger] rest[i - 1]@ == name;
                assert(args[i + 1] == v);
                assert(args[(i + 1) - 1]@ == name);
            }
        }
    }
}

/// The option `name` takes its value from its first occurrence that has an
/// argument after it: that argument, unless it starts with `--`; where no
/// occurrence has an argument after it there is no value.
pub proof fn lemma_option_first_occurrence(args: Seq<String>, name: Seq<char>, i: int)
    requires
        0 <= i,
        i + 1 < args.len(),
        args[i]@ == name,
        forall|j: int| 0 <= j < i ==> #[trigger] args[j]@ != name,
    ensures
        option_spec(args, name) == (if "--"@.is_prefix_of(args[i + 1]@) {
            None
        } else {
            Some(args[i + 1])
        }),
    decreases i,
{
    if i > 0 {
        assert(args[0]@ != name);
        assert forall|j: int| 0 <= j < i - 1 implies #[trigger] args.drop_first()[j]@ != name by {
            assert(args.drop_first()[j] == args[j + 1]);
        }
        lemma_option_first_occurrence(args.drop_first(), name, i - 1);
        assert(args.drop_first()[i] == args[i + 1]);
    }
}

/// Where no argument but the last is `name`, the option has no value.
pub proof fn lemma_option_absent(args: Seq<String>, name: Seq<char>)
    requires
        forall|j: int| 0 <= j < args.len() - 1 ==> #[trigger] args[j]@ != name,
    ensures
        option_spec(args, name) is None,
    decreases args.len(),
{
    if args.len() >= 2 {
        assert(args[0]@ != name);
        assert forall|j: int| 0 <= j < args.len() - 2 implies #[trigger] args.drop_first()[j]@
            != name by {
            assert(args.drop_first()[j] == args[j + 1]);
        }
        lemma_option_absent(args.drop_first(), name);
    }
}

/// The positional argument is the first argument when there is one that
/// does not start with `--`, and nothing otherwise.
pub proof fn lemma_positional(args: Seq<String>)
    ensures
        args.len() > 0 && !"--"@.is_prefix_of(args[0]@) ==> positional_spec(args) == Some(args[0]),
        args.len() == 0 || "--"@.is_prefix_of(args[0]@) ==> positional_spec(args) is None,
{
}

/// The first argument, where there is one and it is not a flag.
pub open spec fn positional_spec(args: Seq<String>) -> Option<String> {
    if args.len() > 0 && !is_flag(args[0]@) {
        Some(args[0])
    } else {
        None
    }
}

/// `a`, or `b` where `a` is `None`.
pub open spec fn or_else<T>(a: Option<T>, b: Option<T>) -> Option<T> {
    match a {
        Some(x) => Some(x),
        None => b,
    }
}

/// The value given for the option `name`: the argument right after the
/// first occurrence of `name` that is followed by an argument, and `None`
/// where that argument starts with `--` or no such occurrence exists.
pub fn option_value(args: &[String], name: &str) -> (r: Option<String>)
    ensures
        r == option_spec(args@, name@),
        r matches Some(v) ==> !is_flag(v@) && exists|i: int|
            1 <= i < args@.len() && args@[i] == v && #[trigger] args@[i - 1]@ == name@,
{
    proof {
        lemma_option_spec(args@, name@);
    }
    let n = args.len();
    if n < 2 {
        return None;
    }
    let mut i: usize = 0;
    assert(args@.skip(0) =~= args@);
    while i + 1 < n
        invariant
            n == args@.len(),
            n >= 2,
            i + 1 <= n,
            option_spec(args@, name@) == option_spec(args@.skip(i as int), name@),
        decreases n - i,
    {
        let ghost rest = args@.skip(i as int);
        assert(rest[0] == args@[i as int]);
        assert(rest[1] == args@[i + 1]);
        if str_eq(args[i].as_str(), name) {
            if starts_with(args[i + 1].as_str(), "--") {
                return None;
            } else {
                let v = args[i + 1].clone();
                assert(option_spec(args@, name@) == Some(v));
                proof {
                    lemma_option_spec(args@, name@);
                }
                return Some(v);
            }
        }
        assert(rest.drop_first() =~= args@.skip(i + 1));
        i = i + 1;
    }
    None
}

/// The first argument where it does not start with `--`.
pub fn first_positional(args: &[String]) -> (r: Option<String>)
    ensures
        r == positional_spec(args@),
{
    if args.len() > 0 && !starts_with(args[0].as_str(), "--") {
        Some(args[0].clone())
    } else {
        None
    }
}

/// `args[from..]` as a vector of its own.
pub fn tail_from(args: &Vec<String>, from: usize) -> (r: Vec<String>)
    requires
        from <= args@.len(),
    ensures
        r@ == args@.skip(from as int),
{
    let mut r: Vec<String> = Vec::new();
    let mut i: usize = from;
    while i < args.len()
        invariant
            from <= i <= args@.len(),
            r@ == args@.subrange(from as int, i as int),
        decreases args@.len() - i,
    {
        r.push(args[i].clone());
        i = i + 1;
        assert(r@ =~= args@.subrange(from as int, i as int));
    }
    assert(r@ =~= args@.skip(from as int));
    r
}

/// The command the client runs, as its first argument after the program
/// name selects it.
pub enum Command {
    /// `test`: prints a test line.
    Test,
    /// `version`: prints the version.
    Version,
    /// `help [topic]`, and no command at all: prints help on the topic.
    Help(String),
    /// `login ...`, with the arguments after `login`.
    Login(Vec<String>),
    /// `list`: lists the projects.
    List,
    /// `init ...`, with the arguments after `init`.
    Init(Vec<String>),
    /// `project ...`, with the arguments after `project`.
    Project(Vec<String>),
    /// `sync ...`, with the arguments after `sync`.
    Sync(Vec<String>),
    /// `dir`: lists the env files of the current directory.
    Dir,
    /// Any other name: fails with this message.
    Unknown(String),
}

/// The command name: the argument after the program name, or empty.
pub open spec fn command_name(args: Seq<String>) -> Seq<char> {
    if args.len() > 1 {
        args[1]@
    } else {
        Seq::empty()
    }
}

/// The help topic: the argument after `help`, or empty.
pub open spec fn help_topic(args: Seq<String>) -> Seq<char> {
    if args.len() > 2 {
        args[2]@
    } else {
        Seq::empty()
    }
}

/// The message for an unknown command name.
pub open spec fn unknown_command_message(name: Seq<char>) -> Seq<char> {
    "Unknown command: "@ + name + " -> Use [envsynx help] to see all available commands"@
}

/// Whether `c` is the command that `args` selects.
pub open spec fn command_spec(args: Seq<String>, c: Command) -> bool {
    let name = command_name(args);
    if name.len() == 0 {
        c matches Command::Help(t) && t@ == Seq::<char>::empty()
    } else if name == "test"@ {
        c is Test
    } else if name == "version"@ {
        c is Version
    } else if name == "help"@ {
        c matches Command::Help(t) && t@ == help_topic(args)
    } else if name == "login"@ {
        c matches Command::Login(rest) && rest@ == args.skip(2)
    } else if name == "list"@ {
        c is List
    } else if name == "init"@ {
        c matches Command::Init(rest) && rest@ == args.skip(2)
    } else if name == "project"@ {
        c matches Command::Project(rest) && rest@ == args.skip(2)
    } else if name == "sync"@ {
        c matches Command::Sync(rest) && rest@ == args.skip(2)
    } else if name == "dir"@ {
        c is Dir
    } else {
        c matches Command::Unknown(m) && m@ == unknown_command_message(name)
    }
}

/// Each command name selects its own command, the arguments after the name
/// going to `login`, `init`, `project` and `sync` as they are; no name (or
/// an empty one) asks for the general help; any other name is refused with
/// the message that names it.
pub proof fn lemma_command(args: Seq<String>, c: Command)
    requires
        command_spec(args, c),
    ensures
        command_name(args).len() == 0 ==> (c matches Command::Help(t) && t@.len() == 0),
        command_name(args) == "test"@ ==> c is Test,
        command_name(args) == "version"@ ==> c is Version,
        command_name(args) == "help"@ ==> (c matches Command::Help(t) && t@ == help_topic(args)),
        command_name(args) == "login"@ ==> (c matches Command::Login(rest) && rest@ == args.skip(2)),
        command_name(args) == "list"@ ==> c is List,
        command_name(args) == "init"@ ==> (c matches Command::Init(rest) && rest@ == args.skip(2)),
        command_name(args) == "project"@ ==> (c matches Command::Project(rest) && rest@ == args.skip(
            2,
        )),
        command_name(args) == "sync"@ ==> (c matches Command::Sync(rest) && rest@ == args.skip(2)),
        command_name(args) == "dir"@ ==> c is Dir,
        command_name(args).len() > 0 && command_name(args) != "test"@ && command_name(args)
            != "version"@ && command_name(args) != "help"@ && command_name(args) != "login"@
            && command_name(args) != "list"@ && command_name(args) != "init"@ && command_name(args)
            != "project"@ && command_name(args) != "sync"@ && command_name(args) != "dir"@ ==> (
        c matches Command::Unknown(m) && m@ == "Unknown command: "@ + command_name(args)
            + " -> Use [envsynx help] to see all available commands"@),
{
    reveal_strlit("test");
    reveal_strlit("version");
    reveal_strlit("help");
    reveal_strlit("login");
    reveal_strlit("list");
    reveal_strlit("init");
    reveal_strlit("project");
    reveal_strlit("sync");
    reveal_strlit("dir");
    let name = command_name(args);
    if name.len() == 4 {
        assert(name == "test"@ ==> name[0] == 't');
        assert(name == "help"@ ==> name[0] == 'h');
        assert(name == "list"@ ==> name[0] == 'l');
        assert(name == "init"@ ==> name[0] == 'i');
        assert(name == "sync"@ ==> name[0] == 's');
    }
    if name.len() == 7 {
        assert(name == "version"@ ==> name[0] == 'v');
        assert(name == "project"@ ==> name[0] == 'p');
    }
}

/// Selects the command from the full argument list (program name first).
pub fn command(args: &Vec<String>) -> (c: Command)
    ensures
        command_spec(args@, c),
{
    if args.len() < 2 || args[1].as_str().is_empty() {
        return Command::Help(String::new());
    }
    let nm = args[1].as_str();
    if str_eq(nm, "test") {
        Command::Test
    } else if str_eq(nm, "version") {
        Command::Version
    } else if str_eq(nm, "help") {
        let topic: String = if args.len() > 2 {
            args[2].clone()
        } else {
            String::new()
        };
        Command::Help(topic)
    } else if str_eq(nm, "login") {
        Command::Login(tail_from(args, 2))
    } else if str_eq(nm, "list") {
        Command::List
    } else if str_eq(nm, "init") {
        Command::Init(tail_from(args, 2))
    } else if str_eq(nm, "project") {
        Command::Project(tail_from(args, 2))
    } else if str_eq(nm, "sync") {
        Command::Sync(tail_from(args, 2))
    } else if str_eq(nm, "dir") {
        Command::Dir
    } else {
        let m = String::from_str("Unknown command: ").concat(nm).concat(
            " -> Use [envsynx help] to see all available commands",
        );
        Command::Unknown(m)
    }
}

/// What `login` takes from its arguments: the API given with `--api`, and
/// the token given with `--token` or as the first argument.
pub struct LoginOptions {
    pub api: Option<String>,
    pub token: Option<String>,
}

/// Reads the `login` arguments. Where `api` is `None` the configured API
/// base URL is used; where `token` is `None` the browser flow runs.
pub fn login_options(args: &[String]) -> (o: LoginOptions)
    ensures
        o.api == option_spec(args@, "--api"@),
        o.token == or_else(option_spec(args@, "--token"@), positional_spec(args@)),
{
    let api = option_value(args, "--api");
    let token = match option_value(args, "--token") {
        Some(t) => Some(t),
        None => first_positional(args),
    };
    LoginOptions { api, token }
}

/// The body of the project that `init` creates; fields that are `None`
/// are left out of the JSON object.
pub struct InitRequest {
    pub environment: Option<String>,
    pub name: String,
    pub slug: Option<String>,
}

/// The usage line that `init` prints when no name is given.
pub open spec fn init_usage() -> Seq<char> {
    "Usage: envsynx init <name> [--environment Development|Staging|Production]"@
}

/// Reads the `init` arguments: the name from `--name` or the first
/// argument, `--environment` and `--slug`. Fails with the usage line when
/// there is no name.
pub fn init_request(args: &[String]) -> (r: Result<InitRequest, String>)
    ensures
        match or_else(option_spec(args@, "--name"@), positional_spec(args@)) {
            Some(name) => r matches Ok(req) && req.name == name && req.environment == option_spec(
                args@,
                "--environment"@,
            ) && req.slug == option_spec(args@, "--slug"@),
            None => r matches Err(m) && m@ == init_usage(),
        },
{
    let name = match option_value(args, "--name") {
        Some(n) => Some(n),
        None => first_positional(args),
    };
    match name {
        Some(name) => {
            let environment = option_value(args, "--environment");
            let slug = option_value(args, "--slug");
            Ok(InitRequest { environment, name, slug })
        },
        None => Err(
            String::from_str(
                "Usage: envsynx init <name> [--environment Development|Staging|Production]",
            ),
        ),
    }
}

/// The API path of the project that `project` shows.
pub open spec fn project_path_spec(name: Seq<char>) -> Seq<char> {
    "/api/cli/projects/"@ + percent_encode(encode_utf8(name))
}

/// The project path is `/api/cli/projects/` followed by a text that
/// decodes back to the project name, whatever characters it holds.
pub proof fn lemma_project_path(name: Seq<char>)
    ensures
        project_path_spec(name).len() >= 18,
        project_path_spec(name).take(18) == "/api/cli/projects/"@,
        url_decoded(project_path_spec(name).skip(18)) == Some(name),
{
    reveal_strlit("/api/cli/projects/");
    let p = project_path_spec(name);
    assert(p.take(18) =~= "/api/cli/projects/"@);
    assert(p.skip(18) =~= percent_encode(encode_utf8(name)));
    lemma_decode_encode(name);
}

/// Reads the `project` argument and gives the API path of that project,
/// its name percent-encoded. Fails with the usage line when the first
/// argument is missing or a flag.
pub fn project_path(args: &[String]) -> (r: Result<String, String>)
    ensures
        match positional_spec(args@) {
            Some(name) => r matches Ok(p) && p@ == project_path_spec(name@),
            None => r matches Err(m) && m@ == "Usage: envsynx project <name-or-slug>"@,
        },
{
    match first_positional(args) {
        Some(name) => {
            let enc = encode(name.as_str());
            Ok(String::from_str("/api/cli/projects/").concat(enc.as_str()))
        },
        None => Err(String::from_str("Usage: envsynx project <name-or-slug>")),
    }
}

/// Reads the project that `sync` uploads to: `--project` or the first
/// argument. Fails with the usage line when there is neither.
pub fn sync_project(args: &[String]) -> (r: Result<String, String>)
    ensures
        match or_else(option_spec(args@, "--project"@), positional_spec(args@)) {
            Some(p) => r == Ok::<String, String>(p),
            None => r matches Err(m) && m@ == "Usage: envsynx sync <project-name-or-slug>"@,
        },
{
    let project = match option_value(args, "--project") {
        Some(p) => Some(p),
        None => first_positional(args),
    };
    match project {
        Some(p) => Ok(p),
        None => Err(String::from_str("Usage: envsynx sync <project-name-or-slug>")),
    }
}

} // verus!
