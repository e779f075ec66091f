use envsynx::args::{
    command, first_positional, init_request, login_options, option_value, project_path,
    sync_project, Command,
};
use envsynx::callback::{
    authorize_url, callback_reply, callback_url, first_line_of, http_response, login_state,
    query_of, request_target, split_whitespace,
};
use envsynx::config::{api_base_url, auth_token, endpoint_url, trim_trailing_slash};
use envsynx::env_files::{is_env_file, sort_env_files, SyncFile};
use envsynx::help::{get_version, help, pretty_help};
use envsynx::report::{
    created_project_line, dir_output, list_output, no_env_files_line, project_output,
    sync_output, EnvFileSummary, Project, SyncedFile,
};
use envsynx::response::{check_response, failure_message};
use envsynx::text::{blank, decimal_string, str_lt};
use envsynx::url::{decode_first, encode, query_matches, query_value, split_str};

fn strings(items: &[&str]) -> Vec<String> {
    items.iter().map(|s| s.to_string()).collect()
}

fn file(name: &str) -> SyncFile {
    SyncFile { name: name.to_string(), path: name.to_string(), payload: String::new() }
}

#[test]
fn trim_trailing_slash_trims_whitespace_then_slashes() {
    assert_eq!(trim_trailing_slash("  http://x.io//  "), "http://x.io");
    assert_eq!(trim_trailing_slash("http://x.io"), "http://x.io");
    assert_eq!(trim_trailing_slash("///"), "");
    assert_eq!(trim_trailing_slash("a/ /"), "a/ ");
    assert_eq!(trim_trailing_slash("\u{3000}http://y/\t"), "http://y");
}

#[test]
fn blank_follows_unicode_whitespace() {
    assert!(blank(" \t\n\u{85}"));
    assert!(!blank(" a "));
    assert!(blank(""));
}

#[test]
fn option_value_takes_the_argument_after_the_first_occurrence() {
    assert_eq!(option_value(&strings(&["--api", "x"]), "--api"), Some("x".to_string()));
    assert_eq!(option_value(&strings(&["--api", "x", "--api", "y"]), "--api"), Some("x".to_string()));
    assert_eq!(option_value(&strings(&["--token", "--api", "v"]), "--api"), Some("v".to_string()));
    assert_eq!(option_value(&strings(&["--api", "--token", "t"]), "--api"), None);
    assert_eq!(option_value(&strings(&["a", "--api"]), "--api"), None);
    assert_eq!(option_value(&strings(&[]), "--api"), None);
    assert_eq!(option_value(&strings(&["--api", "-x"]), "--api"), Some("-x".to_string()));
}

#[test]
fn first_positional_skips_flags() {
    assert_eq!(first_positional(&strings(&["demo", "--x"])), Some("demo".to_string()));
    assert_eq!(first_positional(&strings(&["--x", "demo"])), None);
    assert_eq!(first_positional(&strings(&[])), None);
}

#[test]
fn command_selects_each_command() {
    assert!(matches!(command(&strings(&["envsynx"])), Command::Help(t) if t.is_empty()));
    assert!(matches!(command(&strings(&["envsynx", ""])), Command::Help(t) if t.is_empty()));
    assert!(matches!(command(&strings(&["envsynx", "test"])), Command::Test));
    assert!(matches!(command(&strings(&["envsynx", "version"])), Command::Version));
    assert!(matches!(command(&strings(&["envsynx", "help", "sync"])), Command::Help(t) if t == "sync"));
    assert!(matches!(command(&strings(&["envsynx", "list"])), Command::List));
    assert!(matches!(command(&strings(&["envsynx", "dir"])), Command::Dir));
    match command(&strings(&["envsynx", "login", "--token", "t"])) {
        Command::Login(rest) => assert_eq!(rest, strings(&["--token", "t"])),
        _ => panic!("login was not selected"),
    }
    match command(&strings(&["envsynx", "init"])) {
        Command::Init(rest) => assert!(rest.is_empty()),
        _ => panic!("init was not selected"),
    }
    match command(&strings(&["envsynx", "project", "demo"])) {
        Command::Project(rest) => assert_eq!(rest, strings(&["demo"])),
        _ => panic!("project was not selected"),
    }
    match command(&strings(&["envsynx", "sync", "demo", "x"])) {
        Command::Sync(rest) => assert_eq!(rest, strings(&["demo", "x"])),
        _ => panic!("sync was not selected"),
    }
    match command(&strings(&["envsynx", "deploy"])) {
        Command::Unknown(m) => assert_eq!(
            m,
            "Unknown command: deploy -> Use [envsynx help] to see all available commands"
        ),
        _ => panic!("an unknown command was accepted"),
    }
}

#[test]
fn help_texts() {
    let general = pretty_help();
    assert_eq!(general.len(), 13);
    assert_eq!(general[0], "Usage: envsynx <command>");
    assert_eq!(general[1], "");
    assert_eq!(general[12], "For more information, run: envsynx help <command>");
    assert_eq!(help(""), general);
    assert_eq!(help("version"), vec!["Help for version command.".to_string()]);
    assert_eq!(
        help("init"),
        vec!["Usage: envsynx init <name> [--environment Development|Staging|Production] [--slug <slug>]".to_string()]
    );
    assert_eq!(help("list"), vec!["Usage: envsynx list".to_string()]);
    assert_eq!(help("project"), vec!["Usage: envsynx project <name-or-slug>".to_string()]);
    assert_eq!(help("sync"), vec!["Usage: envsynx sync <project-name-or-slug>".to_string()]);
    assert_eq!(help("dir"), vec!["Usage: envsynx dir".to_string()]);
    assert_eq!(help("nope"), vec!["No help available for: nope".to_string()]);
    assert_eq!(get_version("0.1.0"), "Version 0.1.0");
}

#[test]
fn login_options_fall_back_to_the_first_argument() {
    let o = login_options(&strings(&["tok"]));
    assert_eq!(o.token.as_deref(), Some("tok"));
    assert_eq!(o.api, None);
    let o = login_options(&strings(&["--api", "http://a"]));
    assert_eq!(o.token, None);
    assert_eq!(o.api.as_deref(), Some("http://a"));
}

#[test]
fn init_request_reads_name_environment_and_slug() {
    let r = init_request(&strings(&["App", "--environment", "Staging", "--slug", "app"])).unwrap();
    assert_eq!(r.name, "App");
    assert_eq!(r.environment.as_deref(), Some("Staging"));
    assert_eq!(r.slug.as_deref(), Some("app"));
    let r = init_request(&strings(&["--name", "Other", "First"])).unwrap();
    assert_eq!(r.name, "Other");
    assert_eq!(r.environment, None);
    match init_request(&strings(&["--environment", "Staging"])) {
        Err(m) => assert_eq!(m, "Usage: envsynx init <name> [--environment Development|Staging|Production]"),
        Ok(_) => panic!("init without a name was accepted"),
    }
}

#[test]
fn project_path_encodes_the_name() {
    assert_eq!(project_path(&strings(&["my app"])).unwrap(), "/api/cli/projects/my%20app");
    assert_eq!(project_path(&strings(&["demo-app"])).unwrap(), "/api/cli/projects/demo-app");
    assert_eq!(
        project_path(&strings(&["--x"])).err().unwrap(),
        "Usage: envsynx project <name-or-slug>"
    );
    assert_eq!(project_path(&strings(&[])).err().unwrap(), "Usage: envsynx project <name-or-slug>");
}

#[test]
fn sync_project_prefers_the_option() {
    assert_eq!(sync_project(&strings(&["a", "--project", "b"])).unwrap(), "b");
    assert_eq!(sync_project(&strings(&["a"])).unwrap(), "a");
    assert_eq!(
        sync_project(&strings(&["--force"])).err().unwrap(),
        "Usage: envsynx sync <project-name-or-slug>"
    );
}

#[test]
fn auth_token_prefers_a_non_blank_environment_value() {
    assert_eq!(auth_token(Some(" env ".to_string()), Some("cfg".to_string())).unwrap(), " env ");
    assert_eq!(auth_token(Some("  ".to_string()), Some("cfg".to_string())).unwrap(), "cfg");
    assert_eq!(auth_token(None, Some("cfg".to_string())).unwrap(), "cfg");
    assert_eq!(
        auth_token(Some(" ".to_string()), Some("\t".to_string())).err().unwrap(),
        "Missing CLI token. Run envsynx login --token <token> or set ENVSYNX_TOKEN."
    );
    assert!(auth_token(None, None).is_err());
}

#[test]
fn api_base_url_chooses_and_trims() {
    assert_eq!(api_base_url(Some(" http://a/ ".to_string()), Some("http://b".to_string())), "http://a");
    assert_eq!(api_base_url(Some(" ".to_string()), Some("http://b//".to_string())), "http://b");
    assert_eq!(api_base_url(None, Some("  ".to_string())), "");
    assert_eq!(api_base_url(None, None), "http://localhost:3000");
    assert_eq!(endpoint_url("http://a", "/api/cli/sync"), "http://a/api/cli/sync");
}

#[test]
fn login_urls_and_state() {
    assert_eq!(callback_url(8080), "http://127.0.0.1:8080/callback");
    assert_eq!(callback_url(0), "http://127.0.0.1:0/callback");
    assert_eq!(login_state(42, 1700000000000), "envsynx-42-1700000000000");
    assert_eq!(
        authorize_url("http://localhost:3000/", "http://127.0.0.1:8080/callback", "envsynx-1-2"),
        "http://localhost:3000/cli/authorize?redirect_uri=http%3A%2F%2F127.0.0.1%3A8080%2Fcallback&state=envsynx-1-2"
    );
}

#[test]
fn authorize_query_reads_back_callback_and_state() {
    let state = "a b&c=d/é";
    let url = authorize_url(" http://api.test/ ", "http://127.0.0.1:9/callback", state);
    let query = query_of(&url);
    assert_eq!(query_value(&query, "state").as_deref(), Some(state));
    assert_eq!(query_value(&query, "redirect_uri").as_deref(), Some("http://127.0.0.1:9/callback"));
}

#[test]
fn encode_matches_urlencoding() {
    assert_eq!(encode("a b&c=d?é~-._"), "a%20b%26c%3Dd%3F%C3%A9~-._");
    assert_eq!(encode(""), "");
    assert_eq!(query_value(&format!("k={}", encode("x+y %")), "k").as_deref(), Some("x+y %"));
}

#[test]
fn request_target_reads_the_first_line() {
    let req = "GET /callback?state=s&token=t HTTP/1.1\r\nHost: x\r\n\r\n";
    assert_eq!(request_target(req).as_deref(), Some("/callback?state=s&token=t"));
    assert_eq!(request_target(""), None);
    assert_eq!(request_target("GET\r\n/x y"), None);
    assert_eq!(request_target("  GET\t /p  ").as_deref(), Some("/p"));
    assert_eq!(first_line_of("a\r\nb").as_deref(), Some("a"));
    assert_eq!(first_line_of("a\r").as_deref(), Some("a\r"));
    assert_eq!(first_line_of("\nb").as_deref(), Some(""));
    assert_eq!(split_whitespace("  a\tb  c "), strings(&["a", "b", "c"]));
}

#[test]
fn query_helpers() {
    assert_eq!(query_of("/callback?a=1?b"), "a=1?b");
    assert_eq!(query_of("/callback"), "");
    assert_eq!(split_str("a&&b", '&'), strings(&["a", "", "b"]));
    assert_eq!(split_str("", '&'), strings(&[""]));
    assert_eq!(query_matches("state=a&x&state=b=c&token=t", "state"), strings(&["a", "b=c"]));
    assert_eq!(query_value("state=a%20b&token=x", "state").as_deref(), Some("a b"));
    assert_eq!(query_value("token=%FF&token=ok", "token").as_deref(), Some("ok"));
    assert_eq!(query_value("token=%FF", "token"), None);
    assert_eq!(query_value("token", "token"), None);
    assert_eq!(query_value("a=1&b=2", "c"), None);
    assert_eq!(query_value("q=a+b%2", "q").as_deref(), Some("a+b%2"));
    assert_eq!(decode_first(&strings(&["%C3", "%C3%A9"])).as_deref(), Some("é"));
}

#[test]
fn callback_reply_accepts_only_the_matching_state() {
    let ok = callback_reply("GET /callback?state=s1&token=tok HTTP/1.1\r\n\r\n", "s1").unwrap();
    assert_eq!(ok.status, "200 OK");
    assert_eq!(ok.body, "envsynx CLI is authorized. You can close this tab and return to your terminal.");
    assert_eq!(ok.token.as_deref(), Some("tok"));
    assert_eq!(ok.into_token().unwrap(), "tok");

    let missing = callback_reply("GET /callback?state=s1 HTTP/1.1\r\n\r\n", "s1").unwrap();
    assert_eq!(missing.status, "400 Bad Request");
    assert_eq!(missing.body, "Missing token in callback. Return to the terminal and try again.");
    assert_eq!(missing.token, None);
    assert_eq!(missing.into_token().err().unwrap(), "Authorization did not return a valid token.");

    let wrong = callback_reply("GET /callback?state=s2&token=tok HTTP/1.1\r\n\r\n", "s1").unwrap();
    assert_eq!(wrong.status, "400 Bad Request");
    assert_eq!(wrong.body, "Invalid login state. Return to the terminal and try again.");
    assert_eq!(wrong.token, None);

    assert_eq!(callback_reply("", "s1").err().unwrap(), "Could not read browser callback.");
    assert_eq!(callback_reply("GET\r\n", "s1").err().unwrap(), "Could not read browser callback.");
}

#[test]
fn http_response_carries_the_page_length() {
    let body = "héllo";
    let html = format!("<!doctype html><meta charset=\"utf-8\"><title>envsynx CLI</title><body>{body}</body>");
    let expected = format!(
        "HTTP/1.1 200 OK\r\nContent-Type: text/html; charset=utf-8\r\nContent-Length: {}\r\nConnection: close\r\n\r\n{}",
        html.len(),
        html
    );
    assert_eq!(http_response("200 OK", body), expected);
}

#[test]
fn check_response_accepts_200_and_201_only() {
    assert!(check_response(200, "200 OK", "{}").is_ok());
    assert!(check_response(201, "201 Created", "not json").is_ok());
    assert_eq!(
        check_response(404, "404 Not Found", "{\"error\":\"Project not found\"}").err().unwrap(),
        "API request failed (404 Not Found): Project not found"
    );
    assert_eq!(
        check_response(500, "500 Internal Server Error", "boom").err().unwrap(),
        "API request failed (500 Internal Server Error): boom"
    );
    assert_eq!(
        check_response(401, "401 Unauthorized", "{\"error\":42}").err().unwrap(),
        "API request failed (401 Unauthorized): {\"error\":42}"
    );
    assert_eq!(failure_message("400 Bad Request", "x", Some("m".to_string())), "API request failed (400 Bad Request): m");
}

#[test]
fn env_file_names() {
    assert!(is_env_file(".env"));
    assert!(is_env_file(".env.local"));
    assert!(is_env_file(".env."));
    assert!(!is_env_file(".env.example"));
    assert!(!is_env_file(".envrc"));
    assert!(!is_env_file("env"));
    assert!(!is_env_file("notes.txt"));
}

#[test]
fn sort_env_files_orders_by_name() {
    let sorted = sort_env_files(vec![file("b"), file("é"), file("a"), file("C"), file("ab"), file("a")]);
    let names: Vec<&str> = sorted.iter().map(|f| f.name.as_str()).collect();
    let mut expected = vec!["b", "é", "a", "C", "ab", "a"];
    expected.sort();
    assert_eq!(names, expected);
    assert!(sort_env_files(Vec::new()).is_empty());
    let same = sort_env_files(vec![
        SyncFile { name: "b".to_string(), path: "1".to_string(), payload: String::new() },
        SyncFile { name: "a".to_string(), path: "2".to_string(), payload: String::new() },
        SyncFile { name: "b".to_string(), path: "3".to_string(), payload: String::new() },
        SyncFile { name: "a".to_string(), path: "4".to_string(), payload: String::new() },
    ]);
    let paths: Vec<&str> = same.iter().map(|f| f.path.as_str()).collect();
    assert_eq!(paths, vec!["2", "4", "1", "3"]);
    assert!(str_lt("C", "a"));
    assert!(str_lt("a", "ab"));
    assert!(!str_lt("ab", "ab"));
    assert!(str_lt("z", "é"));
}

#[test]
fn reports_line_by_line() {
    assert_eq!(
        list_output(&vec![]),
        strings(&["", "Your projects:", "\u{2022} No projects found. Create one with: envsynx init <name>", ""])
    );
    let p = Project { name: "A".to_string(), slug: "a".to_string(), environment: "Production".to_string() };
    assert_eq!(list_output(&vec![p]), strings(&["", "Your projects:", "\u{2022} A (a, Production)", ""]));
    let p = Project { name: "A".to_string(), slug: "a".to_string(), environment: "Staging".to_string() };
    assert_eq!(
        project_output(&p, &vec![]),
        strings(&["", "Project: A", "Slug: a", "Environment: Staging", "Files:", "\u{2022} No env files synced yet.", ""])
    );
    let files = vec![EnvFileSummary { name: ".env".to_string(), status: "synced".to_string() }];
    assert_eq!(
        project_output(&p, &files),
        strings(&["", "Project: A", "Slug: a", "Environment: Staging", "Files:", "\u{2022} .env (synced)", ""])
    );
    assert_eq!(sync_output(&vec![]), strings(&["Synced env files:"]));
    assert_eq!(
        sync_output(&vec![SyncedFile { name: ".env".to_string(), version: 12 }]),
        strings(&["Synced env files:", "\u{2022} .env -> version 12"])
    );
    assert_eq!(no_env_files_line("/w"), "No env files found in /w.");
    assert_eq!(dir_output("/w", &vec![]), strings(&["Current directory: /w", "Env files:", "\u{2022} No env files found."]));
    assert_eq!(dir_output("/w", &vec![file(".env")]), strings(&["Current directory: /w", "Env files:", "\u{2022} .env"]));
    assert_eq!(created_project_line(Some("A".to_string()), Some("a".to_string())), "Created project: A (a)");
    assert_eq!(created_project_line(None, Some("a".to_string())), "Created project: unknown (a)");
    assert_eq!(created_project_line(Some("A".to_string()), None), "Created project: A (unknown)");
}

#[test]
fn decimal_rendering() {
    assert_eq!(decimal_string(0), "0");
    assert_eq!(decimal_string(10), "10");
    assert_eq!(decimal_string(u128::MAX), u128::MAX.to_string());
}
