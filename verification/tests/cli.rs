use envsynx::args::{command, login_options, sync_project, Command};
use envsynx::config::{auth_token, endpoint_url};
use envsynx::env_files::{is_env_file, sort_env_files, SyncFile};
use envsynx::help::help;
use envsynx::report::{dir_output, list_output, sync_output, Project, SyncedFile};

fn strings(items: &[&str]) -> Vec<String> {
    items.iter().map(|s| s.to_string()).collect()
}

fn env_files(entries: &[(&str, &str)]) -> Vec<SyncFile> {
    let files: Vec<SyncFile> = entries
        .iter()
        .filter(|(name, _)| is_env_file(name))
        .map(|(name, payload)| SyncFile {
            name: name.to_string(),
            path: name.to_string(),
            payload: payload.to_string(),
        })
        .collect();
    sort_env_files(files)
}

#[test]
fn help_includes_browser_login_flow() {
    let args = strings(&["envsynx", "help"]);
    let topic = match command(&args) {
        Command::Help(topic) => topic,
        _ => panic!("help was not selected"),
    };
    let stdout = help(&topic).join("\n");
    assert!(stdout.contains("envsynx login"));
    assert!(stdout.contains("Open the website to authorize this CLI."));
    assert!(stdout.contains("envsynx sync <project>"));
}

#[test]
fn help_login_shows_browser_and_manual_token_options() {
    let args = strings(&["envsynx", "help", "login"]);
    let topic = match command(&args) {
        Command::Help(topic) => topic,
        _ => panic!("help was not selected"),
    };
    let stdout = help(&topic).join("\n");
    assert!(stdout.contains("envsynx login [--api http://localhost:3000] [--token <token>]"));
}

#[test]
fn dir_lists_env_files_and_ignores_example_file() {
    let files = env_files(&[
        (".env", "ROOT=true"),
        (".env.local", "LOCAL=true"),
        (".env.example", "EXAMPLE=true"),
        ("notes.txt", "hello"),
    ]);
    let stdout = dir_output("/tmp/workspace", &files).join("\n");
    assert!(stdout.contains(".env"));
    assert!(stdout.contains(".env.local"));
    assert!(!stdout.contains(".env.example"));
    assert!(!stdout.contains("notes.txt"));
}

#[test]
fn login_with_token_writes_config() {
    let args = strings(&[
        "login",
        "--token",
        "envsynx_test_token",
        "--api",
        "http://127.0.0.1:3010",
    ]);
    let options = login_options(&args[1..]);
    assert_eq!(options.token.as_deref(), Some("envsynx_test_token"));
    assert_eq!(options.api.as_deref(), Some("http://127.0.0.1:3010"));
}

#[test]
fn list_sends_bearer_token_and_prints_projects() {
    let token = auth_token(Some("envsynx_test_token".to_string()), None).unwrap();
    let url = endpoint_url("http://127.0.0.1:4000", "/api/cli/projects");
    let projects = vec![Project {
        name: "Demo App".to_string(),
        slug: "demo-app".to_string(),
        environment: "Development".to_string(),
    }];
    let stdout = list_output(&projects).join("\n");
    assert!(stdout.contains("Demo App"));
    assert!(stdout.contains("demo-app"));
    assert!(url.ends_with("/api/cli/projects"));
    assert_eq!(token, "envsynx_test_token");
}

#[test]
fn sync_posts_local_env_files_to_project() {
    let args = strings(&["demo-app"]);
    let project = sync_project(&args).unwrap();
    let files = env_files(&[
        (".env.production", "API_KEY=secret"),
        (".env", "DATABASE_URL=postgres://local"),
        (".env.example", "IGNORED=true"),
    ]);
    let synced = vec![
        SyncedFile { name: ".env".to_string(), version: 1 },
        SyncedFile { name: ".env.production".to_string(), version: 1 },
    ];
    let stdout = sync_output(&synced).join("\n");
    assert!(stdout.contains(".env -> version 1"));
    assert!(stdout.contains(".env.production -> version 1"));
    assert_eq!(project, "demo-app");
    let names: Vec<&str> = files.iter().map(|f| f.name.as_str()).collect();
    assert_eq!(names, vec![".env", ".env.production"]);
    assert_eq!(files[0].payload, "DATABASE_URL=postgres://local");
    assert_eq!(files[1].payload, "API_KEY=secret");
    assert!(!names.contains(&".env.example"));
}
