//! Every report the client prints, line by line: projects, one project
//! with its files, the result of a sync, the env files of a directory,
//! and the project just created.
use vstd::prelude::*;
use crate::text::{views, push_line, push_string_line, decimal, decimal_string};
use crate::env_files::SyncFile;

verus! {

/// A project as the API lists it.
pub struct Project {
    pub name: String,
    pub slug: String,
    pub environment: String,
}

/// An env file of a project as the API reports it, with its status.
pub struct EnvFileSummary {
    pub name: String,
    pub status: String,
}

/// A file the API stored in a sync, with the version it got.
pub struct SyncedFile {
    pub name: String,
    pub version: u64,
}

/// The bullet that starts each list item.
pub open spec fn bullet() -> Seq<char> {
    "\u{2022} "@
}

/// The line that lists project `p`.
pub open spec fn project_line(p: Project) -> Seq<char> {
    bullet() + p.name@ + " ("@ + p.slug@ + ", "@ + p.environment@ + ")"@
}

/// The lines of `list`: a blank line, the heading, one line per project or
/// a hint where there is none, and a blank line.
pub open spec fn list_lines(ps: Seq<Project>) -> Seq<Seq<char>> {
    seq![""@, "Your projects:"@] + (if ps.len() == 0 {
        seq!["\u{2022} No projects found. Create one with: envsynx init <name>"@]
    } else {
        ps.map_values(|p: Project| project_line(p))
    }) + seq![""@]
}

/// `list` prints a blank line and the heading, then for a non-empty list
/// exactly one line per project, in order, giving its name, slug and
/// environment, then a blank line; for an empty list the hint in place of
/// the projects.
pub proof fn lemma_list_lines(ps: Seq<Project>)
    ensures
        list_lines(ps)[0] == ""@,
        list_lines(ps)[1] == "Your projects:"@,
        ps.len() == 0 ==> list_lines(ps) == seq![
            ""@,
            "Your projects:"@,
            "\u{2022} No projects found. Create one with: envsynx init <name>"@,
            ""@,
        ],
        ps.len() > 0 ==> list_lines(ps).len() == ps.len() + 3 && list_lines(ps)[ps.len() as int + 2]
            == ""@,
        ps.len() > 0 ==> forall|k: int|
            0 <= k < ps.len() ==> #[trigger] list_lines(ps)[2 + k] == "\u{2022} "@ + ps[k].name@
                + " ("@ + ps[k].slug@ + ", "@ + ps[k].environment@ + ")"@,
{
    if ps.len() == 0 {
        assert(list_lines(ps) =~= seq![
            ""@,
            "Your projects:"@,
            "\u{2022} No projects found. Create one with: envsynx init <name>"@,
            ""@,
        ]);
    }
}

/// The lines that `list` prints for the projects `projects`.
pub fn list_output(projects: &Vec<Project>) -> (lines: Vec<String>)
    ensures
        views(lines@) == list_lines(projects@),
{
    let mut lines: Vec<String> = Vec::new();
    push_line(&mut lines, "");
    push_line(&mut lines, "Your projects:");
    let ghost head = views(lines@);
    if projects.len() == 0 {
        push_line(&mut lines, "\u{2022} No projects found. Create one with: envsynx init <name>");
    } else {
        let mut i: usize = 0;
        while i < projects.len()
            invariant
                i <= projects@.len(),
                views(lines@) == head + projects@.take(i as int).map_values(
                    |p: Project| project_line(p),
                ),
                head == seq![""@, "Your projects:"@],
            decreases projects@.len() - i,
        {
            let p = &projects[i];
            let line = String::from_str("\u{2022} ").concat(p.name.as_str()).concat(" (").concat(
                p.slug.as_str(),
            ).concat(", ").concat(p.environment.as_str()).concat(")");
            push_string_line(&mut lines, line);
            assert(projects@.take(i + 1).map_values(|p: Project| project_line(p))
                =~= projects@.take(i as int).map_values(|p: Project| project_line(p)).push(
                project_line(projects@[i as int]),
            ));
            i = i + 1;
        }
        assert(projects@.take(projects@.len() as int) =~= projects@);
    }
    push_line(&mut lines, "");
    assert(views(lines@) =~= list_lines(projects@));
    lines
}

/// The line that lists file `f` of a project.
pub open spec fn file_summary_line(f: EnvFileSummary) -> Seq<char> {
    bullet() + f.name@ + " ("@ + f.status@ + ")"@
}

/// The lines of `project`: a blank line, the project's name, slug and
/// environment, the files heading, one line per file or a notice where
/// there is none, and a blank line.
pub open spec fn project_lines(p: Project, files: Seq<EnvFileSummary>) -> Seq<Seq<char>> {
    seq![
        ""@,
        "Project: "@ + p.name@,
        "Slug: "@ + p.slug@,
        "Environment: "@ + p.environment@,
        "Files:"@,
    ] + (if files.len() == 0 {
        seq!["\u{2022} No env files synced yet."@]
    } else {
        files.map_values(|f: EnvFileSummary| file_summary_line(f))
    }) + seq![""@]
}

/// `project` prints a blank line, the project's name, slug and
/// environment, the files heading, then exactly one line per file, in
/// order, with its name and status (or a notice where there is none), and
/// a blank line.
pub proof fn lemma_project_lines(p: Project, files: Seq<EnvFileSummary>)
    ensures
        project_lines(p, files).take(5) == seq![
            ""@,
            "Project: "@ + p.name@,
            "Slug: "@ + p.slug@,
            "Environment: "@ + p.environment@,
            "Files:"@,
        ],
        files.len() == 0 ==> project_lines(p, files).len() == 7 && project_lines(p, files)[5]
            == "\u{2022} No env files synced yet."@ && project_lines(p, files)[6] == ""@,
        files.len() > 0 ==> project_lines(p, files).len() == files.len() + 6 && project_lines(
            p,
            files,
        )[files.len() as int + 5] == ""@,
        files.len() > 0 ==> forall|k: int|
            0 <= k < files.len() ==> #[trigger] project_lines(p, files)[5 + k] == "\u{2022} "@
                + files[k].name@ + " ("@ + files[k].status@ + ")"@,
{
    assert(project_lines(p, files).take(5) =~= seq![
        ""@,
        "Project: "@ + p.name@,
        "Slug: "@ + p.slug@,
        "Environment: "@ + p.environment@,
        "Files:"@,
    ]);
}

/// The lines that `project` prints for project `project` and its files.
pub fn project_output(project: &Project, files: &Vec<EnvFileSummary>) -> (lines: Vec<String>)
    ensures
        views(lines@) == project_lines(*project, files@),
{
    let mut lines: Vec<String> = Vec::new();
    push_line(&mut lines, "");
    push_string_line(&mut lines, String::from_str("Project: ").concat(project.name.as_str()));
    push_string_line(&mut lines, String::from_str("Slug: ").concat(project.slug.as_str()));
    push_string_line(
        &mut lines,
        String::from_str("Environment: ").concat(project.environment.as_str()),
    );
    push_line(&mut lines, "Files:");
    let ghost head = views(lines@);
    if files.len() == 0 {
        push_line(&mut lines, "\u{2022} No env files synced yet.");
    } else {
        let mut i: usize = 0;
        while i < files.len()
            invariant
                i <= files@.len(),
                views(lines@) == head + files@.take(i as int).map_values(
                    |f: EnvFileSummary| file_summary_line(f),
                ),
                head == seq![
                    ""@,
                    "Project: "@ + project.name@,
                    "Slug: "@ + project.slug@,
                    "Environment: "@ + project.environment@,
                    "Files:"@,
                ],
            decreases files@.len() - i,
        {
            let f = &files[i];
            let line = String::from_str("\u{2022} ").concat(f.name.as_str()).concat(" (").concat(
                f.status.as_str(),
            ).concat(")");
            push_string_line(&mut lines, line);
            assert(files@.take(i + 1).map_values(|f: EnvFileSummary| file_summary_line(f))
                =~= files@.take(i as int).map_values(|f: EnvFileSummary| file_summary_line(f)).push(
                file_summary_line(files@[i as int]),
            ));
            i = i + 1;
        }
        assert(files@.take(files@.len() as int) =~= files@);
    }
    push_line(&mut lines, "");
    assert(views(lines@) =~= project_lines(*project, files@));
    lines
}

/// The line that reports file `f` of a sync.
pub open spec fn synced_line(f: SyncedFile) -> Seq<char> {
    bullet() + f.name@ + " -> version "@ + decimal(f.version as nat)
}

/// The lines of `sync`: the heading and one line per stored file.
pub open spec fn sync_lines(files: Seq<SyncedFile>) -> Seq<Seq<char>> {
    seq!["Synced env files:"@] + files.map_values(|f: SyncedFile| synced_line(f))
}

/// `sync` prints its heading and then exactly one line per stored file, in
/// order, with its name and its version in decimal.
pub proof fn lemma_sync_lines(files: Seq<SyncedFile>)
    ensures
        sync_lines(files).len() == files.len() + 1,
        sync_lines(files)[0] == "Synced env files:"@,
        forall|k: int|
            0 <= k < files.len() ==> #[trigger] sync_lines(files)[1 + k] == "\u{2022} "@
                + files[k].name@ + " -> version "@ + decimal(files[k].version as nat),
{
}

/// The lines that `sync` prints for the files the API stored.
pub fn sync_output(synced: &Vec<SyncedFile>) -> (lines: Vec<String>)
    ensures
        views(lines@) == sync_lines(synced@),
{
    let mut lines: Vec<String> = Vec::new();
    push_line(&mut lines, "Synced env files:");
    let ghost head = views(lines@);
    let mut i: usize = 0;
    while i < synced.len()
        invariant
            i <= synced@.len(),
            views(lines@) == head + synced@.take(i as int).map_values(
                |f: SyncedFile| synced_line(f),
            ),
            head == seq!["Synced env files:"@],
        decreases synced@.len() - i,
    {
        let f = &synced[i];
        let v = decimal_string(f.version as u128);
        let line = String::from_str("\u{2022} ").concat(f.name.as_str()).concat(
            " -> version ",
        ).concat(v.as_str());
        push_string_line(&mut lines, line);
        assert(synced@.take(i + 1).map_values(|f: SyncedFile| synced_line(f)) =~= synced@.take(
            i as int,
        ).map_values(|f: SyncedFile| synced_line(f)).push(synced_line(synced@[i as int])));
        i = i + 1;
    }
    assert(synced@.take(synced@.len() as int) =~= synced@);
    lines
}

/// What `sync` prints where the directory `cwd` holds no env file.
pub fn no_env_files_line(cwd: &str) -> (line: String)
    ensures
        line@ == "No env files found in "@ + cwd@ + "."@,
{
    String::from_str("No env files found in ").concat(cwd).concat(".")
}

/// The line that lists env file `f` of the directory.
pub open spec fn dir_file_line(f: SyncFile) -> Seq<char> {
    bullet() + f.name@
}

/// The lines of `dir`: the directory, the heading, and one line per env
/// file or a notice where there is none.
pub open spec fn dir_lines(cwd: Seq<char>, files: Seq<SyncFile>) -> Seq<Seq<char>> {
    seq!["Current directory: "@ + cwd, "Env files:"@] + (if files.len() == 0 {
        seq!["\u{2022} No env files found."@]
    } else {
        files.map_values(|f: SyncFile| dir_file_line(f))
    })
}

/// `dir` prints the directory and the heading, then exactly one line per
/// env file, in order, with its name (or a notice where there is none).
pub proof fn lemma_dir_lines(cwd: Seq<char>, files: Seq<SyncFile>)
    ensures
        dir_lines(cwd, files)[0] == "Current directory: "@ + cwd,
        dir_lines(cwd, files)[1] == "Env files:"@,
        files.len() == 0 ==> dir_lines(cwd, files).len() == 3 && dir_lines(cwd, files)[2]
            == "\u{2022} No env files found."@,
        files.len() > 0 ==> dir_lines(cwd, files).len() == files.len() + 2,
        files.len() > 0 ==> forall|k: int|
            0 <= k < files.len() ==> #[trigger] dir_lines(cwd, files)[2 + k] == "\u{2022} "@
                + files[k].name@,
{
}

/// The lines that `dir` prints for the directory `cwd` and its env files.
pub fn dir_output(cwd: &str, files: &Vec<SyncFile>) -> (lines: Vec<String>)
    ensures
        views(lines@) == dir_lines(cwd@, files@),
{
    let mut lines: Vec<String> = Vec::new();
    push_string_line(&mut lines, String::from_str("Current directory: ").concat(cwd));
    push_line(&mut lines, "Env files:");
    let ghost head = views(lines@);
    if files.len() == 0 {
        push_line(&mut lines, "\u{2022} No env files found.");
    } else {
        let mut i: usize = 0;
        while i < files.len()
            invariant
                i <= files@.len(),
                views(lines@) == head + files@.take(i as int).map_values(
                    |f: SyncFile| dir_file_line(f),
                ),
                head == seq!["Current directory: "@ + cwd@, "Env files:"@],
            decreases files@.len() - i,
        {
            let line = String::from_str("\u{2022} ").concat(files[i].name.as_str());
            push_string_line(&mut lines, line);
            assert(files@.take(i + 1).map_values(|f: SyncFile| dir_file_line(f)) =~= files@.take(
                i as int,
            ).map_values(|f: SyncFile| dir_file_line(f)).push(dir_file_line(files@[i as int])));
            i = i + 1;
        }
        assert(files@.take(files@.len() as int) =~= files@);
    }
    assert(views(lines@) =~= dir_lines(cwd@, files@));
    lines
}

/// A value the API did not give, shown as `unknown`.
pub open spec fn or_unknown(v: Option<String>) -> Seq<char> {
    match v {
        Some(s) => s@,
        None => "unknown"@,
    }
}

/// The line that `init` prints for the created project, from the name and
/// slug strings of the answer's `project` (`None` where missing or not a
/// string).
pub fn created_project_line(name: Option<String>, slug: Option<String>) -> (line: String)
    ensures
        line@ == "Created project: "@ + or_unknown(name) + " ("@ + or_unknown(slug) + ")"@,
{
    let n = match name {
        Some(s) => s,
        None => String::from_str("unknown"),
    };
    let s = match slug {
        Some(s) => s,
        None => String::from_str("unknown"),
    };
    String::from_str("Created project: ").concat(n.as_str()).concat(" (").concat(s.as_str()).concat(
        ")",
    )
}

} // verus!
