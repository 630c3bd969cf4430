use git_ignore::cli::{help, parse_args, shell_help, CliCommand, Shell, SHELL_USAGE, USAGE};
use git_ignore::compose::gen_gitignore;
use git_ignore::config::Config;
use git_ignore::index::{file_stem, is_vcs_marker, template_key, TemplateIndex, WalkEntry};
use git_ignore::mirror::{clone_args, clone_command, mirror_action, MirrorAction, SyncError};

fn entry(components: &[&str], is_dir: bool) -> WalkEntry {
    WalkEntry { components: components.iter().map(|c| c.to_string()).collect(), is_dir }
}

fn strings(items: &[&str]) -> Vec<String> {
    items.iter().map(|s| s.to_string()).collect()
}

fn index_of(pairs: &[(&str, &str)]) -> TemplateIndex {
    let mut index = TemplateIndex::new();
    for (k, v) in pairs {
        index.insert(k.to_string(), v.to_string());
    }
    index
}

#[test]
fn second_setup_keeps_the_mirror() {
    assert_eq!(mirror_action(false), MirrorAction::CreateAndClone);
    assert_eq!(mirror_action(true), MirrorAction::Keep);
}

#[test]
fn clone_is_aimed_at_the_path() {
    assert_eq!(
        clone_args("/tmp/m"),
        strings(&["clone", "https://github.com/github/gitignore.git", "/tmp/m"])
    );
    assert_eq!(clone_command("/tmp/m"), "git clone https://github.com/github/gitignore.git /tmp/m");
}

#[test]
fn sync_errors_name_their_target() {
    let e = SyncError::Clone { command: clone_command("/x") };
    assert_eq!(
        e.message(),
        "Failed to clone gitignore repository.\nExecuted command: `git clone https://github.com/github/gitignore.git /x`"
    );
    let e = SyncError::CreateDir { path: "/x".to_string() };
    assert_eq!(e.message(), "Failed to create /x.");
}

#[test]
fn templates_under_markers_are_pruned() {
    assert_eq!(template_key(&entry(&[".git", "Node.gitignore"], false)), None);
    assert_eq!(template_key(&entry(&[".github", "a", "b", "Rust.gitignore"], false)), None);
    assert_eq!(template_key(&entry(&["a", ".git", "Rust.gitignore"], false)), None);
    assert_eq!(template_key(&entry(&["Global", "Rust.gitignore"], false)), Some("rust".to_string()));
    assert!(is_vcs_marker(".git"));
    assert!(is_vcs_marker(".github"));
    assert!(!is_vcs_marker(".gitlab"));
    assert!(!is_vcs_marker("git"));
}

#[test]
fn keys_are_lowercased_stems() {
    assert_eq!(template_key(&entry(&["Python.gitignore"], false)), Some("python".to_string()));
    assert_eq!(template_key(&entry(&["C++.gitignore"], false)), Some("c++".to_string()));
    assert_eq!(template_key(&entry(&["Ünïcode.gitignore"], false)), Some("ünïcode".to_string()));
}

#[test]
fn only_template_files_are_keyed() {
    assert_eq!(template_key(&entry(&["README.md"], false)), None);
    assert_eq!(template_key(&entry(&["dir.gitignore"], true)), None);
    assert_eq!(template_key(&entry(&[".gitignore"], false)), None);
    assert_eq!(template_key(&entry(&["a.gitignorex"], false)), None);
    assert_eq!(template_key(&entry(&[], true)), None);
    assert_eq!(file_stem("Archive.tar.gitignore"), Some("Archive.tar"));
    assert_eq!(file_stem("..gitignore"), Some("."));
    assert_eq!(file_stem("x.gitignore.md"), None);
    assert_eq!(file_stem("xgitignore"), None);
}

#[test]
fn later_insert_replaces_earlier() {
    let index = index_of(&[("node", "A\n"), ("rust", "B\n"), ("node", "C\n")]);
    assert_eq!(index.get(&"node".to_string()), Some(&"C\n".to_string()));
    assert_eq!(index.get(&"rust".to_string()), Some(&"B\n".to_string()));
    assert_eq!(index.get(&"go".to_string()), None);
    let mut names = index.names();
    names.sort();
    assert_eq!(names, strings(&["node", "rust"]));
}

#[test]
fn missing_name_fails_the_whole_document() {
    let index = index_of(&[("node", "N\n"), ("rust", "R\n")]);
    let r = gen_gitignore(&index, &strings(&["node", "doesnotexist", "rust"]));
    match r {
        Err(e) => {
            assert_eq!(e.name, "doesnotexist");
            assert_eq!(e.message(), "doesnotexist is not found in gitignore repository.");
        }
        Ok(text) => panic!("unexpected document {:?}", text),
    }
}

#[test]
fn sections_are_ordered_and_separated() {
    let index = index_of(&[("a", "X\n"), ("b", "Y\n")]);
    let r = gen_gitignore(&index, &strings(&["a", "b"]));
    assert_eq!(r.ok(), Some("### a ###\nX\n\n### b ###\nY\n".to_string()));
    let r = gen_gitignore(&index, &strings(&["b", "a", "b"]));
    assert_eq!(r.ok(), Some("### b ###\nY\n\n### a ###\nX\n\n### b ###\nY\n".to_string()));
}

#[test]
fn single_name_has_no_leading_blank_line() {
    let index = index_of(&[("a", "X\n"), ("b", "Y\n")]);
    let r = gen_gitignore(&index, &strings(&["a"]));
    assert_eq!(r.ok(), Some("### a ###\nX\n".to_string()));
}

#[test]
fn bodies_are_copied_verbatim() {
    let body = "  *.o\r\n\n# no final newline";
    let index = index_of(&[("c", body)]);
    let r = gen_gitignore(&index, &strings(&["c"]));
    assert_eq!(r.ok(), Some(format!("### c ###\n{}", body)));
    let index = index_of(&[("e", "")]);
    assert_eq!(gen_gitignore(&index, &strings(&["e", "e"])).ok(), Some("### e ###\n\n### e ###\n".to_string()));
}

#[test]
fn lookup_is_case_sensitive() {
    let index = index_of(&[("node", "N\n")]);
    let r = gen_gitignore(&index, &strings(&["Node"]));
    assert_eq!(r.err().map(|e| e.name), Some("Node".to_string()));
}

#[test]
fn empty_request_gives_empty_document() {
    let index = index_of(&[("node", "N\n")]);
    assert_eq!(gen_gitignore(&index, &[]).ok(), Some(String::new()));
}

#[test]
fn configured_path_overrides() {
    let mut c = Config { gitignore_path: "/default/gitignore".to_string() };
    c.load("");
    assert_eq!(c.gitignore_path, "/default/gitignore");
    c.load("/custom");
    assert_eq!(c.gitignore_path, "/custom");
    let c = Config::new("/elsewhere").expect("a configured path always gives a configuration");
    assert_eq!(c.gitignore_path, "/elsewhere");
}

#[test]
fn default_path_is_in_data_dir() {
    if let Some(c) = Config::new("") {
        assert!(c.gitignore_path.ends_with("gitignore"));
        assert!(c.gitignore_path.len() > "gitignore".len());
    }
}

#[test]
fn command_line_is_read() {
    assert_eq!(parse_args(&strings(&["-h"])), CliCommand::Help);
    assert_eq!(parse_args(&strings(&["--help", "x"])), CliCommand::Help);
    assert_eq!(parse_args(&strings(&["-V"])), CliCommand::Version);
    assert_eq!(parse_args(&strings(&["--version"])), CliCommand::Version);
    assert_eq!(parse_args(&strings(&["--repo"])), CliCommand::Repo);
    assert_eq!(parse_args(&strings(&["--list"])), CliCommand::List);
    assert_eq!(parse_args(&strings(&["-c", "zsh"])), CliCommand::Completion(Some(Shell::Zsh)));
    assert_eq!(parse_args(&strings(&["--completion", "bash"])), CliCommand::Completion(Some(Shell::Bash)));
    assert_eq!(parse_args(&strings(&["-c", "fish"])), CliCommand::Completion(Some(Shell::Fish)));
    assert_eq!(parse_args(&strings(&["-c", "tcsh"])), CliCommand::Completion(None));
    assert_eq!(parse_args(&strings(&["-c"])), CliCommand::Completion(None));
    assert_eq!(parse_args(&strings(&["--register"])), CliCommand::Register);
    assert_eq!(parse_args(&strings(&["rust", "--help"])), CliCommand::Generate);
}

#[test]
fn usage_texts() {
    let h = help();
    assert_eq!(h, USAGE);
    assert!(h.starts_with("Generate gitignore\n\nUsage: git ignore <lang1> <lang2> ...\n"));
    assert!(h.contains("\n    # Generate gitignore for nodejs and save it to `.gitignore`\n    $ git ignore node > .gitignore\n"));
    assert!(h.contains("\n      --repo                       Print gitignore repository path and exit\n"));
    assert!(h.ends_with("\n      --register                   Register `git-ignore` command as git subcommand"));
    assert_eq!(h.lines().count(), 21);
    assert_eq!(
        shell_help(),
        "Please specify correct shell name.\n\nUsage:   git ignore --completion <bash|zsh|fish>\nExample: git ignore --completion bash"
    );
    assert_eq!(shell_help(), SHELL_USAGE);
}

#[test]
fn default_path_joins_the_data_dir() {
    let c = Config::with_data_dir(Some("/home/u/.local/share".to_string()), "")
        .expect("a data directory gives a configuration");
    assert_eq!(c.gitignore_path, "/home/u/.local/share/gitignore");
    let c = Config::with_data_dir(Some("/data/".to_string()), "").expect("configuration");
    assert_eq!(c.gitignore_path, "/data/gitignore");
    let c = Config::with_data_dir(Some("/data".to_string()), "/mirror").expect("configuration");
    assert_eq!(c.gitignore_path, "/mirror");
}

#[test]
fn no_data_dir_needs_a_configured_path() {
    assert!(Config::with_data_dir(None, "").is_none());
    let c = Config::with_data_dir(None, "/mirror").expect("a configured path always gives a configuration");
    assert_eq!(c.gitignore_path, "/mirror");
}
