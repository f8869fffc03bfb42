use oper::commit_time::CommitTime;
use oper::config::{Config, CustomCommand, DEFAULT_CONFIG};
use oper::model::{CommitMeta, RepoCommit};
use oper::model::Repo;
use oper::utils::{
    arguments_for_commit, find_project_file, find_repo_base_folder, find_repo_folder, join_path,
    project_file_in, repo_in, repos_from, FolderProbe, LocateError, ProbedFolder,
};
use oper::styles::Color;
use oper::views::diff_view::color_of;

fn probed(path: &str, probe: FolderProbe) -> ProbedFolder {
    ProbedFolder { path: path.to_string(), probe }
}

fn commit_with_id(id: &str) -> RepoCommit {
    RepoCommit::from(
        0,
        &CommitMeta {
            id: id.to_string(),
            time: CommitTime::new(0, 0),
            summary: None,
            author_name: None,
            author_email: None,
            committer_name: None,
            message: None,
        },
    )
}

#[test]
fn base_folder_is_the_first_that_holds_the_repo_folder() {
    let folders = vec![
        probed("/work/src/lib", FolderProbe::Plain),
        probed("/work/src", FolderProbe::Plain),
        probed("/work", FolderProbe::HoldsRepoFolder),
        probed("/", FolderProbe::HoldsRepoFolder),
    ];
    assert_eq!(find_repo_base_folder(&folders), Ok("/work".to_string()));
}

#[test]
fn base_folder_can_be_the_working_directory() {
    let folders = vec![
        probed("/work", FolderProbe::HoldsRepoFolder),
        probed("/", FolderProbe::Unreadable("denied".to_string())),
    ];
    assert_eq!(find_repo_base_folder(&folders), Ok("/work".to_string()));
}

#[test]
fn no_base_folder_where_no_folder_holds_the_repo_folder() {
    let folders = vec![probed("/work", FolderProbe::Plain), probed("/", FolderProbe::Plain)];
    assert_eq!(find_repo_base_folder(&folders), Err(LocateError::NoRepoFolder));
    assert_eq!(find_repo_base_folder(&Vec::new()), Err(LocateError::NoRepoFolder));
}

#[test]
fn folder_that_cannot_be_read_ends_the_search() {
    let folders = vec![
        probed("/work/src", FolderProbe::Plain),
        probed("/work", FolderProbe::Unreadable("permission denied".to_string())),
        probed("/", FolderProbe::HoldsRepoFolder),
    ];
    assert_eq!(
        find_repo_base_folder(&folders),
        Err(LocateError::Unreadable("permission denied".to_string()))
    );
}

#[test]
fn errors_of_the_search_in_words() {
    assert_eq!(LocateError::NoRepoFolder.message(), "no .repo folder found");
    assert_eq!(LocateError::NoProjectList.message(), "no project.list in .repo found");
    assert_eq!(LocateError::Unreadable("permission denied".to_string()).message(), "permission denied");
}

#[test]
fn repo_folder_of_a_base_folder() {
    assert_eq!(find_repo_folder("/work"), "/work/.repo");
    assert_eq!(find_repo_folder("/"), "/.repo");
    assert_eq!(find_repo_folder(""), ".repo");
    assert_eq!(find_repo_folder("/work/"), "/work/.repo");
}

#[test]
fn project_list_of_a_repo_folder() {
    assert_eq!(project_file_in("/work/.repo"), "/work/.repo/project.list");
    assert_eq!(find_project_file("/work/.repo", true), Ok("/work/.repo/project.list".to_string()));
    assert_eq!(find_project_file("/work/.repo", false), Err(LocateError::NoProjectList));
}

#[test]
fn paths_are_joined_with_one_slash() {
    assert_eq!(join_path("a", "b"), "a/b");
    assert_eq!(join_path("a/", "b"), "a/b");
    assert_eq!(join_path("", "b"), "b");
    assert_eq!(join_path("ä/ö", "ü"), "ä/ö/ü");
}

#[test]
fn commit_id_is_put_into_the_arguments() {
    let commit = commit_with_id("0a1b2c");
    assert_eq!(arguments_for_commit("--select-commit={}", &commit), vec!["--select-commit=0a1b2c"]);
    assert_eq!(arguments_for_commit("-- git show {}", &commit), vec!["--", "git", "show", "0a1b2c"]);
    assert_eq!(arguments_for_commit("{}..{}^", &commit), vec!["0a1b2c..0a1b2c^"]);
    assert_eq!(arguments_for_commit("{{}}", &commit), vec!["{0a1b2c}"]);
}

#[test]
fn arguments_are_split_at_every_space() {
    let commit = commit_with_id("id");
    assert_eq!(arguments_for_commit("", &commit), vec![""]);
    assert_eq!(arguments_for_commit("a  b ", &commit), vec!["a", "", "b", ""]);
    assert_eq!(arguments_for_commit("no-placeholder", &commit), vec!["no-placeholder"]);
}

#[test]
fn arguments_of_a_custom_command() {
    let commit = commit_with_id("0a1b2c");
    let command = CustomCommand::new('d', "gnome-terminal".to_string(), Some("-- git show {}".to_string()));
    assert_eq!(command.arguments_for(&commit), vec!["--", "git", "show", "0a1b2c"]);
    let command = CustomCommand::new('g', "gitk".to_string(), None);
    assert_eq!(command.arguments_for(&commit), vec![""]);
    assert_eq!(command.clone(), command);
    assert_eq!(command.key, 'g');
    assert_eq!(command.executable, "gitk");
    assert_eq!(command.args, None);
}

#[test]
fn test_parse_default_config() {
    let mut shall_config = Config::new();
    shall_config.custom_command = vec![
        CustomCommand::new('i', "gitk".to_string(), Some("--select-commit={}".to_string())),
        CustomCommand::new('d', "gnome-terminal".to_string(), Some("-- git show {}".to_string())),
    ];

    let parsed: toml::Value = toml::from_str(DEFAULT_CONFIG).unwrap();
    let mut is_config = Config::new();
    for command in parsed.get("custom_command").unwrap().as_array().unwrap() {
        let key = command.get("key").unwrap().as_str().unwrap();
        assert_eq!(key.chars().count(), 1);
        is_config.custom_command.push(CustomCommand::new(
            key.chars().next().unwrap(),
            command.get("executable").unwrap().as_str().unwrap().to_string(),
            command.get("args").map(|args| args.as_str().unwrap().to_string()),
        ));
    }
    assert_eq!(shall_config, is_config);
}

#[test]
fn new_configuration_has_no_commands() {
    assert_eq!(Config::new().custom_command, Vec::new());
}

#[test]
fn colors_of_the_lines_of_a_commit() {
    assert_eq!(color_of("commit 0a1b2c"), Color::Blue);
    assert_eq!(color_of("Author: A <a@x>"), Color::LightBlue);
    assert_eq!(color_of("AuthorDate: Mon"), Color::Yellow);
    assert_eq!(color_of("Commit: C <c@x>"), Color::Magenta);
    assert_eq!(color_of("CommitDate: Tue"), Color::Yellow);
    assert_eq!(color_of("    a line of the message"), Color::White);
    assert_eq!(color_of(""), Color::White);
    assert_eq!(color_of("commit"), Color::White);
    assert_eq!(color_of("Commit 1 of 2"), Color::White);
}

#[test]
fn colors_of_the_lines_of_a_diff() {
    assert_eq!(color_of("diff --git a/x b/x"), Color::Yellow);
    assert_eq!(color_of("new file mode 100644"), Color::Yellow);
    assert_eq!(color_of("rename from x"), Color::Yellow);
    assert_eq!(color_of("--- a/x"), Color::Yellow);
    assert_eq!(color_of("+++ b/x"), Color::Yellow);
    assert_eq!(color_of("@@ -1,2 +1,2 @@"), Color::Magenta);
    assert_eq!(color_of("+added"), Color::Green);
    assert_eq!(color_of("++"), Color::Green);
    assert_eq!(color_of("-removed"), Color::Red);
    assert_eq!(color_of("--"), Color::Red);
    assert_eq!(color_of(" unchanged"), Color::White);
}

fn repo_of(abs_path: &str, rel_path: &str, description: &str) -> Repo {
    Repo::described(abs_path.to_string(), rel_path.to_string(), description.to_string())
}

#[test]
fn repositories_of_a_project_list() {
    let lines = vec!["platform/art".to_string(), "kernel".to_string(), "a/b/".to_string()];
    assert_eq!(
        repos_from("/work", &lines, false),
        Some(vec![
            repo_of("/work/platform/art", "platform/art", "art"),
            repo_of("/work/kernel", "kernel", "kernel"),
            repo_of("/work/a/b/", "a/b/", "b"),
        ])
    );
    assert_eq!(
        repos_from("/work/", &lines[1..2].to_vec(), true),
        Some(vec![
            repo_of("/work/kernel", "kernel", "kernel"),
            repo_of("/work/.repo/manifests", ".repo/manifests", "manifests"),
        ])
    );
    assert_eq!(repos_from("/work", &Vec::new(), false), Some(Vec::new()));
    assert_eq!(
        repos_from("/work", &Vec::new(), true),
        Some(vec![repo_of("/work/.repo/manifests", ".repo/manifests", "manifests")])
    );
}

#[test]
fn no_repositories_where_a_line_names_no_place() {
    let lines = vec!["kernel".to_string(), "..".to_string(), "art".to_string()];
    assert_eq!(repos_from("/work", &lines, true), None);
    assert_eq!(repos_from("/", &vec!["".to_string()], false), None);
    assert_eq!(repo_in("/work", "..".to_string()), None);
    assert_eq!(repo_in("/work", "kernel".to_string()), Some(repo_of("/work/kernel", "kernel", "kernel")));
}
