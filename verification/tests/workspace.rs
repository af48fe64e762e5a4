use git_workspace::{
    AddOutcome, Build, BuildCommand, Checkout, Entry, Project, Provider, RemoteUrl, Workspace,
};

fn remote(text: &str) -> Checkout {
    Checkout::Remote(text.to_string())
}

fn project(path: &str, cmd: &[&str]) -> Project {
    Project::new(
        Provider::Github,
        path.to_string(),
        cmd.iter().map(|word| word.to_string()).collect(),
    )
}

fn paths(workspace: &Workspace) -> Vec<String> {
    workspace.projects().iter().map(|p| p.get_path().to_string()).collect()
}

#[test]
fn new_workspace_is_empty() {
    let workspace = Workspace::new();
    assert_eq!(workspace.len(), 0);
    assert!(workspace.projects().is_empty());
}

#[test]
fn add_of_a_github_checkout_makes_its_entry() {
    let mut workspace = Workspace::new();
    let outcome = workspace.add(&remote("https://github.com/octo/widget"), None);
    assert_eq!(outcome, AddOutcome::Added);
    assert_eq!(workspace.projects(), &vec![project("octo/widget", &[])]);
}

#[test]
fn add_keeps_a_git_suffix_in_the_path() {
    let mut workspace = Workspace::new();
    assert_eq!(workspace.add(&remote("https://github.com/octo/widget.git\n"), None), AddOutcome::Added);
    assert_eq!(workspace.projects(), &vec![project("octo/widget.git", &[])]);
    assert_eq!(
        workspace.projects()[0].get_absolute_path("/work"),
        Some("/work/widget".to_string())
    );
}

#[test]
fn add_twice_yields_one_entry() {
    let mut workspace = Workspace::new();
    assert_eq!(workspace.add(&remote("https://github.com/octo/widget"), None), AddOutcome::Added);
    assert_eq!(
        workspace.add(&remote("https://github.com/octo/widget"), Some("make".to_string())),
        AddOutcome::Duplicate
    );
    assert_eq!(workspace.projects(), &vec![project("octo/widget", &[])]);
}

#[test]
fn add_refuses_a_second_entry_of_the_same_key() {
    let mut workspace = Workspace::from_projects(vec![project("octo/widget", &["make"])]);
    assert_eq!(workspace.add(&remote("ssh://git@github.com/octo/widget"), None), AddOutcome::Duplicate);
    assert_eq!(workspace.add(&remote("https://github.com/octo/gadget"), None), AddOutcome::Added);
    assert_eq!(paths(&workspace), vec!["octo/widget", "octo/gadget"]);
    assert_eq!(workspace.projects()[0].cmd, vec!["make".to_string()]);
}

#[test]
fn add_splits_the_build_command_at_single_spaces() {
    let mut workspace = Workspace::new();
    workspace.add(&remote("https://github.com/octo/widget"), Some("cargo build  --release".to_string()));
    assert_eq!(workspace.projects(), &vec![project("octo/widget", &["cargo", "build", "", "--release"])]);
}

#[test]
fn add_of_an_empty_build_command_keeps_one_empty_word() {
    let mut workspace = Workspace::new();
    workspace.add(&remote("https://github.com/octo/widget"), Some(String::new()));
    assert_eq!(workspace.projects(), &vec![project("octo/widget", &[""])]);
}

#[test]
fn add_strips_one_leading_slash_only() {
    let mut workspace = Workspace::new();
    let parsed = RemoteUrl { host: Some("github.com".to_string()), path: "//octo/widget".to_string() };
    assert_eq!(workspace.add_remote(&parsed, None), AddOutcome::Added);
    assert_eq!(paths(&workspace), vec!["/octo/widget"]);
}

#[test]
fn add_derives_owner_slash_repo_from_the_url_path() {
    let mut workspace = Workspace::new();
    let parsed = RemoteUrl { host: Some("github.com".to_string()), path: "/owner/repo".to_string() };
    assert_eq!(workspace.add_remote(&parsed, None), AddOutcome::Added);
    assert_eq!(paths(&workspace), vec!["owner/repo"]);
}

#[test]
fn add_takes_a_bare_provider_name_as_host() {
    let mut workspace = Workspace::new();
    let parsed = RemoteUrl { host: Some("github".to_string()), path: "/owner/repo".to_string() };
    assert_eq!(workspace.add_remote(&parsed, None), AddOutcome::Added);
    assert_eq!(workspace.projects()[0].provider, Provider::Github);
}

#[test]
fn add_of_a_plain_directory_is_told_and_changes_nothing() {
    let mut workspace = Workspace::from_projects(vec![project("octo/widget", &[])]);
    assert_eq!(workspace.add(&Checkout::NotARepository, None), AddOutcome::NotARepository);
    assert_eq!(paths(&workspace), vec!["octo/widget"]);
}

#[test]
fn add_without_a_remote_is_told_and_changes_nothing() {
    let mut workspace = Workspace::new();
    assert_eq!(workspace.add(&Checkout::NoRemote, None), AddOutcome::InvalidRemote);
    assert_eq!(workspace.len(), 0);
}

#[test]
fn add_of_an_unreadable_address_is_told_and_changes_nothing() {
    let mut workspace = Workspace::new();
    assert_eq!(workspace.add(&remote(""), None), AddOutcome::UnparsableUrl);
    assert_eq!(workspace.add(&remote("octo/widget"), None), AddOutcome::UnparsableUrl);
    assert_eq!(workspace.add(&remote("git@github.com:octo/widget.git"), None), AddOutcome::UnparsableUrl);
    assert_eq!(workspace.len(), 0);
}

#[test]
fn add_of_an_address_without_host_is_told_and_changes_nothing() {
    let mut workspace = Workspace::new();
    assert_eq!(workspace.add(&remote("unix:/run/foo.socket"), None), AddOutcome::MissingHost);
    assert_eq!(workspace.add(&remote("data:text/plain,Stuff"), None), AddOutcome::MissingHost);
    assert_eq!(workspace.len(), 0);
}

#[test]
fn add_of_an_unknown_host_is_told_and_changes_nothing() {
    let mut workspace = Workspace::new();
    assert_eq!(workspace.add(&remote("https://gitlab.com/octo/widget"), None), AddOutcome::UnknownProvider);
    assert_eq!(workspace.add(&remote("https://www.github.com/octo/widget"), None), AddOutcome::UnknownProvider);
    assert_eq!(workspace.len(), 0);
}

#[test]
fn parse_reads_host_and_path_off_the_address() {
    let parsed = RemoteUrl::parse("https://user@GitHub.com:443/octo/widget.git?x=1#frag").unwrap();
    assert_eq!(parsed.host, Some("github.com".to_string()));
    assert_eq!(parsed.path, "/octo/widget.git");
    let bare = RemoteUrl::parse("https://github.com").unwrap();
    assert_eq!(bare.host, Some("github.com".to_string()));
    assert_eq!(bare.path, "/");
    let hostless = RemoteUrl::parse("unix:/run/foo.socket").unwrap();
    assert_eq!(hostless.host, None);
    assert_eq!(hostless.path, "/run/foo.socket");
}

#[test]
fn parse_refuses_what_is_no_absolute_address() {
    assert_eq!(RemoteUrl::parse(""), None);
    assert_eq!(RemoteUrl::parse("/octo/widget"), None);
    assert_eq!(RemoteUrl::parse("https://"), None);
}

#[test]
fn remove_takes_out_the_matching_project() {
    let mut workspace = Workspace::from_projects(vec![
        project("octo/a", &[]),
        project("octo/b", &["make"]),
        project("octo/c", &[]),
    ]);
    assert!(workspace.remove("octo/b", Provider::Github));
    assert_eq!(paths(&workspace), vec!["octo/a", "octo/c"]);
    assert!(workspace.remove("octo/a", Provider::Github));
    assert_eq!(paths(&workspace), vec!["octo/c"]);
    assert!(workspace.remove("octo/c", Provider::Github));
    assert_eq!(workspace.len(), 0);
}

#[test]
fn remove_of_an_absent_key_changes_nothing() {
    let mut workspace = Workspace::from_projects(vec![project("octo/a", &[]), project("octo/b", &[])]);
    assert!(!workspace.remove("octo/c", Provider::Github));
    assert!(!workspace.remove("octo/A", Provider::Github));
    assert!(!workspace.remove("octo/a/", Provider::Github));
    assert!(!workspace.remove("", Provider::Github));
    assert_eq!(paths(&workspace), vec!["octo/a", "octo/b"]);
    let mut empty = Workspace::new();
    assert!(!empty.remove("octo/a", Provider::Github));
    assert_eq!(empty.len(), 0);
}

#[test]
fn remove_then_add_puts_the_project_at_the_end() {
    let mut workspace = Workspace::from_projects(vec![project("octo/a", &[]), project("octo/b", &[])]);
    assert!(workspace.remove("octo/a", Provider::Github));
    assert_eq!(workspace.add(&remote("https://github.com/octo/a"), None), AddOutcome::Added);
    assert_eq!(paths(&workspace), vec!["octo/b", "octo/a"]);
}

#[test]
fn contains_and_position_find_by_key() {
    let workspace = Workspace::from_projects(vec![project("octo/a", &[]), project("octo/b", &[])]);
    assert!(workspace.contains("octo/b", Provider::Github));
    assert!(!workspace.contains("octo/c", Provider::Github));
    assert_eq!(workspace.position("octo/a", Provider::Github), Some(0));
    assert_eq!(workspace.position("octo/b", Provider::Github), Some(1));
    assert_eq!(workspace.position("octo", Provider::Github), None);
}

#[test]
fn insert_refuses_a_taken_key() {
    let mut workspace = Workspace::new();
    assert!(workspace.insert(project("octo/a", &["make"])));
    assert!(!workspace.insert(project("octo/a", &[])));
    assert!(workspace.insert(project("octo/b", &[])));
    assert_eq!(workspace.projects(), &vec![project("octo/a", &["make"]), project("octo/b", &[])]);
}

#[test]
fn from_projects_keeps_the_first_of_each_key() {
    let workspace = Workspace::from_projects(vec![
        project("octo/a", &["first"]),
        project("octo/b", &[]),
        project("octo/a", &["second"]),
        project("octo/c", &[]),
        project("octo/b", &["late"]),
    ]);
    assert_eq!(
        workspace.projects(),
        &vec![project("octo/a", &["first"]), project("octo/b", &[]), project("octo/c", &[])]
    );
}

#[test]
fn from_projects_takes_distinct_projects_as_they_are() {
    let declared = vec![project("octo/b", &[]), project("octo/a", &["make"]), project("acme/a", &[])];
    assert_eq!(Workspace::from_projects(declared.clone()).projects(), &declared);
    assert_eq!(Workspace::from_projects(Vec::new()).len(), 0);
}

#[test]
fn scan_of_one_file_and_one_checkout_adds_one_project() {
    let mut workspace = Workspace::new();
    let entries = vec![
        Entry { is_file: true, checkout: Checkout::NotARepository },
        Entry { is_file: false, checkout: remote("https://github.com/octo/widget") },
    ];
    assert_eq!(workspace.scan(&entries), vec![None, Some(AddOutcome::Added)]);
    assert_eq!(workspace.projects(), &vec![project("octo/widget", &[])]);
}

#[test]
fn scan_passes_over_a_file_whatever_was_found_in_it() {
    let mut workspace = Workspace::new();
    let entries = vec![Entry { is_file: true, checkout: remote("https://github.com/octo/widget") }];
    assert_eq!(workspace.scan(&entries), vec![None]);
    assert_eq!(workspace.len(), 0);
}

#[test]
fn scan_goes_on_after_an_entry_that_cannot_be_added() {
    let mut workspace = Workspace::from_projects(vec![project("octo/known", &["make"])]);
    let entries = vec![
        Entry { is_file: false, checkout: Checkout::NotARepository },
        Entry { is_file: false, checkout: Checkout::NoRemote },
        Entry { is_file: false, checkout: remote("nonsense") },
        Entry { is_file: false, checkout: remote("https://example.org/octo/widget") },
        Entry { is_file: false, checkout: remote("https://github.com/octo/known") },
        Entry { is_file: true, checkout: Checkout::NotARepository },
        Entry { is_file: false, checkout: remote("https://github.com/octo/widget") },
        Entry { is_file: false, checkout: remote("https://github.com/octo/widget") },
    ];
    assert_eq!(
        workspace.scan(&entries),
        vec![
            Some(AddOutcome::NotARepository),
            Some(AddOutcome::InvalidRemote),
            Some(AddOutcome::UnparsableUrl),
            Some(AddOutcome::UnknownProvider),
            Some(AddOutcome::Duplicate),
            None,
            Some(AddOutcome::Added),
            Some(AddOutcome::Duplicate),
        ]
    );
    assert_eq!(
        workspace.projects(),
        &vec![project("octo/known", &["make"]), project("octo/widget", &[])]
    );
}

#[test]
fn scan_of_nothing_changes_nothing() {
    let mut workspace = Workspace::from_projects(vec![project("octo/a", &[])]);
    assert_eq!(workspace.scan(&Vec::new()), Vec::new());
    assert_eq!(paths(&workspace), vec!["octo/a"]);
}

#[test]
fn build_goes_through_the_projects_in_order() {
    let workspace = Workspace::from_projects(vec![
        project("octo/a", &["make", "-j", "4"]),
        project("octo/b", &[]),
        project("..", &["make"]),
        project("octo/c.git", &["ninja"]),
    ]);
    assert_eq!(
        workspace.build("/work"),
        vec![
            Build::Spawn(BuildCommand {
                program: "make".to_string(),
                args: vec!["-j".to_string(), "4".to_string()],
                dir: "/work/a".to_string(),
            }),
            Build::Nothing,
            Build::NoFolder,
            Build::Spawn(BuildCommand {
                program: "ninja".to_string(),
                args: Vec::new(),
                dir: "/work/c".to_string(),
            }),
        ]
    );
    assert_eq!(Workspace::new().build("/work"), Vec::new());
}

#[test]
fn manifest_entry_syncs_by_clone_and_then_by_pull() {
    let workspace = Workspace::from_projects(vec![project("octo/widget", &[])]);
    let declared = &workspace.projects()[0];
    let absent = declared.get_repository("/work", false).unwrap();
    let first = declared.git_sync(&absent);
    assert_eq!(
        first,
        git_workspace::Step::Run(git_workspace::GitAction::Clone {
            url: "https://github.com/octo/widget".to_string()
        })
    );
    let present = declared.get_repository("/work", true).unwrap();
    assert_eq!(absent.after(&first), present);
    assert_eq!(
        declared.git_sync(&present),
        git_workspace::Step::Run(git_workspace::GitAction::Pull { dir: "/work/widget".to_string() })
    );
}
