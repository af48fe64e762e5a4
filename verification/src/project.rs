//! One entry of the manifest, and what each operation on it comes to.

use crate::action::{GitActionView, Step, StepView};
use crate::path::{folder_of, join_under, local_path};
use crate::provider::Provider;
use crate::repository::{Repository, RepositoryView};
use vstd::prelude::*;
use vstd::string::*;

verus! {

/// One entry of the manifest: where the project lives, and how it is built.
/// An empty `cmd` means that there is nothing to build.
#[derive(Clone, Debug, PartialEq, Eq)]
pub struct Project {
    pub provider: Provider,
    pub path: String,
    pub cmd: Vec<String>,
}

/// A [`Project`] as a mathematical value.
pub struct ProjectView {
    pub provider: Provider,
    pub path: Seq<char>,
    pub cmd: Seq<Seq<char>>,
}

impl View for Project {
    type V = ProjectView;

    open spec fn view(&self) -> ProjectView {
        ProjectView { provider: self.provider, path: self.path@, cmd: self.cmd.deep_view() }
    }
}

impl DeepView for Project {
    type V = ProjectView;

    open spec fn deep_view(&self) -> ProjectView {
        self@
    }
}

/// The start of a build: a program, its arguments, and the directory to run it in.
#[derive(Clone, Debug, PartialEq, Eq)]
pub struct BuildCommand {
    pub program: String,
    pub args: Vec<String>,
    pub dir: String,
}

/// A [`BuildCommand`] as a mathematical value.
pub struct BuildCommandView {
    pub program: Seq<char>,
    pub args: Seq<Seq<char>>,
    pub dir: Seq<char>,
}

impl View for BuildCommand {
    type V = BuildCommandView;

    open spec fn view(&self) -> BuildCommandView {
        BuildCommandView { program: self.program@, args: self.args.deep_view(), dir: self.dir@ }
    }
}

/// What building one project comes to.
#[derive(Clone, Debug, PartialEq, Eq)]
pub enum Build {
    /// The project has no build command.
    Nothing,
    /// The command is to be started.
    Spawn(BuildCommand),
    /// The project's path names no folder to build in.
    NoFolder,
}

/// A [`Build`] as a mathematical value.
pub enum BuildView {
    Nothing,
    Spawn(BuildCommandView),
    NoFolder,
}

impl View for Build {
    type V = BuildView;

    open spec fn view(&self) -> BuildView {
        match *self {
            Build::Nothing => BuildView::Nothing,
            Build::Spawn(command) => BuildView::Spawn(command@),
            Build::NoFolder => BuildView::NoFolder,
        }
    }
}

impl DeepView for Build {
    type V = BuildView;

    open spec fn deep_view(&self) -> BuildView {
        self@
    }
}

/// Pull: only a project that is checked out is pulled.
pub open spec fn pull_step(provider: Provider, repo: RepositoryView) -> StepView {
    if repo.cloned {
        StepView::Run(GitActionView::Pull { dir: repo.local_path })
    } else {
        StepView::NotCloned
    }
}

/// Clone: only a project that is not checked out yet is cloned.
pub open spec fn clone_step(provider: Provider, repo: RepositoryView) -> StepView {
    if repo.cloned {
        StepView::AlreadyCloned
    } else {
        StepView::Run(GitActionView::Clone { url: provider.clone_url(repo.git_path) })
    }
}

/// Fetch: only a project that is checked out is fetched.
pub open spec fn fetch_step(provider: Provider, repo: RepositoryView) -> StepView {
    if repo.cloned {
        StepView::Run(GitActionView::Fetch { dir: repo.local_path })
    } else {
        StepView::NotCloned
    }
}

/// Synchronise: pull what is checked out, clone what is not.
pub open spec fn sync_step(provider: Provider, repo: RepositoryView) -> StepView {
    if repo.cloned {
        pull_step(provider, repo)
    } else {
        clone_step(provider, repo)
    }
}

/// The operations that go to git, project by project.
#[derive(Clone, Copy, Debug, PartialEq, Eq, Structural)]
pub enum Operation {
    Pull,
    Clone,
    Fetch,
    Sync,
}

/// What `operation` comes to for a project at `provider`, found as `repo`.
pub open spec fn step_of(operation: Operation, provider: Provider, repo: RepositoryView) -> StepView {
    match operation {
        Operation::Pull => pull_step(provider, repo),
        Operation::Clone => clone_step(provider, repo),
        Operation::Fetch => fetch_step(provider, repo),
        Operation::Sync => sync_step(provider, repo),
    }
}

/// What building `project` comes to for a process working in `current_dir`: the
/// first word of `cmd` is the program, the rest are its arguments, and it runs
/// in the project's local folder.
pub open spec fn build_step(project: ProjectView, current_dir: Seq<char>) -> BuildView {
    if project.cmd.len() == 0 {
        BuildView::Nothing
    } else {
        match local_path(current_dir, project.path) {
            Some(dir) => BuildView::Spawn(
                BuildCommandView {
                    program: project.cmd[0],
                    args: project.cmd.subrange(1, project.cmd.len() as int),
                    dir,
                },
            ),
            None => BuildView::NoFolder,
        }
    }
}

/// Synchronising never comes to nothing: it clones a project that is not
/// checked out, and pulls one that is.
pub proof fn lemma_sync_always_runs(provider: Provider, repo: RepositoryView)
    ensures
        !repo.cloned ==> sync_step(provider, repo) == StepView::Run(
            GitActionView::Clone { url: provider.clone_url(repo.git_path) },
        ),
        repo.cloned ==> sync_step(provider, repo) == StepView::Run(
            GitActionView::Pull { dir: repo.local_path },
        ),
{
}

/// Synchronising a project that is not checked out, and then synchronising it
/// again, comes to one clone followed by one pull: the second time the checkout
/// that the clone left behind is found.
pub proof fn lemma_sync_twice(provider: Provider, repo: RepositoryView)
    requires
        !repo.cloned,
    ensures
        ({
            let first = sync_step(provider, repo);
            let second = sync_step(provider, repo.after(first));
            &&& first == StepView::Run(
                GitActionView::Clone { url: provider.clone_url(repo.git_path) },
            )
            &&& repo.after(first).cloned
            &&& second == StepView::Run(GitActionView::Pull { dir: repo.local_path })
            &&& repo.after(first).after(second) == repo.after(first)
        }),
{
}

/// Every operation leaves a checked-out project checked out, and asks for
/// nothing more when it is repeated after a pull, a fetch or a skipped step.
pub proof fn lemma_steps_keep_checkout(provider: Provider, repo: RepositoryView)
    requires
        repo.cloned,
    ensures
        repo.after(pull_step(provider, repo)) == repo,
        repo.after(fetch_step(provider, repo)) == repo,
        repo.after(clone_step(provider, repo)) == repo,
        repo.after(sync_step(provider, repo)) == repo,
{
}

/// No operation clones twice: once a step has been carried out, the same
/// operation on what it left behind asks for no clone.
pub proof fn lemma_no_second_clone(operation: Operation, provider: Provider, repo: RepositoryView)
    ensures
        ({
            let first = step_of(operation, provider, repo);
            let second = step_of(operation, provider, repo.after(first));
            !(second matches StepView::Run(action) && action is Clone)
        }),
{
}

impl Project {
    /// A manifest entry.
    pub fn new(provider: Provider, path: String, cmd: Vec<String>) -> (r: Project)
        ensures
            r.provider == provider,
            r.path == path,
            r.cmd == cmd,
    {
        Project { provider, path, cmd }
    }

    /// The project's path at its provider.
    pub fn get_path(&self) -> (r: &str)
        ensures
            r@ == self@.path,
    {
        self.path.as_str()
    }

    /// The folder of the project's local checkout for a process working in
    /// `current_dir`, or `None` where the project's path names no folder.
    pub fn get_absolute_path(&self, current_dir: &str) -> (r: Option<String>)
        ensures
            r.deep_view() == local_path(current_dir@, self@.path),
    {
        match folder_of(self.get_path()) {
            Some(folder) => Some(join_under(current_dir, folder.as_str())),
            None => None,
        }
    }

    /// The project as found on disk by a process working in `current_dir`, where
    /// `exists` tells whether the folder given by
    /// [`get_absolute_path`](Project::get_absolute_path) was there. `None` where
    /// the project's path names no folder.
    pub fn get_repository(&self, current_dir: &str, exists: bool) -> (r: Option<Repository>)
        ensures
            match r {
                Some(repo) => local_path(current_dir@, self@.path) == Some(repo@.local_path)
                    && repo@.git_path == self@.path && repo@.cloned == exists,
                None => local_path(current_dir@, self@.path) is None,
            },
    {
        match self.get_absolute_path(current_dir) {
            Some(local) => Some(Repository::new(local, self.path.clone(), exists)),
            None => None,
        }
    }

    /// What building the project comes to for a process working in `current_dir`.
    pub fn build(&self, current_dir: &str) -> (r: Build)
        ensures
            r@ == build_step(self@, current_dir@),
    {
        if self.cmd.len() == 0 {
            return Build::Nothing;
        }
        match self.get_absolute_path(current_dir) {
            None => Build::NoFolder,
            Some(dir) => {
                let mut args: Vec<String> = Vec::new();
                let mut i: usize = 1;
                while i < self.cmd.len()
                    invariant
                        1 <= i <= self.cmd.len(),
                        args.deep_view() == self.cmd.deep_view().subrange(1, i as int),
                    decreases self.cmd.len() - i,
                {
                    let ghost before = args.deep_view();
                    args.push(self.cmd[i].clone());
                    assert(args.deep_view() == before.push(self.cmd[i as int]@));
                    i = i + 1;
                }
                Build::Spawn(BuildCommand { program: self.cmd[0].clone(), args, dir })
            },
        }
    }

    /// What pulling the project comes to, `repo` being how it was found.
    pub fn git_pull(&self, repo: &Repository) -> (r: Step)
        ensures
            r@ == pull_step(self.provider, repo@),
    {
        if repo.exists_local() {
            Step::Run(self.provider.git_pull(repo))
        } else {
            Step::NotCloned
        }
    }

    /// What cloning the project comes to, `repo` being how it was found.
    pub fn git_clone(&self, repo: &Repository) -> (r: Step)
        ensures
            r@ == clone_step(self.provider, repo@),
    {
        if !repo.exists_local() {
            Step::Run(self.provider.git_clone(repo))
        } else {
            Step::AlreadyCloned
        }
    }

    /// What fetching the project comes to, `repo` being how it was found.
    pub fn git_fetch(&self, repo: &Repository) -> (r: Step)
        ensures
            r@ == fetch_step(self.provider, repo@),
    {
        if repo.exists_local() {
            Step::Run(self.provider.git_fetch(repo))
        } else {
            Step::NotCloned
        }
    }

    /// What `operation` comes to for the project, `repo` being how it was found.
    pub fn step(&self, operation: Operation, repo: &Repository) -> (r: Step)
        ensures
            r@ == step_of(operation, self.provider, repo@),
    {
        match operation {
            Operation::Pull => self.git_pull(repo),
            Operation::Clone => self.git_clone(repo),
            Operation::Fetch => self.git_fetch(repo),
            Operation::Sync => self.git_sync(repo),
        }
    }

    /// What synchronising the project comes to, `repo` being how it was found:
    /// a pull where it is checked out, a clone where it is not.
    pub fn git_sync(&self, repo: &Repository) -> (r: Step)
        ensures
            r@ == sync_step(self.provider, repo@),
    {
        if repo.exists_local() {
            self.git_pull(repo)
        } else {
            self.git_clone(repo)
        }
    }
}

} // verus!
