//! What the library asks its caller to do: one invocation of git, or nothing.

use vstd::prelude::*;
use vstd::string::*;

verus! {

/// One invocation of git.
#[derive(Clone, Debug, PartialEq, Eq)]
pub enum GitAction {
    /// Clone the repository at `url` into the current directory.
    Clone { url: String },
    /// Pull, working in the checkout at `dir`.
    Pull { dir: String },
    /// Fetch, working in the checkout at `dir`.
    Fetch { dir: String },
}

/// A [`GitAction`] as a mathematical value.
pub enum GitActionView {
    Clone { url: Seq<char> },
    Pull { dir: Seq<char> },
    Fetch { dir: Seq<char> },
}

impl View for GitAction {
    type V = GitActionView;

    open spec fn view(&self) -> GitActionView {
        match *self {
            GitAction::Clone { url } => GitActionView::Clone { url: url@ },
            GitAction::Pull { dir } => GitActionView::Pull { dir: dir@ },
            GitAction::Fetch { dir } => GitActionView::Fetch { dir: dir@ },
        }
    }
}

impl GitActionView {
    /// The arguments that git is started with.
    pub open spec fn arguments(self) -> Seq<Seq<char>> {
        match self {
            GitActionView::Clone { url } => seq!["clone"@, url],
            GitActionView::Pull { dir } => seq!["pull"@],
            GitActionView::Fetch { dir } => seq!["fetch"@],
        }
    }

    /// The directory that git is started in; `None` stands for the current one.
    pub open spec fn working_dir(self) -> Option<Seq<char>> {
        match self {
            GitActionView::Clone { url } => None,
            GitActionView::Pull { dir } => Some(dir),
            GitActionView::Fetch { dir } => Some(dir),
        }
    }
}

impl GitAction {
    /// The arguments to start git with.
    pub fn arguments(&self) -> (r: Vec<String>)
        ensures
            r.deep_view() == self@.arguments(),
    {
        let mut out: Vec<String> = Vec::new();
        match self {
            GitAction::Clone { url } => {
                out.push("clone".to_owned());
                out.push(url.clone());
            },
            GitAction::Pull { dir } => {
                out.push("pull".to_owned());
            },
            GitAction::Fetch { dir } => {
                out.push("fetch".to_owned());
            },
        }
        assert(out.deep_view() =~= self@.arguments());
        out
    }

    /// The directory to start git in; `None` stands for the current one.
    pub fn working_dir(&self) -> (r: Option<String>)
        ensures
            r.deep_view() == self@.working_dir(),
    {
        match self {
            GitAction::Clone { url } => None,
            GitAction::Pull { dir } => Some(dir.clone()),
            GitAction::Fetch { dir } => Some(dir.clone()),
        }
    }
}

/// What one operation on one project comes to.
#[derive(Clone, Debug, PartialEq, Eq)]
pub enum Step {
    /// Git is to be run.
    Run(GitAction),
    /// Nothing to do: the project has no local checkout yet.
    NotCloned,
    /// Nothing to do: the project has a local checkout already.
    AlreadyCloned,
}

/// A [`Step`] as a mathematical value.
pub enum StepView {
    Run(GitActionView),
    NotCloned,
    AlreadyCloned,
}

impl View for Step {
    type V = StepView;

    open spec fn view(&self) -> StepView {
        match *self {
            Step::Run(action) => StepView::Run(action@),
            Step::NotCloned => StepView::NotCloned,
            Step::AlreadyCloned => StepView::AlreadyCloned,
        }
    }
}

} // verus!
