//! The manifest in memory: an ordered list of projects in which no two share a
//! provider and a path, with the operations that keep it so.

use crate::manifest::{
    add_outcome, after_add, after_add_remote, after_entry, after_scan, contains_key,
    entry_outcome, insert, insert_all, lemma_insert_unique, lemma_without_absent,
    lemma_without_present, lemma_without_unique, remote_outcome, same_key, unique_keys, without,
    AddOutcome, CheckoutView, EntryView,
};
use crate::project::{build_step, Build, Project, ProjectView};
use crate::provider::Provider;
use crate::remote::RemoteUrl;
use crate::text::{split_at_each, strip_leading};
use vstd::prelude::*;
use vstd::string::*;

verus! {

/// What was found where a checkout was looked for.
#[derive(Clone, Debug, PartialEq, Eq)]
pub enum Checkout {
    /// The directory holds no version-control metadata.
    NotARepository,
    /// The checkout could not be asked for its remote address.
    NoRemote,
    /// The remote address that the checkout is configured with, as it was
    /// printed.
    Remote(String),
}

impl View for Checkout {
    type V = CheckoutView;

    open spec fn view(&self) -> CheckoutView {
        match *self {
            Checkout::NotARepository => CheckoutView::NotARepository,
            Checkout::NoRemote => CheckoutView::NoRemote,
            Checkout::Remote(text) => CheckoutView::Remote(text@),
        }
    }
}

/// One entry of a scanned directory: whether it is a plain file, and what was
/// found when it was looked at as a checkout.
#[derive(Clone, Debug, PartialEq, Eq)]
pub struct Entry {
    pub is_file: bool,
    pub checkout: Checkout,
}

impl View for Entry {
    type V = EntryView;

    open spec fn view(&self) -> EntryView {
        EntryView { is_file: self.is_file, checkout: self.checkout@ }
    }
}

impl DeepView for Entry {
    type V = EntryView;

    open spec fn deep_view(&self) -> EntryView {
        self@
    }
}

/// The manifest: the projects of a workspace, in the order of their declaration.
#[derive(Debug, PartialEq, Eq)]
pub struct Workspace {
    projects: Vec<Project>,
}

impl View for Workspace {
    type V = Seq<ProjectView>;

    closed spec fn view(&self) -> Seq<ProjectView> {
        self.projects.deep_view()
    }
}

impl Workspace {
    #[verifier::type_invariant]
    spec fn keys_are_unique(self) -> bool {
        unique_keys(self.projects.deep_view())
    }

    /// A manifest without projects.
    pub fn new() -> (r: Workspace)
        ensures
            r@ == Seq::<ProjectView>::empty(),
    {
        let projects: Vec<Project> = Vec::new();
        assert(projects.deep_view() == Seq::<ProjectView>::empty());
        Workspace { projects }
    }

    /// The projects, in order. No two of them share a provider and a path.
    pub fn projects(&self) -> (r: &Vec<Project>)
        ensures
            r.deep_view() == self@,
            unique_keys(self@),
    {
        proof {
            use_type_invariant(self);
        }
        &self.projects
    }

    /// How many projects the manifest holds.
    pub fn len(&self) -> (r: usize)
        ensures
            r == self@.len(),
    {
        self.projects.len()
    }

    /// Where the project of key (`provider`, `path`) stands, if there is one.
    pub fn position(&self, path: &str, provider: Provider) -> (r: Option<usize>)
        ensures
            unique_keys(self@),
            match r {
                Some(at) => at < self@.len() && same_key(self@[at as int], provider, path@),
                None => !contains_key(self@, provider, path@),
            },
    {
        proof {
            use_type_invariant(self);
        }
        let wanted = path.to_owned();
        let mut i: usize = 0;
        while i < self.projects.len()
            invariant
                i <= self.projects@.len(),
                wanted@ == path@,
                unique_keys(self@),
                forall|k: int|
                    0 <= k < i ==> !same_key(
                        #[trigger] self.projects.deep_view()[k],
                        provider,
                        path@,
                    ),
            decreases self.projects@.len() - i,
        {
            let project = &self.projects[i];
            assert(self.projects.deep_view()[i as int] == project@);
            if project.provider == provider && project.path.eq(&wanted) {
                return Some(i);
            }
            i = i + 1;
        }
        None
    }

    /// Whether the manifest has a project of key (`provider`, `path`).
    pub fn contains(&self, path: &str, provider: Provider) -> (r: bool)
        ensures
            r == contains_key(self@, provider, path@),
    {
        self.position(path, provider).is_some()
    }

    /// Puts `project` at the end of the manifest, unless a project of its
    /// provider and path is there already. Tells whether it was put there.
    pub fn insert(&mut self, project: Project) -> (r: bool)
        ensures
            r == !contains_key(old(self)@, project@.provider, project@.path),
            final(self)@ == insert(old(self)@, project@),
            unique_keys(final(self)@),
    {
        proof {
            use_type_invariant(&*self);
            lemma_insert_unique(self@, project@);
        }
        if self.contains(project.get_path(), project.provider) {
            false
        } else {
            let mut projects: Vec<Project> = Vec::new();
            core::mem::swap(&mut self.projects, &mut projects);
            let ghost before = projects.deep_view();
            projects.push(project);
            assert(projects.deep_view() == before.push(project@));
            self.projects = projects;
            true
        }
    }

    /// The manifest that holds each of `projects`, in order, but for those whose
    /// provider and path an earlier one has.
    pub fn from_projects(projects: Vec<Project>) -> (r: Workspace)
        ensures
            r@ == insert_all(Seq::empty(), projects.deep_view()),
            unique_keys(r@),
    {
        let mut workspace = Workspace::new();
        let ghost items = projects.deep_view();
        let ghost step = |acc: Seq<ProjectView>, item: ProjectView| insert(acc, item);
        for project in it: projects.into_iter()
            invariant
                it.seq().len() == items.len(),
                forall|k: int| 0 <= k < items.len() ==> (#[trigger] it.seq()[k])@ == items[k],
                workspace@ == items.take(it.index() as int).fold_left(Seq::empty(), step),
                step == |acc: Seq<ProjectView>, item: ProjectView| insert(acc, item),
        {
            proof {
                let done = it.index() as int;
                assert(items.take(done + 1).drop_last() == items.take(done));
                assert(items.take(done + 1).last() == items[done]);
            }
            workspace.insert(project);
        }
        proof {
            assert(items.take(items.len() as int) == items);
            use_type_invariant(&workspace);
        }
        workspace
    }

    /// Adds the checkout whose remote address was parsed to `remote`, to be built
    /// with `cmd`: the host names the provider, the address's path without its
    /// leading slash is the project's path, and `cmd`, split at every single
    /// space, is its build command. An address without a host or with an
    /// unknown one changes nothing, and neither does one whose project the
    /// manifest has already.
    pub fn add_remote(&mut self, remote: &RemoteUrl, cmd: Option<String>) -> (r: AddOutcome)
        ensures
            r == remote_outcome(old(self)@, remote@),
            final(self)@ == after_add_remote(old(self)@, remote@, cmd.deep_view()),
            r != AddOutcome::Added ==> final(self)@ == old(self)@,
            unique_keys(final(self)@),
    {
        proof {
            use_type_invariant(&*self);
        }
        match &remote.host {
            None => AddOutcome::MissingHost,
            Some(host) => match Provider::from(host.as_str()) {
                None => AddOutcome::UnknownProvider,
                Some(provider) => {
                    let path = strip_leading(remote.path.as_str(), '/');
                    let words = match &cmd {
                        Some(text) => split_at_each(text.as_str(), ' '),
                        None => Vec::new(),
                    };
                    assert(cmd is None ==> words.deep_view() == Seq::<Seq<char>>::empty());
                    if self.insert(Project::new(provider, path, words)) {
                        AddOutcome::Added
                    } else {
                        AddOutcome::Duplicate
                    }
                },
            },
        }
    }

    /// Adds the checkout that was found as `checkout`, to be built with `cmd`.
    /// Whatever goes wrong is told in the result and leaves the manifest as it
    /// was: a directory that is no checkout, a remote address that could not be
    /// asked for or read, a host that is no provider, a project that is there
    /// already.
    pub fn add(&mut self, checkout: &Checkout, cmd: Option<String>) -> (r: AddOutcome)
        ensures
            r == add_outcome(old(self)@, checkout@),
            final(self)@ == after_add(old(self)@, checkout@, cmd.deep_view()),
            r != AddOutcome::Added ==> final(self)@ == old(self)@,
            unique_keys(final(self)@),
    {
        proof {
            use_type_invariant(&*self);
        }
        match checkout {
            Checkout::NotARepository => AddOutcome::NotARepository,
            Checkout::NoRemote => AddOutcome::InvalidRemote,
            Checkout::Remote(text) => match RemoteUrl::parse(text.as_str()) {
                None => AddOutcome::UnparsableUrl,
                Some(remote) => self.add_remote(&remote, cmd),
            },
        }
    }

    /// Takes the project of key (`provider`, `path`) out of the manifest, the
    /// others keeping their order, and tells whether there was one. Both the
    /// provider and the path have to agree; where no project has both, nothing
    /// changes.
    pub fn remove(&mut self, path: &str, provider: Provider) -> (r: bool)
        ensures
            r == contains_key(old(self)@, provider, path@),
            final(self)@ == without(old(self)@, provider, path@),
            !r ==> final(self)@ == old(self)@,
            r ==> final(self)@.len() == old(self)@.len() - 1,
            !contains_key(final(self)@, provider, path@),
            unique_keys(final(self)@),
    {
        proof {
            use_type_invariant(&*self);
            lemma_without_unique(self@, provider, path@);
        }
        match self.position(path, provider) {
            Some(at) => {
                let mut projects: Vec<Project> = Vec::new();
                core::mem::swap(&mut self.projects, &mut projects);
                let ghost before = projects.deep_view();
                projects.remove(at);
                proof {
                    assert(projects.deep_view() == before.remove(at as int));
                    lemma_without_present(before, provider, path@, at as int);
                }
                self.projects = projects;
                true
            },
            None => {
                proof {
                    lemma_without_absent(self@, provider, path@);
                }
                false
            },
        }
    }

    /// Adds what a scan of one directory found: every entry that is no plain
    /// file is added as a checkout without a build command, in order, and an
    /// entry that cannot be added does not keep the later ones from being
    /// tried. The result holds, entry by entry, how the attempt ended, and
    /// `None` for a plain file.
    pub fn scan(&mut self, entries: &Vec<Entry>) -> (r: Vec<Option<AddOutcome>>)
        ensures
            final(self)@ == after_scan(old(self)@, entries.deep_view()),
            unique_keys(final(self)@),
            r@.len() == entries@.len(),
            forall|i: int|
                0 <= i < entries@.len() ==> #[trigger] r@[i] == entry_outcome(
                    after_scan(old(self)@, entries.deep_view().take(i)),
                    entries.deep_view()[i],
                ),
    {
        let ghost items = entries.deep_view();
        let ghost step = |acc: Seq<ProjectView>, entry: EntryView| after_entry(acc, entry);
        let mut outcomes: Vec<Option<AddOutcome>> = Vec::new();
        let mut i: usize = 0;
        proof {
            use_type_invariant(&*self);
        }
        while i < entries.len()
            invariant
                i <= entries@.len(),
                items == entries.deep_view(),
                step == |acc: Seq<ProjectView>, entry: EntryView| after_entry(acc, entry),
                self@ == items.take(i as int).fold_left(old(self)@, step),
                unique_keys(self@),
                outcomes@.len() == i,
                forall|k: int|
                    0 <= k < i ==> #[trigger] outcomes@[k] == entry_outcome(
                        items.take(k).fold_left(old(self)@, step),
                        items[k],
                    ),
            decreases entries@.len() - i,
        {
            let entry = &entries[i];
            proof {
                assert(items[i as int] == entry@);
                assert(items.take(i + 1).drop_last() == items.take(i as int));
                assert(items.take(i + 1).last() == items[i as int]);
            }
            if entry.is_file {
                outcomes.push(None);
            } else {
                let outcome = self.add(&entry.checkout, None);
                outcomes.push(Some(outcome));
            }
            i = i + 1;
        }
        proof {
            assert(items.take(items.len() as int) == items);
        }
        outcomes
    }

    /// What building every project comes to for a process working in
    /// `current_dir`, project by project in the order of the manifest.
    pub fn build(&self, current_dir: &str) -> (r: Vec<Build>)
        ensures
            r.deep_view() == self@.map_values(|project: ProjectView| build_step(project, current_dir@)),
    {
        let mut steps: Vec<Build> = Vec::new();
        let mut i: usize = 0;
        while i < self.projects.len()
            invariant
                i <= self.projects@.len(),
                steps@.len() == i,
                forall|k: int|
                    0 <= k < i ==> (#[trigger] steps@[k])@ == build_step(
                        self.projects.deep_view()[k],
                        current_dir@,
                    ),
            decreases self.projects@.len() - i,
        {
            let step = self.projects[i].build(current_dir);
            assert(self.projects.deep_view()[i as int] == self.projects@[i as int]@);
            steps.push(step);
            i = i + 1;
        }
        assert(steps.deep_view() =~= self@.map_values(
            |project: ProjectView| build_step(project, current_dir@),
        ));
        steps
    }
}

} // verus!
