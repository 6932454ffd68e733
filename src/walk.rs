use vstd::prelude::*;
use vstd::string::StringExecFns;

verus! {

/// Relies on ignore::WalkBuilder::new: a builder for a walk rooted at the path.
#[verifier::external_body]
fn ignore_builder(root: &str) -> ignore::WalkBuilder {
    ignore::WalkBuilder::new(root)
}

/// Relies on ignore::WalkBuilder::hidden: whether hidden entries are skipped.
#[verifier::external_body]
fn ignore_set_hidden(b: &mut ignore::WalkBuilder, yes: bool) {
    b.hidden(yes);
}

/// Relies on ignore::WalkBuilder::ignore: whether `.ignore` files are read.
#[verifier::external_body]
fn ignore_set_ignore(b: &mut ignore::WalkBuilder, yes: bool) {
    b.ignore(yes);
}

/// Relies on ignore::WalkBuilder::git_ignore: whether `.gitignore` files are read.
#[verifier::external_body]
fn ignore_set_git_ignore(b: &mut ignore::WalkBuilder, yes: bool) {
    b.git_ignore(yes);
}

/// Relies on ignore::WalkBuilder::build: a walk with the builder's settings.
#[verifier::external_body]
fn ignore_build(b: &ignore::WalkBuilder) -> ignore::Walk {
    b.build()
}

/// Relies on ignore::WalkBuilder::git_global: whether the global gitignore
/// file is read.
#[verifier::external_body]
fn ignore_set_git_global(b: &mut ignore::WalkBuilder, yes: bool) {
    b.git_global(yes);
}

/// Relies on ignore::WalkBuilder::git_exclude: whether `.git/info/exclude`
/// files are read.
#[verifier::external_body]
fn ignore_set_git_exclude(b: &mut ignore::WalkBuilder, yes: bool) {
    b.git_exclude(yes);
}

/// Relies on ignore::WalkBuilder::parents: whether ignore files in the
/// directories above the root are read.
#[verifier::external_body]
fn ignore_set_parents(b: &mut ignore::WalkBuilder, yes: bool) {
    b.parents(yes);
}

/// Relies on the `Iterator` impl of ignore::Walk: the next entry, taken as
/// its path (`Err` with a lossy rendering where the path is not Unicode), or
/// the error met while reading it. What comes back depends on the file
/// system, so nothing is promised of it.
#[verifier::external_body]
fn ignore_next(w: &mut ignore::Walk) -> Option<core::result::Result<core::result::Result<String, String>, ignore::Error>> {
    match w.next() {
        Some(Ok(entry)) => match entry.into_path().into_os_string().into_string() {
            Ok(path) => Some(Ok(Ok(path))),
            Err(raw) => Some(Ok(Err(raw.to_string_lossy().into_owned()))),
        },
        Some(Err(err)) => Some(Err(err)),
        None => None,
    }
}

/// Error met while walking a directory tree.
pub enum WalkError {
    /// The entry could not be read.
    Walk(ignore::Error),
    /// The entry's path is not valid Unicode; it is shown here with
    /// replacement characters. Such an entry is reported rather than probed
    /// under an altered name.
    NotUnicode(String),
}

/// A walk over the entries of a directory tree.
pub struct TreeWalk {
    inner: ignore::Walk,
    root: String,
    skip_hidden: bool,
    skip_ignored: bool,
}

impl TreeWalk {
    /// The settings this walk was made with.
    pub closed spec fn config(&self) -> (Seq<char>, bool, bool) {
        (self.root@, self.skip_hidden, self.skip_ignored)
    }

    /// Creates a walk of the tree under `path`.
    pub fn new(path: &str, skip_hidden: bool, skip_ignored: bool) -> (r: Self)
        ensures
            r.config() == (path@, skip_hidden, skip_ignored),
    {
        let mut b = TreeWalkBuilder::new(path);
        b.hidden(skip_hidden);
        b.ignore(skip_ignored);
        b.build()
    }

    /// The next entry of the walk, as its path; `None` once the walk is done.
    /// An entry that cannot be read, or whose path is not valid Unicode,
    /// comes back as an error, and the walk goes on past it.
    pub fn next(&mut self) -> (r: Option<core::result::Result<String, WalkError>>)
        ensures
            final(self).config() == old(self).config(),
    {
        match ignore_next(&mut self.inner) {
            Some(Ok(Ok(path))) => Some(Ok(path)),
            Some(Ok(Err(shown))) => Some(Err(WalkError::NotUnicode(shown))),
            Some(Err(err)) => Some(Err(WalkError::Walk(err))),
            None => None,
        }
    }
}

/// A builder for configuring a `TreeWalk`.
pub struct TreeWalkBuilder {
    inner: ignore::WalkBuilder,
    root: String,
    skip_hidden: bool,
    skip_ignored: bool,
}

impl TreeWalkBuilder {
    /// The settings a walk built now would have.
    pub closed spec fn config(&self) -> (Seq<char>, bool, bool) {
        (self.root@, self.skip_hidden, self.skip_ignored)
    }

    /// Creates a builder for a walk of the tree under `path`. Hidden and
    /// ignored entries are skipped until told otherwise.
    pub fn new(path: &str) -> (r: Self)
        ensures
            r.config() == (path@, true, true),
    {
        TreeWalkBuilder {
            inner: ignore_builder(path),
            root: String::from_str(path),
            skip_hidden: true,
            skip_ignored: true,
        }
    }

    /// Builds the walk.
    pub fn build(&self) -> (r: TreeWalk)
        ensures
            r.config() == self.config(),
    {
        TreeWalk {
            inner: ignore_build(&self.inner),
            root: self.root.clone(),
            skip_hidden: self.skip_hidden,
            skip_ignored: self.skip_ignored,
        }
    }

    /// Whether hidden files and directories are skipped.
    pub fn hidden(&mut self, yes: bool)
        ensures
            final(self).config() == (old(self).config().0, yes, old(self).config().2),
    {
        ignore_set_hidden(&mut self.inner, yes);
        self.skip_hidden = yes;
    }

    /// Whether entries excluded by ignore files are skipped: `.ignore` and
    /// `.gitignore` files, the global gitignore file, `.git/info/exclude`
    /// files, and ignore files in the directories above the root.
    pub fn ignore(&mut self, yes: bool)
        ensures
            final(self).config() == (old(self).config().0, old(self).config().1, yes),
    {
        ignore_set_ignore(&mut self.inner, yes);
        ignore_set_git_ignore(&mut self.inner, yes);
        ignore_set_git_global(&mut self.inner, yes);
        ignore_set_git_exclude(&mut self.inner, yes);
        ignore_set_parents(&mut self.inner, yes);
        self.skip_ignored = yes;
    }
}

} // verus!
