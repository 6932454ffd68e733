use git_foreach::detect::Discovery;
use git_foreach::options::{walk_from_options, Options};
use git_foreach::walk::{TreeWalk, TreeWalkBuilder, WalkError};

const MISSING: &str = "/nonexistent/git_foreach_missing_root";

fn options(root: &str, hidden: bool, no_ignore: bool) -> Options {
    Options {
        quiet: true,
        directory: root.to_string(),
        hidden,
        no_ignore,
        dry_run: true,
        command: vec!["true".to_string()],
    }
}

fn count_errors(walk: &mut TreeWalk, discovery: &mut Discovery) -> usize {
    let mut errors = 0;
    while let Some(item) = walk.next() {
        if let Some(WalkError::Walk(_)) = discovery.observe(item) {
            errors += 1;
        }
    }
    errors
}

#[test]
fn unreadable_root_is_reported_not_fatal() {
    let mut walk = walk_from_options(&options(MISSING, false, false));
    let mut discovery = Discovery::new();
    assert_eq!(count_errors(&mut walk, &mut discovery), 1);
    assert!(discovery.into_roots().is_empty());
}

#[test]
fn walk_new_on_missing_root_ends() {
    let mut walk = TreeWalk::new(MISSING, true, true);
    assert!(matches!(walk.next(), Some(Err(_))));
    assert!(walk.next().is_none());
}

#[test]
fn builder_walk_on_missing_root_ends() {
    let mut b = TreeWalkBuilder::new(MISSING);
    b.hidden(false);
    b.ignore(false);
    let mut walk = b.build();
    let mut discovery = Discovery::new();
    assert_eq!(count_errors(&mut walk, &mut discovery), 1);
    assert!(discovery.roots().is_empty());
}
