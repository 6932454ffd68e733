use vstd::prelude::*;
use vstd::string::StringExecFns;
use vstd::string::StrSliceExecFns;

use crate::command::views;
use crate::walk::WalkError;

verus! {

/// What discovery learned of one walked entry: its path, whether it is a
/// directory, and whether it holds the `.git` marker.
pub type Sighting = (Seq<char>, bool, bool);

/// A sighted entry is a repository root when it is a directory holding the marker.
pub open spec fn is_root(s: Sighting) -> bool {
    s.1 && s.2
}

/// Whether `a` comes strictly before `b` in lexicographic order of their
/// characters; a proper prefix comes first.
pub open spec fn lex_lt(a: Seq<char>, b: Seq<char>) -> bool
    decreases a.len(),
{
    if b.len() == 0 {
        false
    } else if a.len() == 0 {
        true
    } else if a[0] != b[0] {
        a[0] < b[0]
    } else {
        lex_lt(a.drop_first(), b.drop_first())
    }
}

/// Each path comes strictly before every later one.
pub open spec fn strictly_sorted(s: Seq<Seq<char>>) -> bool {
    forall|i: int, j: int| 0 <= i < j < s.len() ==> lex_lt(#[trigger] s[i], #[trigger] s[j])
}

/// The paths of the sighted entries that are repository roots.
pub open spec fn root_paths(seen: Seq<Sighting>) -> Set<Seq<char>> {
    Set::new(|p: Seq<char>| exists|i: int| 0 <= i < seen.len() && is_root(seen[i]) && seen[i].0 == p)
}

/// The path of the marker entry inside `dir`.
pub open spec fn marker_path_of(dir: Seq<char>) -> Seq<char> {
    if dir.len() > 0 && dir.last() == '/' {
        dir + seq!['.', 'g', 'i', 't']
    } else {
        dir + seq!['/', '.', 'g', 'i', 't']
    }
}

/// No path comes before itself.
pub proof fn lemma_lex_irreflexive(a: Seq<char>)
    ensures
        !lex_lt(a, a),
    decreases a.len(),
{
    if a.len() > 0 {
        lemma_lex_irreflexive(a.drop_first());
    }
}

/// Lexicographic order is transitive.
pub proof fn lemma_lex_transitive(a: Seq<char>, b: Seq<char>, c: Seq<char>)
    requires
        lex_lt(a, b),
        lex_lt(b, c),
    ensures
        lex_lt(a, c),
    decreases a.len(),
{
    if a.len() > 0 && b.len() > 0 && c.len() > 0 && a[0] == b[0] && b[0] == c[0] {
        lemma_lex_transitive(a.drop_first(), b.drop_first(), c.drop_first());
    }
}

/// Of two different paths, one comes before the other.
pub proof fn lemma_lex_total(a: Seq<char>, b: Seq<char>)
    requires
        a != b,
    ensures
        lex_lt(a, b) || lex_lt(b, a),
    decreases a.len(),
{
    if a.len() == 0 && b.len() == 0 {
        assert(a =~= b);
    }
    if a.len() > 0 && b.len() > 0 && a[0] == b[0] {
        if a.drop_first() == b.drop_first() {
            assert(a =~= seq![a[0]] + a.drop_first());
            assert(b =~= seq![b[0]] + b.drop_first());
        }
        lemma_lex_total(a.drop_first(), b.drop_first());
    }
}

/// A strictly sorted sequence holds no path twice.
pub proof fn lemma_sorted_distinct(s: Seq<Seq<char>>)
    requires
        strictly_sorted(s),
    ensures
        s.no_duplicates(),
{
    assert forall|i: int, j: int| 0 <= i < s.len() && 0 <= j < s.len() && i != j implies s[i] != s[j] by {
        if i < j {
            assert(lex_lt(s[i], s[j]));
            lemma_lex_irreflexive(s[i]);
        } else {
            assert(lex_lt(s[j], s[i]));
            lemma_lex_irreflexive(s[j]);
        }
    }
}

/// One more sighting adds its path to the roots when, and only when, it is a root.
proof fn lemma_root_paths_push(seen: Seq<Sighting>, s: Sighting)
    ensures
        root_paths(seen.push(s)) == if is_root(s) {
            root_paths(seen).insert(s.0)
        } else {
            root_paths(seen)
        },
{
    let next = seen.push(s);
    assert forall|p: Seq<char>| root_paths(next).contains(p) == (root_paths(seen).contains(p)
        || (is_root(s) && p == s.0)) by {
        if root_paths(next).contains(p) {
            let i = choose|i: int| 0 <= i < next.len() && is_root(next[i]) && next[i].0 == p;
            if i < seen.len() {
                assert(next[i] == seen[i]);
            }
        }
        if root_paths(seen).contains(p) {
            let i = choose|i: int| 0 <= i < seen.len() && is_root(seen[i]) && seen[i].0 == p;
            assert(next[i] == seen[i]);
        }
        if is_root(s) && p == s.0 {
            assert(next[seen.len() as int] == s);
        }
    }
    if is_root(s) {
        assert(root_paths(next) =~= root_paths(seen).insert(s.0));
    } else {
        assert(root_paths(next) =~= root_paths(seen));
    }
}

/// Walking more entries never loses a root: when every entry sighted in one
/// walk is also sighted in another, every root of the first is a root of the
/// second.
pub proof fn lemma_roots_monotone(fewer: Seq<Sighting>, more: Seq<Sighting>)
    requires
        forall|i: int| 0 <= i < fewer.len() ==> more.contains(#[trigger] fewer[i]),
    ensures
        root_paths(fewer).subset_of(root_paths(more)),
{
    assert forall|p: Seq<char>| root_paths(fewer).contains(p) implies root_paths(more).contains(p) by {
        let i = choose|i: int| 0 <= i < fewer.len() && is_root(fewer[i]) && fewer[i].0 == p;
        assert(more.contains(fewer[i]));
        let j = choose|j: int| 0 <= j < more.len() && more[j] == fewer[i];
        assert(is_root(more[j]) && more[j].0 == p);
    }
}

/// Relies on std::path::Path::is_dir: whether the path names a directory on
/// disk now. The answer depends on the file system, so nothing is promised.
#[verifier::external_body]
fn path_is_dir(p: &str) -> bool {
    std::path::Path::new(p).is_dir()
}

/// Relies on std::path::Path::exists: whether anything is found at the path
/// now. The answer depends on the file system, so nothing is promised.
#[verifier::external_body]
fn path_exists(p: &str) -> bool {
    std::path::Path::new(p).exists()
}

/// The path of the marker entry inside `dir`, separated by `/`.
pub fn marker_path(dir: &str) -> (r: String)
    ensures
        r@ == marker_path_of(dir@),
{
    proof {
        reveal_strlit(".git");
        reveal_strlit("/.git");
    }
    let n = dir.unicode_len();
    let owned = String::from_str(dir);
    if n > 0 && dir.get_char(n - 1) == '/' {
        owned.concat(".git")
    } else {
        owned.concat("/.git")
    }
}

/// Whether `a` comes strictly before `b` in lexicographic order.
pub fn precedes(a: &str, b: &str) -> (r: bool)
    ensures
        r == lex_lt(a@, b@),
{
    let n = a.unicode_len();
    let m = b.unicode_len();
    let mut i: usize = 0;
    proof {
        assert(a@.subrange(0, n as int) =~= a@);
        assert(b@.subrange(0, m as int) =~= b@);
    }
    while i < n && i < m
        invariant
            n == a@.len(),
            m == b@.len(),
            i <= n,
            i <= m,
            lex_lt(a@, b@) == lex_lt(a@.subrange(i as int, n as int), b@.subrange(i as int, m as int)),
        decreases n - i,
    {
        let x = a.get_char(i);
        let y = b.get_char(i);
        let ghost sa = a@.subrange(i as int, n as int);
        let ghost sb = b@.subrange(i as int, m as int);
        proof {
            assert(sa[0] == x && sb[0] == y);
        }
        if x != y {
            return x < y;
        }
        proof {
            assert(sa.drop_first() =~= a@.subrange(i as int + 1, n as int));
            assert(sb.drop_first() =~= b@.subrange(i as int + 1, m as int));
        }
        i = i + 1;
    }
    i == n && i < m
}

/// The set of repository roots found so far in a walk, each kept once and
/// in lexicographic order, so that what follows from it does not depend on
/// the order in which the file system lists entries.
///
/// Roots are keyed by the path under which the walk reached them, not by a
/// canonical path. That keeps each directory once because the walk does not
/// follow symbolic links, so no directory is reached by two routes; a walk
/// that followed links would need canonical paths here.
pub struct Discovery {
    roots: Vec<String>,
    seen: Ghost<Seq<Sighting>>,
}

impl Discovery {
    /// The roots found so far, in lexicographic order.
    pub closed spec fn roots_view(&self) -> Seq<Seq<char>> {
        views(self.roots@)
    }

    /// Every entry recorded so far, in order.
    pub closed spec fn seen(&self) -> Seq<Sighting> {
        self.seen@
    }

    /// The roots are those of the entries recorded so far, in strictly
    /// increasing order.
    pub open spec fn wf(&self) -> bool {
        &&& strictly_sorted(self.roots_view())
        &&& self.roots_view().to_set() == root_paths(self.seen())
    }

    /// A discovery that has seen nothing yet.
    pub fn new() -> (r: Self)
        ensures
            r.wf(),
            r.seen() == Seq::<Sighting>::empty(),
    {
        let r = Discovery { roots: Vec::new(), seen: Ghost(Seq::empty()) };
        assert(views(r.roots@) =~= Seq::<Seq<char>>::empty());
        assert(root_paths(r.seen@) =~= Set::empty());
        assert(views(r.roots@).to_set() =~= Set::empty());
        r
    }

    /// Records one walked entry, given what is known of it. A directory that
    /// holds the marker joins the roots, unless it is there already.
    pub fn record(&mut self, path: String, is_dir: bool, has_marker: bool)
        requires
            old(self).wf(),
        ensures
            final(self).wf(),
            final(self).seen() == old(self).seen().push((path@, is_dir, has_marker)),
    {
        let ghost s: Sighting = (path@, is_dir, has_marker);
        let ghost before = views(self.roots@);
        proof {
            lemma_root_paths_push(self.seen@, s);
        }
        if is_dir && has_marker {
            let mut pos: usize = 0;
            while pos < self.roots.len() && precedes(self.roots[pos].as_str(), path.as_str())
                invariant
                    pos <= self.roots.len(),
                    views(self.roots@) == before,
                    forall|k: int| 0 <= k < pos ==> lex_lt(#[trigger] before[k], path@),
                decreases self.roots.len() - pos,
            {
                pos = pos + 1;
            }
            let present = pos < self.roots.len() && self.roots[pos] == path;
            if present {
                proof {
                    assert(before[pos as int] == path@);
                    assert(before.to_set().contains(path@));
                    assert(before.to_set().insert(path@) =~= before.to_set());
                }
            } else {
                self.roots.insert(pos, path);
                proof {
                    let after = views(self.roots@);
                    assert(after =~= before.insert(pos as int, s.0));
                    assert forall|k: int| pos <= k < before.len() implies lex_lt(s.0, #[trigger] before[k]) by {
                        lemma_lex_total(before[pos as int], s.0);
                        if k > pos {
                            lemma_lex_transitive(s.0, before[pos as int], before[k]);
                        }
                    }
                    assert forall|i: int, j: int| 0 <= i < j < after.len()
                        implies lex_lt(#[trigger] after[i], #[trigger] after[j]) by {
                        if j < pos {
                        } else if j == pos {
                        } else if i < pos {
                            assert(after[j] == before[j - 1]);
                            lemma_lex_transitive(before[i], s.0, before[j - 1]);
                        } else if i == pos {
                            assert(after[j] == before[j - 1]);
                        } else {
                            assert(after[i] == before[i - 1] && after[j] == before[j - 1]);
                        }
                    }
                    assert forall|p: Seq<char>| after.to_set().contains(p)
                        == before.to_set().insert(s.0).contains(p) by {
                        if after.contains(p) {
                            let k = choose|k: int| 0 <= k < after.len() && after[k] == p;
                            if k < pos {
                                assert(before[k] == p);
                            } else if k > pos {
                                assert(before[k - 1] == p);
                            }
                        }
                        if before.contains(p) {
                            let k = choose|k: int| 0 <= k < before.len() && before[k] == p;
                            if k < pos {
                                assert(after[k] == p);
                            } else {
                                assert(after[k + 1] == p);
                            }
                        }
                        if p == s.0 {
                            assert(after[pos as int] == p);
                        }
                    }
                    assert(after.to_set() =~= before.to_set().insert(s.0));
                }
            }
        }
        self.seen = Ghost(self.seen@.push(s));
    }

    /// Takes the next item of a walk. A readable entry is probed on disk and
    /// recorded; an entry that could not be read is handed back, so that the
    /// caller can warn of it, and discovery goes on without it.
    pub fn observe(&mut self, item: Result<String, WalkError>) -> (r: Option<WalkError>)
        requires
            old(self).wf(),
        ensures
            final(self).wf(),
            match item {
                Ok(path) => r is None && final(self).seen().drop_last() == old(self).seen()
                    && final(self).seen().len() == old(self).seen().len() + 1
                    && final(self).seen().last().0 == path@,
                Err(e) => r == Some(e) && final(self).seen() == old(self).seen(),
            },
    {
        match item {
            Ok(path) => {
                let is_dir = path_is_dir(path.as_str());
                let has_marker = is_dir && path_exists(marker_path(path.as_str()).as_str());
                self.record(path, is_dir, has_marker);
                proof {
                    assert(self.seen().drop_last() =~= old(self).seen());
                }
                None
            },
            Err(err) => Some(err),
        }
    }

    /// The roots found so far, in lexicographic order.
    pub fn roots(&self) -> (r: &Vec<String>)
        ensures
            views(r@) == self.roots_view(),
    {
        &self.roots
    }

    /// The roots found, in lexicographic order.
    pub fn into_roots(self) -> (r: Vec<String>)
        ensures
            views(r@) == self.roots_view(),
    {
        self.roots
    }
}

/// The roots that discovery reports are exactly the recorded entries that
/// are directories holding the marker: none missing, none extra, none twice.
pub proof fn lemma_roots_exact(d: &Discovery)
    requires
        d.wf(),
    ensures
        d.roots_view().no_duplicates(),
        forall|p: Seq<char>| d.roots_view().contains(p) <==> (exists|i: int|
            0 <= i < d.seen().len() && #[trigger] d.seen()[i].0 == p && d.seen()[i].1 && d.seen()[i].2),
{
    lemma_sorted_distinct(d.roots_view());
    assert forall|p: Seq<char>| d.roots_view().contains(p) == root_paths(d.seen()).contains(p) by {
        assert(d.roots_view().to_set().contains(p) == d.roots_view().contains(p));
    }
}

} // verus!
