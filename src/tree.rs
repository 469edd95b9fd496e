use vstd::prelude::*;

use crate::error::AppError;
use crate::text::{
    basename, last_index_of, basename_of, chars_eq, chars_of, has_parent_segment, parent_segment,
    parent_segment_of,
};

verus! {

/// One entry of a recursive tree listing, as the hosting platform reports it.
#[derive(Debug, Clone)]
pub struct GitHubAPIRepoTreeItem {
    pub path: String,
    pub mode: String,
    pub sha: String,
    /// `tree` (directory), `blob` (file) or `commit` (submodule).
    pub kind: String,
    pub size: Option<i32>,
}

/// A recursive tree listing: root hash, truncation flag and entries.
#[derive(Debug, Clone)]
pub struct GitHubAPIRepoTree {
    pub sha: String,
    pub tree: Vec<GitHubAPIRepoTreeItem>,
    pub truncated: bool,
}

/// The stored tree header of a repository.
#[derive(Debug, Clone)]
pub struct RepoTree {
    pub sha: String,
    pub truncated: bool,
}

/// A persisted tree item: a listing entry with its generated id and the id
/// of its parent directory, if any.
#[derive(Debug, Clone)]
pub struct RepoTreeItem {
    pub id: i64,
    pub parent_id: Option<i64>,
    pub path: String,
    pub mode: String,
    pub kind: String,
    pub sha: String,
    pub size: Option<i32>,
}

/// Whether a listing kind names a directory.
pub open spec fn is_tree_kind(kind: Seq<char>) -> bool {
    kind == seq!['t', 'r', 'e', 'e']
}

/// How a path's parent resolves against the run-scoped basename map:
/// `Some(None)` at the root, `Some(Some(id))` under a registered directory,
/// `None` when the parent directory was never registered.
pub open spec fn resolve_parent(dirs: Map<Seq<char>, i64>, path: Seq<char>) -> Option<Option<i64>> {
    if !has_parent_segment(path) {
        Some(None)
    } else if dirs.contains_key(parent_segment(path)) {
        Some(Some(dirs[parent_segment(path)]))
    } else {
        None
    }
}

/// The basename map after the item with id `id` and the given path and kind
/// was inserted.
pub open spec fn register(dirs: Map<Seq<char>, i64>, path: Seq<char>, kind: Seq<char>, id: i64) -> Map<Seq<char>, i64> {
    if is_tree_kind(kind) {
        dirs.insert(basename(path), id)
    } else {
        dirs
    }
}

/// The basename map after the first `n` entries were inserted with the
/// generated ids `ids[0]`, `ids[1]`, ...
pub open spec fn run_map(entries: Seq<GitHubAPIRepoTreeItem>, ids: Seq<i64>, n: nat) -> Map<Seq<char>, i64>
    decreases n,
{
    if n == 0 {
        Map::empty()
    } else {
        let e = entries[n - 1];
        register(run_map(entries, ids, (n - 1) as nat), e.path@, e.kind@, ids[n - 1])
    }
}

/// The ids `first_id`, `first_id + 1`, ... of `n` entries.
pub open spec fn consecutive_ids(first_id: int, n: nat) -> Seq<i64> {
    Seq::new(n, |i: int| (first_id + i) as i64)
}

/// Whether the entry at index `i` finds its parent when the earlier entries
/// have been inserted.
pub open spec fn entry_resolves(entries: Seq<GitHubAPIRepoTreeItem>, ids: Seq<i64>, i: int) -> bool {
    resolve_parent(run_map(entries, ids, i as nat), entries[i].path@) is Some
}

/// Whether `item` is `entry` inserted with id `id` under the given basename map.
pub open spec fn item_of(item: RepoTreeItem, entry: GitHubAPIRepoTreeItem, id: i64, dirs: Map<Seq<char>, i64>) -> bool {
    &&& item.id == id
    &&& resolve_parent(dirs, entry.path@) == Some(item.parent_id)
    &&& item.path == entry.path
    &&& item.mode == entry.mode
    &&& item.kind == entry.kind
    &&& item.sha == entry.sha
    &&& item.size == entry.size
}

/// The run-scoped map from directory basename to generated id that resolves
/// each item's parent during one ingestion. A later directory with the same
/// basename replaces the earlier one.
pub struct TreeBuilder {
    dirs: Vec<(Vec<char>, i64)>,
    index: Ghost<Map<Seq<char>, i64>>,
}

impl TreeBuilder {
    pub closed spec fn view(&self) -> Map<Seq<char>, i64> {
        self.index@
    }

    pub closed spec fn wf(&self) -> bool {
        &&& forall|i: int, j: int|
            0 <= i < j < self.dirs@.len() ==> self.dirs@[i].0@ != self.dirs@[j].0@
        &&& forall|i: int|
            0 <= i < self.dirs@.len() ==> #[trigger] self.index@.contains_key(self.dirs@[i].0@)
                && self.index@[self.dirs@[i].0@] == self.dirs@[i].1
        &&& forall|k: Seq<char>|
            #[trigger] self.index@.contains_key(k) ==> exists|i: int|
                0 <= i < self.dirs@.len() && self.dirs@[i].0@ == k
    }

    /// An empty map, for a new ingestion run.
    pub fn new() -> (r: TreeBuilder)
        ensures
            r.wf(),
            r@ == Map::<Seq<char>, i64>::empty(),
    {
        TreeBuilder { dirs: Vec::new(), index: Ghost(Map::empty()) }
    }

    fn find(&self, name: &[char]) -> (r: Option<usize>)
        requires
            self.wf(),
        ensures
            match r {
                Some(i) => i < self.dirs@.len() && self.dirs@[i as int].0@ == name@
                    && self@.contains_key(name@),
                None => !self@.contains_key(name@),
            },
    {
        let mut i: usize = 0;
        while i < self.dirs.len()
            invariant
                self.wf(),
                0 <= i <= self.dirs@.len(),
                forall|j: int| 0 <= j < i ==> self.dirs@[j].0@ != name@,
            decreases self.dirs@.len() - i,
        {
            if chars_eq(self.dirs[i].0.as_slice(), name) {
                return Some(i);
            }
            i = i + 1;
        }
        None
    }

    /// The id of a registered directory basename.
    pub fn lookup(&self, name: &str) -> (r: Option<i64>)
        requires
            self.wf(),
        ensures
            r == (if self@.contains_key(name@) { Some(self@[name@]) } else { None::<i64> }),
    {
        let n = chars_of(name);
        match self.find(n.as_slice()) {
            Some(i) => Some(self.dirs[i].1),
            None => None,
        }
    }

    /// Resolves the parent of `path`: none for a single segment, else the id
    /// registered under its second-to-last segment, else `ParentNotFound`.
    pub fn parent_of(&self, path: &str) -> (r: Result<Option<i64>, AppError>)
        requires
            self.wf(),
        ensures
            match r {
                Ok(p) => resolve_parent(self@, path@) == Some(p),
                Err(e) => resolve_parent(self@, path@) is None
                    && (e matches AppError::ParentNotFound(m) && m@ == path@),
            },
    {
        let p = chars_of(path);
        match parent_segment_of(p.as_slice()) {
            None => Ok(None),
            Some(name) => match self.find(name.as_slice()) {
                Some(i) => Ok(Some(self.dirs[i].1)),
                None => Err(AppError::ParentNotFound(path.to_owned())),
            },
        }
    }

    /// Records that the item at `path` of the given kind was inserted with
    /// `id`: a directory is registered under its basename.
    pub fn record(&mut self, path: &str, kind: &str, id: i64)
        requires
            old(self).wf(),
        ensures
            final(self).wf(),
            final(self)@ == register(old(self)@, path@, kind@, id),
    {
        let k = chars_of(kind);
        let tree: [char; 4] = ['t', 'r', 'e', 'e'];
        let is_tree = chars_eq(k.as_slice(), tree.as_slice());
        proof {
            assert(tree@ =~= seq!['t', 'r', 'e', 'e']);
        }
        if !is_tree {
            return;
        }
        let p = chars_of(path);
        let name = basename_of(p.as_slice());
        let ghost old_dirs = self.dirs@;
        let ghost key = name@;
        match self.find(name.as_slice()) {
            Some(i) => {
                self.dirs.set(i, (name, id));
                self.index = Ghost(self.index@.insert(key, id));
                assert forall|k: Seq<char>| #[trigger] self.index@.contains_key(k) implies exists|j: int|
                    0 <= j < self.dirs@.len() && self.dirs@[j].0@ == k by {
                    if k != key {
                        let j = choose|j: int| 0 <= j < old_dirs.len() && old_dirs[j].0@ == k;
                        assert(self.dirs@[j].0@ == k);
                    } else {
                        assert(self.dirs@[i as int].0@ == k);
                    }
                }
            },
            None => {
                self.dirs.push((name, id));
                self.index = Ghost(self.index@.insert(key, id));
                assert forall|k: Seq<char>| #[trigger] self.index@.contains_key(k) implies exists|j: int|
                    0 <= j < self.dirs@.len() && self.dirs@[j].0@ == k by {
                    if k != key {
                        let j = choose|j: int| 0 <= j < old_dirs.len() && old_dirs[j].0@ == k;
                        assert(self.dirs@[j].0@ == k);
                    } else {
                        assert(self.dirs@[old_dirs.len() as int].0@ == k);
                    }
                }
            },
        }
    }

    /// The item for `entry`, with its parent resolved, before it is stored;
    /// its id is 0 until `commit` sets it. Fails with `ParentNotFound` when
    /// the parent directory was not registered.
    pub fn item_for(&self, entry: &GitHubAPIRepoTreeItem) -> (r: Result<RepoTreeItem, AppError>)
        requires
            self.wf(),
        ensures
            match r {
                Ok(item) => item_of(item, *entry, 0, self@),
                Err(e) => resolve_parent(self@, entry.path@) is None
                    && (e matches AppError::ParentNotFound(m) && m@ == entry.path@),
            },
    {
        let parent_id = self.parent_of(entry.path.as_str())?;
        Ok(
            RepoTreeItem {
                id: 0,
                parent_id,
                path: entry.path.clone(),
                mode: entry.mode.clone(),
                kind: entry.kind.clone(),
                sha: entry.sha.clone(),
                size: entry.size,
            },
        )
    }

    /// Gives a resolved item the id it was stored under and registers it:
    /// a directory's basename now maps to `id`.
    pub fn commit(&mut self, item: &mut RepoTreeItem, id: i64)
        requires
            old(self).wf(),
        ensures
            final(self).wf(),
            *final(item) == (RepoTreeItem { id, ..*old(item) }),
            final(self)@ == register(old(self)@, old(item).path@, old(item).kind@, id),
    {
        item.id = id;
        self.record(item.path.as_str(), item.kind.as_str(), id);
    }
}

/// Inserts the entries in order with generated ids `first_id`,
/// `first_id + 1`, ..., resolving each parent through the basename map.
/// Fails at the first entry whose parent directory was not listed before it.
pub fn build_tree(entries: &Vec<GitHubAPIRepoTreeItem>, first_id: i64) -> (r: Result<Vec<RepoTreeItem>, AppError>)
    requires
        first_id + entries@.len() <= i64::MAX + 1,
    ensures
        ({
            let ids = consecutive_ids(first_id as int, entries@.len());
            &&& r is Ok <==> forall|i: int| 0 <= i < entries@.len() ==> entry_resolves(entries@, ids, i)
            &&& r matches Ok(items) ==> items@.len() == entries@.len() && forall|i: int|
                0 <= i < entries@.len() ==> item_of(
                    #[trigger] items@[i],
                    entries@[i],
                    ids[i],
                    run_map(entries@, ids, i as nat),
                ) && items@[i].id == first_id + i
            &&& r matches Err(e) ==> exists|k: int|
                0 <= k < entries@.len() && !entry_resolves(entries@, ids, k) && (forall|i: int|
                    0 <= i < k ==> entry_resolves(entries@, ids, i)) && (e matches AppError::ParentNotFound(
                    m,
                ) && m@ == entries@[k].path@)
        }),
{
    let ghost ids = consecutive_ids(first_id as int, entries@.len());
    let mut builder = TreeBuilder::new();
    let mut items: Vec<RepoTreeItem> = Vec::new();
    let mut i: usize = 0;
    let mut next_id: i64 = first_id;
    while i < entries.len()
        invariant
            first_id + entries@.len() <= i64::MAX + 1,
            ids == consecutive_ids(first_id as int, entries@.len()),
            i < entries@.len() ==> next_id == first_id + i,
            0 <= i <= entries@.len(),
            builder.wf(),
            builder@ == run_map(entries@, ids, i as nat),
            items@.len() == i,
            forall|j: int| 0 <= j < i ==> entry_resolves(entries@, ids, j),
            forall|j: int|
                0 <= j < i ==> item_of(
                    #[trigger] items@[j],
                    entries@[j],
                    ids[j],
                    run_map(entries@, ids, j as nat),
                ) && items@[j].id == first_id + j,
        decreases entries@.len() - i,
    {
        let mut item = match builder.item_for(&entries[i]) {
            Ok(item) => item,
            Err(e) => {
                assert(!entry_resolves(entries@, ids, i as int));
                return Err(e);
            },
        };
        assert(ids[i as int] == next_id);
        builder.commit(&mut item, next_id);
        items.push(item);
        i = i + 1;
        if i < entries.len() {
            next_id = next_id + 1;
        }
    }
    Ok(items)
}

/// Directories are listed before their contents: each entry with two or more
/// segments comes after a directory entry whose path is its own without the
/// last segment.
pub open spec fn dirs_listed_first(entries: Seq<GitHubAPIRepoTreeItem>) -> bool {
    forall|i: int|
        0 <= i < entries.len() && has_parent_segment(#[trigger] entries[i].path@) ==> exists|j: int|
            0 <= j < i && is_tree_kind(entries[j].kind@) && entries[j].path@ == entries[i].path@.subrange(
                0,
                last_index_of(entries[i].path@, '/'),
            )
}

proof fn lemma_run_map_registers(entries: Seq<GitHubAPIRepoTreeItem>, ids: Seq<i64>, n: nat, j: int)
    requires
        0 <= j < n <= entries.len(),
        is_tree_kind(entries[j].kind@),
    ensures
        run_map(entries, ids, n).contains_key(basename(entries[j].path@)),
    decreases n,
{
    if j < n - 1 {
        lemma_run_map_registers(entries, ids, (n - 1) as nat, j);
    }
}

proof fn lemma_run_map_origin(entries: Seq<GitHubAPIRepoTreeItem>, ids: Seq<i64>, n: nat, k: Seq<char>)
    requires
        n <= entries.len(),
        run_map(entries, ids, n).contains_key(k),
    ensures
        exists|j: int|
            0 <= j < n && is_tree_kind(entries[j].kind@) && basename(entries[j].path@) == k
                && run_map(entries, ids, n)[k] == ids[j],
    decreases n,
{
    let e = entries[n - 1];
    if is_tree_kind(e.kind@) && basename(e.path@) == k {
        assert(run_map(entries, ids, n)[k] == ids[n - 1]);
    } else {
        lemma_run_map_origin(entries, ids, (n - 1) as nat, k);
        let j = choose|j: int|
            0 <= j < n - 1 && is_tree_kind(entries[j].kind@) && basename(entries[j].path@) == k
                && run_map(entries, ids, (n - 1) as nat)[k] == ids[j];
        assert(run_map(entries, ids, n)[k] == ids[j]);
    }
}

/// Tree reconstruction law, for any ids the store generates: when
/// directories are listed before their contents, every entry resolves (so
/// one item is stored per entry), every item without a parent has a single
/// path segment, and every item with a parent points at an earlier
/// directory item whose basename is the item's second-to-last path segment.
pub proof fn lemma_build_tree_shape(
    entries: Seq<GitHubAPIRepoTreeItem>,
    ids: Seq<i64>,
    items: Seq<RepoTreeItem>,
)
    requires
        dirs_listed_first(entries),
        ids.len() == entries.len(),
        items.len() == entries.len(),
        forall|i: int|
            0 <= i < entries.len() ==> item_of(
                #[trigger] items[i],
                entries[i],
                ids[i],
                run_map(entries, ids, i as nat),
            ),
    ensures
        forall|i: int| 0 <= i < entries.len() ==> entry_resolves(entries, ids, i),
        forall|i: int|
            0 <= i < items.len() && (#[trigger] items[i]).parent_id is None ==> !has_parent_segment(
                items[i].path@,
            ),
        forall|i: int|
            0 <= i < items.len() && (#[trigger] items[i]).parent_id is Some ==> exists|j: int|
                0 <= j < i && items[j].id == items[i].parent_id->0 && is_tree_kind(items[j].kind@)
                    && basename(items[j].path@) == parent_segment(items[i].path@),
{
    assert forall|i: int| 0 <= i < entries.len() implies entry_resolves(entries, ids, i) by {
        let path = entries[i].path@;
        if has_parent_segment(path) {
            let j = choose|j: int|
                0 <= j < i && is_tree_kind(entries[j].kind@) && entries[j].path@ == path.subrange(
                    0,
                    last_index_of(path, '/'),
                );
            lemma_run_map_registers(entries, ids, i as nat, j);
        }
    }
    assert forall|i: int|
        0 <= i < items.len() && (#[trigger] items[i]).parent_id is Some implies exists|j: int|
            0 <= j < i && items[j].id == items[i].parent_id->0 && is_tree_kind(items[j].kind@)
                && basename(items[j].path@) == parent_segment(items[i].path@) by {
        let m = run_map(entries, ids, i as nat);
        assert(item_of(items[i], entries[i], ids[i], m));
        let k = parent_segment(entries[i].path@);
        lemma_run_map_origin(entries, ids, i as nat, k);
        let j = choose|j: int|
            0 <= j < i && is_tree_kind(entries[j].kind@) && basename(entries[j].path@) == k && m[k] == ids[j];
        assert(item_of(items[j], entries[j], ids[j], run_map(entries, ids, j as nat)));
    }
}

} // verus!
