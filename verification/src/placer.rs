//! The artifact placer: plans how what the packaging system wrote is copied
//! into the directory in which the bundles end up.
//!
//! The placer reads no disk. It is given a listing of each tree it is to
//! copy, and gives the operations that copy it.

use vstd::prelude::*;
use crate::error::{ErrorView, PipelineError};
use crate::paths::{join, join_all, joined, joined_all, lemma_joined_all_keeps_base};
use crate::platform::{
    format_name, profile_dir, profile_name, HostPlatform, OutputLayout, PluginFormat,
};
use crate::text::{appended, push_string, strings};

verus! {

/// One file or directory of a tree, as it was found on disk.
#[derive(Debug, Clone, PartialEq, Eq)]
pub struct TreeEntry {
    /// The names that lead from the root of the tree to the entry.
    pub path: Vec<String>,
    /// Whether the entry is a directory.
    pub is_dir: bool,
}

/// A `TreeEntry` as plain values.
pub struct TreeEntryView {
    pub path: Seq<Seq<char>>,
    pub is_dir: bool,
}

impl View for TreeEntry {
    type V = TreeEntryView;

    open spec fn view(&self) -> TreeEntryView {
        TreeEntryView { path: strings(self.path@), is_dir: self.is_dir }
    }
}

/// What was found on disk where a tree should be.
#[derive(Debug, Clone, PartialEq, Eq)]
pub enum TreeSnapshot {
    /// Nothing is there.
    Missing,
    /// The tree could not be listed; with the reason.
    Unreadable(String),
    /// Everything in the tree. A listing is in order when each entry has a
    /// name and stands after the directory that holds it.
    Entries(Vec<TreeEntry>),
}

/// A `TreeSnapshot` as plain values.
pub enum SnapshotView {
    Missing,
    Unreadable(Seq<char>),
    Entries(Seq<TreeEntryView>),
}

/// The entries of a sequence as plain values.
pub open spec fn tree_views(entries: Seq<TreeEntry>) -> Seq<TreeEntryView> {
    entries.map_values(|e: TreeEntry| e@)
}

impl View for TreeSnapshot {
    type V = SnapshotView;

    open spec fn view(&self) -> SnapshotView {
        match self {
            TreeSnapshot::Missing => SnapshotView::Missing,
            TreeSnapshot::Unreadable(reason) => SnapshotView::Unreadable(reason@),
            TreeSnapshot::Entries(entries) => SnapshotView::Entries(tree_views(entries@)),
        }
    }
}

/// The snapshots of a sequence as plain values.
pub open spec fn snapshot_views(snapshots: Seq<TreeSnapshot>) -> Seq<SnapshotView> {
    snapshots.map_values(|s: TreeSnapshot| s@)
}

/// One step of placing the bundles.
#[derive(Debug, Clone, PartialEq, Eq)]
pub enum FileOp {
    /// Make a directory, and those above it, unless it is there.
    CreateDirectory(String),
    /// Copy a file, replacing what is at the destination.
    CopyFile { from: String, to: String },
}

/// A `FileOp` as plain values.
pub enum FileOpView {
    CreateDirectory(Seq<char>),
    CopyFile { from: Seq<char>, to: Seq<char> },
}

impl View for FileOp {
    type V = FileOpView;

    open spec fn view(&self) -> FileOpView {
        match self {
            FileOp::CreateDirectory(path) => FileOpView::CreateDirectory(path@),
            FileOp::CopyFile { from, to } => FileOpView::CopyFile { from: from@, to: to@ },
        }
    }
}

/// The operations of a sequence as plain values.
pub open spec fn operation_views(operations: Seq<FileOp>) -> Seq<FileOpView> {
    operations.map_values(|op: FileOp| op@)
}

/// The operation that places one entry of a tree: a directory is made at
/// the same place below the destination, a file is copied to it.
pub open spec fn entry_operation(
    platform: HostPlatform,
    source: Seq<char>,
    dest: Seq<char>,
    entry: TreeEntryView,
) -> FileOpView {
    if entry.is_dir {
        FileOpView::CreateDirectory(joined_all(platform, dest, entry.path))
    } else {
        FileOpView::CopyFile {
            from: joined_all(platform, source, entry.path),
            to: joined_all(platform, dest, entry.path),
        }
    }
}

/// The operations that place the entries of a tree, one for each entry, in
/// the order of the entries.
pub open spec fn tree_operations(
    platform: HostPlatform,
    source: Seq<char>,
    dest: Seq<char>,
    entries: Seq<TreeEntryView>,
) -> Seq<FileOpView> {
    entries.map_values(|e: TreeEntryView| entry_operation(platform, source, dest, e))
}

/// The operations that copy a tree to a destination: the destination is
/// made, then each entry is placed.
pub open spec fn recursive_copy(
    platform: HostPlatform,
    source: Seq<char>,
    dest: Seq<char>,
    entries: Seq<TreeEntryView>,
) -> Seq<FileOpView> {
    seq![FileOpView::CreateDirectory(dest)] + tree_operations(platform, source, dest, entries)
}

/// Whether the `j`-th entry of a listing is the directory at `path`.
pub open spec fn is_directory_at(entries: Seq<TreeEntryView>, j: int, path: Seq<Seq<char>>) -> bool {
    entries[j].is_dir && entries[j].path == path
}

/// Whether the `k`-th entry of a listing is in order: its path is not
/// empty, its own name is not empty, and it stands directly in the tree or
/// in a directory that the listing holds before it.
pub open spec fn is_in_order(entries: Seq<TreeEntryView>, k: int) -> bool {
    let path = entries[k].path;
    &&& path.len() > 0
    &&& path.last().len() > 0
    &&& (path.len() == 1 || exists|j: int|
        0 <= j < k && #[trigger] is_directory_at(entries, j, path.drop_last()))
}

/// Whether a listing is in order: every entry of it is.
pub open spec fn well_listed(entries: Seq<TreeEntryView>) -> bool {
    forall|k: int| 0 <= k < entries.len() ==> #[trigger] is_in_order(entries, k)
}

/// What copying a tree to a destination gives: the operations that make the
/// destination and place each entry, or why there is no such plan. A tree
/// that is missing or could not be listed cannot be copied, and a listing
/// that is not in order is no answer.
pub open spec fn copy_plan(
    platform: HostPlatform,
    source: Seq<char>,
    dest: Seq<char>,
    snapshot: SnapshotView,
) -> Result<Seq<FileOpView>, ErrorView> {
    match snapshot {
        SnapshotView::Missing => Err(
            ErrorView::FilesystemError { detail: "Directory not found: "@ + source },
        ),
        SnapshotView::Unreadable(reason) => Err(ErrorView::FilesystemError { detail: reason }),
        SnapshotView::Entries(entries) => if well_listed(entries) {
            Ok(recursive_copy(platform, source, dest, entries))
        } else {
            Err(ErrorView::UnexpectedEvent)
        },
    }
}

/// The directory in which the packaging system leaves the bundles of one
/// format under the nested layout.
pub open spec fn format_directory(
    platform: HostPlatform,
    source: Seq<char>,
    format: PluginFormat,
    release: bool,
) -> Seq<char> {
    joined(platform, joined(platform, source, format_name(format)), profile_name(release))
}

/// The directories of the formats, in the order of the formats.
pub open spec fn format_directories(
    platform: HostPlatform,
    source: Seq<char>,
    formats: Seq<PluginFormat>,
    release: bool,
) -> Seq<Seq<char>> {
    formats.map_values(|f: PluginFormat| format_directory(platform, source, f, release))
}

/// The trees whose contents are placed: under the flat layout the source
/// directory itself, under the nested layout the directory of each format.
pub open spec fn placement_roots(
    platform: HostPlatform,
    layout: OutputLayout,
    source: Seq<char>,
    formats: Seq<PluginFormat>,
    release: bool,
) -> Seq<Seq<char>> {
    match layout {
        OutputLayout::Flat => seq![source],
        OutputLayout::NestedByFormatAndProfile => format_directories(
            platform,
            source,
            formats,
            release,
        ),
    }
}

/// Why the tree of a format cannot be placed, if it cannot. A tree that
/// could not be listed cannot, and a listing that is not in order is no
/// answer. A tree that is missing was not produced: that is no failure.
pub open spec fn root_failure(snapshot: SnapshotView) -> Option<ErrorView> {
    match snapshot {
        SnapshotView::Unreadable(reason) => Some(ErrorView::FilesystemError { detail: reason }),
        SnapshotView::Missing => None,
        SnapshotView::Entries(entries) => if well_listed(entries) {
            None
        } else {
            Some(ErrorView::UnexpectedEvent)
        },
    }
}

/// The failure of the first tree that cannot be placed.
pub open spec fn first_failure(snapshots: Seq<SnapshotView>) -> Option<ErrorView>
    decreases snapshots.len(),
{
    if snapshots.len() == 0 {
        None
    } else {
        match first_failure(snapshots.drop_last()) {
            Some(error) => Some(error),
            None => root_failure(snapshots.last()),
        }
    }
}

/// The operations that place what a snapshot shows of one tree.
pub open spec fn root_operations(
    platform: HostPlatform,
    root: Seq<char>,
    dest: Seq<char>,
    snapshot: SnapshotView,
) -> Seq<FileOpView> {
    match snapshot {
        SnapshotView::Entries(entries) => tree_operations(platform, root, dest, entries),
        _ => Seq::empty(),
    }
}

/// The operations that place the trees, tree after tree.
pub open spec fn placed(
    platform: HostPlatform,
    roots: Seq<Seq<char>>,
    dest: Seq<char>,
    snapshots: Seq<SnapshotView>,
) -> Seq<FileOpView>
    decreases roots.len(),
{
    if roots.len() == 0 || snapshots.len() != roots.len() {
        Seq::empty()
    } else {
        placed(platform, roots.drop_last(), dest, snapshots.drop_last()) + root_operations(
            platform,
            roots.last(),
            dest,
            snapshots.last(),
        )
    }
}

/// What placing gives: the operations, or why there is no such plan. A
/// snapshot must be there for each tree. Under the flat layout the source
/// directory is copied to the destination. Under the nested layout the
/// destination is made, and what each format's directory holds is placed in
/// it, format after format; a format whose directory is missing is passed
/// over.
pub open spec fn placement(
    platform: HostPlatform,
    layout: OutputLayout,
    source: Seq<char>,
    dest: Seq<char>,
    release: bool,
    formats: Seq<PluginFormat>,
    snapshots: Seq<SnapshotView>,
) -> Result<Seq<FileOpView>, ErrorView> {
    let roots = placement_roots(platform, layout, source, formats, release);
    if snapshots.len() != roots.len() {
        Err(ErrorView::UnexpectedEvent)
    } else {
        match layout {
            OutputLayout::Flat => copy_plan(platform, source, dest, snapshots[0]),
            OutputLayout::NestedByFormatAndProfile => match first_failure(snapshots) {
                Some(error) => Err(error),
                None => Ok(
                    seq![FileOpView::CreateDirectory(dest)] + placed(
                        platform,
                        roots,
                        dest,
                        snapshots,
                    ),
                ),
            },
        }
    }
}

/// A failure decides `first_failure` for every longer sequence of trees.
pub proof fn lemma_failure_stays(snapshots: Seq<SnapshotView>, n: int)
    requires
        0 <= n <= snapshots.len(),
        first_failure(snapshots.take(n)) is Some,
    ensures
        first_failure(snapshots) == first_failure(snapshots.take(n)),
    decreases snapshots.len() - n,
{
    if n < snapshots.len() {
        assert(snapshots.take(n + 1).drop_last() =~= snapshots.take(n));
        lemma_failure_stays(snapshots, n + 1);
    } else {
        assert(snapshots.take(n) =~= snapshots);
    }
}

/// Tests whether `parent` is the path of the directory that holds the entry
/// at `child`.
fn is_parent_path(parent: &Vec<String>, child: &Vec<String>) -> (holds: bool)
    requires
        child.len() > 0,
    ensures
        holds == (strings(parent@) == strings(child@).drop_last()),
{
    assert(strings(child@).drop_last().len() == child.len() - 1);
    assert(strings(parent@).len() == parent.len());
    if parent.len() != child.len() - 1 {
        return false;
    }
    let mut i: usize = 0;
    while i < parent.len()
        invariant
            i <= parent.len(),
            parent.len() == child.len() - 1,
            forall|k: int| 0 <= k < i ==> strings(parent@)[k] == strings(child@)[k],
        decreases parent.len() - i,
    {
        if parent[i] != child[i] {
            assert(strings(child@).drop_last()[i as int] == strings(child@)[i as int]);
            return false;
        }
        i = i + 1;
    }
    assert(strings(parent@) =~= strings(child@).drop_last());
    true
}

/// Tests whether the `k`-th entry of a listing is in order.
fn entry_is_in_order(entries: &Vec<TreeEntry>, k: usize) -> (in_order: bool)
    requires
        k < entries.len(),
    ensures
        in_order == is_in_order(tree_views(entries@), k as int),
{
    let ghost views = tree_views(entries@);
    let path = &entries[k].path;
    assert(views[k as int].path == strings(path@));
    if path.len() == 0 {
        return false;
    }
    assert(strings(path@).last() == path@[path.len() - 1]@);
    if path[path.len() - 1].as_str().is_empty() {
        return false;
    }
    if path.len() == 1 {
        return true;
    }
    let mut j: usize = 0;
    while j < k
        invariant
            j <= k < entries.len(),
            views == tree_views(entries@),
            path == &entries[k as int].path,
            views[k as int].path == strings(path@),
            path.len() > 1,
            strings(path@).last().len() > 0,
            forall|i: int| 0 <= i < j ==> !is_directory_at(views, i, strings(path@).drop_last()),
        decreases k - j,
    {
        let holds = is_parent_path(&entries[j].path, path);
        assert(views[j as int].path == strings(entries@[j as int].path@));
        if entries[j].is_dir && holds {
            assert(is_directory_at(views, j as int, strings(path@).drop_last()));
            return true;
        }
        j = j + 1;
    }
    false
}

/// Tests whether a listing is in order.
pub fn is_well_listed(entries: &Vec<TreeEntry>) -> (in_order: bool)
    ensures
        in_order == well_listed(tree_views(entries@)),
{
    let mut k: usize = 0;
    while k < entries.len()
        invariant
            k <= entries.len(),
            forall|i: int| 0 <= i < k ==> #[trigger] is_in_order(tree_views(entries@), i),
        decreases entries.len() - k,
    {
        if !entry_is_in_order(entries, k) {
            return false;
        }
        k = k + 1;
    }
    true
}

/// Appends to `operations` those that place the entries of a tree.
pub fn plan_tree(
    platform: HostPlatform,
    source: &str,
    dest: &str,
    entries: &Vec<TreeEntry>,
    operations: &mut Vec<FileOp>,
)
    ensures
        operation_views(final(operations)@) == operation_views(old(operations)@) + tree_operations(
            platform,
            source@,
            dest@,
            tree_views(entries@),
        ),
{
    let ghost views = tree_views(entries@);
    let ghost start = operation_views(operations@);
    let mut i: usize = 0;
    assert(operation_views(operations@) =~= start + tree_operations(
        platform,
        source@,
        dest@,
        views,
    ).take(0));
    while i < entries.len()
        invariant
            i <= entries.len(),
            views == tree_views(entries@),
            operation_views(operations@) == start + tree_operations(
                platform,
                source@,
                dest@,
                views,
            ).take(i as int),
        decreases entries.len() - i,
    {
        let entry = &entries[i];
        let to = join_all(platform, dest, &entry.path);
        let op = if entry.is_dir {
            FileOp::CreateDirectory(to)
        } else {
            FileOp::CopyFile { from: join_all(platform, source, &entry.path), to }
        };
        assert(op@ == entry_operation(platform, source@, dest@, views[i as int]));
        let ghost before = operations@;
        operations.push(op);
        assert(operation_views(operations@) =~= operation_views(before).push(op@));
        assert(operation_views(operations@) =~= start + tree_operations(
            platform,
            source@,
            dest@,
            views,
        ).take(i + 1));
        i = i + 1;
    }
    assert(tree_operations(platform, source@, dest@, views).take(entries.len() as int)
        =~= tree_operations(platform, source@, dest@, views));
}

/// Plans the copy of a tree to a destination, given what was found where
/// the tree should be.
pub fn copy_dir_recursive(
    platform: HostPlatform,
    source: &str,
    dest: &str,
    snapshot: &TreeSnapshot,
) -> (plan: Result<Vec<FileOp>, PipelineError>)
    ensures
        match copy_plan(platform, source@, dest@, snapshot@) {
            Ok(operations) => plan matches Ok(ops) && operation_views(ops@) == operations,
            Err(error) => plan matches Err(e) && e@ == error,
        },
{
    match snapshot {
        TreeSnapshot::Missing => Err(
            PipelineError::FilesystemError { detail: appended("Directory not found: ", source) },
        ),
        TreeSnapshot::Unreadable(reason) => Err(
            PipelineError::FilesystemError { detail: reason.clone() },
        ),
        TreeSnapshot::Entries(entries) => {
            if !is_well_listed(entries) {
                return Err(PipelineError::UnexpectedEvent);
            }
            let mut operations: Vec<FileOp> = Vec::new();
            let first = FileOp::CreateDirectory(dest.to_owned());
            operations.push(first);
            assert(operation_views(operations@) =~= seq![FileOpView::CreateDirectory(dest@)]);
            plan_tree(platform, source, dest, entries, &mut operations);
            Ok(operations)
        },
    }
}

/// The trees whose contents are placed.
pub fn roots_to_place(
    platform: HostPlatform,
    layout: OutputLayout,
    source: &str,
    formats: &Vec<PluginFormat>,
    release: bool,
) -> (roots: Vec<String>)
    ensures
        strings(roots@) == placement_roots(platform, layout, source@, formats@, release),
{
    let mut roots: Vec<String> = Vec::new();
    assert(strings(roots@) =~= Seq::<Seq<char>>::empty());
    match layout {
        OutputLayout::Flat => {
            push_string(&mut roots, source.to_owned());
            assert(strings(roots@) =~= seq![source@]);
        },
        OutputLayout::NestedByFormatAndProfile => {
            let ghost all = format_directories(platform, source@, formats@, release);
            let mut i: usize = 0;
            assert(strings(roots@) =~= all.take(0));
            while i < formats.len()
                invariant
                    i <= formats.len(),
                    all == format_directories(platform, source@, formats@, release),
                    strings(roots@) == all.take(i as int),
                decreases formats.len() - i,
            {
                let under = join(platform, source, formats[i].name());
                push_string(&mut roots, join(platform, under.as_str(), profile_dir(release)));
                assert(strings(roots@) =~= all.take(i + 1));
                i = i + 1;
            }
            assert(all.take(formats.len() as int) =~= all);
        },
    }
    roots
}

/// Plans how the packaging system's output is placed in the destination,
/// given a snapshot of each tree that `roots_to_place` names.
pub fn copy_plugin_files(
    platform: HostPlatform,
    layout: OutputLayout,
    source: &str,
    dest: &str,
    release: bool,
    formats: &Vec<PluginFormat>,
    snapshots: &Vec<TreeSnapshot>,
) -> (plan: Result<Vec<FileOp>, PipelineError>)
    ensures
        match placement(
            platform,
            layout,
            source@,
            dest@,
            release,
            formats@,
            snapshot_views(snapshots@),
        ) {
            Ok(operations) => plan matches Ok(ops) && operation_views(ops@) == operations,
            Err(error) => plan matches Err(e) && e@ == error,
        },
{
    let roots = roots_to_place(platform, layout, source, formats, release);
    if snapshots.len() != roots.len() {
        return Err(PipelineError::UnexpectedEvent);
    }
    match layout {
        OutputLayout::Flat => {
            assert(snapshot_views(snapshots@)[0] == snapshots@[0]@);
            copy_dir_recursive(platform, source, dest, &snapshots[0])
        },
        OutputLayout::NestedByFormatAndProfile => {
            let ghost rv = strings(roots@);
            let ghost sv = snapshot_views(snapshots@);
            let mut operations: Vec<FileOp> = Vec::new();
            operations.push(FileOp::CreateDirectory(dest.to_owned()));
            let ghost first = seq![FileOpView::CreateDirectory(dest@)];
            assert(operation_views(operations@) =~= first + placed(
                platform,
                rv.take(0),
                dest@,
                sv.take(0),
            ));
            let mut i: usize = 0;
            while i < roots.len()
                invariant
                    i <= roots.len(),
                    roots.len() == snapshots.len(),
                    layout == OutputLayout::NestedByFormatAndProfile,
                    rv == strings(roots@),
                    rv == placement_roots(platform, layout, source@, formats@, release),
                    sv == snapshot_views(snapshots@),
                    first == seq![FileOpView::CreateDirectory(dest@)],
                    first_failure(sv.take(i as int)) is None,
                    operation_views(operations@) == first + placed(
                        platform,
                        rv.take(i as int),
                        dest@,
                        sv.take(i as int),
                    ),
                decreases roots.len() - i,
            {
                proof {
                    assert(rv.take(i + 1).drop_last() =~= rv.take(i as int));
                    assert(sv.take(i + 1).drop_last() =~= sv.take(i as int));
                    assert(sv.take(i + 1).last() == snapshots@[i as int]@);
                    assert(rv.take(i + 1).last() == roots@[i as int]@);
                }
                let ghost before = operation_views(operations@);
                match &snapshots[i] {
                    TreeSnapshot::Unreadable(reason) => {
                        proof {
                            lemma_failure_stays(sv, i + 1);
                        }
                        return Err(PipelineError::FilesystemError { detail: reason.clone() });
                    },
                    TreeSnapshot::Missing => {
                        assert(before + Seq::<FileOpView>::empty() =~= before);
                    },
                    TreeSnapshot::Entries(entries) => {
                        if !is_well_listed(entries) {
                            proof {
                                lemma_failure_stays(sv, i + 1);
                            }
                            return Err(PipelineError::UnexpectedEvent);
                        }
                        plan_tree(platform, roots[i].as_str(), dest, entries, &mut operations);
                        assert(operation_views(operations@) =~= first + placed(
                            platform,
                            rv.take(i + 1),
                            dest@,
                            sv.take(i + 1),
                        ));
                    },
                }
                i = i + 1;
            }
            assert(rv.take(roots.len() as int) =~= rv);
            assert(sv.take(roots.len() as int) =~= sv);
            Ok(operations)
        },
    }
}

/// The path that an operation writes at.
pub open spec fn written_path(operation: FileOpView) -> Seq<char> {
    match operation {
        FileOpView::CreateDirectory(path) => path,
        FileOpView::CopyFile { from: _, to } => to,
    }
}

/// Placing a tree writes below the destination only, and only where the
/// tree has an entry: what else stands in the destination is left alone.
pub proof fn lemma_tree_is_placed_below(
    platform: HostPlatform,
    source: Seq<char>,
    dest: Seq<char>,
    entries: Seq<TreeEntryView>,
    k: int,
)
    requires
        0 <= k < entries.len(),
    ensures
        written_path(tree_operations(platform, source, dest, entries)[k]) == joined_all(
            platform,
            dest,
            entries[k].path,
        ),
        dest.is_prefix_of(written_path(tree_operations(platform, source, dest, entries)[k])),
{
    lemma_joined_all_keeps_base(platform, dest, entries[k].path);
}

/// Every operation of a placement writes below the destination, or makes
/// the destination itself.
pub proof fn lemma_placed_below(
    platform: HostPlatform,
    roots: Seq<Seq<char>>,
    dest: Seq<char>,
    snapshots: Seq<SnapshotView>,
    k: int,
)
    requires
        0 <= k < placed(platform, roots, dest, snapshots).len(),
    ensures
        dest.is_prefix_of(written_path(placed(platform, roots, dest, snapshots)[k])),
    decreases roots.len(),
{
    if roots.len() > 0 && snapshots.len() == roots.len() {
        let before = placed(platform, roots.drop_last(), dest, snapshots.drop_last());
        if k < before.len() {
            lemma_placed_below(platform, roots.drop_last(), dest, snapshots.drop_last(), k);
        } else {
            match snapshots.last() {
                SnapshotView::Entries(entries) => {
                    lemma_tree_is_placed_below(
                        platform,
                        roots.last(),
                        dest,
                        entries,
                        k - before.len(),
                    );
                },
                _ => {},
            }
        }
    }
}

/// Every operation of a placement writes at the destination or below it:
/// what else stands beside the destination is left alone.
pub proof fn lemma_placement_stays_below(
    platform: HostPlatform,
    layout: OutputLayout,
    source: Seq<char>,
    dest: Seq<char>,
    release: bool,
    formats: Seq<PluginFormat>,
    snapshots: Seq<SnapshotView>,
    k: int,
)
    requires
        placement(platform, layout, source, dest, release, formats, snapshots) matches Ok(
            operations,
        ) && 0 <= k < operations.len(),
    ensures
        placement(platform, layout, source, dest, release, formats, snapshots) matches Ok(
            operations,
        ) && dest.is_prefix_of(written_path(operations[k])),
{
    let roots = placement_roots(platform, layout, source, formats, release);
    if k == 0 {
        assert(dest.subrange(0, dest.len() as int) =~= dest);
    } else {
        match layout {
            OutputLayout::Flat => {
                lemma_tree_is_placed_below(platform, source, dest, snapshots[0]->Entries_0, k - 1);
            },
            OutputLayout::NestedByFormatAndProfile => {
                lemma_placed_below(platform, roots, dest, snapshots, k - 1);
            },
        }
    }
}

/// In the copy of a tree whose listing is in order, nothing is placed in a
/// directory that was not made before: an entry that stands directly in the
/// tree is placed in the destination, which the first operation makes, and
/// any other entry is placed in a directory that an earlier operation makes.
pub proof fn lemma_directories_are_made_first(
    platform: HostPlatform,
    source: Seq<char>,
    dest: Seq<char>,
    entries: Seq<TreeEntryView>,
    k: int,
)
    requires
        well_listed(entries),
        0 <= k < entries.len(),
    ensures
        ({
            let plan = recursive_copy(platform, source, dest, entries);
            let path = entries[k].path;
            let holder = joined_all(platform, dest, path.drop_last());
            &&& path.len() > 0
            &&& written_path(plan[k + 1]) == joined(platform, holder, path.last())
            &&& exists|j: int| 0 <= j <= k && plan[j] == FileOpView::CreateDirectory(holder)
        }),
{
    let plan = recursive_copy(platform, source, dest, entries);
    let path = entries[k].path;
    let holder = joined_all(platform, dest, path.drop_last());
    assert(is_in_order(entries, k));
    if path.len() == 1 {
        assert(path.drop_last() =~= Seq::<Seq<char>>::empty());
        assert(plan[0] == FileOpView::CreateDirectory(holder));
    } else {
        let j = choose|j: int| 0 <= j < k && #[trigger] is_directory_at(entries, j, path.drop_last());
        assert(plan[j + 1] == FileOpView::CreateDirectory(holder));
    }
}

} // verus!
