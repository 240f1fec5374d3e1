//! A model of the directory that an archive was unpacked into, and the
//! proof that the steps of `hoist` flatten it.
//!
//! The model knows a directory tree as a map from paths to what lies there.
//! Paths are relative to the unpacked directory, which itself is the empty
//! path and always exists.

use crate::hoist::{
    collides, entry_steps, holds_name, hoist_steps, move_steps, NameView, PathView, StepView,
};
use crate::tree::{flattened, is_wrapped, Entry};
use vstd::prelude::*;

verus! {

/// What lies at a path.
pub enum Node {
    /// A directory.
    Directory,
    /// A regular file with its permission bits.
    File { mode: u32 },
    /// Anything else.
    Other,
}

/// What is on disk: for each path that exists, what lies there.
pub type Disk = Map<PathView, Node>;

/// What an entry is, apart from its name and contents.
pub open spec fn node_of(entry: Entry) -> Node {
    match entry {
        Entry::File { mode, .. } => Node::File { mode },
        Entry::Directory { .. } => Node::Directory,
        Entry::Other { .. } => Node::Other,
    }
}

/// What lies at `path` in a directory that holds `entries`.
pub open spec fn lookup(entries: Seq<Entry>, path: PathView) -> Option<Node>
    decreases entries,
{
    if entries.len() == 0 {
        None
    } else {
        match lookup(entries.drop_last(), path) {
            Some(node) => Some(node),
            None => lookup_in(entries[entries.len() - 1], path),
        }
    }
}

/// What lies at `path` in a directory that holds only `entry`.
pub open spec fn lookup_in(entry: Entry, path: PathView) -> Option<Node>
    decreases entry,
{
    if path.len() == 0 || path[0] != entry.name_of() {
        None
    } else if path.len() == 1 {
        Some(node_of(entry))
    } else {
        match entry {
            Entry::Directory { entries, .. } => lookup(entries@, path.skip(1)),
            _ => None,
        }
    }
}

/// The disk that holds exactly `entries`.
pub open spec fn disk_of(entries: Seq<Entry>) -> Disk {
    Map::new(
        |path: PathView| lookup(entries, path) is Some,
        |path: PathView| lookup(entries, path)->0,
    )
}

/// In a well-formed tree no directory holds two entries of one name.
pub open spec fn well_formed(entries: Seq<Entry>) -> bool
    decreases entries,
{
    entries.len() == 0 || {
        &&& well_formed(entries.drop_last())
        &&& !holds_name(entries.drop_last(), entries[entries.len() - 1].name_of())
        &&& well_formed_in(entries[entries.len() - 1])
    }
}

/// An entry is well-formed where what it holds is.
pub open spec fn well_formed_in(entry: Entry) -> bool
    decreases entry,
{
    match entry {
        Entry::Directory { entries, .. } => well_formed(entries@),
        _ => true,
    }
}

/// Whether `path` is the root or names a directory on `disk`.
pub open spec fn is_dir(disk: Disk, path: PathView) -> bool {
    path.len() == 0 || (disk.contains_key(path) && disk[path] is Directory)
}

/// The disk after `step`, or `None` where the step fails.
///
/// A directory is made where the directory around it exists and no file is
/// in the way. Renaming moves what is no directory, into a directory that
/// exists, onto nothing or onto what is no directory either. Removing a
/// directory removes all that is below it. What a step does outside these
/// cases is not modelled and counts as failure.
pub open spec fn apply(disk: Disk, step: StepView) -> Option<Disk> {
    match step {
        StepView::CreateDir { path } => if path.len() == 0 {
            Some(disk)
        } else if is_dir(disk, path.drop_last()) && (!disk.contains_key(path) || disk[path]
            is Directory) {
            Some(disk.insert(path, Node::Directory))
        } else {
            None
        },
        StepView::Rename { from, to } => if disk.contains_key(from) && !(disk[from] is Directory)
            && to.len() > 0 && is_dir(disk, to.drop_last()) && (!disk.contains_key(to) || !(disk[to]
            is Directory)) {
            Some(disk.remove(from).insert(to, disk[from]))
        } else {
            None
        },
        StepView::RemoveDir { path } => if path.len() > 0 && is_dir(disk, path) {
            Some(Map::new(
                |other: PathView| disk.contains_key(other) && !path.is_prefix_of(other),
                |other: PathView| disk[other],
            ))
        } else {
            None
        },
    }
}

/// The disk after `steps`, one after the other, or `None` where one fails.
pub open spec fn run(disk: Disk, steps: Seq<StepView>) -> Option<Disk>
    decreases steps.len(),
{
    if steps.len() == 0 {
        Some(disk)
    } else {
        match run(disk, steps.drop_last()) {
            Some(before) => apply(before, steps.last()),
            None => None,
        }
    }
}

/// Two paths are apart where they differ in a component that both have:
/// neither lies below the other.
pub open spec fn apart(a: PathView, b: PathView) -> bool {
    exists|i: int| 0 <= i < a.len() && i < b.len() && a[i] != b[i]
}

/// What lies at `path` where the directory `base` holds `entries`, as far
/// as `path` lies below `base`.
pub open spec fn under(base: PathView, entries: Seq<Entry>, path: PathView) -> Option<Node> {
    if base.is_prefix_of(path) {
        lookup(entries, path.skip(base.len() as int))
    } else {
        None
    }
}

/// Running two plans one after the other is running their concatenation.
pub proof fn lemma_run_concat(disk: Disk, first: Seq<StepView>, second: Seq<StepView>)
    ensures
        run(disk, first + second) == match run(disk, first) {
            Some(between) => run(between, second),
            None => None,
        },
    decreases second.len(),
{
    if second.len() > 0 {
        assert((first + second).drop_last() =~= first + second.drop_last());
        lemma_run_concat(disk, first, second.drop_last());
    }
}

/// Running one step is applying it.
pub proof fn lemma_run_one(disk: Disk, step: StepView)
    ensures
        run(disk, seq![step]) == apply(disk, step),
{
    assert(run(disk, seq![step].drop_last()) == Some(disk));
}

/// Paths that are apart stay apart however they are continued; in
/// particular neither is the other, nor a prefix of it.
proof fn lemma_apart(a: PathView, b: PathView)
    requires
        apart(a, b),
    ensures
        !a.is_prefix_of(b),
        !b.is_prefix_of(a),
        forall|name: NameView| apart(#[trigger] a.push(name), b),
        forall|name: NameView| apart(a, #[trigger] b.push(name)),
{
    let i = choose|i: int| 0 <= i < a.len() && i < b.len() && a[i] != b[i];
    assert forall|name: NameView| apart(#[trigger] a.push(name), b) by {
        assert(a.push(name)[i] == a[i]);
    }
    assert forall|name: NameView| apart(a, #[trigger] b.push(name)) by {
        assert(b.push(name)[i] == b[i]);
    }
}

/// A path that lies below one of two paths that are apart is apart from
/// the other.
proof fn lemma_apart_below(a: PathView, b: PathView, path: PathView)
    requires
        apart(a, b),
        b.is_prefix_of(path),
    ensures
        apart(a, path),
{
    let i = choose|i: int| 0 <= i < a.len() && i < b.len() && a[i] != b[i];
    assert(path[i] == b[i]);
}

/// Only a path that begins with the name of an entry leads anywhere.
pub proof fn lemma_lookup_names(entries: Seq<Entry>, path: PathView)
    requires
        lookup(entries, path) is Some,
    ensures
        path.len() > 0,
        holds_name(entries, path[0]),
    decreases entries.len(),
{
    let front = entries.drop_last();
    let last = entries[entries.len() - 1];
    if lookup(front, path) is Some {
        lemma_lookup_names(front, path);
        let i = choose|i: int| 0 <= i < front.len() && (#[trigger] front[i]).name_of() == path[0];
        assert(entries[i].name_of() == path[0]);
    } else {
        assert(lookup_in(last, path) is Some);
    }
}

/// A path lies below `base` continued by `name` where it lies below `base`
/// and goes on with `name`.
proof fn lemma_prefix_push(base: PathView, name: NameView, path: PathView)
    ensures
        base.push(name).is_prefix_of(path) <==> base.is_prefix_of(path) && path.len() > base.len()
            && path[base.len() as int] == name,
{
    let inner = base.push(name);
    if inner.is_prefix_of(path) {
        let head = path.subrange(0, inner.len() as int);
        assert(head[base.len() as int] == path[base.len() as int]);
        assert forall|i: int| 0 <= i < base.len() implies base[i] == path[i] by {
            assert(inner[i] == head[i]);
        }
    }
    if base.is_prefix_of(path) && path.len() > base.len() && path[base.len() as int] == name {
        let head = path.subrange(0, base.len() as int);
        assert forall|i: int| 0 <= i < inner.len() implies inner[i] == path[i] by {
            if i < base.len() {
                assert(base[i] == head[i]);
            }
        }
    }
}

/// How the last entry of a directory adds to what the directory holds: a
/// path leads to what it led to without that entry, or to the entry itself,
/// or into what the entry holds.
proof fn lemma_under_last(base: PathView, entries: Seq<Entry>, path: PathView)
    requires
        entries.len() > 0,
        well_formed(entries),
    ensures
        ({
            let front = entries.drop_last();
            let last = entries[entries.len() - 1];
            let inner = base.push(last.name_of());
            &&& under(base, front, path) is Some ==> !inner.is_prefix_of(path) && under(
                base,
                entries,
                path,
            ) == under(base, front, path)
            &&& under(base, front, path) is None ==> under(base, entries, path) == if
                !inner.is_prefix_of(path) {
                None
            } else if path.len() == inner.len() {
                Some(node_of(last))
            } else {
                under(inner, last.children(), path)
            }
        }),
{
    let front = entries.drop_last();
    let last = entries[entries.len() - 1];
    let name = last.name_of();
    let inner = base.push(name);
    lemma_prefix_push(base, name, path);
    if base.is_prefix_of(path) {
        let rest = path.skip(base.len() as int);
        if lookup(front, rest) is Some {
            lemma_lookup_names(front, rest);
        } else {
            assert(lookup(entries, rest) == lookup_in(last, rest));
            if inner.is_prefix_of(path) {
                if path.len() > inner.len() {
                    assert(rest.skip(1) =~= path.skip(inner.len() as int));
                    assert(under(inner, last.children(), path) == lookup(
                        last.children(),
                        rest.skip(1),
                    ));
                }
            } else if rest.len() > 0 {
                assert(rest[0] == path[base.len() as int]);
            }
        }
    }
}

/// The disk after `entries` have moved from the directory `src` into the
/// directory `dst`: what `entries` put below `dst` is there, what they put
/// below `src` is gone, everything else is as it was.
pub open spec fn moved(disk: Disk, src: PathView, dst: PathView, entries: Seq<Entry>) -> Disk {
    Map::new(
        |path: PathView|
            under(dst, entries, path) is Some || (disk.contains_key(path) && under(
                src,
                entries,
                path,
            ) is None),
        |path: PathView|
            if under(dst, entries, path) is Some {
                under(dst, entries, path)->0
            } else {
                disk[path]
            },
    )
}

/// What moving `entries` from `src` into `dst` asks of the disk: `dst`
/// exists and does not lie below `src`, nor would any entry once moved;
/// `src` holds `entries`, and nothing else under their names; and where the
/// entries are to go there is nothing yet.
pub open spec fn ready(disk: Disk, src: PathView, dst: PathView, entries: Seq<Entry>) -> bool {
    &&& well_formed(entries)
    &&& is_dir(disk, dst)
    &&& !src.is_prefix_of(dst)
    &&& forall|i: int|
        0 <= i < entries.len() ==> apart(src, #[trigger] dst.push(entries[i].name_of()))
    &&& forall|path: PathView|
        #![trigger under(src, entries, path)]
        under(src, entries, path) is Some ==> disk.contains_key(path) && disk[path] == under(
            src,
            entries,
            path,
        )->0
    &&& forall|path: PathView|
        #![trigger under(dst, entries, path)]
        under(dst, entries, path) is Some ==> !disk.contains_key(path)
    &&& forall|path: PathView|
        #![trigger disk.contains_key(path)]
        disk.contains_key(path) && src.is_prefix_of(path) && path.len() > src.len() && holds_name(
            entries,
            path[src.len() as int],
        ) ==> under(src, entries, path) is Some
}

/// A path equals its prefix of the same length.
proof fn lemma_prefix_whole(base: PathView, path: PathView)
    ensures
        base.is_prefix_of(path) && path.len() == base.len() <==> path == base,
{
    assert(path.subrange(0, path.len() as int) =~= path);
}

/// Where the entries are to go is apart from where they come from.
proof fn lemma_targets_apart(src: PathView, dst: PathView, entries: Seq<Entry>, path: PathView)
    requires
        forall|i: int|
            0 <= i < entries.len() ==> apart(src, #[trigger] dst.push(entries[i].name_of())),
        under(dst, entries, path) is Some,
    ensures
        apart(src, path),
        !src.is_prefix_of(path),
{
    let rest = path.skip(dst.len() as int);
    lemma_lookup_names(entries, rest);
    let i = choose|i: int| 0 <= i < entries.len() && (#[trigger] entries[i]).name_of() == rest[0];
    let first = dst.push(entries[i].name_of());
    lemma_prefix_push(dst, entries[i].name_of(), path);
    lemma_apart_below(src, first, path);
    lemma_apart(src, path);
}

/// What is ready for all entries is ready for all but the last.
proof fn lemma_ready_front(disk: Disk, src: PathView, dst: PathView, entries: Seq<Entry>)
    requires
        ready(disk, src, dst, entries),
        entries.len() > 0,
    ensures
        ready(disk, src, dst, entries.drop_last()),
{
    let front = entries.drop_last();
    assert forall|i: int| 0 <= i < front.len() implies apart(
        src,
        #[trigger] dst.push(front[i].name_of()),
    ) by {
        assert(front[i] == entries[i]);
    }
    assert forall|path: PathView| #![trigger under(src, front, path)]
        under(src, front, path) is Some implies disk.contains_key(path) && disk[path] == under(
        src,
        front,
        path,
    )->0 by {
        lemma_under_last(src, entries, path);
    }
    assert forall|path: PathView| #![trigger under(dst, front, path)]
        under(dst, front, path) is Some implies !disk.contains_key(path) by {
        lemma_under_last(dst, entries, path);
    }
    assert forall|path: PathView| #![trigger disk.contains_key(path)]
        disk.contains_key(path) && src.is_prefix_of(path) && path.len() > src.len() && holds_name(
            front,
            path[src.len() as int],
        ) implies under(src, front, path) is Some by {
        let name = path[src.len() as int];
        let i = choose|i: int| 0 <= i < front.len() && (#[trigger] front[i]).name_of() == name;
        assert(entries[i].name_of() == name);
        lemma_under_last(src, entries, path);
        lemma_prefix_push(src, entries[entries.len() - 1].name_of(), path);
    }
}

/// Once all entries but the last have moved, the last is still in its
/// place, its destination is still free, and the directory that receives it
/// still stands.
proof fn lemma_before_last(disk: Disk, src: PathView, dst: PathView, entries: Seq<Entry>)
    requires
        ready(disk, src, dst, entries),
        entries.len() > 0,
    ensures
        ({
            let last = entries[entries.len() - 1];
            let from = src.push(last.name_of());
            let to = dst.push(last.name_of());
            let before = moved(disk, src, dst, entries.drop_last());
            &&& apart(src, to)
            &&& apart(from, to)
            &&& before.contains_key(from)
            &&& before[from] == node_of(last)
            &&& disk.contains_key(from)
            &&& disk[from] == node_of(last)
            &&& is_dir(before, dst)
            &&& !before.contains_key(to)
            &&& !disk.contains_key(to)
        }),
{
    let front = entries.drop_last();
    let last = entries[entries.len() - 1];
    let name = last.name_of();
    let from = src.push(name);
    let to = dst.push(name);
    let before = moved(disk, src, dst, front);
    lemma_ready_front(disk, src, dst, entries);
    lemma_apart(src, to);
    lemma_prefix_whole(from, from);
    lemma_prefix_whole(to, to);
    lemma_under_last(src, entries, from);
    lemma_under_last(dst, entries, to);
    lemma_prefix_push(src, name, from);
    if under(dst, front, from) is Some {
        lemma_targets_apart(src, dst, front, from);
    }
    if under(dst, front, dst) is Some {
        lemma_lookup_names(front, dst.skip(dst.len() as int));
    }
    if under(src, front, to) is Some {
        lemma_apart(src, to);
    }
}

/// Renaming the last entry, which is no directory, completes the move.
proof fn lemma_move_leaf(disk: Disk, src: PathView, dst: PathView, entries: Seq<Entry>)
    requires
        ready(disk, src, dst, entries),
        entries.len() > 0,
        !(entries[entries.len() - 1] is Directory),
    ensures
        ({
            let last = entries[entries.len() - 1];
            let from = src.push(last.name_of());
            let to = dst.push(last.name_of());
            let before = moved(disk, src, dst, entries.drop_last());
            apply(before, StepView::Rename { from, to }) == Some(moved(disk, src, dst, entries))
        }),
{
    let front = entries.drop_last();
    let last = entries[entries.len() - 1];
    let name = last.name_of();
    let from = src.push(name);
    let to = dst.push(name);
    let before = moved(disk, src, dst, front);
    let after = before.remove(from).insert(to, before[from]);
    lemma_ready_front(disk, src, dst, entries);
    lemma_before_last(disk, src, dst, entries);
    let goal = moved(disk, src, dst, entries);
    assert forall|path: PathView|
        #![trigger after.dom().contains(path)]
        #![trigger goal.dom().contains(path)]
        after.dom().contains(path) == goal.dom().contains(path) && (after.dom().contains(path)
            ==> after[path] == goal[path]) by {
        lemma_under_last(src, entries, path);
        lemma_under_last(dst, entries, path);
        lemma_prefix_whole(from, path);
        lemma_prefix_whole(to, path);
        if under(dst, front, path) is Some {
            lemma_targets_apart(src, dst, front, path);
        }
    }
    assert(after =~= goal);
}

/// Once the directory for the last entry is made at the destination, the
/// disk is ready for moving what that entry holds.
proof fn lemma_ready_below(disk: Disk, src: PathView, dst: PathView, entries: Seq<Entry>)
    requires
        ready(disk, src, dst, entries),
        entries.len() > 0,
        entries[entries.len() - 1] is Directory,
    ensures
        ({
            let last = entries[entries.len() - 1];
            let from = src.push(last.name_of());
            let to = dst.push(last.name_of());
            let before = moved(disk, src, dst, entries.drop_last());
            ready(before.insert(to, Node::Directory), from, to, last.children())
        }),
{
    let front = entries.drop_last();
    let last = entries[entries.len() - 1];
    let name = last.name_of();
    let from = src.push(name);
    let to = dst.push(name);
    let below = last.children();
    let before = moved(disk, src, dst, front);
    let made = before.insert(to, Node::Directory);
    lemma_ready_front(disk, src, dst, entries);
    lemma_before_last(disk, src, dst, entries);
    lemma_apart(from, to);
    assert(well_formed(below)) by {
        assert(well_formed_in(last));
    }
    assert forall|path: PathView| #![trigger under(from, below, path)]
        under(from, below, path) is Some implies made.contains_key(path) && made[path] == under(
        from,
        below,
        path,
    )->0 by {
        lemma_lookup_names(below, path.skip(from.len() as int));
        lemma_under_last(src, entries, path);
        lemma_prefix_push(src, name, path);
        if under(dst, front, path) is Some {
            lemma_targets_apart(src, dst, front, path);
        }
    }
    assert forall|path: PathView| #![trigger under(to, below, path)]
        under(to, below, path) is Some implies !made.contains_key(path) by {
        lemma_lookup_names(below, path.skip(to.len() as int));
        lemma_under_last(dst, entries, path);
    }
    assert forall|path: PathView| #![trigger made.contains_key(path)]
        made.contains_key(path) && from.is_prefix_of(path) && path.len() > from.len()
            && holds_name(below, path[from.len() as int]) implies under(from, below, path)
        is Some by {
        lemma_under_last(src, entries, path);
        lemma_prefix_push(src, name, path);
        if under(dst, front, path) is Some {
            lemma_targets_apart(src, dst, front, path);
        }
    }
}

/// Removing the emptied directory of the last entry completes the move.
proof fn lemma_move_directory(disk: Disk, src: PathView, dst: PathView, entries: Seq<Entry>)
    requires
        ready(disk, src, dst, entries),
        entries.len() > 0,
        entries[entries.len() - 1] is Directory,
    ensures
        ({
            let last = entries[entries.len() - 1];
            let from = src.push(last.name_of());
            let to = dst.push(last.name_of());
            let before = moved(disk, src, dst, entries.drop_last());
            let made = before.insert(to, Node::Directory);
            let filled = moved(made, from, to, last.children());
            &&& apply(before, StepView::CreateDir { path: to }) == Some(made)
            &&& apply(filled, StepView::RemoveDir { path: from }) == Some(
                moved(disk, src, dst, entries),
            )
        }),
{
    let front = entries.drop_last();
    let last = entries[entries.len() - 1];
    let name = last.name_of();
    let from = src.push(name);
    let to = dst.push(name);
    let below = last.children();
    let before = moved(disk, src, dst, front);
    let made = before.insert(to, Node::Directory);
    let filled = moved(made, from, to, below);
    let goal = moved(disk, src, dst, entries);
    lemma_ready_front(disk, src, dst, entries);
    lemma_before_last(disk, src, dst, entries);
    lemma_apart(from, to);
    if under(from, below, from) is Some {
        lemma_lookup_names(below, from.skip(from.len() as int));
    }
    let after = Map::new(
        |other: PathView| filled.contains_key(other) && !from.is_prefix_of(other),
        |other: PathView| filled[other],
    );
    assert forall|path: PathView|
        #![trigger after.dom().contains(path)]
        #![trigger goal.dom().contains(path)]
        after.dom().contains(path) == goal.dom().contains(path) && (after.dom().contains(path)
            ==> after[path] == goal[path]) by {
        lemma_under_last(src, entries, path);
        lemma_under_last(dst, entries, path);
        lemma_prefix_whole(from, path);
        lemma_prefix_whole(to, path);
        lemma_prefix_push(src, name, path);
        if under(dst, entries, path) is Some {
            lemma_targets_apart(src, dst, entries, path);
        }
        if under(dst, front, path) is Some {
            lemma_targets_apart(src, dst, front, path);
        }
        if under(to, below, path) is Some {
            lemma_lookup_names(below, path.skip(to.len() as int));
        }
        if from.is_prefix_of(path) && path.len() > from.len() {
            assert(entries[entries.len() - 1].name_of() == path[src.len() as int]);
        }
    }
    assert(after =~= goal);
}

/// On a disk that is ready for it, the steps that move `entries` from
/// `src` into `dst` all succeed and leave the entries moved.
pub proof fn lemma_move(disk: Disk, src: PathView, dst: PathView, entries: Seq<Entry>)
    requires
        ready(disk, src, dst, entries),
    ensures
        run(disk, move_steps(src, dst, entries)) == Some(moved(disk, src, dst, entries)),
    decreases entries,
{
    if entries.len() == 0 {
        assert(moved(disk, src, dst, entries) =~= disk);
    } else {
        let front = entries.drop_last();
        let last = entries[entries.len() - 1];
        let from = src.push(last.name_of());
        let to = dst.push(last.name_of());
        let before = moved(disk, src, dst, front);
        lemma_ready_front(disk, src, dst, entries);
        lemma_move(disk, src, dst, front);
        lemma_run_concat(disk, move_steps(src, dst, front), entry_steps(src, dst, last));
        match last {
            Entry::Directory { name, entries: inner } => {
                let made = before.insert(to, Node::Directory);
                let filled = moved(made, from, to, inner@);
                let create = seq![StepView::CreateDir { path: to }];
                let fill = move_steps(from, to, inner@);
                let remove = seq![StepView::RemoveDir { path: from }];
                lemma_ready_below(disk, src, dst, entries);
                lemma_move(made, from, to, inner@);
                lemma_move_directory(disk, src, dst, entries);
                lemma_run_one(before, StepView::CreateDir { path: to });
                lemma_run_concat(before, create, fill);
                lemma_run_one(filled, StepView::RemoveDir { path: from });
                lemma_run_concat(before, create + fill, remove);
            },
            _ => {
                lemma_move_leaf(disk, src, dst, entries);
                lemma_run_one(before, StepView::Rename { from, to });
            },
        }
    }
}

/// Carried out on a disk that holds exactly `entries`, the steps that
/// flatten `entries` all succeed and leave a disk that holds exactly the
/// flattened tree, provided no directory of the tree holds a name twice and
/// the wrapper does not collide with what it holds.
pub proof fn lemma_hoist_flattens(entries: Seq<Entry>)
    requires
        well_formed(entries),
        !collides(entries),
    ensures
        run(disk_of(entries), hoist_steps(entries)) == Some(disk_of(flattened(entries))),
{
    if is_wrapped(entries) {
        let wrapper = entries[0];
        let name = wrapper.name_of();
        let below = wrapper.children();
        let disk = disk_of(entries);
        let src = seq![name];
        let dst = Seq::<NameView>::empty();
        let goal = disk_of(below);
        assert(well_formed_in(wrapper));
        assert forall|path: PathView| #[trigger]
            lookup(entries, path) == if path == src {
                Some(Node::Directory)
            } else {
                under(src, below, path)
            } by {
            lemma_under_last(dst, entries, path);
            lemma_prefix_whole(src, path);
            assert(path.skip(0) =~= path);
        }
        assert forall|i: int| 0 <= i < below.len() implies apart(
            src,
            #[trigger] dst.push(below[i].name_of()),
        ) by {
            assert(dst.push(below[i].name_of())[0] != src[0]);
        }
        assert forall|path: PathView| #![trigger under(dst, below, path)]
            under(dst, below, path) is Some implies !disk.contains_key(path) by {
            lemma_lookup_names(below, path.skip(0));
            lemma_prefix_push(dst, name, path);
        }
        assert(ready(disk, src, dst, below)) by {
            assert forall|path: PathView| #![trigger under(src, below, path)]
                under(src, below, path) is Some implies disk.contains_key(path) && disk[path]
                == under(src, below, path)->0 by {
                lemma_lookup_names(below, path.skip(src.len() as int));
            }
        }
        lemma_move(disk, src, dst, below);
        let emptied = moved(disk, src, dst, below);
        let create = seq![StepView::CreateDir { path: dst }];
        let fill = move_steps(src, dst, below);
        let remove = seq![StepView::RemoveDir { path: src }];
        lemma_run_one(disk, StepView::CreateDir { path: dst });
        lemma_run_concat(disk, create, fill);
        lemma_run_one(emptied, StepView::RemoveDir { path: src });
        lemma_run_concat(disk, create + fill, remove);
        assert(under(dst, below, src) is None) by {
            if under(dst, below, src) is Some {
                lemma_lookup_names(below, src);
            }
        }
        assert(emptied.contains_key(src) && emptied[src] is Directory) by {
            if under(src, below, src) is Some {
                lemma_lookup_names(below, src.skip(src.len() as int));
            }
        }
        let after = Map::new(
            |other: PathView| emptied.contains_key(other) && !src.is_prefix_of(other),
            |other: PathView| emptied[other],
        );
        assert forall|path: PathView|
            #![trigger after.dom().contains(path)]
            #![trigger goal.dom().contains(path)]
            after.dom().contains(path) == goal.dom().contains(path) && (after.dom().contains(path)
                ==> after[path] == goal[path]) by {
            assert(path.skip(0) =~= path);
            lemma_prefix_whole(src, path);
            if lookup(below, path) is Some {
                lemma_targets_apart(src, dst, below, path);
            }
        }
        assert(after =~= goal);
    }
}

/// Flattening on disk a second time does nothing, provided the first time
/// left no wrapper: no step is planned for the flattened tree, so the disk
/// stays as the first flattening left it.
pub proof fn lemma_hoist_again(entries: Seq<Entry>)
    requires
        well_formed(entries),
        !collides(entries),
        !is_wrapped(flattened(entries)),
    ensures
        !collides(flattened(entries)),
        hoist_steps(flattened(entries)) == Seq::<StepView>::empty(),
        run(disk_of(entries), hoist_steps(entries) + hoist_steps(flattened(entries))) == Some(
            disk_of(flattened(entries)),
        ),
{
    lemma_hoist_flattens(entries);
}

} // verus!
