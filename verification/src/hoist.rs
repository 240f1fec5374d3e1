//! The file-system steps that flatten a wrapped tree on disk.
//!
//! Paths in a step are relative to the directory that was unpacked into,
//! one name per component, each name the bytes that the file system has for
//! it; the empty path is that directory itself.

use crate::errors::{ErrorKind, ErrorView};
use crate::tree::{copy_name, is_wrapped, same_name, Entry};
use vstd::prelude::*;

verus! {

/// One operation on the file system.
#[derive(Debug, Clone, PartialEq, Eq)]
pub enum FsStep {
    /// Make the directory at `path`, and its parents, unless they exist.
    CreateDir { path: Vec<Vec<u8>> },
    /// Move what is at `from` to `to`, replacing a file that is there.
    Rename { from: Vec<Vec<u8>>, to: Vec<Vec<u8>> },
    /// Remove the directory at `path` with all that is left in it.
    RemoveDir { path: Vec<Vec<u8>> },
}

/// The name of an entry: the bytes that the file system has for it.
pub type NameView = Seq<u8>;

/// A path as the sequence of its components.
pub type PathView = Seq<NameView>;

/// An `FsStep` with its paths as sequences of components.
pub enum StepView {
    CreateDir { path: PathView },
    Rename { from: PathView, to: PathView },
    RemoveDir { path: PathView },
}

impl DeepView for FsStep {
    type V = StepView;

    open spec fn deep_view(&self) -> StepView {
        match self {
            FsStep::CreateDir { path } => StepView::CreateDir { path: path.deep_view() },
            FsStep::Rename { from, to } => StepView::Rename {
                from: from.deep_view(),
                to: to.deep_view(),
            },
            FsStep::RemoveDir { path } => StepView::RemoveDir { path: path.deep_view() },
        }
    }
}

/// The steps that move `entries` one after the other from the directory
/// `src` into the directory `dst`.
pub open spec fn move_steps(src: PathView, dst: PathView, entries: Seq<Entry>) -> Seq<StepView>
    decreases entries,
{
    if entries.len() == 0 {
        Seq::empty()
    } else {
        move_steps(src, dst, entries.drop_last()) + entry_steps(
            src,
            dst,
            entries[entries.len() - 1],
        )
    }
}

/// The steps that move one entry from the directory `src` into the
/// directory `dst`: a directory is made anew at the destination, filled
/// entry by entry and removed at the source; anything else is renamed.
pub open spec fn entry_steps(src: PathView, dst: PathView, entry: Entry) -> Seq<StepView>
    decreases entry,
{
    match entry {
        Entry::Directory { name, entries } => seq![StepView::CreateDir { path: dst.push(name@) }]
            + move_steps(src.push(name@), dst.push(name@), entries@) + seq![
            StepView::RemoveDir { path: src.push(name@) },
        ],
        _ => seq![
            StepView::Rename { from: src.push(entry.name_of()), to: dst.push(entry.name_of()) },
        ],
    }
}

/// The steps that empty the directory `src` into the directory `dst` and
/// remove it.
pub open spec fn transfer_steps(src: PathView, dst: PathView, entries: Seq<Entry>) -> Seq<
    StepView,
> {
    seq![StepView::CreateDir { path: dst }] + move_steps(src, dst, entries) + seq![
        StepView::RemoveDir { path: src },
    ]
}

/// Whether one of `entries` is called `name`.
pub open spec fn holds_name(entries: Seq<Entry>, name: NameView) -> bool {
    exists|i: int| 0 <= i < entries.len() && (#[trigger] entries[i]).name_of() == name
}

/// A wrapped tree collides where the wrapper holds an entry of its own
/// name: that entry cannot take the wrapper's place while the wrapper
/// stands.
pub open spec fn collides(entries: Seq<Entry>) -> bool {
    is_wrapped(entries) && holds_name(entries[0].children(), entries[0].name_of())
}

/// The steps that flatten the tree `entries` on disk: none where it is not
/// wrapped, else those that empty the wrapper into the directory around it.
pub open spec fn hoist_steps(entries: Seq<Entry>) -> Seq<StepView> {
    if is_wrapped(entries) {
        transfer_steps(seq![entries[0].name_of()], Seq::empty(), entries[0].children())
    } else {
        Seq::empty()
    }
}

/// How a collision is reported.
pub open spec fn collision_text() -> Seq<char> {
    "path collision: the wrapping directory holds an entry of its own name"@
}

/// `dir` with the component `name` behind it.
fn child_path(dir: &Vec<Vec<u8>>, name: &Vec<u8>) -> (path: Vec<Vec<u8>>)
    ensures
        path.deep_view() == dir.deep_view().push(name@),
{
    let mut path: Vec<Vec<u8>> = Vec::new();
    let mut i: usize = 0;
    while i < dir.len()
        invariant
            i <= dir.len(),
            path.len() == i,
            forall|j: int| 0 <= j < i ==> path@[j].deep_view() == dir@[j].deep_view(),
        decreases dir.len() - i,
    {
        assert(dir@[i as int].deep_view() =~= dir@[i as int]@);
        path.push(copy_name(&dir[i]));
        i += 1;
    }
    path.push(copy_name(name));
    assert(path.deep_view() =~= dir.deep_view().push(name@));
    path
}

/// Appends `step` to `steps`.
fn record(steps: &mut Vec<FsStep>, step: FsStep)
    ensures
        final(steps).deep_view() == old(steps).deep_view().push(step.deep_view()),
{
    steps.push(step);
}

/// Appends to `steps` those that move `entries` from `src` into `dst`.
fn plan_moves(
    src: &Vec<Vec<u8>>,
    dst: &Vec<Vec<u8>>,
    entries: &Vec<Entry>,
    steps: &mut Vec<FsStep>,
)
    ensures
        final(steps).deep_view() == old(steps).deep_view() + move_steps(
            src.deep_view(),
            dst.deep_view(),
            entries@,
        ),
    decreases entries,
{
    let ghost before = steps.deep_view();
    let ghost from = src.deep_view();
    let ghost to = dst.deep_view();
    let mut i: usize = 0;
    while i < entries.len()
        invariant
            i <= entries.len(),
            from == src.deep_view(),
            to == dst.deep_view(),
            steps.deep_view() == before + move_steps(from, to, entries@.take(i as int)),
        decreases entries.len() - i,
    {
        let ghost done = entries@.take(i as int);
        let ghost next = entries@.take(i + 1);
        assert(next.drop_last() =~= done);
        let ghost so_far = steps.deep_view();
        match &entries[i] {
            Entry::Directory { name, entries: inner } => {
                let inner_src = child_path(src, name);
                let inner_dst = child_path(dst, name);
                record(steps, FsStep::CreateDir { path: child_path(dst, name) });
                plan_moves(&inner_src, &inner_dst, inner, steps);
                record(steps, FsStep::RemoveDir { path: inner_src });
                assert(steps.deep_view() =~= so_far + entry_steps(from, to, entries@[i as int]));
            },
            other => {
                let name = other.name();
                record(
                    steps,
                    FsStep::Rename { from: child_path(src, name), to: child_path(dst, name) },
                );
            },
        }
        i += 1;
    }
    assert(entries@.take(entries.len() as int) =~= entries@);
}

/// Whether one of `entries` is called `name`.
pub fn has_name(entries: &Vec<Entry>, name: &Vec<u8>) -> (found: bool)
    ensures
        found == holds_name(entries@, name@),
{
    let mut i: usize = 0;
    while i < entries.len()
        invariant
            i <= entries.len(),
            forall|j: int| 0 <= j < i ==> (#[trigger] entries@[j]).name_of() != name@,
        decreases entries.len() - i,
    {
        if same_name(entries[i].name(), name) {
            return true;
        }
        i += 1;
    }
    false
}

/// The steps that flatten on disk the tree that was unpacked: none where
/// the tree is not wrapped; else the wrapper's directory is emptied into the
/// directory around it, entry by entry and directory by directory, and then
/// removed. A wrapper that holds an entry of its own name is refused as a
/// path collision.
pub fn hoist_plan(entries: &Vec<Entry>) -> (plan: Result<Vec<FsStep>, ErrorKind>)
    ensures
        if collides(entries@) {
            plan matches Err(error) && error@ == ErrorView::IO(collision_text())
        } else {
            plan matches Ok(steps) && steps.deep_view() == hoist_steps(entries@)
        },
{
    let mut steps: Vec<FsStep> = Vec::new();
    if entries.len() != 1 {
        return Ok(steps);
    }
    match &entries[0] {
        Entry::Directory { name, entries: inner } => {
            if has_name(inner, name) {
                let text = "path collision: the wrapping directory holds an entry of its own name";
                return Err(ErrorKind::IO(text.to_string()));
            }
            let root: Vec<Vec<u8>> = Vec::new();
            let wrapper = child_path(&root, name);
            assert(root.deep_view() =~= Seq::<NameView>::empty());
            record(&mut steps, FsStep::CreateDir { path: Vec::new() });
            plan_moves(&wrapper, &root, inner, &mut steps);
            record(&mut steps, FsStep::RemoveDir { path: wrapper });
            Ok(steps)
        },
        _ => Ok(steps),
    }
}

} // verus!
