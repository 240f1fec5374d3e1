//! The contents of a directory as a value, and the flattening of a tree that
//! an archive wrapped in one top-level directory.
//!
//! The name of an entry is kept as the bytes that the file system has for
//! it: a name need not be text, and none is ever read as text here.

use vstd::prelude::*;

verus! {

/// One entry of a directory.
#[derive(Debug, PartialEq, Eq)]
pub enum Entry {
    /// A regular file with its permission bits.
    File { name: Vec<u8>, mode: u32 },
    /// A directory with what it holds.
    Directory { name: Vec<u8>, entries: Vec<Entry> },
    /// Anything else: a symbolic link, a device, a socket.
    Other { name: Vec<u8> },
}

impl Entry {
    /// The name of the entry inside its directory.
    pub open spec fn name_of(self) -> Seq<u8> {
        match self {
            Entry::File { name, .. } => name@,
            Entry::Directory { name, .. } => name@,
            Entry::Other { name } => name@,
        }
    }

    /// What the entry holds: the entries of a directory, nothing otherwise.
    pub open spec fn children(self) -> Seq<Entry> {
        match self {
            Entry::Directory { entries, .. } => entries@,
            _ => Seq::empty(),
        }
    }

    /// The name of the entry inside its directory.
    pub fn name(&self) -> (name: &Vec<u8>)
        ensures
            name@ == self.name_of(),
    {
        match self {
            Entry::File { name, .. } => name,
            Entry::Directory { name, .. } => name,
            Entry::Other { name } => name,
        }
    }

    /// Whether the entry is a directory.
    pub fn is_directory(&self) -> (yes: bool)
        ensures
            yes == (self is Directory),
    {
        match self {
            Entry::Directory { .. } => true,
            _ => false,
        }
    }
}

/// Whether two names are the same, byte for byte.
pub fn same_name(a: &Vec<u8>, b: &Vec<u8>) -> (same: bool)
    ensures
        same == (a@ == b@),
{
    if a.len() != b.len() {
        return false;
    }
    let mut i: usize = 0;
    while i < a.len()
        invariant
            a.len() == b.len(),
            i <= a.len(),
            forall|j: int| 0 <= j < i ==> a@[j] == b@[j],
        decreases a.len() - i,
    {
        if a[i] != b[i] {
            return false;
        }
        i += 1;
    }
    assert(a@ =~= b@);
    true
}

/// The same name once more.
pub fn copy_name(name: &Vec<u8>) -> (copy: Vec<u8>)
    ensures
        copy@ == name@,
        copy.deep_view() == name@,
{
    let mut copy: Vec<u8> = Vec::new();
    let mut i: usize = 0;
    while i < name.len()
        invariant
            i <= name.len(),
            copy@ == name@.take(i as int),
        decreases name.len() - i,
    {
        copy.push(name[i]);
        assert(copy@ =~= name@.take(i + 1));
        i += 1;
    }
    assert(name@.take(name.len() as int) =~= name@);
    assert(copy.deep_view() =~= copy@);
    copy
}

/// How many entries a tree holds, at every depth.
pub open spec fn count(entries: Seq<Entry>) -> nat
    decreases entries,
{
    if entries.len() == 0 {
        0
    } else {
        count(entries.drop_last()) + count_below(entries[entries.len() - 1])
    }
}

/// How many entries `entry` stands for: itself and, for a directory, all
/// that it holds.
pub open spec fn count_below(entry: Entry) -> nat
    decreases entry,
{
    match entry {
        Entry::Directory { entries, .. } => 1 + count(entries@),
        _ => 1,
    }
}

/// A tree is wrapped where its only entry is a directory.
pub open spec fn is_wrapped(entries: Seq<Entry>) -> bool {
    entries.len() == 1 && entries[0] is Directory
}

/// The tree without its wrapper: what the only directory holds where the
/// tree is wrapped, the tree itself otherwise.
pub open spec fn flattened(entries: Seq<Entry>) -> Seq<Entry> {
    if is_wrapped(entries) {
        entries[0].children()
    } else {
        entries
    }
}

/// Removes the wrapper of a wrapped tree, once: the entries of the only
/// directory take its place, each with all that it holds. A tree with no
/// entry, with several, or with one that is no directory stays as it is.
pub fn flatten(entries: Vec<Entry>) -> (tree: Vec<Entry>)
    ensures
        tree@ == flattened(entries@),
{
    if entries.len() != 1 {
        return entries;
    }
    let mut entries = entries;
    match entries.pop() {
        Some(Entry::Directory { entries: inner, .. }) => inner,
        Some(other) => {
            entries.push(other);
            entries
        },
        None => entries,
    }
}

/// Flattening changes nothing in a tree that is not wrapped.
pub proof fn lemma_flatten_fixes_unwrapped(entries: Seq<Entry>)
    requires
        !is_wrapped(entries),
    ensures
        flattened(entries) == entries,
{
}

/// Flattening a second time changes nothing, provided the first flattening
/// left no wrapper: the tree was not wrapped, or its wrapper held anything
/// but one single directory.
pub proof fn lemma_flatten_idempotent(entries: Seq<Entry>)
    requires
        !is_wrapped(flattened(entries)),
    ensures
        flattened(flattened(entries)) == flattened(entries),
{
}

/// Removing a wrapper leaves fewer entries, so a wrapped tree is never its
/// own flattening.
pub proof fn lemma_flatten_shrinks_wrapped(entries: Seq<Entry>)
    requires
        is_wrapped(entries),
    ensures
        count(flattened(entries)) < count(entries),
        flattened(entries) != entries,
{
    let wrapper = entries[0];
    assert(count(entries) == count(entries.drop_last()) + count_below(wrapper));
}

/// Where the first flattening leaves a wrapper, the second removes it: on
/// such trees flattening twice differs from flattening once.
pub proof fn lemma_flatten_twice_differs(entries: Seq<Entry>)
    requires
        is_wrapped(flattened(entries)),
    ensures
        flattened(flattened(entries)) != flattened(entries),
{
    lemma_flatten_shrinks_wrapped(flattened(entries));
}

} // verus!
