//! Which files of an unpacked tree are installed, and where they go.

use crate::tree::{copy_name, Entry};
use vstd::prelude::*;

verus! {

/// The permission bits that let the owner, the group or anyone else run a
/// file.
pub const EXECUTE_BITS: u32 = 0o111;

/// Whether `mode` lets anyone run the file.
pub open spec fn is_executable(mode: u32) -> bool {
    mode & EXECUTE_BITS != 0
}

/// An entry is installed where it is a regular file that someone may run.
pub open spec fn eligible(entry: Entry) -> bool {
    match entry {
        Entry::File { mode, .. } => is_executable(mode),
        _ => false,
    }
}

/// One file to copy: the file called `name` in the directory `from` is
/// copied into the directory `to` under the same name, replacing what is
/// there.
#[derive(Debug, Clone, PartialEq, Eq)]
pub struct CopyJob {
    /// The directory that holds the file.
    pub from: String,
    /// The directory that receives the copy.
    pub to: String,
    /// The name of the file in both, as the file system has it.
    pub name: Vec<u8>,
}

/// A `CopyJob` with its directories as character sequences and its name as
/// a sequence of bytes.
pub struct CopyView {
    pub from: Seq<char>,
    pub to: Seq<char>,
    pub name: Seq<u8>,
}

impl DeepView for CopyJob {
    type V = CopyView;

    open spec fn deep_view(&self) -> CopyView {
        CopyView { from: self.from@, to: self.to@, name: self.name@ }
    }
}

/// The copy that installs `entry` of the directory `src` under its own name
/// in the directory `bin`.
pub open spec fn copy_of(src: Seq<char>, bin: Seq<char>, entry: Entry) -> CopyView {
    CopyView { from: src, to: bin, name: entry.name_of() }
}

/// The copies that install the entries of the directory `src` into `bin`:
/// one for each eligible entry, in the order of the entries.
pub open spec fn copies(src: Seq<char>, bin: Seq<char>, entries: Seq<Entry>) -> Seq<CopyView> {
    entries.filter(|entry: Entry| eligible(entry)).map_values(
        |entry: Entry| copy_of(src, bin, entry),
    )
}

/// A file may be run where the owner, the group or the others may run it.
pub proof fn lemma_executable_bits(mode: u32)
    ensures
        is_executable(mode) <==> (mode & 0o100 != 0 || mode & 0o010 != 0 || mode & 0o001 != 0),
{
    assert((mode & 0o111 != 0) <==> (mode & 0o100 != 0 || mode & 0o010 != 0 || mode & 0o001
        != 0)) by (bit_vector);
}

/// Appending an entry appends its copy where the entry is eligible and
/// nothing otherwise.
pub proof fn lemma_copies_push(src: Seq<char>, bin: Seq<char>, entries: Seq<Entry>, entry: Entry)
    ensures
        copies(src, bin, entries.push(entry)) == if eligible(entry) {
            copies(src, bin, entries).push(copy_of(src, bin, entry))
        } else {
            copies(src, bin, entries)
        },
{
    let wanted = |entry: Entry| eligible(entry);
    entries.lemma_filter_push(entry, wanted);
    if eligible(entry) {
        assert(copies(src, bin, entries.push(entry)) =~= copies(src, bin, entries).push(
            copy_of(src, bin, entry),
        ));
    }
}

/// No copy is planned for a directory without entries.
pub proof fn lemma_copies_empty(src: Seq<char>, bin: Seq<char>)
    ensures
        copies(src, bin, Seq::empty()) == Seq::<CopyView>::empty(),
{
    let wanted = |entry: Entry| eligible(entry);
    Seq::<Entry>::empty().lemma_filter_len(wanted);
}

/// Whether `entry` is installed: a regular file with at least one of the
/// execute bits set.
pub fn is_eligible(entry: &Entry) -> (yes: bool)
    ensures
        yes == eligible(*entry),
{
    match entry {
        Entry::File { mode, .. } => *mode & EXECUTE_BITS != 0,
        _ => false,
    }
}

/// The copies that install the top level of the directory `src` into the
/// directory `bin`: each regular file of `entries` that someone may run is
/// copied from `src` into `bin` under its own name, in the order of
/// `entries`. Directories, files
/// that nobody may run and everything else are passed over, and nothing
/// below the top level is looked at.
pub fn promotions(src: &str, bin: &str, entries: &Vec<Entry>) -> (jobs: Vec<CopyJob>)
    ensures
        jobs.deep_view() == copies(src@, bin@, entries@),
{
    let mut jobs: Vec<CopyJob> = Vec::new();
    proof {
        lemma_copies_empty(src@, bin@);
    }
    let mut i: usize = 0;
    while i < entries.len()
        invariant
            i <= entries.len(),
            jobs.deep_view() == copies(src@, bin@, entries@.take(i as int)),
        decreases entries.len() - i,
    {
        proof {
            lemma_copies_push(src@, bin@, entries@.take(i as int), entries@[i as int]);
            assert(entries@.take(i + 1) =~= entries@.take(i as int).push(entries@[i as int]));
        }
        if is_eligible(&entries[i]) {
            let job = CopyJob {
                from: src.to_string(),
                to: bin.to_string(),
                name: copy_name(entries[i].name()),
            };
            let ghost before = jobs.deep_view();
            jobs.push(job);
            assert(jobs.deep_view() =~= before.push(job.deep_view()));
        }
        i += 1;
    }
    assert(entries@.take(entries.len() as int) =~= entries@);
    jobs
}

} // verus!
