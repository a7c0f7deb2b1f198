//! A filesystem as far as the walk over alternates reads it, held in memory.
//!
//! A snapshot records what canonicalizing a path gives and what reading the
//! alternates file of a directory gives. It says what a walk amounts to on a
//! filesystem that does not change while the walk goes on.
use vstd::prelude::*;

use crate::alternate::directories_of;
use crate::alternate::ObjectsDirectory;
use crate::alternate::path;
use crate::alternate::Store;
use crate::alternate::walk::after_canonicalize;
use crate::alternate::walk::after_read;
use crate::alternate::walk::Canonicalized;
use crate::alternate::walk::CanonicalizedView;
use crate::alternate::walk::FailureView;
use crate::alternate::walk::FileRead;
use crate::alternate::walk::FileReadView;
use crate::alternate::walk::FrameView;
use crate::alternate::walk::settled;
use crate::alternate::walk::TraversalView;
use crate::alternate::walk::WalkView;
use crate::bytes;

verus! {

/// What canonicalizing one path gives.
struct PathRecord {
    path: Vec<u8>,
    outcome: Canonicalized,
}

/// What reading the alternates file of one directory gives.
struct FileRecord {
    directory: Vec<u8>,
    read: FileRead,
}

/// The part of a filesystem that a walk over alternates reads.
pub struct Snapshot {
    paths: Vec<PathRecord>,
    files: Vec<FileRecord>,
}

/// What a [`Snapshot`] holds, as plain sequences. Of two records for the same
/// path or directory the later one counts.
pub struct SnapshotView {
    /// Paths with the outcome of canonicalizing them.
    pub paths: Seq<(Seq<u8>, CanonicalizedView)>,
    /// Canonical paths of directories with the outcome of reading their
    /// alternates file.
    pub files: Seq<(Seq<u8>, FileReadView)>,
}

impl View for Snapshot {
    type V = SnapshotView;

    closed spec fn view(&self) -> SnapshotView {
        SnapshotView {
            paths: Seq::new(
                self.paths@.len(),
                |i: int| (self.paths@[i].path@, self.paths@[i].outcome@),
            ),
            files: Seq::new(
                self.files@.len(),
                |i: int| (self.files@[i].directory@, self.files@[i].read@),
            ),
        }
    }
}

/// The outcome that `records` hold for `path`: that of the last record for
/// it, or `Missing` without one.
pub open spec fn canonical_in(records: Seq<(Seq<u8>, CanonicalizedView)>, path: Seq<u8>) -> CanonicalizedView
    decreases records.len(),
{
    if records.len() == 0 {
        CanonicalizedView::Missing
    } else if records.last().0 == path {
        records.last().1
    } else {
        canonical_in(records.drop_last(), path)
    }
}

/// The outcome that `records` hold for the alternates file of `directory`:
/// that of the last record for it, or `Absent` without one.
pub open spec fn alternates_in(records: Seq<(Seq<u8>, FileReadView)>, directory: Seq<u8>) -> FileReadView
    decreases records.len(),
{
    if records.len() == 0 {
        FileReadView::Absent
    } else if records.last().0 == directory {
        records.last().1
    } else {
        alternates_in(records.drop_last(), directory)
    }
}

/// The directories that `records` name as the canonical form of any path.
pub open spec fn targets_in(records: Seq<(Seq<u8>, CanonicalizedView)>) -> Set<Seq<u8>>
    decreases records.len(),
{
    if records.len() == 0 {
        Set::empty()
    } else {
        match records.last().1 {
            CanonicalizedView::Found(directory) => targets_in(records.drop_last()).insert(
                directory,
            ),
            _ => targets_in(records.drop_last()),
        }
    }
}

impl SnapshotView {
    /// What canonicalizing `path` gives.
    pub open spec fn canonical(self, path: Seq<u8>) -> CanonicalizedView {
        canonical_in(self.paths, path)
    }

    /// What reading the alternates file of `directory` gives.
    pub open spec fn alternates(self, directory: Seq<u8>) -> FileReadView {
        alternates_in(self.files, directory)
    }

    /// The directories that exist, as far as any path leads to them.
    pub open spec fn targets(self) -> Set<Seq<u8>> {
        targets_in(self.paths)
    }

    /// The number of directories that exist and are not in `chain`.
    pub open spec fn unseen(self, chain: Seq<Store>) -> nat {
        self.targets().difference(directories_of(chain).to_set()).len()
    }
}

/// The walk one filesystem operation after `walk`, on the filesystem `fs`.
pub open spec fn advanced(fs: SnapshotView, walk: WalkView) -> WalkView {
    match walk {
        WalkView::Canonicalize(pending) => after_canonicalize(pending, fs.canonical(pending.path)),
        WalkView::ReadAlternates(pending) => after_read(pending, fs.alternates(pending.directory)),
        WalkView::Finished(_) => walk,
    }
}

/// The number of entries that are pending in `active`, plus one for each
/// directory under expansion.
pub open spec fn backlog(active: Seq<FrameView>) -> nat
    decreases active.len(),
{
    if active.len() == 0 {
        0
    } else {
        backlog(active.drop_last()) + active.last().pending.len() + 1
    }
}

/// The chain as far as `walk` has found it.
pub open spec fn found(walk: WalkView) -> Seq<Store> {
    match walk {
        WalkView::Canonicalize(pending) => pending.state.chain,
        WalkView::ReadAlternates(pending) => pending.state.chain,
        WalkView::Finished(Ok(chain)) => chain,
        WalkView::Finished(Err(_)) => Seq::empty(),
    }
}

/// How far `walk` is from reading the entries of the directory it has
/// reached: 2 before the root is known, 1 before an alternates file is read,
/// 0 while entries are followed.
pub open spec fn phase(walk: WalkView) -> nat {
    match walk {
        WalkView::Canonicalize(pending) => if pending.state.active.len() == 0 {
            2
        } else {
            0
        },
        WalkView::ReadAlternates(_) => 1,
        WalkView::Finished(_) => 0,
    }
}

/// The work that `walk` has in store while it follows entries.
pub open spec fn pending_work(walk: WalkView) -> nat {
    match walk {
        WalkView::Canonicalize(pending) => backlog(pending.state.active),
        _ => 0,
    }
}

/// The directories of `fs` that `walk` has not put into the chain.
pub open spec fn remaining(fs: SnapshotView, walk: WalkView) -> nat {
    match walk {
        WalkView::Finished(_) => 0,
        _ => fs.unseen(found(walk)),
    }
}

/// Only finitely many directories exist.
pub proof fn lemma_targets_finite(records: Seq<(Seq<u8>, CanonicalizedView)>)
    ensures
        targets_in(records).finite(),
    decreases records.len(),
{
    if records.len() > 0 {
        lemma_targets_finite(records.drop_last());
    }
}

/// Whatever a path leads to exists.
pub proof fn lemma_canonical_is_target(records: Seq<(Seq<u8>, CanonicalizedView)>, path: Seq<u8>)
    ensures
        canonical_in(records, path) matches CanonicalizedView::Found(directory)
            ==> targets_in(records).contains(directory),
    decreases records.len(),
{
    if records.len() > 0 {
        lemma_canonical_is_target(records.drop_last(), path);
    }
}

/// A directory that exists and enters the chain leaves one less to be found.
pub proof fn lemma_unseen_decreases(fs: SnapshotView, chain: Seq<Store>, store: Store)
    requires
        fs.targets().contains(store.directory),
        !directories_of(chain).contains(store.directory),
    ensures
        fs.unseen(chain.push(store)) < fs.unseen(chain),
{
    let before = fs.targets().difference(directories_of(chain).to_set());
    let after = fs.targets().difference(directories_of(chain.push(store)).to_set());
    lemma_targets_finite(fs.paths);
    assert(directories_of(chain.push(store)) =~= directories_of(chain).push(store.directory));
    assert forall|d: Seq<u8>| after.contains(d) <==> before.remove(store.directory).contains(
        d,
    ) by {
        let longer = directories_of(chain).push(store.directory);
        if directories_of(chain).contains(d) {
            let i = choose|i: int|
                0 <= i < directories_of(chain).len() && directories_of(chain)[i] == d;
            assert(longer[i] == d);
        }
        if longer.contains(d) && d != store.directory {
            let i = choose|i: int| 0 <= i < longer.len() && longer[i] == d;
            assert(directories_of(chain)[i] == d);
        }
        assert(longer[longer.len() - 1] == store.directory);
    }
    assert(after =~= before.remove(store.directory));
    assert(before.contains(store.directory));
}

/// Settling either completes the chain or takes one entry off, and leaves
/// less work in either case.
pub proof fn lemma_settled(state: TraversalView)
    ensures
        match settled(state) {
            WalkView::Finished(result) => result == Ok::<Seq<Store>, FailureView>(state.chain),
            WalkView::Canonicalize(pending) => {
                &&& pending.state.chain == state.chain
                &&& pending.state.active.len() > 0
                &&& backlog(pending.state.active) < backlog(state.active)
            },
            WalkView::ReadAlternates(_) => false,
        },
    decreases state.active.len(),
{
    if state.active.len() > 0 {
        let top = state.active.last();
        if top.pending.len() == 0 {
            lemma_settled(TraversalView { active: state.active.drop_last(), chain: state.chain });
        } else {
            let rest = FrameView { directory: top.directory, pending: top.pending.skip(1) };
            let active = state.active.drop_last().push(rest);
            assert(active.drop_last() =~= state.active.drop_last());
            assert(active.last() == rest);
        }
    }
}

/// Each filesystem operation brings a walk closer to its end.
pub proof fn lemma_progress(fs: SnapshotView, walk: WalkView)
    requires
        !(walk is Finished),
    ensures
        ({
            let next = advanced(fs, walk);
            ||| remaining(fs, next) < remaining(fs, walk)
            ||| (remaining(fs, next) == remaining(fs, walk) && phase(next) < phase(walk))
            ||| (remaining(fs, next) == remaining(fs, walk) && phase(next) == phase(walk)
                && pending_work(next) < pending_work(walk))
        }),
{
    match walk {
        WalkView::Canonicalize(pending) => {
            let state = pending.state;
            let outcome = fs.canonical(pending.path);
            lemma_canonical_is_target(fs.paths, pending.path);
            lemma_settled(state);
            if state.active.len() > 0 {
                assert(backlog(state.active) > 0);
                if let CanonicalizedView::Found(directory) = outcome {
                    if !directories_of(state.chain).contains(directory) {
                        lemma_unseen_decreases(
                            fs,
                            state.chain,
                            Store { directory, literal: pending.literal },
                        );
                    }
                }
            }
        },
        WalkView::ReadAlternates(pending) => {
            let read = fs.alternates(pending.directory);
            let entries = match read {
                FileReadView::Content(bytes) => match crate::alternate::parse::entries(bytes) {
                    Ok(entries) => entries,
                    Err(_) => Seq::empty(),
                },
                _ => Seq::empty(),
            };
            lemma_settled(
                TraversalView {
                    active: pending.state.active.push(
                        FrameView { directory: pending.directory, pending: entries },
                    ),
                    chain: pending.state.chain,
                },
            );
        },
        WalkView::Finished(_) => {},
    }
}

/// What the walk `walk` ends with on the filesystem `fs`: the chain, or the
/// failure that ended it.
pub open spec fn outcome(fs: SnapshotView, walk: WalkView) -> Result<Seq<Store>, FailureView>
    decreases remaining(fs, walk), phase(walk), pending_work(walk),
{
    match walk {
        WalkView::Finished(result) => result,
        _ => {
            proof {
                lemma_progress(fs, walk);
            }
            outcome(fs, advanced(fs, walk))
        },
    }
}

fn copy_outcome(outcome: &Canonicalized) -> (copy: Canonicalized)
    ensures
        copy@ == outcome@,
{
    match outcome {
        Canonicalized::Found(directory) => Canonicalized::Found(
            ObjectsDirectory { path: bytes::to_owned(directory.path.as_slice()) },
        ),
        Canonicalized::Missing => Canonicalized::Missing,
        Canonicalized::Failed => Canonicalized::Failed,
    }
}

fn copy_read(read: &FileRead) -> (copy: FileRead)
    ensures
        copy@ == read@,
{
    match read {
        FileRead::Absent => FileRead::Absent,
        FileRead::Unreadable => FileRead::Unreadable,
        FileRead::Content(bytes) => FileRead::Content(bytes::to_owned(bytes.as_slice())),
    }
}

impl Snapshot {
    /// A filesystem on which no path leads anywhere.
    pub fn new() -> (fs: Snapshot)
        ensures
            fs@.paths.len() == 0,
            fs@.files.len() == 0,
    {
        Snapshot { paths: Vec::new(), files: Vec::new() }
    }

    /// Let canonicalizing `path` give `outcome` from now on.
    pub fn record_path(&mut self, path: Vec<u8>, outcome: Canonicalized)
        ensures
            final(self)@.paths == old(self)@.paths.push((path@, outcome@)),
            final(self)@.files == old(self)@.files,
    {
        let ghost before = self@;
        let ghost record = (path@, outcome@);
        self.paths.push(PathRecord { path, outcome });
        assert(self@.paths =~= before.paths.push(record));
        assert(self@.files =~= before.files);
    }

    /// Let reading the alternates file of `directory` give `read` from now on.
    pub fn record_alternates(&mut self, directory: Vec<u8>, read: FileRead)
        ensures
            final(self)@.files == old(self)@.files.push((directory@, read@)),
            final(self)@.paths == old(self)@.paths,
    {
        let ghost before = self@;
        let ghost record = (directory@, read@);
        self.files.push(FileRecord { directory, read });
        assert(self@.files =~= before.files.push(record));
        assert(self@.paths =~= before.paths);
    }

    /// The outcome of canonicalizing `path`.
    pub fn canonicalize(&self, path: &[u8]) -> (outcome: Canonicalized)
        ensures
            outcome@ == self@.canonical(path@),
    {
        let mut at: usize = self.paths.len();
        assert(self@.paths.take(at as int) =~= self@.paths);
        while at > 0
            invariant
                at <= self.paths@.len(),
                self@.canonical(path@) == canonical_in(self@.paths.take(at as int), path@),
            decreases at,
        {
            let ghost records = self@.paths.take(at as int);
            assert(records.drop_last() =~= self@.paths.take(at - 1));
            assert(records.last() == self@.paths[at - 1]);
            at = at - 1;
            if bytes::same(self.paths[at].path.as_slice(), path) {
                return copy_outcome(&self.paths[at].outcome);
            }
        }
        assert(self@.paths.take(0).len() == 0);
        Canonicalized::Missing
    }

    /// The outcome of reading the alternates file of `directory`.
    pub fn read_alternates(&self, directory: &[u8]) -> (read: FileRead)
        ensures
            read@ == self@.alternates(directory@),
    {
        let mut at: usize = self.files.len();
        assert(self@.files.take(at as int) =~= self@.files);
        while at > 0
            invariant
                at <= self.files@.len(),
                self@.alternates(directory@) == alternates_in(
                    self@.files.take(at as int),
                    directory@,
                ),
            decreases at,
        {
            let ghost records = self@.files.take(at as int);
            assert(records.drop_last() =~= self@.files.take(at - 1));
            assert(records.last() == self@.files[at - 1]);
            at = at - 1;
            if bytes::same(self.files[at].directory.as_slice(), directory) {
                return copy_read(&self.files[at].read);
            }
        }
        assert(self@.files.take(0).len() == 0);
        FileRead::Absent
    }
}

} // verus!
