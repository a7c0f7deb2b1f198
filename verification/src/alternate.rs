//! Discovery of the alternate object directories an object store delegates to.
//!
//! An objects directory may list further objects directories in its
//! `info/alternates` file, and those may do so in turn. The directories that
//! are reached this way form the chain of alternates, in the order in which a
//! depth-first walk in file order comes upon them.
use vstd::prelude::*;

use crate::alternate::depth_first::depth_first;
use crate::alternate::depth_first::law_walk_is_depth_first;
use crate::alternate::snapshot::lemma_progress;
use crate::alternate::snapshot::outcome;
use crate::alternate::snapshot::pending_work;
use crate::alternate::snapshot::phase;
use crate::alternate::snapshot::remaining;
use crate::alternate::snapshot::Snapshot;
use crate::alternate::snapshot::SnapshotView;
use crate::alternate::walk::Failure;
use crate::alternate::walk::FailureView;
use crate::alternate::walk::Walk;

pub mod depth_first;
pub mod laws;
pub mod parse;
pub mod path;
pub mod snapshot;
pub mod unquote;
pub mod walk;

verus! {

/// A directory that holds object data, known by its canonical path.
///
/// Two values name the same directory exactly if their paths are equal.
#[derive(Debug, Clone, PartialEq, Eq)]
pub struct ObjectsDirectory {
    /// The canonical, absolute path of the directory.
    pub path: Vec<u8>,
}

impl View for ObjectsDirectory {
    type V = Seq<u8>;

    open spec fn view(&self) -> Seq<u8> {
        self.path@
    }
}

/// One element of the chain of alternates.
#[derive(Debug, Clone, PartialEq, Eq)]
pub struct ResolvedStore {
    /// The directory that was reached.
    pub directory: ObjectsDirectory,
    /// The path as the alternates file spelled it, before canonicalization.
    pub literal: Vec<u8>,
}

/// What a [`ResolvedStore`] holds, as plain sequences.
pub struct Store {
    /// The canonical path of the directory.
    pub directory: Seq<u8>,
    /// The path as the alternates file spelled it.
    pub literal: Seq<u8>,
}

impl View for ResolvedStore {
    type V = Store;

    open spec fn view(&self) -> Store {
        Store { directory: self.directory@, literal: self.literal@ }
    }
}

/// The views of a sequence of stores.
pub open spec fn stores(chain: Seq<ResolvedStore>) -> Seq<Store> {
    Seq::new(chain.len(), |i: int| chain[i]@)
}

/// The paths of a sequence of directories.
pub open spec fn paths(directories: Seq<ObjectsDirectory>) -> Seq<Seq<u8>> {
    Seq::new(directories.len(), |i: int| directories[i]@)
}

/// The canonical paths of the directories of `chain`, in order.
pub open spec fn directories_of(chain: Seq<Store>) -> Seq<Seq<u8>> {
    Seq::new(chain.len(), |i: int| chain[i].directory)
}

/// Why the alternates of a repository could not be determined.
#[derive(Debug, Clone, PartialEq, Eq)]
pub enum ResolveError {
    /// An alternates file exists but cannot be read.
    UnreadableFile {
        /// The objects directory the file belongs to.
        directory: ObjectsDirectory,
    },
    /// An alternates file holds a quoted path whose quoting is broken.
    MalformedFile {
        /// The objects directory the file belongs to.
        directory: ObjectsDirectory,
        /// The offending line.
        line: Vec<u8>,
    },
    /// A path exists but cannot be resolved to a directory.
    Inaccessible {
        /// The path in question.
        path: Vec<u8>,
    },
    /// Following alternates leads back to a directory whose own alternates
    /// are still being followed. The directories are listed from the one
    /// that was reached again to the one whose alternates file named it.
    Cycle(Vec<ObjectsDirectory>),
}

/// What a [`ResolveError`] holds, as plain sequences.
pub enum ResolveErrorView {
    /// The directory whose alternates file cannot be read.
    UnreadableFile { directory: Seq<u8> },
    /// The directory whose alternates file is malformed, and the line.
    MalformedFile { directory: Seq<u8>, line: Seq<u8> },
    /// The path that cannot be resolved.
    Inaccessible { path: Seq<u8> },
    /// The directories that form a cycle.
    Cycle(Seq<Seq<u8>>),
}

impl View for ResolveError {
    type V = ResolveErrorView;

    open spec fn view(&self) -> ResolveErrorView {
        match self {
            ResolveError::UnreadableFile { directory } => ResolveErrorView::UnreadableFile {
                directory: directory@,
            },
            ResolveError::MalformedFile { directory, line } => ResolveErrorView::MalformedFile {
                directory: directory@,
                line: line@,
            },
            ResolveError::Inaccessible { path } => ResolveErrorView::Inaccessible { path: path@ },
            ResolveError::Cycle(chain) => ResolveErrorView::Cycle(paths(chain@)),
        }
    }
}

/// The error by which the failure of a walk is reported.
pub open spec fn reported(failure: FailureView) -> ResolveErrorView {
    match failure {
        FailureView::Cycle { chain } => ResolveErrorView::Cycle(chain),
        FailureView::Unreadable { directory } => ResolveErrorView::UnreadableFile { directory },
        FailureView::Malformed { directory, line } => ResolveErrorView::MalformedFile { directory, line },
        FailureView::Inaccessible { path } => ResolveErrorView::Inaccessible { path },
    }
}

/// What the end of a walk amounts to for the caller: the complete chain, or
/// the error and nothing of the chain.
pub open spec fn concluded(result: Result<Seq<Store>, FailureView>) -> Result<Seq<Store>, ResolveErrorView> {
    match result {
        Ok(chain) => Ok(chain),
        Err(failure) => Err(reported(failure)),
    }
}

/// The chain of alternates of `objects_dir` on the filesystem `fs`, or the
/// error that keeps it from being determined: what depth-first search finds,
/// with a failure reported as the error that stands for it.
pub open spec fn resolution(fs: SnapshotView, objects_dir: Seq<u8>) -> Result<Seq<Store>, ResolveErrorView> {
    concluded(depth_first(fs, objects_dir))
}

/// Whether `result` is the value `expected` stands for.
pub open spec fn amounts_to(
    result: Result<Vec<ResolvedStore>, ResolveError>,
    expected: Result<Seq<Store>, ResolveErrorView>,
) -> bool {
    match result {
        Ok(chain) => expected == Ok::<Seq<Store>, ResolveErrorView>(stores(chain@)),
        Err(error) => expected == Err::<Seq<Store>, ResolveErrorView>(error@),
    }
}

/// Turn the end of a walk into what [`resolve`] returns.
pub fn conclude(result: Result<Vec<ResolvedStore>, Failure>) -> (concluded: Result<
    Vec<ResolvedStore>,
    ResolveError,
>)
    ensures
        match result {
            Ok(chain) => amounts_to(concluded, self::concluded(Ok(stores(chain@)))),
            Err(failure) => amounts_to(concluded, self::concluded(Err(failure@))),
        },
{
    match result {
        Ok(chain) => Ok(chain),
        Err(Failure::Cycle { chain }) => Err(ResolveError::Cycle(chain)),
        Err(Failure::Unreadable { directory }) => Err(ResolveError::UnreadableFile { directory }),
        Err(Failure::Malformed { directory, line }) => Err(
            ResolveError::MalformedFile { directory, line },
        ),
        Err(Failure::Inaccessible { path }) => Err(ResolveError::Inaccessible { path }),
    }
}

/// Find the alternates of the objects directory at `objects_dir` on the
/// filesystem `fs`.
///
/// Returns the directories that `objects_dir` delegates to, directly or
/// through other alternates, each once and in the order in which depth-first
/// search comes upon them when it follows the entries of each alternates file
/// in file order. The directory at `objects_dir` itself is not part of the
/// chain. On failure nothing of the chain is returned.
pub fn resolve(fs: &Snapshot, objects_dir: &[u8]) -> (result: Result<Vec<ResolvedStore>, ResolveError>)
    ensures
        amounts_to(result, resolution(fs@, objects_dir@)),
{
    let mut walk = Walk::start(objects_dir);
    proof {
        law_walk_is_depth_first(fs@, objects_dir@);
    }
    loop
        invariant
            outcome(fs@, walk@) == depth_first(fs@, objects_dir@),
        decreases remaining(fs@, walk@), phase(walk@), pending_work(walk@),
    {
        proof {
            if !(walk@ is Finished) {
                lemma_progress(fs@, walk@);
            }
        }
        walk = match walk {
            Walk::Finished(result) => {
                return conclude(result);
            },
            Walk::Canonicalize(pending) => {
                let outcome = fs.canonicalize(pending.path());
                pending.canonicalized(outcome)
            },
            Walk::ReadAlternates(pending) => {
                let read = fs.read_alternates(pending.directory());
                pending.read(read)
            },
        };
    }
}

} // verus!
