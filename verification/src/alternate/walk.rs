//! The depth-first walk over alternates, as a machine that asks for one
//! filesystem operation at a time.
//!
//! The walk itself never touches the filesystem. It says which path is to be
//! canonicalized or whose alternates file is to be read, and goes on once it is
//! handed the outcome.
use vstd::prelude::*;

use crate::alternate::directories_of;
use crate::alternate::ObjectsDirectory;
use crate::alternate::parse;
use crate::alternate::path;
use crate::alternate::paths;
use crate::alternate::ResolvedStore;
use crate::alternate::Store;
use crate::alternate::stores;
use crate::bytes;

verus! {

/// The outcome of canonicalizing a path.
#[derive(Debug, Clone, PartialEq, Eq)]
pub enum Canonicalized {
    /// The path names this directory.
    Found(ObjectsDirectory),
    /// Nothing exists at the path, or it cannot be examined.
    Missing,
    /// The path exists, but resolving it failed for another reason.
    Failed,
}

/// What a [`Canonicalized`] holds, as plain sequences.
pub enum CanonicalizedView {
    /// The path names the directory with this canonical path.
    Found(Seq<u8>),
    /// Nothing exists at the path.
    Missing,
    /// Resolving the path failed.
    Failed,
}

impl View for Canonicalized {
    type V = CanonicalizedView;

    open spec fn view(&self) -> CanonicalizedView {
        match self {
            Canonicalized::Found(directory) => CanonicalizedView::Found(directory@),
            Canonicalized::Missing => CanonicalizedView::Missing,
            Canonicalized::Failed => CanonicalizedView::Failed,
        }
    }
}

/// The outcome of reading the alternates file of an objects directory.
#[derive(Debug, Clone, PartialEq, Eq)]
pub enum FileRead {
    /// There is no such file.
    Absent,
    /// The file is there, but it cannot be read.
    Unreadable,
    /// The bytes of the file.
    Content(Vec<u8>),
}

/// What a [`FileRead`] holds, as plain sequences.
pub enum FileReadView {
    /// There is no such file.
    Absent,
    /// The file cannot be read.
    Unreadable,
    /// The bytes of the file.
    Content(Seq<u8>),
}

impl View for FileRead {
    type V = FileReadView;

    open spec fn view(&self) -> FileReadView {
        match self {
            FileRead::Absent => FileReadView::Absent,
            FileRead::Unreadable => FileReadView::Unreadable,
            FileRead::Content(bytes) => FileReadView::Content(bytes@),
        }
    }
}

/// Why the filesystem refused an operation, as far as the walk tells such
/// failures apart.
#[derive(Debug, Clone, Copy, PartialEq, Eq)]
pub enum IoFailure {
    /// Nothing exists at the path.
    NotFound,
    /// The path leads through something that is no directory, so that nothing
    /// can exist at it.
    NotADirectory,
    /// The path may not be accessed.
    PermissionDenied,
    /// Any other failure.
    Other,
}

/// What the attempt to canonicalize a path amounts to for the walk.
///
/// A path at which nothing exists is missing, which is no failure. Every
/// other way in which the attempt is refused is one.
pub open spec fn canonicalized_from(attempt: Result<Vec<u8>, IoFailure>) -> CanonicalizedView {
    match attempt {
        Ok(path) => CanonicalizedView::Found(path@),
        Err(IoFailure::NotFound) => CanonicalizedView::Missing,
        Err(IoFailure::NotADirectory) => CanonicalizedView::Missing,
        Err(_) => CanonicalizedView::Failed,
    }
}

/// What the attempt to read an alternates file amounts to for the walk.
///
/// Only a file that is not found is absent. A file that is refused in any
/// other way is there, and cannot be read.
pub open spec fn read_from(attempt: Result<Vec<u8>, IoFailure>) -> FileReadView {
    match attempt {
        Ok(bytes) => FileReadView::Content(bytes@),
        Err(IoFailure::NotFound) => FileReadView::Absent,
        Err(_) => FileReadView::Unreadable,
    }
}

impl Canonicalized {
    /// Tell what the `attempt` to canonicalize a path, which gave the
    /// canonical path or was refused, amounts to.
    pub fn from_attempt(attempt: Result<Vec<u8>, IoFailure>) -> (outcome: Canonicalized)
        ensures
            outcome@ == canonicalized_from(attempt),
    {
        match attempt {
            Ok(path) => Canonicalized::Found(ObjectsDirectory { path }),
            Err(IoFailure::NotFound) => Canonicalized::Missing,
            Err(IoFailure::NotADirectory) => Canonicalized::Missing,
            Err(_) => Canonicalized::Failed,
        }
    }
}

impl FileRead {
    /// Tell what the `attempt` to read an alternates file, which gave its
    /// bytes or was refused, amounts to.
    pub fn from_attempt(attempt: Result<Vec<u8>, IoFailure>) -> (read: FileRead)
        ensures
            read@ == read_from(attempt),
    {
        match attempt {
            Ok(bytes) => FileRead::Content(bytes),
            Err(IoFailure::NotFound) => FileRead::Absent,
            Err(_) => FileRead::Unreadable,
        }
    }
}

/// Why a walk ended without a chain.
#[derive(Debug, Clone, PartialEq, Eq)]
pub enum Failure {
    /// A directory was reached again while its own alternates were still being
    /// followed.
    Cycle {
        /// The directories under expansion, from the one that was reached
        /// again to the one whose alternates file named it.
        chain: Vec<ObjectsDirectory>,
    },
    /// An alternates file exists but could not be read.
    Unreadable {
        /// The objects directory the file belongs to.
        directory: ObjectsDirectory,
    },
    /// An alternates file holds a line that cannot be interpreted.
    Malformed {
        /// The objects directory the file belongs to.
        directory: ObjectsDirectory,
        /// The offending line.
        line: Vec<u8>,
    },
    /// A path exists, but could not be canonicalized.
    Inaccessible {
        /// The path that was to be canonicalized.
        path: Vec<u8>,
    },
}

/// What a [`Failure`] holds, as plain sequences.
pub enum FailureView {
    /// The directories that form a cycle.
    Cycle { chain: Seq<Seq<u8>> },
    /// The directory whose alternates file could not be read.
    Unreadable { directory: Seq<u8> },
    /// The directory whose alternates file is malformed, and the line.
    Malformed { directory: Seq<u8>, line: Seq<u8> },
    /// The path that could not be canonicalized.
    Inaccessible { path: Seq<u8> },
}

impl View for Failure {
    type V = FailureView;

    open spec fn view(&self) -> FailureView {
        match self {
            Failure::Cycle { chain } => FailureView::Cycle { chain: paths(chain@) },
            Failure::Unreadable { directory } => FailureView::Unreadable { directory: directory@ },
            Failure::Malformed { directory, line } => FailureView::Malformed {
                directory: directory@,
                line: line@,
            },
            Failure::Inaccessible { path } => FailureView::Inaccessible { path: path@ },
        }
    }
}

/// A directory under expansion, with the entries of its alternates file that
/// are still to be followed.
pub struct Frame {
    directory: ObjectsDirectory,
    pending: Vec<Vec<u8>>,
}

/// What a [`Frame`] holds, as plain sequences.
pub struct FrameView {
    /// The canonical path of the directory under expansion.
    pub directory: Seq<u8>,
    /// The entries that are still to be followed, in file order.
    pub pending: Seq<Seq<u8>>,
}

impl View for Frame {
    type V = FrameView;

    closed spec fn view(&self) -> FrameView {
        FrameView { directory: self.directory@, pending: parse::byte_strings(self.pending@) }
    }
}

/// The state of a walk between two filesystem operations.
pub struct Traversal {
    active: Vec<Frame>,
    chain: Vec<ResolvedStore>,
}

/// What a [`Traversal`] holds, as plain sequences.
pub struct TraversalView {
    /// The directories under expansion, the root first and the one whose
    /// entries are being followed last.
    pub active: Seq<FrameView>,
    /// The chain as far as it has been found.
    pub chain: Seq<Store>,
}

impl View for Traversal {
    type V = TraversalView;

    closed spec fn view(&self) -> TraversalView {
        TraversalView {
            active: Seq::new(self.active@.len(), |i: int| self.active@[i]@),
            chain: stores(self.chain@),
        }
    }
}

/// A walk that waits for the canonical form of a path.
pub struct PendingPath {
    state: Traversal,
    literal: Vec<u8>,
    path: Vec<u8>,
}

/// What a [`PendingPath`] holds, as plain sequences.
pub struct PendingPathView {
    /// The state of the walk. No directory is under expansion exactly while
    /// the path in question is that of the root.
    pub state: TraversalView,
    /// The path as the alternates file spelled it.
    pub literal: Seq<u8>,
    /// The path to canonicalize.
    pub path: Seq<u8>,
}

impl View for PendingPath {
    type V = PendingPathView;

    closed spec fn view(&self) -> PendingPathView {
        PendingPathView { state: self.state@, literal: self.literal@, path: self.path@ }
    }
}

/// A walk that waits for the content of an alternates file.
pub struct PendingRead {
    state: Traversal,
    directory: ObjectsDirectory,
}

/// What a [`PendingRead`] holds, as plain sequences.
pub struct PendingReadView {
    /// The state of the walk, in which `directory` is not under expansion yet.
    pub state: TraversalView,
    /// The canonical path of the directory whose alternates file is to be read.
    pub directory: Seq<u8>,
}

impl View for PendingRead {
    type V = PendingReadView;

    closed spec fn view(&self) -> PendingReadView {
        PendingReadView { state: self.state@, directory: self.directory@ }
    }
}

/// A walk, as it stands between two filesystem operations.
pub enum Walk {
    /// A path is to be canonicalized.
    Canonicalize(PendingPath),
    /// The alternates file of a directory is to be read.
    ReadAlternates(PendingRead),
    /// The walk is over.
    Finished(Result<Vec<ResolvedStore>, Failure>),
}

/// What a [`Walk`] holds, as plain sequences.
pub enum WalkView {
    /// A path is to be canonicalized.
    Canonicalize(PendingPathView),
    /// The alternates file of a directory is to be read.
    ReadAlternates(PendingReadView),
    /// The walk is over.
    Finished(Result<Seq<Store>, FailureView>),
}

impl View for Walk {
    type V = WalkView;

    open spec fn view(&self) -> WalkView {
        match self {
            Walk::Canonicalize(pending) => WalkView::Canonicalize(pending@),
            Walk::ReadAlternates(pending) => WalkView::ReadAlternates(pending@),
            Walk::Finished(Ok(chain)) => WalkView::Finished(Ok(stores(chain@))),
            Walk::Finished(Err(failure)) => WalkView::Finished(Err(failure@)),
        }
    }
}

/// The canonical paths of the directories under expansion, the root first.
pub open spec fn active_directories(active: Seq<FrameView>) -> Seq<Seq<u8>> {
    Seq::new(active.len(), |i: int| active[i].directory)
}

/// The index of the first of `directories` that equals `directory`, or their
/// number if none does.
pub open spec fn first_position(directories: Seq<Seq<u8>>, directory: Seq<u8>) -> nat
    decreases directories.len(),
{
    if directories.len() == 0 || directories[0] == directory {
        0
    } else {
        1 + first_position(directories.skip(1), directory)
    }
}

/// The first state of the walk that starts at `objects_dir`: its path is to be
/// canonicalized, and nothing is under expansion or found yet.
pub open spec fn started(objects_dir: Seq<u8>) -> WalkView {
    WalkView::Canonicalize(
        PendingPathView {
            state: TraversalView { active: Seq::empty(), chain: Seq::empty() },
            literal: objects_dir,
            path: objects_dir,
        },
    )
}

/// The walk that goes on from `state` without a filesystem operation in
/// between.
///
/// Directories without pending entries are done and leave the active stack.
/// The first pending entry of the innermost directory that has one is taken
/// off to be canonicalized; it is relative to that directory. With nothing
/// left under expansion the chain is complete.
pub open spec fn settled(state: TraversalView) -> WalkView
    decreases state.active.len(),
{
    if state.active.len() == 0 {
        WalkView::Finished(Ok(state.chain))
    } else {
        let top = state.active.last();
        if top.pending.len() == 0 {
            settled(TraversalView { active: state.active.drop_last(), chain: state.chain })
        } else {
            let rest = FrameView { directory: top.directory, pending: top.pending.skip(1) };
            WalkView::Canonicalize(
                PendingPathView {
                    state: TraversalView {
                        active: state.active.drop_last().push(rest),
                        chain: state.chain,
                    },
                    literal: top.pending[0],
                    path: path::joined(top.directory, top.pending[0]),
                },
            )
        }
    }
}

/// The walk after `directory` has been put under expansion with the given
/// `entries` of its alternates file.
pub open spec fn expanded(state: TraversalView, directory: Seq<u8>, entries: Seq<Seq<u8>>) -> WalkView {
    settled(
        TraversalView {
            active: state.active.push(FrameView { directory, pending: entries }),
            chain: state.chain,
        },
    )
}

/// The walk after the path that `pending` asked for has been canonicalized
/// with the given `outcome`.
///
/// For the root, the directory found is the one whose alternates file is read
/// first; it does not become part of the chain, and a root that cannot be
/// found ends the walk. For an entry of an alternates file:
/// - a missing target is passed over;
/// - a failure ends the walk;
/// - a directory that is under expansion ends the walk with the cycle, which
///   is the active stack from that directory on;
/// - a directory that is in the chain already is passed over;
/// - any other directory is appended to the chain, and its alternates file is
///   read next.
pub open spec fn after_canonicalize(pending: PendingPathView, outcome: CanonicalizedView) -> WalkView {
    let state = pending.state;
    if state.active.len() == 0 {
        match outcome {
            CanonicalizedView::Found(directory) => WalkView::ReadAlternates(
                PendingReadView { state, directory },
            ),
            _ => WalkView::Finished(Err(FailureView::Inaccessible { path: pending.path })),
        }
    } else {
        match outcome {
            CanonicalizedView::Missing => settled(state),
            CanonicalizedView::Failed => WalkView::Finished(
                Err(FailureView::Inaccessible { path: pending.path }),
            ),
            CanonicalizedView::Found(directory) => {
                let active = active_directories(state.active);
                if active.contains(directory) {
                    WalkView::Finished(
                        Err(
                            FailureView::Cycle {
                                chain: active.skip(first_position(active, directory) as int),
                            },
                        ),
                    )
                } else if directories_of(state.chain).contains(directory) {
                    settled(state)
                } else {
                    WalkView::ReadAlternates(
                        PendingReadView {
                            state: TraversalView {
                                active: state.active,
                                chain: state.chain.push(
                                    Store { directory, literal: pending.literal },
                                ),
                            },
                            directory,
                        },
                    )
                }
            },
        }
    }
}

/// The walk after the alternates file that `pending` asked for has been read
/// with the given outcome.
///
/// A directory without the file has no alternates. A file that cannot be
/// read, or that holds a malformed line, ends the walk. Otherwise the
/// directory is put under expansion with the entries of the file.
pub open spec fn after_read(pending: PendingReadView, read: FileReadView) -> WalkView {
    match read {
        FileReadView::Absent => expanded(pending.state, pending.directory, Seq::empty()),
        FileReadView::Unreadable => WalkView::Finished(
            Err(FailureView::Unreadable { directory: pending.directory }),
        ),
        FileReadView::Content(bytes) => match parse::entries(bytes) {
            Ok(entries) => expanded(pending.state, pending.directory, entries),
            Err(line) => WalkView::Finished(
                Err(FailureView::Malformed { directory: pending.directory, line }),
            ),
        },
    }
}

fn settle(state: Traversal) -> (walk: Walk)
    ensures
        walk@ == settled(state@),
{
    let mut current = state;
    loop
        invariant
            settled(current@) == settled(state@),
        decreases current.active.len(),
    {
        let ghost before = current@;
        match current.active.pop() {
            None => {
                return Walk::Finished(Ok(current.chain));
            },
            Some(frame) => {
                let mut frame = frame;
                let ghost top = frame@;
                assert(top == before.active.last());
                assert(current@.active =~= before.active.drop_last());
                assert(current@.chain == before.chain);
                if frame.pending.len() == 0 {
                    assert(top.pending.len() == 0);
                } else {
                    let literal = frame.pending.remove(0);
                    let path = path::join(frame.directory.path.as_slice(), literal.as_slice());
                    assert(frame@.pending =~= top.pending.skip(1));
                    assert(literal@ == top.pending[0]);
                    current.active.push(frame);
                    assert(current@.active =~= before.active.drop_last().push(
                        FrameView { directory: top.directory, pending: top.pending.skip(1) },
                    ));
                    return Walk::Canonicalize(PendingPath { state: current, literal, path });
                }
            },
        }
    }
}

/// `first_position` finds the first occurrence, and finds one exactly if there
/// is any.
pub proof fn lemma_first_position(directories: Seq<Seq<u8>>, directory: Seq<u8>)
    ensures
        first_position(directories, directory) <= directories.len(),
        first_position(directories, directory) < directories.len() <==> directories.contains(
            directory,
        ),
        first_position(directories, directory) < directories.len() ==> directories[first_position(
            directories,
            directory,
        ) as int] == directory,
        forall|i: int|
            0 <= i < first_position(directories, directory) ==> directories[i] != directory,
    decreases directories.len(),
{
    if directories.len() == 0 || directories[0] == directory {
    } else {
        let rest = directories.skip(1);
        lemma_first_position(rest, directory);
        let found = first_position(directories, directory) as int;
        assert forall|i: int| 0 <= i < found implies directories[i] != directory by {
            if i > 0 {
                assert(directories[i] == rest[i - 1]);
            }
        }
        if found < directories.len() {
            assert(directories[found] == rest[found - 1]);
        }
        if directories.contains(directory) {
            let at = choose|i: int| 0 <= i < directories.len() && directories[i] == directory;
            assert(rest[at - 1] == directory);
        }
    }
}

fn position_of(active: &Vec<Frame>, directory: &ObjectsDirectory) -> (at: usize)
    ensures
        at == first_position(
            active_directories(Seq::new(active@.len(), |i: int| active@[i]@)),
            directory@,
        ),
        at <= active@.len(),
{
    let ghost directories = active_directories(Seq::new(active@.len(), |i: int| active@[i]@));
    proof {
        lemma_first_position(directories, directory@);
    }
    let mut at: usize = 0;
    while at < active.len()
        invariant
            at <= active@.len(),
            directories == active_directories(Seq::new(active@.len(), |i: int| active@[i]@)),
            forall|i: int| 0 <= i < at ==> directories[i] != directory@,
            first_position(directories, directory@) <= directories.len(),
            first_position(directories, directory@) < directories.len() ==> directories[first_position(
                directories,
                directory@,
            ) as int] == directory@,
            forall|i: int|
                0 <= i < first_position(directories, directory@) ==> directories[i] != directory@,
        decreases active@.len() - at,
    {
        if bytes::same(active[at].directory.path.as_slice(), directory.path.as_slice()) {
            assert(directories[at as int] == directory@);
            return at;
        }
        at = at + 1;
    }
    at
}

fn in_chain(chain: &Vec<ResolvedStore>, directory: &ObjectsDirectory) -> (found: bool)
    ensures
        found == directories_of(stores(chain@)).contains(directory@),
{
    let ghost directories = directories_of(stores(chain@));
    let mut at: usize = 0;
    while at < chain.len()
        invariant
            at <= chain@.len(),
            directories == directories_of(stores(chain@)),
            forall|i: int| 0 <= i < at ==> directories[i] != directory@,
        decreases chain@.len() - at,
    {
        if bytes::same(chain[at].directory.path.as_slice(), directory.path.as_slice()) {
            assert(directories[at as int] == directory@);
            return true;
        }
        at = at + 1;
    }
    false
}

fn cycle_from(active: &Vec<Frame>, from: usize) -> (chain: Vec<ObjectsDirectory>)
    requires
        from <= active@.len(),
    ensures
        paths(chain@) == active_directories(Seq::new(active@.len(), |i: int| active@[i]@)).skip(
            from as int,
        ),
{
    let ghost directories = active_directories(Seq::new(active@.len(), |i: int| active@[i]@));
    let mut chain: Vec<ObjectsDirectory> = Vec::new();
    let mut at: usize = from;
    while at < active.len()
        invariant
            from <= at <= active@.len(),
            directories == active_directories(Seq::new(active@.len(), |i: int| active@[i]@)),
            paths(chain@) == directories.subrange(from as int, at as int),
        decreases active@.len() - at,
    {
        let directory = ObjectsDirectory {
            path: bytes::to_owned(active[at].directory.path.as_slice()),
        };
        let ghost before = paths(chain@);
        let ghost reached = directory@;
        chain.push(directory);
        assert(reached == directories[at as int]);
        assert(paths(chain@) =~= before.push(reached));
        assert(paths(chain@) =~= directories.subrange(from as int, at + 1));
        at = at + 1;
    }
    assert(directories.subrange(from as int, at as int) =~= directories.skip(from as int));
    chain
}

impl Walk {
    /// Start the walk that finds the alternates of `objects_dir`.
    ///
    /// The first thing the walk asks for is the canonical form of
    /// `objects_dir` itself.
    pub fn start(objects_dir: &[u8]) -> (walk: Walk)
        ensures
            walk@ == started(objects_dir@),
    {
        let state = Traversal { active: Vec::new(), chain: Vec::new() };
        assert(state@.active =~= Seq::empty());
        assert(state@.chain =~= Seq::empty());
        Walk::Canonicalize(
            PendingPath {
                state,
                literal: bytes::to_owned(objects_dir),
                path: bytes::to_owned(objects_dir),
            },
        )
    }
}

impl PendingPath {
    /// The path whose canonical form the walk waits for.
    pub fn path(&self) -> (path: &[u8])
        ensures
            path@ == self@.path,
    {
        self.path.as_slice()
    }

    /// Go on with the `outcome` of canonicalizing [`path()`](Self::path).
    pub fn canonicalized(self, outcome: Canonicalized) -> (walk: Walk)
        ensures
            walk@ == after_canonicalize(self@, outcome@),
    {
        let PendingPath { state, literal, path } = self;
        if state.active.len() == 0 {
            return match outcome {
                Canonicalized::Found(directory) => Walk::ReadAlternates(
                    PendingRead { state, directory },
                ),
                _ => Walk::Finished(Err(Failure::Inaccessible { path })),
            };
        }
        match outcome {
            Canonicalized::Missing => settle(state),
            Canonicalized::Failed => Walk::Finished(Err(Failure::Inaccessible { path })),
            Canonicalized::Found(directory) => {
                let ghost active = active_directories(state@.active);
                proof {
                    lemma_first_position(active, directory@);
                }
                let at = position_of(&state.active, &directory);
                if at < state.active.len() {
                    let chain = cycle_from(&state.active, at);
                    Walk::Finished(Err(Failure::Cycle { chain }))
                } else if in_chain(&state.chain, &directory) {
                    settle(state)
                } else {
                    let mut state = state;
                    let ghost before = state@;
                    let reached = ObjectsDirectory {
                        path: bytes::to_owned(directory.path.as_slice()),
                    };
                    state.chain.push(ResolvedStore { directory: reached, literal });
                    assert(state@.chain =~= before.chain.push(
                        Store { directory: directory@, literal: literal@ },
                    ));
                    assert(state@.active =~= before.active);
                    Walk::ReadAlternates(PendingRead { state, directory })
                }
            },
        }
    }
}

impl PendingRead {
    /// The canonical path of the objects directory whose `info/alternates`
    /// file the walk waits for.
    pub fn directory(&self) -> (directory: &[u8])
        ensures
            directory@ == self@.directory,
    {
        self.directory.path.as_slice()
    }

    /// Go on with the outcome of reading the alternates file of
    /// [`directory()`](Self::directory).
    pub fn read(self, read: FileRead) -> (walk: Walk)
        ensures
            walk@ == after_read(self@, read@),
    {
        let PendingRead { state, directory } = self;
        let entries = match read {
            FileRead::Absent => Vec::new(),
            FileRead::Unreadable => {
                return Walk::Finished(Err(Failure::Unreadable { directory }));
            },
            FileRead::Content(bytes) => match parse::content(bytes.as_slice()) {
                Ok(entries) => entries,
                Err(parse::ParseError::Unquote { line }) => {
                    return Walk::Finished(Err(Failure::Malformed { directory, line }));
                },
            },
        };
        let mut state = state;
        let ghost before = state@;
        let ghost listed = parse::byte_strings(entries@);
        assert(read@ is Absent ==> listed =~= Seq::<Seq<u8>>::empty());
        state.active.push(Frame { directory, pending: entries });
        assert(state@.active =~= before.active.push(
            FrameView { directory: self@.directory, pending: listed },
        ));
        assert(state@.chain == before.chain);
        settle(state)
    }
}

} // verus!
