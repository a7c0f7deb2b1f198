//! The chain of alternates as the order in which a depth-first search comes
//! upon directories, stated without the steps of the walk.
use vstd::prelude::*;

use crate::alternate::directories_of;
use crate::alternate::parse;
use crate::alternate::path::joined;
use crate::alternate::snapshot::advanced;
use crate::alternate::snapshot::backlog;
use crate::alternate::snapshot::lemma_canonical_is_target;
use crate::alternate::snapshot::lemma_targets_finite;
use crate::alternate::snapshot::lemma_unseen_decreases;
use crate::alternate::snapshot::outcome;
use crate::alternate::snapshot::SnapshotView;
use crate::alternate::Store;
use crate::alternate::walk::active_directories;
use crate::alternate::walk::CanonicalizedView;
use crate::alternate::walk::expanded;
use crate::alternate::walk::FailureView;
use crate::alternate::walk::FileReadView;
use crate::alternate::walk::first_position;
use crate::alternate::walk::FrameView;
use crate::alternate::walk::PendingPathView;
use crate::alternate::walk::PendingReadView;
use crate::alternate::walk::settled;
use crate::alternate::walk::started;
use crate::alternate::walk::TraversalView;
use crate::alternate::walk::WalkView;

verus! {

/// The chain after the `entries` of the alternates file of the directory
/// `base` have been followed one after the other, starting out from `chain`.
///
/// `active` holds the directories whose entries are being followed, `base`
/// last. An entry that leads to a directory that is neither under expansion
/// nor in the chain puts that directory at the end of the chain. The entries
/// of that directory are followed next, with the directory added to `active`,
/// and only then the entries that come after the entry in question. The first
/// failure ends it all.
///
/// The chain never gets shorter, so fewer directories are left to be found
/// after each directory that was put into the chain. The test on their number
/// is only there to show that following entries comes to an end; see
/// [`lemma_follow_extends`].
pub open spec fn follow(
    fs: SnapshotView,
    active: Seq<Seq<u8>>,
    chain: Seq<Store>,
    base: Seq<u8>,
    entries: Seq<Seq<u8>>,
) -> Result<Seq<Store>, FailureView>
    decreases fs.unseen(chain), entries.len(),
{
    if entries.len() == 0 {
        Ok(chain)
    } else {
        let entry = entries[0];
        let rest = entries.skip(1);
        let path = joined(base, entry);
        match fs.canonical(path) {
            CanonicalizedView::Missing => follow(fs, active, chain, base, rest),
            CanonicalizedView::Failed => Err(FailureView::Inaccessible { path }),
            CanonicalizedView::Found(directory) => {
                if active.contains(directory) {
                    Err(
                        FailureView::Cycle {
                            chain: active.skip(first_position(active, directory) as int),
                        },
                    )
                } else if directories_of(chain).contains(directory) {
                    follow(fs, active, chain, base, rest)
                } else {
                    let longer = chain.push(Store { directory, literal: entry });
                    proof {
                        lemma_canonical_is_target(fs.paths, path);
                        lemma_unseen_decreases(fs, chain, Store { directory, literal: entry });
                    }
                    let below = match fs.alternates(directory) {
                        FileReadView::Absent => Ok(longer),
                        FileReadView::Unreadable => Err(FailureView::Unreadable { directory }),
                        FileReadView::Content(bytes) => match parse::entries(bytes) {
                            Ok(listed) => follow(
                                fs,
                                active.push(directory),
                                longer,
                                directory,
                                listed,
                            ),
                            Err(line) => Err(FailureView::Malformed { directory, line }),
                        },
                    };
                    match below {
                        Ok(after) => if fs.unseen(after) < fs.unseen(chain) {
                            follow(fs, active, after, base, rest)
                        } else {
                            Ok(after)
                        },
                        Err(failure) => Err(failure),
                    }
                }
            },
        }
    }
}

/// The chain of alternates of `objects_dir` on the filesystem `fs`, found by
/// depth-first search: the entries of the alternates file of the directory at
/// `objects_dir` are followed, with that directory alone under expansion and
/// with nothing in the chain.
pub open spec fn depth_first(fs: SnapshotView, objects_dir: Seq<u8>) -> Result<Seq<Store>, FailureView> {
    match fs.canonical(objects_dir) {
        CanonicalizedView::Found(root) => match fs.alternates(root) {
            FileReadView::Absent => Ok(Seq::empty()),
            FileReadView::Unreadable => Err(FailureView::Unreadable { directory: root }),
            FileReadView::Content(bytes) => match parse::entries(bytes) {
                Ok(listed) => follow(fs, seq![root], Seq::empty(), root, listed),
                Err(line) => Err(FailureView::Malformed { directory: root, line }),
            },
        },
        _ => Err(FailureView::Inaccessible { path: objects_dir }),
    }
}

/// A chain that starts with another leaves no more directories to be found
/// than that one.
pub proof fn lemma_unseen_shrinks(fs: SnapshotView, shorter: Seq<Store>, longer: Seq<Store>)
    requires
        shorter.is_prefix_of(longer),
    ensures
        fs.unseen(longer) <= fs.unseen(shorter),
{
    lemma_targets_finite(fs.paths);
    let before = fs.targets().difference(directories_of(shorter).to_set());
    let after = fs.targets().difference(directories_of(longer).to_set());
    assert forall|d: Seq<u8>| after.contains(d) implies before.contains(d) by {
        if directories_of(shorter).contains(d) {
            let i = choose|i: int|
                0 <= i < directories_of(shorter).len() && directories_of(shorter)[i] == d;
            assert(shorter[i] == longer[i]);
            assert(directories_of(longer)[i] == d);
        }
    }
    vstd::set_lib::lemma_len_subset(after, before);
}

/// Following entries only ever adds to the end of the chain.
pub proof fn lemma_follow_extends(
    fs: SnapshotView,
    active: Seq<Seq<u8>>,
    chain: Seq<Store>,
    base: Seq<u8>,
    entries: Seq<Seq<u8>>,
)
    ensures
        follow(fs, active, chain, base, entries) matches Ok(after) ==> chain.is_prefix_of(after),
    decreases fs.unseen(chain), entries.len(),
{
    if entries.len() > 0 {
        let entry = entries[0];
        let rest = entries.skip(1);
        let path = joined(base, entry);
        match fs.canonical(path) {
            CanonicalizedView::Missing => {
                lemma_follow_extends(fs, active, chain, base, rest);
            },
            CanonicalizedView::Failed => {},
            CanonicalizedView::Found(directory) => {
                if active.contains(directory) {
                } else if directories_of(chain).contains(directory) {
                    lemma_follow_extends(fs, active, chain, base, rest);
                } else {
                    let longer = chain.push(Store { directory, literal: entry });
                    lemma_canonical_is_target(fs.paths, path);
                    lemma_unseen_decreases(fs, chain, Store { directory, literal: entry });
                    assert(chain.is_prefix_of(longer));
                    let below = match fs.alternates(directory) {
                        FileReadView::Absent => Ok(longer),
                        FileReadView::Unreadable => Err(FailureView::Unreadable { directory }),
                        FileReadView::Content(bytes) => match parse::entries(bytes) {
                            Ok(listed) => {
                                lemma_follow_extends(
                                    fs,
                                    active.push(directory),
                                    longer,
                                    directory,
                                    listed,
                                );
                                follow(fs, active.push(directory), longer, directory, listed)
                            },
                            Err(line) => Err(FailureView::Malformed { directory, line }),
                        },
                    };
                    if let Ok(after) = below {
                        assert(longer.is_prefix_of(after));
                        lemma_unseen_shrinks(fs, longer, after);
                        lemma_follow_extends(fs, active, after, base, rest);
                    }
                }
            },
        }
    }
}

/// The chain after the pending entries of all directories under expansion
/// have been followed, those of the innermost directory first.
pub open spec fn unwound(fs: SnapshotView, frames: Seq<FrameView>, chain: Seq<Store>) -> Result<
    Seq<Store>,
    FailureView,
>
    decreases frames.len(),
{
    if frames.len() == 0 {
        Ok(chain)
    } else {
        let top = frames.last();
        match follow(fs, active_directories(frames), chain, top.directory, top.pending) {
            Ok(after) => unwound(fs, frames.drop_last(), after),
            Err(failure) => Err(failure),
        }
    }
}

/// A walk that goes on from a state ends as following the pending entries of
/// the directories under expansion does.
proof fn lemma_settled_unwinds(fs: SnapshotView, state: TraversalView)
    ensures
        outcome(fs, settled(state)) == unwound(fs, state.active, state.chain),
    decreases fs.unseen(state.chain), backlog(state.active),
{
    if state.active.len() == 0 {
    } else {
        let top = state.active.last();
        let active = active_directories(state.active);
        if top.pending.len() == 0 {
            lemma_settled_unwinds(
                fs,
                TraversalView { active: state.active.drop_last(), chain: state.chain },
            );
        } else {
            let entry = top.pending[0];
            let rest = top.pending.skip(1);
            let path = joined(top.directory, entry);
            let frames = state.active.drop_last().push(
                FrameView { directory: top.directory, pending: rest },
            );
            let taken = TraversalView { active: frames, chain: state.chain };
            let pending = PendingPathView { state: taken, literal: entry, path };
            assert(settled(state) == WalkView::Canonicalize(pending));
            assert(outcome(fs, settled(state)) == outcome(
                fs,
                advanced(fs, WalkView::Canonicalize(pending)),
            ));
            assert(frames.drop_last() =~= state.active.drop_last());
            assert(frames.last() == FrameView { directory: top.directory, pending: rest });
            assert(active_directories(frames) =~= active);
            assert(backlog(frames) < backlog(state.active));
            match fs.canonical(path) {
                CanonicalizedView::Missing => {
                    lemma_settled_unwinds(fs, taken);
                },
                CanonicalizedView::Failed => {},
                CanonicalizedView::Found(directory) => {
                    if active.contains(directory) {
                    } else if directories_of(state.chain).contains(directory) {
                        lemma_settled_unwinds(fs, taken);
                    } else {
                        let store = Store { directory, literal: entry };
                        let longer = state.chain.push(store);
                        lemma_canonical_is_target(fs.paths, path);
                        lemma_unseen_decreases(fs, state.chain, store);
                        let found = TraversalView { active: frames, chain: longer };
                        let reading = WalkView::ReadAlternates(
                            PendingReadView { state: found, directory },
                        );
                        assert(advanced(fs, WalkView::Canonicalize(pending)) == reading);
                        assert(outcome(fs, reading) == outcome(fs, advanced(fs, reading)));
                        let listed = match fs.alternates(directory) {
                            FileReadView::Content(bytes) => parse::entries(bytes),
                            FileReadView::Absent => Ok(Seq::empty()),
                            FileReadView::Unreadable => Err(Seq::empty()),
                        };
                        if let Ok(entries) = listed {
                            let deeper = frames.push(FrameView { directory, pending: entries });
                            let expanding = TraversalView { active: deeper, chain: longer };
                            assert(advanced(fs, reading) == expanded(found, directory, entries));
                            lemma_settled_unwinds(fs, expanding);
                            assert(deeper.drop_last() =~= frames);
                            assert(active_directories(deeper) =~= active.push(directory));
                            let below = follow(
                                fs,
                                active.push(directory),
                                longer,
                                directory,
                                entries,
                            );
                            if let Ok(after) = below {
                                lemma_follow_extends(
                                    fs,
                                    active.push(directory),
                                    longer,
                                    directory,
                                    entries,
                                );
                                lemma_unseen_shrinks(fs, longer, after);
                                assert(unwound(fs, deeper, longer) == unwound(fs, frames, after));
                                assert(follow(fs, active, state.chain, top.directory, top.pending)
                                    == follow(fs, active, after, top.directory, rest));
                            }
                        }
                    }
                },
            }
        }
    }
}

/// The walk that asks for one filesystem operation at a time ends with what
/// depth-first search finds: on a filesystem that does not change, the two
/// give the same chain or the same failure.
pub proof fn law_walk_is_depth_first(fs: SnapshotView, objects_dir: Seq<u8>)
    ensures
        outcome(fs, started(objects_dir)) == depth_first(fs, objects_dir),
{
    let start = started(objects_dir);
    assert(outcome(fs, start) == outcome(fs, advanced(fs, start)));
    if let CanonicalizedView::Found(root) = fs.canonical(objects_dir) {
        let nothing = TraversalView { active: Seq::empty(), chain: Seq::empty() };
        let reading = WalkView::ReadAlternates(PendingReadView { state: nothing, directory: root });
        assert(advanced(fs, start) == reading);
        assert(outcome(fs, reading) == outcome(fs, advanced(fs, reading)));
        let listed = match fs.alternates(root) {
            FileReadView::Content(bytes) => parse::entries(bytes),
            FileReadView::Absent => Ok(Seq::empty()),
            FileReadView::Unreadable => Err(Seq::empty()),
        };
        if let Ok(entries) = listed {
            let frames = nothing.active.push(FrameView { directory: root, pending: entries });
            let expanding = TraversalView { active: frames, chain: nothing.chain };
            assert(advanced(fs, reading) == expanded(nothing, root, entries));
            lemma_settled_unwinds(fs, expanding);
            assert(frames.drop_last() =~= nothing.active);
            assert(active_directories(frames) =~= seq![root]);
            assert(unwound(fs, frames, nothing.chain) == match follow(
                fs,
                seq![root],
                Seq::empty(),
                root,
                entries,
            ) {
                Ok(after) => unwound(fs, nothing.active, after),
                Err(failure) => Err(failure),
            });
        }
    }
}

} // verus!
