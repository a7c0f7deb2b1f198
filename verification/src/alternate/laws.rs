//! What holds of every resolution of alternates.
use vstd::prelude::*;

use crate::alternate::amounts_to;
use crate::alternate::depth_first::follow;
use crate::alternate::depth_first::law_walk_is_depth_first;
use crate::alternate::depth_first::lemma_unseen_shrinks;
use crate::alternate::directories_of;
use crate::alternate::parse;
use crate::alternate::path::joined;
use crate::alternate::resolution;
use crate::alternate::ResolvedStore;
use crate::alternate::ResolveError;
use crate::alternate::ResolveErrorView;
use crate::alternate::snapshot::advanced;
use crate::alternate::snapshot::lemma_canonical_is_target;
use crate::alternate::snapshot::lemma_progress;
use crate::alternate::snapshot::lemma_unseen_decreases;
use crate::alternate::snapshot::outcome;
use crate::alternate::snapshot::pending_work;
use crate::alternate::snapshot::phase;
use crate::alternate::snapshot::remaining;
use crate::alternate::snapshot::SnapshotView;
use crate::alternate::Store;
use crate::alternate::stores;
use crate::alternate::walk::active_directories;
use crate::alternate::walk::CanonicalizedView;
use crate::alternate::walk::expanded;
use crate::alternate::walk::FailureView;
use crate::alternate::walk::FileReadView;
use crate::alternate::walk::first_position;
use crate::alternate::walk::FrameView;
use crate::alternate::walk::lemma_first_position;
use crate::alternate::walk::PendingReadView;
use crate::alternate::walk::settled;
use crate::alternate::walk::started;
use crate::alternate::walk::TraversalView;
use crate::alternate::walk::WalkView;

verus! {

/// An objects directory without an alternates file has an empty chain of
/// alternates, and resolving it is no error.
pub proof fn law_no_alternates_file(fs: SnapshotView, objects_dir: Seq<u8>)
    requires
        fs.canonical(objects_dir) matches CanonicalizedView::Found(root) && fs.alternates(root)
            == FileReadView::Absent,
    ensures
        resolution(fs, objects_dir) == Ok::<Seq<Store>, ResolveErrorView>(Seq::empty()),
{
}

/// Two resolutions of the same objects directory on the same filesystem
/// agree: both give the same stores in the same order, or both give the same
/// error.
pub proof fn law_deterministic(
    fs: SnapshotView,
    objects_dir: Seq<u8>,
    first: Result<Vec<ResolvedStore>, ResolveError>,
    second: Result<Vec<ResolvedStore>, ResolveError>,
)
    requires
        amounts_to(first, resolution(fs, objects_dir)),
        amounts_to(second, resolution(fs, objects_dir)),
    ensures
        match (first, second) {
            (Ok(left), Ok(right)) => stores(left@) == stores(right@),
            (Err(left), Err(right)) => left@ == right@,
            _ => false,
        },
{
}

/// What holds between two filesystem operations of the walk that started at
/// the directory `root`:
/// - no directory occurs twice in the chain, and `root` does not occur in it;
/// - no directory is under expansion twice, and the outermost one is `root`.
pub open spec fn consistent(walk: WalkView, root: Seq<u8>) -> bool {
    match walk {
        WalkView::Canonicalize(pending) => {
            &&& pending.state.active.len() > 0
            &&& consistent_state(pending.state, root)
        },
        WalkView::ReadAlternates(pending) => {
            &&& consistent_state(pending.state, root)
            &&& !active_directories(pending.state.active).contains(pending.directory)
            &&& pending.state.active.len() == 0 ==> pending.directory == root
        },
        WalkView::Finished(Ok(chain)) => {
            &&& directories_of(chain).no_duplicates()
            &&& !directories_of(chain).contains(root)
        },
        WalkView::Finished(Err(FailureView::Cycle { chain })) => {
            &&& chain.len() > 0
            &&& chain.no_duplicates()
        },
        WalkView::Finished(Err(_)) => true,
    }
}

/// The part of [`consistent`] that speaks of the state of the walk alone.
pub open spec fn consistent_state(state: TraversalView, root: Seq<u8>) -> bool {
    let active = active_directories(state.active);
    &&& directories_of(state.chain).no_duplicates()
    &&& !directories_of(state.chain).contains(root)
    &&& active.no_duplicates()
    &&& active.len() > 0 ==> active[0] == root
}

proof fn lemma_settled_consistent(state: TraversalView, root: Seq<u8>)
    requires
        consistent_state(state, root),
    ensures
        consistent(settled(state), root),
    decreases state.active.len(),
{
    if state.active.len() > 0 {
        let top = state.active.last();
        let before = active_directories(state.active);
        if top.pending.len() == 0 {
            let popped = TraversalView { active: state.active.drop_last(), chain: state.chain };
            assert(active_directories(popped.active) =~= before.drop_last());
            lemma_settled_consistent(popped, root);
        } else {
            let rest = FrameView { directory: top.directory, pending: top.pending.skip(1) };
            assert(active_directories(state.active.drop_last().push(rest)) =~= before);
        }
    }
}

proof fn lemma_expanded_consistent(
    state: TraversalView,
    directory: Seq<u8>,
    entries: Seq<Seq<u8>>,
    root: Seq<u8>,
)
    requires
        consistent_state(state, root),
        !active_directories(state.active).contains(directory),
        state.active.len() == 0 ==> directory == root,
    ensures
        consistent(expanded(state, directory, entries), root),
{
    let before = active_directories(state.active);
    let pushed = TraversalView {
        active: state.active.push(FrameView { directory, pending: entries }),
        chain: state.chain,
    };
    let after = active_directories(pushed.active);
    assert(after =~= before.push(directory));
    assert forall|i: int, j: int| 0 <= i < after.len() && 0 <= j < after.len() && i != j implies after[i]
        != after[j] by {
        if i < before.len() && j < before.len() {
            assert(before[i] != before[j]);
        } else if i < before.len() {
            assert(before[i] != directory);
        } else if j < before.len() {
            assert(before[j] != directory);
        }
    }
    lemma_settled_consistent(pushed, root);
}

/// A filesystem operation keeps a walk consistent.
proof fn lemma_advanced_consistent(fs: SnapshotView, walk: WalkView, root: Seq<u8>)
    requires
        consistent(walk, root),
    ensures
        consistent(advanced(fs, walk), root),
{
    match walk {
        WalkView::Canonicalize(pending) => {
            let state = pending.state;
            let active = active_directories(state.active);
            lemma_settled_consistent(state, root);
            if let CanonicalizedView::Found(directory) = fs.canonical(pending.path) {
                lemma_first_position(active, directory);
                if active.contains(directory) {
                    let from = first_position(active, directory) as int;
                    let cycle = active.skip(from);
                    assert forall|i: int, j: int|
                        0 <= i < cycle.len() && 0 <= j < cycle.len() && i != j implies cycle[i]
                        != cycle[j] by {
                        assert(active[from + i] != active[from + j]);
                    }
                } else if !directories_of(state.chain).contains(directory) {
                    let store = Store { directory, literal: pending.literal };
                    let before = directories_of(state.chain);
                    let after = directories_of(state.chain.push(store));
                    assert(after =~= before.push(directory));
                    assert(active[0] == root);
                    assert forall|i: int, j: int|
                        0 <= i < after.len() && 0 <= j < after.len() && i != j implies after[i]
                        != after[j] by {
                        if i < before.len() && j < before.len() {
                            assert(before[i] != before[j]);
                        } else if i < before.len() {
                            assert(before[i] != directory);
                        } else if j < before.len() {
                            assert(before[j] != directory);
                        }
                    }
                    assert(!after.contains(root)) by {
                        if after.contains(root) {
                            let i = choose|i: int| 0 <= i < after.len() && after[i] == root;
                            if i < before.len() {
                                assert(before[i] == root);
                            }
                        }
                    }
                }
            }
        },
        WalkView::ReadAlternates(pending) => {
            match fs.alternates(pending.directory) {
                FileReadView::Absent => {
                    lemma_expanded_consistent(
                        pending.state,
                        pending.directory,
                        Seq::empty(),
                        root,
                    );
                },
                FileReadView::Unreadable => {},
                FileReadView::Content(bytes) => {
                    if let Ok(entries) = crate::alternate::parse::entries(bytes) {
                        lemma_expanded_consistent(pending.state, pending.directory, entries, root);
                    }
                },
            }
        },
        WalkView::Finished(_) => {},
    }
}

/// A consistent walk ends consistently.
proof fn lemma_outcome_consistent(fs: SnapshotView, walk: WalkView, root: Seq<u8>)
    requires
        consistent(walk, root),
    ensures
        consistent(WalkView::Finished(outcome(fs, walk)), root),
    decreases remaining(fs, walk), phase(walk), pending_work(walk),
{
    if !(walk is Finished) {
        lemma_progress(fs, walk);
        lemma_advanced_consistent(fs, walk, root);
        lemma_outcome_consistent(fs, advanced(fs, walk), root);
    }
}

/// No directory occurs twice in a chain of alternates, and the directory
/// whose alternates were asked for does not occur in it at all.
pub proof fn law_chain_is_duplicate_free(fs: SnapshotView, objects_dir: Seq<u8>)
    ensures
        resolution(fs, objects_dir) matches Ok(chain) ==> {
            &&& directories_of(chain).no_duplicates()
            &&& fs.canonical(objects_dir) matches CanonicalizedView::Found(root)
            &&& !directories_of(chain).contains(root)
        },
{
    if let CanonicalizedView::Found(root) = fs.canonical(objects_dir) {
        let nothing = TraversalView { active: Seq::empty(), chain: Seq::empty() };
        let reading = WalkView::ReadAlternates(
            PendingReadView { state: nothing, directory: root },
        );
        law_walk_is_depth_first(fs, objects_dir);
        assert(advanced(fs, started(objects_dir)) == reading);
        assert(outcome(fs, started(objects_dir)) == outcome(fs, reading));
        assert(consistent(reading, root));
        lemma_outcome_consistent(fs, reading, root);
    }
}

/// A cycle is reported with at least one directory, and with none twice.
pub proof fn law_cycle_is_simple(fs: SnapshotView, objects_dir: Seq<u8>)
    ensures
        resolution(fs, objects_dir) matches Err(ResolveErrorView::Cycle(chain)) ==> {
            &&& chain.len() > 0
            &&& chain.no_duplicates()
        },
{
    if let CanonicalizedView::Found(root) = fs.canonical(objects_dir) {
        let nothing = TraversalView { active: Seq::empty(), chain: Seq::empty() };
        let reading = WalkView::ReadAlternates(
            PendingReadView { state: nothing, directory: root },
        );
        law_walk_is_depth_first(fs, objects_dir);
        assert(advanced(fs, started(objects_dir)) == reading);
        assert(outcome(fs, started(objects_dir)) == outcome(fs, reading));
        assert(consistent(reading, root));
        lemma_outcome_consistent(fs, reading, root);
    }
}

/// Whether the alternates file of `directory` lists exactly `entries`.
pub open spec fn lists(fs: SnapshotView, directory: Seq<u8>, entries: Seq<Seq<u8>>) -> bool {
    fs.alternates(directory) matches FileReadView::Content(bytes) && parse::entries(bytes) == Ok::<
        Seq<Seq<u8>>,
        Seq<u8>,
    >(entries)
}

/// Whether `entry`, listed by the alternates file of `base`, leads to
/// `directory`.
pub open spec fn leads_to(fs: SnapshotView, base: Seq<u8>, entry: Seq<u8>, directory: Seq<u8>) -> bool {
    fs.canonical(joined(base, entry)) == CanonicalizedView::Found(directory)
}

proof fn lemma_dangling_entries(
    fs: SnapshotView,
    active: Seq<Seq<u8>>,
    chain: Seq<Store>,
    base: Seq<u8>,
    entries: Seq<Seq<u8>>,
)
    requires
        forall|i: int|
            0 <= i < entries.len() ==> fs.canonical(joined(base, #[trigger] entries[i]))
                == CanonicalizedView::Missing,
    ensures
        follow(fs, active, chain, base, entries) == Ok::<Seq<Store>, FailureView>(chain),
    decreases entries.len(),
{
    if entries.len() > 0 {
        let rest = entries.skip(1);
        assert forall|i: int| 0 <= i < rest.len() implies fs.canonical(
            joined(base, #[trigger] rest[i]),
        ) == CanonicalizedView::Missing by {
            assert(rest[i] == entries[i + 1]);
        }
        lemma_dangling_entries(fs, active, chain, base, rest);
    }
}

/// Entries that lead nowhere are passed over: an objects directory whose
/// alternates all are missing has an empty chain, and resolving it is no
/// error.
pub proof fn law_dangling_entries_are_skipped(
    fs: SnapshotView,
    objects_dir: Seq<u8>,
    root: Seq<u8>,
    entries: Seq<Seq<u8>>,
)
    requires
        fs.canonical(objects_dir) == CanonicalizedView::Found(root),
        lists(fs, root, entries),
        forall|i: int|
            0 <= i < entries.len() ==> fs.canonical(joined(root, #[trigger] entries[i]))
                == CanonicalizedView::Missing,
    ensures
        resolution(fs, objects_dir) == Ok::<Seq<Store>, ResolveErrorView>(Seq::empty()),
{
    lemma_dangling_entries(fs, seq![root], Seq::empty(), root, entries);
}

/// The chain after a first entry that leads to a directory without
/// alternates file, which is neither under expansion nor in the chain yet.
proof fn lemma_follow_leaf(
    fs: SnapshotView,
    active: Seq<Seq<u8>>,
    chain: Seq<Store>,
    base: Seq<u8>,
    entries: Seq<Seq<u8>>,
    directory: Seq<u8>,
)
    requires
        entries.len() > 0,
        leads_to(fs, base, entries[0], directory),
        !active.contains(directory),
        !directories_of(chain).contains(directory),
        fs.alternates(directory) == FileReadView::Absent,
    ensures
        follow(fs, active, chain, base, entries) == follow(
            fs,
            active,
            chain.push(Store { directory, literal: entries[0] }),
            base,
            entries.skip(1),
        ),
{
    lemma_canonical_is_target(fs.paths, joined(base, entries[0]));
    lemma_unseen_decreases(fs, chain, Store { directory, literal: entries[0] });
}

/// A single link: an objects directory that lists one alternate, which has
/// no alternates file of its own, has a chain of exactly that alternate.
pub proof fn law_single_link(
    fs: SnapshotView,
    objects_dir: Seq<u8>,
    root: Seq<u8>,
    entry: Seq<u8>,
    target: Seq<u8>,
)
    requires
        fs.canonical(objects_dir) == CanonicalizedView::Found(root),
        lists(fs, root, seq![entry]),
        leads_to(fs, root, entry, target),
        target != root,
        fs.alternates(target) == FileReadView::Absent,
    ensures
        resolution(fs, objects_dir) == Ok::<Seq<Store>, ResolveErrorView>(
            seq![Store { directory: target, literal: entry }],
        ),
{
    let entries = seq![entry];
    let chain = Seq::<Store>::empty();
    assert(directories_of(chain).len() == 0);
    lemma_follow_leaf(fs, seq![root], chain, root, entries, target);
    assert(chain.push(Store { directory: target, literal: entry }) =~= seq![
        Store { directory: target, literal: entry },
    ]);
}

/// A directory that lists itself as its only alternate is a cycle of one.
pub proof fn law_self_reference_is_a_cycle(
    fs: SnapshotView,
    objects_dir: Seq<u8>,
    root: Seq<u8>,
    entry: Seq<u8>,
)
    requires
        fs.canonical(objects_dir) == CanonicalizedView::Found(root),
        lists(fs, root, seq![entry]),
        leads_to(fs, root, entry, root),
    ensures
        resolution(fs, objects_dir) == Err::<Seq<Store>, ResolveErrorView>(
            ResolveErrorView::Cycle(seq![root]),
        ),
{
    let active = seq![root];
    assert(active[0] == root);
    lemma_first_position(active, root);
    assert(active.skip(0) =~= active);
}

/// Two directories that list each other as their only alternate are a cycle
/// of two, which starts with the directory whose alternates were asked for.
pub proof fn law_two_directories_in_a_cycle(
    fs: SnapshotView,
    objects_dir: Seq<u8>,
    first: Seq<u8>,
    second: Seq<u8>,
    forth: Seq<u8>,
    back: Seq<u8>,
)
    requires
        fs.canonical(objects_dir) == CanonicalizedView::Found(first),
        first != second,
        lists(fs, first, seq![forth]),
        leads_to(fs, first, forth, second),
        lists(fs, second, seq![back]),
        leads_to(fs, second, back, first),
    ensures
        resolution(fs, objects_dir) == Err::<Seq<Store>, ResolveErrorView>(
            ResolveErrorView::Cycle(seq![first, second]),
        ),
{
    let outer = seq![first];
    let inner = outer.push(second);
    let nothing = Seq::<Store>::empty();
    let found = nothing.push(Store { directory: second, literal: forth });
    assert(directories_of(nothing).len() == 0);
    assert(inner[0] == first);
    lemma_first_position(inner, first);
    assert(inner.skip(0) =~= seq![first, second]);
    lemma_canonical_is_target(fs.paths, joined(first, forth));
    lemma_unseen_decreases(fs, nothing, Store { directory: second, literal: forth });
    assert(follow(fs, inner, found, second, seq![back]) == Err::<Seq<Store>, FailureView>(
        FailureView::Cycle { chain: seq![first, second] },
    ));
    assert(follow(fs, outer, nothing, first, seq![forth]) == follow(
        fs,
        inner,
        found,
        second,
        seq![back],
    ));
}

/// A diamond: the directory that two alternates share is in the chain once,
/// right behind the alternate that is listed first and in front of the one
/// that is listed second.
pub proof fn law_diamond_is_listed_once(
    fs: SnapshotView,
    objects_dir: Seq<u8>,
    top: Seq<u8>,
    left: Store,
    right: Store,
    bottom: Seq<u8>,
    from_left: Seq<u8>,
    from_right: Seq<u8>,
)
    requires
        fs.canonical(objects_dir) == CanonicalizedView::Found(top),
        top != left.directory && top != right.directory && top != bottom,
        left.directory != right.directory && left.directory != bottom && right.directory
            != bottom,
        lists(fs, top, seq![left.literal, right.literal]),
        leads_to(fs, top, left.literal, left.directory),
        leads_to(fs, top, right.literal, right.directory),
        lists(fs, left.directory, seq![from_left]),
        leads_to(fs, left.directory, from_left, bottom),
        lists(fs, right.directory, seq![from_right]),
        leads_to(fs, right.directory, from_right, bottom),
        fs.alternates(bottom) == FileReadView::Absent,
    ensures
        resolution(fs, objects_dir) == Ok::<Seq<Store>, ResolveErrorView>(
            seq![left, Store { directory: bottom, literal: from_left }, right],
        ),
{
    let shared = Store { directory: bottom, literal: from_left };
    let nothing = Seq::<Store>::empty();
    let one = nothing.push(left);
    let two = one.push(shared);
    let three = two.push(right);
    let outer = seq![top];
    let entries = seq![left.literal, right.literal];
    assert(directories_of(nothing).len() == 0);
    assert(directories_of(one) =~= seq![left.directory]);
    assert(directories_of(two) =~= seq![left.directory, bottom]);
    assert(directories_of(three) =~= seq![left.directory, bottom, right.directory]);
    assert(directories_of(two)[1] == bottom);
    assert(directories_of(three)[1] == bottom);

    // below the alternate that is listed first
    let inner_left = outer.push(left.directory);
    lemma_follow_leaf(fs, inner_left, one, left.directory, seq![from_left], bottom);
    assert(seq![from_left].skip(1).len() == 0);
    assert(follow(fs, inner_left, one, left.directory, seq![from_left]) == Ok::<
        Seq<Store>,
        FailureView,
    >(two));

    lemma_canonical_is_target(fs.paths, joined(top, left.literal));
    lemma_unseen_decreases(fs, nothing, left);
    assert(one.is_prefix_of(two));
    lemma_unseen_shrinks(fs, one, two);
    assert(entries.skip(1) =~= seq![right.literal]);
    assert(follow(fs, outer, nothing, top, entries) == follow(
        fs,
        outer,
        two,
        top,
        seq![right.literal],
    ));

    // below the alternate that is listed second
    let inner_right = outer.push(right.directory);
    assert(seq![from_right].skip(1).len() == 0);
    assert(!inner_right.contains(bottom)) by {
        assert(inner_right =~= seq![top, right.directory]);
    }
    assert(!outer.contains(right.directory));
    assert(!directories_of(two).contains(right.directory));
    assert(follow(fs, inner_right, three, right.directory, seq![from_right].skip(1)) == Ok::<
        Seq<Store>,
        FailureView,
    >(three));
    assert(follow(fs, inner_right, three, right.directory, seq![from_right]) == Ok::<
        Seq<Store>,
        FailureView,
    >(three));
    lemma_canonical_is_target(fs.paths, joined(top, right.literal));
    lemma_unseen_decreases(fs, two, right);
    assert(seq![right.literal].skip(1).len() == 0);
    assert(two.is_prefix_of(three));
    assert(follow(fs, outer, three, top, seq![right.literal].skip(1)) == Ok::<
        Seq<Store>,
        FailureView,
    >(three));
    assert(follow(fs, outer, two, top, seq![right.literal]) == Ok::<Seq<Store>, FailureView>(
        three,
    ));
    assert(three =~= seq![left, shared, right]);
}

} // verus!
