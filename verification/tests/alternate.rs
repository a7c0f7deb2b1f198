use git_repository::alternate;
use git_repository::alternate::snapshot::Snapshot;
use git_repository::alternate::walk::{Canonicalized, Failure, FileRead, IoFailure, Walk};
use git_repository::alternate::{ObjectsDirectory, ResolveError, ResolvedStore};

fn dir(path: &str) -> ObjectsDirectory {
    ObjectsDirectory { path: path.as_bytes().to_vec() }
}

/// Let the directory at `path` exist under that very path.
fn present(fs: &mut Snapshot, path: &str) {
    fs.record_path(path.as_bytes().to_vec(), Canonicalized::Found(dir(path)));
}

/// Let `objects_at` and `objects_to` exist, and let the former list the latter as its only alternate.
fn alternate(fs: &mut Snapshot, objects_at: &str, objects_to: &str) -> (Vec<u8>, Vec<u8>) {
    alternate_with(fs, objects_at, objects_to, None)
}

fn alternate_with(
    fs: &mut Snapshot,
    objects_at: &str,
    objects_to: &str,
    content_before_to: Option<&str>,
) -> (Vec<u8>, Vec<u8>) {
    present(fs, objects_at);
    present(fs, objects_to);
    let contents = if let Some(content) = content_before_to {
        let mut c = vec![b'\n'];
        c.extend(content.as_bytes());
        c.extend(objects_to.as_bytes());
        c
    } else {
        objects_to.as_bytes().to_owned()
    };
    fs.record_alternates(objects_at.as_bytes().to_vec(), FileRead::Content(contents));
    (objects_at.as_bytes().to_vec(), objects_to.as_bytes().to_vec())
}

fn file_name(directory: &ObjectsDirectory) -> String {
    let path = String::from_utf8(directory.path.clone()).expect("utf8");
    path.rsplit('/').next().expect("non-root").to_owned()
}

fn names(chain: &[ResolvedStore]) -> Vec<String> {
    chain.iter().map(|store| file_name(&store.directory)).collect()
}

#[test]
fn circular_alternates_are_detected() {
    let mut fs = Snapshot::new();
    let (from, _) = alternate(&mut fs, "/tmp/alternates/a", "/tmp/alternates/b");
    alternate(&mut fs, "/tmp/alternates/b", "/tmp/alternates/a");

    match alternate::resolve(&fs, &from) {
        Err(ResolveError::Cycle(chain)) => {
            assert_eq!(chain.iter().map(file_name).collect::<Vec<_>>(), vec!["a", "b"]);
        }
        _ => unreachable!("should be a specific kind of error"),
    }
}

#[test]
fn single_link() {
    let mut fs = Snapshot::new();
    let non_alternate = "/tmp/alternates/actual";

    let (from, to) = alternate(&mut fs, "/tmp/alternates/a", non_alternate);
    let alternates = alternate::resolve(&fs, &from).unwrap();
    assert_eq!(alternates.len(), 1);
    assert_eq!(alternates[0].directory.path, to);
}

#[test]
fn no_alternate_in_first_objects_dir() {
    let mut fs = Snapshot::new();
    present(&mut fs, "/tmp/alternates");
    assert!(alternate::resolve(&fs, b"/tmp/alternates").unwrap().is_empty());
}

#[test]
fn self_reference_is_a_cycle_of_one() {
    let mut fs = Snapshot::new();
    let (from, _) = alternate(&mut fs, "/repo/a", "/repo/a");
    assert_eq!(alternate::resolve(&fs, &from), Err(ResolveError::Cycle(vec![dir("/repo/a")])));
}

#[test]
fn cycle_lists_the_directories_from_the_one_reached_again() {
    // root -> a -> b -> a: the root is under expansion too, but it is no part of the cycle
    let mut fs = Snapshot::new();
    alternate(&mut fs, "/repo/root", "/repo/a");
    alternate(&mut fs, "/repo/a", "/repo/b");
    alternate(&mut fs, "/repo/b", "/repo/a");
    assert_eq!(
        alternate::resolve(&fs, b"/repo/root"),
        Err(ResolveError::Cycle(vec![dir("/repo/a"), dir("/repo/b")]))
    );
}

#[test]
fn diamond_lists_the_shared_directory_once() {
    let mut fs = Snapshot::new();
    for path in ["/repo/a", "/repo/b", "/repo/c", "/repo/d"] {
        present(&mut fs, path);
    }
    fs.record_alternates(b"/repo/a".to_vec(), FileRead::Content(b"/repo/b\n/repo/c\n".to_vec()));
    fs.record_alternates(b"/repo/b".to_vec(), FileRead::Content(b"/repo/d\n".to_vec()));
    fs.record_alternates(b"/repo/c".to_vec(), FileRead::Content(b"/repo/d\n".to_vec()));

    let chain = alternate::resolve(&fs, b"/repo/a").unwrap();
    assert_eq!(names(&chain), vec!["b", "d", "c"]);
}

#[test]
fn alternates_of_an_alternate_come_before_its_siblings() {
    let mut fs = Snapshot::new();
    for path in ["/r", "/r/x", "/r/x1", "/r/x2", "/r/y", "/r/y1"] {
        present(&mut fs, path);
    }
    fs.record_alternates(b"/r".to_vec(), FileRead::Content(b"/r/x\n/r/y".to_vec()));
    fs.record_alternates(b"/r/x".to_vec(), FileRead::Content(b"/r/x1\n/r/x2\n".to_vec()));
    fs.record_alternates(b"/r/y".to_vec(), FileRead::Content(b"/r/y1\n".to_vec()));
    let chain = alternate::resolve(&fs, b"/r").unwrap();
    assert_eq!(names(&chain), vec!["x", "x1", "x2", "y", "y1"]);
}

#[test]
fn dangling_entry_is_skipped() {
    let mut fs = Snapshot::new();
    present(&mut fs, "/repo/a");
    fs.record_alternates(b"/repo/a".to_vec(), FileRead::Content(b"/does/not/exist\n".to_vec()));
    assert_eq!(alternate::resolve(&fs, b"/repo/a"), Ok(vec![]));
}

#[test]
fn dangling_entry_does_not_hide_later_entries() {
    let mut fs = Snapshot::new();
    present(&mut fs, "/repo/a");
    present(&mut fs, "/repo/b");
    fs.record_alternates(b"/repo/a".to_vec(), FileRead::Content(b"/gone\n/repo/b\n".to_vec()));
    let chain = alternate::resolve(&fs, b"/repo/a").unwrap();
    assert_eq!(
        chain,
        vec![ResolvedStore { directory: dir("/repo/b"), literal: b"/repo/b".to_vec() }]
    );
}

#[test]
fn resolving_twice_gives_the_same_chain() {
    let mut fs = Snapshot::new();
    alternate(&mut fs, "/repo/a", "/repo/b");
    alternate(&mut fs, "/repo/b", "/repo/c");
    let first = alternate::resolve(&fs, b"/repo/a");
    let second = alternate::resolve(&fs, b"/repo/a");
    assert_eq!(first, second);
    assert_eq!(names(&first.unwrap()), vec!["b", "c"]);
}

#[test]
fn relative_entries_are_relative_to_the_objects_directory() {
    let mut fs = Snapshot::new();
    present(&mut fs, "/repo/a/objects");
    // the path that the walk asks for is not canonical, the directory it leads to is
    fs.record_path(b"/repo/a/objects/../../b/objects".to_vec(), Canonicalized::Found(dir("/repo/b/objects")));
    fs.record_alternates(b"/repo/a/objects".to_vec(), FileRead::Content(b"../../b/objects\n".to_vec()));
    let chain = alternate::resolve(&fs, b"/repo/a/objects").unwrap();
    assert_eq!(
        chain,
        vec![ResolvedStore { directory: dir("/repo/b/objects"), literal: b"../../b/objects".to_vec() }]
    );
}

#[test]
fn two_spellings_of_one_directory_are_one_alternate() {
    let mut fs = Snapshot::new();
    present(&mut fs, "/repo/a");
    present(&mut fs, "/repo/b");
    fs.record_path(b"/repo/a/../b".to_vec(), Canonicalized::Found(dir("/repo/b")));
    fs.record_alternates(b"/repo/a".to_vec(), FileRead::Content(b"/repo/b\n../b\n".to_vec()));
    let chain = alternate::resolve(&fs, b"/repo/a").unwrap();
    assert_eq!(chain.len(), 1);
    assert_eq!(chain[0].literal, b"/repo/b".to_vec());
}

#[test]
fn root_is_known_by_its_canonical_path() {
    let mut fs = Snapshot::new();
    fs.record_path(b"link".to_vec(), Canonicalized::Found(dir("/repo/a")));
    present(&mut fs, "/repo/a");
    fs.record_alternates(b"/repo/a".to_vec(), FileRead::Content(b"/repo/a".to_vec()));
    assert_eq!(alternate::resolve(&fs, b"link"), Err(ResolveError::Cycle(vec![dir("/repo/a")])));
}

#[test]
fn unreadable_alternates_file_is_fatal() {
    let mut fs = Snapshot::new();
    alternate(&mut fs, "/repo/a", "/repo/b");
    fs.record_alternates(b"/repo/b".to_vec(), FileRead::Unreadable);
    assert_eq!(
        alternate::resolve(&fs, b"/repo/a"),
        Err(ResolveError::UnreadableFile { directory: dir("/repo/b") })
    );
}

#[test]
fn malformed_alternates_file_is_fatal() {
    let mut fs = Snapshot::new();
    present(&mut fs, "/repo/a");
    present(&mut fs, "/repo/b");
    fs.record_alternates(b"/repo/a".to_vec(), FileRead::Content(b"/repo/b\n\"/repo/c\n".to_vec()));
    assert_eq!(
        alternate::resolve(&fs, b"/repo/a"),
        Err(ResolveError::MalformedFile { directory: dir("/repo/a"), line: b"\"/repo/c".to_vec() })
    );
}

#[test]
fn path_that_cannot_be_resolved_is_fatal() {
    let mut fs = Snapshot::new();
    present(&mut fs, "/repo/a");
    fs.record_path(b"/repo/locked".to_vec(), Canonicalized::Failed);
    fs.record_alternates(b"/repo/a".to_vec(), FileRead::Content(b"/repo/locked\n".to_vec()));
    assert_eq!(
        alternate::resolve(&fs, b"/repo/a"),
        Err(ResolveError::Inaccessible { path: b"/repo/locked".to_vec() })
    );
}

#[test]
fn root_that_does_not_exist_is_an_error() {
    let fs = Snapshot::new();
    assert_eq!(
        alternate::resolve(&fs, b"/nowhere"),
        Err(ResolveError::Inaccessible { path: b"/nowhere".to_vec() })
    );
}

#[test]
fn later_records_of_a_snapshot_count() {
    let mut fs = Snapshot::new();
    alternate(&mut fs, "/repo/a", "/repo/b");
    assert_eq!(fs.read_alternates(b"/repo/a"), FileRead::Content(b"/repo/b".to_vec()));
    fs.record_alternates(b"/repo/a".to_vec(), FileRead::Absent);
    assert_eq!(fs.read_alternates(b"/repo/a"), FileRead::Absent);
    assert_eq!(fs.read_alternates(b"/repo/b"), FileRead::Absent);
    assert_eq!(fs.canonicalize(b"/repo/b"), Canonicalized::Found(dir("/repo/b")));
    fs.record_path(b"/repo/b".to_vec(), Canonicalized::Missing);
    assert_eq!(fs.canonicalize(b"/repo/b"), Canonicalized::Missing);
    assert_eq!(fs.canonicalize(b"/repo/c"), Canonicalized::Missing);
    assert_eq!(alternate::resolve(&fs, b"/repo/a"), Ok(vec![]));
}

#[test]
fn walk_asks_for_one_operation_at_a_time() {
    let walk = Walk::start(b"objects");
    let pending = match walk {
        Walk::Canonicalize(pending) => pending,
        _ => unreachable!("the root is canonicalized first"),
    };
    assert_eq!(pending.path(), b"objects");
    let pending = match pending.canonicalized(Canonicalized::Found(dir("/repo/objects"))) {
        Walk::ReadAlternates(pending) => pending,
        _ => unreachable!("the alternates of the root are read next"),
    };
    assert_eq!(pending.directory(), b"/repo/objects");
    let pending = match pending.read(FileRead::Content(b"# comment\n\nother\r\n/abs\n".to_vec())) {
        Walk::Canonicalize(pending) => pending,
        _ => unreachable!("the first entry is canonicalized next"),
    };
    assert_eq!(pending.path(), b"/repo/objects/other");
    let pending = match pending.canonicalized(Canonicalized::Missing) {
        Walk::Canonicalize(pending) => pending,
        _ => unreachable!("the second entry is canonicalized next"),
    };
    assert_eq!(pending.path(), b"/abs");
    let pending = match pending.canonicalized(Canonicalized::Found(dir("/abs"))) {
        Walk::ReadAlternates(pending) => pending,
        _ => unreachable!("the alternates of the directory found are read next"),
    };
    assert_eq!(pending.directory(), b"/abs");
    match pending.read(FileRead::Absent) {
        Walk::Finished(Ok(chain)) => {
            assert_eq!(chain, vec![ResolvedStore { directory: dir("/abs"), literal: b"/abs".to_vec() }]);
        }
        _ => unreachable!("nothing is left to do"),
    }
}

#[test]
fn failure_of_a_walk_is_reported_by_its_kind() {
    assert_eq!(alternate::conclude(Ok(vec![])), Ok(vec![]));
    assert_eq!(
        alternate::conclude(Err(Failure::Cycle { chain: vec![dir("/a")] })),
        Err(ResolveError::Cycle(vec![dir("/a")]))
    );
    assert_eq!(
        alternate::conclude(Err(Failure::Unreadable { directory: dir("/a") })),
        Err(ResolveError::UnreadableFile { directory: dir("/a") })
    );
    assert_eq!(
        alternate::conclude(Err(Failure::Malformed { directory: dir("/a"), line: b"\"".to_vec() })),
        Err(ResolveError::MalformedFile { directory: dir("/a"), line: b"\"".to_vec() })
    );
    assert_eq!(
        alternate::conclude(Err(Failure::Inaccessible { path: b"/a".to_vec() })),
        Err(ResolveError::Inaccessible { path: b"/a".to_vec() })
    );
}

#[test]
fn absence_is_no_failure_when_canonicalizing() {
    assert_eq!(Canonicalized::from_attempt(Ok(b"/repo/a".to_vec())), Canonicalized::Found(dir("/repo/a")));
    assert_eq!(Canonicalized::from_attempt(Err(IoFailure::NotFound)), Canonicalized::Missing);
    assert_eq!(Canonicalized::from_attempt(Err(IoFailure::NotADirectory)), Canonicalized::Missing);
    assert_eq!(Canonicalized::from_attempt(Err(IoFailure::PermissionDenied)), Canonicalized::Failed);
    assert_eq!(Canonicalized::from_attempt(Err(IoFailure::Other)), Canonicalized::Failed);
}

#[test]
fn only_a_file_that_is_not_found_is_absent() {
    assert_eq!(FileRead::from_attempt(Ok(b"/repo/b\n".to_vec())), FileRead::Content(b"/repo/b\n".to_vec()));
    assert_eq!(FileRead::from_attempt(Ok(vec![])), FileRead::Content(vec![]));
    assert_eq!(FileRead::from_attempt(Err(IoFailure::NotFound)), FileRead::Absent);
    assert_eq!(FileRead::from_attempt(Err(IoFailure::NotADirectory)), FileRead::Unreadable);
    assert_eq!(FileRead::from_attempt(Err(IoFailure::PermissionDenied)), FileRead::Unreadable);
    assert_eq!(FileRead::from_attempt(Err(IoFailure::Other)), FileRead::Unreadable);
}
