use git_repository::alternate::parse::{content, ParseError};
use git_repository::alternate::path::join;
use git_repository::bytes::{append, same, to_owned};
use git_repository::alternate::unquote::undo;

fn paths(entries: &[&[u8]]) -> Vec<Vec<u8>> {
    entries.iter().map(|entry| entry.to_vec()).collect()
}

#[test]
fn empty_file_lists_nothing() {
    assert_eq!(content(b"").unwrap(), paths(&[]));
    assert_eq!(content(b"\n\n\n").unwrap(), paths(&[]));
}

#[test]
fn one_path_per_line_in_file_order() {
    assert_eq!(content(b"/a\n../b\nc d\n").unwrap(), paths(&[b"/a", b"../b", b"c d"]));
}

#[test]
fn last_line_needs_no_line_feed() {
    assert_eq!(content(b"/a\n/b").unwrap(), paths(&[b"/a", b"/b"]));
    assert_eq!(content(b"/a").unwrap(), paths(&[b"/a"]));
}

#[test]
fn empty_lines_and_comments_are_skipped() {
    assert_eq!(content(b"\n# a comment\n/a\n\n#/b\n/c\n").unwrap(), paths(&[b"/a", b"/c"]));
}

#[test]
fn hash_inside_a_line_is_part_of_the_path() {
    assert_eq!(content(b"/a#b\n #c\n").unwrap(), paths(&[b"/a#b", b" #c"]));
}

#[test]
fn whitespace_is_kept() {
    assert_eq!(content(b" /a b \n\t/c\n").unwrap(), paths(&[b" /a b ", b"\t/c"]));
}

#[test]
fn trailing_carriage_return_is_stripped() {
    assert_eq!(content(b"/a\r\n/b\r").unwrap(), paths(&[b"/a", b"/b"]));
    assert_eq!(content(b"/a\r\r\n").unwrap(), paths(&[b"/a\r"]));
    assert_eq!(content(b"/a\rb\n").unwrap(), paths(&[b"/a\rb"]));
}

#[test]
fn line_of_a_carriage_return_alone_is_empty() {
    assert_eq!(content(b"\r\n/a\r\n\r\n").unwrap(), paths(&[b"/a"]));
}

#[test]
fn quoted_paths_are_unquoted() {
    assert_eq!(content(b"\"/a b\"\n\"/c\\n\"\r\n").unwrap(), paths(&[b"/a b", b"/c\n"]));
    assert_eq!(content(b"\"\"\n").unwrap(), paths(&[b""]));
}

#[test]
fn malformed_quoting_fails_the_whole_file() {
    match content(b"/a\n\"/b\n/c\n") {
        Err(ParseError::Unquote { line }) => assert_eq!(line, b"\"/b".to_vec()),
        Ok(_) => unreachable!("an open quote is an error"),
    }
    match content(b"\"/a\\x\"\r\n\"/b") {
        Err(ParseError::Unquote { line }) => assert_eq!(line, b"\"/a\\x\"".to_vec()),
        Ok(_) => unreachable!("the first malformed line is reported"),
    }
}

#[test]
fn quote_inside_a_line_is_part_of_the_path() {
    assert_eq!(content(b"/a\"b\n").unwrap(), paths(&[b"/a\"b"]));
}

#[test]
fn undo_simple_escapes() {
    assert_eq!(undo(b"\"\\a\\b\\t\\n\\v\\f\\r\\\"\\\\\""), Some(vec![7, 8, 9, 10, 11, 12, 13, b'"', b'\\']));
}

#[test]
fn undo_octal_escapes() {
    assert_eq!(undo(b"\"\\000\\101\\377\\1234\""), Some(vec![0, 0o101, 0o377, 0o123, b'4']));
}

#[test]
fn undo_keeps_other_bytes() {
    assert_eq!(undo(b"\"plain \xff bytes\""), Some(b"plain \xff bytes".to_vec()));
    assert_eq!(undo(b"\"\""), Some(vec![]));
}

#[test]
fn undo_rejects_malformed_input() {
    assert_eq!(undo(b""), None);
    assert_eq!(undo(b"no quote"), None);
    assert_eq!(undo(b"\""), None);
    assert_eq!(undo(b"\"open"), None);
    assert_eq!(undo(b"\"closed\"tail"), None);
    assert_eq!(undo(b"\"\\"), None);
    assert_eq!(undo(b"\"\\\""), None);
    assert_eq!(undo(b"\"\\x\""), None);
    assert_eq!(undo(b"\"\\400\""), None);
    assert_eq!(undo(b"\"\\08\""), None);
    assert_eq!(undo(b"\"\\12\""), None);
    assert_eq!(undo(b"\"\\1"), None);
}

#[test]
fn join_relative_and_absolute() {
    assert_eq!(join(b"/repo/objects", b"../other"), b"/repo/objects/../other".to_vec());
    assert_eq!(join(b"/repo/objects", b"/abs"), b"/abs".to_vec());
    assert_eq!(join(b"/repo/objects/", b"rel"), b"/repo/objects/rel".to_vec());
    assert_eq!(join(b"/", b"rel"), b"/rel".to_vec());
    assert_eq!(join(b"", b"rel"), b"rel".to_vec());
    assert_eq!(join(b"/repo", b""), b"/repo/".to_vec());
}

#[test]
fn same_bytes() {
    assert!(same(b"", b""));
    assert!(same(b"/a/b", b"/a/b"));
    assert!(!same(b"/a/b", b"/a/c"));
    assert!(!same(b"/a/b", b"/a"));
    assert!(!same(b"/a", b"/a/b"));
    assert_eq!(to_owned(b"/a/b"), b"/a/b".to_vec());
}

#[test]
fn append_adds_to_the_end() {
    let mut buffer = b"head".to_vec();
    append(&mut buffer, b"");
    assert_eq!(buffer, b"head".to_vec());
    append(&mut buffer, b" and tail");
    assert_eq!(buffer, b"head and tail".to_vec());
}
