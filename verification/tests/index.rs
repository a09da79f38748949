use replay::errors::ReplayError;
use replay::session::index::{RevIndexIter, SessionIndexFile, INDEX_SIZE};

fn id(fill: char) -> String {
    std::iter::repeat(fill).take(64).collect()
}

fn collect(index: &SessionIndexFile) -> Vec<String> {
    let mut it = index.iter_session_ids_rev();
    let mut out = Vec::new();
    while let Some(next) = it.next() {
        out.push(next);
    }
    out
}

#[test]
fn ids_are_read_newest_first() {
    let (a, b, c) = (id('a'), id('b'), id('c'));
    let mut index = SessionIndexFile::new();
    index.push_session(&a);
    index.push_session(&b);
    index.push_session(&c);
    assert_eq!(index.len(), 3);
    assert_eq!(index.as_bytes().len(), 3 * INDEX_SIZE);
    assert_eq!(index.get_id_offset_by_index(0).unwrap(), 128);
    assert_eq!(index.get_id_offset_by_index(1).unwrap(), 64);
    assert_eq!(index.get_id_offset_by_index(2).unwrap(), 0);
    assert_eq!(index.read_id_at(128), c);
    assert_eq!(index.get_session_id(0).unwrap(), c);
    assert_eq!(index.get_session_id(1).unwrap(), b);
    assert_eq!(index.get_session_id(2).unwrap(), a);
    assert_eq!(collect(&index), vec![c.clone(), b.clone(), a.clone()]);
    assert_eq!(index.session_ids_rev(), vec![c.clone(), b.clone(), a.clone()]);
    assert_eq!(index.peek_session_id().unwrap(), c);
}

#[test]
fn removing_the_middle_id_leaves_the_others_as_they_were() {
    let (a, b, c) = (id('a'), id('b'), id('c'));
    let mut index = SessionIndexFile::new();
    index.push_session(&a);
    index.push_session(&b);
    index.push_session(&c);
    assert_eq!(index.remove_session_id(1).unwrap(), b);
    assert_eq!(collect(&index), vec![c.clone(), a.clone()]);
    assert_eq!(index.session_ids_rev(), vec![c.clone(), a.clone()]);
    assert_eq!(index.get_session_id(0).unwrap(), c);
    assert_eq!(index.get_session_id(1).unwrap(), a);
    let mut expected = a.clone().into_bytes();
    expected.extend_from_slice(c.as_bytes());
    assert_eq!(index.as_bytes(), &expected[..]);
    assert_eq!(&index.as_bytes()[..64], a.as_bytes());
}

#[test]
fn the_two_failures_of_a_lookup_are_told_apart() {
    let mut index = SessionIndexFile::new();
    let empty = index.get_id_offset_by_index(0);
    assert!(matches!(
        empty,
        Err(ReplayError::SessionError(ref msg)) if msg == "No replay entries found"
    ));
    assert!(matches!(
        index.get_session_id(7),
        Err(ReplayError::SessionError(ref msg)) if msg == "No replay entries found"
    ));
    index.push_session(&id('a'));
    let past = index.get_id_offset_by_index(1);
    assert!(matches!(
        past,
        Err(ReplayError::SessionError(ref msg)) if msg == "Replay index out of range"
    ));
    assert!(matches!(
        index.remove_session_id(u32::MAX),
        Err(ReplayError::SessionError(ref msg)) if msg == "Replay index out of range"
    ));
    assert_eq!(index.len(), 1);
    assert_eq!(
        ReplayError::no_entries().message(),
        "Session error: No replay entries found"
    );
    assert_eq!(
        ReplayError::out_of_range().message(),
        "Session error: Replay index out of range"
    );
}

#[test]
fn pop_takes_the_newest_id() {
    let mut index = SessionIndexFile::from_bytes([id('a'), id('b')].concat().into_bytes());
    assert_eq!(index.pop_session_id().unwrap(), id('b'));
    assert_eq!(index.as_bytes(), id('a').as_bytes());
    assert_eq!(index.pop_session_id().unwrap(), id('a'));
    assert!(index.as_bytes().is_empty());
    assert!(index.pop_session_id().is_err());
}

#[test]
fn records_are_taken_from_the_end_of_the_file() {
    let mut bytes = b"junk".to_vec();
    bytes.extend_from_slice(id('a').as_bytes());
    bytes.extend_from_slice(id('b').as_bytes());
    let index = SessionIndexFile::from_bytes(bytes.clone());
    assert_eq!(index.len(), 2);
    assert_eq!(index.get_id_offset_by_index(0).unwrap(), 68);
    assert_eq!(index.get_session_id(1).unwrap(), id('a'));
    assert!(index.get_session_id(2).is_err());
    let mut it = RevIndexIter::new(&bytes);
    assert_eq!(it.next(), Some(id('b')));
    assert_eq!(it.next(), Some(id('a')));
    assert_eq!(it.next(), None);
    assert_eq!(it.next(), None);
}

#[test]
fn an_id_that_is_not_utf8_is_read_with_replacement_characters() {
    let mut bytes = vec![b'0'; 64];
    bytes[0] = 0xff;
    let index = SessionIndexFile::from_bytes(bytes);
    let read = index.get_session_id(0).unwrap();
    assert!(read.starts_with('\u{fffd}'));
    assert_eq!(read.chars().count(), 64);
}

#[test]
fn the_walk_of_an_empty_index_yields_nothing() {
    let index = SessionIndexFile::new();
    assert!(index.session_ids_rev().is_empty());
    assert_eq!(index.iter_session_ids_rev().next(), None);
}
