use arson::registry::{ChunkAccept, Direction, SharerRegistry};

fn download(reg: &mut SharerRegistry<u32>, name: &str, size: u64, id: u64) {
    assert!(reg.prepare(format!("/tmp/{}", name), 1, name.to_string(), Direction::Download).is_ok());
    assert!(reg.promote(name, size, id));
}

#[test]
fn free_ids_are_never_repeated_or_in_use() {
    let mut reg: SharerRegistry<u32> = SharerRegistry::new();
    download(&mut reg, "x", 1, 1);
    download(&mut reg, "y", 1, 2);
    assert_eq!(reg.free_id(), Some(0));
    assert_eq!(reg.free_id(), Some(3));
    assert!(reg.remove_by_id(1).is_some());
    assert_eq!(reg.free_id(), Some(4));
}

#[test]
fn promote_refuses_an_id_in_use() {
    let mut reg: SharerRegistry<u32> = SharerRegistry::new();
    download(&mut reg, "x", 1, 5);
    assert!(reg.prepare("/tmp/y".to_string(), 2, "y".to_string(), Direction::Download).is_ok());
    assert!(!reg.promote("y", 1, 5));
    assert!(reg.contains_pending("y"));
    assert!(reg.promote("y", 1, 6));
    assert!(!reg.contains_pending("y"));
    assert!(reg.contains_id(5) && reg.contains_id(6));
}

#[test]
fn promote_without_pending_sharer_does_nothing() {
    let mut reg: SharerRegistry<u32> = SharerRegistry::new();
    assert!(!reg.promote("nobody", 3, 1));
    assert!(!reg.contains_id(1));
}

#[test]
fn prepare_refuses_a_pending_name() {
    let mut reg: SharerRegistry<u32> = SharerRegistry::new();
    assert_eq!(reg.prepare("/a".to_string(), 1, "n".to_string(), Direction::Upload), Ok(()));
    assert_eq!(reg.prepare("/b".to_string(), 2, "n".to_string(), Direction::Upload), Err(2));
}

#[test]
fn remove_by_id_twice() {
    let mut reg: SharerRegistry<u32> = SharerRegistry::new();
    download(&mut reg, "x", 4, 3);
    let first = reg.remove_by_id(3).expect("sharer");
    assert_eq!(first.id, 3);
    assert_eq!(first.name, "x");
    assert!(reg.remove_by_id(3).is_none());
}

#[test]
fn remove_unpromoted_by_name_takes_the_waiting_sharer() {
    let mut reg: SharerRegistry<u32> = SharerRegistry::new();
    assert!(reg.prepare("/tmp/c".to_string(), 8, "c".to_string(), Direction::Download).is_ok());
    let s = reg.remove_unpromoted_by_name("c").expect("sharer");
    assert_eq!(s.handle, 8);
    assert!(reg.remove_unpromoted_by_name("c").is_none());
}

#[test]
fn one_chunk_of_the_whole_size_completes() {
    let mut reg: SharerRegistry<u32> = SharerRegistry::new();
    download(&mut reg, "x", 4, 1);
    assert_eq!(reg.accept_chunk(1, 4), ChunkAccept::Write { offset: 0, len: 4, done: true });
}

#[test]
fn byte_sized_chunks_complete_at_the_last_byte() {
    let mut reg: SharerRegistry<u32> = SharerRegistry::new();
    download(&mut reg, "x", 4, 1);
    for k in 0..4u64 {
        assert_eq!(reg.accept_chunk(1, 1), ChunkAccept::Write { offset: k, len: 1, done: k == 3 });
    }
}

#[test]
fn uneven_chunks_complete_at_the_last_byte() {
    let mut reg: SharerRegistry<u32> = SharerRegistry::new();
    download(&mut reg, "x", 6, 2);
    assert_eq!(reg.accept_chunk(2, 2), ChunkAccept::Write { offset: 0, len: 2, done: false });
    assert_eq!(reg.accept_chunk(2, 3), ChunkAccept::Write { offset: 2, len: 3, done: false });
    assert_eq!(reg.accept_chunk(2, 1), ChunkAccept::Write { offset: 5, len: 1, done: true });
}

#[test]
fn chunk_beyond_the_size_is_cut() {
    let mut reg: SharerRegistry<u32> = SharerRegistry::new();
    download(&mut reg, "x", 3, 1);
    assert_eq!(reg.accept_chunk(1, 2), ChunkAccept::Write { offset: 0, len: 2, done: false });
    assert_eq!(reg.accept_chunk(1, 5), ChunkAccept::Write { offset: 2, len: 1, done: true });
}

#[test]
fn stray_chunks_are_ignored() {
    let mut reg: SharerRegistry<u32> = SharerRegistry::new();
    assert_eq!(reg.accept_chunk(42, 10), ChunkAccept::Stray);
    assert!(reg.prepare("/u".to_string(), 1, "u".to_string(), Direction::Upload).is_ok());
    assert!(reg.promote("u", 10, 42));
    assert_eq!(reg.accept_chunk(42, 10), ChunkAccept::Stray);
    assert!(reg.prepare("/d".to_string(), 1, "d".to_string(), Direction::Download).is_ok());
    assert_eq!(reg.accept_chunk(0, 1), ChunkAccept::Stray);
}

#[test]
fn handle_finds_the_promoted_file() {
    let mut reg: SharerRegistry<u32> = SharerRegistry::new();
    download(&mut reg, "x", 3, 1);
    assert_eq!(reg.handle(1), Some(&1));
    assert_eq!(reg.handle(2), None);
}
