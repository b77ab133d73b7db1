use akasha::heap::{InsertAction, TableHeap};
use akasha::page::PAGE_SIZE;
use akasha::pool::{make_key, pick_shard, BufferPool, Fetch, WriteJob};
use akasha::value::{Tuple, Value};
use std::collections::HashMap;

type Disk = HashMap<(u32, u32), Vec<u8>>;

fn write(disk: &mut Disk, job: Option<WriteJob>) {
    if let Some(w) = job {
        disk.insert((w.file_id, w.page_id), w.data);
    }
}

fn pin(pool: &mut BufferPool, disk: &mut Disk, file: u32, page: u32) -> usize {
    match pool.get_page(file, page) {
        Fetch::Hit(f) => f,
        Fetch::Load { frame, write_back } => {
            write(disk, write_back);
            let data = disk.get(&(file, page)).cloned();
            pool.complete_load(file, page, frame, data);
            frame
        }
        Fetch::Busy => panic!("every frame is pinned"),
    }
}

fn insert(pool: &mut BufferPool, disk: &mut Disk, heap: &mut TableHeap, t: &Tuple) -> (u32, usize) {
    let mut cursor = 0usize;
    loop {
        let pid = heap.target(cursor);
        let frame = pin(pool, disk, heap.file_id, pid);
        match heap.insert_next(pool, &mut cursor, frame, t) {
            InsertAction::Done { page_id, slot, write_back } => {
                write(disk, write_back);
                return (page_id, slot);
            }
            InsertAction::Pin(_) => {}
            InsertAction::Failed(e) => panic!("{:?}", e),
        }
    }
}

fn scan(pool: &mut BufferPool, disk: &mut Disk, heap: &TableHeap) -> Vec<Tuple> {
    let mut cursor = heap.scan();
    let mut rows = Vec::new();
    while let Some(pid) = cursor.next_page() {
        let frame = pin(pool, disk, heap.file_id, pid);
        rows.extend(cursor.scan_page(pool, frame).expect("page decodes"));
    }
    rows
}

fn all_unpinned(pool: &BufferPool) -> bool {
    pool.shards.iter().all(|s| s.meta.iter().all(|m| m.pin == 0))
}

fn row(i: i32) -> Tuple {
    Tuple(vec![Value::Text(format!("user{}", i)), Value::Int(i)])
}

#[test]
fn keys_and_shards() {
    assert_eq!(make_key(1, 2), (1u64 << 32) | 2);
    assert_eq!(pick_shard(5, 3, 4), (5 ^ 3) % 4);
    assert_eq!(pick_shard(0, 0, 4), 0);
}

#[test]
fn miss_then_hit_then_unpin() {
    let mut pool = BufferPool::with_capacity(1, 2);
    let f = match pool.get_page(0, 0) {
        Fetch::Load { frame, write_back } => {
            assert!(write_back.is_none());
            frame
        }
        other => panic!("{:?}", other),
    };
    pool.complete_load(0, 0, f, None);
    assert_eq!(pool.shards[0].meta[f].pin, 1);
    assert!(matches!(pool.get_page(0, 0), Fetch::Hit(g) if g == f));
    assert_eq!(pool.shards[0].meta[f].pin, 2);
    pool.unpin(0, 0, false);
    pool.unpin(0, 0, true);
    assert_eq!(pool.shards[0].meta[f].pin, 0);
    assert!(pool.shards[0].meta[f].dirty);
}

#[test]
fn returned_frames_have_valid_headers() {
    let mut pool = BufferPool::with_capacity(2, 2);
    let mut disk = Disk::new();
    disk.insert((0, 1), vec![0u8; PAGE_SIZE]);
    let mut garbage = vec![0xFFu8; PAGE_SIZE];
    garbage[2] = 0;
    garbage[3] = 0;
    disk.insert((0, 2), garbage);
    for page in 0..3u32 {
        let f = pin(&mut pool, &mut disk, 0, page);
        let bytes = pool.page_bytes(0, page, f);
        let n = u16::from_le_bytes([bytes[0], bytes[1]]) as usize;
        let free = u16::from_le_bytes([bytes[2], bytes[3]]) as usize;
        assert!(4 + 4 * n <= free && free <= PAGE_SIZE);
        pool.unpin(0, page, false);
    }
}

#[test]
fn dirty_victims_are_written_back() {
    let mut pool = BufferPool::with_capacity(1, 1);
    let mut disk = Disk::new();
    let mut heap = TableHeap::new(3);
    insert(&mut pool, &mut disk, &mut heap, &row(1));
    // The page was flushed on unpin; dirty it again in memory only.
    let f = pin(&mut pool, &mut disk, 3, 0);
    pool.insert_into(3, 0, f, &row(2)).unwrap();
    pool.unpin(3, 0, true);
    let g = pin(&mut pool, &mut disk, 9, 0);
    pool.unpin(9, 0, false);
    assert_eq!(f, g);
    let saved = disk.get(&(3, 0)).expect("written back");
    assert_eq!(u16::from_le_bytes([saved[0], saved[1]]), 2);
}

#[test]
fn every_pinned_frame_makes_the_shard_busy() {
    let mut pool = BufferPool::with_capacity(1, 2);
    let mut disk = Disk::new();
    pin(&mut pool, &mut disk, 0, 0);
    pin(&mut pool, &mut disk, 0, 1);
    assert!(matches!(pool.get_page(0, 2), Fetch::Busy));
    pool.unpin(0, 0, false);
    assert!(matches!(pool.get_page(0, 2), Fetch::Load { .. }));
}

#[test]
fn flush_hands_out_dirty_pages_once() {
    let mut pool = BufferPool::with_capacity(2, 4);
    let mut disk = Disk::new();
    for page in 0..3u32 {
        pin(&mut pool, &mut disk, 1, page);
        pool.unpin(1, page, page != 1);
    }
    let mut jobs: Vec<(u32, u32)> = pool.flush().into_iter().map(|j| (j.file_id, j.page_id)).collect();
    jobs.sort();
    assert_eq!(jobs, vec![(1, 0), (1, 2)]);
    assert!(pool.flush().is_empty());
}

#[test]
fn scan_follows_page_then_slot_order() {
    let mut pool = BufferPool::with_capacity(2, 2);
    let mut disk = Disk::new();
    let mut heap = TableHeap::new(4);
    let big = |i: i32| Tuple(vec![Value::Int(i), Value::Blob(vec![0; 1500])]);
    let mut places = Vec::new();
    for i in 0..7 {
        places.push(insert(&mut pool, &mut disk, &mut heap, &big(i)));
    }
    assert_eq!(places[0], (0, 0));
    assert_eq!(places[1], (0, 1));
    assert_eq!(places[2], (1, 0));
    assert_eq!(heap.page_ids, vec![0, 1, 2, 3]);
    let rows = scan(&mut pool, &mut disk, &heap);
    let ids: Vec<i32> = rows.iter().map(|t| t.0[0].as_int().unwrap()).collect();
    assert_eq!(ids, vec![0, 1, 2, 3, 4, 5, 6]);
    assert!(all_unpinned(&pool));
}

#[test]
fn eviction_keeps_every_tuple() {
    let mut pool = BufferPool::with_capacity(2, 2);
    let mut disk = Disk::new();
    let mut heap = TableHeap::new(2);
    let mut total = 0usize;
    for i in 0..10_000 {
        let t = row(i);
        total += t.to_bytes().len() + 4;
        insert(&mut pool, &mut disk, &mut heap, &t);
    }
    let rows = scan(&mut pool, &mut disk, &heap);
    assert_eq!(rows.len(), 10_000);
    assert!(all_unpinned(&pool));
    let usable = PAGE_SIZE - 4;
    let expected = (total + usable - 1) / usable;
    let pages = heap.page_ids.len();
    assert!(pages + 1 >= expected && pages <= expected + 1, "{} pages for {}", pages, expected);
    for job in pool.flush() {
        disk.insert((job.file_id, job.page_id), job.data);
    }
    let mut fresh = BufferPool::with_capacity(2, 2);
    let reopened = TableHeap::from_existing(2, pages as u32);
    let again = scan(&mut fresh, &mut disk, &reopened);
    assert_eq!(again.len(), 10_000);
    assert!(matches!(&again[9_999].0[0], Value::Text(s) if s == "user9999"));
}

#[test]
fn heap_starts_with_page_zero() {
    let heap = TableHeap::new(5);
    assert_eq!(heap.page_ids, vec![0]);
    assert_eq!(heap.target(0), 0);
    assert_eq!(heap.target(1), 1);
    let existing = TableHeap::from_existing(5, 3);
    assert_eq!(existing.page_ids, vec![0, 1, 2]);
}

#[test]
fn oversized_tuple_fails_and_releases_its_pin() {
    let mut pool = BufferPool::with_capacity(1, 2);
    let mut disk = Disk::new();
    let mut heap = TableHeap::new(1);
    let huge = Tuple(vec![Value::Blob(vec![0; 5000])]);
    let mut cursor = 0usize;
    let mut failed = false;
    for _ in 0..4 {
        let pid = heap.target(cursor);
        let frame = pin(&mut pool, &mut disk, 1, pid);
        match heap.insert_next(&mut pool, &mut cursor, frame, &huge) {
            InsertAction::Failed(_) => {
                failed = true;
                break;
            }
            InsertAction::Pin(_) => {}
            InsertAction::Done { .. } => panic!("cannot fit"),
        }
    }
    assert!(failed);
    assert_eq!(heap.page_ids, vec![0]);
    assert!(all_unpinned(&pool));
}
