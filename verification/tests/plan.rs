use pcurl::plan::ChunkPlan;

#[test]
fn even_division() {
    let p = ChunkPlan::new(1000, 250);
    assert_eq!(p.num_chunks, 4);
    assert_eq!(p.range(0), (0, 249));
    assert_eq!(p.range(3), (750, 999));
    assert_eq!(p.len(3), 250);
}

#[test]
fn ragged_last_chunk() {
    let p = ChunkPlan::new(1001, 250);
    assert_eq!(p.num_chunks, 5);
    assert_eq!(p.range(4), (1000, 1000));
    assert_eq!(p.len(4), 1);
}

#[test]
fn ranges_tile_the_file_without_gaps() {
    let p = ChunkPlan::new(123_456, 1000);
    let mut next = 0u64;
    let mut covered = 0u64;
    for i in 0..p.num_chunks {
        let (start, end) = p.range(i);
        assert_eq!(start, next, "chunk {i} must start where the previous ended");
        next = end + 1;
        covered += p.len(i);
    }
    assert_eq!(next, p.total);
    assert_eq!(covered, p.total);
}

#[test]
fn plan_empty_file() {
    let p = ChunkPlan::new(0, 1000);
    assert_eq!(p.num_chunks, 0);
}

#[test]
fn huge_total_does_not_overflow() {
    // A server-reported total near u64::MAX must not overflow the range
    // math on the last chunk (debug builds have overflow checks on).
    let p = ChunkPlan::new(u64::MAX, 8 * 1024 * 1024);
    let last = p.num_chunks - 1;
    let (start, end) = p.range(last);
    assert_eq!(end, u64::MAX - 1);
    assert!(start <= end);
    assert!(p.len(last) >= 1);
}

#[test]
fn chunk_larger_than_the_file() {
    let p = ChunkPlan::new(10, u64::MAX);
    assert_eq!(p.num_chunks, 1);
    assert_eq!(p.range(0), (0, 9));
    assert_eq!(p.len(0), 10);
}

#[test]
fn one_byte_chunks() {
    let p = ChunkPlan::new(3, 1);
    assert_eq!(p.num_chunks, 3);
    assert_eq!(p.range(2), (2, 2));
}

#[test]
fn joined_slices_are_the_file() {
    let file: Vec<u8> = (0..1001u32).map(|i| (i % 251) as u8).collect();
    let p = ChunkPlan::new(file.len() as u64, 250);
    let mut joined = Vec::new();
    for i in 0..p.num_chunks {
        let (start, end) = p.range(i);
        joined.extend_from_slice(&file[start as usize..=end as usize]);
    }
    assert_eq!(joined, file);
}

#[test]
fn each_byte_lies_in_one_chunk() {
    let p = ChunkPlan::new(1001, 250);
    for offset in 0..1001u64 {
        let holders = (0..p.num_chunks)
            .filter(|i| {
                let (start, end) = p.range(*i);
                start <= offset && offset <= end
            })
            .count();
        assert_eq!(holders, 1);
    }
}
