use bytes::Bytes;
use pcurl::dispatch::{Dispatcher, FirstFailure, Job};
use pcurl::plan::ChunkPlan;
use pcurl::progress::Progress;
use pcurl::worker::{Action, Event, Worker};
use pcurl::writer::{settle, ChunkMsg, OutputError, Step, Writer, WriterOutcome};
use std::cell::Cell;
use std::rc::Rc;

/// Deterministic pseudo-random bytes so failures are reproducible.
fn random_bytes(len: usize, seed: u64) -> Vec<u8> {
    let mut state = seed;
    let mut bytes = Vec::with_capacity(len);
    for _ in 0..len {
        state = state.wrapping_mul(6364136223846793005).wrapping_add(1442695040888963407);
        bytes.push((state >> 33) as u8);
    }
    bytes
}

/// A permit that gives itself back when it is dropped.
struct Permit(Rc<Cell<u32>>);

impl Drop for Permit {
    fn drop(&mut self) {
        self.0.set(self.0.get() + 1);
    }
}

fn chunk(index: u64, bytes: &[u8]) -> ChunkMsg<()> {
    ChunkMsg {
        index,
        bytes: Bytes::copy_from_slice(bytes),
        permit: (),
    }
}

/// Write everything that can be written now; whether the writer is done.
fn drain<P>(writer: &mut Writer<P>, progress: &mut Progress, out: &mut Vec<u8>) -> bool {
    loop {
        match writer.next_step() {
            Step::Write(msg) => {
                out.extend_from_slice(&msg.bytes);
                writer.wrote(msg, progress);
            }
            Step::Receive => return false,
            Step::Flush => return true,
        }
    }
}

#[test]
fn chunks_come_out_in_order() {
    let mut writer = Writer::new(Some(3));
    let mut progress = Progress::new(Some(9), false);
    let mut out = Vec::new();
    assert!(!drain(&mut writer, &mut progress, &mut out));
    writer.receive(chunk(2, b"ghi"));
    assert!(!drain(&mut writer, &mut progress, &mut out));
    assert!(out.is_empty());
    writer.receive(chunk(0, b"abc"));
    assert!(!drain(&mut writer, &mut progress, &mut out));
    assert_eq!(out, b"abc");
    assert_eq!(writer.next_write(), 1);
    writer.receive(chunk(1, b"def"));
    assert!(drain(&mut writer, &mut progress, &mut out));
    assert_eq!(out, b"abcdefghi");
    assert_eq!(progress.written(), 9);
}

#[test]
fn nothing_expected_is_flushed_at_once() {
    let mut writer: Writer<()> = Writer::new(Some(0));
    assert!(matches!(writer.next_step(), Step::Flush));
}

#[test]
fn repeated_chunk_replaces_itself() {
    let mut writer = Writer::new(Some(2));
    let mut progress = Progress::new(None, false);
    let mut out = Vec::new();
    writer.receive(chunk(1, b"x"));
    writer.receive(chunk(1, b"yy"));
    writer.receive(chunk(0, b"a"));
    assert!(drain(&mut writer, &mut progress, &mut out));
    assert_eq!(out, b"ayy");
}

#[test]
fn single_stream_passes_through() {
    let mut writer = Writer::new(None);
    let mut progress = Progress::new(None, false);
    let mut out = Vec::new();
    for (index, piece) in [&b"one "[..], b"two ", b"three"].iter().enumerate() {
        writer.receive(chunk(index as u64, piece));
        assert!(!drain(&mut writer, &mut progress, &mut out));
    }
    assert_eq!(out, b"one two three");
    // The end of the channel is the end of the stream.
    assert_eq!(writer.channel_closed(), None);
}

#[test]
fn early_end_of_a_bounded_run_is_incomplete() {
    let mut writer = Writer::new(Some(2));
    writer.receive(chunk(1, b"x"));
    assert!(matches!(writer.next_step(), Step::Receive));
    assert_eq!(writer.channel_closed(), Some(WriterOutcome::Incomplete));
}

#[test]
fn output_results_settle() {
    assert_eq!(settle::<u8>(Ok(())), Ok(WriterOutcome::Complete));
    assert_eq!(
        settle::<u8>(Err(OutputError::BrokenPipe)),
        Ok(WriterOutcome::BrokenPipe)
    );
    assert_eq!(settle::<u8>(Err(OutputError::Other(5))), Err(5));
}

#[test]
fn permit_is_dropped_after_the_write() {
    let free = Rc::new(Cell::new(0));
    let mut writer = Writer::new(Some(1));
    let mut progress = Progress::new(None, false);
    writer.receive(ChunkMsg {
        index: 0,
        bytes: Bytes::from_static(b"abc"),
        permit: Permit(Rc::clone(&free)),
    });
    let msg = match writer.next_step() {
        Step::Write(msg) => msg,
        _ => panic!("the chunk is at hand"),
    };
    assert_eq!(free.get(), 0);
    writer.wrote(msg, &mut progress);
    assert_eq!(free.get(), 1);
}

/// Run a whole ranged download against a file in memory. Chunks arrive in an order
/// that the seed decides.
fn download(file: &[u8], chunk_size: u64, workers: u32, permits: u32, seed: u64) -> Vec<u8> {
    let plan = ChunkPlan::new(file.len() as u64, chunk_size);
    let mut dispatcher = Dispatcher::new(plan);
    let free = Rc::new(Cell::new(permits));
    let mut pool: Vec<(Worker, Option<(Job, Permit)>)> =
        (0..workers).map(|id| (Worker::new(id), None)).collect();
    let mut writer = Writer::new(Some(plan.num_chunks));
    let mut progress = Progress::new(Some(plan.total), false);
    let mut out = Vec::new();
    let mut state = seed;
    while !drain(&mut writer, &mut progress, &mut out) {
        // Let one worker after the other take a permit and claim a chunk.
        for (worker, held) in pool.iter_mut() {
            if held.is_none() && free.get() > 0 && worker.can_take(&Event::Permitted) {
                free.set(free.get() - 1);
                let permit = Permit(Rc::clone(&free));
                match worker.step(Event::Permitted, &mut dispatcher) {
                    Action::Fetch(job) => *held = Some((job, permit)),
                    Action::Stop => {}
                    other => panic!("unexpected {other:?}"),
                }
            }
        }
        let live = pool.iter().filter(|(_, held)| held.is_some()).count();
        assert!(live > 0, "no chunk in flight while the writer waits");
        state = state.wrapping_mul(6364136223846793005).wrapping_add(1442695040888963407);
        let pick = (state >> 33) as usize % live;
        let (worker, held) = pool.iter_mut().filter(|(_, held)| held.is_some()).nth(pick).unwrap();
        let (job, permit) = held.take().unwrap();
        assert_eq!(job.end - job.start + 1, job.len);
        match worker.step(Event::Fetched, &mut dispatcher) {
            Action::Send(sent) => assert_eq!(sent.index, job.index),
            other => panic!("unexpected {other:?}"),
        }
        writer.receive(ChunkMsg {
            index: job.index,
            bytes: Bytes::copy_from_slice(&file[job.start as usize..=job.end as usize]),
            permit,
        });
        assert!(matches!(
            worker.step(Event::Sent, &mut dispatcher),
            Action::Acquire
        ));
    }
    assert_eq!(progress.written(), plan.total);
    drop(pool);
    drop(writer);
    assert_eq!(free.get(), permits);
    out
}

#[test]
fn many_connections_are_byte_exact() {
    let file = random_bytes(5 * 1024 * 1024 + 12345, 1);
    assert!(download(&file, 256 * 1024, 8, 16, 3) == file);
}

#[test]
fn small_chunks_and_a_tiny_buffer_are_byte_exact() {
    let file = random_bytes(777 * 1024, 2);
    for seed in 0..5 {
        assert!(download(&file, 8 * 1024, 16, 4, seed) == file);
        assert!(download(&file, 8 * 1024, 16, 1, seed) == file);
    }
}

#[test]
fn file_smaller_than_a_chunk_is_byte_exact() {
    assert_eq!(download(b"hello, pcurl!", 4 << 20, 4, 8, 1), b"hello, pcurl!");
}

#[test]
fn dispatcher_hands_out_each_chunk_once() {
    let mut dispatcher = Dispatcher::new(ChunkPlan::new(1001, 250));
    for index in 0..5u64 {
        let job = dispatcher.claim().unwrap();
        assert_eq!(job.index, index);
        assert_eq!(job.start, index * 250);
    }
    assert!(dispatcher.claim().is_none());
    assert!(dispatcher.claim().is_none());
    assert_eq!(dispatcher.next, 5);
}

#[test]
fn worker_stops_when_cancelled() {
    let mut dispatcher = Dispatcher::new(ChunkPlan::new(10, 5));
    let mut worker = Worker::new(3);
    assert!(matches!(
        worker.step(Event::Permitted, &mut dispatcher),
        Action::Fetch(_)
    ));
    assert!(matches!(
        worker.step(Event::Cancelled, &mut dispatcher),
        Action::Stop
    ));
    assert!(!worker.can_take(&Event::Permitted));
    let mut worker = Worker::new(4);
    assert!(matches!(
        worker.step(Event::Closed, &mut dispatcher),
        Action::Stop
    ));
    let mut worker = Worker::new(5);
    worker.step(Event::Permitted, &mut dispatcher);
    worker.step(Event::Fetched, &mut dispatcher);
    assert!(matches!(
        worker.step(Event::WriterGone, &mut dispatcher),
        Action::Stop
    ));
}

#[test]
fn worker_reports_a_failed_chunk() {
    let mut dispatcher = Dispatcher::new(ChunkPlan::new(1001, 250));
    for cancelled in [false, true] {
        let mut worker = Worker::new(3);
        worker.step(Event::Permitted, &mut dispatcher);
        let event = Event::Failed {
            cancelled,
            cause: "no route".to_string(),
        };
        match worker.step(event, &mut dispatcher) {
            Action::Fail { message } => {
                assert!(!cancelled);
                assert_eq!(message, "worker 3: chunk 0 (bytes 0-249) failed: no route");
            }
            Action::Stop => assert!(cancelled),
            other => panic!("unexpected {other:?}"),
        }
    }
}

#[test]
fn first_failure_wins() {
    let mut failures = FirstFailure::new();
    assert!(!failures.record(Ok(())));
    assert!(failures.record(Err("first")));
    assert!(failures.record(Err("second")));
    assert!(!failures.record(Ok(())));
    assert_eq!(failures.into_result(), Err("first"));
    assert_eq!(FirstFailure::<&str>::new().into_result(), Ok(()));
}
