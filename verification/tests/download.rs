use bytes::Bytes;
use pcurl::cli::{Cli, Mode};
use pcurl::dispatch::{Dispatcher, Job};
use pcurl::fetch::{Attempt, ChunkFetch, Verdict};
use pcurl::outcome::finalize;
use pcurl::plan::ChunkPlan;
use pcurl::probe::Probe;
use pcurl::progress::Progress;
use pcurl::single::SingleStream;
use pcurl::writer::{settle, ChunkMsg, Step, Writer};

/// How a server in memory answers the probe.
#[derive(Clone, Copy)]
enum Server {
    Ranges,
    UnknownTotal,
    NoRanges,
}

fn sample(len: usize) -> Vec<u8> {
    (0..len).map(|i| (i * 31 + i / 251) as u8).collect()
}

fn options(chunk_size: u64, max_buffered: u32, single: bool) -> Cli {
    let mut cli = Cli::new("http://x".to_string(), "pcurl/0.1.0".to_string());
    cli.chunk_size = chunk_size;
    cli.max_buffered = Some(max_buffered);
    cli.single = single;
    cli
}

fn probe(server: Server, data: &[u8]) -> Probe {
    let len = data.len() as u64;
    let range = match server {
        Server::Ranges if len == 0 => return Probe::from_response(416, None, None).unwrap(),
        Server::Ranges => format!("bytes 0-0/{len}"),
        Server::UnknownTotal => "bytes 0-0/*".to_string(),
        Server::NoRanges => return Probe::from_response(200, None, Some(len)).unwrap(),
    };
    Probe::from_response(206, Some(range.as_bytes()), Some(1)).unwrap()
}

fn drain(writer: &mut Writer<()>, progress: &mut Progress, out: &mut Vec<u8>) -> bool {
    loop {
        match writer.next_step() {
            Step::Write(msg) => {
                out.extend_from_slice(&msg.bytes);
                writer.wrote(msg, progress);
            }
            Step::Receive => return false,
            Step::Flush => return true,
        }
    }
}

/// Fetch by ranges: the chunk claimed last is always delivered first, and the first
/// request for every chunk fails with one of a few statuses.
fn ranged(cli: &Cli, plan: ChunkPlan, writer: &mut Writer<()>, data: &[u8]) -> Vec<u8> {
    let permits = cli.max_buffered() as usize;
    let mut dispatcher = Dispatcher::new(plan);
    let mut progress = Progress::new(Some(plan.total), false);
    let mut out = Vec::new();
    let mut flying: Vec<Job> = Vec::new();
    let mut buffered = 0u64;
    while !drain(writer, &mut progress, &mut out) {
        let waiting = buffered - writer.next_write();
        while flying.len() + (waiting as usize) < permits {
            match dispatcher.claim() {
                Some(job) => flying.push(job),
                None => break,
            }
        }
        let job = flying.pop().expect("a chunk is in flight while the writer waits");
        let mut fetch = ChunkFetch::new(cli.retry_cfg(), job.len);
        let code = [503u16, 200, 403][job.index as usize % 3];
        let refused = Attempt::Status { code, retry_after: None };
        assert!(matches!(fetch.judge(refused, 20, 0), Verdict::Retry { .. }));
        let whole = Attempt::Body { len: job.end - job.start + 1 };
        assert!(matches!(fetch.judge(whole, 400, 0), Verdict::Accept));
        let bytes = Bytes::copy_from_slice(&data[job.start as usize..=job.end as usize]);
        writer.receive(ChunkMsg { index: job.index, bytes, permit: () });
        buffered += 1;
    }
    out
}

/// Fetch as one stream, with an empty piece in front of every other one.
fn streamed(announced: Option<u64>, writer: &mut Writer<()>, data: &[u8]) -> Vec<u8> {
    let mut stream = SingleStream::start(200, announced).unwrap();
    let mut progress = Progress::new(announced, false);
    let mut out = Vec::new();
    for piece in data.chunks(77) {
        assert_eq!(stream.frame(0), None);
        let index = stream.frame(piece.len() as u64).unwrap();
        writer.receive(ChunkMsg { index, bytes: Bytes::copy_from_slice(piece), permit: () });
        assert!(!drain(writer, &mut progress, &mut out));
    }
    assert!(stream.finish().is_ok());
    assert_eq!(writer.channel_closed(), None);
    out
}

fn download(cli: &Cli, server: Server, data: &[u8]) -> Vec<u8> {
    let probed = match cli.without_probe() {
        Some(probed) => probed,
        None => probe(server, data),
    };
    let mode = cli.mode(probed);
    let mut writer = Writer::new(mode.expected());
    let out = match mode {
        Mode::Empty => Vec::new(),
        Mode::Ranged { plan } => ranged(cli, plan, &mut writer, data),
        Mode::Single { len } => streamed(len, &mut writer, data),
    };
    assert!(finalize(Ok::<(), String>(()), settle::<String>(Ok(()))).is_ok());
    out
}

#[test]
fn output_is_the_resource_whatever_the_options() {
    for len in [0usize, 1, 99, 100, 101, 12345] {
        let data = sample(len);
        for server in [Server::Ranges, Server::UnknownTotal, Server::NoRanges] {
            for chunk_size in [1u64, 7, 100, 1 << 20] {
                for permits in [1u32, 3, 64] {
                    for single in [false, true] {
                        let cli = options(chunk_size, permits, single);
                        assert!(download(&cli, server, &data) == data);
                    }
                }
            }
        }
    }
}
