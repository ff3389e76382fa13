use bytes::Bytes;
use pcurl::progress::Progress;
use pcurl::single::{SingleStream, StreamAction, StreamEvent, StreamReader};
use pcurl::writer::{ChunkMsg, Step, Writer};
use std::cell::Cell;
use std::rc::Rc;

/// A permit that gives itself back when it is dropped.
struct Permit(Rc<Cell<usize>>);

impl Drop for Permit {
    fn drop(&mut self) {
        self.0.set(self.0.get() + 1);
    }
}

/// Stream a body in pieces, writing only when no permit is left or the body has ended.
/// Returns the output and the most frames that held a permit at a time.
fn stream(data: &[u8], piece_len: usize, permits: usize) -> (Vec<u8>, usize) {
    let free = Rc::new(Cell::new(permits));
    let start = SingleStream::start(200, Some(data.len() as u64)).unwrap();
    let mut reader = StreamReader::new(start);
    let mut writer: Writer<Permit> = Writer::new(None);
    let mut progress = Progress::new(Some(data.len() as u64), false);
    let mut pieces = data.chunks(piece_len);
    let mut piece = Bytes::new();
    let mut held: Option<Permit> = None;
    let mut out = Vec::new();
    let mut most = 0;
    let mut action = StreamAction::Read;
    loop {
        let event = match action {
            StreamAction::Read => match pieces.next() {
                Some(bytes) => {
                    piece = Bytes::copy_from_slice(bytes);
                    StreamEvent::Piece { len: bytes.len() as u64 }
                }
                None => StreamEvent::Ended,
            },
            StreamAction::Acquire => {
                while free.get() == 0 {
                    // Only a write can give a permit back, and there is one to do.
                    match writer.next_step() {
                        Step::Write(msg) => {
                            out.extend_from_slice(&msg.bytes);
                            writer.wrote(msg, &mut progress);
                        }
                        _ => panic!("no permit is left and nothing can be written"),
                    }
                }
                free.set(free.get() - 1);
                held = Some(Permit(Rc::clone(&free)));
                most = most.max(permits - free.get());
                StreamEvent::Permitted
            }
            StreamAction::Send(index) => {
                let permit = held.take().unwrap();
                writer.receive(ChunkMsg { index, bytes: piece.clone(), permit });
                StreamEvent::Sent
            }
            StreamAction::Stop => break,
            other => panic!("unexpected {other:?}"),
        };
        assert!(reader.can_take(&event));
        action = reader.step(event, "u");
    }
    while let Step::Write(msg) = writer.next_step() {
        out.extend_from_slice(&msg.bytes);
        writer.wrote(msg, &mut progress);
    }
    assert_eq!(free.get(), permits);
    (out, most)
}

#[test]
fn frames_never_outnumber_the_permits() {
    let data: Vec<u8> = (0..10_000u32).map(|i| (i * 7 + i / 256) as u8).collect();
    for permits in [1usize, 2, 5, 1000] {
        for piece_len in [1usize, 64, 999, 20_000] {
            let (out, most) = stream(&data, piece_len, permits);
            assert!(out == data);
            let frames = (data.len() + piece_len - 1) / piece_len;
            assert_eq!(most, frames.min(permits));
        }
    }
}

#[test]
fn empty_body_streams_nothing() {
    let (out, most) = stream(b"", 10, 1);
    assert!(out.is_empty());
    assert_eq!(most, 0);
}
