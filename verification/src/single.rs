//! The single-stream fallback, used when the server does not support ranges or
//! the size is unknown.

use crate::status::{is_success, push_status, shown_status, success_code};
use crate::text::{decimal, push_decimal};
use vstd::prelude::*;
use vstd::string::*;

verus! {

/// Why a single stream failed.
#[derive(Debug)]
pub enum StreamError {
    UnexpectedStatus { code: u16 },
    /// The body ended before the length that the server announced.
    Truncated { got: u64, expected: u64 },
}

/// The whole resource as one ordered sequence of frames.
#[derive(Debug, Clone, Copy)]
pub struct SingleStream {
    /// Index of the next frame.
    pub index: u64,
    /// Bytes received so far.
    pub received: u64,
    /// `Content-Length`, if the server advertised one.
    pub expected: Option<u64>,
}

/// What a response with this status and length starts.
pub open spec fn started(code: u16, content_length: Option<u64>) -> Result<
    SingleStream,
    StreamError,
> {
    if success_code(code) {
        Ok(SingleStream { index: 0, received: 0, expected: content_length })
    } else {
        Err(StreamError::UnexpectedStatus { code })
    }
}

impl SingleStream {
    /// Every frame handed on so far held at least one byte.
    pub open spec fn wf(self) -> bool {
        self.index <= self.received
    }

    /// The state after a piece of `len` bytes came in.
    pub open spec fn taken(self, len: u64) -> Self {
        if len == 0 {
            self
        } else {
            SingleStream {
                index: (self.index + 1) as u64,
                received: (self.received + len) as u64,
                ..self
            }
        }
    }

    /// Whether all that the server announced has come.
    pub open spec fn complete(self) -> bool {
        self.expected matches Some(n) ==> n <= self.received
    }

    /// Start on a response.
    pub fn start(code: u16, content_length: Option<u64>) -> (r: Result<Self, StreamError>)
        ensures
            r == started(code, content_length),
            r == (if success_code(code) {
                Ok::<SingleStream, StreamError>(
                    SingleStream { index: 0, received: 0, expected: content_length },
                )
            } else {
                Err(StreamError::UnexpectedStatus { code })
            }),
    {
        if is_success(code) {
            Ok(SingleStream { index: 0, received: 0, expected: content_length })
        } else {
            Err(StreamError::UnexpectedStatus { code })
        }
    }

    /// Take in a piece of the body of `len` bytes. An empty piece is skipped; any
    /// other is handed on as a frame with the index returned.
    pub fn frame(&mut self, len: u64) -> (index: Option<u64>)
        requires
            old(self).wf(),
            old(self).received + len <= u64::MAX,
        ensures
            final(self).wf(),
            *final(self) == old(self).taken(len),
            index == (if len == 0 {
                None
            } else {
                Some(old(self).index)
            }),
    {
        if len == 0 {
            return None;
        }
        let index: u64 = self.index;
        self.index = index + 1;
        self.received = self.received + len;
        Some(index)
    }

    /// The body has ended: it must not be shorter than the server announced.
    pub fn finish(&self) -> (r: Result<(), StreamError>)
        ensures
            r is Ok <==> self.complete(),
            r matches Err(e) ==> e == (StreamError::Truncated {
                got: self.received,
                expected: self.expected->0,
            }),
    {
        match self.expected {
            Some(n) if n > self.received => Err(
                StreamError::Truncated { got: self.received, expected: n },
            ),
            _ => Ok(()),
        }
    }
}

impl StreamError {
    /// The message that tells of this error.
    pub open spec fn text(self, url: Seq<char>) -> Seq<char> {
        match self {
            StreamError::UnexpectedStatus { code } => "unexpected status "@ + shown_status(code)
                + " for "@ + url,
            StreamError::Truncated { got, expected } => "response body ended after "@ + decimal(
                got as nat,
            ) + " of "@ + decimal(expected as nat) + " bytes"@,
        }
    }

    /// The message that tells of this error.
    pub fn message(&self, url: &str) -> (r: String)
        ensures
            r@ == self.text(url@),
    {
        let mut out = String::new();
        match self {
            StreamError::UnexpectedStatus { code } => {
                out.append("unexpected status ");
                push_status(&mut out, *code);
                out.append(" for ");
                out.append(url);
            },
            StreamError::Truncated { got, expected } => {
                out.append("response body ended after ");
                push_decimal(&mut out, *got);
                out.append(" of ");
                push_decimal(&mut out, *expected);
                out.append(" bytes");
            },
        }
        assert(out@ =~= self.text(url@));
        out
    }
}

/// What the reader of a single stream is waiting for.
#[derive(Debug, Clone, Copy)]
pub enum StreamPhase {
    /// For the next piece of the body.
    Read,
    /// For a permit for the frame with this index.
    Permit(u64),
    /// For the writer to take the frame over.
    Send(u64),
    /// For nothing any more.
    Stopped,
}

/// What happened to the reader.
#[derive(Debug)]
pub enum StreamEvent {
    /// The run was cancelled.
    Cancelled,
    /// A piece of the body came.
    Piece { len: u64 },
    /// The body ended cleanly.
    Ended,
    /// The body could not be read on; `cancelled` says whether the run was
    /// cancelled meanwhile.
    Broken { cancelled: bool, error: String },
    /// A permit was taken.
    Permitted,
    /// There will be no more permits.
    Closed,
    /// The writer took the frame over.
    Sent,
    /// There is no writer any more.
    WriterGone,
}

/// What the reader does next.
#[derive(Debug)]
pub enum StreamAction {
    /// Wait for the next piece of the body.
    Read,
    /// Wait for a permit for the piece that just came.
    Acquire,
    /// Hand the piece to the writer as the frame with this index.
    Send(u64),
    /// Stop without an error.
    Stop,
    /// Cancel the run and stop with this error.
    Fail { message: String },
}

/// Reads the whole resource as one ordered sequence of frames. Each frame takes a
/// permit before it is handed to the writer, which provides back-pressure.
#[derive(Debug, Clone, Copy)]
pub struct StreamReader {
    pub stream: SingleStream,
    pub phase: StreamPhase,
}

impl StreamReader {
    /// Whether an event can happen in the phase that the reader is in.
    pub open spec fn takes(self, event: StreamEvent) -> bool {
        match self.phase {
            StreamPhase::Read => match event {
                StreamEvent::Cancelled => true,
                StreamEvent::Piece { len } => self.stream.received + len <= u64::MAX,
                StreamEvent::Ended => true,
                StreamEvent::Broken { .. } => true,
                _ => false,
            },
            StreamPhase::Permit(_) => event is Cancelled || event is Permitted || event is Closed,
            StreamPhase::Send(_) => event is Sent || event is WriterGone,
            StreamPhase::Stopped => false,
        }
    }

    /// The reader after an event.
    pub open spec fn after(self, event: StreamEvent) -> Self {
        match event {
            StreamEvent::Piece { len } => StreamReader {
                stream: self.stream.taken(len),
                phase: if len == 0 {
                    StreamPhase::Read
                } else {
                    StreamPhase::Permit(self.stream.index)
                },
            },
            StreamEvent::Permitted => StreamReader {
                phase: StreamPhase::Send(self.phase->Permit_0),
                ..self
            },
            StreamEvent::Sent => StreamReader { phase: StreamPhase::Read, ..self },
            _ => StreamReader { phase: StreamPhase::Stopped, ..self },
        }
    }

    /// Whether this is what the reader does next after an event.
    pub open spec fn acts(self, event: StreamEvent, url: Seq<char>, action: StreamAction) -> bool {
        match event {
            StreamEvent::Piece { len } => if len == 0 {
                action is Read
            } else {
                action is Acquire
            },
            StreamEvent::Ended => if self.stream.complete() {
                action is Stop
            } else {
                action matches StreamAction::Fail { message } && message@
                    == (StreamError::Truncated {
                    got: self.stream.received,
                    expected: self.stream.expected->0,
                }).text(url)
            },
            StreamEvent::Broken { cancelled, error } => if cancelled {
                action is Stop
            } else {
                action matches StreamAction::Fail { message } && message@
                    == "error reading response body: "@ + error@
            },
            StreamEvent::Permitted => action == StreamAction::Send(self.phase->Permit_0),
            StreamEvent::Sent => action is Read,
            _ => action is Stop,
        }
    }

    pub fn new(stream: SingleStream) -> (reader: Self)
        ensures
            reader == (StreamReader { stream, phase: StreamPhase::Read }),
    {
        StreamReader { stream, phase: StreamPhase::Read }
    }

    /// Whether an event can happen in the phase that the reader is in.
    pub fn can_take(&self, event: &StreamEvent) -> (r: bool)
        ensures
            r == self.takes(*event),
    {
        match (self.phase, event) {
            (StreamPhase::Read, StreamEvent::Cancelled) => true,
            (StreamPhase::Read, StreamEvent::Piece { len }) => *len <= u64::MAX
                - self.stream.received,
            (StreamPhase::Read, StreamEvent::Ended) => true,
            (StreamPhase::Read, StreamEvent::Broken { .. }) => true,
            (StreamPhase::Permit(_), StreamEvent::Cancelled) => true,
            (StreamPhase::Permit(_), StreamEvent::Permitted) => true,
            (StreamPhase::Permit(_), StreamEvent::Closed) => true,
            (StreamPhase::Send(_), StreamEvent::Sent) => true,
            (StreamPhase::Send(_), StreamEvent::WriterGone) => true,
            _ => false,
        }
    }

    /// Go on after an event. An empty piece is skipped, and any other becomes the
    /// next frame. A body that ends short, or cannot be read on, is an error,
    /// unless the run was cancelled, which is what then caused it.
    pub fn step(&mut self, event: StreamEvent, url: &str) -> (action: StreamAction)
        requires
            old(self).stream.wf(),
            old(self).takes(event),
        ensures
            final(self).stream.wf(),
            *final(self) == old(self).after(event),
            old(self).acts(event, url@, action),
            match event {
                StreamEvent::Piece { len } => if len == 0 {
                    action is Read
                } else {
                    action is Acquire
                },
                StreamEvent::Ended => {
                    &&& old(self).stream.complete() ==> action is Stop
                    &&& !old(self).stream.complete() ==> (action matches StreamAction::Fail {
                        message,
                    } && message@ == (StreamError::Truncated {
                        got: old(self).stream.received,
                        expected: old(self).stream.expected->0,
                    }).text(url@))
                },
                StreamEvent::Broken { cancelled, error } => {
                    &&& cancelled ==> action is Stop
                    &&& !cancelled ==> (action matches StreamAction::Fail { message } && message@
                        == "error reading response body: "@ + error@)
                },
                StreamEvent::Permitted => action == StreamAction::Send(old(self).phase->Permit_0),
                StreamEvent::Sent => action is Read,
                StreamEvent::Cancelled => action is Stop,
                StreamEvent::Closed => action is Stop,
                StreamEvent::WriterGone => action is Stop,
            },
    {
        match (self.phase, event) {
            (StreamPhase::Read, StreamEvent::Piece { len }) => match self.stream.frame(len) {
                Some(index) => {
                    self.phase = StreamPhase::Permit(index);
                    StreamAction::Acquire
                },
                None => StreamAction::Read,
            },
            (StreamPhase::Read, StreamEvent::Ended) => {
                self.phase = StreamPhase::Stopped;
                match self.stream.finish() {
                    Ok(_) => StreamAction::Stop,
                    Err(e) => StreamAction::Fail { message: e.message(url) },
                }
            },
            (StreamPhase::Read, StreamEvent::Broken { cancelled, error }) => {
                self.phase = StreamPhase::Stopped;
                if cancelled {
                    return StreamAction::Stop;
                }
                let mut message = String::new();
                message.append("error reading response body: ");
                message.append(error.as_str());
                assert(message@ =~= "error reading response body: "@ + error@);
                StreamAction::Fail { message }
            },
            (StreamPhase::Permit(index), StreamEvent::Permitted) => {
                self.phase = StreamPhase::Send(index);
                StreamAction::Send(index)
            },
            (StreamPhase::Send(_), StreamEvent::Sent) => {
                self.phase = StreamPhase::Read;
                StreamAction::Read
            },
            _ => {
                self.phase = StreamPhase::Stopped;
                StreamAction::Stop
            },
        }
    }
}

/// The stream after pieces of these lengths came in.
pub open spec fn after_pieces(stream: SingleStream, lens: Seq<u64>) -> SingleStream
    decreases lens.len(),
{
    if lens.len() == 0 {
        stream
    } else {
        after_pieces(stream, lens.drop_last()).taken(lens.last())
    }
}

/// Number of bytes in pieces of these lengths.
pub open spec fn total_len(lens: Seq<u64>) -> nat
    decreases lens.len(),
{
    if lens.len() == 0 {
        0
    } else {
        total_len(lens.drop_last()) + lens.last() as nat
    }
}

/// Number of pieces that are not empty.
pub open spec fn frame_count(lens: Seq<u64>) -> nat
    decreases lens.len(),
{
    if lens.len() == 0 {
        0
    } else {
        frame_count(lens.drop_last()) + (if lens.last() == 0 {
            0nat
        } else {
            1
        })
    }
}

/// Every piece that is not empty becomes a frame, and frames are numbered without a
/// gap. A body in any pieces is complete exactly when their lengths add up to at least
/// the length that the server announced, or it announced none.
pub proof fn law_body_is_counted(expected: Option<u64>, lens: Seq<u64>)
    requires
        total_len(lens) <= u64::MAX,
    ensures
        ({
            let end = after_pieces(SingleStream { index: 0, received: 0, expected }, lens);
            &&& end.wf()
            &&& end.expected == expected
            &&& end.received == total_len(lens)
            &&& end.index == frame_count(lens)
            &&& end.complete() <==> (expected matches Some(n) ==> n <= total_len(lens))
        }),
    decreases lens.len(),
{
    if lens.len() > 0 {
        law_body_is_counted(expected, lens.drop_last());
    }
}

/// A stream starts on any success, with the length announced and nothing received, and on no
/// other status.
pub proof fn law_stream_starts_on_success(code: u16, content_length: Option<u64>)
    ensures
        200 <= code <= 299 ==> started(code, content_length) == Ok::<SingleStream, StreamError>(
            SingleStream { index: 0, received: 0, expected: content_length },
        ),
        code < 200 || code > 299 ==> started(code, content_length) == Err::<
            SingleStream,
            StreamError,
        >(StreamError::UnexpectedStatus { code }),
{
}

/// A piece with bytes becomes the next frame and adds its bytes to those received; an empty
/// one changes nothing.
pub proof fn law_pieces_become_frames(stream: SingleStream, len: u64)
    requires
        stream.wf(),
        stream.received + len <= u64::MAX,
    ensures
        stream.taken(0) == stream,
        len > 0 ==> stream.taken(len).index == stream.index + 1,
        stream.taken(len).received == stream.received + len,
        stream.taken(len).expected == stream.expected,
        stream.taken(len).wf(),
{
}

/// A body is truncated exactly when fewer bytes came than the server announced.
pub proof fn law_truncated_body_is_noticed(stream: SingleStream)
    ensures
        stream.expected is None ==> stream.complete(),
        stream.expected matches Some(n) ==> (stream.complete() <==> stream.received >= n),
{
}

/// The messages of a failed stream: the status as it is shown with the URL, and how many bytes
/// came of how many.
pub proof fn law_stream_errors_are_told(error: StreamError, url: Seq<char>)
    ensures
        match error {
            StreamError::UnexpectedStatus { code } => error.text(url) == "unexpected status "@
                + shown_status(code) + " for "@ + url,
            StreamError::Truncated { got, expected } => error.text(url)
                == "response body ended after "@ + decimal(got as nat) + " of "@ + decimal(
                expected as nat,
            ) + " bytes"@,
        },
{
}

/// What a reader can meet: while it reads, the end, a broken body, a cancelled run and every
/// piece that its count can hold; while it waits for a permit, the permit, the end of permits
/// and a cancelled run; while it hands a frame over, success or a writer that is gone; and
/// nothing once it stopped.
pub proof fn law_reader_takes_what_can_happen(reader: StreamReader, len: u64, event: StreamEvent)
    ensures
        reader.phase is Read ==> {
            &&& reader.takes(StreamEvent::Piece { len }) <==> reader.stream.received + len
                <= 0xffff_ffff_ffff_ffff
            &&& event is Ended || event is Broken || event is Cancelled ==> reader.takes(event)
            &&& event is Permitted || event is Closed || event is Sent || event is WriterGone
                ==> !reader.takes(event)
        },
        reader.phase is Permit ==> (reader.takes(event) <==> event is Permitted || event is Closed
            || event is Cancelled),
        reader.phase is Send ==> (reader.takes(event) <==> event is Sent || event is WriterGone),
        reader.phase is Stopped ==> !reader.takes(event),
{
}

/// The way of a frame: a piece with bytes waits for a permit under the next index, with the
/// permit it is handed over under that index, and then the next piece is read. An empty piece
/// is skipped, and every other event stops the reader.
pub proof fn law_frame_waits_for_its_permit(reader: StreamReader, len: u64, event: StreamEvent)
    requires
        reader.phase is Read,
        len > 0,
    ensures
        ({
            let waiting = reader.after(StreamEvent::Piece { len });
            let sending = waiting.after(StreamEvent::Permitted);
            let reading = sending.after(StreamEvent::Sent);
            &&& waiting.phase == StreamPhase::Permit(reader.stream.index)
            &&& sending.phase == StreamPhase::Send(reader.stream.index)
            &&& reading.phase is Read
            &&& waiting.stream == reader.stream.taken(len)
            &&& reading.stream == waiting.stream
        }),
        reader.stream == reader.after(StreamEvent::Piece { len: 0 }).stream && reader.after(
            StreamEvent::Piece { len: 0 },
        ).phase is Read,
        event is Ended || event is Broken || event is Cancelled || event is Closed
            || event is WriterGone ==> reader.after(event).phase is Stopped && reader.after(
            event,
        ).stream == reader.stream,
{
}

/// A reader fails only on a body that ended short or broke off while nobody had cancelled the
/// run, with the message that says so; in all else it goes on or stops without an error.
pub proof fn law_reader_fails_only_on_a_bad_body(
    reader: StreamReader,
    event: StreamEvent,
    url: Seq<char>,
    action: StreamAction,
)
    requires
        reader.takes(event),
        reader.acts(event, url, action),
    ensures
        action is Fail <==> (match event {
            StreamEvent::Ended => reader.stream.expected matches Some(n) && reader.stream.received
                < n,
            StreamEvent::Broken { cancelled, .. } => !cancelled,
            _ => false,
        }),
        action matches StreamAction::Fail { message } ==> (match event {
            StreamEvent::Broken { error, .. } => message@ == "error reading response body: "@
                + error@,
            _ => message@ == "response body ended after "@ + decimal(reader.stream.received as nat)
                + " of "@ + decimal(reader.stream.expected->0 as nat) + " bytes"@,
        }),
        action is Acquire <==> (event matches StreamEvent::Piece { len } && len > 0),
        action is Send <==> event is Permitted,
        action matches StreamAction::Send(index) ==> reader.phase == StreamPhase::Permit(index),
        action is Read <==> event is Sent || event == (StreamEvent::Piece { len: 0 }),
{
}

} // verus!
