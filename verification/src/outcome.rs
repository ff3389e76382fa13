//! From the results of the producer and the writer to the result of the program.

use crate::writer::WriterOutcome;
use vstd::prelude::*;
use vstd::string::*;

verus! {

/// Why a download failed, where `P` is the error of the producer (the worker pool
/// or the single-stream reader) and `W` that of the output.
#[derive(Debug)]
pub enum DownloadError<P, W> {
    Producer(P),
    /// The chunks ended early, although nobody reported an error.
    Incomplete,
    Output(W),
}

impl DownloadError<String, String> {
    /// The message that tells of this error, where the inner errors are given by
    /// their messages.
    pub open spec fn text(self) -> Seq<char> {
        match self {
            DownloadError::Producer(e) => e@,
            DownloadError::Incomplete => "download ended before all bytes were written"@,
            DownloadError::Output(e) => "failed writing output: "@ + e@,
        }
    }

    /// The message that tells of this error.
    pub fn message(&self) -> (r: String)
        ensures
            r@ == self.text(),
    {
        let mut out = String::new();
        match self {
            DownloadError::Producer(e) => {
                out.append(e.as_str());
            },
            DownloadError::Incomplete => {
                out.append("download ended before all bytes were written");
            },
            DownloadError::Output(e) => {
                out.append("failed writing output: ");
                out.append(e.as_str());
            },
        }
        assert(out@ =~= self.text());
        out
    }
}

/// The result of a download: an error of the output comes first, then one of the
/// producer, then a run that ended early.
pub open spec fn combined<P, W>(
    producer_res: Result<(), P>,
    writer_res: Result<WriterOutcome, W>,
) -> Result<(), DownloadError<P, W>> {
    match (writer_res, producer_res) {
        (Err(w), _) => Err(DownloadError::Output(w)),
        (Ok(_), Err(p)) => Err(DownloadError::Producer(p)),
        (Ok(WriterOutcome::Incomplete), Ok(_)) => Err(DownloadError::Incomplete),
        (Ok(_), Ok(_)) => Ok(()),
    }
}

/// Combine the producer and writer outcomes into a single program result. A
/// consumer that closes the pipe (e.g. `| head`) is a clean stop, but it does not
/// mask an error of the producer.
pub fn finalize<P, W>(
    producer_res: Result<(), P>,
    writer_res: Result<WriterOutcome, W>,
) -> (r: Result<(), DownloadError<P, W>>)
    ensures
        r == combined(producer_res, writer_res),
{
    match writer_res {
        Err(w) => Err(DownloadError::Output(w)),
        Ok(outcome) => match producer_res {
            Err(p) => Err(DownloadError::Producer(p)),
            Ok(_) => match outcome {
                WriterOutcome::Incomplete => Err(DownloadError::Incomplete),
                WriterOutcome::BrokenPipe => Ok(()),
                WriterOutcome::Complete => Ok(()),
            },
        },
    }
}

/// How the program ended.
#[derive(Debug, Clone, Copy, PartialEq, Eq, Structural)]
pub enum Ending {
    Done,
    Failed,
    /// Stopped by an interrupt or a termination signal.
    Interrupted,
}

/// The exit code for an ending.
pub open spec fn code_of(ending: Ending) -> i32 {
    match ending {
        Ending::Done => 0,
        Ending::Failed => 1,
        Ending::Interrupted => 130,
    }
}

/// The exit code of the program.
pub fn exit_code(ending: Ending) -> (code: i32)
    ensures
        code == code_of(ending),
        code == (match ending {
            Ending::Done => 0i32,
            Ending::Failed => 1,
            Ending::Interrupted => 130,
        }),
{
    match ending {
        Ending::Done => 0,
        Ending::Failed => 1,
        Ending::Interrupted => 130,
    }
}

/// A download succeeds exactly when the output took everything or was closed by its consumer,
/// and the producer succeeded. An error of the output comes first, then that of the producer,
/// each one as it is; only where nobody reports one is a run that ended early an error of its
/// own.
pub proof fn law_every_error_is_reported<P, W>(
    producer: Result<(), P>,
    writer: Result<WriterOutcome, W>,
)
    ensures
        combined(producer, writer) is Ok <==> producer is Ok && (writer == Ok::<WriterOutcome, W>(
            WriterOutcome::Complete,
        ) || writer == Ok::<WriterOutcome, W>(WriterOutcome::BrokenPipe)),
        writer matches Err(w) ==> combined(producer, writer) == Err::<(), DownloadError<P, W>>(
            DownloadError::Output(w),
        ),
        writer is Ok ==> (producer matches Err(p) ==> combined(producer, writer) == Err::<
            (),
            DownloadError<P, W>,
        >(DownloadError::Producer(p))),
        writer == Ok::<WriterOutcome, W>(WriterOutcome::Incomplete) && producer is Ok ==> combined(
            producer,
            writer,
        ) == Err::<(), DownloadError<P, W>>(DownloadError::Incomplete),
{
}

/// The messages of a failed download: that of the producer as it is, that of a run that ended
/// early, and that of the output behind what failed.
pub proof fn law_download_errors_are_told(error: DownloadError<String, String>)
    ensures
        match error {
            DownloadError::Producer(e) => error.text() == e@,
            DownloadError::Incomplete => error.text()
                == "download ended before all bytes were written"@,
            DownloadError::Output(e) => error.text() == "failed writing output: "@ + e@,
        },
{
}

/// The exit code tells success, failure and an interrupt apart: 0, 1 and 130.
pub proof fn law_exit_codes(ending: Ending)
    ensures
        code_of(ending) == 0 <==> ending is Done,
        code_of(ending) == 1 <==> ending is Failed,
        code_of(ending) == 130 <==> ending is Interrupted,
{
}

} // verus!
