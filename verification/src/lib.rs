//! The verified core of pcurl, a parallel HTTP downloader that writes the remote
//! file to its output strictly in order.
//!
//! A file is cut into chunks (`plan`), which are handed out to workers in order
//! (`dispatch`, `worker`), fetched with retries (`fetch`, `retry`, `speed`) and put
//! back in order (`writer`). Where the server does not serve ranges (`probe`), one
//! stream takes the place of the workers (`single`, `stream`). Each module decides what is to
//! be done; the program around it talks to the network, the clock and the output.
//! What holds of a download from its options to its output stands in `download`.

pub mod cli;
pub mod dispatch;
pub mod download;
pub mod fetch;
pub mod headers;
pub mod logging;
pub mod outcome;
pub mod plan;
pub mod probe;
pub mod progress;
pub mod retry;
pub mod single;
pub mod speed;
pub mod status;
pub mod stream;
pub mod text;
pub mod worker;
pub mod writer;
