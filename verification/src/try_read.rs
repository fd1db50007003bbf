//! The bridge between a thread that reads bytes and the loop that draws: an
//! unbounded first-in first-out queue of decoded text, polled without waiting.
//!
//! The thread itself is the caller's. It holds a `Feeder`, reads into a scratch
//! buffer of `SCRATCH_SIZE` bytes for as long as `Feeder::should_continue` says
//! so, and hands each outcome to `Feeder::forward`.

use std::sync::mpsc::{Receiver, Sender, TryRecvError};
use std::sync::Arc;
use vstd::prelude::*;
use vstd::utf8::{decode_utf8, valid_utf8};

verus! {

/// Size in bytes of the scratch buffer that the reading thread reads into.
pub const SCRATCH_SIZE: usize = 65536;

/// The receiving end of a queue of `std::sync::mpsc`.
#[verifier::external_type_specification]
#[verifier::external_body]
#[verifier::reject_recursive_types(T)]
pub struct ExReceiver<T>(Receiver<T>);

/// The sending end of a queue of `std::sync::mpsc`.
#[verifier::external_type_specification]
#[verifier::external_body]
#[verifier::reject_recursive_types(T)]
pub struct ExSender<T>(Sender<T>);

/// The text that `String::from_utf8_lossy` makes of `bytes`.
pub uninterp spec fn lossy_text(bytes: Seq<u8>) -> Seq<char>;

/// Decodes `bytes` with `String::from_utf8_lossy`.
///
/// Not proved: the contract is taken from the documentation of std. The
/// result depends on the bytes alone. Bytes that are valid UTF-8 decode to
/// the text they encode; an invalid sequence is replaced by U+FFFD and never
/// makes the call fail.
#[verifier::external_body]
fn decode_lossy(bytes: &[u8]) -> (text: String)
    ensures
        text@ == lossy_text(bytes@),
        valid_utf8(bytes@) ==> text@ == decode_utf8(bytes@),
{
    String::from_utf8_lossy(bytes).into_owned()
}

/// Makes a queue with `std::sync::mpsc::channel` and hands back its two ends.
///
/// Not proved, and nothing is claimed of the ends.
#[verifier::external_body]
fn open_queue() -> (ends: (Sender<String>, Receiver<String>)) {
    std::sync::mpsc::channel()
}

/// What one look at the queue found.
pub enum Polled {
    /// The chunk that was at the head of the queue, now taken off it.
    Chunk(String),
    /// The queue was empty.
    Empty,
    /// The queue was empty and the reading thread's end of it is gone.
    Closed,
}

impl Polled {
    /// What a poll hands to its caller: the chunk if one was found, and
    /// nothing otherwise, whether or not the reading thread is still there.
    pub fn into_chunk(self) -> (chunk: Option<String>)
        ensures
            chunk == match self {
                Polled::Chunk(text) => Some(text),
                Polled::Empty => None,
                Polled::Closed => None,
            },
    {
        match self {
            Polled::Chunk(text) => Some(text),
            Polled::Empty => None,
            Polled::Closed => None,
        }
    }
}

/// Looks at the head of the queue with `Receiver::try_recv`, which does not
/// wait, and takes the chunk off if there is one.
///
/// Not proved. What is in the queue is up to the thread that fills it, so
/// nothing is claimed of the result.
#[verifier::external_body]
fn poll_queue(rx: &Receiver<String>) -> (found: Polled) {
    match rx.try_recv() {
        Ok(chunk) => Polled::Chunk(chunk),
        Err(TryRecvError::Empty) => Polled::Empty,
        Err(TryRecvError::Disconnected) => Polled::Closed,
    }
}

/// Puts `chunk` at the tail of the queue with `Sender::send`, which does not
/// wait. The queue takes it unless the receiving end is gone; then the call
/// fails and its error gives the chunk back.
///
/// Not proved: the contract is taken from the documentation of std. Whether
/// the receiving end is still there is up to the thread that owns it, so
/// nothing is claimed of which way the call goes, only that a chunk that
/// comes back is the one that was sent.
#[verifier::external_body]
fn put(tx: &Sender<String>, chunk: String) -> (refused: Option<String>)
    ensures
        refused matches Some(text) ==> text@ == chunk@,
{
    match tx.send(chunk) {
        Ok(()) => None,
        Err(error) => Some(error.0),
    }
}

/// What became of one read.
#[derive(Debug, Clone, PartialEq, Eq)]
pub enum Forwarded {
    /// The read failed or brought no bytes, so there was no chunk to send.
    Nothing,
    /// The read brought a chunk and the queue took it.
    Queued,
    /// The read brought a chunk, but the consumer is gone: the chunk, which
    /// nobody will see.
    Dropped(String),
}

/// The text that one read yields. A read that failed or brought no bytes
/// yields none. A read of `n > 0` bytes yields the first `n` bytes of the
/// scratch buffer, decoded.
pub open spec fn chunk_text(scratch: Seq<u8>, outcome: Option<usize>) -> Option<Seq<char>> {
    match outcome {
        Some(n) => if n > 0 {
            Some(lossy_text(scratch.subrange(0, n as int)))
        } else {
            None
        },
        None => None,
    }
}

/// Decodes what one read brought. `outcome` is the number of bytes that the
/// read put at the start of `scratch`, or `None` if the read failed.
pub fn decode_chunk(scratch: &[u8], outcome: Option<usize>) -> (chunk: Option<String>)
    requires
        outcome matches Some(n) ==> n <= scratch@.len(),
    ensures
        chunk is Some <==> chunk_text(scratch@, outcome) is Some,
        chunk matches Some(text) ==> {
            &&& Some(text@) == chunk_text(scratch@, outcome)
            &&& valid_utf8(scratch@.subrange(0, outcome->0 as int)) ==> text@ == decode_utf8(
                scratch@.subrange(0, outcome->0 as int),
            )
        },
{
    match outcome {
        Some(n) => {
            if n > 0 {
                Some(decode_lossy(vstd::slice::slice_subrange(scratch, 0, n)))
            } else {
                None
            }
        },
        None => None,
    }
}

/// The consumer's end of the bridge. While it lives, the reading thread goes
/// on; once it is dropped, the thread stops before its next read.
pub struct TryReader {
    _keep_alive: Arc<()>,
    rx: Receiver<String>,
}

/// The reading thread's end of the bridge.
pub struct Feeder {
    tx: Sender<String>,
}

impl TryReader {
    /// A new bridge with an empty queue: the consumer's end, which owns the
    /// liveness token, and the end for the reading thread.
    pub fn new() -> (ends: (TryReader, Feeder)) {
        let (tx, rx) = open_queue();
        (TryReader { _keep_alive: Arc::new(()), rx }, Feeder { tx })
    }

    /// The liveness token. The reading thread keeps a weak reference to it
    /// and counts the strong ones before each read.
    pub fn keep_alive(&self) -> (token: &Arc<()>) {
        &self._keep_alive
    }

    /// Poll: the oldest chunk that has not been handed out yet, or `None` if
    /// there is none. Never waits.
    pub fn try_read(&self) -> (chunk: Option<String>) {
        poll_queue(&self.rx).into_chunk()
    }
}

impl Feeder {
    /// Whether the reading thread goes on to its next read: it does while a
    /// strong reference to the liveness token is left.
    pub fn should_continue(strong_count: usize) -> (go_on: bool)
        ensures
            go_on == (strong_count > 0),
    {
        strong_count > 0
    }

    /// Decodes what one read brought and offers it to the queue, and says
    /// what became of it. A read that failed or brought no bytes offers
    /// nothing. Every other read offers its chunk, once; the queue takes it
    /// while the consumer lives, and a chunk for a consumer that is gone
    /// comes back and is dropped.
    pub fn forward(&self, scratch: &[u8], outcome: Option<usize>) -> (sent: Forwarded)
        requires
            outcome matches Some(n) ==> n <= scratch@.len(),
        ensures
            sent is Nothing <==> chunk_text(scratch@, outcome) is None,
            sent matches Forwarded::Dropped(text) ==> Some(text@) == chunk_text(scratch@, outcome),
    {
        match decode_chunk(scratch, outcome) {
            Some(chunk) => match put(&self.tx, chunk) {
                None => Forwarded::Queued,
                Some(text) => Forwarded::Dropped(text),
            },
            None => Forwarded::Nothing,
        }
    }
}

} // verus!
