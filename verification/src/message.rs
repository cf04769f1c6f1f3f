//! What the stand-alone server and the client exchange, and what arrives on a connection.
use vstd::prelude::*;

verus! {

/// A message of the stand-alone server and of the client.
#[derive(Debug)]
pub struct BenchmarkMessage {
    pub id: u64,
    pub timestamp: u64,
    pub payload: String,
}

/// The contents of a `BenchmarkMessage`.
pub struct BenchmarkMessageView {
    pub id: u64,
    pub timestamp: u64,
    pub payload: Seq<char>,
}

impl View for BenchmarkMessage {
    type V = BenchmarkMessageView;

    open spec fn view(&self) -> BenchmarkMessageView {
        BenchmarkMessageView {
            id: self.id,
            timestamp: self.timestamp,
            payload: self.payload@,
        }
    }
}

/// What one read of a connection gives.
#[derive(Debug)]
pub enum Incoming<M> {
    /// A text frame that holds a message.
    Message(M),
    /// A text frame that holds no message.
    Unreadable,
    /// A binary frame.
    Binary(Vec<u8>),
    /// The peer closes the connection.
    Close,
    /// Reading failed.
    Failed,
    /// Any other frame.
    Other,
}

impl<M> Incoming<M> {
    /// Whether nothing more is read after this.
    pub open spec fn ends(self) -> bool {
        self is Close || self is Failed
    }
}

/// What comes in before the first frame that ends the connection.
pub open spec fn before_end<M>(frames: Seq<Incoming<M>>) -> Seq<Incoming<M>>
    decreases frames.len(),
{
    if frames.len() == 0 || frames[0].ends() {
        Seq::empty()
    } else {
        seq![frames[0]] + before_end(frames.drop_first())
    }
}

/// A quotient that is left to be divided out where fractions are at hand.
#[derive(Debug, Clone, Copy, PartialEq, Eq, Structural)]
pub struct Ratio {
    pub numerator: u64,
    pub denominator: u64,
}

} // verus!
