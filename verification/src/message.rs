//! The unit of transfer from the capture callback to the consumer.

use vstd::prelude::*;

verus! {

/// One captured block: the samples in the order of capture, and the sample
/// rate, in hertz, at the time of capture. The rate may differ from block to
/// block.
#[derive(Debug)]
pub struct AudioBlock<S> {
    pub samples: Vec<S>,
    pub sample_rate: usize,
}

/// What the producer hands to the consumer. A block belongs to the consumer
/// once the message is sent.
#[derive(Debug)]
pub enum Message<S> {
    /// One captured block.
    Data(AudioBlock<S>),
    /// The producer is done: the consumer acts on nothing after it.
    Quit,
}

/// What the capture callback tells the audio server after it has handed a
/// block to the channel.
#[derive(Clone, Copy, Debug, PartialEq, Eq, Structural)]
pub enum Control {
    /// Go on calling.
    Continue,
    /// Stop calling: nobody takes the blocks any more.
    Quit,
}

/// The callback's answer after a send: it goes on as long as the channel
/// took the block, and asks to be stopped once the consumer is gone.
pub fn after_send(taken: bool) -> (c: Control)
    ensures
        c == if taken {
            Control::Continue
        } else {
            Control::Quit
        },
{
    if taken {
        Control::Continue
    } else {
        Control::Quit
    }
}

impl<S> Message<S> {
    /// Whether the message is the shutdown signal.
    pub fn is_quit(&self) -> (b: bool)
        ensures
            b == (self is Quit),
    {
        match self {
            Message::Quit => true,
            Message::Data(_) => false,
        }
    }
}

} // verus!
