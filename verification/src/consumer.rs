//! The consumer of captured blocks.
//!
//! The consumer owns all filter designs and peak trackers. It alternates with
//! its caller, one block at a time: the caller receives a delivery from the
//! channel and hands it in, filters the block it gets back, hands the two
//! filtered bands in, sends the intensities to the device, and hands the
//! outcome in. Only then is the next delivery taken: while a block is under
//! way the consumer takes no other.

use vstd::prelude::*;
use vstd::string::StringExecFns;
use crate::band::Band;
use crate::bar::{bar_of, level_to_bar};
use crate::config::Config;
use crate::envelope::{
    envelope, envelope_of, lemma_envelope_between, lemma_greatest_is_maximum,
    lemma_silent_block, Reduction,
};
use crate::filter::{bank_error, FilterBank, FilterError};
use crate::level::UNIT;
use crate::message::{AudioBlock, Message};
use crate::normalizer::{
    lemma_silence_is_zero, IntensityVector, Magnitudes, Normalizer, Peaks,
};

verus! {

/// The number of glyphs in a rendered bar.
pub const BAR_WIDTH: usize = 20;

/// Why the consumer has stopped.
#[derive(Clone, Copy, Debug, PartialEq, Eq, Structural)]
pub enum StopReason {
    /// The producer sent the shutdown signal.
    Quit,
    /// The channel was closed without a shutdown signal.
    Closed,
    /// No filter can be designed for a block's sample rate.
    Filter(FilterError),
    /// The connection to the device is gone.
    ConnectionLost,
}

/// Where the consumer stands in the pass of a block.
#[derive(Clone, Copy, Debug, PartialEq, Eq, Structural)]
pub enum Phase {
    /// No block is under way: the next delivery is awaited.
    Idle,
    /// A block was handed out: its filtered bands are awaited.
    Filtering,
    /// Intensities were handed out: the outcome of the command is awaited.
    Dispatching,
    /// The consumer takes nothing any more.
    Stopped(StopReason),
}

/// How a command to the device ended.
#[derive(Clone, Copy, Debug, PartialEq, Eq, Structural)]
pub enum Outcome {
    /// The device took the intensities.
    Sent,
    /// The command failed, but the connection stands.
    Failed,
    /// The command failed because the connection is gone.
    ConnectionLost,
}

/// What the caller does after a delivery.
#[derive(Debug)]
pub enum Step<S> {
    /// Filter the block with the two designs and hand the bands in.
    Filter { block: AudioBlock<S>, bank: FilterBank },
    /// Leave the loop.
    Stop(StopReason),
    /// A block is still under way: the delivery comes back untaken.
    Busy(Option<Message<S>>),
}

/// What the caller does after a command to the device.
#[derive(Clone, Copy, Debug, PartialEq, Eq, Structural)]
pub enum Verdict {
    /// Take the next delivery.
    Continue,
    /// Report the failure, then take the next delivery.
    Report,
    /// Leave the loop.
    Stop,
}

impl Phase {
    /// Whether a consumer in this phase takes `delivery` as a block to
    /// filter: it is idle, the delivery is a block, and the filters can be
    /// designed for the block's sample rate.
    pub open spec fn takes<S>(self, low_cutoff: nat, delivery: Option<Message<S>>) -> bool {
        self is Idle && match delivery {
            Some(Message::Data(block)) => bank_error(block.sample_rate as nat, low_cutoff) is None,
            _ => false,
        }
    }

    /// The phase after a delivery: `None` is the closed channel. An idle
    /// consumer goes on to filter a block, and stops on the shutdown signal,
    /// on the closed channel, and on a block at whose sample rate the
    /// filters cannot be designed. In every other phase nothing changes.
    pub open spec fn on_delivery<S>(self, low_cutoff: nat, delivery: Option<Message<S>>) -> Phase {
        match self {
            Phase::Idle => match delivery {
                None => Phase::Stopped(StopReason::Closed),
                Some(Message::Quit) => Phase::Stopped(StopReason::Quit),
                Some(Message::Data(block)) => match bank_error(
                    block.sample_rate as nat,
                    low_cutoff,
                ) {
                    Some(e) => Phase::Stopped(StopReason::Filter(e)),
                    None => Phase::Filtering,
                },
            },
            other => other,
        }
    }

    /// The phase after the filtered bands came in.
    pub open spec fn on_bands(self) -> Phase {
        match self {
            Phase::Filtering => Phase::Dispatching,
            other => other,
        }
    }

    /// The phase after the outcome of a command came in: the block's pass is
    /// over, and only the loss of the connection stops the consumer.
    pub open spec fn on_outcome(self, outcome: Outcome) -> Phase {
        match self {
            Phase::Dispatching => match outcome {
                Outcome::ConnectionLost => Phase::Stopped(StopReason::ConnectionLost),
                _ => Phase::Idle,
            },
            other => other,
        }
    }
}

/// What the caller is told when `outcome` comes in at a consumer in the
/// phase `before`: a failure is reported and the loop goes on, unless the
/// connection is gone or the consumer has stopped already.
pub open spec fn verdict_of(before: Phase, outcome: Outcome) -> Verdict {
    match before {
        Phase::Stopped(_) => Verdict::Stop,
        Phase::Dispatching => match outcome {
            Outcome::Sent => Verdict::Continue,
            Outcome::Failed => Verdict::Report,
            Outcome::ConnectionLost => Verdict::Stop,
        },
        _ => Verdict::Continue,
    }
}

/// The magnitudes of a block whose filtered bands are `low` and `high`.
pub open spec fn measured(reduction: Reduction, low: Seq<i64>, high: Seq<i64>) -> Magnitudes {
    Magnitudes {
        low: envelope_of(low, reduction) as u64,
        high: envelope_of(high, reduction) as u64,
    }
}

/// The text rendered for one block in debug mode: for each band a blank and
/// a bar of [`BAR_WIDTH`] glyphs, low band first.
pub open spec fn debug_text(intensities: Seq<nat>) -> Seq<char> {
    seq![' '] + bar_of(intensities[0], BAR_WIDTH as nat) + seq![' '] + bar_of(
        intensities[1],
        BAR_WIDTH as nat,
    )
}

/// The magnitudes of a block are its bands' envelopes, unchanged.
pub proof fn lemma_measured_is_exact(reduction: Reduction, low: Seq<i64>, high: Seq<i64>)
    ensures
        measured(reduction, low, high).low == envelope_of(low, reduction),
        measured(reduction, low, high).high == envelope_of(high, reduction),
{
    lemma_envelope_between(low, reduction);
    lemma_envelope_between(high, reduction);
    lemma_greatest_is_maximum(low);
    lemma_greatest_is_maximum(high);
}

/// A block whose filtered bands are all zero is emitted as zero in both
/// bands, under every reduction and gain.
pub proof fn lemma_zero_block_is_silent(
    p: Peaks,
    reduction: Reduction,
    low: Seq<i64>,
    high: Seq<i64>,
    gain: int,
)
    requires
        p.valid(),
        forall|i: int| 0 <= i < low.len() ==> #[trigger] low[i] == 0,
        forall|i: int| 0 <= i < high.len() ==> #[trigger] high[i] == 0,
    ensures
        measured(reduction, low, high).low == 0,
        measured(reduction, low, high).high == 0,
        p.intensities(measured(reduction, low, high), gain) == seq![0nat, 0nat],
{
    lemma_silent_block(low, reduction);
    lemma_silent_block(high, reduction);
    lemma_silence_is_zero(p, measured(reduction, low, high), gain);
}

/// What a consumer has done once the channel is exhausted.
pub struct Run<S> {
    /// The blocks that were handed out for filtering, in that order.
    pub blocks: Seq<AudioBlock<S>>,
    /// The phase at the end.
    pub phase: Phase,
}

/// The blocks that the messages `msgs` carry, in the same order.
pub open spec fn payloads<S>(msgs: Seq<Message<S>>) -> Seq<AudioBlock<S>> {
    Seq::new(msgs.len(), |i: int| msgs[i]->Data_0)
}

/// What a consumer in `phase` does when the channel delivers `msgs` in this
/// order and is closed after them, the caller hands in the filtered bands of
/// every block that it gets, and the command for the block handed out as
/// number `i` ends as `outcomes[i]`.
pub open spec fn run<S>(
    phase: Phase,
    low_cutoff: nat,
    msgs: Seq<Message<S>>,
    outcomes: Seq<Outcome>,
) -> Run<S>
    decreases msgs.len(),
{
    if msgs.len() == 0 {
        Run { blocks: Seq::empty(), phase: phase.on_delivery::<S>(low_cutoff, None) }
    } else if !phase.takes(low_cutoff, Some(msgs[0])) {
        Run { blocks: Seq::empty(), phase: phase.on_delivery(low_cutoff, Some(msgs[0])) }
    } else {
        let settled = phase.on_delivery(low_cutoff, Some(msgs[0])).on_bands().on_outcome(
            outcomes[0],
        );
        let rest = run(settled, low_cutoff, msgs.skip(1), outcomes.skip(1));
        Run { blocks: seq![msgs[0]->Data_0] + rest.blocks, phase: rest.phase }
    }
}

/// Whether every message of `msgs` is a block at whose sample rate the
/// filters can be designed.
pub open spec fn all_blocks<S>(low_cutoff: nat, msgs: Seq<Message<S>>) -> bool {
    forall|i: int|
        0 <= i < msgs.len() ==> (#[trigger] msgs[i]) is Data && bank_error(
            msgs[i]->Data_0.sample_rate as nat,
            low_cutoff,
        ) is None
}

/// Whether the connection stands after each of the first `n` commands.
pub open spec fn connection_stands(outcomes: Seq<Outcome>, n: nat) -> bool {
    n <= outcomes.len() && forall|i: int| 0 <= i < n ==> !(#[trigger] outcomes[i] is ConnectionLost)
}

/// An idle consumer hands out every block that the channel delivers, in the
/// order of delivery, as long as the filters can be designed and the
/// connection stands, and then goes on with what follows as if it had just
/// started.
pub proof fn lemma_run_takes_blocks_in_order<S>(
    low_cutoff: nat,
    blocks: Seq<Message<S>>,
    tail: Seq<Message<S>>,
    outcomes: Seq<Outcome>,
)
    requires
        all_blocks(low_cutoff, blocks),
        connection_stands(outcomes, blocks.len()),
    ensures
        run(Phase::Idle, low_cutoff, blocks + tail, outcomes).blocks == payloads(blocks) + run(
            Phase::Idle,
            low_cutoff,
            tail,
            outcomes.skip(blocks.len() as int),
        ).blocks,
        run(Phase::Idle, low_cutoff, blocks + tail, outcomes).phase == run(
            Phase::Idle,
            low_cutoff,
            tail,
            outcomes.skip(blocks.len() as int),
        ).phase,
    decreases blocks.len(),
{
    let msgs = blocks + tail;
    if blocks.len() == 0 {
        assert(msgs =~= tail);
        assert(outcomes.skip(0) =~= outcomes);
        assert(payloads(blocks) + run(Phase::Idle, low_cutoff, tail, outcomes).blocks =~= run(
            Phase::Idle,
            low_cutoff,
            tail,
            outcomes,
        ).blocks);
    } else {
        let later = blocks.skip(1);
        assert(msgs[0] == blocks[0]);
        assert(msgs.skip(1) =~= later + tail);
        assert(!(outcomes[0] is ConnectionLost));
        assert forall|i: int| 0 <= i < later.len() implies (#[trigger] later[i]) is Data
            && bank_error(later[i]->Data_0.sample_rate as nat, low_cutoff) is None by {
            assert(later[i] == blocks[i + 1]);
        }
        assert forall|i: int| 0 <= i < later.len() implies !(#[trigger] outcomes.skip(1)[i]
            is ConnectionLost) by {
            assert(outcomes.skip(1)[i] == outcomes[i + 1]);
        }
        lemma_run_takes_blocks_in_order(low_cutoff, later, tail, outcomes.skip(1));
        assert(outcomes.skip(1).skip(later.len() as int) =~= outcomes.skip(blocks.len() as int));
        assert(payloads(blocks) =~= seq![blocks[0]->Data_0] + payloads(later));
        let end = run(Phase::Idle, low_cutoff, tail, outcomes.skip(blocks.len() as int));
        assert(seq![blocks[0]->Data_0] + (payloads(later) + end.blocks) =~= payloads(blocks)
            + end.blocks);
    }
}

/// Where the shutdown signal is sent after `blocks`, the consumer hands out
/// exactly these blocks, in the order in which they were sent, and then
/// stops on the signal: none is dropped, and nothing after the signal is
/// acted on.
pub proof fn lemma_quit_after_blocks<S>(
    low_cutoff: nat,
    blocks: Seq<Message<S>>,
    after: Seq<Message<S>>,
    outcomes: Seq<Outcome>,
)
    requires
        all_blocks(low_cutoff, blocks),
        connection_stands(outcomes, blocks.len()),
    ensures
        run(
            Phase::Idle,
            low_cutoff,
            blocks + seq![Message::Quit] + after,
            outcomes,
        ).blocks == payloads(blocks),
        run(
            Phase::Idle,
            low_cutoff,
            blocks + seq![Message::Quit] + after,
            outcomes,
        ).blocks.len() == blocks.len(),
        run(
            Phase::Idle,
            low_cutoff,
            blocks + seq![Message::Quit] + after,
            outcomes,
        ).phase == Phase::Stopped(StopReason::Quit),
{
    let tail = seq![Message::<S>::Quit] + after;
    assert(blocks + seq![Message::Quit] + after =~= blocks + tail);
    lemma_run_takes_blocks_in_order(low_cutoff, blocks, tail, outcomes);
    assert(tail[0] == Message::<S>::Quit);
    let end = run(Phase::Idle, low_cutoff, tail, outcomes.skip(blocks.len() as int));
    assert(end.blocks =~= Seq::<AudioBlock<S>>::empty());
    assert(payloads(blocks) + end.blocks =~= payloads(blocks));
}

/// Where the channel is closed after `blocks` without a shutdown signal, the
/// consumer hands out exactly these blocks, in order, and then stops on the
/// closed channel.
pub proof fn lemma_closed_after_blocks<S>(
    low_cutoff: nat,
    blocks: Seq<Message<S>>,
    outcomes: Seq<Outcome>,
)
    requires
        all_blocks(low_cutoff, blocks),
        connection_stands(outcomes, blocks.len()),
    ensures
        run(Phase::Idle, low_cutoff, blocks, outcomes).blocks == payloads(blocks),
        run(Phase::Idle, low_cutoff, blocks, outcomes).phase == Phase::Stopped(
            StopReason::Closed,
        ),
{
    let tail = Seq::<Message<S>>::empty();
    assert(blocks + tail =~= blocks);
    lemma_run_takes_blocks_in_order(low_cutoff, blocks, tail, outcomes);
    let end = run(Phase::Idle, low_cutoff, tail, outcomes.skip(blocks.len() as int));
    assert(payloads(blocks) + end.blocks =~= payloads(blocks));
}

/// The consumer's state: the configuration, the peaks, and the phase.
pub struct Consumer {
    config: Config,
    normalizer: Normalizer,
    phase: Phase,
}

impl Consumer {
    #[verifier::type_invariant]
    spec fn well_formed(self) -> bool {
        self.normalizer.gain() == self.config.gain
    }

    /// The configuration the consumer was made with.
    pub closed spec fn config(self) -> Config {
        self.config
    }

    /// The peaks that the consumer carries from block to block.
    pub closed spec fn peaks(self) -> Peaks {
        self.normalizer@
    }

    /// Where the consumer stands.
    pub closed spec fn phase(self) -> Phase {
        self.phase
    }

    /// An idle consumer before its first block.
    pub fn new(config: Config) -> (c: Self)
        ensures
            c.config() == config,
            c.peaks() == Peaks::initial(),
            c.phase() == Phase::Idle,
    {
        Consumer { config, normalizer: Normalizer::new(config.gain), phase: Phase::Idle }
    }

    /// Where the consumer stands.
    pub fn current(&self) -> (p: Phase)
        ensures
            p == self.phase(),
    {
        self.phase
    }

    /// Why the consumer has stopped, if it has.
    pub fn stopped(&self) -> (r: Option<StopReason>)
        ensures
            match r {
                Some(reason) => self.phase() == Phase::Stopped(reason),
                None => !(self.phase() is Stopped),
            },
    {
        match self.phase {
            Phase::Stopped(reason) => Some(reason),
            _ => None,
        }
    }

    /// The peak that is tracked for `band`.
    pub fn peak(&self, band: Band) -> (v: u64)
        ensures
            self.peaks().valid(),
            v == self.peaks().of(band),
    {
        self.normalizer.peak(band)
    }

    /// The peak that all bands share.
    pub fn shared_peak(&self) -> (v: u64)
        ensures
            self.peaks().valid(),
            v == self.peaks().global,
    {
        self.normalizer.shared_peak()
    }

    /// Takes one delivery from the channel, `None` for the closed channel,
    /// and says what to do with it. An idle consumer hands a block out for
    /// filtering, as it was sent and with the designs made for its sample
    /// rate, or stops. A stopped consumer stays stopped, and
    /// one with a block under way hands the delivery back.
    pub fn accept<S>(&mut self, delivery: Option<Message<S>>) -> (step: Step<S>)
        ensures
            final(self).phase() == old(self).phase().on_delivery(
                old(self).config().low_cutoff as nat,
                delivery,
            ),
            final(self).config() == old(self).config(),
            final(self).peaks() == old(self).peaks(),
            old(self).phase().takes(old(self).config().low_cutoff as nat, delivery)
                <==> step is Filter,
            match step {
                Step::Filter { block, bank } => {
                    &&& delivery == Some(Message::Data(block))
                    &&& bank.sample_rate() == block.sample_rate
                    &&& bank.low_cutoff() == old(self).config().low_cutoff
                },
                Step::Stop(reason) => final(self).phase() == Phase::Stopped(reason),
                Step::Busy(back) => {
                    &&& back == delivery
                    &&& old(self).phase() is Filtering || old(self).phase() is Dispatching
                },
            },
    {
        proof {
            use_type_invariant(&*self);
        }
        match self.phase {
            Phase::Stopped(reason) => {
                return Step::Stop(reason);
            },
            Phase::Filtering => {
                return Step::Busy(delivery);
            },
            Phase::Dispatching => {
                return Step::Busy(delivery);
            },
            Phase::Idle => {},
        }
        let reason: StopReason = match delivery {
            None => StopReason::Closed,
            Some(Message::Quit) => StopReason::Quit,
            Some(Message::Data(block)) => {
                match FilterBank::new(block.sample_rate, self.config.low_cutoff) {
                    Ok(bank) => {
                        self.phase = Phase::Filtering;
                        return Step::Filter { block, bank };
                    },
                    Err(e) => StopReason::Filter(e),
                }
            },
        };
        self.phase = Phase::Stopped(reason);
        Step::Stop(reason)
    }

    /// Reduces the two filtered bands of a block to their envelopes.
    pub fn measure(&self, low: &[i64], high: &[i64]) -> (m: Magnitudes)
        ensures
            m == measured(self.config().reduction, low@, high@),
            m.low == envelope_of(low@, self.config().reduction),
            m.high == envelope_of(high@, self.config().reduction),
    {
        proof {
            lemma_measured_is_exact(self.config.reduction, low@, high@);
        }
        Magnitudes {
            low: envelope(low, self.config.reduction),
            high: envelope(high, self.config.reduction),
        }
    }

    /// Takes the two filtered bands of the block under way and returns the
    /// intensities to send: the envelopes of the bands, normalised against
    /// the peaks, amplified by the configured gain and clamped. Every peak
    /// moves on by one block. Where no block awaits its bands, nothing is
    /// returned and nothing changes.
    pub fn analyze(&mut self, low: &[i64], high: &[i64]) -> (out: Option<IntensityVector>)
        ensures
            out is Some <==> old(self).phase() is Filtering,
            final(self).phase() == old(self).phase().on_bands(),
            final(self).config() == old(self).config(),
            match out {
                Some(v) => {
                    &&& v@ == old(self).peaks().intensities(
                        measured(old(self).config().reduction, low@, high@),
                        old(self).config().gain as int,
                    )
                    &&& v@.len() == 2
                    &&& forall|i: int| 0 <= i < 2 ==> 0 <= #[trigger] v@[i] <= UNIT
                    &&& final(self).peaks() == old(self).peaks().next(
                        measured(old(self).config().reduction, low@, high@),
                    )
                    &&& final(self).peaks().valid()
                },
                None => final(self).peaks() == old(self).peaks(),
            },
    {
        proof {
            use_type_invariant(&*self);
        }
        match self.phase {
            Phase::Filtering => {
                let m: Magnitudes = self.measure(low, high);
                let out: IntensityVector = self.normalizer.process(m);
                self.phase = Phase::Dispatching;
                Some(out)
            },
            _ => None,
        }
    }

    /// Takes the outcome of the command to the device and says how to go on:
    /// the block's pass is over, a failure is reported and the loop
    /// continues, unless the connection is gone. Where no command awaits its
    /// outcome, nothing changes.
    pub fn settle(&mut self, outcome: Outcome) -> (verdict: Verdict)
        ensures
            final(self).phase() == old(self).phase().on_outcome(outcome),
            verdict == verdict_of(old(self).phase(), outcome),
            verdict is Stop <==> final(self).phase() is Stopped,
            final(self).config() == old(self).config(),
            final(self).peaks() == old(self).peaks(),
    {
        proof {
            use_type_invariant(&*self);
        }
        match self.phase {
            Phase::Stopped(_) => Verdict::Stop,
            Phase::Dispatching => match outcome {
                Outcome::Sent => {
                    self.phase = Phase::Idle;
                    Verdict::Continue
                },
                Outcome::Failed => {
                    self.phase = Phase::Idle;
                    Verdict::Report
                },
                Outcome::ConnectionLost => {
                    self.phase = Phase::Stopped(StopReason::ConnectionLost);
                    Verdict::Stop
                },
            },
            _ => Verdict::Continue,
        }
    }

    /// The debug rendering of a block's intensities, if debug output is
    /// configured.
    pub fn render(&self, out: &IntensityVector) -> (text: Option<String>)
        ensures
            match text {
                Some(t) => self.config().debug && t@ == debug_text(out@),
                None => !self.config().debug,
            },
    {
        if !self.config.debug {
            return None;
        }
        let low: String = level_to_bar(out.low(), BAR_WIDTH);
        let high: String = level_to_bar(out.high(), BAR_WIDTH);
        proof {
            reveal_strlit(" ");
        }
        let mut text: String = String::new();
        text.append(" ");
        text.append(low.as_str());
        text.append(" ");
        text.append(high.as_str());
        assert(text@ =~= debug_text(out@));
        Some(text)
    }
}

} // verus!
