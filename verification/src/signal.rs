//! Pulses, pulse pairs, and the classifier that reads a pulse pair as a
//! protocol symbol.

use vstd::prelude::*;

use crate::timing::TimingConfig;
use crate::timing::in_range;

verus! {

/// Whether a pulse drives the emitter (mark) or leaves it idle (space).
#[derive(Clone, Copy, Debug, PartialEq, Eq, Structural)]
pub enum Polarity {
    Mark,
    Space,
}

/// One timed pulse: a polarity and a duration in ticks.
#[derive(Clone, Copy, Debug, PartialEq, Eq, Structural)]
pub struct Pulse {
    pub polarity: Polarity,
    pub ticks: u16,
}

/// Two consecutive pulses as delivered per symbol by the capture transport.
/// The transport usually alternates mark then space, but a noisy capture may
/// not; the classifier rejects non-alternating pairs as noise.
#[derive(Clone, Copy, Debug, PartialEq, Eq, Structural)]
pub struct PulsePair {
    pub first: Pulse,
    pub second: Pulse,
}

/// The protocol construct one pulse pair is read as.
#[derive(Clone, Copy, Debug, PartialEq, Eq, Structural)]
pub enum Symbol {
    /// The frame sync marker.
    Header,
    /// A data bit, payload 0 or 1.
    Bit(u8),
    /// The frame stop marker.
    Stop,
    /// A pair matching no construct; dropped, never fatal.
    Noise,
}

/// How a pulse pair classifies under `cfg`.  A header compares both
/// durations; a bit or stop compares the space duration alone, which is
/// what separates the constructs on this protocol.  Matching is
/// first-match-wins in the order header, bit 0, bit 1, stop: the 0 and 1
/// space windows overlap, so a space inside the 0 window always reads as 0.
pub open spec fn spec_classify(cfg: TimingConfig, p: PulsePair) -> Symbol {
    if !(p.first.polarity == Polarity::Mark && p.second.polarity == Polarity::Space) {
        Symbol::Noise
    } else if cfg.header_mark.spec_contains(p.first.ticks)
          && cfg.header_space.spec_contains(p.second.ticks) {
        Symbol::Header
    } else if cfg.bit0_space.spec_contains(p.second.ticks) {
        Symbol::Bit(0)
    } else if cfg.bit1_space.spec_contains(p.second.ticks) {
        Symbol::Bit(1)
    } else if cfg.stop_space.spec_contains(p.second.ticks) {
        Symbol::Stop
    } else {
        Symbol::Noise
    }
}

/// Classifies one pulse pair against the timing table.
pub fn classify_pair(cfg: &TimingConfig, p: &PulsePair) -> (s: Symbol)
    ensures
        s == spec_classify(*cfg, *p),
{
    if !(p.first.polarity == Polarity::Mark && p.second.polarity == Polarity::Space) {
        Symbol::Noise
    } else if in_range(p.first.ticks, cfg.header_mark.lo, cfg.header_mark.hi)
        && in_range(p.second.ticks, cfg.header_space.lo, cfg.header_space.hi)
    {
        Symbol::Header
    } else if in_range(p.second.ticks, cfg.bit0_space.lo, cfg.bit0_space.hi) {
        Symbol::Bit(0)
    } else if in_range(p.second.ticks, cfg.bit1_space.lo, cfg.bit1_space.hi) {
        Symbol::Bit(1)
    } else if in_range(p.second.ticks, cfg.stop_space.lo, cfg.stop_space.hi) {
        Symbol::Stop
    } else {
        Symbol::Noise
    }
}

/// The whole capture classified in order, one symbol per pulse pair.
pub open spec fn classified(cfg: TimingConfig, pairs: Seq<PulsePair>) -> Seq<Symbol> {
    pairs.map_values(|p: PulsePair| spec_classify(cfg, p))
}

/// The data bits carried by a symbol sequence, in order: header, stop and
/// noise symbols contribute nothing, each bit symbol its payload.
pub open spec fn symbol_bits(syms: Seq<Symbol>) -> Seq<u8>
    decreases syms.len(),
{
    if syms.len() == 0 {
        Seq::empty()
    } else {
        symbol_bits(syms.drop_last()) + match syms.last() {
            Symbol::Bit(b) => seq![b],
            _ => Seq::empty(),
        }
    }
}

/// Classifies every pulse pair of a capture and keeps the data bits, in
/// order; every returned value is 0 or 1.
pub fn extract_bits(cfg: &TimingConfig, pairs: &[PulsePair]) -> (bits: Vec<u8>)
    ensures
        bits@ == symbol_bits(classified(*cfg, pairs@)),
        forall|k: int| 0 <= k < bits@.len() ==> bits@[k] <= 1,
{
    let mut bits: Vec<u8> = Vec::new();
    let mut i: usize = 0;
    while i < pairs.len()
        invariant
            i <= pairs@.len(),
            bits@ == symbol_bits(classified(*cfg, pairs@.take(i as int))),
            forall|k: int| 0 <= k < bits@.len() ==> bits@[k] <= 1,
        decreases pairs@.len() - i,
    {
        let s = classify_pair(cfg, &pairs[i]);
        proof {
            let prefix = classified(*cfg, pairs@.take(i as int));
            let next = classified(*cfg, pairs@.take(i + 1));
            assert(next.drop_last() =~= prefix);
            assert(next.last() == spec_classify(*cfg, pairs@[i as int]));
        }
        match s {
            Symbol::Bit(b) => { bits.push(b); }
            _ => {}
        }
        i += 1;
    }
    proof {
        assert(pairs@.take(pairs@.len() as int) =~= pairs@);
    }
    bits
}

/// A mark-then-space pair whose mark sits in the nominal 520-540 bit-mark
/// band and whose space lies in the standard zero-space window always
/// classifies as `Bit(0)`, never as a 1: the 0 window is checked before the
/// overlapping 1 window.
pub proof fn lemma_bit0_window(p: PulsePair)
    requires
        p.first.polarity == Polarity::Mark,
        p.second.polarity == Polarity::Space,
        520 <= p.first.ticks <= 540,
        350 <= p.second.ticks <= 700,
    ensures
        spec_classify(crate::timing::spec_standard_config(), p) == Symbol::Bit(0),
{
}

/// A mark-then-space pair with both durations in the standard header window
/// always classifies as `Header`, never as a data bit.
pub proof fn lemma_header_window(p: PulsePair)
    requires
        p.first.polarity == Polarity::Mark,
        p.second.polarity == Polarity::Space,
        4200 <= p.first.ticks <= 4600,
        4200 <= p.second.ticks <= 4600,
    ensures
        spec_classify(crate::timing::spec_standard_config(), p) == Symbol::Header,
        forall|b: u8| spec_classify(crate::timing::spec_standard_config(), p) != Symbol::Bit(b),
{
}

} // verus!
