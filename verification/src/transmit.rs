//! The frame builder: synthesizing the pulse-pair train that transmits a
//! command byte triple.

use vstd::prelude::*;

use crate::assemble::bit_of;
use crate::assemble::byte_bits;
use crate::assemble::bits_of_bytes;
use crate::signal::Polarity;
use crate::signal::Pulse;
use crate::signal::PulsePair;
use crate::timing::TimingConfig;

verus! {

/// The header (sync) pair of the timing table.
pub open spec fn spec_header_pair(cfg: TimingConfig) -> PulsePair {
    PulsePair {
        first: Pulse { polarity: Polarity::Mark, ticks: cfg.tx_header_mark },
        second: Pulse { polarity: Polarity::Space, ticks: cfg.tx_header_space },
    }
}

/// The pulse pair of one data bit: the shared bit mark, then the 0 or 1
/// space.  Any nonzero payload is emitted as a 1, as the protocol has only
/// the two bit symbols.
pub open spec fn spec_bit_pair(cfg: TimingConfig, bit: u8) -> PulsePair {
    PulsePair {
        first: Pulse { polarity: Polarity::Mark, ticks: cfg.tx_bit_mark },
        second: Pulse {
            polarity: Polarity::Space,
            ticks: if bit == 0 { cfg.tx_bit0_space } else { cfg.tx_bit1_space },
        },
    }
}

/// The stop (separator) pair of the timing table.
pub open spec fn spec_stop_pair(cfg: TimingConfig) -> PulsePair {
    PulsePair {
        first: Pulse { polarity: Polarity::Mark, ticks: cfg.tx_bit_mark },
        second: Pulse { polarity: Polarity::Space, ticks: cfg.tx_stop_space },
    }
}

/// One pulse pair per bit, in order.
pub open spec fn spec_bit_pairs(cfg: TimingConfig, bits: Seq<u8>) -> Seq<PulsePair> {
    bits.map_values(|b: u8| spec_bit_pair(cfg, b))
}

/// The eight pulse pairs of one byte, most significant bit first.
pub open spec fn spec_byte_pairs(cfg: TimingConfig, byte: u8) -> Seq<PulsePair> {
    spec_bit_pairs(cfg, byte_bits(byte))
}

/// One frame: the header pair, every byte as eight bit pairs, the stop
/// pair.
pub open spec fn spec_frame_pairs(cfg: TimingConfig, bytes: Seq<u8>) -> Seq<PulsePair> {
    seq![spec_header_pair(cfg)] + spec_bit_pairs(cfg, bits_of_bytes(bytes)) + seq![
        spec_stop_pair(cfg),
    ]
}

/// The data bytes of one repetition for the command triple (a, b, c): each
/// byte followed by its bitwise complement.
pub open spec fn spec_command_frame_bytes(a: u8, b: u8, c: u8) -> Seq<u8> {
    seq![a, !a, b, !b, c, !c]
}

/// The full pulse train of one transmission: the command frame twice, for
/// protocol redundancy.
pub open spec fn spec_command_pairs(cfg: TimingConfig, a: u8, b: u8, c: u8) -> Seq<PulsePair> {
    spec_frame_pairs(cfg, spec_command_frame_bytes(a, b, c)) + spec_frame_pairs(
        cfg,
        spec_command_frame_bytes(a, b, c),
    )
}

/// The data bytes the builder frames always come in (value, complement)
/// pairs: the frame invariant the interpreter's well-formedness check
/// looks for.
pub proof fn lemma_command_bytes_complements(a: u8, b: u8, c: u8)
    ensures
        crate::command::spec_complements_ok(spec_command_frame_bytes(a, b, c)),
{
    let bytes = spec_command_frame_bytes(a, b, c);
    assert forall|i: int| 0 <= i < bytes.len() / 2 implies #[trigger] bytes[2 * i + 1] == !bytes[2
        * i] by {
        if i == 0 {
            assert(bytes[1] == !bytes[0]);
        } else if i == 1 {
            assert(bytes[3] == !bytes[2]);
        } else {
            assert(bytes[5] == !bytes[4]);
        }
    }
}

/// Builds the header pair.
pub fn header_pair(cfg: &TimingConfig) -> (p: PulsePair)
    ensures
        p == spec_header_pair(*cfg),
{
    PulsePair {
        first: Pulse { polarity: Polarity::Mark, ticks: cfg.tx_header_mark },
        second: Pulse { polarity: Polarity::Space, ticks: cfg.tx_header_space },
    }
}

/// Builds the pulse pair of one data bit.
pub fn bit_pair(cfg: &TimingConfig, bit: u8) -> (p: PulsePair)
    ensures
        p == spec_bit_pair(*cfg, bit),
{
    PulsePair {
        first: Pulse { polarity: Polarity::Mark, ticks: cfg.tx_bit_mark },
        second: Pulse {
            polarity: Polarity::Space,
            ticks: if bit == 0 { cfg.tx_bit0_space } else { cfg.tx_bit1_space },
        },
    }
}

/// Builds the stop pair.
pub fn stop_pair(cfg: &TimingConfig) -> (p: PulsePair)
    ensures
        p == spec_stop_pair(*cfg),
{
    PulsePair {
        first: Pulse { polarity: Polarity::Mark, ticks: cfg.tx_bit_mark },
        second: Pulse { polarity: Polarity::Space, ticks: cfg.tx_stop_space },
    }
}

/// Appends the eight bit pairs of one byte, most significant bit first.
pub fn push_byte_pairs(cfg: &TimingConfig, out: &mut Vec<PulsePair>, byte: u8)
    ensures
        final(out)@ == old(out)@ + spec_byte_pairs(*cfg, byte),
{
    let mut i: u8 = 0;
    while i < 8
        invariant
            i <= 8,
            out@ == old(out)@ + spec_byte_pairs(*cfg, byte).take(i as int),
        decreases 8 - i,
    {
        let sh: u8 = 7 - i;
        let bit: u8 = (byte >> sh) & 1;
        proof {
            assert(spec_byte_pairs(*cfg, byte)[i as int] == spec_bit_pair(
                *cfg,
                bit_of(byte, i as int),
            ));
            assert(spec_byte_pairs(*cfg, byte).take(i + 1) =~= spec_byte_pairs(
                *cfg,
                byte,
            ).take(i as int).push(spec_byte_pairs(*cfg, byte)[i as int]));
        }
        let p = bit_pair(cfg, bit);
        out.push(p);
        i += 1;
    }
    proof {
        assert(spec_byte_pairs(*cfg, byte).take(8) =~= spec_byte_pairs(*cfg, byte));
    }
}

proof fn lemma_bit_pairs_concat(cfg: TimingConfig, a: Seq<u8>, b: Seq<u8>)
    ensures
        spec_bit_pairs(cfg, a + b) == spec_bit_pairs(cfg, a) + spec_bit_pairs(cfg, b),
{
    assert(spec_bit_pairs(cfg, a + b) =~= spec_bit_pairs(cfg, a) + spec_bit_pairs(cfg, b));
}

/// Appends one whole frame: header, every byte MSB first, stop.
pub fn push_frame_pairs(cfg: &TimingConfig, out: &mut Vec<PulsePair>, bytes: &[u8])
    ensures
        final(out)@ == old(out)@ + spec_frame_pairs(*cfg, bytes@),
{
    let n: usize = bytes.len();
    let h = header_pair(cfg);
    out.push(h);
    let mut i: usize = 0;
    proof {
        assert(bits_of_bytes(bytes@.take(0)) =~= Seq::<u8>::empty());
        assert(spec_bit_pairs(*cfg, Seq::<u8>::empty()) =~= Seq::<PulsePair>::empty());
        assert(out@ =~= old(out)@ + seq![spec_header_pair(*cfg)] + spec_bit_pairs(
            *cfg,
            bits_of_bytes(bytes@.take(0)),
        ));
    }
    while i < n
        invariant
            n == bytes@.len(),
            i <= n,
            out@ == old(out)@ + seq![spec_header_pair(*cfg)] + spec_bit_pairs(
                *cfg,
                bits_of_bytes(bytes@.take(i as int)),
            ),
        decreases n - i,
    {
        let b = bytes[i];
        proof {
            let prefix = bytes@.take(i as int);
            assert(bytes@.take(i + 1) =~= prefix + seq![b]);
            crate::assemble::lemma_bits_of_bytes_concat(prefix, seq![b]);
            assert(seq![b].drop_first() =~= Seq::<u8>::empty());
            assert(bits_of_bytes(seq![b]) == byte_bits(b) + bits_of_bytes(Seq::<u8>::empty()));
            assert(bits_of_bytes(seq![b]) =~= byte_bits(b));
            lemma_bit_pairs_concat(*cfg, bits_of_bytes(prefix), byte_bits(b));
            assert((old(out)@ + seq![spec_header_pair(*cfg)] + spec_bit_pairs(
                *cfg,
                bits_of_bytes(prefix),
            )) + spec_byte_pairs(*cfg, b) =~= old(out)@ + seq![spec_header_pair(*cfg)]
                + (spec_bit_pairs(*cfg, bits_of_bytes(prefix)) + spec_bit_pairs(
                *cfg,
                byte_bits(b),
            )));
        }
        push_byte_pairs(cfg, out, b);
        i += 1;
    }
    let s = stop_pair(cfg);
    proof {
        assert(bytes@.take(n as int) =~= bytes@);
    }
    out.push(s);
    proof {
        assert(out@ =~= old(out)@ + spec_frame_pairs(*cfg, bytes@));
    }
}

/// Builds the full pulse train for the command triple (a, b, c): the frame
/// of the six data bytes twice, then, when `trailer` is not empty, one
/// fixed-content trailer frame of exactly those bytes.  Which trailer block
/// a dialect appends is configuration, not derived from the triple.
pub fn encode_command(cfg: &TimingConfig, a: u8, b: u8, c: u8, trailer: &[u8]) -> (pulses: Vec<
    PulsePair,
>)
    ensures
        pulses@ == spec_command_pairs(*cfg, a, b, c) + (if trailer@.len() > 0 {
            spec_frame_pairs(*cfg, trailer@)
        } else {
            Seq::<PulsePair>::empty()
        }),
{
    let mut data: Vec<u8> = Vec::new();
    data.push(a);
    data.push(!a);
    data.push(b);
    data.push(!b);
    data.push(c);
    data.push(!c);
    proof {
        assert(data@ =~= spec_command_frame_bytes(a, b, c));
    }
    let mut pulses: Vec<PulsePair> = Vec::new();
    push_frame_pairs(cfg, &mut pulses, data.as_slice());
    push_frame_pairs(cfg, &mut pulses, data.as_slice());
    if trailer.len() > 0 {
        push_frame_pairs(cfg, &mut pulses, trailer);
    }
    proof {
        assert(pulses@ =~= spec_command_pairs(*cfg, a, b, c) + (if trailer@.len() > 0 {
            spec_frame_pairs(*cfg, trailer@)
        } else {
            Seq::<PulsePair>::empty()
        }));
    }
    pulses
}

/// The fixed trailer block the reference remote appends after the two
/// command frames.
pub fn standard_trailer() -> (t: Vec<u8>)
    ensures
        t@ == seq![0xD5u8, 0x66, 0x00, 0x10, 0x00, 0x4B],
{
    let mut t: Vec<u8> = Vec::new();
    t.push(0xD5);
    t.push(0x66);
    t.push(0x00);
    t.push(0x10);
    t.push(0x00);
    t.push(0x4B);
    proof {
        assert(t@ =~= seq![0xD5u8, 0x66, 0x00, 0x10, 0x00, 0x4B]);
    }
    t
}

} // verus!
