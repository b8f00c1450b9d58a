//! The decode pipeline, classifier through interpreter, and the round-trip
//! law: a pulse train built for a command byte triple decodes back to those
//! bytes.

use vstd::prelude::*;

use crate::assemble::bits_of_bytes;
use crate::assemble::bits_to_bytes;
use crate::assemble::spec_bytes_of_bits;
use crate::command::Command;
use crate::command::DecodeError;
use crate::command::ProtocolVariant;
use crate::command::interpret_frame;
use crate::command::spec_decode;
use crate::signal::PulsePair;
use crate::signal::Symbol;
use crate::signal::classified;
use crate::signal::extract_bits;
use crate::signal::spec_classify;
use crate::signal::symbol_bits;
use crate::timing::TimingConfig;
use crate::transmit::spec_bit_pair;
use crate::transmit::spec_bit_pairs;
use crate::transmit::spec_command_frame_bytes;
use crate::transmit::spec_command_pairs;
use crate::transmit::spec_frame_pairs;
use crate::transmit::spec_header_pair;
use crate::transmit::spec_stop_pair;

verus! {

/// The data bits a capture carries: each pulse pair classified, bit symbols
/// kept in order.
pub open spec fn spec_decoded_bits(cfg: TimingConfig, pairs: Seq<PulsePair>) -> Seq<u8> {
    symbol_bits(classified(cfg, pairs))
}

/// The bytes a capture assembles to.
pub open spec fn spec_decoded_bytes(cfg: TimingConfig, pairs: Seq<PulsePair>) -> Seq<u8> {
    spec_bytes_of_bits(spec_decoded_bits(cfg, pairs))
}

/// Runs a capture through the classifier and the byte assembler.
pub fn decode_pulses(cfg: &TimingConfig, pairs: &[PulsePair]) -> (bytes: Vec<u8>)
    ensures
        bytes@ == spec_decoded_bytes(*cfg, pairs@),
{
    let bits = extract_bits(cfg, pairs);
    bits_to_bytes(bits.as_slice())
}

/// Runs a capture through the whole decode pipeline: classifier, byte
/// assembler, frame interpreter.  A capture with no data bits yields the
/// no-capture error, a short frame the too-short error, never a panic.
pub fn decode_capture(cfg: &TimingConfig, pairs: &[PulsePair], variant: ProtocolVariant) -> (r:
    Result<Command, DecodeError>)
    ensures
        r == spec_decode(spec_decoded_bytes(*cfg, pairs@), variant),
{
    let bytes = decode_pulses(cfg, pairs);
    interpret_frame(bytes.as_slice(), variant)
}

/// Under a well-formed timing table, every pulse pair the builder emits is
/// read back as the construct it was emitted as.
pub proof fn lemma_classify_emitted(cfg: TimingConfig)
    requires
        cfg.wf(),
    ensures
        spec_classify(cfg, spec_header_pair(cfg)) == Symbol::Header,
        forall|b: u8| b <= 1 ==> spec_classify(cfg, #[trigger] spec_bit_pair(cfg, b)) == Symbol::Bit(
            b,
        ),
        spec_classify(cfg, spec_stop_pair(cfg)) == Symbol::Stop,
{
    assert forall|b: u8| b <= 1 implies spec_classify(cfg, #[trigger] spec_bit_pair(cfg, b))
        == Symbol::Bit(b) by {
        if b == 0 {
            assert(spec_classify(cfg, spec_bit_pair(cfg, 0)) == Symbol::Bit(0));
        } else {
            assert(spec_classify(cfg, spec_bit_pair(cfg, b)) == Symbol::Bit(1));
        }
    }
}

proof fn lemma_classified_concat(cfg: TimingConfig, a: Seq<PulsePair>, b: Seq<PulsePair>)
    ensures
        classified(cfg, a + b) == classified(cfg, a) + classified(cfg, b),
{
    assert(classified(cfg, a + b) =~= classified(cfg, a) + classified(cfg, b));
}

proof fn lemma_symbol_bits_concat(a: Seq<Symbol>, b: Seq<Symbol>)
    ensures
        symbol_bits(a + b) == symbol_bits(a) + symbol_bits(b),
    decreases b.len(),
{
    if b.len() == 0 {
        assert(a + b =~= a);
        assert(symbol_bits(a) + symbol_bits(b) =~= symbol_bits(a));
    } else {
        assert((a + b).drop_last() =~= a + b.drop_last());
        assert((a + b).last() == b.last());
        lemma_symbol_bits_concat(a, b.drop_last());
        let tail = match b.last() {
            Symbol::Bit(bit) => seq![bit],
            _ => Seq::<u8>::empty(),
        };
        assert(symbol_bits(a + b) == (symbol_bits(a) + symbol_bits(b.drop_last())) + tail);
        assert((symbol_bits(a) + symbol_bits(b.drop_last())) + tail =~= symbol_bits(a) + (
        symbol_bits(b.drop_last()) + tail));
    }
}

proof fn lemma_bit_pairs_decode(cfg: TimingConfig, bits: Seq<u8>)
    requires
        cfg.wf(),
        forall|i: int| 0 <= i < bits.len() ==> bits[i] <= 1,
    ensures
        symbol_bits(classified(cfg, spec_bit_pairs(cfg, bits))) == bits,
    decreases bits.len(),
{
    lemma_classify_emitted(cfg);
    let syms = classified(cfg, spec_bit_pairs(cfg, bits));
    if bits.len() == 0 {
        assert(symbol_bits(syms) =~= bits);
    } else {
        let front = bits.drop_last();
        assert(spec_bit_pairs(cfg, front) =~= spec_bit_pairs(cfg, bits).drop_last());
        assert(classified(cfg, spec_bit_pairs(cfg, front)) =~= syms.drop_last());
        lemma_bit_pairs_decode(cfg, front);
        assert(syms.last() == spec_classify(cfg, spec_bit_pair(cfg, bits.last())));
        assert(syms.last() == Symbol::Bit(bits.last()));
        assert(symbol_bits(syms) == front + seq![bits.last()]);
        assert(front + seq![bits.last()] =~= bits);
    }
}

/// Under a well-formed timing table, the pulse train of one frame carries
/// exactly the bit stream of its bytes: the header and stop pairs
/// contribute no bits and every data pair reads back as its bit.
pub proof fn lemma_frame_decodes(cfg: TimingConfig, bytes: Seq<u8>)
    requires
        cfg.wf(),
    ensures
        spec_decoded_bits(cfg, spec_frame_pairs(cfg, bytes)) == bits_of_bytes(bytes),
{
    lemma_classify_emitted(cfg);
    crate::assemble::lemma_bits_of_bytes_values(bytes);
    let hdr = seq![spec_header_pair(cfg)];
    let data = spec_bit_pairs(cfg, bits_of_bytes(bytes));
    let stp = seq![spec_stop_pair(cfg)];
    lemma_classified_concat(cfg, hdr + data, stp);
    lemma_classified_concat(cfg, hdr, data);
    lemma_symbol_bits_concat(classified(cfg, hdr + data), classified(cfg, stp));
    lemma_symbol_bits_concat(classified(cfg, hdr), classified(cfg, data));
    assert(classified(cfg, hdr) =~= seq![Symbol::Header]);
    assert(classified(cfg, stp) =~= seq![Symbol::Stop]);
    assert(seq![Symbol::Header].drop_last() =~= Seq::<Symbol>::empty());
    assert(seq![Symbol::Stop].drop_last() =~= Seq::<Symbol>::empty());
    assert(symbol_bits(Seq::<Symbol>::empty()) == Seq::<u8>::empty());
    assert(symbol_bits(seq![Symbol::Header]) =~= Seq::<u8>::empty());
    assert(symbol_bits(seq![Symbol::Stop]) =~= Seq::<u8>::empty());
    lemma_bit_pairs_decode(cfg, bits_of_bytes(bytes));
    assert(spec_decoded_bits(cfg, spec_frame_pairs(cfg, bytes)) =~= bits_of_bytes(bytes));
}

/// The round-trip law: under a well-formed timing table, the pulse train
/// built for the command triple (a, b, c) with any trailer block, fed back
/// through the classifier and the byte assembler, yields exactly the six
/// command data bytes twice, then the trailer bytes.
pub proof fn lemma_encode_decode_round_trip(
    cfg: TimingConfig,
    a: u8,
    b: u8,
    c: u8,
    trailer: Seq<u8>,
)
    requires
        cfg.wf(),
    ensures
        spec_decoded_bytes(
            cfg,
            spec_command_pairs(cfg, a, b, c) + (if trailer.len() > 0 {
                spec_frame_pairs(cfg, trailer)
            } else {
                Seq::<PulsePair>::empty()
            }),
        ) == spec_command_frame_bytes(a, b, c) + spec_command_frame_bytes(a, b, c) + trailer,
{
    let fb = spec_command_frame_bytes(a, b, c);
    let f = spec_frame_pairs(cfg, fb);
    let tail = if trailer.len() > 0 {
        spec_frame_pairs(cfg, trailer)
    } else {
        Seq::<PulsePair>::empty()
    };
    let whole = spec_command_pairs(cfg, a, b, c) + tail;
    lemma_classified_concat(cfg, f + f, tail);
    lemma_classified_concat(cfg, f, f);
    lemma_symbol_bits_concat(classified(cfg, f + f), classified(cfg, tail));
    lemma_symbol_bits_concat(classified(cfg, f), classified(cfg, f));
    lemma_frame_decodes(cfg, fb);
    let trailer_bits = if trailer.len() > 0 {
        bits_of_bytes(trailer)
    } else {
        Seq::<u8>::empty()
    };
    if trailer.len() > 0 {
        lemma_frame_decodes(cfg, trailer);
    } else {
        assert(classified(cfg, tail) =~= Seq::<Symbol>::empty());
        assert(symbol_bits(Seq::<Symbol>::empty()) =~= Seq::<u8>::empty());
    }
    assert(spec_decoded_bits(cfg, whole) == (bits_of_bytes(fb) + bits_of_bytes(fb))
        + trailer_bits);
    crate::assemble::lemma_bits_of_bytes_concat(fb, fb);
    crate::assemble::lemma_bits_of_bytes_concat(fb + fb, trailer);
    if trailer.len() > 0 {
        assert((bits_of_bytes(fb) + bits_of_bytes(fb)) + trailer_bits =~= bits_of_bytes(
            (fb + fb) + trailer,
        ));
    } else {
        assert((fb + fb) + trailer =~= fb + fb);
        assert((bits_of_bytes(fb) + bits_of_bytes(fb)) + trailer_bits =~= bits_of_bytes(
            (fb + fb) + trailer,
        ));
    }
    crate::assemble::lemma_assemble_inverse((fb + fb) + trailer);
    assert(spec_decoded_bytes(cfg, whole) == (fb + fb) + trailer);
    assert((fb + fb) + trailer =~= fb + fb + trailer);
}

/// The round trip reaches the interpreter too: under a well-formed timing
/// table, decoding the pulse train built for (a, b, c) yields the command
/// the interpreter assigns to a frame with data bytes a, b, c.
pub proof fn lemma_command_round_trip(
    cfg: TimingConfig,
    a: u8,
    b: u8,
    c: u8,
    trailer: Seq<u8>,
    variant: ProtocolVariant,
)
    requires
        cfg.wf(),
    ensures
        spec_decode(
            spec_decoded_bytes(
                cfg,
                spec_command_pairs(cfg, a, b, c) + (if trailer.len() > 0 {
                    spec_frame_pairs(cfg, trailer)
                } else {
                    Seq::<PulsePair>::empty()
                }),
            ),
            variant,
        ) == Ok::<Command, DecodeError>(crate::command::spec_interpret(a, b, c, variant)),
{
    lemma_encode_decode_round_trip(cfg, a, b, c, trailer);
    let bytes = spec_command_frame_bytes(a, b, c) + spec_command_frame_bytes(a, b, c) + trailer;
    assert(bytes.len() >= 6);
    assert(bytes[0] == a);
    assert(bytes[2] == b);
    assert(bytes[4] == c);
    crate::transmit::lemma_command_bytes_complements(a, b, c);
    assert(bytes.take(6) =~= spec_command_frame_bytes(a, b, c));
}

} // verus!
