use r05d_codec::assemble::bits_to_bytes;
use r05d_codec::signal::classify_pair;
use r05d_codec::signal::extract_bits;
use r05d_codec::signal::Polarity;
use r05d_codec::signal::Pulse;
use r05d_codec::signal::PulsePair;
use r05d_codec::signal::Symbol;
use r05d_codec::timing::in_range;
use r05d_codec::timing::standard_config;

fn pair(p1: Polarity, t1: u16, p2: Polarity, t2: u16) -> PulsePair {
    PulsePair {
        first: Pulse { polarity: p1, ticks: t1 },
        second: Pulse { polarity: p2, ticks: t2 },
    }
}

fn mark_space(mark_ticks: u16, space_ticks: u16) -> PulsePair {
    pair(Polarity::Mark, mark_ticks, Polarity::Space, space_ticks)
}

#[test]
fn in_range_inclusive_bounds() {
    assert!(in_range(350, 350, 700));
    assert!(in_range(700, 350, 700));
    assert!(in_range(500, 350, 700));
    assert!(!in_range(349, 350, 700));
    assert!(!in_range(701, 350, 700));
}

#[test]
fn bits_pack_msb_first() {
    let bits = [1u8, 0, 1, 0, 1, 0, 1, 0];
    assert_eq!(bits_to_bytes(&bits), vec![0xAA]);
}

#[test]
fn underfull_chunk_pads_low_bits_with_zero() {
    let bits = [1u8, 1, 0, 0, 0];
    assert_eq!(bits_to_bytes(&bits), vec![0xC0]);
}

#[test]
fn empty_bits_give_empty_bytes() {
    let bits: [u8; 0] = [];
    assert_eq!(bits_to_bytes(&bits), Vec::<u8>::new());
}

#[test]
fn sixteen_bits_give_two_bytes() {
    let bits = [1u8, 0, 1, 1, 0, 0, 1, 0, 0, 1, 0, 0, 1, 1, 0, 1];
    assert_eq!(bits_to_bytes(&bits), vec![0xB2, 0x4D]);
}

#[test]
fn nine_bits_give_two_bytes() {
    let bits = [0u8, 0, 0, 0, 0, 0, 0, 1, 1];
    assert_eq!(bits_to_bytes(&bits), vec![0x01, 0x80]);
}

#[test]
fn classify_bit0_space_window() {
    let cfg = standard_config();
    assert_eq!(classify_pair(&cfg, &mark_space(530, 400)), Symbol::Bit(0));
    assert_eq!(classify_pair(&cfg, &mark_space(520, 350)), Symbol::Bit(0));
    assert_eq!(classify_pair(&cfg, &mark_space(540, 700)), Symbol::Bit(0));
}

#[test]
fn classify_bit1_space_window() {
    let cfg = standard_config();
    assert_eq!(classify_pair(&cfg, &mark_space(530, 1600)), Symbol::Bit(1));
    assert_eq!(classify_pair(&cfg, &mark_space(520, 701)), Symbol::Bit(1));
    assert_eq!(classify_pair(&cfg, &mark_space(540, 1850)), Symbol::Bit(1));
}

#[test]
fn bit_classification_reads_the_space_duration() {
    // Bits are told apart by the space duration alone; a jittered mark
    // outside the nominal 520-540 band still reads as a bit.
    let cfg = standard_config();
    assert_eq!(classify_pair(&cfg, &mark_space(515, 400)), Symbol::Bit(0));
    assert_eq!(classify_pair(&cfg, &mark_space(600, 1600)), Symbol::Bit(1));
}

#[test]
fn overlap_resolves_to_bit0() {
    // 400 ticks lies in both bit space windows; first match wins.
    let cfg = standard_config();
    assert_eq!(classify_pair(&cfg, &mark_space(530, 400)), Symbol::Bit(0));
}

#[test]
fn classify_header_both_durations_large() {
    let cfg = standard_config();
    assert_eq!(classify_pair(&cfg, &mark_space(4400, 4400)), Symbol::Header);
    assert_eq!(classify_pair(&cfg, &mark_space(4200, 4600)), Symbol::Header);
}

#[test]
fn classify_stop_space_window() {
    let cfg = standard_config();
    assert_eq!(classify_pair(&cfg, &mark_space(520, 5220)), Symbol::Stop);
}

#[test]
fn classify_noise_when_no_window_matches() {
    let cfg = standard_config();
    assert_eq!(classify_pair(&cfg, &mark_space(100, 100)), Symbol::Noise);
    assert_eq!(classify_pair(&cfg, &mark_space(530, 3000)), Symbol::Noise);
}

#[test]
fn classify_noise_on_wrong_polarity() {
    let cfg = standard_config();
    assert_eq!(
        classify_pair(&cfg, &pair(Polarity::Space, 530, Polarity::Mark, 400)),
        Symbol::Noise
    );
    assert_eq!(
        classify_pair(&cfg, &pair(Polarity::Space, 530, Polarity::Space, 400)),
        Symbol::Noise
    );
}

#[test]
fn extract_bits_keeps_order_and_drops_non_bits() {
    let cfg = standard_config();
    let pairs = [
        mark_space(4400, 4400),  // header: no bit
        mark_space(530, 1600),   // 1
        mark_space(530, 400),    // 0
        mark_space(100, 100),    // noise: dropped
        mark_space(530, 1600),   // 1
        mark_space(520, 5220),   // stop: no bit
    ];
    assert_eq!(extract_bits(&cfg, &pairs), vec![1, 0, 1]);
}

#[test]
fn extract_bits_of_empty_capture_is_empty() {
    let cfg = standard_config();
    let pairs: [PulsePair; 0] = [];
    assert_eq!(extract_bits(&cfg, &pairs), Vec::<u8>::new());
}
