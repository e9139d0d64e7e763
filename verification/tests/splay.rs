//! The wait before a rotation is acted on, the seed it is drawn from, and the
//! hexadecimal text a certificate is named by.

use sha2::{Digest, Sha256};
use std::collections::BTreeSet;
use yadgar_lifecycle::rotate::splay::{seed, seed_from, splay};
use yadgar_lifecycle::text::{hex, is_empty, join, same_texts, trim};
use yadgar_lifecycle::{drain_budget, Duration, DRAIN_BUDGET};

fn max() -> Duration {
    Duration::from_secs(300)
}

#[test]
fn the_splay_spans_the_whole_configured_range() {
    assert_eq!(splay(max(), 0), Duration::from_secs(0));
    assert_eq!(splay(max(), u64::MAX), max());
}

#[test]
fn the_splay_never_exceeds_its_maximum() {
    for seed in [1, 7, 1_000, u64::MAX / 3, u64::MAX / 2, u64::MAX - 1] {
        assert!(splay(max(), seed) <= max(), "{seed} overshot");
    }
}

#[test]
fn a_zero_maximum_waits_not_at_all() {
    assert_eq!(
        splay(Duration::from_secs(0), u64::MAX),
        Duration::from_secs(0)
    );
}

#[test]
fn different_seeds_wait_for_different_times() {
    let waits: BTreeSet<Duration> = (1..=8).map(|n| splay(max(), u64::MAX / 9 * n)).collect();
    assert_eq!(waits.len(), 8, "seeds must spread across the range");
}

#[test]
fn the_seed_moves() {
    assert_ne!(seed(4711, 1_000_000_000), seed(4711, 1_000_000_001));
    assert_ne!(seed(4711, 1_000_000_000), seed(4712, 1_000_000_000));
}

#[test]
fn an_absurd_maximum_neither_panics_nor_overshoots() {
    for max in [
        Duration::from_secs(20_000_000_000),
        Duration::from_secs(u64::MAX / 1000),
    ] {
        for seed in [0, 1, u64::MAX / 2, u64::MAX] {
            assert!(splay(max, seed) <= max, "{max:?}/{seed} overshot");
        }
    }
}

#[test]
fn hex_renders_every_byte_as_two_digits() {
    assert_eq!(hex(&[0x00, 0x0f, 0xa5, 0xff]), "000fa5ff");
}

#[test]
fn the_budget_and_its_exit_margin_fit_inside_the_default_grace_period() {
    let default_grace: u64 = 30;
    let exit_margin: u64 = 5;
    assert!(
        DRAIN_BUDGET.saturating_add(exit_margin) <= default_grace,
        "a {DRAIN_BUDGET}s budget plus a {exit_margin}s margin to log and exit does not fit \
         inside a {default_grace}s grace period"
    );
    assert_eq!(drain_budget(), Duration::from_secs(25));
}

#[test]
fn the_middle_seed_waits_for_half_the_range() {
    // 300_000 ms times half the seeds, over all the seeds, rounded down.
    assert_eq!(
        splay(max(), u64::MAX / 2 + 1),
        Duration::from_millis(150_000)
    );
    assert_eq!(splay(max(), u64::MAX / 2), Duration::from_millis(149_999));
}

#[test]
fn a_part_of_a_millisecond_is_never_waited_for() {
    let max = Duration::new(0, 1_999_999);
    assert_eq!(splay(max, u64::MAX), Duration::from_millis(1));
}

#[test]
fn every_millisecond_of_a_small_range_is_some_seeds_wait() {
    let max = Duration::from_millis(4);
    for wanted in 0..=4u64 {
        let seed = (u128::from(wanted) * u128::from(u64::MAX)).div_ceil(4) as u64;
        assert_eq!(splay(max, seed), Duration::from_millis(wanted));
    }
}

#[test]
fn a_greater_seed_never_waits_for_less_on_a_ladder_of_seeds() {
    let mut last = Duration::from_secs(0);
    for step in 0..=64u64 {
        let wait = splay(max(), u64::MAX / 64 * step);
        assert!(last <= wait);
        last = wait;
    }
}

#[test]
fn the_longest_span_there_is_saturates_rather_than_wrapping() {
    let longest = Duration::new(u64::MAX, 999_999_999);
    // The share is cut off at the largest number of milliseconds a u64 counts.
    assert_eq!(splay(longest, u64::MAX), Duration::from_millis(u64::MAX));
}

#[test]
fn a_seed_is_the_first_eight_bytes_of_a_digest_least_significant_first() {
    let mut digest = [0xffu8; 32];
    for (i, byte) in digest.iter_mut().enumerate().take(8) {
        *byte = i as u8 + 1;
    }
    assert_eq!(seed_from(&digest), 0x0807_0605_0403_0201);
}

#[test]
fn a_seed_is_drawn_from_the_process_and_the_moment() {
    let mut hasher = Sha256::new();
    hasher.update(4711u32.to_le_bytes());
    hasher.update(123_456_789_012_345_678_901u128.to_le_bytes());
    let digest: [u8; 32] = hasher.finalize().into();
    assert_eq!(
        seed(4711, 123_456_789_012_345_678_901),
        u64::from_le_bytes(digest[..8].try_into().unwrap())
    );
}

#[test]
fn a_span_counts_in_seconds_milliseconds_and_nanoseconds() {
    let span = Duration::new(3, 250_000_001);
    assert_eq!(span.as_secs(), 3);
    assert_eq!(span.subsec_nanos(), 250_000_001);
    assert_eq!(span.as_millis(), 3_250);
    assert!(!span.is_zero());
    assert!(Duration::from_millis(0).is_zero());
    assert_eq!(Duration::from_millis(61_250).as_secs(), 61);
    assert_eq!(Duration::from_millis(61_250).subsec_nanos(), 250_000_000);
    assert_eq!(
        Duration::from_secs(2).min(Duration::from_millis(1_999)),
        Duration::from_millis(1_999)
    );
}

#[test]
fn two_runs_of_bytes_with_one_hexadecimal_text_are_the_same_bytes() {
    assert_eq!(hex(&[]), "");
    assert_ne!(hex(&[0x01, 0x23]), hex(&[0x12, 0x03]));
    assert_eq!(hex(&[7u8; 32]).len(), 64);
}

#[test]
fn a_list_of_texts_is_joined_by_commas() {
    assert_eq!(join(&Vec::new()), "");
    assert_eq!(join(&vec!["a".to_string()]), "a");
    assert_eq!(
        join(&vec!["a".to_string(), "".to_string(), "c".to_string()]),
        "a, , c"
    );
}

#[test]
fn trimming_takes_every_white_space_there_is() {
    let white = [
        '\u{9}', '\u{a}', '\u{b}', '\u{c}', '\u{d}', '\u{20}', '\u{85}', '\u{a0}', '\u{1680}',
        '\u{2000}', '\u{200a}', '\u{2028}', '\u{2029}', '\u{202f}', '\u{205f}', '\u{3000}',
    ];
    for c in white {
        let text = format!("{c}{c} é 6\t0 {c}");
        assert_eq!(trim(&text), "é 6\t0");
        assert_eq!(trim(&text), text.trim());
    }
    assert_eq!(trim("\u{200b}x"), "\u{200b}x");
    assert_eq!(trim(" \t "), "");
    assert!(is_empty(trim("")));
    assert!(!is_empty("x"));
}

#[test]
fn two_lists_are_the_same_text_by_text_and_in_order() {
    let one = vec!["a".to_string(), "b".to_string()];
    let other = vec!["b".to_string(), "a".to_string()];
    assert!(same_texts(&one, &one.clone()));
    assert!(!same_texts(&one, &other));
    assert!(!same_texts(&one, &vec!["a".to_string()]));
}

#[test]
fn mod_the_splay_spans_the_whole_configured_range() {
    the_splay_spans_the_whole_configured_range();
}

#[test]
fn mod_the_splay_never_exceeds_its_maximum() {
    the_splay_never_exceeds_its_maximum();
}

#[test]
fn mod_a_zero_maximum_waits_not_at_all() {
    a_zero_maximum_waits_not_at_all();
}

#[test]
fn mod_different_seeds_wait_for_different_times() {
    different_seeds_wait_for_different_times();
}

#[test]
fn mod_an_absurd_maximum_neither_panics_nor_overshoots() {
    an_absurd_maximum_neither_panics_nor_overshoots();
}

#[test]
fn mod_hex_renders_every_byte_as_two_digits() {
    hex_renders_every_byte_as_two_digits();
}

#[test]
fn mod_the_seed_moves() {
    the_seed_moves();
}
