//! How long this pod waits before it acts on a rotation, and the seed that
//! makes the wait its own.

use crate::boundary;
use crate::duration;
use crate::duration::Duration;
use vstd::prelude::*;

verus! {

/// The largest seed there is.
pub open spec fn seeds() -> nat {
    u64::MAX as nat
}

/// This pod's share of a range of milliseconds: the part of it that `seed` is of
/// all the seeds, rounded down.
///
/// The product is taken in 128 bits and the share in 64, each stopping at its
/// top rather than wrapping.
pub open spec fn share(millis: nat, seed: nat) -> nat {
    let product = if seed * millis <= u128::MAX {
        seed * millis
    } else {
        u128::MAX as nat
    };
    let share = product / seeds();
    if share <= u64::MAX {
        share
    } else {
        u64::MAX as nat
    }
}

/// How long a pod with this seed waits, in nanoseconds, where no pod waits
/// longer than `max` nanoseconds.
pub open spec fn wait(max: nat, seed: nat) -> nat {
    let wait = duration::milliseconds(
        share(max / (duration::NANOS_PER_MILLI as nat), seed) as int,
    );
    if wait <= max {
        wait
    } else {
        max
    }
}

/// This pod's share of the splay range, drawn from `seed`.
///
/// Spans the whole range so two pods rarely collide, and never overshoots the
/// maximum however absurd it is.
pub fn splay(max: Duration, seed: u64) -> (span: Duration)
    ensures
        span@ == wait(max@, seed as nat),
{
    let millis: u128 = max.as_millis();
    let product: u128 = match (seed as u128).checked_mul(millis) {
        Some(product) => product,
        None => u128::MAX,
    };
    let share: u128 = product / (u64::MAX as u128);
    let share: u64 = if share <= u64::MAX as u128 {
        share as u64
    } else {
        u64::MAX
    };
    Duration::from_millis(share).min(max)
}

/// The seed a digest gives: its first eight bytes, the least significant first.
pub open spec fn seed_in(digest: Seq<u8>) -> u64 {
    vstd::bytes::spec_u64_from_le_bytes(digest.take(8))
}

/// The seed drawn from a process and a moment.
pub open spec fn seed_of(process: u32, nanos: u128) -> u64 {
    seed_in(
        boundary::sha256(
            vstd::bytes::spec_u32_to_le_bytes(process) + vstd::bytes::spec_u128_to_le_bytes(nanos),
        ),
    )
}

/// The seed a digest gives: its first eight bytes, the least significant first.
pub fn seed_from(digest: &[u8; 32]) -> (seed: u64)
    ensures
        seed == seed_in(digest@),
{
    let head: &[u8] = vstd::slice::slice_subrange(digest.as_slice(), 0, 8);
    proof {
        vstd::bytes::lemma_auto_spec_u64_to_from_le_bytes();
        assert(head@ =~= digest@.take(8));
    }
    vstd::bytes::u64_from_le_bytes(head)
}

/// A seed that differs between pods without any coordination: the process
/// number and the nanoseconds since the epoch, hashed.
pub fn seed(process: u32, nanos: u128) -> (seed: u64)
    ensures
        seed == seed_of(process, nanos),
{
    let mut bytes: Vec<u8> = vstd::bytes::u32_to_le_bytes(process);
    let mut moment: Vec<u8> = vstd::bytes::u128_to_le_bytes(nanos);
    bytes.append(&mut moment);
    seed_from(&boundary::digest_of(bytes.as_slice()))
}

/// The wait never exceeds its maximum, whatever the maximum and the seed.
pub proof fn the_wait_never_exceeds_its_maximum(max: nat, seed: nat)
    ensures
        wait(max, seed) <= max,
{
}

/// The least seed waits not at all.
pub proof fn the_least_seed_does_not_wait(max: nat)
    ensures
        wait(max, 0) == 0,
{
    assert(0 * (max / (duration::NANOS_PER_MILLI as nat)) == 0);
    assert(0nat / seeds() == 0);
}

/// Where the maximum is nothing, no pod waits.
pub proof fn no_maximum_is_no_wait(seed: nat)
    ensures
        wait(0, seed) == 0,
{
}

/// The greatest seed waits out the whole of a maximum that is a number of
/// milliseconds a `u64` can count.
pub proof fn the_greatest_seed_waits_out_the_maximum(millis: u64)
    ensures
        wait(duration::milliseconds(millis as int), seeds()) == duration::milliseconds(
            millis as int,
        ),
{
    let max = duration::milliseconds(millis as int);
    let count = millis as nat;
    assert(max / (duration::NANOS_PER_MILLI as nat) == count);
    assert(seeds() * count <= u64::MAX * u64::MAX) by (nonlinear_arith)
        requires
            seeds() == u64::MAX,
            count <= u64::MAX,
    ;
    assert((seeds() * count) / seeds() == count) by (nonlinear_arith)
        requires
            seeds() == u64::MAX,
    ;
}

/// Where the maximum is a number of milliseconds a `u64` can count, nothing
/// saturates: the wait is the part of the maximum that the seed is of all the
/// seeds, in whole milliseconds.
pub proof fn the_wait_is_the_seeds_part_of_the_maximum(max: nat, seed: u64)
    requires
        max / (duration::NANOS_PER_MILLI as nat) <= u64::MAX,
    ensures
        wait(max, seed as nat) == duration::milliseconds(
            (seed * (max / (duration::NANOS_PER_MILLI as nat))) / (u64::MAX as int),
        ),
{
    let top = u64::MAX as int;
    let millis = (max / (duration::NANOS_PER_MILLI as nat)) as int;
    let product = seed * millis;
    assert(0 <= product <= top * millis <= top * top) by (nonlinear_arith)
        requires
            top == u64::MAX,
            0 <= seed <= top,
            0 <= millis <= top,
            product == seed * millis,
    ;
    assert(0 <= product / top <= millis) by (nonlinear_arith)
        requires
            top == u64::MAX,
            0 <= product <= top * millis,
    ;
}

/// **However long the maximum, the wait is the seed's part of it in whole
/// milliseconds**: where the wait is short of the maximum and is not the longest
/// a `u64` of milliseconds can count, it is some milliseconds, and one more would
/// be more than the seed's part. The product stops at the top of a `u128`.
pub proof fn the_wait_is_the_seeds_part_however_long_the_maximum(max: nat, seed: u64)
    requires
        wait(max, seed as nat) < max,
        wait(max, seed as nat) < u64::MAX * 1_000_000,
    ensures
        ({
            let waited = wait(max, seed as nat) as int;
            let millis = waited / 1_000_000;
            let exact = seed * (max as int / 1_000_000);
            let product = if exact <= u128::MAX {
                exact
            } else {
                u128::MAX as int
            };
            &&& waited == millis * 1_000_000
            &&& millis * u64::MAX <= product
            &&& product < (millis + 1) * u64::MAX
        }),
{
    let top = u64::MAX as int;
    let exact = seed * (max as int / 1_000_000);
    assert(exact >= 0) by (nonlinear_arith)
        requires
            exact == seed * (max as int / 1_000_000),
            seed >= 0,
            max >= 0,
    ;
    let product = if exact <= u128::MAX {
        exact
    } else {
        u128::MAX as int
    };
    let part = product / top;
    assert(part * top <= product < (part + 1) * top) by (nonlinear_arith)
        requires
            top == u64::MAX,
            part == product / top,
    ;
    let millis = wait(max, seed as nat) as int / 1_000_000;
    assert(share(max / (duration::NANOS_PER_MILLI as nat), seed as nat) == millis);
    assert(part == millis);
}

/// No pod ever waits for more than its seed's part of the maximum, however long
/// the maximum is: what all the seeds together would wait is no more than what
/// the seed takes of the maximum's milliseconds.
pub proof fn no_wait_is_more_than_the_seeds_part(max: nat, seed: u64)
    ensures
        wait(max, seed as nat) * u64::MAX <= (seed * (max as int / 1_000_000)) * 1_000_000,
{
    let top = u64::MAX as int;
    let exact = seed * (max as int / 1_000_000);
    assert(exact >= 0) by (nonlinear_arith)
        requires
            exact == seed * (max as int / 1_000_000),
            seed >= 0,
            max >= 0,
    ;
    let product = if exact <= u128::MAX {
        exact
    } else {
        u128::MAX as int
    };
    let part = product / top;
    let waited = wait(max, seed as nat) as int;
    assert(waited <= part * 1_000_000);
    assert(waited * top <= exact * 1_000_000) by (nonlinear_arith)
        requires
            top == u64::MAX,
            part == product / top,
            0 <= product <= exact,
            0 <= waited <= part * 1_000_000,
    ;
}

/// A seed is the number whose bytes, the least significant first, are the first
/// eight of the digest, and the rest of the digest does not matter.
pub proof fn a_seed_is_the_first_eight_bytes(digest: Seq<u8>)
    requires
        digest.len() == 32,
    ensures
        vstd::bytes::spec_u64_to_le_bytes(seed_in(digest)) == digest.subrange(0, 8),
{
    vstd::bytes::lemma_auto_spec_u64_to_from_le_bytes();
    assert(digest.take(8) =~= digest.subrange(0, 8));
}

/// A seed is drawn from the digest of twenty bytes: four that spell the process
/// and sixteen that spell the moment, the least significant first in each.
pub proof fn a_seed_is_drawn_from_the_process_and_the_moment(bytes: Seq<u8>)
    requires
        bytes.len() == 20,
    ensures
        seed_of(
            vstd::bytes::spec_u32_from_le_bytes(bytes.subrange(0, 4)),
            vstd::bytes::spec_u128_from_le_bytes(bytes.subrange(4, 20)),
        ) == seed_in(boundary::sha256(bytes)),
{
    vstd::bytes::lemma_auto_spec_u32_to_from_le_bytes();
    vstd::bytes::lemma_auto_spec_u128_to_from_le_bytes();
    let process = vstd::bytes::spec_u32_from_le_bytes(bytes.subrange(0, 4));
    let moment = vstd::bytes::spec_u128_from_le_bytes(bytes.subrange(4, 20));
    assert(vstd::bytes::spec_u32_to_le_bytes(process) + vstd::bytes::spec_u128_to_le_bytes(moment)
        =~= bytes);
}

/// A greater seed never waits for less.
pub proof fn a_greater_seed_never_waits_for_less(max: nat, lesser: nat, greater: nat)
    requires
        lesser <= greater,
    ensures
        wait(max, lesser) <= wait(max, greater),
{
    let millis = max / (duration::NANOS_PER_MILLI as nat);
    assert(lesser * millis <= greater * millis) by (nonlinear_arith)
        requires
            lesser <= greater,
    ;
    let one = if lesser * millis <= u128::MAX {
        lesser * millis
    } else {
        u128::MAX as nat
    };
    let other = if greater * millis <= u128::MAX {
        greater * millis
    } else {
        u128::MAX as nat
    };
    vstd::arithmetic::div_mod::lemma_div_is_ordered(one as int, other as int, seeds() as int);
}

/// Two seeds whose shares of the range are a millisecond or more apart wait for
/// different times.
pub proof fn seeds_far_enough_apart_wait_apart(millis: u64, lesser: u64, greater: u64)
    requires
        lesser <= greater,
        (greater - lesser) * millis >= seeds(),
    ensures
        wait(duration::milliseconds(millis as int), lesser as nat) < wait(
            duration::milliseconds(millis as int),
            greater as nat,
        ),
{
    let top = seeds() as int;
    let range = millis as int;
    let max = duration::milliseconds(range);
    let low = lesser * range;
    let high = greater * range;
    assert(max / (duration::NANOS_PER_MILLI as nat) == millis as nat);
    assert(high - low == (greater - lesser) * range) by (nonlinear_arith)
        requires
            low == lesser * range,
            high == greater * range,
    ;
    assert(0 <= low) by (nonlinear_arith)
        requires
            low == lesser * range,
            range >= 0,
    ;
    assert(high <= u64::MAX * range) by (nonlinear_arith)
        requires
            high == greater * range,
            range >= 0,
    ;
    assert(u64::MAX * range <= u64::MAX * u64::MAX) by (nonlinear_arith)
        requires
            0 <= range <= u64::MAX,
    ;
    assert(low / top + 1 <= high / top <= range) by (nonlinear_arith)
        requires
            top == u64::MAX,
            0 <= low,
            low + top <= high <= top * range,
    ;
}

/// The waits span the whole range: every number of milliseconds up to the
/// maximum is the wait of some seed.
pub proof fn every_wait_in_the_range_has_a_seed(millis: u64, wanted: u64) -> (seed: u64)
    requires
        wanted <= millis,
    ensures
        wait(duration::milliseconds(millis as int), seed as nat) == duration::milliseconds(
            wanted as int,
        ),
{
    let top = u64::MAX as int;
    let range = millis as int;
    let max = duration::milliseconds(range);
    assert(max / (duration::NANOS_PER_MILLI as nat) == millis as nat);
    if range == 0 {
        no_maximum_is_no_wait(0);
        0
    } else {
        let exact = wanted * top;
        let found = (exact + range - 1) / range;
        assert(exact <= found * range < exact + range) by (nonlinear_arith)
            requires
                range > 0,
                found == (exact + range - 1) / range,
        ;
        assert(exact <= range * top) by (nonlinear_arith)
            requires
                exact == wanted * top,
                wanted <= range,
                top >= 0,
        ;
        assert(0 <= found <= top) by (nonlinear_arith)
            requires
                range > 0,
                0 <= exact <= range * top,
                found == (exact + range - 1) / range,
        ;
        assert(found * range <= u64::MAX * u64::MAX) by (nonlinear_arith)
            requires
                0 <= found <= u64::MAX,
                0 <= range <= u64::MAX,
        ;
        assert((found * range) / top == wanted) by (nonlinear_arith)
            requires
                wanted * top <= found * range < wanted * top + top,
                top > 0,
        ;
        found as u64
    }
}

} // verus!
