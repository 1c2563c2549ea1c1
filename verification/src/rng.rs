//! The seedable random source: one word stream, a pure function of the
//! seed, so an entire simulated match is reproducible from one number.

use vstd::prelude::*;

verus! {

/// The word that the seeded stream holds at a position. The stream is a
/// pure function of the seed and the position, in every process and on
/// every machine: that is the contract the reproducible game encoding
/// depends on.
pub uninterp spec fn chacha8_word_of(seed: u64, word_pos: u64) -> u32;

/// Relies on rand_chacha's `ChaCha8Rng`: seeded with `seed_from_u64` and
/// moved to a word position with `set_word_pos`, the next word depends on
/// the seed and the position alone.
#[verifier::external_body]
fn chacha8_word(seed: u64, word_pos: u64) -> (r: u32)
    ensures
        r == chacha8_word_of(seed, word_pos),
{
    let mut rng = <rand_chacha::ChaCha8Rng as rand_chacha::rand_core::SeedableRng>::seed_from_u64(
        seed,
    );
    rng.set_word_pos(word_pos as u128);
    rand_chacha::rand_core::RngCore::next_u32(&mut rng)
}

/// The ranged value two stream words reduce to: the full 64-bit word
/// reinterpreted for the full range, the remainder against the span
/// otherwise.
pub open spec fn ranged_draw_spec(w1: u32, w2: u32, lo: i64, hi: i64) -> i64 {
    let raw = (((w1 as u64) << 32) | (w2 as u64)) as u64;
    if lo == i64::MIN && hi == i64::MAX {
        raw as i64
    } else {
        (lo + (raw as int) % (hi - lo + 1)) as i64
    }
}

/// A seedable random source: the seed and a cursor into the word
/// stream. Every draw advances the cursor, so two sources with the same
/// seed hand out the same values in the same order.
#[derive(Debug, Clone, Copy, PartialEq, Eq, Structural)]
pub struct SeededRng {
    pub seed: u64,
    pub word_pos: u64,
}

impl SeededRng {
    /// A source at the start of the stream for `seed`.
    pub fn from_seed(seed: u64) -> (r: SeededRng)
        ensures
            r.seed == seed,
            r.word_pos == 0,
    {
        SeededRng { seed, word_pos: 0 }
    }

    /// Draws the next word of the stream.
    pub fn next_u32(&mut self) -> (r: u32)
        ensures
            r == chacha8_word_of(old(self).seed, old(self).word_pos),
            final(self).seed == old(self).seed,
            final(self).word_pos == vstd::wrapping::u64_specs::wrapping_add(
                old(self).word_pos,
                1,
            ),
    {
        let word = chacha8_word(self.seed, self.word_pos);
        self.word_pos = self.word_pos.wrapping_add(1);
        word
    }

    /// Draws an integer in `[lo, hi]` by rejection-free reduction; the
    /// result is a pure function of the two stream words it consumes,
    /// so identical sources draw identical values.
    pub fn randi_range(&mut self, lo: i64, hi: i64) -> (r: i64)
        requires
            lo <= hi,
        ensures
            lo <= r <= hi,
            final(self).seed == old(self).seed,
            final(self).word_pos == vstd::wrapping::u64_specs::wrapping_add(
                vstd::wrapping::u64_specs::wrapping_add(old(self).word_pos, 1),
                1,
            ),
            r == ranged_draw_spec(
                chacha8_word_of(old(self).seed, old(self).word_pos),
                chacha8_word_of(
                    old(self).seed,
                    vstd::wrapping::u64_specs::wrapping_add(old(self).word_pos, 1),
                ),
                lo,
                hi,
            ),
    {
        let a = self.next_u32() as u64;
        let b = self.next_u32() as u64;
        let raw: u64 = (a << 32) | b;
        if lo == i64::MIN && hi == i64::MAX {
            // Every 64-bit value is in range.
            return #[verifier::truncate] (raw as i64);
        }
        // The width fits a u64: the full-range case was handled above.
        let width: i128 = hi as i128 - lo as i128;
        proof {
            assert(0 <= width < 0xffff_ffff_ffff_ffffi128);
        }
        let span: u64 = (width as u64) + 1;
        let offset: u64 = raw % span;
        proof {
            assert(offset < span);
        }
        let r128: i128 = lo as i128 + offset as i128;
        proof {
            assert(lo <= r128 <= hi);
        }
        r128 as i64
    }
}

} // verus!
