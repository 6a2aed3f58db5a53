//! Byte-level mutation of a seed input.
//!
//! A `Mutator` owns one buffer (a copy of the seed input) and one random
//! generator. `bitflip` stamps magic boundary values into the buffer at
//! randomly drawn offsets. The whole mutation is a function of the buffer,
//! the generator state and the flip count, stated by `draw_offsets` and
//! `apply_flips`, so an exact replay is possible from the same seed value.
//! Mutation never resizes the buffer, and no magic-value write crosses the
//! buffer boundary.

use vstd::prelude::*;

use crate::rng::{rand_result, rand_state, Rng};

verus! {

/// Number of entries in the magic value table.
pub const MAGIC_COUNT: usize = 11;

/// Byte width of the magic value table entry at index `i`.
pub open spec fn magic_width(i: int) -> usize {
    if i < 4 {
        1
    } else if i < 6 {
        2
    } else {
        4
    }
}

/// Leading byte of the magic value table entry at index `i`.
pub open spec fn magic_value(i: int) -> u8 {
    if i == 0 {
        255
    } else if i == 1 {
        255
    } else if i == 2 {
        127
    } else if i == 3 {
        0
    } else if i == 4 {
        255
    } else if i == 5 {
        0
    } else if i == 6 {
        255
    } else if i == 7 {
        0
    } else if i == 8 {
        128
    } else if i == 9 {
        64
    } else {
        127
    }
}

/// The magic value table entry at index `i`: byte width and leading byte.
pub fn magic_entry(i: usize) -> (r: (usize, u8))
    requires
        i < MAGIC_COUNT,
    ensures
        r.0 == magic_width(i as int),
        r.1 == magic_value(i as int),
{
    if i == 0 {
        (1, 255)
    } else if i == 1 {
        (1, 255)
    } else if i == 2 {
        (1, 127)
    } else if i == 3 {
        (1, 0)
    } else if i == 4 {
        (2, 255)
    } else if i == 5 {
        (2, 0)
    } else if i == 6 {
        (4, 255)
    } else if i == 7 {
        (4, 0)
    } else if i == 8 {
        (4, 128)
    } else if i == 9 {
        (4, 64)
    } else {
        (4, 127)
    }
}

/// How many offsets a flip rate of `num / den` draws on a buffer of length
/// `len`: the floor of `len` times the rate.
pub open spec fn flip_count(len: nat, num: nat, den: nat) -> nat
    recommends
        den > 0,
{
    (len * num) / den
}

/// The sequence of mutation offsets drawn from state `s` for a buffer of
/// length `len`, together with the generator state left behind. Each draw is
/// uniform over `[0, len - 1]`; offsets may repeat.
pub open spec fn draw_offsets(s: u64, len: usize, n: nat) -> (Seq<usize>, u64)
    recommends
        n > 0 ==> len >= 1,
    decreases n,
{
    if n == 0 {
        (Seq::empty(), s)
    } else {
        let first = rand_result(s, 0, (len - 1) as usize);
        let s2 = rand_state(s, 0, (len - 1) as usize);
        let rest = draw_offsets(s2, len, (n - 1) as nat);
        (seq![first] + rest.0, rest.1)
    }
}

/// One magic-value write: the leading byte at `off`, zero in the following
/// `width - 1` positions. A write that would cross the end of the buffer is
/// skipped and leaves the buffer unchanged.
pub open spec fn stamp(buf: Seq<u8>, off: usize, width: usize, val: u8) -> Seq<u8> {
    if off + width <= buf.len() {
        Seq::new(
            buf.len(),
            |i: int|
                if i == off {
                    val
                } else if off < i < off + width {
                    0u8
                } else {
                    buf[i]
                },
        )
    } else {
        buf
    }
}

/// The buffer and generator state after stamping one magic value, drawn from
/// state `s`, at each offset of `offs` in turn.
pub open spec fn apply_flips(buf: Seq<u8>, offs: Seq<usize>, s: u64) -> (Seq<u8>, u64)
    decreases offs.len(),
{
    if offs.len() == 0 {
        (buf, s)
    } else {
        let pick = rand_result(s, 0, (MAGIC_COUNT - 1) as usize);
        let s2 = rand_state(s, 0, (MAGIC_COUNT - 1) as usize);
        let buf2 = stamp(buf, offs[0], magic_width(pick as int), magic_value(pick as int));
        apply_flips(buf2, offs.subrange(1, offs.len() as int), s2)
    }
}

/// The complete effect of `bitflip` on a buffer `buf` and generator state
/// `s` with `n` flips: draw the offsets, then stamp a magic value at each.
pub open spec fn mutate(buf: Seq<u8>, s: u64, n: nat) -> (Seq<u8>, u64) {
    let drawn = draw_offsets(s, buf.len() as usize, n);
    apply_flips(buf, drawn.0, drawn.1)
}

/// Drawing one more offset appends one draw made from the final state.
proof fn lemma_draw_offsets_snoc(s: u64, len: usize, n: nat)
    requires
        len >= 1,
    ensures
        ({
            let (offs, sf) = draw_offsets(s, len, n);
            let nxt = rand_result(sf, 0, (len - 1) as usize);
            let sf2 = rand_state(sf, 0, (len - 1) as usize);
            draw_offsets(s, len, n + 1) == (offs.push(nxt), sf2)
        }),
    decreases n,
{
    let (offs, sf) = draw_offsets(s, len, n);
    let nxt = rand_result(sf, 0, (len - 1) as usize);
    let sf2 = rand_state(sf, 0, (len - 1) as usize);
    if n == 0 {
        let first = rand_result(s, 0, (len - 1) as usize);
        let s2 = rand_state(s, 0, (len - 1) as usize);
        assert(draw_offsets(s2, len, 0) == (Seq::<usize>::empty(), s2));
        assert(draw_offsets(s, len, 1).0 =~= offs.push(nxt));
    } else {
        let s2 = rand_state(s, 0, (len - 1) as usize);
        lemma_draw_offsets_snoc(s2, len, (n - 1) as nat);
        let (offs2, _) = draw_offsets(s2, len, (n - 1) as nat);
        let first = rand_result(s, 0, (len - 1) as usize);
        assert(draw_offsets(s, len, n + 1).0 =~= (seq![first] + offs2).push(nxt));
        assert(draw_offsets(s, len, n + 1).0 =~= offs.push(nxt));
    }
}

/// `bitflip` performs exactly `n` offset draws, and every drawn offset lies
/// inside the buffer.
pub proof fn lemma_draw_offsets_count_and_range(s: u64, len: usize, n: nat)
    requires
        n > 0 ==> len >= 1,
    ensures
        draw_offsets(s, len, n).0.len() == n,
        forall|i: int|
            0 <= i < n ==> 0 <= #[trigger] draw_offsets(s, len, n).0[i] < len,
    decreases n,
{
    if n > 0 {
        let s2 = rand_state(s, 0, (len - 1) as usize);
        lemma_draw_offsets_count_and_range(s2, len, (n - 1) as nat);
    }
}

/// Stamping keeps the buffer length, and every position a stamp changes lies
/// inside `[off, off + width)`: no write crosses the buffer boundary.
pub proof fn lemma_stamp_bounds(buf: Seq<u8>, off: usize, width: usize, val: u8)
    requires
        width >= 1,
    ensures
        stamp(buf, off, width, val).len() == buf.len(),
        forall|i: int|
            0 <= i < buf.len() && !(off <= i < off + width) ==> #[trigger] stamp(
                buf,
                off,
                width,
                val,
            )[i] == buf[i],
{
}

/// Applying flips keeps the buffer length, whatever the offsets and state.
pub proof fn lemma_apply_flips_len(buf: Seq<u8>, offs: Seq<usize>, s: u64)
    ensures
        apply_flips(buf, offs, s).0.len() == buf.len(),
    decreases offs.len(),
{
    if offs.len() > 0 {
        let pick = rand_result(s, 0, (MAGIC_COUNT - 1) as usize);
        let s2 = rand_state(s, 0, (MAGIC_COUNT - 1) as usize);
        let buf2 = stamp(buf, offs[0], magic_width(pick as int), magic_value(pick as int));
        lemma_apply_flips_len(buf2, offs.subrange(1, offs.len() as int), s2);
    }
}

/// A mutated buffer always has the length of the buffer it was made from,
/// for every flip count, so for every flip rate.
pub proof fn lemma_mutate_preserves_len(buf: Seq<u8>, s: u64, n: nat)
    ensures
        mutate(buf, s, n).0.len() == buf.len(),
{
    let drawn = draw_offsets(s, buf.len() as usize, n);
    lemma_apply_flips_len(buf, drawn.0, drawn.1);
}

/// The flip count never exceeds the buffer length when the rate is at most
/// one.
proof fn lemma_flip_count_le_len(len: nat, num: nat, den: nat)
    requires
        den > 0,
        num <= den,
    ensures
        flip_count(len, num, den) <= len,
{
    assert(len * num <= len * den) by (nonlinear_arith)
        requires num <= den, len >= 0,
    ;
    assert((len * den) / den == len) by (nonlinear_arith)
        requires den > 0, len >= 0,
    ;
    assert((len * num) / den <= (len * den) / den) by (nonlinear_arith)
        requires den > 0, len * num <= len * den, len * num >= 0,
    ;
}

/// A mutation-in-progress: an owned copy of a seed input and the random
/// generator that drives the corruption.
pub struct Mutator {
    pub input: Vec<u8>,
    rng: Rng,
}

impl Mutator {
    /// The bytes the mutator currently holds.
    pub closed spec fn buf(&self) -> Seq<u8> {
        self.input@
    }

    /// The current state of the owned generator.
    pub closed spec fn rng_state(&self) -> u64 {
        self.rng@
    }

    /// Construct a mutator over a copy of a seed input, with a generator
    /// seeded by the given value.
    pub fn new(input: Vec<u8>, seed: u64) -> (m: Mutator)
        ensures
            m.buf() == input@,
            m.rng_state() == seed,
    {
        Mutator { input, rng: Rng::new(seed) }
    }

    /// The current generator state, for replaying a mutation.
    pub fn seed_state(&self) -> (s: u64)
        ensures
            s == self.rng_state(),
    {
        self.rng.seed_value()
    }

    /// Corrupt a fraction `rate_num / rate_den` of the buffer: draw
    /// `floor(len * rate_num / rate_den)` offsets uniformly from the buffer,
    /// then stamp one uniformly chosen magic value at each offset, skipping
    /// any write that would cross the end of the buffer. The result is
    /// exactly `mutate` of the old buffer, old generator state and flip
    /// count; in particular the buffer length never changes.
    pub fn bitflip(&mut self, rate_num: u64, rate_den: u64)
        requires
            rate_den > 0,
            rate_num <= rate_den,
        ensures
            ({
                let n = flip_count(old(self).buf().len(), rate_num as nat, rate_den as nat);
                let mutated = mutate(old(self).buf(), old(self).rng_state(), n);
                final(self).buf() == mutated.0 && final(self).rng_state() == mutated.1
            }),
            final(self).buf().len() == old(self).buf().len(),
    {
        let len = self.input.len();
        let ghost n = flip_count(len as nat, rate_num as nat, rate_den as nat);
        proof {
            lemma_flip_count_le_len(len as nat, rate_num as nat, rate_den as nat);
            assert((len as int) * (rate_num as int) <= u128::MAX) by (nonlinear_arith)
                requires
                    0 <= len as int <= u64::MAX,
                    0 <= rate_num as int <= u64::MAX,
            ;
        }
        let num_of_flip: usize = (((len as u128) * (rate_num as u128)) / (rate_den as u128)) as usize;
        assert(num_of_flip == n);

        let ghost s0 = self.rng_state();
        let ghost buf0 = self.input@;

        let mut rand_index: Vec<usize> = Vec::new();
        let mut k: usize = 0;
        while k < num_of_flip
            invariant
                k <= num_of_flip,
                num_of_flip == n,
                n > 0 ==> len >= 1,
                len == self.input.len(),
                self.input@ == buf0,
                rand_index@.len() == k,
                (rand_index@, self.rng_state()) == draw_offsets(s0, len, k as nat),
            decreases num_of_flip - k,
        {
            proof {
                lemma_draw_offsets_snoc(s0, len, k as nat);
            }
            let idx = self.rng.rand(0, len - 1);
            rand_index.push(idx);
            k = k + 1;
        }

        proof {
            lemma_draw_offsets_count_and_range(s0, len, n);
        }
        let ghost offs = rand_index@;
        let ghost s1 = self.rng_state();
        proof {
            assert(offs.subrange(0, offs.len() as int) =~= offs);
        }

        let mut j: usize = 0;
        while j < num_of_flip
            invariant
                j <= num_of_flip,
                num_of_flip == n,
                len == self.input.len(),
                rand_index@ == offs,
                offs.len() == n,
                forall|i: int| 0 <= i < n ==> 0 <= #[trigger] offs[i] < len,
                apply_flips(buf0, offs, s1) == apply_flips(
                    self.input@,
                    offs.subrange(j as int, offs.len() as int),
                    self.rng_state(),
                ),
            decreases num_of_flip - j,
        {
            let ghost pre_buf = self.input@;
            let ghost pre_state = self.rng_state();
            let ghost rem = offs.subrange(j as int, offs.len() as int);

            let index = rand_index[j];
            let pick = self.rng.rand(0, MAGIC_COUNT - 1);
            let ghost post_state = self.rng_state();
            let (width, val) = magic_entry(pick);

            proof {
                assert(rem[0] == offs[j as int]);
                assert(rem.subrange(1, rem.len() as int) =~= offs.subrange(
                    j + 1,
                    offs.len() as int,
                ));
            }

            if width <= len - index {
                let ghost stamped = stamp(pre_buf, index, width, val);
                self.input.set(index, val);
                let mut i: usize = 1;
                while i < width
                    invariant
                        1 <= i <= width,
                        index + width <= len,
                        len == self.input.len(),
                        self.rng_state() == post_state,
                        self.input@.len() == stamped.len(),
                        forall|p: int|
                            0 <= p < len ==> #[trigger] self.input@[p] == (if p == index {
                                val
                            } else if index < p < index + i {
                                0u8
                            } else {
                                pre_buf[p]
                            }),
                    decreases width - i,
                {
                    self.input.set(index + i, 0);
                    i = i + 1;
                }
                proof {
                    assert(self.input@ =~= stamped);
                }
            } else {
                proof {
                    assert(stamp(pre_buf, index, width, val) == pre_buf);
                }
            }
            proof {
                let pick_s = rand_result(pre_state, 0, (MAGIC_COUNT - 1) as usize);
                let s2 = rand_state(pre_state, 0, (MAGIC_COUNT - 1) as usize);
                assert(pick == pick_s);
                assert(self.rng_state() == s2);
                assert(apply_flips(pre_buf, rem, pre_state) == apply_flips(
                    stamp(pre_buf, rem[0], magic_width(pick_s as int), magic_value(pick_s as int)),
                    rem.subrange(1, rem.len() as int),
                    s2,
                ));
                assert(self.input@ == stamp(
                    pre_buf,
                    rem[0],
                    magic_width(pick_s as int),
                    magic_value(pick_s as int),
                ));
            }
            j = j + 1;
        }

        proof {
            assert(offs.subrange(n as int, n as int) =~= Seq::<usize>::empty());
            assert(apply_flips(buf0, offs, s1) == (self.input@, self.rng_state()));
        }
    }
}

} // verus!
