//! Pixel-color genes: a three-channel and a four-channel sample type, each
//! with uniform random generation and a stochastic mutation operator.

use vstd::prelude::*;

use crate::rng::rand_below;

verus! {

/// Scale for probabilities kept as integers: a probability `p` in [0,1] is
/// stored as `p * PPM_SCALE` rounded to parts per million.
pub const PPM_SCALE: u32 = 1000000;

/// Largest magnitude of the signed delta one three-channel mutation may add.
pub const MAX_DELTA: u32 = 20;

/// One pixel's color sample: three 8-bit channels (red, green, blue).
#[derive(Clone, Copy, Debug, PartialEq, Eq, Structural)]
pub struct GeneType {
    pub r: u8,
    pub g: u8,
    pub b: u8,
}

/// One pixel's color sample: four 8-bit channels (red, green, blue, alpha).
#[derive(Clone, Copy, Debug, PartialEq, Eq, Structural)]
pub struct GeneRgba {
    pub r: u8,
    pub g: u8,
    pub b: u8,
    pub a: u8,
}

/// Channel `c` of a three-channel gene, with `c` in 0..3.
pub open spec fn channel3(g: GeneType, c: int) -> u8 {
    if c == 0 {
        g.r
    } else if c == 1 {
        g.g
    } else {
        g.b
    }
}

/// The gene `g` with channel `c` replaced by `v`.
pub open spec fn set_channel3(g: GeneType, c: int, v: u8) -> GeneType {
    if c == 0 {
        GeneType { r: v, ..g }
    } else if c == 1 {
        GeneType { g: v, ..g }
    } else {
        GeneType { b: v, ..g }
    }
}

/// Channel `c` of a four-channel gene, with `c` in 0..4.
pub open spec fn channel4(g: GeneRgba, c: int) -> u8 {
    if c == 0 {
        g.r
    } else if c == 1 {
        g.g
    } else if c == 2 {
        g.b
    } else {
        g.a
    }
}

/// A channel value clamped to the representable range [0,255].
pub open spec fn clamp_channel(v: int) -> int {
    if v < 0 {
        0
    } else if v > 255 {
        255
    } else {
        v
    }
}

/// What one three-channel mutation call may do: at most one channel moves, by
/// a signed delta of magnitude at most `MAX_DELTA`, clamped to [0,255]. The
/// unchanged gene satisfies this with a zero delta.
pub open spec fn mutate3_ok(pre: GeneType, post: GeneType) -> bool {
    exists|c: int, d: int|
        0 <= c < 3 && -(MAX_DELTA as int) <= d <= MAX_DELTA as int && post == #[trigger] set_channel3(
            pre,
            c,
            clamp_channel(channel3(pre, c) + d) as u8,
        )
}

/// The first `n` entries of a channel ordering, as mathematical integers.
pub open spec fn picked_of(order: Seq<u8>, n: int) -> Seq<int> {
    order.take(n).map_values(|x: u8| x as int)
}

/// Every channel of `post` outside the picked index set equals `pre`'s.
pub open spec fn untouched4(pre: GeneRgba, post: GeneRgba, picked: Seq<int>) -> bool {
    forall|c: int|
        0 <= c < 4 && !picked.contains(c) ==> #[trigger] channel4(post, c) == channel4(pre, c)
}

/// What one four-channel mutation call may do: some sequence of distinct
/// channel indices (between 0 and 4 of them) is overwritten with fresh
/// values; every channel outside that set keeps its value. The unchanged
/// gene satisfies this with an empty pick.
pub open spec fn mutate4_ok(pre: GeneRgba, post: GeneRgba) -> bool {
    exists|picked: Seq<int>|
        #![auto]
        picked.no_duplicates() && picked.len() <= 4 && (forall|k: int|
            0 <= k < picked.len() ==> 0 <= #[trigger] picked[k] < 4) && untouched4(
            pre,
            post,
            picked,
        )
}

/// `value` moved by `delta` and clamped to the valid channel range.
pub fn apply_delta(value: u8, delta: i32) -> (r: u8)
    requires
        -(MAX_DELTA as i32) <= delta <= MAX_DELTA as i32,
    ensures
        r as int == clamp_channel(value as int + delta as int),
{
    let v = value as i32 + delta;
    if v < 0 {
        0
    } else if v > 255 {
        255
    } else {
        v as u8
    }
}

impl GeneType {
    /// Draws each channel independently and uniformly from [0,255].
    pub fn generate() -> (r: GeneType)
        ensures
            0 <= r.r <= 255,
            0 <= r.g <= 255,
            0 <= r.b <= 255,
    {
        GeneType {
            r: rand_below(256) as u8,
            g: rand_below(256) as u8,
            b: rand_below(256) as u8,
        }
    }

    /// With probability `mutation_ppm / PPM_SCALE`, picks one channel
    /// uniformly at random, adds a signed delta drawn uniformly from
    /// [-MAX_DELTA, MAX_DELTA], and clamps the result to [0,255].
    pub fn mutate(&mut self, mutation_ppm: u32)
        ensures
            mutate3_ok(*old(self), *final(self)),
            mutation_ppm == 0 ==> *final(self) == *old(self),
    {
        let roll = rand_below(PPM_SCALE);
        if roll < mutation_ppm {
            let c = rand_below(3);
            let d = rand_below(2 * MAX_DELTA + 1) as i32 - MAX_DELTA as i32;
            let v = if c == 0 {
                self.r
            } else if c == 1 {
                self.g
            } else {
                self.b
            };
            let nv = apply_delta(v, d);
            if c == 0 {
                self.r = nv;
            } else if c == 1 {
                self.g = nv;
            } else {
                self.b = nv;
            }
            proof {
                let cc = c as int;
                let dd = d as int;
                assert(*self == set_channel3(
                    *old(self),
                    cc,
                    clamp_channel(channel3(*old(self), cc) + dd) as u8,
                ));
                assert(mutate3_ok(*old(self), *self));
            }
        } else {
            proof {
                assert(clamp_channel(channel3(*old(self), 0) + 0) as u8 == old(self).r);
                assert(*self == set_channel3(
                    *old(self),
                    0,
                    clamp_channel(channel3(*old(self), 0) + 0) as u8,
                ));
            }
        }
    }
}

impl GeneRgba {
    /// Draws each channel independently and uniformly from [0,255].
    pub fn generate() -> (r: GeneRgba)
        ensures
            0 <= r.r <= 255,
            0 <= r.g <= 255,
            0 <= r.b <= 255,
            0 <= r.a <= 255,
    {
        GeneRgba {
            r: rand_below(256) as u8,
            g: rand_below(256) as u8,
            b: rand_below(256) as u8,
            a: rand_below(256) as u8,
        }
    }

    /// With probability `mutation_ppm / PPM_SCALE`, picks a count `k`
    /// uniformly in [0,4], then `k` distinct channel indices without
    /// replacement, and overwrites each picked channel with a fresh uniform
    /// value in [0,255]. A count of zero leaves the gene unchanged.
    pub fn mutate(&mut self, mutation_ppm: u32)
        ensures
            mutate4_ok(*old(self), *final(self)),
            mutation_ppm == 0 ==> *final(self) == *old(self),
    {
        let roll = rand_below(PPM_SCALE);
        if roll < mutation_ppm {
            let k = rand_below(5) as usize;
            let mut order: Vec<u8> = vec![0u8, 1u8, 2u8, 3u8];
            let mut t: usize = 0;
            while t < k
                invariant
                    t <= k <= 4,
                    order@.len() == 4,
                    forall|i: int| 0 <= i < 4 ==> 0 <= #[trigger] order@[i] < 4,
                    forall|i: int, j: int| 0 <= i < j < 4 ==> order@[i] != order@[j],
                decreases k - t,
            {
                let j = t + rand_below((4 - t) as u32) as usize;
                let a = order[t];
                let b = order[j];
                order[t] = b;
                order[j] = a;
                t = t + 1;
            }
            let ghost pre = *self;
            let mut t2: usize = 0;
            while t2 < k
                invariant
                    t2 <= k <= 4,
                    order@.len() == 4,
                    forall|i: int| 0 <= i < 4 ==> 0 <= #[trigger] order@[i] < 4,
                    forall|i: int, j: int| 0 <= i < j < 4 ==> order@[i] != order@[j],
                    untouched4(pre, *self, picked_of(order@, t2 as int)),
                decreases k - t2,
            {
                let ghost before = *self;
                let c = order[t2];
                let v = rand_below(256) as u8;
                if c == 0 {
                    self.r = v;
                } else if c == 1 {
                    self.g = v;
                } else if c == 2 {
                    self.b = v;
                } else {
                    self.a = v;
                }
                proof {
                    let c0 = order@[t2 as int] as int;
                    let prev = picked_of(order@, t2 as int);
                    let next = picked_of(order@, t2 as int + 1);
                    assert(untouched4(pre, before, prev));
                    assert(next =~= prev.push(c0));
                    assert(next[t2 as int] == c0);
                    assert forall|cc: int| 0 <= cc < 4 && !next.contains(cc) implies channel4(
                        *self,
                        cc,
                    ) == channel4(pre, cc) by {
                        assert(next.contains(c0));
                        assert(cc != c0);
                        assert forall|i: int| 0 <= i < prev.len() implies prev[i] != cc by {
                            assert(next[i] == prev[i]);
                        }
                        assert(!prev.contains(cc));
                        assert(channel4(before, cc) == channel4(pre, cc));
                        assert(channel4(*self, cc) == channel4(before, cc));
                    }
                    assert(untouched4(pre, *self, next));
                }
                t2 = t2 + 1;
            }
            proof {
                let picked = picked_of(order@, k as int);
                assert(picked.no_duplicates()) by {
                    assert(forall|i: int, j: int|
                        0 <= i < picked.len() && 0 <= j < picked.len() && i != j
                            ==> #[trigger] picked[i] != #[trigger] picked[j]);
                }
                assert(picked.len() <= 4);
                assert(forall|i: int| 0 <= i < picked.len() ==> 0 <= #[trigger] picked[i] < 4);
                assert(untouched4(pre, *self, picked));
                assert(mutate4_ok(*old(self), *self));
            }
        } else {
            proof {
                let picked = Seq::<int>::empty();
                assert(picked.no_duplicates());
                assert(untouched4(*old(self), *self, picked));
                assert(mutate4_ok(*old(self), *self));
            }
        }
    }
}

} // verus!
