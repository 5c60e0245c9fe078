//! A small pseudo-random number generator: a linear congruential step, a
//! 64-bit xorshift and a multiply-with-carry, combined as in the
//! generator `Ran` of Press, Teukolsky, Vetterling and Flannery,
//! *Numerical Recipes*, third edition (2007), pages 342 and 343.

use vstd::prelude::*;

verus! {

/// The state of the generator, as three numbers.
pub struct RngState {
    pub u: u64,
    pub v: u64,
    pub w: u64,
}

/// The xorshift of the generator.
pub open spec fn xorshift(v: u64) -> u64 {
    let a = v ^ (v >> 17);
    let b = a ^ (a << 31);
    b ^ (b >> 8)
}

/// The state after one number has been drawn.  The products and sums
/// of the first and the last line wrap round at 64 bits.
pub open spec fn step(s: RngState) -> RngState {
    RngState {
        u: s.u.wrapping_mul(2862933555777941757).wrapping_add(7046029254386353087),
        v: xorshift(s.v),
        w: (4294957665 * (s.w & 0xffff_ffff) + (s.w >> 32)) as u64,
    }
}

/// The number that is drawn on the way into state `s`.
pub open spec fn output(s: RngState) -> u64 {
    let a = s.u ^ (s.u << 21);
    let b = a ^ (a >> 35);
    let x = b ^ (b << 4);
    x.wrapping_add(s.v) ^ s.w
}

/// The state of a generator that has been seeded with `j`.
pub open spec fn seeded(j: u64) -> RngState {
    let s0 = RngState { u: j ^ 4101842887655102017, v: 4101842887655102017, w: 1 };
    let s1 = step(s0);
    let s2 = step(RngState { v: s1.u, ..s1 });
    step(RngState { w: s2.v, ..s2 })
}

/// The generator.
pub struct Rng {
    u: u64,
    v: u64,
    w: u64,
}

impl View for Rng {
    type V = RngState;

    closed spec fn view(&self) -> RngState {
        RngState { u: self.u, v: self.v, w: self.w }
    }
}

impl Rng {
    /// A generator seeded with `j`.  Equal seeds give equal generators.
    pub fn new(j: u64) -> (rng: Rng)
        ensures
            rng@ == seeded(j),
    {
        let v: u64 = 4101842887655102017;
        let w: u64 = 1;
        let u: u64 = j ^ v;
        let mut rng = Rng { u, v, w };
        rng.gen_u64();
        rng.v = rng.u;
        rng.gen_u64();
        rng.w = rng.v;
        rng.gen_u64();
        rng
    }

    /// Draws the next number.
    pub fn gen_u64(&mut self) -> (r: u64)
        ensures
            final(self)@ == step(old(self)@),
            r == output(final(self)@),
    {
        self.u = self.u.wrapping_mul(2862933555777941757).wrapping_add(7046029254386353087);
        self.v = self.v ^ (self.v >> 17);
        self.v = self.v ^ (self.v << 31);
        self.v = self.v ^ (self.v >> 8);
        let w = self.w;
        let low: u64 = w & 0xffff_ffff;
        let high: u64 = w >> 32;
        assert(low <= 0xffff_ffff && high <= 0xffff_ffff) by (bit_vector)
            requires
                low == w & 0xffff_ffff,
                high == w >> 32,
        ;
        self.w = 4294957665 * low + high;
        let mut x: u64 = self.u ^ (self.u << 21);
        x = x ^ (x >> 35);
        x = x ^ (x << 4);
        x.wrapping_add(self.v) ^ self.w
    }

    /// Draws the next number and keeps its low 32 bits.
    pub fn gen_u32(&mut self) -> (r: u32)
        ensures
            final(self)@ == step(old(self)@),
            r == output(final(self)@) % 0x1_0000_0000,
    {
        let x = self.gen_u64();
        (x % 0x1_0000_0000) as u32
    }
}

} // verus!
