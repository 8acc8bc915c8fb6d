//! Frame rates as exact fractions.

use vstd::prelude::*;

verus! {

/// The fraction `num / den`. It denotes a number when `den` is not zero.
#[derive(Clone, Copy, Debug, PartialEq, Eq, Structural)]
pub struct Ratio {
    pub num: u32,
    pub den: u32,
}

/// A frame rate of `num / den` frames per second.
#[derive(Clone, Copy, Debug, PartialEq, Eq, Structural)]
pub struct Rate {
    pub num: u64,
    pub den: u64,
}

/// Timing configuration of a source: the configured frame rate, in frames
/// per second, and the factor by which playback is sped up.
#[derive(Clone, Copy, Debug, PartialEq, Eq, Structural)]
pub struct Fps {
    /// Output rate.
    pub fps: Ratio,
    /// Speed multiplier.
    pub speed: Ratio,
}

impl Fps {
    /// The product `fps * speed` as a fraction, neither reduced nor rounded.
    pub open spec fn product(self) -> Rate {
        Rate {
            num: (self.fps.num * self.speed.num) as u64,
            den: (self.fps.den * self.speed.den) as u64,
        }
    }

    /// The base frame rate of a source with this configuration: the
    /// configured rate times the speed multiplier.
    pub fn base_rate(&self) -> (rate: Rate)
        ensures
            rate == self.product(),
            rate.num == self.fps.num * self.speed.num,
            rate.den == self.fps.den * self.speed.den,
    {
        let fps_num: u64 = self.fps.num as u64;
        let fps_den: u64 = self.fps.den as u64;
        let speed_num: u64 = self.speed.num as u64;
        let speed_den: u64 = self.speed.den as u64;
        proof {
            lemma_product_fits(fps_num, speed_num);
            lemma_product_fits(fps_den, speed_den);
        }
        Rate { num: fps_num * speed_num, den: fps_den * speed_den }
    }
}

/// The product of two 32-bit values fits in 64 bits.
proof fn lemma_product_fits(a: u64, b: u64)
    requires
        a <= u32::MAX,
        b <= u32::MAX,
    ensures
        a * b <= u64::MAX,
{
    assert(a * b <= 0xffff_ffff * 0xffff_ffff) by (nonlinear_arith)
        requires
            a <= 0xffff_ffff,
            b <= 0xffff_ffff,
    ;
}

} // verus!
